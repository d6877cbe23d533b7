//! What captures at a hit promise: the ranges that are captured, and how they are told.

use vstd::prelude::*;
use crate::encoding;
use crate::json;
use crate::json::JsonView;
use crate::n64::breakpoints::PublicBreakpointView;
use crate::n64::debug;
use crate::n64::debug::SnapshotSpec;
use crate::n64::hits;
use crate::n64::hits::Trigger;
use crate::n64::params;
use crate::n64::N64ErrorView;
use crate::text;

verus! {

proof fn range_words_differ()
    ensures
        "memory_type"@ != "address"@,
        "memory_type"@ != "length"@,
        "memory_type"@ != "hex"@,
        "address"@ != "length"@,
        "address"@ != "hex"@,
        "length"@ != "hex"@,
{
    reveal_strlit("memory_type");
    reveal_strlit("address");
    reveal_strlit("length");
    reveal_strlit("hex");
    assert("memory_type"@.len() == 11);
    assert("address"@.len() == 7);
    assert("length"@.len() == 6);
    assert("hex"@.len() == 3);
}

proof fn evidence_words_differ()
    ensures
        "snapshot"@ != "evidence_complete"@,
        "snapshot"@ != "evidence_error"@,
        "snapshot"@ != "regs"@,
        "evidence_complete"@ != "evidence_error"@,
        "evidence_complete"@ != "regs"@,
        "evidence_error"@ != "regs"@,
{
    reveal_strlit("snapshot");
    reveal_strlit("evidence_complete");
    reveal_strlit("evidence_error");
    reveal_strlit("regs");
    assert("snapshot"@.len() == 8);
    assert("evidence_complete"@.len() == 17);
    assert("evidence_error"@.len() == 14);
    assert("regs"@.len() == 4);
}

/// Whether a range is the one of an entry: the main memory, an offset and a length, between colons.
pub open spec fn is_range_of(range: SnapshotSpec, entry: JsonView) -> bool {
    entry.as_text() matches Some(raw) && {
        let parts = text::pieces(raw, ':');
        &&& parts.len() == 3
        &&& parts[0] == "rdram"@
        &&& params::text_number(parts[1]) == Some(range.offset)
        &&& params::text_number(parts[2]) == Some(range.length)
    }
}

/// The lengths of the first `n` ranges together.
pub open spec fn lengths_of(ranges: Seq<SnapshotSpec>, n: nat) -> nat
    decreases n,
{
    if n == 0 {
        0
    } else {
        lengths_of(ranges, (n - 1) as nat) + ranges[n - 1].length as nat
    }
}

proof fn lengths_stay(a: Seq<SnapshotSpec>, b: Seq<SnapshotSpec>, n: nat)
    requires
        n <= a.len(),
        n <= b.len(),
        forall|i: int| 0 <= i < n ==> a[i] == b[i],
    ensures
        lengths_of(a, n) == lengths_of(b, n),
    decreases n,
{
    if n > 0 {
        lengths_stay(a, b, (n - 1) as nat);
    }
}

proof fn lengths_are_counted(ranges: Seq<SnapshotSpec>)
    ensures
        debug::snapshot_bytes(ranges) == lengths_of(ranges, ranges.len()),
    decreases ranges.len(),
{
    if ranges.len() > 0 {
        lengths_are_counted(ranges.drop_last());
        lengths_stay(ranges, ranges.drop_last(), (ranges.len() - 1) as nat);
    }
}

/// The ranges that a breakpoint captures are those of the entries, in their order; each lies in the main
/// memory, and together they are no more than can be captured.
pub proof fn ranges_are_those_of_the_entries(entries: Seq<JsonView>)
    ensures
        debug::snapshot_entries(entries) matches Ok(ranges) ==> {
            &&& ranges.len() == entries.len()
            &&& lengths_of(ranges, ranges.len()) <= 0x4000
            &&& forall|i: int|
                0 <= i < ranges.len() ==> {
                    &&& is_range_of(#[trigger] ranges[i], entries[i])
                    &&& ranges[i].length > 0
                    &&& ranges[i].offset + ranges[i].length <= 0x80_0000
                }
        },
    decreases entries.len(),
{
    if entries.len() > 0 {
        let front = entries.drop_last();
        ranges_are_those_of_the_entries(front);
        if let Ok(ranges) = debug::snapshot_entries(entries) {
            let earlier = debug::snapshot_entries(front)->Ok_0;
            lengths_are_counted(earlier);
            lengths_stay(ranges, earlier, earlier.len());
            assert forall|i: int| 0 <= i < ranges.len() implies {
                &&& is_range_of(#[trigger] ranges[i], entries[i])
                &&& ranges[i].length > 0
                &&& ranges[i].offset + ranges[i].length <= 0x80_0000
            } by {
                if i < earlier.len() {
                    assert(ranges[i] == earlier[i]);
                    assert(front[i] == entries[i]);
                }
            }
        }
    }
}

proof fn ranges_are_told(range: SnapshotSpec, data: Seq<u8>)
    ensures
        ({
            let row = hits::capture_report(range, data);
            &&& row.text_field("memory_type"@) == Some("rdram"@)
            &&& row.unsigned_field("address"@) == Some(range.offset)
            &&& row.unsigned_field("length"@) == Some(range.length)
            &&& row.text_field("hex"@) == Some(encoding::hex_text(data))
        }),
{
    broadcast use json::added_is_found;

    range_words_differ();
}

proof fn evidence_is_told(head: JsonView, regs: JsonView, ranges: JsonView, why: JsonView)
    requires
        head is Object,
    ensures
        ({
            let whole = head.with("regs"@, regs).with("snapshot"@, ranges).with(
                "evidence_complete"@,
                JsonView::Bool(true),
            );
            whole.field("snapshot"@) == Some(ranges) && whole.field("regs"@) == Some(regs)
                && whole.truth_field("evidence_complete"@) == Some(true)
        }),
        ({
            let part = head.with("snapshot"@, ranges).with(
                "evidence_complete"@,
                JsonView::Bool(false),
            ).with("evidence_error"@, why);
            part.field("snapshot"@) == Some(ranges) && part.truth_field("evidence_complete"@) == Some(
                false,
            )
        }),
{
    broadcast use json::added_is_found;

    evidence_words_differ();
}

/// A hit tells each captured range of its breakpoint with the bytes that were captured of it, and says
/// that its evidence is complete exactly where the registers could be read.
pub proof fn hits_tell_what_was_captured(
    b: PublicBreakpointView,
    trigger: Trigger,
    hit_seq: u64,
    report: Result<JsonView, N64ErrorView>,
    captured: Seq<Seq<u8>>,
    i: int,
)
    requires
        0 <= i < b.spec.snapshots.len(),
    ensures
        ({
            let event = hits::hit_event(b, trigger, hit_seq, report, captured);
            &&& event.truth_field("evidence_complete"@) == Some(report is Ok)
            &&& event.field("snapshot"@) matches Some(JsonView::Array(rows)) && {
                &&& rows.len() == b.spec.snapshots.len()
                &&& rows[i].text_field("memory_type"@) == Some("rdram"@)
                &&& rows[i].unsigned_field("address"@) == Some(b.spec.snapshots[i].offset)
                &&& rows[i].unsigned_field("length"@) == Some(b.spec.snapshots[i].length)
                &&& rows[i].text_field("hex"@) == Some(encoding::hex_text(captured[i]))
            }
            &&& report matches Ok(state) ==> event.field("regs"@) == Some(state.at("state"@))
        }),
{
    ranges_are_told(b.spec.snapshots[i], captured[i]);
    let ranges = JsonView::Array(
        Seq::new(
            b.spec.snapshots.len(),
            |k: int| hits::capture_report(b.spec.snapshots[k], captured[k]),
        ),
    );
    let head = hits::hit_head(b, trigger, hit_seq);
    match report {
        Ok(state) => {
            evidence_is_told(head, state.at("state"@), ranges, JsonView::Null);
        },
        Err(e) => {
            evidence_is_told(
                head,
                JsonView::Null,
                ranges,
                JsonView::Array(
                    seq![JsonView::Str("register capture failed: "@ + e.sentence())],
                ),
            );
        },
    }
}

} // verus!
