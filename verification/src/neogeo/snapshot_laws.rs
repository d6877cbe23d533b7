//! What captures at a hit promise: the ranges that are captured, and the arming that follows.

use vstd::prelude::*;
use crate::encoding;
use crate::gdb::GdbStep;
use crate::json;
use crate::json::JsonView;
use crate::neogeo::breakpoint_laws;
use crate::neogeo::hits;
use crate::neogeo::laws;
use crate::neogeo::machine::MachineView;
use crate::neogeo::params;
use crate::neogeo::params::NeoGeoSnapshot;
use crate::neogeo::NeoGeoProfile;
use crate::text;

verus! {

proof fn range_words_differ()
    ensures
        "memory_type"@ != "address"@,
        "memory_type"@ != "length"@,
        "memory_type"@ != "hex"@,
        "address"@ != "length"@,
        "address"@ != "hex"@,
        "length"@ != "hex"@,
{
    reveal_strlit("memory_type");
    reveal_strlit("address");
    reveal_strlit("length");
    reveal_strlit("hex");
    assert("memory_type"@.len() == 11);
    assert("address"@.len() == 7);
    assert("length"@.len() == 6);
    assert("hex"@.len() == 3);
}

/// Whether a range is the one of an entry: the work memory, an address and a length, between colons.
pub open spec fn is_range_of(range: NeoGeoSnapshot, entry: JsonView) -> bool {
    entry.as_text() matches Some(raw) && {
        let parts = text::pieces(raw, ':');
        &&& parts.len() == 3
        &&& params::text_number(parts[1]) == Some(range.address)
        &&& params::text_number(parts[2]) == Some(range.length)
    }
}

/// The lengths of the first `n` ranges together.
pub open spec fn lengths_of(ranges: Seq<NeoGeoSnapshot>, n: nat) -> nat
    decreases n,
{
    if n == 0 {
        0
    } else {
        lengths_of(ranges, (n - 1) as nat) + ranges[n - 1].length as nat
    }
}

proof fn lengths_stay(a: Seq<NeoGeoSnapshot>, b: Seq<NeoGeoSnapshot>, n: nat)
    requires
        n <= a.len(),
        n <= b.len(),
        forall|i: int| 0 <= i < n ==> a[i] == b[i],
    ensures
        lengths_of(a, n) == lengths_of(b, n),
    decreases n,
{
    if n > 0 {
        lengths_stay(a, b, (n - 1) as nat);
    }
}

/// The ranges that a breakpoint captures are those of the entries, in their order; each lies in the work
/// memory, and together they are no more than can be captured.
pub proof fn ranges_are_those_of_the_entries(profile: NeoGeoProfile, entries: Seq<JsonView>)
    ensures
        params::entry_snapshots(profile, entries) matches Ok((ranges, total)) ==> {
            &&& ranges.len() == entries.len()
            &&& total == lengths_of(ranges, ranges.len())
            &&& total <= 0x4000
            &&& forall|i: int|
                0 <= i < ranges.len() ==> {
                    &&& is_range_of(#[trigger] ranges[i], entries[i])
                    &&& ranges[i].length > 0
                    &&& ranges[i].address + ranges[i].length <= laws::ram_length(profile)
                }
        },
    decreases entries.len(),
{
    if entries.len() > 0 {
        let front = entries.drop_last();
        ranges_are_those_of_the_entries(profile, front);
        if let Ok((ranges, total)) = params::entry_snapshots(profile, entries) {
            let (earlier, sum) = params::entry_snapshots(profile, front)->Ok_0;
            lengths_stay(ranges, earlier, earlier.len());
            assert forall|i: int| 0 <= i < ranges.len() implies {
                &&& is_range_of(#[trigger] ranges[i], entries[i])
                &&& ranges[i].length > 0
                &&& ranges[i].address + ranges[i].length <= laws::ram_length(profile)
            } by {
                if i < earlier.len() {
                    assert(ranges[i] == earlier[i]);
                    assert(front[i] == entries[i]);
                }
            }
        }
    }
}

proof fn ranges_are_told(range: NeoGeoSnapshot, reply: Seq<char>)
    ensures
        hits::captured(range, reply) matches Ok(row) ==> is_capture(row, range, reply),
{
    broadcast use json::added_is_found;

    range_words_differ();
}

/// Whether a row tells of a range the bytes of a reply, of which there are as many as the range holds.
pub open spec fn is_capture(row: JsonView, range: NeoGeoSnapshot, reply: Seq<char>) -> bool {
    &&& row.unsigned_field("address"@) == Some(range.address)
    &&& row.unsigned_field("length"@) == Some(range.length)
    &&& encoding::hex_bytes(text::trimmed(reply)) matches Some(bytes) && bytes.len()
        == range.length && row.text_field("hex"@) == Some(encoding::hex_text(bytes))
}

/// Whether a step of the connection read a range of the work memory, and a row tells what it gave.
pub open spec fn was_read(
    step: GdbStep,
    profile: NeoGeoProfile,
    range: NeoGeoSnapshot,
    row: JsonView,
) -> bool {
    step matches GdbStep::Sent { payload, reply: Ok(raw) } && payload == (("m"@ + text::hexadecimal(
        (laws::ram_start(profile) + range.address) as nat,
    )) + ","@) + text::hexadecimal(range.length as nat) && is_capture(row, range, raw)
}

proof fn ranges_are_read(
    h: Seq<GdbStep>,
    n: int,
    s: MachineView,
    ranges: Seq<NeoGeoSnapshot>,
    i: int,
    done: Seq<JsonView>,
)
    requires
        0 <= i <= ranges.len(),
        done.len() == i,
    ensures
        hits::capture_run(h, n, s, ranges, i, done) matches Some((m, t, r)) ==> {
            &&& t == s
            &&& r matches Ok(rows) ==> {
                &&& m == n + ranges.len() - i
                &&& rows.len() == ranges.len()
                &&& forall|k: int| 0 <= k < i ==> #[trigger] rows[k] == done[k]
                &&& forall|k: int|
                    i <= k < ranges.len() ==> was_read(
                        h[n + k - i],
                        s.profile,
                        ranges[k],
                        #[trigger] rows[k],
                    )
            }
        },
    decreases ranges.len() - i,
{
    if i < ranges.len() {
        if let Some((m, t, Ok(rows))) = hits::capture_run(h, n, s, ranges, i, done) {
            let raw = h[n]->Sent_reply->Ok_0;
            ranges_are_told(ranges[i], raw);
            let row = hits::captured(ranges[i], raw)->Ok_0;
            let more = done.push(row);
            ranges_are_read(h, n + 1, s, ranges, i + 1, more);
            assert(rows[i] == more[i]);
            assert forall|k: int| 0 <= k < i implies #[trigger] rows[k] == done[k] by {
                assert(rows[k] == more[k]);
            }
            assert forall|k: int| i <= k < ranges.len() implies was_read(
                h[n + k - i],
                s.profile,
                ranges[k],
                #[trigger] rows[k],
            ) by {
                if k > i {
                    assert(h[n + k - i] == h[(n + 1) + k - (i + 1)]);
                }
            }
        } else if let Some((m, t, Err(e))) = hits::capture_run(h, n, s, ranges, i, done) {
            if params::ram_place(s.profile, ranges[i].address, ranges[i].length) is Ok {
                if h[n]->Sent_reply is Ok {
                    let raw = h[n]->Sent_reply->Ok_0;
                    if let Ok(row) = hits::captured(ranges[i], raw) {
                        ranges_are_read(h, n + 1, s, ranges, i + 1, done.push(row));
                    }
                }
            }
        }
    }
}

/// A capture that succeeds reads each of its ranges once, in their order, and tells the bytes that were
/// answered. It changes nothing.
pub proof fn captures_read_their_ranges(
    h: Seq<GdbStep>,
    n: int,
    s: MachineView,
    ranges: Seq<NeoGeoSnapshot>,
)
    ensures
        hits::capture_run(h, n, s, ranges, 0, Seq::empty()) matches Some((m, t, r)) ==> {
            &&& t == s
            &&& r matches Ok(rows) ==> {
                &&& m == n + ranges.len()
                &&& rows.len() == ranges.len()
                &&& forall|k: int|
                    0 <= k < ranges.len() ==> was_read(
                        h[n + k],
                        s.profile,
                        ranges[k],
                        #[trigger] rows[k],
                    )
            }
        },
{
    ranges_are_read(h, n, s, ranges, 0, Seq::empty());
}

/// A breakpoint that is armed again after its hit is armed as before: by the number of its kind, at its
/// address, over as many addresses as it covers. It goes by the number that the machine answers, and no
/// other breakpoint changes.
pub proof fn hit_breakpoints_are_armed_again(
    h: Seq<GdbStep>,
    n: int,
    s: MachineView,
    i: int,
    j: int,
)
    requires
        0 <= i < s.bps.len(),
        0 <= j < s.bps.len(),
    ensures
        hits::rearm_run(h, n, s, i) matches Some((m, t, r)) ==> {
            let b = s.bps[i];
            &&& t.bps.len() == s.bps.len()
            &&& j != i ==> t.bps[j] == s.bps[j]
            &&& t.bps[i].id == b.id && t.bps[i].kind == b.kind && t.bps[i].start == b.start
                && t.bps[i].end == b.end
            &&& r matches Ok(id) ==> {
                &&& m == n + 1
                &&& t.bps[i].backend_id == Some(id)
                &&& t.bps[i].armed is Ok
                &&& b.start <= b.end
                &&& h[n] matches GdbStep::Sent { payload, reply: Ok(_) } && payload == laws::command(
                    "setpoint"@,
                    ((((breakpoint_laws::protocol_number(b.kind) + "|"@) + text::hexadecimal(
                        b.absolute_start as nat,
                    )) + "|"@) + text::hexadecimal((b.end - b.start + 1) as nat)) + "|1|"@,
                )
            }
            &&& r is Err ==> t.bps[i].armed is Err
        },
{
}

} // verus!
