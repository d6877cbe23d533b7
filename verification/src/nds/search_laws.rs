//! What a search for a pattern promises: which matches are told, and which bytes they are found in.

use vstd::prelude::*;
use crate::encoding;
use crate::gdb::{GdbStep, GdbTransport};
use crate::json;
use crate::json::JsonView;
use crate::nds::bridge;
use crate::nds::bridge::{Cores, NdsBridge, Wires};
use crate::nds::commands;
use crate::nds::cpu;
use crate::nds::cpu::CoreView;
use crate::nds::decode;
use crate::nds::laws;
use crate::nds::memory;
use crate::nds::memory::FindPlan;
use crate::nds::service;
use crate::nds::service::Operation;
use crate::nds::{CpuId, NdsErrorView, MAX_READ_CHUNK};

verus! {

/// Whether bytes hold a pattern at a place.
pub open spec fn holds_at(bytes: Seq<u8>, pattern: Seq<u8>, at: int) -> bool {
    &&& 0 <= at
    &&& at + pattern.len() <= bytes.len()
    &&& forall|k: int| 0 <= k < pattern.len() ==> bytes[at + k] == #[trigger] pattern[k]
}

proof fn standing_is_holding(bytes: Seq<u8>, pattern: Seq<u8>, at: int)
    ensures
        decode::stands_at(bytes, pattern, at) == holds_at(bytes, pattern, at),
{
    if 0 <= at && at + pattern.len() <= bytes.len() {
        let part = bytes.subrange(at, at + pattern.len());
        if part == pattern {
            assert forall|k: int| 0 <= k < pattern.len() implies bytes[at + k] == #[trigger] pattern[k] by {
                assert(part[k] == bytes[at + k]);
            }
        }
        if holds_at(bytes, pattern, at) {
            assert(part =~= pattern);
        }
    }
}

proof fn hits_hold(bytes: Seq<u8>, pattern: Seq<u8>, align: u64, end: nat)
    requires
        align > 0,
        pattern.len() > 0,
    ensures
        ({
            let places = decode::hits_before(bytes, pattern, align, end);
            &&& forall|i: int|
                0 <= i < places.len() ==> 0 <= #[trigger] places[i] < end && places[i] % (align as int)
                    == 0 && holds_at(bytes, pattern, places[i])
            &&& forall|i: int, j: int|
                0 <= i < j < places.len() ==> #[trigger] places[i] < #[trigger] places[j]
            &&& forall|at: int|
                0 <= at < end && at % (align as int) == 0 && #[trigger] holds_at(bytes, pattern, at)
                    ==> places.contains(at)
        }),
    decreases end,
{
    let places = decode::hits_before(bytes, pattern, align, end);
    if end > 0 {
        let last = end - 1;
        let earlier = decode::hits_before(bytes, pattern, align, last as nat);
        hits_hold(bytes, pattern, align, last as nat);
        standing_is_holding(bytes, pattern, last);
        assert forall|i: int| 0 <= i < places.len() implies 0 <= #[trigger] places[i] < end && places[i]
            % (align as int) == 0 && holds_at(bytes, pattern, places[i]) by {
            if i < earlier.len() {
                assert(places[i] == earlier[i]);
            }
        }
        assert forall|i: int, j: int| 0 <= i < j < places.len() implies #[trigger] places[i]
            < #[trigger] places[j] by {
            assert(places[i] == earlier[i]);
            if j < earlier.len() {
                assert(places[j] == earlier[j]);
            }
        }
        assert forall|at: int|
            0 <= at < end && at % (align as int) == 0 && #[trigger] holds_at(bytes, pattern, at) implies places.contains(
        at) by {
            if at < last {
                let i = choose|i: int| 0 <= i < earlier.len() && earlier[i] == at;
                assert(places[i] == at);
            } else {
                assert(places[places.len() - 1] == at);
            }
        }
    }
}

/// Whether the answers to packets are the bytes of a range, part by part.
pub open spec fn answers_hold(steps: Seq<GdbStep>, bytes: Seq<u8>) -> bool {
    forall|k: int|
        0 <= k < steps.len() ==> encoding::hex_bytes(laws::answer(#[trigger] steps[k])) == Some(
            bytes.subrange(k * 0x2000, k * 0x2000 + laws::part_of(bytes.len() as int, k)),
        )
}

proof fn regions_are_read(
    h: Seq<GdbStep>,
    n: int,
    core: CoreView,
    address: u64,
    length: u64,
    offset: int,
    read: Seq<u8>,
)
    requires
        0 <= offset <= length,
        address + length <= u64::MAX,
    ensures
        bridge::region_run(h, n, core, address, length, offset, read) matches Some(
            (m, _, Ok(bytes)),
        ) ==> {
            let steps = laws::sent(h, n, m);
            &&& n <= m
            &&& laws::reads_range(steps, address + offset, length - offset)
            &&& bytes.len() == read.len() + (length - offset)
            &&& bytes.take(read.len() as int) == read
            &&& laws::undisturbed(steps) ==> answers_hold(steps, bytes.skip(read.len() as int))
        },
    decreases length - offset,
{
    if offset >= length {
        assert(read.take(read.len() as int) =~= read);
    } else {
        let chunk = commands::chunk_of(length - offset, MAX_READ_CHUNK);
        let at = (address + offset) as u64;
        laws::core_reads_cover_the_range(h, n, core, at, chunk as u64);
        if let Some((k, c, Ok(hex))) = commands::read_run(h, n, core, at, chunk as u64) {
            if let Some(part) = encoding::hex_bytes(hex) {
                if part.len() == chunk {
                    regions_are_read(h, k, c, address, length, offset + chunk, read + part);
                    if let Some((m, d, Ok(bytes))) = bridge::region_run(
                        h,
                        k,
                        c,
                        address,
                        length,
                        offset + chunk,
                        read + part,
                    ) {
                        laws::sent_joins(h, n, k, m);
                        let first = laws::sent(h, n, k);
                        let rest = laws::sent(h, k, m);
                        let all = laws::sent(h, n, m);
                        assert(first.len() == 1);
                        assert forall|q: int| 0 <= q < all.len() implies laws::asks(
                            #[trigger] all[q],
                            (("m"@ + crate::text::hexadecimal(
                                (address + offset + q * 0x2000) as nat,
                            )) + ","@) + crate::text::hexadecimal(
                                laws::part_of(length - offset, q) as nat,
                            ),
                        ) by {
                            if q == 0 {
                                assert(all[0] == first[0]);
                                assert(laws::part_of(length - offset, 0) == laws::part_of(chunk, 0));
                            } else {
                                assert(all[q] == rest[q - 1]);
                                assert(address + (offset + chunk) + (q - 1) * 0x2000 == address
                                    + offset + q * 0x2000);
                                assert(laws::part_of(length - (offset + chunk), q - 1)
                                    == laws::part_of(length - offset, q));
                            }
                        }
                        let both = read + part;
                        assert(bytes.take(read.len() as int) =~= both.take(read.len() as int)) by {
                            assert(bytes.take(both.len() as int).take(read.len() as int)
                                =~= bytes.take(read.len() as int));
                        }
                        assert(both.take(read.len() as int) =~= read);
                        if laws::undisturbed(all) {
                            assert(first[0] == all[0]);
                            assert(laws::undisturbed(first));
                            assert forall|q: int| 0 <= q < rest.len() implies !crate::gdb::is_stop(
                                laws::answer(#[trigger] rest[q]),
                            ) by {
                                assert(rest[q] == all[q + 1]);
                            }
                            assert(first =~= seq![first[0]]);
                            single_answers(first[0]);
                            let found = bytes.skip(read.len() as int);
                            let later = bytes.skip(both.len() as int);
                            assert forall|q: int| 0 <= q < all.len() implies encoding::hex_bytes(
                                laws::answer(#[trigger] all[q]),
                            ) == Some(
                                found.subrange(
                                    q * 0x2000,
                                    q * 0x2000 + laws::part_of(found.len() as int, q),
                                ),
                            ) by {
                                if q == 0 {
                                    assert(all[0] == first[0]);
                                    assert(laws::part_of(found.len() as int, 0) == chunk);
                                    assert(bytes.take(both.len() as int) == both);
                                    assert(found.subrange(0, chunk) =~= part) by {
                                        assert forall|i: int| 0 <= i < chunk implies found[i]
                                            == part[i] by {
                                            assert(found[i] == bytes.take(both.len() as int)[read.len()
                                                + i]);
                                        }
                                    }
                                } else {
                                    assert(all[q] == rest[q - 1]);
                                    assert(chunk == 0x2000);
                                    let size = laws::part_of(found.len() as int, q);
                                    assert(laws::part_of(later.len() as int, q - 1) == size);
                                    assert(0 <= size && q * 0x2000 + size <= found.len());
                                    assert(later.subrange(
                                        (q - 1) * 0x2000,
                                        (q - 1) * 0x2000 + size,
                                    ) =~= found.subrange(q * 0x2000, q * 0x2000 + size));
                                }
                            }
                        }
                    }
                }
            }
        }
    }
}

proof fn single_answers(step: GdbStep)
    ensures
        laws::answers(seq![step]) == laws::answer(step),
{
    reveal_with_fuel(laws::answers, 2);
    assert(seq![step].drop_last() =~= Seq::empty());
    assert(Seq::<char>::empty() + laws::answer(step) =~= laws::answer(step));
}

/// A snapshot that succeeds reads exactly its range from its core, and gives the bytes of the
/// answers.
pub proof fn snapshots_read_the_range(w: Wires, s: Cores, id: CpuId, address: u64, length: u64)
    requires
        address + length <= u64::MAX,
    ensures
        bridge::snapshot_on(w, s, id, address, length) matches Some((t, Ok(bytes))) ==> {
            let steps = laws::sent_to(w, s, t, id);
            &&& bytes.len() == length
            &&& laws::reads_range(steps, address as int, length as int)
            &&& laws::undisturbed(steps) ==> answers_hold(steps, bytes)
        },
{
    if let Some((t, Ok(bytes))) = bridge::snapshot_on(w, s, id, address, length) {
        laws::pauses_send_nothing(w.nine, s.nine.0, s.nine.1);
        let (n, c, again) = {
            let (n, c, r) = cpu::enter_run(w.nine, s.nine.0, s.nine.1)->0;
            (n, c, r->Ok_0)
        };
        match id {
            CpuId::Arm9 => {
                regions_are_read(w.nine, n, c, address, length, 0, Seq::empty());
                let (k, d, r) = bridge::region_run(
                    w.nine,
                    n,
                    c,
                    address,
                    length,
                    0,
                    Seq::empty(),
                )->0;
                laws::leaving_sends_nothing(w.nine, k, d, again);
                let (m, e) = cpu::leave_run(w.nine, k, d, again)->0;
                laws::sent_joins(w.nine, s.nine.0, n, k);
                laws::sent_joins(w.nine, s.nine.0, k, m);
                assert(t.nine.0 == m);
                assert(laws::sent(w.nine, s.nine.0, m) =~= laws::sent(w.nine, n, k));
                assert(bytes.skip(0) =~= bytes);
            },
            CpuId::Arm7 => {
                let (a, b) = s.seven->0;
                laws::pauses_send_nothing(w.seven, a, b);
                let (n7, c7, r7) = cpu::enter_run(w.seven, a, b)->0;
                let also = r7->Ok_0;
                regions_are_read(w.seven, n7, c7, address, length, 0, Seq::empty());
                let (k, d, r) = bridge::region_run(
                    w.seven,
                    n7,
                    c7,
                    address,
                    length,
                    0,
                    Seq::empty(),
                )->0;
                laws::leaving_sends_nothing(w.seven, k, d, also);
                let (m, e) = cpu::leave_run(w.seven, k, d, also)->0;
                laws::sent_joins(w.seven, a, n7, k);
                laws::sent_joins(w.seven, a, k, m);
                assert(t.seven == Some((m, e)));
                assert(laws::sent(w.seven, a, m) =~= laws::sent(w.seven, n7, k));
                assert(bytes.skip(0) =~= bytes);
            },
        }
    }
}

proof fn words_differ()
    ensures
        "matches"@ != "count"@,
        "matches"@ != "truncated"@,
        "matches"@ != "truncated_scan"@,
        "matches"@ != "truncated_matches"@,
        "matches"@ != "scanned"@,
        "matches"@ != "start"@,
        "matches"@ != "memory_type"@,
        "matches"@ != "cpu"@,
        "count"@ != "truncated"@,
        "count"@ != "truncated_scan"@,
        "count"@ != "truncated_matches"@,
        "count"@ != "scanned"@,
        "count"@ != "start"@,
        "count"@ != "memory_type"@,
        "count"@ != "cpu"@,
        "truncated"@ != "truncated_scan"@,
        "truncated"@ != "truncated_matches"@,
        "truncated"@ != "scanned"@,
        "truncated"@ != "start"@,
        "truncated"@ != "memory_type"@,
        "truncated"@ != "cpu"@,
        "truncated_scan"@ != "truncated_matches"@,
        "truncated_scan"@ != "scanned"@,
        "truncated_scan"@ != "start"@,
        "truncated_scan"@ != "memory_type"@,
        "truncated_scan"@ != "cpu"@,
        "truncated_matches"@ != "scanned"@,
        "truncated_matches"@ != "start"@,
        "truncated_matches"@ != "memory_type"@,
        "truncated_matches"@ != "cpu"@,
        "scanned"@ != "start"@,
        "scanned"@ != "memory_type"@,
        "scanned"@ != "cpu"@,
        "start"@ != "memory_type"@,
        "start"@ != "cpu"@,
        "memory_type"@ != "cpu"@,
{
    reveal_strlit("matches");
    reveal_strlit("count");
    reveal_strlit("truncated");
    reveal_strlit("truncated_scan");
    reveal_strlit("truncated_matches");
    reveal_strlit("scanned");
    reveal_strlit("start");
    reveal_strlit("memory_type");
    reveal_strlit("cpu");
    assert("matches"@.len() == 7);
    assert("count"@.len() == 5);
    assert("truncated"@.len() == 9);
    assert("truncated_scan"@.len() == 14);
    assert("truncated_matches"@.len() == 17);
    assert("scanned"@.len() == 7);
    assert("start"@.len() == 5);
    assert("memory_type"@.len() == 11);
    assert("cpu"@.len() == 3);
    assert("matches"@[0] == 'm');
    assert("count"@[0] == 'c');
    assert("scanned"@[0] == 's');
    assert("start"@[0] == 's');
}

/// Whether matches are told of bytes as asked for: each is a place at which the pattern stands, at a
/// multiple of the alignment from the start on, in order. A place that is left out lies behind the
/// last one that is told, and there are as many as may be told.
pub open spec fn tells_matches(
    told: Seq<JsonView>,
    bytes: Seq<u8>,
    pattern: Seq<u8>,
    start: u64,
    align: u64,
    most: int,
) -> bool {
    &&& told.len() <= most
    &&& forall|i: int|
        0 <= i < told.len() ==> (#[trigger] told[i] matches JsonView::Unsigned(at) && at >= start && (
        at - start) % (align as int) == 0 && holds_at(bytes, pattern, at - start))
    &&& forall|i: int, j: int|
        0 <= i < j < told.len() ==> (#[trigger] told[i])->Unsigned_0 < (
        #[trigger] told[j])->Unsigned_0
    &&& forall|at: int|
        at % (align as int) == 0 && #[trigger] holds_at(bytes, pattern, at) ==> told.contains(
            JsonView::Unsigned((start + at) as u64),
        ) || (told.len() == most && told.last()->Unsigned_0 < start + at)
}

proof fn reports_tell_matches(plan: FindPlan, bytes: Seq<u8>)
    requires
        plan.align > 0,
        plan.pattern.len() > 0,
        1 <= plan.most <= 4096,
        plan.start + bytes.len() <= u64::MAX,
    ensures
        ({
            let report = memory::find_report(plan, bytes);
            &&& report.field("matches"@) matches Some(JsonView::Array(told)) && tells_matches(
                told,
                bytes,
                plan.pattern,
                plan.start,
                plan.align,
                plan.most as int,
            ) && report.unsigned_field("count"@) == Some(told.len() as u64)
            &&& report.unsigned_field("scanned"@) == Some(plan.scanned)
            &&& report.unsigned_field("start"@) == Some(plan.start)
            &&& report.truth_field("truncated_scan"@) == Some(plan.truncated)
            &&& report.text_field("memory_type"@) == Some(plan.memory_type)
        }),
{
    broadcast use json::added_is_found;

    words_differ();
    let places = decode::hits(bytes, plan.pattern, plan.align);
    hits_hold(bytes, plan.pattern, plan.align, bytes.len());
    let found = decode::matches_from(places, plan.start, plan.most as nat);
    let told = json::number_array(found)->Array_0;
    assert forall|i: int| 0 <= i < told.len() implies (#[trigger] told[i] matches JsonView::Unsigned(at)
        && at >= plan.start && (at - plan.start) % (plan.align as int) == 0 && holds_at(
        bytes,
        plan.pattern,
        at - plan.start,
    )) by {
        assert(found[i] == plan.start + places[i]);
    }
    assert forall|i: int, j: int| 0 <= i < j < told.len() implies (#[trigger] told[i])->Unsigned_0 < (
    #[trigger] told[j])->Unsigned_0 by {
        assert(found[i] == plan.start + places[i]);
        assert(found[j] == plan.start + places[j]);
    }
    assert forall|at: int|
        at % (plan.align as int) == 0 && #[trigger] holds_at(bytes, plan.pattern, at) implies told.contains(
        JsonView::Unsigned((plan.start + at) as u64)) || (told.len() == plan.most
        && told.last()->Unsigned_0 < plan.start + at) by {
        assert(places.contains(at));
        let i = choose|i: int| 0 <= i < places.len() && places[i] == at;
        if i < told.len() {
            assert(found[i] == plan.start + at);
            assert(told[i] == JsonView::Unsigned((plan.start + at) as u64));
        } else {
            let last = told.len() - 1;
            assert(found[last] == plan.start + places[last]);
            assert(places[last] < places[i]);
        }
    }
}

/// A number of a request, or a default where it tells none.
pub open spec fn told_or(params: JsonView, key: Seq<char>, default: u64) -> Option<u64> {
    match params.field(key) {
        None => Some(default),
        Some(_) => params.unsigned_field(key),
    }
}

/// The most matches that a search may tell: between one and four thousand and ninety-six.
pub open spec fn bounded(most: u64) -> int {
    if most == 0 {
        1
    } else if most > 4096 {
        4096
    } else {
        most as int
    }
}

/// The distance between places that are looked at; an alignment of zero means each place.
pub open spec fn spacing(align: u64) -> u64 {
    if align == 0 {
        1
    } else {
        align
    }
}

proof fn plans_are_as_told(
    params: JsonView,
    pattern: Seq<u8>,
    start: u64,
    align: u64,
    most: u64,
)
    requires
        params.text_field("hex"@) matches Some(hex) && encoding::hex_bytes(hex) == Some(pattern),
        told_or(params, "start"@, 0) == Some(start),
        told_or(params, "align"@, 1) == Some(align),
        told_or(params, "max_matches"@, 256) == Some(most),
    ensures
        memory::find_plan(params) matches Ok(plan) ==> {
            let name = laws::memory_named(params, "main"@);
            &&& name == "main"@ || name == "arm9"@ || name == "arm7"@
            &&& plan.region.cpu == (if name == "arm7"@ {
                CpuId::Arm7
            } else {
                CpuId::Arm9
            })
            &&& plan.region.base == laws::base_named(name)
            &&& plan.pattern == pattern && pattern.len() > 0
            &&& plan.start == start
            &&& plan.align == spacing(align)
            &&& plan.most == bounded(most)
            &&& plan.scanned <= 0x2_0000
            &&& plan.scanned == 0 || start + plan.scanned <= laws::size_named(name)
            &&& told_or(params, "length"@, laws::size_named(name) as u64) matches Some(length)
                ==> plan.scanned <= length
        },
{
    laws::names_differ();
}

/// A search that succeeds tells the places, counted from the beginning of its memory, at which the
/// pattern stands in the bytes that were read: those at a multiple of the alignment from the start
/// on, all of them in order, as far as they may be told. The bytes are those of its core from the
/// start on, inside its memory.
pub proof fn searches_tell_the_aligned_matches<G: GdbTransport>(
    before: NdsBridge<G>,
    after: NdsBridge<G>,
    params: JsonView,
    r: Result<JsonView, NdsErrorView>,
    pattern: Seq<u8>,
    start: u64,
    align: u64,
    most: u64,
)
    requires
        service::operation_does(before, after, Operation::FindPattern, params, r),
        params.text_field("hex"@) matches Some(hex) && encoding::hex_bytes(hex) == Some(pattern),
        told_or(params, "start"@, 0) == Some(start),
        told_or(params, "align"@, 1) == Some(align),
        told_or(params, "max_matches"@, 256) == Some(most),
    ensures
        r matches Ok(report) ==> {
            let name = laws::memory_named(params, "main"@);
            let cpu = if name == "arm7"@ {
                CpuId::Arm7
            } else {
                CpuId::Arm9
            };
            let steps = laws::sent_to(after.wires(), before.cores(), after.cores(), cpu);
            &&& pattern.len() > 0
            &&& name == "main"@ || name == "arm9"@ || name == "arm7"@
            &&& report.unsigned_field("scanned"@) matches Some(scanned) && {
                &&& scanned <= 0x2_0000
                &&& scanned == 0 || start + scanned <= laws::size_named(name)
                &&& told_or(
                    params,
                    "length"@,
                    laws::size_named(name) as u64,
                ) matches Some(length) ==> scanned <= length
                &&& laws::reads_range(steps, laws::base_named(name) + start, scanned as int)
            }
            &&& report.field("matches"@) matches Some(JsonView::Array(told)) && exists|bytes: Seq<u8>|
                {
                    &&& #[trigger] tells_matches(
                        told,
                        bytes,
                        pattern,
                        start,
                        spacing(align),
                        bounded(most),
                    )
                    &&& Some(bytes.len() as u64) == report.unsigned_field("scanned"@)
                    &&& laws::undisturbed(steps) ==> answers_hold(steps, bytes)
                }
        },
{
    plans_are_as_told(params, pattern, start, align, most);
    if let Ok(plan) = memory::find_plan(params) {
        let address = (plan.region.base + plan.start) as u64;
        if plan.scanned == 0 {
            reports_tell_matches(plan, Seq::empty());
            assert(laws::sent_to(
                after.wires(),
                before.cores(),
                after.cores(),
                plan.region.cpu,
            ).len() == 0);
            if let Ok(report) = r {
                let told = report.field("matches"@)->0->Array_0;
                assert(tells_matches(
                    told,
                    Seq::empty(),
                    pattern,
                    start,
                    spacing(align),
                    bounded(most),
                ));
            }
        } else {
            snapshots_read_the_range(
                after.wires(),
                before.cores(),
                plan.region.cpu,
                address,
                plan.scanned,
            );
            if let Some((cores, Ok(bytes))) = bridge::snapshot_on(
                after.wires(),
                before.cores(),
                plan.region.cpu,
                address,
                plan.scanned,
            ) {
                reports_tell_matches(plan, bytes);
                if let Ok(report) = r {
                    let told = report.field("matches"@)->0->Array_0;
                    assert(tells_matches(
                        told,
                        bytes,
                        pattern,
                        start,
                        spacing(align),
                        bounded(most),
                    ));
                }
            }
        }
    }
}

} // verus!
