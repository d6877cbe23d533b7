//! Breakpoints, and the events of the stops that they cause.

use vstd::prelude::*;
use crate::gdb::GdbTransport;
use crate::json;
use crate::json::{Json, JsonView};
use crate::live::exchange;
use crate::nds;
use crate::nds::bridge;
use crate::nds::bridge::{Cores, NdsBreakpoint, NdsBridge, Wires};
use crate::nds::commands;
use crate::nds::cpu::CoreView;
use crate::nds::decode;
use crate::nds::support;
use crate::nds::{CpuId, NdsBridgeError, NdsErrorView};
use crate::text;

verus! {

/// A refusal of what the stub cannot do.
pub open spec fn lacks<T>(message: Seq<char>) -> Result<T, NdsErrorView> {
    Err(NdsErrorView::Unsupported(message))
}

/// The message that a filter is not there.
pub open spec fn filter_message(name: Seq<char>) -> Seq<char> {
    ("nds bridge: "@ + name) + " 미지원 — 단일 주소 exec BP만(GDB Z0/Z1)"@
}

/// Whether a filter that the stub cannot do is left out.
pub open spec fn filter_check(params: JsonView, name: Seq<char>) -> Result<(), NdsErrorView> {
    match support::optional(params, name) {
        Err(e) => Err(e),
        Ok(Some(_)) => lacks(filter_message(name)),
        Ok(None) => Ok(()),
    }
}

/// Whether the range of a breakpoint is a single address.
pub open spec fn single_check(params: JsonView) -> Result<(), NdsErrorView> {
    match support::optional(params, "start"@) {
        Err(e) => Err(e),
        Ok(start) => match support::optional(params, "end"@) {
            Err(e) => Err(e),
            Ok(end) => if start is Some && end is Some && start != end {
                lacks("nds bridge: 범위 BP 미지원 — 단일 주소 exec만(start==end)"@)
            } else {
                Ok(())
            },
        },
    }
}

/// Whether the ways of a breakpoint are ones that the stub has: it always halts, and keeps nothing.
pub open spec fn ways_check(params: JsonView) -> Result<(), NdsErrorView> {
    if params.truth_field("pause_on_hit"@) == Some(false) {
        lacks("nds bridge: pause_on_hit=false 미지원 — GDB BP는 항상 코어를 halt한다"@)
    } else if params.truth_field("auto_savestate"@) == Some(true) {
        lacks("nds bridge: auto_savestate 미지원"@)
    } else if params.field("snapshot"@) is Some && params.field("snapshot"@)->0.as_items() is Some
        && params.field("snapshot"@)->0.as_items()->0.len() > 0 {
        lacks("nds bridge: snapshot 미지원 — 히트 후 read_memory로 직접 캡처하라"@)
    } else {
        Ok(())
    }
}

/// The kind of a breakpoint.
pub open spec fn kind_of(params: JsonView) -> Seq<char> {
    match params.text_field("kind"@) {
        Some(s) => s,
        None => "exec"@,
    }
}

/// Whether a breakpoint is one that the stub can set: a single address of code.
pub open spec fn shape_check(params: JsonView) -> Result<(), NdsErrorView> {
    if kind_of(params) != "exec"@ {
        support::bad(
            "nds bridge supports exec breakpoints (kind=exec); got kind="@ + kind_of(params),
        )
    } else {
        match single_check(params) {
            Err(e) => Err(e),
            Ok(()) => match filter_check(params, "pc_min"@) {
                Err(e) => Err(e),
                Ok(()) => match filter_check(params, "pc_max"@) {
                    Err(e) => Err(e),
                    Ok(()) => match filter_check(params, "value"@) {
                        Err(e) => Err(e),
                        Ok(()) => ways_check(params),
                    },
                },
            },
        }
    }
}

/// Whether a breakpoint is to be set in hardware.
pub open spec fn is_hardware(params: JsonView) -> bool {
    params.truth_field("hardware"@) == Some(true)
}

/// The packet that sets or clears a breakpoint.
pub open spec fn bp_packet(verb: Seq<char>, hardware: bool, address: u64) -> Seq<char> {
    let kind = if hardware {
        "1"@
    } else {
        "0"@
    };
    (((verb + kind) + ","@) + text::hexadecimal(address as nat)) + ",4"@
}

/// The report of a breakpoint that was set.
pub open spec fn bp_report(bp: NdsBreakpoint) -> JsonView {
    JsonView::object().with("id"@, JsonView::Unsigned(bp.id)).with(
        "cpu"@,
        JsonView::Str(bp.cpu.name()),
    ).with("address"@, JsonView::Unsigned(bp.address)).with(
        "hardware"@,
        JsonView::Bool(bp.hardware),
    )
}

/// Whether an operation left alone everything but the cores and the breakpoints.
pub open spec fn cores_moved<G: GdbTransport>(before: NdsBridge<G>, after: NdsBridge<G>) -> bool {
    &&& bridge::wires_go_on(before.wires(), after.wires())
    &&& before.arm7 is Some == after.arm7 is Some
    &&& after.env == before.env
    &&& after.events == before.events
}

/// What setting a breakpoint comes to.
pub open spec fn set_breakpoint_does<G: GdbTransport>(
    before: NdsBridge<G>,
    after: NdsBridge<G>,
    params: JsonView,
    r: Result<JsonView, NdsErrorView>,
) -> bool {
    match shape_check(params) {
        Err(e) => bridge::idle(before, after) && r == Err::<JsonView, _>(e),
        Ok(()) => match support::routed(params, 4) {
            Err(e) => bridge::idle(before, after) && r == Err::<JsonView, _>(e),
            Ok((cpu, address)) => {
                let bp = NdsBreakpoint {
                    id: before.next_bp,
                    cpu,
                    address,
                    hardware: is_hardware(params),
                };
                match bridge::cmd_on(
                    after.wires(),
                    before.cores(),
                    cpu,
                    bp_packet("Z"@, bp.hardware, address),
                ) {
                    None => false,
                    Some((cores, Err(e))) => bridge::kept(before, after) && after.cores() == cores
                        && r == Err::<JsonView, _>(e),
                    Some((cores, Ok(reply))) => after.cores() == cores && if reply != "OK"@ {
                        bridge::kept(before, after) && r == commands::fault::<JsonView>(
                            "GDB breakpoint set failed: "@ + reply,
                        )
                    } else {
                        &&& cores_moved(before, after)
                        &&& after.bps@ == before.bps@.push(bp)
                        &&& after.next_bp == exchange::capped_sum(before.next_bp, 1)
                        &&& r == Ok::<_, NdsErrorView>(bp_report(bp))
                    },
                }
            },
        },
    }
}

/// The place of the breakpoint with a number.
pub open spec fn place_of(bps: Seq<NdsBreakpoint>, id: u64) -> Option<int>
    decreases bps.len(),
{
    if bps.len() == 0 {
        None
    } else if bps[0].id == id {
        Some(0)
    } else {
        match place_of(bps.drop_first(), id) {
            Some(i) => Some(i + 1),
            None => None,
        }
    }
}

proof fn place_from(bps: Seq<NdsBreakpoint>, id: u64, i: int)
    requires
        0 <= i <= bps.len(),
        forall|k: int| 0 <= k < i ==> (#[trigger] bps[k]).id != id,
    ensures
        place_of(bps, id) == (match place_of(bps.skip(i), id) {
            Some(k) => Some(k + i),
            None => None,
        }),
    decreases i,
{
    if i == 0 {
        assert(bps.skip(0) =~= bps);
    } else {
        assert forall|k: int| 0 <= k < i - 1 implies (#[trigger] bps.drop_first()[k]).id != id by {
            assert(bps.drop_first()[k] == bps[k + 1]);
        }
        place_from(bps.drop_first(), id, i - 1);
        assert(bps.drop_first().skip(i - 1) =~= bps.skip(i));
        assert(bps[0].id != id);
    }
}

fn find_bp(bps: &Vec<NdsBreakpoint>, id: u64) -> (r: Option<usize>)
    ensures
        r matches Some(i) ==> i < bps@.len() && place_of(bps@, id) == Some(i as int),
        r is None ==> place_of(bps@, id) is None,
{
    let mut i: usize = 0;
    while i < bps.len()
        invariant
            i <= bps.len(),
            forall|k: int| 0 <= k < i ==> (#[trigger] bps@[k]).id != id,
        decreases bps.len() - i,
    {
        if bps[i].id == id {
            proof {
                place_from(bps@, id, i as int);
                assert(bps@.skip(i as int)[0] == bps@[i as int]);
            }
            return Some(i);
        }
        i += 1;
    }
    proof {
        place_from(bps@, id, i as int);
        assert(bps@.skip(i as int) =~= Seq::empty());
    }
    None
}

/// Clearing the breakpoint with a number: the cores and the breakpoints after it.
pub open spec fn clear_on(w: Wires, s: Cores, bps: Seq<NdsBreakpoint>, id: u64) -> Option<
    (Cores, Seq<NdsBreakpoint>, Result<(), NdsErrorView>),
> {
    match place_of(bps, id) {
        None => Some(
            (s, bps, support::bad("unknown breakpoint id: "@ + text::decimal(id as int))),
        ),
        Some(i) => {
            let bp = bps[i];
            match bridge::cmd_on(w, s, bp.cpu, bp_packet("z"@, bp.hardware, bp.address)) {
                None => None,
                Some((t, Err(e))) => Some((t, bps, Err(e))),
                Some((t, Ok(reply))) => if reply != "OK"@ && reply != "E00"@ {
                    Some((t, bps, commands::fault("GDB breakpoint clear failed: "@ + reply)))
                } else {
                    Some((t, bps.remove(i), Ok(())))
                },
            }
        },
    }
}

/// What clearing a breakpoint comes to.
pub open spec fn clear_breakpoint_does<G: GdbTransport>(
    before: NdsBridge<G>,
    after: NdsBridge<G>,
    params: JsonView,
    r: Result<JsonView, NdsErrorView>,
) -> bool {
    match support::required(params, "id"@) {
        Err(e) => bridge::idle(before, after) && r == Err::<JsonView, _>(e),
        Ok(id) => {
            &&& cores_moved(before, after)
            &&& after.next_bp == before.next_bp
            &&& clear_on(after.wires(), before.cores(), before.bps@, id) matches Some(
                (cores, bps, result),
            ) && after.cores() == cores && after.bps@ == bps && r == (match result {
                Ok(()) => Ok(JsonView::object().with("cleared"@, JsonView::Unsigned(id))),
                Err(e) => Err(e),
            })
        },
    }
}

/// The row of a breakpoint in a list.
pub open spec fn bp_row(bp: NdsBreakpoint) -> JsonView {
    JsonView::object().with("id"@, JsonView::Unsigned(bp.id)).with(
        "cpu"@,
        JsonView::Str(bp.cpu.name()),
    ).with("kind"@, JsonView::Str("exec"@)).with("address"@, JsonView::Unsigned(bp.address)).with(
        "hardware"@,
        JsonView::Bool(bp.hardware),
    )
}

/// The list of breakpoints.
pub open spec fn bp_list(bps: Seq<NdsBreakpoint>) -> JsonView {
    JsonView::object().with(
        "breakpoints"@,
        JsonView::Array(Seq::new(bps.len(), |i: int| bp_row(bps[i]))),
    )
}

/// Clearing breakpoints one after the other, from one on; those that could be cleared are told.
pub open spec fn clear_all_on(
    w: Wires,
    s: Cores,
    bps: Seq<NdsBreakpoint>,
    ids: Seq<u64>,
    i: int,
    cleared: Seq<JsonView>,
) -> Option<(Cores, Seq<NdsBreakpoint>, Seq<JsonView>)>
    decreases ids.len() - i,
{
    if i >= ids.len() || i < 0 {
        Some((s, bps, cleared))
    } else {
        match clear_on(w, s, bps, ids[i]) {
            None => None,
            Some((t, rest, Err(_))) => clear_all_on(w, t, rest, ids, i + 1, cleared),
            Some((t, rest, Ok(()))) => clear_all_on(
                w,
                t,
                rest,
                ids,
                i + 1,
                cleared.push(JsonView::Unsigned(ids[i])),
            ),
        }
    }
}

/// The numbers of breakpoints.
pub open spec fn ids_of(bps: Seq<NdsBreakpoint>) -> Seq<u64> {
    Seq::new(bps.len(), |i: int| bps[i].id)
}

/// What clearing all breakpoints comes to.
pub open spec fn clear_all_does<G: GdbTransport>(
    before: NdsBridge<G>,
    after: NdsBridge<G>,
    r: Result<JsonView, NdsErrorView>,
) -> bool {
    &&& cores_moved(before, after)
    &&& after.next_bp == before.next_bp
    &&& clear_all_on(
        after.wires(),
        before.cores(),
        before.bps@,
        ids_of(before.bps@),
        0,
        Seq::empty(),
    ) matches Some((cores, bps, cleared)) && after.cores() == cores && after.bps@ == bps && r == Ok::<
        _,
        NdsErrorView,
    >(JsonView::object().with("cleared"@, JsonView::Array(cleared)))
}

/// The number of the first breakpoint that stands at an address of a core.
pub open spec fn bp_at(bps: Seq<NdsBreakpoint>, cpu: CpuId, address: u64) -> Option<u64>
    decreases bps.len(),
{
    if bps.len() == 0 {
        None
    } else if bps[0].cpu == cpu && bps[0].address == address {
        Some(bps[0].id)
    } else {
        bp_at(bps.drop_first(), cpu, address)
    }
}

proof fn bp_from(bps: Seq<NdsBreakpoint>, cpu: CpuId, address: u64, i: int)
    requires
        0 <= i <= bps.len(),
        forall|k: int|
            0 <= k < i ==> !((#[trigger] bps[k]).cpu == cpu && bps[k].address == address),
    ensures
        bp_at(bps, cpu, address) == bp_at(bps.skip(i), cpu, address),
    decreases i,
{
    if i == 0 {
        assert(bps.skip(0) =~= bps);
    } else {
        assert forall|k: int| 0 <= k < i - 1 implies !((#[trigger] bps.drop_first()[k]).cpu == cpu
            && bps.drop_first()[k].address == address) by {
            assert(bps.drop_first()[k] == bps[k + 1]);
        }
        bp_from(bps.drop_first(), cpu, address, i - 1);
        assert(bps.drop_first().skip(i - 1) =~= bps.skip(i));
        assert(!(bps[0].cpu == cpu && bps[0].address == address));
    }
}

fn bp_standing_at(bps: &Vec<NdsBreakpoint>, cpu: CpuId, address: u64) -> (r: Option<u64>)
    ensures
        r == bp_at(bps@, cpu, address),
{
    let mut i: usize = 0;
    while i < bps.len()
        invariant
            i <= bps.len(),
            forall|k: int|
                0 <= k < i ==> !((#[trigger] bps@[k]).cpu == cpu && bps@[k].address == address),
        decreases bps.len() - i,
    {
        if bps[i].cpu == cpu && bps[i].address == address {
            proof {
                bp_from(bps@, cpu, address, i as int);
                assert(bps@.skip(i as int)[0] == bps@[i as int]);
            }
            return Some(bps[i].id);
        }
        i += 1;
    }
    proof {
        bp_from(bps@, cpu, address, i as int);
        assert(bps@.skip(i as int) =~= Seq::empty());
    }
    None
}

/// The core of an event.
pub open spec fn event_cpu(event: JsonView) -> CpuId {
    if event.text_field("cpu"@) == Some("arm7"@) {
        CpuId::Arm7
    } else {
        CpuId::Arm9
    }
}

/// An event with the registers of its core, or with why they could not be read.
pub open spec fn with_registers(event: JsonView, read: Result<Seq<char>, NdsErrorView>) -> JsonView {
    match read {
        Err(e) => event.put("regs_error"@, JsonView::Str(e.sentence())),
        Ok(packet) => {
            let state = decode::state_of(packet);
            let placed = if event.field("pc"@) is None && state.field("cpu.pc"@) is Some {
                event.put("pc"@, state.field("cpu.pc"@)->0)
            } else {
                event
            };
            placed.put("regs"@, state)
        },
    }
}

/// The program counter of an event: its own, or that of its registers.
pub open spec fn event_pc(event: JsonView) -> Option<u64> {
    if event.unsigned_field("pc"@) is Some {
        event.unsigned_field("pc"@)
    } else {
        event.at("regs"@).unsigned_field("cpu.pc"@)
    }
}

/// An event made one of the breakpoint that stands where its core does.
pub open spec fn attributed(event: JsonView, bps: Seq<NdsBreakpoint>) -> JsonView {
    match event_pc(event) {
        None => event,
        Some(pc) => match bp_at(bps, event_cpu(event), pc) {
            None => event,
            Some(id) => event.put("type"@, JsonView::Str("breakpoint_hit"@)).put(
                "kind"@,
                JsonView::Str("exec"@),
            ).put("address"@, JsonView::Unsigned(pc)).put("id"@, JsonView::Unsigned(id)).put(
                "breakpoint_id"@,
                JsonView::Unsigned(id),
            ),
        },
    }
}

/// Completing an event with the registers of its core and the breakpoint that it is of.
pub open spec fn enrich_on(w: Wires, s: Cores, bps: Seq<NdsBreakpoint>, event: JsonView) -> Option<
    (Cores, JsonView),
> {
    if event.field("regs"@) is Some {
        Some((s, attributed(event, bps)))
    } else {
        match bridge::regs_on(w, s, event_cpu(event)) {
            None => None,
            Some((t, read)) => Some((t, attributed(with_registers(event, read), bps))),
        }
    }
}

/// Completing events one after the other, from one on.
pub open spec fn enrich_all_on(
    w: Wires,
    s: Cores,
    bps: Seq<NdsBreakpoint>,
    events: Seq<JsonView>,
    i: int,
    complete: Seq<JsonView>,
) -> Option<(Cores, Seq<JsonView>)>
    decreases events.len() - i,
{
    if i >= events.len() || i < 0 {
        Some((s, complete))
    } else {
        match enrich_on(w, s, bps, events[i]) {
            None => None,
            Some((t, event)) => enrich_all_on(w, t, bps, events, i + 1, complete.push(event)),
        }
    }
}

/// The cores without the events that they hold.
pub open spec fn emptied(s: Cores) -> Cores {
    Cores {
        nine: (s.nine.0, CoreView { events: Seq::empty(), ..s.nine.1 }),
        seven: match s.seven {
            Some((n, c)) => Some((n, CoreView { events: Seq::empty(), ..c })),
            None => None,
        },
    }
}

/// The events that the cores hold.
pub open spec fn held_events(s: Cores) -> Seq<JsonView> {
    s.nine.1.events + match s.seven {
        Some((_, c)) => c.events,
        None => Seq::empty(),
    }
}

/// Whether a poll asks for an event.
pub open spec fn is_wanted(event: JsonView, filter: Option<u64>) -> bool {
    filter is Some ==> event.unsigned_field("id"@) == filter
}

/// The events that a poll asks for, or those that it does not, in order.
pub open spec fn chosen(events: Seq<JsonView>, filter: Option<u64>, wanted: bool) -> Seq<JsonView>
    decreases events.len(),
{
    if events.len() == 0 {
        Seq::empty()
    } else {
        let earlier = chosen(events.drop_last(), filter, wanted);
        if is_wanted(events.last(), filter) == wanted {
            earlier.push(events.last())
        } else {
            earlier
        }
    }
}

/// What a poll comes to: the stops of both cores are taken and completed, those asked for told,
/// and the others held back.
pub open spec fn poll_events_does<G: GdbTransport>(
    before: NdsBridge<G>,
    after: NdsBridge<G>,
    params: JsonView,
    r: Result<JsonView, NdsErrorView>,
) -> bool {
    match support::optional(params, "breakpoint_id"@) {
        Err(e) => bridge::idle(before, after) && r == Err::<JsonView, _>(e),
        Ok(filter) => match bridge::drain_on(after.wires(), before.cores()) {
            None => false,
            Some((s, Err(e))) => bridge::kept(before, after) && after.cores() == s && r == Err::<
                JsonView,
                _,
            >(e),
            Some((s, Ok(()))) => match enrich_all_on(
                after.wires(),
                emptied(s),
                before.bps@,
                held_events(s),
                0,
                Seq::empty(),
            ) {
                None => false,
                Some((t, fresh)) => {
                    let all = json::views(before.events@) + fresh;
                    &&& bridge::wires_go_on(before.wires(), after.wires())
                    &&& after.env == before.env
                    &&& after.bps == before.bps
                    &&& after.next_bp == before.next_bp
                    &&& after.cores() == t
                    &&& json::views(after.events@) == chosen(all, filter, false)
                    &&& r == Ok::<_, NdsErrorView>(
                        JsonView::object().with(
                            "events"@,
                            JsonView::Array(chosen(all, filter, true)),
                        ).with("dropped"@, JsonView::Unsigned(0)),
                    )
                },
            },
        },
    }
}

/// No event is lost by a poll: each of them is either told or held back.
pub proof fn polled_events_are_kept(events: Seq<JsonView>, filter: Option<u64>)
    ensures
        chosen(events, filter, true).len() + chosen(events, filter, false).len() == events.len(),
        events.to_multiset() =~= chosen(events, filter, true).to_multiset().add(
            chosen(events, filter, false).to_multiset(),
        ),
    decreases events.len(),
{
    broadcast use vstd::seq_lib::group_to_multiset_ensures;

    if events.len() > 0 {
        polled_events_are_kept(events.drop_last(), filter);
        assert(events =~= events.drop_last().push(events.last()));
    }
}

/// Whether the breakpoints have numbers of their own, in the order in which they were set.
pub open spec fn well_numbered(bps: Seq<NdsBreakpoint>, next: u64) -> bool {
    &&& forall|i: int, j: int|
        0 <= i < j < bps.len() ==> (#[trigger] bps[i]).id < (#[trigger] bps[j]).id
    &&& forall|i: int| 0 <= i < bps.len() ==> (#[trigger] bps[i]).id < next
}

/// Setting a breakpoint gives it a number of its own, as long as there are numbers left, and
/// clearing one takes no number from another.
pub proof fn numbers_stay_their_own(bps: Seq<NdsBreakpoint>, next: u64, bp: NdsBreakpoint, i: int)
    requires
        well_numbered(bps, next),
    ensures
        next < u64::MAX && bp.id == next ==> well_numbered(bps.push(bp), (next + 1) as u64),
        0 <= i < bps.len() ==> well_numbered(bps.remove(i), next),
{
}

fn check_filter(params: &Json, name: &str) -> (r: Result<(), NdsBridgeError>)
    ensures
        nds::plain(r) == filter_check(params@, name@),
{
    match support::optional_num(params, name)? {
        Some(_) => {
            let m = text::join("nds bridge: ", name);
            Err(
                NdsBridgeError::Unsupported(
                    text::join(m.as_str(), " 미지원 — 단일 주소 exec BP만(GDB Z0/Z1)"),
                ),
            )
        },
        None => Ok(()),
    }
}

fn check_single(params: &Json) -> (r: Result<(), NdsBridgeError>)
    ensures
        nds::plain(r) == single_check(params@),
{
    let start = support::optional_num(params, "start")?;
    let end = support::optional_num(params, "end")?;
    if let (Some(start), Some(end)) = (start, end) {
        if start != end {
            return Err(
                NdsBridgeError::Unsupported(
                    "nds bridge: 범위 BP 미지원 — 단일 주소 exec만(start==end)".to_owned(),
                ),
            );
        }
    }
    Ok(())
}

fn check_ways(params: &Json) -> (r: Result<(), NdsBridgeError>)
    ensures
        nds::plain(r) == ways_check(params@),
{
    if let Some(false) = params.get_bool("pause_on_hit") {
        return Err(
            NdsBridgeError::Unsupported(
                "nds bridge: pause_on_hit=false 미지원 — GDB BP는 항상 코어를 halt한다".to_owned(),
            ),
        );
    }
    if let Some(true) = params.get_bool("auto_savestate") {
        return Err(
            NdsBridgeError::Unsupported("nds bridge: auto_savestate 미지원".to_owned()),
        );
    }
    if let Some(snapshot) = params.get("snapshot") {
        if let Some(items) = snapshot.as_array() {
            if items.len() > 0 {
                return Err(
                    NdsBridgeError::Unsupported(
                        "nds bridge: snapshot 미지원 — 히트 후 read_memory로 직접 캡처하라".to_owned(),
                    ),
                );
            }
        }
    }
    Ok(())
}

fn check_shape(params: &Json) -> (r: Result<(), NdsBridgeError>)
    ensures
        nds::plain(r) == shape_check(params@),
{
    let kind = match params.get_str("kind") {
        Some(kind) => kind,
        None => "exec",
    };
    if !text::same(kind, "exec") {
        return Err(
            NdsBridgeError::BadParams(
                text::join(
                    "nds bridge supports exec breakpoints (kind=exec); got kind=",
                    kind,
                ),
            ),
        );
    }
    check_single(params)?;
    check_filter(params, "pc_min")?;
    check_filter(params, "pc_max")?;
    check_filter(params, "value")?;
    check_ways(params)
}

fn bp_text(verb: &str, hardware: bool, address: u64) -> (r: String)
    ensures
        r@ == bp_packet(verb@, hardware, address),
{
    let kind = if hardware {
        "1"
    } else {
        "0"
    };
    let m = text::join(verb, kind);
    let m = text::join(m.as_str(), ",");
    let m = text::join(m.as_str(), text::hexadecimal_of(address).as_str());
    text::join(m.as_str(), ",4")
}

fn cpu_of_event(event: &Json) -> (r: CpuId)
    ensures
        r == event_cpu(event@),
{
    match event.get_str("cpu") {
        Some(name) => if text::same(name, "arm7") {
            CpuId::Arm7
        } else {
            CpuId::Arm9
        },
        None => CpuId::Arm9,
    }
}

fn add_registers(event: Json, read: Result<String, NdsBridgeError>) -> (r: Json)
    ensures
        r@ == with_registers(event@, nds::shown(read)),
{
    match read {
        Err(error) => event.put("regs_error", Json::text(error.message().as_str())),
        Ok(packet) => {
            let state = decode::state_from_arm_regs_hex(packet.as_str());
            let bare = event.get("pc").is_none();
            let pc = match state.get("cpu.pc") {
                Some(pc) => Some(pc.clone()),
                None => None,
            };
            let placed = match pc {
                Some(pc) if bare => event.put("pc", pc),
                _ => event,
            };
            placed.put("regs", state)
        },
    }
}

fn pc_of_event(event: &Json) -> (r: Option<u64>)
    ensures
        r == event_pc(event@),
{
    match event.get_u64("pc") {
        Some(pc) => Some(pc),
        None => event.at("regs").get_u64("cpu.pc"),
    }
}

fn attribute(event: Json, bps: &Vec<NdsBreakpoint>) -> (r: Json)
    ensures
        r@ == attributed(event@, bps@),
{
    let pc: u64 = match pc_of_event(&event) {
        Some(pc) => pc,
        None => {
            return event;
        },
    };
    match bp_standing_at(bps, cpu_of_event(&event), pc) {
        None => event,
        Some(id) => event.put("type", Json::text("breakpoint_hit")).put(
            "kind",
            Json::text("exec"),
        ).put("address", Json::Unsigned(pc)).put("id", Json::Unsigned(id)).put(
            "breakpoint_id",
            Json::Unsigned(id),
        ),
    }
}

fn wants(event: &Json, filter: Option<u64>) -> (r: bool)
    ensures
        r == is_wanted(event@, filter),
{
    match filter {
        None => true,
        Some(id) => match event.get_u64("id") {
            Some(n) => n == id,
            None => false,
        },
    }
}

fn part(events: Vec<Json>, filter: Option<u64>) -> (r: (Vec<Json>, Vec<Json>))
    ensures
        json::views(r.0@) == chosen(json::views(events@), filter, true),
        json::views(r.1@) == chosen(json::views(events@), filter, false),
{
    let ghost all = json::views(events@);
    let mut told: Vec<Json> = Vec::new();
    let mut held: Vec<Json> = Vec::new();
    let mut i: usize = 0;
    assert(all.take(0) =~= Seq::empty());
    assert(json::views(told@) =~= Seq::empty());
    while i < events.len()
        invariant
            i <= events.len(),
            all == json::views(events@),
            json::views(told@) == chosen(all.take(i as int), filter, true),
            json::views(held@) == chosen(all.take(i as int), filter, false),
        decreases events.len() - i,
    {
        proof {
            assert(all.take(i + 1).drop_last() =~= all.take(i as int));
            assert(all.take(i + 1).last() == events@[i as int]@);
        }
        let event = events[i].clone();
        if wants(&event, filter) {
            let ghost earlier = told@;
            told.push(event);
            assert(json::views(told@) =~= json::views(earlier).push(event@));
        } else {
            let ghost earlier = held@;
            held.push(event);
            assert(json::views(held@) =~= json::views(earlier).push(event@));
        }
        i += 1;
    }
    assert(all.take(i as int) =~= all);
    (told, held)
}

impl<G: GdbTransport> NdsBridge<G> {
    /// Sets a breakpoint.
    pub fn set_breakpoint(&mut self, params: &Json) -> (r: Result<Json, NdsBridgeError>)
        ensures
            set_breakpoint_does(*old(self), *final(self), params@, nds::shown(r)),
    {
        check_shape(params)?;
        let hardware = match params.get_bool("hardware") {
            Some(flag) => flag,
            None => false,
        };
        let (cpu, address) = support::route(params, 4)?;
        let sent = self.cmd_of(cpu, bp_text("Z", hardware, address).as_str());
        proof {
            bridge::wires_stay(self.wires());
        }
        let reply = sent?;
        if !text::same(reply.as_str(), "OK") {
            return Err(
                NdsBridgeError::Emulator(
                    text::join("GDB breakpoint set failed: ", reply.as_str()),
                ),
            );
        }
        let id: u64 = self.next_bp;
        self.next_bp = self.next_bp.saturating_add(1);
        self.bps.push(NdsBreakpoint { id, cpu, address, hardware });
        Ok(
            Json::object().with("id", Json::Unsigned(id)).with("cpu", Json::text(cpu.as_str())).with(
                "address",
                Json::Unsigned(address),
            ).with("hardware", Json::Bool(hardware)),
        )
    }

    fn clear_one(&mut self, id: u64) -> (r: Result<(), NdsBridgeError>)
        ensures
            cores_moved(*old(self), *final(self)),
            final(self).next_bp == old(self).next_bp,
            forall|w: Wires|
                bridge::wires_go_on(final(self).wires(), w) ==> #[trigger] clear_on(
                    w,
                    old(self).cores(),
                    old(self).bps@,
                    id,
                ) == Some((final(self).cores(), final(self).bps@, nds::plain(r))),
    {
        let i: usize = match find_bp(&self.bps, id) {
            Some(i) => i,
            None => {
                return Err(
                    NdsBridgeError::BadParams(
                        text::join("unknown breakpoint id: ", text::decimal_of(id).as_str()),
                    ),
                );
            },
        };
        let bp = self.bps[i];
        let reply = self.cmd_of(bp.cpu, bp_text("z", bp.hardware, bp.address).as_str())?;
        if !text::same(reply.as_str(), "OK") && !text::same(reply.as_str(), "E00") {
            return Err(
                NdsBridgeError::Emulator(
                    text::join("GDB breakpoint clear failed: ", reply.as_str()),
                ),
            );
        }
        let _gone = self.bps.remove(i);
        Ok(())
    }

    /// Clears a breakpoint.
    pub fn clear_breakpoint(&mut self, params: &Json) -> (r: Result<Json, NdsBridgeError>)
        ensures
            clear_breakpoint_does(*old(self), *final(self), params@, nds::shown(r)),
    {
        let id: u64 = support::required_num(params, "id")?;
        let cleared = self.clear_one(id);
        proof {
            bridge::wires_stay(self.wires());
        }
        cleared?;
        Ok(Json::object().with("cleared", Json::Unsigned(id)))
    }

    /// Lists the breakpoints.
    pub fn list_breakpoints(&self) -> (r: Json)
        ensures
            r@ == bp_list(self.bps@),
    {
        let mut rows: Vec<Json> = Vec::new();
        let mut i: usize = 0;
        while i < self.bps.len()
            invariant
                i <= self.bps@.len(),
                rows@.len() == i,
                forall|k: int| 0 <= k < i ==> (#[trigger] rows@[k])@ == bp_row(self.bps@[k]),
            decreases self.bps.len() - i,
        {
            let bp = self.bps[i];
            rows.push(
                Json::object().with("id", Json::Unsigned(bp.id)).with(
                    "cpu",
                    Json::text(bp.cpu.as_str()),
                ).with("kind", Json::text("exec")).with("address", Json::Unsigned(bp.address)).with(
                    "hardware",
                    Json::Bool(bp.hardware),
                ),
            );
            i += 1;
        }
        let list = Json::array(rows);
        assert(list@->Array_0 =~= Seq::new(self.bps@.len(), |i: int| bp_row(self.bps@[i])));
        Json::object().with("breakpoints", list)
    }

    /// Clears all breakpoints that can be cleared.
    pub fn clear_all_breakpoints(&mut self) -> (r: Result<Json, NdsBridgeError>)
        ensures
            clear_all_does(*old(self), *final(self), nds::shown(r)),
    {
        let ghost s = self.cores();
        let ghost bps = self.bps@;
        let mut ids: Vec<u64> = Vec::new();
        let mut k: usize = 0;
        while k < self.bps.len()
            invariant
                k <= self.bps@.len(),
                *self == *old(self),
                ids@.len() == k,
                forall|j: int| 0 <= j < k ==> ids@[j] == (#[trigger] self.bps@[j]).id,
            decreases self.bps.len() - k,
        {
            ids.push(self.bps[k].id);
            k += 1;
        }
        assert(ids@ =~= ids_of(bps));
        let mut cleared: Vec<Json> = Vec::new();
        let mut i: usize = 0;
        assert(json::views(cleared@) =~= Seq::empty());
        while i < ids.len()
            invariant
                i <= ids@.len(),
                s == old(self).cores(),
                bps == old(self).bps@,
                ids@ == ids_of(bps),
                cores_moved(*old(self), *self),
                self.next_bp == old(self).next_bp,
                forall|w: Wires|
                    bridge::wires_go_on(self.wires(), w) ==> #[trigger] clear_all_on(
                        w,
                        s,
                        bps,
                        ids@,
                        0,
                        Seq::empty(),
                    ) == clear_all_on(
                        w,
                        self.cores(),
                        self.bps@,
                        ids@,
                        i as int,
                        json::views(cleared@),
                    ),
            decreases ids.len() - i,
        {
            let ghost w0 = self.wires();
            let ghost c0 = self.cores();
            let ghost b0 = self.bps@;
            let ghost earlier = json::views(cleared@);
            let done = self.clear_one(ids[i]);
            proof {
                bridge::wires_go_through(w0, self.wires());
                assert forall|w: Wires| bridge::wires_go_on(self.wires(), w) implies {
                    &&& clear_on(w, c0, b0, ids@[i as int]) == Some(
                        (self.cores(), self.bps@, nds::plain(done)),
                    )
                    &&& #[trigger] clear_all_on(w, s, bps, ids@, 0, Seq::empty()) == clear_all_on(
                        w,
                        c0,
                        b0,
                        ids@,
                        i as int,
                        earlier,
                    )
                } by {
                    assert(bridge::wires_go_on(w0, w));
                }
            }
            if done.is_ok() {
                let number = Json::Unsigned(ids[i]);
                cleared.push(number);
                assert(json::views(cleared@) =~= earlier.push(number@));
            }
            i += 1;
        }
        proof {
            bridge::wires_stay(self.wires());
        }
        Ok(Json::object().with("cleared", Json::array(cleared)))
    }

    fn enrich_event(&mut self, event: Json) -> (r: Json)
        ensures
            bridge::kept(*old(self), *final(self)),
            forall|w: Wires|
                bridge::wires_go_on(final(self).wires(), w) ==> #[trigger] enrich_on(
                    w,
                    old(self).cores(),
                    old(self).bps@,
                    event@,
                ) == Some((final(self).cores(), r@)),
    {
        if event.get("regs").is_some() {
            return attribute(event, &self.bps);
        }
        let read = self.regs_of(cpu_of_event(&event));
        attribute(add_registers(event, read), &self.bps)
    }

    fn enrich_all(&mut self, events: &Vec<Json>) -> (r: Vec<Json>)
        ensures
            bridge::kept(*old(self), *final(self)),
            forall|w: Wires|
                bridge::wires_go_on(final(self).wires(), w) ==> #[trigger] enrich_all_on(
                    w,
                    old(self).cores(),
                    old(self).bps@,
                    json::views(events@),
                    0,
                    Seq::empty(),
                ) == Some((final(self).cores(), json::views(r@))),
    {
        let ghost s = self.cores();
        let ghost bps = self.bps@;
        let ghost all = json::views(events@);
        let mut complete: Vec<Json> = Vec::new();
        let mut i: usize = 0;
        assert(json::views(complete@) =~= Seq::empty());
        while i < events.len()
            invariant
                i <= events@.len(),
                s == old(self).cores(),
                bps == old(self).bps@,
                bps == self.bps@,
                all == json::views(events@),
                bridge::kept(*old(self), *self),
                forall|w: Wires|
                    bridge::wires_go_on(self.wires(), w) ==> #[trigger] enrich_all_on(
                        w,
                        s,
                        bps,
                        all,
                        0,
                        Seq::empty(),
                    ) == enrich_all_on(
                        w,
                        self.cores(),
                        bps,
                        all,
                        i as int,
                        json::views(complete@),
                    ),
            decreases events.len() - i,
        {
            let ghost w0 = self.wires();
            let ghost c0 = self.cores();
            let ghost earlier = json::views(complete@);
            let event = self.enrich_event(events[i].clone());
            proof {
                bridge::wires_go_through(w0, self.wires());
                assert(all[i as int] == events@[i as int]@);
                assert forall|w: Wires| bridge::wires_go_on(self.wires(), w) implies {
                    &&& enrich_on(w, c0, bps, all[i as int]) == Some((self.cores(), event@))
                    &&& #[trigger] enrich_all_on(w, s, bps, all, 0, Seq::empty()) == enrich_all_on(
                        w,
                        c0,
                        bps,
                        all,
                        i as int,
                        earlier,
                    )
                } by {
                    assert(bridge::wires_go_on(w0, w));
                }
            }
            complete.push(event);
            assert(json::views(complete@) =~= earlier.push(event@));
            i += 1;
        }
        complete
    }

    fn take_events(&mut self) -> (r: Vec<Json>)
        ensures
            bridge::kept(*old(self), *final(self)),
            final(self).wires() == old(self).wires(),
            final(self).cores() == emptied(old(self).cores()),
            json::views(r@) == held_events(old(self).cores()),
    {
        let ghost nine = self.arm9@.events;
        let mut all: Vec<Json> = Vec::new();
        all.append(&mut self.arm9.events);
        assert(json::views(all@) =~= nine);
        assert(json::views(self.arm9.events@) =~= Seq::empty());
        if let Some(core) = self.arm7.take() {
            let mut core = core;
            let ghost seven = core@.events;
            all.append(&mut core.events);
            assert(json::views(all@) =~= nine + seven);
            assert(json::views(core.events@) =~= Seq::empty());
            self.arm7 = Some(core);
        } else {
            assert(nine + Seq::<JsonView>::empty() =~= nine);
        }
        all
    }

    /// Tells the events that a request asks for, and holds the others back.
    pub fn poll_events(&mut self, params: &Json) -> (r: Result<Json, NdsBridgeError>)
        ensures
            poll_events_does(*old(self), *final(self), params@, nds::shown(r)),
    {
        let filter = support::optional_num(params, "breakpoint_id")?;
        let drained = self.drain_scheduler_stops();
        let ghost w1 = self.wires();
        let ghost c1 = self.cores();
        proof {
            bridge::wires_stay(w1);
        }
        drained?;
        let taken = self.take_events();
        let fresh = self.enrich_all(&taken);
        proof {
            bridge::wires_go_through(w1, self.wires());
            bridge::wires_stay(self.wires());
            assert(bridge::wires_go_on(w1, self.wires()));
            assert(bridge::drain_on(self.wires(), old(self).cores()) == Some(
                (c1, Ok::<(), NdsErrorView>(())),
            ));
        }
        let mut fresh = fresh;
        let ghost new = json::views(fresh@);
        let ghost held = json::views(self.events@);
        let mut all: Vec<Json> = Vec::new();
        all.append(&mut self.events);
        all.append(&mut fresh);
        assert(json::views(all@) =~= held + new);
        let (told, kept) = part(all, filter);
        self.events = kept;
        Ok(
            Json::object().with("events", Json::array(told)).with("dropped", Json::Unsigned(0)),
        )
    }
}

} // verus!
