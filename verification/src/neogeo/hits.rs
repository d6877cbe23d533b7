//! Hits of breakpoints: arming in the machine, and taking the stops that it tells.

use vstd::prelude::*;
use crate::encoding;
use crate::gdb;
use crate::gdb::{GdbStep, GdbTransport};
use crate::json;
use crate::json::{Json, JsonView};
use crate::neogeo;
use crate::neogeo::machine;
use crate::neogeo::machine::{
    BreakpointView,
    MachineView,
    NeoGeoArmState,
    NeoGeoBreakpoint,
    NeoGeoBridge,
    Run,
};
use crate::neogeo::packets;
use crate::neogeo::packets::{BreakpointKind, NativeKind, ParsedStop, StopView};
use crate::neogeo::params;
use crate::neogeo::params::NeoGeoSnapshot;
use crate::neogeo::{BridgeError, BridgeErrorView, MAX_DRAINED_PACKETS};
use crate::text;

verus! {

/// How many addresses a breakpoint covers.
pub open spec fn size_of_range(start: u64, end: u64) -> Option<u64> {
    if start <= end && end - start < u64::MAX {
        Some((end - start + 1) as u64)
    } else {
        None
    }
}

/// How many addresses a breakpoint covers.
pub fn range_size(start: u64, end: u64) -> (r: Option<u64>)
    ensures
        r == size_of_range(start, end),
{
    if start <= end && end - start < u64::MAX {
        Some(end - start + 1)
    } else {
        None
    }
}

/// The argument by which a breakpoint is armed.
pub open spec fn point_text(kind: BreakpointKind, address: u64, size: u64) -> Seq<char> {
    let head = ((kind.code_text() + "|"@) + text::hexadecimal(address as nat)) + "|"@;
    (head + text::hexadecimal(size as nat)) + "|1|"@
}

fn point_of(kind: BreakpointKind, address: u64, size: u64) -> (r: String)
    ensures
        r@ == point_text(kind, address, size),
{
    let m = text::join(kind.code(), "|");
    let m = text::join(m.as_str(), text::hexadecimal_of(address).as_str());
    let m = text::join(m.as_str(), "|");
    let m = text::join(m.as_str(), text::hexadecimal_of(size).as_str());
    text::join(m.as_str(), "|1|")
}

/// Arming a breakpoint in the machine.
pub open spec fn arm_run(
    h: Seq<GdbStep>,
    n: int,
    s: MachineView,
    kind: BreakpointKind,
    start: u64,
    end: u64,
    address: u64,
) -> Run<(NativeKind, u64)> {
    match size_of_range(start, end) {
        None => Some((n, s, neogeo::bad("breakpoint range overflow"@))),
        Some(size) => match machine::lua_run(
            h,
            n,
            s,
            "setpoint"@,
            Some(point_text(kind, address, size)),
        ) {
            None => None,
            Some((m, t, Err(e))) => Some((m, t, Err(e))),
            Some((m, t, Ok(reply))) => Some((m, t, packets::arm_reply(reply))),
        },
    }
}

/// Clearing a breakpoint in the machine.
pub open spec fn clear_native_run(
    h: Seq<GdbStep>,
    n: int,
    s: MachineView,
    kind: NativeKind,
    id: u64,
) -> Run<()> {
    match machine::lua_run(
        h,
        n,
        s,
        "clearpoint"@,
        Some((kind.tag() + "|"@) + text::decimal(id as int)),
    ) {
        None => None,
        Some((m, t, Err(e))) => Some((m, t, Err(e))),
        Some((m, t, Ok(reply))) => Some(
            (
                m,
                t,
                if reply == "OK"@ {
                    Ok(())
                } else {
                    neogeo::fault("MAME breakpoint clear failed: "@ + reply)
                },
            ),
        ),
    }
}

/// The packet that reads memory.
pub open spec fn read_packet(address: u64, length: u64) -> Seq<char> {
    (("m"@ + text::hexadecimal(address as nat)) + ","@) + text::hexadecimal(length as nat)
}

/// The packet that reads memory.
pub fn read_command(address: u64, length: u64) -> (r: String)
    ensures
        r@ == read_packet(address, length),
{
    let m = text::join("m", text::hexadecimal_of(address).as_str());
    let m = text::join(m.as_str(), ",");
    text::join(m.as_str(), text::hexadecimal_of(length).as_str())
}

/// What a range that was read holds.
pub open spec fn captured(range: NeoGeoSnapshot, reply: Seq<char>) -> Result<
    JsonView,
    BridgeErrorView,
> {
    match encoding::hex_bytes(text::trimmed(reply)) {
        None => neogeo::fault("invalid MAME snapshot bytes"@),
        Some(bytes) => if bytes.len() != range.length {
            neogeo::fault(
                (("short MAME snapshot: expected "@ + text::decimal(range.length as int))
                    + ", got "@) + text::decimal(bytes.len() as int),
            )
        } else {
            Ok(
                JsonView::object().with("memory_type"@, JsonView::Str("ram"@)).with(
                    "address"@,
                    JsonView::Unsigned(range.address),
                ).with("length"@, JsonView::Unsigned(range.length)).with(
                    "hex"@,
                    JsonView::Str(encoding::hex_text(bytes)),
                ),
            )
        },
    }
}

fn read_captured(range: NeoGeoSnapshot, reply: &str) -> (r: Result<Json, BridgeError>)
    ensures
        neogeo::shown(r) == captured(range, reply@),
{
    match encoding::hex_decode(text::trim(reply).as_str()) {
        None => Err(BridgeError::Emulator("invalid MAME snapshot bytes".to_owned())),
        Some(bytes) => if bytes.len() as u64 != range.length {
            let m = text::join(
                "short MAME snapshot: expected ",
                text::decimal_of(range.length).as_str(),
            );
            let m = text::join(m.as_str(), ", got ");
            Err(
                BridgeError::Emulator(
                    text::join(m.as_str(), text::decimal_of(bytes.len() as u64).as_str()),
                ),
            )
        } else {
            Ok(
                Json::object().with("memory_type", Json::text("ram")).with(
                    "address",
                    Json::Unsigned(range.address),
                ).with("length", Json::Unsigned(range.length)).with(
                    "hex",
                    Json::text(encoding::hex_encode(bytes.as_slice()).as_str()),
                ),
            )
        },
    }
}

/// Reading the ranges that a breakpoint captures, from one of them on.
pub open spec fn capture_run(
    h: Seq<GdbStep>,
    n: int,
    s: MachineView,
    ranges: Seq<NeoGeoSnapshot>,
    i: int,
    done: Seq<JsonView>,
) -> Run<Seq<JsonView>>
    decreases ranges.len() - i,
{
    if !(0 <= i < ranges.len()) {
        Some((n, s, Ok(done)))
    } else {
        match params::ram_place(s.profile, ranges[i].address, ranges[i].length) {
            Err(e) => Some((n, s, Err(e))),
            Ok(address) => match machine::sent_run(
                h,
                n,
                s,
                read_packet(address, ranges[i].length),
            ) {
                None => None,
                Some((m, t, Err(e))) => Some((m, t, Err(e))),
                Some((m, t, Ok(reply))) => match captured(ranges[i], reply) {
                    Err(e) => Some((m, t, Err(e))),
                    Ok(row) => capture_run(h, m, t, ranges, i + 1, done.push(row)),
                },
            },
        }
    }
}

/// The machine with one breakpoint changed.
pub open spec fn with_bp(s: MachineView, i: int, bp: BreakpointView) -> MachineView {
    MachineView { bps: s.bps.update(i, bp), ..s }
}

/// A breakpoint with its number in the machine.
pub open spec fn numbered(s: MachineView, i: int, backend_id: Option<u64>) -> MachineView {
    with_bp(s, i, BreakpointView { backend_id, ..s.bps[i] })
}

/// A breakpoint with what came of arming it.
pub open spec fn armed_as(s: MachineView, i: int, armed: Result<(), Seq<char>>) -> MachineView {
    with_bp(s, i, BreakpointView { armed, ..s.bps[i] })
}

/// Arming a breakpoint again after its hit.
pub open spec fn rearm_run(h: Seq<GdbStep>, n: int, s: MachineView, i: int) -> Run<u64> {
    let bp = s.bps[i];
    match arm_run(h, n, s, bp.kind, bp.start, bp.end, bp.absolute_start) {
        None => None,
        Some((m, t, Err(e))) => Some((m, armed_as(t, i, Err(e.sentence())), Err(e))),
        Some((m, t, Ok((native, id)))) => if native == bp.kind.native_kind() {
            Some((m, armed_as(numbered(t, i, Some(id)), i, Ok(())), Ok(id)))
        } else {
            let message = (("MAME returned "@ + native.tag()) + " while rearming "@)
                + bp.kind.name();
            match clear_native_run(h, m, t, native, id) {
                None => None,
                Some((k, u, _)) => Some(
                    (k, armed_as(u, i, Err(message)), neogeo::fault(message)),
                ),
            }
        },
    }
}

/// The place of the first breakpoint of a kind with a number in the machine.
pub open spec fn hit_place(bps: Seq<BreakpointView>, kind: BreakpointKind, id: u64) -> Option<int>
    decreases bps.len(),
{
    if bps.len() == 0 {
        None
    } else {
        match hit_place(bps.drop_last(), kind, id) {
            Some(i) => Some(i),
            None => if bps.last().backend_id == Some(id) && bps.last().kind == kind {
                Some(bps.len() - 1)
            } else {
                None
            },
        }
    }
}

proof fn hit_place_is_inside(bps: Seq<BreakpointView>, kind: BreakpointKind, id: u64)
    ensures
        hit_place(bps, kind, id) matches Some(i) ==> 0 <= i < bps.len() && bps[i].kind == kind
            && bps[i].backend_id == Some(id),
    decreases bps.len(),
{
    if bps.len() > 0 {
        hit_place_is_inside(bps.drop_last(), kind, id);
    }
}

proof fn first_hit_stays(bps: Seq<BreakpointView>, kind: BreakpointKind, id: u64, k: int)
    requires
        0 <= k <= bps.len(),
        hit_place(bps.take(k), kind, id) is Some,
    ensures
        hit_place(bps, kind, id) == hit_place(bps.take(k), kind, id),
    decreases bps.len(),
{
    if k == bps.len() {
        assert(bps.take(k) =~= bps);
    } else {
        assert(bps.drop_last().take(k) =~= bps.take(k));
        first_hit_stays(bps.drop_last(), kind, id, k);
    }
}

/// The moment that a capture is of.
pub open spec fn timing_of(kind: BreakpointKind) -> Seq<char> {
    match kind {
        BreakpointKind::Exec => "pre_instruction"@,
        _ => "backend_stop"@,
    }
}

/// An event with the program counter, where the registers tell it.
pub open spec fn with_pc(event: JsonView, regs: JsonView) -> JsonView {
    match regs.unsigned_field("pc"@) {
        Some(pc) => event.with("pc"@, JsonView::Unsigned(pc)),
        None => event,
    }
}

/// The event of a hit, before its captures.
pub open spec fn hit_event(id: u64, stop: StopView, hit_seq: u64, packet: Seq<char>) -> JsonView {
    with_pc(
        JsonView::object().with("type"@, JsonView::Str("breakpoint_hit"@)).with(
            "id"@,
            JsonView::Unsigned(id),
        ).with("breakpoint_id"@, JsonView::Unsigned(id)).with(
            "backend_id"@,
            JsonView::Unsigned(stop.backend_id),
        ).with("kind"@, JsonView::Str(stop.kind.name())).with(
            "address"@,
            JsonView::Unsigned(stop.address),
        ).with("hit_seq"@, JsonView::Unsigned(hit_seq)).with("raw"@, JsonView::Str(packet)).with(
            "regs"@,
            stop.regs,
        ).with("snapshot_timing"@, JsonView::Str(timing_of(stop.kind))),
        stop.regs,
    )
}

fn describe_hit(id: u64, stop: &ParsedStop, hit_seq: u64, packet: &str) -> (r: Json)
    ensures
        r@ == hit_event(id, stop@, hit_seq, packet@),
{
    let timing = match stop.kind {
        BreakpointKind::Exec => "pre_instruction",
        _ => "backend_stop",
    };
    let event = Json::object().with("type", Json::text("breakpoint_hit")).with(
        "id",
        Json::Unsigned(id),
    ).with("breakpoint_id", Json::Unsigned(id)).with(
        "backend_id",
        Json::Unsigned(stop.backend_id),
    ).with("kind", Json::text(stop.kind.as_str())).with(
        "address",
        Json::Unsigned(stop.address),
    ).with("hit_seq", Json::Unsigned(hit_seq)).with("raw", Json::text(packet)).with(
        "regs",
        stop.regs.clone(),
    ).with("snapshot_timing", Json::text(timing));
    match stop.regs.get_u64("pc") {
        Some(pc) => event.with("pc", Json::Unsigned(pc)),
        None => event,
    }
}

/// An event with what its breakpoint captured.
pub open spec fn with_captures(event: JsonView, r: Result<Seq<JsonView>, BridgeErrorView>) -> JsonView {
    match r {
        Ok(rows) => event.with("snapshot"@, JsonView::Array(rows)),
        Err(e) => event.with("snapshot_error"@, JsonView::Str(e.sentence())),
    }
}

/// Capturing for an event, where its breakpoint captures anything.
pub open spec fn captures_run(
    h: Seq<GdbStep>,
    n: int,
    s: MachineView,
    ranges: Seq<NeoGeoSnapshot>,
    event: JsonView,
) -> Option<(int, MachineView, JsonView)> {
    if ranges.len() == 0 {
        Some((n, s, event))
    } else {
        match capture_run(h, n, s, ranges, 0, Seq::empty()) {
            None => None,
            Some((m, t, r)) => Some((m, t, with_captures(event, r))),
        }
    }
}

/// An event with what came of arming its breakpoint again.
pub open spec fn with_rearm(event: JsonView, r: Result<u64, BridgeErrorView>) -> JsonView {
    match r {
        Ok(id) => event.with("rearmed"@, JsonView::Bool(true)).with(
            "backend_id_after"@,
            JsonView::Unsigned(id),
        ),
        Err(e) => event.with("rearmed"@, JsonView::Bool(false)).with(
            "rearm_error"@,
            JsonView::Str(e.sentence()),
        ),
    }
}

/// The breakpoint of a stop that cannot be taken for a hit: it counts as no longer armed.
pub open spec fn disarmed(s: MachineView, i: int, why: Seq<char>) -> MachineView {
    armed_as(numbered(s, i, None), i, Err(why))
}

/// The message that a packet is no stop at a breakpoint.
pub open spec fn invalid_stop(packet: Seq<char>) -> Seq<char> {
    "invalid Neo Geo breakpoint stop packet: "@ + packet
}

/// A hit of a known breakpoint with a new place in the sequence of hits.
pub open spec fn hit_run(
    h: Seq<GdbStep>,
    n: int,
    s: MachineView,
    i: int,
    stop: StopView,
    hit_seq: u64,
    packet: Seq<char>,
) -> Run<JsonView> {
    let noticed = numbered(MachineView { last_hit: hit_seq, ..s }, i, None);
    let event = hit_event(s.bps[i].id, stop, hit_seq, packet);
    match captures_run(h, n, noticed, s.bps[i].snapshots, event) {
        None => None,
        Some((m, t, shot)) => match rearm_run(h, m, t, i) {
            None => None,
            Some((k, u, r)) => {
                let told = with_rearm(shot, r);
                Some((k, MachineView { events: u.events.push(told), ..u }, Ok(told)))
            },
        },
    }
}

/// Taking a stop at a breakpoint. The machine stands whatever comes of it.
pub open spec fn record_run(h: Seq<GdbStep>, n: int, s: MachineView, packet: Seq<char>) -> Run<
    JsonView,
> {
    let s = MachineView { frozen: true, ..s };
    match packets::stop_of(packet) {
        None => Some((n, s, neogeo::fault(invalid_stop(packet)))),
        Some(stop) => match hit_place(s.bps, stop.kind, stop.backend_id) {
            None => Some(
                (
                    n,
                    s,
                    neogeo::fault(
                        (("Neo Geo stop references unknown native "@ + stop.kind.name()) + " id "@)
                            + text::decimal(stop.backend_id as int),
                    ),
                ),
            ),
            Some(i) => match stop.hit_seq {
                None => Some(
                    (
                        n,
                        disarmed(s, i, "stop packet omitted callback sequence"@),
                        neogeo::fault(invalid_stop(packet)),
                    ),
                ),
                Some(hit_seq) => if hit_seq <= s.last_hit {
                    Some(
                        (
                            n,
                            disarmed(
                                s,
                                i,
                                (("callback sequence did not advance from "@ + text::decimal(
                                    s.last_hit as int,
                                )) + " to "@) + text::decimal(hit_seq as int),
                            ),
                            neogeo::fault(
                                (("Neo Geo breakpoint hit sequence did not advance: last="@
                                    + text::decimal(s.last_hit as int)) + ", received="@)
                                    + text::decimal(hit_seq as int),
                            ),
                        ),
                    )
                } else {
                    hit_run(h, n, s, i, stop, hit_seq, packet)
                },
            },
        },
    }
}

/// Taking the packets that have arrived.
pub open spec fn drain_run(h: Seq<GdbStep>, n: int, s: MachineView, left: nat) -> Run<()>
    decreases left,
{
    if left == 0 {
        Some((n, s, Ok(())))
    } else {
        match machine::polled_run(h, n, s) {
            None => None,
            Some((m, t, Err(e))) => Some((m, t, Err(e))),
            Some((m, t, Ok(None))) => Some((m, t, Ok(()))),
            Some((m, t, Ok(Some(packet)))) => if packets::is_hit(packet) {
                match record_run(h, m, t, packet) {
                    None => None,
                    Some((k, u, Err(e))) => Some((k, u, Err(e))),
                    Some((k, u, Ok(_))) => drain_run(h, k, u, (left - 1) as nat),
                }
            } else {
                drain_run(h, m, t, (left - 1) as nat)
            },
        }
    }
}

proof fn captures_keep_the_machine(
    h: Seq<GdbStep>,
    n: int,
    s: MachineView,
    ranges: Seq<NeoGeoSnapshot>,
    i: int,
    done: Seq<JsonView>,
)
    ensures
        capture_run(h, n, s, ranges, i, done) matches Some((_, t, _)) ==> t == s,
    decreases ranges.len() - i,
{
    if 0 <= i < ranges.len() {
        if let Ok(address) = params::ram_place(s.profile, ranges[i].address, ranges[i].length) {
            if let Some((m, t, Ok(reply))) = machine::sent_run(
                h,
                n,
                s,
                read_packet(address, ranges[i].length),
            ) {
                if let Ok(row) = captured(ranges[i], reply) {
                    captures_keep_the_machine(h, m, t, ranges, i + 1, done.push(row));
                }
            }
        }
    }
}

/// Whether the breakpoints kept their numbers and what they watch.
pub open spec fn keeps_breakpoints(s: MachineView, t: MachineView) -> bool {
    &&& t.bps.len() == s.bps.len()
    &&& forall|i: int|
        0 <= i < s.bps.len() ==> {
            &&& (#[trigger] t.bps[i]).id == s.bps[i].id
            &&& t.bps[i].kind == s.bps[i].kind
            &&& t.bps[i].start == s.bps[i].start
            &&& t.bps[i].end == s.bps[i].end
            &&& t.bps[i].absolute_start == s.bps[i].absolute_start
            &&& t.bps[i].snapshots == s.bps[i].snapshots
        }
    &&& t.next_bp == s.next_bp
    &&& t.next_reset == s.next_reset
}

/// A stop that is taken for a hit has a later place in the sequence of hits than any before, and
/// its event is told after all earlier ones; any other stop leaves the sequence and the events
/// alone. Either way the machine stands, and the breakpoints stay what they are.
pub proof fn hits_advance_the_sequence(h: Seq<GdbStep>, n: int, s: MachineView, packet: Seq<char>)
    ensures
        record_run(h, n, s, packet) matches Some((_, t, r)) ==> {
            &&& t.frozen
            &&& keeps_breakpoints(s, t)
            &&& match r {
                Ok(event) => t.last_hit > s.last_hit && t.events == s.events.push(event),
                Err(_) => t.last_hit == s.last_hit && t.events == s.events,
            }
        },
{
    let f = MachineView { frozen: true, ..s };
    if let Some(stop) = packets::stop_of(packet) {
        hit_place_is_inside(f.bps, stop.kind, stop.backend_id);
        if let Some(i) = hit_place(f.bps, stop.kind, stop.backend_id) {
            if let Some(hit_seq) = stop.hit_seq {
                let noticed = numbered(MachineView { last_hit: hit_seq, ..f }, i, None);
                captures_keep_the_machine(
                    h,
                    n,
                    noticed,
                    f.bps[i].snapshots,
                    0,
                    Seq::empty(),
                );
            }
        }
    }
}

/// Taking the packets that have arrived loses no event, and the sequence of hits never goes back.
pub proof fn drains_lose_nothing(h: Seq<GdbStep>, n: int, s: MachineView, left: nat)
    ensures
        drain_run(h, n, s, left) matches Some((_, t, _)) ==> {
            &&& s.events.is_prefix_of(t.events)
            &&& s.last_hit <= t.last_hit
            &&& s.frozen ==> t.frozen
            &&& keeps_breakpoints(s, t)
        },
    decreases left,
{
    if left > 0 {
        if let Some((m, t, Ok(Some(packet)))) = machine::polled_run(h, n, s) {
            if packets::is_hit(packet) {
                hits_advance_the_sequence(h, m, t, packet);
                if let Some((k, u, Ok(_))) = record_run(h, m, t, packet) {
                    drains_lose_nothing(h, k, u, (left - 1) as nat);
                }
            } else {
                drains_lose_nothing(h, m, t, (left - 1) as nat);
            }
        }
    }
}

/// What some values hold, or why there are none.
pub open spec fn shown_rows(r: Result<Vec<Json>, BridgeError>) -> Result<
    Seq<JsonView>,
    BridgeErrorView,
> {
    match r {
        Ok(rows) => Ok(json::views(rows@)),
        Err(e) => Err(e@),
    }
}

fn find_hit(bps: &Vec<NeoGeoBreakpoint>, kind: BreakpointKind, id: u64) -> (r: Option<usize>)
    ensures
        match (r, hit_place(machine::breakpoint_views(bps@), kind, id)) {
            (Some(i), Some(k)) => i == k && i < bps@.len(),
            (None, None) => true,
            _ => false,
        },
{
    let ghost all = machine::breakpoint_views(bps@);
    let mut i: usize = 0;
    assert(all.take(0) =~= Seq::empty());
    while i < bps.len()
        invariant
            i <= bps@.len(),
            all == machine::breakpoint_views(bps@),
            hit_place(all.take(i as int), kind, id) is None,
        decreases bps.len() - i,
    {
        proof {
            assert(all.take(i + 1).drop_last() =~= all.take(i as int));
            assert(all.take(i + 1).last() == bps@[i as int]@);
        }
        let found = match bps[i].backend_id {
            Some(n) => n == id && bps[i].kind == kind,
            None => false,
        };
        if found {
            proof {
                first_hit_stays(all, kind, id, i + 1);
            }
            return Some(i);
        }
        i += 1;
    }
    assert(all.take(i as int) =~= all);
    None
}

impl<G: GdbTransport> NeoGeoBridge<G> {
    fn set_number(&mut self, i: usize, backend_id: Option<u64>)
        requires
            i < old(self).breakpoints@.len(),
        ensures
            machine::went_on(*old(self), *final(self)),
            final(self).gdb == old(self).gdb,
            final(self)@ == numbered(old(self)@, i as int, backend_id),
    {
        let ghost before = machine::breakpoint_views(self.breakpoints@);
        self.breakpoints[i].backend_id = backend_id;
        assert(machine::breakpoint_views(self.breakpoints@) =~= before.update(
            i as int,
            BreakpointView { backend_id, ..before[i as int] },
        ));
    }

    fn set_armed(&mut self, i: usize, state: NeoGeoArmState)
        requires
            i < old(self).breakpoints@.len(),
        ensures
            machine::went_on(*old(self), *final(self)),
            final(self).gdb == old(self).gdb,
            final(self)@ == armed_as(old(self)@, i as int, state@),
    {
        let ghost before = machine::breakpoint_views(self.breakpoints@);
        self.breakpoints[i].arm_state = state;
        assert(machine::breakpoint_views(self.breakpoints@) =~= before.update(
            i as int,
            BreakpointView { armed: state@, ..before[i as int] },
        ));
    }

    /// Arms a breakpoint in the machine.
    pub(crate) fn arm_native(
        &mut self,
        kind: BreakpointKind,
        start: u64,
        end: u64,
        address: u64,
    ) -> (r: Result<(NativeKind, u64), BridgeError>)
        ensures
            machine::went_on(*old(self), *final(self)),
            final(self)@ == old(self)@,
            forall|h: Seq<GdbStep>|
                gdb::goes_on(final(self).gdb.history(), h) ==> #[trigger] arm_run(
                    h,
                    old(self).gdb.history().len() as int,
                    old(self)@,
                    kind,
                    start,
                    end,
                    address,
                ) == Some((final(self).gdb.history().len() as int, final(self)@, neogeo::plain(r))),
    {
        match range_size(start, end) {
            None => Err(BridgeError::BadParams("breakpoint range overflow".to_owned())),
            Some(size) => {
                let point = point_of(kind, address, size);
                let reply = self.lua_cmd("setpoint", Some(point.as_str()))?;
                packets::parse_arm_reply(reply.as_str())
            },
        }
    }

    /// Clears a breakpoint in the machine.
    pub(crate) fn clear_native(&mut self, kind: NativeKind, id: u64) -> (r: Result<(), BridgeError>)
        ensures
            machine::went_on(*old(self), *final(self)),
            final(self)@ == old(self)@,
            forall|h: Seq<GdbStep>|
                gdb::goes_on(final(self).gdb.history(), h) ==> #[trigger] clear_native_run(
                    h,
                    old(self).gdb.history().len() as int,
                    old(self)@,
                    kind,
                    id,
                ) == Some((final(self).gdb.history().len() as int, final(self)@, neogeo::plain(r))),
    {
        let m = text::join(kind.as_str(), "|");
        let point = text::join(m.as_str(), text::decimal_of(id).as_str());
        let reply = self.lua_cmd("clearpoint", Some(point.as_str()))?;
        if text::same(reply.as_str(), "OK") {
            Ok(())
        } else {
            Err(
                BridgeError::Emulator(
                    text::join("MAME breakpoint clear failed: ", reply.as_str()),
                ),
            )
        }
    }

    /// Reads the ranges that a breakpoint captures.
    fn capture(&mut self, ranges: &Vec<NeoGeoSnapshot>) -> (r: Result<Vec<Json>, BridgeError>)
        ensures
            machine::went_on(*old(self), *final(self)),
            final(self)@ == old(self)@,
            forall|h: Seq<GdbStep>|
                gdb::goes_on(final(self).gdb.history(), h) ==> #[trigger] capture_run(
                    h,
                    old(self).gdb.history().len() as int,
                    old(self)@,
                    ranges@,
                    0,
                    Seq::empty(),
                ) == Some((final(self).gdb.history().len() as int, final(self)@, shown_rows(r))),
    {
        broadcast use gdb::goes_on_further;

        let ghost n = self.gdb.history().len() as int;
        let ghost s = self@;
        let mut rows: Vec<Json> = Vec::new();
        let mut i: usize = 0;
        assert(json::views(rows@) =~= Seq::empty());
        while i < ranges.len()
            invariant
                i <= ranges@.len(),
                n == old(self).gdb.history().len(),
                s == old(self)@,
                self@ == s,
                machine::went_on(*old(self), *self),
                forall|h: Seq<GdbStep>|
                    gdb::goes_on(self.gdb.history(), h) ==> #[trigger] capture_run(
                        h,
                        n,
                        s,
                        ranges@,
                        0,
                        Seq::empty(),
                    ) == capture_run(
                        h,
                        self.gdb.history().len() as int,
                        s,
                        ranges@,
                        i as int,
                        json::views(rows@),
                    ),
            decreases ranges.len() - i,
        {
            broadcast use gdb::goes_on_further;

            let range = ranges[i];
            let ghost here = self.gdb.history();
            let ghost earlier = json::views(rows@);
            let address: u64 = params::ram_address(self.profile, range.address, range.length)?;
            let sent = self.sent(read_command(address, range.length).as_str());
            proof {
                assert forall|h: Seq<GdbStep>| gdb::goes_on(self.gdb.history(), h) implies {
                    &&& gdb::goes_on(here, h)
                    &&& #[trigger] capture_run(h, n, s, ranges@, 0, Seq::empty()) == capture_run(
                        h,
                        here.len() as int,
                        s,
                        ranges@,
                        i as int,
                        earlier,
                    )
                } by {
                    assert(gdb::goes_on(here, h));
                }
            }
            let reply = sent?;
            let row = read_captured(range, reply.as_str())?;
            rows.push(row);
            assert(json::views(rows@) =~= earlier.push(row@));
            i += 1;
        }
        Ok(rows)
    }

    fn capture_for(&mut self, ranges: &Vec<NeoGeoSnapshot>, event: Json) -> (r: Json)
        ensures
            machine::went_on(*old(self), *final(self)),
            final(self)@ == old(self)@,
            forall|h: Seq<GdbStep>|
                gdb::goes_on(final(self).gdb.history(), h) ==> #[trigger] captures_run(
                    h,
                    old(self).gdb.history().len() as int,
                    old(self)@,
                    ranges@,
                    event@,
                ) == Some((final(self).gdb.history().len() as int, final(self)@, r@)),
    {
        if ranges.len() == 0 {
            return event;
        }
        match self.capture(ranges) {
            Ok(rows) => event.with("snapshot", Json::array(rows)),
            Err(error) => event.with("snapshot_error", Json::text(error.message().as_str())),
        }
    }

    /// Arms a breakpoint again after its hit.
    fn rearm(&mut self, i: usize) -> (r: Result<u64, BridgeError>)
        requires
            i < old(self).breakpoints@.len(),
        ensures
            machine::went_on(*old(self), *final(self)),
            forall|h: Seq<GdbStep>|
                gdb::goes_on(final(self).gdb.history(), h) ==> #[trigger] rearm_run(
                    h,
                    old(self).gdb.history().len() as int,
                    old(self)@,
                    i as int,
                ) == Some((final(self).gdb.history().len() as int, final(self)@, neogeo::plain(r))),
    {
        broadcast use gdb::goes_on_further;

        let ghost bp = self@.bps[i as int];
        let kind = self.breakpoints[i].kind;
        let start: u64 = self.breakpoints[i].start;
        let end: u64 = self.breakpoints[i].end;
        let address: u64 = self.breakpoints[i].absolute_start;
        assert(bp == self.breakpoints@[i as int]@);
        let armed = self.arm_native(kind, start, end, address);
        assert(self@.bps.len() == self.breakpoints@.len());
        match armed {
            Ok((native, id)) => if native == kind.native() {
                self.set_number(i, Some(id));
                assert(self@.bps.len() == self.breakpoints@.len());
                self.set_armed(i, NeoGeoArmState::Armed);
                Ok(id)
            } else {
                let m = text::join("MAME returned ", native.as_str());
                let m = text::join(m.as_str(), " while rearming ");
                let message = text::join(m.as_str(), kind.as_str());
                let _cleared = self.clear_native(native, id);
                assert(self@.bps.len() == self.breakpoints@.len());
                self.set_armed(i, NeoGeoArmState::Failed(message.clone()));
                Err(BridgeError::Emulator(message))
            },
            Err(error) => {
                self.set_armed(i, NeoGeoArmState::Failed(error.message()));
                Err(error)
            },
        }
    }

    fn disarm(&mut self, i: usize, why: String)
        requires
            i < old(self).breakpoints@.len(),
        ensures
            machine::went_on(*old(self), *final(self)),
            final(self).gdb == old(self).gdb,
            final(self)@ == disarmed(old(self)@, i as int, why@),
    {
        self.set_number(i, None);
        assert(self@.bps.len() == self.breakpoints@.len());
        self.set_armed(i, NeoGeoArmState::Failed(why));
    }

    fn take_hit(&mut self, i: usize, stop: &ParsedStop, hit_seq: u64, packet: &str) -> (r: Json)
        requires
            i < old(self).breakpoints@.len(),
        ensures
            machine::went_on(*old(self), *final(self)),
            forall|h: Seq<GdbStep>|
                gdb::goes_on(final(self).gdb.history(), h) ==> #[trigger] hit_run(
                    h,
                    old(self).gdb.history().len() as int,
                    old(self)@,
                    i as int,
                    stop@,
                    hit_seq,
                    packet@,
                ) == Some((final(self).gdb.history().len() as int, final(self)@, Ok::<_, BridgeErrorView>(r@))),
    {
        broadcast use gdb::goes_on_further;

        let ghost s = self@;
        let ghost bp = s.bps[i as int];
        assert(bp == self.breakpoints@[i as int]@);
        self.last_hit_seq = hit_seq;
        let id: u64 = self.breakpoints[i].id;
        let mut ranges: Vec<NeoGeoSnapshot> = Vec::new();
        let mut k: usize = 0;
        while k < self.breakpoints[i].snapshots.len()
            invariant
                i < self.breakpoints@.len(),
                k <= self.breakpoints@[i as int].snapshots@.len(),
                ranges@ == self.breakpoints@[i as int].snapshots@.take(k as int),
            decreases self.breakpoints@[i as int].snapshots@.len() - k,
        {
            let ghost all = self.breakpoints@[i as int].snapshots@;
            let range = self.breakpoints[i].snapshots[k];
            ranges.push(range);
            assert(all.take(k + 1) =~= all.take(k as int).push(all[k as int]));
            k += 1;
        }
        assert(ranges@ =~= bp.snapshots);
        self.set_number(i, None);
        let event = describe_hit(id, stop, hit_seq, packet);
        let event = self.capture_for(&ranges, event);
        assert(self@.bps.len() == self.breakpoints@.len());
        let event = match self.rearm(i) {
            Ok(number) => event.with("rearmed", Json::Bool(true)).with(
                "backend_id_after",
                Json::Unsigned(number),
            ),
            Err(error) => event.with("rearmed", Json::Bool(false)).with(
                "rearm_error",
                Json::text(error.message().as_str()),
            ),
        };
        let ghost earlier = self@.events;
        let told = event.clone();
        self.events.push(told);
        assert(json::views(self.events@) =~= earlier.push(event@));
        event
    }

    /// Takes a stop at a breakpoint.
    pub(crate) fn record_breakpoint_hit(&mut self, packet: &str) -> (r: Result<Json, BridgeError>)
        ensures
            machine::went_on(*old(self), *final(self)),
            forall|h: Seq<GdbStep>|
                gdb::goes_on(final(self).gdb.history(), h) ==> #[trigger] record_run(
                    h,
                    old(self).gdb.history().len() as int,
                    old(self)@,
                    packet@,
                ) == Some((final(self).gdb.history().len() as int, final(self)@, neogeo::shown(r))),
    {
        self.frozen = true;
        let stop = match packets::parse_breakpoint_stop(packet) {
            Some(stop) => stop,
            None => {
                return Err(
                    BridgeError::Emulator(
                        text::join("invalid Neo Geo breakpoint stop packet: ", packet),
                    ),
                );
            },
        };
        let i: usize = match find_hit(&self.breakpoints, stop.kind, stop.backend_id) {
            Some(i) => i,
            None => {
                let m = text::join(
                    "Neo Geo stop references unknown native ",
                    stop.kind.as_str(),
                );
                let m = text::join(m.as_str(), " id ");
                return Err(
                    BridgeError::Emulator(
                        text::join(m.as_str(), text::decimal_of(stop.backend_id).as_str()),
                    ),
                );
            },
        };
        let hit_seq: u64 = match stop.hit_seq {
            Some(hit_seq) => hit_seq,
            None => {
                self.disarm(i, "stop packet omitted callback sequence".to_owned());
                return Err(
                    BridgeError::Emulator(
                        text::join("invalid Neo Geo breakpoint stop packet: ", packet),
                    ),
                );
            },
        };
        if hit_seq <= self.last_hit_seq {
            let last = text::decimal_of(self.last_hit_seq);
            let m = text::join("callback sequence did not advance from ", last.as_str());
            let m = text::join(m.as_str(), " to ");
            let why = text::join(m.as_str(), text::decimal_of(hit_seq).as_str());
            let m = text::join(
                "Neo Geo breakpoint hit sequence did not advance: last=",
                last.as_str(),
            );
            let m = text::join(m.as_str(), ", received=");
            let message = text::join(m.as_str(), text::decimal_of(hit_seq).as_str());
            self.disarm(i, why);
            return Err(BridgeError::Emulator(message));
        }
        Ok(self.take_hit(i, &stop, hit_seq, packet))
    }

    /// Takes the packets that have arrived, without waiting.
    pub(crate) fn drain_breakpoint_packets(&mut self) -> (r: Result<(), BridgeError>)
        ensures
            machine::went_on(*old(self), *final(self)),
            forall|h: Seq<GdbStep>|
                gdb::goes_on(final(self).gdb.history(), h) ==> #[trigger] drain_run(
                    h,
                    old(self).gdb.history().len() as int,
                    old(self)@,
                    MAX_DRAINED_PACKETS as nat,
                ) == Some((final(self).gdb.history().len() as int, final(self)@, neogeo::plain(r))),
    {
        let ghost n = self.gdb.history().len() as int;
        let ghost s = self@;
        let mut left: u64 = MAX_DRAINED_PACKETS;
        while left > 0
            invariant
                left <= MAX_DRAINED_PACKETS,
                n == old(self).gdb.history().len(),
                s == old(self)@,
                machine::went_on(*old(self), *self),
                forall|h: Seq<GdbStep>|
                    gdb::goes_on(self.gdb.history(), h) ==> #[trigger] drain_run(
                        h,
                        n,
                        s,
                        MAX_DRAINED_PACKETS as nat,
                    ) == drain_run(h, self.gdb.history().len() as int, self@, left as nat),
            decreases left,
        {
            broadcast use gdb::goes_on_further;

            let ghost h0 = self.gdb.history();
            let ghost s0 = self@;
            let polled = self.polled();
            let ghost h1 = self.gdb.history();
            let packet = match polled? {
                Some(packet) => packet,
                None => {
                    return Ok(());
                },
            };
            if packets::is_breakpoint_stop(packet.as_str()) {
                let recorded = self.record_breakpoint_hit(packet.as_str());
                let ghost h2 = self.gdb.history();
                proof {
                    assert forall|h: Seq<GdbStep>| gdb::goes_on(h2, h) implies {
                        &&& gdb::goes_on(h0, h)
                        &&& gdb::goes_on(h1, h)
                        &&& #[trigger] drain_run(h, n, s, MAX_DRAINED_PACKETS as nat) == drain_run(
                            h,
                            h0.len() as int,
                            s0,
                            left as nat,
                        )
                    } by {
                        assert(gdb::goes_on(h1, h));
                        assert(gdb::goes_on(h0, h));
                    }
                }
                recorded?;
            }
            left -= 1;
        }
        Ok(())
    }
}

} // verus!
