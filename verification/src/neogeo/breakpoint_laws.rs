//! What breakpoints promise, told by the packets that were sent, their replies and the reports.

use vstd::prelude::*;
use crate::gdb::{GdbBridgeEnv, GdbStep};
use crate::json;
use crate::json::JsonView;
use crate::neogeo::breakpoints;
use crate::neogeo::hits;
use crate::neogeo::laws;
use crate::neogeo::machine;
use crate::neogeo::machine::{BreakpointView, MachineView};
use crate::neogeo::packets;
use crate::neogeo::packets::{BreakpointKind, NativeKind};
use crate::neogeo::params::NeoGeoSnapshot;
use crate::neogeo::service;
use crate::neogeo::service::Operation;
use crate::neogeo::MAX_DRAINED_PACKETS;
use crate::text;

verus! {

/// The kind of breakpoint of a name.
pub open spec fn kind_named(name: Seq<char>, kind: BreakpointKind) -> bool {
    match kind {
        BreakpointKind::Exec => name == "exec"@,
        BreakpointKind::Read => name == "read"@,
        BreakpointKind::Write => name == "write"@,
    }
}

/// The number of the debugging protocol by which a breakpoint of a kind is armed.
pub open spec fn protocol_number(kind: BreakpointKind) -> Seq<char> {
    match kind {
        BreakpointKind::Exec => "0"@,
        BreakpointKind::Write => "2"@,
        BreakpointKind::Read => "3"@,
    }
}

/// How the machine calls a point of a kind when it answers, and when it is told to clear it.
pub open spec fn point_names(kind: BreakpointKind) -> (Seq<char>, Seq<char>) {
    match kind {
        BreakpointKind::Exec => ("BP"@, "bp"@),
        _ => ("WP"@, "wp"@),
    }
}

/// Where a breakpoint of a kind is armed that a request places at a start.
pub open spec fn armed_at(s: MachineView, kind: BreakpointKind, start: u64) -> int {
    if kind == BreakpointKind::Exec {
        start as int
    } else {
        laws::ram_start(s.profile) + start
    }
}

/// The start of the stop packet of a breakpoint of a kind.
pub open spec fn stop_start(kind: BreakpointKind) -> Seq<char> {
    match kind {
        BreakpointKind::Exec => "T05hwbreak:"@,
        BreakpointKind::Write => "T05watch:"@,
        BreakpointKind::Read => "T05rwatch:"@,
    }
}

proof fn words_differ()
    ensures
        "exec"@ != "read"@,
        "exec"@ != "write"@,
        "read"@ != "write"@,
{
    reveal_strlit("exec");
    reveal_strlit("read");
    reveal_strlit("write");
    assert("exec"@.len() == 4);
    assert("read"@.len() == 4);
    assert("write"@.len() == 5);
    assert("exec"@[0] == 'e');
    assert("read"@[0] == 'r');
}

proof fn report_words_differ()
    ensures
        "type"@ != "id"@,
        "type"@ != "breakpoint_id"@,
        "type"@ != "backend_id"@,
        "type"@ != "kind"@,
        "type"@ != "address"@,
        "type"@ != "hit_seq"@,
        "type"@ != "raw"@,
        "type"@ != "regs"@,
        "type"@ != "snapshot_timing"@,
        "type"@ != "pc"@,
        "type"@ != "snapshot"@,
        "type"@ != "snapshot_error"@,
        "type"@ != "rearmed"@,
        "type"@ != "backend_id_after"@,
        "type"@ != "rearm_error"@,
        "type"@ != "set"@,
        "type"@ != "arm_state"@,
        "type"@ != "cleared"@,
        "type"@ != "events"@,
        "type"@ != "dropped"@,
        "id"@ != "breakpoint_id"@,
        "id"@ != "backend_id"@,
        "id"@ != "kind"@,
        "id"@ != "address"@,
        "id"@ != "hit_seq"@,
        "id"@ != "raw"@,
        "id"@ != "regs"@,
        "id"@ != "snapshot_timing"@,
        "id"@ != "pc"@,
        "id"@ != "snapshot"@,
        "id"@ != "snapshot_error"@,
        "id"@ != "rearmed"@,
        "id"@ != "backend_id_after"@,
        "id"@ != "rearm_error"@,
        "id"@ != "set"@,
        "id"@ != "arm_state"@,
        "id"@ != "cleared"@,
        "id"@ != "events"@,
        "id"@ != "dropped"@,
        "breakpoint_id"@ != "backend_id"@,
        "breakpoint_id"@ != "kind"@,
        "breakpoint_id"@ != "address"@,
        "breakpoint_id"@ != "hit_seq"@,
        "breakpoint_id"@ != "raw"@,
        "breakpoint_id"@ != "regs"@,
        "breakpoint_id"@ != "snapshot_timing"@,
        "breakpoint_id"@ != "pc"@,
        "breakpoint_id"@ != "snapshot"@,
        "breakpoint_id"@ != "snapshot_error"@,
        "breakpoint_id"@ != "rearmed"@,
        "breakpoint_id"@ != "backend_id_after"@,
        "breakpoint_id"@ != "rearm_error"@,
        "breakpoint_id"@ != "set"@,
        "breakpoint_id"@ != "arm_state"@,
        "breakpoint_id"@ != "cleared"@,
        "breakpoint_id"@ != "events"@,
        "breakpoint_id"@ != "dropped"@,
        "backend_id"@ != "kind"@,
        "backend_id"@ != "address"@,
        "backend_id"@ != "hit_seq"@,
        "backend_id"@ != "raw"@,
        "backend_id"@ != "regs"@,
        "backend_id"@ != "snapshot_timing"@,
        "backend_id"@ != "pc"@,
        "backend_id"@ != "snapshot"@,
        "backend_id"@ != "snapshot_error"@,
        "backend_id"@ != "rearmed"@,
        "backend_id"@ != "backend_id_after"@,
        "backend_id"@ != "rearm_error"@,
        "backend_id"@ != "set"@,
        "backend_id"@ != "arm_state"@,
        "backend_id"@ != "cleared"@,
        "backend_id"@ != "events"@,
        "backend_id"@ != "dropped"@,
        "kind"@ != "address"@,
        "kind"@ != "hit_seq"@,
        "kind"@ != "raw"@,
        "kind"@ != "regs"@,
        "kind"@ != "snapshot_timing"@,
        "kind"@ != "pc"@,
        "kind"@ != "snapshot"@,
        "kind"@ != "snapshot_error"@,
        "kind"@ != "rearmed"@,
        "kind"@ != "backend_id_after"@,
        "kind"@ != "rearm_error"@,
        "kind"@ != "set"@,
        "kind"@ != "arm_state"@,
        "kind"@ != "cleared"@,
        "kind"@ != "events"@,
        "kind"@ != "dropped"@,
        "address"@ != "hit_seq"@,
        "address"@ != "raw"@,
        "address"@ != "regs"@,
        "address"@ != "snapshot_timing"@,
        "address"@ != "pc"@,
        "address"@ != "snapshot"@,
        "address"@ != "snapshot_error"@,
        "address"@ != "rearmed"@,
        "address"@ != "backend_id_after"@,
        "address"@ != "rearm_error"@,
        "address"@ != "set"@,
        "address"@ != "arm_state"@,
        "address"@ != "cleared"@,
        "address"@ != "events"@,
        "address"@ != "dropped"@,
        "hit_seq"@ != "raw"@,
        "hit_seq"@ != "regs"@,
        "hit_seq"@ != "snapshot_timing"@,
        "hit_seq"@ != "pc"@,
        "hit_seq"@ != "snapshot"@,
        "hit_seq"@ != "snapshot_error"@,
        "hit_seq"@ != "rearmed"@,
        "hit_seq"@ != "backend_id_after"@,
        "hit_seq"@ != "rearm_error"@,
        "hit_seq"@ != "set"@,
        "hit_seq"@ != "arm_state"@,
        "hit_seq"@ != "cleared"@,
        "hit_seq"@ != "events"@,
        "hit_seq"@ != "dropped"@,
        "raw"@ != "regs"@,
        "raw"@ != "snapshot_timing"@,
        "raw"@ != "pc"@,
        "raw"@ != "snapshot"@,
        "raw"@ != "snapshot_error"@,
        "raw"@ != "rearmed"@,
        "raw"@ != "backend_id_after"@,
        "raw"@ != "rearm_error"@,
        "raw"@ != "set"@,
        "raw"@ != "arm_state"@,
        "raw"@ != "cleared"@,
        "raw"@ != "events"@,
        "raw"@ != "dropped"@,
        "regs"@ != "snapshot_timing"@,
        "regs"@ != "pc"@,
        "regs"@ != "snapshot"@,
        "regs"@ != "snapshot_error"@,
        "regs"@ != "rearmed"@,
        "regs"@ != "backend_id_after"@,
        "regs"@ != "rearm_error"@,
        "regs"@ != "set"@,
        "regs"@ != "arm_state"@,
        "regs"@ != "cleared"@,
        "regs"@ != "events"@,
        "regs"@ != "dropped"@,
        "snapshot_timing"@ != "pc"@,
        "snapshot_timing"@ != "snapshot"@,
        "snapshot_timing"@ != "snapshot_error"@,
        "snapshot_timing"@ != "rearmed"@,
        "snapshot_timing"@ != "backend_id_after"@,
        "snapshot_timing"@ != "rearm_error"@,
        "snapshot_timing"@ != "set"@,
        "snapshot_timing"@ != "arm_state"@,
        "snapshot_timing"@ != "cleared"@,
        "snapshot_timing"@ != "events"@,
        "snapshot_timing"@ != "dropped"@,
        "pc"@ != "snapshot"@,
        "pc"@ != "snapshot_error"@,
        "pc"@ != "rearmed"@,
        "pc"@ != "backend_id_after"@,
        "pc"@ != "rearm_error"@,
        "pc"@ != "set"@,
        "pc"@ != "arm_state"@,
        "pc"@ != "cleared"@,
        "pc"@ != "events"@,
        "pc"@ != "dropped"@,
        "snapshot"@ != "snapshot_error"@,
        "snapshot"@ != "rearmed"@,
        "snapshot"@ != "backend_id_after"@,
        "snapshot"@ != "rearm_error"@,
        "snapshot"@ != "set"@,
        "snapshot"@ != "arm_state"@,
        "snapshot"@ != "cleared"@,
        "snapshot"@ != "events"@,
        "snapshot"@ != "dropped"@,
        "snapshot_error"@ != "rearmed"@,
        "snapshot_error"@ != "backend_id_after"@,
        "snapshot_error"@ != "rearm_error"@,
        "snapshot_error"@ != "set"@,
        "snapshot_error"@ != "arm_state"@,
        "snapshot_error"@ != "cleared"@,
        "snapshot_error"@ != "events"@,
        "snapshot_error"@ != "dropped"@,
        "rearmed"@ != "backend_id_after"@,
        "rearmed"@ != "rearm_error"@,
        "rearmed"@ != "set"@,
        "rearmed"@ != "arm_state"@,
        "rearmed"@ != "cleared"@,
        "rearmed"@ != "events"@,
        "rearmed"@ != "dropped"@,
        "backend_id_after"@ != "rearm_error"@,
        "backend_id_after"@ != "set"@,
        "backend_id_after"@ != "arm_state"@,
        "backend_id_after"@ != "cleared"@,
        "backend_id_after"@ != "events"@,
        "backend_id_after"@ != "dropped"@,
        "rearm_error"@ != "set"@,
        "rearm_error"@ != "arm_state"@,
        "rearm_error"@ != "cleared"@,
        "rearm_error"@ != "events"@,
        "rearm_error"@ != "dropped"@,
        "set"@ != "arm_state"@,
        "set"@ != "cleared"@,
        "set"@ != "events"@,
        "set"@ != "dropped"@,
        "arm_state"@ != "cleared"@,
        "arm_state"@ != "events"@,
        "arm_state"@ != "dropped"@,
        "cleared"@ != "events"@,
        "cleared"@ != "dropped"@,
        "events"@ != "dropped"@,
{
    reveal_strlit("type");
    reveal_strlit("id");
    reveal_strlit("breakpoint_id");
    reveal_strlit("backend_id");
    reveal_strlit("kind");
    reveal_strlit("address");
    reveal_strlit("hit_seq");
    reveal_strlit("raw");
    reveal_strlit("regs");
    reveal_strlit("snapshot_timing");
    reveal_strlit("pc");
    reveal_strlit("snapshot");
    reveal_strlit("snapshot_error");
    reveal_strlit("rearmed");
    reveal_strlit("backend_id_after");
    reveal_strlit("rearm_error");
    reveal_strlit("set");
    reveal_strlit("arm_state");
    reveal_strlit("cleared");
    reveal_strlit("events");
    reveal_strlit("dropped");
    assert("type"@.len() == 4);
    assert("id"@.len() == 2);
    assert("breakpoint_id"@.len() == 13);
    assert("backend_id"@.len() == 10);
    assert("kind"@.len() == 4);
    assert("address"@.len() == 7);
    assert("hit_seq"@.len() == 7);
    assert("raw"@.len() == 3);
    assert("regs"@.len() == 4);
    assert("snapshot_timing"@.len() == 15);
    assert("pc"@.len() == 2);
    assert("snapshot"@.len() == 8);
    assert("snapshot_error"@.len() == 14);
    assert("rearmed"@.len() == 7);
    assert("backend_id_after"@.len() == 16);
    assert("rearm_error"@.len() == 11);
    assert("set"@.len() == 3);
    assert("arm_state"@.len() == 9);
    assert("cleared"@.len() == 7);
    assert("events"@.len() == 6);
    assert("dropped"@.len() == 7);
    assert("type"@[0] == 't');
    assert("id"@[0] == 'i');
    assert("kind"@[0] == 'k');
    assert("address"@[0] == 'a');
    assert("hit_seq"@[0] == 'h');
    assert("raw"@[0] == 'r');
    assert("regs"@[0] == 'r');
    assert("pc"@[0] == 'p');
    assert("rearmed"@[0] == 'r');
    assert("set"@[0] == 's');
    assert("cleared"@[0] == 'c');
    assert("dropped"@[0] == 'd');
}

/// Whether all breakpoints but those of a number are still there.
#[verifier::opaque]
pub open spec fn keeps_others(
    before: Seq<BreakpointView>,
    after: Seq<BreakpointView>,
    id: u64,
) -> bool {
    forall|i: int|
        0 <= i < before.len() && before[i].id != id ==> after.contains(#[trigger] before[i])
}

proof fn placed_keeps_others(bps: Seq<BreakpointView>, bp: BreakpointView)
    ensures
        breakpoints::placed(bps, bp).contains(bp),
        keeps_others(bps, breakpoints::placed(bps, bp), bp.id),
    decreases bps.len(),
{
    reveal(keeps_others);
    let all = breakpoints::placed(bps, bp);
    if bps.len() == 0 {
        assert(all[0] == bp);
    } else if bps.last().id < bp.id {
        assert(all[bps.len() as int] == bp);
        assert forall|i: int| 0 <= i < bps.len() implies all.contains(#[trigger] bps[i]) by {
            assert(all[i] == bps[i]);
        }
    } else if bps.last().id == bp.id {
        assert(all[bps.len() - 1] == bp);
        assert forall|i: int| 0 <= i < bps.len() && bps[i].id != bp.id implies all.contains(
            #[trigger] bps[i],
        ) by {
            assert(all[i] == bps[i]);
        }
    } else {
        let front = bps.drop_last();
        let rest = breakpoints::placed(front, bp);
        placed_keeps_others(front, bp);
        let j = choose|j: int| 0 <= j < rest.len() && rest[j] == bp;
        assert(all[j] == bp);
        assert forall|i: int| 0 <= i < bps.len() && bps[i].id != bp.id implies all.contains(
            #[trigger] bps[i],
        ) by {
            if i < front.len() {
                assert(front[i] == bps[i]);
                let q = choose|q: int| 0 <= q < rest.len() && rest[q] == front[i];
                assert(all[q] == bps[i]);
            } else {
                assert(all[rest.len() as int] == bps[i]);
            }
        }
    }
}

proof fn removal_keeps_others(bps: Seq<BreakpointView>, i: int)
    requires
        breakpoints::ordered(bps),
        0 <= i < bps.len(),
    ensures
        keeps_others(bps, bps.remove(i), bps[i].id),
        forall|k: int| 0 <= k < bps.len() - 1 ==> (#[trigger] bps.remove(i)[k]).id != bps[i].id,
{
    reveal(keeps_others);
    let rest = bps.remove(i);
    assert forall|k: int| 0 <= k < bps.len() && bps[k].id != bps[i].id implies rest.contains(
        #[trigger] bps[k],
    ) by {
        if k < i {
            assert(rest[k] == bps[k]);
        } else {
            assert(rest[k - 1] == bps[k]);
        }
    }
    assert forall|k: int| 0 <= k < rest.len() implies (#[trigger] rest[k]).id != bps[i].id by {
        if k < i {
            assert(rest[k] == bps[k]);
        } else {
            assert(rest[k] == bps[k + 1]);
        }
    }
}

proof fn set_report_tells(id: u64)
    ensures
        ({
            let report = JsonView::object().with("id"@, JsonView::Unsigned(id)).with(
                "set"@,
                JsonView::Bool(true),
            ).with("arm_state"@, JsonView::Str("armed"@));
            &&& report.unsigned_field("id"@) == Some(id)
            &&& report.truth_field("set"@) == Some(true)
        }),
{
    broadcast use json::added_is_found;

    report_words_differ();
}

proof fn clear_report_tells(id: u64)
    ensures
        JsonView::object().with("cleared"@, JsonView::Unsigned(id)).unsigned_field("cleared"@) == Some(
            id,
        ),
{
    broadcast use json::added_is_found;

}

proof fn plans_are_as_told(
    s: MachineView,
    params: JsonView,
    kind: BreakpointKind,
    start: u64,
    end: u64,
)
    requires
        params.text_field("kind"@) matches Some(name) && kind_named(name, kind) || (
        params.text_field("kind"@) is None && kind == BreakpointKind::Exec),
        laws::told(params, "start"@) == Some(start),
        laws::told(params, "end"@) == Some(end) || (params.field("end"@) is None && end == start),
    ensures
        breakpoints::plan_of(s, params) matches Ok(plan) ==> plan.kind == kind && plan.start == start
            && plan.end == end && start <= end && plan.address == armed_at(s, kind, start),
{
    words_differ();
}

proof fn arming_tells(
    h: Seq<GdbStep>,
    n: int,
    s: MachineView,
    kind: BreakpointKind,
    start: u64,
    end: u64,
    address: u64,
)
    requires
        start <= end,
    ensures
        hits::arm_run(h, n, s, kind, start, end, address) matches Some((m, t, r)) ==> t == s && (
        r matches Ok((native, number)) ==> {
            &&& m == n + 1
            &&& h[n] matches GdbStep::Sent { payload, reply: Ok(reply) } && {
                &&& payload == laws::command(
                    "setpoint"@,
                    ((((protocol_number(kind) + "|"@) + text::hexadecimal(address as nat)) + "|"@)
                        + text::hexadecimal((end - start + 1) as nat)) + "|1|"@,
                )
                &&& text::halves(reply, ':') matches Some((point, told)) && point == (if native
                    == NativeKind::Bp {
                    "BP"@
                } else {
                    "WP"@
                }) && text::u64_value(told, 10) == Some(number)
            }
        }),
{
}

/// Whether a breakpoint has a number and a range, and is armed as one of a kind under a number of
/// the machine.
pub open spec fn is_armed_as(
    bp: BreakpointView,
    id: u64,
    kind: BreakpointKind,
    start: u64,
    end: u64,
    backend: u64,
) -> bool {
    &&& bp.id == id
    &&& bp.kind == kind
    &&& bp.start == start
    &&& bp.end == end
    &&& bp.backend_id == Some(backend)
    &&& bp.armed is Ok
}

proof fn sets_tell(
    h: Seq<GdbStep>,
    n: int,
    s: MachineView,
    params: JsonView,
    kind: BreakpointKind,
    start: u64,
    end: u64,
)
    requires
        params.text_field("kind"@) matches Some(name) && kind_named(name, kind) || (
        params.text_field("kind"@) is None && kind == BreakpointKind::Exec),
        laws::told(params, "start"@) == Some(start),
        laws::told(params, "end"@) == Some(end) || (params.field("end"@) is None && end == start),
    ensures
        breakpoints::set_run(h, n, s, params) matches Some((m, t, Ok(report))) ==> {
            &&& m == n + 1
            &&& start <= end
            &&& h[n] matches GdbStep::Sent { payload, reply: Ok(reply) } && {
                &&& payload == laws::command(
                    "setpoint"@,
                    ((((protocol_number(kind) + "|"@) + text::hexadecimal(
                        armed_at(s, kind, start) as nat,
                    )) + "|"@) + text::hexadecimal((end - start + 1) as nat)) + "|1|"@,
                )
                &&& text::halves(reply, ':') matches Some((point, number)) && {
                    &&& point == point_names(kind).0
                    &&& text::u64_value(number, 10) matches Some(backend) && exists|i: int|
                        0 <= i < t.bps.len() && #[trigger] is_armed_as(
                            t.bps[i],
                            s.next_bp,
                            kind,
                            start,
                            end,
                            backend,
                        )
                }
            }
            &&& report.unsigned_field("id"@) == Some(s.next_bp)
            &&& report.truth_field("set"@) == Some(true)
            &&& s.next_bp < u64::MAX ==> t.next_bp == s.next_bp + 1
            &&& t.frozen == s.frozen && t.events == s.events
            &&& keeps_others(s.bps, t.bps, s.next_bp)
        },
{
    words_differ();
    plans_are_as_told(s, params, kind, start, end);
    if let Ok(plan) = breakpoints::plan_of(s, params) {
        set_report_tells(s.next_bp);
        arming_tells(h, n, s, kind, start, end, plan.address);
        if let Some((m, t, Ok((native, number)))) = hits::arm_run(
            h,
            n,
            s,
            plan.kind,
            plan.start,
            plan.end,
            plan.address,
        ) {
            let bp = BreakpointView {
                id: t.next_bp,
                kind: plan.kind,
                start: plan.start,
                end: plan.end,
                absolute_start: plan.address,
                backend_id: Some(number),
                snapshots: plan.snapshots,
                armed: Ok(()),
            };
            placed_keeps_others(t.bps, bp);
            let all = breakpoints::placed(t.bps, bp);
            let j = choose|j: int| 0 <= j < all.len() && all[j] == bp;
            assert(is_armed_as(all[j], s.next_bp, kind, start, end, number));
        }
    }
    if let Some((m, t, Ok(report))) = breakpoints::set_run(h, n, s, params) {
        assert(m == n + 1 && start <= end);
        assert(report.unsigned_field("id"@) == Some(s.next_bp));
        assert(report.truth_field("set"@) == Some(true));
        assert(keeps_others(s.bps, t.bps, s.next_bp));
        if let GdbStep::Sent { payload, reply: Ok(reply) } = h[n] {
            let (point, told) = text::halves(reply, ':')->0;
            assert(point == point_names(kind).0);
            let backend = text::u64_value(told, 10)->0;
            assert(exists|i: int|
                0 <= i < t.bps.len() && #[trigger] is_armed_as(
                    t.bps[i],
                    s.next_bp,
                    kind,
                    start,
                    end,
                    backend,
                ));
        }
    }
}

/// A breakpoint that is told as set was armed by one command with the number of its kind, its
/// address and its size, and the machine answered with a point of that kind. It is then known under
/// the number that was told, with its range; the breakpoints of other numbers stay.
pub proof fn set_breakpoints_are_armed_by_kind(
    h: Seq<GdbStep>,
    n: int,
    s: MachineView,
    system: Seq<char>,
    env: GdbBridgeEnv,
    params: JsonView,
    kind: BreakpointKind,
    start: u64,
    end: u64,
)
    requires
        params.text_field("kind"@) matches Some(name) && kind_named(name, kind) || (
        params.text_field("kind"@) is None && kind == BreakpointKind::Exec),
        laws::told(params, "start"@) == Some(start),
        laws::told(params, "end"@) == Some(end) || (params.field("end"@) is None && end == start),
    ensures
        service::operation_run(h, n, s, system, env, Operation::SetBreakpoint, params) matches Some(
            (m, t, Ok(report)),
        ) ==> {
            &&& m == n + 1
            &&& start <= end
            &&& h[n] matches GdbStep::Sent { payload, reply: Ok(reply) } && {
                &&& payload == laws::command(
                    "setpoint"@,
                    ((((protocol_number(kind) + "|"@) + text::hexadecimal(
                        armed_at(s, kind, start) as nat,
                    )) + "|"@) + text::hexadecimal((end - start + 1) as nat)) + "|1|"@,
                )
                &&& text::halves(reply, ':') matches Some((point, number)) && {
                    &&& point == point_names(kind).0
                    &&& text::u64_value(number, 10) matches Some(backend) && exists|i: int|
                        0 <= i < t.bps.len() && #[trigger] is_armed_as(
                            t.bps[i],
                            s.next_bp,
                            kind,
                            start,
                            end,
                            backend,
                        )
                }
            }
            &&& report.unsigned_field("id"@) == Some(s.next_bp)
            &&& report.truth_field("set"@) == Some(true)
            &&& s.next_bp < u64::MAX ==> t.next_bp == s.next_bp + 1
            &&& t.frozen == s.frozen && t.events == s.events
            &&& keeps_others(s.bps, t.bps, s.next_bp)
        },
{
    sets_tell(h, n, s, params, kind, start, end);
}

/// Setting a breakpoint that is refused leaves the breakpoints as they were.
pub proof fn refused_breakpoints_change_nothing(
    h: Seq<GdbStep>,
    n: int,
    s: MachineView,
    system: Seq<char>,
    env: GdbBridgeEnv,
    params: JsonView,
)
    ensures
        service::operation_run(h, n, s, system, env, Operation::SetBreakpoint, params) matches Some(
            (_, t, Err(_)),
        ) ==> t == s,
{
}

proof fn place_holds(bps: Seq<BreakpointView>, id: u64)
    ensures
        match breakpoints::place_of_id(bps, id) {
            Some(i) => 0 <= i < bps.len() && bps[i].id == id,
            None => forall|i: int| 0 <= i < bps.len() ==> (#[trigger] bps[i]).id != id,
        },
    decreases bps.len(),
{
    if bps.len() > 0 {
        place_holds(bps.drop_last(), id);
        if breakpoints::place_of_id(bps.drop_last(), id) is None {
            assert forall|i: int| 0 <= i < bps.len() - 1 implies (#[trigger] bps[i]).id != id by {
                assert(bps.drop_last()[i] == bps[i]);
            }
        }
    }
}

proof fn clear_removes_one(h: Seq<GdbStep>, n: int, s: MachineView, id: u64)
    requires
        breakpoints::ordered(s.bps),
    ensures
        breakpoints::clear_run(h, n, s, id) matches Some((m, t, r)) ==> match r {
            Err(_) => t == s,
            Ok(()) => {
                let i = breakpoints::place_of_id(s.bps, id)->0;
                &&& 0 <= i < s.bps.len() && s.bps[i].id == id
                &&& was_cleared(h, n, m, s.bps[i])
                &&& t == (MachineView { bps: s.bps.remove(i), ..s })
                &&& breakpoints::ordered(t.bps)
            },
        },
{
    place_holds(s.bps, id);
    if let Some(i) = breakpoints::place_of_id(s.bps, id) {
        breakpoints::clearing_keeps_order(s.bps, i);
    }
}

/// Whether the machine was told to clear the point of a breakpoint, by its number and as the kind
/// that it is armed as, and acknowledged it. One that is not armed needs no such command.
pub open spec fn was_cleared(h: Seq<GdbStep>, n: int, m: int, bp: BreakpointView) -> bool {
    bp.backend_id matches Some(backend) ==> m == n + 1 && laws::answered(
        h[n],
        laws::command(
            "clearpoint"@,
            (point_names(bp.kind).1 + "|"@) + text::decimal(backend as int),
        ),
        "OK"@,
    )
}

proof fn clears_tell(
    h: Seq<GdbStep>,
    n: int,
    s: MachineView,
    params: JsonView,
    id: u64,
)
    requires
        laws::told(params, "id"@) == Some(id),
        breakpoints::ordered(s.bps),
    ensures
        breakpoints::clear_one_run(h, n, s, params) matches Some((m, t, r)) ==> match r {
            Err(_) => t == s,
            Ok(report) => {
                &&& report.unsigned_field("cleared"@) == Some(id)
                &&& exists|i: int|
                    0 <= i < s.bps.len() && s.bps[i].id == id && #[trigger] was_cleared(
                        h,
                        n,
                        m,
                        s.bps[i],
                    )
                &&& forall|k: int| 0 <= k < t.bps.len() ==> (#[trigger] t.bps[k]).id != id
                &&& keeps_others(s.bps, t.bps, id)
                &&& t.events == s.events
            },
        },
{
    clear_report_tells(id);
    clear_removes_one(h, n, s, id);
    if let Some((m, t, Ok(()))) = breakpoints::clear_run(h, n, s, id) {
        let i = breakpoints::place_of_id(s.bps, id)->0;
        assert(was_cleared(h, n, m, s.bps[i]));
        removal_keeps_others(s.bps, i);
    }
    if let Some((m, t, r)) = breakpoints::clear_one_run(h, n, s, params) {
        if let Ok(report) = r {
            assert(report.unsigned_field("cleared"@) == Some(id));
            assert(t.events == s.events);
            assert(keeps_others(s.bps, t.bps, id));
            assert(exists|i: int|
                    0 <= i < s.bps.len() && s.bps[i].id == id && #[trigger] was_cleared(
                        h,
                        n,
                        m,
                        s.bps[i],
                    ));
        } else {
            assert(t == s);
        }
    }
}

/// Clearing a breakpoint that succeeds had the machine clear the point of that breakpoint, of the
/// kind that it was armed as, and acknowledge it. No breakpoint of that number is left, and all
/// others stay. Clearing that fails leaves the breakpoints as they were.
pub proof fn cleared_breakpoints_are_gone(
    h: Seq<GdbStep>,
    n: int,
    s: MachineView,
    system: Seq<char>,
    env: GdbBridgeEnv,
    params: JsonView,
    id: u64,
)
    requires
        laws::told(params, "id"@) == Some(id),
        breakpoints::ordered(s.bps),
    ensures
        service::operation_run(h, n, s, system, env, Operation::ClearBreakpoint, params) matches Some(
            (m, t, r),
        ) ==> match r {
            Err(_) => t == s,
            Ok(report) => {
                &&& report.unsigned_field("cleared"@) == Some(id)
                &&& exists|i: int|
                    0 <= i < s.bps.len() && s.bps[i].id == id && #[trigger] was_cleared(
                        h,
                        n,
                        m,
                        s.bps[i],
                    )
                &&& forall|k: int| 0 <= k < t.bps.len() ==> (#[trigger] t.bps[k]).id != id
                &&& keeps_others(s.bps, t.bps, id)
                &&& t.events == s.events
            },
        },
{
    clears_tell(h, n, s, params, id);
}

proof fn clearing_all_counts(h: Seq<GdbStep>, n: int, s: MachineView, ids: Seq<u64>, i: int)
    requires
        breakpoints::ordered(s.bps),
        0 <= i <= ids.len(),
        s.bps.len() == ids.len() - i,
    ensures
        breakpoints::clear_all_run(h, n, s, ids, i) matches Some((_, t, Ok(()))) ==> t.bps.len() == 0,
    decreases ids.len() - i,
{
    if i < ids.len() {
        clear_removes_one(h, n, s, ids[i]);
        if let Some((m, t, Ok(()))) = breakpoints::clear_run(h, n, s, ids[i]) {
            clearing_all_counts(h, m, t, ids, i + 1);
        }
    }
}

/// Clearing all breakpoints leaves none where it succeeds, and tells the number of each that was
/// there, in their order.
pub proof fn clearing_all_leaves_none(
    h: Seq<GdbStep>,
    n: int,
    s: MachineView,
    system: Seq<char>,
    env: GdbBridgeEnv,
    params: JsonView,
)
    requires
        breakpoints::ordered(s.bps),
    ensures
        service::operation_run(h, n, s, system, env, Operation::ClearAllBreakpoints, params) matches Some(
            (_, t, Ok(report)),
        ) ==> {
            &&& t.bps.len() == 0
            &&& report.field("cleared"@) matches Some(JsonView::Array(ids)) && ids.len()
                == s.bps.len() && forall|i: int|
                0 <= i < ids.len() ==> #[trigger] ids[i] == JsonView::Unsigned(s.bps[i].id)
        },
{
    broadcast use json::added_is_found;

    report_words_differ();
    clearing_all_counts(h, n, s, breakpoints::ids_of(s.bps), 0);
}

/// Whether an event is one of a breakpoint number.
pub open spec fn is_of(event: JsonView, id: u64) -> bool {
    event.unsigned_field("id"@) == Some(id) || event.unsigned_field("breakpoint_id"@) == Some(id)
}

proof fn chosen_are_wanted(events: Seq<JsonView>, filter: Option<u64>, wanted: bool)
    ensures
        forall|i: int|
            0 <= i < breakpoints::chosen(events, filter, wanted).len() ==> {
                let event = #[trigger] breakpoints::chosen(events, filter, wanted)[i];
                &&& events.contains(event)
                &&& wanted == (filter matches Some(id) ==> is_of(event, id))
            },
        filter is None && wanted ==> breakpoints::chosen(events, filter, wanted) == events,
        filter is None && !wanted ==> breakpoints::chosen(events, filter, wanted).len() == 0,
    decreases events.len(),
{
    let all = breakpoints::chosen(events, filter, wanted);
    if events.len() > 0 {
        let front = events.drop_last();
        let earlier = breakpoints::chosen(front, filter, wanted);
        chosen_are_wanted(front, filter, wanted);
        assert forall|i: int| 0 <= i < all.len() implies {
            let event = #[trigger] all[i];
            &&& events.contains(event)
            &&& wanted == (filter matches Some(id) ==> is_of(event, id))
        } by {
            if i < earlier.len() {
                assert(all[i] == earlier[i]);
                let q = choose|q: int| 0 <= q < front.len() && front[q] == earlier[i];
                assert(events[q] == all[i]);
            } else {
                assert(events[events.len() - 1] == all[i]);
            }
        }
        if filter is None && wanted {
            assert(front.push(events.last()) =~= events);
        }
    } else {
        assert(all =~= events);
    }
}

/// A poll that succeeds tells exactly the events of the breakpoint that it asks for, or all of them
/// where it asks for none, and keeps the others; no event is lost, and none that was there before
/// is passed over.
pub proof fn polls_tell_the_events_asked_for(
    h: Seq<GdbStep>,
    n: int,
    s: MachineView,
    system: Seq<char>,
    env: GdbBridgeEnv,
    params: JsonView,
    filter: Option<u64>,
)
    requires
        match filter {
            Some(id) => laws::told(params, "breakpoint_id"@) == Some(id),
            None => params.field("breakpoint_id"@) is None,
        },
    ensures
        service::operation_run(h, n, s, system, env, Operation::PollEvents, params) matches Some(
            (_, t, Ok(report)),
        ) ==> {
            &&& report.field("events"@) matches Some(JsonView::Array(told)) && {
                &&& forall|i: int|
                    0 <= i < told.len() ==> (filter matches Some(id) ==> is_of(
                        #[trigger] told[i],
                        id,
                    ))
                &&& forall|i: int|
                    0 <= i < t.events.len() ==> (filter matches Some(id) && !is_of(
                        #[trigger] t.events[i],
                        id,
                    ))
                &&& forall|i: int|
                    0 <= i < s.events.len() ==> told.contains(#[trigger] s.events[i])
                        || t.events.contains(s.events[i])
                &&& filter is None ==> s.events.is_prefix_of(told) && t.events.len() == 0
            }
        },
{
    broadcast use json::added_is_found;
    broadcast use vstd::seq_lib::group_to_multiset_ensures;

    report_words_differ();
    hits::drains_lose_nothing(h, n, s, MAX_DRAINED_PACKETS as nat);
    if let Some((m, t, Ok(()))) = hits::drain_run(h, n, s, MAX_DRAINED_PACKETS as nat) {
        let told = breakpoints::chosen(t.events, filter, true);
        let kept = breakpoints::chosen(t.events, filter, false);
        chosen_are_wanted(t.events, filter, true);
        chosen_are_wanted(t.events, filter, false);
        breakpoints::polled_events_are_kept(t.events, filter);
        assert forall|i: int| 0 <= i < s.events.len() implies told.contains(#[trigger] s.events[i])
            || kept.contains(s.events[i]) by {
            assert(t.events[i] == s.events[i]);
            assert(t.events.to_multiset().count(s.events[i]) > 0);
        }
    }
}

proof fn stops_start_as_their_kind(packet: Seq<char>)
    ensures
        packets::stop_of(packet) matches Some(stop) ==> text::has_prefix(
            packet,
            stop_start(stop.kind),
        ),
{
    reveal_strlit("T05");
    reveal_strlit("hwbreak");
    reveal_strlit("watch");
    reveal_strlit("rwatch");
    reveal_strlit("T05hwbreak:");
    reveal_strlit("T05watch:");
    reveal_strlit("T05rwatch:");
    if text::has_prefix(packet, "T05"@) {
        let body = packet.skip(3);
        let head = text::before(body, ';');
        text::first_place_holds(body, ';');
        text::first_place_holds(head, ':');
        if let Some((tag, address)) = text::halves(head, ':') {
            let i = text::first_place(head, ':')->0;
            assert(packet.take(3) == "T05"@);
            assert forall|k: int| 0 <= k < 3 implies packet[k] == "T05"@[k] by {
                assert(packet.take(3)[k] == packet[k]);
            }
            assert forall|k: int| 0 <= k <= i implies #[trigger] packet[k + 3] == head[k] by {
                assert(body[k] == packet[k + 3]);
            }
            assert forall|k: int| 0 <= k < i implies #[trigger] tag[k] == packet[k + 3] by {}
            assert(packet[i + 3] == ':');
            if let Some(stop) = packets::stop_of(packet) {
                let start = stop_start(stop.kind);
                assert(tag.len() == i);
                assert(start.len() == i + 4);
                assert forall|k: int| 0 <= k < start.len() implies start[k] == packet[k] by {
                    if k < 3 {
                    } else if k < i + 3 {
                        assert(tag[k - 3] == packet[(k - 3) + 3]);
                    }
                }
                assert(packet.take(start.len() as int) =~= start);
            }
        }
    }
}

proof fn hit_place_holds(bps: Seq<BreakpointView>, kind: BreakpointKind, id: u64)
    ensures
        hits::hit_place(bps, kind, id) matches Some(i) ==> 0 <= i < bps.len() && bps[i].kind == kind
            && bps[i].backend_id == Some(id),
    decreases bps.len(),
{
    if bps.len() > 0 {
        hit_place_holds(bps.drop_last(), kind, id);
    }
}

proof fn captures_keep_fields(
    h: Seq<GdbStep>,
    n: int,
    s: MachineView,
    ranges: Seq<NeoGeoSnapshot>,
    event: JsonView,
    r: Result<u64, crate::neogeo::BridgeErrorView>,
    key: Seq<char>,
)
    requires
        event is Object,
        key == "id"@ || key == "breakpoint_id"@ || key == "kind"@ || key == "address"@ || key
            == "hit_seq"@ || key == "raw"@,
    ensures
        hits::captures_run(h, n, s, ranges, event) matches Some((_, _, shot)) ==> hits::with_rearm(
            shot,
            r,
        ).field(key) == event.field(key),
{
    broadcast use json::added_is_found;

    report_words_differ();
}

/// A stop that is taken for a hit is told as one of the breakpoint that the machine armed under the
/// number of the stop, and the packet of the stop is one of the kind of that breakpoint.
pub proof fn hits_belong_to_their_breakpoint(
    h: Seq<GdbStep>,
    n: int,
    s: MachineView,
    packet: Seq<char>,
)
    ensures
        hits::record_run(h, n, s, packet) matches Some((_, t, Ok(event))) ==> exists|i: int|
            {
                &&& 0 <= i < s.bps.len()
                &&& event.unsigned_field("id"@) == Some((#[trigger] s.bps[i]).id)
                &&& event.unsigned_field("breakpoint_id"@) == Some(s.bps[i].id)
                &&& event.text_field("kind"@) matches Some(name) && kind_named(name, s.bps[i].kind)
                &&& event.text_field("raw"@) == Some(packet)
                &&& text::has_prefix(packet, stop_start(s.bps[i].kind))
                &&& event.unsigned_field("hit_seq"@) == Some(t.last_hit)
            },
{
    broadcast use json::added_is_found;

    report_words_differ();
    words_differ();
    stops_start_as_their_kind(packet);
    hits::hits_advance_the_sequence(h, n, s, packet);
    let f = MachineView { frozen: true, ..s };
    if let Some(stop) = packets::stop_of(packet) {
        hit_place_holds(f.bps, stop.kind, stop.backend_id);
        if let Some(i) = hits::hit_place(f.bps, stop.kind, stop.backend_id) {
            if let Some(seq) = stop.hit_seq {
                if seq > f.last_hit {
                    hit_is_told(h, n, f, i, stop, seq, packet);
                    assert(f.bps[i] == s.bps[i]);
                }
            }
        }
    }
}

proof fn hit_is_told(
    h: Seq<GdbStep>,
    n: int,
    f: MachineView,
    i: int,
    stop: packets::StopView,
    seq: u64,
    packet: Seq<char>,
)
    requires
        0 <= i < f.bps.len(),
    ensures
        hits::hit_run(h, n, f, i, stop, seq, packet) matches Some((_, t, Ok(event))) ==> {
            &&& event.unsigned_field("id"@) == Some(f.bps[i].id)
            &&& event.unsigned_field("breakpoint_id"@) == Some(f.bps[i].id)
            &&& event.text_field("kind"@) matches Some(name) && kind_named(name, stop.kind)
            &&& event.text_field("raw"@) == Some(packet)
            &&& event.unsigned_field("hit_seq"@) == Some(seq)
            &&& t.last_hit == seq
        },
{
    let noticed = hits::numbered(MachineView { last_hit: seq, ..f }, i, None);
    let event = hits::hit_event(f.bps[i].id, stop, seq, packet);
    hit_event_tells(f.bps[i].id, stop, seq, packet);
    let ranges = f.bps[i].snapshots;
    if let Some((m, t, shot)) = hits::captures_run(h, n, noticed, ranges, event) {
        if let Some((k, u, r)) = hits::rearm_run(h, m, t, i) {
            captures_keep_fields(h, n, noticed, ranges, event, r, "id"@);
            captures_keep_fields(h, n, noticed, ranges, event, r, "breakpoint_id"@);
            captures_keep_fields(h, n, noticed, ranges, event, r, "kind"@);
            captures_keep_fields(h, n, noticed, ranges, event, r, "raw"@);
            captures_keep_fields(h, n, noticed, ranges, event, r, "hit_seq"@);
            captures_keep_sequence(h, n, noticed, ranges, 0, Seq::empty());
        }
    }
}

proof fn captures_keep_sequence(
    h: Seq<GdbStep>,
    n: int,
    s: MachineView,
    ranges: Seq<NeoGeoSnapshot>,
    i: int,
    done: Seq<JsonView>,
)
    ensures
        hits::capture_run(h, n, s, ranges, i, done) matches Some((_, t, _)) ==> t == s,
    decreases ranges.len() - i,
{
    if 0 <= i < ranges.len() {
        if let Ok(address) = crate::neogeo::params::ram_place(
            s.profile,
            ranges[i].address,
            ranges[i].length,
        ) {
            if let Some((m, t, Ok(reply))) = machine::sent_run(
                h,
                n,
                s,
                hits::read_packet(address, ranges[i].length),
            ) {
                if let Ok(row) = hits::captured(ranges[i], reply) {
                    captures_keep_sequence(h, m, t, ranges, i + 1, done.push(row));
                }
            }
        }
    }
}

proof fn hit_event_tells(id: u64, stop: packets::StopView, seq: u64, packet: Seq<char>)
    ensures
        ({
            let event = hits::hit_event(id, stop, seq, packet);
            &&& event is Object
            &&& event.unsigned_field("id"@) == Some(id)
            &&& event.unsigned_field("breakpoint_id"@) == Some(id)
            &&& event.text_field("kind"@) matches Some(name) && kind_named(name, stop.kind)
            &&& event.unsigned_field("address"@) == Some(stop.address)
            &&& event.text_field("raw"@) == Some(packet)
            &&& event.unsigned_field("hit_seq"@) == Some(seq)
        }),
{
    broadcast use json::added_is_found;

    report_words_differ();
}

} // verus!
