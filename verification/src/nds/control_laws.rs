//! What stepping, breakpoints and input promise, told by the packets that were sent to the cores.

use vstd::prelude::*;
use crate::gdb;
use crate::gdb::{GdbStep, GdbTransport};
use crate::json;
use crate::json::JsonView;
use crate::nds::bridge;
use crate::nds::bridge::{Cores, NdsBreakpoint, NdsBridge, Wires};
use crate::nds::commands;
use crate::nds::cpu;
use crate::nds::cpu::CoreView;
use crate::nds::decode;
use crate::nds::events;
use crate::nds::laws;
use crate::nds::memory;
use crate::nds::service;
use crate::nds::service::Operation;
use crate::nds::support;
use crate::nds::timed;
use crate::nds::{CpuId, NdsErrorView};
use crate::text;

verus! {

proof fn report_words_differ()
    ensures
        "status"@ != "unit"@,
        "status"@ != "count"@,
        "status"@ != "cpu"@,
        "status"@ != "pc"@,
        "status"@ != "state"@,
        "status"@ != "id"@,
        "status"@ != "address"@,
        "status"@ != "hardware"@,
        "status"@ != "cleared"@,
        "status"@ != "events"@,
        "status"@ != "dropped"@,
        "status"@ != "buttons"@,
        "status"@ != "override_engaged"@,
        "status"@ != "x"@,
        "status"@ != "y"@,
        "status"@ != "frames"@,
        "status"@ != "frames_elapsed"@,
        "status"@ != "reason"@,
        "status"@ != "released"@,
        "status"@ != "path"@,
        "unit"@ != "count"@,
        "unit"@ != "cpu"@,
        "unit"@ != "pc"@,
        "unit"@ != "state"@,
        "unit"@ != "id"@,
        "unit"@ != "address"@,
        "unit"@ != "hardware"@,
        "unit"@ != "cleared"@,
        "unit"@ != "events"@,
        "unit"@ != "dropped"@,
        "unit"@ != "buttons"@,
        "unit"@ != "override_engaged"@,
        "unit"@ != "x"@,
        "unit"@ != "y"@,
        "unit"@ != "frames"@,
        "unit"@ != "frames_elapsed"@,
        "unit"@ != "reason"@,
        "unit"@ != "released"@,
        "unit"@ != "path"@,
        "count"@ != "cpu"@,
        "count"@ != "pc"@,
        "count"@ != "state"@,
        "count"@ != "id"@,
        "count"@ != "address"@,
        "count"@ != "hardware"@,
        "count"@ != "cleared"@,
        "count"@ != "events"@,
        "count"@ != "dropped"@,
        "count"@ != "buttons"@,
        "count"@ != "override_engaged"@,
        "count"@ != "x"@,
        "count"@ != "y"@,
        "count"@ != "frames"@,
        "count"@ != "frames_elapsed"@,
        "count"@ != "reason"@,
        "count"@ != "released"@,
        "count"@ != "path"@,
        "cpu"@ != "pc"@,
        "cpu"@ != "state"@,
        "cpu"@ != "id"@,
        "cpu"@ != "address"@,
        "cpu"@ != "hardware"@,
        "cpu"@ != "cleared"@,
        "cpu"@ != "events"@,
        "cpu"@ != "dropped"@,
        "cpu"@ != "buttons"@,
        "cpu"@ != "override_engaged"@,
        "cpu"@ != "x"@,
        "cpu"@ != "y"@,
        "cpu"@ != "frames"@,
        "cpu"@ != "frames_elapsed"@,
        "cpu"@ != "reason"@,
        "cpu"@ != "released"@,
        "cpu"@ != "path"@,
        "pc"@ != "state"@,
        "pc"@ != "id"@,
        "pc"@ != "address"@,
        "pc"@ != "hardware"@,
        "pc"@ != "cleared"@,
        "pc"@ != "events"@,
        "pc"@ != "dropped"@,
        "pc"@ != "buttons"@,
        "pc"@ != "override_engaged"@,
        "pc"@ != "x"@,
        "pc"@ != "y"@,
        "pc"@ != "frames"@,
        "pc"@ != "frames_elapsed"@,
        "pc"@ != "reason"@,
        "pc"@ != "released"@,
        "pc"@ != "path"@,
        "state"@ != "id"@,
        "state"@ != "address"@,
        "state"@ != "hardware"@,
        "state"@ != "cleared"@,
        "state"@ != "events"@,
        "state"@ != "dropped"@,
        "state"@ != "buttons"@,
        "state"@ != "override_engaged"@,
        "state"@ != "x"@,
        "state"@ != "y"@,
        "state"@ != "frames"@,
        "state"@ != "frames_elapsed"@,
        "state"@ != "reason"@,
        "state"@ != "released"@,
        "state"@ != "path"@,
        "id"@ != "address"@,
        "id"@ != "hardware"@,
        "id"@ != "cleared"@,
        "id"@ != "events"@,
        "id"@ != "dropped"@,
        "id"@ != "buttons"@,
        "id"@ != "override_engaged"@,
        "id"@ != "x"@,
        "id"@ != "y"@,
        "id"@ != "frames"@,
        "id"@ != "frames_elapsed"@,
        "id"@ != "reason"@,
        "id"@ != "released"@,
        "id"@ != "path"@,
        "address"@ != "hardware"@,
        "address"@ != "cleared"@,
        "address"@ != "events"@,
        "address"@ != "dropped"@,
        "address"@ != "buttons"@,
        "address"@ != "override_engaged"@,
        "address"@ != "x"@,
        "address"@ != "y"@,
        "address"@ != "frames"@,
        "address"@ != "frames_elapsed"@,
        "address"@ != "reason"@,
        "address"@ != "released"@,
        "address"@ != "path"@,
        "hardware"@ != "cleared"@,
        "hardware"@ != "events"@,
        "hardware"@ != "dropped"@,
        "hardware"@ != "buttons"@,
        "hardware"@ != "override_engaged"@,
        "hardware"@ != "x"@,
        "hardware"@ != "y"@,
        "hardware"@ != "frames"@,
        "hardware"@ != "frames_elapsed"@,
        "hardware"@ != "reason"@,
        "hardware"@ != "released"@,
        "hardware"@ != "path"@,
        "cleared"@ != "events"@,
        "cleared"@ != "dropped"@,
        "cleared"@ != "buttons"@,
        "cleared"@ != "override_engaged"@,
        "cleared"@ != "x"@,
        "cleared"@ != "y"@,
        "cleared"@ != "frames"@,
        "cleared"@ != "frames_elapsed"@,
        "cleared"@ != "reason"@,
        "cleared"@ != "released"@,
        "cleared"@ != "path"@,
        "events"@ != "dropped"@,
        "events"@ != "buttons"@,
        "events"@ != "override_engaged"@,
        "events"@ != "x"@,
        "events"@ != "y"@,
        "events"@ != "frames"@,
        "events"@ != "frames_elapsed"@,
        "events"@ != "reason"@,
        "events"@ != "released"@,
        "events"@ != "path"@,
        "dropped"@ != "buttons"@,
        "dropped"@ != "override_engaged"@,
        "dropped"@ != "x"@,
        "dropped"@ != "y"@,
        "dropped"@ != "frames"@,
        "dropped"@ != "frames_elapsed"@,
        "dropped"@ != "reason"@,
        "dropped"@ != "released"@,
        "dropped"@ != "path"@,
        "buttons"@ != "override_engaged"@,
        "buttons"@ != "x"@,
        "buttons"@ != "y"@,
        "buttons"@ != "frames"@,
        "buttons"@ != "frames_elapsed"@,
        "buttons"@ != "reason"@,
        "buttons"@ != "released"@,
        "buttons"@ != "path"@,
        "override_engaged"@ != "x"@,
        "override_engaged"@ != "y"@,
        "override_engaged"@ != "frames"@,
        "override_engaged"@ != "frames_elapsed"@,
        "override_engaged"@ != "reason"@,
        "override_engaged"@ != "released"@,
        "override_engaged"@ != "path"@,
        "x"@ != "y"@,
        "x"@ != "frames"@,
        "x"@ != "frames_elapsed"@,
        "x"@ != "reason"@,
        "x"@ != "released"@,
        "x"@ != "path"@,
        "y"@ != "frames"@,
        "y"@ != "frames_elapsed"@,
        "y"@ != "reason"@,
        "y"@ != "released"@,
        "y"@ != "path"@,
        "frames"@ != "frames_elapsed"@,
        "frames"@ != "reason"@,
        "frames"@ != "released"@,
        "frames"@ != "path"@,
        "frames_elapsed"@ != "reason"@,
        "frames_elapsed"@ != "released"@,
        "frames_elapsed"@ != "path"@,
        "reason"@ != "released"@,
        "reason"@ != "path"@,
        "released"@ != "path"@,
{
    reveal_strlit("status");
    reveal_strlit("unit");
    reveal_strlit("count");
    reveal_strlit("cpu");
    reveal_strlit("pc");
    reveal_strlit("state");
    reveal_strlit("id");
    reveal_strlit("address");
    reveal_strlit("hardware");
    reveal_strlit("cleared");
    reveal_strlit("events");
    reveal_strlit("dropped");
    reveal_strlit("buttons");
    reveal_strlit("override_engaged");
    reveal_strlit("x");
    reveal_strlit("y");
    reveal_strlit("frames");
    reveal_strlit("frames_elapsed");
    reveal_strlit("reason");
    reveal_strlit("released");
    reveal_strlit("path");
    assert("status"@.len() == 6);
    assert("unit"@.len() == 4);
    assert("count"@.len() == 5);
    assert("cpu"@.len() == 3);
    assert("pc"@.len() == 2);
    assert("state"@.len() == 5);
    assert("id"@.len() == 2);
    assert("address"@.len() == 7);
    assert("hardware"@.len() == 8);
    assert("cleared"@.len() == 7);
    assert("events"@.len() == 6);
    assert("dropped"@.len() == 7);
    assert("buttons"@.len() == 7);
    assert("override_engaged"@.len() == 16);
    assert("x"@.len() == 1);
    assert("y"@.len() == 1);
    assert("frames"@.len() == 6);
    assert("frames_elapsed"@.len() == 14);
    assert("reason"@.len() == 6);
    assert("released"@.len() == 8);
    assert("path"@.len() == 4);
    assert("status"@[0] == 's');
    assert("unit"@[0] == 'u');
    assert("count"@[0] == 'c');
    assert("pc"@[0] == 'p');
    assert("state"@[0] == 's');
    assert("id"@[0] == 'i');
    assert("address"@[0] == 'a');
    assert("hardware"@[0] == 'h');
    assert("cleared"@[0] == 'c');
    assert("events"@[0] == 'e');
    assert("dropped"@[0] == 'd');
    assert("buttons"@[0] == 'b');
    assert("x"@[0] == 'x');
    assert("y"@[0] == 'y');
    assert("frames"@[0] == 'f');
    assert("reason"@[0] == 'r');
    assert("released"@[0] == 'r');
    assert("path"@[0] == 'p');
}

/// Whether a step was one instruction, at whose end the core stopped.
pub open spec fn is_one_instruction(step: GdbStep) -> bool {
    laws::asks(step, "s"@) && laws::answer(step).len() > 0 && (laws::answer(step)[0] == 'S'
        || laws::answer(step)[0] == 'T')
}

proof fn steps_are_counted(
    h: Seq<GdbStep>,
    n: int,
    core: CoreView,
    usual: u64,
    deadline: u64,
    count: u64,
    done: u64,
)
    requires
        done <= count,
    ensures
        timed::steps_run(h, n, core, usual, deadline, count, done) matches Some((m, _, Ok(()))) ==> {
            let steps = laws::sent(h, n, m);
            &&& n <= m
            &&& steps.len() == count - done
            &&& forall|k: int| 0 <= k < steps.len() ==> is_one_instruction(#[trigger] steps[k])
        },
    decreases count - done,
{
    if done < count && 0 <= n < h.len() {
        if let GdbStep::Clock { now } = h[n] {
            laws::one_step(h, n);
            laws::drains_send_nothing(h, n + 1, core);
            if let Some((a, c, Ok(()))) = cpu::drain_run(h, n + 1, core) {
                laws::one_step(h, a);
                laws::commands_are_sent_once(h, a + 1, c, "s"@);
                if let Some((k, d, Ok(reply))) = cpu::cmd_run(h, a + 1, c, "s"@) {
                    let next = (done + 1) as u64;
                    steps_are_counted(h, k, d, usual, deadline, count, next);
                    laws::sent_joins(h, n, n + 1, a);
                    laws::sent_joins(h, n, a, a + 1);
                    laws::sent_joins(h, n, a + 1, k);
                    if let Some((m, e, Ok(()))) = timed::steps_run(
                        h,
                        k,
                        d,
                        usual,
                        deadline,
                        count,
                        next,
                    ) {
                        laws::sent_joins(h, n, k, m);
                        let first = laws::sent(h, a + 1, k);
                        let rest = laws::sent(h, k, m);
                        let all = laws::sent(h, n, m);
                        if gdb::is_stop(reply) && gdb::is_timeout_set(
                            h,
                            a,
                            timed::clipped(usual, deadline, now),
                        ) {
                            assert forall|q: int| 0 <= q < all.len() implies is_one_instruction(
                                #[trigger] all[q],
                            ) by {
                                if q == 0 {
                                    assert(all[0] == first[0]);
                                } else {
                                    assert(all[q] == rest[q - 1]);
                                }
                            }
                        }
                    }
                }
            }
        }
    }
}

proof fn core_steps_are_exact(h: Seq<GdbStep>, n: int, core: CoreView, count: u64, budget: u64)
    ensures
        timed::step_run(h, n, core, count, budget) matches Some((m, _, Ok(state))) ==> {
            let steps = laws::sent(h, n, m);
            &&& n <= m
            &&& steps.len() == count + 1
            &&& forall|k: int| 0 <= k < count ==> is_one_instruction(#[trigger] steps[k])
            &&& laws::asks(steps[count as int], "g"@)
            &&& !gdb::is_stop(laws::answer(steps[count as int])) ==> state == decode::state_of(
                laws::answer(steps[count as int]),
            )
        },
{
    laws::pauses_send_nothing(h, n, core);
    if let Some((a, c, Ok(found))) = cpu::pause_run(h, n, core) {
        if let Some((k, d, Ok(()))) = timed::budgeted_run(h, a, c, count, budget) {
            laws::one_step(h, a);
            laws::one_step(h, a + 1);
            let now = h[a]->now;
            let usual = h[a + 1]->told->Ok_0;
            let deadline = crate::live::exchange::capped_sum(now, budget);
            steps_are_counted(h, a + 2, c, usual, deadline, count, 0);
            let (e, f, r) = timed::steps_run(h, a + 2, c, usual, deadline, count, 0)->0;
            laws::one_step(h, e);
            laws::commands_are_sent_once(h, k, d, "g"@);
            laws::sent_joins(h, n, a, a + 1);
            laws::sent_joins(h, n, a + 1, a + 2);
            laws::sent_joins(h, n, a + 2, e);
            laws::sent_joins(h, n, e, k);
            if let Some((m, g, Ok(packet))) = commands::regs_run(h, k, d) {
                laws::sent_joins(h, n, k, m);
                let steps = laws::sent(h, n, m);
                let middle = laws::sent(h, a + 2, e);
                let last = laws::sent(h, k, m);
                assert(steps =~= middle + last);
                assert forall|q: int| 0 <= q < count implies is_one_instruction(
                    #[trigger] steps[q],
                ) by {
                    assert(steps[q] == middle[q]);
                }
                assert(steps[count as int] == last[0]);
            }
        }
    }
}

/// The core that a request names, the ARM9 where it names none.
pub open spec fn asked_core(params: JsonView) -> CpuId {
    if params.text_field("cpu"@) == Some("arm7"@) {
        CpuId::Arm7
    } else {
        CpuId::Arm9
    }
}

/// Instructions that are told as stepped were each stepped by one packet, as many as asked for, and
/// at least one; the state that is told was read after them. Both cores then count as frozen.
pub proof fn completed_instruction_steps_are_exact<G: GdbTransport>(
    before: NdsBridge<G>,
    after: NdsBridge<G>,
    operation: Operation,
    params: JsonView,
    r: Result<JsonView, NdsErrorView>,
    told: u64,
)
    requires
        operation == Operation::Step || operation == Operation::StepInstructions,
        service::operation_does(before, after, operation, params, r),
        params.unsigned_field("count"@) == Some(told) || (params.field("count"@) is None && (
        params.unsigned_field("n"@) == Some(told) || (params.field("n"@) is None && params.field(
            "frames"@,
        ) is None && told == 1))),
    ensures
        r matches Ok(report) ==> {
            let count = if told == 0 {
                1
            } else {
                told
            };
            let cpu = asked_core(params);
            let steps = laws::sent_to(after.wires(), before.cores(), after.cores(), cpu);
            &&& count <= 5_000
            &&& steps.len() == count + 1
            &&& forall|k: int| 0 <= k < count ==> is_one_instruction(#[trigger] steps[k])
            &&& laws::asks(steps[count as int], "g"@)
            &&& report.text_field("status"@) == Some("completed"@)
            &&& report.unsigned_field("count"@) == Some(count)
            &&& report.text_field("cpu"@) == Some(laws::name_of(cpu))
            &&& after.cores().nine.1.frozen
            &&& after.cores().seven matches Some((_, core)) ==> core.frozen
        },
{
    broadcast use json::added_is_found;

    report_words_differ();
    laws::names_differ();
    if let Ok(count) = support::count_of(params) {
        core_steps_are_exact(
            after.wires().nine,
            before.cores().nine.0,
            before.cores().nine.1,
            count,
            memory::STEP_BUDGET,
        );
        if let Some((n, c)) = before.cores().seven {
            core_steps_are_exact(after.wires().seven, n, c, count, memory::STEP_BUDGET);
        }
    }
}

/// The packet that sets or clears a breakpoint: `Z` or `z`, the kind, and the address.
pub open spec fn point_packet(verb: Seq<char>, hardware: bool, address: int) -> Seq<char> {
    (((verb + (if hardware {
        "1"@
    } else {
        "0"@
    })) + ","@) + text::hexadecimal(address as nat)) + ",4"@
}

/// A breakpoint that is told as set was set by one packet of its kind at its address, on its core,
/// and is then known under the number that was told, behind the others.
pub proof fn set_breakpoints_are_armed<G: GdbTransport>(
    before: NdsBridge<G>,
    after: NdsBridge<G>,
    params: JsonView,
    r: Result<JsonView, NdsErrorView>,
    offset: u64,
)
    requires
        service::operation_does(before, after, Operation::SetBreakpoint, params, r),
        params.unsigned_field("address"@) == Some(offset) || (params.field("address"@) is None
            && params.unsigned_field("start"@) == Some(offset)),
    ensures
        r matches Ok(report) ==> {
            let name = laws::memory_named(params, "arm9"@);
            let cpu = laws::core_named(params, name);
            let address = laws::base_named(name) + offset;
            let hardware = params.truth_field("hardware"@) == Some(true);
            let steps = laws::sent_to(after.wires(), before.cores(), after.cores(), cpu);
            &&& params.text_field("kind"@) matches Some(kind) ==> kind == "exec"@
            &&& offset + 4 <= laws::size_named(name)
            &&& steps.len() == 1
            &&& laws::asks(steps[0], point_packet("Z"@, hardware, address))
            &&& laws::answer(steps[0]) == "OK"@ || gdb::is_stop(laws::answer(steps[0]))
            &&& after.bps@ == before.bps@.push(
                NdsBreakpoint { id: before.next_bp, cpu, address: address as u64, hardware },
            )
            &&& before.next_bp < u64::MAX ==> after.next_bp == before.next_bp + 1
            &&& report.unsigned_field("id"@) == Some(before.next_bp)
            &&& report.text_field("cpu"@) == Some(laws::name_of(cpu))
            &&& report.unsigned_field("address"@) == Some(address as u64)
            &&& report.truth_field("hardware"@) == Some(hardware)
        },
        r is Err ==> after.bps@ == before.bps@ && after.next_bp == before.next_bp,
{
    broadcast use json::added_is_found;

    report_words_differ();
    laws::names_differ();
    if let Ok((cpu, address)) = support::routed(params, 4) {
        let packet = events::bp_packet("Z"@, events::is_hardware(params), address);
        laws::commands_are_sent_once(
            after.wires().nine,
            before.cores().nine.0,
            before.cores().nine.1,
            packet,
        );
        if let Some((n, c)) = before.cores().seven {
            laws::commands_are_sent_once(after.wires().seven, n, c, packet);
        }
    }
}

proof fn place_holds(bps: Seq<NdsBreakpoint>, id: u64)
    ensures
        match events::place_of(bps, id) {
            Some(i) => 0 <= i < bps.len() && bps[i].id == id,
            None => forall|i: int| 0 <= i < bps.len() ==> (#[trigger] bps[i]).id != id,
        },
    decreases bps.len(),
{
    if bps.len() > 0 && bps[0].id != id {
        let rest = bps.drop_first();
        place_holds(rest, id);
        if events::place_of(rest, id) is None {
            assert forall|i: int| 0 <= i < bps.len() implies (#[trigger] bps[i]).id != id by {
                if i > 0 {
                    assert(rest[i - 1] == bps[i]);
                }
            }
        }
    }
}

/// Clearing a breakpoint that succeeds sent the packet that clears it, as it was set, to its core;
/// it alone is then forgotten. Clearing that fails forgets none.
pub proof fn cleared_breakpoints_are_gone<G: GdbTransport>(
    before: NdsBridge<G>,
    after: NdsBridge<G>,
    params: JsonView,
    r: Result<JsonView, NdsErrorView>,
    id: u64,
)
    requires
        service::operation_does(before, after, Operation::ClearBreakpoint, params, r),
        params.unsigned_field("id"@) == Some(id),
    ensures
        match r {
            Err(_) => after.bps@ == before.bps@,
            Ok(report) => {
                &&& report.unsigned_field("cleared"@) == Some(id)
                &&& exists|i: int|
                    0 <= i < before.bps@.len() && before.bps@[i].id == id && after.bps@
                        == before.bps@.remove(i) && #[trigger] was_cleared(
                        after.wires(),
                        before.cores(),
                        after.cores(),
                        before.bps@[i],
                    )
            },
        },
{
    broadcast use json::added_is_found;

    place_holds(before.bps@, id);
    if let Some(i) = events::place_of(before.bps@, id) {
        let bp = before.bps@[i];
        let packet = events::bp_packet("z"@, bp.hardware, bp.address);
        laws::commands_are_sent_once(
            after.wires().nine,
            before.cores().nine.0,
            before.cores().nine.1,
            packet,
        );
        if let Some((n, c)) = before.cores().seven {
            laws::commands_are_sent_once(after.wires().seven, n, c, packet);
        }
        if r is Ok {
            assert(was_cleared(after.wires(), before.cores(), after.cores(), bp));
        }
    }
}

/// Whether the packet that clears a breakpoint was sent to its core, and nothing else.
pub open spec fn was_cleared(w: Wires, before: Cores, after: Cores, bp: NdsBreakpoint) -> bool {
    let steps = laws::sent_to(w, before, after, bp.cpu);
    steps.len() == 1 && laws::asks(
        steps[0],
        point_packet("z"@, bp.hardware, bp.address as int),
    )
}

proof fn clearing_all_accounts(
    w: Wires,
    s: Cores,
    bps: Seq<NdsBreakpoint>,
    ids: Seq<u64>,
    i: int,
    cleared: Seq<JsonView>,
    next: u64,
)
    requires
        events::well_numbered(bps, next),
        0 <= i <= ids.len(),
    ensures
        events::clear_all_on(w, s, bps, ids, i, cleared) matches Some((_, rest, told)) ==> {
            &&& events::well_numbered(rest, next)
            &&& told.len() - cleared.len() == bps.len() - rest.len()
            &&& cleared.is_prefix_of(told)
            &&& forall|k: int|
                cleared.len() <= k < told.len() ==> (#[trigger] told[k] matches JsonView::Unsigned(id)
                    && !has_number(rest, id) && has_number(bps, id))
            &&& forall|id: u64| #[trigger] has_number(rest, id) ==> has_number(bps, id)
        },
    decreases ids.len() - i,
{
    if i < ids.len() {
        place_holds(bps, ids[i]);
        if let Some((t, rest, result)) = events::clear_on(w, s, bps, ids[i]) {
            if let Ok(()) = result {
                let j = events::place_of(bps, ids[i])->0;
                assert(bps[j].id == ids[i]);
                events::numbers_stay_their_own(bps, next, bps[j], j);
                removal_takes_one(bps, j, next);
                let more = cleared.push(JsonView::Unsigned(ids[i]));
                clearing_all_accounts(w, t, rest, ids, i + 1, more, next);
                if let Some((u, left, told)) = events::clear_all_on(w, t, rest, ids, i + 1, more) {
                    assert(told[cleared.len() as int] == more[cleared.len() as int]);
                    assert(cleared.is_prefix_of(told)) by {
                        assert(cleared =~= more.take(cleared.len() as int));
                        assert(more =~= told.take(more.len() as int));
                        assert(told.take(cleared.len() as int) =~= cleared);
                    }
                    assert forall|k: int| cleared.len() <= k < told.len() implies (
                    #[trigger] told[k] matches JsonView::Unsigned(id) && !has_number(left, id)
                        && has_number(bps, id)) by {
                        if k == cleared.len() {
                            if has_number(left, ids[i]) {
                                assert(has_number(rest, ids[i]));
                            }
                        }
                    }
                }
            } else {
                clearing_all_accounts(w, t, rest, ids, i + 1, cleared, next);
            }
        }
    }
}

proof fn removal_takes_one(bps: Seq<NdsBreakpoint>, j: int, next: u64)
    requires
        events::well_numbered(bps, next),
        0 <= j < bps.len(),
    ensures
        !has_number(bps.remove(j), bps[j].id),
        has_number(bps, bps[j].id),
        forall|id: u64| #[trigger] has_number(bps.remove(j), id) ==> has_number(bps, id),
        forall|id: u64|
            id != bps[j].id && #[trigger] has_number(bps, id) ==> has_number(bps.remove(j), id),
{
    let rest = bps.remove(j);
    assert forall|k: int| 0 <= k < rest.len() implies (#[trigger] rest[k]) == bps[if k < j {
        k
    } else {
        k + 1
    }] by {}
    assert forall|id: u64| #[trigger] has_number(rest, id) implies has_number(bps, id) by {
        let k = choose|k: int| 0 <= k < rest.len() && (#[trigger] rest[k]).id == id;
        let q = if k < j {
            k
        } else {
            k + 1
        };
        assert(bps[q].id == id);
    }
    assert forall|id: u64| id != bps[j].id && #[trigger] has_number(bps, id) implies has_number(
        rest,
        id,
    ) by {
        let k = choose|k: int| 0 <= k < bps.len() && (#[trigger] bps[k]).id == id;
        let q = if k < j {
            k
        } else {
            k - 1
        };
        assert(rest[q].id == id);
    }
}

/// Whether some breakpoint has a number.
pub open spec fn has_number(bps: Seq<NdsBreakpoint>, id: u64) -> bool {
    exists|i: int| 0 <= i < bps.len() && (#[trigger] bps[i]).id == id
}

/// Clearing all breakpoints tells as many as are gone afterwards, and only such: each number that is
/// told was there before and is there no more.
pub proof fn clearing_all_tells_what_is_gone<G: GdbTransport>(
    before: NdsBridge<G>,
    after: NdsBridge<G>,
    params: JsonView,
    r: Result<JsonView, NdsErrorView>,
)
    requires
        service::operation_does(before, after, Operation::ClearAllBreakpoints, params, r),
        events::well_numbered(before.bps@, before.next_bp),
    ensures
        r matches Ok(report) && (report.field("cleared"@) matches Some(JsonView::Array(told)) && {
            &&& told.len() == before.bps@.len() - after.bps@.len()
            &&& forall|k: int|
                0 <= k < told.len() ==> (#[trigger] told[k] matches JsonView::Unsigned(id)
                    && has_number(before.bps@, id) && !has_number(after.bps@, id))
        }),
        after.next_bp == before.next_bp,
{
    broadcast use json::added_is_found;

    clearing_all_accounts(
        after.wires(),
        before.cores(),
        before.bps@,
        events::ids_of(before.bps@),
        0,
        Seq::empty(),
        before.next_bp,
    );
}

/// A list of breakpoints tells each of them in its row: number, core, address, and whether it is set
/// in hardware. Nothing changes by it.
pub proof fn lists_tell_each_breakpoint<G: GdbTransport>(
    before: NdsBridge<G>,
    after: NdsBridge<G>,
    params: JsonView,
    r: Result<JsonView, NdsErrorView>,
    i: int,
)
    requires
        service::operation_does(before, after, Operation::ListBreakpoints, params, r),
        0 <= i < before.bps@.len(),
    ensures
        r matches Ok(report) && (report.field("breakpoints"@) matches Some(JsonView::Array(rows)) && {
            &&& rows.len() == before.bps@.len()
            &&& rows[i].unsigned_field("id"@) == Some(before.bps@[i].id)
            &&& rows[i].text_field("cpu"@) == Some(laws::name_of(before.bps@[i].cpu))
            &&& rows[i].unsigned_field("address"@) == Some(before.bps@[i].address)
            &&& rows[i].truth_field("hardware"@) == Some(before.bps@[i].hardware)
        }),
        after.bps == before.bps,
{
    broadcast use json::added_is_found;

    report_words_differ();
    reveal_strlit("kind");
    reveal_strlit("id");
    reveal_strlit("cpu");
    reveal_strlit("address");
    reveal_strlit("hardware");
    assert("kind"@.len() == 4 && "id"@.len() == 2 && "cpu"@.len() == 3 && "address"@.len() == 7
        && "hardware"@.len() == 8);
}

/// An event is made one of a breakpoint only where such a breakpoint stands: at the core of the
/// event and at the address at which that core stands.
pub proof fn hits_belong_to_a_breakpoint(bps: Seq<NdsBreakpoint>, cpu: CpuId, address: u64)
    ensures
        match events::bp_at(bps, cpu, address) {
            Some(id) => exists|i: int|
                0 <= i < bps.len() && (#[trigger] bps[i]).id == id && bps[i].cpu == cpu
                    && bps[i].address == address,
            None => forall|i: int|
                0 <= i < bps.len() ==> !((#[trigger] bps[i]).cpu == cpu && bps[i].address == address),
        },
    decreases bps.len(),
{
    if bps.len() > 0 {
        let rest = bps.drop_first();
        hits_belong_to_a_breakpoint(rest, cpu, address);
        if bps[0].cpu == cpu && bps[0].address == address {
            assert(bps[0].id == events::bp_at(bps, cpu, address)->0);
        } else if events::bp_at(rest, cpu, address) is Some {
            let id = events::bp_at(rest, cpu, address)->0;
            let i = choose|i: int|
                0 <= i < rest.len() && (#[trigger] rest[i]).id == id && rest[i].cpu == cpu
                    && rest[i].address == address;
            assert(bps[i + 1] == rest[i]);
        } else {
            assert forall|i: int| 0 <= i < bps.len() implies !((#[trigger] bps[i]).cpu == cpu
                && bps[i].address == address) by {
                if i > 0 {
                    assert(rest[i - 1] == bps[i]);
                }
            }
        }
    }
}

proof fn chosen_are_wanted(events: Seq<JsonView>, filter: Option<u64>, wanted: bool)
    ensures
        forall|i: int|
            0 <= i < events::chosen(events, filter, wanted).len() ==> wanted == (filter matches Some(
                id,
            ) ==> (#[trigger] events::chosen(events, filter, wanted)[i]).unsigned_field("id"@) == Some(
                id,
            )),
        filter is None && wanted ==> events::chosen(events, filter, wanted) == events,
        filter is None && !wanted ==> events::chosen(events, filter, wanted).len() == 0,
    decreases events.len(),
{
    let all = events::chosen(events, filter, wanted);
    if events.len() > 0 {
        let front = events.drop_last();
        let earlier = events::chosen(front, filter, wanted);
        chosen_are_wanted(front, filter, wanted);
        assert forall|i: int| 0 <= i < all.len() implies wanted == (filter matches Some(id) ==> (
        #[trigger] all[i]).unsigned_field("id"@) == Some(id)) by {
            if i < earlier.len() {
                assert(all[i] == earlier[i]);
            }
        }
        if filter is None && wanted {
            assert(front.push(events.last()) =~= events);
        }
    } else {
        assert(all =~= events);
    }
}

/// A poll that succeeds tells only events of the breakpoint that it asks for, or all where it asks
/// for none, and holds back only others. No event that was held back before is lost.
pub proof fn polls_tell_the_events_asked_for<G: GdbTransport>(
    before: NdsBridge<G>,
    after: NdsBridge<G>,
    params: JsonView,
    r: Result<JsonView, NdsErrorView>,
    filter: Option<u64>,
)
    requires
        service::operation_does(before, after, Operation::PollEvents, params, r),
        match filter {
            Some(id) => params.unsigned_field("breakpoint_id"@) == Some(id),
            None => params.field("breakpoint_id"@) is None,
        },
    ensures
        r matches Ok(report) ==> (report.field("events"@) matches Some(JsonView::Array(told)) && {
            let held = json::views(after.events@);
            let earlier = json::views(before.events@);
            &&& forall|i: int|
                0 <= i < told.len() ==> (filter matches Some(id) ==> (
                #[trigger] told[i]).unsigned_field("id"@) == Some(id))
            &&& forall|i: int|
                0 <= i < held.len() ==> (filter matches Some(id) && (
                #[trigger] held[i]).unsigned_field("id"@) != Some(id))
            &&& forall|i: int|
                0 <= i < earlier.len() ==> told.contains(#[trigger] earlier[i]) || held.contains(
                    earlier[i],
                )
        }),
{
    broadcast use json::added_is_found;
    broadcast use vstd::seq_lib::group_to_multiset_ensures;

    report_words_differ();
    if let Some((s, Ok(()))) = bridge::drain_on(after.wires(), before.cores()) {
        if let Some((t, fresh)) = events::enrich_all_on(
            after.wires(),
            events::emptied(s),
            before.bps@,
            events::held_events(s),
            0,
            Seq::empty(),
        ) {
            let earlier = json::views(before.events@);
            let all = earlier + fresh;
            let told = events::chosen(all, filter, true);
            let held = events::chosen(all, filter, false);
            chosen_are_wanted(all, filter, true);
            chosen_are_wanted(all, filter, false);
            events::polled_events_are_kept(all, filter);
            assert forall|i: int| 0 <= i < earlier.len() implies told.contains(
                #[trigger] earlier[i],
            ) || held.contains(earlier[i]) by {
                assert(all[i] == earlier[i]);
                assert(all.to_multiset().count(earlier[i]) > 0);
            }
        }
    }
}

} // verus!
