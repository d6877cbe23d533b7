//! What stepping, breakpoints and memory requests promise, told by what was asked of the core and
//! what it answered.

use vstd::prelude::*;
use crate::encoding;
use crate::json;
use crate::json::JsonView;
use crate::n64::breakpoints;
use crate::n64::breakpoints::{ArmOutcomeView, PublicBreakpointView, TableView};
use crate::n64::debug;
use crate::n64::debug::{BreakpointKind, BreakpointSpecView};
use crate::n64::frame::FrameGateTrigger;
use crate::n64::frame_step;
use crate::n64::frame_step::{FrameActionView, FrameEventView, FrameStepView};
use crate::n64::hits;
use crate::n64::hits::Trigger;
use crate::n64::instruction_step;
use crate::n64::instruction_step::{InstructionStepView, StepActionView, StepEventView};
use crate::n64::lifecycle::HostState;
use crate::n64::service;
use crate::n64::N64ErrorView;
use crate::text;
use crate::text_laws;

verus! {

proof fn report_words_differ()
    ensures
        "status"@ != "reason"@,
        "status"@ != "breakpoint_id"@,
        "status"@ != "event"@,
        "status"@ != "unit"@,
        "status"@ != "completed"@,
        "status"@ != "state"@,
        "status"@ != "count"@,
        "status"@ != "cpu"@,
        "status"@ != "pc"@,
        "status"@ != "frame"@,
        "status"@ != "frame_before"@,
        "status"@ != "frame_before_verified"@,
        "status"@ != "vi_count"@,
        "status"@ != "id"@,
        "status"@ != "kind"@,
        "status"@ != "start"@,
        "status"@ != "end"@,
        "status"@ != "native_slot"@,
        "status"@ != "arm_state"@,
        "status"@ != "arm_error"@,
        "status"@ != "pause_on_hit"@,
        "status"@ != "type"@,
        "status"@ != "address"@,
        "status"@ != "hit_seq"@,
        "status"@ != "debug_update_seq"@,
        "status"@ != "snapshot_timing"@,
        "reason"@ != "breakpoint_id"@,
        "reason"@ != "event"@,
        "reason"@ != "unit"@,
        "reason"@ != "completed"@,
        "reason"@ != "state"@,
        "reason"@ != "count"@,
        "reason"@ != "cpu"@,
        "reason"@ != "pc"@,
        "reason"@ != "frame"@,
        "reason"@ != "frame_before"@,
        "reason"@ != "frame_before_verified"@,
        "reason"@ != "vi_count"@,
        "reason"@ != "id"@,
        "reason"@ != "kind"@,
        "reason"@ != "start"@,
        "reason"@ != "end"@,
        "reason"@ != "native_slot"@,
        "reason"@ != "arm_state"@,
        "reason"@ != "arm_error"@,
        "reason"@ != "pause_on_hit"@,
        "reason"@ != "type"@,
        "reason"@ != "address"@,
        "reason"@ != "hit_seq"@,
        "reason"@ != "debug_update_seq"@,
        "reason"@ != "snapshot_timing"@,
        "breakpoint_id"@ != "event"@,
        "breakpoint_id"@ != "unit"@,
        "breakpoint_id"@ != "completed"@,
        "breakpoint_id"@ != "state"@,
        "breakpoint_id"@ != "count"@,
        "breakpoint_id"@ != "cpu"@,
        "breakpoint_id"@ != "pc"@,
        "breakpoint_id"@ != "frame"@,
        "breakpoint_id"@ != "frame_before"@,
        "breakpoint_id"@ != "frame_before_verified"@,
        "breakpoint_id"@ != "vi_count"@,
        "breakpoint_id"@ != "id"@,
        "breakpoint_id"@ != "kind"@,
        "breakpoint_id"@ != "start"@,
        "breakpoint_id"@ != "end"@,
        "breakpoint_id"@ != "native_slot"@,
        "breakpoint_id"@ != "arm_state"@,
        "breakpoint_id"@ != "arm_error"@,
        "breakpoint_id"@ != "pause_on_hit"@,
        "breakpoint_id"@ != "type"@,
        "breakpoint_id"@ != "address"@,
        "breakpoint_id"@ != "hit_seq"@,
        "breakpoint_id"@ != "debug_update_seq"@,
        "breakpoint_id"@ != "snapshot_timing"@,
        "event"@ != "unit"@,
        "event"@ != "completed"@,
        "event"@ != "state"@,
        "event"@ != "count"@,
        "event"@ != "cpu"@,
        "event"@ != "pc"@,
        "event"@ != "frame"@,
        "event"@ != "frame_before"@,
        "event"@ != "frame_before_verified"@,
        "event"@ != "vi_count"@,
        "event"@ != "id"@,
        "event"@ != "kind"@,
        "event"@ != "start"@,
        "event"@ != "end"@,
        "event"@ != "native_slot"@,
        "event"@ != "arm_state"@,
        "event"@ != "arm_error"@,
        "event"@ != "pause_on_hit"@,
        "event"@ != "type"@,
        "event"@ != "address"@,
        "event"@ != "hit_seq"@,
        "event"@ != "debug_update_seq"@,
        "event"@ != "snapshot_timing"@,
        "unit"@ != "completed"@,
        "unit"@ != "state"@,
        "unit"@ != "count"@,
        "unit"@ != "cpu"@,
        "unit"@ != "pc"@,
        "unit"@ != "frame"@,
        "unit"@ != "frame_before"@,
        "unit"@ != "frame_before_verified"@,
        "unit"@ != "vi_count"@,
        "unit"@ != "id"@,
        "unit"@ != "kind"@,
        "unit"@ != "start"@,
        "unit"@ != "end"@,
        "unit"@ != "native_slot"@,
        "unit"@ != "arm_state"@,
        "unit"@ != "arm_error"@,
        "unit"@ != "pause_on_hit"@,
        "unit"@ != "type"@,
        "unit"@ != "address"@,
        "unit"@ != "hit_seq"@,
        "unit"@ != "debug_update_seq"@,
        "unit"@ != "snapshot_timing"@,
        "completed"@ != "state"@,
        "completed"@ != "count"@,
        "completed"@ != "cpu"@,
        "completed"@ != "pc"@,
        "completed"@ != "frame"@,
        "completed"@ != "frame_before"@,
        "completed"@ != "frame_before_verified"@,
        "completed"@ != "vi_count"@,
        "completed"@ != "id"@,
        "completed"@ != "kind"@,
        "completed"@ != "start"@,
        "completed"@ != "end"@,
        "completed"@ != "native_slot"@,
        "completed"@ != "arm_state"@,
        "completed"@ != "arm_error"@,
        "completed"@ != "pause_on_hit"@,
        "completed"@ != "type"@,
        "completed"@ != "address"@,
        "completed"@ != "hit_seq"@,
        "completed"@ != "debug_update_seq"@,
        "completed"@ != "snapshot_timing"@,
        "state"@ != "count"@,
        "state"@ != "cpu"@,
        "state"@ != "pc"@,
        "state"@ != "frame"@,
        "state"@ != "frame_before"@,
        "state"@ != "frame_before_verified"@,
        "state"@ != "vi_count"@,
        "state"@ != "id"@,
        "state"@ != "kind"@,
        "state"@ != "start"@,
        "state"@ != "end"@,
        "state"@ != "native_slot"@,
        "state"@ != "arm_state"@,
        "state"@ != "arm_error"@,
        "state"@ != "pause_on_hit"@,
        "state"@ != "type"@,
        "state"@ != "address"@,
        "state"@ != "hit_seq"@,
        "state"@ != "debug_update_seq"@,
        "state"@ != "snapshot_timing"@,
        "count"@ != "cpu"@,
        "count"@ != "pc"@,
        "count"@ != "frame"@,
        "count"@ != "frame_before"@,
        "count"@ != "frame_before_verified"@,
        "count"@ != "vi_count"@,
        "count"@ != "id"@,
        "count"@ != "kind"@,
        "count"@ != "start"@,
        "count"@ != "end"@,
        "count"@ != "native_slot"@,
        "count"@ != "arm_state"@,
        "count"@ != "arm_error"@,
        "count"@ != "pause_on_hit"@,
        "count"@ != "type"@,
        "count"@ != "address"@,
        "count"@ != "hit_seq"@,
        "count"@ != "debug_update_seq"@,
        "count"@ != "snapshot_timing"@,
        "cpu"@ != "pc"@,
        "cpu"@ != "frame"@,
        "cpu"@ != "frame_before"@,
        "cpu"@ != "frame_before_verified"@,
        "cpu"@ != "vi_count"@,
        "cpu"@ != "id"@,
        "cpu"@ != "kind"@,
        "cpu"@ != "start"@,
        "cpu"@ != "end"@,
        "cpu"@ != "native_slot"@,
        "cpu"@ != "arm_state"@,
        "cpu"@ != "arm_error"@,
        "cpu"@ != "pause_on_hit"@,
        "cpu"@ != "type"@,
        "cpu"@ != "address"@,
        "cpu"@ != "hit_seq"@,
        "cpu"@ != "debug_update_seq"@,
        "cpu"@ != "snapshot_timing"@,
        "pc"@ != "frame"@,
        "pc"@ != "frame_before"@,
        "pc"@ != "frame_before_verified"@,
        "pc"@ != "vi_count"@,
        "pc"@ != "id"@,
        "pc"@ != "kind"@,
        "pc"@ != "start"@,
        "pc"@ != "end"@,
        "pc"@ != "native_slot"@,
        "pc"@ != "arm_state"@,
        "pc"@ != "arm_error"@,
        "pc"@ != "pause_on_hit"@,
        "pc"@ != "type"@,
        "pc"@ != "address"@,
        "pc"@ != "hit_seq"@,
        "pc"@ != "debug_update_seq"@,
        "pc"@ != "snapshot_timing"@,
        "frame"@ != "frame_before"@,
        "frame"@ != "frame_before_verified"@,
        "frame"@ != "vi_count"@,
        "frame"@ != "id"@,
        "frame"@ != "kind"@,
        "frame"@ != "start"@,
        "frame"@ != "end"@,
        "frame"@ != "native_slot"@,
        "frame"@ != "arm_state"@,
        "frame"@ != "arm_error"@,
        "frame"@ != "pause_on_hit"@,
        "frame"@ != "type"@,
        "frame"@ != "address"@,
        "frame"@ != "hit_seq"@,
        "frame"@ != "debug_update_seq"@,
        "frame"@ != "snapshot_timing"@,
        "frame_before"@ != "frame_before_verified"@,
        "frame_before"@ != "vi_count"@,
        "frame_before"@ != "id"@,
        "frame_before"@ != "kind"@,
        "frame_before"@ != "start"@,
        "frame_before"@ != "end"@,
        "frame_before"@ != "native_slot"@,
        "frame_before"@ != "arm_state"@,
        "frame_before"@ != "arm_error"@,
        "frame_before"@ != "pause_on_hit"@,
        "frame_before"@ != "type"@,
        "frame_before"@ != "address"@,
        "frame_before"@ != "hit_seq"@,
        "frame_before"@ != "debug_update_seq"@,
        "frame_before"@ != "snapshot_timing"@,
        "frame_before_verified"@ != "vi_count"@,
        "frame_before_verified"@ != "id"@,
        "frame_before_verified"@ != "kind"@,
        "frame_before_verified"@ != "start"@,
        "frame_before_verified"@ != "end"@,
        "frame_before_verified"@ != "native_slot"@,
        "frame_before_verified"@ != "arm_state"@,
        "frame_before_verified"@ != "arm_error"@,
        "frame_before_verified"@ != "pause_on_hit"@,
        "frame_before_verified"@ != "type"@,
        "frame_before_verified"@ != "address"@,
        "frame_before_verified"@ != "hit_seq"@,
        "frame_before_verified"@ != "debug_update_seq"@,
        "frame_before_verified"@ != "snapshot_timing"@,
        "vi_count"@ != "id"@,
        "vi_count"@ != "kind"@,
        "vi_count"@ != "start"@,
        "vi_count"@ != "end"@,
        "vi_count"@ != "native_slot"@,
        "vi_count"@ != "arm_state"@,
        "vi_count"@ != "arm_error"@,
        "vi_count"@ != "pause_on_hit"@,
        "vi_count"@ != "type"@,
        "vi_count"@ != "address"@,
        "vi_count"@ != "hit_seq"@,
        "vi_count"@ != "debug_update_seq"@,
        "vi_count"@ != "snapshot_timing"@,
        "id"@ != "kind"@,
        "id"@ != "start"@,
        "id"@ != "end"@,
        "id"@ != "native_slot"@,
        "id"@ != "arm_state"@,
        "id"@ != "arm_error"@,
        "id"@ != "pause_on_hit"@,
        "id"@ != "type"@,
        "id"@ != "address"@,
        "id"@ != "hit_seq"@,
        "id"@ != "debug_update_seq"@,
        "id"@ != "snapshot_timing"@,
        "kind"@ != "start"@,
        "kind"@ != "end"@,
        "kind"@ != "native_slot"@,
        "kind"@ != "arm_state"@,
        "kind"@ != "arm_error"@,
        "kind"@ != "pause_on_hit"@,
        "kind"@ != "type"@,
        "kind"@ != "address"@,
        "kind"@ != "hit_seq"@,
        "kind"@ != "debug_update_seq"@,
        "kind"@ != "snapshot_timing"@,
        "start"@ != "end"@,
        "start"@ != "native_slot"@,
        "start"@ != "arm_state"@,
        "start"@ != "arm_error"@,
        "start"@ != "pause_on_hit"@,
        "start"@ != "type"@,
        "start"@ != "address"@,
        "start"@ != "hit_seq"@,
        "start"@ != "debug_update_seq"@,
        "start"@ != "snapshot_timing"@,
        "end"@ != "native_slot"@,
        "end"@ != "arm_state"@,
        "end"@ != "arm_error"@,
        "end"@ != "pause_on_hit"@,
        "end"@ != "type"@,
        "end"@ != "address"@,
        "end"@ != "hit_seq"@,
        "end"@ != "debug_update_seq"@,
        "end"@ != "snapshot_timing"@,
        "native_slot"@ != "arm_state"@,
        "native_slot"@ != "arm_error"@,
        "native_slot"@ != "pause_on_hit"@,
        "native_slot"@ != "type"@,
        "native_slot"@ != "address"@,
        "native_slot"@ != "hit_seq"@,
        "native_slot"@ != "debug_update_seq"@,
        "native_slot"@ != "snapshot_timing"@,
        "arm_state"@ != "arm_error"@,
        "arm_state"@ != "pause_on_hit"@,
        "arm_state"@ != "type"@,
        "arm_state"@ != "address"@,
        "arm_state"@ != "hit_seq"@,
        "arm_state"@ != "debug_update_seq"@,
        "arm_state"@ != "snapshot_timing"@,
        "arm_error"@ != "pause_on_hit"@,
        "arm_error"@ != "type"@,
        "arm_error"@ != "address"@,
        "arm_error"@ != "hit_seq"@,
        "arm_error"@ != "debug_update_seq"@,
        "arm_error"@ != "snapshot_timing"@,
        "pause_on_hit"@ != "type"@,
        "pause_on_hit"@ != "address"@,
        "pause_on_hit"@ != "hit_seq"@,
        "pause_on_hit"@ != "debug_update_seq"@,
        "pause_on_hit"@ != "snapshot_timing"@,
        "type"@ != "address"@,
        "type"@ != "hit_seq"@,
        "type"@ != "debug_update_seq"@,
        "type"@ != "snapshot_timing"@,
        "address"@ != "hit_seq"@,
        "address"@ != "debug_update_seq"@,
        "address"@ != "snapshot_timing"@,
        "hit_seq"@ != "debug_update_seq"@,
        "hit_seq"@ != "snapshot_timing"@,
        "debug_update_seq"@ != "snapshot_timing"@,
{
    reveal_strlit("status");
    reveal_strlit("reason");
    reveal_strlit("breakpoint_id");
    reveal_strlit("event");
    reveal_strlit("unit");
    reveal_strlit("completed");
    reveal_strlit("state");
    reveal_strlit("count");
    reveal_strlit("cpu");
    reveal_strlit("pc");
    reveal_strlit("frame");
    reveal_strlit("frame_before");
    reveal_strlit("frame_before_verified");
    reveal_strlit("vi_count");
    reveal_strlit("id");
    reveal_strlit("kind");
    reveal_strlit("start");
    reveal_strlit("end");
    reveal_strlit("native_slot");
    reveal_strlit("arm_state");
    reveal_strlit("arm_error");
    reveal_strlit("pause_on_hit");
    reveal_strlit("type");
    reveal_strlit("address");
    reveal_strlit("hit_seq");
    reveal_strlit("debug_update_seq");
    reveal_strlit("snapshot_timing");
    assert("status"@.len() == 6);
    assert("reason"@.len() == 6);
    assert("breakpoint_id"@.len() == 13);
    assert("event"@.len() == 5);
    assert("unit"@.len() == 4);
    assert("completed"@.len() == 9);
    assert("state"@.len() == 5);
    assert("count"@.len() == 5);
    assert("cpu"@.len() == 3);
    assert("pc"@.len() == 2);
    assert("frame"@.len() == 5);
    assert("frame_before"@.len() == 12);
    assert("frame_before_verified"@.len() == 21);
    assert("vi_count"@.len() == 8);
    assert("id"@.len() == 2);
    assert("kind"@.len() == 4);
    assert("start"@.len() == 5);
    assert("end"@.len() == 3);
    assert("native_slot"@.len() == 11);
    assert("arm_state"@.len() == 9);
    assert("arm_error"@.len() == 9);
    assert("pause_on_hit"@.len() == 12);
    assert("type"@.len() == 4);
    assert("address"@.len() == 7);
    assert("hit_seq"@.len() == 7);
    assert("debug_update_seq"@.len() == 16);
    assert("snapshot_timing"@.len() == 15);
    assert("status"@[0] == 's');
    assert("reason"@[0] == 'r');
    assert("event"@[0] == 'e');
    assert("unit"@[0] == 'u');
    assert("completed"@[0] == 'c');
    assert("state"@[0] == 's');
    assert("state"@[3] == 't');
    assert("count"@[0] == 'c');
    assert("cpu"@[0] == 'c');
    assert("pc"@[0] == 'p');
    assert("frame"@[0] == 'f');
    assert("frame_before"@[0] == 'f');
    assert("id"@[0] == 'i');
    assert("kind"@[0] == 'k');
    assert("start"@[0] == 's');
    assert("start"@[3] == 'r');
    assert("end"@[0] == 'e');
    assert("arm_state"@[0] == 'a');
    assert("arm_state"@[4] == 's');
    assert("arm_error"@[0] == 'a');
    assert("arm_error"@[4] == 'e');
    assert("pause_on_hit"@[0] == 'p');
    assert("type"@[0] == 't');
    assert("address"@[0] == 'a');
    assert("hit_seq"@[0] == 'h');
}

proof fn words_differ()
    ensures
        "completed"@ != "interrupted"@,
        "completed"@ != "exec"@,
        "completed"@ != "read"@,
        "completed"@ != "write"@,
        "interrupted"@ != "exec"@,
        "interrupted"@ != "read"@,
        "interrupted"@ != "write"@,
        "exec"@ != "read"@,
        "exec"@ != "write"@,
        "read"@ != "write"@,
{
    reveal_strlit("completed");
    reveal_strlit("interrupted");
    reveal_strlit("exec");
    reveal_strlit("read");
    reveal_strlit("write");
    assert("completed"@.len() == 9);
    assert("interrupted"@.len() == 11);
    assert("exec"@.len() == 4);
    assert("read"@.len() == 4);
    assert("write"@.len() == 5);
    assert("exec"@[0] == 'e');
    assert("read"@[0] == 'r');
}

/// How an instruction step ends to which the given events are told from one on, where the last one
/// ends it.
pub open spec fn instructions_end(step: InstructionStepView, events: Seq<StepEventView>, n: int) -> Option<
    Result<JsonView, N64ErrorView>,
>
    decreases events.len() - n,
{
    if n < 0 || n >= events.len() || !step.expects(events[n]) {
        None
    } else {
        match step.next(events[n]) {
            (_, StepActionView::Finish(r)) => if n + 1 == events.len() {
                Some(r)
            } else {
                None
            },
            (after, _) => instructions_end(after, events, n + 1),
        }
    }
}

/// How many of the events from one on say that the core took a step.
pub open spec fn core_steps(events: Seq<StepEventView>, n: int) -> nat
    decreases events.len() - n,
{
    if n < 0 || n >= events.len() {
        0
    } else {
        core_steps(events, n + 1) + (if events[n] == StepEventView::Stepped(0) {
            1nat
        } else {
            0nat
        })
    }
}

/// How many of the events from one on say that an instruction has run.
pub open spec fn instructions_run(events: Seq<StepEventView>, n: int) -> nat
    decreases events.len() - n,
{
    if n < 0 || n >= events.len() {
        0
    } else {
        instructions_run(events, n + 1) + (if events[n] matches StepEventView::Awaited(Ok(_)) {
            1nat
        } else {
            0nat
        })
    }
}

proof fn reports_tell_their_end(
    count: u64,
    pc: u32,
    frame: u64,
    vi_count: u64,
    hit: JsonView,
    unit: Seq<char>,
    done: u64,
)
    ensures
        ({
            let report = instruction_step::completed_report(count, pc, frame, vi_count);
            &&& report.text_field("status"@) == Some("completed"@)
            &&& report.unsigned_field("count"@) == Some(count)
            &&& report.unsigned_field("pc"@) == Some(pc as u64)
        }),
        frame_step::interrupted(hit, unit, done).text_field("status"@) == Some("interrupted"@),
        frame_step::interrupted(hit, unit, done).unsigned_field("completed"@) == Some(done),
{
    broadcast use json::added_is_found;

    report_words_differ();
}

proof fn instructions_are_counted(step: InstructionStepView, events: Seq<StepEventView>, n: int)
    requires
        step.wf(),
        0 <= n,
    ensures
        instructions_end(step, events, n) matches Some(Ok(report)) ==> report.text_field("status"@)
            == Some("completed"@) ==> {
            let pending = if step.phase is SettingPause || step.phase is ReleasingGate
                || step.phase is AwaitingBoundary || step.phase is Stepping
                || step.phase is AwaitingUpdate {
                1int
            } else {
                0int
            };
            let unstepped = if step.phase is Stepping {
                1int
            } else {
                0int
            };
            &&& report.unsigned_field("count"@) == Some(step.count)
            &&& instructions_run(events, n) == step.count - step.expected + pending
            &&& core_steps(events, n) == step.count - step.expected + unstepped
            &&& !(step.phase is RecoveringFrame) && !(step.phase is RecoveringInstruction)
        },
    decreases events.len() - n,
{
    words_differ();
    if let Some(Ok(report)) = instructions_end(step, events, n) {
        let (after, action) = step.next(events[n]);
        if let StepEventView::Observed { pc, frame, vi_count } = events[n] {
            reports_tell_their_end(
                step.count,
                pc,
                frame,
                vi_count,
                JsonView::Null,
                "instructions"@,
                0,
            );
            assert(instructions_run(events, n + 1) == 0);
            assert(core_steps(events, n + 1) == 0);
        } else if let StepEventView::Drained(Ok(Some(hit))) = events[n] {
            reports_tell_their_end(0, 0, 0, 0, hit, "instructions"@, step.expected);
        } else if !(action is Finish) {
            instructions_are_counted(after, events, n + 1);
        }
    }
}

/// A step of instructions that is told as completed has run exactly as many as were asked for. Each
/// was awaited, and each but the one that a frame barrier let go was a step that the core took.
pub proof fn completed_instruction_steps_are_exact(
    params: JsonView,
    host: HostState,
    frozen: Result<(), N64ErrorView>,
    update_count: u64,
    events: Seq<StepEventView>,
    asked: u64,
)
    requires
        params.unsigned_field("count"@) == Some(asked) || (params.field("count"@) is None && asked == 1),
    ensures
        instruction_step::begun(params, host, frozen, update_count) matches Ok((step, action)) ==> {
            &&& 1 <= asked <= 5000
            &&& frozen is Ok
            &&& instructions_end(step, events, 0) matches Some(Ok(report)) ==> report.text_field(
                "status"@,
            ) == Some("completed"@) ==> {
                &&& report.unsigned_field("count"@) == Some(asked)
                &&& instructions_run(events, 0) == asked
                &&& core_steps(events, 0) == (if host.frame_paused {
                    asked - 1
                } else {
                    asked as int
                })
            }
        },
{
    if let Ok((step, action)) = instruction_step::begun(params, host, frozen, update_count) {
        instructions_are_counted(step, events, 0);
    }
}

/// How a frame step ends to which the given events are told from one on, where the last one ends it.
pub open spec fn frames_end(step: FrameStepView, events: Seq<FrameEventView>, n: int) -> Option<
    Result<JsonView, N64ErrorView>,
>
    decreases events.len() - n,
{
    if n < 0 || n >= events.len() || !step.expects(events[n]) {
        None
    } else {
        match step.next(events[n]) {
            (_, FrameActionView::Finish(r)) => if n + 1 == events.len() {
                Some(r)
            } else {
                None
            },
            (_, FrameActionView::Abandon(_)) => None,
            (after, _) => frames_end(after, events, n + 1),
        }
    }
}

/// How many of the events from one on say that a frame was seen.
pub open spec fn frames_seen(events: Seq<FrameEventView>, n: int) -> nat
    decreases events.len() - n,
{
    if n < 0 || n >= events.len() {
        0
    } else {
        frames_seen(events, n + 1) + (if events[n] is FrameSeen {
            1nat
        } else {
            0nat
        })
    }
}

proof fn frame_reports_tell(p: frame_step::Progress, pc: u32, vi_count: u64, hit: JsonView, done: u64)
    ensures
        ({
            let report = frame_step::completed_report(p, pc, vi_count);
            &&& report.text_field("status"@) == Some("completed"@)
            &&& report.unsigned_field("count"@) == Some(p.count)
            &&& report.unsigned_field("frame"@) == Some(p.current_frame)
            &&& report.unsigned_field("frame_before"@) == Some(p.frame_before)
        }),
        frame_step::interrupted(hit, "frames"@, done).text_field("status"@) == Some(
            "interrupted"@,
        ),
{
    broadcast use json::added_is_found;

    report_words_differ();
}

proof fn frames_are_counted(step: FrameStepView, events: Seq<FrameEventView>, n: int)
    requires
        step.wf(),
        0 <= n,
    ensures
        frames_end(step, events, n) matches Some(Ok(report)) ==> report.text_field("status"@) == Some(
            "completed"@,
        ) ==> {
            &&& report.unsigned_field("count"@) == Some(step.progress.count)
            &&& frames_seen(events, n) == step.progress.count - step.progress.index
            &&& !(step.phase is Recovering) && !(step.phase is Draining)
        },
    decreases events.len() - n,
{
    words_differ();
    if let Some(Ok(report)) = frames_end(step, events, n) {
        let (after, action) = step.next(events[n]);
        if let FrameEventView::Observed { pc, vi_count } = events[n] {
            frame_reports_tell(step.progress, pc, vi_count, JsonView::Null, 0);
            assert(frames_seen(events, n + 1) == 0);
        } else if let FrameEventView::Drained(Ok(Some(hit))) = events[n] {
            frame_reports_tell(step.progress, 0, 0, hit, step.progress.index);
        } else if !(action is Finish) {
            frame_step::steps_stay_in_shape(step, events[n]);
            frames_are_counted(after, events, n + 1);
        }
    }
}

/// A step of frames that is told as completed has seen exactly as many frames as were asked for.
pub proof fn completed_frame_steps_are_exact(
    params: JsonView,
    first_trigger: FrameGateTrigger,
    host: HostState,
    frozen: Result<(), N64ErrorView>,
    frame_count: u64,
    events: Seq<FrameEventView>,
    asked: u64,
)
    requires
        params.unsigned_field("count"@) == Some(asked) || (params.field("count"@) is None && (
        params.unsigned_field("frames"@) == Some(asked) || (params.field("frames"@) is None && asked
            == 1))),
    ensures
        frame_step::begun(params, first_trigger, host, frozen, frame_count) matches Ok(step) ==> {
            &&& 1 <= asked <= 5000
            &&& frozen is Ok
            &&& frames_end(step, events, 0) matches Some(Ok(report)) ==> report.text_field("status"@)
                == Some("completed"@) ==> {
                &&& report.unsigned_field("count"@) == Some(asked)
                &&& frames_seen(events, 0) == asked
            }
        },
{
    if let Ok(step) = frame_step::begun(params, first_trigger, host, frozen, frame_count) {
        frames_are_counted(step, events, 0);
    }
}

/// The flag by which the core is told the kind of a breakpoint, and tells a hit of it.
pub open spec fn kind_flag(kind: BreakpointKind) -> u32 {
    match kind {
        BreakpointKind::Read => 0x02,
        BreakpointKind::Write => 0x04,
        BreakpointKind::Exec => 0x08,
    }
}

/// A breakpoint that is accepted is of the kind and the range that were asked for, and is told to the
/// core as enabled, with the flag of its kind and its range.
pub proof fn breakpoints_are_told_by_kind(
    params: JsonView,
    start: u64,
    end: u64,
    kind: BreakpointKind,
)
    requires
        params.unsigned_field("start"@) == Some(start),
        params.unsigned_field("end"@) == Some(end) || (params.field("end"@) is None && end == start),
        match params.text_field("kind"@) {
            Some(name) => match kind {
                BreakpointKind::Exec => name == "exec"@,
                BreakpointKind::Read => name == "read"@,
                BreakpointKind::Write => name == "write"@,
            },
            None => kind == BreakpointKind::Exec,
        },
    ensures
        debug::requested_breakpoint(params) matches Ok(spec) ==> {
            &&& spec.kind == kind
            &&& spec.start == start
            &&& spec.end == end
            &&& start <= end
            &&& spec.native.address == start
            &&& spec.native.endaddr == end
            &&& spec.native.flags == 0x01u32 | kind_flag(kind)
            &&& kind is Exec ==> start == end
            &&& !(kind is Exec) ==> end < 0x80_0000
        },
{
    words_differ();
}

/// A hit that the core reports belongs to a breakpoint exactly where it tells the kind of the
/// breakpoint and the address lies in its range: the program counter for code, the accessed address
/// otherwise.
pub proof fn hits_belong_by_kind_and_range(
    spec: BreakpointSpecView,
    flags: u32,
    accessed: u32,
    pc: u32,
)
    ensures
        debug::triggered(spec, flags, accessed, pc) == (flags & kind_flag(spec.kind) != 0 && (
        if spec.kind is Exec {
            spec.native.address <= pc <= spec.native.endaddr
        } else {
            spec.native.address <= accessed <= spec.native.endaddr
        })),
{
}

/// A breakpoint that is entered has the next number and the slot that the core gave; the others stay
/// as they were. One that is refused or withdrawn adds none.
pub proof fn entered_breakpoints_are_added(
    table: TableView,
    spec: BreakpointSpecView,
    before: i32,
    slot: i32,
    after: i32,
)
    requires
        0 <= before < i32::MAX,
    ensures
        ({
            let (next, outcome) = table.armed(spec, before, slot, after);
            match outcome {
                ArmOutcomeView::Entered(id) => {
                    &&& id == table.next_id
                    &&& slot >= 0 && slot == before && after == before + 1
                    &&& next.next_id == table.next_id + 1
                    &&& next.entries.len() == table.entries.len() + 1
                    &&& next.entries.take(table.entries.len() as int) == table.entries
                    &&& next.entries.last().id == id
                    &&& next.entries.last().spec == spec
                    &&& next.entries.last().slot == slot
                    &&& next.entries.last().failure is None
                },
                _ => next.entries.len() == table.entries.len() && next.next_id == table.next_id,
            }
        }),
{
    let (next, outcome) = table.armed(spec, before, slot, after);
    if outcome is Entered {
        assert(next.entries.take(table.entries.len() as int) =~= table.entries);
    }
}

/// Clearing a breakpoint that succeeds takes it alone away. The others keep their numbers and what
/// they watch, and those behind it in the core move up by one slot.
pub proof fn cleared_breakpoints_are_gone(
    table: TableView,
    id: u64,
    before: i32,
    answer: i32,
    after: i32,
    i: int,
)
    requires
        table.wf(),
        0 <= i < table.entries.len(),
        table.entries[i].id == id,
        before > i32::MIN,
        table.cleared(id, before, answer, after).1 is Ok,
    ensures
        ({
            let rest = table.cleared(id, before, answer, after).0;
            let slot = table.entries[i].slot;
            &&& answer == 0 && after == before - 1
            &&& rest.entries.len() == table.entries.len() - 1
            &&& rest.next_id == table.next_id
            &&& forall|k: int|
                0 <= k < rest.entries.len() ==> {
                    let old_one = table.entries[if k < i {
                        k
                    } else {
                        k + 1
                    }];
                    let new_one = #[trigger] rest.entries[k];
                    &&& new_one.id == old_one.id && new_one.id != id
                    &&& new_one.spec == old_one.spec
                    &&& new_one.failure == old_one.failure
                    &&& new_one.slot == (if old_one.slot > slot {
                        old_one.slot - 1
                    } else {
                        old_one.slot as int
                    })
                }
        }),
{
    breakpoints::position_holds(table.entries, id);
    let at = breakpoints::position(table.entries, id)->0;
    assert(at == i) by {
        if at < i {
            assert(table.entries[at].id < table.entries[i].id);
        } else if i < at {
            assert(table.entries[i].id < table.entries[at].id);
        }
    }
    let left = table.entries.remove(i);
    let rest = table.cleared(id, before, answer, after).0;
    let slot = table.entries[i].slot;
    assert(rest.entries == breakpoints::shifted(left, slot));
    assert forall|k: int| 0 <= k < rest.entries.len() implies {
        let old_one = table.entries[if k < i {
            k
        } else {
            k + 1
        }];
        let new_one = #[trigger] rest.entries[k];
        &&& new_one.id == old_one.id && new_one.id != id
        &&& new_one.spec == old_one.spec
        &&& new_one.failure == old_one.failure
        &&& new_one.slot == (if old_one.slot > slot {
            old_one.slot - 1
        } else {
            old_one.slot as int
        })
    } by {
        let q = if k < i {
            k
        } else {
            k + 1
        };
        assert(left[k] == table.entries[q]);
        assert(!breakpoints::slot_taken(left, slot, k)) by {
            if breakpoints::slot_taken(left, slot, k) {
                let j = choose|j: int|
                    0 <= j <= k && j < left.len() && (#[trigger] left[j]).slot == slot;
                assert(left[j].slot == slot);
                assert(breakpoints::slot_taken(left, slot, left.len() - 1));
            }
        }
        assert(left[k].slot != slot) by {
            if left[k].slot == slot {
                assert(breakpoints::slot_taken(left, slot, k));
            }
        }
        if q < i {
            assert(table.entries[q].id < table.entries[i].id);
        } else {
            assert(table.entries[i].id < table.entries[q].id);
        }
    }
}

/// A list of breakpoints tells each of them in its row.
pub proof fn lists_tell_each_breakpoint(table: TableView, i: int)
    requires
        0 <= i < table.entries.len(),
    ensures
        table.listing().field("breakpoints"@) matches Some(JsonView::Array(rows)) && {
            let b = table.entries[i];
            &&& rows.len() == table.entries.len()
            &&& rows[i].unsigned_field("id"@) == Some(b.id)
            &&& rows[i].text_field("kind"@) == Some(
                match b.spec.kind {
                    BreakpointKind::Exec => "exec"@,
                    BreakpointKind::Read => "read"@,
                    BreakpointKind::Write => "write"@,
                },
            )
            &&& rows[i].unsigned_field("start"@) == Some(b.spec.start)
            &&& rows[i].unsigned_field("end"@) == Some(b.spec.end)
            &&& rows[i].unsigned_field("native_slot"@) == Some(b.slot as u64)
            &&& rows[i].text_field("arm_state"@) == Some(
                if b.failure is None {
                    "armed"@
                } else {
                    "failed"@
                },
            )
        },
{
    broadcast use json::added_is_found;

    report_words_differ();
}

/// A hit is told with the number and the kind of its breakpoint, where it stands, and the address
/// that it is about: the program counter for code, the accessed address otherwise.
pub proof fn hits_tell_their_breakpoint(
    b: PublicBreakpointView,
    trigger: Trigger,
    hit_seq: u64,
    report: Result<JsonView, N64ErrorView>,
    captured: Seq<Seq<u8>>,
)
    ensures
        ({
            let event = hits::hit_event(b, trigger, hit_seq, report, captured);
            &&& event.unsigned_field("id"@) == Some(b.id)
            &&& event.unsigned_field("breakpoint_id"@) == Some(b.id)
            &&& event.text_field("kind"@) == Some(
                match b.spec.kind {
                    BreakpointKind::Exec => "exec"@,
                    BreakpointKind::Read => "read"@,
                    BreakpointKind::Write => "write"@,
                },
            )
            &&& event.unsigned_field("address"@) == Some(
                if b.spec.kind is Exec {
                    trigger.pc as u64
                } else {
                    trigger.accessed as u64
                },
            )
            &&& event.unsigned_field("pc"@) == Some(trigger.pc as u64)
            &&& event.unsigned_field("hit_seq"@) == Some(hit_seq)
        }),
{
    head_tells(b, trigger, hit_seq);
    let head = hits::hit_head(b, trigger, hit_seq);
    evidence_keeps(head, b, trigger, hit_seq, report, captured, "id"@);
    evidence_keeps(head, b, trigger, hit_seq, report, captured, "breakpoint_id"@);
    evidence_keeps(head, b, trigger, hit_seq, report, captured, "kind"@);
    evidence_keeps(head, b, trigger, hit_seq, report, captured, "address"@);
    evidence_keeps(head, b, trigger, hit_seq, report, captured, "pc"@);
    evidence_keeps(head, b, trigger, hit_seq, report, captured, "hit_seq"@);
}

proof fn head_tells(b: PublicBreakpointView, trigger: Trigger, hit_seq: u64)
    ensures
        ({
            let event = hits::hit_head(b, trigger, hit_seq);
            &&& event is Object
            &&& event.unsigned_field("id"@) == Some(b.id)
            &&& event.unsigned_field("breakpoint_id"@) == Some(b.id)
            &&& event.text_field("kind"@) == Some(b.spec.kind.name())
            &&& event.unsigned_field("address"@) == Some(
                if b.spec.kind is Exec {
                    trigger.pc as u64
                } else {
                    trigger.accessed as u64
                },
            )
            &&& event.unsigned_field("pc"@) == Some(trigger.pc as u64)
            &&& event.unsigned_field("hit_seq"@) == Some(hit_seq)
        }),
{
    broadcast use json::added_is_found;

    report_words_differ();
}

proof fn evidence_words_differ()
    ensures
        "id"@ != "breakpoint_id"@,
        "id"@ != "kind"@,
        "id"@ != "address"@,
        "id"@ != "pc"@,
        "id"@ != "hit_seq"@,
        "id"@ != "regs"@,
        "id"@ != "snapshot"@,
        "id"@ != "evidence_complete"@,
        "id"@ != "evidence_error"@,
        "breakpoint_id"@ != "kind"@,
        "breakpoint_id"@ != "address"@,
        "breakpoint_id"@ != "pc"@,
        "breakpoint_id"@ != "hit_seq"@,
        "breakpoint_id"@ != "regs"@,
        "breakpoint_id"@ != "snapshot"@,
        "breakpoint_id"@ != "evidence_complete"@,
        "breakpoint_id"@ != "evidence_error"@,
        "kind"@ != "address"@,
        "kind"@ != "pc"@,
        "kind"@ != "hit_seq"@,
        "kind"@ != "regs"@,
        "kind"@ != "snapshot"@,
        "kind"@ != "evidence_complete"@,
        "kind"@ != "evidence_error"@,
        "address"@ != "pc"@,
        "address"@ != "hit_seq"@,
        "address"@ != "regs"@,
        "address"@ != "snapshot"@,
        "address"@ != "evidence_complete"@,
        "address"@ != "evidence_error"@,
        "pc"@ != "hit_seq"@,
        "pc"@ != "regs"@,
        "pc"@ != "snapshot"@,
        "pc"@ != "evidence_complete"@,
        "pc"@ != "evidence_error"@,
        "hit_seq"@ != "regs"@,
        "hit_seq"@ != "snapshot"@,
        "hit_seq"@ != "evidence_complete"@,
        "hit_seq"@ != "evidence_error"@,
        "regs"@ != "snapshot"@,
        "regs"@ != "evidence_complete"@,
        "regs"@ != "evidence_error"@,
        "snapshot"@ != "evidence_complete"@,
        "snapshot"@ != "evidence_error"@,
        "evidence_complete"@ != "evidence_error"@,
{
    reveal_strlit("id");
    reveal_strlit("breakpoint_id");
    reveal_strlit("kind");
    reveal_strlit("address");
    reveal_strlit("pc");
    reveal_strlit("hit_seq");
    reveal_strlit("regs");
    reveal_strlit("snapshot");
    reveal_strlit("evidence_complete");
    reveal_strlit("evidence_error");
    assert("id"@.len() == 2);
    assert("breakpoint_id"@.len() == 13);
    assert("kind"@.len() == 4);
    assert("address"@.len() == 7);
    assert("pc"@.len() == 2);
    assert("hit_seq"@.len() == 7);
    assert("regs"@.len() == 4);
    assert("snapshot"@.len() == 8);
    assert("evidence_complete"@.len() == 17);
    assert("evidence_error"@.len() == 14);
    assert("id"@[0] == 'i');
    assert("kind"@[0] == 'k');
    assert("address"@[0] == 'a');
    assert("pc"@[0] == 'p');
    assert("hit_seq"@[0] == 'h');
    assert("regs"@[0] == 'r');
}

proof fn evidence_keeps(
    head: JsonView,
    b: PublicBreakpointView,
    trigger: Trigger,
    hit_seq: u64,
    report: Result<JsonView, N64ErrorView>,
    captured: Seq<Seq<u8>>,
    key: Seq<char>,
)
    requires
        head == hits::hit_head(b, trigger, hit_seq),
        head is Object,
        key == "id"@ || key == "breakpoint_id"@ || key == "kind"@ || key == "address"@ || key == "pc"@
            || key == "hit_seq"@,
    ensures
        hits::hit_event(b, trigger, hit_seq, report, captured).field(key) == head.field(key),
{
    broadcast use json::added_is_found;

    evidence_words_differ();
}

/// Fetched events belong to what is asked for, kept ones do not, each once and in order.
pub proof fn fetches_tell_the_events_asked_for(events: Seq<JsonView>, id: u64)
    ensures
        forall|i: int|
            0 <= i < hits::belonging(events, Some(id)).len() ==> (#[trigger] hits::belonging(
                events,
                Some(id),
            )[i]).unsigned_field("breakpoint_id"@) == Some(id),
        forall|i: int|
            0 <= i < hits::remaining(events, Some(id)).len() ==> (#[trigger] hits::remaining(
                events,
                Some(id),
            )[i]).unsigned_field("breakpoint_id"@) != Some(id),
        hits::belonging(events, Some(id)).to_multiset().add(
            hits::remaining(events, Some(id)).to_multiset(),
        ) =~= events.to_multiset(),
    decreases events.len(),
{
    broadcast use vstd::seq_lib::group_to_multiset_ensures;

    if events.len() > 0 {
        let front = events.drop_last();
        fetches_tell_the_events_asked_for(front, id);
        assert(events =~= front.push(events.last()));
        let told = hits::belonging(events, Some(id));
        let kept = hits::remaining(events, Some(id));
        assert forall|i: int| 0 <= i < told.len() implies (#[trigger] told[i]).unsigned_field(
            "breakpoint_id"@,
        ) == Some(id) by {
            if i < hits::belonging(front, Some(id)).len() {
                assert(told[i] == hits::belonging(front, Some(id))[i]);
            }
        }
        assert forall|i: int| 0 <= i < kept.len() implies (#[trigger] kept[i]).unsigned_field(
            "breakpoint_id"@,
        ) != Some(id) by {
            if i < hits::remaining(front, Some(id)).len() {
                assert(kept[i] == hits::remaining(front, Some(id))[i]);
            }
        }
    }
}

/// A read that is accepted asks the core for exactly its range of RDRAM, which begins at the virtual
/// address of the first byte.
pub proof fn reads_ask_for_their_range(params: JsonView, offset: u64, length: u64)
    requires
        params.unsigned_field("address"@) == Some(offset),
        params.unsigned_field("length"@) == Some(length),
    ensures
        service::read_request(params) matches Ok(access) ==> {
            &&& access.offset == offset
            &&& access.address == 0x8000_0000 + offset
            &&& access.length == length
            &&& length <= 0x4000
            &&& offset + length <= 0x80_0000
            &&& params.text_field("memory_type"@) matches Some(name) ==> name == "rdram"@
        },
{
}

/// A write that is accepted asks the core to put exactly the bytes of its text at its range.
pub proof fn writes_put_their_bytes(params: JsonView, offset: u64, hex: Seq<char>)
    requires
        params.unsigned_field("address"@) == Some(offset),
        params.text_field("hex"@) == Some(hex),
    ensures
        service::write_request(params) matches Ok((access, data)) ==> {
            &&& encoding::hex_bytes(hex) == Some(data)
            &&& access.offset == offset
            &&& access.address == 0x8000_0000 + offset
            &&& access.length == data.len()
            &&& offset + data.len() <= 0x80_0000
            &&& data.len() <= 0x4000
        },
{
}

/// A disassembly that is accepted stands at the address that was asked for, and has the number of
/// instructions that was asked for, eight where nothing was said.
pub proof fn disassemblies_stand_where_asked_for(params: JsonView, address: u64, count: u64)
    requires
        params.unsigned_field("address"@) == Some(address),
        params.unsigned_field("count"@) == Some(count) || (params.field("count"@) is None && count == 8),
    ensures
        service::disassembly_request(params) matches Ok((n, base)) ==> {
            &&& n == count
            &&& base == address
            &&& 1 <= count <= 64
            &&& address + 4 * count <= 0x1_0000_0000
        },
{
}

/// The name under which a general register is told.
pub open spec fn name_of_register(i: int) -> Seq<char> {
    "r"@ + text::decimal(i)
}

proof fn names_of_registers_differ(i: int, j: int)
    requires
        0 <= i,
        0 <= j,
        i != j,
    ensures
        name_of_register(i) != name_of_register(j),
{
    text_laws::numerals_tell_numbers_apart(i as nat, j as nat);
    let a = name_of_register(i);
    let b = name_of_register(j);
    if a == b {
        assert(a.skip("r"@.len() as int) =~= text::decimal(i));
        assert(b.skip("r"@.len() as int) =~= text::decimal(j));
    }
}

/// Each general register is told under its own number, with its own value.
pub proof fn registers_are_told_in_order(values: Seq<u64>, n: nat, i: int)
    requires
        0 <= i < n,
    ensures
        service::general_registers(values, n) is Object,
        service::general_registers(values, n).unsigned_field(name_of_register(i)) == Some(values[i]),
    decreases n,
{
    broadcast use json::added_is_found;

    let last = n - 1;
    if i < last {
        registers_are_told_in_order(values, last as nat, i);
        names_of_registers_differ(i, last);
    } else if last > 0 {
        registers_are_told_in_order(values, last as nat, 0);
    }
}

} // verus!
