//! What requests to an adapter carry, and what a probe does.

use vstd::prelude::*;
use crate::encoding;
use crate::json;
use crate::json::JsonView;
use crate::live::gesture_laws;
use crate::live::link;
use crate::live::link::{LinkErrorView, LinkStep};
use crate::live::probe;
use crate::live::tools;
use crate::live::tools::StepUnit;

verus! {

proof fn keys_differ()
    ensures
        "memory_type"@ != "address"@,
        "memory_type"@ != "length"@,
        "memory_type"@ != "hex"@,
        "memory_type"@ != "state"@,
        "memory_type"@ != "frame"@,
        "memory_type"@ != "path"@,
        "memory_type"@ != "kind"@,
        "memory_type"@ != "start"@,
        "memory_type"@ != "end"@,
        "memory_type"@ != "pause_on_hit"@,
        "memory_type"@ != "auto_savestate"@,
        "memory_type"@ != "snapshot"@,
        "memory_type"@ != "pc_min"@,
        "memory_type"@ != "pc_max"@,
        "memory_type"@ != "value"@,
        "memory_type"@ != "value_mask"@,
        "memory_type"@ != "value_len"@,
        "memory_type"@ != "port"@,
        "memory_type"@ != "release"@,
        "memory_type"@ != "x"@,
        "memory_type"@ != "y"@,
        "memory_type"@ != "frames"@,
        "address"@ != "length"@,
        "address"@ != "hex"@,
        "address"@ != "state"@,
        "address"@ != "frame"@,
        "address"@ != "path"@,
        "address"@ != "kind"@,
        "address"@ != "start"@,
        "address"@ != "end"@,
        "address"@ != "pause_on_hit"@,
        "address"@ != "auto_savestate"@,
        "address"@ != "snapshot"@,
        "address"@ != "pc_min"@,
        "address"@ != "pc_max"@,
        "address"@ != "value"@,
        "address"@ != "value_mask"@,
        "address"@ != "value_len"@,
        "address"@ != "port"@,
        "address"@ != "release"@,
        "address"@ != "x"@,
        "address"@ != "y"@,
        "address"@ != "frames"@,
        "length"@ != "hex"@,
        "length"@ != "state"@,
        "length"@ != "frame"@,
        "length"@ != "path"@,
        "length"@ != "kind"@,
        "length"@ != "start"@,
        "length"@ != "end"@,
        "length"@ != "pause_on_hit"@,
        "length"@ != "auto_savestate"@,
        "length"@ != "snapshot"@,
        "length"@ != "pc_min"@,
        "length"@ != "pc_max"@,
        "length"@ != "value"@,
        "length"@ != "value_mask"@,
        "length"@ != "value_len"@,
        "length"@ != "port"@,
        "length"@ != "release"@,
        "length"@ != "x"@,
        "length"@ != "y"@,
        "length"@ != "frames"@,
        "hex"@ != "state"@,
        "hex"@ != "frame"@,
        "hex"@ != "path"@,
        "hex"@ != "kind"@,
        "hex"@ != "start"@,
        "hex"@ != "end"@,
        "hex"@ != "pause_on_hit"@,
        "hex"@ != "auto_savestate"@,
        "hex"@ != "snapshot"@,
        "hex"@ != "pc_min"@,
        "hex"@ != "pc_max"@,
        "hex"@ != "value"@,
        "hex"@ != "value_mask"@,
        "hex"@ != "value_len"@,
        "hex"@ != "port"@,
        "hex"@ != "release"@,
        "hex"@ != "x"@,
        "hex"@ != "y"@,
        "hex"@ != "frames"@,
        "state"@ != "frame"@,
        "state"@ != "path"@,
        "state"@ != "kind"@,
        "state"@ != "start"@,
        "state"@ != "end"@,
        "state"@ != "pause_on_hit"@,
        "state"@ != "auto_savestate"@,
        "state"@ != "snapshot"@,
        "state"@ != "pc_min"@,
        "state"@ != "pc_max"@,
        "state"@ != "value"@,
        "state"@ != "value_mask"@,
        "state"@ != "value_len"@,
        "state"@ != "port"@,
        "state"@ != "release"@,
        "state"@ != "x"@,
        "state"@ != "y"@,
        "state"@ != "frames"@,
        "frame"@ != "path"@,
        "frame"@ != "kind"@,
        "frame"@ != "start"@,
        "frame"@ != "end"@,
        "frame"@ != "pause_on_hit"@,
        "frame"@ != "auto_savestate"@,
        "frame"@ != "snapshot"@,
        "frame"@ != "pc_min"@,
        "frame"@ != "pc_max"@,
        "frame"@ != "value"@,
        "frame"@ != "value_mask"@,
        "frame"@ != "value_len"@,
        "frame"@ != "port"@,
        "frame"@ != "release"@,
        "frame"@ != "x"@,
        "frame"@ != "y"@,
        "frame"@ != "frames"@,
        "path"@ != "kind"@,
        "path"@ != "start"@,
        "path"@ != "end"@,
        "path"@ != "pause_on_hit"@,
        "path"@ != "auto_savestate"@,
        "path"@ != "snapshot"@,
        "path"@ != "pc_min"@,
        "path"@ != "pc_max"@,
        "path"@ != "value"@,
        "path"@ != "value_mask"@,
        "path"@ != "value_len"@,
        "path"@ != "port"@,
        "path"@ != "release"@,
        "path"@ != "x"@,
        "path"@ != "y"@,
        "path"@ != "frames"@,
        "kind"@ != "start"@,
        "kind"@ != "end"@,
        "kind"@ != "pause_on_hit"@,
        "kind"@ != "auto_savestate"@,
        "kind"@ != "snapshot"@,
        "kind"@ != "pc_min"@,
        "kind"@ != "pc_max"@,
        "kind"@ != "value"@,
        "kind"@ != "value_mask"@,
        "kind"@ != "value_len"@,
        "kind"@ != "port"@,
        "kind"@ != "release"@,
        "kind"@ != "x"@,
        "kind"@ != "y"@,
        "kind"@ != "frames"@,
        "start"@ != "end"@,
        "start"@ != "pause_on_hit"@,
        "start"@ != "auto_savestate"@,
        "start"@ != "snapshot"@,
        "start"@ != "pc_min"@,
        "start"@ != "pc_max"@,
        "start"@ != "value"@,
        "start"@ != "value_mask"@,
        "start"@ != "value_len"@,
        "start"@ != "port"@,
        "start"@ != "release"@,
        "start"@ != "x"@,
        "start"@ != "y"@,
        "start"@ != "frames"@,
        "end"@ != "pause_on_hit"@,
        "end"@ != "auto_savestate"@,
        "end"@ != "snapshot"@,
        "end"@ != "pc_min"@,
        "end"@ != "pc_max"@,
        "end"@ != "value"@,
        "end"@ != "value_mask"@,
        "end"@ != "value_len"@,
        "end"@ != "port"@,
        "end"@ != "release"@,
        "end"@ != "x"@,
        "end"@ != "y"@,
        "end"@ != "frames"@,
        "pause_on_hit"@ != "auto_savestate"@,
        "pause_on_hit"@ != "snapshot"@,
        "pause_on_hit"@ != "pc_min"@,
        "pause_on_hit"@ != "pc_max"@,
        "pause_on_hit"@ != "value"@,
        "pause_on_hit"@ != "value_mask"@,
        "pause_on_hit"@ != "value_len"@,
        "pause_on_hit"@ != "port"@,
        "pause_on_hit"@ != "release"@,
        "pause_on_hit"@ != "x"@,
        "pause_on_hit"@ != "y"@,
        "pause_on_hit"@ != "frames"@,
        "auto_savestate"@ != "snapshot"@,
        "auto_savestate"@ != "pc_min"@,
        "auto_savestate"@ != "pc_max"@,
        "auto_savestate"@ != "value"@,
        "auto_savestate"@ != "value_mask"@,
        "auto_savestate"@ != "value_len"@,
        "auto_savestate"@ != "port"@,
        "auto_savestate"@ != "release"@,
        "auto_savestate"@ != "x"@,
        "auto_savestate"@ != "y"@,
        "auto_savestate"@ != "frames"@,
        "snapshot"@ != "pc_min"@,
        "snapshot"@ != "pc_max"@,
        "snapshot"@ != "value"@,
        "snapshot"@ != "value_mask"@,
        "snapshot"@ != "value_len"@,
        "snapshot"@ != "port"@,
        "snapshot"@ != "release"@,
        "snapshot"@ != "x"@,
        "snapshot"@ != "y"@,
        "snapshot"@ != "frames"@,
        "pc_min"@ != "pc_max"@,
        "pc_min"@ != "value"@,
        "pc_min"@ != "value_mask"@,
        "pc_min"@ != "value_len"@,
        "pc_min"@ != "port"@,
        "pc_min"@ != "release"@,
        "pc_min"@ != "x"@,
        "pc_min"@ != "y"@,
        "pc_min"@ != "frames"@,
        "pc_max"@ != "value"@,
        "pc_max"@ != "value_mask"@,
        "pc_max"@ != "value_len"@,
        "pc_max"@ != "port"@,
        "pc_max"@ != "release"@,
        "pc_max"@ != "x"@,
        "pc_max"@ != "y"@,
        "pc_max"@ != "frames"@,
        "value"@ != "value_mask"@,
        "value"@ != "value_len"@,
        "value"@ != "port"@,
        "value"@ != "release"@,
        "value"@ != "x"@,
        "value"@ != "y"@,
        "value"@ != "frames"@,
        "value_mask"@ != "value_len"@,
        "value_mask"@ != "port"@,
        "value_mask"@ != "release"@,
        "value_mask"@ != "x"@,
        "value_mask"@ != "y"@,
        "value_mask"@ != "frames"@,
        "value_len"@ != "port"@,
        "value_len"@ != "release"@,
        "value_len"@ != "x"@,
        "value_len"@ != "y"@,
        "value_len"@ != "frames"@,
        "port"@ != "release"@,
        "port"@ != "x"@,
        "port"@ != "y"@,
        "port"@ != "frames"@,
        "release"@ != "x"@,
        "release"@ != "y"@,
        "release"@ != "frames"@,
        "x"@ != "y"@,
        "x"@ != "frames"@,
        "y"@ != "frames"@,
{
    reveal_strlit("memory_type");
    reveal_strlit("address");
    reveal_strlit("length");
    reveal_strlit("hex");
    reveal_strlit("state");
    reveal_strlit("frame");
    reveal_strlit("path");
    reveal_strlit("kind");
    reveal_strlit("start");
    reveal_strlit("end");
    reveal_strlit("pause_on_hit");
    reveal_strlit("auto_savestate");
    reveal_strlit("snapshot");
    reveal_strlit("pc_min");
    reveal_strlit("pc_max");
    reveal_strlit("value");
    reveal_strlit("value_mask");
    reveal_strlit("value_len");
    reveal_strlit("port");
    reveal_strlit("release");
    reveal_strlit("x");
    reveal_strlit("y");
    reveal_strlit("frames");
    assert("memory_type"@.len() == 11);
    assert("address"@.len() == 7);
    assert("length"@.len() == 6);
    assert("hex"@.len() == 3);
    assert("state"@.len() == 5);
    assert("frame"@.len() == 5);
    assert("path"@.len() == 4);
    assert("kind"@.len() == 4);
    assert("start"@.len() == 5);
    assert("end"@.len() == 3);
    assert("pause_on_hit"@.len() == 12);
    assert("auto_savestate"@.len() == 14);
    assert("snapshot"@.len() == 8);
    assert("pc_min"@.len() == 6);
    assert("pc_max"@.len() == 6);
    assert("value"@.len() == 5);
    assert("value_mask"@.len() == 10);
    assert("value_len"@.len() == 9);
    assert("port"@.len() == 4);
    assert("release"@.len() == 7);
    assert("x"@.len() == 1);
    assert("y"@.len() == 1);
    assert("frames"@.len() == 6);
    assert("address"@[0] == 'a');
    assert("length"@[0] == 'l');
    assert("hex"@[0] == 'h');
    assert("state"@[0] == 's');
    assert("state"@[3] == 't');
    assert("frame"@[0] == 'f');
    assert("path"@[0] == 'p');
    assert("path"@[1] == 'a');
    assert("kind"@[0] == 'k');
    assert("start"@[0] == 's');
    assert("start"@[3] == 'r');
    assert("end"@[0] == 'e');
    assert("pc_min"@[0] == 'p');
    assert("pc_min"@[4] == 'i');
    assert("pc_max"@[0] == 'p');
    assert("pc_max"@[4] == 'a');
    assert("value"@[0] == 'v');
    assert("port"@[0] == 'p');
    assert("port"@[1] == 'o');
    assert("release"@[0] == 'r');
    assert("x"@[0] == 'x');
    assert("y"@[0] == 'y');
    assert("frames"@[0] == 'f');
}

proof fn report_keys_differ()
    ensures
        "status"@ != "requested_frames"@,
        "status"@ != "completed_frames"@,
        "status"@ != "state"@,
        "status"@ != "hex"@,
        "status"@ != "composition"@,
        "status"@ != "reason"@,
        "status"@ != "breakpoint_id"@,
        "status"@ != "event"@,
        "status"@ != "pc"@,
        "status"@ != "frame_before"@,
        "status"@ != "frame"@,
        "requested_frames"@ != "completed_frames"@,
        "requested_frames"@ != "state"@,
        "requested_frames"@ != "hex"@,
        "requested_frames"@ != "composition"@,
        "requested_frames"@ != "reason"@,
        "requested_frames"@ != "breakpoint_id"@,
        "requested_frames"@ != "event"@,
        "requested_frames"@ != "pc"@,
        "requested_frames"@ != "frame_before"@,
        "requested_frames"@ != "frame"@,
        "completed_frames"@ != "state"@,
        "completed_frames"@ != "hex"@,
        "completed_frames"@ != "composition"@,
        "completed_frames"@ != "reason"@,
        "completed_frames"@ != "breakpoint_id"@,
        "completed_frames"@ != "event"@,
        "completed_frames"@ != "pc"@,
        "completed_frames"@ != "frame_before"@,
        "completed_frames"@ != "frame"@,
        "state"@ != "hex"@,
        "state"@ != "composition"@,
        "state"@ != "reason"@,
        "state"@ != "breakpoint_id"@,
        "state"@ != "event"@,
        "state"@ != "pc"@,
        "state"@ != "frame_before"@,
        "state"@ != "frame"@,
        "hex"@ != "composition"@,
        "hex"@ != "reason"@,
        "hex"@ != "breakpoint_id"@,
        "hex"@ != "event"@,
        "hex"@ != "pc"@,
        "hex"@ != "frame_before"@,
        "hex"@ != "frame"@,
        "composition"@ != "reason"@,
        "composition"@ != "breakpoint_id"@,
        "composition"@ != "event"@,
        "composition"@ != "pc"@,
        "composition"@ != "frame_before"@,
        "composition"@ != "frame"@,
        "reason"@ != "breakpoint_id"@,
        "reason"@ != "event"@,
        "reason"@ != "pc"@,
        "reason"@ != "frame_before"@,
        "reason"@ != "frame"@,
        "breakpoint_id"@ != "event"@,
        "breakpoint_id"@ != "pc"@,
        "breakpoint_id"@ != "frame_before"@,
        "breakpoint_id"@ != "frame"@,
        "event"@ != "pc"@,
        "event"@ != "frame_before"@,
        "event"@ != "frame"@,
        "pc"@ != "frame_before"@,
        "pc"@ != "frame"@,
        "frame_before"@ != "frame"@,
{
    reveal_strlit("status");
    reveal_strlit("requested_frames");
    reveal_strlit("completed_frames");
    reveal_strlit("state");
    reveal_strlit("hex");
    reveal_strlit("composition");
    reveal_strlit("reason");
    reveal_strlit("breakpoint_id");
    reveal_strlit("event");
    reveal_strlit("pc");
    reveal_strlit("frame_before");
    reveal_strlit("frame");
    assert("status"@.len() == 6);
    assert("requested_frames"@.len() == 16);
    assert("completed_frames"@.len() == 16);
    assert("state"@.len() == 5);
    assert("hex"@.len() == 3);
    assert("composition"@.len() == 11);
    assert("reason"@.len() == 6);
    assert("breakpoint_id"@.len() == 13);
    assert("event"@.len() == 5);
    assert("pc"@.len() == 2);
    assert("frame_before"@.len() == 12);
    assert("frame"@.len() == 5);
    assert("status"@[0] == 's');
    assert("requested_frames"@[0] == 'r');
    assert("completed_frames"@[0] == 'c');
    assert("state"@[0] == 's');
    assert("reason"@[0] == 'r');
    assert("event"@[0] == 'e');
    assert("frame"@[0] == 'f');
}

proof fn methods_differ()
    ensures
        "status"@ != "pause"@,
        "status"@ != "resume"@,
        "status"@ != "load_state"@,
        "status"@ != "step"@,
        "status"@ != "read_memory"@,
        "status"@ != "set_input"@,
        "status"@ != "move_pointer"@,
        "pause"@ != "resume"@,
        "pause"@ != "load_state"@,
        "pause"@ != "step"@,
        "pause"@ != "read_memory"@,
        "pause"@ != "set_input"@,
        "pause"@ != "move_pointer"@,
        "resume"@ != "load_state"@,
        "resume"@ != "step"@,
        "resume"@ != "read_memory"@,
        "resume"@ != "set_input"@,
        "resume"@ != "move_pointer"@,
        "load_state"@ != "step"@,
        "load_state"@ != "read_memory"@,
        "load_state"@ != "set_input"@,
        "load_state"@ != "move_pointer"@,
        "step"@ != "read_memory"@,
        "step"@ != "set_input"@,
        "step"@ != "move_pointer"@,
        "read_memory"@ != "set_input"@,
        "read_memory"@ != "move_pointer"@,
        "set_input"@ != "move_pointer"@,
{
    reveal_strlit("status");
    reveal_strlit("pause");
    reveal_strlit("resume");
    reveal_strlit("load_state");
    reveal_strlit("step");
    reveal_strlit("read_memory");
    reveal_strlit("set_input");
    reveal_strlit("move_pointer");
    assert("status"@.len() == 6);
    assert("pause"@.len() == 5);
    assert("resume"@.len() == 6);
    assert("load_state"@.len() == 10);
    assert("step"@.len() == 4);
    assert("read_memory"@.len() == 11);
    assert("set_input"@.len() == 9);
    assert("move_pointer"@.len() == 12);
    assert("status"@[0] == 's');
    assert("resume"@[0] == 'r');
}

/// A request for a range of memory carries the kind of memory, the address and the length that were
/// asked for.
pub proof fn spans_carry_what_was_asked_for(memory_type: Seq<char>, address: u64, length: u64)
    ensures
        tools::span_params(memory_type, address, length).text_field("memory_type"@) == Some(
            memory_type,
        ),
        tools::span_params(memory_type, address, length).unsigned_field("address"@) == Some(address),
        tools::span_params(memory_type, address, length).unsigned_field("length"@) == Some(length),
{
    broadcast use json::added_is_found;

    keys_differ();
}

/// A write carries the kind of memory, the address and the text of the bytes that were given.
pub proof fn writes_carry_what_was_given(memory_type: Seq<char>, address: u64, hex: Seq<char>)
    ensures
        tools::write_params(memory_type, address, hex).text_field("memory_type"@) == Some(
            memory_type,
        ),
        tools::write_params(memory_type, address, hex).unsigned_field("address"@) == Some(address),
        tools::write_params(memory_type, address, hex).text_field("hex"@) == Some(hex),
{
    broadcast use json::added_is_found;

    keys_differ();
}

/// A probe carries the state, the frames and the range that were asked for.
pub proof fn probes_carry_what_was_asked_for(
    state: Seq<char>,
    frame: u64,
    memory_type: Seq<char>,
    address: u64,
    length: u64,
)
    ensures
        ({
            let params = tools::probe_params(state, frame, memory_type, address, length);
            &&& params.text_field("state"@) == Some(state)
            &&& params.unsigned_field("frame"@) == Some(frame)
            &&& params.text_field("memory_type"@) == Some(memory_type)
            &&& params.unsigned_field("address"@) == Some(address)
            &&& params.unsigned_field("length"@) == Some(length)
        }),
{
    broadcast use json::added_is_found;

    keys_differ();
}

/// A step of frames is asked for as `step`, one of instructions as `step_instructions`.
pub proof fn steps_are_asked_for_in_their_unit(n: u64)
    ensures
        StepUnit::Frames.method() == "step"@,
        StepUnit::Instructions.method() == "step_instructions"@,
        JsonView::object().with(StepUnit::Frames.parameter(), JsonView::Unsigned(n)).unsigned_field(
            "frames"@,
        ) == Some(n),
        JsonView::object().with(
            StepUnit::Instructions.parameter(),
            JsonView::Unsigned(n),
        ).unsigned_field("count"@) == Some(n),
{
    broadcast use json::added_is_found;

}

/// A breakpoint carries its kind, its range, and each bound that was given; a bound that was not
/// given is not sent.
pub proof fn breakpoints_carry_what_was_asked_for(
    kind: Seq<char>,
    memory_type: Seq<char>,
    start: u64,
    end: u64,
    pause_on_hit: bool,
    auto_savestate: bool,
    pc_min: Option<u64>,
    pc_max: Option<u64>,
    value: Option<u64>,
    value_mask: Option<u64>,
    value_len: Option<u64>,
    snapshot: Seq<Seq<char>>,
)
    ensures
        ({
            let params = tools::breakpoint_params(
                kind,
                memory_type,
                start,
                end,
                pause_on_hit,
                auto_savestate,
                pc_min,
                pc_max,
                value,
                value_mask,
                value_len,
                snapshot,
            );
            &&& params.text_field("kind"@) == Some(kind)
            &&& params.text_field("memory_type"@) == Some(memory_type)
            &&& params.unsigned_field("start"@) == Some(start)
            &&& params.unsigned_field("end"@) == Some(end)
            &&& params.truth_field("pause_on_hit"@) == Some(pause_on_hit)
            &&& params.truth_field("auto_savestate"@) == Some(auto_savestate)
            &&& params.unsigned_field("pc_min"@) == pc_min
            &&& params.unsigned_field("pc_max"@) == pc_max
            &&& params.unsigned_field("value"@) == value
            &&& params.unsigned_field("value_mask"@) == value_mask
            &&& params.unsigned_field("value_len"@) == value_len
        }),
{
    broadcast use json::added_is_found;

    keys_differ();
}

/// A touch carries its place and its frames as far as they were given; a release carries no place.
pub proof fn touches_carry_what_was_asked_for(
    port: u64,
    x: Option<u64>,
    y: Option<u64>,
    frames: Option<u64>,
)
    ensures
        tools::touch_params(port, x, y, frames, false).unsigned_field("port"@) == Some(port),
        tools::touch_params(port, x, y, frames, false).unsigned_field("x"@) == x,
        tools::touch_params(port, x, y, frames, false).unsigned_field("y"@) == y,
        tools::touch_params(port, x, y, frames, false).unsigned_field("frames"@) == frames,
        tools::touch_params(port, x, y, frames, true).truth_field("release"@) == Some(true),
        tools::touch_params(port, x, y, frames, true).field("x"@) is None,
{
    broadcast use json::added_is_found;

    keys_differ();
}

/// Bytes are written only where there is at least one of them, no more than the bound, and the range
/// does not leave the address space.
pub proof fn writes_are_bounded(address: u64, count: nat)
    ensures
        tools::write_fault(address, count) is None == (1 <= count <= 0x4_0000 && address + count
            <= u64::MAX),
{
}

proof fn boundaries_do_not_act(
    h: Seq<LinkStep>,
    n: int,
    response: JsonView,
    operation: Seq<char>,
)
    ensures
        probe::boundary_run(h, n, response, operation) matches Some((m, _)) ==> n <= m
            && gesture_laws::acted(h, n, m).len() == 0,
{
    methods_differ();
    gesture_laws::one_step(h, n);
}

/// Whether a step restored a saved state.
pub open spec fn restores(step: LinkStep, state: Seq<char>) -> bool {
    step matches LinkStep::Called { method, params, reply: Ok(_), .. } && method == "load_state"@
        && params.text_field("path"@) == Some(state)
}

proof fn replays_act(h: Seq<LinkStep>, n: int, state: Seq<char>, frame: u64)
    ensures
        probe::replay_run(h, n, state, frame) matches Some((m, Ok(advance))) ==> {
            let did = gesture_laws::acted(h, n, m);
            &&& n < m
            &&& restores(h[n], state)
            &&& frame == 0 ==> did.len() == 0
            &&& frame > 0 ==> did.len() == 1 && gesture_laws::passes(did[0], frame) && (
            did[0] matches LinkStep::Called { reply, .. } && reply == Ok::<JsonView, LinkErrorView>(
                advance,
            ))
        },
{
    broadcast use json::added_is_found;

    methods_differ();
    if let Some((m, Ok(advance))) = probe::replay_run(h, n, state, frame) {
        gesture_laws::one_step(h, n);
        let loaded = link::reply_at(h, n)->Ok_0;
        boundaries_do_not_act(h, n + 1, loaded, "load_state"@);
        let (k, r) = probe::boundary_run(h, n + 1, loaded, "load_state"@)->0;
        gesture_laws::acted_joins(h, n, n + 1, k);
        if frame > 0 {
            gesture_laws::one_step(h, k);
            boundaries_do_not_act(h, k + 1, link::reply_at(h, k)->Ok_0, "step"@);
            gesture_laws::acted_joins(h, n, k, k + 1);
            gesture_laws::acted_joins(h, n, k + 1, m);
            assert(gesture_laws::acted(h, n, m) =~= seq![h[k]]);
        }
    }
}

proof fn entries_do_not_act(h: Seq<LinkStep>, n: int)
    ensures
        probe::entry_run(h, n) matches Some((m, Ok(_))) ==> n <= m && gesture_laws::acted(
            h,
            n,
            m,
        ).len() == 0,
{
    methods_differ();
    gesture_laws::one_step(h, n);
    gesture_laws::one_step(h, n + 1);
    if let Some((m, Ok(running))) = probe::entry_run(h, n) {
        if m > n + 1 {
            let reply = link::reply_at(h, n + 1)->Ok_0;
            boundaries_do_not_act(h, n + 2, reply, "pause"@);
            gesture_laws::acted_joins(h, n, n + 1, n + 2);
            gesture_laws::acted_joins(h, n, n + 2, m);
        }
    }
}

proof fn preflights_do_not_act(
    h: Seq<LinkStep>,
    n: int,
    was_running: bool,
    memory_type: Seq<char>,
    address: u64,
    length: u64,
)
    ensures
        probe::preflight_run(h, n, was_running, memory_type, address, length) matches Some(
            (m, Ok(())),
        ) ==> n <= m && gesture_laws::acted(h, n, m).len() == 0,
{
    methods_differ();
    gesture_laws::one_step(h, n);
}

proof fn carrying_keeps(report: JsonView, advance: JsonView, key: Seq<char>, kept: Seq<char>)
    requires
        report is Object,
        key != kept,
    ensures
        probe::carried(report, advance, key) is Object,
        probe::carried(report, advance, key).field(kept) == report.field(kept),
{
    if let Some(v) = advance.field(key) {
        json::put_is_found(report, key, v, kept);
    }
}

proof fn reports_keep(
    advance: JsonView,
    frame: u64,
    completed: u64,
    hex: Seq<char>,
    kept: Seq<char>,
)
    requires
        kept == "hex"@ || kept == "requested_frames"@ || kept == "completed_frames"@ || kept
            == "status"@ || kept == "state"@,
    ensures
        ({
            let base = JsonView::object().with(
                "status"@,
                JsonView::Str(probe::advance_status(advance)),
            ).with("requested_frames"@, JsonView::Unsigned(frame)).with(
                "completed_frames"@,
                JsonView::Unsigned(completed),
            ).with("state"@, JsonView::Str("frozen"@)).with("hex"@, JsonView::Str(hex)).with(
                "composition"@,
                JsonView::Str("load_state_step_read_memory"@),
            );
            probe::probe_report(advance, frame, completed, hex).field(kept) == base.field(kept)
        }),
{
    report_keys_differ();
    let base = JsonView::object().with("status"@, JsonView::Str(probe::advance_status(advance))).with(
        "requested_frames"@,
        JsonView::Unsigned(frame),
    ).with("completed_frames"@, JsonView::Unsigned(completed)).with(
        "state"@,
        JsonView::Str("frozen"@),
    ).with("hex"@, JsonView::Str(hex)).with(
        "composition"@,
        JsonView::Str("load_state_step_read_memory"@),
    );
    let a = probe::carried(base, advance, "reason"@);
    let b = probe::carried(a, advance, "breakpoint_id"@);
    let c = probe::carried(b, advance, "event"@);
    let d = probe::carried(c, advance, "pc"@);
    let e = probe::carried(d, advance, "frame_before"@);
    carrying_keeps(base, advance, "reason"@, kept);
    carrying_keeps(a, advance, "breakpoint_id"@, kept);
    carrying_keeps(b, advance, "event"@, kept);
    carrying_keeps(c, advance, "pc"@, kept);
    carrying_keeps(d, advance, "frame_before"@, kept);
    carrying_keeps(e, advance, "frame"@, kept);
}

proof fn probe_reports_tell(advance: JsonView, frame: u64, completed: u64, hex: Seq<char>)
    ensures
        ({
            let report = probe::probe_report(advance, frame, completed, hex);
            &&& report.text_field("hex"@) == Some(hex)
            &&& report.unsigned_field("requested_frames"@) == Some(frame)
            &&& report.unsigned_field("completed_frames"@) == Some(completed)
            &&& report.text_field("state"@) == Some("frozen"@)
            &&& report.text_field("status"@) == Some(probe::advance_status(advance))
        }),
{
    broadcast use json::added_is_found;

    report_keys_differ();
    reports_keep(advance, frame, completed, hex, "hex"@);
    reports_keep(advance, frame, completed, hex, "requested_frames"@);
    reports_keep(advance, frame, completed, hex, "completed_frames"@);
    reports_keep(advance, frame, completed, hex, "status"@);
    reports_keep(advance, frame, completed, hex, "state"@);
}

/// A composed probe that succeeds restores the state that was asked for, lets exactly the frames
/// pass that were asked for by one step, and none where none were, and then reads the range that was
/// asked for as the last thing. It tells the bytes of that reading, as many as asked for, and no more
/// frames than asked for; one that completed tells them all.
pub proof fn composed_probes_do_what_was_asked_for(
    h: Seq<LinkStep>,
    n: int,
    state: Seq<char>,
    frame: u64,
    memory_type: Seq<char>,
    address: u64,
    length: u64,
)
    ensures
        probe::composed_run(h, n, state, frame, memory_type, address, length) matches Some(
            (m, Ok(report)),
        ) ==> {
            let did = gesture_laws::acted(h, n, m);
            &&& n < m
            &&& exists|k: int| n <= k < m - 1 && restores(#[trigger] h[k], state)
            &&& frame == 0 ==> did.len() == 0
            &&& frame > 0 ==> did.len() == 1 && gesture_laws::passes(did[0], frame)
            &&& report.text_field("hex"@) matches Some(hex) && {
                &&& gesture_laws::reads(
                    h[m - 1],
                    tools::span_params(memory_type, address, length),
                    hex,
                )
                &&& encoding::hex_bytes(hex) matches Some(bytes) && bytes.len() == length
            }
            &&& report.unsigned_field("requested_frames"@) == Some(frame)
            &&& report.unsigned_field("completed_frames"@) matches Some(completed) && completed
                <= frame && (report.text_field("status"@) == Some("completed"@) ==> completed == frame)
            &&& report.text_field("state"@) == Some("frozen"@)
        },
{
    methods_differ();
    if let Some((m, Ok(report))) = probe::composed_run(
        h,
        n,
        state,
        frame,
        memory_type,
        address,
        length,
    ) {
        entries_do_not_act(h, n);
        let (a, entered) = probe::entry_run(h, n)->0;
        let was_running = entered->Ok_0;
        preflights_do_not_act(h, a, was_running, memory_type, address, length);
        let (b, checked) = probe::preflight_run(h, a, was_running, memory_type, address, length)->0;
        replays_act(h, b, state, frame);
        let (c, replayed) = probe::replay_run(h, b, state, frame)->0;
        let advance = replayed->Ok_0;
        gesture_laws::one_step(h, c);
        gesture_laws::acted_joins(h, n, a, b);
        gesture_laws::acted_joins(h, n, b, c);
        gesture_laws::acted_joins(h, n, c, c + 1);
        assert(gesture_laws::acted(h, n, m) =~= gesture_laws::acted(h, b, c));
        let completed = probe::advance_verdict(advance, frame)->Ok_0;
        let memory = link::reply_at(h, c)->Ok_0;
        let hex = probe::exact_hex(memory, length, "probe read_memory"@)->Ok_0;
        probe_reports_tell(advance, frame, completed, hex);
        assert(restores(h[b], state));
    }
}

} // verus!
