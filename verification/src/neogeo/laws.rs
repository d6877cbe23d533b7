//! What the operations of the bridge promise, told by the packets that were sent, their replies and
//! the reports.

use vstd::prelude::*;
use crate::encoding;
use crate::gdb::{GdbBridgeEnv, GdbStep};
use crate::json;
use crate::json::JsonView;
use crate::neogeo::control;
use crate::neogeo::hits;
use crate::neogeo::machine;
use crate::neogeo::machine::MachineView;
use crate::neogeo::memory;
use crate::neogeo::params;
use crate::neogeo::service;
use crate::neogeo::service::Operation;
use crate::neogeo::NeoGeoProfile;
use crate::text;

verus! {

/// Whether a step of the connection sent a packet that was answered.
pub open spec fn answered(step: GdbStep, payload: Seq<char>, reply: Seq<char>) -> bool {
    step == (GdbStep::Sent { payload, reply: Ok(reply) })
}

/// The packet of a command of the machine with an argument.
pub open spec fn command(name: Seq<char>, argument: Seq<char>) -> Seq<char> {
    (("qEmucap,"@ + name) + ","@) + encoding::hex_text(vstd::utf8::encode_utf8(argument))
}

/// Whether a report says that its operation was completed.
pub open spec fn is_completed(report: JsonView) -> bool {
    report.text_field("status"@) == Some("completed"@)
}

/// Whether a step of the connection was one instruction, at whose end the machine stopped.
pub open spec fn is_one_instruction(step: GdbStep) -> bool {
    step matches GdbStep::Sent { payload, reply: Ok(stop) } && payload == "s"@ && stop.len() > 0 && (
    stop[0] == 'S' || stop[0] == 'T')
}

/// The number that a request tells under a key, where it is written as a number.
pub open spec fn told(params: JsonView, key: Seq<char>) -> Option<u64> {
    params.unsigned_field(key)
}

/// A count, at least one.
pub open spec fn positive(n: u64) -> u64 {
    if n == 0 {
        1
    } else {
        n
    }
}

proof fn words_differ()
    ensures
        "status"@ != "unit"@,
        "status"@ != "count"@,
        "status"@ != "state"@,
        "status"@ != "frame"@,
        "status"@ != "reason"@,
        "status"@ != "event"@,
        "status"@ != "breakpoint_id"@,
        "status"@ != "frame_before"@,
        "status"@ != "buttons"@,
        "status"@ != "frames"@,
        "status"@ != "frames_observed_min"@,
        "status"@ != "frame_counter_delta"@,
        "status"@ != "frame_counter_continuous"@,
        "unit"@ != "count"@,
        "unit"@ != "state"@,
        "unit"@ != "frame"@,
        "unit"@ != "reason"@,
        "unit"@ != "event"@,
        "unit"@ != "breakpoint_id"@,
        "unit"@ != "frame_before"@,
        "unit"@ != "buttons"@,
        "unit"@ != "frames"@,
        "unit"@ != "frames_observed_min"@,
        "unit"@ != "frame_counter_delta"@,
        "unit"@ != "frame_counter_continuous"@,
        "count"@ != "state"@,
        "count"@ != "frame"@,
        "count"@ != "reason"@,
        "count"@ != "event"@,
        "count"@ != "breakpoint_id"@,
        "count"@ != "frame_before"@,
        "count"@ != "buttons"@,
        "count"@ != "frames"@,
        "count"@ != "frames_observed_min"@,
        "count"@ != "frame_counter_delta"@,
        "count"@ != "frame_counter_continuous"@,
        "state"@ != "frame"@,
        "state"@ != "reason"@,
        "state"@ != "event"@,
        "state"@ != "breakpoint_id"@,
        "state"@ != "frame_before"@,
        "state"@ != "buttons"@,
        "state"@ != "frames"@,
        "state"@ != "frames_observed_min"@,
        "state"@ != "frame_counter_delta"@,
        "state"@ != "frame_counter_continuous"@,
        "frame"@ != "reason"@,
        "frame"@ != "event"@,
        "frame"@ != "breakpoint_id"@,
        "frame"@ != "frame_before"@,
        "frame"@ != "buttons"@,
        "frame"@ != "frames"@,
        "frame"@ != "frames_observed_min"@,
        "frame"@ != "frame_counter_delta"@,
        "frame"@ != "frame_counter_continuous"@,
        "reason"@ != "event"@,
        "reason"@ != "breakpoint_id"@,
        "reason"@ != "frame_before"@,
        "reason"@ != "buttons"@,
        "reason"@ != "frames"@,
        "reason"@ != "frames_observed_min"@,
        "reason"@ != "frame_counter_delta"@,
        "reason"@ != "frame_counter_continuous"@,
        "event"@ != "breakpoint_id"@,
        "event"@ != "frame_before"@,
        "event"@ != "buttons"@,
        "event"@ != "frames"@,
        "event"@ != "frames_observed_min"@,
        "event"@ != "frame_counter_delta"@,
        "event"@ != "frame_counter_continuous"@,
        "breakpoint_id"@ != "frame_before"@,
        "breakpoint_id"@ != "buttons"@,
        "breakpoint_id"@ != "frames"@,
        "breakpoint_id"@ != "frames_observed_min"@,
        "breakpoint_id"@ != "frame_counter_delta"@,
        "breakpoint_id"@ != "frame_counter_continuous"@,
        "frame_before"@ != "buttons"@,
        "frame_before"@ != "frames"@,
        "frame_before"@ != "frames_observed_min"@,
        "frame_before"@ != "frame_counter_delta"@,
        "frame_before"@ != "frame_counter_continuous"@,
        "buttons"@ != "frames"@,
        "buttons"@ != "frames_observed_min"@,
        "buttons"@ != "frame_counter_delta"@,
        "buttons"@ != "frame_counter_continuous"@,
        "frames"@ != "frames_observed_min"@,
        "frames"@ != "frame_counter_delta"@,
        "frames"@ != "frame_counter_continuous"@,
        "frames_observed_min"@ != "frame_counter_delta"@,
        "frames_observed_min"@ != "frame_counter_continuous"@,
        "frame_counter_delta"@ != "frame_counter_continuous"@,
        "completed"@ != "interrupted"@,
        "frames"@ != "instructions"@,
{
    reveal_strlit("status");
    reveal_strlit("unit");
    reveal_strlit("count");
    reveal_strlit("state");
    reveal_strlit("frame");
    reveal_strlit("reason");
    reveal_strlit("event");
    reveal_strlit("breakpoint_id");
    reveal_strlit("frame_before");
    reveal_strlit("buttons");
    reveal_strlit("frames");
    reveal_strlit("frames_observed_min");
    reveal_strlit("frame_counter_delta");
    reveal_strlit("frame_counter_continuous");
    reveal_strlit("completed");
    reveal_strlit("interrupted");
    reveal_strlit("instructions");
    assert("status"@.len() == 6);
    assert("unit"@.len() == 4);
    assert("count"@.len() == 5);
    assert("state"@.len() == 5);
    assert("frame"@.len() == 5);
    assert("reason"@.len() == 6);
    assert("event"@.len() == 5);
    assert("breakpoint_id"@.len() == 13);
    assert("frame_before"@.len() == 12);
    assert("buttons"@.len() == 7);
    assert("frames"@.len() == 6);
    assert("frames_observed_min"@.len() == 19);
    assert("frame_counter_delta"@.len() == 19);
    assert("frame_counter_continuous"@.len() == 24);
    assert("completed"@.len() == 9);
    assert("interrupted"@.len() == 11);
    assert("instructions"@.len() == 12);
    assert("status"@[0] == 's');
    assert("count"@[0] == 'c');
    assert("state"@[0] == 's');
    assert("frame"@[0] == 'f');
    assert("reason"@[0] == 'r');
    assert("event"@[0] == 'e');
    assert("frames"@[0] == 'f');
    assert("frames_observed_min"@[5] == 's');
    assert("frame_counter_delta"@[5] == '_');
}

proof fn memory_words_differ()
    ensures
        "address"@ != "length"@,
        "address"@ != "hex"@,
        "address"@ != "written"@,
        "address"@ != "M68K"@,
        "address"@ != "frame"@,
        "address"@ != "data"@,
        "length"@ != "hex"@,
        "length"@ != "written"@,
        "length"@ != "M68K"@,
        "length"@ != "frame"@,
        "length"@ != "data"@,
        "hex"@ != "written"@,
        "hex"@ != "M68K"@,
        "hex"@ != "frame"@,
        "hex"@ != "data"@,
        "written"@ != "M68K"@,
        "written"@ != "frame"@,
        "written"@ != "data"@,
        "M68K"@ != "frame"@,
        "M68K"@ != "data"@,
        "frame"@ != "data"@,
{
    reveal_strlit("address");
    reveal_strlit("length");
    reveal_strlit("hex");
    reveal_strlit("written");
    reveal_strlit("M68K");
    reveal_strlit("frame");
    reveal_strlit("data");
    assert("address"@.len() == 7);
    assert("length"@.len() == 6);
    assert("hex"@.len() == 3);
    assert("written"@.len() == 7);
    assert("M68K"@.len() == 4);
    assert("frame"@.len() == 5);
    assert("data"@.len() == 4);
    assert("address"@[0] == 'a');
    assert("written"@[0] == 'w');
    assert("M68K"@[0] == 'M');
    assert("data"@[0] == 'd');
}

proof fn interruptions_are_no_completions(event: JsonView)
    ensures
        control::interruption(event) is Object,
        control::interruption(event).text_field("status"@) == Some("interrupted"@),
{
    broadcast use json::added_is_found;

    words_differ();
}

proof fn steps_are_counted(h: Seq<GdbStep>, n: int, s: MachineView, count: u64, left: nat)
    ensures
        control::steps_run(h, n, s, count, left) matches Some((m, t, Ok(report))) ==> is_completed(
            report,
        ) ==> {
            &&& m == n + left
            &&& t == s
            &&& report.unsigned_field("count"@) == Some(count)
            &&& report.text_field("unit"@) == Some("instructions"@)
            &&& forall|k: int| n <= k < m ==> is_one_instruction(#[trigger] h[k])
        },
    decreases left,
{
    broadcast use json::added_is_found;

    words_differ();
    if left == 0 {
    } else if let Some((m, t, Ok(reply))) = machine::sent_run(h, n, s, "s"@) {
        if crate::neogeo::packets::is_hit(reply) {
            if let Some((k, u, Ok(event))) = hits::record_run(h, m, t, reply) {
                interruptions_are_no_completions(event);
            }
        } else {
            steps_are_counted(h, m, t, count, (left - 1) as nat);
        }
    }
}

/// An instruction step that is told as completed with a count sent the packet of one instruction
/// exactly that often and nothing else, and each was answered by a stop. The count is the one that
/// was asked for, at least one, and the machine is known as before.
pub proof fn completed_instruction_steps_are_exact(
    h: Seq<GdbStep>,
    n: int,
    s: MachineView,
    system: Seq<char>,
    env: GdbBridgeEnv,
    operation: Operation,
    params: JsonView,
)
    requires
        operation == Operation::StepInstructions || (operation == Operation::Step
            && params.text_field("unit"@) == Some("instructions"@)),
    ensures
        service::operation_run(h, n, s, system, env, operation, params) matches Some(
            (m, t, Ok(report)),
        ) ==> is_completed(report) ==> {
            &&& report.unsigned_field("count"@) == Some((m - n) as u64)
            &&& 1 <= m - n <= u64::MAX
            &&& forall|k: int| n <= k < m ==> is_one_instruction(#[trigger] h[k])
            &&& t == s && s.frozen
            &&& told(params, "count"@) matches Some(c) ==> m - n == positive(c)
            &&& params.field("count"@) is None ==> (told(params, "frames"@) matches Some(c) ==> m - n
                == positive(c))
            &&& params.field("count"@) is None && params.field("frames"@) is None ==> m - n == 1
        },
{
    words_differ();
    if let Ok(count) = control::count_of(params, "count"@, "frames"@) {
        steps_are_counted(h, n, s, count, count as nat);
    }
}

proof fn frame_reports_tell(count: u64, before: u64, after: u64, stop: bool)
    ensures
        ({
            let report = control::frame_report(count, before, after, stop);
            &&& report.unsigned_field("count"@) == Some(count)
            &&& report.unsigned_field("frame_before"@) == Some(before)
            &&& report.unsigned_field("frame"@) == Some(after)
        }),
{
    broadcast use json::added_is_found;

    words_differ();
}

proof fn frame_interruptions_are_no_completions(event: JsonView, before: u64)
    ensures
        !is_completed(
            control::interruption(event).with("frame_before"@, JsonView::Unsigned(before)).with(
                "state"@,
                JsonView::Str("frozen"@),
            ),
        ),
{
    broadcast use json::added_is_found;

    words_differ();
    interruptions_are_no_completions(event);
}

proof fn frames_are_exact(h: Seq<GdbStep>, n: int, s: MachineView, count: u64, stop: bool)
    ensures
        control::frames_run(h, n, s, count, stop) matches Some((m, t, Ok(report))) ==> is_completed(
            report,
        ) ==> {
            &&& report.unsigned_field("count"@) == Some(count)
            &&& answered(
                h[m - 3],
                command(
                    if stop {
                        "framestep"@
                    } else {
                        "runframes"@
                    },
                    text::decimal(count as int),
                ),
                "OK"@,
            )
            &&& h[m - 6] matches GdbStep::Sent { payload, reply: Ok(frame) } && payload
                == "qEmucap,"@ + "frame"@ && text::u64_value(frame, 10) == report.unsigned_field(
                "frame_before"@,
            )
            &&& h[m - 1] matches GdbStep::Sent { payload, reply: Ok(frame) } && payload
                == "qEmucap,"@ + "frame"@ && text::u64_value(frame, 10) == report.unsigned_field(
                "frame"@,
            )
            &&& report.unsigned_field("frame"@) is Some
            &&& report.unsigned_field("frame_before"@) is Some
            &&& t.frozen == stop
            &&& stop ==> report.unsigned_field("frame"@)->0 == report.unsigned_field(
                "frame_before"@,
            )->0 + count
        },
{
    let left = crate::neogeo::MAX_DRAINED_PACKETS as nat;
    if let Some((m, t, Ok(()))) = hits::drain_run(h, n, s, left) {
        if let Some((k, u, Ok(before))) = machine::frame_run(h, m, t) {
            if let Some((j, v, Ok(reply))) = machine::timed_run(
                h,
                k,
                u,
                control::frame_verb(stop),
                Some(text::decimal(count as int)),
                control::frame_timeout(count),
            ) {
                if crate::neogeo::packets::is_hit(reply) {
                    if let Some((_, _, Ok(event))) = hits::record_run(h, j, v, reply) {
                        frame_interruptions_are_no_completions(event, before);
                    }
                } else if reply == "OK"@ {
                    assert(j == k + 4);
                    if let Some((i, w, Ok(after))) = machine::frame_run(
                        h,
                        j,
                        MachineView { frozen: stop, ..v },
                    ) {
                        frame_reports_tell(count, before, after, stop);
                    }
                }
            }
        }
    }
}

/// A frame operation that is told as completed had the machine make exactly its count of frames,
/// and read the frame counter before and after. A step leaves the machine frozen, with the counter
/// further by exactly the count; otherwise the machine runs. The count is the one that was asked
/// for, at least one.
pub proof fn completed_frame_operations_are_exact(
    h: Seq<GdbStep>,
    n: int,
    s: MachineView,
    system: Seq<char>,
    env: GdbBridgeEnv,
    operation: Operation,
    params: JsonView,
)
    requires
        operation == Operation::RunFrames || (operation == Operation::Step && (params.text_field(
            "unit"@,
        ) is None || params.text_field("unit"@) == Some("frames"@))),
    ensures
        service::operation_run(h, n, s, system, env, operation, params) matches Some(
            (m, t, Ok(report)),
        ) ==> is_completed(report) ==> {
            let count = report.unsigned_field("count"@)->0;
            let before = report.unsigned_field("frame_before"@)->0;
            let after = report.unsigned_field("frame"@)->0;
            let key = if operation == Operation::Step {
                "count"@
            } else {
                "n"@
            };
            &&& report.unsigned_field("count"@) is Some
            &&& answered(
                h[m - 3],
                command(
                    if operation == Operation::Step {
                        "framestep"@
                    } else {
                        "runframes"@
                    },
                    text::decimal(count as int),
                ),
                "OK"@,
            )
            &&& h[m - 6] matches GdbStep::Sent { payload, reply: Ok(frame) } && payload
                == "qEmucap,"@ + "frame"@ && text::u64_value(frame, 10) == Some(before)
            &&& h[m - 1] matches GdbStep::Sent { payload, reply: Ok(frame) } && payload
                == "qEmucap,"@ + "frame"@ && text::u64_value(frame, 10) == Some(after)
            &&& operation == Operation::Step ==> t.frozen && after == before + count
            &&& operation == Operation::RunFrames ==> !t.frozen
            &&& told(params, key) matches Some(c) ==> count == positive(c)
            &&& params.field(key) is None ==> (told(params, "frames"@) matches Some(c) ==> count
                == positive(c))
            &&& params.field(key) is None && params.field("frames"@) is None ==> count == 1
        },
{
    words_differ();
    let stop = operation == Operation::Step;
    let key = if stop {
        "count"@
    } else {
        "n"@
    };
    if let Ok(count) = control::count_of(params, key, "frames"@) {
        frames_are_exact(h, n, s, count, stop);
    }
}

/// Where the work memory of a machine starts.
pub open spec fn ram_start(profile: NeoGeoProfile) -> int {
    if profile == NeoGeoProfile::Cd {
        0
    } else {
        0x10_0000
    }
}

/// How large the work memory of a machine is.
pub open spec fn ram_length(profile: NeoGeoProfile) -> int {
    if profile == NeoGeoProfile::Cd {
        0x20_0000
    } else {
        0x1_0000
    }
}

/// A read of the work memory that succeeds asked the frozen machine once, for exactly the bytes of
/// the request, and tells them as they were answered.
pub proof fn reads_tell_the_bytes_asked_for(
    h: Seq<GdbStep>,
    n: int,
    s: MachineView,
    system: Seq<char>,
    env: GdbBridgeEnv,
    params: JsonView,
    offset: u64,
    length: u64,
)
    requires
        told(params, "address"@) == Some(offset),
        told(params, "length"@) == Some(length),
    ensures
        service::operation_run(h, n, s, system, env, Operation::ReadMemory, params) matches Some(
            (m, t, r),
        ) ==> {
            &&& t == s
            &&& r matches Ok(report) ==> {
                &&& s.frozen && m == n + 1
                &&& length <= 0x4000 && offset + length <= ram_length(s.profile)
                &&& h[n] matches GdbStep::Sent { payload, reply: Ok(raw) } && {
                    &&& payload == (("m"@ + text::hexadecimal(
                        (ram_start(s.profile) + offset) as nat,
                    )) + ","@) + text::hexadecimal(length as nat)
                    &&& encoding::hex_bytes(text::trimmed(raw)) matches Some(data) && data.len()
                        == length && report.text_field("hex"@) == Some(encoding::hex_text(data))
                }
                &&& report.unsigned_field("address"@) == Some(offset)
                &&& report.unsigned_field("length"@) == Some(length)
            }
        },
{
    broadcast use json::added_is_found;

    memory_words_differ();
}

/// A write of the work memory that succeeds sent the frozen machine the bytes of the request once,
/// to the address of the request, and the machine acknowledged them.
pub proof fn writes_send_the_bytes_asked_for(
    h: Seq<GdbStep>,
    n: int,
    s: MachineView,
    system: Seq<char>,
    env: GdbBridgeEnv,
    params: JsonView,
    offset: u64,
    hex: Seq<char>,
    data: Seq<u8>,
)
    requires
        told(params, "address"@) == Some(offset),
        params.text_field("hex"@) == Some(hex),
        encoding::hex_bytes(hex) == Some(data),
        data.len() <= u64::MAX,
    ensures
        service::operation_run(h, n, s, system, env, Operation::WriteMemory, params) matches Some(
            (m, t, r),
        ) ==> {
            &&& t == s
            &&& r matches Ok(report) ==> {
                &&& s.frozen && m == n + 1
                &&& offset + data.len() <= ram_length(s.profile)
                &&& answered(
                    h[n],
                    (((("M"@ + text::hexadecimal((ram_start(s.profile) + offset) as nat)) + ","@)
                        + text::hexadecimal(data.len())) + ":"@) + encoding::hex_text(data),
                    "OK"@,
                )
                &&& report.unsigned_field("written"@) == Some(data.len() as u64)
                &&& report.unsigned_field("address"@) == Some(offset)
            }
        },
{
    broadcast use json::added_is_found;

    memory_words_differ();
}

/// The names of the registers, in the order in which the machine tells them.
pub open spec fn registers_in_order() -> Seq<Seq<char>> {
    seq![
        "d0"@, "d1"@, "d2"@, "d3"@, "d4"@, "d5"@, "d6"@, "d7"@, "a0"@, "a1"@, "a2"@, "a3"@, "a4"@,
        "a5"@, "a6"@, "sp"@, "sr"@, "pc"@,
    ]
}

/// The number of four bytes, the lowest first.
pub open spec fn word_of(a: u8, b: u8, c: u8, d: u8) -> int {
    a + 0x100 * b + 0x1_0000 * c + 0x100_0000 * d
}

proof fn register_found(bytes: Seq<u8>, n: nat, i: int)
    requires
        bytes.len() == 72,
        0 <= i < n <= 18,
    ensures
        crate::neogeo::packets::registers(bytes, n) is Object,
        crate::neogeo::packets::registers(bytes, n).unsigned_field(registers_in_order()[i]) == Some(
            word_of(
                bytes[4 * i],
                bytes[4 * i + 1],
                bytes[4 * i + 2],
                bytes[4 * i + 3],
            ) as u64,
        ),
    decreases n,
{
    broadcast use json::added_is_found;

    registers_stay_objects(bytes, (n - 1) as nat);
    let names = registers_in_order();
    assert(names =~= crate::neogeo::packets::register_names());
    if i < n - 1 {
        register_found(bytes, (n - 1) as nat, i);
        registers_differ(i, n - 1);
    } else {
        let w = bytes.subrange(4 * i, 4 * i + 4);
        reveal_with_fuel(crate::neogeo::packets::le_value, 5);
        assert(w.drop_first().drop_first().drop_first().drop_first().len() == 0);
        assert(w[0] == bytes[4 * i] && w.drop_first()[0] == bytes[4 * i + 1]
            && w.drop_first().drop_first()[0] == bytes[4 * i + 2]
            && w.drop_first().drop_first().drop_first()[0] == bytes[4 * i + 3]);
    }
}

proof fn registers_differ(i: int, j: int)
    requires
        0 <= i < j < 18,
    ensures
        registers_in_order()[i] != registers_in_order()[j],
{
    reveal_strlit("d0");
    reveal_strlit("d1");
    reveal_strlit("d2");
    reveal_strlit("d3");
    reveal_strlit("d4");
    reveal_strlit("d5");
    reveal_strlit("d6");
    reveal_strlit("d7");
    reveal_strlit("a0");
    reveal_strlit("a1");
    reveal_strlit("a2");
    reveal_strlit("a3");
    reveal_strlit("a4");
    reveal_strlit("a5");
    reveal_strlit("a6");
    reveal_strlit("sp");
    reveal_strlit("sr");
    reveal_strlit("pc");
    let names = registers_in_order();
    assert(names[0][0] == 'd' && names[0][1] == '0');
    assert(names[1][0] == 'd' && names[1][1] == '1');
    assert(names[2][0] == 'd' && names[2][1] == '2');
    assert(names[3][0] == 'd' && names[3][1] == '3');
    assert(names[4][0] == 'd' && names[4][1] == '4');
    assert(names[5][0] == 'd' && names[5][1] == '5');
    assert(names[6][0] == 'd' && names[6][1] == '6');
    assert(names[7][0] == 'd' && names[7][1] == '7');
    assert(names[8][0] == 'a' && names[8][1] == '0');
    assert(names[9][0] == 'a' && names[9][1] == '1');
    assert(names[10][0] == 'a' && names[10][1] == '2');
    assert(names[11][0] == 'a' && names[11][1] == '3');
    assert(names[12][0] == 'a' && names[12][1] == '4');
    assert(names[13][0] == 'a' && names[13][1] == '5');
    assert(names[14][0] == 'a' && names[14][1] == '6');
    assert(names[15][0] == 's' && names[15][1] == 'p');
    assert(names[16][0] == 's' && names[16][1] == 'r');
    assert(names[17][0] == 'p' && names[17][1] == 'c');
}

proof fn registers_stay_objects(bytes: Seq<u8>, n: nat)
    ensures
        crate::neogeo::packets::registers(bytes, n) is Object,
    decreases n,
{
    if n > 0 {
        registers_stay_objects(bytes, (n - 1) as nat);
    }
}

/// The registers that are told are the words of the reply, each under the name of its place.
pub proof fn registers_are_the_words_of_the_reply(
    h: Seq<GdbStep>,
    n: int,
    s: MachineView,
    system: Seq<char>,
    env: GdbBridgeEnv,
    params: JsonView,
    i: int,
)
    requires
        0 <= i < 18,
    ensures
        service::operation_run(h, n, s, system, env, Operation::GetState, params) matches Some(
            (m, t, Ok(report)),
        ) ==> {
            &&& t == s && s.frozen && m == n + 2
            &&& h[n] matches GdbStep::Sent { payload, reply: Ok(raw) } && {
                &&& payload == "g"@
                &&& encoding::hex_bytes(text::trimmed(raw)) matches Some(b) && b.len() == 72
                    && report.at("M68K"@).unsigned_field(registers_in_order()[i]) == Some(
                    word_of(b[4 * i], b[4 * i + 1], b[4 * i + 2], b[4 * i + 3]) as u64,
                )
            }
        },
{
    broadcast use json::added_is_found;

    memory_words_differ();
    if let Some((m, t, Ok(raw))) = machine::sent_run(h, n, s, "g"@) {
        if let Some(b) = encoding::hex_bytes(text::trimmed(raw)) {
            if b.len() == 72 {
                register_found(b, 18, i);
            }
        }
    }
}

} // verus!
