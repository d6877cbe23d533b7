//! What input, pausing, resuming and resetting promise, told by the packets that were sent.

use vstd::prelude::*;
use crate::gdb::{GdbBridgeEnv, GdbStep};
use crate::json;
use crate::json::JsonView;
use crate::neogeo::breakpoints;
use crate::neogeo::control;
use crate::neogeo::hits;
use crate::neogeo::laws;
use crate::neogeo::machine::MachineView;
use crate::neogeo::packets;
use crate::neogeo::packets::BreakpointKind;
use crate::neogeo::params;
use crate::neogeo::service;
use crate::neogeo::service::Operation;
use crate::neogeo::{NeoGeoProfile, MAX_DRAINED_PACKETS};
use crate::text;

verus! {

proof fn report_words_differ()
    ensures
        "status"@ != "buttons"@,
        "status"@ != "frames"@,
        "status"@ != "state"@,
        "status"@ != "mode"@,
        "status"@ != "reset"@,
        "status"@ != "reset_seq"@,
        "status"@ != "frame"@,
        "status"@ != "id"@,
        "status"@ != "kind"@,
        "status"@ != "start"@,
        "status"@ != "end"@,
        "status"@ != "backend_id"@,
        "status"@ != "arm_state"@,
        "status"@ != "arm_error"@,
        "status"@ != "pause_on_hit"@,
        "status"@ != "reason"@,
        "buttons"@ != "frames"@,
        "buttons"@ != "state"@,
        "buttons"@ != "mode"@,
        "buttons"@ != "reset"@,
        "buttons"@ != "reset_seq"@,
        "buttons"@ != "frame"@,
        "buttons"@ != "id"@,
        "buttons"@ != "kind"@,
        "buttons"@ != "start"@,
        "buttons"@ != "end"@,
        "buttons"@ != "backend_id"@,
        "buttons"@ != "arm_state"@,
        "buttons"@ != "arm_error"@,
        "buttons"@ != "pause_on_hit"@,
        "buttons"@ != "reason"@,
        "frames"@ != "state"@,
        "frames"@ != "mode"@,
        "frames"@ != "reset"@,
        "frames"@ != "reset_seq"@,
        "frames"@ != "frame"@,
        "frames"@ != "id"@,
        "frames"@ != "kind"@,
        "frames"@ != "start"@,
        "frames"@ != "end"@,
        "frames"@ != "backend_id"@,
        "frames"@ != "arm_state"@,
        "frames"@ != "arm_error"@,
        "frames"@ != "pause_on_hit"@,
        "frames"@ != "reason"@,
        "state"@ != "mode"@,
        "state"@ != "reset"@,
        "state"@ != "reset_seq"@,
        "state"@ != "frame"@,
        "state"@ != "id"@,
        "state"@ != "kind"@,
        "state"@ != "start"@,
        "state"@ != "end"@,
        "state"@ != "backend_id"@,
        "state"@ != "arm_state"@,
        "state"@ != "arm_error"@,
        "state"@ != "pause_on_hit"@,
        "state"@ != "reason"@,
        "mode"@ != "reset"@,
        "mode"@ != "reset_seq"@,
        "mode"@ != "frame"@,
        "mode"@ != "id"@,
        "mode"@ != "kind"@,
        "mode"@ != "start"@,
        "mode"@ != "end"@,
        "mode"@ != "backend_id"@,
        "mode"@ != "arm_state"@,
        "mode"@ != "arm_error"@,
        "mode"@ != "pause_on_hit"@,
        "mode"@ != "reason"@,
        "reset"@ != "reset_seq"@,
        "reset"@ != "frame"@,
        "reset"@ != "id"@,
        "reset"@ != "kind"@,
        "reset"@ != "start"@,
        "reset"@ != "end"@,
        "reset"@ != "backend_id"@,
        "reset"@ != "arm_state"@,
        "reset"@ != "arm_error"@,
        "reset"@ != "pause_on_hit"@,
        "reset"@ != "reason"@,
        "reset_seq"@ != "frame"@,
        "reset_seq"@ != "id"@,
        "reset_seq"@ != "kind"@,
        "reset_seq"@ != "start"@,
        "reset_seq"@ != "end"@,
        "reset_seq"@ != "backend_id"@,
        "reset_seq"@ != "arm_state"@,
        "reset_seq"@ != "arm_error"@,
        "reset_seq"@ != "pause_on_hit"@,
        "reset_seq"@ != "reason"@,
        "frame"@ != "id"@,
        "frame"@ != "kind"@,
        "frame"@ != "start"@,
        "frame"@ != "end"@,
        "frame"@ != "backend_id"@,
        "frame"@ != "arm_state"@,
        "frame"@ != "arm_error"@,
        "frame"@ != "pause_on_hit"@,
        "frame"@ != "reason"@,
        "id"@ != "kind"@,
        "id"@ != "start"@,
        "id"@ != "end"@,
        "id"@ != "backend_id"@,
        "id"@ != "arm_state"@,
        "id"@ != "arm_error"@,
        "id"@ != "pause_on_hit"@,
        "id"@ != "reason"@,
        "kind"@ != "start"@,
        "kind"@ != "end"@,
        "kind"@ != "backend_id"@,
        "kind"@ != "arm_state"@,
        "kind"@ != "arm_error"@,
        "kind"@ != "pause_on_hit"@,
        "kind"@ != "reason"@,
        "start"@ != "end"@,
        "start"@ != "backend_id"@,
        "start"@ != "arm_state"@,
        "start"@ != "arm_error"@,
        "start"@ != "pause_on_hit"@,
        "start"@ != "reason"@,
        "end"@ != "backend_id"@,
        "end"@ != "arm_state"@,
        "end"@ != "arm_error"@,
        "end"@ != "pause_on_hit"@,
        "end"@ != "reason"@,
        "backend_id"@ != "arm_state"@,
        "backend_id"@ != "arm_error"@,
        "backend_id"@ != "pause_on_hit"@,
        "backend_id"@ != "reason"@,
        "arm_state"@ != "arm_error"@,
        "arm_state"@ != "pause_on_hit"@,
        "arm_state"@ != "reason"@,
        "arm_error"@ != "pause_on_hit"@,
        "arm_error"@ != "reason"@,
        "pause_on_hit"@ != "reason"@,
{
    reveal_strlit("status");
    reveal_strlit("buttons");
    reveal_strlit("frames");
    reveal_strlit("state");
    reveal_strlit("mode");
    reveal_strlit("reset");
    reveal_strlit("reset_seq");
    reveal_strlit("frame");
    reveal_strlit("id");
    reveal_strlit("kind");
    reveal_strlit("start");
    reveal_strlit("end");
    reveal_strlit("backend_id");
    reveal_strlit("arm_state");
    reveal_strlit("arm_error");
    reveal_strlit("pause_on_hit");
    reveal_strlit("reason");
    assert("status"@.len() == 6);
    assert("buttons"@.len() == 7);
    assert("frames"@.len() == 6);
    assert("state"@.len() == 5);
    assert("mode"@.len() == 4);
    assert("reset"@.len() == 5);
    assert("reset_seq"@.len() == 9);
    assert("frame"@.len() == 5);
    assert("id"@.len() == 2);
    assert("kind"@.len() == 4);
    assert("start"@.len() == 5);
    assert("end"@.len() == 3);
    assert("backend_id"@.len() == 10);
    assert("arm_state"@.len() == 9);
    assert("arm_error"@.len() == 9);
    assert("pause_on_hit"@.len() == 12);
    assert("reason"@.len() == 6);
    assert("status"@[0] == 's');
    assert("frames"@[0] == 'f');
    assert("state"@[0] == 's');
    assert("state"@[3] == 't');
    assert("mode"@[0] == 'm');
    assert("reset"@[0] == 'r');
    assert("reset_seq"@[0] == 'r');
    assert("frame"@[0] == 'f');
    assert("kind"@[0] == 'k');
    assert("start"@[0] == 's');
    assert("start"@[3] == 'r');
    assert("arm_state"@[0] == 'a');
    assert("arm_state"@[4] == 's');
    assert("arm_error"@[0] == 'a');
    assert("arm_error"@[4] == 'e');
    assert("reason"@[0] == 'r');
}

proof fn ends_differ()
    ensures
        "completed"@ != "interrupted"@,
{
    reveal_strlit("completed");
    reveal_strlit("interrupted");
    assert("completed"@.len() == 9);
    assert("interrupted"@.len() == 11);
}

/// Whether an entry of a list names a button: without white space around it and in lower case.
pub open spec fn names(entry: JsonView, button: Seq<char>) -> bool {
    entry matches JsonView::Str(s) && button == text::lowered(text::trimmed(s))
}

/// Whether buttons are those that a request names: one for each entry of its list, in order.
pub open spec fn are_named(buttons: Seq<Seq<char>>, params: JsonView) -> bool {
    match params.field("buttons"@) {
        None => buttons.len() == 0,
        Some(JsonView::Array(entries)) => buttons.len() == entries.len() && forall|i: int|
            0 <= i < buttons.len() ==> names(entries[i], #[trigger] buttons[i]),
        Some(_) => false,
    }
}

proof fn entries_are_named(profile: NeoGeoProfile, entries: Seq<JsonView>)
    ensures
        params::entry_buttons(profile, entries) matches Ok(buttons) ==> buttons.len() == entries.len()
            && forall|i: int|
            0 <= i < buttons.len() ==> names(entries[i], #[trigger] buttons[i]),
    decreases entries.len(),
{
    if entries.len() > 0 {
        let front = entries.drop_last();
        entries_are_named(profile, front);
        if let Ok(buttons) = params::entry_buttons(profile, entries) {
            let earlier = params::entry_buttons(profile, front)->Ok_0;
            assert forall|i: int| 0 <= i < buttons.len() implies names(entries[i], #[trigger] buttons[i]) by {
                if i < earlier.len() {
                    assert(buttons[i] == earlier[i]);
                    assert(front[i] == entries[i]);
                }
            }
        }
    }
}

proof fn requests_name_their_buttons(profile: NeoGeoProfile, params: JsonView)
    ensures
        params::buttons_of(profile, params.field("buttons"@)) matches Ok(buttons) ==> are_named(
            buttons,
            params,
        ),
{
    if let Some(JsonView::Array(entries)) = params.field("buttons"@) {
        entries_are_named(profile, entries);
    }
}

/// Whether a step sent a command and had a reply.
pub open spec fn asked(step: GdbStep, name: Seq<char>, argument: Seq<char>) -> bool {
    step matches GdbStep::Sent { payload, reply: Ok(_) } && payload == laws::command(name, argument)
}

/// Holding buttons that succeeds is one command with the buttons that the request names, in their
/// order; without any the native input is given back.
pub proof fn held_buttons_are_sent(
    h: Seq<GdbStep>,
    n: int,
    s: MachineView,
    system: Seq<char>,
    env: GdbBridgeEnv,
    params: JsonView,
)
    ensures
        service::operation_run(h, n, s, system, env, Operation::SetInput, params) matches Some(
            (m, t, Ok(report)),
        ) ==> {
            &&& m == n + 1
            &&& t == s
            &&& exists|buttons: Seq<Seq<char>>|
                {
                    &&& #[trigger] are_named(buttons, params)
                    &&& asked(h[n], "setinput"@, text::joined(buttons, ","@))
                    &&& report.field("buttons"@) == Some(json::text_array(buttons))
                    &&& report.text_field("mode"@) == Some(
                        if buttons.len() == 0 {
                            "native"@
                        } else {
                            "persistent"@
                        },
                    )
                }
        },
{
    requests_name_their_buttons(s.profile, params);
    if let Ok(buttons) = params::buttons_of(s.profile, params.field("buttons"@)) {
        input_reports_tell(buttons);
        assert(are_named(buttons, params));
    }
}

proof fn input_reports_tell(buttons: Seq<Seq<char>>)
    ensures
        ({
            let mode = if buttons.len() == 0 {
                "native"@
            } else {
                "persistent"@
            };
            let report = JsonView::object().with("buttons"@, json::text_array(buttons)).with(
                "mode"@,
                JsonView::Str(mode),
            );
            &&& report.field("buttons"@) == Some(json::text_array(buttons))
            &&& report.text_field("mode"@) == Some(mode)
        }),
{
    broadcast use json::added_is_found;

    report_words_differ();
}

proof fn press_reports_tell(buttons: Seq<Seq<char>>, frames: u64, event: JsonView)
    ensures
        ({
            let report = JsonView::object().with("status"@, JsonView::Str("completed"@)).with(
                "buttons"@,
                json::text_array(buttons),
            ).with("frames"@, JsonView::Unsigned(frames)).with(
                "state"@,
                JsonView::Str("running"@),
            );
            &&& report.text_field("status"@) == Some("completed"@)
            &&& report.field("buttons"@) == Some(json::text_array(buttons))
            &&& report.unsigned_field("frames"@) == Some(frames)
        }),
        ({
            let report = control::interruption(event).with("buttons"@, json::text_array(buttons)).with(
                "frames"@,
                JsonView::Unsigned(frames),
            ).with("state"@, JsonView::Str("frozen"@));
            &&& report.text_field("status"@) != Some("completed"@)
            &&& report.field("buttons"@) == Some(json::text_array(buttons))
            &&& report.unsigned_field("frames"@) == Some(frames)
        }),
{
    broadcast use json::added_is_found;

    report_words_differ();
    ends_differ();
    reveal_strlit("breakpoint_id");
    reveal_strlit("event");
    reveal_strlit("status");
    reveal_strlit("buttons");
    reveal_strlit("frames");
    assert("breakpoint_id"@.len() == 13 && "event"@.len() == 5 && "status"@.len() == 6
        && "buttons"@.len() == 7 && "frames"@.len() == 6);
}

/// A press that is told as completed was one command with its frames, and at least one, and the
/// buttons that the request names, and the machine acknowledged its end.
pub proof fn presses_last_their_frames(
    h: Seq<GdbStep>,
    n: int,
    s: MachineView,
    system: Seq<char>,
    env: GdbBridgeEnv,
    params: JsonView,
    told: u64,
)
    requires
        laws::told(params, "frames"@) == Some(told) || (params.field("frames"@) is None && told == 1),
    ensures
        service::operation_run(h, n, s, system, env, Operation::PressButtons, params) matches Some(
            (m, t, Ok(report)),
        ) ==> {
            &&& laws::positive(told) <= 120
            &&& report.unsigned_field("frames"@) == Some(laws::positive(told))
            &&& laws::is_completed(report) ==> {
                &&& !t.frozen
                &&& exists|buttons: Seq<Seq<char>>|
                    {
                        &&& #[trigger] are_named(buttons, params)
                        &&& laws::answered(
                            h[m - 1],
                            laws::command(
                                "press"@,
                                (text::decimal(laws::positive(told) as int) + ":"@) + text::joined(
                                    buttons,
                                    ","@,
                                ),
                            ),
                            "OK"@,
                        )
                        &&& report.field("buttons"@) == Some(json::text_array(buttons))
                    }
            }
        },
{
    if let Some((a, u, Ok(()))) = hits::drain_run(h, n, s, MAX_DRAINED_PACKETS as nat) {
        requests_name_their_buttons(u.profile, params);
        if let Ok(buttons) = params::buttons_of(u.profile, params.field("buttons"@)) {
            assert(are_named(buttons, params));
            let frames = laws::positive(told);
            press_reports_tell(buttons, frames, JsonView::Null);
            if let GdbStep::Sent { payload, reply: Ok(reply) } = h[a] {
                if packets::is_hit(reply) {
                    if let Some((k, v, Ok(event))) = hits::record_run(h, a + 1, u, reply) {
                        press_reports_tell(buttons, frames, event);
                    }
                }
            }
        }
    }
}

/// A pause that succeeds leaves the machine frozen, and says so. A resume that succeeds leaves it
/// running; one that found it frozen has told it to run on as the last thing.
pub proof fn pauses_freeze_and_resumes_run(
    h: Seq<GdbStep>,
    n: int,
    s: MachineView,
    system: Seq<char>,
    env: GdbBridgeEnv,
    params: JsonView,
)
    ensures
        service::operation_run(h, n, s, system, env, Operation::Pause, params) matches Some(
            (_, t, Ok(report)),
        ) ==> t.frozen && report.text_field("state"@) == Some("frozen"@),
        service::operation_run(h, n, s, system, env, Operation::Resume, params) matches Some(
            (m, t, Ok(report)),
        ) ==> {
            &&& !t.frozen
            &&& report.text_field("state"@) == Some("running"@)
            &&& (hits::drain_run(h, n, s, MAX_DRAINED_PACKETS as nat) matches Some((_, u, Ok(_)))
                && u.frozen) ==> (h[m - 1] matches GdbStep::Told { payload, outcome: Ok(_) }
                && payload == "c"@)
        },
{
    broadcast use json::added_is_found;

    report_words_differ();
}

/// A reset that succeeds was asked for under its own number, and the machine acknowledged that
/// number; the next reset has the next number. The machine runs afterwards.
pub proof fn resets_are_acknowledged(
    h: Seq<GdbStep>,
    n: int,
    s: MachineView,
    system: Seq<char>,
    env: GdbBridgeEnv,
    params: JsonView,
)
    ensures
        service::operation_run(h, n, s, system, env, Operation::Reset, params) matches Some(
            (m, t, Ok(report)),
        ) ==> {
            &&& m == n + 1
            &&& laws::answered(
                h[n],
                laws::command("resetsync"@, text::decimal(s.next_reset as int)),
                "OK:"@ + text::decimal(s.next_reset as int),
            )
            &&& t.next_reset == s.next_reset + 1
            &&& !t.frozen
            &&& t.bps == s.bps
            &&& report.unsigned_field("reset_seq"@) == Some(s.next_reset)
            &&& report.text_field("state"@) == Some("running"@)
        },
{
    broadcast use json::added_is_found;

    report_words_differ();
}

/// A list of breakpoints tells each of them in its row, and changes nothing.
pub proof fn lists_tell_each_breakpoint(
    h: Seq<GdbStep>,
    n: int,
    s: MachineView,
    system: Seq<char>,
    env: GdbBridgeEnv,
    params: JsonView,
    i: int,
)
    requires
        0 <= i < s.bps.len(),
    ensures
        service::operation_run(h, n, s, system, env, Operation::ListBreakpoints, params) matches Some(
            (m, t, Ok(report)),
        ) && m == n && t == s && (report.field("breakpoints"@) matches Some(JsonView::Array(rows))
            && {
            let b = s.bps[i];
            &&& rows.len() == s.bps.len()
            &&& rows[i].unsigned_field("id"@) == Some(b.id)
            &&& rows[i].text_field("kind"@) == Some(
                match b.kind {
                    BreakpointKind::Exec => "exec"@,
                    BreakpointKind::Read => "read"@,
                    BreakpointKind::Write => "write"@,
                },
            )
            &&& rows[i].unsigned_field("start"@) == Some(b.start)
            &&& rows[i].unsigned_field("end"@) == Some(b.end)
            &&& rows[i].unsigned_field("backend_id"@) == b.backend_id
            &&& rows[i].text_field("arm_state"@) == Some(
                if b.armed is Ok {
                    "armed"@
                } else {
                    "failed"@
                },
            )
        }),
{
    broadcast use json::added_is_found;

    report_words_differ();
    assert(breakpoints::bp_row(s.bps[i]).unsigned_field("backend_id"@) == s.bps[i].backend_id);
}

} // verus!
