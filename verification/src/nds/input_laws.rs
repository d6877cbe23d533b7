//! What input and machine control promise, told by the packets that were sent to the ARM9.

use vstd::prelude::*;
use crate::encoding;
use crate::gdb;
use crate::gdb::{GdbStep, GdbTransport};
use crate::json;
use crate::json::JsonView;
use crate::nds::bridge::{Cores, NdsBridge, Wires};
use crate::nds::commands;
use crate::nds::control;
use crate::nds::control::TimedInput;
use crate::nds::cpu;
use crate::nds::cpu::CoreView;
use crate::nds::decode;
use crate::nds::laws;
use crate::nds::service;
use crate::nds::service::Operation;
use crate::nds::timed;
use crate::nds::timed::TimedOverrideTerminal;
use crate::nds::{CpuId, NdsErrorView};
use crate::text;

verus! {

proof fn report_words_differ()
    ensures
        "status"@ != "cpu"@,
        "status"@ != "state"@,
        "status"@ != "buttons"@,
        "status"@ != "override_engaged"@,
        "status"@ != "x"@,
        "status"@ != "y"@,
        "status"@ != "frames"@,
        "status"@ != "frames_elapsed"@,
        "status"@ != "reason"@,
        "status"@ != "released"@,
        "status"@ != "path"@,
        "cpu"@ != "state"@,
        "cpu"@ != "buttons"@,
        "cpu"@ != "override_engaged"@,
        "cpu"@ != "x"@,
        "cpu"@ != "y"@,
        "cpu"@ != "frames"@,
        "cpu"@ != "frames_elapsed"@,
        "cpu"@ != "reason"@,
        "cpu"@ != "released"@,
        "cpu"@ != "path"@,
        "state"@ != "buttons"@,
        "state"@ != "override_engaged"@,
        "state"@ != "x"@,
        "state"@ != "y"@,
        "state"@ != "frames"@,
        "state"@ != "frames_elapsed"@,
        "state"@ != "reason"@,
        "state"@ != "released"@,
        "state"@ != "path"@,
        "buttons"@ != "override_engaged"@,
        "buttons"@ != "x"@,
        "buttons"@ != "y"@,
        "buttons"@ != "frames"@,
        "buttons"@ != "frames_elapsed"@,
        "buttons"@ != "reason"@,
        "buttons"@ != "released"@,
        "buttons"@ != "path"@,
        "override_engaged"@ != "x"@,
        "override_engaged"@ != "y"@,
        "override_engaged"@ != "frames"@,
        "override_engaged"@ != "frames_elapsed"@,
        "override_engaged"@ != "reason"@,
        "override_engaged"@ != "released"@,
        "override_engaged"@ != "path"@,
        "x"@ != "y"@,
        "x"@ != "frames"@,
        "x"@ != "frames_elapsed"@,
        "x"@ != "reason"@,
        "x"@ != "released"@,
        "x"@ != "path"@,
        "y"@ != "frames"@,
        "y"@ != "frames_elapsed"@,
        "y"@ != "reason"@,
        "y"@ != "released"@,
        "y"@ != "path"@,
        "frames"@ != "frames_elapsed"@,
        "frames"@ != "reason"@,
        "frames"@ != "released"@,
        "frames"@ != "path"@,
        "frames_elapsed"@ != "reason"@,
        "frames_elapsed"@ != "released"@,
        "frames_elapsed"@ != "path"@,
        "reason"@ != "released"@,
        "reason"@ != "path"@,
        "released"@ != "path"@,
{
    reveal_strlit("status");
    reveal_strlit("cpu");
    reveal_strlit("state");
    reveal_strlit("buttons");
    reveal_strlit("override_engaged");
    reveal_strlit("x");
    reveal_strlit("y");
    reveal_strlit("frames");
    reveal_strlit("frames_elapsed");
    reveal_strlit("reason");
    reveal_strlit("released");
    reveal_strlit("path");
    assert("status"@.len() == 6);
    assert("cpu"@.len() == 3);
    assert("state"@.len() == 5);
    assert("buttons"@.len() == 7);
    assert("override_engaged"@.len() == 16);
    assert("x"@.len() == 1);
    assert("y"@.len() == 1);
    assert("frames"@.len() == 6);
    assert("frames_elapsed"@.len() == 14);
    assert("reason"@.len() == 6);
    assert("released"@.len() == 8);
    assert("path"@.len() == 4);
    assert("status"@[0] == 's');
    assert("x"@[0] == 'x');
    assert("y"@[0] == 'y');
    assert("frames"@[0] == 'f');
    assert("reason"@[0] == 'r');
}

/// Whether a packet was acknowledged, as far as no stop came in ahead of the acknowledgement.
pub open spec fn acknowledged(step: GdbStep, payload: Seq<char>) -> bool {
    laws::asks(step, payload) && (laws::answer(step) == "OK"@ || gdb::is_stop(laws::answer(step)))
}

proof fn acknowledgements_are_asked_for_once(
    w: Wires,
    s: Cores,
    payload: Seq<char>,
    trouble: Seq<char>,
)
    ensures
        control::ok_on(w, s, payload, trouble) matches Some((t, Ok(()))) ==> {
            let steps = laws::sent_to(w, s, t, CpuId::Arm9);
            &&& s.nine.0 <= t.nine.0
            &&& steps.len() == 1
            &&& acknowledged(steps[0], payload)
            &&& t.seven == s.seven
        },
{
    laws::commands_are_sent_once(w.nine, s.nine.0, s.nine.1, payload);
}

/// A number of frames, at least one.
pub open spec fn at_least_one(frames: u64) -> u64 {
    if frames == 0 {
        1
    } else {
        frames
    }
}

proof fn looks_end(
    h: Seq<GdbStep>,
    n: int,
    core: CoreView,
    query: Seq<char>,
    requested: u64,
    started: u64,
    left: nat,
)
    ensures
        timed::look_run(h, n, core, query, requested, started, left) matches Some((m, c, Ok(end)))
            ==> {
            let steps = laws::sent(h, n, m);
            let last = laws::answer(steps.last());
            &&& n <= m
            &&& steps.len() >= 1
            &&& forall|k: int| 0 <= k < steps.len() ==> laws::asks(#[trigger] steps[k], query)
            &&& match end {
                TimedOverrideTerminal::Completed => !c.frozen && (gdb::is_stop(last) || text::i64_value(
                    last,
                ) == Some(0i64)),
                TimedOverrideTerminal::Interrupted { frames_elapsed } => c.frozen && (gdb::is_stop(
                    last,
                ) || (text::i64_value(last) matches Some(remaining) && remaining >= 0
                    && frames_elapsed == (if requested > remaining {
                    requested - remaining
                } else {
                    0
                }))),
            }
        },
    decreases left,
{
    if 0 <= n < h.len() {
        laws::one_step(h, n);
        laws::commands_are_sent_once(h, n + 1, core, query);
        if let Some((a, c, Ok(remaining))) = commands::remaining_run(h, n + 1, core, query) {
            laws::sent_joins(h, n, n + 1, a);
            let first = laws::sent(h, n + 1, a);
            laws::one_step(h, a);
            laws::sent_joins(h, n, a, a + 1);
            if left > 1 && !(h[a] is Sent) {
                looks_end(h, a + 1, c, query, requested, started, (left - 1) as nat);
                if let Some((m, d, Ok(end))) = timed::look_run(
                    h,
                    a + 1,
                    c,
                    query,
                    requested,
                    started,
                    (left - 1) as nat,
                ) {
                    laws::sent_joins(h, n, a + 1, m);
                    let rest = laws::sent(h, a + 1, m);
                    let all = laws::sent(h, n, m);
                    if h[n] is Waited {
                        assert(all =~= first + rest);
                        assert(all.last() == rest.last());
                        assert forall|k: int| 0 <= k < all.len() implies laws::asks(
                            #[trigger] all[k],
                            query,
                        ) by {
                            if k == 0 {
                                assert(all[0] == first[0]);
                            } else {
                                assert(all[k] == rest[k - 1]);
                            }
                        }
                    }
                }
            }
            if h[n] is Waited {
                assert(laws::sent(h, n, a) =~= first);
                assert(first.last() == first[0]);
            }
        }
    }
}

/// Whether packets make a timed input, watch it, and release it where it was interrupted.
pub open spec fn is_timed(
    steps: Seq<GdbStep>,
    packet: Seq<char>,
    query: Seq<char>,
    release: Seq<char>,
    end: TimedOverrideTerminal,
) -> bool {
    let looked = if end is Completed {
        steps.len() as int
    } else {
        steps.len() - 1
    };
    &&& looked >= 2
    &&& acknowledged(steps[0], packet)
    &&& forall|k: int| 1 <= k < looked ==> laws::asks(#[trigger] steps[k], query)
    &&& end is Completed ==> (gdb::is_stop(laws::answer(steps.last())) || text::i64_value(
        laws::answer(steps.last()),
    ) == Some(0i64))
    &&& !(end is Completed) ==> acknowledged(steps.last(), release)
}

proof fn timed_inputs_are_watched(w: Wires, s: Cores, input: TimedInput)
    ensures
        control::timed_on(w, s, input) matches Some((t, Ok(end))) ==> is_timed(
            laws::sent_to(w, s, t, CpuId::Arm9),
            input.packet,
            input.query,
            input.release,
            end,
        ),
{
    acknowledgements_are_asked_for_once(w, s, input.packet, input.trouble);
    if let Some((t, Ok(end))) = control::timed_on(w, s, input) {
        let (u, made) = control::ok_on(w, s, input.packet, input.trouble)->0;
        let n = s.nine.0;
        let a = u.nine.0;
        laws::one_step(w.nine, a);
        laws::one_step(w.nine, a + 1);
        let (b, core) = if s.nine.1.frozen && u.nine.1.frozen {
            (a + 1, CoreView { frozen: false, ..u.nine.1 })
        } else {
            (a, u.nine.1)
        };
        laws::one_step(w.nine, b);
        if b == a + 1 {
            laws::sent_joins(w.nine, n, a, b);
        }
        assert(laws::sent(w.nine, n, b) =~= laws::sent(w.nine, n, a));
        let now = w.nine[b]->now;
        looks_end(
            w.nine,
            b + 1,
            core,
            input.query,
            input.frames,
            now,
            timed::MAX_TIMED_INPUT_POLLS as nat,
        );
        let (m, c, r) = timed::wait_run(w.nine, b, core, input.query, input.frames)->0;
        laws::sent_joins(w.nine, n, b, b + 1);
        laws::sent_joins(w.nine, n, b + 1, m);
        let first = laws::sent(w.nine, n, a);
        let middle = laws::sent(w.nine, b + 1, m);
        assert(laws::sent(w.nine, n, m) =~= first + middle);
        if end is Completed {
            assert(t.nine.0 == m);
            let steps = laws::sent(w.nine, n, m);
            assert forall|k: int| 1 <= k < steps.len() implies laws::asks(
                #[trigger] steps[k],
                input.query,
            ) by {
                assert(steps[k] == middle[k - 1]);
            }
            assert(steps.last() == middle.last());
        } else {
            let at = Cores { nine: (m, c), ..u };
            acknowledgements_are_asked_for_once(w, at, input.release, input.release_trouble);
            laws::sent_joins(w.nine, n, m, t.nine.0);
            let last = laws::sent(w.nine, m, t.nine.0);
            let steps = laws::sent(w.nine, n, t.nine.0);
            assert(steps =~= (first + middle) + last);
            assert forall|k: int| 1 <= k < steps.len() - 1 implies laws::asks(
                #[trigger] steps[k],
                input.query,
            ) by {
                assert(steps[k] == middle[k - 1]);
            }
            assert(steps.last() == last[0]);
        }
    }
}

/// The buttons of a request as a mask, or none where one of them has no such name.
pub open spec fn mask_told(params: JsonView) -> Option<u16> {
    match decode::held_buttons(params.field("buttons"@)) {
        Ok(held) => Some(held.mask),
        Err(_) => None,
    }
}

/// Holding buttons sends their mask once, without an end.
pub proof fn held_buttons_are_sent<G: GdbTransport>(
    before: NdsBridge<G>,
    after: NdsBridge<G>,
    params: JsonView,
    r: Result<JsonView, NdsErrorView>,
)
    requires
        service::operation_does(before, after, Operation::SetInput, params, r),
    ensures
        r matches Ok(report) ==> {
            let steps = laws::sent_to(after.wires(), before.cores(), after.cores(), CpuId::Arm9);
            &&& mask_told(params) matches Some(mask) && steps.len() == 1 && acknowledged(
                steps[0],
                "QEmucap,input:"@ + text::hexadecimal(mask as nat),
            ) && report.truth_field("override_engaged"@) == Some(mask != 0)
        },
{
    broadcast use json::added_is_found;

    report_words_differ();
    if let Ok(held) = control::input_plan(params) {
        acknowledgements_are_asked_for_once(
            after.wires(),
            before.cores(),
            commands::input_packet(held.mask, None),
            "input injection failed: "@,
        );
    }
}

/// A press sends the mask of its buttons with its frames, and at least with one, then only looks at
/// it until it has ended; one that was interrupted is released. It is told as completed only where
/// the last look found no frame left.
pub proof fn presses_last_their_frames<G: GdbTransport>(
    before: NdsBridge<G>,
    after: NdsBridge<G>,
    params: JsonView,
    r: Result<JsonView, NdsErrorView>,
    told: u64,
)
    requires
        service::operation_does(before, after, Operation::PressButtons, params, r),
        params.unsigned_field("frames"@) == Some(told) || (params.field("frames"@) is None && told == 1),
    ensures
        r matches Ok(report) ==> {
            let frames = at_least_one(told);
            let steps = laws::sent_to(after.wires(), before.cores(), after.cores(), CpuId::Arm9);
            &&& frames <= 120
            &&& mask_told(params) matches Some(mask) && mask != 0 && exists|end: TimedOverrideTerminal|
                #[trigger] is_timed(
                    steps,
                    (("QEmucap,input:"@ + text::hexadecimal(mask as nat)) + ","@)
                        + text::hexadecimal(frames as nat),
                    "qEmucap,inputstatus"@,
                    "QEmucap,input:"@ + text::hexadecimal(0),
                    end,
                ) && ends_as(report, end, frames)
        },
{
    if let Ok((held, frames)) = control::press_plan(params) {
        timed_inputs_are_watched(
            after.wires(),
            before.cores(),
            control::press_input(held.mask, frames),
        );
        if let Some((t, Ok(end))) = control::timed_on(
            after.wires(),
            before.cores(),
            control::press_input(held.mask, frames),
        ) {
            ends_are_told(
                control::end_status(end).with("buttons"@, json::text_array(held.names)),
                frames,
                end,
            );
            statuses_are_told(end, "buttons"@, json::text_array(held.names));
            if let Ok(report) = r {
                assert(frames == at_least_one(told));
                assert(report == control::with_end(
                    control::end_status(end).with("buttons"@, json::text_array(held.names)),
                    frames,
                    end,
                ));
                assert(ends_as(report, end, at_least_one(told)));
            }
            assert(is_timed(
                laws::sent_to(after.wires(), before.cores(), after.cores(), CpuId::Arm9),
                (("QEmucap,input:"@ + text::hexadecimal(held.mask as nat)) + ","@)
                    + text::hexadecimal(at_least_one(told) as nat),
                "qEmucap,inputstatus"@,
                "QEmucap,input:"@ + text::hexadecimal(0),
                end,
            ));
        }
    }
}

/// Whether a report tells the end of a timed input.
pub open spec fn ends_as(report: JsonView, end: TimedOverrideTerminal, frames: u64) -> bool {
    &&& report.text_field("status"@) == Some(
        if end is Completed {
            "completed"@
        } else {
            "interrupted"@
        },
    )
    &&& report.unsigned_field("frames"@) == Some(frames)
    &&& report.unsigned_field("frames_elapsed"@) == Some(
        match end {
            TimedOverrideTerminal::Completed => frames,
            TimedOverrideTerminal::Interrupted { frames_elapsed } => frames_elapsed,
        },
    )
    &&& report.truth_field("override_engaged"@) == Some(false)
}

proof fn ends_are_told(report: JsonView, frames: u64, end: TimedOverrideTerminal)
    requires
        report is Object,
    ensures
        ({
            let whole = control::with_end(report, frames, end);
            &&& whole.field("status"@) == report.field("status"@)
            &&& whole.field("x"@) == report.field("x"@)
            &&& whole.field("y"@) == report.field("y"@)
            &&& whole.unsigned_field("frames"@) == Some(frames)
            &&& whole.unsigned_field("frames_elapsed"@) == Some(
                match end {
                    TimedOverrideTerminal::Completed => frames,
                    TimedOverrideTerminal::Interrupted { frames_elapsed } => frames_elapsed,
                },
            )
            &&& whole.truth_field("override_engaged"@) == Some(false)
        }),
{
    broadcast use json::added_is_found;

    report_words_differ();
}

proof fn statuses_are_told(end: TimedOverrideTerminal, key: Seq<char>, value: JsonView)
    requires
        key == "buttons"@ || key == "x"@,
    ensures
        control::end_status(end).with(key, value).text_field("status"@) == Some(
            if end is Completed {
                "completed"@
            } else {
                "interrupted"@
            },
        ),
        control::end_status(end).with(key, value) is Object,
        control::end_status(end).with(key, value).field(key) == Some(value),
{
    broadcast use json::added_is_found;

    report_words_differ();
}

/// A touch is sent with its place, inside the screen. Without frames it is held; with frames it is
/// watched until it has ended, and released where it was interrupted. A release is sent as one.
pub proof fn touches_are_sent_as_asked_for<G: GdbTransport>(
    before: NdsBridge<G>,
    after: NdsBridge<G>,
    params: JsonView,
    r: Result<JsonView, NdsErrorView>,
    x: u64,
    y: u64,
)
    requires
        service::operation_does(before, after, Operation::Touch, params, r),
        params.truth_field("release"@) != Some(true) ==> params.unsigned_field("x"@) == Some(x)
            && params.unsigned_field("y"@) == Some(y),
    ensures
        r matches Ok(report) ==> {
            let steps = laws::sent_to(after.wires(), before.cores(), after.cores(), CpuId::Arm9);
            let place = (("QEmucap,touch:"@ + text::hexadecimal(x as nat)) + ","@)
                + text::hexadecimal(y as nat);
            if params.truth_field("release"@) == Some(true) {
                steps.len() == 1 && acknowledged(steps[0], "QEmucap,touch:release"@)
            } else {
                &&& x <= 255 && y <= 191
                &&& match params.field("frames"@) {
                    None => steps.len() == 1 && acknowledged(steps[0], place),
                    Some(_) => params.unsigned_field("frames"@) matches Some(frames) ==> 1 <= frames
                        <= 120 && exists|end: TimedOverrideTerminal| #[trigger]
                        is_timed(
                            steps,
                            (place + ","@) + text::hexadecimal(frames as nat),
                            "qEmucap,touchstatus"@,
                            "QEmucap,touch:release"@,
                            end,
                        ) && ends_as(report, end, frames),
                }
            }
        },
{
    match control::touch_plan(params) {
        Ok(control::TouchPlan::Lift) => {
            acknowledgements_are_asked_for_once(
                after.wires(),
                before.cores(),
                "QEmucap,touch:release"@,
                "touch release failed: "@,
            );
        },
        Ok(control::TouchPlan::Hold { x: a, y: b }) => {
            acknowledgements_are_asked_for_once(
                after.wires(),
                before.cores(),
                commands::touch_packet(a, b, None),
                "touch injection failed: "@,
            );
        },
        Ok(control::TouchPlan::Tap { x: a, y: b, frames }) => {
            let input = control::touch_input(a, b, frames);
            timed_inputs_are_watched(after.wires(), before.cores(), input);
            if let Some((t, Ok(end))) = control::timed_on(after.wires(), before.cores(), input) {
                touch_ends_are_told(a, b, frames, end);
                let place = (("QEmucap,touch:"@ + text::hexadecimal(x as nat)) + ","@)
                    + text::hexadecimal(y as nat);
                assert(is_timed(
                    laws::sent_to(after.wires(), before.cores(), after.cores(), CpuId::Arm9),
                    (place + ","@) + text::hexadecimal(frames as nat),
                    "qEmucap,touchstatus"@,
                    "QEmucap,touch:release"@,
                    end,
                ));
            }
        },
        Err(_) => {},
    }
}

proof fn touch_ends_are_told(x: u64, y: u64, frames: u64, end: TimedOverrideTerminal)
    ensures
        ends_as(
            control::with_end(
                control::end_status(end).with("x"@, JsonView::Unsigned(x)).with(
                    "y"@,
                    JsonView::Unsigned(y),
                ),
                frames,
                end,
            ),
            end,
            frames,
        ),
{
    broadcast use json::added_is_found;

    report_words_differ();
    let first = control::end_status(end).with("x"@, JsonView::Unsigned(x));
    statuses_are_told(end, "x"@, JsonView::Unsigned(x));
    ends_are_told(first.with("y"@, JsonView::Unsigned(y)), frames, end);
}

/// A reset that succeeds sends the reset to the ARM9 and nothing else.
pub proof fn resets_are_sent<G: GdbTransport>(
    before: NdsBridge<G>,
    after: NdsBridge<G>,
    params: JsonView,
    r: Result<JsonView, NdsErrorView>,
)
    requires
        service::operation_does(before, after, Operation::Reset, params, r),
    ensures
        r is Ok ==> {
            let steps = laws::sent_to(after.wires(), before.cores(), after.cores(), CpuId::Arm9);
            steps.len() == 1 && acknowledged(steps[0], "QEmucap,reset"@)
                && after.cores().nine.1.frozen
        },
{
    let w = after.wires();
    let s = before.cores();
    laws::pauses_send_nothing(w.nine, s.nine.0, s.nine.1);
    if let Some((n, c, Ok(_))) = cpu::pause_run(w.nine, s.nine.0, s.nine.1) {
        laws::drains_send_nothing(w.nine, n, c);
        if let Some((m, d, Ok(()))) = cpu::drain_run(w.nine, n, c) {
            let t = Cores { nine: (m, d), ..s };
            acknowledgements_are_asked_for_once(w, t, "QEmucap,reset"@, "reset failed: "@);
            laws::sent_joins(w.nine, s.nine.0, n, m);
            if let Some((u, Ok(()))) = control::ok_on(w, t, "QEmucap,reset"@, "reset failed: "@) {
                laws::sent_joins(w.nine, s.nine.0, m, u.nine.0);
                assert(laws::sent(w.nine, s.nine.0, u.nine.0) =~= laws::sent(
                    w.nine,
                    m,
                    u.nine.0,
                ));
            }
        }
    }
}

/// A state that is told as saved or loaded was so by one packet with its path.
pub proof fn states_are_moved_by_their_path<G: GdbTransport>(
    before: NdsBridge<G>,
    after: NdsBridge<G>,
    load: bool,
    params: JsonView,
    r: Result<JsonView, NdsErrorView>,
    path: Seq<char>,
)
    requires
        service::operation_does(
            before,
            after,
            if load {
                Operation::LoadState
            } else {
                Operation::SaveState
            },
            params,
            r,
        ),
        params.text_field("path"@) == Some(path),
    ensures
        r matches Ok(report) ==> {
            let steps = laws::sent_to(after.wires(), before.cores(), after.cores(), CpuId::Arm9);
            &&& steps.len() == 1
            &&& acknowledged(
                steps[0],
                (if load {
                    "QEmucap,loadstate:"@
                } else {
                    "QEmucap,savestate:"@
                }) + encoding::hex_text(vstd::utf8::encode_utf8(path)),
            )
            &&& report.text_field("path"@) == Some(path)
            &&& report.text_field("status"@) == Some("completed"@)
        },
{
    broadcast use json::added_is_found;

    report_words_differ();
    let w = after.wires().nine;
    let s = before.cores().nine;
    reveal_strlit("QEmucap,");
    reveal_strlit("loadstate");
    reveal_strlit("savestate");
    reveal_strlit(":");
    reveal_strlit("QEmucap,loadstate:");
    reveal_strlit("QEmucap,savestate:");
    assert(("QEmucap,"@ + "loadstate"@) + ":"@ =~= "QEmucap,loadstate:"@);
    assert(("QEmucap,"@ + "savestate"@) + ":"@ =~= "QEmucap,savestate:"@);
    laws::drains_send_nothing(w, s.0, s.1);
    if let Some((m, c, Ok(()))) = cpu::drain_run(w, s.0, s.1) {
        let packet = (("QEmucap,"@ + commands::state_verb(load)) + ":"@) + encoding::hex_text(
            vstd::utf8::encode_utf8(path),
        );
        laws::commands_are_sent_once(w, m, c, packet);
        if let Some((k, d, Ok(reply))) = cpu::cmd_run(w, m, c, packet) {
            laws::sent_joins(w, s.0, m, k);
            assert(laws::sent(w, s.0, k) =~= laws::sent(w, m, k));
        }
    }
}

} // verus!
