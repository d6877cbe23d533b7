//! Requests that drive the machine: pausing, resuming, resetting, input, touch, saved states and
//! pictures.

use vstd::prelude::*;
use crate::encoding;
use crate::gdb::{GdbStep, GdbTransport};
use crate::json;
use crate::json::{Json, JsonView};
use crate::media_graph;
use crate::nds;
use crate::nds::bridge;
use crate::nds::bridge::{Cores, NdsBridge, Ran, Wires};
use crate::nds::commands;
use crate::nds::cpu;
use crate::nds::cpu::CoreView;
use crate::nds::decode;
use crate::nds::memory;
use crate::nds::support;
use crate::nds::timed;
use crate::nds::timed::TimedOverrideTerminal;
use crate::nds::{CpuId, NdsBridgeError, NdsErrorView, MAX_SYNC_TIMED_INPUT_FRAMES};
use crate::text;

verus! {

/// The states of the cores that an operation reached.
pub open spec fn states_report(state: Seq<char>, nine: bool, seven: bool) -> JsonView {
    let cpus = JsonView::object();
    let cpus = if nine {
        cpus.with("arm9"@, JsonView::Str(state))
    } else {
        cpus
    };
    let cpus = if seven {
        cpus.with("arm7"@, JsonView::Str(state))
    } else {
        cpus
    };
    JsonView::object().with("state"@, JsonView::Str(state)).with("cpus"@, cpus)
}

fn states_json(state: &str, nine: bool, seven: bool) -> (r: Json)
    ensures
        r@ == states_report(state@, nine, seven),
{
    let cpus = Json::object();
    let cpus = if nine {
        cpus.with("arm9", Json::text(state))
    } else {
        cpus
    };
    let cpus = if seven {
        cpus.with("arm7", Json::text(state))
    } else {
        cpus
    };
    Json::object().with("state", Json::text(state)).with("cpus", cpus)
}

/// The refusal of a core by name.
pub open spec fn no_cpu<T>(name: Seq<char>, valid: Seq<char>) -> Result<T, NdsErrorView> {
    support::bad((("unsupported cpu: "@ + name) + "; valid: "@) + valid)
}

fn cpu_error(name: &str, valid: &str) -> (r: NdsBridgeError)
    ensures
        r@ == NdsErrorView::BadParams((("unsupported cpu: "@ + name@) + "; valid: "@) + valid@),
{
    let m = text::join("unsupported cpu: ", name);
    let m = text::join(m.as_str(), "; valid: ");
    NdsBridgeError::BadParams(text::join(m.as_str(), valid))
}

/// The core through which a pause goes.
pub open spec fn pause_target(params: JsonView, attached: bool) -> Result<CpuId, NdsErrorView> {
    match params.text_field("cpu"@) {
        None => Ok(CpuId::Arm9),
        Some(name) => if name == "arm9"@ {
            Ok(CpuId::Arm9)
        } else if name == "arm7"@ {
            if attached {
                Ok(CpuId::Arm7)
            } else {
                commands::fault("ARM7 GDB connection is not attached"@)
            }
        } else {
            no_cpu(name, "arm9, arm7"@)
        },
    }
}

fn target_of_pause(params: &Json, attached: bool) -> (r: Result<CpuId, NdsBridgeError>)
    ensures
        nds::plain(r) == pause_target(params@, attached),
{
    match params.get_str("cpu") {
        None => Ok(CpuId::Arm9),
        Some(name) => if text::same(name, "arm9") {
            Ok(CpuId::Arm9)
        } else if text::same(name, "arm7") {
            if attached {
                Ok(CpuId::Arm7)
            } else {
                Err(NdsBridgeError::Emulator("ARM7 GDB connection is not attached".to_owned()))
            }
        } else {
            Err(cpu_error(name, "arm9, arm7"))
        },
    }
}

/// The cores that a resume sets running: the ARM9 alone, unless the request names another core or
/// both.
pub open spec fn resume_targets(params: JsonView, attached: bool) -> Result<
    (bool, bool),
    NdsErrorView,
> {
    match params.text_field("cpu"@) {
        None => Ok((true, false)),
        Some(name) => if name == "arm9"@ {
            Ok((true, false))
        } else if name == "both"@ || name == "all"@ {
            Ok((true, attached))
        } else if name == "arm7"@ {
            if attached {
                Ok((false, true))
            } else {
                commands::fault("ARM7 GDB connection is not attached"@)
            }
        } else {
            no_cpu(name, "arm9, arm7, both"@)
        },
    }
}

fn targets_of_resume(params: &Json, attached: bool) -> (r: Result<(bool, bool), NdsBridgeError>)
    ensures
        nds::plain(r) == resume_targets(params@, attached),
{
    match params.get_str("cpu") {
        None => Ok((true, false)),
        Some(name) => if text::same(name, "arm9") {
            Ok((true, false))
        } else if text::same(name, "both") || text::same(name, "all") {
            Ok((true, attached))
        } else if text::same(name, "arm7") {
            if attached {
                Ok((false, true))
            } else {
                Err(NdsBridgeError::Emulator("ARM7 GDB connection is not attached".to_owned()))
            }
        } else {
            Err(cpu_error(name, "arm9, arm7, both"))
        },
    }
}

/// Freezing the machine through a core. Once one core stops, both are frozen.
pub open spec fn pause_all_on(w: Wires, s: Cores, params: JsonView) -> Ran<()> {
    match bridge::drain_on(w, s) {
        None => None,
        Some((t, Err(e))) => Some((t, Err(e))),
        Some((t, Ok(()))) => match pause_target(params, t.seven is Some) {
            Err(e) => Some((t, Err(e))),
            Ok(target) => if t.nine.1.frozen {
                Some((bridge::all_frozen(t, true), Ok(())))
            } else {
                match bridge::pause_on(w, t, target) {
                    None => None,
                    Some((u, Err(e))) => Some((u, Err(e))),
                    Some((u, Ok(_))) => Some((bridge::all_frozen(u, true), Ok(()))),
                }
            },
        },
    }
}

/// Setting cores running, one after the other.
pub open spec fn resume_some_on(w: Wires, s: Cores, nine: bool, seven: bool) -> Ran<()> {
    let first = if nine {
        bridge::resume_on(w, s, CpuId::Arm9)
    } else {
        Some((s, Ok(())))
    };
    match first {
        None => None,
        Some((t, Err(e))) => Some((t, Err(e))),
        Some((t, Ok(()))) => if seven {
            bridge::resume_on(w, t, CpuId::Arm7)
        } else {
            Some((t, Ok(())))
        },
    }
}

/// Setting the machine running.
pub open spec fn resume_all_on(w: Wires, s: Cores, params: JsonView) -> Ran<(bool, bool)> {
    match bridge::drain_on(w, s) {
        None => None,
        Some((t, Err(e))) => Some((t, Err(e))),
        Some((t, Ok(()))) => match resume_targets(params, t.seven is Some) {
            Err(e) => Some((t, Err(e))),
            Ok((nine, seven)) => match resume_some_on(w, t, nine, seven) {
                None => None,
                Some((u, Err(e))) => Some((u, Err(e))),
                Some((u, Ok(()))) => Some((u, Ok((nine, seven)))),
            },
        },
    }
}

/// What a pause comes to.
pub open spec fn pause_does<G: GdbTransport>(
    before: NdsBridge<G>,
    after: NdsBridge<G>,
    params: JsonView,
    r: Result<JsonView, NdsErrorView>,
) -> bool {
    bridge::settles(
        before,
        after,
        pause_all_on(after.wires(), before.cores(), params),
        |done: ()| Ok(states_report("frozen"@, true, before.arm7 is Some)),
        r,
    )
}

/// What a resume comes to.
pub open spec fn resume_does<G: GdbTransport>(
    before: NdsBridge<G>,
    after: NdsBridge<G>,
    params: JsonView,
    r: Result<JsonView, NdsErrorView>,
) -> bool {
    bridge::settles(
        before,
        after,
        resume_all_on(after.wires(), before.cores(), params),
        |cores: (bool, bool)| Ok(states_report("running"@, cores.0, cores.1)),
        r,
    )
}

/// A command to the ARM9 that has to be answered with `OK`.
pub open spec fn ok_on(w: Wires, s: Cores, payload: Seq<char>, trouble: Seq<char>) -> Ran<()> {
    bridge::on_cpu(
        w,
        s,
        CpuId::Arm9,
        |h: Seq<GdbStep>, n: int, c: CoreView| commands::ok_run(h, n, c, payload, trouble),
    )
}

/// Resetting the machine: the ARM9 is frozen, its stops are taken, and the command sent.
pub open spec fn reset_on(w: Wires, s: Cores) -> Ran<()> {
    match bridge::pause_on(w, s, CpuId::Arm9) {
        None => None,
        Some((t, Err(e))) => Some((t, Err(e))),
        Some((t, Ok(_))) => match cpu::drain_run(w.nine, t.nine.0, t.nine.1) {
            None => None,
            Some((n, c, Err(e))) => Some((Cores { nine: (n, c), ..t }, Err(e))),
            Some((n, c, Ok(()))) => match ok_on(
                w,
                Cores { nine: (n, c), ..t },
                "QEmucap,reset"@,
                "reset failed: "@,
            ) {
                None => None,
                Some((u, Err(e))) => Some((u, Err(e))),
                Some((u, Ok(()))) => Some((bridge::all_frozen(u, true), Ok(()))),
            },
        },
    }
}

/// What a reset comes to.
pub open spec fn reset_does<G: GdbTransport>(
    before: NdsBridge<G>,
    after: NdsBridge<G>,
    r: Result<JsonView, NdsErrorView>,
) -> bool {
    bridge::settles(
        before,
        after,
        reset_on(after.wires(), before.cores()),
        |done: ()|
            Ok(
                JsonView::object().with("status"@, JsonView::Str("completed"@)).with(
                    "state"@,
                    JsonView::Str("frozen"@),
                ),
            ),
        r,
    )
}

/// The buttons of a request, on the first port.
pub open spec fn input_plan(params: JsonView) -> Result<decode::HeldView, NdsErrorView> {
    match support::port_check(params) {
        Err(e) => Err(e),
        Ok(()) => decode::held_buttons(params.field("buttons"@)),
    }
}

fn plan_input(params: &Json) -> (r: Result<decode::Held, NdsBridgeError>)
    ensures
        nds::shown(r) == input_plan(params@),
{
    support::require_input_port_zero(params)?;
    decode::buttons_to_mask(params.get("buttons"))
}

/// What holding buttons comes to.
pub open spec fn set_input_does<G: GdbTransport>(
    before: NdsBridge<G>,
    after: NdsBridge<G>,
    params: JsonView,
    r: Result<JsonView, NdsErrorView>,
) -> bool {
    match input_plan(params) {
        Err(e) => bridge::idle(before, after) && r == Err::<JsonView, _>(e),
        Ok(held) => bridge::settles(
            before,
            after,
            ok_on(
                after.wires(),
                before.cores(),
                commands::input_packet(held.mask, None),
                "input injection failed: "@,
            ),
            |done: ()|
                Ok(
                    JsonView::object().with("buttons"@, json::text_array(held.names)).with(
                        "cpu"@,
                        JsonView::Str("arm9"@),
                    ).with("override_engaged"@, JsonView::Bool(held.mask != 0)),
                ),
            r,
        ),
    }
}

/// An override of the input that ends by itself: how it is made and lifted, and how it is watched.
pub struct TimedInput {
    pub packet: Seq<char>,
    pub trouble: Seq<char>,
    pub release: Seq<char>,
    pub release_trouble: Seq<char>,
    pub query: Seq<char>,
    pub frames: u64,
}

/// The error of a timed input that failed, after it was lifted.
pub open spec fn lifted(primary: NdsErrorView, cleanup: Result<(), NdsErrorView>) -> NdsErrorView {
    match cleanup {
        Ok(()) => primary,
        Err(e) => NdsErrorView::Emulator(
            (primary.sentence() + "; transient input cleanup also failed: "@) + e.sentence(),
        ),
    }
}

/// Lifting a timed input after an error.
pub open spec fn lift_on(w: Wires, s: Cores, input: TimedInput, primary: NdsErrorView) -> Ran<
    TimedOverrideTerminal,
> {
    match ok_on(w, s, input.release, input.release_trouble) {
        None => None,
        Some((t, cleanup)) => Some((t, Err(lifted(primary, cleanup)))),
    }
}

/// Watching a timed input until it ends; one that a stop ended is lifted.
pub open spec fn watch_on(w: Wires, s: Cores, input: TimedInput) -> Ran<TimedOverrideTerminal> {
    match timed::wait_run(w.nine, s.nine.0, s.nine.1, input.query, input.frames) {
        None => None,
        Some((n, c, Err(e))) => lift_on(w, Cores { nine: (n, c), ..s }, input, e),
        Some((n, c, Ok(TimedOverrideTerminal::Completed))) => Some(
            (Cores { nine: (n, c), ..s }, Ok(TimedOverrideTerminal::Completed)),
        ),
        Some((n, c, Ok(stopped))) => match ok_on(
            w,
            Cores { nine: (n, c), ..s },
            input.release,
            input.release_trouble,
        ) {
            None => None,
            Some((t, Err(e))) => Some((t, Err(e))),
            Some((t, Ok(()))) => Some((t, Ok(stopped))),
        },
    }
}

/// A timed input: it is made, a frozen machine set running for it, and watched until it ends.
/// Whatever fails once it is made, it is lifted. A stop that has come in by then is left for the
/// first look at the input, which it interrupts.
pub open spec fn timed_on(w: Wires, s: Cores, input: TimedInput) -> Ran<TimedOverrideTerminal> {
    match ok_on(w, s, input.packet, input.trouble) {
        None => None,
        Some((t, Err(e))) => Some((t, Err(e))),
        Some((t, Ok(()))) => if s.nine.1.frozen {
            match bridge::resume_on(w, t, CpuId::Arm9) {
                None => None,
                Some((u, Err(e))) => lift_on(w, u, input, e),
                Some((u, Ok(()))) => watch_on(w, u, input),
            }
        } else {
            watch_on(w, t, input)
        },
    }
}

/// Whether the release of a timed input was the last thing that happened: what the cores came to is
/// what the release made of them.
pub open spec fn ends_released(w: Wires, after: Cores, input: TimedInput) -> bool {
    exists|before: Cores|
        (#[trigger] ok_on(w, before, input.release, input.release_trouble)) matches Some((t, _))
            && t == after
}

/// A timed input that was made ends by itself, or with its release, whatever failed.
pub proof fn timed_inputs_are_lifted(w: Wires, s: Cores, input: TimedInput)
    requires
        ok_on(w, s, input.packet, input.trouble) matches Some((_, Ok(()))),
    ensures
        timed_on(w, s, input) matches Some((t, r)) ==> r == Ok::<_, NdsErrorView>(
            TimedOverrideTerminal::Completed,
        ) || ends_released(w, t, input),
{
}

/// The end of the report of a timed input.
pub open spec fn with_end(report: JsonView, frames: u64, end: TimedOverrideTerminal) -> JsonView {
    let elapsed = match end {
        TimedOverrideTerminal::Completed => frames,
        TimedOverrideTerminal::Interrupted { frames_elapsed } => frames_elapsed,
    };
    report.with("frames"@, JsonView::Unsigned(frames)).with(
        "frames_elapsed"@,
        JsonView::Unsigned(elapsed),
    ).with("cpu"@, JsonView::Str("arm9"@)).with(
        "state"@,
        JsonView::Str(
            if end is Completed {
                "running"@
            } else {
                "frozen"@
            },
        ),
    ).with("override_engaged"@, JsonView::Bool(false))
}

/// The start of the report of a timed input.
pub open spec fn end_status(end: TimedOverrideTerminal) -> JsonView {
    match end {
        TimedOverrideTerminal::Completed => JsonView::object().with(
            "status"@,
            JsonView::Str("completed"@),
        ),
        TimedOverrideTerminal::Interrupted { .. } => JsonView::object().with(
            "status"@,
            JsonView::Str("interrupted"@),
        ).with("reason"@, JsonView::Str("breakpoint"@)),
    }
}

fn add_end(report: Json, frames: u64, end: TimedOverrideTerminal) -> (r: Json)
    ensures
        r@ == with_end(report@, frames, end),
{
    let elapsed: u64 = match end {
        TimedOverrideTerminal::Completed => frames,
        TimedOverrideTerminal::Interrupted { frames_elapsed } => frames_elapsed,
    };
    let state = match end {
        TimedOverrideTerminal::Completed => "running",
        TimedOverrideTerminal::Interrupted { .. } => "frozen",
    };
    report.with("frames", Json::Unsigned(frames)).with(
        "frames_elapsed",
        Json::Unsigned(elapsed),
    ).with("cpu", Json::text("arm9")).with("state", Json::text(state)).with(
        "override_engaged",
        Json::Bool(false),
    )
}

fn status_of_end(end: TimedOverrideTerminal) -> (r: Json)
    ensures
        r@ == end_status(end),
{
    match end {
        TimedOverrideTerminal::Completed => Json::object().with("status", Json::text("completed")),
        TimedOverrideTerminal::Interrupted { .. } => Json::object().with(
            "status",
            Json::text("interrupted"),
        ).with("reason", Json::text("breakpoint")),
    }
}

/// The timed input of a button press.
pub open spec fn press_input(mask: u16, frames: u64) -> TimedInput {
    TimedInput {
        packet: commands::input_packet(mask, Some(frames)),
        trouble: "input injection failed: "@,
        release: commands::input_packet(0, None),
        release_trouble: "input injection failed: "@,
        query: "qEmucap,inputstatus"@,
        frames,
    }
}

/// The buttons and the frames of a press.
pub open spec fn press_plan(params: JsonView) -> Result<(decode::HeldView, u64), NdsErrorView> {
    match input_plan(params) {
        Err(e) => Err(e),
        Ok(held) => if held.mask == 0 {
            support::bad("press_buttons requires at least one button"@)
        } else {
            match memory::or_default(params, "frames"@, 1) {
                Err(e) => Err(e),
                Ok(given) => {
                    let frames = if given == 0 {
                        1
                    } else {
                        given
                    };
                    if frames > MAX_SYNC_TIMED_INPUT_FRAMES {
                        support::bad(
                            ("NDS synchronous press_buttons supports at most "@ + text::decimal(
                                MAX_SYNC_TIMED_INPUT_FRAMES as int,
                            ))
                                + " frames; use set_input plus an explicit set_input([]) release for a longer hold"@,
                        )
                    } else {
                        Ok((held, frames))
                    }
                },
            }
        },
    }
}

/// What a button press comes to.
pub open spec fn press_buttons_does<G: GdbTransport>(
    before: NdsBridge<G>,
    after: NdsBridge<G>,
    params: JsonView,
    r: Result<JsonView, NdsErrorView>,
) -> bool {
    match press_plan(params) {
        Err(e) => bridge::idle(before, after) && r == Err::<JsonView, _>(e),
        Ok((held, frames)) => bridge::settles(
            before,
            after,
            timed_on(after.wires(), before.cores(), press_input(held.mask, frames)),
            |end: TimedOverrideTerminal|
                Ok(
                    with_end(
                        end_status(end).with("buttons"@, json::text_array(held.names)),
                        frames,
                        end,
                    ),
                ),
            r,
        ),
    }
}

/// The timed input of a touch.
pub open spec fn touch_input(x: u64, y: u64, frames: u64) -> TimedInput {
    TimedInput {
        packet: commands::touch_packet(x, y, Some(frames)),
        trouble: "touch injection failed: "@,
        release: "QEmucap,touch:release"@,
        release_trouble: "touch release failed: "@,
        query: "qEmucap,touchstatus"@,
        frames,
    }
}

/// What a touch asks for.
pub enum TouchPlan {
    Lift,
    Hold { x: u64, y: u64 },
    Tap { x: u64, y: u64, frames: u64 },
}

/// What a touch asks for.
pub open spec fn touch_plan(params: JsonView) -> Result<TouchPlan, NdsErrorView> {
    match support::port_check(params) {
        Err(e) => Err(e),
        Ok(()) => if params.truth_field("release"@) == Some(true) {
            Ok(TouchPlan::Lift)
        } else {
            match support::optional(params, "x"@) {
                Err(e) => Err(e),
                Ok(None) => support::bad("touch requires x (0-255)"@),
                Ok(Some(x)) => match support::optional(params, "y"@) {
                    Err(e) => Err(e),
                    Ok(None) => support::bad("touch requires y (0-191)"@),
                    Ok(Some(y)) => if x > 255 || y > 191 {
                        support::bad(touch_message(x, y))
                    } else {
                        match support::optional(params, "frames"@) {
                            Err(e) => Err(e),
                            Ok(None) => Ok(TouchPlan::Hold { x, y }),
                            Ok(Some(frames)) => if frames == 0 || frames
                                > MAX_SYNC_TIMED_INPUT_FRAMES {
                                support::bad(
                                    ("NDS timed touch frames must be 1..="@ + text::decimal(
                                        MAX_SYNC_TIMED_INPUT_FRAMES as int,
                                    )) + "; omit frames for a persistent hold"@,
                                )
                            } else {
                                Ok(TouchPlan::Tap { x, y, frames })
                            },
                        }
                    },
                },
            }
        },
    }
}

/// The message that a touch is off the screen.
pub open spec fn touch_message(x: u64, y: u64) -> Seq<char> {
    ((("touch out of range: x 0-255, y 0-191 (got x="@ + text::decimal(x as int)) + ", y="@)
        + text::decimal(y as int)) + ")"@
}

/// What a touch comes to.
pub open spec fn touch_does<G: GdbTransport>(
    before: NdsBridge<G>,
    after: NdsBridge<G>,
    params: JsonView,
    r: Result<JsonView, NdsErrorView>,
) -> bool {
    match touch_plan(params) {
        Err(e) => bridge::idle(before, after) && r == Err::<JsonView, _>(e),
        Ok(TouchPlan::Lift) => bridge::settles(
            before,
            after,
            ok_on(
                after.wires(),
                before.cores(),
                "QEmucap,touch:release"@,
                "touch release failed: "@,
            ),
            |done: ()|
                Ok(
                    JsonView::object().with("released"@, JsonView::Bool(true)).with(
                        "cpu"@,
                        JsonView::Str("arm9"@),
                    ).with("override_engaged"@, JsonView::Bool(false)),
                ),
            r,
        ),
        Ok(TouchPlan::Hold { x, y }) => bridge::settles(
            before,
            after,
            ok_on(
                after.wires(),
                before.cores(),
                commands::touch_packet(x, y, None),
                "touch injection failed: "@,
            ),
            |done: ()|
                Ok(
                    JsonView::object().with("x"@, JsonView::Unsigned(x)).with(
                        "y"@,
                        JsonView::Unsigned(y),
                    ).with("frames"@, JsonView::Null).with("cpu"@, JsonView::Str("arm9"@)).with(
                        "override_engaged"@,
                        JsonView::Bool(true),
                    ),
                ),
            r,
        ),
        Ok(TouchPlan::Tap { x, y, frames }) => bridge::settles(
            before,
            after,
            timed_on(after.wires(), before.cores(), touch_input(x, y, frames)),
            |end: TimedOverrideTerminal|
                Ok(
                    with_end(
                        end_status(end).with("x"@, JsonView::Unsigned(x)).with(
                            "y"@,
                            JsonView::Unsigned(y),
                        ),
                        frames,
                        end,
                    ),
                ),
            r,
        ),
    }
}

/// What saving or loading a state comes to.
pub open spec fn state_does<G: GdbTransport>(
    before: NdsBridge<G>,
    after: NdsBridge<G>,
    params: JsonView,
    load: bool,
    r: Result<JsonView, NdsErrorView>,
) -> bool {
    match support::required_text(params, "path"@) {
        Err(e) => bridge::idle(before, after) && r == Err::<JsonView, _>(e),
        Ok(path) => bridge::settles(
            before,
            after,
            bridge::on_cpu(
                after.wires(),
                before.cores(),
                CpuId::Arm9,
                |h: Seq<GdbStep>, n: int, c: CoreView|
                    commands::savestate_run(h, n, c, path, load),
            ),
            |done: ()|
                Ok(
                    JsonView::object().with("path"@, JsonView::Str(path)).with(
                        "status"@,
                        JsonView::Str("completed"@),
                    ),
                ),
            r,
        ),
    }
}

/// The first characters of a text.
pub open spec fn head_of(s: Seq<char>) -> Seq<char> {
    if s.len() > 32 {
        s.take(32)
    } else {
        s
    }
}

/// The message that the reply of a screenshot is no base64.
pub open spec fn picture_fault(reply: Seq<char>, fault: Seq<char>) -> Seq<char> {
    let m = (("screenshot: base64 decode failed: "@ + fault) + " (reply_len="@) + text::decimal(
        vstd::utf8::encode_utf8(reply).len() as int,
    );
    ((m + ", head="@) + media_graph::quoted_text(head_of(reply))) + ")"@
}

/// The report of decoded bytes that have to be a picture.
pub open spec fn png_report(reply: Seq<char>, bytes: Seq<u8>) -> Result<JsonView, NdsErrorView> {
    if !encoding::is_png(bytes) {
        commands::fault("screenshot: DeSmuME reply was not a PNG"@)
    } else {
        Ok(
            JsonView::object().with("png_base64"@, JsonView::Str(reply)).with(
                "format"@,
                JsonView::Str("png"@),
            ).with("width"@, JsonView::Unsigned(256)).with("height"@, JsonView::Unsigned(384)),
        )
    }
}

/// The report of a picture of both screens.
pub open spec fn picture_report(reply: Seq<char>) -> Result<JsonView, NdsErrorView> {
    let trimmed = text::trimmed(reply);
    match encoding::base64_result(trimmed) {
        Err(f) => commands::fault(picture_fault(trimmed, f)),
        Ok(bytes) => png_report(reply, bytes),
    }
}

/// What a screenshot comes to.
pub open spec fn screenshot_does<G: GdbTransport>(
    before: NdsBridge<G>,
    after: NdsBridge<G>,
    r: Result<JsonView, NdsErrorView>,
) -> bool {
    bridge::settles(
        before,
        after,
        bridge::on_cpu(
            after.wires(),
            before.cores(),
            CpuId::Arm9,
            |h: Seq<GdbStep>, n: int, c: CoreView|
                commands::filled_run(
                    h,
                    n,
                    c,
                    "qEmucap,ss"@,
                    "screenshot: DeSmuME returned an empty reply (frame buffer unavailable)"@,
                ),
        ),
        |reply: Seq<char>| picture_report(reply),
        r,
    )
}

/// Describes decoded bytes that have to be a picture.
pub fn describe_png(reply: &str, bytes: &[u8]) -> (r: Result<Json, NdsBridgeError>)
    ensures
        nds::shown(r) == png_report(reply@, bytes@),
{
    if !encoding::starts_like_png(bytes) {
        return Err(NdsBridgeError::Emulator("screenshot: DeSmuME reply was not a PNG".to_owned()));
    }
    Ok(
        Json::object().with("png_base64", Json::text(reply)).with("format", Json::text("png")).with(
            "width",
            Json::Unsigned(256),
        ).with("height", Json::Unsigned(384)),
    )
}

fn describe_picture(reply: &str) -> (r: Result<Json, NdsBridgeError>)
    ensures
        nds::shown(r) == picture_report(reply@),
{
    let trimmed = text::trim(reply);
    match encoding::base64_decode(trimmed.as_str()) {
        Ok(bytes) => describe_png(reply, bytes.as_slice()),
        Err(fault) => {
            let chars = text::chars_of(trimmed.as_str());
            let head = if chars.len() > 32 {
                assert(trimmed@.subrange(0, 32) =~= trimmed@.take(32));
                text::slice_text(chars.as_slice(), 0, 32)
            } else {
                trimmed.clone()
            };
            let length: u64 = trimmed.as_str().as_bytes().len() as u64;
            let m = text::join("screenshot: base64 decode failed: ", fault.as_str());
            let m = text::join(m.as_str(), " (reply_len=");
            let m = text::join(m.as_str(), text::decimal_of(length).as_str());
            let m = text::join(m.as_str(), ", head=");
            let m = text::join(m.as_str(), media_graph::quote(head.as_str()).as_str());
            Err(NdsBridgeError::Emulator(text::join(m.as_str(), ")")))
        },
    }
}

/// What a timed input asks of the stub.
struct TimedRequest {
    packet: String,
    trouble: &'static str,
    release: String,
    release_trouble: &'static str,
    query: &'static str,
    frames: u64,
}

impl View for TimedRequest {
    type V = TimedInput;

    closed spec fn view(&self) -> TimedInput {
        TimedInput {
            packet: self.packet@,
            trouble: self.trouble@,
            release: self.release@,
            release_trouble: self.release_trouble@,
            query: self.query@,
            frames: self.frames,
        }
    }
}

fn lifted_error(primary: NdsBridgeError, cleanup: Result<(), NdsBridgeError>) -> (r: NdsBridgeError)
    ensures
        r@ == lifted(primary@, nds::plain(cleanup)),
{
    match cleanup {
        Ok(()) => primary,
        Err(e) => {
            let m = text::join(
                primary.message().as_str(),
                "; transient input cleanup also failed: ",
            );
            NdsBridgeError::Emulator(text::join(m.as_str(), e.message().as_str()))
        },
    }
}

impl<G: GdbTransport> NdsBridge<G> {
    /// Freezes the machine.
    pub fn pause(&mut self, params: &Json) -> (r: Result<Json, NdsBridgeError>)
        ensures
            pause_does(*old(self), *final(self), params@, nds::shown(r)),
    {
        let drained = self.drain_scheduler_stops();
        let ghost w1 = self.wires();
        proof {
            bridge::wires_stay(w1);
        }
        drained?;
        let target = target_of_pause(params, self.arm7.is_some())?;
        if !self.arm9.frozen {
            let paused = self.pause_of(target);
            proof {
                bridge::wires_go_through(w1, self.wires());
                bridge::wires_stay(self.wires());
                assert(bridge::wires_go_on(w1, self.wires()));
            }
            paused?;
        }
        self.set_scheduler_frozen(true);
        Ok(states_json("frozen", true, self.arm7.is_some()))
    }

    fn resume_some(&mut self, nine: bool, seven: bool) -> (r: Result<(), NdsBridgeError>)
        ensures
            bridge::kept(*old(self), *final(self)),
            forall|w: Wires|
                bridge::wires_go_on(final(self).wires(), w) ==> #[trigger] resume_some_on(
                    w,
                    old(self).cores(),
                    nine,
                    seven,
                ) == Some((final(self).cores(), nds::plain(r))),
    {
        if nine {
            self.resume_of(CpuId::Arm9)?;
        }
        let ghost w1 = self.wires();
        let ghost c1 = self.cores();
        let ghost s = old(self).cores();
        if seven {
            let resumed = self.resume_of(CpuId::Arm7);
            proof {
                bridge::wires_go_through(w1, self.wires());
                assert forall|w: Wires| bridge::wires_go_on(self.wires(), w) && nine implies #[trigger] bridge::resume_on(
                    w,
                    s,
                    CpuId::Arm9,
                ) == Some((c1, Ok::<(), NdsErrorView>(()))) by {
                    assert(bridge::wires_go_on(w1, w));
                }
            }
            return resumed;
        }
        Ok(())
    }

    fn resume_cores(&mut self, params: &Json) -> (r: Result<(bool, bool), NdsBridgeError>)
        ensures
            bridge::kept(*old(self), *final(self)),
            forall|w: Wires|
                bridge::wires_go_on(final(self).wires(), w) ==> #[trigger] resume_all_on(
                    w,
                    old(self).cores(),
                    params@,
                ) == Some((final(self).cores(), nds::plain(r))),
    {
        let drained = self.drain_scheduler_stops();
        let ghost w1 = self.wires();
        drained?;
        let (nine, seven) = targets_of_resume(params, self.arm7.is_some())?;
        let resumed = self.resume_some(nine, seven);
        proof {
            bridge::wires_go_through(w1, self.wires());
        }
        resumed?;
        Ok((nine, seven))
    }

    /// Sets the machine running.
    pub fn resume(&mut self, params: &Json) -> (r: Result<Json, NdsBridgeError>)
        ensures
            resume_does(*old(self), *final(self), params@, nds::shown(r)),
    {
        let resumed = self.resume_cores(params);
        proof {
            bridge::wires_stay(self.wires());
        }
        let (nine, seven) = resumed?;
        Ok(states_json("running", nine, seven))
    }

    fn ok_of(&mut self, payload: &str, trouble: &str) -> (r: Result<(), NdsBridgeError>)
        ensures
            bridge::kept(*old(self), *final(self)),
            forall|w: Wires|
                bridge::wires_go_on(final(self).wires(), w) ==> #[trigger] ok_on(
                    w,
                    old(self).cores(),
                    payload@,
                    trouble@,
                ) == Some((final(self).cores(), nds::plain(r))),
    {
        self.arm9.send_ok(payload, trouble)
    }

    /// Resets the machine, which stays frozen.
    pub fn reset(&mut self) -> (r: Result<Json, NdsBridgeError>)
        ensures
            reset_does(*old(self), *final(self), nds::shown(r)),
    {
        let paused = self.pause_of(CpuId::Arm9);
        let ghost w1 = self.wires();
        proof {
            bridge::wires_stay(w1);
        }
        paused?;
        let drained = self.arm9.drain_stops();
        let ghost w2 = self.wires();
        proof {
            assert(bridge::wires_go_on(w1, w2));
            bridge::wires_stay(w2);
        }
        drained?;
        let sent = self.ok_of("QEmucap,reset", "reset failed: ");
        proof {
            bridge::wires_go_through(w1, w2);
            bridge::wires_go_through(w2, self.wires());
            bridge::wires_stay(self.wires());
            assert(bridge::wires_go_on(w2, self.wires()));
            assert(bridge::wires_go_on(w1, self.wires()));
        }
        sent?;
        self.set_scheduler_frozen(true);
        Ok(
            Json::object().with("status", Json::text("completed")).with(
                "state",
                Json::text("frozen"),
            ),
        )
    }

    /// Holds buttons until they are changed.
    pub fn set_input(&mut self, params: &Json) -> (r: Result<Json, NdsBridgeError>)
        ensures
            set_input_does(*old(self), *final(self), params@, nds::shown(r)),
    {
        let held = plan_input(params)?;
        let sent = self.arm9.send_input(held.mask, None);
        proof {
            bridge::wires_stay(self.wires());
        }
        sent?;
        Ok(
            Json::object().with("buttons", Json::texts(held.names.as_slice())).with(
                "cpu",
                Json::text("arm9"),
            ).with("override_engaged", Json::Bool(held.mask != 0)),
        )
    }

    fn lift(&mut self, request: &TimedRequest, primary: NdsBridgeError) -> (r: Result<
        TimedOverrideTerminal,
        NdsBridgeError,
    >)
        ensures
            bridge::kept(*old(self), *final(self)),
            forall|w: Wires|
                bridge::wires_go_on(final(self).wires(), w) ==> #[trigger] lift_on(
                    w,
                    old(self).cores(),
                    request@,
                    primary@,
                ) == Some((final(self).cores(), nds::plain(r))),
    {
        let cleanup = self.ok_of(request.release.as_str(), request.release_trouble);
        Err(lifted_error(primary, cleanup))
    }

    fn watch_input(&mut self, request: &TimedRequest) -> (r: Result<
        TimedOverrideTerminal,
        NdsBridgeError,
    >)
        ensures
            bridge::kept(*old(self), *final(self)),
            forall|w: Wires|
                bridge::wires_go_on(final(self).wires(), w) ==> #[trigger] watch_on(
                    w,
                    old(self).cores(),
                    request@,
                ) == Some((final(self).cores(), nds::plain(r))),
    {
        let ghost s = self.cores();
        let waited = self.arm9.wait_timed_override(request.query, request.frames);
        let ghost w1 = self.wires();
        let ghost c1 = self.cores();
        match waited {
            Err(error) => {
                let r = self.lift(request, error);
                proof {
                    bridge::wires_go_through(w1, self.wires());
                    assert forall|w: Wires| bridge::wires_go_on(self.wires(), w) implies #[trigger] bridge::wires_go_on(
                        w1,
                        w,
                    ) by {}
                }
                r
            },
            Ok(TimedOverrideTerminal::Completed) => Ok(TimedOverrideTerminal::Completed),
            Ok(stopped) => {
                let released = self.ok_of(request.release.as_str(), request.release_trouble);
                proof {
                    bridge::wires_go_through(w1, self.wires());
                    assert forall|w: Wires| bridge::wires_go_on(self.wires(), w) implies #[trigger] bridge::wires_go_on(
                        w1,
                        w,
                    ) by {}
                }
                released?;
                Ok(stopped)
            },
        }
    }

    fn timed_input(&mut self, request: &TimedRequest) -> (r: Result<
        TimedOverrideTerminal,
        NdsBridgeError,
    >)
        ensures
            bridge::kept(*old(self), *final(self)),
            timed_on(final(self).wires(), old(self).cores(), request@) == Some(
                (final(self).cores(), nds::plain(r)),
            ),
    {
        let frozen = self.arm9.frozen;
        let ghost s = self.cores();
        let made = self.ok_of(request.packet.as_str(), request.trouble);
        let ghost w1 = self.wires();
        let ghost c1 = self.cores();
        proof {
            bridge::wires_stay(w1);
        }
        made?;
        if frozen {
            let resumed = self.resume_of(CpuId::Arm9);
            let ghost w2 = self.wires();
            let ghost c2 = self.cores();
            let r = match resumed {
                Err(error) => self.lift(request, error),
                Ok(_) => self.watch_input(request),
            };
            proof {
                let w3 = self.wires();
                bridge::wires_go_through(w1, w2);
                bridge::wires_go_through(w2, w3);
                bridge::wires_stay(w3);
                assert(bridge::wires_go_on(w2, w3));
                assert(bridge::wires_go_on(w1, w3));
                assert(ok_on(w3, s, request@.packet, request@.trouble) == Some(
                    (c1, Ok::<(), NdsErrorView>(())),
                ));
                assert(bridge::resume_on(w3, c1, CpuId::Arm9) == Some((c2, nds::plain(resumed))));
            }
            return r;
        }
        let r = self.watch_input(request);
        proof {
            let w3 = self.wires();
            bridge::wires_stay(w3);
            assert(bridge::wires_go_on(w1, w3));
            assert(ok_on(w3, s, request@.packet, request@.trouble) == Some(
                (c1, Ok::<(), NdsErrorView>(())),
            ));
        }
        r
    }

    /// Presses buttons for some frames.
    pub fn press_buttons(&mut self, params: &Json) -> (r: Result<Json, NdsBridgeError>)
        ensures
            press_buttons_does(*old(self), *final(self), params@, nds::shown(r)),
    {
        let held = plan_input(params)?;
        if held.mask == 0 {
            return Err(
                NdsBridgeError::BadParams("press_buttons requires at least one button".to_owned()),
            );
        }
        let given: u64 = match support::optional_num(params, "frames")? {
            Some(n) => n,
            None => 1,
        };
        let frames: u64 = if given == 0 {
            1
        } else {
            given
        };
        if frames > MAX_SYNC_TIMED_INPUT_FRAMES {
            let m = text::join(
                "NDS synchronous press_buttons supports at most ",
                text::decimal_of(MAX_SYNC_TIMED_INPUT_FRAMES).as_str(),
            );
            return Err(
                NdsBridgeError::BadParams(
                    text::join(
                        m.as_str(),
                        " frames; use set_input plus an explicit set_input([]) release for a longer hold",
                    ),
                ),
            );
        }
        let request = TimedRequest {
            packet: commands::input_text(held.mask, Some(frames)),
            trouble: "input injection failed: ",
            release: commands::input_text(0, None),
            release_trouble: "input injection failed: ",
            query: "qEmucap,inputstatus",
            frames,
        };
        let end = self.timed_input(&request)?;
        Ok(
            add_end(
                status_of_end(end).with("buttons", Json::texts(held.names.as_slice())),
                frames,
                end,
            ),
        )
    }

    fn tap(&mut self, x: u64, y: u64, frames: u64) -> (r: Result<Json, NdsBridgeError>)
        ensures
            bridge::settles(
                *old(self),
                *final(self),
                timed_on(final(self).wires(), old(self).cores(), touch_input(x, y, frames)),
                |end: TimedOverrideTerminal|
                    Ok(
                        with_end(
                            end_status(end).with("x"@, JsonView::Unsigned(x)).with(
                                "y"@,
                                JsonView::Unsigned(y),
                            ),
                            frames,
                            end,
                        ),
                    ),
                nds::shown(r),
            ),
    {
        let request = TimedRequest {
            packet: commands::touch_text(x, y, Some(frames)),
            trouble: "touch injection failed: ",
            release: "QEmucap,touch:release".to_owned(),
            release_trouble: "touch release failed: ",
            query: "qEmucap,touchstatus",
            frames,
        };
        let end = self.timed_input(&request)?;
        Ok(
            add_end(
                status_of_end(end).with("x", Json::Unsigned(x)).with("y", Json::Unsigned(y)),
                frames,
                end,
            ),
        )
    }

    /// Touches the screen, lifts the touch, or taps for some frames.
    pub fn touch(&mut self, params: &Json) -> (r: Result<Json, NdsBridgeError>)
        ensures
            touch_does(*old(self), *final(self), params@, nds::shown(r)),
    {
        support::require_input_port_zero(params)?;
        if let Some(true) = params.get_bool("release") {
            let sent = self.arm9.send_touch_release();
            proof {
                bridge::wires_stay(self.wires());
            }
            sent?;
            return Ok(
                Json::object().with("released", Json::Bool(true)).with(
                    "cpu",
                    Json::text("arm9"),
                ).with("override_engaged", Json::Bool(false)),
            );
        }
        let x: u64 = match support::optional_num(params, "x")? {
            Some(x) => x,
            None => {
                return Err(NdsBridgeError::BadParams("touch requires x (0-255)".to_owned()));
            },
        };
        let y: u64 = match support::optional_num(params, "y")? {
            Some(y) => y,
            None => {
                return Err(NdsBridgeError::BadParams("touch requires y (0-191)".to_owned()));
            },
        };
        if x > 255 || y > 191 {
            let m = text::join(
                "touch out of range: x 0-255, y 0-191 (got x=",
                text::decimal_of(x).as_str(),
            );
            let m = text::join(m.as_str(), ", y=");
            let m = text::join(m.as_str(), text::decimal_of(y).as_str());
            return Err(NdsBridgeError::BadParams(text::join(m.as_str(), ")")));
        }
        match support::optional_num(params, "frames")? {
            Some(frames) => {
                if frames == 0 || frames > MAX_SYNC_TIMED_INPUT_FRAMES {
                    let m = text::join(
                        "NDS timed touch frames must be 1..=",
                        text::decimal_of(MAX_SYNC_TIMED_INPUT_FRAMES).as_str(),
                    );
                    return Err(
                        NdsBridgeError::BadParams(
                            text::join(m.as_str(), "; omit frames for a persistent hold"),
                        ),
                    );
                }
                self.tap(x, y, frames)
            },
            None => {
                let sent = self.arm9.send_touch(x, y, None);
                proof {
                    bridge::wires_stay(self.wires());
                }
                sent?;
                Ok(
                    Json::object().with("x", Json::Unsigned(x)).with("y", Json::Unsigned(y)).with(
                        "frames",
                        Json::Null,
                    ).with("cpu", Json::text("arm9")).with("override_engaged", Json::Bool(true)),
                )
            },
        }
    }

    fn state_file(&mut self, params: &Json, load: bool) -> (r: Result<Json, NdsBridgeError>)
        ensures
            state_does(*old(self), *final(self), params@, load, nds::shown(r)),
    {
        let path = support::required_str(params, "path")?;
        let done = self.arm9.savestate(path.as_str(), load);
        proof {
            bridge::wires_stay(self.wires());
        }
        done?;
        Ok(
            Json::object().with("path", Json::text(path.as_str())).with(
                "status",
                Json::text("completed"),
            ),
        )
    }

    /// Saves a state.
    pub fn save_state(&mut self, params: &Json) -> (r: Result<Json, NdsBridgeError>)
        ensures
            state_does(*old(self), *final(self), params@, false, nds::shown(r)),
    {
        self.state_file(params, false)
    }

    /// Loads a state.
    pub fn load_state(&mut self, params: &Json) -> (r: Result<Json, NdsBridgeError>)
        ensures
            state_does(*old(self), *final(self), params@, true, nds::shown(r)),
    {
        self.state_file(params, true)
    }

    /// Takes a picture of both screens.
    pub fn screenshot(&mut self) -> (r: Result<Json, NdsBridgeError>)
        ensures
            screenshot_does(*old(self), *final(self), nds::shown(r)),
    {
        let taken = self.arm9.screenshot_b64();
        proof {
            bridge::wires_stay(self.wires());
        }
        let reply = taken?;
        describe_picture(reply.as_str())
    }
}

} // verus!
