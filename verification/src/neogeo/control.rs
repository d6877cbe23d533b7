//! Controlling the machine: freezing, stepping, input and reset.

use vstd::prelude::*;
use crate::gdb;
use crate::gdb::{GdbStep, GdbTransport};
use crate::json;
use crate::json::{Json, JsonView};
use crate::live::temporal::NANOS_PER_MS;
use crate::neogeo;
use crate::neogeo::hits;
use crate::neogeo::machine;
use crate::neogeo::machine::{BreakpointView, MachineView, NeoGeoArmState, NeoGeoBridge, Run};
use crate::neogeo::packets;
use crate::neogeo::params;
use crate::neogeo::{
    BridgeError,
    BridgeErrorView,
    FRAME_OPERATION_BUDGET_MS,
    FRAME_OPERATION_STARTUP_MS,
    MAX_DRAINED_PACKETS,
    MAX_INPUT_FRAMES,
};
use crate::text;

verus! {

/// Freezing the machine.
pub open spec fn pause_run(h: Seq<GdbStep>, n: int, s: MachineView, params: JsonView) -> Run<
    JsonView,
> {
    match params::cpu_check(params) {
        Err(e) => Some((n, s, Err(e))),
        Ok(()) => match hits::drain_run(h, n, s, MAX_DRAINED_PACKETS as nat) {
            None => None,
            Some((m, t, Err(e))) => Some((m, t, Err(e))),
            Some((m, t, Ok(()))) => if t.frozen {
                framed_run(h, m, t)
            } else {
                match machine::interrupted_run(h, m, t) {
                    None => None,
                    Some((k, u, Err(e))) => Some((k, u, Err(e))),
                    Some((k, u, Ok(reply))) => if gdb::is_stop(reply) {
                        framed_run(h, k, MachineView { frozen: true, ..u })
                    } else {
                        Some(
                            (
                                k,
                                u,
                                neogeo::fault(
                                    "MAME pause did not return a stop packet: "@ + reply,
                                ),
                            ),
                        )
                    },
                }
            },
        },
    }
}

/// Telling that the machine is frozen, and its frame.
pub open spec fn framed_run(h: Seq<GdbStep>, n: int, s: MachineView) -> Run<JsonView> {
    match machine::frame_run(h, n, s) {
        None => None,
        Some((m, t, Err(e))) => Some((m, t, Err(e))),
        Some((m, t, Ok(frame))) => Some(
            (
                m,
                t,
                Ok(
                    JsonView::object().with("state"@, JsonView::Str("frozen"@)).with(
                        "frame"@,
                        JsonView::Unsigned(frame),
                    ),
                ),
            ),
        ),
    }
}

/// Setting the machine running.
pub open spec fn resume_run(h: Seq<GdbStep>, n: int, s: MachineView, params: JsonView) -> Run<
    JsonView,
> {
    let report = JsonView::object().with("state"@, JsonView::Str("running"@));
    match params::cpu_check(params) {
        Err(e) => Some((n, s, Err(e))),
        Ok(()) => match hits::drain_run(h, n, s, MAX_DRAINED_PACKETS as nat) {
            None => None,
            Some((m, t, Err(e))) => Some((m, t, Err(e))),
            Some((m, t, Ok(()))) => if !t.frozen {
                Some((m, t, Ok(report)))
            } else {
                match machine::told_run(h, m, t, "c"@) {
                    None => None,
                    Some((k, u, Err(e))) => Some((k, u, Err(e))),
                    Some((k, u, Ok(()))) => Some(
                        (k, MachineView { frozen: false, ..u }, Ok(report)),
                    ),
                }
            },
        },
    }
}

/// At least one.
pub open spec fn at_least_one(n: Option<u64>) -> u64 {
    match n {
        Some(n) => if n == 0 {
            1
        } else {
            n
        },
        None => 1,
    }
}

/// A count by the first of two names, at least one. Both have to be numbers where they are there.
pub open spec fn count_of(params: JsonView, first: Seq<char>, second: Seq<char>) -> Result<
    u64,
    BridgeErrorView,
> {
    match params::optional(params, first) {
        Err(e) => Err(e),
        Ok(a) => match params::optional(params, second) {
            Err(e) => Err(e),
            Ok(b) => Ok(
                at_least_one(
                    if a is Some {
                        a
                    } else {
                        b
                    },
                ),
            ),
        },
    }
}

fn read_count(params: &Json, first: &str, second: &str) -> (r: Result<u64, BridgeError>)
    ensures
        neogeo::plain(r) == count_of(params@, first@, second@),
{
    let a = params::optional_num(params, first)?;
    let b = params::optional_num(params, second)?;
    let told = match a {
        Some(n) => Some(n),
        None => b,
    };
    match told {
        Some(n) => Ok(
            if n == 0 {
                1
            } else {
                n
            },
        ),
        None => Ok(1),
    }
}

/// The report of an operation that a breakpoint ended.
pub open spec fn interruption(event: JsonView) -> JsonView {
    JsonView::object().with("status"@, JsonView::Str("interrupted"@)).with(
        "reason"@,
        JsonView::Str("breakpoint"@),
    ).with("breakpoint_id"@, event.at("id"@)).with("event"@, event)
}

fn describe_interruption(event: Json) -> (r: Json)
    ensures
        r@ == interruption(event@),
{
    let id = event.at("id");
    Json::object().with("status", Json::text("interrupted")).with(
        "reason",
        Json::text("breakpoint"),
    ).with("breakpoint_id", id).with("event", event)
}

/// Stepping instructions, as long as some are left.
pub open spec fn steps_run(h: Seq<GdbStep>, n: int, s: MachineView, count: u64, left: nat) -> Run<
    JsonView,
>
    decreases left,
{
    if left == 0 {
        Some(
            (
                n,
                s,
                Ok(
                    JsonView::object().with("status"@, JsonView::Str("completed"@)).with(
                        "unit"@,
                        JsonView::Str("instructions"@),
                    ).with("count"@, JsonView::Unsigned(count)).with(
                        "state"@,
                        JsonView::Str("frozen"@),
                    ),
                ),
            ),
        )
    } else {
        match machine::sent_run(h, n, s, "s"@) {
            None => None,
            Some((m, t, Err(e))) => Some((m, t, Err(e))),
            Some((m, t, Ok(reply))) => if packets::is_hit(reply) {
                match hits::record_run(h, m, t, reply) {
                    None => None,
                    Some((k, u, Err(e))) => Some((k, u, Err(e))),
                    Some((k, u, Ok(event))) => Some(
                        (
                            k,
                            u,
                            Ok(interruption(event).with("state"@, JsonView::Str("frozen"@))),
                        ),
                    ),
                }
            } else if !gdb::is_stop(reply) {
                Some((m, t, neogeo::fault("MAME instruction step did not stop: "@ + reply)))
            } else {
                steps_run(h, m, t, count, (left - 1) as nat)
            },
        }
    }
}

/// Stepping instructions.
pub open spec fn instruction_run(h: Seq<GdbStep>, n: int, s: MachineView, count: u64) -> Run<
    JsonView,
> {
    match machine::frozen_check(s, "instruction step"@) {
        Err(e) => Some((n, s, Err(e))),
        Ok(()) => steps_run(h, n, s, count, count as nat),
    }
}

/// What a frame operation is called.
pub open spec fn frame_verb(stop_on_done: bool) -> Seq<char> {
    if stop_on_done {
        "framestep"@
    } else {
        "runframes"@
    }
}

/// The time that a frame operation is given, in nanoseconds.
pub open spec fn frame_timeout(count: u64) -> u64 {
    ((FRAME_OPERATION_STARTUP_MS + count * FRAME_OPERATION_BUDGET_MS) * NANOS_PER_MS) as u64
}

/// How far the frame counter went on, where it did not go back.
pub open spec fn frame_delta(before: u64, after: u64) -> Option<u64> {
    if before <= after {
        Some((after - before) as u64)
    } else {
        None
    }
}

/// A difference of frames in words.
pub open spec fn delta_text(delta: Option<u64>) -> Seq<char> {
    match delta {
        Some(n) => ("Some("@ + text::decimal(n as int)) + ")"@,
        None => "None"@,
    }
}

/// What a number that may be missing is as a value.
pub open spec fn delta_value(delta: Option<u64>) -> JsonView {
    match delta {
        Some(n) => JsonView::Unsigned(n),
        None => JsonView::Null,
    }
}

/// What the machine is called by whether it is frozen.
pub open spec fn state_name(frozen: bool) -> Seq<char> {
    if frozen {
        "frozen"@
    } else {
        "running"@
    }
}

/// The report of a frame operation.
pub open spec fn frame_report(count: u64, before: u64, after: u64, stop_on_done: bool) -> JsonView {
    let delta = frame_delta(before, after);
    JsonView::object().with("status"@, JsonView::Str("completed"@)).with(
        "unit"@,
        JsonView::Str("frames"@),
    ).with("count"@, JsonView::Unsigned(count)).with(
        "frames_observed_min"@,
        JsonView::Unsigned(count),
    ).with("frame_before"@, JsonView::Unsigned(before)).with(
        "frame"@,
        JsonView::Unsigned(after),
    ).with("frame_counter_delta"@, delta_value(delta)).with(
        "frame_counter_continuous"@,
        JsonView::Bool(delta is Some),
    ).with("state"@, JsonView::Str(state_name(stop_on_done)))
}

/// The end of a frame operation that the machine acknowledged.
pub open spec fn frame_end_run(
    h: Seq<GdbStep>,
    n: int,
    s: MachineView,
    count: u64,
    stop_on_done: bool,
    before: u64,
) -> Run<JsonView> {
    match machine::frame_run(h, n, MachineView { frozen: stop_on_done, ..s }) {
        None => None,
        Some((m, t, Err(e))) => Some((m, t, Err(e))),
        Some((m, t, Ok(after))) => if stop_on_done && frame_delta(before, after) != Some(count) {
            Some(
                (
                    m,
                    MachineView { frozen: true, ..t },
                    neogeo::fault(
                        (("Neo Geo exact frame step completed with screen-frame delta "@
                            + delta_text(frame_delta(before, after))) + ", expected "@)
                            + text::decimal(count as int),
                    ),
                ),
            )
        } else {
            Some((m, t, Ok(frame_report(count, before, after, stop_on_done))))
        },
    }
}

/// What a frame operation comes to after its reply.
pub open spec fn frame_reply_run(
    h: Seq<GdbStep>,
    n: int,
    s: MachineView,
    count: u64,
    stop_on_done: bool,
    before: u64,
    reply: Seq<char>,
) -> Run<JsonView> {
    if packets::is_hit(reply) {
        match hits::record_run(h, n, s, reply) {
            None => None,
            Some((m, t, Err(e))) => Some((m, t, Err(e))),
            Some((m, t, Ok(event))) => Some(
                (
                    m,
                    t,
                    Ok(
                        interruption(event).with("frame_before"@, JsonView::Unsigned(before)).with(
                            "state"@,
                            JsonView::Str("frozen"@),
                        ),
                    ),
                ),
            ),
        }
    } else if reply != "OK"@ {
        Some(
            (
                n,
                s,
                neogeo::fault((("MAME "@ + frame_verb(stop_on_done)) + " failed: "@) + reply),
            ),
        )
    } else {
        frame_end_run(h, n, s, count, stop_on_done, before)
    }
}

/// The message that a request asks for too many frames.
pub open spec fn too_many_frames(count: u64) -> Seq<char> {
    ((("Neo Geo frame count "@ + text::decimal(count as int)) + " exceeds the synchronous cap "@)
        + text::decimal(neogeo::max_frames()))
        + "; split the advance and verify each terminal response"@
}

/// Whether a frame operation can start.
pub open spec fn frame_check(s: MachineView, count: u64, stop_on_done: bool) -> Result<
    (),
    BridgeErrorView,
> {
    if stop_on_done && machine::frozen_check(s, "frame step"@) is Err {
        machine::frozen_check(s, "frame step"@)
    } else if count > neogeo::max_frames() {
        neogeo::bad(too_many_frames(count))
    } else {
        Ok(())
    }
}

/// Advancing frames. The machine ends frozen, or keeps running.
pub open spec fn frames_run(
    h: Seq<GdbStep>,
    n: int,
    s: MachineView,
    count: u64,
    stop_on_done: bool,
) -> Run<JsonView> {
    match hits::drain_run(h, n, s, MAX_DRAINED_PACKETS as nat) {
        None => None,
        Some((m, t, Err(e))) => Some((m, t, Err(e))),
        Some((m, t, Ok(()))) => match frame_check(t, count, stop_on_done) {
            Err(e) => Some((m, t, Err(e))),
            Ok(()) => match machine::frame_run(h, m, t) {
                None => None,
                Some((k, u, Err(e))) => Some((k, u, Err(e))),
                Some((k, u, Ok(before))) => match machine::timed_run(
                    h,
                    k,
                    u,
                    frame_verb(stop_on_done),
                    Some(text::decimal(count as int)),
                    frame_timeout(count),
                ) {
                    None => None,
                    Some((j, v, Err(e))) => Some((j, v, Err(e))),
                    Some((j, v, Ok(reply))) => frame_reply_run(
                        h,
                        j,
                        v,
                        count,
                        stop_on_done,
                        before,
                        reply,
                    ),
                },
            },
        },
    }
}

/// The unit that a step counts in.
pub open spec fn unit_of(params: JsonView) -> Seq<char> {
    match params.text_field("unit"@) {
        Some(unit) => unit,
        None => "frames"@,
    }
}

/// Stepping frames or instructions.
pub open spec fn step_run(h: Seq<GdbStep>, n: int, s: MachineView, params: JsonView) -> Run<
    JsonView,
> {
    match params::cpu_check(params) {
        Err(e) => Some((n, s, Err(e))),
        Ok(()) => match count_of(params, "count"@, "frames"@) {
            Err(e) => Some((n, s, Err(e))),
            Ok(count) => if unit_of(params) == "frames"@ {
                frames_run(h, n, s, count, true)
            } else if unit_of(params) == "instructions"@ {
                instruction_run(h, n, s, count)
            } else {
                Some(
                    (
                        n,
                        s,
                        neogeo::bad("unsupported Neo Geo step unit: "@ + unit_of(params)),
                    ),
                )
            },
        },
    }
}

/// Stepping instructions by a request.
pub open spec fn step_instructions_run(
    h: Seq<GdbStep>,
    n: int,
    s: MachineView,
    params: JsonView,
) -> Run<JsonView> {
    match params::cpu_check(params) {
        Err(e) => Some((n, s, Err(e))),
        Ok(()) => match count_of(params, "count"@, "frames"@) {
            Err(e) => Some((n, s, Err(e))),
            Ok(count) => instruction_run(h, n, s, count),
        },
    }
}

/// Letting frames run by a request.
pub open spec fn run_frames_run(h: Seq<GdbStep>, n: int, s: MachineView, params: JsonView) -> Run<
    JsonView,
> {
    match count_of(params, "n"@, "frames"@) {
        Err(e) => Some((n, s, Err(e))),
        Ok(count) => frames_run(h, n, s, count, false),
    }
}

/// Holding buttons until told otherwise.
pub open spec fn set_input_run(h: Seq<GdbStep>, n: int, s: MachineView, params: JsonView) -> Run<
    JsonView,
> {
    match params::port_check(params) {
        Err(e) => Some((n, s, Err(e))),
        Ok(()) => match params::buttons_of(s.profile, params.field("buttons"@)) {
            Err(e) => Some((n, s, Err(e))),
            Ok(buttons) => match machine::lua_run(
                h,
                n,
                s,
                "setinput"@,
                Some(text::joined(buttons, ","@)),
            ) {
                None => None,
                Some((m, t, Err(e))) => Some((m, t, Err(e))),
                Some((m, t, Ok(_))) => Some(
                    (
                        m,
                        t,
                        Ok(
                            JsonView::object().with("buttons"@, json::text_array(buttons)).with(
                                "mode"@,
                                JsonView::Str(
                                    if buttons.len() == 0 {
                                        "native"@
                                    } else {
                                        "persistent"@
                                    },
                                ),
                            ),
                        ),
                    ),
                ),
            },
        },
    }
}

/// The frames that a press lasts.
pub open spec fn press_frames(params: JsonView) -> Result<u64, BridgeErrorView> {
    match params::optional(params, "frames"@) {
        Err(e) => Err(e),
        Ok(told) => if at_least_one(told) > MAX_INPUT_FRAMES {
            neogeo::bad(
                ("Neo Geo press_buttons supports at most "@ + text::decimal(
                    MAX_INPUT_FRAMES as int,
                )) + " frames"@,
            )
        } else {
            Ok(at_least_one(told))
        },
    }
}

/// What a press comes to after its reply.
pub open spec fn press_reply_run(
    h: Seq<GdbStep>,
    n: int,
    s: MachineView,
    buttons: Seq<Seq<char>>,
    frames: u64,
    reply: Seq<char>,
) -> Run<JsonView> {
    if packets::is_hit(reply) {
        match hits::record_run(h, n, s, reply) {
            None => None,
            Some((m, t, Err(e))) => Some((m, t, Err(e))),
            Some((m, t, Ok(event))) => Some(
                (
                    m,
                    t,
                    Ok(
                        interruption(event).with("buttons"@, json::text_array(buttons)).with(
                            "frames"@,
                            JsonView::Unsigned(frames),
                        ).with("state"@, JsonView::Str("frozen"@)),
                    ),
                ),
            ),
        }
    } else if reply != "OK"@ {
        Some((n, s, neogeo::fault("MAME input pulse failed: "@ + reply)))
    } else {
        Some(
            (
                n,
                MachineView { frozen: false, ..s },
                Ok(
                    JsonView::object().with("status"@, JsonView::Str("completed"@)).with(
                        "buttons"@,
                        json::text_array(buttons),
                    ).with("frames"@, JsonView::Unsigned(frames)).with(
                        "state"@,
                        JsonView::Str("running"@),
                    ),
                ),
            ),
        )
    }
}

/// Pressing buttons for some frames.
pub open spec fn press_run(h: Seq<GdbStep>, n: int, s: MachineView, params: JsonView) -> Run<
    JsonView,
> {
    match params::port_check(params) {
        Err(e) => Some((n, s, Err(e))),
        Ok(()) => match hits::drain_run(h, n, s, MAX_DRAINED_PACKETS as nat) {
            None => None,
            Some((m, t, Err(e))) => Some((m, t, Err(e))),
            Some((m, t, Ok(()))) => match params::buttons_of(t.profile, params.field("buttons"@)) {
                Err(e) => Some((m, t, Err(e))),
                Ok(buttons) => match press_frames(params) {
                    Err(e) => Some((m, t, Err(e))),
                    Ok(frames) => match machine::lua_run(
                        h,
                        m,
                        t,
                        "press"@,
                        Some((text::decimal(frames as int) + ":"@) + text::joined(buttons, ","@)),
                    ) {
                        None => None,
                        Some((k, u, Err(e))) => Some((k, u, Err(e))),
                        Some((k, u, Ok(reply))) => press_reply_run(h, k, u, buttons, frames, reply),
                    },
                },
            },
        },
    }
}

/// The machine after a reset that could not be verified: no breakpoint counts as armed.
pub open spec fn all_failed(s: MachineView, reason: Seq<char>) -> MachineView {
    MachineView {
        bps: Seq::new(
            s.bps.len(),
            |i: int|
                BreakpointView {
                    backend_id: None,
                    armed: Err("reset could not verify native point: "@ + reason),
                    ..s.bps[i]
                },
        ),
        ..s
    }
}

/// The message that a reset was answered with another number than its own.
pub open spec fn wrong_reset(seq: u64, reply: Seq<char>) -> Seq<char> {
    (("MAME synchronous reset expected sequence "@ + text::decimal(seq as int)) + ", received "@)
        + reply
}

/// Resetting the machine.
pub open spec fn reset_run(h: Seq<GdbStep>, n: int, s: MachineView) -> Run<JsonView> {
    let seq = s.next_reset;
    if seq == u64::MAX {
        Some(
            (
                n,
                s,
                Err(BridgeErrorView::BadState("Neo Geo reset sequence is exhausted"@)),
            ),
        )
    } else {
        let begun = MachineView { next_reset: (seq + 1) as u64, ..s };
        match machine::lua_run(h, n, begun, "resetsync"@, Some(text::decimal(seq as int))) {
            None => None,
            Some((m, t, Err(e))) => Some((m, all_failed(t, e.sentence()), Err(e))),
            Some((m, t, Ok(reply))) => if reply != "OK:"@ + text::decimal(seq as int) {
                Some(
                    (
                        m,
                        all_failed(t, wrong_reset(seq, reply)),
                        neogeo::fault(wrong_reset(seq, reply)),
                    ),
                )
            } else {
                Some(
                    (
                        m,
                        MachineView { frozen: false, ..t },
                        Ok(
                            JsonView::object().with("status"@, JsonView::Str("completed"@)).with(
                                "reset"@,
                                JsonView::Str("completed"@),
                            ).with("state"@, JsonView::Str("running"@)).with(
                                "reset_seq"@,
                                JsonView::Unsigned(seq),
                            ),
                        ),
                    ),
                )
            },
        }
    }
}

/// Every reset that reaches the machine has a number of its own; one that fails leaves no
/// breakpoint counted as armed.
pub proof fn resets_are_numbered(h: Seq<GdbStep>, n: int, s: MachineView)
    requires
        s.next_reset < u64::MAX,
    ensures
        reset_run(h, n, s) matches Some((_, t, r)) ==> {
            &&& t.next_reset == s.next_reset + 1
            &&& t.bps.len() == s.bps.len()
            &&& r is Err ==> forall|i: int|
                0 <= i < t.bps.len() ==> (#[trigger] t.bps[i]).backend_id is None
                    && t.bps[i].armed is Err
        },
{
}

/// An exact frame step that is reported completed advanced the frame counter by exactly the count
/// and left the machine frozen.
pub proof fn completed_frame_steps_are_exact(
    h: Seq<GdbStep>,
    n: int,
    s: MachineView,
    count: u64,
    before: u64,
)
    ensures
        frame_end_run(h, n, s, count, true, before) matches Some((_, t, Ok(report))) ==> {
            &&& t.frozen
            &&& exists|after: u64|
                after == before + count && report == #[trigger] frame_report(
                    count,
                    before,
                    after,
                    true,
                )
        },
{
    if let Some((m, t, Ok(after))) = machine::frame_run(
        h,
        n,
        MachineView { frozen: true, ..s },
    ) {
        assert(frame_report(count, before, after, true) == frame_report(
            count,
            before,
            after,
            true,
        ));
    }
}

impl<G: GdbTransport> NeoGeoBridge<G> {
    fn framed(&mut self) -> (r: Result<Json, BridgeError>)
        ensures
            machine::went_on(*old(self), *final(self)),
            forall|h: Seq<GdbStep>|
                gdb::goes_on(final(self).gdb.history(), h) ==> #[trigger] framed_run(
                    h,
                    old(self).gdb.history().len() as int,
                    old(self)@,
                ) == Some((final(self).gdb.history().len() as int, final(self)@, neogeo::shown(r))),
    {
        let frame: u64 = self.current_frame()?;
        Ok(Json::object().with("state", Json::text("frozen")).with("frame", Json::Unsigned(frame)))
    }

    /// Freezes the machine.
    pub fn pause(&mut self, params: &Json) -> (r: Result<Json, BridgeError>)
        ensures
            machine::settles(
                *old(self),
                *final(self),
                pause_run(
                    final(self).gdb.history(),
                    old(self).gdb.history().len() as int,
                    old(self)@,
                    params@,
                ),
                neogeo::shown(r),
            ),
    {
        broadcast use gdb::goes_on_further;

        params::require_main_cpu(params)?;
        self.drain_breakpoint_packets()?;
        if !self.frozen {
            let reply = self.interrupted()?;
            if !gdb::is_stop_packet(reply.as_str()) {
                return Err(
                    BridgeError::Emulator(
                        text::join("MAME pause did not return a stop packet: ", reply.as_str()),
                    ),
                );
            }
            self.frozen = true;
        }
        self.framed()
    }

    /// Sets the machine running.
    pub fn resume(&mut self, params: &Json) -> (r: Result<Json, BridgeError>)
        ensures
            machine::settles(
                *old(self),
                *final(self),
                resume_run(
                    final(self).gdb.history(),
                    old(self).gdb.history().len() as int,
                    old(self)@,
                    params@,
                ),
                neogeo::shown(r),
            ),
    {
        broadcast use gdb::goes_on_further;

        params::require_main_cpu(params)?;
        self.drain_breakpoint_packets()?;
        if self.frozen {
            self.told("c")?;
            self.frozen = false;
        }
        Ok(Json::object().with("state", Json::text("running")))
    }

    fn instruction_step(&mut self, count: u64) -> (r: Result<Json, BridgeError>)
        ensures
            machine::settles(
                *old(self),
                *final(self),
                instruction_run(
                    final(self).gdb.history(),
                    old(self).gdb.history().len() as int,
                    old(self)@,
                    count,
                ),
                neogeo::shown(r),
            ),
    {
        self.require_frozen("instruction step")?;
        let ghost n = self.gdb.history().len() as int;
        let ghost s = self@;
        let mut left: u64 = count;
        while left > 0
            invariant
                left <= count,
                n == old(self).gdb.history().len(),
                s == old(self)@,
                machine::frozen_check(s, "instruction step"@) is Ok,
                machine::went_on(*old(self), *self),
                forall|h: Seq<GdbStep>|
                    gdb::goes_on(self.gdb.history(), h) ==> #[trigger] steps_run(
                        h,
                        n,
                        s,
                        count,
                        count as nat,
                    ) == steps_run(h, self.gdb.history().len() as int, self@, count, left as nat),
            decreases left,
        {
            broadcast use gdb::goes_on_further;

            let reply = self.sent("s")?;
            if packets::is_breakpoint_stop(reply.as_str()) {
                let event = self.record_breakpoint_hit(reply.as_str())?;
                return Ok(describe_interruption(event).with("state", Json::text("frozen")));
            }
            if !gdb::is_stop_packet(reply.as_str()) {
                return Err(
                    BridgeError::Emulator(
                        text::join("MAME instruction step did not stop: ", reply.as_str()),
                    ),
                );
            }
            left -= 1;
        }
        Ok(
            Json::object().with("status", Json::text("completed")).with(
                "unit",
                Json::text("instructions"),
            ).with("count", Json::Unsigned(count)).with("state", Json::text("frozen")),
        )
    }

    fn finish_frames(&mut self, count: u64, stop_on_done: bool, before: u64) -> (r: Result<
        Json,
        BridgeError,
    >)
        ensures
            machine::went_on(*old(self), *final(self)),
            forall|h: Seq<GdbStep>|
                gdb::goes_on(final(self).gdb.history(), h) ==> #[trigger] frame_end_run(
                    h,
                    old(self).gdb.history().len() as int,
                    old(self)@,
                    count,
                    stop_on_done,
                    before,
                ) == Some((final(self).gdb.history().len() as int, final(self)@, neogeo::shown(r))),
    {
        self.frozen = stop_on_done;
        let after: u64 = self.current_frame()?;
        let delta: Option<u64> = if before <= after {
            Some(after - before)
        } else {
            None
        };
        let exact = match delta {
            Some(n) => n == count,
            None => false,
        };
        if stop_on_done && !exact {
            self.frozen = true;
            let shown = match delta {
                Some(n) => text::join(
                    text::join("Some(", text::decimal_of(n).as_str()).as_str(),
                    ")",
                ),
                None => "None".to_owned(),
            };
            let m = text::join(
                "Neo Geo exact frame step completed with screen-frame delta ",
                shown.as_str(),
            );
            let m = text::join(m.as_str(), ", expected ");
            return Err(
                BridgeError::Emulator(text::join(m.as_str(), text::decimal_of(count).as_str())),
            );
        }
        let value = match delta {
            Some(n) => Json::Unsigned(n),
            None => Json::Null,
        };
        let state = if stop_on_done {
            "frozen"
        } else {
            "running"
        };
        Ok(
            Json::object().with("status", Json::text("completed")).with(
                "unit",
                Json::text("frames"),
            ).with("count", Json::Unsigned(count)).with(
                "frames_observed_min",
                Json::Unsigned(count),
            ).with("frame_before", Json::Unsigned(before)).with(
                "frame",
                Json::Unsigned(after),
            ).with("frame_counter_delta", value).with(
                "frame_counter_continuous",
                Json::Bool(delta.is_some()),
            ).with("state", Json::text(state)),
        )
    }

    fn take_frame_reply(&mut self, count: u64, stop_on_done: bool, before: u64, reply: &str) -> (r:
        Result<Json, BridgeError>)
        ensures
            machine::went_on(*old(self), *final(self)),
            forall|h: Seq<GdbStep>|
                gdb::goes_on(final(self).gdb.history(), h) ==> #[trigger] frame_reply_run(
                    h,
                    old(self).gdb.history().len() as int,
                    old(self)@,
                    count,
                    stop_on_done,
                    before,
                    reply@,
                ) == Some((final(self).gdb.history().len() as int, final(self)@, neogeo::shown(r))),
    {
        if packets::is_breakpoint_stop(reply) {
            let event = self.record_breakpoint_hit(reply)?;
            return Ok(
                describe_interruption(event).with("frame_before", Json::Unsigned(before)).with(
                    "state",
                    Json::text("frozen"),
                ),
            );
        }
        if !text::same(reply, "OK") {
            let verb = if stop_on_done {
                "framestep"
            } else {
                "runframes"
            };
            let m = text::join("MAME ", verb);
            let m = text::join(m.as_str(), " failed: ");
            return Err(BridgeError::Emulator(text::join(m.as_str(), reply)));
        }
        self.finish_frames(count, stop_on_done, before)
    }

    fn frame_step(&mut self, count: u64, stop_on_done: bool) -> (r: Result<Json, BridgeError>)
        ensures
            machine::settles(
                *old(self),
                *final(self),
                frames_run(
                    final(self).gdb.history(),
                    old(self).gdb.history().len() as int,
                    old(self)@,
                    count,
                    stop_on_done,
                ),
                neogeo::shown(r),
            ),
    {
        broadcast use gdb::goes_on_further;

        self.drain_breakpoint_packets()?;
        if stop_on_done {
            self.require_frozen("frame step")?;
        }
        let most: u64 = neogeo::max_sync_frame_count();
        if count > most {
            let m = text::join("Neo Geo frame count ", text::decimal_of(count).as_str());
            let m = text::join(m.as_str(), " exceeds the synchronous cap ");
            let m = text::join(m.as_str(), text::decimal_of(most).as_str());
            return Err(
                BridgeError::BadParams(
                    text::join(
                        m.as_str(),
                        "; split the advance and verify each terminal response",
                    ),
                ),
            );
        }
        let before: u64 = self.current_frame()?;
        let verb = if stop_on_done {
            "framestep"
        } else {
            "runframes"
        };
        let timeout: u64 = (FRAME_OPERATION_STARTUP_MS + count * FRAME_OPERATION_BUDGET_MS)
            * NANOS_PER_MS;
        let told = text::decimal_of(count);
        let reply = self.timed_cmd(verb, Some(told.as_str()), timeout)?;
        self.take_frame_reply(count, stop_on_done, before, reply.as_str())
    }

    /// Steps frames or instructions.
    pub fn step(&mut self, params: &Json) -> (r: Result<Json, BridgeError>)
        ensures
            machine::settles(
                *old(self),
                *final(self),
                step_run(
                    final(self).gdb.history(),
                    old(self).gdb.history().len() as int,
                    old(self)@,
                    params@,
                ),
                neogeo::shown(r),
            ),
    {
        params::require_main_cpu(params)?;
        let count: u64 = read_count(params, "count", "frames")?;
        let unit = match params.get_str("unit") {
            Some(unit) => unit,
            None => "frames",
        };
        if text::same(unit, "frames") {
            self.frame_step(count, true)
        } else if text::same(unit, "instructions") {
            self.instruction_step(count)
        } else {
            Err(BridgeError::BadParams(text::join("unsupported Neo Geo step unit: ", unit)))
        }
    }

    /// Steps instructions.
    pub fn step_instructions(&mut self, params: &Json) -> (r: Result<Json, BridgeError>)
        ensures
            machine::settles(
                *old(self),
                *final(self),
                step_instructions_run(
                    final(self).gdb.history(),
                    old(self).gdb.history().len() as int,
                    old(self)@,
                    params@,
                ),
                neogeo::shown(r),
            ),
    {
        params::require_main_cpu(params)?;
        let count: u64 = read_count(params, "count", "frames")?;
        self.instruction_step(count)
    }

    /// Lets frames run.
    pub fn run_frames(&mut self, params: &Json) -> (r: Result<Json, BridgeError>)
        ensures
            machine::settles(
                *old(self),
                *final(self),
                run_frames_run(
                    final(self).gdb.history(),
                    old(self).gdb.history().len() as int,
                    old(self)@,
                    params@,
                ),
                neogeo::shown(r),
            ),
    {
        let count: u64 = read_count(params, "n", "frames")?;
        self.frame_step(count, false)
    }

    /// Holds buttons until told otherwise; none gives control back to the machine.
    pub fn set_input(&mut self, params: &Json) -> (r: Result<Json, BridgeError>)
        ensures
            machine::settles(
                *old(self),
                *final(self),
                set_input_run(
                    final(self).gdb.history(),
                    old(self).gdb.history().len() as int,
                    old(self)@,
                    params@,
                ),
                neogeo::shown(r),
            ),
    {
        params::require_port_zero(params)?;
        let buttons = params::normalize_buttons(self.profile, params.get("buttons"))?;
        let held = text::join_all(buttons.as_slice(), ",");
        self.lua_cmd("setinput", Some(held.as_str()))?;
        let mode = if buttons.len() == 0 {
            "native"
        } else {
            "persistent"
        };
        assert(text::text_views(buttons@).len() == buttons@.len());
        Ok(
            Json::object().with("buttons", Json::texts(buttons.as_slice())).with(
                "mode",
                Json::text(mode),
            ),
        )
    }

    fn take_press_reply(&mut self, buttons: &Vec<String>, frames: u64, reply: &str) -> (r: Result<
        Json,
        BridgeError,
    >)
        ensures
            machine::went_on(*old(self), *final(self)),
            forall|h: Seq<GdbStep>|
                gdb::goes_on(final(self).gdb.history(), h) ==> #[trigger] press_reply_run(
                    h,
                    old(self).gdb.history().len() as int,
                    old(self)@,
                    text::text_views(buttons@),
                    frames,
                    reply@,
                ) == Some((final(self).gdb.history().len() as int, final(self)@, neogeo::shown(r))),
    {
        if packets::is_breakpoint_stop(reply) {
            let event = self.record_breakpoint_hit(reply)?;
            return Ok(
                describe_interruption(event).with(
                    "buttons",
                    Json::texts(buttons.as_slice()),
                ).with("frames", Json::Unsigned(frames)).with("state", Json::text("frozen")),
            );
        }
        if !text::same(reply, "OK") {
            return Err(BridgeError::Emulator(text::join("MAME input pulse failed: ", reply)));
        }
        self.frozen = false;
        Ok(
            Json::object().with("status", Json::text("completed")).with(
                "buttons",
                Json::texts(buttons.as_slice()),
            ).with("frames", Json::Unsigned(frames)).with("state", Json::text("running")),
        )
    }

    /// Presses buttons for some frames.
    pub fn press_buttons(&mut self, params: &Json) -> (r: Result<Json, BridgeError>)
        ensures
            machine::settles(
                *old(self),
                *final(self),
                press_run(
                    final(self).gdb.history(),
                    old(self).gdb.history().len() as int,
                    old(self)@,
                    params@,
                ),
                neogeo::shown(r),
            ),
    {
        broadcast use gdb::goes_on_further;

        params::require_port_zero(params)?;
        self.drain_breakpoint_packets()?;
        let buttons = params::normalize_buttons(self.profile, params.get("buttons"))?;
        let frames: u64 = match params::optional_num(params, "frames")? {
            Some(n) => if n == 0 {
                1
            } else {
                n
            },
            None => 1,
        };
        if frames > MAX_INPUT_FRAMES {
            let m = text::join(
                "Neo Geo press_buttons supports at most ",
                text::decimal_of(MAX_INPUT_FRAMES).as_str(),
            );
            return Err(BridgeError::BadParams(text::join(m.as_str(), " frames")));
        }
        let m = text::join(text::decimal_of(frames).as_str(), ":");
        let told = text::join(m.as_str(), text::join_all(buttons.as_slice(), ",").as_str());
        let reply = self.lua_cmd("press", Some(told.as_str()))?;
        self.take_press_reply(&buttons, frames, reply.as_str())
    }

    fn fail_all_breakpoints_after_reset(&mut self, reason: &str)
        ensures
            machine::went_on(*old(self), *final(self)),
            final(self).gdb == old(self).gdb,
            final(self)@ == all_failed(old(self)@, reason@),
    {
        let ghost s = self@;
        let why = text::join("reset could not verify native point: ", reason);
        let total: usize = self.breakpoints.len();
        let mut i: usize = 0;
        while i < total
            invariant
                i <= total,
                total == self.breakpoints@.len(),
                total == s.bps.len(),
                s == old(self)@,
                why@ == "reset could not verify native point: "@ + reason@,
                self.gdb == old(self).gdb,
                self.env == old(self).env,
                self.system == old(self).system,
                self@ == (MachineView { bps: self@.bps, ..s }),
                forall|k: int|
                    0 <= k < i ==> #[trigger] self@.bps[k] == all_failed(s, reason@).bps[k],
                forall|k: int| i <= k < total ==> #[trigger] self@.bps[k] == s.bps[k],
            decreases total - i,
        {
            let ghost before = self@.bps;
            assert(before[i as int] == s.bps[i as int]);
            self.breakpoints[i].backend_id = None;
            self.breakpoints[i].arm_state = NeoGeoArmState::Failed(why.clone());
            assert(self@.bps =~= before.update(i as int, all_failed(s, reason@).bps[i as int]));
            i += 1;
        }
        assert(self@.bps =~= all_failed(s, reason@).bps);
    }

    /// Resets the machine.
    pub fn reset(&mut self) -> (r: Result<Json, BridgeError>)
        ensures
            machine::settles(
                *old(self),
                *final(self),
                reset_run(
                    final(self).gdb.history(),
                    old(self).gdb.history().len() as int,
                    old(self)@,
                ),
                neogeo::shown(r),
            ),
    {
        let seq: u64 = self.next_reset_seq;
        if seq == u64::MAX {
            return Err(BridgeError::BadState("Neo Geo reset sequence is exhausted".to_owned()));
        }
        self.next_reset_seq = seq + 1;
        let told = text::decimal_of(seq);
        let reply = match self.lua_cmd("resetsync", Some(told.as_str())) {
            Ok(reply) => reply,
            Err(error) => {
                self.fail_all_breakpoints_after_reset(error.message().as_str());
                return Err(error);
            },
        };
        let expected = text::join("OK:", told.as_str());
        if !text::same(reply.as_str(), expected.as_str()) {
            let m = text::join("MAME synchronous reset expected sequence ", told.as_str());
            let m = text::join(m.as_str(), ", received ");
            let message = text::join(m.as_str(), reply.as_str());
            self.fail_all_breakpoints_after_reset(message.as_str());
            return Err(BridgeError::Emulator(message));
        }
        self.frozen = false;
        Ok(
            Json::object().with("status", Json::text("completed")).with(
                "reset",
                Json::text("completed"),
            ).with("state", Json::text("running")).with("reset_seq", Json::Unsigned(seq)),
        )
    }
}

} // verus!
