//! The exact rendered-frame barrier: the emulation thread stops in its frame callback until the
//! controlling thread lets it go on. A lock around the barrier and the waking of waiters are the
//! caller's.

use vstd::prelude::*;
use crate::n64;
use crate::n64::{N64Error, N64ErrorView};
use crate::text;

verus! {

/// Which frame callback an armed barrier stops.
#[derive(Clone, Copy, Debug, PartialEq, Eq, Structural)]
pub enum FrameGateTrigger {
    NextFrame,
    ScreenshotCompleted,
}

/// The state that the two threads share.
#[derive(Clone, Copy, Debug, PartialEq, Eq, Structural)]
pub struct FrameGate {
    pub arm_next: bool,
    pub trigger: FrameGateTrigger,
    pub blocked: bool,
    pub shutdown: bool,
    pub frame: u64,
    pub debug_update: u64,
}

/// What a waiting thread learns from a look at the barrier.
#[derive(Debug)]
pub enum FrameWaitOutcome {
    Frame(u64),
    DebugUpdate(u64),
    Waiting,
    TimedOut(N64Error),
}

impl FrameGate {
    /// The barrier without an armed callback.
    pub open spec fn disarmed(self) -> FrameGate {
        FrameGate { arm_next: false, trigger: FrameGateTrigger::NextFrame, ..self }
    }

    /// Whether a callback stops at the barrier.
    pub open spec fn stops(self, screenshot_done: bool) -> bool {
        self.arm_next && !self.shutdown && (self.trigger is NextFrame || screenshot_done)
    }

    /// The barrier after a frame callback: a callback that stops takes the arming with it and shows
    /// the number of completed frames.
    pub open spec fn after_frame(self, frame: u32, screenshot_done: bool) -> FrameGate {
        if self.stops(screenshot_done) {
            FrameGate { blocked: true, frame: (frame + 1) as u64, ..self.disarmed() }
        } else {
            self
        }
    }

    /// The open barrier of a new session.
    pub fn new() -> (r: FrameGate)
        ensures
            r == (FrameGate {
                arm_next: false,
                trigger: FrameGateTrigger::NextFrame,
                blocked: false,
                shutdown: false,
                frame: 0,
                debug_update: 0,
            }),
    {
        FrameGate {
            arm_next: false,
            trigger: FrameGateTrigger::NextFrame,
            blocked: false,
            shutdown: false,
            frame: 0,
            debug_update: 0,
        }
    }

    /// Arms the barrier for a coming callback. A barrier that still holds the previous callback can be
    /// armed for the next one.
    pub fn arm(&mut self, trigger: FrameGateTrigger) -> (r: Result<(), N64Error>)
        ensures
            n64::gives(
                r,
                if old(self).shutdown {
                    n64::bad_state("N64 frame gate is shutting down"@)
                } else if old(self).arm_next {
                    n64::bad_state("N64 frame gate is already armed"@)
                } else {
                    Ok(())
                },
            ),
            *final(self) == (if r is Ok {
                FrameGate { arm_next: true, trigger, ..*old(self) }
            } else {
                *old(self)
            }),
    {
        if self.shutdown {
            return Err(N64Error::BadState("N64 frame gate is shutting down".to_owned()));
        }
        if self.arm_next {
            return Err(N64Error::BadState("N64 frame gate is already armed".to_owned()));
        }
        self.arm_next = true;
        self.trigger = trigger;
        Ok(())
    }

    /// One look of a thread that waits for a stopped callback or a debugger update later than the
    /// given one. When the time is over, or the session ends, the barrier is disarmed.
    pub fn poll(&mut self, after_debug_update: u64, expired: bool) -> (r: FrameWaitOutcome)
        ensures
            if old(self).blocked {
                r == FrameWaitOutcome::Frame(old(self).frame) && *final(self) == *old(self)
            } else if old(self).debug_update > after_debug_update {
                r == FrameWaitOutcome::DebugUpdate(old(self).debug_update) && *final(self) == *old(
                    self,
                )
            } else if expired || old(self).shutdown {
                &&& r matches FrameWaitOutcome::TimedOut(e) && e@ == N64ErrorView::Timeout(
                    "exact frame callback barrier"@,
                )
                &&& *final(self) == old(self).disarmed()
            } else {
                r == FrameWaitOutcome::Waiting && *final(self) == *old(self)
            },
    {
        if self.blocked {
            return FrameWaitOutcome::Frame(self.frame);
        }
        if self.debug_update > after_debug_update {
            return FrameWaitOutcome::DebugUpdate(self.debug_update);
        }
        if expired || self.shutdown {
            self.arm_next = false;
            self.trigger = FrameGateTrigger::NextFrame;
            return FrameWaitOutcome::TimedOut(
                N64Error::Timeout("exact frame callback barrier".to_owned()),
            );
        }
        FrameWaitOutcome::Waiting
    }

    /// Lets the stopped callback go on, and gives its frame.
    pub fn release(&mut self) -> (r: Result<u64, N64Error>)
        ensures
            n64::gives(
                r,
                if old(self).blocked {
                    Ok(old(self).frame)
                } else {
                    n64::bad_state("N64 frame barrier is not currently frozen"@)
                },
            ),
            *final(self) == (FrameGate { blocked: false, ..*old(self) }),
    {
        if !self.blocked {
            return Err(N64Error::BadState("N64 frame barrier is not currently frozen".to_owned()));
        }
        self.blocked = false;
        Ok(self.frame)
    }

    /// Whether a callback is stopped.
    pub fn is_blocked(&self) -> (r: bool)
        ensures
            r == self.blocked,
    {
        self.blocked
    }

    /// Whether a stopped callback has to go on waiting.
    pub fn holds_callback(&self) -> (r: bool)
        ensures
            r == (self.blocked && !self.shutdown),
    {
        self.blocked && !self.shutdown
    }

    /// Disarms the barrier and lets a stopped callback go on.
    pub fn cancel(&mut self)
        ensures
            *final(self) == (FrameGate { blocked: false, ..old(self).disarmed() }),
    {
        self.arm_next = false;
        self.trigger = FrameGateTrigger::NextFrame;
        self.blocked = false;
    }

    /// Brings the barrier back to the state of a new session.
    pub fn reset(&mut self)
        ensures
            *final(self) == (FrameGate {
                arm_next: false,
                trigger: FrameGateTrigger::NextFrame,
                blocked: false,
                shutdown: false,
                frame: 0,
                debug_update: 0,
            }),
    {
        self.arm_next = false;
        self.trigger = FrameGateTrigger::NextFrame;
        self.blocked = false;
        self.shutdown = false;
        self.frame = 0;
        self.debug_update = 0;
    }

    /// Tells of a debugger update.
    pub fn notify_debug_update(&mut self, update: u64)
        ensures
            *final(self) == (FrameGate { debug_update: update, ..*old(self) }),
    {
        self.debug_update = update;
    }

    /// Ends the session: nothing stops at the barrier any more.
    pub fn close(&mut self)
        ensures
            *final(self) == (FrameGate { blocked: false, shutdown: true, ..old(self).disarmed() }),
    {
        self.arm_next = false;
        self.trigger = FrameGateTrigger::NextFrame;
        self.blocked = false;
        self.shutdown = true;
    }

    /// A frame callback with the number of the frame, the first being zero, and whether a
    /// screenshot has been completed. Says whether the callback stops.
    pub fn on_frame(&mut self, frame: u32, screenshot_done: bool) -> (r: bool)
        ensures
            *final(self) == old(self).after_frame(frame, screenshot_done),
            r == old(self).stops(screenshot_done),
    {
        let reached = match self.trigger {
            FrameGateTrigger::NextFrame => true,
            FrameGateTrigger::ScreenshotCompleted => screenshot_done,
        };
        if self.arm_next && reached && !self.shutdown {
            self.arm_next = false;
            self.trigger = FrameGateTrigger::NextFrame;
            self.blocked = true;
            self.frame = frame as u64 + 1;
            true
        } else {
            false
        }
    }
}

/// One arming stops exactly one callback: the one that follows finds the barrier open.
pub proof fn arming_stops_one_callback(
    gate: FrameGate,
    first: u32,
    second: u32,
    done_first: bool,
    done_second: bool,
)
    requires
        gate.stops(done_first),
    ensures
        !gate.after_frame(first, done_first).stops(done_second),
        gate.after_frame(first, done_first).after_frame(second, done_second) == gate.after_frame(
            first,
            done_first,
        ),
{
}

/// A disarmed or closed barrier stops nothing.
pub proof fn disarmed_gate_stops_nothing(gate: FrameGate, frame: u32, screenshot_done: bool)
    ensures
        gate.disarmed().after_frame(frame, screenshot_done) == gate.disarmed(),
        gate.shutdown ==> gate.after_frame(frame, screenshot_done) == gate,
{
}

/// Whether an observed frame number is the one that a frame step or a screenshot waits for.
pub open spec fn observed_frame_check(
    trigger: FrameGateTrigger,
    verified: bool,
    before: u64,
    observed: u64,
) -> Result<(), N64ErrorView> {
    if trigger is NextFrame && verified && observed != before + 1 {
        n64::bad_state(
            (("N64 frame step mismatch: expected "@ + text::decimal(before + 1)) + ", observed "@)
                + text::decimal(observed as int),
        )
    } else if verified && observed <= before {
        n64::bad_state(
            (("N64 frame boundary did not advance: before "@ + text::decimal(before as int))
                + ", observed "@) + text::decimal(observed as int),
        )
    } else {
        Ok(())
    }
}

/// Checks an observed frame number: the next frame where the clock is known to be in step, and
/// any later one for a screenshot.
pub fn validate_observed_frame(
    trigger: FrameGateTrigger,
    observed_before_verified: bool,
    observed_before: u64,
    observed: u64,
) -> (r: Result<(), N64Error>)
    requires
        observed_before < u64::MAX,
    ensures
        n64::gives(
            r,
            observed_frame_check(trigger, observed_before_verified, observed_before, observed),
        ),
{
    if trigger == FrameGateTrigger::NextFrame && observed_before_verified && observed
        != observed_before + 1 {
        let m = text::join(
            "N64 frame step mismatch: expected ",
            text::decimal_of(observed_before + 1).as_str(),
        );
        let m = text::join(m.as_str(), ", observed ");
        let m = text::join(m.as_str(), text::decimal_of(observed).as_str());
        return Err(N64Error::BadState(m));
    }
    if observed_before_verified && observed <= observed_before {
        let m = text::join(
            "N64 frame boundary did not advance: before ",
            text::decimal_of(observed_before).as_str(),
        );
        let m = text::join(m.as_str(), ", observed ");
        let m = text::join(m.as_str(), text::decimal_of(observed).as_str());
        return Err(N64Error::BadState(m));
    }
    Ok(())
}

} // verus!
