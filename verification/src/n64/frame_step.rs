//! Stepping whole frames: arm the barrier, let the core run, and check the frame that arrives,
//! once for each frame. The machine says what to do next; the caller does it and tells what
//! came of it.

use vstd::prelude::*;
use crate::json::{Json, JsonView};
use crate::n64;
use crate::n64::frame;
use crate::n64::frame::FrameGateTrigger;
use crate::n64::lifecycle::HostState;
use crate::n64::params;
use crate::n64::{N64Error, N64ErrorView, MAX_STEP_COUNT};
use crate::text;

verus! {

/// Where a frame step stands.
#[derive(Debug)]
pub enum Phase {
    Sampling,
    Arming,
    Releasing,
    SettingRunState,
    Stepping,
    Waiting,
    Draining { update: u64 },
    Recovering { cause: N64Error },
    Reporting,
    Finished,
}

/// What a phase holds.
pub enum PhaseView {
    Sampling,
    Arming,
    Releasing,
    SettingRunState,
    Stepping,
    Waiting,
    Draining { update: u64 },
    Recovering { cause: N64ErrorView },
    Reporting,
    Finished,
}

impl View for Phase {
    type V = PhaseView;

    open spec fn view(&self) -> PhaseView {
        match *self {
            Phase::Sampling => PhaseView::Sampling,
            Phase::Arming => PhaseView::Arming,
            Phase::Releasing => PhaseView::Releasing,
            Phase::SettingRunState => PhaseView::SettingRunState,
            Phase::Stepping => PhaseView::Stepping,
            Phase::Waiting => PhaseView::Waiting,
            Phase::Draining { update } => PhaseView::Draining { update },
            Phase::Recovering { cause } => PhaseView::Recovering { cause: cause@ },
            Phase::Reporting => PhaseView::Reporting,
            Phase::Finished => PhaseView::Finished,
        }
    }
}

/// The numbers that a frame step carries from round to round.
#[derive(Clone, Copy, Debug, PartialEq, Eq, Structural)]
pub struct Progress {
    pub count: u64,
    pub index: u64,
    pub first_trigger: FrameGateTrigger,
    pub release_debugger_pause: bool,
    pub frame_before: u64,
    pub frame_before_verified: bool,
    pub current_frame: u64,
    pub continuing: bool,
    pub observed_before: u64,
    pub observed_before_verified: bool,
    pub debug_before: u64,
    pub trigger: FrameGateTrigger,
}

/// A frame step under way.
#[derive(Debug)]
pub struct FrameStep {
    pub progress: Progress,
    pub host: HostState,
    pub phase: Phase,
}

/// What a frame step under way holds.
pub struct FrameStepView {
    pub progress: Progress,
    pub host: HostState,
    pub phase: PhaseView,
}

impl View for FrameStep {
    type V = FrameStepView;

    open spec fn view(&self) -> FrameStepView {
        FrameStepView { progress: self.progress, host: self.host, phase: self.phase@ }
    }
}

/// What came of the last action.
#[derive(Debug)]
pub enum FrameEvent {
    /// The frame and debugger update counters.
    Sampled { frame_count: u64, update_count: u64 },
    Armed(Result<(), N64Error>),
    Released(Result<(), N64Error>),
    RunStateSet(i32),
    Stepped(i32),
    FrameSeen(u64),
    DebugUpdated(u64),
    WaitFailed(N64Error),
    Drained(Result<Option<Json>, N64Error>),
    Recovered(Result<(), N64Error>),
    Observed { pc: u32, vi_count: u64 },
}

/// What an event holds.
pub enum FrameEventView {
    Sampled { frame_count: u64, update_count: u64 },
    Armed(Result<(), N64ErrorView>),
    Released(Result<(), N64ErrorView>),
    RunStateSet(i32),
    Stepped(i32),
    FrameSeen(u64),
    DebugUpdated(u64),
    WaitFailed(N64ErrorView),
    Drained(Result<Option<JsonView>, N64ErrorView>),
    Recovered(Result<(), N64ErrorView>),
    Observed { pc: u32, vi_count: u64 },
}

/// What a plain result holds.
pub open spec fn unit_view(r: Result<(), N64Error>) -> Result<(), N64ErrorView> {
    match r {
        Ok(()) => Ok(()),
        Err(e) => Err(e@),
    }
}

/// What a drained update holds.
pub open spec fn drained_view(r: Result<Option<Json>, N64Error>) -> Result<
    Option<JsonView>,
    N64ErrorView,
> {
    match r {
        Ok(Some(event)) => Ok(Some(event@)),
        Ok(None) => Ok(None),
        Err(e) => Err(e@),
    }
}

impl View for FrameEvent {
    type V = FrameEventView;

    open spec fn view(&self) -> FrameEventView {
        match *self {
            FrameEvent::Sampled { frame_count, update_count } => FrameEventView::Sampled {
                frame_count,
                update_count,
            },
            FrameEvent::Armed(r) => FrameEventView::Armed(unit_view(r)),
            FrameEvent::Released(r) => FrameEventView::Released(unit_view(r)),
            FrameEvent::RunStateSet(code) => FrameEventView::RunStateSet(code),
            FrameEvent::Stepped(code) => FrameEventView::Stepped(code),
            FrameEvent::FrameSeen(frame) => FrameEventView::FrameSeen(frame),
            FrameEvent::DebugUpdated(update) => FrameEventView::DebugUpdated(update),
            FrameEvent::WaitFailed(e) => FrameEventView::WaitFailed(e@),
            FrameEvent::Drained(r) => FrameEventView::Drained(drained_view(r)),
            FrameEvent::Recovered(r) => FrameEventView::Recovered(unit_view(r)),
            FrameEvent::Observed { pc, vi_count } => FrameEventView::Observed { pc, vi_count },
        }
    }
}

/// What to do next.
#[derive(Debug)]
pub enum FrameAction {
    /// Read the frame and debugger update counters.
    Sample,
    /// Arm the frame gate.
    Arm(FrameGateTrigger),
    /// Let the stopped frame callback go on.
    Release,
    /// Set the debugger's run state to running.
    SetRunning,
    /// Let the debugger go on from its pause.
    DebugStep,
    /// Wait for the frame or for a debugger update after the given one.
    Await { after_update: u64 },
    /// Cancel the barrier and look at the debugger update.
    CancelAndDrain,
    /// Cancel the barrier and bring the machine back to a debugger boundary.
    Recover,
    /// Read the program counter and the vertical interrupt counter.
    Observe,
    /// Cancel the barrier, set the run state to paused, and report the result.
    Abandon(Result<Json, N64Error>),
    /// Report the result.
    Finish(Result<Json, N64Error>),
}

/// What an action holds.
pub enum FrameActionView {
    Sample,
    Arm(FrameGateTrigger),
    Release,
    SetRunning,
    DebugStep,
    Await { after_update: u64 },
    CancelAndDrain,
    Recover,
    Observe,
    Abandon(Result<JsonView, N64ErrorView>),
    Finish(Result<JsonView, N64ErrorView>),
}

/// What a report holds.
pub open spec fn report_view(r: Result<Json, N64Error>) -> Result<JsonView, N64ErrorView> {
    match r {
        Ok(v) => Ok(v@),
        Err(e) => Err(e@),
    }
}

impl View for FrameAction {
    type V = FrameActionView;

    open spec fn view(&self) -> FrameActionView {
        match *self {
            FrameAction::Sample => FrameActionView::Sample,
            FrameAction::Arm(trigger) => FrameActionView::Arm(trigger),
            FrameAction::Release => FrameActionView::Release,
            FrameAction::SetRunning => FrameActionView::SetRunning,
            FrameAction::DebugStep => FrameActionView::DebugStep,
            FrameAction::Await { after_update } => FrameActionView::Await { after_update },
            FrameAction::CancelAndDrain => FrameActionView::CancelAndDrain,
            FrameAction::Recover => FrameActionView::Recover,
            FrameAction::Observe => FrameActionView::Observe,
            FrameAction::Abandon(r) => FrameActionView::Abandon(report_view(r)),
            FrameAction::Finish(r) => FrameActionView::Finish(report_view(r)),
        }
    }
}

/// The count that a request asks for: `count`, else `frames`, else one. Both have to be numbers
/// where they are there.
pub open spec fn requested_count(params: JsonView) -> Result<u64, N64ErrorView> {
    match (params::optional(params, "count"@), params::optional(params, "frames"@)) {
        (Err(e), _) => Err(e),
        (_, Err(e)) => Err(e),
        (Ok(Some(n)), _) => Ok(n),
        (Ok(None), Ok(Some(n))) => Ok(n),
        (Ok(None), Ok(None)) => Ok(1),
    }
}

/// Whether a number of frames or instructions can be advanced by one request.
pub open spec fn count_check(count: u64, unit: Seq<char>) -> Result<u64, N64ErrorView> {
    if 1 <= count <= MAX_STEP_COUNT {
        Ok(count)
    } else {
        n64::bad_params(
            (((unit + " step count must be in 1..="@) + text::decimal(MAX_STEP_COUNT as int))
                + ", got "@) + text::decimal(count as int),
        )
    }
}

/// What a request for a frame step comes to, given whether the machine is frozen.
pub open spec fn begun(
    params: JsonView,
    first_trigger: FrameGateTrigger,
    host: HostState,
    frozen: Result<(), N64ErrorView>,
    frame_count: u64,
) -> Result<FrameStepView, N64ErrorView> {
    match (params::targets_r4300(params), frozen, requested_count(params)) {
        (Err(e), _, _) => Err(e),
        (_, Err(e), _) => Err(e),
        (_, _, Err(e)) => Err(e),
        (Ok(()), Ok(()), Ok(n)) => match count_check(n, "frame"@) {
            Err(e) => Err(e),
            Ok(count) => Ok(
                FrameStepView {
                    progress: Progress {
                        count,
                        index: 0,
                        first_trigger,
                        release_debugger_pause: !host.frame_paused,
                        frame_before: frame_count,
                        frame_before_verified: host.frame_clock_synchronized,
                        current_frame: frame_count,
                        continuing: host.frame_paused,
                        observed_before: frame_count,
                        observed_before_verified: host.frame_clock_synchronized,
                        debug_before: 0,
                        trigger: first_trigger,
                    },
                    host,
                    phase: PhaseView::Sampling,
                },
            ),
        },
    }
}

/// The report of a step that a breakpoint ended.
pub open spec fn interrupted(event: JsonView, unit: Seq<char>, completed: u64) -> JsonView {
    JsonView::object().with("status"@, JsonView::Str("interrupted"@)).with(
        "reason"@,
        JsonView::Str("breakpoint"@),
    ).with("breakpoint_id"@, event.at("id"@)).with("event"@, event).with(
        "unit"@,
        JsonView::Str(unit),
    ).with("completed"@, JsonView::Unsigned(completed)).with("state"@, JsonView::Str("frozen"@))
}

/// The report of a completed frame step.
pub open spec fn completed_report(p: Progress, pc: u32, vi_count: u64) -> JsonView {
    JsonView::object().with("status"@, JsonView::Str("completed"@)).with(
        "unit"@,
        JsonView::Str("frames"@),
    ).with("count"@, JsonView::Unsigned(p.count)).with("cpu"@, JsonView::Str("r4300"@)).with(
        "state"@,
        JsonView::Str("frozen"@),
    ).with("pc"@, JsonView::Unsigned(pc as u64)).with(
        "frame_before"@,
        JsonView::Unsigned(p.frame_before),
    ).with("frame"@, JsonView::Unsigned(p.current_frame)).with(
        "frame_before_verified"@,
        JsonView::Bool(p.frame_before_verified),
    ).with("vi_count"@, JsonView::Unsigned(vi_count))
}

/// The reason why an advance ended at an update that no breakpoint explains.
pub open spec fn unclassified(update: u64) -> N64ErrorView {
    N64ErrorView::BadState(
        "N64 frame advance was interrupted by unclassified debugger update "@ + text::decimal(
            update as int,
        ),
    )
}

impl FrameStepView {
    /// Whether an event is an answer to what the step waits for.
    pub open spec fn expects(self, event: FrameEventView) -> bool {
        match (self.phase, event) {
            (PhaseView::Sampling, FrameEventView::Sampled { frame_count, .. }) => frame_count
                < u64::MAX,
            (PhaseView::Arming, FrameEventView::Armed(_)) => true,
            (PhaseView::Releasing, FrameEventView::Released(_)) => true,
            (PhaseView::SettingRunState, FrameEventView::RunStateSet(_)) => true,
            (PhaseView::Stepping, FrameEventView::Stepped(_)) => true,
            (PhaseView::Waiting, FrameEventView::FrameSeen(_)) => true,
            (PhaseView::Waiting, FrameEventView::DebugUpdated(_)) => true,
            (PhaseView::Waiting, FrameEventView::WaitFailed(_)) => true,
            (PhaseView::Draining { .. }, FrameEventView::Drained(_)) => true,
            (PhaseView::Recovering { .. }, FrameEventView::Recovered(_)) => true,
            (PhaseView::Reporting, FrameEventView::Observed { .. }) => true,
            _ => false,
        }
    }

    /// The rounds are counted up to the requested number, and a finished count awaits its report.
    pub open spec fn wf(self) -> bool {
        &&& 1 <= self.progress.count <= MAX_STEP_COUNT
        &&& self.progress.index <= self.progress.count
        &&& self.phase is Reporting ==> self.progress.index == self.progress.count
        &&& self.phase !is Reporting && self.phase !is Finished ==> self.progress.index
            < self.progress.count
        &&& self.phase is Waiting ==> self.progress.observed_before < u64::MAX
        &&& self.phase is Arming || self.phase is Releasing || self.phase is SettingRunState
            || self.phase is Stepping ==> self.progress.observed_before < u64::MAX
    }

    /// The step in another phase, with what to do there.
    pub open spec fn goes(self, phase: PhaseView, action: FrameActionView) -> (
        FrameStepView,
        FrameActionView,
    ) {
        (FrameStepView { phase, ..self }, action)
    }

    /// The end of the step.
    pub open spec fn ends(self, result: Result<JsonView, N64ErrorView>) -> (
        FrameStepView,
        FrameActionView,
    ) {
        self.goes(PhaseView::Finished, FrameActionView::Finish(result))
    }

    /// What follows a failure: the machine is brought back to a boundary first.
    pub open spec fn recovers(self, cause: N64ErrorView) -> (FrameStepView, FrameActionView) {
        self.goes(PhaseView::Recovering { cause }, FrameActionView::Recover)
    }

    /// The step with other beliefs of the host.
    pub open spec fn believing(self, host: HostState) -> FrameStepView {
        FrameStepView { host, ..self }
    }

    /// What follows when no callback is stopped any more: the debugger's pause is released once,
    /// then the frame is awaited.
    pub open spec fn released(self) -> (FrameStepView, FrameActionView) {
        if self.progress.release_debugger_pause && !self.progress.continuing {
            self.goes(PhaseView::SettingRunState, FrameActionView::SetRunning)
        } else {
            self.goes(
                PhaseView::Waiting,
                FrameActionView::Await { after_update: self.progress.debug_before },
            )
        }
    }

    /// What follows a frame that passed its check.
    pub open spec fn accepted(self, observed: u64) -> (FrameStepView, FrameActionView) {
        let p = self.progress;
        let next = FrameStepView {
            progress: Progress {
                index: (p.index + 1) as u64,
                frame_before: if p.frame_before_verified {
                    p.frame_before
                } else if observed == 0 {
                    0
                } else {
                    (observed - 1) as u64
                },
                frame_before_verified: true,
                current_frame: observed,
                ..p
            },
            host: HostState { frame_clock_synchronized: true, frame_paused: true, ..self.host },
            ..self
        };
        if p.index + 1 == p.count {
            next.goes(PhaseView::Reporting, FrameActionView::Observe)
        } else {
            next.goes(PhaseView::Sampling, FrameActionView::Sample)
        }
    }

    /// The next state and action.
    pub open spec fn next(self, event: FrameEventView) -> (FrameStepView, FrameActionView) {
        let p = self.progress;
        let frozen_by_debugger = HostState { frozen: true, frame_paused: false, ..self.host };
        match event {
            FrameEventView::Sampled { frame_count, update_count } => {
                let trigger = if p.index == 0 {
                    p.first_trigger
                } else {
                    FrameGateTrigger::NextFrame
                };
                FrameStepView {
                    progress: Progress {
                        continuing: self.host.frame_paused,
                        observed_before: frame_count,
                        observed_before_verified: self.host.frame_clock_synchronized,
                        debug_before: update_count,
                        trigger,
                        ..p
                    },
                    ..self
                }.goes(PhaseView::Arming, FrameActionView::Arm(trigger))
            },
            FrameEventView::Armed(Err(e)) => self.ends(Err(e)),
            FrameEventView::Armed(Ok(())) => if self.host.frame_paused {
                self.goes(PhaseView::Releasing, FrameActionView::Release)
            } else {
                self.released()
            },
            FrameEventView::Released(Err(e)) => self.recovers(e),
            FrameEventView::Released(Ok(())) => self.believing(
                HostState { frame_paused: false, ..self.host },
            ).released(),
            FrameEventView::RunStateSet(code) => if code != 0 {
                self.ends(
                    Err(
                        N64ErrorView::Core {
                            operation: "DebugSetRunState(frame running)"@,
                            code,
                        },
                    ),
                )
            } else {
                self.goes(PhaseView::Stepping, FrameActionView::DebugStep)
            },
            FrameEventView::Stepped(code) => if code != 0 {
                self.goes(
                    PhaseView::Finished,
                    FrameActionView::Abandon(
                        Err(N64ErrorView::Core { operation: "DebugStep(frame release)"@, code }),
                    ),
                )
            } else {
                FrameStepView {
                    progress: Progress { release_debugger_pause: false, ..p },
                    ..self
                }.goes(
                    PhaseView::Waiting,
                    FrameActionView::Await { after_update: p.debug_before },
                )
            },
            FrameEventView::WaitFailed(e) => self.recovers(e),
            FrameEventView::DebugUpdated(update) => self.goes(
                PhaseView::Draining { update },
                FrameActionView::CancelAndDrain,
            ),
            FrameEventView::Drained(Err(e)) => self.believing(frozen_by_debugger).ends(Err(e)),
            FrameEventView::Drained(Ok(Some(hit))) => self.believing(frozen_by_debugger).ends(
                Ok(interrupted(hit, "frames"@, p.index)),
            ),
            FrameEventView::Drained(Ok(None)) => self.recovers(unclassified(self.phase->update)),
            FrameEventView::FrameSeen(observed) => match frame::observed_frame_check(
                p.trigger,
                p.observed_before_verified,
                p.observed_before,
                observed,
            ) {
                Err(e) => self.recovers(e),
                Ok(()) => self.accepted(observed),
            },
            FrameEventView::Recovered(Err(e)) => self.ends(Err(e)),
            FrameEventView::Recovered(Ok(())) => self.believing(frozen_by_debugger).ends(
                Err(self.phase->cause),
            ),
            FrameEventView::Observed { pc, vi_count } => self.believing(
                HostState { frozen: true, ..self.host },
            ).ends(Ok(completed_report(p, pc, vi_count))),
        }
    }
}

/// The step keeps its shape from event to event.
pub proof fn steps_stay_in_shape(step: FrameStepView, event: FrameEventView)
    requires
        step.wf(),
        step.expects(event),
    ensures
        step.next(event).0.wf(),
{
}

/// Whether the frame that the report shows is exactly as many frames on as rounds were done.
pub open spec fn exact(step: FrameStepView) -> bool {
    &&& step.progress.index > 0 ==> step.progress.frame_before_verified
        && step.host.frame_clock_synchronized
    &&& step.progress.frame_before_verified ==> step.progress.current_frame
        == step.progress.frame_before + step.progress.index
    &&& step.progress.frame_before_verified == step.host.frame_clock_synchronized
}

/// Plain frame steps are exact: where the counter stands still while the machine is frozen, each
/// accepted frame moves the report by one frame, so that a completed step of `count` frames
/// reports `frame == frame_before + count`.
pub proof fn frame_steps_are_exact(step: FrameStepView, event: FrameEventView)
    requires
        step.wf(),
        step.expects(event),
        step.progress.first_trigger is NextFrame,
        exact(step),
        step.phase !is Sampling && step.phase !is Reporting && step.phase !is Finished ==> {
            &&& step.progress.trigger is NextFrame
            &&& step.progress.observed_before == step.progress.current_frame
            &&& step.progress.observed_before_verified == step.host.frame_clock_synchronized
        },
        event matches FrameEventView::Sampled { frame_count, .. } ==> frame_count
            == step.progress.current_frame,
        event matches FrameEventView::FrameSeen(observed) ==> observed > 0,
    ensures
        exact(step.next(event).0),
        ({
            let after = step.next(event).0;
            after.phase !is Sampling && after.phase !is Reporting && after.phase !is Finished ==> {
                &&& after.progress.trigger is NextFrame
                &&& after.progress.observed_before == after.progress.current_frame
                &&& after.progress.observed_before_verified == after.host.frame_clock_synchronized
            }
        }),
        step.next(event).0.phase is Reporting ==> step.next(event).0.progress.current_frame
            == step.next(event).0.progress.frame_before + step.progress.count,
{
}

/// A step that ends leaves the host believing the machine frozen, unless the barrier could not be
/// armed, the core refused to run, or the recovery failed.
pub proof fn ended_step_is_frozen(step: FrameStepView, event: FrameEventView)
    requires
        step.wf(),
        step.expects(event),
        step.next(event).1 is Finish,
        !(event matches FrameEventView::Armed(_)),
        !(event matches FrameEventView::RunStateSet(_)),
        !(event matches FrameEventView::Recovered(Err(_))),
    ensures
        step.next(event).0.host.frozen,
{
}

fn finish(progress: Progress, host: HostState, result: Result<Json, N64Error>) -> (r: (
    FrameStep,
    FrameAction,
))
    ensures
        (r.0@, r.1@) == (
            FrameStepView { progress, host, phase: PhaseView::Finished },
            FrameActionView::Finish(report_view(result)),
        ),
{
    (FrameStep { progress, host, phase: Phase::Finished }, FrameAction::Finish(result))
}

fn recover(progress: Progress, host: HostState, cause: N64Error) -> (r: (FrameStep, FrameAction))
    ensures
        (r.0@, r.1@) == (
            FrameStepView { progress, host, phase: PhaseView::Recovering { cause: cause@ } },
            FrameActionView::Recover,
        ),
{
    (FrameStep { progress, host, phase: Phase::Recovering { cause } }, FrameAction::Recover)
}

fn after_release(progress: Progress, host: HostState) -> (r: (FrameStep, FrameAction))
    ensures
        (r.0@, r.1@) == (FrameStepView { progress, host, phase: PhaseView::Releasing }).released(),
{
    if progress.release_debugger_pause && !progress.continuing {
        (FrameStep { progress, host, phase: Phase::SettingRunState }, FrameAction::SetRunning)
    } else {
        (
            FrameStep { progress, host, phase: Phase::Waiting },
            FrameAction::Await { after_update: progress.debug_before },
        )
    }
}

/// Builds the report of a step that a breakpoint ended.
pub fn interruption(event: Json, unit: &str, completed: u64) -> (r: Json)
    ensures
        r@ == interrupted(event@, unit@, completed),
{
    let id = event.at("id");
    Json::object().with("status", Json::text("interrupted")).with(
        "reason",
        Json::text("breakpoint"),
    ).with("breakpoint_id", id).with("event", event).with("unit", Json::text(unit)).with(
        "completed",
        Json::Unsigned(completed),
    ).with("state", Json::text("frozen"))
}

/// Reads the count that a frame request asks for.
pub fn frame_count_of(params: &Json) -> (r: Result<u64, N64Error>)
    ensures
        n64::gives(r, requested_count(params@)),
{
    let count = params::optional_num(params, "count")?;
    let frames = params::optional_num(params, "frames")?;
    match count {
        Some(n) => Ok(n),
        None => match frames {
            Some(n) => Ok(n),
            None => Ok(1),
        },
    }
}

/// Refuses a count that one request cannot advance.
pub fn check_count(count: u64, unit: &str) -> (r: Result<u64, N64Error>)
    ensures
        n64::gives(r, count_check(count, unit@)),
{
    if 1 <= count && count <= MAX_STEP_COUNT {
        return Ok(count);
    }
    let m = text::join(unit, " step count must be in 1..=");
    let m = text::join(m.as_str(), text::decimal_of(MAX_STEP_COUNT).as_str());
    let m = text::join(m.as_str(), ", got ");
    let m = text::join(m.as_str(), text::decimal_of(count).as_str());
    Err(N64Error::BadParams(m))
}

impl FrameStep {
    /// Starts a frame step, or refuses the request. `frozen` is the answer of the frozen check,
    /// `frame_count` the counter of rendered frames. The first action is to sample the counters.
    pub fn begin(
        params: &Json,
        first_trigger: FrameGateTrigger,
        host: HostState,
        frozen: Result<(), N64Error>,
        frame_count: u64,
    ) -> (r: Result<FrameStep, N64Error>)
        ensures
            n64::gives_view(
                r,
                begun(params@, first_trigger, host, unit_view(frozen), frame_count),
            ),
            r matches Ok(step) ==> step@.wf(),
    {
        params::require_r4300(params)?;
        frozen?;
        let requested = frame_count_of(params)?;
        let count = check_count(requested, "frame")?;
        Ok(
            FrameStep {
                progress: Progress {
                    count,
                    index: 0,
                    first_trigger,
                    release_debugger_pause: !host.frame_paused,
                    frame_before: frame_count,
                    frame_before_verified: host.frame_clock_synchronized,
                    current_frame: frame_count,
                    continuing: host.frame_paused,
                    observed_before: frame_count,
                    observed_before_verified: host.frame_clock_synchronized,
                    debug_before: 0,
                    trigger: first_trigger,
                },
                host,
                phase: Phase::Sampling,
            },
        )
    }

    /// Takes in what came of the last action and says what to do next.
    pub fn advance(self, event: FrameEvent) -> (r: (FrameStep, FrameAction))
        requires
            self@.wf(),
            self@.expects(event@),
        ensures
            (r.0@, r.1@) == self@.next(event@),
            r.0@.wf(),
    {
        let ghost start = self@;
        let mut p = self.progress;
        let mut host = self.host;
        match event {
            FrameEvent::Sampled { frame_count, update_count } => {
                let trigger = if p.index == 0 {
                    p.first_trigger
                } else {
                    FrameGateTrigger::NextFrame
                };
                p.continuing = host.frame_paused;
                p.observed_before = frame_count;
                p.observed_before_verified = host.frame_clock_synchronized;
                p.debug_before = update_count;
                p.trigger = trigger;
                (FrameStep { progress: p, host, phase: Phase::Arming }, FrameAction::Arm(trigger))
            },
            FrameEvent::Armed(result) => match result {
                Err(error) => finish(p, host, Err(error)),
                Ok(()) => if host.frame_paused {
                    (
                        FrameStep { progress: p, host, phase: Phase::Releasing },
                        FrameAction::Release,
                    )
                } else {
                    after_release(p, host)
                },
            },
            FrameEvent::Released(result) => match result {
                Err(error) => recover(p, host, error),
                Ok(()) => {
                    host.frame_paused = false;
                    after_release(p, host)
                },
            },
            FrameEvent::RunStateSet(code) => if code != 0 {
                finish(
                    p,
                    host,
                    Err(
                        N64Error::Core {
                            operation: "DebugSetRunState(frame running)".to_owned(),
                            code,
                        },
                    ),
                )
            } else {
                (
                    FrameStep { progress: p, host, phase: Phase::Stepping },
                    FrameAction::DebugStep,
                )
            },
            FrameEvent::Stepped(code) => if code != 0 {
                (
                    FrameStep { progress: p, host, phase: Phase::Finished },
                    FrameAction::Abandon(
                        Err(
                            N64Error::Core {
                                operation: "DebugStep(frame release)".to_owned(),
                                code,
                            },
                        ),
                    ),
                )
            } else {
                p.release_debugger_pause = false;
                (
                    FrameStep { progress: p, host, phase: Phase::Waiting },
                    FrameAction::Await { after_update: p.debug_before },
                )
            },
            FrameEvent::WaitFailed(error) => recover(p, host, error),
            FrameEvent::DebugUpdated(update) => (
                FrameStep { progress: p, host, phase: Phase::Draining { update } },
                FrameAction::CancelAndDrain,
            ),
            FrameEvent::Drained(result) => match result {
                Err(error) => {
                    host.frozen = true;
                    host.frame_paused = false;
                    finish(p, host, Err(error))
                },
                Ok(Some(hit)) => {
                    host.frozen = true;
                    host.frame_paused = false;
                    finish(p, host, Ok(interruption(hit, "frames", p.index)))
                },
                Ok(None) => {
                    let update: u64 = match self.phase {
                        Phase::Draining { update } => update,
                        _ => 0,
                    };
                    recover(
                        p,
                        host,
                        N64Error::BadState(
                            text::join(
                                "N64 frame advance was interrupted by unclassified debugger update ",
                                text::decimal_of(update).as_str(),
                            ),
                        ),
                    )
                },
            },
            FrameEvent::FrameSeen(observed) => {
                match frame::validate_observed_frame(
                    p.trigger,
                    p.observed_before_verified,
                    p.observed_before,
                    observed,
                ) {
                    Err(error) => recover(p, host, error),
                    Ok(()) => {
                        if !p.frame_before_verified {
                            p.frame_before = observed.saturating_sub(1);
                            p.frame_before_verified = true;
                        }
                        host.frame_clock_synchronized = true;
                        p.current_frame = observed;
                        host.frame_paused = true;
                        p.index = p.index + 1;
                        if p.index == p.count {
                            (
                                FrameStep { progress: p, host, phase: Phase::Reporting },
                                FrameAction::Observe,
                            )
                        } else {
                            (
                                FrameStep { progress: p, host, phase: Phase::Sampling },
                                FrameAction::Sample,
                            )
                        }
                    },
                }
            },
            FrameEvent::Recovered(result) => match result {
                Err(error) => finish(p, host, Err(error)),
                Ok(()) => {
                    host.frozen = true;
                    host.frame_paused = false;
                    match self.phase {
                        Phase::Recovering { cause } => finish(p, host, Err(cause)),
                        _ => finish(p, host, Err(N64Error::BadState(String::new()))),
                    }
                },
            },
            FrameEvent::Observed { pc, vi_count } => {
                host.frozen = true;
                finish(
                    p,
                    host,
                    Ok(
                        Json::object().with("status", Json::text("completed")).with(
                            "unit",
                            Json::text("frames"),
                        ).with("count", Json::Unsigned(p.count)).with(
                            "cpu",
                            Json::text("r4300"),
                        ).with("state", Json::text("frozen")).with(
                            "pc",
                            Json::Unsigned(pc as u64),
                        ).with("frame_before", Json::Unsigned(p.frame_before)).with(
                            "frame",
                            Json::Unsigned(p.current_frame),
                        ).with("frame_before_verified", Json::Bool(p.frame_before_verified)).with(
                            "vi_count",
                            Json::Unsigned(vi_count),
                        ),
                    ),
                )
            },
        }
    }
}

} // verus!
