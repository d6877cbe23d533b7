//! Freezing the machine, setting it running, and running it for some frames. Each operation says
//! what to ask of the core next; the caller does it and tells what came of it.

use vstd::prelude::*;
use crate::json::{Json, JsonView};
use crate::n64;
use crate::n64::frame_step;
use crate::n64::lifecycle;
use crate::n64::lifecycle::{AdapterReadiness, HostState};
use crate::n64::params;
use crate::n64::service;
use crate::n64::{N64Error, N64ErrorView, MAX_STEP_COUNT};
use crate::text;

verus! {

/// The outcome of a pause or a resume, once it has started: it began, or it was refused.
pub open spec fn admitted(params: JsonView, readiness: AdapterReadiness) -> Result<
    (),
    N64ErrorView,
> {
    match params::targets_r4300(params) {
        Err(e) => Err(e),
        Ok(()) => lifecycle::connected_check(readiness),
    }
}

fn check_admitted(params: &Json, readiness: AdapterReadiness) -> (r: Result<(), N64Error>)
    ensures
        n64::gives(r, admitted(params@, readiness)),
{
    params::require_r4300(params)?;
    lifecycle::require_connected(readiness)
}

/// The error of a core call.
pub open spec fn core_error<T>(operation: Seq<char>, code: i32) -> Result<T, N64ErrorView> {
    Err(N64ErrorView::Core { operation, code })
}

/// A host that believes the machine frozen by the debugger.
pub open spec fn debugger_frozen(host: HostState) -> HostState {
    HostState { frozen: true, frame_paused: false, ..host }
}

/// A host that believes the machine running.
pub open spec fn let_go(host: HostState) -> HostState {
    HostState { frozen: false, frame_paused: false, ..host }
}

/// The report of a pause that a breakpoint came before.
pub open spec fn hit_report(event: JsonView) -> JsonView {
    JsonView::object().with("status"@, JsonView::Str("completed"@)).with(
        "state"@,
        JsonView::Str("frozen"@),
    ).with("reason"@, JsonView::Str("breakpoint"@)).with("breakpoint_id"@, event.at("id"@)).with(
        "event"@,
        event,
    )
}

fn paused_by_hit(event: Json) -> (r: Json)
    ensures
        r@ == hit_report(event@),
{
    let id = event.at("id");
    Json::object().with("status", Json::text("completed")).with("state", Json::text("frozen")).with(
        "reason",
        Json::text("breakpoint"),
    ).with("breakpoint_id", id).with("event", event)
}

/// The report of a pause.
pub open spec fn pause_report(frame: u64, vi_count: u64, pc: u32) -> JsonView {
    JsonView::object().with("status"@, JsonView::Str("completed"@)).with(
        "state"@,
        JsonView::Str("frozen"@),
    ).with("frame"@, JsonView::Unsigned(frame)).with("vi_count"@, JsonView::Unsigned(vi_count)).with(
        "pc"@,
        JsonView::Unsigned(pc as u64),
    )
}

fn paused_report(frame: u64, vi_count: u64, pc: u32) -> (r: Json)
    ensures
        r@ == pause_report(frame, vi_count, pc),
{
    Json::object().with("status", Json::text("completed")).with("state", Json::text("frozen")).with(
        "frame",
        Json::Unsigned(frame),
    ).with("vi_count", Json::Unsigned(vi_count)).with("pc", Json::Unsigned(pc as u64))
}

/// Where a pause stands.
#[derive(Clone, Copy, Debug, PartialEq, Eq, Structural)]
pub enum PauseStage {
    Draining,
    Looking,
    Setting { update: u64 },
    Waiting,
    Reporting,
    Over,
}

/// A pause under way.
#[derive(Clone, Copy, Debug, PartialEq, Eq, Structural)]
pub struct Pause {
    pub host: HostState,
    pub stage: PauseStage,
}

/// What came of the last action of a pause.
#[derive(Debug)]
pub enum PauseEvent {
    /// The debugger updates were looked at, which may have changed what the host believes.
    Drained { hit: Result<Option<Json>, N64Error>, host: HostState },
    /// Whether the debugger holds the machine, and the number of its last update.
    Looked { debugger_paused: bool, update: u64 },
    RunStateSet(i32),
    Waited(Result<(), N64Error>),
    Observed { frame: u64, vi_count: u64, pc: u32 },
}

/// What an event of a pause holds.
pub enum PauseEventView {
    Drained { hit: Result<Option<JsonView>, N64ErrorView>, host: HostState },
    Looked { debugger_paused: bool, update: u64 },
    RunStateSet(i32),
    Waited(Result<(), N64ErrorView>),
    Observed { frame: u64, vi_count: u64, pc: u32 },
}

impl View for PauseEvent {
    type V = PauseEventView;

    open spec fn view(&self) -> PauseEventView {
        match *self {
            PauseEvent::Drained { hit, host } => PauseEventView::Drained {
                hit: frame_step::drained_view(hit),
                host,
            },
            PauseEvent::Looked { debugger_paused, update } => PauseEventView::Looked {
                debugger_paused,
                update,
            },
            PauseEvent::RunStateSet(code) => PauseEventView::RunStateSet(code),
            PauseEvent::Waited(r) => PauseEventView::Waited(frame_step::unit_view(r)),
            PauseEvent::Observed { frame, vi_count, pc } => PauseEventView::Observed {
                frame,
                vi_count,
                pc,
            },
        }
    }
}

/// What a pause asks for next.
#[derive(Debug)]
pub enum PauseAction {
    /// Look at the debugger updates.
    Drain,
    /// Read the run state and the number of the last debugger update.
    Look,
    /// Set the debugger's run state to paused.
    SetPaused,
    /// Wait until the debugger holds the machine after the given update.
    Await { after_update: u64 },
    /// Read the frame, the vertical interrupt counter and the program counter.
    Observe,
    /// Report the result.
    Finish(Result<Json, N64Error>),
}

/// What an action of a pause holds.
pub enum PauseActionView {
    Drain,
    Look,
    SetPaused,
    Await { after_update: u64 },
    Observe,
    Finish(Result<JsonView, N64ErrorView>),
}

impl View for PauseAction {
    type V = PauseActionView;

    open spec fn view(&self) -> PauseActionView {
        match *self {
            PauseAction::Drain => PauseActionView::Drain,
            PauseAction::Look => PauseActionView::Look,
            PauseAction::SetPaused => PauseActionView::SetPaused,
            PauseAction::Await { after_update } => PauseActionView::Await { after_update },
            PauseAction::Observe => PauseActionView::Observe,
            PauseAction::Finish(r) => PauseActionView::Finish(frame_step::report_view(r)),
        }
    }
}

impl Pause {
    /// A pause that ends.
    pub open spec fn ends(host: HostState, result: Result<JsonView, N64ErrorView>) -> (
        Pause,
        PauseActionView,
    ) {
        (Pause { host, stage: PauseStage::Over }, PauseActionView::Finish(result))
    }

    /// What a pause comes to by an event. A breakpoint that was hit in the meantime is told; a
    /// machine that stands already is not paused again.
    pub open spec fn next(self, event: PauseEventView) -> (Pause, PauseActionView) {
        let host = self.host;
        match (self.stage, event) {
            (PauseStage::Draining, PauseEventView::Drained { hit, host }) => match hit {
                Err(e) => Pause::ends(host, Err(e)),
                Ok(Some(event)) => Pause::ends(host, Ok(hit_report(event))),
                Ok(None) => (Pause { host, stage: PauseStage::Looking }, PauseActionView::Look),
            },
            (
                PauseStage::Looking,
                PauseEventView::Looked { debugger_paused, update },
            ) => if !host.frame_paused && !debugger_paused {
                (
                    Pause { host, stage: PauseStage::Setting { update } },
                    PauseActionView::SetPaused,
                )
            } else {
                (
                    Pause {
                        host: HostState { frozen: true, ..host },
                        stage: PauseStage::Reporting,
                    },
                    PauseActionView::Observe,
                )
            },
            (PauseStage::Setting { update }, PauseEventView::RunStateSet(code)) => if code == 0 {
                (
                    Pause { host, stage: PauseStage::Waiting },
                    PauseActionView::Await { after_update: update },
                )
            } else {
                Pause::ends(host, core_error("DebugSetRunState(paused)"@, code))
            },
            (PauseStage::Waiting, PauseEventView::Waited(r)) => match r {
                Err(e) => Pause::ends(host, Err(e)),
                Ok(()) => (
                    Pause { host: debugger_frozen(host), stage: PauseStage::Reporting },
                    PauseActionView::Observe,
                ),
            },
            (
                PauseStage::Reporting,
                PauseEventView::Observed { frame, vi_count, pc },
            ) => Pause::ends(host, Ok(pause_report(frame, vi_count, pc))),
            _ => Pause::ends(host, n64::bad_state("N64 pause events are out of order"@)),
        }
    }

    /// Whether the host believes the machine frozen where the pause is about to say so.
    pub open spec fn wf(self) -> bool {
        self.stage is Reporting ==> self.host.frozen
    }

    fn end(host: HostState, result: Result<Json, N64Error>) -> (r: (Pause, PauseAction))
        ensures
            (r.0, r.1@) == Pause::ends(host, frame_step::report_view(result)),
    {
        (Pause { host, stage: PauseStage::Over }, PauseAction::Finish(result))
    }

    /// Starts a pause.
    pub fn begin(params: &Json, readiness: AdapterReadiness, host: HostState) -> (r: Result<
        (Pause, PauseAction),
        N64Error,
    >)
        ensures
            match r {
                Ok((pause, action)) => {
                    &&& admitted(params@, readiness) is Ok
                    &&& pause == (Pause { host, stage: PauseStage::Draining })
                    &&& action is Drain
                },
                Err(e) => admitted(params@, readiness) == Err::<(), _>(e@),
            },
    {
        check_admitted(params, readiness)?;
        Ok((Pause { host, stage: PauseStage::Draining }, PauseAction::Drain))
    }

    /// Takes what came of the last action.
    pub fn advance(self, event: PauseEvent) -> (r: (Pause, PauseAction))
        ensures
            (r.0, r.1@) == self.next(event@),
    {
        let host = self.host;
        match (self.stage, event) {
            (PauseStage::Draining, PauseEvent::Drained { hit, host }) => match hit {
                Err(e) => Pause::end(host, Err(e)),
                Ok(Some(event)) => Pause::end(host, Ok(paused_by_hit(event))),
                Ok(None) => (Pause { host, stage: PauseStage::Looking }, PauseAction::Look),
            },
            (PauseStage::Looking, PauseEvent::Looked { debugger_paused, update }) => {
                if !host.frame_paused && !debugger_paused {
                    (Pause { host, stage: PauseStage::Setting { update } }, PauseAction::SetPaused)
                } else {
                    (
                        Pause {
                            host: HostState { frozen: true, ..host },
                            stage: PauseStage::Reporting,
                        },
                        PauseAction::Observe,
                    )
                }
            },
            (PauseStage::Setting { update }, PauseEvent::RunStateSet(code)) => {
                match n64::check_core("DebugSetRunState(paused)", code) {
                    Ok(()) => (
                        Pause { host, stage: PauseStage::Waiting },
                        PauseAction::Await { after_update: update },
                    ),
                    Err(e) => Pause::end(host, Err(e)),
                }
            },
            (PauseStage::Waiting, PauseEvent::Waited(r)) => match r {
                Err(e) => Pause::end(host, Err(e)),
                Ok(()) => (
                    Pause {
                        host: HostState { frozen: true, frame_paused: false, ..host },
                        stage: PauseStage::Reporting,
                    },
                    PauseAction::Observe,
                ),
            },
            (PauseStage::Reporting, PauseEvent::Observed { frame, vi_count, pc }) => Pause::end(
                host,
                Ok(paused_report(frame, vi_count, pc)),
            ),
            _ => Pause::end(
                host,
                Err(N64Error::BadState("N64 pause events are out of order".to_owned())),
            ),
        }
    }
}

/// A pause that succeeds leaves the host believing the machine frozen, where a hit that it was
/// told of does.
pub proof fn pauses_end_frozen(pause: Pause, event: PauseEventView)
    requires
        pause.wf(),
        event matches PauseEventView::Drained { hit: Ok(Some(_)), host } ==> host.frozen,
    ensures
        pause.next(event).0.wf(),
        pause.next(event).1 matches PauseActionView::Finish(Ok(_)) ==> pause.next(
            event,
        ).0.host.frozen,
{
}

/// The report of a machine that was set running.
pub open spec fn running_report() -> JsonView {
    JsonView::object().with("status"@, JsonView::Str("completed"@)).with(
        "state"@,
        JsonView::Str("running"@),
    )
}

/// Where a resume stands.
#[derive(Debug)]
pub enum ResumeStage {
    Draining,
    Looking,
    Setting { debugger_paused: bool },
    Releasing,
    Recovering { cause: N64Error },
    Stepping,
    Over,
}

/// What the stage of a resume holds.
pub enum ResumeStageView {
    Draining,
    Looking,
    Setting { debugger_paused: bool },
    Releasing,
    Recovering { cause: N64ErrorView },
    Stepping,
    Over,
}

impl View for ResumeStage {
    type V = ResumeStageView;

    open spec fn view(&self) -> ResumeStageView {
        match *self {
            ResumeStage::Draining => ResumeStageView::Draining,
            ResumeStage::Looking => ResumeStageView::Looking,
            ResumeStage::Setting { debugger_paused } => ResumeStageView::Setting { debugger_paused },
            ResumeStage::Releasing => ResumeStageView::Releasing,
            ResumeStage::Recovering { cause } => ResumeStageView::Recovering { cause: cause@ },
            ResumeStage::Stepping => ResumeStageView::Stepping,
            ResumeStage::Over => ResumeStageView::Over,
        }
    }
}

/// A resume under way.
#[derive(Debug)]
pub struct Resume {
    pub host: HostState,
    pub stage: ResumeStage,
}

/// What a resume under way holds.
pub struct ResumeView {
    pub host: HostState,
    pub stage: ResumeStageView,
}

impl View for Resume {
    type V = ResumeView;

    open spec fn view(&self) -> ResumeView {
        ResumeView { host: self.host, stage: self.stage@ }
    }
}

/// What came of the last action of a resume.
#[derive(Debug)]
pub enum ResumeEvent {
    /// The debugger updates were looked at, which may have changed what the host believes.
    Drained { hit: Result<Option<Json>, N64Error>, host: HostState },
    /// Whether the debugger holds the machine.
    Looked { debugger_paused: bool },
    RunStateSet(i32),
    Released(Result<(), N64Error>),
    Recovered(Result<(), N64Error>),
    Stepped(i32),
}

/// What an event of a resume holds.
pub enum ResumeEventView {
    Drained { hit: Result<Option<JsonView>, N64ErrorView>, host: HostState },
    Looked { debugger_paused: bool },
    RunStateSet(i32),
    Released(Result<(), N64ErrorView>),
    Recovered(Result<(), N64ErrorView>),
    Stepped(i32),
}

impl View for ResumeEvent {
    type V = ResumeEventView;

    open spec fn view(&self) -> ResumeEventView {
        match *self {
            ResumeEvent::Drained { hit, host } => ResumeEventView::Drained {
                hit: frame_step::drained_view(hit),
                host,
            },
            ResumeEvent::Looked { debugger_paused } => ResumeEventView::Looked { debugger_paused },
            ResumeEvent::RunStateSet(code) => ResumeEventView::RunStateSet(code),
            ResumeEvent::Released(r) => ResumeEventView::Released(frame_step::unit_view(r)),
            ResumeEvent::Recovered(r) => ResumeEventView::Recovered(frame_step::unit_view(r)),
            ResumeEvent::Stepped(code) => ResumeEventView::Stepped(code),
        }
    }
}

/// What a resume asks for next.
#[derive(Debug)]
pub enum ResumeAction {
    /// Look at the debugger updates.
    Drain,
    /// Read the run state.
    Look,
    /// Set the debugger's run state to running.
    SetRunning,
    /// Let the stopped frame callback go on.
    ReleaseFrame,
    /// Cancel the barrier and bring the machine back to a debugger boundary.
    Recover,
    /// Let the debugger go on from its pause.
    DebugStep,
    /// Set the run state back to paused, and report the result.
    Abandon(Result<Json, N64Error>),
    /// Report the result.
    Finish(Result<Json, N64Error>),
}

/// What an action of a resume holds.
pub enum ResumeActionView {
    Drain,
    Look,
    SetRunning,
    ReleaseFrame,
    Recover,
    DebugStep,
    Abandon(Result<JsonView, N64ErrorView>),
    Finish(Result<JsonView, N64ErrorView>),
}

impl View for ResumeAction {
    type V = ResumeActionView;

    open spec fn view(&self) -> ResumeActionView {
        match *self {
            ResumeAction::Drain => ResumeActionView::Drain,
            ResumeAction::Look => ResumeActionView::Look,
            ResumeAction::SetRunning => ResumeActionView::SetRunning,
            ResumeAction::ReleaseFrame => ResumeActionView::ReleaseFrame,
            ResumeAction::Recover => ResumeActionView::Recover,
            ResumeAction::DebugStep => ResumeActionView::DebugStep,
            ResumeAction::Abandon(r) => ResumeActionView::Abandon(frame_step::report_view(r)),
            ResumeAction::Finish(r) => ResumeActionView::Finish(frame_step::report_view(r)),
        }
    }
}

impl ResumeView {
    /// A resume that goes on at another stage.
    pub open spec fn at(host: HostState, stage: ResumeStageView, action: ResumeActionView) -> (
        ResumeView,
        ResumeActionView,
    ) {
        (ResumeView { host, stage }, action)
    }

    /// A resume that ends.
    pub open spec fn ends(host: HostState, result: Result<JsonView, N64ErrorView>) -> (
        ResumeView,
        ResumeActionView,
    ) {
        ResumeView::at(host, ResumeStageView::Over, ResumeActionView::Finish(result))
    }

    /// What a resume comes to by an event. The machine is let go by the barrier that holds it; one
    /// that cannot be let go is brought back to a boundary.
    pub open spec fn next(self, event: ResumeEventView) -> (ResumeView, ResumeActionView) {
        let host = self.host;
        match (self.stage, event) {
            (ResumeStageView::Draining, ResumeEventView::Drained { hit, host }) => match hit {
                Err(e) => ResumeView::ends(host, Err(e)),
                Ok(_) => ResumeView::at(host, ResumeStageView::Looking, ResumeActionView::Look),
            },
            (
                ResumeStageView::Looking,
                ResumeEventView::Looked { debugger_paused },
            ) => ResumeView::at(
                host,
                ResumeStageView::Setting { debugger_paused },
                ResumeActionView::SetRunning,
            ),
            (
                ResumeStageView::Setting { debugger_paused },
                ResumeEventView::RunStateSet(code),
            ) => if code != 0 {
                ResumeView::ends(host, core_error("DebugSetRunState(running)"@, code))
            } else if host.frame_paused {
                ResumeView::at(host, ResumeStageView::Releasing, ResumeActionView::ReleaseFrame)
            } else if debugger_paused {
                ResumeView::at(host, ResumeStageView::Stepping, ResumeActionView::DebugStep)
            } else {
                ResumeView::ends(let_go(host), Ok(running_report()))
            },
            (ResumeStageView::Releasing, ResumeEventView::Released(r)) => match r {
                Err(cause) => ResumeView::at(
                    host,
                    ResumeStageView::Recovering { cause },
                    ResumeActionView::Recover,
                ),
                Ok(()) => ResumeView::ends(let_go(host), Ok(running_report())),
            },
            (ResumeStageView::Recovering { cause }, ResumeEventView::Recovered(r)) => match r {
                Err(e) => ResumeView::ends(host, Err(e)),
                Ok(()) => ResumeView::ends(debugger_frozen(host), Err(cause)),
            },
            (ResumeStageView::Stepping, ResumeEventView::Stepped(code)) => if code != 0 {
                ResumeView::at(
                    host,
                    ResumeStageView::Over,
                    ResumeActionView::Abandon(core_error("DebugStep(resume)"@, code)),
                )
            } else {
                ResumeView::ends(let_go(host), Ok(running_report()))
            },
            _ => ResumeView::ends(host, n64::bad_state("N64 resume events are out of order"@)),
        }
    }
}

impl Resume {
    fn end(host: HostState, result: Result<Json, N64Error>) -> (r: (Resume, ResumeAction))
        ensures
            (r.0@, r.1@) == ResumeView::ends(host, frame_step::report_view(result)),
    {
        (Resume { host, stage: ResumeStage::Over }, ResumeAction::Finish(result))
    }

    fn done(host: HostState) -> (r: (Resume, ResumeAction))
        ensures
            (r.0@, r.1@) == ResumeView::ends(let_go(host), Ok(running_report())),
    {
        Resume::end(
            HostState { frozen: false, frame_paused: false, ..host },
            Ok(
                Json::object().with("status", Json::text("completed")).with(
                    "state",
                    Json::text("running"),
                ),
            ),
        )
    }

    /// Starts a resume.
    pub fn begin(params: &Json, readiness: AdapterReadiness, host: HostState) -> (r: Result<
        (Resume, ResumeAction),
        N64Error,
    >)
        ensures
            match r {
                Ok((resume, action)) => {
                    &&& admitted(params@, readiness) is Ok
                    &&& resume@ == (ResumeView { host, stage: ResumeStageView::Draining })
                    &&& action is Drain
                },
                Err(e) => admitted(params@, readiness) == Err::<(), _>(e@),
            },
    {
        check_admitted(params, readiness)?;
        Ok((Resume { host, stage: ResumeStage::Draining }, ResumeAction::Drain))
    }

    /// Takes what came of the last action.
    pub fn advance(self, event: ResumeEvent) -> (r: (Resume, ResumeAction))
        ensures
            (r.0@, r.1@) == self@.next(event@),
    {
        let host = self.host;
        match (self.stage, event) {
            (ResumeStage::Draining, ResumeEvent::Drained { hit, host }) => match hit {
                Err(e) => Resume::end(host, Err(e)),
                Ok(_) => (Resume { host, stage: ResumeStage::Looking }, ResumeAction::Look),
            },
            (ResumeStage::Looking, ResumeEvent::Looked { debugger_paused }) => (
                Resume { host, stage: ResumeStage::Setting { debugger_paused } },
                ResumeAction::SetRunning,
            ),
            (ResumeStage::Setting { debugger_paused }, ResumeEvent::RunStateSet(code)) => {
                match n64::check_core("DebugSetRunState(running)", code) {
                    Err(e) => Resume::end(host, Err(e)),
                    Ok(()) => if host.frame_paused {
                        (Resume { host, stage: ResumeStage::Releasing }, ResumeAction::ReleaseFrame)
                    } else if debugger_paused {
                        (Resume { host, stage: ResumeStage::Stepping }, ResumeAction::DebugStep)
                    } else {
                        Resume::done(host)
                    },
                }
            },
            (ResumeStage::Releasing, ResumeEvent::Released(r)) => match r {
                Err(cause) => (
                    Resume { host, stage: ResumeStage::Recovering { cause } },
                    ResumeAction::Recover,
                ),
                Ok(()) => Resume::done(host),
            },
            (ResumeStage::Recovering { cause }, ResumeEvent::Recovered(r)) => match r {
                Err(e) => Resume::end(host, Err(e)),
                Ok(()) => Resume::end(
                    HostState { frozen: true, frame_paused: false, ..host },
                    Err(cause),
                ),
            },
            (ResumeStage::Stepping, ResumeEvent::Stepped(code)) => {
                match n64::check_core("DebugStep(resume)", code) {
                    Err(e) => (
                        Resume { host, stage: ResumeStage::Over },
                        ResumeAction::Abandon(Err(e)),
                    ),
                    Ok(()) => Resume::done(host),
                }
            },
            _ => Resume::end(
                host,
                Err(N64Error::BadState("N64 resume events are out of order".to_owned())),
            ),
        }
    }
}

/// A resume that succeeds leaves the host believing the machine running, with neither barrier
/// holding it; one that fails does not make it believe so.
pub proof fn resumes_tell_the_truth(resume: ResumeView, event: ResumeEventView)
    requires
        event matches ResumeEventView::Drained { host, .. } ==> host.frozen == resume.host.frozen
            || host.frozen,
        !(resume.stage is Over),
    ensures
        ({
            let (after, action) = resume.next(event);
            match action {
                ResumeActionView::Finish(Ok(_)) => !after.host.frozen && !after.host.frame_paused,
                _ => resume.host.frozen ==> after.host.frozen,
            }
        }),
{
}

/// The number of frames that a run asks for: `n`, else `count`, else `frames`, else one. All have
/// to be numbers where they are there.
pub open spec fn run_count(params: JsonView) -> Result<u64, N64ErrorView> {
    match (
        params::optional(params, "n"@),
        params::optional(params, "count"@),
        params::optional(params, "frames"@),
    ) {
        (Err(e), _, _) => Err(e),
        (_, Err(e), _) => Err(e),
        (_, _, Err(e)) => Err(e),
        (Ok(n), Ok(count), Ok(frames)) => {
            let asked = if n is Some {
                n->0
            } else if count is Some {
                count->0
            } else if frames is Some {
                frames->0
            } else {
                1
            };
            if 1 <= asked <= MAX_STEP_COUNT {
                Ok(asked)
            } else {
                n64::bad_params(
                    "N64 run_frames count must be in 1..="@ + text::decimal(MAX_STEP_COUNT as int),
                )
            }
        },
    }
}

/// What a request for a run asks for.
pub open spec fn asked_frames(params: JsonView) -> Result<u64, N64ErrorView> {
    match params::targets_r4300(params) {
        Err(e) => Err(e),
        Ok(()) => run_count(params),
    }
}

/// Reads the number of frames of a run.
pub fn run_frames_count(params: &Json) -> (r: Result<u64, N64Error>)
    ensures
        n64::gives(r, asked_frames(params@)),
{
    params::require_r4300(params)?;
    let n = params::optional_num(params, "n")?;
    let count = params::optional_num(params, "count")?;
    let frames = params::optional_num(params, "frames")?;
    let asked: u64 = match n {
        Some(v) => v,
        None => match count {
            Some(v) => v,
            None => match frames {
                Some(v) => v,
                None => 1,
            },
        },
    };
    if 1 <= asked && asked <= MAX_STEP_COUNT {
        return Ok(asked);
    }
    Err(
        N64Error::BadParams(
            text::join(
                "N64 run_frames count must be in 1..=",
                text::decimal_of(MAX_STEP_COUNT).as_str(),
            ),
        ),
    )
}

/// Whether a report tells of a breakpoint that came before the requested end.
pub open spec fn hit_first(paused: JsonView) -> bool {
    paused.text_field("reason"@) == Some("breakpoint"@)
}

/// Whether a report tells of an advance that a breakpoint interrupted.
pub open spec fn was_interrupted(advanced: JsonView) -> bool {
    advanced.text_field("status"@) == Some("interrupted"@)
}

/// Whether a text field of a report holds a value.
pub fn tells(report: &Json, key: &str, value: &str) -> (r: bool)
    ensures
        r == (report@.text_field(key@) == Some(value@)),
{
    match report.get_str(key) {
        Some(told) => text::same(told, value),
        None => false,
    }
}

/// The report of a run that a breakpoint ended before it began.
pub open spec fn early_end(paused: JsonView, count: u64) -> JsonView {
    JsonView::object().with("status"@, JsonView::Str("interrupted"@)).with(
        "reason"@,
        JsonView::Str("breakpoint"@),
    ).with("breakpoint_id"@, paused.at("breakpoint_id"@)).with("event"@, paused.at("event"@)).with(
        "count"@,
        JsonView::Unsigned(count),
    ).with("completed"@, JsonView::Unsigned(0)).with("state"@, JsonView::Str("frozen"@))
}

/// The report of a completed run.
pub open spec fn run_report(started_frozen: bool, count: u64, advanced: JsonView) -> JsonView {
    JsonView::object().with("status"@, JsonView::Str("completed"@)).with(
        "unit"@,
        JsonView::Str("frames"@),
    ).with("count"@, JsonView::Unsigned(count)).with("completed"@, JsonView::Unsigned(count)).with(
        "started_state"@,
        JsonView::Str(service::run_state(started_frozen)),
    ).with("state"@, JsonView::Str("running"@)).with("at_least"@, JsonView::Unsigned(count)).with(
        "exact"@,
        JsonView::Bool(false),
    ).with("controlled_segment_exact"@, JsonView::Bool(true)).with(
        "frame_before"@,
        advanced.at("frame_before"@),
    ).with("controlled_segment_end_frame"@, advanced.at("frame"@))
}

fn run_interrupted(paused: &Json, count: u64) -> (r: Json)
    ensures
        r@ == early_end(paused@, count),
{
    Json::object().with("status", Json::text("interrupted")).with(
        "reason",
        Json::text("breakpoint"),
    ).with("breakpoint_id", paused.at("breakpoint_id")).with("event", paused.at("event")).with(
        "count",
        Json::Unsigned(count),
    ).with("completed", Json::Unsigned(0)).with("state", Json::text("frozen"))
}

fn run_completed(started_frozen: bool, count: u64, advanced: &Json) -> (r: Json)
    ensures
        r@ == run_report(started_frozen, count, advanced@),
{
    Json::object().with("status", Json::text("completed")).with("unit", Json::text("frames")).with(
        "count",
        Json::Unsigned(count),
    ).with("completed", Json::Unsigned(count)).with(
        "started_state",
        Json::text(service::run_state_name(started_frozen)),
    ).with("state", Json::text("running")).with("at_least", Json::Unsigned(count)).with(
        "exact",
        Json::Bool(false),
    ).with("controlled_segment_exact", Json::Bool(true)).with(
        "frame_before",
        advanced.at("frame_before"),
    ).with("controlled_segment_end_frame", advanced.at("frame"))
}

/// Where a run for some frames stands.
#[derive(Debug)]
pub enum RunStage {
    Pausing,
    Stepping,
    Resuming { advanced: Json },
    Over,
}

/// What the stage of a run holds.
pub enum RunStageView {
    Pausing,
    Stepping,
    Resuming { advanced: JsonView },
    Over,
}

/// A run for some frames under way.
#[derive(Debug)]
pub struct FrameRun {
    pub count: u64,
    pub started_frozen: bool,
    pub stage: RunStage,
}

/// What a run under way holds.
pub struct FrameRunView {
    pub count: u64,
    pub started_frozen: bool,
    pub stage: RunStageView,
}

impl View for FrameRun {
    type V = FrameRunView;

    open spec fn view(&self) -> FrameRunView {
        FrameRunView {
            count: self.count,
            started_frozen: self.started_frozen,
            stage: match self.stage {
                RunStage::Pausing => RunStageView::Pausing,
                RunStage::Stepping => RunStageView::Stepping,
                RunStage::Resuming { advanced } => RunStageView::Resuming { advanced: advanced@ },
                RunStage::Over => RunStageView::Over,
            },
        }
    }
}

/// What a run asks for next.
#[derive(Debug)]
pub enum RunAction {
    Pause,
    Step { frames: u64 },
    Resume,
    /// Report the result.
    Finish(Result<Json, N64Error>),
}

/// What an action of a run holds.
pub enum RunActionView {
    Pause,
    Step { frames: u64 },
    Resume,
    Finish(Result<JsonView, N64ErrorView>),
}

impl View for RunAction {
    type V = RunActionView;

    open spec fn view(&self) -> RunActionView {
        match *self {
            RunAction::Pause => RunActionView::Pause,
            RunAction::Step { frames } => RunActionView::Step { frames },
            RunAction::Resume => RunActionView::Resume,
            RunAction::Finish(r) => RunActionView::Finish(frame_step::report_view(r)),
        }
    }
}

impl FrameRunView {
    /// A run that ends.
    pub open spec fn ends(self, result: Result<JsonView, N64ErrorView>) -> (
        FrameRunView,
        RunActionView,
    ) {
        (FrameRunView { stage: RunStageView::Over, ..self }, RunActionView::Finish(result))
    }

    /// A run that steps its frames.
    pub open spec fn steps(self) -> (FrameRunView, RunActionView) {
        (
            FrameRunView { stage: RunStageView::Stepping, ..self },
            RunActionView::Step { frames: self.count },
        )
    }

    /// What a run comes to by the result of the last operation. A running machine is paused, stepped
    /// and set running; a breakpoint ends the run there.
    pub open spec fn next(self, told: Result<JsonView, N64ErrorView>) -> (
        FrameRunView,
        RunActionView,
    ) {
        match (self.stage, told) {
            (RunStageView::Over, _) => self.ends(
                n64::bad_state("N64 run_frames events are out of order"@),
            ),
            (_, Err(e)) => self.ends(Err(e)),
            (RunStageView::Pausing, Ok(paused)) => if hit_first(paused) {
                self.ends(Ok(early_end(paused, self.count)))
            } else {
                self.steps()
            },
            (RunStageView::Stepping, Ok(advanced)) => if was_interrupted(advanced) {
                self.ends(Ok(advanced))
            } else {
                (
                    FrameRunView { stage: RunStageView::Resuming { advanced }, ..self },
                    RunActionView::Resume,
                )
            },
            (RunStageView::Resuming { advanced }, Ok(_)) => self.ends(
                Ok(run_report(self.started_frozen, self.count, advanced)),
            ),
        }
    }
}

impl FrameRun {
    fn end(self, result: Result<Json, N64Error>) -> (r: (FrameRun, RunAction))
        ensures
            (r.0@, r.1@) == self@.ends(frame_step::report_view(result)),
    {
        (FrameRun { stage: RunStage::Over, ..self }, RunAction::Finish(result))
    }

    /// Starts a run; `started_frozen` says whether the machine stands at a boundary.
    pub fn begin(params: &Json, started_frozen: bool) -> (r: Result<(FrameRun, RunAction), N64Error>)
        ensures
            match r {
                Ok((run, action)) => {
                    &&& asked_frames(params@) == Ok::<_, N64ErrorView>(run.count)
                    &&& run.started_frozen == started_frozen
                    &&& if started_frozen {
                        (run@, action@) == run@.steps()
                    } else {
                        run.stage is Pausing && action is Pause
                    }
                },
                Err(e) => asked_frames(params@) == Err::<u64, _>(e@),
            },
    {
        let count: u64 = run_frames_count(params)?;
        if started_frozen {
            Ok(
                (
                    FrameRun { count, started_frozen, stage: RunStage::Stepping },
                    RunAction::Step { frames: count },
                ),
            )
        } else {
            Ok((FrameRun { count, started_frozen, stage: RunStage::Pausing }, RunAction::Pause))
        }
    }

    /// Takes the result of the last operation.
    pub fn advance(self, told: Result<Json, N64Error>) -> (r: (FrameRun, RunAction))
        ensures
            (r.0@, r.1@) == self@.next(frame_step::report_view(told)),
    {
        let count = self.count;
        let started_frozen = self.started_frozen;
        if let RunStage::Over = self.stage {
            return self.end(
                Err(N64Error::BadState("N64 run_frames events are out of order".to_owned())),
            );
        }
        let report = match told {
            Ok(report) => report,
            Err(e) => {
                return self.end(Err(e));
            },
        };
        match self.stage {
            RunStage::Pausing => if tells(&report, "reason", "breakpoint") {
                let end = run_interrupted(&report, count);
                (FrameRun { stage: RunStage::Over, ..self }, RunAction::Finish(Ok(end)))
            } else {
                (
                    FrameRun { stage: RunStage::Stepping, ..self },
                    RunAction::Step { frames: count },
                )
            },
            RunStage::Stepping => if tells(&report, "status", "interrupted") {
                (FrameRun { stage: RunStage::Over, ..self }, RunAction::Finish(Ok(report)))
            } else {
                (
                    FrameRun {
                        count,
                        started_frozen,
                        stage: RunStage::Resuming { advanced: report },
                    },
                    RunAction::Resume,
                )
            },
            RunStage::Resuming { advanced } => {
                let end = run_completed(started_frozen, count, &advanced);
                (
                    FrameRun { count, started_frozen, stage: RunStage::Over },
                    RunAction::Finish(Ok(end)),
                )
            },
            RunStage::Over => (
                FrameRun { count, started_frozen, stage: RunStage::Over },
                RunAction::Finish(
                    Err(N64Error::BadState("N64 run_frames events are out of order".to_owned())),
                ),
            ),
        }
    }
}

/// A run tells of completion only once the machine was set running again after its step, and the
/// frames that it tells of are those that the step told.
pub proof fn completed_runs_stepped_every_frame(
    run: FrameRunView,
    told: Result<JsonView, N64ErrorView>,
)
    requires
        run.next(told).1 matches RunActionView::Finish(Ok(_)),
    ensures
        run.stage matches RunStageView::Resuming { advanced } ==> run.next(told).1
            == RunActionView::Finish(Ok(run_report(run.started_frozen, run.count, advanced))),
        !(run.stage is Resuming) ==> (told matches Ok(report) && (hit_first(report)
            || was_interrupted(report))),
{
}

} // verus!
