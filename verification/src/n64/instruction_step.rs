//! Stepping single instructions through the core's debugger, within one total time budget.

use vstd::prelude::*;
use crate::json::{Json, JsonView};
use crate::n64::frame_step;
use crate::n64::lifecycle::HostState;
use crate::n64::params;
use crate::n64::{N64Error, N64ErrorView, MAX_STEP_COUNT};

verus! {

/// Where an instruction step stands.
#[derive(Debug)]
pub enum Phase {
    /// The frame barrier holds the machine: the debugger is told to pause at the next instruction.
    SettingPause,
    ReleasingGate,
    AwaitingBoundary,
    Stepping,
    AwaitingUpdate,
    Draining,
    /// A failure after the barrier could not be released.
    RecoveringFrame { cause: N64Error },
    /// A failure after the core was told to step.
    RecoveringInstruction { cause: N64Error },
    Reporting,
    Finished,
}

/// What a phase holds.
pub enum PhaseView {
    SettingPause,
    ReleasingGate,
    AwaitingBoundary,
    Stepping,
    AwaitingUpdate,
    Draining,
    RecoveringFrame { cause: N64ErrorView },
    RecoveringInstruction { cause: N64ErrorView },
    Reporting,
    Finished,
}

impl View for Phase {
    type V = PhaseView;

    open spec fn view(&self) -> PhaseView {
        match *self {
            Phase::SettingPause => PhaseView::SettingPause,
            Phase::ReleasingGate => PhaseView::ReleasingGate,
            Phase::AwaitingBoundary => PhaseView::AwaitingBoundary,
            Phase::Stepping => PhaseView::Stepping,
            Phase::AwaitingUpdate => PhaseView::AwaitingUpdate,
            Phase::Draining => PhaseView::Draining,
            Phase::RecoveringFrame { cause } => PhaseView::RecoveringFrame { cause: cause@ },
            Phase::RecoveringInstruction { cause } => PhaseView::RecoveringInstruction {
                cause: cause@,
            },
            Phase::Reporting => PhaseView::Reporting,
            Phase::Finished => PhaseView::Finished,
        }
    }
}

/// An instruction step under way: `before` is the update counter at its start, `expected` the
/// number of the instruction that runs.
#[derive(Debug)]
pub struct InstructionStep {
    pub count: u64,
    pub before: u64,
    pub expected: u64,
    pub host: HostState,
    pub phase: Phase,
}

/// What an instruction step under way holds.
pub struct InstructionStepView {
    pub count: u64,
    pub before: u64,
    pub expected: u64,
    pub host: HostState,
    pub phase: PhaseView,
}

impl View for InstructionStep {
    type V = InstructionStepView;

    open spec fn view(&self) -> InstructionStepView {
        InstructionStepView {
            count: self.count,
            before: self.before,
            expected: self.expected,
            host: self.host,
            phase: self.phase@,
        }
    }
}

/// What came of the last action.
#[derive(Debug)]
pub enum StepEvent {
    PauseSet(i32),
    Released(Result<(), N64Error>),
    /// The total time budget is used up.
    BudgetSpent(N64Error),
    /// The awaited update or boundary came, or not in time.
    Awaited(Result<(), N64Error>),
    Stepped(i32),
    Drained(Result<Option<Json>, N64Error>),
    Recovered(Result<(), N64Error>),
    Observed { pc: u32, frame: u64, vi_count: u64 },
}

/// What an event holds.
pub enum StepEventView {
    PauseSet(i32),
    Released(Result<(), N64ErrorView>),
    BudgetSpent(N64ErrorView),
    Awaited(Result<(), N64ErrorView>),
    Stepped(i32),
    Drained(Result<Option<JsonView>, N64ErrorView>),
    Recovered(Result<(), N64ErrorView>),
    Observed { pc: u32, frame: u64, vi_count: u64 },
}

impl View for StepEvent {
    type V = StepEventView;

    open spec fn view(&self) -> StepEventView {
        match *self {
            StepEvent::PauseSet(code) => StepEventView::PauseSet(code),
            StepEvent::Released(r) => StepEventView::Released(frame_step::unit_view(r)),
            StepEvent::BudgetSpent(e) => StepEventView::BudgetSpent(e@),
            StepEvent::Awaited(r) => StepEventView::Awaited(frame_step::unit_view(r)),
            StepEvent::Stepped(code) => StepEventView::Stepped(code),
            StepEvent::Drained(r) => StepEventView::Drained(frame_step::drained_view(r)),
            StepEvent::Recovered(r) => StepEventView::Recovered(frame_step::unit_view(r)),
            StepEvent::Observed { pc, frame, vi_count } => StepEventView::Observed {
                pc,
                frame,
                vi_count,
            },
        }
    }
}

/// What to do next.
#[derive(Debug)]
pub enum StepAction {
    /// Set the debugger's run state to paused.
    SetPaused,
    /// Let the stopped frame callback go on.
    ReleaseGate,
    /// Wait until the update counter exceeds `before` and the debugger is paused.
    AwaitBoundary { before: u64 },
    /// Check the time budget, then run one instruction.
    DebugStep,
    /// Wait until the update counter reaches the given number.
    AwaitUpdate { at_least: u64 },
    /// Look at the debugger update.
    Drain,
    /// Cancel the barrier and bring the machine back to a debugger boundary.
    RecoverFrame,
    /// Bring the machine back to a debugger boundary at the given update or later.
    RecoverInstruction { at_least: u64 },
    /// Read the program counter and the frame counters.
    Observe,
    /// Report the result.
    Finish(Result<Json, N64Error>),
}

/// What an action holds.
pub enum StepActionView {
    SetPaused,
    ReleaseGate,
    AwaitBoundary { before: u64 },
    DebugStep,
    AwaitUpdate { at_least: u64 },
    Drain,
    RecoverFrame,
    RecoverInstruction { at_least: u64 },
    Observe,
    Finish(Result<JsonView, N64ErrorView>),
}

impl View for StepAction {
    type V = StepActionView;

    open spec fn view(&self) -> StepActionView {
        match *self {
            StepAction::SetPaused => StepActionView::SetPaused,
            StepAction::ReleaseGate => StepActionView::ReleaseGate,
            StepAction::AwaitBoundary { before } => StepActionView::AwaitBoundary { before },
            StepAction::DebugStep => StepActionView::DebugStep,
            StepAction::AwaitUpdate { at_least } => StepActionView::AwaitUpdate { at_least },
            StepAction::Drain => StepActionView::Drain,
            StepAction::RecoverFrame => StepActionView::RecoverFrame,
            StepAction::RecoverInstruction { at_least } => StepActionView::RecoverInstruction {
                at_least,
            },
            StepAction::Observe => StepActionView::Observe,
            StepAction::Finish(r) => StepActionView::Finish(frame_step::report_view(r)),
        }
    }
}

/// The update number at which the `n`-th instruction after `before` has run.
pub open spec fn update_after(before: u64, n: u64) -> u64 {
    if before + n > u64::MAX {
        u64::MAX
    } else {
        (before + n) as u64
    }
}

/// The number of instructions that a request asks for, one where it says nothing.
pub open spec fn requested_count(params: JsonView) -> Result<u64, N64ErrorView> {
    match params::optional(params, "count"@) {
        Err(e) => Err(e),
        Ok(Some(n)) => Ok(n),
        Ok(None) => Ok(1),
    }
}

/// What a request for an instruction step comes to, with its first action.
pub open spec fn begun(
    params: JsonView,
    host: HostState,
    frozen: Result<(), N64ErrorView>,
    update_count: u64,
) -> Result<(InstructionStepView, StepActionView), N64ErrorView> {
    match (params::targets_r4300(params), frozen, requested_count(params)) {
        (Err(e), _, _) => Err(e),
        (_, Err(e), _) => Err(e),
        (_, _, Err(e)) => Err(e),
        (Ok(()), Ok(()), Ok(n)) => match frame_step::count_check(n, "instruction"@) {
            Err(e) => Err(e),
            Ok(count) => Ok(
                if host.frame_paused {
                    (
                        InstructionStepView {
                            count,
                            before: update_count,
                            expected: 1,
                            host,
                            phase: PhaseView::SettingPause,
                        },
                        StepActionView::SetPaused,
                    )
                } else {
                    (
                        InstructionStepView {
                            count,
                            before: update_count,
                            expected: 1,
                            host,
                            phase: PhaseView::Stepping,
                        },
                        StepActionView::DebugStep,
                    )
                },
            ),
        },
    }
}

/// The report of a completed instruction step.
pub open spec fn completed_report(count: u64, pc: u32, frame: u64, vi_count: u64) -> JsonView {
    JsonView::object().with("status"@, JsonView::Str("completed"@)).with(
        "unit"@,
        JsonView::Str("instructions"@),
    ).with("count"@, JsonView::Unsigned(count)).with("cpu"@, JsonView::Str("r4300"@)).with(
        "state"@,
        JsonView::Str("frozen"@),
    ).with("pc"@, JsonView::Unsigned(pc as u64)).with("frame"@, JsonView::Unsigned(frame)).with(
        "vi_count"@,
        JsonView::Unsigned(vi_count),
    )
}

impl InstructionStepView {
    /// Whether an event is an answer to what the step waits for.
    pub open spec fn expects(self, event: StepEventView) -> bool {
        match (self.phase, event) {
            (PhaseView::SettingPause, StepEventView::PauseSet(_)) => true,
            (PhaseView::ReleasingGate, StepEventView::Released(_)) => true,
            (PhaseView::AwaitingBoundary, StepEventView::BudgetSpent(_)) => true,
            (PhaseView::AwaitingBoundary, StepEventView::Awaited(_)) => true,
            (PhaseView::Stepping, StepEventView::BudgetSpent(_)) => true,
            (PhaseView::Stepping, StepEventView::Stepped(_)) => true,
            (PhaseView::AwaitingUpdate, StepEventView::Awaited(_)) => true,
            (PhaseView::Draining, StepEventView::Drained(_)) => true,
            (PhaseView::RecoveringFrame { .. }, StepEventView::Recovered(_)) => true,
            (PhaseView::RecoveringInstruction { .. }, StepEventView::Recovered(_)) => true,
            (PhaseView::Reporting, StepEventView::Observed { .. }) => true,
            _ => false,
        }
    }

    /// The running instruction is one of those requested.
    pub open spec fn wf(self) -> bool {
        &&& 1 <= self.count <= MAX_STEP_COUNT
        &&& 1 <= self.expected <= self.count
        &&& self.phase is SettingPause || self.phase is ReleasingGate
            || self.phase is AwaitingBoundary ==> self.expected == 1
        &&& self.phase is Reporting ==> self.expected == self.count
    }

    /// The step in another phase, with what to do there.
    pub open spec fn goes(self, phase: PhaseView, action: StepActionView) -> (
        InstructionStepView,
        StepActionView,
    ) {
        (InstructionStepView { phase, ..self }, action)
    }

    /// The end of the step.
    pub open spec fn ends(self, result: Result<JsonView, N64ErrorView>) -> (
        InstructionStepView,
        StepActionView,
    ) {
        self.goes(PhaseView::Finished, StepActionView::Finish(result))
    }

    /// What follows an instruction that has run: the next one, or the report.
    pub open spec fn counted(self) -> (InstructionStepView, StepActionView) {
        if self.expected == self.count {
            self.goes(PhaseView::Reporting, StepActionView::Observe)
        } else {
            InstructionStepView { expected: (self.expected + 1) as u64, ..self }.goes(
                PhaseView::Stepping,
                StepActionView::DebugStep,
            )
        }
    }

    /// What follows a failed wait.
    pub open spec fn recovers(self, cause: N64ErrorView) -> (InstructionStepView, StepActionView) {
        self.goes(
            PhaseView::RecoveringInstruction { cause },
            StepActionView::RecoverInstruction {
                at_least: update_after(self.before, self.expected),
            },
        )
    }

    /// The cause of a failure that is being recovered from.
    pub open spec fn cause(self) -> N64ErrorView {
        match self.phase {
            PhaseView::RecoveringFrame { cause } => cause,
            PhaseView::RecoveringInstruction { cause } => cause,
            _ => N64ErrorView::BadState(Seq::empty()),
        }
    }

    /// The next state and action.
    pub open spec fn next(self, event: StepEventView) -> (InstructionStepView, StepActionView) {
        let frozen_by_debugger = HostState { frozen: true, frame_paused: false, ..self.host };
        let frozen = InstructionStepView { host: frozen_by_debugger, ..self };
        match event {
            StepEventView::PauseSet(code) => if code != 0 {
                self.ends(
                    Err(
                        N64ErrorView::Core {
                            operation: "DebugSetRunState(instruction boundary)"@,
                            code,
                        },
                    ),
                )
            } else {
                self.goes(PhaseView::ReleasingGate, StepActionView::ReleaseGate)
            },
            StepEventView::Released(Err(e)) => self.goes(
                PhaseView::RecoveringFrame { cause: e },
                StepActionView::RecoverFrame,
            ),
            StepEventView::Released(Ok(())) => self.goes(
                PhaseView::AwaitingBoundary,
                StepActionView::AwaitBoundary { before: self.before },
            ),
            StepEventView::BudgetSpent(e) => self.ends(Err(e)),
            StepEventView::Awaited(Err(e)) => self.recovers(e),
            StepEventView::Awaited(Ok(())) => if self.phase is AwaitingBoundary {
                InstructionStepView {
                    host: HostState { frame_paused: false, ..self.host },
                    ..self
                }.counted()
            } else {
                self.goes(PhaseView::Draining, StepActionView::Drain)
            },
            StepEventView::Stepped(code) => if code != 0 {
                self.ends(Err(N64ErrorView::Core { operation: "DebugStep"@, code }))
            } else {
                self.goes(
                    PhaseView::AwaitingUpdate,
                    StepActionView::AwaitUpdate {
                        at_least: update_after(self.before, self.expected),
                    },
                )
            },
            StepEventView::Drained(Err(e)) => frozen.ends(Err(e)),
            StepEventView::Drained(Ok(Some(hit))) => frozen.ends(
                Ok(frame_step::interrupted(hit, "instructions"@, self.expected)),
            ),
            StepEventView::Drained(Ok(None)) => self.counted(),
            StepEventView::Recovered(Err(e)) => self.ends(Err(e)),
            StepEventView::Recovered(Ok(())) => frozen.ends(Err(self.cause())),
            StepEventView::Observed { pc, frame, vi_count } => InstructionStepView {
                host: HostState { frozen: true, ..self.host },
                ..self
            }.ends(Ok(completed_report(self.count, pc, frame, vi_count))),
        }
    }
}

/// Each `DebugStep` is for an instruction of the request, and after it the update of exactly that
/// instruction is awaited; the report comes only when the last one has run.
pub proof fn every_instruction_is_awaited(step: InstructionStepView, event: StepEventView)
    requires
        step.wf(),
        step.expects(event),
    ensures
        step.next(event).0.wf(),
        step.next(event).1 matches StepActionView::AwaitUpdate { at_least } ==> at_least
            == update_after(step.before, step.expected),
        step.next(event).1 is Observe ==> step.expected == step.count,
        step.next(event).0.before == step.before,
        step.next(event).0.expected <= step.expected + 1,
{
}

fn step_with(
    count: u64,
    before: u64,
    expected: u64,
    host: HostState,
    phase: Phase,
) -> (r: InstructionStep)
    ensures
        r@ == (InstructionStepView { count, before, expected, host, phase: phase@ }),
{
    InstructionStep { count, before, expected, host, phase }
}

impl InstructionStep {
    /// Starts an instruction step, or refuses the request. `frozen` is the answer of the frozen
    /// check, `update_count` the counter of debugger updates.
    pub fn begin(
        params: &Json,
        host: HostState,
        frozen: Result<(), N64Error>,
        update_count: u64,
    ) -> (r: Result<(InstructionStep, StepAction), N64Error>)
        ensures
            match (r, begun(params@, host, frame_step::unit_view(frozen), update_count)) {
                (Ok((step, action)), Ok(expected)) => (step@, action@) == expected && step@.wf(),
                (Err(e), Err(f)) => e@ == f,
                _ => false,
            },
    {
        params::require_r4300(params)?;
        frozen?;
        let requested: u64 = match params::optional_num(params, "count")? {
            Some(n) => n,
            None => 1,
        };
        let count: u64 = frame_step::check_count(requested, "instruction")?;
        if host.frame_paused {
            Ok((step_with(count, update_count, 1, host, Phase::SettingPause), StepAction::SetPaused))
        } else {
            Ok((step_with(count, update_count, 1, host, Phase::Stepping), StepAction::DebugStep))
        }
    }

    fn finish(self, result: Result<Json, N64Error>) -> (r: (InstructionStep, StepAction))
        ensures
            (r.0@, r.1@) == self@.ends(frame_step::report_view(result)),
    {
        (
            step_with(self.count, self.before, self.expected, self.host, Phase::Finished),
            StepAction::Finish(result),
        )
    }

    fn counted(self) -> (r: (InstructionStep, StepAction))
        requires
            self@.wf(),
        ensures
            (r.0@, r.1@) == self@.counted(),
    {
        if self.expected == self.count {
            (
                step_with(self.count, self.before, self.expected, self.host, Phase::Reporting),
                StepAction::Observe,
            )
        } else {
            (
                step_with(self.count, self.before, self.expected + 1, self.host, Phase::Stepping),
                StepAction::DebugStep,
            )
        }
    }

    fn frozen(self) -> (r: InstructionStep)
        ensures
            r@ == (InstructionStepView {
                host: HostState { frozen: true, frame_paused: false, ..self.host },
                ..self@
            }),
    {
        let mut host = self.host;
        host.frozen = true;
        host.frame_paused = false;
        step_with(self.count, self.before, self.expected, host, self.phase)
    }

    /// Takes in what came of the last action and says what to do next.
    pub fn advance(self, event: StepEvent) -> (r: (InstructionStep, StepAction))
        requires
            self@.wf(),
            self@.expects(event@),
        ensures
            (r.0@, r.1@) == self@.next(event@),
            r.0@.wf(),
    {
        let count: u64 = self.count;
        let before: u64 = self.before;
        let expected: u64 = self.expected;
        let host = self.host;
        match event {
            StepEvent::PauseSet(code) => if code != 0 {
                self.finish(
                    Err(
                        N64Error::Core {
                            operation: "DebugSetRunState(instruction boundary)".to_owned(),
                            code,
                        },
                    ),
                )
            } else {
                (
                    step_with(count, before, expected, host, Phase::ReleasingGate),
                    StepAction::ReleaseGate,
                )
            },
            StepEvent::Released(result) => match result {
                Err(cause) => (
                    step_with(count, before, expected, host, Phase::RecoveringFrame { cause }),
                    StepAction::RecoverFrame,
                ),
                Ok(()) => (
                    step_with(count, before, expected, host, Phase::AwaitingBoundary),
                    StepAction::AwaitBoundary { before },
                ),
            },
            StepEvent::BudgetSpent(error) => self.finish(Err(error)),
            StepEvent::Awaited(result) => match result {
                Err(cause) => {
                    (
                        step_with(
                            count,
                            before,
                            expected,
                            host,
                            Phase::RecoveringInstruction { cause },
                        ),
                        StepAction::RecoverInstruction {
                            at_least: before.saturating_add(expected),
                        },
                    )
                },
                Ok(()) => match self.phase {
                    Phase::AwaitingBoundary => {
                        let mut host = host;
                        host.frame_paused = false;
                        step_with(count, before, expected, host, Phase::AwaitingBoundary).counted()
                    },
                    _ => (
                        step_with(count, before, expected, host, Phase::Draining),
                        StepAction::Drain,
                    ),
                },
            },
            StepEvent::Stepped(code) => if code != 0 {
                self.finish(Err(N64Error::Core { operation: "DebugStep".to_owned(), code }))
            } else {
                (
                    step_with(count, before, expected, host, Phase::AwaitingUpdate),
                    StepAction::AwaitUpdate { at_least: before.saturating_add(expected) },
                )
            },
            StepEvent::Drained(result) => match result {
                Err(error) => self.frozen().finish(Err(error)),
                Ok(Some(hit)) => {
                    let report = frame_step::interruption(hit, "instructions", expected);
                    self.frozen().finish(Ok(report))
                },
                Ok(None) => self.counted(),
            },
            StepEvent::Recovered(result) => match result {
                Err(error) => self.finish(Err(error)),
                Ok(()) => {
                    let mut host = host;
                    host.frozen = true;
                    host.frame_paused = false;
                    let cause = match self.phase {
                        Phase::RecoveringFrame { cause } => cause,
                        Phase::RecoveringInstruction { cause } => cause,
                        _ => N64Error::BadState(String::new()),
                    };
                    step_with(count, before, expected, host, Phase::Finished).finish(Err(cause))
                },
            },
            StepEvent::Observed { pc, frame, vi_count } => {
                let mut host = host;
                host.frozen = true;
                step_with(count, before, expected, host, Phase::Finished).finish(
                    Ok(
                        Json::object().with("status", Json::text("completed")).with(
                            "unit",
                            Json::text("instructions"),
                        ).with("count", Json::Unsigned(count)).with(
                            "cpu",
                            Json::text("r4300"),
                        ).with("state", Json::text("frozen")).with(
                            "pc",
                            Json::Unsigned(pc as u64),
                        ).with("frame", Json::Unsigned(frame)).with(
                            "vi_count",
                            Json::Unsigned(vi_count),
                        ),
                    ),
                )
            },
        }
    }
}

} // verus!
