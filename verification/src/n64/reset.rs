//! Resetting the machine: it is brought to a debugger boundary, reset, given back the buttons that
//! are held, checked for its breakpoints, and set running where it ran before.

use vstd::prelude::*;
use crate::json::{Json, JsonView};
use crate::n64;
use crate::n64::control;
use crate::n64::control::{ButtonSet, KeyChange};
use crate::n64::execution;
use crate::n64::frame_step;
use crate::n64::lifecycle;
use crate::n64::lifecycle::{AdapterReadiness, HostState};
use crate::n64::params;
use crate::n64::pulse;
use crate::n64::service;
use crate::n64::{N64Error, N64ErrorView};
use crate::text;

verus! {

/// Where a reset stands.
#[derive(Debug)]
pub enum ResetStage {
    Pausing,
    /// The frame barrier holds the machine: the debugger is told to pause first.
    Setting { update: u64 },
    Releasing { update: u64 },
    Waiting,
    Commanding,
    /// The held buttons are being pressed again; `done` of them are.
    Pressing { row: Vec<KeyChange>, done: usize },
    Verifying,
    Settling,
    Resuming,
    Observing,
    Over,
}

/// What the stage of a reset holds.
pub enum ResetStageView {
    Pausing,
    Setting { update: u64 },
    Releasing { update: u64 },
    Waiting,
    Commanding,
    Pressing { row: Seq<KeyChange>, done: int },
    Verifying,
    Settling,
    Resuming,
    Observing,
    Over,
}

impl View for ResetStage {
    type V = ResetStageView;

    open spec fn view(&self) -> ResetStageView {
        match *self {
            ResetStage::Pausing => ResetStageView::Pausing,
            ResetStage::Setting { update } => ResetStageView::Setting { update },
            ResetStage::Releasing { update } => ResetStageView::Releasing { update },
            ResetStage::Waiting => ResetStageView::Waiting,
            ResetStage::Commanding => ResetStageView::Commanding,
            ResetStage::Pressing { row, done } => ResetStageView::Pressing {
                row: row@,
                done: done as int,
            },
            ResetStage::Verifying => ResetStageView::Verifying,
            ResetStage::Settling => ResetStageView::Settling,
            ResetStage::Resuming => ResetStageView::Resuming,
            ResetStage::Observing => ResetStageView::Observing,
            ResetStage::Over => ResetStageView::Over,
        }
    }
}

/// A reset under way.
#[derive(Debug)]
pub struct Reset {
    pub hard: bool,
    pub started_frozen: bool,
    /// The number that the next reset command gets.
    pub next_sequence: u64,
    pub host: HostState,
    pub stage: ResetStage,
}

/// What a reset under way holds.
pub struct ResetView {
    pub hard: bool,
    pub started_frozen: bool,
    pub next_sequence: u64,
    pub host: HostState,
    pub stage: ResetStageView,
}

impl View for Reset {
    type V = ResetView;

    open spec fn view(&self) -> ResetView {
        ResetView {
            hard: self.hard,
            started_frozen: self.started_frozen,
            next_sequence: self.next_sequence,
            host: self.host,
            stage: self.stage@,
        }
    }
}

/// What came of the last action of a reset.
#[derive(Debug)]
pub enum ResetEvent {
    /// The result of a pause or a resume, and what the host believes after it.
    Told { report: Result<Json, N64Error>, host: HostState },
    /// The answer of the core to a call.
    Answered(i32),
    Released(Result<(), N64Error>),
    Waited(Result<(), N64Error>),
    /// What became of the native breakpoints.
    Verified(Result<(), N64Error>),
    Settled,
    Observed { pc: u32 },
}

/// What an event of a reset holds.
pub enum ResetEventView {
    Told { report: Result<JsonView, N64ErrorView>, host: HostState },
    Answered(i32),
    Released(Result<(), N64ErrorView>),
    Waited(Result<(), N64ErrorView>),
    Verified(Result<(), N64ErrorView>),
    Settled,
    Observed { pc: u32 },
}

impl View for ResetEvent {
    type V = ResetEventView;

    open spec fn view(&self) -> ResetEventView {
        match *self {
            ResetEvent::Told { report, host } => ResetEventView::Told {
                report: frame_step::report_view(report),
                host,
            },
            ResetEvent::Answered(code) => ResetEventView::Answered(code),
            ResetEvent::Released(r) => ResetEventView::Released(frame_step::unit_view(r)),
            ResetEvent::Waited(r) => ResetEventView::Waited(frame_step::unit_view(r)),
            ResetEvent::Verified(r) => ResetEventView::Verified(frame_step::unit_view(r)),
            ResetEvent::Settled => ResetEventView::Settled,
            ResetEvent::Observed { pc } => ResetEventView::Observed { pc },
        }
    }
}

/// What a reset asks for next.
#[derive(Debug)]
pub enum ResetAction {
    Pause,
    /// Set the debugger's run state to paused.
    SetPaused,
    /// Let the stopped frame callback go on.
    ReleaseFrame,
    /// Wait until the debugger holds the machine after the given update.
    Await { after_update: u64 },
    /// Give the reset command to the core.
    Command { hard: bool },
    SendKey(KeyChange),
    /// Compare the native breakpoints with the table.
    Verify,
    /// Count the debugger updates so far as seen.
    Settle,
    Resume,
    /// Read the program counter.
    Observe,
    /// Mark every breakpoint as failed for the reason, and report it as the error.
    Distrust { reason: String },
    /// Report the result.
    Finish(Result<Json, N64Error>),
}

/// What an action of a reset holds.
pub enum ResetActionView {
    Pause,
    SetPaused,
    ReleaseFrame,
    Await { after_update: u64 },
    Command { hard: bool },
    SendKey(KeyChange),
    Verify,
    Settle,
    Resume,
    Observe,
    Distrust { reason: Seq<char> },
    Finish(Result<JsonView, N64ErrorView>),
}

impl View for ResetAction {
    type V = ResetActionView;

    open spec fn view(&self) -> ResetActionView {
        match *self {
            ResetAction::Pause => ResetActionView::Pause,
            ResetAction::SetPaused => ResetActionView::SetPaused,
            ResetAction::ReleaseFrame => ResetActionView::ReleaseFrame,
            ResetAction::Await { after_update } => ResetActionView::Await { after_update },
            ResetAction::Command { hard } => ResetActionView::Command { hard },
            ResetAction::SendKey(change) => ResetActionView::SendKey(change),
            ResetAction::Verify => ResetActionView::Verify,
            ResetAction::Settle => ResetActionView::Settle,
            ResetAction::Resume => ResetActionView::Resume,
            ResetAction::Observe => ResetActionView::Observe,
            ResetAction::Distrust { reason } => ResetActionView::Distrust { reason: reason@ },
            ResetAction::Finish(r) => ResetActionView::Finish(frame_step::report_view(r)),
        }
    }
}

/// The report of a reset.
pub open spec fn reset_view(sequence: u64, hard: bool, started_frozen: bool, pc: u32) -> JsonView {
    JsonView::object().with("status"@, JsonView::Str("completed"@)).with(
        "reset"@,
        JsonView::Str("completed"@),
    ).with("reset_seq"@, JsonView::Unsigned(sequence)).with("hard"@, JsonView::Bool(hard)).with(
        "state"@,
        JsonView::Str(service::run_state(started_frozen)),
    ).with("pc"@, JsonView::Unsigned(pc as u64))
}

fn reset_report(sequence: u64, hard: bool, started_frozen: bool, pc: u32) -> (r: Json)
    ensures
        r@ == reset_view(sequence, hard, started_frozen, pc),
{
    Json::object().with("status", Json::text("completed")).with(
        "reset",
        Json::text("completed"),
    ).with("reset_seq", Json::Unsigned(sequence)).with("hard", Json::Bool(hard)).with(
        "state",
        Json::text(service::run_state_name(started_frozen)),
    ).with("pc", Json::Unsigned(pc as u64))
}

impl ResetView {
    /// A reset that goes on at another stage.
    pub open spec fn at(self, stage: ResetStageView, action: ResetActionView) -> (
        ResetView,
        ResetActionView,
    ) {
        (ResetView { stage, ..self }, action)
    }

    /// A reset that ends.
    pub open spec fn ends(self, result: Result<JsonView, N64ErrorView>) -> (
        ResetView,
        ResetActionView,
    ) {
        self.at(ResetStageView::Over, ResetActionView::Finish(result))
    }

    /// A reset with another belief of the machine.
    pub open spec fn believing(self, host: HostState) -> ResetView {
        ResetView { host, ..self }
    }

    /// A reset that takes its number and gives the command.
    pub open spec fn commands(self) -> (ResetView, ResetActionView) {
        if self.next_sequence == u64::MAX {
            self.ends(n64::bad_state("N64 reset sequence is exhausted"@))
        } else {
            (ResetView { next_sequence: (self.next_sequence + 1) as u64, ..self }).at(
                ResetStageView::Commanding,
                ResetActionView::Command { hard: self.hard },
            )
        }
    }

    /// A reset that presses the held buttons again.
    pub open spec fn presses(self, row: Seq<KeyChange>, done: int) -> (ResetView, ResetActionView) {
        if done < row.len() {
            self.at(
                ResetStageView::Pressing { row, done },
                ResetActionView::SendKey(row[done]),
            )
        } else {
            self.at(ResetStageView::Verifying, ResetActionView::Verify)
        }
    }

    /// What a reset comes to by an event, with the buttons that are held.
    pub open spec fn next(self, held: Seq<bool>, event: ResetEventView) -> (
        ResetView,
        ResetActionView,
    ) {
        match (self.stage, event) {
            (ResetStageView::Pausing, ResetEventView::Told { report, host }) => match report {
                Err(e) => self.believing(host).ends(Err(e)),
                Ok(_) => self.believing(host).commands(),
            },
            (ResetStageView::Setting { update }, ResetEventView::Answered(code)) => if code == 0 {
                self.at(ResetStageView::Releasing { update }, ResetActionView::ReleaseFrame)
            } else {
                self.ends(execution::core_error("DebugSetRunState(reset boundary)"@, code))
            },
            (ResetStageView::Releasing { update }, ResetEventView::Released(r)) => match r {
                Err(e) => self.ends(Err(e)),
                Ok(()) => self.at(
                    ResetStageView::Waiting,
                    ResetActionView::Await { after_update: update },
                ),
            },
            (ResetStageView::Waiting, ResetEventView::Waited(r)) => match r {
                Err(e) => self.ends(Err(e)),
                Ok(()) => self.believing(
                    HostState { frame_paused: false, ..self.host },
                ).commands(),
            },
            (ResetStageView::Commanding, ResetEventView::Answered(code)) => if code == 0 {
                self.presses(control::changes(control::no_buttons(), held), 0)
            } else {
                self.ends(execution::core_error("RESET"@, code))
            },
            (ResetStageView::Pressing { row, done }, ResetEventView::Answered(code)) => if code
                == 0 {
                self.presses(row, done + 1)
            } else {
                self.ends(execution::core_error(pulse::key_command(row[done]), code))
            },
            (ResetStageView::Verifying, ResetEventView::Verified(r)) => match r {
                Err(e) => self.at(
                    ResetStageView::Over,
                    ResetActionView::Distrust {
                        reason: "N64 reset changed native breakpoints: "@ + e.sentence(),
                    },
                ),
                Ok(()) => self.at(ResetStageView::Settling, ResetActionView::Settle),
            },
            (ResetStageView::Settling, ResetEventView::Settled) => {
                let settled = self.believing(
                    HostState {
                        frozen: true,
                        frame_clock_synchronized: false,
                        ..self.host
                    },
                );
                if self.started_frozen {
                    settled.at(ResetStageView::Observing, ResetActionView::Observe)
                } else {
                    settled.at(ResetStageView::Resuming, ResetActionView::Resume)
                }
            },
            (ResetStageView::Resuming, ResetEventView::Told { report, host }) => match report {
                Err(e) => self.believing(host).ends(Err(e)),
                Ok(_) => self.believing(host).at(
                    ResetStageView::Observing,
                    ResetActionView::Observe,
                ),
            },
            (ResetStageView::Observing, ResetEventView::Observed { pc }) => self.ends(
                Ok(
                    reset_view(
                        (self.next_sequence - 1) as u64,
                        self.hard,
                        self.started_frozen,
                        pc,
                    ),
                ),
            ),
            _ => self.ends(n64::bad_state("N64 reset events are out of order"@)),
        }
    }

    /// The changes that are left stay within their row, and a reset that gave its command has its
    /// number.
    pub open spec fn wf(self) -> bool {
        &&& self.stage matches ResetStageView::Pressing { row, done } ==> 0 <= done < row.len()
        &&& self.commanded() ==> self.next_sequence > 0
    }

    /// Whether the command has been given.
    pub open spec fn commanded(self) -> bool {
        match self.stage {
            ResetStageView::Pausing => false,
            ResetStageView::Setting { .. } => false,
            ResetStageView::Releasing { .. } => false,
            ResetStageView::Waiting => false,
            ResetStageView::Over => false,
            _ => true,
        }
    }
}

/// A request for a reset, with the belief and the barriers that it finds.
pub open spec fn begun(
    params: JsonView,
    host: HostState,
    debugger_paused: bool,
    gate_blocked: bool,
    update: u64,
    sequence: u64,
) -> (ResetView, ResetActionView) {
    let first = ResetView {
        hard: params.truth_field("hard"@) == Some(true),
        started_frozen: host.at_boundary(debugger_paused, gate_blocked),
        next_sequence: sequence,
        host,
        stage: ResetStageView::Pausing,
    };
    if host.frame_paused && gate_blocked {
        first.at(ResetStageView::Setting { update }, ResetActionView::SetPaused)
    } else if !first.started_frozen {
        first.at(ResetStageView::Pausing, ResetActionView::Pause)
    } else {
        first.commands()
    }
}

impl Reset {
    fn end(self, result: Result<Json, N64Error>) -> (r: (Reset, ResetAction))
        ensures
            (r.0@, r.1@) == self@.ends(frame_step::report_view(result)),
    {
        (Reset { stage: ResetStage::Over, ..self }, ResetAction::Finish(result))
    }

    fn command(self) -> (r: (Reset, ResetAction))
        ensures
            (r.0@, r.1@) == self@.commands(),
    {
        if self.next_sequence == u64::MAX {
            return self.end(
                Err(N64Error::BadState("N64 reset sequence is exhausted".to_owned())),
            );
        }
        let hard = self.hard;
        let next_sequence: u64 = self.next_sequence + 1;
        (
            Reset { next_sequence, stage: ResetStage::Commanding, ..self },
            ResetAction::Command { hard },
        )
    }

    fn press_on(self, row: Vec<KeyChange>, done: usize) -> (r: (Reset, ResetAction))
        ensures
            (r.0@, r.1@) == self@.presses(row@, done as int),
    {
        if done < row.len() {
            let change = row[done];
            (
                Reset { stage: ResetStage::Pressing { row, done }, ..self },
                ResetAction::SendKey(change),
            )
        } else {
            (Reset { stage: ResetStage::Verifying, ..self }, ResetAction::Verify)
        }
    }

    /// Starts a reset.
    pub fn begin(
        params: &Json,
        readiness: AdapterReadiness,
        host: HostState,
        debugger_paused: bool,
        gate_blocked: bool,
        update: u64,
        sequence: u64,
    ) -> (r: Result<(Reset, ResetAction), N64Error>)
        ensures
            match r {
                Ok((reset, action)) => {
                    &&& execution::admitted(params@, readiness) is Ok
                    &&& (reset@, action@) == begun(
                        params@,
                        host,
                        debugger_paused,
                        gate_blocked,
                        update,
                        sequence,
                    )
                    &&& reset@.wf()
                },
                Err(e) => execution::admitted(params@, readiness) == Err::<(), _>(e@),
            },
    {
        params::require_r4300(params)?;
        lifecycle::require_connected(readiness)?;
        let hard = match params.get_bool("hard") {
            Some(hard) => hard,
            None => false,
        };
        let started_frozen = host.is_frozen_boundary(debugger_paused, gate_blocked);
        let first = Reset {
            hard,
            started_frozen,
            next_sequence: sequence,
            host,
            stage: ResetStage::Pausing,
        };
        if host.frame_paused && gate_blocked {
            Ok((Reset { stage: ResetStage::Setting { update }, ..first }, ResetAction::SetPaused))
        } else if !started_frozen {
            Ok((first, ResetAction::Pause))
        } else {
            Ok(first.command())
        }
    }

    /// Takes what came of the last action, with the buttons that are held.
    pub fn advance(self, held: &ButtonSet, event: ResetEvent) -> (r: (Reset, ResetAction))
        requires
            self@.wf(),
            held.wf(),
        ensures
            (r.0@, r.1@) == self@.next(held@, event@),
            r.0@.wf(),
    {
        let Reset { hard, started_frozen, next_sequence, host, stage } = self;
        let over = Reset { hard, started_frozen, next_sequence, host, stage: ResetStage::Over };
        match (stage, event) {
            (ResetStage::Pausing, ResetEvent::Told { report, host }) => {
                let told = Reset { host, ..over };
                match report {
                    Err(e) => told.end(Err(e)),
                    Ok(_) => told.command(),
                }
            },
            (ResetStage::Setting { update }, ResetEvent::Answered(code)) => {
                match n64::check_core("DebugSetRunState(reset boundary)", code) {
                    Err(e) => over.end(Err(e)),
                    Ok(()) => (
                        Reset { stage: ResetStage::Releasing { update }, ..over },
                        ResetAction::ReleaseFrame,
                    ),
                }
            },
            (ResetStage::Releasing { update }, ResetEvent::Released(r)) => match r {
                Err(e) => over.end(Err(e)),
                Ok(()) => (
                    Reset { stage: ResetStage::Waiting, ..over },
                    ResetAction::Await { after_update: update },
                ),
            },
            (ResetStage::Waiting, ResetEvent::Waited(r)) => match r {
                Err(e) => over.end(Err(e)),
                Ok(()) => {
                    let stands = Reset { host: HostState { frame_paused: false, ..host }, ..over };
                    stands.command()
                },
            },
            (ResetStage::Commanding, ResetEvent::Answered(code)) => {
                match n64::check_core("RESET", code) {
                    Err(e) => over.end(Err(e)),
                    Ok(()) => {
                        let none = ButtonSet::new();
                        let row = none.changes_to(held);
                        over.press_on(row, 0)
                    },
                }
            },
            (ResetStage::Pressing { row, done }, ResetEvent::Answered(code)) => {
                assert(done < row.len());
                match pulse::check_key(row[done], code) {
                    Err(e) => over.end(Err(e)),
                    Ok(()) => over.press_on(row, done + 1),
                }
            },
            (ResetStage::Verifying, ResetEvent::Verified(r)) => match r {
                Err(e) => {
                    let reason = text::join(
                        "N64 reset changed native breakpoints: ",
                        e.message().as_str(),
                    );
                    (over, ResetAction::Distrust { reason })
                },
                Ok(()) => (Reset { stage: ResetStage::Settling, ..over }, ResetAction::Settle),
            },
            (ResetStage::Settling, ResetEvent::Settled) => {
                let settled = HostState { frozen: true, frame_clock_synchronized: false, ..host };
                if started_frozen {
                    (
                        Reset { host: settled, stage: ResetStage::Observing, ..over },
                        ResetAction::Observe,
                    )
                } else {
                    (
                        Reset { host: settled, stage: ResetStage::Resuming, ..over },
                        ResetAction::Resume,
                    )
                }
            },
            (ResetStage::Resuming, ResetEvent::Told { report, host }) => {
                let told = Reset { host, ..over };
                match report {
                    Err(e) => told.end(Err(e)),
                    Ok(_) => (
                        Reset { stage: ResetStage::Observing, ..told },
                        ResetAction::Observe,
                    ),
                }
            },
            (ResetStage::Observing, ResetEvent::Observed { pc }) => over.end(
                Ok(reset_report(next_sequence - 1, hard, started_frozen, pc)),
            ),
            _ => over.end(
                Err(N64Error::BadState("N64 reset events are out of order".to_owned())),
            ),
        }
    }
}

/// A reset command takes the next number, once: the report tells the number that the command had,
/// and the next reset has the one after it.
pub proof fn resets_are_numbered(reset: ResetView, held: Seq<bool>, event: ResetEventView)
    ensures
        ({
            let (after, action) = reset.next(held, event);
            &&& action is Command ==> !reset.commanded() && reset.next_sequence < u64::MAX
                && after.next_sequence == reset.next_sequence + 1
            &&& !(action is Command) ==> after.next_sequence == reset.next_sequence
            &&& reset.commanded() ==> !(action is Command)
            &&& action matches ResetActionView::Finish(Ok(report)) ==> exists|pc: u32|
                report == #[trigger] reset_view(
                    (after.next_sequence - 1) as u64,
                    reset.hard,
                    reset.started_frozen,
                    pc,
                )
        }),
{
    if let (ResetStageView::Observing, ResetEventView::Observed { pc }) = (reset.stage, event) {
        let report = reset_view(
            (reset.next_sequence - 1) as u64,
            reset.hard,
            reset.started_frozen,
            pc,
        );
        assert(reset.next(held, event).1 == ResetActionView::Finish(Ok(report)));
    }
}

/// The keys that a reset presses again are those of the buttons that are held.
pub proof fn resets_press_what_is_held(held: Seq<bool>)
    requires
        held.len() == control::BUTTON_COUNT,
    ensures
        control::after_changes(
            control::no_buttons(),
            control::changes(control::no_buttons(), held),
        ) == held,
{
    control::changes_reach_the_desired_set(control::no_buttons(), held);
}

} // verus!
