//! Pressing buttons for some frames. A running machine is paused for it and set running after it;
//! whatever happens, the buttons that were held before are held again, or the launch generation is
//! stopped.

use vstd::prelude::*;
use crate::json::{Json, JsonView};
use crate::n64;
use crate::n64::control;
use crate::n64::control::{ButtonSet, KeyChange};
use crate::n64::execution;
use crate::n64::frame_step;
use crate::n64::lifecycle;
use crate::n64::lifecycle::AdapterReadiness;
use crate::n64::service;
use crate::n64::{N64Error, N64ErrorView};

verus! {

/// The report of a press that a breakpoint ended.
pub open spec fn interrupted_pulse(
    pulse: Seq<bool>,
    persistent: Seq<bool>,
    frames: u64,
    stepped: JsonView,
) -> JsonView {
    JsonView::object().with("status"@, JsonView::Str("interrupted"@)).with(
        "reason"@,
        JsonView::Str("breakpoint"@),
    ).with("breakpoint_id"@, stepped.at("breakpoint_id"@)).with("event"@, stepped.at("event"@)).with(
        "buttons"@,
        control::names_report(pulse),
    ).with("frames"@, JsonView::Unsigned(frames)).with(
        "persistent_buttons"@,
        control::names_report(persistent),
    ).with("transient_override_engaged"@, JsonView::Bool(false)).with(
        "state"@,
        JsonView::Str("frozen"@),
    )
}

/// The report of a completed press.
pub open spec fn completed_pulse(
    was_frozen: bool,
    pulse: Seq<bool>,
    persistent: Seq<bool>,
    frames: u64,
    stepped: JsonView,
) -> JsonView {
    JsonView::object().with("status"@, JsonView::Str("completed"@)).with(
        "buttons"@,
        control::names_report(pulse),
    ).with("frames"@, JsonView::Unsigned(frames)).with(
        "state"@,
        JsonView::Str(service::run_state(was_frozen)),
    ).with("persistent_buttons"@, control::names_report(persistent)).with(
        "transient_override_engaged"@,
        JsonView::Bool(false),
    ).with("frame"@, stepped.at("frame"@))
}

/// Where a press stands.
#[derive(Debug)]
pub enum PulseStage {
    Pausing,
    /// The buttons are being pressed; `done` of the changes are made.
    Pressing { row: Vec<KeyChange>, done: usize },
    Stepping,
    /// The buttons are being released; `done` of the changes are made.
    Releasing { row: Vec<KeyChange>, done: usize, outcome: Result<Json, N64Error> },
    Resuming { outcome: Result<Json, N64Error> },
    Over,
}

/// What the stage of a press holds.
pub enum PulseStageView {
    Pausing,
    Pressing { row: Seq<KeyChange>, done: int },
    Stepping,
    Releasing { row: Seq<KeyChange>, done: int, outcome: Result<JsonView, N64ErrorView> },
    Resuming { outcome: Result<JsonView, N64ErrorView> },
    Over,
}

/// A press under way: the buttons pressed, those held before, and those held now.
#[derive(Debug)]
pub struct Pulse {
    pub was_frozen: bool,
    pub pulse: ButtonSet,
    pub frames: u64,
    pub persistent: ButtonSet,
    pub held: ButtonSet,
    pub stage: PulseStage,
}

/// What a press under way holds.
pub struct PulseView {
    pub was_frozen: bool,
    pub pulse: Seq<bool>,
    pub frames: u64,
    pub persistent: Seq<bool>,
    pub held: Seq<bool>,
    pub stage: PulseStageView,
}

impl View for Pulse {
    type V = PulseView;

    open spec fn view(&self) -> PulseView {
        PulseView {
            was_frozen: self.was_frozen,
            pulse: self.pulse@,
            frames: self.frames,
            persistent: self.persistent@,
            held: self.held@,
            stage: match self.stage {
                PulseStage::Pausing => PulseStageView::Pausing,
                PulseStage::Pressing { row, done } => PulseStageView::Pressing {
                    row: row@,
                    done: done as int,
                },
                PulseStage::Stepping => PulseStageView::Stepping,
                PulseStage::Releasing { row, done, outcome } => PulseStageView::Releasing {
                    row: row@,
                    done: done as int,
                    outcome: frame_step::report_view(outcome),
                },
                PulseStage::Resuming { outcome } => PulseStageView::Resuming {
                    outcome: frame_step::report_view(outcome),
                },
                PulseStage::Over => PulseStageView::Over,
            },
        }
    }
}

/// What came of the last action of a press.
#[derive(Debug)]
pub enum PulseEvent {
    /// The result of a pause, a step or a resume.
    Told(Result<Json, N64Error>),
    /// The answer of the core to a key.
    KeySent(i32),
}

/// What an event of a press holds.
pub enum PulseEventView {
    Told(Result<JsonView, N64ErrorView>),
    KeySent(i32),
}

impl View for PulseEvent {
    type V = PulseEventView;

    open spec fn view(&self) -> PulseEventView {
        match *self {
            PulseEvent::Told(r) => PulseEventView::Told(frame_step::report_view(r)),
            PulseEvent::KeySent(code) => PulseEventView::KeySent(code),
        }
    }
}

/// What a press asks for next.
#[derive(Debug)]
pub enum PulseAction {
    Pause,
    SendKey(KeyChange),
    Step { frames: u64 },
    Resume,
    /// Stop the launch generation, and report the error.
    StopGeneration(N64Error),
    /// Report the result.
    Finish(Result<Json, N64Error>),
}

/// What an action of a press holds.
pub enum PulseActionView {
    Pause,
    SendKey(KeyChange),
    Step { frames: u64 },
    Resume,
    StopGeneration(N64ErrorView),
    Finish(Result<JsonView, N64ErrorView>),
}

impl View for PulseAction {
    type V = PulseActionView;

    open spec fn view(&self) -> PulseActionView {
        match *self {
            PulseAction::Pause => PulseActionView::Pause,
            PulseAction::SendKey(change) => PulseActionView::SendKey(change),
            PulseAction::Step { frames } => PulseActionView::Step { frames },
            PulseAction::Resume => PulseActionView::Resume,
            PulseAction::StopGeneration(e) => PulseActionView::StopGeneration(e@),
            PulseAction::Finish(r) => PulseActionView::Finish(frame_step::report_view(r)),
        }
    }
}

/// The name of the core command that makes a change.
pub open spec fn key_command(change: KeyChange) -> Seq<char> {
    if change.pressed {
        "SEND_SDL_KEYDOWN"@
    } else {
        "SEND_SDL_KEYUP"@
    }
}

/// What the core's answer to a key comes to.
pub fn check_key(change: KeyChange, code: i32) -> (r: Result<(), N64Error>)
    ensures
        n64::gives(
            r,
            if code == 0 {
                Ok(())
            } else {
                execution::core_error(key_command(change), code)
            },
        ),
{
    if change.pressed {
        n64::check_core("SEND_SDL_KEYDOWN", code)
    } else {
        n64::check_core("SEND_SDL_KEYUP", code)
    }
}

impl PulseView {
    /// A press that ends.
    pub open spec fn ends(self, result: Result<JsonView, N64ErrorView>) -> (
        PulseView,
        PulseActionView,
    ) {
        (PulseView { stage: PulseStageView::Over, ..self }, PulseActionView::Finish(result))
    }

    /// A press whose buttons are being pressed.
    pub open spec fn presses(self, row: Seq<KeyChange>, done: int) -> (PulseView, PulseActionView) {
        if done < row.len() {
            (
                PulseView { stage: PulseStageView::Pressing { row, done }, ..self },
                PulseActionView::SendKey(row[done]),
            )
        } else {
            (
                PulseView { stage: PulseStageView::Stepping, ..self },
                PulseActionView::Step { frames: self.frames },
            )
        }
    }

    /// A press that begins: what is missing from the union of both sets is pressed.
    pub open spec fn starts(self) -> (PulseView, PulseActionView) {
        self.presses(
            control::changes(self.held, control::union_of(self.persistent, self.pulse)),
            0,
        )
    }

    /// A press whose buttons have been released.
    pub open spec fn concludes(self, outcome: Result<JsonView, N64ErrorView>) -> (
        PulseView,
        PulseActionView,
    ) {
        match outcome {
            Ok(stepped) if execution::was_interrupted(stepped) => self.ends(
                Ok(interrupted_pulse(self.pulse, self.held, self.frames, stepped)),
            ),
            Ok(stepped) => self.runs_on(
                Ok(
                    completed_pulse(
                        self.was_frozen,
                        self.pulse,
                        self.held,
                        self.frames,
                        stepped,
                    ),
                ),
            ),
            Err(e) => self.runs_on(Err(e)),
        }
    }

    /// A press that sets the machine running where it ran before, and ends.
    pub open spec fn runs_on(self, outcome: Result<JsonView, N64ErrorView>) -> (
        PulseView,
        PulseActionView,
    ) {
        if self.was_frozen {
            self.ends(outcome)
        } else {
            (
                PulseView { stage: PulseStageView::Resuming { outcome }, ..self },
                PulseActionView::Resume,
            )
        }
    }

    /// A press whose buttons are being released.
    pub open spec fn releases(
        self,
        row: Seq<KeyChange>,
        done: int,
        outcome: Result<JsonView, N64ErrorView>,
    ) -> (PulseView, PulseActionView) {
        if done < row.len() {
            (
                PulseView { stage: PulseStageView::Releasing { row, done, outcome }, ..self },
                PulseActionView::SendKey(row[done]),
            )
        } else {
            self.concludes(outcome)
        }
    }

    /// A press that brings the buttons back that were held before.
    pub open spec fn brings_back(self, outcome: Result<JsonView, N64ErrorView>) -> (
        PulseView,
        PulseActionView,
    ) {
        self.releases(control::changes(self.held, self.persistent), 0, outcome)
    }

    /// A press that has made one more change.
    pub open spec fn making(self, change: KeyChange) -> PulseView {
        PulseView { held: control::changed(self.held, change), ..self }
    }

    /// What a press comes to by an event.
    pub open spec fn next(self, event: PulseEventView) -> (PulseView, PulseActionView) {
        match (self.stage, event) {
            (PulseStageView::Pausing, PulseEventView::Told(Err(e))) => self.ends(Err(e)),
            (PulseStageView::Pausing, PulseEventView::Told(Ok(_))) => self.starts(),
            (PulseStageView::Pressing { row, done }, PulseEventView::KeySent(code)) => if code
                == 0 {
                self.making(row[done]).presses(row, done + 1)
            } else {
                self.brings_back(execution::core_error(key_command(row[done]), code))
            },
            (PulseStageView::Stepping, PulseEventView::Told(outcome)) => self.brings_back(outcome),
            (
                PulseStageView::Releasing { row, done, outcome },
                PulseEventView::KeySent(code),
            ) => if code == 0 {
                self.making(row[done]).releases(row, done + 1, outcome)
            } else {
                (
                    PulseView { stage: PulseStageView::Over, ..self },
                    PulseActionView::StopGeneration(
                        N64ErrorView::GenerationStopped {
                            operation: "input-pulse cleanup"@,
                            reason: (N64ErrorView::Core {
                                operation: key_command(row[done]),
                                code,
                            }).sentence(),
                        },
                    ),
                )
            },
            (PulseStageView::Resuming { outcome }, PulseEventView::Told(r)) => match r {
                Err(e) => self.ends(Err(e)),
                Ok(_) => self.ends(outcome),
            },
            _ => self.ends(n64::bad_state("N64 press_buttons events are out of order"@)),
        }
    }

    /// The sets speak of every button, and the changes that are left lead where they should.
    pub open spec fn wf(self) -> bool {
        &&& self.pulse.len() == control::BUTTON_COUNT
        &&& self.persistent.len() == control::BUTTON_COUNT
        &&& self.held.len() == control::BUTTON_COUNT
        &&& match self.stage {
            PulseStageView::Pausing => self.held == self.persistent,
            PulseStageView::Pressing { row, done } => 0 <= done < row.len() && control::of_buttons(
                row,
            ),
            PulseStageView::Stepping => true,
            PulseStageView::Releasing { row, done, outcome } => {
                &&& 0 <= done < row.len()
                &&& control::of_buttons(row)
                &&& control::after_changes(self.held, row.skip(done)) == self.persistent
            },
            PulseStageView::Resuming { .. } => self.held == self.persistent,
            PulseStageView::Over => true,
        }
    }
}

proof fn rows_lead_on(held: Seq<bool>, row: Seq<KeyChange>, done: int)
    requires
        0 <= done < row.len(),
    ensures
        control::after_changes(held, row.skip(done)) == control::after_changes(
            control::changed(held, row[done]),
            row.skip(done + 1),
        ),
        done + 1 == row.len() ==> control::after_changes(held, row.skip(done)) == control::changed(
            held,
            row[done],
        ),
{
    let rest = row.skip(done);
    control::first_change_first(held, rest);
    assert(rest.skip(1) =~= row.skip(done + 1));
    if done + 1 == row.len() {
        assert(row.skip(done + 1) =~= Seq::empty());
    }
}

proof fn back_in_shape(press: PulseView, outcome: Result<JsonView, N64ErrorView>)
    requires
        press.pulse.len() == control::BUTTON_COUNT,
        press.persistent.len() == control::BUTTON_COUNT,
        press.held.len() == control::BUTTON_COUNT,
    ensures
        press.brings_back(outcome).0.wf(),
        press.brings_back(outcome).1 is Finish ==> press.brings_back(outcome).0.held
            == press.persistent,
{
    let row = control::changes(press.held, press.persistent);
    control::changes_are_of_buttons(press.held, press.persistent);
    control::changes_reach_the_desired_set(press.held, press.persistent);
    assert(row.skip(0) =~= row);
    if row.len() == 0 {
        assert(row =~= Seq::empty());
    }
}

/// A press keeps its shape from event to event. Once it has pressed anything, it does not end but
/// with the buttons held that were held before, or with the launch generation stopped.
pub proof fn presses_put_the_buttons_back(press: PulseView, event: PulseEventView)
    requires
        press.wf(),
        !(press.stage is Over),
        match press.stage {
            PulseStageView::Pausing | PulseStageView::Stepping | PulseStageView::Resuming {
                ..
            } => event is Told,
            _ => event is KeySent,
        },
    ensures
        press.next(event).0.wf(),
        press.next(event).1 is Finish ==> press.next(event).0.held == press.persistent,
        press.next(event).0.persistent == press.persistent,
{
    match press.stage {
        PulseStageView::Pausing => {
            control::changes_are_of_buttons(
                press.held,
                control::union_of(press.persistent, press.pulse),
            );
        },
        PulseStageView::Pressing { row, done } => {
            if event->KeySent_0 != 0 {
                back_in_shape(
                    press,
                    execution::core_error(key_command(row[done]), event->KeySent_0),
                );
            }
        },
        PulseStageView::Stepping => {
            back_in_shape(press, event->Told_0);
        },
        PulseStageView::Releasing { row, done, outcome } => {
            rows_lead_on(press.held, row, done);
        },
        _ => {},
    }
}

/// A press of a running machine leaves it running unless a breakpoint interrupted it, the machine
/// could not be set running, or the generation was stopped; one of a frozen machine never sets it
/// running.
pub proof fn presses_keep_the_run_state(press: PulseView, event: PulseEventView)
    requires
        press.wf(),
    ensures
        press.was_frozen ==> !(press.next(event).1 is Resume),
        !press.was_frozen && !(press.stage is Resuming) ==> (press.next(event).1 matches
            PulseActionView::Finish(Ok(report)) ==> exists|stepped: JsonView|
            execution::was_interrupted(stepped) && report == #[trigger] interrupted_pulse(
                press.pulse,
                press.next(event).0.held,
                press.frames,
                stepped,
            )),
{
    let after = press.next(event).0;
    match (press.stage, event) {
        (PulseStageView::Stepping, PulseEventView::Told(Ok(stepped))) => {
            assert(!press.was_frozen && press.next(event).1 is Finish ==> press.next(event).1
                == PulseActionView::Finish(
                Ok(interrupted_pulse(press.pulse, after.held, press.frames, stepped)),
            ));
        },
        (PulseStageView::Releasing { outcome: Ok(stepped), .. }, _) => {
            assert(!press.was_frozen && press.next(event).1 is Finish && press.next(
                event,
            ).1->Finish_0 is Ok ==> press.next(event).1 == PulseActionView::Finish(
                Ok(interrupted_pulse(press.pulse, after.held, press.frames, stepped)),
            ));
        },
        _ => {},
    }
}

impl Pulse {
    fn end(self, result: Result<Json, N64Error>) -> (r: (Pulse, PulseAction))
        ensures
            (r.0@, r.1@) == self@.ends(frame_step::report_view(result)),
    {
        (Pulse { stage: PulseStage::Over, ..self }, PulseAction::Finish(result))
    }

    fn press_on(self, row: Vec<KeyChange>, done: usize) -> (r: (Pulse, PulseAction))
        requires
            done <= row@.len(),
        ensures
            (r.0@, r.1@) == self@.presses(row@, done as int),
    {
        if done < row.len() {
            let change = row[done];
            (
                Pulse { stage: PulseStage::Pressing { row, done }, ..self },
                PulseAction::SendKey(change),
            )
        } else {
            let frames = self.frames;
            (Pulse { stage: PulseStage::Stepping, ..self }, PulseAction::Step { frames })
        }
    }

    fn start(self) -> (r: (Pulse, PulseAction))
        requires
            self.pulse.wf(),
            self.persistent.wf(),
            self.held.wf(),
        ensures
            (r.0@, r.1@) == self@.starts(),
    {
        let active = self.persistent.union(&self.pulse);
        let row = self.held.changes_to(&active);
        self.press_on(row, 0)
    }

    fn conclude(self, outcome: Result<Json, N64Error>) -> (r: (Pulse, PulseAction))
        requires
            self.pulse.wf(),
            self.held.wf(),
        ensures
            (r.0@, r.1@) == self@.concludes(frame_step::report_view(outcome)),
    {
        match outcome {
            Err(e) => self.run_on(Err(e)),
            Ok(stepped) => {
                let pressed = Json::texts(self.pulse.names().as_slice());
                let held = Json::texts(self.held.names().as_slice());
                if execution::tells(&stepped, "status", "interrupted") {
                    let report = Json::object().with("status", Json::text("interrupted")).with(
                        "reason",
                        Json::text("breakpoint"),
                    ).with("breakpoint_id", stepped.at("breakpoint_id")).with(
                        "event",
                        stepped.at("event"),
                    ).with("buttons", pressed).with("frames", Json::Unsigned(self.frames)).with(
                        "persistent_buttons",
                        held,
                    ).with("transient_override_engaged", Json::Bool(false)).with(
                        "state",
                        Json::text("frozen"),
                    );
                    return self.end(Ok(report));
                }
                let report = Json::object().with("status", Json::text("completed")).with(
                    "buttons",
                    pressed,
                ).with("frames", Json::Unsigned(self.frames)).with(
                    "state",
                    Json::text(service::run_state_name(self.was_frozen)),
                ).with("persistent_buttons", held).with(
                    "transient_override_engaged",
                    Json::Bool(false),
                ).with("frame", stepped.at("frame"));
                self.run_on(Ok(report))
            },
        }
    }

    fn run_on(self, outcome: Result<Json, N64Error>) -> (r: (Pulse, PulseAction))
        ensures
            (r.0@, r.1@) == self@.runs_on(frame_step::report_view(outcome)),
    {
        if self.was_frozen {
            self.end(outcome)
        } else {
            (Pulse { stage: PulseStage::Resuming { outcome }, ..self }, PulseAction::Resume)
        }
    }

    fn release_on(self, row: Vec<KeyChange>, done: usize, outcome: Result<Json, N64Error>) -> (r: (
        Pulse,
        PulseAction,
    ))
        requires
            done <= row@.len(),
            self.pulse.wf(),
            self.held.wf(),
        ensures
            (r.0@, r.1@) == self@.releases(row@, done as int, frame_step::report_view(outcome)),
    {
        if done < row.len() {
            let change = row[done];
            (
                Pulse { stage: PulseStage::Releasing { row, done, outcome }, ..self },
                PulseAction::SendKey(change),
            )
        } else {
            self.conclude(outcome)
        }
    }

    fn bring_back(self, outcome: Result<Json, N64Error>) -> (r: (Pulse, PulseAction))
        requires
            self.pulse.wf(),
            self.persistent.wf(),
            self.held.wf(),
        ensures
            (r.0@, r.1@) == self@.brings_back(frame_step::report_view(outcome)),
    {
        let row = self.held.changes_to(&self.persistent);
        self.release_on(row, 0, outcome)
    }

    /// Starts a press; `was_frozen` says whether the machine stands at a boundary.
    pub fn begin(params: &Json, readiness: AdapterReadiness, held: &ButtonSet, was_frozen: bool) -> (r:
        Result<(Pulse, PulseAction), N64Error>)
        requires
            held.wf(),
        ensures
            match r {
                Ok((press, action)) => {
                    &&& control::pulse_request(params@, readiness) == Ok::<_, N64ErrorView>(
                        (press@.pulse, press@.frames),
                    )
                    &&& press@.persistent == held@
                    &&& press@.was_frozen == was_frozen
                    &&& press@.wf()
                    &&& ({
                        let first = PulseView {
                            held: held@,
                            stage: PulseStageView::Pausing,
                            ..press@
                        };
                        (press@, action@) == if was_frozen {
                            first.starts()
                        } else {
                            (first, PulseActionView::Pause)
                        }
                    })
                },
                Err(e) => control::pulse_request(params@, readiness) == Err::<
                    (Seq<bool>, u64),
                    _,
                >(e@),
            },
    {
        let (pulse, frames) = control::check_pulse(params, readiness)?;
        let first = Pulse {
            was_frozen,
            pulse,
            frames,
            persistent: held.duplicate(),
            held: held.duplicate(),
            stage: PulseStage::Pausing,
        };
        proof {
            control::changes_are_of_buttons(held@, control::union_of(held@, pulse@));
        }
        if was_frozen {
            Ok(first.start())
        } else {
            Ok((first, PulseAction::Pause))
        }
    }

    /// Takes what came of the last action.
    pub fn advance(self, event: PulseEvent) -> (r: (Pulse, PulseAction))
        requires
            self@.wf(),
        ensures
            (r.0@, r.1@) == self@.next(event@),
    {
        let Pulse { was_frozen, pulse, frames, persistent, held, stage } = self;
        let over = Pulse { was_frozen, pulse, frames, persistent, held, stage: PulseStage::Over };
        match (stage, event) {
            (PulseStage::Pausing, PulseEvent::Told(r)) => match r {
                Err(e) => over.end(Err(e)),
                Ok(_) => over.start(),
            },
            (PulseStage::Pressing { row, done }, PulseEvent::KeySent(code)) => {
                assert(done < row.len());
                match check_key(row[done], code) {
                    Err(e) => over.bring_back(Err(e)),
                    Ok(()) => {
                        let mut over = over;
                        over.held.apply(row[done]);
                        over.press_on(row, done + 1)
                    },
                }
            },
            (PulseStage::Stepping, PulseEvent::Told(outcome)) => over.bring_back(outcome),
            (PulseStage::Releasing { row, done, outcome }, PulseEvent::KeySent(code)) => {
                assert(done < row.len());
                match check_key(row[done], code) {
                    Err(e) => {
                        let stopped = lifecycle::generation_stopped("input-pulse cleanup", &e);
                        (over, PulseAction::StopGeneration(stopped))
                    },
                    Ok(()) => {
                        let mut over = over;
                        over.held.apply(row[done]);
                        over.release_on(row, done + 1, outcome)
                    },
                }
            },
            (PulseStage::Resuming { outcome }, PulseEvent::Told(r)) => match r {
                Err(e) => over.end(Err(e)),
                Ok(_) => over.end(outcome),
            },
            _ => over.end(
                Err(N64Error::BadState("N64 press_buttons events are out of order".to_owned())),
            ),
        }
    }
}

} // verus!
