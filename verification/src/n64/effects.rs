//! Operations that the core carries out by itself while a frame passes: screenshots, and save
//! states written and read. One whose outcome stays unknown stops the launch generation.

use vstd::prelude::*;
use crate::json::{Json, JsonView};
use crate::n64;
use crate::n64::control;
use crate::n64::frame::FrameGateTrigger;
use crate::n64::frame_step;
use crate::n64::lifecycle;
use crate::n64::lifecycle::HostState;
use crate::n64::{N64Error, N64ErrorView};

verus! {

/// An operation that the core carries out by itself.
#[derive(Clone, Copy, Debug, PartialEq, Eq, Structural)]
pub enum EffectKind {
    Screenshot,
    SaveState,
    LoadState,
}

impl EffectKind {
    /// The name of the operation.
    pub open spec fn operation(self) -> Seq<char> {
        match self {
            EffectKind::Screenshot => "screenshot"@,
            EffectKind::SaveState => "save_state"@,
            EffectKind::LoadState => "load_state"@,
        }
    }

    /// The name of the core command.
    pub open spec fn command(self) -> Seq<char> {
        match self {
            EffectKind::Screenshot => "TAKE_NEXT_SCREENSHOT"@,
            EffectKind::SaveState => "STATE_SAVE"@,
            EffectKind::LoadState => "STATE_LOAD"@,
        }
    }

    /// The name of the wait for the core's word.
    pub open spec fn completion(self) -> Seq<char> {
        match self {
            EffectKind::Screenshot => "screenshot completion"@,
            EffectKind::SaveState => "save-state completion"@,
            EffectKind::LoadState => "load-state completion"@,
        }
    }

    /// What the frame barrier waits for.
    pub open spec fn trigger(self) -> FrameGateTrigger {
        match self {
            EffectKind::Screenshot => FrameGateTrigger::ScreenshotCompleted,
            _ => FrameGateTrigger::NextFrame,
        }
    }

    /// What the host believes from the command on: a loaded state may bring another frame counter.
    pub open spec fn belief(self, host: HostState) -> HostState {
        match self {
            EffectKind::LoadState => HostState { frame_clock_synchronized: false, ..host },
            _ => host,
        }
    }

    fn operation_name(self) -> (r: &'static str)
        ensures
            r@ == self.operation(),
    {
        match self {
            EffectKind::Screenshot => "screenshot",
            EffectKind::SaveState => "save_state",
            EffectKind::LoadState => "load_state",
        }
    }

    fn command_name(self) -> (r: &'static str)
        ensures
            r@ == self.command(),
    {
        match self {
            EffectKind::Screenshot => "TAKE_NEXT_SCREENSHOT",
            EffectKind::SaveState => "STATE_SAVE",
            EffectKind::LoadState => "STATE_LOAD",
        }
    }

    fn completion_name(self) -> (r: &'static str)
        ensures
            r@ == self.completion(),
    {
        match self {
            EffectKind::Screenshot => "screenshot completion",
            EffectKind::SaveState => "save-state completion",
            EffectKind::LoadState => "load-state completion",
        }
    }

    fn awaited(self) -> (r: FrameGateTrigger)
        ensures
            r == self.trigger(),
    {
        match self {
            EffectKind::Screenshot => FrameGateTrigger::ScreenshotCompleted,
            _ => FrameGateTrigger::NextFrame,
        }
    }
}

/// Where such an operation stands.
#[derive(Debug)]
pub enum EffectStage {
    Commanding,
    Stepping,
    Awaiting { stepped: Json },
    Over,
}

/// What the stage of such an operation holds.
pub enum EffectStageView {
    Commanding,
    Stepping,
    Awaiting { stepped: JsonView },
    Over,
}

/// Such an operation under way.
#[derive(Debug)]
pub struct NativeEffect {
    pub kind: EffectKind,
    pub stage: EffectStage,
}

/// What such an operation under way holds.
pub struct NativeEffectView {
    pub kind: EffectKind,
    pub stage: EffectStageView,
}

impl View for NativeEffect {
    type V = NativeEffectView;

    open spec fn view(&self) -> NativeEffectView {
        NativeEffectView {
            kind: self.kind,
            stage: match self.stage {
                EffectStage::Commanding => EffectStageView::Commanding,
                EffectStage::Stepping => EffectStageView::Stepping,
                EffectStage::Awaiting { stepped } => EffectStageView::Awaiting { stepped: stepped@ },
                EffectStage::Over => EffectStageView::Over,
            },
        }
    }
}

/// What came of the last action.
#[derive(Debug)]
pub enum EffectEvent {
    /// The answer of the core to the command.
    Commanded(i32),
    Stepped(Result<Json, N64Error>),
    /// The word of the core on the outcome, or nothing where it did not come in time.
    Settled(Option<i32>),
}

/// What an event holds.
pub enum EffectEventView {
    Commanded(i32),
    Stepped(Result<JsonView, N64ErrorView>),
    Settled(Option<i32>),
}

impl View for EffectEvent {
    type V = EffectEventView;

    open spec fn view(&self) -> EffectEventView {
        match *self {
            EffectEvent::Commanded(code) => EffectEventView::Commanded(code),
            EffectEvent::Stepped(r) => EffectEventView::Stepped(frame_step::report_view(r)),
            EffectEvent::Settled(word) => EffectEventView::Settled(word),
        }
    }
}

/// What to do next.
#[derive(Debug)]
pub enum EffectAction {
    /// Give the command to the core.
    Command,
    /// Step one frame.
    Step { trigger: FrameGateTrigger },
    /// Wait for the word of the core.
    Await,
    /// The operation is done; the step told this.
    Proceed { stepped: Json },
    /// Report the error.
    Fail(N64Error),
    /// Stop the launch generation, and report the error.
    StopGeneration(N64Error),
}

/// What an action holds.
pub enum EffectActionView {
    Command,
    Step { trigger: FrameGateTrigger },
    Await,
    Proceed { stepped: JsonView },
    Fail(N64ErrorView),
    StopGeneration(N64ErrorView),
}

impl View for EffectAction {
    type V = EffectActionView;

    open spec fn view(&self) -> EffectActionView {
        match *self {
            EffectAction::Command => EffectActionView::Command,
            EffectAction::Step { trigger } => EffectActionView::Step { trigger },
            EffectAction::Await => EffectActionView::Await,
            EffectAction::Proceed { stepped } => EffectActionView::Proceed { stepped: stepped@ },
            EffectAction::Fail(e) => EffectActionView::Fail(e@),
            EffectAction::StopGeneration(e) => EffectActionView::StopGeneration(e@),
        }
    }
}

impl NativeEffectView {
    /// An operation that is over.
    pub open spec fn over(self, action: EffectActionView) -> (NativeEffectView, EffectActionView) {
        (NativeEffectView { stage: EffectStageView::Over, ..self }, action)
    }

    /// An operation whose outcome stays unknown.
    pub open spec fn unresolved(self, cause: N64ErrorView) -> (NativeEffectView, EffectActionView) {
        self.over(
            EffectActionView::StopGeneration(
                N64ErrorView::GenerationStopped {
                    operation: self.kind.operation(),
                    reason: cause.sentence(),
                },
            ),
        )
    }

    /// What such an operation comes to by an event. A command that the core refuses has no effect;
    /// once it is accepted, the outcome is the core's own word or unknown.
    pub open spec fn next(self, event: EffectEventView) -> (NativeEffectView, EffectActionView) {
        match (self.stage, event) {
            (EffectStageView::Commanding, EffectEventView::Commanded(code)) => if code == 0 {
                (
                    NativeEffectView { stage: EffectStageView::Stepping, ..self },
                    EffectActionView::Step { trigger: self.kind.trigger() },
                )
            } else {
                self.over(
                    EffectActionView::Fail(
                        N64ErrorView::Core { operation: self.kind.command(), code },
                    ),
                )
            },
            (EffectStageView::Stepping, EffectEventView::Stepped(r)) => match r {
                Err(e) => self.unresolved(e),
                Ok(stepped) => (
                    NativeEffectView { stage: EffectStageView::Awaiting { stepped }, ..self },
                    EffectActionView::Await,
                ),
            },
            (EffectStageView::Awaiting { stepped }, EffectEventView::Settled(word)) => match word {
                None => self.unresolved(N64ErrorView::Timeout(self.kind.completion())),
                Some(value) => if value == 1 {
                    self.over(EffectActionView::Proceed { stepped })
                } else {
                    self.over(
                        EffectActionView::Fail(
                            N64ErrorView::BadState(
                                ("Mupen64Plus reported that "@ + self.kind.completion())
                                    + " failed"@,
                            ),
                        ),
                    )
                },
            },
            _ => self.over(
                EffectActionView::Fail(
                    N64ErrorView::BadState("N64 operation events are out of order"@),
                ),
            ),
        }
    }
}

impl NativeEffect {
    /// Starts such an operation on a frozen machine.
    pub fn begin(kind: EffectKind, host: HostState) -> (r: (NativeEffect, HostState, EffectAction))
        ensures
            r.0@ == (NativeEffectView { kind, stage: EffectStageView::Commanding }),
            r.1 == kind.belief(host),
            r.2 is Command,
    {
        let belief = match kind {
            EffectKind::LoadState => HostState { frame_clock_synchronized: false, ..host },
            _ => host,
        };
        (NativeEffect { kind, stage: EffectStage::Commanding }, belief, EffectAction::Command)
    }

    fn stop(kind: EffectKind, cause: N64Error) -> (r: (NativeEffect, EffectAction))
        ensures
            (r.0@, r.1@) == (NativeEffectView { kind, stage: EffectStageView::Over }).unresolved(
                cause@,
            ),
    {
        let stopped = lifecycle::generation_stopped(kind.operation_name(), &cause);
        (
            NativeEffect { kind, stage: EffectStage::Over },
            EffectAction::StopGeneration(stopped),
        )
    }

    /// Takes what came of the last action.
    pub fn advance(self, event: EffectEvent) -> (r: (NativeEffect, EffectAction))
        ensures
            (r.0@, r.1@) == self@.next(event@),
    {
        let kind = self.kind;
        let over = NativeEffect { kind, stage: EffectStage::Over };
        match (self.stage, event) {
            (EffectStage::Commanding, EffectEvent::Commanded(code)) => {
                match n64::check_core(kind.command_name(), code) {
                    Ok(()) => (
                        NativeEffect { kind, stage: EffectStage::Stepping },
                        EffectAction::Step { trigger: kind.awaited() },
                    ),
                    Err(e) => (over, EffectAction::Fail(e)),
                }
            },
            (EffectStage::Stepping, EffectEvent::Stepped(r)) => match r {
                Err(e) => NativeEffect::stop(kind, e),
                Ok(stepped) => (
                    NativeEffect { kind, stage: EffectStage::Awaiting { stepped } },
                    EffectAction::Await,
                ),
            },
            (EffectStage::Awaiting { stepped }, EffectEvent::Settled(word)) => match word {
                None => NativeEffect::stop(
                    kind,
                    N64Error::Timeout(kind.completion_name().to_owned()),
                ),
                Some(value) => match control::operation_result(value, kind.completion_name()) {
                    Ok(()) => (over, EffectAction::Proceed { stepped }),
                    Err(e) => (over, EffectAction::Fail(e)),
                },
            },
            _ => (
                over,
                EffectAction::Fail(
                    N64Error::BadState("N64 operation events are out of order".to_owned()),
                ),
            ),
        }
    }
}

/// Once the core has accepted the command, the operation ends with its own word, or with the
/// launch generation stopped.
pub proof fn unknown_outcomes_stop_the_generation(effect: NativeEffectView, event: EffectEventView)
    requires
        (effect.stage is Stepping && event is Stepped) || (effect.stage is Awaiting
            && event is Settled),
    ensures
        effect.next(event).1 is Fail || effect.next(event).1 is Proceed ==> (event matches
            EffectEventView::Settled(Some(word)) && (effect.next(event).1 is Proceed <==> word
            == 1)),
        !(effect.next(event).1 is Command),
{
}

/// Reports a screenshot from the bytes of the one file that it left, which then was removed.
pub fn finish_screenshot(
    data: &[u8],
    removed: Result<(), N64Error>,
    frame_before: u64,
    stepped: &Json,
) -> (r: Result<Json, N64Error>)
    ensures
        n64::gives_view(
            r,
            match (control::png_size(data@), removed) {
                (Err(e), _) => Err(e),
                (Ok(_), Err(e)) => Err(e@),
                (Ok((width, height)), Ok(())) => Ok(
                    control::screenshot_view(data@, width, height, frame_before, stepped@),
                ),
            },
        ),
{
    let report = control::screenshot_report(data, frame_before, stepped)?;
    removed?;
    Ok(report)
}

/// Where the publication of a saved state stands.
#[derive(Clone, Copy, Debug, PartialEq, Eq, Structural)]
pub enum PublishStage {
    Measuring,
    Publishing,
    Dropping,
    Reading,
    Over,
}

/// What came of the last action of a publication.
#[derive(Debug)]
pub enum PublishEvent {
    Measured(Result<u64, N64Error>),
    Published(Result<(), N64Error>),
    Dropped(Result<(), N64Error>),
    Read(Result<Vec<u8>, N64Error>),
}

/// What an event of a publication holds.
pub enum PublishEventView {
    Measured(Result<u64, N64ErrorView>),
    Published(Result<(), N64ErrorView>),
    Dropped(Result<(), N64ErrorView>),
    Read(Result<Seq<u8>, N64ErrorView>),
}

impl View for PublishEvent {
    type V = PublishEventView;

    open spec fn view(&self) -> PublishEventView {
        match *self {
            PublishEvent::Measured(r) => PublishEventView::Measured(
                match r {
                    Ok(length) => Ok(length),
                    Err(e) => Err(e@),
                },
            ),
            PublishEvent::Published(r) => PublishEventView::Published(frame_step::unit_view(r)),
            PublishEvent::Dropped(r) => PublishEventView::Dropped(frame_step::unit_view(r)),
            PublishEvent::Read(r) => PublishEventView::Read(
                match r {
                    Ok(data) => Ok(data@),
                    Err(e) => Err(e@),
                },
            ),
        }
    }
}

/// What a publication asks for next.
#[derive(Debug)]
pub enum PublishAction {
    /// Measure the file that was written beside the destination.
    Measure,
    /// Put a copy of that file in place of the destination.
    Publish,
    /// Remove that file.
    DropPartial,
    /// Read the destination.
    ReadBack,
    /// Remove that file as far as it is there, and report the error.
    Discard(N64Error),
    /// Report the saved state.
    Finish(Json),
}

/// What an action of a publication holds.
pub enum PublishActionView {
    Measure,
    Publish,
    DropPartial,
    ReadBack,
    Discard(N64ErrorView),
    Finish(JsonView),
}

impl View for PublishAction {
    type V = PublishActionView;

    open spec fn view(&self) -> PublishActionView {
        match *self {
            PublishAction::Measure => PublishActionView::Measure,
            PublishAction::Publish => PublishActionView::Publish,
            PublishAction::DropPartial => PublishActionView::DropPartial,
            PublishAction::ReadBack => PublishActionView::ReadBack,
            PublishAction::Discard(e) => PublishActionView::Discard(e@),
            PublishAction::Finish(report) => PublishActionView::Finish(report@),
        }
    }
}

impl PublishStage {
    /// What a publication comes to by an event, for the state at `path`.
    pub open spec fn next(
        self,
        path: Seq<char>,
        frame_before: u64,
        stepped: JsonView,
        event: PublishEventView,
    ) -> (PublishStage, PublishActionView) {
        match (self, event) {
            (PublishStage::Measuring, PublishEventView::Measured(Ok(length))) => if length == 0 {
                (
                    PublishStage::Over,
                    PublishActionView::Discard(
                        N64ErrorView::BadState(
                            "Mupen64Plus save completed with an empty state file"@,
                        ),
                    ),
                )
            } else {
                (PublishStage::Publishing, PublishActionView::Publish)
            },
            (PublishStage::Publishing, PublishEventView::Published(Ok(()))) => (
                PublishStage::Dropping,
                PublishActionView::DropPartial,
            ),
            (PublishStage::Dropping, PublishEventView::Dropped(Ok(()))) => (
                PublishStage::Reading,
                PublishActionView::ReadBack,
            ),
            (PublishStage::Reading, PublishEventView::Read(Ok(data))) => (
                PublishStage::Over,
                PublishActionView::Finish(
                    control::saved_view(path, data, frame_before, stepped),
                ),
            ),
            (PublishStage::Measuring, PublishEventView::Measured(Err(e))) => (
                PublishStage::Over,
                PublishActionView::Discard(e),
            ),
            (PublishStage::Publishing, PublishEventView::Published(Err(e))) => (
                PublishStage::Over,
                PublishActionView::Discard(e),
            ),
            (PublishStage::Dropping, PublishEventView::Dropped(Err(e))) => (
                PublishStage::Over,
                PublishActionView::Discard(e),
            ),
            (PublishStage::Reading, PublishEventView::Read(Err(e))) => (
                PublishStage::Over,
                PublishActionView::Discard(e),
            ),
            _ => (
                PublishStage::Over,
                PublishActionView::Discard(
                    N64ErrorView::BadState("N64 save_state events are out of order"@),
                ),
            ),
        }
    }

    /// Starts a publication.
    pub fn begin() -> (r: (PublishStage, PublishAction))
        ensures
            r.0 is Measuring,
            r.1 is Measure,
    {
        (PublishStage::Measuring, PublishAction::Measure)
    }

    /// Takes what came of the last action.
    pub fn advance(self, path: &str, frame_before: u64, stepped: &Json, event: PublishEvent) -> (r: (
        PublishStage,
        PublishAction,
    ))
        ensures
            (r.0, r.1@) == self.next(path@, frame_before, stepped@, event@),
    {
        match (self, event) {
            (PublishStage::Measuring, PublishEvent::Measured(r)) => match r {
                Err(e) => (PublishStage::Over, PublishAction::Discard(e)),
                Ok(length) => match control::check_saved_length(length) {
                    Err(e) => (PublishStage::Over, PublishAction::Discard(e)),
                    Ok(()) => (PublishStage::Publishing, PublishAction::Publish),
                },
            },
            (PublishStage::Publishing, PublishEvent::Published(r)) => match r {
                Err(e) => (PublishStage::Over, PublishAction::Discard(e)),
                Ok(()) => (PublishStage::Dropping, PublishAction::DropPartial),
            },
            (PublishStage::Dropping, PublishEvent::Dropped(r)) => match r {
                Err(e) => (PublishStage::Over, PublishAction::Discard(e)),
                Ok(()) => (PublishStage::Reading, PublishAction::ReadBack),
            },
            (PublishStage::Reading, PublishEvent::Read(r)) => match r {
                Err(e) => (PublishStage::Over, PublishAction::Discard(e)),
                Ok(data) => (
                    PublishStage::Over,
                    PublishAction::Finish(
                        control::saved_report(path, data.as_slice(), frame_before, stepped),
                    ),
                ),
            },
            _ => (
                PublishStage::Over,
                PublishAction::Discard(
                    N64Error::BadState("N64 save_state events are out of order".to_owned()),
                ),
            ),
        }
    }
}

/// Only a state that has bytes takes the place of the destination, and a publication that fails
/// removes what was written beside it.
pub proof fn only_written_states_are_published(
    stage: PublishStage,
    path: Seq<char>,
    frame_before: u64,
    stepped: JsonView,
    event: PublishEventView,
)
    ensures
        stage.next(path, frame_before, stepped, event).1 is Publish ==> (event matches
            PublishEventView::Measured(Ok(length)) && length > 0),
        stage.next(path, frame_before, stepped, event).1 is Finish ==> stage is Reading,
        stage.next(path, frame_before, stepped, event).0 is Over ==> stage.next(
            path,
            frame_before,
            stepped,
            event,
        ).1 is Discard || stage.next(path, frame_before, stepped, event).1 is Finish,
{
}

} // verus!
