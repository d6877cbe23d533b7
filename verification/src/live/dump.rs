//! A memory dump as a whole: where it may go, what is staged, and when it is published.
//!
//! Everything is gathered in a directory beside the one that was asked for, and only a complete
//! dump takes its place. Whatever fails before, an earlier dump stays as it is.

use vstd::prelude::*;
use crate::json;
use crate::json::{Json, JsonView};
use crate::live::capture;
use crate::live::capture::{Dump, Places, ReplaceAction, ReplaceEvent, ReplaceStage, Target};
use crate::live::link::{LinkError, LinkErrorView};
use crate::live::tools::ToolOutput;
use crate::text;

verus! {

/// The path of the directory that a dump is staged in.
#[derive(Debug)]
pub enum StagingPath {
    Text(String),
    /// The path is no UTF-8.
    NotText,
    /// The path that was asked for has no parent.
    NoParent,
}

/// What a staging path holds.
pub enum StagingPathView {
    Text(Seq<char>),
    NotText,
    NoParent,
}

impl View for StagingPath {
    type V = StagingPathView;

    open spec fn view(&self) -> StagingPathView {
        match *self {
            StagingPath::Text(s) => StagingPathView::Text(s@),
            StagingPath::NotText => StagingPathView::NotText,
            StagingPath::NoParent => StagingPathView::NoParent,
        }
    }
}

/// How far a dump has come.
#[derive(Debug)]
pub enum DumpStage {
    /// The path of the staging directory is found.
    Naming { path: String },
    /// The staging directory is made.
    Making { path: String, staging: String },
    /// The machine is asked for its memory and its state.
    Collecting { path: String },
    /// The state is written beside the regions.
    Writing { path: String, regions: Json },
    /// The staging directory takes the place that was asked for.
    Replacing { path: String, regions: Json },
    /// The staging directory is removed after a failure.
    Removing { error: LinkError },
    /// The dump is over.
    Ended,
}

/// What a dump under way holds.
pub enum DumpView {
    Naming { path: Seq<char> },
    Making { path: Seq<char>, staging: Seq<char> },
    Collecting { path: Seq<char> },
    Writing { path: Seq<char>, regions: JsonView },
    Replacing { path: Seq<char>, regions: JsonView },
    Removing { error: LinkErrorView },
    Ended,
}

impl View for DumpStage {
    type V = DumpView;

    open spec fn view(&self) -> DumpView {
        match *self {
            DumpStage::Naming { path } => DumpView::Naming { path: path@ },
            DumpStage::Making { path, staging } => DumpView::Making {
                path: path@,
                staging: staging@,
            },
            DumpStage::Collecting { path } => DumpView::Collecting { path: path@ },
            DumpStage::Writing { path, regions } => DumpView::Writing {
                path: path@,
                regions: regions@,
            },
            DumpStage::Replacing { path, regions } => DumpView::Replacing {
                path: path@,
                regions: regions@,
            },
            DumpStage::Removing { error } => DumpView::Removing { error: error@ },
            DumpStage::Ended => DumpView::Ended,
        }
    }
}

/// What came of the last action. A failure of the file system is told in words.
#[derive(Debug)]
pub enum DumpEvent {
    Named(StagingPath),
    Made(Result<(), String>),
    Collected(Result<Dump, LinkError>),
    Written(Result<(), String>),
    Replaced(Result<(), String>),
    /// The staging directory was removed, or could not be.
    Removed,
}

/// What a collected dump holds.
pub struct DumpedView {
    pub regions: JsonView,
    pub state: JsonView,
}

/// What an event holds.
pub enum DumpEventView {
    Named(StagingPathView),
    Made(Result<(), Seq<char>>),
    Collected(Result<DumpedView, LinkErrorView>),
    Written(Result<(), Seq<char>>),
    Replaced(Result<(), Seq<char>>),
    Removed,
}

/// What came of an action on the file system.
pub open spec fn shown_outcome(r: Result<(), String>) -> Result<(), Seq<char>> {
    match r {
        Ok(()) => Ok(()),
        Err(m) => Err(m@),
    }
}

impl View for DumpEvent {
    type V = DumpEventView;

    open spec fn view(&self) -> DumpEventView {
        match *self {
            DumpEvent::Named(name) => DumpEventView::Named(name@),
            DumpEvent::Made(r) => DumpEventView::Made(shown_outcome(r)),
            DumpEvent::Collected(r) => DumpEventView::Collected(
                match r {
                    Ok(dump) => Ok(DumpedView { regions: dump.regions@, state: dump.state@ }),
                    Err(e) => Err(e@),
                },
            ),
            DumpEvent::Written(r) => DumpEventView::Written(shown_outcome(r)),
            DumpEvent::Replaced(r) => DumpEventView::Replaced(shown_outcome(r)),
            DumpEvent::Removed => DumpEventView::Removed,
        }
    }
}

/// What is to be done next.
#[derive(Debug)]
pub enum DumpAction {
    /// Find a path for the staging directory, beside the one that was asked for.
    NameStaging,
    /// Make the staging directory.
    MakeStaging,
    /// Ask the machine to dump its memory into this directory, and for its state.
    Collect { staging: String },
    /// Write this text as `state.json` into the staging directory.
    Write { state: String },
    /// Put the staging directory in the place that was asked for.
    Replace,
    /// Remove the staging directory.
    RemoveStaging,
    /// End with a result.
    Finish(Result<ToolOutput, LinkError>),
}

/// What an action holds.
pub enum DumpActionView {
    NameStaging,
    MakeStaging,
    Collect { staging: Seq<char> },
    Write { state: Seq<char> },
    Replace,
    RemoveStaging,
    Finish(Result<JsonView, LinkErrorView>),
}

/// Whether an action is the given one.
pub open spec fn acts(action: DumpAction, expected: DumpActionView) -> bool {
    match (action, expected) {
        (DumpAction::NameStaging, DumpActionView::NameStaging) => true,
        (DumpAction::MakeStaging, DumpActionView::MakeStaging) => true,
        (
            DumpAction::Collect { staging },
            DumpActionView::Collect { staging: expected },
        ) => staging@ == expected,
        (
            DumpAction::Write { state },
            DumpActionView::Write { state: expected },
        ) => state@ == expected,
        (DumpAction::Replace, DumpActionView::Replace) => true,
        (DumpAction::RemoveStaging, DumpActionView::RemoveStaging) => true,
        (DumpAction::Finish(r), DumpActionView::Finish(expected)) => match (r, expected) {
            (Ok(ToolOutput::Json(v)), Ok(w)) => v@ == w,
            (Err(e), Err(f)) => e@ == f,
            _ => false,
        },
        _ => false,
    }
}

/// The message that a path has no parent.
pub open spec fn orphan_text(path: Seq<char>) -> Seq<char> {
    ("dump path "@ + path) + " has no parent directory to stage under"@
}

/// The message that a path has no parent.
pub fn orphan_message(path: &str) -> (r: String)
    ensures
        r@ == orphan_text(path@),
{
    text::join(text::join("dump path ", path).as_str(), " has no parent directory to stage under")
}

/// The error of a dump: what failed, and how.
pub open spec fn trouble(what: Seq<char>, how: Seq<char>) -> LinkErrorView {
    LinkErrorView::Protocol(what + how)
}

/// A dump that fails before anything was staged.
pub open spec fn refused(error: LinkErrorView) -> (DumpView, DumpActionView) {
    (DumpView::Ended, DumpActionView::Finish(Err(error)))
}

/// A dump that fails after the staging directory was begun.
pub open spec fn dropped(error: LinkErrorView) -> (DumpView, DumpActionView) {
    (DumpView::Removing { error }, DumpActionView::RemoveStaging)
}

/// The error of events that come out of order.
pub open spec fn out_of_order() -> LinkErrorView {
    LinkErrorView::Protocol("dump events are out of order"@)
}

/// How a dump begins: it is refused where the path is not to be replaced.
pub open spec fn first_dump(target: Target, path: Seq<char>) -> (DumpView, DumpActionView) {
    match capture::refusal(target, path) {
        Some(m) => refused(trouble("덤프 경로가 교체 가능한 디렉토리가 아님: "@, m)),
        None => (DumpView::Naming { path }, DumpActionView::NameStaging),
    }
}

/// What an event leads to.
pub open spec fn next_dump(stage: DumpView, event: DumpEventView) -> (DumpView, DumpActionView) {
    match (stage, event) {
        (DumpView::Naming { path }, DumpEventView::Named(name)) => match name {
            StagingPathView::NoParent => refused(
                trouble("덤프 스테이징 경로 실패: "@, orphan_text(path)),
            ),
            StagingPathView::NotText => refused(
                LinkErrorView::Protocol("덤프 스테이징 경로가 UTF-8이 아님"@),
            ),
            StagingPathView::Text(staging) => (
                DumpView::Making { path, staging },
                DumpActionView::MakeStaging,
            ),
        },
        (DumpView::Making { path, staging }, DumpEventView::Made(r)) => match r {
            Ok(()) => (DumpView::Collecting { path }, DumpActionView::Collect { staging }),
            Err(m) => dropped(trouble("스테이징 디렉토리 생성 실패: "@, m)),
        },
        (DumpView::Collecting { path }, DumpEventView::Collected(r)) => match r {
            Ok(dump) => (
                DumpView::Writing { path, regions: dump.regions },
                DumpActionView::Write { state: json::written(dump.state) },
            ),
            Err(e) => dropped(e),
        },
        (DumpView::Writing { path, regions }, DumpEventView::Written(r)) => match r {
            Ok(()) => (DumpView::Replacing { path, regions }, DumpActionView::Replace),
            Err(m) => dropped(trouble("state.json 쓰기 실패: "@, m)),
        },
        (DumpView::Replacing { path, regions }, DumpEventView::Replaced(r)) => match r {
            Ok(()) => (
                DumpView::Ended,
                DumpActionView::Finish(Ok(regions.put("path"@, JsonView::Str(path)))),
            ),
            Err(m) => dropped(trouble("덤프 배치(스왑) 실패: "@, m)),
        },
        (DumpView::Removing { error }, DumpEventView::Removed) => refused(error),
        (DumpView::Naming { .. }, _) => refused(out_of_order()),
        (DumpView::Ended, _) => refused(out_of_order()),
        (DumpView::Removing { error }, _) => dropped(error),
        _ => dropped(out_of_order()),
    }
}

fn failed(what: &str, how: &str) -> (r: LinkError)
    ensures
        r@ == trouble(what@, how@),
{
    LinkError::Protocol(text::join(what, how))
}

fn drop_staging(error: LinkError) -> (r: (DumpStage, DumpAction))
    ensures
        r.0@ == dropped(error@).0,
        acts(r.1, dropped(error@).1),
{
    (DumpStage::Removing { error }, DumpAction::RemoveStaging)
}

fn refuse(error: LinkError) -> (r: (DumpStage, DumpAction))
    ensures
        r.0@ == refused(error@).0,
        acts(r.1, refused(error@).1),
{
    (DumpStage::Ended, DumpAction::Finish(Err(error)))
}

impl DumpStage {
    /// Begins a dump to a path, by what stands there.
    pub fn begin(target: Target, path: &str) -> (r: (DumpStage, DumpAction))
        ensures
            r.0@ == first_dump(target, path@).0,
            acts(r.1, first_dump(target, path@).1),
    {
        match capture::ensure_replaceable_dir(target, path) {
            Err(m) => refuse(failed("덤프 경로가 교체 가능한 디렉토리가 아님: ", m.as_str())),
            Ok(()) => (DumpStage::Naming { path: path.to_owned() }, DumpAction::NameStaging),
        }
    }

    /// Takes what came of the last action, and says what is to be done next.
    pub fn advance(self, event: DumpEvent) -> (r: (DumpStage, DumpAction))
        ensures
            r.0@ == next_dump(self@, event@).0,
            acts(r.1, next_dump(self@, event@).1),
    {
        match (self, event) {
            (DumpStage::Naming { path }, DumpEvent::Named(name)) => match name {
                StagingPath::NoParent => refuse(
                    failed("덤프 스테이징 경로 실패: ", orphan_message(path.as_str()).as_str()),
                ),
                StagingPath::NotText => refuse(
                    LinkError::protocol("덤프 스테이징 경로가 UTF-8이 아님"),
                ),
                StagingPath::Text(staging) => (
                    DumpStage::Making { path, staging },
                    DumpAction::MakeStaging,
                ),
            },
            (DumpStage::Making { path, staging }, DumpEvent::Made(r)) => match r {
                Ok(()) => (DumpStage::Collecting { path }, DumpAction::Collect { staging }),
                Err(m) => drop_staging(failed("스테이징 디렉토리 생성 실패: ", m.as_str())),
            },
            (DumpStage::Collecting { path }, DumpEvent::Collected(r)) => match r {
                Ok(dump) => {
                    let state = dump.state.to_text();
                    (
                        DumpStage::Writing { path, regions: dump.regions },
                        DumpAction::Write { state },
                    )
                },
                Err(e) => drop_staging(e),
            },
            (DumpStage::Writing { path, regions }, DumpEvent::Written(r)) => match r {
                Ok(()) => (DumpStage::Replacing { path, regions }, DumpAction::Replace),
                Err(m) => drop_staging(failed("state.json 쓰기 실패: ", m.as_str())),
            },
            (DumpStage::Replacing { path, regions }, DumpEvent::Replaced(r)) => match r {
                Ok(()) => (
                    DumpStage::Ended,
                    DumpAction::Finish(Ok(capture::dump_report(regions, path.as_str()))),
                ),
                Err(m) => drop_staging(failed("덤프 배치(스왑) 실패: ", m.as_str())),
            },
            (DumpStage::Removing { error }, DumpEvent::Removed) => refuse(error),
            (DumpStage::Naming { path: _ }, _) => refuse(
                LinkError::protocol("dump events are out of order"),
            ),
            (DumpStage::Ended, _) => refuse(LinkError::protocol("dump events are out of order")),
            (DumpStage::Removing { error }, _) => drop_staging(error),
            _ => drop_staging(LinkError::protocol("dump events are out of order")),
        }
    }
}

// ---------------------------------------------------------------------------------------------
// The order of a dump.

/// The action that a stage waits for, up to what it carries.
pub open spec fn waits_for(stage: DumpView, action: DumpActionView) -> bool {
    match stage {
        DumpView::Naming { .. } => action is NameStaging,
        DumpView::Making { .. } => action is MakeStaging,
        DumpView::Collecting { .. } => action is Collect,
        DumpView::Writing { .. } => action is Write,
        DumpView::Replacing { .. } => action is Replace,
        DumpView::Removing { .. } => action is RemoveStaging,
        DumpView::Ended => action is Finish,
    }
}

/// Whether an event answers the action that a stage waits for.
pub open spec fn answers(stage: DumpView, event: DumpEventView) -> bool {
    match stage {
        DumpView::Naming { .. } => event is Named,
        DumpView::Making { .. } => event is Made,
        DumpView::Collecting { .. } => event is Collected,
        DumpView::Writing { .. } => event is Written,
        DumpView::Replacing { .. } => event is Replaced,
        DumpView::Removing { .. } => event is Removed,
        DumpView::Ended => false,
    }
}

/// Whether an event tells of a failure.
pub open spec fn is_failure(event: DumpEventView) -> bool {
    match event {
        DumpEventView::Named(name) => !(name is Text),
        DumpEventView::Made(r) => r is Err,
        DumpEventView::Collected(r) => r is Err,
        DumpEventView::Written(r) => r is Err,
        DumpEventView::Replaced(r) => r is Err,
        DumpEventView::Removed => false,
    }
}

/// The machine is asked only after the staging directory was made, a dump is put in place only
/// after its state was written, and every failure after the staging directory was begun has that
/// directory removed before it is told.
pub proof fn dumps_go_in_order(stage: DumpView, event: DumpEventView)
    ensures
        waits_for(next_dump(stage, event).0, next_dump(stage, event).1),
        next_dump(stage, event).1 is Collect ==> stage is Making && (
        event matches DumpEventView::Made(Ok(_))),
        next_dump(stage, event).1 is Write ==> stage is Collecting && (
        event matches DumpEventView::Collected(Ok(_))),
        next_dump(stage, event).1 is Replace ==> stage is Writing && (
        event matches DumpEventView::Written(Ok(_))),
        next_dump(stage, event).1 matches DumpActionView::Finish(Ok(_)) ==> stage is Replacing
            && (event matches DumpEventView::Replaced(Ok(_))),
        answers(stage, event) && is_failure(event) && !(stage is Naming) ==> next_dump(
            stage,
            event,
        ).1 is RemoveStaging,
        next_dump(stage, event).1 matches DumpActionView::Finish(Err(_)) ==> stage is Naming
            || stage is Ended || (stage is Removing && event is Removed),
{
}

/// The actions of a dump, from the first one on, by the events that it is given.
pub open spec fn asked(stage: DumpView, action: DumpActionView, events: Seq<DumpEventView>) -> Seq<
    DumpActionView,
>
    decreases events.len(),
{
    if events.len() == 0 {
        seq![action]
    } else {
        let (next, then) = next_dump(stage, events[0]);
        seq![action] + asked(next, then, events.skip(1))
    }
}

proof fn ended_dumps_stay_ended(action: DumpActionView, events: Seq<DumpEventView>)
    requires
        action is Finish,
    ensures
        forall|i: int|
            0 <= i < asked(DumpView::Ended, action, events).len() ==> #[trigger] asked(
                DumpView::Ended,
                action,
                events,
            )[i] is Finish,
    decreases events.len(),
{
    if events.len() > 0 {
        let (next, then) = next_dump(DumpView::Ended, events[0]);
        ended_dumps_stay_ended(then, events.skip(1));
        let all = asked(DumpView::Ended, action, events);
        assert forall|i: int| 0 <= i < all.len() implies #[trigger] all[i] is Finish by {
            if i > 0 {
                assert(all[i] == asked(next, then, events.skip(1))[i - 1]);
            }
        }
    }
}

/// A path at which a link or anything but a directory stands is refused before the machine is
/// asked for anything and before anything is staged, whatever comes after.
pub proof fn refused_paths_are_left_alone(
    target: Target,
    path: Seq<char>,
    events: Seq<DumpEventView>,
)
    requires
        target == Target::Symlink || target == Target::Other,
    ensures
        first_dump(target, path).1 matches DumpActionView::Finish(Err(LinkErrorView::Protocol(_))),
        forall|i: int|
            0 <= i < asked(first_dump(target, path).0, first_dump(target, path).1, events).len()
                ==> #[trigger] asked(
                first_dump(target, path).0,
                first_dump(target, path).1,
                events,
            )[i] is Finish,
{
    ended_dumps_stay_ended(first_dump(target, path).1, events);
}

// ---------------------------------------------------------------------------------------------
// What a dump leaves behind.

/// The end of a replacement by the events that it is given: its last action, and the places after
/// it. None where it does not end with the last of the events.
pub open spec fn replacement<D>(
    stage: ReplaceStage,
    places: Places<D>,
    events: Seq<ReplaceEvent>,
) -> Option<(ReplaceAction, Places<D>)>
    decreases events.len(),
{
    if stage == ReplaceStage::Ended || events.len() == 0 {
        None
    } else {
        let after = if events[0] == ReplaceEvent::Done {
            capture::done(capture::awaited(stage), places)
        } else {
            places
        };
        let (next, action) = capture::next_stage(stage, events[0]);
        if next == ReplaceStage::Ended {
            if events.len() == 1 {
                Some((action, after))
            } else {
                None
            }
        } else {
            replacement(next, after, events.skip(1))
        }
    }
}

/// Whether what a replacement puts aside can be removed or put back again.
pub open spec fn unhindered(stage: ReplaceStage, events: Seq<ReplaceEvent>) -> bool
    decreases events.len(),
{
    if stage == ReplaceStage::Ended || events.len() == 0 {
        true
    } else {
        &&& stage == ReplaceStage::DroppingOld || stage == ReplaceStage::DroppingBackup || stage
            == ReplaceStage::RollingBack ==> events[0] == ReplaceEvent::Done
        &&& unhindered(capture::next_stage(stage, events[0]).0, events.skip(1))
    }
}

spec fn neat<D>(stage: ReplaceStage, places: Places<D>) -> bool {
    match stage {
        ReplaceStage::Moving | ReplaceStage::Exchanging | ReplaceStage::BackingUp
        | ReplaceStage::DroppingOld => places.backup is None,
        ReplaceStage::DroppingBackup => places.staging is None,
        _ => true,
    }
}

proof fn stages_swap_or_keep<D>(
    stage: ReplaceStage,
    places: Places<D>,
    old: Option<D>,
    new: D,
    events: Seq<ReplaceEvent>,
)
    requires
        capture::holds(stage, places, old, new),
        neat(stage, places),
        unhindered(stage, events),
    ensures
        replacement(stage, places, events) matches Some((action, after)) ==> {
            &&& after.backup is None
            &&& action == ReplaceAction::Succeed ==> after.target == Some(new) && after.staging
                is None
            &&& action != ReplaceAction::Succeed ==> after.target == old
        },
    decreases events.len(),
{
    if stage != ReplaceStage::Ended && events.len() > 0 {
        capture::replacement_loses_nothing(stage, places, old, new, events[0]);
        let after = if events[0] == ReplaceEvent::Done {
            capture::done(capture::awaited(stage), places)
        } else {
            places
        };
        let (next, action) = capture::next_stage(stage, events[0]);
        if next != ReplaceStage::Ended {
            stages_swap_or_keep(next, after, old, new, events.skip(1));
        }
    }
}

/// A replacement that can remove what it puts aside, and put it back, ends in one of two ways. It
/// succeeds with the new directory at the target and nothing beside it; or it fails with the old
/// one at the target, or nothing where nothing was, and no backup is left.
pub proof fn replacements_swap_or_keep<D>(places: Places<D>, new: D, events: Seq<ReplaceEvent>)
    requires
        places.staging == Some(new),
        places.backup is None,
        unhindered(capture::first_stage(places.target is Some).0, events),
    ensures
        replacement(capture::first_stage(places.target is Some).0, places, events) matches Some(
            (action, after),
        ) ==> {
            &&& after.backup is None
            &&& action == ReplaceAction::Succeed ==> after.target == Some(new) && after.staging
                is None
            &&& action != ReplaceAction::Succeed ==> after.target == places.target
        },
{
    capture::replacement_starts_in_shape(places, new);
    stages_swap_or_keep(
        capture::first_stage(places.target is Some).0,
        places,
        places.target,
        new,
        events,
    );
}

/// What doing an action may make of the places, by the event that tells of it. The machine and the
/// host write into the staging directory alone; `with_state` is a directory with `state.json`
/// added. A directory is put in place by a replacement, or refused before it begins. What is to be
/// removed can be removed.
pub open spec fn may_do<D>(
    action: DumpActionView,
    event: DumpEventView,
    before: Places<D>,
    after: Places<D>,
    with_state: spec_fn(D, Seq<char>) -> D,
) -> bool {
    match (action, event) {
        (DumpActionView::MakeStaging, DumpEventView::Made(r)) => {
            &&& after.target == before.target
            &&& after.backup == before.backup
            &&& r is Ok ==> after.staging is Some
        },
        (DumpActionView::Collect { .. }, DumpEventView::Collected(r)) => {
            &&& after.target == before.target
            &&& after.backup == before.backup
            &&& r is Ok ==> after.staging is Some
        },
        (DumpActionView::Write { state }, DumpEventView::Written(r)) => {
            &&& after.target == before.target
            &&& after.backup == before.backup
            &&& r is Ok ==> (before.staging matches Some(d) ==> after.staging == Some(
                with_state(d, state),
            ))
        },
        (DumpActionView::Replace, DumpEventView::Replaced(r)) => {
            ||| r is Err && after == before
            ||| exists|events: Seq<ReplaceEvent>|
                {
                    &&& unhindered(capture::first_stage(before.target is Some).0, events)
                    &&& #[trigger] replacement(
                        capture::first_stage(before.target is Some).0,
                        before,
                        events,
                    ) == Some(
                        (
                            if r is Ok {
                                ReplaceAction::Succeed
                            } else {
                                ReplaceAction::Fail
                            },
                            after,
                        ),
                    )
                }
        },
        (DumpActionView::RemoveStaging, DumpEventView::Removed) => after == (Places {
            staging: None,
            ..before
        }),
        _ => after == before,
    }
}

/// What the places hold while a stage waits for its action, where `old` stood at the path.
pub open spec fn keeps<D>(stage: DumpView, places: Places<D>, old: Option<D>) -> bool {
    match stage {
        DumpView::Naming { .. } => places == (Places { staging: None, target: old, backup: None }),
        DumpView::Making { .. } | DumpView::Removing { .. } => places.target == old
            && places.backup is None,
        DumpView::Collecting { .. } | DumpView::Writing { .. } | DumpView::Replacing { .. } => {
            &&& places.target == old
            &&& places.backup is None
            &&& places.staging is Some
        },
        DumpView::Ended => true,
    }
}

/// A dump replaces an earlier one as a whole or leaves it as it was.
///
/// After every action the earlier dump still stands at the path, until the last one puts a
/// complete dump there. A dump that fails leaves what stood at the path and nothing beside it. A
/// dump that succeeds leaves at the path what was staged, which is what the machine wrote with
/// `state.json` added, and nothing beside it; its report names the path that was asked for.
pub proof fn dumps_replace_as_a_whole<D>(
    stage: DumpView,
    action: DumpActionView,
    event: DumpEventView,
    before: Places<D>,
    after: Places<D>,
    old: Option<D>,
    with_state: spec_fn(D, Seq<char>) -> D,
)
    requires
        !(stage is Ended),
        waits_for(stage, action),
        answers(stage, event),
        keeps(stage, before, old),
        may_do(action, event, before, after, with_state),
    ensures
        ({
            let (next, then) = next_dump(stage, event);
            &&& keeps(next, after, old)
            &&& waits_for(next, then)
            &&& then is Replace ==> after.staging == Some(
                with_state(before.staging->0, action->state),
            )
            &&& then matches DumpActionView::Finish(Err(_)) ==> after == (Places {
                staging: None,
                target: old,
                backup: None,
            })
            &&& then matches DumpActionView::Finish(Ok(report)) ==> {
                &&& before.staging is Some
                &&& after == (Places { staging: None, target: before.staging, backup: None })
                &&& stage matches DumpView::Replacing { path, regions } && report == regions.put(
                    "path"@,
                    JsonView::Str(path),
                )
            }
        }),
{
    if stage is Replacing && !(after == before) {
        let r = event->Replaced_0;
        let events = choose|events: Seq<ReplaceEvent>|
            {
                &&& unhindered(capture::first_stage(before.target is Some).0, events)
                &&& #[trigger] replacement(
                    capture::first_stage(before.target is Some).0,
                    before,
                    events,
                ) == Some(
                    (
                        if r is Ok {
                            ReplaceAction::Succeed
                        } else {
                            ReplaceAction::Fail
                        },
                        after,
                    ),
                )
            };
        replacements_swap_or_keep(before, before.staging->0, events);
    } else if stage is Replacing && event->Replaced_0 is Ok {
        let events = choose|events: Seq<ReplaceEvent>|
            {
                &&& unhindered(capture::first_stage(before.target is Some).0, events)
                &&& #[trigger] replacement(
                    capture::first_stage(before.target is Some).0,
                    before,
                    events,
                ) == Some((ReplaceAction::Succeed, after))
            };
        replacements_swap_or_keep(before, before.staging->0, events);
    }
}

} // verus!
