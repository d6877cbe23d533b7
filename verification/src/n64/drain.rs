//! Taking a debugger update: what the core reports of it, which breakpoint it belongs to, and the
//! evidence of the hit.

use vstd::prelude::*;
use crate::json::{Json, JsonView};
use crate::n64::breakpoints;
use crate::n64::breakpoints::{BreakpointTable, PublicBreakpointView, TableView};
use crate::n64::debug::SnapshotSpec;
use crate::n64::hits;
use crate::n64::hits::{HitLog, HitLogView, Trigger};
use crate::n64::lifecycle::HostState;
use crate::n64::{N64Error, N64ErrorView};

verus! {

/// What a debugger update bears on: the hit log, the breakpoints, and what the host believes.
#[verifier::ext_equal]
pub struct DebugView {
    pub log: HitLogView,
    pub table: TableView,
    pub host: HostState,
}

/// How far the taking of an update has come.
#[derive(Debug)]
pub enum UpdateDrain {
    /// The report of the core is taken.
    Consuming { update: u64 },
    /// The state is asked for.
    Asking { trigger: Trigger, id: u64 },
    /// The ranges of the breakpoint are read.
    Capturing { trigger: Trigger, id: u64, report: Result<Json, N64Error> },
    /// The update is taken.
    Ended,
}

/// What the taking of an update holds.
pub enum DrainView {
    Consuming { update: u64 },
    Asking { trigger: Trigger, id: u64 },
    Capturing { trigger: Trigger, id: u64, report: Result<JsonView, N64ErrorView> },
    Ended,
}

impl View for UpdateDrain {
    type V = DrainView;

    open spec fn view(&self) -> DrainView {
        match *self {
            UpdateDrain::Consuming { update } => DrainView::Consuming { update },
            UpdateDrain::Asking { trigger, id } => DrainView::Asking { trigger, id },
            UpdateDrain::Capturing { trigger, id, report } => DrainView::Capturing {
                trigger,
                id,
                report: hits::report_view(report),
            },
            UpdateDrain::Ended => DrainView::Ended,
        }
    }
}

/// What came of the last action.
#[derive(Debug)]
pub enum DrainEvent {
    /// The trigger flags and the accessed address that the core reported, and the program counter.
    Consumed { flags: u32, accessed: u32, pc: u32 },
    /// The state report.
    Told(Result<Json, N64Error>),
    /// The bytes of each range.
    Captured(Vec<Vec<u8>>),
}

/// What an event holds.
pub enum DrainEventView {
    Consumed { flags: u32, accessed: u32, pc: u32 },
    Told(Result<JsonView, N64ErrorView>),
    Captured(Seq<Seq<u8>>),
}

impl View for DrainEvent {
    type V = DrainEventView;

    open spec fn view(&self) -> DrainEventView {
        match *self {
            DrainEvent::Consumed { flags, accessed, pc } => DrainEventView::Consumed {
                flags,
                accessed,
                pc,
            },
            DrainEvent::Told(report) => DrainEventView::Told(hits::report_view(report)),
            DrainEvent::Captured(bytes) => DrainEventView::Captured(hits::byte_views(bytes@)),
        }
    }
}

/// What is to be done next.
#[derive(Debug)]
pub enum DrainAction {
    /// Take the report of the core, which it keeps until then.
    Consume,
    /// Ask for the state.
    AskState,
    /// Read these ranges.
    Capture(Vec<SnapshotSpec>),
    /// The update is taken: a hit, or none, or the error.
    Finish(Result<Option<Json>, N64Error>),
}

/// What an action holds.
pub enum DrainActionView {
    Consume,
    AskState,
    Capture(Seq<SnapshotSpec>),
    Finish(Result<Option<JsonView>, N64ErrorView>),
}

impl View for DrainAction {
    type V = DrainActionView;

    open spec fn view(&self) -> DrainActionView {
        match *self {
            DrainAction::Consume => DrainActionView::Consume,
            DrainAction::AskState => DrainActionView::AskState,
            DrainAction::Capture(ranges) => DrainActionView::Capture(ranges@),
            DrainAction::Finish(r) => DrainActionView::Finish(
                match r {
                    Ok(Some(event)) => Ok(Some(event@)),
                    Ok(None) => Ok(None),
                    Err(e) => Err(e@),
                },
            ),
        }
    }
}

/// The end of taking an update.
pub open spec fn ended(r: Result<Option<JsonView>, N64ErrorView>, d: DebugView) -> (
    DrainView,
    DrainActionView,
    DebugView,
) {
    (DrainView::Ended, DrainActionView::Finish(r), d)
}

/// The error of events that come out of order.
pub open spec fn out_of_order() -> N64ErrorView {
    N64ErrorView::BadState("N64 debugger update events are out of order"@)
}

/// The error of a log whose numbers are used up.
pub open spec fn exhausted() -> N64ErrorView {
    N64ErrorView::BadState("N64 hit sequence is exhausted"@)
}

/// The breakpoint of a number, where there is one.
pub open spec fn standing(d: DebugView, id: u64) -> Option<PublicBreakpointView> {
    match breakpoints::position(d.table.entries, id) {
        Some(i) => Some(d.table.entries[i]),
        None => None,
    }
}

/// What is known after the report of the core: the update is seen, the debugger holds the machine
/// where the flags tell of a breakpoint, and no breakpoint is known to be armed where the trigger
/// does not belong to exactly one.
pub open spec fn after_report(d: DebugView, trigger: Trigger) -> DebugView {
    DebugView {
        log: HitLogView { last_update_seen: trigger.update, ..d.log },
        host: d.host.updated(trigger.flags),
        table: match hits::identified(d.table.entries, trigger) {
            Err(e) => d.table.failed(e.sentence()),
            Ok(_) => d.table,
        },
    }
}

/// What an event leads to.
pub open spec fn next_drain(stage: DrainView, event: DrainEventView, d: DebugView) -> (
    DrainView,
    DrainActionView,
    DebugView,
) {
    match (stage, event) {
        (DrainView::Consuming { update }, DrainEventView::Consumed { flags, accessed, pc }) => {
            let trigger = Trigger { update, flags, accessed, pc };
            let known = after_report(d, trigger);
            match hits::identified(d.table.entries, trigger) {
                Err(e) => ended(Err(e), known),
                Ok(None) => ended(Ok(None), known),
                Ok(Some(id)) => if d.log.next_hit_seq == u64::MAX {
                    ended(Err(exhausted()), known)
                } else {
                    (DrainView::Asking { trigger, id }, DrainActionView::AskState, known)
                },
            }
        },
        (DrainView::Asking { trigger, id }, DrainEventView::Told(report)) => match standing(d, id) {
            Some(b) => (
                DrainView::Capturing { trigger, id, report },
                DrainActionView::Capture(b.spec.snapshots),
                d,
            ),
            None => ended(Err(out_of_order()), d),
        },
        (
            DrainView::Capturing { trigger, id, report },
            DrainEventView::Captured(bytes),
        ) => match standing(d, id) {
            Some(b) => if bytes.len() != b.spec.snapshots.len() {
                ended(Err(out_of_order()), d)
            } else if d.log.next_hit_seq == u64::MAX {
                ended(Err(exhausted()), d)
            } else {
                let event = hits::hit_event(b, trigger, d.log.next_hit_seq, report, bytes);
                ended(
                    Ok(Some(event)),
                    DebugView {
                        log: HitLogView {
                            next_hit_seq: (d.log.next_hit_seq + 1) as u64,
                            events: d.log.events.push(event),
                            ..d.log
                        },
                        ..d
                    },
                )
            },
            None => ended(Err(out_of_order()), d),
        },
        _ => ended(Err(out_of_order()), d),
    }
}

/// What beginning to take an update leads to: one that was seen before tells nothing.
pub open spec fn first_drain(log: HitLogView, update: u64) -> (DrainView, DrainActionView) {
    if update <= log.last_update_seen {
        (DrainView::Ended, DrainActionView::Finish(Ok(None)))
    } else {
        (DrainView::Consuming { update }, DrainActionView::Consume)
    }
}

/// The taking of a whole update: the result, and what is known afterwards. The core is asked for
/// its report, then for the state, then for the ranges, and no further than is needed.
pub open spec fn drained(
    d: DebugView,
    trigger: Trigger,
    report: Result<JsonView, N64ErrorView>,
    bytes: Seq<Seq<u8>>,
) -> (Result<Option<JsonView>, N64ErrorView>, DebugView) {
    match first_drain(d.log, trigger.update) {
        (_, DrainActionView::Finish(r)) => (r, d),
        (s, _) => match next_drain(
            s,
            DrainEventView::Consumed {
                flags: trigger.flags,
                accessed: trigger.accessed,
                pc: trigger.pc,
            },
            d,
        ) {
            (_, DrainActionView::Finish(r), e) => (r, e),
            (t, _, e) => match next_drain(t, DrainEventView::Told(report), e) {
                (_, DrainActionView::Finish(r), f) => (r, f),
                (u, _, f) => match next_drain(u, DrainEventView::Captured(bytes), f) {
                    (_, DrainActionView::Finish(r), g) => (r, g),
                    (_, _, g) => (Err(out_of_order()), g),
                },
            },
        },
    }
}

proof fn matches_stand(entries: Seq<PublicBreakpointView>, flags: u32, accessed: u32, pc: u32)
    ensures
        forall|i: int|
            0 <= i < breakpoints::hit_ids(entries, flags, accessed, pc).len()
                ==> breakpoints::position(
                entries,
                #[trigger] breakpoints::hit_ids(entries, flags, accessed, pc)[i],
            ) is Some,
    decreases entries.len(),
{
    if entries.len() > 0 {
        matches_stand(entries.drop_last(), flags, accessed, pc);
        let before = breakpoints::hit_ids(entries.drop_last(), flags, accessed, pc);
        let ids = breakpoints::hit_ids(entries, flags, accessed, pc);
        assert forall|i: int| 0 <= i < ids.len() implies breakpoints::position(
            entries,
            #[trigger] ids[i],
        ) is Some by {
            if i < before.len() {
                assert(ids[i] == before[i]);
            }
        }
    }
}

/// A taken update tells of at most one hit.
///
/// An update that was seen before changes nothing. Any other is seen afterwards, and the debugger
/// then holds the machine where the flags tell of a breakpoint. Where the
/// trigger belongs to exactly one breakpoint and the log has a number left, the result is the
/// event of that hit, which has that number and stands last in the log, and the next number is one
/// higher. In every other case the log keeps its events and its number.
pub proof fn updates_tell_of_at_most_one_hit(
    d: DebugView,
    trigger: Trigger,
    report: Result<JsonView, N64ErrorView>,
    bytes: Seq<Seq<u8>>,
)
    requires
        hits::identified(d.table.entries, trigger) matches Ok(Some(id)) ==> bytes.len() == standing(
            d,
            id,
        )->0.spec.snapshots.len(),
    ensures
        ({
            let (r, after) = drained(d, trigger, report, bytes);
            let found = hits::identified(d.table.entries, trigger);
            if trigger.update <= d.log.last_update_seen {
                r == Ok::<Option<JsonView>, N64ErrorView>(None) && after == d
            } else {
                &&& after.log.last_update_seen == trigger.update
                &&& after.host == d.host.updated(trigger.flags)
                &&& trigger.flags != 0 ==> after.host.frozen
                &&& after.table == after_report(d, trigger).table
                &&& match found {
                    Ok(Some(id)) if d.log.next_hit_seq < u64::MAX => {
                        let event = hits::hit_event(
                            standing(d, id)->0,
                            trigger,
                            d.log.next_hit_seq,
                            report,
                            bytes,
                        );
                        &&& standing(d, id) is Some
                        &&& r == Ok::<_, N64ErrorView>(Some(event))
                        &&& after.log.events == d.log.events.push(event)
                        &&& after.log.next_hit_seq == d.log.next_hit_seq + 1
                    },
                    _ => {
                        &&& r == (match found {
                            Err(e) => Err(e),
                            Ok(None) => Ok(None::<JsonView>),
                            Ok(Some(_)) => Err(exhausted()),
                        })
                        &&& after.log.events == d.log.events
                        &&& after.log.next_hit_seq == d.log.next_hit_seq
                    },
                }
            }
        }),
{
    matches_stand(d.table.entries, trigger.flags, trigger.accessed, trigger.pc);
}

fn copied(ranges: &Vec<SnapshotSpec>) -> (r: Vec<SnapshotSpec>)
    ensures
        r@ == ranges@,
{
    let mut r: Vec<SnapshotSpec> = Vec::new();
    let mut i: usize = 0;
    while i < ranges.len()
        invariant
            i <= ranges.len(),
            r@ =~= ranges@.take(i as int),
        decreases ranges.len() - i,
    {
        r.push(ranges[i]);
        i += 1;
    }
    assert(ranges@.take(i as int) =~= ranges@);
    r
}

fn misplaced() -> (r: (UpdateDrain, DrainAction))
    ensures
        r.0@ is Ended,
        r.1@ == DrainActionView::Finish(Err(out_of_order())),
{
    (
        UpdateDrain::Ended,
        DrainAction::Finish(
            Err(N64Error::BadState("N64 debugger update events are out of order".to_owned())),
        ),
    )
}

impl UpdateDrain {
    /// Begins to take the update of a number.
    pub fn begin(log: &HitLog, update: u64) -> (r: (UpdateDrain, DrainAction))
        ensures
            (r.0@, r.1@) == first_drain(log@, update),
    {
        if update <= log.last_update_seen {
            (UpdateDrain::Ended, DrainAction::Finish(Ok(None)))
        } else {
            (UpdateDrain::Consuming { update }, DrainAction::Consume)
        }
    }

    /// Takes what came of the last action, and says what is to be done next.
    pub fn advance(
        self,
        event: DrainEvent,
        log: &mut HitLog,
        table: &mut BreakpointTable,
        host: &mut HostState,
    ) -> (r: (UpdateDrain, DrainAction))
        requires
            old(table)@.wf(),
        ensures
            (
                r.0@,
                r.1@,
                DebugView { log: final(log)@, table: final(table)@, host: *final(host) },
            ) == next_drain(
                self@,
                event@,
                DebugView { log: old(log)@, table: old(table)@, host: *old(host) },
            ),
            final(table)@.wf(),
    {
        match (self, event) {
            (
                UpdateDrain::Consuming { update },
                DrainEvent::Consumed { flags, accessed, pc },
            ) => {
                let trigger = Trigger { update, flags, accessed, pc };
                log.last_update_seen = update;
                *host = host.after_update(flags);
                match hits::identify(table, trigger) {
                    Err(e) => (UpdateDrain::Ended, DrainAction::Finish(Err(e))),
                    Ok(None) => (UpdateDrain::Ended, DrainAction::Finish(Ok(None))),
                    Ok(Some(id)) => if log.next_hit_seq == u64::MAX {
                        (
                            UpdateDrain::Ended,
                            DrainAction::Finish(
                                Err(
                                    N64Error::BadState("N64 hit sequence is exhausted".to_owned()),
                                ),
                            ),
                        )
                    } else {
                        (UpdateDrain::Asking { trigger, id }, DrainAction::AskState)
                    },
                }
            },
            (UpdateDrain::Asking { trigger, id }, DrainEvent::Told(report)) => match table.get(id) {
                Some(breakpoint) => {
                    let ranges = copied(&breakpoint.spec.snapshots);
                    (
                        UpdateDrain::Capturing { trigger, id, report },
                        DrainAction::Capture(ranges),
                    )
                },
                None => misplaced(),
            },
            (
                UpdateDrain::Capturing { trigger, id, report },
                DrainEvent::Captured(bytes),
            ) => match table.get(id) {
                Some(breakpoint) => if bytes.len() != breakpoint.spec.snapshots.len() {
                    misplaced()
                } else {
                    match log.record(breakpoint, trigger, report, bytes.as_slice()) {
                        Ok(event) => (UpdateDrain::Ended, DrainAction::Finish(Ok(Some(event)))),
                        Err(e) => (UpdateDrain::Ended, DrainAction::Finish(Err(e))),
                    }
                },
                None => misplaced(),
            },
            _ => misplaced(),
        }
    }
}

} // verus!
