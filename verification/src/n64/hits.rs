//! Breakpoint hits: telling which breakpoint a debugger update belongs to, and the log of events.

use vstd::prelude::*;
use crate::encoding;
use crate::json;
use crate::json::{Json, JsonView};
use crate::n64;
use crate::n64::breakpoints;
use crate::n64::breakpoints::{BreakpointTable, PublicBreakpoint, PublicBreakpointView};
use crate::n64::debug::{BreakpointKind, SnapshotSpec};
use crate::n64::{N64Error, N64ErrorView};
use crate::text;

verus! {

/// A debugger update that carries a trigger: its number, the core's trigger flags, the accessed
/// address and the program counter.
#[derive(Clone, Copy, Debug, PartialEq, Eq, Structural)]
pub struct Trigger {
    pub update: u64,
    pub flags: u32,
    pub accessed: u32,
    pub pc: u32,
}

/// The updates seen so far, the number of the next hit, and the events not yet fetched.
#[derive(Debug)]
pub struct HitLog {
    pub last_update_seen: u64,
    pub next_hit_seq: u64,
    pub events: Vec<Json>,
}

/// What the hit log holds.
#[verifier::ext_equal]
pub struct HitLogView {
    pub last_update_seen: u64,
    pub next_hit_seq: u64,
    pub events: Seq<JsonView>,
}

impl View for HitLog {
    type V = HitLogView;

    open spec fn view(&self) -> HitLogView {
        HitLogView {
            last_update_seen: self.last_update_seen,
            next_hit_seq: self.next_hit_seq,
            events: json::views(self.events@),
        }
    }
}

/// The breakpoint that a trigger belongs to: none where the flags are empty, an error where the
/// table does not give exactly one.
pub open spec fn identified(
    entries: Seq<PublicBreakpointView>,
    trigger: Trigger,
) -> Result<Option<u64>, N64ErrorView> {
    let ids = breakpoints::hit_ids(entries, trigger.flags, trigger.accessed, trigger.pc);
    if trigger.flags == 0 {
        Ok(None)
    } else if ids.len() == 1 {
        Ok(Some(ids[0]))
    } else {
        n64::bad_state(ambiguity(ids.len()))
    }
}

/// The reason why a trigger has no breakpoint of its own.
pub open spec fn ambiguity(matches: nat) -> Seq<char> {
    ("N64 breakpoint trigger matched "@ + text::decimal(matches as int)) + " public records"@
}

/// Finds the breakpoint that a trigger belongs to. Where there is not exactly one, no breakpoint
/// is known to be armed any more.
pub fn identify(table: &mut BreakpointTable, trigger: Trigger) -> (r: Result<Option<u64>, N64Error>)
    requires
        old(table)@.wf(),
    ensures
        n64::gives(r, identified(old(table)@.entries, trigger)),
        final(table)@.wf(),
        final(table)@ == (match identified(old(table)@.entries, trigger) {
            Err(e) => old(table)@.failed(e.sentence()),
            Ok(_) => old(table)@,
        }),
{
    if trigger.flags == 0 {
        return Ok(None);
    }
    let ids = table.matching(trigger.flags, trigger.accessed, trigger.pc);
    if ids.len() != 1 {
        let m = text::join(
            "N64 breakpoint trigger matched ",
            text::decimal_of(ids.len() as u64).as_str(),
        );
        let reason = text::join(m.as_str(), " public records");
        table.fail_debugger_surface(reason.as_str());
        return Err(N64Error::BadState(reason));
    }
    Ok(Some(ids[0]))
}

/// A captured range with its bytes.
pub open spec fn capture_report(s: SnapshotSpec, data: Seq<u8>) -> JsonView {
    JsonView::object().with("memory_type"@, JsonView::Str("rdram"@)).with(
        "address"@,
        JsonView::Unsigned(s.offset),
    ).with("length"@, JsonView::Unsigned(s.length)).with(
        "hex"@,
        JsonView::Str(encoding::hex_text(data)),
    )
}

/// What a hit tells before its evidence.
pub open spec fn hit_head(b: PublicBreakpointView, trigger: Trigger, hit_seq: u64) -> JsonView {
    JsonView::object().with("type"@, JsonView::Str("breakpoint_hit"@)).with(
        "id"@,
        JsonView::Unsigned(b.id),
    ).with("breakpoint_id"@, JsonView::Unsigned(b.id)).with(
        "native_slot"@,
        JsonView::Unsigned(b.slot as u64),
    ).with("kind"@, JsonView::Str(b.spec.kind.name())).with(
        "address"@,
        JsonView::Unsigned(
            if b.spec.kind is Exec {
                trigger.pc as u64
            } else {
                trigger.accessed as u64
            },
        ),
    ).with("pc"@, JsonView::Unsigned(trigger.pc as u64)).with(
        "hit_seq"@,
        JsonView::Unsigned(hit_seq),
    ).with("debug_update_seq"@, JsonView::Unsigned(trigger.update)).with(
        "snapshot_timing"@,
        JsonView::Str(
            if b.spec.kind is Exec {
                "pre_instruction"@
            } else {
                "pre_access"@
            },
        ),
    )
}

/// A whole hit event: the registers where the state was told, the captured ranges, and whether
/// the evidence is complete.
pub open spec fn hit_event(
    b: PublicBreakpointView,
    trigger: Trigger,
    hit_seq: u64,
    report: Result<JsonView, N64ErrorView>,
    captured: Seq<Seq<u8>>,
) -> JsonView {
    let head = hit_head(b, trigger, hit_seq);
    let ranges = JsonView::Array(
        Seq::new(
            b.spec.snapshots.len(),
            |i: int| capture_report(b.spec.snapshots[i], captured[i]),
        ),
    );
    match report {
        Ok(state) => head.with("regs"@, state.at("state"@)).with("snapshot"@, ranges).with(
            "evidence_complete"@,
            JsonView::Bool(true),
        ),
        Err(e) => head.with("snapshot"@, ranges).with(
            "evidence_complete"@,
            JsonView::Bool(false),
        ).with(
            "evidence_error"@,
            JsonView::Array(seq![JsonView::Str("register capture failed: "@ + e.sentence())]),
        ),
    }
}

/// The captured bytes of a list.
pub open spec fn byte_views(captured: Seq<Vec<u8>>) -> Seq<Seq<u8>> {
    Seq::new(captured.len(), |i: int| captured[i]@)
}

/// What asking for the state gave.
pub open spec fn report_view(report: Result<Json, N64Error>) -> Result<
    JsonView,
    N64ErrorView,
> {
    match report {
        Ok(v) => Ok(v@),
        Err(e) => Err(e@),
    }
}

/// Whether an event belongs to a breakpoint number.
pub open spec fn belongs(event: JsonView, filter: Option<u64>) -> bool {
    filter is None || event.unsigned_field("breakpoint_id"@) == filter
}

/// The events that belong to a filter, in their order.
pub open spec fn belonging(events: Seq<JsonView>, filter: Option<u64>) -> Seq<JsonView>
    decreases events.len(),
{
    if events.len() == 0 {
        Seq::empty()
    } else {
        let before = belonging(events.drop_last(), filter);
        if belongs(events.last(), filter) {
            before.push(events.last())
        } else {
            before
        }
    }
}

/// The events that do not belong to a filter, in their order.
pub open spec fn remaining(events: Seq<JsonView>, filter: Option<u64>) -> Seq<JsonView>
    decreases events.len(),
{
    if events.len() == 0 {
        Seq::empty()
    } else {
        let before = remaining(events.drop_last(), filter);
        if belongs(events.last(), filter) {
            before
        } else {
            before.push(events.last())
        }
    }
}

/// A fetch hands out or keeps every event, and loses none.
pub proof fn fetch_loses_nothing(events: Seq<JsonView>, filter: Option<u64>)
    ensures
        belonging(events, filter).len() + remaining(events, filter).len() == events.len(),
        filter is None ==> belonging(events, filter) == events && remaining(events, filter).len()
            == 0,
    decreases events.len(),
{
    if events.len() > 0 {
        fetch_loses_nothing(events.drop_last(), filter);
        if filter is None {
            assert(events.drop_last().push(events.last()) =~= events);
        }
    } else {
        assert(belonging(events, filter) =~= events);
    }
}

fn capture_snapshot(s: SnapshotSpec, data: &[u8]) -> (r: Json)
    ensures
        r@ == capture_report(s, data@),
{
    Json::object().with("memory_type", Json::text("rdram")).with(
        "address",
        Json::Unsigned(s.offset),
    ).with("length", Json::Unsigned(s.length)).with(
        "hex",
        Json::Str(encoding::hex_encode(data)),
    )
}

impl HitLog {
    /// The log before any update.
    pub fn new() -> (r: HitLog)
        ensures
            r@ == (HitLogView { last_update_seen: 0, next_hit_seq: 1, events: Seq::empty() }),
    {
        let r = HitLog { last_update_seen: 0, next_hit_seq: 1, events: Vec::new() };
        assert(r@.events =~= Seq::empty());
        r
    }

    /// Records a hit of a breakpoint with its evidence: the registers, which are the field `state`
    /// of a state report, and the bytes of each captured range.
    pub fn record(
        &mut self,
        breakpoint: &PublicBreakpoint,
        trigger: Trigger,
        report: Result<Json, N64Error>,
        captured: &[Vec<u8>],
    ) -> (r: Result<Json, N64Error>)
        requires
            captured@.len() == breakpoint@.spec.snapshots.len(),
        ensures
            if old(self)@.next_hit_seq == u64::MAX {
                &&& final(self)@ == old(self)@
                &&& r matches Err(e) && e@ == N64ErrorView::BadState(
                    "N64 hit sequence is exhausted"@,
                )
            } else {
                let event = hit_event(
                    breakpoint@,
                    trigger,
                    old(self)@.next_hit_seq,
                    report_view(report),
                    byte_views(captured@),
                );
                &&& r matches Ok(v) && v@ == event
                &&& final(self)@ == (HitLogView {
                    next_hit_seq: (old(self)@.next_hit_seq + 1) as u64,
                    events: old(self)@.events.push(event),
                    ..old(self)@
                })
            },
    {
        let hit_seq: u64 = self.next_hit_seq;
        if hit_seq == u64::MAX {
            return Err(N64Error::BadState("N64 hit sequence is exhausted".to_owned()));
        }
        self.next_hit_seq = hit_seq + 1;
        let exec = breakpoint.spec.kind == BreakpointKind::Exec;
        let address: u32 = if exec {
            trigger.pc
        } else {
            trigger.accessed
        };
        let timing = if exec {
            "pre_instruction"
        } else {
            "pre_access"
        };
        let head = Json::object().with("type", Json::text("breakpoint_hit")).with(
            "id",
            Json::Unsigned(breakpoint.id),
        ).with("breakpoint_id", Json::Unsigned(breakpoint.id)).with(
            "native_slot",
            Json::Unsigned(breakpoint.native_slot as u64),
        ).with("kind", Json::text(breakpoint.spec.kind.label())).with(
            "address",
            Json::Unsigned(address as u64),
        ).with("pc", Json::Unsigned(trigger.pc as u64)).with(
            "hit_seq",
            Json::Unsigned(hit_seq),
        ).with("debug_update_seq", Json::Unsigned(trigger.update)).with(
            "snapshot_timing",
            Json::text(timing),
        );
        let mut snapshots: Vec<Json> = Vec::new();
        let mut i: usize = 0;
        while i < captured.len()
            invariant
                i <= captured.len(),
                captured.len() == breakpoint.spec.snapshots.len(),
                snapshots@.len() == i,
                forall|k: int|
                    0 <= k < i ==> (#[trigger] snapshots@[k])@ == capture_report(
                        breakpoint.spec.snapshots@[k],
                        captured@[k]@,
                    ),
            decreases captured.len() - i,
        {
            snapshots.push(capture_snapshot(breakpoint.spec.snapshots[i], captured[i].as_slice()));
            i += 1;
        }
        let ghost shown = Seq::new(
            breakpoint@.spec.snapshots.len(),
            |i: int| capture_report(breakpoint@.spec.snapshots[i], byte_views(captured@)[i]),
        );
        let ranges = Json::array(snapshots);
        assert(ranges@->Array_0 =~= shown);
        let event = match report {
            Ok(state) => head.with("regs", state.at("state")).with("snapshot", ranges).with(
                "evidence_complete",
                Json::Bool(true),
            ),
            Err(error) => {
                let mut errors: Vec<Json> = Vec::new();
                errors.push(
                    Json::Str(
                        text::join("register capture failed: ", error.message().as_str()),
                    ),
                );
                let list = Json::array(errors);
                assert(list@->Array_0 =~= seq![
                    JsonView::Str("register capture failed: "@ + error@.sentence()),
                ]);
                head.with("snapshot", ranges).with("evidence_complete", Json::Bool(false)).with(
                    "evidence_error",
                    list,
                )
            },
        };
        let ghost before = self@.events;
        self.events.push(event.clone());
        assert(self@.events =~= before.push(event@));
        Ok(event)
    }

    /// Hands out the events of one breakpoint, or all of them.
    pub fn fetch(&mut self, filter: Option<u64>) -> (r: Json)
        ensures
            r@ == JsonView::object().with(
                "events"@,
                JsonView::Array(belonging(old(self)@.events, filter)),
            ).with("dropped"@, JsonView::Unsigned(0)),
            final(self)@ == (HitLogView {
                events: remaining(old(self)@.events, filter),
                ..old(self)@
            }),
    {
        let ghost all = self@.events;
        let mut returned: Vec<Json> = Vec::new();
        let mut kept: Vec<Json> = Vec::new();
        let mut i: usize = 0;
        assert(all.take(0) =~= Seq::empty());
        assert(json::views(returned@) =~= Seq::empty());
        while i < self.events.len()
            invariant
                i <= self.events.len(),
                all == json::views(self.events@),
                self@ == old(self)@,
                json::views(returned@) == belonging(all.take(i as int), filter),
                json::views(kept@) == remaining(all.take(i as int), filter),
            decreases self.events.len() - i,
        {
            let ghost returned_before = json::views(returned@);
            let ghost kept_before = json::views(kept@);
            assert(all.take(i + 1).drop_last() =~= all.take(i as int));
            assert(all[i as int] == self.events@[i as int]@);
            let event = self.events[i].clone();
            let wanted = match filter {
                None => true,
                Some(id) => match event.get_u64("breakpoint_id") {
                    Some(n) => n == id,
                    None => false,
                },
            };
            if wanted {
                returned.push(event);
                assert(json::views(returned@) =~= returned_before.push(event@));
            } else {
                kept.push(event);
                assert(json::views(kept@) =~= kept_before.push(event@));
            }
            i += 1;
        }
        assert(all.take(all.len() as int) =~= all);
        self.events = kept;
        Json::object().with("events", Json::array(returned)).with("dropped", Json::Unsigned(0))
    }
}

} // verus!
