//! The table of public breakpoints, kept in step with the native slots of the core.

use vstd::prelude::*;
use crate::json;
use crate::json::{Json, JsonView};
use crate::n64;
use crate::n64::debug;
use crate::n64::debug::{BreakpointSpec, BreakpointSpecView};
use crate::n64::{N64Error, N64ErrorView};
use crate::text;

verus! {

/// The most breakpoints that stand at one time.
pub const MAX_BREAKPOINTS: usize = 128;

/// Whether the native side of a breakpoint is known to be armed.
#[derive(Debug)]
pub enum ArmState {
    Armed,
    Failed(String),
}

/// A breakpoint under its public number.
#[derive(Debug)]
pub struct PublicBreakpoint {
    pub id: u64,
    pub spec: BreakpointSpec,
    pub native_slot: u32,
    pub arm_state: ArmState,
}

/// What a public breakpoint holds; `failure` is the reason why it is not known to be armed.
#[verifier::ext_equal]
pub struct PublicBreakpointView {
    pub id: u64,
    pub spec: BreakpointSpecView,
    pub slot: u32,
    pub failure: Option<Seq<char>>,
}

impl View for PublicBreakpoint {
    type V = PublicBreakpointView;

    open spec fn view(&self) -> PublicBreakpointView {
        PublicBreakpointView {
            id: self.id,
            spec: self.spec@,
            slot: self.native_slot,
            failure: match self.arm_state {
                ArmState::Armed => None,
                ArmState::Failed(reason) => Some(reason@),
            },
        }
    }
}

/// The breakpoints in the order of their numbers, and the next number.
#[derive(Debug)]
pub struct BreakpointTable {
    entries: Vec<PublicBreakpoint>,
    next_id: u64,
}

/// What the table holds.
#[verifier::ext_equal]
pub struct TableView {
    pub entries: Seq<PublicBreakpointView>,
    pub next_id: u64,
}

/// A question to the core: in which slot does it hold this range with these flags?
#[derive(Clone, Copy, Debug, PartialEq, Eq, Structural)]
pub struct NativeLookup {
    pub address: u32,
    pub size: u32,
    pub flags: u32,
}

/// What became of a breakpoint that the core was asked to add.
#[derive(Debug)]
pub enum ArmOutcome {
    /// It stands in the table under this number and waits for the native check.
    Entered(u64),
    /// It was not added.
    Refused(N64Error),
    /// The core's counts make no sense: the native slot has to be removed again.
    Withdrawn { slot: u32, error: N64Error },
}

/// What an arm outcome holds.
pub enum ArmOutcomeView {
    Entered(u64),
    Refused(N64ErrorView),
    Withdrawn { slot: u32, error: N64ErrorView },
}

impl View for ArmOutcome {
    type V = ArmOutcomeView;

    open spec fn view(&self) -> ArmOutcomeView {
        match *self {
            ArmOutcome::Entered(id) => ArmOutcomeView::Entered(id),
            ArmOutcome::Refused(error) => ArmOutcomeView::Refused(error@),
            ArmOutcome::Withdrawn { slot, error } => ArmOutcomeView::Withdrawn {
                slot,
                error: error@,
            },
        }
    }
}

/// Where the breakpoint with a number stands.
pub open spec fn position(entries: Seq<PublicBreakpointView>, id: u64) -> Option<int>
    decreases entries.len(),
{
    if entries.len() == 0 {
        None
    } else if entries.last().id == id {
        Some(entries.len() - 1)
    } else {
        position(entries.drop_last(), id)
    }
}

/// What a found position means.
pub proof fn position_holds(entries: Seq<PublicBreakpointView>, id: u64)
    ensures
        match position(entries, id) {
            Some(i) => 0 <= i < entries.len() && entries[i].id == id,
            None => forall|i: int| 0 <= i < entries.len() ==> (#[trigger] entries[i]).id != id,
        },
    decreases entries.len(),
{
    if entries.len() > 0 && entries.last().id != id {
        position_holds(entries.drop_last(), id);
        assert forall|i: int|
            position(entries, id) is None && 0 <= i < entries.len() implies (
        #[trigger] entries[i]).id != id by {
            if i < entries.len() - 1 {
                assert(entries.drop_last()[i] == entries[i]);
            }
        }
    }
}

/// Every breakpoint with the same reason why it is not known to be armed.
pub open spec fn all_failed(
    entries: Seq<PublicBreakpointView>,
    reason: Seq<char>,
) -> Seq<PublicBreakpointView> {
    Seq::new(
        entries.len(),
        |i: int| PublicBreakpointView { failure: Some(reason), ..entries[i] },
    )
}

/// Whether any of the first breakpoints up to `i` stands in a slot.
pub open spec fn slot_taken(entries: Seq<PublicBreakpointView>, slot: u32, i: int) -> bool {
    exists|j: int| 0 <= j <= i && j < entries.len() && (#[trigger] entries[j]).slot == slot
}

/// The breakpoints after the core closed the gap of a removed slot; the move stops before the
/// first one that stands in the removed slot itself.
pub open spec fn shifted(entries: Seq<PublicBreakpointView>, removed: u32) -> Seq<
    PublicBreakpointView,
> {
    Seq::new(
        entries.len(),
        |i: int|
            if slot_taken(entries, removed, i) {
                entries[i]
            } else {
                PublicBreakpointView {
                    slot: debug::shifted_slot(entries[i].slot, removed)->0,
                    ..entries[i]
                }
            },
    )
}

/// The numbers of the breakpoints that a reported hit belongs to.
pub open spec fn hit_ids(
    entries: Seq<PublicBreakpointView>,
    flags: u32,
    accessed: u32,
    pc: u32,
) -> Seq<u64>
    decreases entries.len(),
{
    if entries.len() == 0 {
        Seq::empty()
    } else {
        let before = hit_ids(entries.drop_last(), flags, accessed, pc);
        if debug::triggered(entries.last().spec, flags, accessed, pc) {
            before.push(entries.last().id)
        } else {
            before
        }
    }
}

impl TableView {
    /// The numbers rise and are below the next one, every request was an accepted one, and no two
    /// breakpoints of a kind overlap.
    pub open spec fn wf(self) -> bool {
        &&& self.entries.len() <= MAX_BREAKPOINTS
        &&& forall|i: int|
            0 <= i < self.entries.len() ==> (#[trigger] self.entries[i]).id < self.next_id
                && self.entries[i].spec.wf()
        &&& forall|i: int, j: int|
            0 <= i < j < self.entries.len() ==> (#[trigger] self.entries[i]).id < (
            #[trigger] self.entries[j]).id
        &&& forall|i: int, j: int|
            0 <= i < j < self.entries.len() ==> !debug::overlap(
                (#[trigger] self.entries[i]).spec,
                (#[trigger] self.entries[j]).spec,
            )
    }

    /// Whether a request overlaps a breakpoint that stands.
    pub open spec fn conflicts(self, spec: BreakpointSpecView) -> bool {
        exists|i: int|
            0 <= i < self.entries.len() && debug::overlap((#[trigger] self.entries[i]).spec, spec)
    }

    /// What a request for one more breakpoint comes to.
    pub open spec fn admitted(self, params: JsonView) -> Result<BreakpointSpecView, N64ErrorView> {
        if self.entries.len() >= MAX_BREAKPOINTS {
            n64::bad_params(
                ("N64 supports at most "@ + text::decimal(MAX_BREAKPOINTS as int))
                    + " breakpoints"@,
            )
        } else {
            match debug::requested_breakpoint(params) {
                Err(e) => Err(e),
                Ok(spec) => if self.conflicts(spec) {
                    n64::bad_params(
                        "N64 trigger identity requires non-overlapping ranges of the same kind"@,
                    )
                } else {
                    Ok(spec)
                },
            }
        }
    }

    /// The table and the outcome after the core was asked to add a breakpoint: `before` and
    /// `after` are its counts around the call, `slot` is its answer.
    pub open spec fn armed(
        self,
        spec: BreakpointSpecView,
        before: i32,
        slot: i32,
        after: i32,
    ) -> (TableView, ArmOutcomeView) {
        if slot < 0 {
            (
                self,
                ArmOutcomeView::Refused(
                    N64ErrorView::BadState("Mupen64Plus rejected the breakpoint"@),
                ),
            )
        } else if slot != before || after != before + 1 {
            (
                self.failed(arm_mismatch(before, slot, after)),
                ArmOutcomeView::Withdrawn {
                    slot: slot as u32,
                    error: N64ErrorView::BadState(
                        "N64 native breakpoint arm did not complete coherently"@,
                    ),
                },
            )
        } else if self.next_id == u64::MAX {
            (
                self,
                ArmOutcomeView::Refused(
                    N64ErrorView::BadState("N64 breakpoint id space is exhausted"@),
                ),
            )
        } else {
            (
                TableView {
                    entries: self.entries.push(
                        PublicBreakpointView {
                            id: self.next_id,
                            spec,
                            slot: slot as u32,
                            failure: None,
                        },
                    ),
                    next_id: (self.next_id + 1) as u64,
                },
                ArmOutcomeView::Entered(self.next_id),
            )
        }
    }

    /// The table with a reason at every breakpoint why it is not known to be armed.
    pub open spec fn failed(self, reason: Seq<char>) -> TableView {
        TableView { entries: all_failed(self.entries, reason), ..self }
    }

    /// Whether the core's count and slots agree with the table.
    pub open spec fn agreement(self, count: i32, found: Seq<i32>) -> Result<(), N64ErrorView> {
        if count != self.entries.len() {
            n64::bad_state(
                (("N64 native breakpoint count mismatch: expected "@ + text::decimal(
                    self.entries.len() as int,
                )) + ", got "@) + text::decimal(count as int),
            )
        } else {
            slots_agree(self.entries, found)
        }
    }

    /// The table without the breakpoint of a number.
    pub open spec fn without(self, id: u64) -> TableView {
        match position(self.entries, id) {
            Some(i) => TableView { entries: self.entries.remove(i), ..self },
            None => self,
        }
    }

    /// The table and the result after the core was asked to remove the slot of a breakpoint.
    pub open spec fn cleared(self, id: u64, before: i32, answer: i32, after: i32) -> (
        TableView,
        Result<(), N64ErrorView>,
    ) {
        let slot = self.entries[position(self.entries, id)->0].slot;
        if answer != 0 || before <= 0 || after != before - 1 {
            (
                self.failed(clear_mismatch(before, answer, after)),
                n64::bad_state("N64 native breakpoint clear did not complete coherently"@),
            )
        } else {
            let rest = self.without(id);
            (
                TableView { entries: shifted(rest.entries, slot), ..rest },
                if slot_taken(rest.entries, slot, rest.entries.len() - 1) {
                    n64::bad_state("N64 breakpoint slot identity collided"@)
                } else {
                    Ok(())
                },
            )
        }
    }

    /// The report of all breakpoints.
    pub open spec fn listing(self) -> JsonView {
        JsonView::object().with(
            "breakpoints"@,
            JsonView::Array(Seq::new(self.entries.len(), |i: int| entry_report(self.entries[i]))),
        )
    }
}

/// The reason of a count mismatch when arming.
pub open spec fn arm_mismatch(before: i32, slot: i32, after: i32) -> Seq<char> {
    (((("native arm count mismatch: slot="@ + text::decimal(slot as int)) + ", before="@)
        + text::decimal(before as int)) + ", after="@) + text::decimal(after as int)
}

/// The reason of a count mismatch when clearing.
pub open spec fn clear_mismatch(before: i32, answer: i32, after: i32) -> Seq<char> {
    (((("native clear count mismatch: result="@ + text::decimal(answer as int)) + ", before="@)
        + text::decimal(before as int)) + ", after="@) + text::decimal(after as int)
}

/// Whether each breakpoint was found in its slot; the first that was not decides the error.
pub open spec fn slots_agree(entries: Seq<PublicBreakpointView>, found: Seq<i32>) -> Result<
    (),
    N64ErrorView,
>
    decreases entries.len(),
{
    if entries.len() == 0 {
        Ok(())
    } else {
        match slots_agree(entries.drop_last(), found) {
            Err(e) => Err(e),
            Ok(()) => {
                let b = entries.last();
                let f = found[entries.len() - 1];
                if f == b.slot {
                    Ok(())
                } else {
                    n64::bad_state(
                        (((("N64 public breakpoint "@ + text::decimal(b.id as int))
                            + " expected native slot "@) + text::decimal(b.slot as int))
                            + ", got "@) + text::decimal(f as int),
                    )
                }
            },
        }
    }
}

/// The report of one breakpoint.
pub open spec fn entry_report(b: PublicBreakpointView) -> JsonView {
    JsonView::object().with("id"@, JsonView::Unsigned(b.id)).with(
        "kind"@,
        JsonView::Str(b.spec.kind.name()),
    ).with("start"@, JsonView::Unsigned(b.spec.start)).with(
        "end"@,
        JsonView::Unsigned(b.spec.end),
    ).with("native_slot"@, JsonView::Unsigned(b.slot as u64)).with(
        "arm_state"@,
        JsonView::Str(
            if b.failure is None {
                "armed"@
            } else {
                "failed"@
            },
        ),
    ).with("arm_error"@, crate::json::text_or_null(b.failure)).with(
        "pause_on_hit"@,
        JsonView::Bool(true),
    )
}

/// The questions by which the native side of the given breakpoints is checked.
pub open spec fn lookup_of(b: PublicBreakpointView) -> NativeLookup {
    NativeLookup {
        address: b.spec.native.address,
        size: (b.spec.native.endaddr - b.spec.native.address + 1) as u32,
        flags: b.spec.native.flags,
    }
}

/// A hit that the core reports for one kind belongs to at most one breakpoint.
pub proof fn hit_is_unambiguous(
    table: TableView,
    kind: debug::BreakpointKind,
    flags: u32,
    accessed: u32,
    pc: u32,
    i: int,
    j: int,
)
    requires
        table.wf(),
        0 <= i < table.entries.len(),
        0 <= j < table.entries.len(),
        table.entries[i].spec.kind == kind,
        table.entries[j].spec.kind == kind,
        debug::triggered(table.entries[i].spec, flags, accessed, pc),
        debug::triggered(table.entries[j].spec, flags, accessed, pc),
    ensures
        i == j,
{
    if i < j {
        assert(debug::overlap(table.entries[i].spec, table.entries[j].spec));
    } else if j < i {
        assert(debug::overlap(table.entries[j].spec, table.entries[i].spec));
    }
}

/// What the reported hit numbers are: those of the breakpoints that it belongs to.
pub proof fn hit_ids_are_triggered(
    entries: Seq<PublicBreakpointView>,
    flags: u32,
    accessed: u32,
    pc: u32,
    id: u64,
)
    ensures
        hit_ids(entries, flags, accessed, pc).contains(id) <==> exists|i: int|
            0 <= i < entries.len() && (#[trigger] entries[i]).id == id && debug::triggered(
                entries[i].spec,
                flags,
                accessed,
                pc,
            ),
    decreases entries.len(),
{
    if entries.len() > 0 {
        let front = entries.drop_last();
        let before = hit_ids(front, flags, accessed, pc);
        let all = hit_ids(entries, flags, accessed, pc);
        hit_ids_are_triggered(front, flags, accessed, pc, id);
        if all.contains(id) {
            let k = choose|k: int| 0 <= k < all.len() && all[k] == id;
            if k < before.len() {
                assert(before[k] == id);
                let i = choose|i: int|
                    0 <= i < front.len() && (#[trigger] front[i]).id == id && debug::triggered(
                        front[i].spec,
                        flags,
                        accessed,
                        pc,
                    );
                assert(entries[i] == front[i]);
            } else {
                assert(entries[entries.len() - 1].id == id);
            }
        }
        if exists|i: int|
            0 <= i < entries.len() && (#[trigger] entries[i]).id == id && debug::triggered(
                entries[i].spec,
                flags,
                accessed,
                pc,
            ) {
            let i = choose|i: int|
                0 <= i < entries.len() && (#[trigger] entries[i]).id == id && debug::triggered(
                    entries[i].spec,
                    flags,
                    accessed,
                    pc,
                );
            if i < entries.len() - 1 {
                assert(front[i] == entries[i]);
                assert(before.contains(id));
                let k = choose|k: int| 0 <= k < before.len() && before[k] == id;
                assert(all[k] == id);
            } else {
                assert(all[all.len() - 1] == id);
            }
        }
    }
}

impl BreakpointTable {
    /// What the table holds.
    pub closed spec fn view(&self) -> TableView {
        TableView {
            entries: Seq::new(self.entries@.len(), |i: int| self.entries@[i]@),
            next_id: self.next_id,
        }
    }

    /// The table without breakpoints; the first number is one.
    pub fn new() -> (r: BreakpointTable)
        ensures
            r@ == (TableView { entries: Seq::empty(), next_id: 1 }),
            r@.wf(),
    {
        let r = BreakpointTable { entries: Vec::new(), next_id: 1 };
        assert(r@.entries =~= Seq::empty());
        r
    }

    /// How many breakpoints stand.
    pub fn len(&self) -> (r: usize)
        ensures
            r == self@.entries.len(),
    {
        self.entries.len()
    }

    /// The numbers of the breakpoints.
    pub fn ids(&self) -> (r: Vec<u64>)
        ensures
            r@ == Seq::new(self@.entries.len(), |i: int| self@.entries[i].id),
    {
        let mut r: Vec<u64> = Vec::new();
        let mut i: usize = 0;
        while i < self.entries.len()
            invariant
                i <= self.entries.len(),
                r@ == Seq::new(i as nat, |k: int| self.entries@[k].id),
            decreases self.entries.len() - i,
        {
            r.push(self.entries[i].id);
            i += 1;
            assert(r@ =~= Seq::new(i as nat, |k: int| self.entries@[k].id));
        }
        assert(r@ =~= Seq::new(self@.entries.len(), |i: int| self@.entries[i].id));
        r
    }

    /// Checks a request for one more breakpoint.
    pub fn accept(&self, params: &Json) -> (r: Result<BreakpointSpec, N64Error>)
        requires
            self@.wf(),
        ensures
            n64::gives_view(r, self@.admitted(params@)),
            r matches Ok(spec) ==> spec@.wf() && !self@.conflicts(spec@)
                && self@.entries.len() < MAX_BREAKPOINTS,
    {
        if self.entries.len() >= MAX_BREAKPOINTS {
            let m = text::join(
                "N64 supports at most ",
                text::decimal_of(MAX_BREAKPOINTS as u64).as_str(),
            );
            return Err(N64Error::BadParams(text::join(m.as_str(), " breakpoints")));
        }
        let spec = debug::breakpoint_spec(params)?;
        let mut i: usize = 0;
        while i < self.entries.len()
            invariant
                i <= self.entries.len(),
                spec@.wf(),
                debug::requested_breakpoint(params@) == Ok::<_, N64ErrorView>(spec@),
                self@.entries.len() < MAX_BREAKPOINTS,
                forall|k: int|
                    0 <= k < i ==> !debug::overlap((#[trigger] self@.entries[k]).spec, spec@),
            decreases self.entries.len() - i,
        {
            assert(self@.entries[i as int] == self.entries@[i as int]@);
            if debug::ranges_overlap(&self.entries[i].spec, &spec) {
                return Err(
                    N64Error::BadParams(
                        "N64 trigger identity requires non-overlapping ranges of the same kind".to_owned(),
                    ),
                );
            }
            i += 1;
        }
        Ok(spec)
    }

    /// Marks every breakpoint as not known to be armed.
    pub fn fail_debugger_surface(&mut self, reason: &str)
        ensures
            final(self)@ == old(self)@.failed(reason@),
            old(self)@.wf() ==> final(self)@.wf(),
    {
        let mut i: usize = 0;
        let ghost start = self@;
        while i < self.entries.len()
            invariant
                i <= self.entries.len(),
                self@.next_id == start.next_id,
                self.entries@.len() == start.entries.len(),
                forall|k: int|
                    0 <= k < self.entries.len() ==> (#[trigger] self.entries@[k])@ == (if k < i {
                        PublicBreakpointView { failure: Some(reason@), ..start.entries[k] }
                    } else {
                        start.entries[k]
                    }),
            decreases self.entries.len() - i,
        {
            self.entries[i].arm_state = ArmState::Failed(reason.to_owned());
            i += 1;
        }
        assert(self@ =~= start.failed(reason@));
        assert forall|i: int| 0 <= i < self@.entries.len() implies {
            &&& (#[trigger] self@.entries[i]).id == start.entries[i].id
            &&& self@.entries[i].spec == start.entries[i].spec
        } by {}
    }

    /// Enters a breakpoint that the core was asked to add, or says why not.
    pub fn arm(&mut self, spec: BreakpointSpec, before: i32, slot: i32, after: i32) -> (r:
        ArmOutcome)
        requires
            old(self)@.wf(),
            spec@.wf(),
            !old(self)@.conflicts(spec@),
            old(self)@.entries.len() < MAX_BREAKPOINTS,
        ensures
            (final(self)@, r@) == old(self)@.armed(spec@, before, slot, after),
            final(self)@.wf(),
    {
        if slot < 0 {
            return ArmOutcome::Refused(
                N64Error::BadState("Mupen64Plus rejected the breakpoint".to_owned()),
            );
        }
        if slot != before || after as i64 != before as i64 + 1 {
            let m = text::join(
                "native arm count mismatch: slot=",
                text::signed_decimal_of(slot as i64).as_str(),
            );
            let m = text::join(m.as_str(), ", before=");
            let m = text::join(m.as_str(), text::signed_decimal_of(before as i64).as_str());
            let m = text::join(m.as_str(), ", after=");
            let m = text::join(m.as_str(), text::signed_decimal_of(after as i64).as_str());
            self.fail_debugger_surface(m.as_str());
            return ArmOutcome::Withdrawn {
                slot: slot as u32,
                error: N64Error::BadState(
                    "N64 native breakpoint arm did not complete coherently".to_owned(),
                ),
            };
        }
        let id: u64 = self.next_id;
        if id == u64::MAX {
            return ArmOutcome::Refused(
                N64Error::BadState("N64 breakpoint id space is exhausted".to_owned()),
            );
        }
        let ghost start = self@;
        self.next_id = id + 1;
        self.entries.push(
            PublicBreakpoint { id, spec, native_slot: slot as u32, arm_state: ArmState::Armed },
        );
        assert(self@ =~= start.armed(spec@, before, slot, after).0);
        ArmOutcome::Entered(id)
    }

    /// The questions by which the native side is checked, one for each breakpoint.
    pub fn lookups(&self) -> (r: Vec<NativeLookup>)
        requires
            self@.wf(),
        ensures
            r@ == Seq::new(self@.entries.len(), |i: int| lookup_of(self@.entries[i])),
    {
        let mut r: Vec<NativeLookup> = Vec::new();
        let mut i: usize = 0;
        while i < self.entries.len()
            invariant
                i <= self.entries.len(),
                self@.wf(),
                r@ == Seq::new(i as nat, |k: int| lookup_of(self@.entries[k])),
            decreases self.entries.len() - i,
        {
            assert(self@.entries[i as int] == self.entries@[i as int]@);
            let native = self.entries[i].spec.native;
            assert(self@.entries[i as int].spec.wf());
            r.push(
                NativeLookup {
                    address: native.address,
                    size: native.endaddr - native.address + 1,
                    flags: native.flags,
                },
            );
            i += 1;
            assert(r@ =~= Seq::new(i as nat, |k: int| lookup_of(self@.entries[k])));
        }
        assert(r@ =~= Seq::new(self@.entries.len(), |i: int| lookup_of(self@.entries[i])));
        r
    }

    /// Compares the core's count and the slots it was found to use with the table.
    pub fn verify_native_breakpoints(&self, count: i32, found: &[i32]) -> (r: Result<(), N64Error>)
        requires
            self@.wf(),
            found@.len() == self@.entries.len(),
        ensures
            n64::gives(r, self@.agreement(count, found@)),
    {
        let expected: i64 = self.entries.len() as i64;
        if count as i64 != expected {
            let m = text::join(
                "N64 native breakpoint count mismatch: expected ",
                text::signed_decimal_of(expected).as_str(),
            );
            let m = text::join(m.as_str(), ", got ");
            let m = text::join(m.as_str(), text::signed_decimal_of(count as i64).as_str());
            return Err(N64Error::BadState(m));
        }
        let ghost all = self@.entries;
        let mut i: usize = 0;
        while i < self.entries.len()
            invariant
                i <= self.entries.len(),
                all == self@.entries,
                found@.len() == all.len(),
                count == all.len(),
                slots_agree(all.take(i as int), found@) is Ok,
            decreases self.entries.len() - i,
        {
            assert(all[i as int] == self.entries@[i as int]@);
            assert(all.take(i + 1).drop_last() =~= all.take(i as int));
            let slot: u32 = self.entries[i].native_slot;
            let f: i32 = found[i];
            if f as i64 != slot as i64 {
                proof {
                    slots_agree_prefix(all, found@, i + 1);
                }
                let m = text::join(
                    "N64 public breakpoint ",
                    text::decimal_of(self.entries[i].id).as_str(),
                );
                let m = text::join(m.as_str(), " expected native slot ");
                let m = text::join(m.as_str(), text::decimal_of(slot as u64).as_str());
                let m = text::join(m.as_str(), ", got ");
                let m = text::join(m.as_str(), text::signed_decimal_of(f as i64).as_str());
                return Err(N64Error::BadState(m));
            }
            i += 1;
        }
        assert(all.take(all.len() as int) =~= all);
        Ok(())
    }

    fn find(&self, id: u64) -> (r: Option<usize>)
        ensures
            r is Some == position(self@.entries, id) is Some,
            r matches Some(i) ==> i == position(self@.entries, id)->0 && i < self@.entries.len()
                && self@.entries[i as int].id == id,
    {
        let ghost all = self@.entries;
        let mut i: usize = self.entries.len();
        assert(all.take(i as int) =~= all);
        while i > 0
            invariant
                i <= self.entries.len(),
                all == self@.entries,
                all.len() == self.entries.len(),
                position(all, id) == position(all.take(i as int), id),
            decreases i,
        {
            i -= 1;
            assert(all[i as int] == self.entries@[i as int]@);
            assert(all.take(i + 1).drop_last() =~= all.take(i as int));
            if self.entries[i].id == id {
                return Some(i);
            }
        }
        None
    }

    /// The native slot of a breakpoint.
    pub fn slot_of(&self, id: u64) -> (r: Result<u32, N64Error>)
        ensures
            n64::gives(
                r,
                match position(self@.entries, id) {
                    Some(i) => Ok(self@.entries[i].slot),
                    None => n64::bad_params("unknown N64 breakpoint id: "@ + text::decimal(id as int)),
                },
            ),
    {
        match self.find(id) {
            Some(i) => Ok(self.entries[i].native_slot),
            None => Err(
                N64Error::BadParams(
                    text::join("unknown N64 breakpoint id: ", text::decimal_of(id).as_str()),
                ),
            ),
        }
    }

    /// The breakpoint of a number.
    pub fn get(&self, id: u64) -> (r: Option<&PublicBreakpoint>)
        ensures
            r is Some == position(self@.entries, id) is Some,
            r matches Some(b) ==> b@ == self@.entries[position(self@.entries, id)->0],
    {
        match self.find(id) {
            Some(i) => Some(&self.entries[i]),
            None => None,
        }
    }

    /// Takes a breakpoint out of the table.
    pub fn forget(&mut self, id: u64)
        requires
            old(self)@.wf(),
        ensures
            final(self)@ == old(self)@.without(id),
            final(self)@.wf(),
    {
        let ghost start = self@;
        if let Some(i) = self.find(id) {
            let _gone = self.entries.remove(i);
            assert(self@ =~= start.without(id));
            assert forall|k: int| 0 <= k < self@.entries.len() implies (#[trigger] self@.entries[k])
                == start.entries[if k < i {
                k
            } else {
                k + 1
            }] by {}
        }
    }

    /// Checks the native side after a breakpoint was entered. On a disagreement the breakpoint
    /// leaves the table, and its native slot has to be removed.
    pub fn conclude_arm(&mut self, id: u64, count: i32, found: &[i32]) -> (r: Result<
        Json,
        (u32, N64Error),
    >)
        requires
            old(self)@.wf(),
            found@.len() == old(self)@.entries.len(),
            position(old(self)@.entries, id) is Some,
        ensures
            final(self)@.wf(),
            match old(self)@.agreement(count, found@) {
                Ok(()) => {
                    let slot = old(self)@.entries[position(old(self)@.entries, id)->0].slot;
                    &&& final(self)@ == old(self)@
                    &&& r matches Ok(report) && report@ == JsonView::object().with(
                        "id"@,
                        JsonView::Unsigned(id),
                    ).with("set"@, JsonView::Bool(true)).with(
                        "native_slot"@,
                        JsonView::Unsigned(slot as u64),
                    ).with("arm_state"@, JsonView::Str("armed"@))
                },
                Err(e) => {
                    &&& final(self)@ == old(self)@.without(id).failed(e.sentence())
                    &&& r matches Err((slot, error)) && error@ == e && slot == old(self)@.entries[
                        position(old(self)@.entries, id)->0
                    ].slot
                },
            },
    {
        let slot: u32 = match self.find(id) {
            Some(i) => self.entries[i].native_slot,
            None => 0,
        };
        match self.verify_native_breakpoints(count, found) {
            Ok(()) => Ok(
                Json::object().with("id", Json::Unsigned(id)).with("set", Json::Bool(true)).with(
                    "native_slot",
                    Json::Unsigned(slot as u64),
                ).with("arm_state", Json::text("armed")),
            ),
            Err(error) => {
                self.forget(id);
                self.fail_debugger_surface(error.message().as_str());
                Err((slot, error))
            },
        }
    }

    /// Takes a breakpoint out after the core was asked to remove its slot.
    pub fn clear(&mut self, id: u64, before: i32, answer: i32, after: i32) -> (r: Result<
        (),
        N64Error,
    >)
        requires
            old(self)@.wf(),
            position(old(self)@.entries, id) is Some,
        ensures
            final(self)@ == old(self)@.cleared(id, before, answer, after).0,
            n64::gives(r, old(self)@.cleared(id, before, answer, after).1),
            final(self)@.wf(),
    {
        let ghost start = self@;
        if answer != 0 || before <= 0 || after != before - 1 {
            let m = text::join(
                "native clear count mismatch: result=",
                text::signed_decimal_of(answer as i64).as_str(),
            );
            let m = text::join(m.as_str(), ", before=");
            let m = text::join(m.as_str(), text::signed_decimal_of(before as i64).as_str());
            let m = text::join(m.as_str(), ", after=");
            let m = text::join(m.as_str(), text::signed_decimal_of(after as i64).as_str());
            self.fail_debugger_surface(m.as_str());
            return Err(
                N64Error::BadState(
                    "N64 native breakpoint clear did not complete coherently".to_owned(),
                ),
            );
        }
        let removed: u32 = match self.find(id) {
            Some(i) => self.entries[i].native_slot,
            None => 0,
        };
        self.forget(id);
        let ghost rest = self@;
        let mut i: usize = 0;
        while i < self.entries.len()
            invariant
                i <= self.entries.len(),
                start == old(self)@,
                rest.wf(),
                rest == start.without(id),
                removed == start.entries[position(start.entries, id)->0].slot,
                start.cleared(id, before, answer, after).0 == (TableView {
                    entries: shifted(rest.entries, removed),
                    ..rest
                }),
                start.cleared(id, before, answer, after).1 == (if slot_taken(
                    rest.entries,
                    removed,
                    rest.entries.len() - 1,
                ) {
                    n64::bad_state("N64 breakpoint slot identity collided"@)
                } else {
                    Ok(())
                }),
                self@.next_id == rest.next_id,
                self.entries@.len() == rest.entries.len(),
                forall|k: int| 0 <= k < i ==> (#[trigger] rest.entries[k]).slot != removed,
                forall|k: int|
                    0 <= k < self.entries.len() ==> (#[trigger] self.entries@[k])@ == (if k < i {
                        PublicBreakpointView {
                            slot: debug::shifted_slot(rest.entries[k].slot, removed)->0,
                            ..rest.entries[k]
                        }
                    } else {
                        rest.entries[k]
                    }),
            decreases self.entries.len() - i,
        {
            match debug::slot_after_clear(self.entries[i].native_slot, removed) {
                Some(slot) => {
                    self.entries[i].native_slot = slot;
                },
                None => {
                    proof {
                        assert(rest.entries[i as int].slot == removed);
                        assert forall|k: int| 0 <= k < rest.entries.len() implies self@.entries[k]
                            == #[trigger] shifted(rest.entries, removed)[k] by {
                            if k >= i {
                                assert(slot_taken(rest.entries, removed, k));
                            }
                        }
                        assert(self@ =~= start.cleared(id, before, answer, after).0);
                        assert(slot_taken(rest.entries, removed, rest.entries.len() - 1));
                        shifted_keeps(rest, removed);
                    }
                    return Err(
                        N64Error::BadState("N64 breakpoint slot identity collided".to_owned()),
                    );
                },
            }
            i += 1;
        }
        proof {
            assert(self@ =~= start.cleared(id, before, answer, after).0);
            shifted_keeps(rest, removed);
        }
        Ok(())
    }

    /// Checks the native side after a breakpoint was taken out.
    pub fn conclude_clear(&mut self, id: u64, count: i32, found: &[i32]) -> (r: Result<
        Json,
        N64Error,
    >)
        requires
            old(self)@.wf(),
            found@.len() == old(self)@.entries.len(),
        ensures
            final(self)@.wf(),
            match old(self)@.agreement(count, found@) {
                Ok(()) => {
                    &&& final(self)@ == old(self)@
                    &&& r matches Ok(report) && report@ == JsonView::object().with(
                        "cleared"@,
                        JsonView::Unsigned(id),
                    )
                },
                Err(e) => {
                    &&& final(self)@ == old(self)@.failed(e.sentence())
                    &&& r matches Err(error) && error@ == e
                },
            },
    {
        match self.verify_native_breakpoints(count, found) {
            Ok(()) => Ok(Json::object().with("cleared", Json::Unsigned(id))),
            Err(error) => {
                self.fail_debugger_surface(error.message().as_str());
                Err(error)
            },
        }
    }

    /// Reports all breakpoints.
    pub fn list_breakpoints(&self) -> (r: Json)
        ensures
            r@ == self@.listing(),
    {
        let mut reports: Vec<Json> = Vec::new();
        let mut i: usize = 0;
        while i < self.entries.len()
            invariant
                i <= self.entries.len(),
                reports@.len() == i,
                forall|k: int|
                    0 <= k < i ==> (#[trigger] reports@[k])@ == entry_report(self@.entries[k]),
            decreases self.entries.len() - i,
        {
            assert(self@.entries[i as int] == self.entries@[i as int]@);
            let b = &self.entries[i];
            let arm_state = match &b.arm_state {
                ArmState::Armed => "armed",
                ArmState::Failed(_) => "failed",
            };
            let arm_error = match &b.arm_state {
                ArmState::Armed => Json::Null,
                ArmState::Failed(reason) => Json::text(reason.as_str()),
            };
            reports.push(
                Json::object().with("id", Json::Unsigned(b.id)).with(
                    "kind",
                    Json::text(b.spec.kind.label()),
                ).with("start", Json::Unsigned(b.spec.start)).with(
                    "end",
                    Json::Unsigned(b.spec.end),
                ).with("native_slot", Json::Unsigned(b.native_slot as u64)).with(
                    "arm_state",
                    Json::text(arm_state),
                ).with("arm_error", arm_error).with("pause_on_hit", Json::Bool(true)),
            );
            i += 1;
        }
        let ghost listed = JsonView::Array(
            Seq::new(self@.entries.len(), |i: int| entry_report(self@.entries[i])),
        );
        let list = Json::array(reports);
        assert(list@->Array_0 =~= listed->Array_0);
        Json::object().with("breakpoints", list)
    }

    /// The numbers of the breakpoints that a reported hit belongs to.
    pub fn matching(&self, flags: u32, accessed: u32, pc: u32) -> (r: Vec<u64>)
        ensures
            r@ == hit_ids(self@.entries, flags, accessed, pc),
    {
        let ghost all = self@.entries;
        let mut r: Vec<u64> = Vec::new();
        let mut i: usize = 0;
        assert(all.take(0) =~= Seq::empty());
        while i < self.entries.len()
            invariant
                i <= self.entries.len(),
                all == self@.entries,
                r@ == hit_ids(all.take(i as int), flags, accessed, pc),
            decreases self.entries.len() - i,
        {
            assert(all[i as int] == self.entries@[i as int]@);
            assert(all.take(i + 1).drop_last() =~= all.take(i as int));
            if debug::trigger_matches(&self.entries[i].spec, flags, accessed, pc) {
                r.push(self.entries[i].id);
            }
            i += 1;
        }
        assert(all.take(all.len() as int) =~= all);
        r
    }
}

proof fn slots_agree_prefix(entries: Seq<PublicBreakpointView>, found: Seq<i32>, n: int)
    requires
        0 <= n <= entries.len(),
    ensures
        slots_agree(entries.take(n), found) is Err ==> slots_agree(entries, found) == slots_agree(
            entries.take(n),
            found,
        ),
    decreases entries.len() - n,
{
    if n == entries.len() {
        assert(entries.take(n) =~= entries);
    } else {
        assert(entries.take(n + 1).drop_last() =~= entries.take(n));
        slots_agree_prefix(entries, found, n + 1);
    }
}

proof fn shifted_keeps(table: TableView, removed: u32)
    requires
        table.wf(),
    ensures
        (TableView { entries: shifted(table.entries, removed), ..table }).wf(),
{
    let moved = TableView { entries: shifted(table.entries, removed), ..table };
    assert forall|i: int| 0 <= i < moved.entries.len() implies {
        &&& (#[trigger] moved.entries[i]).id == table.entries[i].id
        &&& moved.entries[i].spec == table.entries[i].spec
    } by {}
}

/// Reports which breakpoints were cleared.
pub fn cleared_report(ids: &[u64]) -> (r: Json)
    ensures
        r@ == JsonView::object().with("cleared"@, json::number_array(ids@)),
{
    Json::object().with("cleared", Json::numbers(ids))
}

/// Where no two breakpoints shared a slot before a clear, none collides, and none share one after.
pub proof fn clear_keeps_slots_apart(table: TableView, id: u64, before: i32, answer: i32, after: i32)
    requires
        table.wf(),
        position(table.entries, id) is Some,
        answer == 0,
        before > 0,
        after == before - 1,
        forall|i: int, j: int|
            0 <= i < j < table.entries.len() ==> (#[trigger] table.entries[i]).slot != (
            #[trigger] table.entries[j]).slot,
    ensures
        table.cleared(id, before, answer, after).1 is Ok,
        forall|i: int, j: int|
            0 <= i < j < table.cleared(id, before, answer, after).0.entries.len() ==> (
            #[trigger] table.cleared(id, before, answer, after).0.entries[i]).slot != (
            #[trigger] table.cleared(id, before, answer, after).0.entries[j]).slot,
{
    position_holds(table.entries, id);
    let p = position(table.entries, id)->0;
    let slot = table.entries[p].slot;
    let rest = table.without(id).entries;
    assert forall|k: int| 0 <= k < rest.len() implies (#[trigger] rest[k]).slot != slot by {
        let source = if k < p {
            k
        } else {
            k + 1
        };
        assert(rest[k] == table.entries[source]);
    }
    assert forall|i: int, j: int| 0 <= i < j < rest.len() implies (#[trigger] rest[i]).slot != (
    #[trigger] rest[j]).slot by {
        let a = if i < p {
            i
        } else {
            i + 1
        };
        let b = if j < p {
            j
        } else {
            j + 1
        };
        assert(rest[i] == table.entries[a] && rest[j] == table.entries[b]);
    }
    let moved = shifted(rest, slot);
    assert forall|i: int, j: int| 0 <= i < j < moved.len() implies (#[trigger] moved[i]).slot != (
    #[trigger] moved[j]).slot by {
        assert(rest[i].slot != rest[j].slot);
        assert(!slot_taken(rest, slot, i) && !slot_taken(rest, slot, j));
    }
}

} // verus!
