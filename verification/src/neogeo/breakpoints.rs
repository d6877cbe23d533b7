//! The breakpoints of the machine: setting, clearing and listing them, and telling their hits.

use vstd::prelude::*;
use crate::gdb;
use crate::gdb::{GdbStep, GdbTransport};
use crate::json;
use crate::json::{Json, JsonView};
use crate::neogeo;
use crate::neogeo::hits;
use crate::neogeo::machine;
use crate::neogeo::machine::{
    BreakpointView,
    MachineView,
    NeoGeoArmState,
    NeoGeoBreakpoint,
    NeoGeoBridge,
    Run,
};
use crate::neogeo::packets::BreakpointKind;
use crate::neogeo::params;
use crate::neogeo::params::NeoGeoSnapshot;
use crate::neogeo::{
    BridgeError,
    BridgeErrorView,
    NeoGeoProfile,
    MAX_BREAKPOINTS,
    MAX_DRAINED_PACKETS,
    MAX_PROGRAM_ADDRESS,
};
use crate::text;

verus! {

/// The options of breakpoints that other bridges have and this one has not.
pub open spec fn foreign_options() -> Seq<Seq<char>> {
    seq!["condition"@, "value"@, "value_mask"@, "value_len"@, "pc_min"@, "pc_max"@]
}

/// What a request says of options that the bridge has not; the first one decides.
pub open spec fn option_check(params: JsonView, options: Seq<Seq<char>>) -> Result<
    (),
    BridgeErrorView,
>
    decreases options.len(),
{
    if options.len() == 0 {
        Ok(())
    } else {
        match option_check(params, options.drop_last()) {
            Err(e) => Err(e),
            Ok(()) => if params.field(options.last()) is Some {
                neogeo::bad(
                    ("Neo Geo breakpoint option "@ + options.last()) + " is not supported"@,
                )
            } else {
                Ok(())
            },
        }
    }
}

proof fn first_option_stays(params: JsonView, options: Seq<Seq<char>>, k: int)
    requires
        0 <= k <= options.len(),
        option_check(params, options.take(k)) is Err,
    ensures
        option_check(params, options) == option_check(params, options.take(k)),
    decreases options.len(),
{
    if k == options.len() {
        assert(options.take(k) =~= options);
    } else {
        assert(options.drop_last().take(k) =~= options.take(k));
        first_option_stays(params, options.drop_last(), k);
    }
}

fn reject_unsupported_breakpoint_options(params: &Json) -> (r: Result<(), BridgeError>)
    ensures
        neogeo::plain(r) == option_check(params@, foreign_options()),
{
    let mut options: Vec<&'static str> = Vec::new();
    options.push("condition");
    options.push("value");
    options.push("value_mask");
    options.push("value_len");
    options.push("pc_min");
    options.push("pc_max");
    let ghost all = foreign_options();
    assert(json::literals(options@) =~= all);
    let mut i: usize = 0;
    assert(all.take(0) =~= Seq::empty());
    while i < options.len()
        invariant
            i <= options@.len(),
            all == json::literals(options@),
            all == foreign_options(),
            option_check(params@, all.take(i as int)) == Ok::<(), BridgeErrorView>(()),
        decreases options.len() - i,
    {
        proof {
            assert(all.take(i + 1).drop_last() =~= all.take(i as int));
            assert(all.take(i + 1).last() == options@[i as int]@);
        }
        if params.get(options[i]).is_some() {
            proof {
                first_option_stays(params@, all, i + 1);
            }
            let m = text::join("Neo Geo breakpoint option ", options[i]);
            return Err(BridgeError::BadParams(text::join(m.as_str(), " is not supported")));
        }
        i += 1;
    }
    assert(all.take(i as int) =~= all);
    Ok(())
}

/// What a breakpoint that is to be set holds.
pub struct PlanView {
    pub kind: BreakpointKind,
    pub start: u64,
    pub end: u64,
    pub address: u64,
    pub snapshots: Seq<NeoGeoSnapshot>,
}

/// A breakpoint that is to be set.
#[derive(Debug)]
pub struct Plan {
    pub kind: BreakpointKind,
    pub start: u64,
    pub end: u64,
    pub address: u64,
    pub snapshots: Vec<NeoGeoSnapshot>,
}

impl View for Plan {
    type V = PlanView;

    open spec fn view(&self) -> PlanView {
        PlanView {
            kind: self.kind,
            start: self.start,
            end: self.end,
            address: self.address,
            snapshots: self.snapshots@,
        }
    }
}

/// The address of a breakpoint on code.
pub open spec fn exec_target(params: JsonView, start: u64, end: u64) -> Result<
    (BreakpointKind, u64),
    BridgeErrorView,
> {
    if end != start {
        neogeo::bad("Neo Geo exec breakpoints require an exact address"@)
    } else if params.text_field("memory_type"@) is Some && params.text_field("memory_type"@)->0
        != "cpu"@ {
        neogeo::bad(
            "Neo Geo exec breakpoints use an absolute 68000 address; memory_type may only be cpu"@,
        )
    } else if start > MAX_PROGRAM_ADDRESS {
        neogeo::bad("Neo Geo exec address exceeds the 68000 24-bit program space"@)
    } else {
        Ok((BreakpointKind::Exec, start))
    }
}

/// The address of a breakpoint on memory.
pub open spec fn watch_target(
    profile: NeoGeoProfile,
    params: JsonView,
    kind: BreakpointKind,
    start: u64,
    end: u64,
) -> Result<(BreakpointKind, u64), BridgeErrorView> {
    if params::memory_type_of(params) != "ram"@ {
        neogeo::bad("Neo Geo read/write breakpoints currently support memory_type=ram only"@)
    } else {
        match hits::size_of_range(start, end) {
            None => neogeo::bad("breakpoint range overflow"@),
            Some(size) => match params::ram_place(profile, start, size) {
                Err(e) => Err(e),
                Ok(address) => Ok((kind, address)),
            },
        }
    }
}

/// The kind that a request names.
pub open spec fn kind_text(params: JsonView) -> Seq<char> {
    match params.text_field("kind"@) {
        Some(kind) => kind,
        None => "exec"@,
    }
}

/// The kind and the address of a breakpoint.
pub open spec fn target_of(profile: NeoGeoProfile, params: JsonView, start: u64, end: u64) -> Result<
    (BreakpointKind, u64),
    BridgeErrorView,
> {
    let kind = kind_text(params);
    if kind == "exec"@ {
        exec_target(params, start, end)
    } else if kind == "read"@ {
        watch_target(profile, params, BreakpointKind::Read, start, end)
    } else if kind == "write"@ {
        watch_target(profile, params, BreakpointKind::Write, start, end)
    } else {
        neogeo::bad(
            ("unsupported Neo Geo breakpoint kind: "@ + kind)
                + "; supported: exec, read, write"@,
        )
    }
}

/// Whether a breakpoint is the same as one that is to be set.
pub open spec fn is_twin(bp: BreakpointView, kind: BreakpointKind, address: u64, span: int) -> bool {
    bp.kind == kind && bp.absolute_start == address && bp.end - bp.start == span
}

/// What a request that sets a breakpoint asks for.
pub open spec fn range_of(params: JsonView) -> Result<(u64, u64), BridgeErrorView> {
    match params::required(params, "start"@) {
        Err(e) => Err(e),
        Ok(start) => match params::optional(params, "end"@) {
            Err(e) => Err(e),
            Ok(told) => {
                let end = match told {
                    Some(end) => end,
                    None => start,
                };
                if end < start {
                    neogeo::bad("breakpoint end must be greater than or equal to start"@)
                } else {
                    Ok((start, end))
                }
            },
        },
    }
}

/// What a request that sets a breakpoint says of how it is hit.
pub open spec fn way_check(s: MachineView, params: JsonView) -> Result<(), BridgeErrorView> {
    if s.bps.len() >= MAX_BREAKPOINTS {
        neogeo::bad(
            ("Neo Geo supports at most "@ + text::decimal(MAX_BREAKPOINTS as int))
                + " public breakpoints"@,
        )
    } else {
        match option_check(params, foreign_options()) {
            Err(e) => Err(e),
            Ok(()) => if params.truth_field("pause_on_hit"@) == Some(false) {
                neogeo::bad("Neo Geo breakpoints require pause_on_hit=true"@)
            } else {
                Ok(())
            },
        }
    }
}

/// The breakpoint that a request asks for.
pub open spec fn plan_of(s: MachineView, params: JsonView) -> Result<PlanView, BridgeErrorView> {
    match way_check(s, params) {
        Err(e) => Err(e),
        Ok(()) => match range_of(params) {
            Err(e) => Err(e),
            Ok((start, end)) => match target_of(s.profile, params, start, end) {
                Err(e) => Err(e),
                Ok((kind, address)) => if exists|i: int|
                    0 <= i < s.bps.len() && #[trigger] is_twin(s.bps[i], kind, address, end - start) {
                    neogeo::bad("an identical Neo Geo breakpoint is already armed"@)
                } else {
                    match params::snapshots_of(s.profile, params.field("snapshot"@)) {
                        Err(e) => Err(e),
                        Ok(snapshots) => Ok(PlanView { kind, start, end, address, snapshots }),
                    }
                },
            },
        },
    }
}

/// The breakpoints with one more, in the order of their numbers; one of the same number is
/// replaced.
pub open spec fn placed(bps: Seq<BreakpointView>, bp: BreakpointView) -> Seq<BreakpointView>
    decreases bps.len(),
{
    if bps.len() == 0 {
        seq![bp]
    } else if bps.last().id < bp.id {
        bps.push(bp)
    } else if bps.last().id == bp.id {
        bps.drop_last().push(bp)
    } else {
        placed(bps.drop_last(), bp).push(bps.last())
    }
}

/// Whether the breakpoints stand in the order of their numbers, each number once.
pub open spec fn ordered(bps: Seq<BreakpointView>) -> bool {
    forall|i: int, j: int| 0 <= i < j < bps.len() ==> (#[trigger] bps[i]).id < (#[trigger] bps[j]).id
}

/// Setting a breakpoint keeps the order of the numbers.
pub proof fn placing_keeps_order(bps: Seq<BreakpointView>, bp: BreakpointView)
    requires
        ordered(bps),
    ensures
        ordered(placed(bps, bp)),
        forall|k: int|
            0 <= k < placed(bps, bp).len() ==> (#[trigger] placed(bps, bp)[k]).id <= bp.id || (
            bps.len() > 0 && placed(bps, bp)[k].id <= bps.last().id),
        placed(bps, bp).contains(bp),
    decreases bps.len(),
{
    if bps.len() == 0 {
        assert(seq![bp][0] == bp);
    } else if bps.last().id < bp.id {
        assert(bps.push(bp)[bps.len() as int] == bp);
    } else if bps.last().id == bp.id {
        assert(bps.drop_last().push(bp)[bps.len() - 1] == bp);
    } else {
        let rest = placed(bps.drop_last(), bp);
        placing_keeps_order(bps.drop_last(), bp);
        let k = choose|k: int| 0 <= k < rest.len() && rest[k] == bp;
        assert(rest.push(bps.last())[k] == bp);
    }
}

/// Clearing a breakpoint keeps the order of the numbers.
pub proof fn clearing_keeps_order(bps: Seq<BreakpointView>, i: int)
    requires
        ordered(bps),
        0 <= i < bps.len(),
    ensures
        ordered(bps.remove(i)),
{
}

/// Setting a breakpoint.
pub open spec fn set_run(h: Seq<GdbStep>, n: int, s: MachineView, params: JsonView) -> Run<
    JsonView,
> {
    match plan_of(s, params) {
        Err(e) => Some((n, s, Err(e))),
        Ok(plan) => match hits::arm_run(h, n, s, plan.kind, plan.start, plan.end, plan.address) {
            None => None,
            Some((m, t, Err(e))) => Some((m, t, Err(e))),
            Some((m, t, Ok((native, number)))) => if native != plan.kind.native_kind() {
                match hits::clear_native_run(h, m, t, native, number) {
                    None => None,
                    Some((k, u, _)) => Some(
                        (
                            k,
                            u,
                            neogeo::fault(
                                ((("MAME returned "@ + native.tag()) + " for a "@)
                                    + plan.kind.name()) + " breakpoint"@,
                            ),
                        ),
                    ),
                }
            } else {
                let bp = BreakpointView {
                    id: t.next_bp,
                    kind: plan.kind,
                    start: plan.start,
                    end: plan.end,
                    absolute_start: plan.address,
                    backend_id: Some(number),
                    snapshots: plan.snapshots,
                    armed: Ok(()),
                };
                let after = MachineView {
                    bps: placed(t.bps, bp),
                    next_bp: if t.next_bp == u64::MAX {
                        u64::MAX
                    } else {
                        (t.next_bp + 1) as u64
                    },
                    ..t
                };
                let report = JsonView::object().with("id"@, JsonView::Unsigned(t.next_bp)).with(
                    "set"@,
                    JsonView::Bool(true),
                ).with("arm_state"@, JsonView::Str("armed"@));
                Some((m, after, Ok(report)))
            },
        },
    }
}

/// The place of the first breakpoint with a number.
pub open spec fn place_of_id(bps: Seq<BreakpointView>, id: u64) -> Option<int>
    decreases bps.len(),
{
    if bps.len() == 0 {
        None
    } else {
        match place_of_id(bps.drop_last(), id) {
            Some(i) => Some(i),
            None => if bps.last().id == id {
                Some(bps.len() - 1)
            } else {
                None
            },
        }
    }
}

proof fn first_id_stays(bps: Seq<BreakpointView>, id: u64, k: int)
    requires
        0 <= k <= bps.len(),
        place_of_id(bps.take(k), id) is Some,
    ensures
        place_of_id(bps, id) == place_of_id(bps.take(k), id),
    decreases bps.len(),
{
    if k == bps.len() {
        assert(bps.take(k) =~= bps);
    } else {
        assert(bps.drop_last().take(k) =~= bps.take(k));
        first_id_stays(bps.drop_last(), id, k);
    }
}

/// Clearing the breakpoint of a number. It is forgotten only where the machine cleared it.
pub open spec fn clear_run(h: Seq<GdbStep>, n: int, s: MachineView, id: u64) -> Run<()> {
    match place_of_id(s.bps, id) {
        None => Some(
            (n, s, neogeo::bad("unknown breakpoint id: "@ + text::decimal(id as int))),
        ),
        Some(i) => {
            let cleared = match s.bps[i].backend_id {
                None => Some((n, s, Ok::<(), BridgeErrorView>(()))),
                Some(number) => hits::clear_native_run(
                    h,
                    n,
                    s,
                    s.bps[i].kind.native_kind(),
                    number,
                ),
            };
            match cleared {
                None => None,
                Some((m, t, Err(e))) => Some((m, t, Err(e))),
                Some((m, t, Ok(()))) => Some(
                    (m, MachineView { bps: t.bps.remove(i), ..t }, Ok(())),
                ),
            }
        },
    }
}

/// Clearing the breakpoint that a request names.
pub open spec fn clear_one_run(h: Seq<GdbStep>, n: int, s: MachineView, params: JsonView) -> Run<
    JsonView,
> {
    match params::required(params, "id"@) {
        Err(e) => Some((n, s, Err(e))),
        Ok(id) => match clear_run(h, n, s, id) {
            None => None,
            Some((m, t, Err(e))) => Some((m, t, Err(e))),
            Some((m, t, Ok(()))) => Some(
                (m, t, Ok(JsonView::object().with("cleared"@, JsonView::Unsigned(id)))),
            ),
        },
    }
}

/// The numbers of the breakpoints.
pub open spec fn ids_of(bps: Seq<BreakpointView>) -> Seq<u64> {
    Seq::new(bps.len(), |i: int| bps[i].id)
}

/// Clearing the breakpoints of some numbers, from one of them on; the first failure ends it.
pub open spec fn clear_all_run(
    h: Seq<GdbStep>,
    n: int,
    s: MachineView,
    ids: Seq<u64>,
    i: int,
) -> Run<()>
    decreases ids.len() - i,
{
    if !(0 <= i < ids.len()) {
        Some((n, s, Ok(())))
    } else {
        match clear_run(h, n, s, ids[i]) {
            None => None,
            Some((m, t, Err(e))) => Some((m, t, Err(e))),
            Some((m, t, Ok(()))) => clear_all_run(h, m, t, ids, i + 1),
        }
    }
}

/// The numbers as a list.
pub open spec fn numbers(ids: Seq<u64>) -> Seq<JsonView> {
    Seq::new(ids.len(), |i: int| JsonView::Unsigned(ids[i]))
}

/// Clearing all breakpoints.
pub open spec fn clear_every_run(h: Seq<GdbStep>, n: int, s: MachineView) -> Run<JsonView> {
    match clear_all_run(h, n, s, ids_of(s.bps), 0) {
        None => None,
        Some((m, t, Err(e))) => Some((m, t, Err(e))),
        Some((m, t, Ok(()))) => Some(
            (
                m,
                t,
                Ok(
                    JsonView::object().with(
                        "cleared"@,
                        JsonView::Array(numbers(ids_of(s.bps))),
                    ),
                ),
            ),
        ),
    }
}

/// A number that may be missing.
pub open spec fn number_or_null(n: Option<u64>) -> JsonView {
    match n {
        Some(n) => JsonView::Unsigned(n),
        None => JsonView::Null,
    }
}

/// The row of a breakpoint.
pub open spec fn bp_row(bp: BreakpointView) -> JsonView {
    JsonView::object().with("id"@, JsonView::Unsigned(bp.id)).with(
        "kind"@,
        JsonView::Str(bp.kind.name()),
    ).with("start"@, JsonView::Unsigned(bp.start)).with("end"@, JsonView::Unsigned(bp.end)).with(
        "backend_id"@,
        number_or_null(bp.backend_id),
    ).with(
        "arm_state"@,
        JsonView::Str(
            match bp.armed {
                Ok(()) => "armed"@,
                Err(_) => "failed"@,
            },
        ),
    ).with(
        "arm_error"@,
        match bp.armed {
            Ok(()) => JsonView::Null,
            Err(why) => JsonView::Str(why),
        },
    ).with("pause_on_hit"@, JsonView::Bool(true))
}

/// The list of the breakpoints.
pub open spec fn bp_list(bps: Seq<BreakpointView>) -> JsonView {
    JsonView::object().with(
        "breakpoints"@,
        JsonView::Array(Seq::new(bps.len(), |i: int| bp_row(bps[i]))),
    )
}

/// Whether a request asks for an event.
pub open spec fn is_wanted(event: JsonView, filter: Option<u64>) -> bool {
    filter is None || event.unsigned_field("id"@) == filter || event.unsigned_field(
        "breakpoint_id"@,
    ) == filter
}

/// The events that a request asks for, or the others.
pub open spec fn chosen(events: Seq<JsonView>, filter: Option<u64>, wanted: bool) -> Seq<JsonView>
    decreases events.len(),
{
    if events.len() == 0 {
        Seq::empty()
    } else {
        let earlier = chosen(events.drop_last(), filter, wanted);
        if is_wanted(events.last(), filter) == wanted {
            earlier.push(events.last())
        } else {
            earlier
        }
    }
}

/// Every event is either told or held back, and none twice.
pub proof fn polled_events_are_kept(events: Seq<JsonView>, filter: Option<u64>)
    ensures
        events.to_multiset() =~= chosen(events, filter, true).to_multiset().add(
            chosen(events, filter, false).to_multiset(),
        ),
    decreases events.len(),
{
    broadcast use vstd::seq_lib::group_to_multiset_ensures;

    if events.len() > 0 {
        polled_events_are_kept(events.drop_last(), filter);
        assert(events =~= events.drop_last().push(events.last()));
    }
}

/// Telling the events that a request asks for.
pub open spec fn poll_run(h: Seq<GdbStep>, n: int, s: MachineView, params: JsonView) -> Run<
    JsonView,
> {
    match hits::drain_run(h, n, s, MAX_DRAINED_PACKETS as nat) {
        None => None,
        Some((m, t, Err(e))) => Some((m, t, Err(e))),
        Some((m, t, Ok(()))) => match params::optional(params, "breakpoint_id"@) {
            Err(e) => Some((m, t, Err(e))),
            Ok(filter) => Some(
                (
                    m,
                    MachineView { events: chosen(t.events, filter, false), ..t },
                    Ok(
                        JsonView::object().with(
                            "events"@,
                            JsonView::Array(chosen(t.events, filter, true)),
                        ).with("dropped"@, JsonView::Unsigned(0)),
                    ),
                ),
            ),
        },
    }
}

fn read_exec_target(params: &Json, start: u64, end: u64) -> (r: Result<
    (BreakpointKind, u64),
    BridgeError,
>)
    ensures
        neogeo::plain(r) == exec_target(params@, start, end),
{
    if end != start {
        return Err(
            BridgeError::BadParams("Neo Geo exec breakpoints require an exact address".to_owned()),
        );
    }
    if let Some(name) = params.get_str("memory_type") {
        if !text::same(name, "cpu") {
            return Err(
                BridgeError::BadParams(
                    "Neo Geo exec breakpoints use an absolute 68000 address; memory_type may only be cpu".to_owned(),
                ),
            );
        }
    }
    if start > MAX_PROGRAM_ADDRESS {
        return Err(
            BridgeError::BadParams(
                "Neo Geo exec address exceeds the 68000 24-bit program space".to_owned(),
            ),
        );
    }
    Ok((BreakpointKind::Exec, start))
}

fn read_watch_target(
    profile: NeoGeoProfile,
    params: &Json,
    kind: BreakpointKind,
    start: u64,
    end: u64,
) -> (r: Result<(BreakpointKind, u64), BridgeError>)
    ensures
        neogeo::plain(r) == watch_target(profile, params@, kind, start, end),
{
    let name = match params.get_str("memory_type") {
        Some(name) => name,
        None => "ram",
    };
    if !text::same(name, "ram") {
        return Err(
            BridgeError::BadParams(
                "Neo Geo read/write breakpoints currently support memory_type=ram only".to_owned(),
            ),
        );
    }
    match hits::range_size(start, end) {
        None => Err(BridgeError::BadParams("breakpoint range overflow".to_owned())),
        Some(size) => {
            let address: u64 = params::ram_address(profile, start, size)?;
            Ok((kind, address))
        },
    }
}

fn read_target(profile: NeoGeoProfile, params: &Json, start: u64, end: u64) -> (r: Result<
    (BreakpointKind, u64),
    BridgeError,
>)
    ensures
        neogeo::plain(r) == target_of(profile, params@, start, end),
{
    let kind = match params.get_str("kind") {
        Some(kind) => kind,
        None => "exec",
    };
    if text::same(kind, "exec") {
        read_exec_target(params, start, end)
    } else if text::same(kind, "read") {
        read_watch_target(profile, params, BreakpointKind::Read, start, end)
    } else if text::same(kind, "write") {
        read_watch_target(profile, params, BreakpointKind::Write, start, end)
    } else {
        let m = text::join("unsupported Neo Geo breakpoint kind: ", kind);
        Err(BridgeError::BadParams(text::join(m.as_str(), "; supported: exec, read, write")))
    }
}

fn read_range(params: &Json) -> (r: Result<(u64, u64), BridgeError>)
    ensures
        neogeo::plain(r) == range_of(params@),
{
    let start: u64 = params::required_num(params, "start")?;
    let end: u64 = match params::optional_num(params, "end")? {
        Some(end) => end,
        None => start,
    };
    if end < start {
        return Err(
            BridgeError::BadParams(
                "breakpoint end must be greater than or equal to start".to_owned(),
            ),
        );
    }
    Ok((start, end))
}

fn has_twin(bps: &Vec<NeoGeoBreakpoint>, kind: BreakpointKind, address: u64, span: u64) -> (r: bool)
    ensures
        r == (exists|i: int|
            0 <= i < machine::breakpoint_views(bps@).len() && #[trigger] is_twin(
                machine::breakpoint_views(bps@)[i],
                kind,
                address,
                span as int,
            )),
{
    let ghost all = machine::breakpoint_views(bps@);
    let mut i: usize = 0;
    while i < bps.len()
        invariant
            i <= bps@.len(),
            all == machine::breakpoint_views(bps@),
            forall|k: int| 0 <= k < i ==> !#[trigger] is_twin(all[k], kind, address, span as int),
        decreases bps.len() - i,
    {
        let bp = &bps[i];
        if bp.kind == kind && bp.absolute_start == address && bp.start <= bp.end && bp.end
            - bp.start == span {
            assert(is_twin(all[i as int], kind, address, span as int));
            return true;
        }
        assert(!is_twin(all[i as int], kind, address, span as int));
        i += 1;
    }
    false
}

fn find_id(bps: &Vec<NeoGeoBreakpoint>, id: u64) -> (r: Option<usize>)
    ensures
        match (r, place_of_id(machine::breakpoint_views(bps@), id)) {
            (Some(i), Some(k)) => i == k && i < bps@.len(),
            (None, None) => true,
            _ => false,
        },
{
    let ghost all = machine::breakpoint_views(bps@);
    let mut i: usize = 0;
    assert(all.take(0) =~= Seq::empty());
    while i < bps.len()
        invariant
            i <= bps@.len(),
            all == machine::breakpoint_views(bps@),
            place_of_id(all.take(i as int), id) is None,
        decreases bps.len() - i,
    {
        proof {
            assert(all.take(i + 1).drop_last() =~= all.take(i as int));
            assert(all.take(i + 1).last() == bps@[i as int]@);
        }
        if bps[i].id == id {
            proof {
                first_id_stays(all, id, i + 1);
            }
            return Some(i);
        }
        i += 1;
    }
    assert(all.take(i as int) =~= all);
    None
}

proof fn placed_further_up(bps: Seq<BreakpointView>, bp: BreakpointView, k: int)
    requires
        0 <= k <= bps.len(),
        forall|j: int| k <= j < bps.len() ==> (#[trigger] bps[j]).id > bp.id,
    ensures
        placed(bps, bp) == placed(bps.take(k), bp) + bps.skip(k),
    decreases bps.len(),
{
    if k == bps.len() {
        assert(bps.take(k) =~= bps);
        assert(bps.skip(k) =~= Seq::empty());
        assert(placed(bps, bp) =~= placed(bps, bp) + Seq::empty());
    } else {
        placed_further_up(bps.drop_last(), bp, k);
        assert(bps.drop_last().take(k) =~= bps.take(k));
        assert(placed(bps, bp) =~= placed(bps.take(k), bp) + bps.skip(k));
    }
}

fn place(bps: &mut Vec<NeoGeoBreakpoint>, bp: NeoGeoBreakpoint)
    ensures
        machine::breakpoint_views(final(bps)@) == placed(
            machine::breakpoint_views(old(bps)@),
            bp@,
        ),
{
    let ghost all = machine::breakpoint_views(bps@);
    let mut i: usize = bps.len();
    while i > 0 && bps[i - 1].id > bp.id
        invariant
            i <= bps@.len(),
            *bps == *old(bps),
            all == machine::breakpoint_views(bps@),
            forall|j: int| i <= j < bps@.len() ==> (#[trigger] all[j]).id > bp.id,
        decreases i,
    {
        assert(all[i - 1] == bps@[i - 1]@);
        i -= 1;
    }
    proof {
        placed_further_up(all, bp@, i as int);
    }
    if i > 0 && bps[i - 1].id == bp.id {
        assert(all[i - 1] == bps@[i - 1]@);
        bps.set(i - 1, bp);
        assert(machine::breakpoint_views(bps@) =~= placed(all.take(i as int), bp@) + all.skip(
            i as int,
        ));
    } else {
        proof {
            if i > 0 {
                assert(all[i - 1] == bps@[i - 1]@);
            }
        }
        bps.insert(i, bp);
        assert(machine::breakpoint_views(bps@) =~= placed(all.take(i as int), bp@) + all.skip(
            i as int,
        ));
    }
}

fn wants(event: &Json, filter: Option<u64>) -> (r: bool)
    ensures
        r == is_wanted(event@, filter),
{
    let wanted: u64 = match filter {
        None => {
            return true;
        },
        Some(wanted) => wanted,
    };
    let by_id = match event.get_u64("id") {
        Some(n) => n == wanted,
        None => false,
    };
    let by_name = match event.get_u64("breakpoint_id") {
        Some(n) => n == wanted,
        None => false,
    };
    by_id || by_name
}

fn part(events: &Vec<Json>, filter: Option<u64>) -> (r: (Vec<Json>, Vec<Json>))
    ensures
        json::views(r.0@) == chosen(json::views(events@), filter, true),
        json::views(r.1@) == chosen(json::views(events@), filter, false),
{
    let ghost all = json::views(events@);
    let mut told: Vec<Json> = Vec::new();
    let mut held: Vec<Json> = Vec::new();
    let mut i: usize = 0;
    assert(all.take(0) =~= Seq::empty());
    assert(json::views(told@) =~= Seq::empty());
    while i < events.len()
        invariant
            i <= events.len(),
            all == json::views(events@),
            json::views(told@) == chosen(all.take(i as int), filter, true),
            json::views(held@) == chosen(all.take(i as int), filter, false),
        decreases events.len() - i,
    {
        proof {
            assert(all.take(i + 1).drop_last() =~= all.take(i as int));
            assert(all.take(i + 1).last() == events@[i as int]@);
        }
        let event = events[i].clone();
        if wants(&event, filter) {
            let ghost earlier = told@;
            told.push(event);
            assert(json::views(told@) =~= json::views(earlier).push(event@));
        } else {
            let ghost earlier = held@;
            held.push(event);
            assert(json::views(held@) =~= json::views(earlier).push(event@));
        }
        i += 1;
    }
    assert(all.take(i as int) =~= all);
    (told, held)
}

fn describe_bp(bp: &NeoGeoBreakpoint) -> (r: Json)
    ensures
        r@ == bp_row(bp@),
{
    let number = match bp.backend_id {
        Some(n) => Json::Unsigned(n),
        None => Json::Null,
    };
    let (state, why) = match &bp.arm_state {
        NeoGeoArmState::Armed => ("armed", Json::Null),
        NeoGeoArmState::Failed(why) => ("failed", Json::text(why.as_str())),
    };
    Json::object().with("id", Json::Unsigned(bp.id)).with("kind", Json::text(bp.kind.as_str())).with(
        "start",
        Json::Unsigned(bp.start),
    ).with("end", Json::Unsigned(bp.end)).with("backend_id", number).with(
        "arm_state",
        Json::text(state),
    ).with("arm_error", why).with("pause_on_hit", Json::Bool(true))
}

impl<G: GdbTransport> NeoGeoBridge<G> {
    /// The breakpoint that a request asks for.
    pub fn plan_breakpoint(&self, params: &Json) -> (r: Result<Plan, BridgeError>)
        ensures
            neogeo::shown(r) == plan_of(self@, params@),
    {
        if self.breakpoints.len() >= MAX_BREAKPOINTS {
            let m = text::join(
                "Neo Geo supports at most ",
                text::decimal_of(MAX_BREAKPOINTS as u64).as_str(),
            );
            return Err(BridgeError::BadParams(text::join(m.as_str(), " public breakpoints")));
        }
        reject_unsupported_breakpoint_options(params)?;
        if let Some(false) = params.get_bool("pause_on_hit") {
            return Err(
                BridgeError::BadParams("Neo Geo breakpoints require pause_on_hit=true".to_owned()),
            );
        }
        let (start, end) = read_range(params)?;
        let (kind, address) = read_target(self.profile, params, start, end)?;
        let ghost span = (end - start) as u64;
        if has_twin(&self.breakpoints, kind, address, end - start) {
            proof {
                let i = choose|i: int|
                    0 <= i < self@.bps.len() && #[trigger] is_twin(
                        self@.bps[i],
                        kind,
                        address,
                        span as int,
                    );
                assert(is_twin(self@.bps[i], kind, address, end - start));
            }
            return Err(
                BridgeError::BadParams(
                    "an identical Neo Geo breakpoint is already armed".to_owned(),
                ),
            );
        }
        assert(!exists|i: int|
            0 <= i < self@.bps.len() && #[trigger] is_twin(
                self@.bps[i],
                kind,
                address,
                end - start,
            )) by {
            assert(span as int == end - start);
        }
        let snapshots = params::parse_snapshots(self.profile, params.get("snapshot"))?;
        Ok(Plan { kind, start, end, address, snapshots })
    }

    /// Sets a breakpoint.
    pub fn set_breakpoint(&mut self, params: &Json) -> (r: Result<Json, BridgeError>)
        ensures
            machine::settles(
                *old(self),
                *final(self),
                set_run(
                    final(self).gdb.history(),
                    old(self).gdb.history().len() as int,
                    old(self)@,
                    params@,
                ),
                neogeo::shown(r),
            ),
    {
        broadcast use gdb::goes_on_further;

        let plan = self.plan_breakpoint(params)?;
        let (native, number) = self.arm_native(plan.kind, plan.start, plan.end, plan.address)?;
        if native != plan.kind.native() {
            let _cleared = self.clear_native(native, number);
            let m = text::join("MAME returned ", native.as_str());
            let m = text::join(m.as_str(), " for a ");
            let m = text::join(m.as_str(), plan.kind.as_str());
            return Err(BridgeError::Emulator(text::join(m.as_str(), " breakpoint")));
        }
        let id: u64 = self.next_breakpoint_id;
        self.next_breakpoint_id = self.next_breakpoint_id.saturating_add(1);
        let bp = NeoGeoBreakpoint {
            id,
            kind: plan.kind,
            start: plan.start,
            end: plan.end,
            absolute_start: plan.address,
            backend_id: Some(number),
            snapshots: plan.snapshots,
            arm_state: NeoGeoArmState::Armed,
        };
        place(&mut self.breakpoints, bp);
        Ok(
            Json::object().with("id", Json::Unsigned(id)).with("set", Json::Bool(true)).with(
                "arm_state",
                Json::text("armed"),
            ),
        )
    }

    fn clear_number(&mut self, id: u64) -> (r: Result<(), BridgeError>)
        ensures
            machine::went_on(*old(self), *final(self)),
            forall|h: Seq<GdbStep>|
                gdb::goes_on(final(self).gdb.history(), h) ==> #[trigger] clear_run(
                    h,
                    old(self).gdb.history().len() as int,
                    old(self)@,
                    id,
                ) == Some((final(self).gdb.history().len() as int, final(self)@, neogeo::plain(r))),
    {
        let i: usize = match find_id(&self.breakpoints, id) {
            Some(i) => i,
            None => {
                return Err(
                    BridgeError::BadParams(
                        text::join("unknown breakpoint id: ", text::decimal_of(id).as_str()),
                    ),
                );
            },
        };
        let native = self.breakpoints[i].kind.native();
        let ghost s = self@;
        assert(s.bps[i as int] == self.breakpoints@[i as int]@);
        if let Some(number) = self.breakpoints[i].backend_id {
            self.clear_native(native, number)?;
        }
        assert(self@.bps.len() == self.breakpoints@.len());
        let ghost before = self.breakpoints@;
        let _gone = self.breakpoints.remove(i);
        assert(machine::breakpoint_views(self.breakpoints@) =~= machine::breakpoint_views(
            before,
        ).remove(i as int));
        Ok(())
    }

    /// Clears a breakpoint.
    pub fn clear_breakpoint(&mut self, params: &Json) -> (r: Result<Json, BridgeError>)
        ensures
            machine::settles(
                *old(self),
                *final(self),
                clear_one_run(
                    final(self).gdb.history(),
                    old(self).gdb.history().len() as int,
                    old(self)@,
                    params@,
                ),
                neogeo::shown(r),
            ),
    {
        let id: u64 = params::required_num(params, "id")?;
        self.clear_number(id)?;
        Ok(Json::object().with("cleared", Json::Unsigned(id)))
    }

    /// Clears all breakpoints, up to the first that cannot be cleared.
    pub fn clear_all_breakpoints(&mut self) -> (r: Result<Json, BridgeError>)
        ensures
            machine::settles(
                *old(self),
                *final(self),
                clear_every_run(
                    final(self).gdb.history(),
                    old(self).gdb.history().len() as int,
                    old(self)@,
                ),
                neogeo::shown(r),
            ),
    {
        let ghost n = self.gdb.history().len() as int;
        let ghost s = self@;
        let mut ids: Vec<u64> = Vec::new();
        let mut rows: Vec<Json> = Vec::new();
        let mut k: usize = 0;
        while k < self.breakpoints.len()
            invariant
                k <= self.breakpoints@.len(),
                *self == *old(self),
                ids@.len() == k,
                rows@.len() == k,
                forall|j: int| 0 <= j < k ==> ids@[j] == (#[trigger] self.breakpoints@[j]).id,
                forall|j: int| 0 <= j < k ==> (#[trigger] rows@[j])@ == JsonView::Unsigned(ids@[j]),
            decreases self.breakpoints.len() - k,
        {
            let id: u64 = self.breakpoints[k].id;
            ids.push(id);
            rows.push(Json::Unsigned(id));
            k += 1;
        }
        assert(ids@ =~= ids_of(s.bps));
        assert(json::views(rows@) =~= numbers(ids_of(s.bps)));
        let mut i: usize = 0;
        while i < ids.len()
            invariant
                i <= ids@.len(),
                n == old(self).gdb.history().len(),
                s == old(self)@,
                ids@ == ids_of(s.bps),
                machine::went_on(*old(self), *self),
                forall|h: Seq<GdbStep>|
                    gdb::goes_on(self.gdb.history(), h) ==> #[trigger] clear_all_run(
                        h,
                        n,
                        s,
                        ids@,
                        0,
                    ) == clear_all_run(
                        h,
                        self.gdb.history().len() as int,
                        self@,
                        ids@,
                        i as int,
                    ),
            decreases ids.len() - i,
        {
            broadcast use gdb::goes_on_further;

            self.clear_number(ids[i])?;
            i += 1;
        }
        Ok(Json::object().with("cleared", Json::array(rows)))
    }

    /// Lists the breakpoints.
    pub fn list_breakpoints(&self) -> (r: Json)
        ensures
            r@ == bp_list(self@.bps),
    {
        let mut rows: Vec<Json> = Vec::new();
        let mut i: usize = 0;
        while i < self.breakpoints.len()
            invariant
                i <= self.breakpoints@.len(),
                rows@.len() == i,
                forall|k: int| 0 <= k < i ==> (#[trigger] rows@[k])@ == bp_row(self@.bps[k]),
            decreases self.breakpoints.len() - i,
        {
            rows.push(describe_bp(&self.breakpoints[i]));
            i += 1;
        }
        let list = Json::array(rows);
        assert(list@->Array_0 =~= Seq::new(self@.bps.len(), |i: int| bp_row(self@.bps[i])));
        Json::object().with("breakpoints", list)
    }

    /// Tells the events that a request asks for, and holds the others back.
    pub fn poll_events(&mut self, params: &Json) -> (r: Result<Json, BridgeError>)
        ensures
            machine::settles(
                *old(self),
                *final(self),
                poll_run(
                    final(self).gdb.history(),
                    old(self).gdb.history().len() as int,
                    old(self)@,
                    params@,
                ),
                neogeo::shown(r),
            ),
    {
        self.drain_breakpoint_packets()?;
        let filter = params::optional_num(params, "breakpoint_id")?;
        let (told, held) = part(&self.events, filter);
        self.events = held;
        Ok(
            Json::object().with("events", Json::array(told)).with("dropped", Json::Unsigned(0)),
        )
    }
}

} // verus!
