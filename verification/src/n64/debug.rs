//! R4300 breakpoint requests, trigger matching, disassembly bounds and stack walking.

use vstd::prelude::*;
use crate::json;
use crate::json::{Json, JsonView};
use crate::n64;
use crate::n64::params;
use crate::n64::{N64Error, N64ErrorView, RDRAM_SIZE};
use crate::text;

verus! {

pub const BKP_ENABLED: u32 = 0x01;

pub const BKP_READ: u32 = 0x02;

pub const BKP_WRITE: u32 = 0x04;

pub const BKP_EXEC: u32 = 0x08;

/// The most ranges that one breakpoint captures when it is hit.
pub const MAX_SNAPSHOTS: u64 = 16;

/// The most bytes that the captured ranges of one breakpoint hold together.
pub const MAX_SNAPSHOT_BYTES: u64 = 0x4000;

/// The most instructions that one request disassembles.
pub const MAX_DISASSEMBLY_COUNT: u64 = 64;

/// The size of the virtual address space.
pub const N64_ADDRESS_SPACE_SIZE: u64 = 0x1_0000_0000;

/// A breakpoint in the form that the core takes.
#[derive(Clone, Copy, Debug, PartialEq, Eq, Structural)]
pub struct NativeBreakpoint {
    pub address: u32,
    pub endaddr: u32,
    pub flags: u32,
}

/// A range of RDRAM to capture when a breakpoint is hit.
#[derive(Clone, Copy, Debug, PartialEq, Eq, Structural)]
pub struct SnapshotSpec {
    pub offset: u64,
    pub length: u64,
}

/// What a breakpoint watches for.
#[derive(Clone, Copy, Debug, PartialEq, Eq, Structural)]
pub enum BreakpointKind {
    Exec,
    Read,
    Write,
}

impl BreakpointKind {
    /// The name of the kind in requests and reports.
    pub open spec fn name(self) -> Seq<char> {
        match self {
            BreakpointKind::Exec => "exec"@,
            BreakpointKind::Read => "read"@,
            BreakpointKind::Write => "write"@,
        }
    }

    /// The flag by which the core tells the kind.
    pub open spec fn bit(self) -> u32 {
        match self {
            BreakpointKind::Exec => BKP_EXEC,
            BreakpointKind::Read => BKP_READ,
            BreakpointKind::Write => BKP_WRITE,
        }
    }

    /// The name of the kind in requests and reports.
    pub fn label(self) -> (r: &'static str)
        ensures
            r@ == self.name(),
    {
        match self {
            BreakpointKind::Exec => "exec",
            BreakpointKind::Read => "read",
            BreakpointKind::Write => "write",
        }
    }

    fn flag(self) -> (r: u32)
        ensures
            r == self.bit(),
    {
        match self {
            BreakpointKind::Exec => BKP_EXEC,
            BreakpointKind::Read => BKP_READ,
            BreakpointKind::Write => BKP_WRITE,
        }
    }
}

/// An accepted breakpoint request.
#[derive(Debug)]
pub struct BreakpointSpec {
    pub kind: BreakpointKind,
    pub start: u64,
    pub end: u64,
    pub native: NativeBreakpoint,
    pub snapshots: Vec<SnapshotSpec>,
}

/// What an accepted breakpoint request holds.
#[verifier::ext_equal]
pub struct BreakpointSpecView {
    pub kind: BreakpointKind,
    pub start: u64,
    pub end: u64,
    pub native: NativeBreakpoint,
    pub snapshots: Seq<SnapshotSpec>,
}

impl View for BreakpointSpec {
    type V = BreakpointSpecView;

    open spec fn view(&self) -> BreakpointSpecView {
        BreakpointSpecView {
            kind: self.kind,
            start: self.start,
            end: self.end,
            native: self.native,
            snapshots: self.snapshots@,
        }
    }
}

impl BreakpointSpecView {
    /// What holds of every accepted request: the native range is the requested one and is not
    /// empty, the flags say the kind, and each captured range lies in RDRAM.
    pub open spec fn wf(self) -> bool {
        &&& self.start <= self.end
        &&& self.native.address == self.start
        &&& self.native.endaddr == self.end
        &&& self.native.flags == BKP_ENABLED | self.kind.bit()
        &&& self.kind is Exec ==> self.start == self.end
        &&& self.kind !is Exec ==> self.end < RDRAM_SIZE
        &&& self.snapshots.len() <= MAX_SNAPSHOTS
        &&& snapshot_bytes(self.snapshots) <= MAX_SNAPSHOT_BYTES
        &&& forall|i: int|
            0 <= i < self.snapshots.len() ==> {
                let s = #[trigger] self.snapshots[i];
                0 < s.length && s.offset + s.length <= RDRAM_SIZE
            }
    }
}

impl Clone for BreakpointSpec {
    fn clone(&self) -> (r: Self)
        ensures
            r@ == self@,
    {
        let mut snapshots: Vec<SnapshotSpec> = Vec::new();
        let mut i: usize = 0;
        while i < self.snapshots.len()
            invariant
                i <= self.snapshots.len(),
                snapshots@ == self.snapshots@.take(i as int),
            decreases self.snapshots.len() - i,
        {
            snapshots.push(self.snapshots[i]);
            i += 1;
        }
        let r = BreakpointSpec {
            kind: self.kind,
            start: self.start,
            end: self.end,
            native: self.native,
            snapshots,
        };
        assert(r@ =~= self@);
        r
    }
}

/// The options of other systems that have no meaning here.
pub open spec fn foreign_options() -> Seq<Seq<char>> {
    seq!["condition"@, "value"@, "value_mask"@, "value_len"@, "pc_min"@, "pc_max"@]
}

/// The first of the given keys that the parameters hold.
pub open spec fn first_present(params: JsonView, keys: Seq<Seq<char>>) -> Option<Seq<char>>
    decreases keys.len(),
{
    if keys.len() == 0 {
        None
    } else if params.field(keys[0]) is Some {
        Some(keys[0])
    } else {
        first_present(params, keys.skip(1))
    }
}

/// The bytes of the given ranges together.
pub open spec fn snapshot_bytes(snapshots: Seq<SnapshotSpec>) -> nat
    decreases snapshots.len(),
{
    if snapshots.len() == 0 {
        0
    } else {
        snapshot_bytes(snapshots.drop_last()) + snapshots.last().length as nat
    }
}

/// One entry `rdram:offset:length` of the list of captured ranges.
pub open spec fn snapshot_entry(entry: JsonView) -> Result<SnapshotSpec, N64ErrorView> {
    match entry.as_text() {
        None => n64::bad_params("snapshot entries must be memory_type:address:length"@),
        Some(raw) => {
            let parts = text::pieces(raw, ':');
            if parts.len() != 3 || parts[0] != "rdram"@ {
                n64::bad_params("invalid N64 snapshot range: "@ + raw)
            } else {
                match (params::text_number(parts[1]), params::text_number(parts[2])) {
                    (None, _) => n64::bad_params("invalid snapshot address: "@ + raw),
                    (_, None) => n64::bad_params("invalid snapshot length: "@ + raw),
                    (Some(offset), Some(length)) => if length == 0 {
                        n64::bad_params("invalid snapshot length: "@ + raw)
                    } else if offset + length > RDRAM_SIZE {
                        n64::bad_params("N64 snapshot crosses the RDRAM boundary: "@ + raw)
                    } else {
                        Ok(SnapshotSpec { offset, length })
                    },
                }
            }
        },
    }
}

/// The captured ranges that a list asks for; the first entry at fault decides the error.
pub open spec fn snapshot_entries(entries: Seq<JsonView>) -> Result<
    Seq<SnapshotSpec>,
    N64ErrorView,
>
    decreases entries.len(),
{
    if entries.len() == 0 {
        Ok(Seq::empty())
    } else {
        match snapshot_entries(entries.drop_last()) {
            Err(e) => Err(e),
            Ok(before) => match snapshot_entry(entries.last()) {
                Err(e) => Err(e),
                Ok(s) => if snapshot_bytes(before) + s.length > MAX_SNAPSHOT_BYTES {
                    n64::bad_params(
                        "snapshot byte total exceeds "@ + text::prefixed_hex(
                            MAX_SNAPSHOT_BYTES as nat,
                        ),
                    )
                } else {
                    Ok(before.push(s))
                },
            },
        }
    }
}

/// The captured ranges that a request asks for.
pub open spec fn snapshots_of(params: JsonView) -> Result<Seq<SnapshotSpec>, N64ErrorView> {
    match params.field("snapshot"@) {
        None => Ok(Seq::empty()),
        Some(value) => match value.as_items() {
            None => n64::bad_params("snapshot must be a list"@),
            Some(entries) => if entries.len() > MAX_SNAPSHOTS {
                n64::bad_params(
                    ("snapshot accepts at most "@ + text::decimal(MAX_SNAPSHOTS as int))
                        + " ranges"@,
                )
            } else {
                snapshot_entries(entries)
            },
        },
    }
}

/// The kind that a request names, execution where it names none.
pub open spec fn kind_name(params: JsonView) -> Seq<char> {
    match params.text_field("kind"@) {
        Some(s) => s,
        None => "exec"@,
    }
}

/// The kind and native range of a breakpoint on `start..=end`.
pub open spec fn watched_range(params: JsonView, start: u64, end: u64) -> Result<
    BreakpointKind,
    N64ErrorView,
> {
    let kind = kind_name(params);
    if kind == "exec"@ {
        if end != start {
            n64::bad_params("N64 exec breakpoints require an exact address"@)
        } else if params.text_field("memory_type"@) is Some && params.text_field("memory_type"@)->0
            != "cpu"@ {
            n64::bad_params("N64 exec breakpoints use an absolute R4300 address"@)
        } else if start > u32::MAX {
            n64::bad_params("N64 exec address exceeds u32"@)
        } else {
            Ok(BreakpointKind::Exec)
        }
    } else if kind == "read"@ || kind == "write"@ {
        if params::memory_type(params) != "rdram"@ {
            n64::bad_params("N64 read/write breakpoints currently support memory_type=rdram only"@)
        } else if end >= RDRAM_SIZE {
            n64::bad_params(
                "N64 RDRAM breakpoint exceeds "@ + text::prefixed_hex(RDRAM_SIZE as nat),
            )
        } else if kind == "read"@ {
            Ok(BreakpointKind::Read)
        } else {
            Ok(BreakpointKind::Write)
        }
    } else {
        n64::bad_params("unsupported N64 breakpoint kind: "@ + kind)
    }
}

/// The breakpoint that a request asks for, or why it is refused.
pub open spec fn requested_breakpoint(params: JsonView) -> Result<
    BreakpointSpecView,
    N64ErrorView,
> {
    let foreign = first_present(params, foreign_options());
    if foreign is Some {
        n64::bad_params(("N64 breakpoint option "@ + foreign->0) + " is not supported"@)
    } else if params.truth_field("pause_on_hit"@) == Some(false) {
        n64::bad_params("N64 breakpoints require pause_on_hit=true"@)
    } else {
        match (params::required(params, "start"@), params::optional(params, "end"@)) {
            (Err(e), _) => Err(e),
            (_, Err(e)) => Err(e),
            (Ok(start), Ok(given)) => {
                let end = match given {
                    Some(n) => n,
                    None => start,
                };
                if end < start {
                    n64::bad_params("breakpoint end is below start"@)
                } else {
                    match (watched_range(params, start, end), snapshots_of(params)) {
                        (Err(e), _) => Err(e),
                        (_, Err(e)) => Err(e),
                        (Ok(kind), Ok(snapshots)) => Ok(
                            BreakpointSpecView {
                                kind,
                                start,
                                end,
                                native: NativeBreakpoint {
                                    address: start as u32,
                                    endaddr: end as u32,
                                    flags: BKP_ENABLED | kind.bit(),
                                },
                                snapshots,
                            },
                        ),
                    }
                }
            },
        }
    }
}

fn parse_snapshot(entry: &Json) -> (r: Result<SnapshotSpec, N64Error>)
    ensures
        n64::gives(r, snapshot_entry(entry@)),
{
    let raw = match entry.as_str() {
        Some(raw) => raw,
        None => {
            return Err(
                N64Error::BadParams(
                    "snapshot entries must be memory_type:address:length".to_owned(),
                ),
            );
        },
    };
    let parts = text::split(raw, ':');
    let ghost shown = text::text_views(parts@);
    if parts.len() != 3 || !text::same(parts[0].as_str(), "rdram") {
        assert(shown.len() == 3 ==> shown[0] == parts@[0]@);
        return Err(N64Error::BadParams(text::join("invalid N64 snapshot range: ", raw)));
    }
    assert(shown[0] == parts@[0]@ && shown[1] == parts@[1]@ && shown[2] == parts@[2]@);
    let offset: u64 = match params::parse_number_text(parts[1].as_str()) {
        Some(n) => n,
        None => {
            return Err(N64Error::BadParams(text::join("invalid snapshot address: ", raw)));
        },
    };
    let length: u64 = match params::parse_number_text(parts[2].as_str()) {
        Some(n) if n > 0 => n,
        _ => {
            return Err(N64Error::BadParams(text::join("invalid snapshot length: ", raw)));
        },
    };
    match offset.checked_add(length) {
        Some(end) if end <= RDRAM_SIZE => Ok(SnapshotSpec { offset, length }),
        _ => Err(
            N64Error::BadParams(text::join("N64 snapshot crosses the RDRAM boundary: ", raw)),
        ),
    }
}

proof fn snapshot_entries_prefix(entries: Seq<JsonView>, n: int)
    requires
        0 <= n <= entries.len(),
    ensures
        snapshot_entries(entries.take(n)) is Err ==> snapshot_entries(entries)
            == snapshot_entries(entries.take(n)),
    decreases entries.len() - n,
{
    if n == entries.len() {
        assert(entries.take(n) =~= entries);
    } else {
        assert(entries.take(n + 1).drop_last() =~= entries.take(n));
        snapshot_entries_prefix(entries, n + 1);
    }
}

fn snapshot_specs(params: &Json) -> (r: Result<Vec<SnapshotSpec>, N64Error>)
    ensures
        n64::gives_view(r, snapshots_of(params@)),
        r matches Ok(v) ==> {
            &&& v@.len() <= MAX_SNAPSHOTS
            &&& snapshot_bytes(v@) <= MAX_SNAPSHOT_BYTES
            &&& forall|i: int|
                0 <= i < v@.len() ==> {
                    let s = #[trigger] v@[i];
                    0 < s.length && s.offset + s.length <= RDRAM_SIZE
                }
        },
{
    let mut result: Vec<SnapshotSpec> = Vec::new();
    let value = match params.get("snapshot") {
        Some(value) => value,
        None => {
            return Ok(result);
        },
    };
    let entries = match value.as_array() {
        Some(entries) => entries,
        None => {
            return Err(N64Error::BadParams("snapshot must be a list".to_owned()));
        },
    };
    let ghost items = json::views(entries@);
    if entries.len() as u64 > MAX_SNAPSHOTS {
        let m = text::join(
            "snapshot accepts at most ",
            text::decimal_of(MAX_SNAPSHOTS).as_str(),
        );
        return Err(N64Error::BadParams(text::join(m.as_str(), " ranges")));
    }
    let mut total: u64 = 0;
    let mut i: usize = 0;
    assert(items.take(0) =~= Seq::empty());
    while i < entries.len()
        invariant
            i <= entries.len(),
            entries.len() <= MAX_SNAPSHOTS,
            result@.len() == i,
            items == json::views(entries@),
            snapshot_entries(items) == snapshots_of(params@),
            snapshot_entries(items.take(i as int)) == Ok::<_, N64ErrorView>(result@),
            total == snapshot_bytes(result@),
            total <= MAX_SNAPSHOT_BYTES,
            forall|k: int|
                0 <= k < i ==> {
                    let s = #[trigger] result@[k];
                    0 < s.length && s.offset + s.length <= RDRAM_SIZE
                },
        decreases entries.len() - i,
    {
        proof {
            assert(items.take(i + 1).drop_last() =~= items.take(i as int));
            assert(items.take(i + 1).last() == entries@[i as int]@);
            snapshot_entries_prefix(items, i + 1);
        }
        let s = parse_snapshot(&entries[i])?;
        total = total + s.length;
        if total > MAX_SNAPSHOT_BYTES {
            return Err(
                N64Error::BadParams(
                    text::join(
                        "snapshot byte total exceeds ",
                        text::prefixed_hex_of(MAX_SNAPSHOT_BYTES).as_str(),
                    ),
                ),
            );
        }
        let ghost before = result@;
        result.push(s);
        assert(result@.drop_last() =~= before);
        i += 1;
    }
    assert(items.take(entries.len() as int) =~= items);
    Ok(result)
}

fn foreign_option(params: &Json) -> (r: Option<&'static str>)
    ensures
        r is Some == first_present(params@, foreign_options()) is Some,
        r matches Some(key) ==> Some(key@) == first_present(params@, foreign_options()),
{
    proof {
        reveal_with_fuel(first_present, 7);
        let keys = foreign_options();
        assert(keys.skip(1).skip(1) =~= keys.skip(2));
        assert(keys.skip(2).skip(1) =~= keys.skip(3));
        assert(keys.skip(3).skip(1) =~= keys.skip(4));
        assert(keys.skip(4).skip(1) =~= keys.skip(5));
        assert(keys.skip(5).skip(1) =~= Seq::empty());
    }
    if params.get("condition").is_some() {
        Some("condition")
    } else if params.get("value").is_some() {
        Some("value")
    } else if params.get("value_mask").is_some() {
        Some("value_mask")
    } else if params.get("value_len").is_some() {
        Some("value_len")
    } else if params.get("pc_min").is_some() {
        Some("pc_min")
    } else if params.get("pc_max").is_some() {
        Some("pc_max")
    } else {
        None
    }
}

fn watched_kind(params: &Json, start: u64, end: u64) -> (r: Result<BreakpointKind, N64Error>)
    ensures
        n64::gives(r, watched_range(params@, start, end)),
{
    let kind = match params.get_str("kind") {
        Some(kind) => kind,
        None => "exec",
    };
    if text::same(kind, "exec") {
        if end != start {
            return Err(
                N64Error::BadParams("N64 exec breakpoints require an exact address".to_owned()),
            );
        }
        if let Some(memory_type) = params.get_str("memory_type") {
            if !text::same(memory_type, "cpu") {
                return Err(
                    N64Error::BadParams(
                        "N64 exec breakpoints use an absolute R4300 address".to_owned(),
                    ),
                );
            }
        }
        if start > u32::MAX as u64 {
            return Err(N64Error::BadParams("N64 exec address exceeds u32".to_owned()));
        }
        return Ok(BreakpointKind::Exec);
    }
    let read = text::same(kind, "read");
    if read || text::same(kind, "write") {
        let memory_type = match params.get_str("memory_type") {
            Some(memory_type) => memory_type,
            None => "rdram",
        };
        if !text::same(memory_type, "rdram") {
            return Err(
                N64Error::BadParams(
                    "N64 read/write breakpoints currently support memory_type=rdram only".to_owned(),
                ),
            );
        }
        if end >= RDRAM_SIZE {
            return Err(
                N64Error::BadParams(
                    text::join(
                        "N64 RDRAM breakpoint exceeds ",
                        text::prefixed_hex_of(RDRAM_SIZE).as_str(),
                    ),
                ),
            );
        }
        return if read {
            Ok(BreakpointKind::Read)
        } else {
            Ok(BreakpointKind::Write)
        };
    }
    Err(N64Error::BadParams(text::join("unsupported N64 breakpoint kind: ", kind)))
}

/// Reads a breakpoint request: an exact R4300 address for execution, or a range of RDRAM for
/// reads or writes, with the ranges to capture on a hit.
pub fn breakpoint_spec(params: &Json) -> (r: Result<BreakpointSpec, N64Error>)
    ensures
        n64::gives_view(r, requested_breakpoint(params@)),
        r matches Ok(spec) ==> spec@.wf(),
{
    if let Some(key) = foreign_option(params) {
        let m = text::join("N64 breakpoint option ", key);
        return Err(N64Error::BadParams(text::join(m.as_str(), " is not supported")));
    }
    if let Some(pause) = params.get_bool("pause_on_hit") {
        if !pause {
            return Err(
                N64Error::BadParams("N64 breakpoints require pause_on_hit=true".to_owned()),
            );
        }
    }
    let start: u64 = params::required_num(params, "start")?;
    let end: u64 = match params::optional_num(params, "end")? {
        Some(n) => n,
        None => start,
    };
    if end < start {
        return Err(N64Error::BadParams("breakpoint end is below start".to_owned()));
    }
    let kind = watched_kind(params, start, end)?;
    let snapshots = snapshot_specs(params)?;
    let flags: u32 = BKP_ENABLED | kind.flag();
    Ok(
        BreakpointSpec {
            kind,
            start,
            end,
            native: NativeBreakpoint { address: start as u32, endaddr: end as u32, flags },
            snapshots,
        },
    )
}

/// Whether two breakpoints of one kind share an address.
pub open spec fn overlap(left: BreakpointSpecView, right: BreakpointSpecView) -> bool {
    &&& left.kind == right.kind
    &&& left.native.address <= right.native.endaddr
    &&& right.native.address <= left.native.endaddr
}

/// Whether two breakpoints of one kind share an address.
pub fn ranges_overlap(left: &BreakpointSpec, right: &BreakpointSpec) -> (r: bool)
    ensures
        r == overlap(left@, right@),
{
    left.kind == right.kind && left.native.address <= right.native.endaddr && right.native.address
        <= left.native.endaddr
}

/// Where a native slot moves when the core removes another and closes the gap.
pub open spec fn shifted_slot(slot: u32, removed: u32) -> Option<u32> {
    if slot == removed {
        None
    } else if slot > removed {
        Some((slot - 1) as u32)
    } else {
        Some(slot)
    }
}

/// Where a native slot moves when the core removes another and closes the gap.
pub fn slot_after_clear(slot: u32, removed: u32) -> (r: Option<u32>)
    ensures
        r == shifted_slot(slot, removed),
{
    if slot == removed {
        None
    } else if slot > removed {
        Some(slot - 1)
    } else {
        Some(slot)
    }
}

/// Slots that differ still differ after a removal, and keep their order.
pub proof fn slots_stay_apart(a: u32, b: u32, removed: u32)
    requires
        a < b,
        a != removed,
        b != removed,
    ensures
        shifted_slot(a, removed)->0 < shifted_slot(b, removed)->0,
{
}

/// The address by which a hit is told, for the kinds that the core's flags allow.
pub open spec fn hit_address(kind: BreakpointKind, flags: u32, accessed: u32, pc: u32) -> Option<
    u32,
> {
    if flags & kind.bit() == 0 {
        None
    } else if kind is Exec {
        Some(pc)
    } else {
        Some(accessed)
    }
}

/// Whether a hit that the core reports belongs to a breakpoint.
pub open spec fn triggered(spec: BreakpointSpecView, flags: u32, accessed: u32, pc: u32) -> bool {
    match hit_address(spec.kind, flags, accessed, pc) {
        Some(address) => spec.native.address <= address <= spec.native.endaddr,
        None => false,
    }
}

/// Whether a hit that the core reports belongs to a breakpoint.
pub fn trigger_matches(spec: &BreakpointSpec, flags: u32, accessed: u32, pc: u32) -> (r: bool)
    ensures
        r == triggered(spec@, flags, accessed, pc),
{
    if flags & spec.kind.flag() == 0 {
        return false;
    }
    let address: u32 = match spec.kind {
        BreakpointKind::Exec => pc,
        BreakpointKind::Read => accessed,
        BreakpointKind::Write => accessed,
    };
    spec.native.address <= address && address <= spec.native.endaddr
}

/// Two breakpoints of one kind that a hit belongs to overlap.
pub proof fn common_hit_means_overlap(
    a: BreakpointSpecView,
    b: BreakpointSpecView,
    flags: u32,
    accessed: u32,
    pc: u32,
)
    requires
        a.kind == b.kind,
        triggered(a, flags, accessed, pc),
        triggered(b, flags, accessed, pc),
    ensures
        overlap(a, b),
{
}

/// The address and byte length of a disassembly of `count` instructions.
pub open spec fn disassembly_window(params: JsonView, count: u64) -> Result<
    (u64, u64),
    N64ErrorView,
> {
    match params::required(params, "address"@) {
        Err(e) => Err(e),
        Ok(address) => if count * 4 > u64::MAX {
            n64::bad_params("N64 disassembly length overflow"@)
        } else if address + count * 4 > N64_ADDRESS_SPACE_SIZE {
            n64::bad_params("N64 disassembly crosses the 32-bit virtual address boundary"@)
        } else {
            Ok((address, (count * 4) as u64))
        },
    }
}

/// Checks that `count` instructions fit in the address space.
pub fn disassembly_range(params: &Json, count: u64) -> (r: Result<(u64, u64), N64Error>)
    ensures
        n64::gives(r, disassembly_window(params@, count)),
{
    let address: u64 = params::required_num(params, "address")?;
    let length: u64 = match count.checked_mul(4) {
        Some(n) => n,
        None => {
            return Err(N64Error::BadParams("N64 disassembly length overflow".to_owned()));
        },
    };
    match address.checked_add(length) {
        Some(end) if end <= N64_ADDRESS_SPACE_SIZE => Ok((address, length)),
        _ => Err(
            N64Error::BadParams(
                "N64 disassembly crosses the 32-bit virtual address boundary".to_owned(),
            ),
        ),
    }
}

} // verus!
