//! Reading request parameters.

use vstd::prelude::*;
use crate::json;
use crate::json::{Json, JsonView};
use crate::neogeo;
use crate::neogeo::{
    BridgeError,
    BridgeErrorView,
    NeoGeoProfile,
    MAX_SNAPSHOTS,
    MAX_SNAPSHOT_BYTES,
};
use crate::text;

verus! {

/// The number that a text stands for: hexadecimal after `$` or `0x`, else decimal.
pub open spec fn text_number(s: Seq<char>) -> Option<u64> {
    let t = text::trimmed(s);
    if text::has_prefix(t, "0x"@) {
        text::u64_value(t.skip(2), 16)
    } else if text::has_prefix(t, "$"@) {
        text::u64_value(t.skip(1), 16)
    } else {
        text::u64_value(t, 10)
    }
}

/// Reads a number written as text.
pub fn parse_number(s: &str) -> (r: Option<u64>)
    ensures
        r == text_number(s@),
{
    proof {
        reveal_strlit("$");
        reveal_strlit("0x");
    }
    let t = text::trim(s);
    if let Some(hex) = text::strip_prefix(t.as_str(), "0x") {
        return text::parse_u64(hex.as_str(), 16);
    }
    if let Some(hex) = text::strip_prefix(t.as_str(), "$") {
        return text::parse_u64(hex.as_str(), 16);
    }
    text::parse_u64(t.as_str(), 10)
}

/// The number that a parameter stands for, written as a number or as text.
pub open spec fn number(value: JsonView) -> Option<u64> {
    match value {
        JsonView::Unsigned(n) => Some(n),
        JsonView::Str(s) => text_number(s),
        _ => None,
    }
}

/// Reads a number written as a number or as text.
pub fn parse_num(value: &Json) -> (r: Option<u64>)
    ensures
        r == number(value@),
{
    match value {
        Json::Unsigned(n) => Some(*n),
        Json::Str(s) => parse_number(s.as_str()),
        _ => None,
    }
}

/// A parameter that has to be there and to be a number.
pub open spec fn required(params: JsonView, key: Seq<char>) -> Result<u64, BridgeErrorView> {
    match params.field(key) {
        Some(value) => match number(value) {
            Some(n) => Ok(n),
            None => neogeo::bad("missing or invalid param: "@ + key),
        },
        None => neogeo::bad("missing or invalid param: "@ + key),
    }
}

/// Reads a parameter that has to be there and to be a number.
pub fn required_num(params: &Json, key: &str) -> (r: Result<u64, BridgeError>)
    ensures
        neogeo::plain(r) == required(params@, key@),
{
    if let Some(value) = params.get(key) {
        if let Some(n) = parse_num(value) {
            return Ok(n);
        }
    }
    Err(BridgeError::BadParams(text::join("missing or invalid param: ", key)))
}

/// A parameter that may be missing but has to be a number where it is there.
pub open spec fn optional(params: JsonView, key: Seq<char>) -> Result<Option<u64>, BridgeErrorView> {
    match params.field(key) {
        None => Ok(None),
        Some(value) => match number(value) {
            Some(n) => Ok(Some(n)),
            None => neogeo::bad("invalid numeric param: "@ + key),
        },
    }
}

/// Reads a parameter that may be missing but has to be a number where it is there.
pub fn optional_num(params: &Json, key: &str) -> (r: Result<Option<u64>, BridgeError>)
    ensures
        neogeo::plain(r) == optional(params@, key@),
{
    match params.get(key) {
        None => Ok(None),
        Some(value) => match parse_num(value) {
            Some(n) => Ok(Some(n)),
            None => Err(BridgeError::BadParams(text::join("invalid numeric param: ", key))),
        },
    }
}

/// A path that has to be there.
pub open spec fn path_of(params: JsonView, key: Seq<char>) -> Result<Seq<char>, BridgeErrorView> {
    match params.text_field(key) {
        Some(s) => if s.len() > 0 {
            Ok(s)
        } else {
            neogeo::bad("missing or invalid param: "@ + key)
        },
        None => neogeo::bad("missing or invalid param: "@ + key),
    }
}

/// Reads a path that has to be there.
pub fn required_path(params: &Json, key: &str) -> (r: Result<String, BridgeError>)
    ensures
        neogeo::shown(r) == path_of(params@, key@),
{
    if let Some(s) = params.get_str(key) {
        let chars = text::chars_of(s);
        if chars.len() > 0 {
            return Ok(s.to_owned());
        }
    }
    Err(BridgeError::BadParams(text::join("missing or invalid param: ", key)))
}

/// The message that an access leaves the work memory.
pub open spec fn range_message(offset: u64, length: u64, size: u64) -> Seq<char> {
    let access = (("ram access out of range: offset "@ + text::prefixed_hex(offset as nat)) + "+"@)
        + text::prefixed_hex(length as nat);
    (access + " exceeds "@) + text::prefixed_hex(size as nat)
}

/// The address of an access to the work memory, which has to stay in it.
pub open spec fn ram_place(profile: NeoGeoProfile, offset: u64, length: u64) -> Result<
    u64,
    BridgeErrorView,
> {
    let (base, size) = profile.memory();
    if offset + length > size {
        neogeo::bad(range_message(offset, length, size))
    } else {
        Ok((base + offset) as u64)
    }
}

/// The address of an access to the work memory, which has to stay in it.
pub fn ram_address(profile: NeoGeoProfile, offset: u64, length: u64) -> (r: Result<
    u64,
    BridgeError,
>)
    ensures
        neogeo::plain(r) == ram_place(profile, offset, length),
{
    let (base, size) = profile.ram();
    if length > size || offset > size - length {
        let m = text::join(
            "ram access out of range: offset ",
            text::prefixed_hex_of(offset).as_str(),
        );
        let m = text::join(m.as_str(), "+");
        let m = text::join(m.as_str(), text::prefixed_hex_of(length).as_str());
        let m = text::join(m.as_str(), " exceeds ");
        return Err(
            BridgeError::BadParams(
                text::join(m.as_str(), text::prefixed_hex_of(size).as_str()),
            ),
        );
    }
    Ok(base + offset)
}

/// An access that is not refused stays in the work memory.
pub proof fn accesses_stay_in_ram(profile: NeoGeoProfile, offset: u64, length: u64)
    requires
        ram_place(profile, offset, length) is Ok,
    ensures
        ({
            let (base, size) = profile.memory();
            let address = ram_place(profile, offset, length)->Ok_0;
            base <= address && address + length <= base + size
        }),
{
}

/// What a request says of its kind of memory, of which there is only one.
pub open spec fn memory_check(name: Seq<char>) -> Result<(), BridgeErrorView> {
    if name == "ram"@ {
        Ok(())
    } else {
        neogeo::bad("unsupported Neo Geo memory_type: "@ + name)
    }
}

fn check_memory(name: &str) -> (r: Result<(), BridgeError>)
    ensures
        neogeo::plain(r) == memory_check(name@),
{
    if text::same(name, "ram") {
        Ok(())
    } else {
        Err(BridgeError::BadParams(text::join("unsupported Neo Geo memory_type: ", name)))
    }
}

/// The kind of memory that a request names.
pub open spec fn memory_type_of(params: JsonView) -> Seq<char> {
    match params.text_field("memory_type"@) {
        Some(name) => name,
        None => "ram"@,
    }
}

/// The address that a request accesses.
pub open spec fn place_of(profile: NeoGeoProfile, params: JsonView, length: u64) -> Result<
    u64,
    BridgeErrorView,
> {
    match memory_check(memory_type_of(params)) {
        Err(e) => Err(e),
        Ok(()) => match required(params, "address"@) {
            Err(e) => Err(e),
            Ok(offset) => ram_place(profile, offset, length),
        },
    }
}

/// The address that a request accesses.
pub fn region_address(profile: NeoGeoProfile, params: &Json, length: u64) -> (r: Result<
    u64,
    BridgeError,
>)
    ensures
        neogeo::plain(r) == place_of(profile, params@, length),
{
    let name = match params.get_str("memory_type") {
        Some(name) => name,
        None => "ram",
    };
    check_memory(name)?;
    let offset: u64 = required_num(params, "address")?;
    ram_address(profile, offset, length)
}

/// What a request says of its controller port, of which there is only the first.
pub open spec fn port_check(params: JsonView) -> Result<(), BridgeErrorView> {
    match optional(params, "port"@) {
        Err(e) => Err(e),
        Ok(port) => if port is None || port == Some(0u64) {
            Ok(())
        } else {
            neogeo::bad("Neo Geo input currently supports port 0 only"@)
        },
    }
}

/// Refuses any controller port but the first.
pub fn require_port_zero(params: &Json) -> (r: Result<(), BridgeError>)
    ensures
        neogeo::plain(r) == port_check(params@),
{
    match optional_num(params, "port")? {
        None => Ok(()),
        Some(port) => if port == 0 {
            Ok(())
        } else {
            Err(
                BridgeError::BadParams("Neo Geo input currently supports port 0 only".to_owned()),
            )
        },
    }
}

/// Whether a name is one of the main processor.
pub open spec fn is_main_cpu(name: Seq<char>) -> bool {
    name == "maincpu"@ || name == "m68000"@ || name == "68k"@
}

/// What a request says of its processor, of which only the main one is controlled.
pub open spec fn cpu_check(params: JsonView) -> Result<(), BridgeErrorView> {
    match params.text_field("cpu"@) {
        None => Ok(()),
        Some(name) => if is_main_cpu(name) {
            Ok(())
        } else {
            neogeo::bad(
                "Neo Geo execution control currently supports the m68000 main CPU only, got "@
                    + name,
            )
        },
    }
}

/// Refuses any processor but the main one.
pub fn require_main_cpu(params: &Json) -> (r: Result<(), BridgeError>)
    ensures
        neogeo::plain(r) == cpu_check(params@),
{
    match params.get_str("cpu") {
        None => Ok(()),
        Some(name) => if text::same(name, "maincpu") || text::same(name, "m68000") || text::same(
            name,
            "68k",
        ) {
            Ok(())
        } else {
            Err(
                BridgeError::BadParams(
                    text::join(
                        "Neo Geo execution control currently supports the m68000 main CPU only, got ",
                        name,
                    ),
                ),
            )
        },
    }
}

/// The button of an entry of a list.
pub open spec fn button_of(profile: NeoGeoProfile, entry: JsonView) -> Result<
    Seq<char>,
    BridgeErrorView,
> {
    match entry.as_text() {
        None => neogeo::bad("button names must be strings"@),
        Some(s) => {
            let name = text::lowered(text::trimmed(s));
            if profile.buttons().contains(name) {
                Ok(name)
            } else {
                neogeo::bad("unsupported Neo Geo button: "@ + name)
            }
        },
    }
}

/// The buttons of the entries of a list; the first entry that is none decides.
pub open spec fn entry_buttons(profile: NeoGeoProfile, entries: Seq<JsonView>) -> Result<
    Seq<Seq<char>>,
    BridgeErrorView,
>
    decreases entries.len(),
{
    if entries.len() == 0 {
        Ok(Seq::empty())
    } else {
        match entry_buttons(profile, entries.drop_last()) {
            Err(e) => Err(e),
            Ok(earlier) => match button_of(profile, entries.last()) {
                Err(e) => Err(e),
                Ok(name) => Ok(earlier.push(name)),
            },
        }
    }
}

/// The buttons that a request names.
pub open spec fn buttons_of(profile: NeoGeoProfile, value: Option<JsonView>) -> Result<
    Seq<Seq<char>>,
    BridgeErrorView,
> {
    match value {
        None => Ok(Seq::empty()),
        Some(v) => match v.as_items() {
            None => neogeo::bad("buttons must be a list"@),
            Some(entries) => entry_buttons(profile, entries),
        },
    }
}

proof fn first_wrong_entry_stays(profile: NeoGeoProfile, entries: Seq<JsonView>, k: int)
    requires
        0 <= k <= entries.len(),
        entry_buttons(profile, entries.take(k)) is Err,
    ensures
        entry_buttons(profile, entries) == entry_buttons(profile, entries.take(k)),
    decreases entries.len(),
{
    if k == entries.len() {
        assert(entries.take(k) =~= entries);
    } else {
        assert(entries.drop_last().take(k) =~= entries.take(k));
        first_wrong_entry_stays(profile, entries.drop_last(), k);
    }
}

fn read_button(profile: NeoGeoProfile, entry: &Json) -> (r: Result<String, BridgeError>)
    ensures
        neogeo::shown(r) == button_of(profile, entry@),
{
    let s = match entry.as_str() {
        Some(s) => s,
        None => {
            return Err(BridgeError::BadParams("button names must be strings".to_owned()));
        },
    };
    let name = text::lower(text::trim(s).as_str());
    let known = profile.input_buttons();
    let ghost names = profile.buttons();
    let mut i: usize = 0;
    while i < known.len()
        invariant
            i <= known@.len(),
            names == json::literals(known@),
            names == profile.buttons(),
            entry@.as_text() is Some,
            name@ == text::lowered(text::trimmed(entry@.as_text()->0)),
            forall|k: int| 0 <= k < i ==> names[k] != name@,
        decreases known.len() - i,
    {
        if text::same(known[i], name.as_str()) {
            assert(names[i as int] == name@);
            return Ok(name);
        }
        i += 1;
    }
    Err(BridgeError::BadParams(text::join("unsupported Neo Geo button: ", name.as_str())))
}

/// What a list of texts holds, or why there is none.
pub open spec fn shown_texts(r: Result<Vec<String>, BridgeError>) -> Result<
    Seq<Seq<char>>,
    BridgeErrorView,
> {
    match r {
        Ok(v) => Ok(text::text_views(v@)),
        Err(e) => Err(e@),
    }
}

/// The buttons that a request names.
pub fn normalize_buttons(profile: NeoGeoProfile, value: Option<&Json>) -> (r: Result<
    Vec<String>,
    BridgeError,
>)
    ensures
        shown_texts(r) == buttons_of(
            profile,
            match value {
                Some(v) => Some(v@),
                None => None,
            },
        ),
{
    let list = match value {
        Some(list) => list,
        None => {
            let none: Vec<String> = Vec::new();
            assert(text::text_views(none@) =~= Seq::empty());
            return Ok(none);
        },
    };
    let entries = match list.as_array() {
        Some(entries) => entries,
        None => {
            return Err(BridgeError::BadParams("buttons must be a list".to_owned()));
        },
    };
    let ghost all = json::views(entries@);
    let mut names: Vec<String> = Vec::new();
    let mut i: usize = 0;
    assert(all.take(0) =~= Seq::empty());
    assert(text::text_views(names@) =~= Seq::empty());
    while i < entries.len()
        invariant
            i <= entries@.len(),
            all == json::views(entries@),
            value is Some,
            value->0@.as_items() == Some(all),
            entry_buttons(profile, all.take(i as int)) == Ok::<_, BridgeErrorView>(
                text::text_views(names@),
            ),
        decreases entries.len() - i,
    {
        proof {
            assert(all.take(i + 1).drop_last() =~= all.take(i as int));
            assert(all.take(i + 1).last() == entries@[i as int]@);
        }
        match read_button(profile, &entries[i]) {
            Ok(name) => {
                let ghost earlier = text::text_views(names@);
                names.push(name);
                assert(text::text_views(names@) =~= earlier.push(name@));
            },
            Err(error) => {
                proof {
                    first_wrong_entry_stays(profile, all, i + 1);
                }
                return Err(error);
            },
        }
        i += 1;
    }
    assert(all.take(i as int) =~= all);
    Ok(names)
}

/// A range of the work memory that is captured when a breakpoint is hit.
#[derive(Debug, Clone, Copy, PartialEq, Eq, Structural)]
pub struct NeoGeoSnapshot {
    pub address: u64,
    pub length: u64,
}

/// The range of an entry, and the bytes of all ranges up to it.
pub open spec fn snapshot_of(profile: NeoGeoProfile, entry: JsonView, total: u64) -> Result<
    (NeoGeoSnapshot, u64),
    BridgeErrorView,
> {
    match entry.as_text() {
        None => neogeo::bad("snapshot entries must be memory_type:address:length"@),
        Some(raw) => {
            let parts = text::pieces(raw, ':');
            if parts.len() != 3 {
                neogeo::bad("invalid snapshot entry: "@ + raw)
            } else {
                match text_number(parts[1]) {
                    None => neogeo::bad("invalid snapshot address: "@ + raw),
                    Some(address) => match text_number(parts[2]) {
                        None => neogeo::bad("invalid snapshot length: "@ + raw),
                        Some(length) => if length == 0 {
                            neogeo::bad("invalid snapshot length: "@ + raw)
                        } else if total + length > u64::MAX {
                            neogeo::bad("snapshot byte total overflow"@)
                        } else if total + length > MAX_SNAPSHOT_BYTES {
                            neogeo::bad(
                                "snapshot byte total exceeds "@ + text::decimal(
                                    MAX_SNAPSHOT_BYTES as int,
                                ),
                            )
                        } else {
                            match memory_check(parts[0]) {
                                Err(e) => Err(e),
                                Ok(()) => match ram_place(profile, address, length) {
                                    Err(e) => Err(e),
                                    Ok(_) => Ok(
                                        (
                                            NeoGeoSnapshot { address, length },
                                            (total + length) as u64,
                                        ),
                                    ),
                                },
                            }
                        },
                    },
                }
            }
        },
    }
}

/// The ranges of a list and their bytes; the first entry that is wrong decides.
pub open spec fn entry_snapshots(profile: NeoGeoProfile, entries: Seq<JsonView>) -> Result<
    (Seq<NeoGeoSnapshot>, u64),
    BridgeErrorView,
>
    decreases entries.len(),
{
    if entries.len() == 0 {
        Ok((Seq::empty(), 0))
    } else {
        match entry_snapshots(profile, entries.drop_last()) {
            Err(e) => Err(e),
            Ok((earlier, total)) => match snapshot_of(profile, entries.last(), total) {
                Err(e) => Err(e),
                Ok((range, sum)) => Ok((earlier.push(range), sum)),
            },
        }
    }
}

/// The ranges that a breakpoint is to capture.
pub open spec fn snapshots_of(profile: NeoGeoProfile, value: Option<JsonView>) -> Result<
    Seq<NeoGeoSnapshot>,
    BridgeErrorView,
> {
    match value {
        None => Ok(Seq::empty()),
        Some(v) => match v.as_items() {
            None => neogeo::bad("snapshot must be a list"@),
            Some(entries) => if entries.len() > MAX_SNAPSHOTS {
                neogeo::bad(
                    ("snapshot accepts at most "@ + text::decimal(MAX_SNAPSHOTS as int))
                        + " ranges"@,
                )
            } else {
                match entry_snapshots(profile, entries) {
                    Err(e) => Err(e),
                    Ok((ranges, _)) => Ok(ranges),
                }
            },
        },
    }
}

/// The bytes of some ranges.
pub open spec fn snapshot_bytes(ranges: Seq<NeoGeoSnapshot>) -> int
    decreases ranges.len(),
{
    if ranges.len() == 0 {
        0
    } else {
        snapshot_bytes(ranges.drop_last()) + ranges.last().length
    }
}

proof fn entries_are_bounded(profile: NeoGeoProfile, entries: Seq<JsonView>)
    ensures
        entry_snapshots(profile, entries) matches Ok((ranges, total)) ==> {
            &&& ranges.len() == entries.len()
            &&& total == snapshot_bytes(ranges)
            &&& total <= MAX_SNAPSHOT_BYTES
            &&& forall|i: int|
                0 <= i < ranges.len() ==> ram_place(
                    profile,
                    (#[trigger] ranges[i]).address,
                    ranges[i].length,
                ) is Ok && ranges[i].length > 0
        },
    decreases entries.len(),
{
    if entries.len() > 0 {
        entries_are_bounded(profile, entries.drop_last());
        if let Ok((earlier, total)) = entry_snapshots(profile, entries.drop_last()) {
            if let Ok((range, sum)) = snapshot_of(profile, entries.last(), total) {
                assert(earlier.push(range).drop_last() =~= earlier);
            }
        }
    }
}

/// What a breakpoint captures is bounded, and every range of it is there and stays in the work
/// memory.
pub proof fn snapshots_are_bounded(profile: NeoGeoProfile, value: Option<JsonView>)
    requires
        snapshots_of(profile, value) is Ok,
    ensures
        ({
            let ranges = snapshots_of(profile, value)->Ok_0;
            &&& ranges.len() <= MAX_SNAPSHOTS
            &&& snapshot_bytes(ranges) <= MAX_SNAPSHOT_BYTES
            &&& forall|i: int|
                0 <= i < ranges.len() ==> ram_place(
                    profile,
                    (#[trigger] ranges[i]).address,
                    ranges[i].length,
                ) is Ok && ranges[i].length > 0
        }),
{
    if let Some(v) = value {
        if let Some(entries) = v.as_items() {
            entries_are_bounded(profile, entries);
        }
    }
}

proof fn first_wrong_range_stays(profile: NeoGeoProfile, entries: Seq<JsonView>, k: int)
    requires
        0 <= k <= entries.len(),
        entry_snapshots(profile, entries.take(k)) is Err,
    ensures
        entry_snapshots(profile, entries) == entry_snapshots(profile, entries.take(k)),
    decreases entries.len(),
{
    if k == entries.len() {
        assert(entries.take(k) =~= entries);
    } else {
        assert(entries.drop_last().take(k) =~= entries.take(k));
        first_wrong_range_stays(profile, entries.drop_last(), k);
    }
}

fn bad_entry(message: &str, raw: &str) -> (r: BridgeError)
    ensures
        r@ == BridgeErrorView::BadParams(message@ + raw@),
{
    BridgeError::BadParams(text::join(message, raw))
}

fn read_snapshot(profile: NeoGeoProfile, entry: &Json, total: u64) -> (r: Result<
    (NeoGeoSnapshot, u64),
    BridgeError,
>)
    ensures
        neogeo::plain(r) == snapshot_of(profile, entry@, total),
{
    let raw = match entry.as_str() {
        Some(raw) => raw,
        None => {
            return Err(
                BridgeError::BadParams(
                    "snapshot entries must be memory_type:address:length".to_owned(),
                ),
            );
        },
    };
    let parts = text::split(raw, ':');
    let ghost shown = text::text_views(parts@);
    assert(shown.len() == parts@.len());
    if parts.len() != 3 {
        return Err(bad_entry("invalid snapshot entry: ", raw));
    }
    assert(shown[0] == parts@[0]@ && shown[1] == parts@[1]@ && shown[2] == parts@[2]@);
    let address: u64 = match parse_number(parts[1].as_str()) {
        Some(n) => n,
        None => {
            return Err(bad_entry("invalid snapshot address: ", raw));
        },
    };
    let length: u64 = match parse_number(parts[2].as_str()) {
        Some(n) => n,
        None => {
            return Err(bad_entry("invalid snapshot length: ", raw));
        },
    };
    if length == 0 {
        return Err(bad_entry("invalid snapshot length: ", raw));
    }
    let sum: u64 = match total.checked_add(length) {
        Some(sum) => sum,
        None => {
            return Err(BridgeError::BadParams("snapshot byte total overflow".to_owned()));
        },
    };
    if sum > MAX_SNAPSHOT_BYTES {
        return Err(
            BridgeError::BadParams(
                text::join(
                    "snapshot byte total exceeds ",
                    text::decimal_of(MAX_SNAPSHOT_BYTES).as_str(),
                ),
            ),
        );
    }
    check_memory(parts[0].as_str())?;
    ram_address(profile, address, length)?;
    Ok((NeoGeoSnapshot { address, length }, sum))
}

/// What a list of ranges holds, or why there is none.
pub open spec fn shown_ranges(r: Result<Vec<NeoGeoSnapshot>, BridgeError>) -> Result<
    Seq<NeoGeoSnapshot>,
    BridgeErrorView,
> {
    match r {
        Ok(v) => Ok(v@),
        Err(e) => Err(e@),
    }
}

/// Reads the ranges that a breakpoint is to capture.
pub fn parse_snapshots(profile: NeoGeoProfile, value: Option<&Json>) -> (r: Result<
    Vec<NeoGeoSnapshot>,
    BridgeError,
>)
    ensures
        shown_ranges(r) == snapshots_of(
            profile,
            match value {
                Some(v) => Some(v@),
                None => None,
            },
        ),
{
    let list = match value {
        Some(list) => list,
        None => {
            let none: Vec<NeoGeoSnapshot> = Vec::new();
            assert(none@ =~= Seq::empty());
            return Ok(none);
        },
    };
    let entries = match list.as_array() {
        Some(entries) => entries,
        None => {
            return Err(BridgeError::BadParams("snapshot must be a list".to_owned()));
        },
    };
    let ghost all = json::views(entries@);
    if entries.len() > MAX_SNAPSHOTS {
        let m = text::join(
            "snapshot accepts at most ",
            text::decimal_of(MAX_SNAPSHOTS as u64).as_str(),
        );
        return Err(BridgeError::BadParams(text::join(m.as_str(), " ranges")));
    }
    let mut ranges: Vec<NeoGeoSnapshot> = Vec::new();
    let mut total: u64 = 0;
    let mut i: usize = 0;
    assert(all.take(0) =~= Seq::empty());
    assert(ranges@ =~= Seq::empty());
    while i < entries.len()
        invariant
            i <= entries@.len(),
            entries@.len() <= MAX_SNAPSHOTS,
            all == json::views(entries@),
            value is Some,
            value->0@.as_items() == Some(all),
            entry_snapshots(profile, all.take(i as int)) == Ok::<_, BridgeErrorView>(
                (ranges@, total),
            ),
        decreases entries.len() - i,
    {
        proof {
            assert(all.take(i + 1).drop_last() =~= all.take(i as int));
            assert(all.take(i + 1).last() == entries@[i as int]@);
        }
        match read_snapshot(profile, &entries[i], total) {
            Ok((range, sum)) => {
                ranges.push(range);
                total = sum;
            },
            Err(error) => {
                proof {
                    first_wrong_range_stays(profile, all, i + 1);
                }
                return Err(error);
            },
        }
        i += 1;
    }
    assert(all.take(i as int) =~= all);
    Ok(ranges)
}

} // verus!
