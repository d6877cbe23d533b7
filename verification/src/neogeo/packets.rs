//! Reading what the stub tells: stops at breakpoints, registers and disassembly listings.

use vstd::prelude::*;
use crate::encoding;
use crate::json;
use crate::json::{Json, JsonView};
use crate::neogeo;
use crate::neogeo::{BridgeError, BridgeErrorView};
use crate::text;

verus! {

/// What a breakpoint watches.
#[derive(Debug, Clone, Copy, PartialEq, Eq, Structural)]
pub enum BreakpointKind {
    Exec,
    Read,
    Write,
}

/// How the machine arms a breakpoint: as a point of the code, or as a watch on memory.
#[derive(Debug, Clone, Copy, PartialEq, Eq, Structural)]
pub enum NativeKind {
    Bp,
    Wp,
}

impl NativeKind {
    /// What the machine calls it.
    pub open spec fn tag(self) -> Seq<char> {
        match self {
            NativeKind::Bp => "bp"@,
            NativeKind::Wp => "wp"@,
        }
    }

    /// What the machine calls it.
    pub fn as_str(self) -> (r: &'static str)
        ensures
            r@ == self.tag(),
    {
        match self {
            NativeKind::Bp => "bp",
            NativeKind::Wp => "wp",
        }
    }
}

impl BreakpointKind {
    /// What a request calls it.
    pub open spec fn name(self) -> Seq<char> {
        match self {
            BreakpointKind::Exec => "exec"@,
            BreakpointKind::Read => "read"@,
            BreakpointKind::Write => "write"@,
        }
    }

    /// How the machine arms it.
    pub open spec fn native_kind(self) -> NativeKind {
        match self {
            BreakpointKind::Exec => NativeKind::Bp,
            _ => NativeKind::Wp,
        }
    }

    /// The number by which it is armed.
    pub open spec fn code_text(self) -> Seq<char> {
        match self {
            BreakpointKind::Exec => "0"@,
            BreakpointKind::Write => "2"@,
            BreakpointKind::Read => "3"@,
        }
    }

    /// What a request calls it.
    pub fn as_str(self) -> (r: &'static str)
        ensures
            r@ == self.name(),
    {
        match self {
            BreakpointKind::Exec => "exec",
            BreakpointKind::Read => "read",
            BreakpointKind::Write => "write",
        }
    }

    /// How the machine arms it.
    pub fn native(self) -> (r: NativeKind)
        ensures
            r == self.native_kind(),
    {
        match self {
            BreakpointKind::Exec => NativeKind::Bp,
            _ => NativeKind::Wp,
        }
    }

    /// The number by which it is armed.
    pub fn code(self) -> (r: &'static str)
        ensures
            r@ == self.code_text(),
    {
        match self {
            BreakpointKind::Exec => "0",
            BreakpointKind::Write => "2",
            BreakpointKind::Read => "3",
        }
    }
}

/// What arming a breakpoint was answered: how it was armed, and its number.
pub open spec fn arm_reply(response: Seq<char>) -> Result<(NativeKind, u64), BridgeErrorView> {
    match text::halves(response, ':') {
        None => neogeo::fault("invalid MAME breakpoint response: "@ + response),
        Some((kind, id)) => {
            let native = if kind == "BP"@ {
                Some(NativeKind::Bp)
            } else if kind == "WP"@ {
                Some(NativeKind::Wp)
            } else {
                None
            };
            match native {
                None => neogeo::fault("invalid MAME breakpoint kind: "@ + response),
                Some(native) => match text::u64_value(id, 10) {
                    None => neogeo::fault("invalid MAME breakpoint id: "@ + response),
                    Some(id) => Ok((native, id)),
                },
            }
        },
    }
}

/// Reads what arming a breakpoint was answered.
pub fn parse_arm_reply(response: &str) -> (r: Result<(NativeKind, u64), BridgeError>)
    ensures
        neogeo::plain(r) == arm_reply(response@),
{
    let (kind, id) = match text::split_once(response, ':') {
        Some(halves) => halves,
        None => {
            return Err(
                BridgeError::Emulator(
                    text::join("invalid MAME breakpoint response: ", response),
                ),
            );
        },
    };
    let native = if text::same(kind.as_str(), "BP") {
        NativeKind::Bp
    } else if text::same(kind.as_str(), "WP") {
        NativeKind::Wp
    } else {
        return Err(
            BridgeError::Emulator(text::join("invalid MAME breakpoint kind: ", response)),
        );
    };
    match text::parse_u64(id.as_str(), 10) {
        Some(id) => Ok((native, id)),
        None => Err(BridgeError::Emulator(text::join("invalid MAME breakpoint id: ", response))),
    }
}

/// Whether a packet tells of a stop at a breakpoint.
pub open spec fn is_hit(packet: Seq<char>) -> bool {
    text::has_prefix(packet, "T05hwbreak:"@) || text::has_prefix(packet, "T05watch:"@)
        || text::has_prefix(packet, "T05rwatch:"@)
}

/// Whether a packet tells of a stop at a breakpoint.
pub fn is_breakpoint_stop(packet: &str) -> (r: bool)
    ensures
        r == is_hit(packet@),
{
    text::starts_with(packet, "T05hwbreak:") || text::starts_with(packet, "T05watch:")
        || text::starts_with(packet, "T05rwatch:")
}

/// The number whose bytes stand with the lowest first.
pub open spec fn le_value(bytes: Seq<u8>) -> nat
    decreases bytes.len(),
{
    if bytes.len() == 0 {
        0
    } else {
        bytes[0] as nat + 256 * le_value(bytes.drop_first())
    }
}

spec fn bytes_bound(n: nat) -> nat
    decreases n,
{
    if n == 0 {
        1
    } else {
        256 * bytes_bound((n - 1) as nat)
    }
}

proof fn le_value_is_bounded(bytes: Seq<u8>)
    ensures
        le_value(bytes) < bytes_bound(bytes.len()),
    decreases bytes.len(),
{
    if bytes.len() > 0 {
        le_value_is_bounded(bytes.drop_first());
    }
}

proof fn words_are_bounded(bytes: Seq<u8>)
    requires
        bytes.len() <= 8,
    ensures
        le_value(bytes) <= u64::MAX,
{
    le_value_is_bounded(bytes);
    reveal_with_fuel(bytes_bound, 9);
}

fn le_number(bytes: &[u8], from: usize, to: usize) -> (r: u64)
    requires
        from <= to <= bytes@.len(),
        to - from <= 8,
    ensures
        r == le_value(bytes@.subrange(from as int, to as int)),
{
    let mut i: usize = to;
    let mut value: u64 = 0;
    while i > from
        invariant
            from <= i <= to <= bytes@.len(),
            to - from <= 8,
            value == le_value(bytes@.subrange(i as int, to as int)),
        decreases i,
    {
        i -= 1;
        proof {
            let rest = bytes@.subrange(i as int, to as int);
            assert(rest.drop_first() =~= bytes@.subrange(i + 1, to as int));
            words_are_bounded(rest);
        }
        value = bytes[i] as u64 + 256 * value;
    }
    value
}

/// The number of at most eight bytes in hexadecimal, the lowest first.
pub open spec fn le_hex(raw: Seq<char>) -> Option<u64> {
    match encoding::hex_bytes(raw) {
        None => None,
        Some(bytes) => if bytes.len() > 8 {
            None
        } else {
            Some(le_value(bytes) as u64)
        },
    }
}

/// Reads the number of at most eight bytes in hexadecimal, the lowest first.
pub fn little_endian_hex(raw: &str) -> (r: Option<u64>)
    ensures
        r == le_hex(raw@),
{
    match encoding::hex_decode(raw) {
        None => None,
        Some(bytes) => if bytes.len() > 8 {
            None
        } else {
            proof {
                assert(bytes@.subrange(0, bytes@.len() as int) =~= bytes@);
            }
            Some(le_number(bytes.as_slice(), 0, bytes.len()))
        },
    }
}

/// The names of the registers, in the order of their packet.
pub open spec fn register_names() -> Seq<Seq<char>> {
    seq![
        "d0"@,
        "d1"@,
        "d2"@,
        "d3"@,
        "d4"@,
        "d5"@,
        "d6"@,
        "d7"@,
        "a0"@,
        "a1"@,
        "a2"@,
        "a3"@,
        "a4"@,
        "a5"@,
        "a6"@,
        "sp"@,
        "sr"@,
        "pc"@,
    ]
}

/// The number of registers.
pub const REGISTER_COUNT: usize = 18;

fn register_name_list() -> (r: Vec<&'static str>)
    ensures
        json::literals(r@) == register_names(),
        r@.len() == REGISTER_COUNT,
{
    let mut v: Vec<&'static str> = Vec::new();
    v.push("d0");
    v.push("d1");
    v.push("d2");
    v.push("d3");
    v.push("d4");
    v.push("d5");
    v.push("d6");
    v.push("d7");
    v.push("a0");
    v.push("a1");
    v.push("a2");
    v.push("a3");
    v.push("a4");
    v.push("a5");
    v.push("a6");
    v.push("sp");
    v.push("sr");
    v.push("pc");
    assert(json::literals(v@) =~= register_names());
    v
}

/// The word of a register.
pub open spec fn register_word(bytes: Seq<u8>, i: int) -> u64 {
    le_value(bytes.subrange(4 * i, 4 * i + 4)) as u64
}

/// The first registers of a packet, by name.
pub open spec fn registers(bytes: Seq<u8>, n: nat) -> JsonView
    decreases n,
{
    if n == 0 {
        JsonView::object()
    } else {
        registers(bytes, (n - 1) as nat).with(
            register_names()[n - 1],
            JsonView::Unsigned(register_word(bytes, n - 1)),
        )
    }
}

/// The registers of a packet, by name.
pub fn read_registers(bytes: &[u8]) -> (r: Json)
    requires
        bytes@.len() == REGISTER_COUNT * 4,
    ensures
        r@ == registers(bytes@, REGISTER_COUNT as nat),
{
    let names = register_name_list();
    let mut r = Json::object();
    let mut i: usize = 0;
    while i < REGISTER_COUNT
        invariant
            i <= REGISTER_COUNT,
            bytes@.len() == REGISTER_COUNT * 4,
            names@.len() == REGISTER_COUNT,
            json::literals(names@) == register_names(),
            r@ == registers(bytes@, i as nat),
        decreases REGISTER_COUNT - i,
    {
        let word: u64 = le_number(bytes, 4 * i, 4 * i + 4);
        assert(register_names()[i as int] == names@[i as int]@);
        r = r.with(names[i], Json::Unsigned(word));
        i += 1;
    }
    r
}

/// The registers that a stop tells, or what is wrong with them.
pub open spec fn stop_registers(raw: Seq<char>) -> JsonView {
    match encoding::hex_bytes(raw) {
        None => JsonView::object().with("decode_error"@, JsonView::Str("invalid hex"@)),
        Some(bytes) => if bytes.len() != REGISTER_COUNT * 4 {
            JsonView::object().with(
                "decode_error"@,
                JsonView::Str("unexpected register packet length"@),
            ).with("byte_len"@, JsonView::Unsigned(bytes.len() as u64))
        } else {
            registers(bytes, REGISTER_COUNT as nat)
        },
    }
}

/// Reads the registers that a stop tells.
pub fn parse_m68k_registers(raw: &str) -> (r: Json)
    ensures
        r@ == stop_registers(raw@),
{
    match encoding::hex_decode(raw) {
        None => Json::object().with("decode_error", Json::text("invalid hex")),
        Some(bytes) => if bytes.len() != REGISTER_COUNT * 4 {
            Json::object().with(
                "decode_error",
                Json::text("unexpected register packet length"),
            ).with("byte_len", Json::Unsigned(bytes.len() as u64))
        } else {
            read_registers(bytes.as_slice())
        },
    }
}

/// A stop at a breakpoint.
#[derive(Debug)]
pub struct ParsedStop {
    pub kind: BreakpointKind,
    pub address: u64,
    pub backend_id: u64,
    pub hit_seq: Option<u64>,
    pub regs: Json,
}

/// What a stop at a breakpoint holds.
pub struct StopView {
    pub kind: BreakpointKind,
    pub address: u64,
    pub backend_id: u64,
    pub hit_seq: Option<u64>,
    pub regs: JsonView,
}

impl View for ParsedStop {
    type V = StopView;

    open spec fn view(&self) -> StopView {
        StopView {
            kind: self.kind,
            address: self.address,
            backend_id: self.backend_id,
            hit_seq: self.hit_seq,
            regs: self.regs@,
        }
    }
}

/// What the fields of a stop tell so far.
pub struct StopFields {
    pub idx: Option<u64>,
    pub seq: Option<u64>,
    pub regs: JsonView,
}

/// What one more field of a stop tells; one without a value tells nothing.
pub open spec fn stop_field(told: StopFields, field: Seq<char>) -> StopFields {
    match text::halves(field, ':') {
        None => told,
        Some((key, value)) => if key == "idx"@ {
            StopFields { idx: text::u64_value(value, 10), ..told }
        } else if key == "seq"@ {
            StopFields { seq: text::u64_value(value, 10), ..told }
        } else if key == "regs"@ {
            StopFields { regs: stop_registers(value), ..told }
        } else {
            told
        },
    }
}

/// What the fields of a stop tell; of two with one name the later one holds.
pub open spec fn stop_fields(fields: Seq<Seq<char>>) -> StopFields
    decreases fields.len(),
{
    if fields.len() == 0 {
        StopFields { idx: None, seq: None, regs: JsonView::object() }
    } else {
        stop_field(stop_fields(fields.drop_last()), fields.last())
    }
}

/// The kind of breakpoint of a tag.
pub open spec fn stop_kind(tag: Seq<char>) -> Option<BreakpointKind> {
    if tag == "hwbreak"@ {
        Some(BreakpointKind::Exec)
    } else if tag == "watch"@ {
        Some(BreakpointKind::Write)
    } else if tag == "rwatch"@ {
        Some(BreakpointKind::Read)
    } else {
        None
    }
}

/// The stop that a packet tells.
pub open spec fn stop_of(packet: Seq<char>) -> Option<StopView> {
    if !text::has_prefix(packet, "T05"@) {
        None
    } else {
        let body = packet.skip(3);
        let fields = stop_fields(text::pieces(text::after(body, ';'), ';'));
        match text::halves(text::before(body, ';'), ':') {
            None => None,
            Some((tag, address)) => match (stop_kind(tag), le_hex(address), fields.idx) {
                (Some(kind), Some(address), Some(backend_id)) => Some(
                    StopView { kind, address, backend_id, hit_seq: fields.seq, regs: fields.regs },
                ),
                _ => None,
            },
        }
    }
}

fn read_stop_fields(rest: &str) -> (r: (Option<u64>, Option<u64>, Json))
    ensures
        (StopFields { idx: r.0, seq: r.1, regs: r.2@ }) == stop_fields(text::pieces(rest@, ';')),
{
    let fields = text::split(rest, ';');
    let ghost shown = text::text_views(fields@);
    let mut idx: Option<u64> = None;
    let mut seq: Option<u64> = None;
    let mut regs = Json::object();
    let mut i: usize = 0;
    assert(shown.take(0) =~= Seq::empty());
    while i < fields.len()
        invariant
            i <= fields@.len(),
            shown == text::text_views(fields@),
            shown == text::pieces(rest@, ';'),
            (StopFields { idx, seq, regs: regs@ }) == stop_fields(shown.take(i as int)),
        decreases fields.len() - i,
    {
        proof {
            assert(shown.take(i + 1).drop_last() =~= shown.take(i as int));
            assert(shown.take(i + 1).last() == fields@[i as int]@);
        }
        if let Some((key, value)) = text::split_once(fields[i].as_str(), ':') {
            if text::same(key.as_str(), "idx") {
                idx = text::parse_u64(value.as_str(), 10);
            } else if text::same(key.as_str(), "seq") {
                seq = text::parse_u64(value.as_str(), 10);
            } else if text::same(key.as_str(), "regs") {
                regs = parse_m68k_registers(value.as_str());
            }
        }
        i += 1;
    }
    assert(shown.take(i as int) =~= shown);
    (idx, seq, regs)
}

/// Reads the stop that a packet tells.
pub fn parse_breakpoint_stop(packet: &str) -> (r: Option<ParsedStop>)
    ensures
        r is Some == stop_of(packet@) is Some,
        r matches Some(stop) ==> stop@ == stop_of(packet@)->0,
{
    proof {
        reveal_strlit("T05");
    }
    let body = match text::strip_prefix(packet, "T05") {
        Some(body) => body,
        None => {
            return None;
        },
    };
    let (head, rest) = text::cut(body.as_str(), ';');
    let (tag, address) = match text::split_once(head.as_str(), ':') {
        Some(halves) => halves,
        None => {
            return None;
        },
    };
    let kind = if text::same(tag.as_str(), "hwbreak") {
        BreakpointKind::Exec
    } else if text::same(tag.as_str(), "watch") {
        BreakpointKind::Write
    } else if text::same(tag.as_str(), "rwatch") {
        BreakpointKind::Read
    } else {
        return None;
    };
    let address: u64 = match little_endian_hex(address.as_str()) {
        Some(n) => n,
        None => {
            return None;
        },
    };
    let (idx, hit_seq, regs) = read_stop_fields(rest.as_str());
    match idx {
        Some(backend_id) => Some(ParsedStop { kind, address, backend_id, hit_seq, regs }),
        None => None,
    }
}

/// Whether a word of a listing is a byte in hexadecimal.
pub open spec fn is_byte_word(word: Seq<char>) -> bool {
    word.len() == 2 && encoding::is_hex_digit(word[0]) && encoding::is_hex_digit(word[1])
}

/// How many words at the start are bytes.
pub open spec fn byte_words(parts: Seq<Seq<char>>) -> nat
    decreases parts.len(),
{
    if parts.len() == 0 || !is_byte_word(parts[0]) {
        0
    } else {
        1 + byte_words(parts.drop_first())
    }
}

/// The instruction of a line of a listing; none where the line has no address.
pub open spec fn listing_row(line: Seq<char>) -> Option<JsonView> {
    match text::halves(text::trimmed(line), ':') {
        None => None,
        Some((head, rest)) => match text::u64_value(text::trimmed(head), 16) {
            None => None,
            Some(address) => {
                let parts = text::words(rest);
                let n = byte_words(parts) as int;
                Some(
                    JsonView::object().with("addr"@, JsonView::Unsigned(address)).with(
                        "bytes"@,
                        JsonView::Str(text::lowered(text::joined(parts.take(n), ""@))),
                    ).with("length"@, JsonView::Unsigned(n as u64)).with(
                        "text"@,
                        JsonView::Str(text::joined(parts.skip(n), " "@)),
                    ),
                )
            },
        },
    }
}

/// The instructions of the lines of a listing, but no more than asked for.
pub open spec fn listing_rows(lines: Seq<Seq<char>>, count: nat) -> Seq<JsonView>
    decreases lines.len(),
{
    if lines.len() == 0 {
        Seq::empty()
    } else {
        let earlier = listing_rows(lines.drop_last(), count);
        if earlier.len() >= count {
            earlier
        } else {
            match listing_row(lines.last()) {
                Some(row) => earlier.push(row),
                None => earlier,
            }
        }
    }
}

fn is_hex(c: char) -> (r: bool)
    ensures
        r == encoding::is_hex_digit(c),
{
    ('0' <= c && c <= '9') || ('a' <= c && c <= 'f') || ('A' <= c && c <= 'F')
}

fn count_bytes(parts: &Vec<String>) -> (r: usize)
    ensures
        r == byte_words(text::text_views(parts@)),
        r <= parts@.len(),
{
    let ghost shown = text::text_views(parts@);
    let mut i: usize = 0;
    assert(shown.skip(0) =~= shown);
    while i < parts.len()
        invariant
            i <= parts@.len(),
            shown == text::text_views(parts@),
            byte_words(shown) == i + byte_words(shown.skip(i as int)),
        decreases parts.len() - i,
    {
        let chars = text::chars_of(parts[i].as_str());
        assert(shown.skip(i as int)[0] == parts@[i as int]@);
        if chars.len() != 2 || !is_hex(chars[0]) || !is_hex(chars[1]) {
            return i;
        }
        assert(shown.skip(i as int).drop_first() =~= shown.skip(i + 1));
        i += 1;
    }
    i
}

fn part_of(parts: &Vec<String>, from: usize, to: usize) -> (r: Vec<String>)
    requires
        from <= to <= parts@.len(),
    ensures
        text::text_views(r@) == text::text_views(parts@).subrange(from as int, to as int),
{
    let mut r: Vec<String> = Vec::new();
    let mut i: usize = from;
    while i < to
        invariant
            from <= i <= to <= parts@.len(),
            r@.len() == i - from,
            forall|k: int| 0 <= k < i - from ==> (#[trigger] r@[k])@ == parts@[from + k]@,
        decreases to - i,
    {
        r.push(parts[i].clone());
        i += 1;
    }
    assert(text::text_views(r@) =~= text::text_views(parts@).subrange(from as int, to as int));
    r
}

fn read_listing_row(line: &str) -> (r: Option<Json>)
    ensures
        r is Some == listing_row(line@) is Some,
        r matches Some(row) ==> row@ == listing_row(line@)->0,
{
    let (head, rest) = match text::split_once(text::trim(line).as_str(), ':') {
        Some(halves) => halves,
        None => {
            return None;
        },
    };
    let address: u64 = match text::parse_u64(text::trim(head.as_str()).as_str(), 16) {
        Some(n) => n,
        None => {
            return None;
        },
    };
    let parts = text::split_words(rest.as_str());
    let total: usize = parts.len();
    let n: usize = count_bytes(&parts);
    let ghost shown = text::text_views(parts@);
    proof {
        assert(shown.subrange(0, n as int) =~= shown.take(n as int));
        assert(shown.subrange(n as int, total as int) =~= shown.skip(n as int));
    }
    let bytes = text::join_all(part_of(&parts, 0, n).as_slice(), "");
    let words = text::join_all(part_of(&parts, n, total).as_slice(), " ");
    Some(
        Json::object().with("addr", Json::Unsigned(address)).with(
            "bytes",
            Json::text(text::lower(bytes.as_str()).as_str()),
        ).with("length", Json::Unsigned(n as u64)).with("text", Json::text(words.as_str())),
    )
}

proof fn full_listing_stays(lines: Seq<Seq<char>>, count: nat, k: int)
    requires
        0 <= k <= lines.len(),
        listing_rows(lines.take(k), count).len() >= count,
    ensures
        listing_rows(lines, count) == listing_rows(lines.take(k), count),
    decreases lines.len(),
{
    if k == lines.len() {
        assert(lines.take(k) =~= lines);
    } else {
        assert(lines.drop_last().take(k) =~= lines.take(k));
        full_listing_stays(lines.drop_last(), count, k);
    }
}

/// A listing gives no more instructions than asked for.
pub proof fn listings_are_bounded(lines: Seq<Seq<char>>, count: nat)
    ensures
        listing_rows(lines, count).len() <= count,
    decreases lines.len(),
{
    if lines.len() > 0 {
        listings_are_bounded(lines.drop_last(), count);
    }
}

/// Reads the lines of a listing.
pub fn parse_dasm_lines(listing: &str, count: usize) -> (r: Vec<Json>)
    ensures
        json::views(r@) =~= listing_rows(text::pieces(listing@, '\n'), count as nat),
{
    let lines = text::split(listing, '\n');
    let ghost shown = text::text_views(lines@);
    let mut rows: Vec<Json> = Vec::new();
    let mut i: usize = 0;
    assert(json::views(rows@) =~= listing_rows(shown.take(0), count as nat));
    while i < lines.len()
        invariant
            i <= lines.len(),
            shown == text::text_views(lines@),
            shown == text::pieces(listing@, '\n'),
            json::views(rows@) =~= listing_rows(shown.take(i as int), count as nat),
        decreases lines.len() - i,
    {
        if rows.len() >= count {
            proof {
                full_listing_stays(shown, count as nat, i as int);
            }
            return rows;
        }
        proof {
            assert(shown.take(i + 1).drop_last() =~= shown.take(i as int));
            assert(shown.take(i + 1).last() == lines@[i as int]@);
        }
        if let Some(row) = read_listing_row(lines[i].as_str()) {
            let ghost earlier = rows@;
            rows.push(row);
            assert(json::views(rows@) =~= json::views(earlier).push(row@));
        }
        i += 1;
    }
    assert(shown.take(i as int) =~= shown);
    rows
}

} // verus!
