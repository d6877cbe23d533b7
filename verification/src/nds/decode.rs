//! What the texts of a stub stand for: registers, disassembly rows, button names and searches.

use vstd::prelude::*;
use crate::encoding;
use crate::json;
use crate::json::{Json, JsonView};
use crate::nds;
use crate::nds::support;
use crate::nds::{NdsBridgeError, NdsErrorView};
use crate::text;

verus! {

/// The number of four bytes in hexadecimal, the lowest first.
pub open spec fn le_word(s: Seq<char>) -> Option<u64> {
    match encoding::hex_bytes(s) {
        Some(b) => if b.len() == 4 {
            Some((b[0] + 0x100 * b[1] + 0x1_0000 * b[2] + 0x100_0000 * b[3]) as u64)
        } else {
            None
        },
        None => None,
    }
}

/// Reads the number of four bytes in hexadecimal, the lowest first.
pub fn le_hex_to_u32(hex: &str) -> (r: Option<u64>)
    ensures
        r == le_word(hex@),
        r matches Some(n) ==> n <= u32::MAX,
{
    match encoding::hex_decode(hex) {
        Some(b) => if b.len() == 4 {
            Some(
                b[0] as u64 + 0x100 * (b[1] as u64) + 0x1_0000 * (b[2] as u64) + 0x100_0000 * (
                b[3] as u64),
            )
        } else {
            None
        },
        None => None,
    }
}

/// The word between two places of a text, counted in bytes.
pub open spec fn word_at(s: Seq<char>, from: int, to: int) -> Option<u64> {
    match text::byte_range(s, from, to) {
        Some(word) => le_word(word),
        None => None,
    }
}

/// An object with a number added, where there is one.
pub open spec fn with_word(object: JsonView, key: Seq<char>, word: Option<u64>) -> JsonView {
    match word {
        Some(n) => object.with(key, JsonView::Unsigned(n)),
        None => object,
    }
}

/// The name of a general register.
pub open spec fn register_name(i: int) -> Seq<char> {
    "cpu.r"@ + text::decimal(i)
}

/// The first general registers of a register packet.
pub open spec fn registers(packet: Seq<char>, n: nat) -> JsonView
    decreases n,
{
    if n == 0 {
        JsonView::object()
    } else {
        let i = n - 1;
        with_word(
            registers(packet, i as nat),
            register_name(i),
            word_at(packet, 8 * i, 8 * i + 8),
        )
    }
}

/// The status register of a register packet: after the floating-point registers, or directly
/// after the general ones in the compact form.
pub open spec fn status_word(packet: Seq<char>) -> Option<u64> {
    if vstd::utf8::encode_utf8(packet).len() >= 336 {
        word_at(packet, 328, 336)
    } else {
        word_at(packet, 128, 136)
    }
}

/// An object with a field under a second name, where it has the field.
pub open spec fn with_alias(object: JsonView, alias: Seq<char>, key: Seq<char>) -> JsonView {
    match object.field(key) {
        Some(v) => object.with(alias, v),
        None => object,
    }
}

/// Whether an object has no field.
pub open spec fn is_bare(object: JsonView) -> bool {
    object matches JsonView::Object(fields) && fields.len() == 0
}

/// The registers of a register packet.
pub open spec fn state_of(packet: Seq<char>) -> JsonView {
    let general = with_word(registers(packet, 16), "cpu.cpsr"@, status_word(packet));
    let named = with_alias(
        with_alias(with_alias(general, "cpu.pc"@, "cpu.r15"@), "cpu.sp"@, "cpu.r13"@),
        "cpu.lr"@,
        "cpu.r14"@,
    );
    if is_bare(named) {
        named.with(
            "cpu.raw_register_bytes"@,
            JsonView::Unsigned((vstd::utf8::encode_utf8(packet).len() / 2) as u64),
        )
    } else {
        named
    }
}

fn read_word(packet: &str, from: usize, to: usize) -> (r: Option<u64>)
    requires
        from <= to,
    ensures
        r == word_at(packet@, from as int, to as int),
{
    match text::slice_bytes(packet, from, to) {
        Some(word) => le_hex_to_u32(word),
        None => None,
    }
}

fn add_word(object: Json, key: &str, word: Option<u64>) -> (r: Json)
    ensures
        r@ == with_word(object@, key@, word),
{
    match word {
        Some(n) => object.with(key, Json::Unsigned(n)),
        None => object,
    }
}

fn add_alias(object: Json, alias: &str, key: &str) -> (r: Json)
    ensures
        r@ == with_alias(object@, alias@, key@),
{
    let found = match object.get(key) {
        Some(v) => Some(v.clone()),
        None => None,
    };
    match found {
        Some(v) => object.with(alias, v),
        None => object,
    }
}

fn bare(object: &Json) -> (r: bool)
    ensures
        r == is_bare(object@),
{
    match object {
        Json::Object(fields) => fields.len() == 0,
        _ => false,
    }
}

/// Reads the registers of a register packet.
pub fn state_from_arm_regs_hex(packet: &str) -> (r: Json)
    ensures
        r@ == state_of(packet@),
{
    let mut state = Json::object();
    let mut i: usize = 0;
    while i < 16
        invariant
            i <= 16,
            state@ == registers(packet@, i as nat),
        decreases 16 - i,
    {
        let name = text::join("cpu.r", text::decimal_of(i as u64).as_str());
        state = add_word(state, name.as_str(), read_word(packet, 8 * i, 8 * i + 8));
        i += 1;
    }
    let length: usize = packet.as_bytes().len();
    let status = if length >= 336 {
        read_word(packet, 328, 336)
    } else {
        read_word(packet, 128, 136)
    };
    let general = add_word(state, "cpu.cpsr", status);
    let named = add_alias(
        add_alias(add_alias(general, "cpu.pc", "cpu.r15"), "cpu.sp", "cpu.r13"),
        "cpu.lr",
        "cpu.r14",
    );
    if bare(&named) {
        named.with("cpu.raw_register_bytes", Json::Unsigned((length / 2) as u64))
    } else {
        named
    }
}

/// The bytes of an opcode as they stand in memory, from its hexadecimal value.
pub open spec fn opcode_bytes(opcode: Seq<char>) -> Seq<char> {
    match encoding::hex_bytes(opcode) {
        Some(bytes) => encoding::hex_text(bytes.reverse()),
        None => text::lowered(opcode),
    }
}

/// The bytes of an opcode as they stand in memory, from its hexadecimal value.
pub fn opcode_hex_to_le_bytes(opcode: &str) -> (r: String)
    ensures
        r@ == opcode_bytes(opcode@),
{
    match encoding::hex_decode(opcode) {
        Some(bytes) => {
            let n: usize = bytes.len();
            let mut reversed: Vec<u8> = Vec::new();
            let mut i: usize = 0;
            while i < n
                invariant
                    i <= n,
                    n == bytes@.len(),
                    reversed@ =~= bytes@.reverse().take(i as int),
                decreases n - i,
            {
                reversed.push(bytes[n - 1 - i]);
                i += 1;
            }
            assert(reversed@ =~= bytes@.reverse());
            encoding::hex_encode(reversed.as_slice())
        },
        None => text::lower(opcode),
    }
}

/// The instruction of a row, with its address, text and bytes; none for a row without an address.
pub open spec fn row_of(line: Seq<char>) -> Option<JsonView> {
    let row = text::trimmed(line);
    let rest = text::after(row, '|');
    match text::u64_value(text::trimmed(text::before(row, '|')), 16) {
        None => None,
        Some(address) => Some(
            JsonView::object().with("addr"@, JsonView::Unsigned(address)).with(
                "text"@,
                JsonView::Str(text::trimmed(text::after(rest, '|'))),
            ).with(
                "bytes"@,
                JsonView::Str(opcode_bytes(text::trimmed(text::before(rest, '|')))),
            ),
        ),
    }
}

/// The instructions of some rows, but no more than asked for.
pub open spec fn rows_of(lines: Seq<Seq<char>>, count: nat) -> Seq<JsonView>
    decreases lines.len(),
{
    if lines.len() == 0 {
        Seq::empty()
    } else {
        let earlier = rows_of(lines.drop_last(), count);
        if earlier.len() >= count {
            earlier
        } else {
            match row_of(lines.last()) {
                Some(row) => earlier.push(row),
                None => earlier,
            }
        }
    }
}

fn read_row(line: &str) -> (r: Option<Json>)
    ensures
        r is Some == row_of(line@) is Some,
        r matches Some(row) ==> row@ == row_of(line@)->0,
{
    let row = text::trim(line);
    let (head, rest) = text::cut(row.as_str(), '|');
    let address: u64 = match text::parse_u64(text::trim(head.as_str()).as_str(), 16) {
        Some(n) => n,
        None => {
            return None;
        },
    };
    let (opcode, words) = text::cut(rest.as_str(), '|');
    let bytes = opcode_hex_to_le_bytes(text::trim(opcode.as_str()).as_str());
    Some(
        Json::object().with("addr", Json::Unsigned(address)).with(
            "text",
            Json::text(text::trim(words.as_str()).as_str()),
        ).with("bytes", Json::text(bytes.as_str())),
    )
}

proof fn full_rows_stay(lines: Seq<Seq<char>>, count: nat, k: int)
    requires
        0 <= k <= lines.len(),
        rows_of(lines.take(k), count).len() >= count,
    ensures
        rows_of(lines, count) == rows_of(lines.take(k), count),
    decreases lines.len(),
{
    if k == lines.len() {
        assert(lines.take(k) =~= lines);
    } else {
        assert(lines.drop_last().take(k) =~= lines.take(k));
        full_rows_stay(lines.drop_last(), count, k);
    }
}

/// Reads the rows of a disassembly.
pub fn parse_disasm_rows(block: &str, count: usize) -> (r: Vec<Json>)
    ensures
        json::views(r@) =~= rows_of(text::pieces(block@, '\n'), count as nat),
{
    let lines = text::split(block, '\n');
    let ghost shown = text::text_views(lines@);
    let mut rows: Vec<Json> = Vec::new();
    let mut i: usize = 0;
    assert(json::views(rows@) =~= rows_of(shown.take(0), count as nat));
    while i < lines.len()
        invariant
            i <= lines.len(),
            shown == text::text_views(lines@),
            shown == text::pieces(block@, '\n'),
            json::views(rows@) =~= rows_of(shown.take(i as int), count as nat),
        decreases lines.len() - i,
    {
        if rows.len() >= count {
            proof {
                full_rows_stay(shown, count as nat, i as int);
            }
            return rows;
        }
        proof {
            assert(shown.take(i + 1).drop_last() =~= shown.take(i as int));
            assert(shown.take(i + 1).last() == lines@[i as int]@);
        }
        if let Some(row) = read_row(lines[i].as_str()) {
            let ghost earlier = rows@;
            rows.push(row);
            assert(json::views(rows@) =~= json::views(earlier).push(row@));
        }
        i += 1;
    }
    assert(shown.take(i as int) =~= shown);
    rows
}

/// Whether an address lies in memory that a stack may use.
pub open spec fn in_ram(address: u64) -> bool {
    0x0200_0000 <= address < 0x0240_0000 || 0x0300_0000 <= address < 0x0400_0000
}

/// Whether an address may be one of code: in main memory, in the memory of the cores, or in the
/// firmware of the ARM9.
pub open spec fn in_code(address: u64) -> bool {
    0x0100_0000 <= address < 0x0240_0000 || 0x0300_0000 <= address < 0x0400_0000 || 0xFFFF_0000
        <= address < 0xFFFF_8000
}

/// Whether an address lies in memory that a stack may use.
pub fn nds_in_ram(address: u64) -> (r: bool)
    ensures
        r == in_ram(address),
{
    (0x0200_0000 <= address && address < 0x0240_0000) || (0x0300_0000 <= address && address
        < 0x0400_0000)
}

/// Whether an address may be one of code.
pub fn nds_in_code_region(address: u64) -> (r: bool)
    ensures
        r == in_code(address),
{
    (0x0100_0000 <= address && address < 0x0240_0000) || (0x0300_0000 <= address && address
        < 0x0400_0000) || (0xFFFF_0000 <= address && address < 0xFFFF_8000)
}

/// The mask of a button.
pub open spec fn button_bit(name: Seq<char>) -> Option<u16> {
    if name == "a"@ {
        Some(0x001)
    } else if name == "b"@ {
        Some(0x002)
    } else if name == "select"@ {
        Some(0x004)
    } else if name == "start"@ {
        Some(0x008)
    } else if name == "right"@ {
        Some(0x010)
    } else if name == "left"@ {
        Some(0x020)
    } else if name == "up"@ {
        Some(0x040)
    } else if name == "down"@ {
        Some(0x080)
    } else if name == "r"@ {
        Some(0x100)
    } else if name == "l"@ {
        Some(0x200)
    } else if name == "x"@ {
        Some(0x400)
    } else if name == "y"@ {
        Some(0x800)
    } else {
        None
    }
}

/// The mask of a button.
pub fn nds_button_bit(name: &str) -> (r: Option<u16>)
    ensures
        r == button_bit(name@),
{
    if text::same(name, "a") {
        Some(0x001)
    } else if text::same(name, "b") {
        Some(0x002)
    } else if text::same(name, "select") {
        Some(0x004)
    } else if text::same(name, "start") {
        Some(0x008)
    } else if text::same(name, "right") {
        Some(0x010)
    } else if text::same(name, "left") {
        Some(0x020)
    } else if text::same(name, "up") {
        Some(0x040)
    } else if text::same(name, "down") {
        Some(0x080)
    } else if text::same(name, "r") {
        Some(0x100)
    } else if text::same(name, "l") {
        Some(0x200)
    } else if text::same(name, "x") {
        Some(0x400)
    } else if text::same(name, "y") {
        Some(0x800)
    } else {
        None
    }
}

/// The usual name of a button.
pub open spec fn usual_name(name: Seq<char>) -> Seq<char> {
    if name == "sel"@ {
        "select"@
    } else if name == "lb"@ || name == "l1"@ {
        "l"@
    } else if name == "rb"@ || name == "r1"@ {
        "r"@
    } else {
        name
    }
}

fn nds_button_alias(name: &str) -> (r: &str)
    ensures
        r@ == usual_name(name@),
{
    if text::same(name, "sel") {
        "select"
    } else if text::same(name, "lb") || text::same(name, "l1") {
        "l"
    } else if text::same(name, "rb") || text::same(name, "r1") {
        "r"
    } else {
        name
    }
}

/// How an entry of a button list is called. An entry that is no text is written out.
pub open spec fn entry_name(entry: JsonView) -> Seq<char> {
    match entry {
        JsonView::Str(s) => text::lowered(text::trimmed(s)),
        _ => text::lowered(json::written(entry)),
    }
}

fn name_of_entry(entry: &Json) -> (r: String)
    ensures
        r@ == entry_name(entry@),
{
    match entry {
        Json::Str(s) => text::lower(text::trim(s.as_str()).as_str()),
        _ => text::lower(entry.to_text().as_str()),
    }
}

/// Buttons as a mask, with their usual names.
pub struct HeldView {
    pub mask: u16,
    pub names: Seq<Seq<char>>,
}

/// Buttons as a mask, with their usual names.
#[derive(Debug)]
pub struct Held {
    pub mask: u16,
    pub names: Vec<String>,
}

impl View for Held {
    type V = HeldView;

    open spec fn view(&self) -> HeldView {
        HeldView { mask: self.mask, names: text::text_views(self.names@) }
    }
}

/// The message that a name is no button.
pub open spec fn no_button(name: Seq<char>) -> Seq<char> {
    ("unsupported nds button: "@ + name)
        + "; valid: a, b, x, y, l, r, start, select, up, down, left, right"@
}

/// The buttons of a list; the first that is none decides.
pub open spec fn held_entries(entries: Seq<JsonView>) -> Result<HeldView, NdsErrorView>
    decreases entries.len(),
{
    if entries.len() == 0 {
        Ok(HeldView { mask: 0, names: Seq::empty() })
    } else {
        match held_entries(entries.drop_last()) {
            Err(e) => Err(e),
            Ok(held) => {
                let name = usual_name(entry_name(entries.last()));
                match button_bit(name) {
                    Some(bit) => Ok(
                        HeldView { mask: held.mask | bit, names: held.names.push(name) },
                    ),
                    None => support::bad(no_button(entry_name(entries.last()))),
                }
            },
        }
    }
}

/// The buttons of a request: none where it names none.
pub open spec fn held_buttons(value: Option<JsonView>) -> Result<HeldView, NdsErrorView> {
    match value {
        None => Ok(HeldView { mask: 0, names: Seq::empty() }),
        Some(v) => match v.as_items() {
            Some(entries) => held_entries(entries),
            None => support::bad("buttons must be a list"@),
        },
    }
}

proof fn held_fault_stays(entries: Seq<JsonView>, k: int)
    requires
        0 <= k <= entries.len(),
        held_entries(entries.take(k)) is Err,
    ensures
        held_entries(entries) == held_entries(entries.take(k)),
    decreases entries.len(),
{
    if k == entries.len() {
        assert(entries.take(k) =~= entries);
    } else {
        assert(entries.drop_last().take(k) =~= entries.take(k));
        held_fault_stays(entries.drop_last(), k);
    }
}

/// Reads the buttons of a request.
pub fn buttons_to_mask(value: Option<&Json>) -> (r: Result<Held, NdsBridgeError>)
    ensures
        nds::shown(r) == held_buttons(
            match value {
                Some(v) => Some(v@),
                None => None,
            },
        ),
{
    let mut held = Held { mask: 0, names: Vec::new() };
    assert(held@.names =~= Seq::empty());
    let entries = match value {
        Some(v) => match v.as_array() {
            Some(entries) => entries,
            None => {
                return Err(NdsBridgeError::BadParams("buttons must be a list".to_owned()));
            },
        },
        None => {
            return Ok(held);
        },
    };
    let ghost items = json::views(entries@);
    let mut i: usize = 0;
    assert(items.take(0) =~= Seq::empty());
    while i < entries.len()
        invariant
            i <= entries.len(),
            items == json::views(entries@),
            value is Some,
            value->0@.as_items() == Some(items),
            held_entries(items.take(i as int)) == Ok::<_, NdsErrorView>(held@),
        decreases entries.len() - i,
    {
        proof {
            assert(items.take(i + 1).drop_last() =~= items.take(i as int));
            assert(items.take(i + 1).last() == entries@[i as int]@);
        }
        let key = name_of_entry(&entries[i]);
        let name = nds_button_alias(key.as_str());
        match nds_button_bit(name) {
            Some(bit) => {
                let ghost earlier = held@;
                held.mask = held.mask | bit;
                held.names.push(name.to_owned());
                assert(held@.names =~= earlier.names.push(name@));
            },
            None => {
                proof {
                    held_fault_stays(items, i + 1);
                }
                let m = text::join("unsupported nds button: ", key.as_str());
                return Err(
                    NdsBridgeError::BadParams(
                        text::join(
                            m.as_str(),
                            "; valid: a, b, x, y, l, r, start, select, up, down, left, right",
                        ),
                    ),
                );
            },
        }
        i += 1;
    }
    assert(items.take(i as int) =~= items);
    Ok(held)
}

/// Whether a pattern stands at a place of some bytes.
pub open spec fn stands_at(bytes: Seq<u8>, pattern: Seq<u8>, i: int) -> bool {
    0 <= i && i + pattern.len() <= bytes.len() && bytes.subrange(i, i + pattern.len()) == pattern
}

/// The aligned places before `end` at which a pattern stands, in order.
pub open spec fn hits_before(bytes: Seq<u8>, pattern: Seq<u8>, align: u64, end: nat) -> Seq<int>
    decreases end,
{
    if end == 0 {
        Seq::empty()
    } else {
        let i = end - 1;
        let earlier = hits_before(bytes, pattern, align, i as nat);
        if stands_at(bytes, pattern, i) && i % (align as int) == 0 {
            earlier.push(i)
        } else {
            earlier
        }
    }
}

/// The aligned places at which a pattern stands, in order.
pub open spec fn hits(bytes: Seq<u8>, pattern: Seq<u8>, align: u64) -> Seq<int> {
    hits_before(bytes, pattern, align, bytes.len())
}

proof fn hits_grow(bytes: Seq<u8>, pattern: Seq<u8>, align: u64, a: nat, b: nat)
    requires
        a <= b,
    ensures
        hits_before(bytes, pattern, align, a).len() <= hits_before(
            bytes,
            pattern,
            align,
            b,
        ).len(),
        hits_before(bytes, pattern, align, b).take(
            hits_before(bytes, pattern, align, a).len() as int,
        ) == hits_before(bytes, pattern, align, a),
    decreases b,
{
    if a == b {
        assert(hits_before(bytes, pattern, align, b).take(
            hits_before(bytes, pattern, align, a).len() as int,
        ) =~= hits_before(bytes, pattern, align, a));
    } else {
        hits_grow(bytes, pattern, align, a, (b - 1) as nat);
        assert(hits_before(bytes, pattern, align, b).take(
            hits_before(bytes, pattern, align, a).len() as int,
        ) =~= hits_before(bytes, pattern, align, (b - 1) as nat).take(
            hits_before(bytes, pattern, align, a).len() as int,
        ));
    }
}

fn pattern_stands(bytes: &[u8], pattern: &[u8], i: usize) -> (r: bool)
    requires
        i + pattern@.len() <= bytes@.len(),
    ensures
        r == stands_at(bytes@, pattern@, i as int),
{
    let total: usize = bytes.len();
    let mut k: usize = 0;
    while k < pattern.len()
        invariant
            k <= pattern.len(),
            total == bytes@.len(),
            i + pattern@.len() <= bytes@.len(),
            forall|j: int| 0 <= j < k ==> bytes@[i + j] == pattern@[j],
        decreases pattern.len() - k,
    {
        if bytes[i + k] != pattern[k] {
            assert(bytes@.subrange(i as int, i + pattern@.len())[k as int] != pattern@[k as int]);
            return false;
        }
        k += 1;
    }
    assert(bytes@.subrange(i as int, i + pattern@.len()) =~= pattern@);
    true
}

/// The first places of a pattern, as numbers from `start` on.
pub open spec fn matches_from(places: Seq<int>, start: u64, most: nat) -> Seq<u64> {
    let n = if places.len() > most {
        most
    } else {
        places.len()
    };
    Seq::new(n, |i: int| (start + places[i]) as u64)
}

/// Searches some bytes for a pattern: the first matches, and whether there are more.
pub fn search(bytes: &[u8], pattern: &[u8], align: u64, start: u64, most: usize) -> (r: (
    Vec<u64>,
    bool,
))
    requires
        align > 0,
        pattern@.len() > 0,
        start + bytes@.len() <= u64::MAX,
    ensures
        r.0@ == matches_from(hits(bytes@, pattern@, align), start, most as nat),
        r.1 == (hits(bytes@, pattern@, align).len() > most),
{
    let ghost all = hits(bytes@, pattern@, align);
    let mut found: Vec<u64> = Vec::new();
    let mut i: usize = 0;
    while i < bytes.len() && bytes.len() - i >= pattern.len()
        invariant
            i <= bytes.len(),
            align > 0,
            pattern@.len() > 0,
            start + bytes@.len() <= u64::MAX,
            all == hits(bytes@, pattern@, align),
            found@.len() == hits_before(bytes@, pattern@, align, i as nat).len(),
            found@.len() <= most,
            forall|k: int|
                0 <= k < found@.len() ==> found@[k] == start + #[trigger] hits_before(
                    bytes@,
                    pattern@,
                    align,
                    i as nat,
                )[k],
            forall|k: int|
                0 <= k < found@.len() ==> 0 <= #[trigger] hits_before(
                    bytes@,
                    pattern@,
                    align,
                    i as nat,
                )[k] < i,
        decreases bytes.len() - i,
    {
        let ghost earlier = hits_before(bytes@, pattern@, align, i as nat);
        let ghost so_far = hits_before(bytes@, pattern@, align, (i + 1) as nat);
        if pattern_stands(bytes, pattern, i) && i as u64 % align == 0 {
            assert(so_far == earlier.push(i as int));
            if found.len() >= most {
                proof {
                    hits_grow(bytes@, pattern@, align, (i + 1) as nat, bytes@.len());
                    hits_grow(bytes@, pattern@, align, i as nat, bytes@.len());
                    assert forall|k: int| 0 <= k < found@.len() implies all[k] == earlier[k] by {
                        assert(all.take(earlier.len() as int)[k] == earlier[k]);
                    }
                    assert(found@ =~= matches_from(all, start, most as nat));
                }
                return (found, true);
            }
            found.push(start + i as u64);
        } else {
            assert(so_far == earlier);
        }
        i += 1;
    }
    proof {
        none_after(bytes@, pattern@, align, i as nat, bytes@.len());
        assert(found@ =~= matches_from(all, start, most as nat));
    }
    (found, false)
}

proof fn none_after(bytes: Seq<u8>, pattern: Seq<u8>, align: u64, a: nat, b: nat)
    requires
        a <= b <= bytes.len(),
        a == bytes.len() || bytes.len() - a < pattern.len(),
    ensures
        hits_before(bytes, pattern, align, b) == hits_before(bytes, pattern, align, a),
    decreases b,
{
    if a < b {
        none_after(bytes, pattern, align, a, (b - 1) as nat);
    }
}

} // verus!
