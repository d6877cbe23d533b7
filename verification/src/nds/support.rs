//! Reading request parameters and the replies of a stub.

use vstd::prelude::*;
use crate::encoding;
use crate::gdb;
use crate::json::{Json, JsonView};
use crate::nds;
use crate::nds::{CpuId, NdsBridgeError, NdsErrorView};
use crate::text;

verus! {

/// The number that a text stands for: hexadecimal after `$`, `0x` or `0X`, else decimal.
pub open spec fn text_number(s: Seq<char>) -> Option<u64> {
    let t = text::trimmed(s);
    if text::has_prefix(t, "$"@) {
        text::u64_value(t.skip(1), 16)
    } else if text::has_prefix(t, "0x"@) || text::has_prefix(t, "0X"@) {
        text::u64_value(t.skip(2), 16)
    } else {
        text::u64_value(t, 10)
    }
}

/// Reads a number written as text.
pub fn parse_num_str(s: &str) -> (r: Option<u64>)
    ensures
        r == text_number(s@),
{
    proof {
        reveal_strlit("$");
        reveal_strlit("0x");
        reveal_strlit("0X");
    }
    let t = text::trim(s);
    if let Some(hex) = text::strip_prefix(t.as_str(), "$") {
        return text::parse_u64(hex.as_str(), 16);
    }
    if let Some(hex) = text::strip_prefix(t.as_str(), "0x") {
        return text::parse_u64(hex.as_str(), 16);
    }
    if let Some(hex) = text::strip_prefix(t.as_str(), "0X") {
        return text::parse_u64(hex.as_str(), 16);
    }
    text::parse_u64(t.as_str(), 10)
}

/// The number that a parameter stands for, written as a number or as text.
pub open spec fn number(value: JsonView) -> Option<u64> {
    match value {
        JsonView::Unsigned(n) => Some(n),
        JsonView::Str(s) => text_number(s),
        _ => None,
    }
}

/// Reads a number written as a number or as text.
pub fn parse_num(value: &Json) -> (r: Option<u64>)
    ensures
        r == number(value@),
{
    match value {
        Json::Unsigned(n) => Some(*n),
        Json::Str(s) => parse_num_str(s.as_str()),
        _ => None,
    }
}

/// A refusal of parameters.
pub open spec fn bad<T>(message: Seq<char>) -> Result<T, NdsErrorView> {
    Err(NdsErrorView::BadParams(message))
}

/// A parameter that has to be there and to be a number.
pub open spec fn required(params: JsonView, key: Seq<char>) -> Result<u64, NdsErrorView> {
    match params.field(key) {
        None => bad("missing required param: "@ + key),
        Some(value) => match number(value) {
            Some(n) => Ok(n),
            None => bad("invalid numeric param: "@ + key),
        },
    }
}

/// A parameter that may be missing but has to be a number where it is there.
pub open spec fn optional(params: JsonView, key: Seq<char>) -> Result<Option<u64>, NdsErrorView> {
    match params.field(key) {
        None => Ok(None),
        Some(value) => match number(value) {
            Some(n) => Ok(Some(n)),
            None => bad("invalid numeric param: "@ + key),
        },
    }
}

/// Reads a parameter that has to be there and to be a number.
pub fn required_num(params: &Json, key: &str) -> (r: Result<u64, NdsBridgeError>)
    ensures
        nds::plain(r) == required(params@, key@),
{
    match params.get(key) {
        None => Err(NdsBridgeError::BadParams(text::join("missing required param: ", key))),
        Some(value) => match parse_num(value) {
            Some(n) => Ok(n),
            None => Err(NdsBridgeError::BadParams(text::join("invalid numeric param: ", key))),
        },
    }
}

/// Reads a parameter that may be missing but has to be a number where it is there.
pub fn optional_num(params: &Json, key: &str) -> (r: Result<Option<u64>, NdsBridgeError>)
    ensures
        nds::plain(r) == optional(params@, key@),
{
    match params.get(key) {
        None => Ok(None),
        Some(value) => match parse_num(value) {
            Some(n) => Ok(Some(n)),
            None => Err(NdsBridgeError::BadParams(text::join("invalid numeric param: ", key))),
        },
    }
}

/// A parameter that has to be a text.
pub open spec fn required_text(params: JsonView, key: Seq<char>) -> Result<
    Seq<char>,
    NdsErrorView,
> {
    match params.text_field(key) {
        Some(s) => Ok(s),
        None => bad("missing required param: "@ + key),
    }
}

/// Reads a parameter that has to be a text.
pub fn required_str(params: &Json, key: &str) -> (r: Result<String, NdsBridgeError>)
    ensures
        nds::shown(r) == required_text(params@, key@),
{
    match params.get_str(key) {
        Some(s) => Ok(s.to_owned()),
        None => Err(NdsBridgeError::BadParams(text::join("missing required param: ", key))),
    }
}

/// What a request says of its controller port, of which there is only the first.
pub open spec fn port_check(params: JsonView) -> Result<(), NdsErrorView> {
    match optional(params, "port"@) {
        Err(e) => Err(e),
        Ok(Some(port)) => if port != 0 {
            bad(
                ("NDS input supports only controller port 0 (got "@ + text::decimal(port as int))
                    + ")"@,
            )
        } else {
            Ok(())
        },
        Ok(None) => Ok(()),
    }
}

/// Refuses any controller port but the first.
pub fn require_input_port_zero(params: &Json) -> (r: Result<(), NdsBridgeError>)
    ensures
        nds::plain(r) == port_check(params@),
{
    match optional_num(params, "port")? {
        Some(port) => if port != 0 {
            let m = text::join(
                "NDS input supports only controller port 0 (got ",
                text::decimal_of(port).as_str(),
            );
            Err(NdsBridgeError::BadParams(text::join(m.as_str(), ")")))
        } else {
            Ok(())
        },
        None => Ok(()),
    }
}

/// A kind of memory: a window of a core's bus.
#[derive(Debug, Clone, Copy, PartialEq, Eq, Structural)]
pub struct NdsRegion {
    pub base: u64,
    pub size: u64,
    pub cpu: CpuId,
    /// Whether a dump holds it as a whole.
    pub dumpable: bool,
}

/// The shared main memory.
pub open spec fn main_region() -> NdsRegion {
    NdsRegion { base: 0x0200_0000, size: 0x0040_0000, cpu: CpuId::Arm9, dumpable: true }
}

/// The whole bus of a core.
pub open spec fn bus_region(cpu: CpuId) -> NdsRegion {
    NdsRegion { base: 0, size: 0x1_0000_0000, cpu, dumpable: false }
}

/// The kind of memory of a name.
pub open spec fn region_of(name: Seq<char>) -> Option<NdsRegion> {
    if name == "main"@ {
        Some(main_region())
    } else if name == "arm9"@ {
        Some(bus_region(CpuId::Arm9))
    } else if name == "arm7"@ {
        Some(bus_region(CpuId::Arm7))
    } else {
        None
    }
}

/// The kind of memory of a name.
pub fn memory_region(name: &str) -> (r: Option<NdsRegion>)
    ensures
        r == region_of(name@),
{
    if text::same(name, "main") {
        Some(NdsRegion { base: 0x0200_0000, size: 0x0040_0000, cpu: CpuId::Arm9, dumpable: true })
    } else if text::same(name, "arm9") {
        Some(NdsRegion { base: 0, size: 0x1_0000_0000, cpu: CpuId::Arm9, dumpable: false })
    } else if text::same(name, "arm7") {
        Some(NdsRegion { base: 0, size: 0x1_0000_0000, cpu: CpuId::Arm7, dumpable: false })
    } else {
        None
    }
}

/// A refusal of a kind of memory.
pub open spec fn no_region<T>(name: Seq<char>) -> Result<T, NdsErrorView> {
    bad("unsupported memory_type: "@ + name)
}

/// The kind of memory of a name, or a refusal.
pub fn require_region(name: &str) -> (r: Result<NdsRegion, NdsBridgeError>)
    ensures
        nds::plain(r) == (match region_of(name@) {
            Some(region) => Ok(region),
            None => no_region(name@),
        }),
{
    match memory_region(name) {
        Some(region) => Ok(region),
        None => Err(NdsBridgeError::BadParams(text::join("unsupported memory_type: ", name))),
    }
}

/// The core that a request names, or a default.
pub open spec fn cpu_or(params: JsonView, default: CpuId) -> Result<CpuId, NdsErrorView> {
    match params.text_field("cpu"@) {
        None => Ok(default),
        Some(s) => if s == "arm9"@ {
            Ok(CpuId::Arm9)
        } else if s == "arm7"@ {
            Ok(CpuId::Arm7)
        } else {
            bad(("unsupported cpu: "@ + s) + "; valid: arm9, arm7"@)
        },
    }
}

/// The core that a request names, or a default.
pub fn cpu_from(params: &Json, default: CpuId) -> (r: Result<CpuId, NdsBridgeError>)
    ensures
        nds::plain(r) == cpu_or(params@, default),
{
    match params.get_str("cpu") {
        None => Ok(default),
        Some(s) => if text::same(s, "arm9") {
            Ok(CpuId::Arm9)
        } else if text::same(s, "arm7") {
            Ok(CpuId::Arm7)
        } else {
            let m = text::join("unsupported cpu: ", s);
            Err(NdsBridgeError::BadParams(text::join(m.as_str(), "; valid: arm9, arm7")))
        },
    }
}

/// The address of a request, by either of its names.
pub open spec fn offset_of(params: JsonView) -> Result<u64, NdsErrorView> {
    match optional(params, "address"@) {
        Err(e) => Err(e),
        Ok(Some(n)) => Ok(n),
        Ok(None) => match optional(params, "start"@) {
            Err(e) => Err(e),
            Ok(Some(n)) => Ok(n),
            Ok(None) => bad("missing required param: address"@),
        },
    }
}

/// The address of a request, by either of its names.
pub fn region_offset(params: &Json) -> (r: Result<u64, NdsBridgeError>)
    ensures
        nds::plain(r) == offset_of(params@),
{
    if let Some(value) = optional_num(params, "address")? {
        return Ok(value);
    }
    if let Some(value) = optional_num(params, "start")? {
        return Ok(value);
    }
    Err(NdsBridgeError::BadParams("missing required param: address".to_owned()))
}

/// The message that an access leaves its memory.
pub open spec fn range_message(name: Seq<char>, offset: u64, length: u64, size: u64) -> Seq<char> {
    let access = (((name + " access out of range: offset "@) + text::prefixed_hex(offset as nat))
        + "+"@) + text::prefixed_hex(length as nat);
    (access + " exceeds region size "@) + text::prefixed_hex(size as nat)
}

/// The message that an access leaves its memory.
pub fn range_text(name: &str, offset: u64, length: u64, size: u64) -> (r: String)
    ensures
        r@ == range_message(name@, offset, length, size),
{
    let m = text::join(name, " access out of range: offset ");
    let m = text::join(m.as_str(), text::prefixed_hex_of(offset).as_str());
    let m = text::join(m.as_str(), "+");
    let m = text::join(m.as_str(), text::prefixed_hex_of(length).as_str());
    let m = text::join(m.as_str(), " exceeds region size ");
    text::join(m.as_str(), text::prefixed_hex_of(size).as_str())
}

/// The kind of memory that a request names, the bus of the ARM9 where it names none.
pub open spec fn memory_type_of(params: JsonView) -> Seq<char> {
    match params.text_field("memory_type"@) {
        Some(s) => s,
        None => "arm9"@,
    }
}

/// The core and the bus address of an access of some bytes.
pub open spec fn routed(params: JsonView, length: u64) -> Result<(CpuId, u64), NdsErrorView> {
    let name = memory_type_of(params);
    match region_of(name) {
        None => no_region(name),
        Some(region) => match cpu_or(params, region.cpu) {
            Err(e) => Err(e),
            Ok(cpu) => match offset_of(params) {
                Err(e) => Err(e),
                Ok(offset) => {
                    let span = if length == 0 {
                        1
                    } else {
                        length
                    };
                    if offset + span > region.size {
                        bad(range_message(name, offset, length, region.size))
                    } else {
                        Ok((cpu, (region.base + offset) as u64))
                    }
                },
            },
        },
    }
}

/// Routes an access to its core. An access that leaves its memory is refused.
pub fn route(params: &Json, length: u64) -> (r: Result<(CpuId, u64), NdsBridgeError>)
    ensures
        nds::plain(r) == routed(params@, length),
        r matches Ok((_, address)) ==> address + length <= 0x2_0000_0000,
{
    let name = match params.get_str("memory_type") {
        Some(s) => s,
        None => "arm9",
    };
    let region = require_region(name)?;
    let cpu = cpu_from(params, region.cpu)?;
    let offset: u64 = region_offset(params)?;
    let span: u64 = if length == 0 {
        1
    } else {
        length
    };
    if span > region.size || offset > region.size - span {
        return Err(NdsBridgeError::BadParams(range_text(name, offset, length, region.size)));
    }
    Ok((cpu, region.base + offset))
}

/// The number of instructions that a request asks for, at least one.
pub open spec fn count_of(params: JsonView) -> Result<u64, NdsErrorView> {
    let given = match optional(params, "count"@) {
        Err(e) => Err(e),
        Ok(Some(n)) => Ok(n),
        Ok(None) => match optional(params, "n"@) {
            Err(e) => Err(e),
            Ok(Some(n)) => Ok(n),
            Ok(None) => match optional(params, "frames"@) {
                Err(e) => Err(e),
                Ok(Some(n)) => Ok(n),
                Ok(None) => Ok(1),
            },
        },
    };
    match given {
        Ok(n) => Ok(
            if n == 0 {
                1
            } else {
                n
            },
        ),
        Err(e) => Err(e),
    }
}

/// The number of instructions that a request asks for, at least one.
pub fn step_count(params: &Json) -> (r: Result<u64, NdsBridgeError>)
    ensures
        nds::plain(r) == count_of(params@),
{
    let given: u64 = match optional_num(params, "count")? {
        Some(n) => n,
        None => match optional_num(params, "n")? {
            Some(n) => n,
            None => match optional_num(params, "frames")? {
                Some(n) => n,
                None => 1,
            },
        },
    };
    if given == 0 {
        Ok(1)
    } else {
        Ok(given)
    }
}

/// The report of an input override, by the frames that are left of it.
pub open spec fn override_view(remaining: Option<i64>) -> JsonView {
    match remaining {
        None => JsonView::object().with("observable"@, JsonView::Bool(false)),
        Some(n) => if n == 0 {
            JsonView::object().with("observable"@, JsonView::Bool(true)).with(
                "engaged"@,
                JsonView::Bool(false),
            ).with("mode"@, JsonView::Str("native"@)).with(
                "remaining_frames"@,
                JsonView::Unsigned(0),
            )
        } else if n == -1 {
            JsonView::object().with("observable"@, JsonView::Bool(true)).with(
                "engaged"@,
                JsonView::Bool(true),
            ).with("mode"@, JsonView::Str("persistent"@))
        } else {
            JsonView::object().with("observable"@, JsonView::Bool(true)).with(
                "engaged"@,
                JsonView::Bool(true),
            ).with("mode"@, JsonView::Str("timed"@)).with("remaining_frames"@, JsonView::signed(n))
        },
    }
}

/// Reports an input override, by the frames that are left of it.
pub fn override_status_json(remaining: Option<i64>) -> (r: Json)
    ensures
        r@ == override_view(remaining),
{
    match remaining {
        None => Json::object().with("observable", Json::Bool(false)),
        Some(n) => {
            let seen = Json::object().with("observable", Json::Bool(true));
            if n == 0 {
                seen.with("engaged", Json::Bool(false)).with("mode", Json::text("native")).with(
                    "remaining_frames",
                    Json::Unsigned(0),
                )
            } else if n == -1 {
                seen.with("engaged", Json::Bool(true)).with("mode", Json::text("persistent"))
            } else {
                seen.with("engaged", Json::Bool(true)).with("mode", Json::text("timed")).with(
                    "remaining_frames",
                    Json::signed(n),
                )
            }
        },
    }
}

/// Whether a stop is the one of an interrupt of the bridge itself.
pub open spec fn is_interrupt(packet: Seq<char>) -> bool {
    gdb::is_stop(packet) && packet.len() >= 3 && packet[1] == '0' && packet[2] == '2'
}

/// Whether a stop is the one of an interrupt of the bridge itself, and so nothing to report.
pub fn is_interrupt_stop(packet: &str) -> (r: bool)
    ensures
        r == is_interrupt(packet@),
{
    let chars = text::chars_of(packet);
    gdb::is_stop_packet(packet) && chars.len() >= 3 && chars[1] == '0' && chars[2] == '2'
}

/// Whether a packet has the shape of a stop that no base64 reply can have.
pub open spec fn is_stray_stop(packet: Seq<char>) -> bool {
    ||| packet.len() == 3 && packet[0] == 'S' && encoding::is_hex_digit(packet[1])
        && encoding::is_hex_digit(packet[2])
    ||| packet.len() > 0 && packet[0] == 'T' && (packet.contains(';') || packet.contains(':'))
}

fn has_char(chars: &[char], c: char) -> (r: bool)
    ensures
        r == chars@.contains(c),
{
    let mut i: usize = 0;
    while i < chars.len()
        invariant
            i <= chars.len(),
            forall|k: int| 0 <= k < i ==> chars@[k] != c,
        decreases chars.len() - i,
    {
        if chars[i] == c {
            return true;
        }
        i += 1;
    }
    false
}

fn hex_digit(c: char) -> (r: bool)
    ensures
        r == encoding::is_hex_digit(c),
{
    ('0' <= c && c <= '9') || ('a' <= c && c <= 'f') || ('A' <= c && c <= 'F')
}

/// Whether a packet is a stop rather than a base64 reply. A base64 text may begin with `S` or
/// `T`, so only shapes that it cannot have count.
pub fn looks_like_stray_stop(packet: &str) -> (r: bool)
    ensures
        r == is_stray_stop(packet@),
{
    let chars = text::chars_of(packet);
    (chars.len() == 3 && chars[0] == 'S' && hex_digit(chars[1]) && hex_digit(chars[2])) || (
    chars.len() > 0 && chars[0] == 'T' && (has_char(chars.as_slice(), ';') || has_char(
        chars.as_slice(),
        ':',
    )))
}

/// Whether the reply of a packet is a stop itself.
pub open spec fn expects_stop(payload: Seq<char>) -> bool {
    payload == "c"@ || payload == "s"@ || payload == "?"@ || text::has_prefix(payload, "C"@)
        || text::has_prefix(payload, "S"@) || text::has_prefix(payload, "vCont"@)
}

/// Whether the reply of a packet is a stop itself.
pub fn command_expects_stop(payload: &str) -> (r: bool)
    ensures
        r == expects_stop(payload@),
{
    text::same(payload, "c") || text::same(payload, "s") || text::same(payload, "?")
        || text::starts_with(payload, "C") || text::starts_with(payload, "S") || text::starts_with(
        payload,
        "vCont",
    )
}

/// The event of a stop on a core.
pub open spec fn stop_view(stop: Seq<char>, cpu: CpuId) -> JsonView {
    JsonView::object().with("type"@, JsonView::Str("stop"@)).with(
        "signal"@,
        JsonView::Str(
            match text::byte_range(stop, 1, 3) {
                Some(signal) => signal,
                None => Seq::empty(),
            },
        ),
    ).with("raw"@, JsonView::Str(stop)).with("cpu"@, JsonView::Str(cpu.name()))
}

/// The event of a stop on a core.
pub fn stop_event(stop: &str, cpu: CpuId) -> (r: Json)
    ensures
        r@ == stop_view(stop@, cpu),
{
    let signal = match text::slice_bytes(stop, 1, 3) {
        Some(signal) => Json::text(signal),
        None => Json::Str(String::new()),
    };
    Json::object().with("type", Json::text("stop")).with("signal", signal).with(
        "raw",
        Json::text(stop),
    ).with("cpu", Json::text(cpu.as_str()))
}

} // verus!
