//! Reading request parameters.

use vstd::prelude::*;
use crate::json::{Json, JsonView};
use crate::text;
use crate::n64;
use crate::n64::{N64Error, N64ErrorView, RDRAM_BASE, RDRAM_SIZE};

verus! {

/// The number that a text stands for: hexadecimal after `0x` or `$`, else decimal.
pub open spec fn text_number(s: Seq<char>) -> Option<u64> {
    let t = text::trimmed(s);
    if text::has_prefix(t, "0x"@) {
        text::u64_value(t.skip(2), 16)
    } else if text::has_prefix(t, "$"@) {
        text::u64_value(t.skip(1), 16)
    } else {
        text::u64_value(t, 10)
    }
}

/// The number that a parameter stands for, written as a number or as text.
pub open spec fn number(value: JsonView) -> Option<u64> {
    match value {
        JsonView::Unsigned(n) => Some(n),
        JsonView::Str(s) => text_number(s),
        _ => None,
    }
}

/// A parameter that has to be there and to be a number.
pub open spec fn required(params: JsonView, key: Seq<char>) -> Result<u64, N64ErrorView> {
    match params.field(key) {
        Some(value) => match number(value) {
            Some(n) => Ok(n),
            None => n64::bad_params("missing or invalid param: "@ + key),
        },
        None => n64::bad_params("missing or invalid param: "@ + key),
    }
}

/// A parameter that may be missing but has to be a number where it is there.
pub open spec fn optional(params: JsonView, key: Seq<char>) -> Result<Option<u64>, N64ErrorView> {
    match params.field(key) {
        Some(value) => match number(value) {
            Some(n) => Ok(Some(n)),
            None => n64::bad_params("invalid numeric param: "@ + key),
        },
        None => Ok(None),
    }
}

/// Reads a number written as text.
pub fn parse_number_text(raw: &str) -> (r: Option<u64>)
    ensures
        r == text_number(raw@),
{
    proof {
        reveal_strlit("0x");
        reveal_strlit("$");
    }
    let t = text::trim(raw);
    match text::strip_prefix(t.as_str(), "0x") {
        Some(hex) => text::parse_u64(hex.as_str(), 16),
        None => match text::strip_prefix(t.as_str(), "$") {
            Some(hex) => text::parse_u64(hex.as_str(), 16),
            None => text::parse_u64(t.as_str(), 10),
        },
    }
}

/// Reads a number written as a number or as text.
pub fn parse_num(value: &Json) -> (r: Option<u64>)
    ensures
        r == number(value@),
{
    match value {
        Json::Unsigned(n) => Some(*n),
        Json::Str(s) => parse_number_text(s.as_str()),
        _ => None,
    }
}

/// Reads a parameter that has to be there and to be a number.
pub fn required_num(params: &Json, key: &str) -> (r: Result<u64, N64Error>)
    ensures
        n64::gives(r, required(params@, key@)),
{
    if let Some(value) = params.get(key) {
        if let Some(n) = parse_num(value) {
            return Ok(n);
        }
    }
    Err(N64Error::BadParams(text::join("missing or invalid param: ", key)))
}

/// Reads a parameter that may be missing but has to be a number where it is there.
pub fn optional_num(params: &Json, key: &str) -> (r: Result<Option<u64>, N64Error>)
    ensures
        n64::gives(r, optional(params@, key@)),
{
    match params.get(key) {
        Some(value) => match parse_num(value) {
            Some(n) => Ok(Some(n)),
            None => Err(N64Error::BadParams(text::join("invalid numeric param: ", key))),
        },
        None => Ok(None),
    }
}

/// The memory type that a request names, RDRAM where it names none.
pub open spec fn memory_type(params: JsonView) -> Seq<char> {
    match params.text_field("memory_type"@) {
        Some(s) => s,
        None => "rdram"@,
    }
}

/// The virtual address of an access of `length` bytes to RDRAM, given by its offset.
pub open spec fn rdram_target(params: JsonView, length: u64) -> Result<u64, N64ErrorView> {
    if memory_type(params) != "rdram"@ {
        n64::bad_params("unsupported N64 memory_type: "@ + memory_type(params))
    } else {
        match required(params, "address"@) {
            Err(e) => Err(e),
            Ok(offset) => if offset + length <= RDRAM_SIZE {
                Ok((RDRAM_BASE + offset) as u64)
            } else {
                n64::bad_params(
                    (((("rdram access out of range: offset "@ + text::prefixed_hex(offset as nat))
                        + "+"@) + text::prefixed_hex(length as nat)) + " exceeds "@)
                        + text::prefixed_hex(RDRAM_SIZE as nat),
                )
            },
        }
    }
}

/// Checks an access of `length` bytes to RDRAM and gives its virtual address.
pub fn rdram_address(params: &Json, length: u64) -> (r: Result<u64, N64Error>)
    ensures
        n64::gives(r, rdram_target(params@, length)),
{
    let memory_type = match params.get_str("memory_type") {
        Some(s) => s,
        None => "rdram",
    };
    if !text::same(memory_type, "rdram") {
        return Err(N64Error::BadParams(text::join("unsupported N64 memory_type: ", memory_type)));
    }
    let offset: u64 = required_num(params, "address")?;
    match offset.checked_add(length) {
        Some(end) if end <= RDRAM_SIZE => Ok(RDRAM_BASE + offset),
        _ => {
            let m = text::join(
                "rdram access out of range: offset ",
                text::prefixed_hex_of(offset).as_str(),
            );
            let m = text::join(m.as_str(), "+");
            let m = text::join(m.as_str(), text::prefixed_hex_of(length).as_str());
            let m = text::join(m.as_str(), " exceeds ");
            let m = text::join(m.as_str(), text::prefixed_hex_of(RDRAM_SIZE).as_str());
            Err(N64Error::BadParams(m))
        },
    }
}

/// Whether a request is meant for the R4300, the only CPU that can be controlled.
pub open spec fn targets_r4300(params: JsonView) -> Result<(), N64ErrorView> {
    match params.text_field("cpu"@) {
        Some(cpu) => if cpu == "r4300"@ || cpu == "maincpu"@ {
            Ok(())
        } else {
            n64::bad_params(
                "N64 execution control currently supports the R4300 CPU only, got "@ + cpu,
            )
        },
        None => Ok(()),
    }
}

/// Refuses a request that names a CPU other than the R4300.
pub fn require_r4300(params: &Json) -> (r: Result<(), N64Error>)
    ensures
        n64::gives(r, targets_r4300(params@)),
{
    match params.get_str("cpu") {
        Some(cpu) => if text::same(cpu, "r4300") || text::same(cpu, "maincpu") {
            Ok(())
        } else {
            Err(
                N64Error::BadParams(
                    text::join(
                        "N64 execution control currently supports the R4300 CPU only, got ",
                        cpu,
                    ),
                ),
            )
        },
        None => Ok(()),
    }
}

} // verus!
