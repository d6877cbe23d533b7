//! Requests that read and write the machine: memory, registers, stepping, disassembly and the
//! call stack.

use vstd::prelude::*;
use crate::encoding;
use crate::gdb::GdbTransport;
use crate::json;
use crate::json::{Json, JsonView};
use crate::nds;
use crate::nds::bridge;
use crate::nds::bridge::{Cores, NdsBridge, Wires};
use crate::nds::commands;
use crate::nds::decode;
use crate::nds::support;
use crate::nds::support::NdsRegion;
use crate::nds::{CpuId, NdsBridgeError, NdsErrorView, MAX_FIND_LEN, MAX_READ_LEN, MAX_WRITE_LEN};
use crate::text;

verus! {

/// The message that a request moves too much.
pub open spec fn cap_message(verb: Seq<char>, length: int, most: u64) -> Seq<char> {
    let m = (((verb + " length "@) + text::prefixed_hex(length as nat)) + " exceeds the "@)
        + text::prefixed_hex(most as nat);
    ((m + " cap — "@) + verb) + " a large region in chunks (advance the start address)"@
}

fn cap_text(verb: &str, length: u64, most: u64) -> (r: String)
    ensures
        r@ == cap_message(verb@, length as int, most),
{
    let m = text::join(verb, " length ");
    let m = text::join(m.as_str(), text::prefixed_hex_of(length).as_str());
    let m = text::join(m.as_str(), " exceeds the ");
    let m = text::join(m.as_str(), text::prefixed_hex_of(most).as_str());
    let m = text::join(m.as_str(), " cap — ");
    let m = text::join(m.as_str(), verb);
    text::join(m.as_str(), " a large region in chunks (advance the start address)")
}

/// The core, the address and the length of a read.
pub open spec fn read_plan(params: JsonView) -> Result<(CpuId, u64, u64), NdsErrorView> {
    match support::required(params, "length"@) {
        Err(e) => Err(e),
        Ok(length) => if length > MAX_READ_LEN {
            support::bad(cap_message("read"@, length as int, MAX_READ_LEN))
        } else {
            match support::routed(params, length) {
                Err(e) => Err(e),
                Ok((cpu, address)) => Ok((cpu, address, length)),
            }
        },
    }
}

/// What a read comes to.
pub open spec fn read_memory_does<G: GdbTransport>(
    before: NdsBridge<G>,
    after: NdsBridge<G>,
    params: JsonView,
    r: Result<JsonView, NdsErrorView>,
) -> bool {
    match read_plan(params) {
        Err(e) => bridge::idle(before, after) && r == Err::<JsonView, _>(e),
        Ok((cpu, address, length)) => bridge::settles(
            before,
            after,
            bridge::read_on(after.wires(), before.cores(), cpu, address, length),
            |hex: Seq<char>|
                Ok(
                    JsonView::object().with("hex"@, JsonView::Str(hex)).with(
                        "cpu"@,
                        JsonView::Str(cpu.name()),
                    ),
                ),
            r,
        ),
    }
}

/// The core, the address, the text and the size of a write.
pub open spec fn write_plan(params: JsonView) -> Result<(CpuId, u64, Seq<char>, u64), NdsErrorView> {
    match support::required_text(params, "hex"@) {
        Err(e) => Err(e),
        Ok(hex) => if vstd::utf8::encode_utf8(hex).len() % 2 != 0 {
            support::bad("hex must have even length"@)
        } else {
            match encoding::hex_bytes(hex) {
                None => support::bad("hex decode failed"@),
                Some(bytes) => if bytes.len() > MAX_WRITE_LEN {
                    support::bad(cap_message("write"@, bytes.len() as int, MAX_WRITE_LEN))
                } else {
                    match support::routed(params, bytes.len() as u64) {
                        Err(e) => Err(e),
                        Ok((cpu, address)) => Ok((cpu, address, hex, bytes.len() as u64)),
                    }
                },
            }
        },
    }
}

/// What a write comes to.
pub open spec fn write_memory_does<G: GdbTransport>(
    before: NdsBridge<G>,
    after: NdsBridge<G>,
    params: JsonView,
    r: Result<JsonView, NdsErrorView>,
) -> bool {
    match write_plan(params) {
        Err(e) => bridge::idle(before, after) && r == Err::<JsonView, _>(e),
        Ok((cpu, address, hex, size)) => bridge::settles(
            before,
            after,
            bridge::write_on(after.wires(), before.cores(), cpu, address, hex),
            |done: ()|
                Ok(
                    JsonView::object().with("written"@, JsonView::Unsigned(size)).with(
                        "cpu"@,
                        JsonView::Str(cpu.name()),
                    ),
                ),
            r,
        ),
    }
}

/// What a search looks for, and where.
pub struct FindPlan {
    pub memory_type: Seq<char>,
    pub region: NdsRegion,
    pub pattern: Seq<u8>,
    pub start: u64,
    /// The bytes that are looked through.
    pub scanned: u64,
    /// Whether fewer bytes are looked through than asked for.
    pub truncated: bool,
    pub most: u64,
    pub align: u64,
}

/// A search for a pattern, as a request asks for it.
struct PatternScan {
    memory_type: String,
    region: NdsRegion,
    pattern: Vec<u8>,
    start: u64,
    scanned: u64,
    truncated: bool,
    most: u64,
    align: u64,
}

impl View for PatternScan {
    type V = FindPlan;

    closed spec fn view(&self) -> FindPlan {
        FindPlan {
            memory_type: self.memory_type@,
            region: self.region,
            pattern: self.pattern@,
            start: self.start,
            scanned: self.scanned,
            truncated: self.truncated,
            most: self.most,
            align: self.align,
        }
    }
}

/// A number of a request, or a default.
pub open spec fn or_default(params: JsonView, key: Seq<char>, default: u64) -> Result<
    u64,
    NdsErrorView,
> {
    match support::optional(params, key) {
        Err(e) => Err(e),
        Ok(Some(n)) => Ok(n),
        Ok(None) => Ok(default),
    }
}

fn number_or(params: &Json, key: &str, default: u64) -> (r: Result<u64, NdsBridgeError>)
    ensures
        nds::plain(r) == or_default(params@, key@, default),
{
    match support::optional_num(params, key)? {
        Some(n) => Ok(n),
        None => Ok(default),
    }
}

/// A number brought between two bounds.
pub open spec fn between(n: u64, least: u64, most: u64) -> u64 {
    if n < least {
        least
    } else if n > most {
        most
    } else {
        n
    }
}

fn clamp(n: u64, least: u64, most: u64) -> (r: u64)
    ensures
        r == between(n, least, most),
{
    if n < least {
        least
    } else if n > most {
        most
    } else {
        n
    }
}

/// The kind of memory that a search names, main memory where it names none.
pub open spec fn find_type(params: JsonView) -> Seq<char> {
    match params.text_field("memory_type"@) {
        Some(s) => s,
        None => "main"@,
    }
}

/// What is left of a region from a place on.
pub open spec fn left_of(region: NdsRegion, start: u64) -> u64 {
    if start >= region.size {
        0
    } else {
        (region.size - start) as u64
    }
}

/// The length of a search within its region.
pub open spec fn window(region: NdsRegion, start: u64, wanted: u64) -> u64 {
    if wanted < left_of(region, start) {
        wanted
    } else {
        left_of(region, start)
    }
}

/// What a search looks for, and where.
pub open spec fn find_plan(params: JsonView) -> Result<FindPlan, NdsErrorView> {
    let memory_type = find_type(params);
    match support::region_of(memory_type) {
        None => support::no_region(memory_type),
        Some(region) => match support::required_text(params, "hex"@) {
            Err(e) => Err(e),
            Ok(hex) => match encoding::hex_bytes(hex) {
                None => support::bad("hex decode failed"@),
                Some(pattern) => if pattern.len() == 0 {
                    support::bad("hex must contain at least one byte"@)
                } else {
                    match or_default(params, "start"@, 0) {
                        Err(e) => Err(e),
                        Ok(start) => match or_default(params, "length"@, left_of(region, start)) {
                            Err(e) => Err(e),
                            Ok(wanted) => match or_default(params, "max_matches"@, 256) {
                                Err(e) => Err(e),
                                Ok(most) => match or_default(params, "align"@, 1) {
                                    Err(e) => Err(e),
                                    Ok(align) => {
                                        let length = window(region, start, wanted);
                                        Ok(
                                            FindPlan {
                                                memory_type,
                                                region,
                                                pattern,
                                                start,
                                                scanned: if length > MAX_FIND_LEN {
                                                    MAX_FIND_LEN
                                                } else {
                                                    length
                                                },
                                                truncated: length > MAX_FIND_LEN,
                                                most: between(most, 1, 4096),
                                                align: if align == 0 {
                                                    1
                                                } else {
                                                    align
                                                },
                                            },
                                        )
                                    },
                                },
                            },
                        },
                    }
                },
            },
        },
    }
}

/// The report of a search over some bytes.
pub open spec fn find_report(plan: FindPlan, bytes: Seq<u8>) -> JsonView {
    let places = decode::hits(bytes, plan.pattern, plan.align);
    let found = decode::matches_from(places, plan.start, plan.most as nat);
    let more = places.len() > plan.most;
    JsonView::object().with("matches"@, json::number_array(found)).with(
        "count"@,
        JsonView::Unsigned(found.len() as u64),
    ).with("truncated"@, JsonView::Bool(plan.truncated || more)).with(
        "truncated_scan"@,
        JsonView::Bool(plan.truncated),
    ).with("truncated_matches"@, JsonView::Bool(more)).with(
        "scanned"@,
        JsonView::Unsigned(plan.scanned),
    ).with("start"@, JsonView::Unsigned(plan.start)).with(
        "memory_type"@,
        JsonView::Str(plan.memory_type),
    ).with("cpu"@, JsonView::Str(plan.region.cpu.name()))
}

/// Reads the request for a search.
fn scan_of(params: &Json) -> (r: Result<PatternScan, NdsBridgeError>)
    ensures
        match r {
            Ok(scan) => find_plan(params@) == Ok::<_, NdsErrorView>(scan@),
            Err(e) => find_plan(params@) == Err::<FindPlan, _>(e@),
        },
        r matches Ok(scan) ==> {
            &&& scan.pattern@.len() > 0
            &&& scan.align > 0
            &&& scan.most <= 4096
            &&& scan.scanned > 0 ==> scan.start + scan.scanned <= scan.region.size
            &&& scan.scanned <= MAX_FIND_LEN
        },
{
    let memory_type = match params.get_str("memory_type") {
        Some(s) => s,
        None => "main",
    };
    let region = support::require_region(memory_type)?;
    let hex = support::required_str(params, "hex")?;
    let pattern = match encoding::hex_decode(hex.as_str()) {
        Some(pattern) => pattern,
        None => {
            return Err(NdsBridgeError::BadParams("hex decode failed".to_owned()));
        },
    };
    if pattern.len() == 0 {
        return Err(NdsBridgeError::BadParams("hex must contain at least one byte".to_owned()));
    }
    let start: u64 = number_or(params, "start", 0)?;
    let left: u64 = if start >= region.size {
        0
    } else {
        region.size - start
    };
    let wanted: u64 = number_or(params, "length", left)?;
    let most: u64 = clamp(number_or(params, "max_matches", 256)?, 1, 4096);
    let align: u64 = number_or(params, "align", 1)?;
    let length: u64 = if wanted < left {
        wanted
    } else {
        left
    };
    let truncated = length > MAX_FIND_LEN;
    Ok(
        PatternScan {
            memory_type: memory_type.to_owned(),
            region,
            pattern,
            start,
            scanned: if truncated {
                MAX_FIND_LEN
            } else {
                length
            },
            truncated,
            most,
            align: if align == 0 {
                1
            } else {
                align
            },
        },
    )
}

/// Tells what a search came to.
fn describe_scan(scan: &PatternScan, bytes: &[u8]) -> (r: Json)
    requires
        scan.pattern@.len() > 0,
        scan.align > 0,
        scan.most <= 4096,
        bytes@.len() > 0 ==> scan.start + bytes@.len() <= u64::MAX,
    ensures
        r@ == find_report(scan@, bytes@),
{
    let (found, more) = if bytes.len() == 0 {
        (Vec::new(), false)
    } else {
        decode::search(
            bytes,
            scan.pattern.as_slice(),
            scan.align,
            scan.start,
            scan.most as usize,
        )
    };
    assert(found@ =~= decode::matches_from(
        decode::hits(bytes@, scan@.pattern, scan@.align),
        scan@.start,
        scan@.most as nat,
    ));
    Json::object().with("matches", Json::numbers(found.as_slice())).with(
        "count",
        Json::Unsigned(found.len() as u64),
    ).with("truncated", Json::Bool(scan.truncated || more)).with(
        "truncated_scan",
        Json::Bool(scan.truncated),
    ).with("truncated_matches", Json::Bool(more)).with(
        "scanned",
        Json::Unsigned(scan.scanned),
    ).with("start", Json::Unsigned(scan.start)).with(
        "memory_type",
        Json::text(scan.memory_type.as_str()),
    ).with("cpu", Json::text(scan.region.cpu.as_str()))
}

/// What a search comes to.
pub open spec fn find_pattern_does<G: GdbTransport>(
    before: NdsBridge<G>,
    after: NdsBridge<G>,
    params: JsonView,
    r: Result<JsonView, NdsErrorView>,
) -> bool {
    match find_plan(params) {
        Err(e) => bridge::idle(before, after) && r == Err::<JsonView, _>(e),
        Ok(plan) => if plan.scanned == 0 {
            bridge::idle(before, after) && r == Ok::<_, NdsErrorView>(
                find_report(plan, Seq::empty()),
            )
        } else {
            bridge::settles(
                before,
                after,
                bridge::snapshot_on(
                    after.wires(),
                    before.cores(),
                    plan.region.cpu,
                    (plan.region.base + plan.start) as u64,
                    plan.scanned,
                ),
                |bytes: Seq<u8>| Ok(find_report(plan, bytes)),
                r,
            )
        },
    }
}

/// What reading the registers comes to.
pub open spec fn get_state_does<G: GdbTransport>(
    before: NdsBridge<G>,
    after: NdsBridge<G>,
    params: JsonView,
    r: Result<JsonView, NdsErrorView>,
) -> bool {
    match support::cpu_or(params, CpuId::Arm9) {
        Err(e) => bridge::idle(before, after) && r == Err::<JsonView, _>(e),
        Ok(cpu) => bridge::settles(
            before,
            after,
            bridge::regs_on(after.wires(), before.cores(), cpu),
            |hex: Seq<char>|
                Ok(
                    JsonView::object().with("cpu"@, JsonView::Str(cpu.name())).with(
                        "state"@,
                        decode::state_of(hex),
                    ),
                ),
            r,
        ),
    }
}

/// What a step request says of its unit: only instructions can be stepped.
pub open spec fn unit_check(params: JsonView) -> Result<(), NdsErrorView> {
    match params.text_field("unit"@) {
        Some(unit) => if unit == "instructions"@ {
            Ok(())
        } else {
            Err(
                NdsErrorView::Unsupported(
                    ("step unit="@ + unit) + " (nds bridge steps by instructions only)"@,
                ),
            )
        },
        None => if params.field("frames"@) is Some {
            Err(NdsErrorView::Unsupported(frames_message()))
        } else {
            Ok(())
        },
    }
}

/// The message that frames cannot be stepped.
pub open spec fn frames_message() -> Seq<char> {
    "nds bridge: 프레임 step 미지원 — GDB-RSP엔 프레임 개념이 없다. 명령 단위 진행은 step(unit=instructions)를 쓰라. DeSmuME fork도 frame-run primitive를 제공하지 않는다"@
}

/// The time that a step request has, in nanoseconds.
pub const STEP_BUDGET: u64 = 250_000_000_000;

/// The report of some steps.
pub open spec fn step_report(cpu: CpuId, count: u64, state: JsonView) -> JsonView {
    JsonView::object().with("status"@, JsonView::Str("completed"@)).with(
        "unit"@,
        JsonView::Str("instructions"@),
    ).with("count"@, JsonView::Unsigned(count)).with("cpu"@, JsonView::Str(cpu.name())).with(
        "pc"@,
        match state.unsigned_field("cpu.pc"@) {
            Some(pc) => JsonView::Unsigned(pc),
            None => JsonView::Null,
        },
    ).with("state"@, state)
}

/// What stepping a core comes to. Afterwards both cores count as frozen.
pub open spec fn step_cpu_does<G: GdbTransport>(
    before: NdsBridge<G>,
    after: NdsBridge<G>,
    params: JsonView,
    count: u64,
    budget: u64,
    r: Result<JsonView, NdsErrorView>,
) -> bool {
    match support::cpu_or(params, CpuId::Arm9) {
        Err(e) => bridge::idle(before, after) && r == Err::<JsonView, _>(e),
        Ok(cpu) => bridge::kept(before, after) && match bridge::step_on(
            after.wires(),
            before.cores(),
            cpu,
            count,
            budget,
        ) {
            None => false,
            Some((cores, Err(e))) => after.cores() == cores && r == Err::<JsonView, _>(e),
            Some((cores, Ok(state))) => after.cores() == bridge::all_frozen(cores, true) && r
                == Ok::<_, NdsErrorView>(step_report(cpu, count, state)),
        },
    }
}

/// What a step of instructions comes to.
pub open spec fn step_instructions_does<G: GdbTransport>(
    before: NdsBridge<G>,
    after: NdsBridge<G>,
    params: JsonView,
    r: Result<JsonView, NdsErrorView>,
) -> bool {
    match support::count_of(params) {
        Err(e) => bridge::idle(before, after) && r == Err::<JsonView, _>(e),
        Ok(count) => step_cpu_does(before, after, params, count, STEP_BUDGET, r),
    }
}

/// What a step in a unit comes to.
pub open spec fn step_does<G: GdbTransport>(
    before: NdsBridge<G>,
    after: NdsBridge<G>,
    params: JsonView,
    r: Result<JsonView, NdsErrorView>,
) -> bool {
    match unit_check(params) {
        Err(e) => bridge::idle(before, after) && r == Err::<JsonView, _>(e),
        Ok(()) => step_instructions_does(before, after, params, r),
    }
}

/// The bytes as text, with a mark in place of what is no UTF-8.
pub uninterp spec fn lossy_text(bytes: Seq<u8>) -> Seq<char>;

/// `String::from_utf8_lossy` gives the text of bytes, with the replacement character in place of
/// what is no UTF-8. Of bytes that are UTF-8 it gives the text that they stand for.
#[verifier::external_body]
fn read_lossy(bytes: &[u8]) -> (r: String)
    ensures
        r@ == lossy_text(bytes@),
        vstd::utf8::valid_utf8(bytes@) ==> r@ == vstd::utf8::decode_utf8(bytes@),
{
    String::from_utf8_lossy(bytes).into_owned()
}

/// The core, the address, the count and the mode of a disassembly.
pub open spec fn disasm_plan(params: JsonView) -> Result<
    (CpuId, u64, u64, Seq<char>),
    NdsErrorView,
> {
    match support::cpu_or(params, CpuId::Arm9) {
        Err(e) => Err(e),
        Ok(cpu) => match support::offset_of(params) {
            Err(e) => Err(e),
            Ok(address) => match or_default(params, "count"@, 8) {
                Err(e) => Err(e),
                Ok(count) => match params.text_field("mode"@) {
                    None => Ok((cpu, address, between(count, 1, 4096), "auto"@)),
                    Some(mode) => if mode == "auto"@ || mode == "arm"@ || mode == "thumb"@ {
                        Ok((cpu, address, between(count, 1, 4096), mode))
                    } else {
                        support::bad(
                            ("unsupported disassemble mode: "@ + mode)
                                + "; valid: arm, thumb, auto"@,
                        )
                    },
                },
            },
        },
    }
}

/// The report of the bytes of a disassembly.
pub open spec fn rows_report(bytes: Seq<u8>, cpu: CpuId, count: u64, mode: Seq<char>) -> Result<
    JsonView,
    NdsErrorView,
> {
    let rows = decode::rows_of(text::pieces(lossy_text(bytes), '\n'), count as nat);
    if rows.len() == 0 {
        commands::fault("disassemble: DeSmuME produced no instructions"@)
    } else {
        Ok(
            JsonView::object().with("instructions"@, JsonView::Array(rows)).with(
                "cpu"@,
                JsonView::Str(cpu.name()),
            ).with("mode"@, JsonView::Str(mode)),
        )
    }
}

/// The report of the reply to a disassembly.
pub open spec fn disasm_report(reply: Seq<char>, cpu: CpuId, count: u64, mode: Seq<char>) -> Result<
    JsonView,
    NdsErrorView,
> {
    match encoding::base64_result(text::trimmed(reply)) {
        Err(f) => commands::fault("disassemble: base64 decode failed: "@ + f),
        Ok(bytes) => rows_report(bytes, cpu, count, mode),
    }
}

/// What a disassembly comes to.
pub open spec fn disassemble_does<G: GdbTransport>(
    before: NdsBridge<G>,
    after: NdsBridge<G>,
    params: JsonView,
    r: Result<JsonView, NdsErrorView>,
) -> bool {
    match disasm_plan(params) {
        Err(e) => bridge::idle(before, after) && r == Err::<JsonView, _>(e),
        Ok((cpu, address, count, mode)) => bridge::settles(
            before,
            after,
            bridge::disasm_on(after.wires(), before.cores(), cpu, address, count, mode),
            |reply: Seq<char>| disasm_report(reply, cpu, count, mode),
            r,
        ),
    }
}

/// Reads the rows of a disassembly out of its bytes.
pub fn describe_rows(bytes: &[u8], cpu: CpuId, count: u64, mode: &str) -> (r: Result<
    Json,
    NdsBridgeError,
>)
    requires
        count <= 4096,
    ensures
        nds::shown(r) == rows_report(bytes@, cpu, count, mode@),
{
    let rows = decode::parse_disasm_rows(read_lossy(bytes).as_str(), count as usize);
    if rows.len() == 0 {
        return Err(
            NdsBridgeError::Emulator("disassemble: DeSmuME produced no instructions".to_owned()),
        );
    }
    Ok(
        Json::object().with("instructions", Json::array(rows)).with(
            "cpu",
            Json::text(cpu.as_str()),
        ).with("mode", Json::text(mode)),
    )
}

/// The most frames that a stack walk follows.
pub const MAX_STACK_FRAMES: u64 = 64;

/// A frame of a call stack.
pub open spec fn frame_view(pc: u64, kind: Seq<char>) -> JsonView {
    JsonView::object().with("pc"@, JsonView::Unsigned(pc)).with("kind"@, JsonView::Str(kind)).with(
        "in_code_region"@,
        JsonView::Bool(decode::in_code(pc)),
    )
}

fn frame_json(pc: u64, kind: &str) -> (r: Json)
    ensures
        r@ == frame_view(pc, kind@),
{
    Json::object().with("pc", Json::Unsigned(pc)).with("kind", Json::text(kind)).with(
        "in_code_region",
        Json::Bool(decode::nds_in_code_region(pc)),
    )
}

/// Reading the return address and the frame pointer that a frame saved.
pub open spec fn links_on(w: Wires, s: Cores, id: CpuId, fp: u64) -> Option<
    (Cores, Option<(u64, u64)>),
> {
    match bridge::pointer_on(w, s, id, (fp - 4) as u64) {
        None => None,
        Some((t, lr)) => match bridge::pointer_on(w, t, id, (fp - 12) as u64) {
            None => None,
            Some((u, next)) => Some(
                (
                    u,
                    if lr is Some && next is Some {
                        Some((lr->0, next->0))
                    } else {
                        None
                    },
                ),
            ),
        },
    }
}

/// Following the chain of frame pointers, as long as it looks like one: it lies in memory at or
/// above the stack pointer and grows, and its return addresses are ones of code.
pub open spec fn chain_on(
    w: Wires,
    s: Cores,
    id: CpuId,
    fp: u64,
    sp: u64,
    depth: nat,
    frames: Seq<JsonView>,
) -> Option<(Cores, Seq<JsonView>)>
    decreases MAX_STACK_FRAMES - depth,
{
    if depth >= MAX_STACK_FRAMES || !decode::in_ram(fp) || (sp != 0 && fp < sp) {
        Some((s, frames))
    } else {
        match links_on(w, s, id, fp) {
            None => None,
            Some((t, None)) => Some((t, frames)),
            Some((t, Some((lr, next)))) => if !decode::in_code(lr) {
                Some((t, frames))
            } else if next <= fp || !decode::in_ram(next) {
                Some((t, frames.push(frame_view(lr, "fp-walk"@))))
            } else {
                chain_on(w, t, id, next, sp, depth + 1, frames.push(frame_view(lr, "fp-walk"@)))
            },
        }
    }
}

/// A register of a state, zero where it is not known.
pub open spec fn register_of(state: JsonView, name: Seq<char>) -> u64 {
    match state.unsigned_field(name) {
        Some(n) => n,
        None => 0,
    }
}

/// The frames that the registers alone tell: the program counter, and the link register where it
/// is set.
pub open spec fn first_frames(state: JsonView) -> Seq<JsonView> {
    let top = seq![frame_view(register_of(state, "cpu.pc"@), "pc"@)];
    let lr = register_of(state, "cpu.lr"@);
    if lr != 0 {
        top.push(frame_view(lr, "lr"@))
    } else {
        top
    }
}

/// Reading a call stack.
pub open spec fn stack_on(w: Wires, s: Cores, id: CpuId) -> Option<
    (Cores, Result<Seq<JsonView>, NdsErrorView>),
> {
    match bridge::regs_on(w, s, id) {
        None => None,
        Some((t, Err(e))) => Some((t, Err(e))),
        Some((t, Ok(packet))) => {
            let state = decode::state_of(packet);
            match chain_on(
                w,
                t,
                id,
                register_of(state, "cpu.r11"@),
                register_of(state, "cpu.sp"@),
                0,
                first_frames(state),
            ) {
                None => None,
                Some((u, frames)) => Some((u, Ok(frames))),
            }
        },
    }
}

/// The note that goes with a call stack.
pub open spec fn stack_note() -> Seq<char> {
    "frame 0 = pc; frame 1 = lr (valid only until the current function overwrites it); deeper frames walk the APCS r11 frame-pointer chain and end early when the game does not keep r11 as a frame pointer. PCs are sanity-checked against NDS code regions."@
}

/// What a call stack comes to.
pub open spec fn call_stack_does<G: GdbTransport>(
    before: NdsBridge<G>,
    after: NdsBridge<G>,
    params: JsonView,
    r: Result<JsonView, NdsErrorView>,
) -> bool {
    match support::cpu_or(params, CpuId::Arm9) {
        Err(e) => bridge::idle(before, after) && r == Err::<JsonView, _>(e),
        Ok(cpu) => bridge::settles(
            before,
            after,
            stack_on(after.wires(), before.cores(), cpu),
            |frames: Seq<JsonView>|
                Ok(
                    JsonView::object().with("frames"@, JsonView::Array(frames)).with(
                        "cpu"@,
                        JsonView::Str(cpu.name()),
                    ).with("method"@, JsonView::Str("lr+fp-walk (best-effort)"@)).with(
                        "note"@,
                        JsonView::Str(stack_note()),
                    ),
                ),
            r,
        ),
    }
}

fn register(state: &Json, name: &str) -> (r: u64)
    ensures
        r == register_of(state@, name@),
{
    match state.get_u64(name) {
        Some(n) => n,
        None => 0,
    }
}

impl<G: GdbTransport> NdsBridge<G> {
    /// Reads memory.
    pub fn read_memory(&mut self, params: &Json) -> (r: Result<Json, NdsBridgeError>)
        ensures
            read_memory_does(*old(self), *final(self), params@, nds::shown(r)),
    {
        let length: u64 = support::required_num(params, "length")?;
        if length > MAX_READ_LEN {
            return Err(NdsBridgeError::BadParams(cap_text("read", length, MAX_READ_LEN)));
        }
        let (cpu, address) = support::route(params, length)?;
        let read = self.read_of(cpu, address, length);
        proof {
            bridge::wires_stay(self.wires());
        }
        let hex = read?;
        Ok(
            Json::object().with("hex", Json::text(hex.as_str())).with(
                "cpu",
                Json::text(cpu.as_str()),
            ),
        )
    }

    /// Writes memory.
    pub fn write_memory(&mut self, params: &Json) -> (r: Result<Json, NdsBridgeError>)
        ensures
            write_memory_does(*old(self), *final(self), params@, nds::shown(r)),
    {
        let hex = support::required_str(params, "hex")?;
        if hex.as_str().as_bytes().len() % 2 != 0 {
            return Err(NdsBridgeError::BadParams("hex must have even length".to_owned()));
        }
        let bytes = match encoding::hex_decode(hex.as_str()) {
            Some(bytes) => bytes,
            None => {
                return Err(NdsBridgeError::BadParams("hex decode failed".to_owned()));
            },
        };
        let size: u64 = bytes.len() as u64;
        if size > MAX_WRITE_LEN {
            return Err(NdsBridgeError::BadParams(cap_text("write", size, MAX_WRITE_LEN)));
        }
        let (cpu, address) = support::route(params, size)?;
        let written = self.write_of(cpu, address, hex.as_str());
        proof {
            bridge::wires_stay(self.wires());
        }
        written?;
        Ok(
            Json::object().with("written", Json::Unsigned(size)).with(
                "cpu",
                Json::text(cpu.as_str()),
            ),
        )
    }

    /// Searches memory for a pattern.
    pub fn find_pattern(&mut self, params: &Json) -> (r: Result<Json, NdsBridgeError>)
        ensures
            find_pattern_does(*old(self), *final(self), params@, nds::shown(r)),
    {
        let scan = scan_of(params)?;
        if scan.scanned == 0 {
            let nothing: Vec<u8> = Vec::new();
            assert(nothing@ =~= Seq::empty());
            return Ok(describe_scan(&scan, nothing.as_slice()));
        }
        let read = self.snapshot(scan.region.cpu, scan.region.base + scan.start, scan.scanned);
        proof {
            bridge::wires_stay(self.wires());
        }
        let bytes = read?;
        Ok(describe_scan(&scan, bytes.as_slice()))
    }

    /// Reads the registers.
    pub fn get_state(&mut self, params: &Json) -> (r: Result<Json, NdsBridgeError>)
        ensures
            get_state_does(*old(self), *final(self), params@, nds::shown(r)),
    {
        let cpu = support::cpu_from(params, CpuId::Arm9)?;
        let read = self.regs_of(cpu);
        proof {
            bridge::wires_stay(self.wires());
        }
        let hex = read?;
        Ok(
            Json::object().with("cpu", Json::text(cpu.as_str())).with(
                "state",
                decode::state_from_arm_regs_hex(hex.as_str()),
            ),
        )
    }

    /// Steps a core within a budget.
    pub fn step_cpu_with_budget(&mut self, params: &Json, count: u64, budget: u64) -> (r: Result<
        Json,
        NdsBridgeError,
    >)
        ensures
            step_cpu_does(*old(self), *final(self), params@, count, budget, nds::shown(r)),
    {
        let cpu = support::cpu_from(params, CpuId::Arm9)?;
        let stepped = self.step_of(cpu, count, budget);
        proof {
            bridge::wires_stay(self.wires());
        }
        let state = stepped?;
        self.set_scheduler_frozen(true);
        let pc = match state.get_u64("cpu.pc") {
            Some(pc) => Json::Unsigned(pc),
            None => Json::Null,
        };
        Ok(
            Json::object().with("status", Json::text("completed")).with(
                "unit",
                Json::text("instructions"),
            ).with("count", Json::Unsigned(count)).with("cpu", Json::text(cpu.as_str())).with(
                "pc",
                pc,
            ).with("state", state),
        )
    }

    /// Steps instructions.
    pub fn step_instructions(&mut self, params: &Json) -> (r: Result<Json, NdsBridgeError>)
        ensures
            step_instructions_does(*old(self), *final(self), params@, nds::shown(r)),
    {
        let count: u64 = support::step_count(params)?;
        self.step_cpu_with_budget(params, count, STEP_BUDGET)
    }

    /// Steps in the unit that a request names.
    pub fn step(&mut self, params: &Json) -> (r: Result<Json, NdsBridgeError>)
        ensures
            step_does(*old(self), *final(self), params@, nds::shown(r)),
    {
        match params.get_str("unit") {
            Some(unit) => if !text::same(unit, "instructions") {
                let m = text::join("step unit=", unit);
                return Err(
                    NdsBridgeError::Unsupported(
                        text::join(m.as_str(), " (nds bridge steps by instructions only)"),
                    ),
                );
            },
            None => if params.get("frames").is_some() {
                return Err(
                    NdsBridgeError::Unsupported(
                        "nds bridge: 프레임 step 미지원 — GDB-RSP엔 프레임 개념이 없다. 명령 단위 진행은 step(unit=instructions)를 쓰라. DeSmuME fork도 frame-run primitive를 제공하지 않는다".to_owned(),
                    ),
                );
            },
        }
        self.step_instructions(params)
    }

    /// Disassembles.
    pub fn disassemble(&mut self, params: &Json) -> (r: Result<Json, NdsBridgeError>)
        ensures
            disassemble_does(*old(self), *final(self), params@, nds::shown(r)),
    {
        let cpu = support::cpu_from(params, CpuId::Arm9)?;
        let address: u64 = support::region_offset(params)?;
        let count: u64 = clamp(number_or(params, "count", 8)?, 1, 4096);
        let mode = match params.get_str("mode") {
            None => "auto",
            Some(mode) => if text::same(mode, "auto") || text::same(mode, "arm") || text::same(
                mode,
                "thumb",
            ) {
                mode
            } else {
                let m = text::join("unsupported disassemble mode: ", mode);
                return Err(
                    NdsBridgeError::BadParams(
                        text::join(m.as_str(), "; valid: arm, thumb, auto"),
                    ),
                );
            },
        };
        let asked = self.disasm_of(cpu, address, count, mode);
        proof {
            bridge::wires_stay(self.wires());
        }
        let reply = asked?;
        match encoding::base64_decode(text::trim(reply.as_str()).as_str()) {
            Err(f) => Err(
                NdsBridgeError::Emulator(
                    text::join("disassemble: base64 decode failed: ", f.as_str()),
                ),
            ),
            Ok(bytes) => describe_rows(bytes.as_slice(), cpu, count, mode),
        }
    }

    fn saved_links(&mut self, id: CpuId, fp: u64) -> (r: Option<(u64, u64)>)
        requires
            0x1000 <= fp <= u32::MAX,
        ensures
            bridge::kept(*old(self), *final(self)),
            forall|w: Wires|
                bridge::wires_go_on(final(self).wires(), w) ==> #[trigger] links_on(
                    w,
                    old(self).cores(),
                    id,
                    fp,
                ) == Some((final(self).cores(), r)),
    {
        let ghost s = self.cores();
        let lr = self.pointer_of(id, fp - 4);
        let ghost w1 = self.wires();
        let ghost c1 = self.cores();
        let next = self.pointer_of(id, fp - 12);
        proof {
            bridge::wires_go_through(w1, self.wires());
            assert forall|w: Wires| bridge::wires_go_on(self.wires(), w) implies #[trigger] bridge::pointer_on(
                w,
                s,
                id,
                (fp - 4) as u64,
            ) == Some((c1, lr)) by {
                assert(bridge::wires_go_on(w1, w));
            }
        }
        match (lr, next) {
            (Some(lr), Some(next)) => Some((lr, next)),
            _ => None,
        }
    }

    #[verifier::spinoff_prover]
    #[verifier::rlimit(30)]
    fn follow_chain(&mut self, id: CpuId, fp: u64, sp: u64, frames: Vec<Json>) -> (r: Vec<Json>)
        ensures
            bridge::kept(*old(self), *final(self)),
            forall|w: Wires|
                bridge::wires_go_on(final(self).wires(), w) ==> #[trigger] chain_on(
                    w,
                    old(self).cores(),
                    id,
                    fp,
                    sp,
                    0,
                    json::views(frames@),
                ) == Some((final(self).cores(), json::views(r@))),
    {
        let ghost s = self.cores();
        let ghost first = json::views(frames@);
        let mut list = frames;
        let mut here: u64 = fp;
        let mut depth: u64 = 0;
        while depth < MAX_STACK_FRAMES && decode::nds_in_ram(here) && !(sp != 0 && here < sp)
            invariant
                depth <= MAX_STACK_FRAMES,
                s == old(self).cores(),
                first == json::views(frames@),
                bridge::kept(*old(self), *self),
                forall|w: Wires|
                    bridge::wires_go_on(self.wires(), w) ==> #[trigger] chain_on(
                        w,
                        s,
                        id,
                        fp,
                        sp,
                        0,
                        first,
                    ) == chain_on(
                        w,
                        self.cores(),
                        id,
                        here,
                        sp,
                        depth as nat,
                        json::views(list@),
                    ),
            decreases MAX_STACK_FRAMES - depth,
        {
            let ghost w0 = self.wires();
            let ghost c0 = self.cores();
            let ghost seen = json::views(list@);
            let links = self.saved_links(id, here);
            let ghost w1 = self.wires();
            let ghost c1 = self.cores();
            proof {
                bridge::wires_go_through(w0, w1);
                assert forall|w: Wires| bridge::wires_go_on(w1, w) implies {
                    &&& links_on(w, c0, id, here) == Some((c1, links))
                    &&& #[trigger] chain_on(w, s, id, fp, sp, 0, first) == chain_on(
                        w,
                        c0,
                        id,
                        here,
                        sp,
                        depth as nat,
                        seen,
                    )
                } by {
                    assert(bridge::wires_go_on(w0, w));
                }
            }
            let (lr, next) = match links {
                Some(pair) => pair,
                None => {
                    return list;
                },
            };
            if !decode::nds_in_code_region(lr) {
                return list;
            }
            let frame = frame_json(lr, "fp-walk");
            list.push(frame);
            assert(json::views(list@) =~= seen.push(frame@));
            if next <= here || !decode::nds_in_ram(next) {
                return list;
            }
            here = next;
            depth += 1;
        }
        list
    }

    /// Reads the call stack, as far as it can be told.
    pub fn call_stack(&mut self, params: &Json) -> (r: Result<Json, NdsBridgeError>)
        ensures
            call_stack_does(*old(self), *final(self), params@, nds::shown(r)),
    {
        let cpu = support::cpu_from(params, CpuId::Arm9)?;
        let ghost s = self.cores();
        let read = self.regs_of(cpu);
        let ghost w1 = self.wires();
        let ghost c1 = self.cores();
        proof {
            bridge::wires_stay(w1);
            assert(bridge::regs_on(w1, s, cpu) == Some((c1, nds::shown(read))));
        }
        let packet = read?;
        let state = decode::state_from_arm_regs_hex(packet.as_str());
        let mut frames: Vec<Json> = Vec::new();
        frames.push(frame_json(register(&state, "cpu.pc"), "pc"));
        let lr: u64 = register(&state, "cpu.lr");
        if lr != 0 {
            frames.push(frame_json(lr, "lr"));
        }
        assert(json::views(frames@) =~= first_frames(state@));
        let fp: u64 = register(&state, "cpu.r11");
        let sp: u64 = register(&state, "cpu.sp");
        let frames = self.follow_chain(cpu, fp, sp, frames);
        proof {
            bridge::wires_go_through(w1, self.wires());
            bridge::wires_stay(self.wires());
            assert(bridge::wires_go_on(w1, self.wires()));
            assert(bridge::regs_on(self.wires(), s, cpu) == Some((c1, nds::shown(read))));
        }
        Ok(
            Json::object().with("frames", Json::array(frames)).with(
                "cpu",
                Json::text(cpu.as_str()),
            ).with("method", Json::text("lr+fp-walk (best-effort)")).with(
                "note",
                Json::text(
                    "frame 0 = pc; frame 1 = lr (valid only until the current function overwrites it); deeper frames walk the APCS r11 frame-pointer chain and end early when the game does not keep r11 as a frame pointer. PCs are sanity-checked against NDS code regions.",
                ),
            ),
        )
    }
}

} // verus!
