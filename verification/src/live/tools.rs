//! The tools: single calls with their parameters, and operations made of several calls on a
//! frozen machine.

use vstd::prelude::*;
use crate::encoding;
use crate::json;
use crate::json::{Json, JsonView};
use crate::live::cleanup::{input_params, input_request};
use crate::live::link;
use crate::live::link::{EmulatorLink, LinkError, LinkErrorView};
use crate::live::temporal::MAX_SYNC_ADVANCE_COUNT;
use crate::text;

verus! {

/// The most bytes that one call writes. In hexadecimal they fill half of the longest line that a
/// client may send.
pub const MAX_WRITE_BYTES: usize = 0x4_0000;

/// The most frames of one sequence of taps.
pub const MAX_TAP_SEQUENCE_FRAMES: u64 = 1_000_000;

/// The most instructions that a register watch lasts.
pub const MAX_WATCH_INSTRUCTIONS: u64 = 50_000_000;

/// What a tool returns: a value, or a picture with where it comes from.
#[derive(Debug, PartialEq, Eq)]
pub enum ToolOutput {
    Json(Json),
    Image { png_base64: String, saved_path: Option<String>, provenance: Json },
}

/// Whether the result of a tool is the given one.
pub open spec fn yields(r: Result<ToolOutput, LinkError>, expected: Result<JsonView, LinkErrorView>) -> bool {
    match (r, expected) {
        (Ok(ToolOutput::Json(v)), Ok(w)) => v@ == w,
        (Err(e), Err(f)) => e@ == f,
        _ => false,
    }
}

/// Whether a tool made exactly one call, and gave back its reply.
pub open spec fn forwards<L: EmulatorLink>(
    before: L,
    after: L,
    method: Seq<char>,
    params: JsonView,
    r: Result<ToolOutput, LinkError>,
) -> bool {
    &&& after.history().len() == before.history().len() + 1
    &&& link::goes_on(before.history(), after.history())
    &&& link::is_call(after.history(), before.history().len() as int, method, params)
    &&& yields(r, link::reply_at(after.history(), before.history().len() as int))
}

/// Whether a tool made no call and refused its parameters with a message.
pub open spec fn refuses<L: EmulatorLink>(
    before: L,
    after: L,
    message: Seq<char>,
    r: Result<ToolOutput, LinkError>,
) -> bool {
    &&& after.history() == before.history()
    &&& yields(r, Err(link::bad_params_view(message)))
}

fn forward<L: EmulatorLink>(link: &mut L, method: &str, params: Json) -> (r: Result<
    ToolOutput,
    LinkError,
>)
    ensures
        forwards(*old(link), *final(link), method@, params@, r),
{
    match link.call(method, params) {
        Ok(value) => Ok(ToolOutput::Json(value)),
        Err(error) => Err(error),
    }
}

fn bad_params(message: String) -> (r: LinkError)
    ensures
        r@ == link::bad_params_view(message@),
{
    LinkError::Emulator { kind: "bad_params".to_owned(), message }
}

/// The message that an advance is out of bounds.
pub open spec fn advance_message(label: Seq<char>, least: int, count: u64) -> Seq<char> {
    ((((label + " count must be in "@) + text::decimal(least)) + "..="@) + text::decimal(
        MAX_SYNC_ADVANCE_COUNT as int,
    )) + (", got "@ + text::decimal(count as int))
}

fn advance_error(label: &str, least: u64, count: u64) -> (r: LinkError)
    ensures
        r@ == link::bad_params_view(advance_message(label@, least as int, count)),
{
    let m = text::join(label, " count must be in ");
    let m = text::join(m.as_str(), text::decimal_of(least).as_str());
    let m = text::join(m.as_str(), "..=");
    let m = text::join(m.as_str(), text::decimal_of(MAX_SYNC_ADVANCE_COUNT).as_str());
    let tail = text::join(", got ", text::decimal_of(count).as_str());
    bad_params(text::join(m.as_str(), tail.as_str()))
}

/// Whether an advance is one that a single call may make.
pub open spec fn advance_check(label: Seq<char>, least: int, count: u64) -> Result<
    (),
    LinkErrorView,
> {
    if least <= count <= MAX_SYNC_ADVANCE_COUNT {
        Ok(())
    } else {
        Err(link::bad_params_view(advance_message(label, least, count)))
    }
}

/// Refuses an advance that is too long for a single call.
pub fn validate_sync_advance(label: &str, count: u64) -> (r: Result<(), LinkError>)
    ensures
        link::done_view(r) == advance_check(label@, 0, count),
{
    if count <= MAX_SYNC_ADVANCE_COUNT {
        Ok(())
    } else {
        Err(advance_error(label, 0, count))
    }
}

/// Refuses an advance that is empty or too long for a single call.
pub fn validate_positive_sync_advance(label: &str, count: u64) -> (r: Result<(), LinkError>)
    ensures
        link::done_view(r) == advance_check(label@, 1, count),
{
    if 1 <= count && count <= MAX_SYNC_ADVANCE_COUNT {
        Ok(())
    } else {
        Err(advance_error(label, 1, count))
    }
}

/// The parameters of a memory access.
pub open spec fn span_params(memory_type: Seq<char>, address: u64, length: u64) -> JsonView {
    JsonView::object().with("memory_type"@, JsonView::Str(memory_type)).with(
        "address"@,
        JsonView::Unsigned(address),
    ).with("length"@, JsonView::Unsigned(length))
}

/// The parameters of a memory access.
pub fn span_request(memory_type: &str, address: u64, length: u64) -> (r: Json)
    ensures
        r@ == span_params(memory_type@, address, length),
{
    Json::object().with("memory_type", Json::text(memory_type)).with(
        "address",
        Json::Unsigned(address),
    ).with("length", Json::Unsigned(length))
}

/// Reads memory.
pub fn read_memory<L: EmulatorLink>(link: &mut L, memory_type: &str, address: u64, length: u64) -> (r:
    Result<ToolOutput, LinkError>)
    ensures
        forwards(
            *old(link),
            *final(link),
            "read_memory"@,
            span_params(memory_type@, address, length),
            r,
        ),
{
    forward(link, "read_memory", span_request(memory_type, address, length))
}

/// The parameters of a probe.
pub open spec fn probe_params(
    state: Seq<char>,
    frame: u64,
    memory_type: Seq<char>,
    address: u64,
    length: u64,
) -> JsonView {
    JsonView::object().with("state"@, JsonView::Str(state)).with(
        "frame"@,
        JsonView::Unsigned(frame),
    ).with("memory_type"@, JsonView::Str(memory_type)).with(
        "address"@,
        JsonView::Unsigned(address),
    ).with("length"@, JsonView::Unsigned(length))
}

/// The parameters of a probe.
pub fn probe_request(state: &str, frame: u64, memory_type: &str, address: u64, length: u64) -> (r:
    Json)
    ensures
        r@ == probe_params(state@, frame, memory_type@, address, length),
{
    Json::object().with("state", Json::text(state)).with("frame", Json::Unsigned(frame)).with(
        "memory_type",
        Json::text(memory_type),
    ).with("address", Json::Unsigned(address)).with("length", Json::Unsigned(length))
}

/// Has the adapter restore a state, advance it by some frames and read memory, as one call.
pub fn probe<L: EmulatorLink>(
    link: &mut L,
    state: &str,
    frame: u64,
    memory_type: &str,
    address: u64,
    length: u64,
) -> (r: Result<ToolOutput, LinkError>)
    ensures
        forwards(
            *old(link),
            *final(link),
            "probe"@,
            probe_params(state@, frame, memory_type@, address, length),
            r,
        ),
{
    forward(link, "probe", probe_request(state, frame, memory_type, address, length))
}

/// An object with a number where there is one.
pub open spec fn with_number(object: JsonView, key: Seq<char>, value: Option<u64>) -> JsonView {
    match value {
        Some(n) => object.with(key, JsonView::Unsigned(n)),
        None => object,
    }
}

fn add_number(object: Json, key: &str, value: Option<u64>) -> (r: Json)
    ensures
        r@ == with_number(object@, key@, value),
{
    match value {
        Some(n) => object.with(key, Json::Unsigned(n)),
        None => object,
    }
}

/// An object with the CPU that a request is for, where it names one.
pub open spec fn with_cpu_view(object: JsonView, cpu: Option<&str>) -> JsonView {
    match cpu {
        Some(s) => object.with("cpu"@, JsonView::Str(s@)),
        None => object,
    }
}

fn with_cpu(object: Json, cpu: Option<&str>) -> (r: Json)
    ensures
        r@ == with_cpu_view(object@, cpu),
{
    match cpu {
        Some(s) => object.with("cpu", Json::text(s)),
        None => object,
    }
}

/// Searches memory for a byte pattern, within the adapter.
pub fn find_pattern<L: EmulatorLink>(
    link: &mut L,
    memory_type: &str,
    hex: &str,
    start: u64,
    length: Option<u64>,
    max_matches: u64,
    align: u64,
) -> (r: Result<ToolOutput, LinkError>)
    ensures
        forwards(
            *old(link),
            *final(link),
            "find_pattern"@,
            with_number(
                JsonView::object().with("memory_type"@, JsonView::Str(memory_type@)).with(
                    "hex"@,
                    JsonView::Str(hex@),
                ).with("start"@, JsonView::Unsigned(start)).with(
                    "max_matches"@,
                    JsonView::Unsigned(max_matches),
                ).with("align"@, JsonView::Unsigned(align)),
                "length"@,
                length,
            ),
            r,
        ),
{
    let fixed = Json::object().with("memory_type", Json::text(memory_type)).with(
        "hex",
        Json::text(hex),
    ).with("start", Json::Unsigned(start)).with("max_matches", Json::Unsigned(max_matches)).with(
        "align",
        Json::Unsigned(align),
    );
    forward(link, "find_pattern", add_number(fixed, "length", length))
}

/// Reads the machine state, all of it or some groups.
pub fn get_state<L: EmulatorLink>(link: &mut L, groups: &[String], cpu: Option<&str>) -> (r: Result<
    ToolOutput,
    LinkError,
>)
    ensures
        forwards(
            *old(link),
            *final(link),
            "get_state"@,
            with_cpu_view(
                if groups@.len() == 0 {
                    JsonView::object()
                } else {
                    JsonView::object().with(
                        "groups"@,
                        json::text_array(text::text_views(groups@)),
                    )
                },
                cpu,
            ),
            r,
        ),
{
    let params = if groups.len() == 0 {
        Json::object()
    } else {
        Json::object().with("groups", Json::texts(groups))
    };
    forward(link, "get_state", with_cpu(params, cpu))
}

/// Reads the decoded video state.
pub fn get_video_state<L: EmulatorLink>(link: &mut L) -> (r: Result<ToolOutput, LinkError>)
    ensures
        forwards(*old(link), *final(link), "get_video_state"@, JsonView::object(), r),
{
    forward(link, "get_video_state", Json::object())
}

/// Resolves a screen position of a background layer to the address of its tile.
pub fn resolve_tile<L: EmulatorLink>(link: &mut L, nbg: u32, x: u32, y: u32) -> (r: Result<
    ToolOutput,
    LinkError,
>)
    ensures
        forwards(
            *old(link),
            *final(link),
            "resolve_tile"@,
            JsonView::object().with("nbg"@, JsonView::Unsigned(nbg as u64)).with(
                "x"@,
                JsonView::Unsigned(x as u64),
            ).with("y"@, JsonView::Unsigned(y as u64)),
            r,
        ),
{
    forward(
        link,
        "resolve_tile",
        Json::object().with("nbg", Json::Unsigned(nbg as u64)).with(
            "x",
            Json::Unsigned(x as u64),
        ).with("y", Json::Unsigned(y as u64)),
    )
}

/// Sets or asks for the enabled layers, by name or by mask.
pub fn set_layer_enable<L: EmulatorLink>(link: &mut L, layers: &[String], mask: Option<u64>) -> (r:
    Result<ToolOutput, LinkError>)
    ensures
        forwards(
            *old(link),
            *final(link),
            "set_layer_enable"@,
            with_number(
                if layers@.len() == 0 {
                    JsonView::object()
                } else {
                    JsonView::object().with(
                        "layers"@,
                        json::text_array(text::text_views(layers@)),
                    )
                },
                "mask"@,
                mask,
            ),
            r,
        ),
{
    let params = if layers.len() == 0 {
        Json::object()
    } else {
        Json::object().with("layers", Json::texts(layers))
    };
    forward(link, "set_layer_enable", add_number(params, "mask", mask))
}

/// Asks for the identity of the loaded ROM.
pub fn get_rom_info<L: EmulatorLink>(link: &mut L) -> (r: Result<ToolOutput, LinkError>)
    ensures
        forwards(*old(link), *final(link), "get_rom_info"@, JsonView::object(), r),
{
    forward(link, "get_rom_info", Json::object())
}

/// Asks for the status.
pub fn status<L: EmulatorLink>(link: &mut L) -> (r: Result<ToolOutput, LinkError>)
    ensures
        forwards(*old(link), *final(link), "status"@, JsonView::object(), r),
{
    forward(link, "status", Json::object())
}

/// Dismisses a reported failure.
pub fn dismiss_failure<L: EmulatorLink>(link: &mut L) -> (r: Result<ToolOutput, LinkError>)
    ensures
        forwards(*old(link), *final(link), "dismiss_failure"@, JsonView::object(), r),
{
    forward(link, "dismiss_failure", Json::object())
}

/// Why bytes cannot be written at an address, if they cannot.
pub open spec fn write_fault(address: u64, count: nat) -> Option<Seq<char>> {
    if count == 0 {
        Some("write_memory requires at least one byte"@)
    } else if count > MAX_WRITE_BYTES {
        Some(
            ("write_memory accepts at most "@ + text::decimal(MAX_WRITE_BYTES as int)) + " bytes"@,
        )
    } else if address + count > u64::MAX {
        Some("write_memory address range overflows u64"@)
    } else {
        None
    }
}

/// The parameters of a memory write.
pub open spec fn write_params(memory_type: Seq<char>, address: u64, hex: Seq<char>) -> JsonView {
    JsonView::object().with("memory_type"@, JsonView::Str(memory_type)).with(
        "address"@,
        JsonView::Unsigned(address),
    ).with("hex"@, JsonView::Str(hex))
}

fn check_write(address: u64, count: usize) -> (r: Result<(), LinkError>)
    ensures
        match write_fault(address, count as nat) {
            Some(m) => r matches Err(e) && e@ == link::bad_params_view(m),
            None => r is Ok,
        },
{
    if count == 0 {
        return Err(bad_params("write_memory requires at least one byte".to_owned()));
    }
    if count > MAX_WRITE_BYTES {
        let m = text::join(
            "write_memory accepts at most ",
            text::decimal_of(MAX_WRITE_BYTES as u64).as_str(),
        );
        return Err(bad_params(text::join(m.as_str(), " bytes")));
    }
    if address.checked_add(count as u64).is_none() {
        return Err(bad_params("write_memory address range overflows u64".to_owned()));
    }
    Ok(())
}

/// Writes bytes given as hexadecimal text. Text that is no complete bytes, too many bytes or a
/// range beyond the address space is refused before any call.
pub fn write_memory<L: EmulatorLink>(link: &mut L, memory_type: &str, address: u64, hex: &str) -> (r:
    Result<ToolOutput, LinkError>)
    ensures
        match encoding::hex_bytes(hex@) {
            None => refuses(
                *old(link),
                *final(link),
                "write_memory hex must contain complete bytes"@,
                r,
            ),
            Some(data) => match write_fault(address, data.len()) {
                Some(m) => refuses(*old(link), *final(link), m, r),
                None => forwards(
                    *old(link),
                    *final(link),
                    "write_memory"@,
                    write_params(memory_type@, address, hex@),
                    r,
                ),
            },
        },
{
    let data = match encoding::hex_decode(hex) {
        Some(data) => data,
        None => {
            return Err(bad_params("write_memory hex must contain complete bytes".to_owned()));
        },
    };
    check_write(address, data.len())?;
    forward(
        link,
        "write_memory",
        Json::object().with("memory_type", Json::text(memory_type)).with(
            "address",
            Json::Unsigned(address),
        ).with("hex", Json::text(hex)),
    )
}

/// Writes bytes. Too many bytes or a range beyond the address space is refused before any call.
pub fn write_memory_bytes<L: EmulatorLink>(
    link: &mut L,
    memory_type: &str,
    address: u64,
    data: &[u8],
) -> (r: Result<ToolOutput, LinkError>)
    ensures
        match write_fault(address, data@.len()) {
            Some(m) => refuses(*old(link), *final(link), m, r),
            None => forwards(
                *old(link),
                *final(link),
                "write_memory"@,
                write_params(memory_type@, address, encoding::hex_text(data@)),
                r,
            ),
        },
{
    check_write(address, data.len())?;
    let hex = encoding::hex_encode(data);
    forward(
        link,
        "write_memory",
        Json::object().with("memory_type", Json::text(memory_type)).with(
            "address",
            Json::Unsigned(address),
        ).with("hex", Json::Str(hex)),
    )
}

/// Holds buttons until the next call.
pub fn set_input<L: EmulatorLink>(link: &mut L, port: u64, buttons: &[String]) -> (r: Result<
    ToolOutput,
    LinkError,
>)
    ensures
        forwards(
            *old(link),
            *final(link),
            "set_input"@,
            input_params(port, text::text_views(buttons@)),
            r,
        ),
{
    forward(link, "set_input", input_request(port, buttons))
}

/// Presses buttons for some frames of running time.
pub fn press_buttons<L: EmulatorLink>(link: &mut L, port: u64, buttons: &[String], frames: u64) -> (r:
    Result<ToolOutput, LinkError>)
    ensures
        match advance_check("press_buttons frame"@, 0, frames) {
            Err(_) => refuses(
                *old(link),
                *final(link),
                advance_message("press_buttons frame"@, 0, frames),
                r,
            ),
            Ok(()) => forwards(
                *old(link),
                *final(link),
                "press_buttons"@,
                input_params(port, text::text_views(buttons@)).with(
                    "frames"@,
                    JsonView::Unsigned(frames),
                ),
                r,
            ),
        },
{
    validate_sync_advance("press_buttons frame", frames)?;
    forward(
        link,
        "press_buttons",
        input_request(port, buttons).with("frames", Json::Unsigned(frames)),
    )
}

/// The parameters of a touch: a release alone, or a position and a number of frames.
pub open spec fn touch_params(
    port: u64,
    x: Option<u64>,
    y: Option<u64>,
    frames: Option<u64>,
    release: bool,
) -> JsonView {
    let base = JsonView::object().with("port"@, JsonView::Unsigned(port));
    if release {
        base.with("release"@, JsonView::Bool(true))
    } else {
        with_number(with_number(with_number(base, "x"@, x), "y"@, y), "frames"@, frames)
    }
}

/// Touches or releases the touch screen.
pub fn touch<L: EmulatorLink>(
    link: &mut L,
    port: u64,
    x: Option<u64>,
    y: Option<u64>,
    frames: Option<u64>,
    release: bool,
) -> (r: Result<ToolOutput, LinkError>)
    ensures
        forwards(
            *old(link),
            *final(link),
            "touch"@,
            touch_params(port, x, y, frames, release),
            r,
        ),
{
    let base = Json::object().with("port", Json::Unsigned(port));
    let params = if release {
        base.with("release", Json::Bool(true))
    } else {
        add_number(add_number(add_number(base, "x", x), "y", y), "frames", frames)
    };
    forward(link, "touch", params)
}

/// The parameters that name a path.
pub open spec fn path_params(path: Seq<char>) -> JsonView {
    JsonView::object().with("path"@, JsonView::Str(path))
}

/// Saves the machine state to a file.
pub fn save_state<L: EmulatorLink>(link: &mut L, path: &str) -> (r: Result<ToolOutput, LinkError>)
    ensures
        forwards(*old(link), *final(link), "save_state"@, path_params(path@), r),
{
    forward(link, "save_state", Json::object().with("path", Json::text(path)))
}

/// Loads the machine state from a file.
pub fn load_state<L: EmulatorLink>(link: &mut L, path: &str) -> (r: Result<ToolOutput, LinkError>)
    ensures
        forwards(*old(link), *final(link), "load_state"@, path_params(path@), r),
{
    forward(link, "load_state", Json::object().with("path", Json::text(path)))
}

/// Runs for some frames. No separate resume is sent: the adapter resumes and advances in one.
pub fn run_frames<L: EmulatorLink>(link: &mut L, n: u64) -> (r: Result<ToolOutput, LinkError>)
    ensures
        match advance_check("run_frames frame"@, 0, n) {
            Err(_) => refuses(
                *old(link),
                *final(link),
                advance_message("run_frames frame"@, 0, n),
                r,
            ),
            Ok(()) => forwards(
                *old(link),
                *final(link),
                "run_frames"@,
                JsonView::object().with("n"@, JsonView::Unsigned(n)),
                r,
            ),
        },
{
    validate_sync_advance("run_frames frame", n)?;
    forward(link, "run_frames", Json::object().with("n", Json::Unsigned(n)))
}

/// Freezes the machine.
pub fn pause<L: EmulatorLink>(link: &mut L, cpu: Option<&str>) -> (r: Result<ToolOutput, LinkError>)
    ensures
        forwards(*old(link), *final(link), "pause"@, with_cpu_view(JsonView::object(), cpu), r),
{
    forward(link, "pause", with_cpu(Json::object(), cpu))
}

/// Lets the machine run.
pub fn resume<L: EmulatorLink>(link: &mut L, cpu: Option<&str>) -> (r: Result<ToolOutput, LinkError>)
    ensures
        forwards(*old(link), *final(link), "resume"@, with_cpu_view(JsonView::object(), cpu), r),
{
    forward(link, "resume", with_cpu(Json::object(), cpu))
}

/// What steps are counted in.
#[derive(Clone, Copy, Debug, PartialEq, Eq, Structural)]
pub enum StepUnit {
    Frames,
    Instructions,
}

impl StepUnit {
    /// The method of the adapter that makes such steps.
    pub open spec fn method(self) -> Seq<char> {
        match self {
            StepUnit::Frames => "step"@,
            StepUnit::Instructions => "step_instructions"@,
        }
    }

    /// The parameter that carries the count.
    pub open spec fn parameter(self) -> Seq<char> {
        match self {
            StepUnit::Frames => "frames"@,
            StepUnit::Instructions => "count"@,
        }
    }
}

/// The error of a method that the adapter does not have.
pub open spec fn unsupported(method: Seq<char>) -> LinkErrorView {
    LinkErrorView::Emulator {
        kind: "unsupported"@,
        message: ("the connected adapter does not offer "@ + method),
    }
}

/// Advances a frozen machine and freezes it again. A unit that the adapter does not have, and a
/// count beyond the bound, are refused before any call.
pub fn step<L: EmulatorLink>(link: &mut L, n: u64, unit: StepUnit, cpu: Option<&str>) -> (r: Result<
    ToolOutput,
    LinkError,
>)
    ensures
        if n > MAX_SYNC_ADVANCE_COUNT {
            refuses(*old(link), *final(link), advance_message("step"@, 0, n), r)
        } else if !old(link).offers().methods.contains(unit.method()) {
            final(link).history() == old(link).history() && yields(
                r,
                Err(unsupported(unit.method())),
            )
        } else {
            forwards(
                *old(link),
                *final(link),
                unit.method(),
                with_cpu_view(
                    JsonView::object().with(unit.parameter(), JsonView::Unsigned(n)),
                    cpu,
                ),
                r,
            )
        },
{
    validate_sync_advance("step", n)?;
    let (method, parameter) = match unit {
        StepUnit::Frames => ("step", "frames"),
        StepUnit::Instructions => ("step_instructions", "count"),
    };
    if !link.capabilities().has_method(method) {
        return Err(
            LinkError::Emulator {
                kind: "unsupported".to_owned(),
                message: text::join("the connected adapter does not offer ", method),
            },
        );
    }
    forward(link, method, with_cpu(Json::object().with(parameter, Json::Unsigned(n)), cpu))
}

/// The parameters of a breakpoint; what is not asked for is not sent.
pub open spec fn breakpoint_params(
    kind: Seq<char>,
    memory_type: Seq<char>,
    start: u64,
    end: u64,
    pause_on_hit: bool,
    auto_savestate: bool,
    pc_min: Option<u64>,
    pc_max: Option<u64>,
    value: Option<u64>,
    value_mask: Option<u64>,
    value_len: Option<u64>,
    snapshot: Seq<Seq<char>>,
) -> JsonView {
    let base = JsonView::object().with("kind"@, JsonView::Str(kind)).with(
        "memory_type"@,
        JsonView::Str(memory_type),
    ).with("start"@, JsonView::Unsigned(start)).with("end"@, JsonView::Unsigned(end)).with(
        "pause_on_hit"@,
        JsonView::Bool(pause_on_hit),
    ).with("auto_savestate"@, JsonView::Bool(auto_savestate));
    let captured = if snapshot.len() == 0 {
        base
    } else {
        base.with("snapshot"@, json::text_array(snapshot))
    };
    let from = with_number(captured, "pc_min"@, pc_min);
    let bounded = with_number(from, "pc_max"@, pc_max);
    let valued = with_number(bounded, "value"@, value);
    let masked = with_number(valued, "value_mask"@, value_mask);
    with_number(masked, "value_len"@, value_len)
}

/// Sets a breakpoint.
pub fn set_breakpoint<L: EmulatorLink>(
    link: &mut L,
    kind: &str,
    memory_type: &str,
    start: u64,
    end: u64,
    pause_on_hit: bool,
    auto_savestate: bool,
    pc_min: Option<u64>,
    pc_max: Option<u64>,
    value: Option<u64>,
    value_mask: Option<u64>,
    value_len: Option<u64>,
    snapshot: &[String],
) -> (r: Result<ToolOutput, LinkError>)
    ensures
        forwards(
            *old(link),
            *final(link),
            "set_breakpoint"@,
            breakpoint_params(
                kind@,
                memory_type@,
                start,
                end,
                pause_on_hit,
                auto_savestate,
                pc_min,
                pc_max,
                value,
                value_mask,
                value_len,
                text::text_views(snapshot@),
            ),
            r,
        ),
{
    let base = Json::object().with("kind", Json::text(kind)).with(
        "memory_type",
        Json::text(memory_type),
    ).with("start", Json::Unsigned(start)).with("end", Json::Unsigned(end)).with(
        "pause_on_hit",
        Json::Bool(pause_on_hit),
    ).with("auto_savestate", Json::Bool(auto_savestate));
    let captured = if snapshot.len() == 0 {
        base
    } else {
        base.with("snapshot", Json::texts(snapshot))
    };
    let params = add_number(captured, "pc_min", pc_min);
    let params = add_number(params, "pc_max", pc_max);
    let params = add_number(params, "value", value);
    let params = add_number(params, "value_mask", value_mask);
    let params = add_number(params, "value_len", value_len);
    forward(link, "set_breakpoint", params)
}

/// Disassembles instructions.
pub fn disassemble<L: EmulatorLink>(link: &mut L, address: u64, count: u64) -> (r: Result<
    ToolOutput,
    LinkError,
>)
    ensures
        forwards(
            *old(link),
            *final(link),
            "disassemble"@,
            JsonView::object().with("address"@, JsonView::Unsigned(address)).with(
                "count"@,
                JsonView::Unsigned(count),
            ),
            r,
        ),
{
    forward(
        link,
        "disassemble",
        Json::object().with("address", Json::Unsigned(address)).with(
            "count",
            Json::Unsigned(count),
        ),
    )
}

/// The message that a register watch would last too long.
pub open spec fn watch_message(budget: u64) -> Seq<char> {
    ((("watch_register max_instructions "@ + text::decimal(budget as int)) + "이 상한 "@)
        + text::decimal(MAX_WATCH_INSTRUCTIONS as int)) + " 초과"@
}

/// Freezes the machine when a register leaves a range. The watch ends by itself after a number of
/// instructions; a number beyond the bound is refused before any call.
pub fn watch_register<L: EmulatorLink>(
    link: &mut L,
    register: &str,
    min: u64,
    max: u64,
    pause_on_hit: bool,
    max_instructions: Option<u64>,
) -> (r: Result<ToolOutput, LinkError>)
    ensures
        if max_instructions is Some && max_instructions->0 > MAX_WATCH_INSTRUCTIONS {
            refuses(*old(link), *final(link), watch_message(max_instructions->0), r)
        } else {
            forwards(
                *old(link),
                *final(link),
                "watch_register"@,
                with_number(
                    JsonView::object().with("register"@, JsonView::Str(register@)).with(
                        "min"@,
                        JsonView::Unsigned(min),
                    ).with("max"@, JsonView::Unsigned(max)).with(
                        "pause_on_hit"@,
                        JsonView::Bool(pause_on_hit),
                    ),
                    "max_instructions"@,
                    max_instructions,
                ),
                r,
            )
        },
{
    if let Some(budget) = max_instructions {
        if budget > MAX_WATCH_INSTRUCTIONS {
            let m = text::join(
                "watch_register max_instructions ",
                text::decimal_of(budget).as_str(),
            );
            let m = text::join(m.as_str(), "이 상한 ");
            let m = text::join(m.as_str(), text::decimal_of(MAX_WATCH_INSTRUCTIONS).as_str());
            return Err(bad_params(text::join(m.as_str(), " 초과")));
        }
    }
    let params = Json::object().with("register", Json::text(register)).with(
        "min",
        Json::Unsigned(min),
    ).with("max", Json::Unsigned(max)).with("pause_on_hit", Json::Bool(pause_on_hit));
    forward(link, "watch_register", add_number(params, "max_instructions", max_instructions))
}

/// Removes a breakpoint.
pub fn clear_breakpoint<L: EmulatorLink>(link: &mut L, id: u64) -> (r: Result<ToolOutput, LinkError>)
    ensures
        forwards(
            *old(link),
            *final(link),
            "clear_breakpoint"@,
            JsonView::object().with("id"@, JsonView::Unsigned(id)),
            r,
        ),
{
    forward(link, "clear_breakpoint", Json::object().with("id", Json::Unsigned(id)))
}

/// Lists the breakpoints.
pub fn list_breakpoints<L: EmulatorLink>(link: &mut L) -> (r: Result<ToolOutput, LinkError>)
    ensures
        forwards(*old(link), *final(link), "list_breakpoints"@, JsonView::object(), r),
{
    forward(link, "list_breakpoints", Json::object())
}

/// Removes all breakpoints.
pub fn clear_all_breakpoints<L: EmulatorLink>(link: &mut L) -> (r: Result<ToolOutput, LinkError>)
    ensures
        forwards(*old(link), *final(link), "clear_all_breakpoints"@, JsonView::object(), r),
{
    forward(link, "clear_all_breakpoints", Json::object())
}

/// Fetches the events.
pub fn poll_events<L: EmulatorLink>(link: &mut L) -> (r: Result<ToolOutput, LinkError>)
    ensures
        forwards(*old(link), *final(link), "poll_events"@, JsonView::object(), r),
{
    forward(link, "poll_events", Json::object())
}

/// Turns execution tracing on or off.
pub fn set_trace<L: EmulatorLink>(link: &mut L, enabled: bool) -> (r: Result<ToolOutput, LinkError>)
    ensures
        forwards(
            *old(link),
            *final(link),
            "set_trace"@,
            JsonView::object().with("enabled"@, JsonView::Bool(enabled)),
            r,
        ),
{
    forward(link, "set_trace", Json::object().with("enabled", Json::Bool(enabled)))
}

/// Fetches the last traced instructions.
pub fn get_trace<L: EmulatorLink>(link: &mut L, count: u64) -> (r: Result<ToolOutput, LinkError>)
    ensures
        forwards(
            *old(link),
            *final(link),
            "get_trace"@,
            JsonView::object().with("count"@, JsonView::Unsigned(count)),
            r,
        ),
{
    forward(link, "get_trace", Json::object().with("count", Json::Unsigned(count)))
}

/// Asks for the call stack.
pub fn call_stack<L: EmulatorLink>(link: &mut L) -> (r: Result<ToolOutput, LinkError>)
    ensures
        forwards(*old(link), *final(link), "call_stack"@, JsonView::object(), r),
{
    forward(link, "call_stack", Json::object())
}

/// Freezes the machine when the game runs its reset handler, or no longer.
pub fn break_on_reset<L: EmulatorLink>(link: &mut L, enabled: bool) -> (r: Result<
    ToolOutput,
    LinkError,
>)
    ensures
        forwards(
            *old(link),
            *final(link),
            "break_on_reset"@,
            JsonView::object().with("enabled"@, JsonView::Bool(enabled)),
            r,
        ),
{
    forward(link, "break_on_reset", Json::object().with("enabled", Json::Bool(enabled)))
}

} // verus!
