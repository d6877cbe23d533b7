//! What the adapter tells of itself, how requests are routed, and the reports of its operations.

use vstd::prelude::*;
use crate::encoding;
use crate::json;
use crate::json::{Json, JsonView};
use crate::live::protocol::{Response, ResponseView};
use crate::live::temporal::MAX_SYNC_OPERATION_MS;
use crate::n64;
use crate::n64::control;
use crate::n64::control::ButtonSet;
use crate::n64::debug;
use crate::n64::lifecycle::AdapterReadiness;
use crate::n64::params;
use crate::n64::{N64Error, N64ErrorView, MAX_MEMORY_TRANSFER, MAX_STEP_COUNT, RDRAM_SIZE};
use crate::text;

verus! {

/// The methods that every session offers.
pub open spec fn base_methods() -> Seq<Seq<char>> {
    seq![
        "hello"@,
        "status"@,
        "get_rom_info"@,
        "get_state"@,
        "read_memory"@,
        "write_memory"@,
        "pause"@,
        "resume"@,
        "step_instructions"@,
        "set_input"@,
        "reset"@,
        "set_breakpoint"@,
        "clear_breakpoint"@,
        "list_breakpoints"@,
        "clear_all_breakpoints"@,
        "poll_events"@,
        "disassemble"@,
        "call_stack"@,
    ]
}

/// The methods that need rendered frames.
pub open spec fn display_methods() -> Seq<Seq<char>> {
    seq![
        "step"@,
        "run_frames"@,
        "press_buttons"@,
        "screenshot"@,
        "save_state"@,
        "load_state"@,
    ]
}

/// The methods of a session.
pub open spec fn methods(display: bool) -> Seq<Seq<char>> {
    if display {
        base_methods() + display_methods()
    } else {
        base_methods()
    }
}

/// The limits that every session declares.
pub open spec fn base_exceptions() -> Seq<Seq<char>> {
    seq![
        "n64.state-read.frozen-only"@,
        "n64.memory-read.frozen-only"@,
        "n64.memory-read.bounded"@,
        "n64.memory-write.frozen-only"@,
        "n64.execution-step.r4300-only"@,
        "n64.execution-pause.r4300-only"@,
        "n64.execution-resume.r4300-only"@,
        "n64.input-set.port-zero-only"@,
        "n64.breakpoint.pausing-subset"@,
    ]
}

/// The limits of a session.
pub open spec fn exceptions(display: bool) -> Seq<Seq<char>> {
    if display {
        base_exceptions() + seq![
        "n64.input-pulse.bounded"@,
        "n64.screenshot.frozen-only"@,
        "n64.state-save.frozen-only"@,
        "n64.state-load.frozen-only"@,
    ]
    } else {
        base_exceptions() + seq![
        "n64.execution.frame-step-absent"@,
    ]
    }
}

/// The methods of a session.
pub fn methods_for(display: bool) -> (r: Vec<&'static str>)
    ensures
        json::literals(r@) == methods(display),
{
    let mut r: Vec<&'static str> = Vec::new();
    r.push("hello");
    r.push("status");
    r.push("get_rom_info");
    r.push("get_state");
    r.push("read_memory");
    r.push("write_memory");
    r.push("pause");
    r.push("resume");
    r.push("step_instructions");
    r.push("set_input");
    r.push("reset");
    r.push("set_breakpoint");
    r.push("clear_breakpoint");
    r.push("list_breakpoints");
    r.push("clear_all_breakpoints");
    r.push("poll_events");
    r.push("disassemble");
    r.push("call_stack");
    assert(json::literals(r@) =~= base_methods());
    if display {
        r.push("step");
        r.push("run_frames");
        r.push("press_buttons");
        r.push("screenshot");
        r.push("save_state");
        r.push("load_state");
        assert(json::literals(r@) =~= methods(display));
    }
    r
}

/// The limits of a session.
pub fn exceptions_for(display: bool) -> (r: Vec<&'static str>)
    ensures
        json::literals(r@) == exceptions(display),
{
    let mut r: Vec<&'static str> = Vec::new();
    r.push("n64.state-read.frozen-only");
    r.push("n64.memory-read.frozen-only");
    r.push("n64.memory-read.bounded");
    r.push("n64.memory-write.frozen-only");
    r.push("n64.execution-step.r4300-only");
    r.push("n64.execution-pause.r4300-only");
    r.push("n64.execution-resume.r4300-only");
    r.push("n64.input-set.port-zero-only");
    r.push("n64.breakpoint.pausing-subset");
    assert(json::literals(r@) =~= base_exceptions());
    if display {
        r.push("n64.input-pulse.bounded");
        r.push("n64.screenshot.frozen-only");
        r.push("n64.state-save.frozen-only");
        r.push("n64.state-load.frozen-only");
    } else {
        r.push("n64.execution.frame-step-absent");
    }
    assert(json::literals(r@) =~= exceptions(display));
    r
}

/// An operation that a request can ask for.
#[derive(Clone, Copy, Debug, PartialEq, Eq, Structural)]
pub enum Operation {
    Hello,
    Status,
    GetRomInfo,
    GetState,
    ReadMemory,
    WriteMemory,
    Pause,
    Resume,
    Step,
    RunFrames,
    StepInstructions,
    SetInput,
    PressButtons,
    Screenshot,
    SaveState,
    LoadState,
    Reset,
    SetBreakpoint,
    ClearBreakpoint,
    ListBreakpoints,
    ClearAllBreakpoints,
    PollEvents,
    Disassemble,
    CallStack,
}

impl Operation {
    /// The method name of an operation.
    pub open spec fn method(self) -> Seq<char> {
        match self {
            Operation::Hello => "hello"@,
            Operation::Status => "status"@,
            Operation::GetRomInfo => "get_rom_info"@,
            Operation::GetState => "get_state"@,
            Operation::ReadMemory => "read_memory"@,
            Operation::WriteMemory => "write_memory"@,
            Operation::Pause => "pause"@,
            Operation::Resume => "resume"@,
            Operation::Step => "step"@,
            Operation::RunFrames => "run_frames"@,
            Operation::StepInstructions => "step_instructions"@,
            Operation::SetInput => "set_input"@,
            Operation::PressButtons => "press_buttons"@,
            Operation::Screenshot => "screenshot"@,
            Operation::SaveState => "save_state"@,
            Operation::LoadState => "load_state"@,
            Operation::Reset => "reset"@,
            Operation::SetBreakpoint => "set_breakpoint"@,
            Operation::ClearBreakpoint => "clear_breakpoint"@,
            Operation::ListBreakpoints => "list_breakpoints"@,
            Operation::ClearAllBreakpoints => "clear_all_breakpoints"@,
            Operation::PollEvents => "poll_events"@,
            Operation::Disassemble => "disassemble"@,
            Operation::CallStack => "call_stack"@,
        }
    }

    /// Whether an operation needs rendered frames.
    pub open spec fn needs_display(self) -> bool {
        match self {
            Operation::Step => true,
            Operation::RunFrames => true,
            Operation::PressButtons => true,
            Operation::Screenshot => true,
            Operation::SaveState => true,
            Operation::LoadState => true,
            _ => false,
        }
    }
}

/// Finds the operation of a request; one that needs rendered frames is unknown without a display.
pub fn route(method: &str, display: bool) -> (r: Result<Operation, N64Error>)
    ensures
        match r {
            Ok(operation) => operation.method() == method@ && (operation.needs_display()
                ==> display),
            Err(e) => e@ == N64ErrorView::Unsupported(method@) && forall|operation: Operation|
                #[trigger] operation.method() == method@ ==> operation.needs_display() && !display,
        },
{
    if text::same(method, "hello") {
        return Ok(Operation::Hello);
    }
    if text::same(method, "status") {
        return Ok(Operation::Status);
    }
    if text::same(method, "get_rom_info") {
        return Ok(Operation::GetRomInfo);
    }
    if text::same(method, "get_state") {
        return Ok(Operation::GetState);
    }
    if text::same(method, "read_memory") {
        return Ok(Operation::ReadMemory);
    }
    if text::same(method, "write_memory") {
        return Ok(Operation::WriteMemory);
    }
    if text::same(method, "pause") {
        return Ok(Operation::Pause);
    }
    if text::same(method, "resume") {
        return Ok(Operation::Resume);
    }
    if display && text::same(method, "step") {
        return Ok(Operation::Step);
    }
    if display && text::same(method, "run_frames") {
        return Ok(Operation::RunFrames);
    }
    if text::same(method, "step_instructions") {
        return Ok(Operation::StepInstructions);
    }
    if text::same(method, "set_input") {
        return Ok(Operation::SetInput);
    }
    if display && text::same(method, "press_buttons") {
        return Ok(Operation::PressButtons);
    }
    if display && text::same(method, "screenshot") {
        return Ok(Operation::Screenshot);
    }
    if display && text::same(method, "save_state") {
        return Ok(Operation::SaveState);
    }
    if display && text::same(method, "load_state") {
        return Ok(Operation::LoadState);
    }
    if text::same(method, "reset") {
        return Ok(Operation::Reset);
    }
    if text::same(method, "set_breakpoint") {
        return Ok(Operation::SetBreakpoint);
    }
    if text::same(method, "clear_breakpoint") {
        return Ok(Operation::ClearBreakpoint);
    }
    if text::same(method, "list_breakpoints") {
        return Ok(Operation::ListBreakpoints);
    }
    if text::same(method, "clear_all_breakpoints") {
        return Ok(Operation::ClearAllBreakpoints);
    }
    if text::same(method, "poll_events") {
        return Ok(Operation::PollEvents);
    }
    if text::same(method, "disassemble") {
        return Ok(Operation::Disassemble);
    }
    if text::same(method, "call_stack") {
        return Ok(Operation::CallStack);
    }
    assert forall|operation: Operation| #[trigger] operation.method() == method@ implies
        operation.needs_display() && !display by {
        match operation {
            _ => {},
        }
    }
    Err(N64Error::Unsupported(method.to_owned()))
}

/// Every operation that can be reached has its method told.
pub proof fn routed_operations_are_told(operation: Operation, display: bool)
    ensures
        methods(display).contains(operation.method()) || (operation.needs_display() && !display),
{
    let all = methods(display);
    match operation {
        Operation::Hello => {
            assert(all[0] == operation.method());
        },
        Operation::Status => {
            assert(all[1] == operation.method());
        },
        Operation::GetRomInfo => {
            assert(all[2] == operation.method());
        },
        Operation::GetState => {
            assert(all[3] == operation.method());
        },
        Operation::ReadMemory => {
            assert(all[4] == operation.method());
        },
        Operation::WriteMemory => {
            assert(all[5] == operation.method());
        },
        Operation::Pause => {
            assert(all[6] == operation.method());
        },
        Operation::Resume => {
            assert(all[7] == operation.method());
        },
        Operation::Step => {
            if display {
                assert(all[18] == operation.method());
            }
        },
        Operation::RunFrames => {
            if display {
                assert(all[19] == operation.method());
            }
        },
        Operation::StepInstructions => {
            assert(all[8] == operation.method());
        },
        Operation::SetInput => {
            assert(all[9] == operation.method());
        },
        Operation::PressButtons => {
            if display {
                assert(all[20] == operation.method());
            }
        },
        Operation::Screenshot => {
            if display {
                assert(all[21] == operation.method());
            }
        },
        Operation::SaveState => {
            if display {
                assert(all[22] == operation.method());
            }
        },
        Operation::LoadState => {
            if display {
                assert(all[23] == operation.method());
            }
        },
        Operation::Reset => {
            assert(all[10] == operation.method());
        },
        Operation::SetBreakpoint => {
            assert(all[11] == operation.method());
        },
        Operation::ClearBreakpoint => {
            assert(all[12] == operation.method());
        },
        Operation::ListBreakpoints => {
            assert(all[13] == operation.method());
        },
        Operation::ClearAllBreakpoints => {
            assert(all[14] == operation.method());
        },
        Operation::PollEvents => {
            assert(all[15] == operation.method());
        },
        Operation::Disassemble => {
            assert(all[16] == operation.method());
        },
        Operation::CallStack => {
            assert(all[17] == operation.method());
        },
    }
}

/// Every method that is told is that of an operation that can be reached.
pub proof fn told_methods_are_routed(i: int, display: bool)
    requires
        0 <= i < methods(display).len(),
    ensures
        exists|operation: Operation| #[trigger]
            operation.method() == methods(display)[i] && (operation.needs_display() ==> display),
{
    let method = methods(display)[i];
    let op0 = Operation::Hello.method();
    let op1 = Operation::Status.method();
    let op2 = Operation::GetRomInfo.method();
    let op3 = Operation::GetState.method();
    let op4 = Operation::ReadMemory.method();
    let op5 = Operation::WriteMemory.method();
    let op6 = Operation::Pause.method();
    let op7 = Operation::Resume.method();
    let op8 = Operation::Step.method();
    let op9 = Operation::RunFrames.method();
    let op10 = Operation::StepInstructions.method();
    let op11 = Operation::SetInput.method();
    let op12 = Operation::PressButtons.method();
    let op13 = Operation::Screenshot.method();
    let op14 = Operation::SaveState.method();
    let op15 = Operation::LoadState.method();
    let op16 = Operation::Reset.method();
    let op17 = Operation::SetBreakpoint.method();
    let op18 = Operation::ClearBreakpoint.method();
    let op19 = Operation::ListBreakpoints.method();
    let op20 = Operation::ClearAllBreakpoints.method();
    let op21 = Operation::PollEvents.method();
    let op22 = Operation::Disassemble.method();
    let op23 = Operation::CallStack.method();
}

/// Wraps the result of an operation into the answer to its request.
pub fn respond(id: u64, result: Result<Json, N64Error>) -> (r: Response)
    ensures
        r.tells(
            ResponseView {
                id,
                outcome: match result {
                    Ok(v) => Ok(v@),
                    Err(e) => Err((e@.wire_kind(), e@.sentence())),
                },
            },
        ),
{
    match result {
        Ok(value) => Response::success(id, value),
        Err(error) => Response::failure(id, n64::error_kind(&error), error.message()),
    }
}

/// What one kind of breakpoint offers.
pub open spec fn kind_report(kind: Seq<char>, mode: Seq<char>, memory: bool, timing: Seq<char>) -> JsonView {
    JsonView::object().with("kind"@, JsonView::Str(kind)).with(
        "range_mode"@,
        JsonView::Str(mode),
    ).with("range_unit"@, JsonView::Str("address"@)).with(
        "memory_type_used"@,
        JsonView::Bool(memory),
    ).with("pause_on_hit"@, JsonView::Array(seq![JsonView::Bool(true)])).with(
        "snapshot"@,
        JsonView::Bool(true),
    ).with("snapshot_timing"@, JsonView::Str(timing))
}

/// What the kinds of breakpoints offer.
pub open spec fn kinds_report() -> JsonView {
    JsonView::Array(
        seq![
            kind_report("exec"@, "exact"@, false, "pre_instruction"@),
            kind_report("read"@, "inclusive"@, true, "pre_access"@),
            kind_report("write"@, "inclusive"@, true, "pre_access"@),
        ],
    )
}

fn describe_kind(kind: &str, mode: &str, memory: bool, timing: &str) -> (r: Json)
    ensures
        r@ == kind_report(kind@, mode@, memory, timing@),
{
    let mut pause: Vec<Json> = Vec::new();
    pause.push(Json::Bool(true));
    let pauses = Json::array(pause);
    assert(pauses@->Array_0 =~= seq![JsonView::Bool(true)]);
    Json::object().with("kind", Json::text(kind)).with("range_mode", Json::text(mode)).with(
        "range_unit",
        Json::text("address"),
    ).with("memory_type_used", Json::Bool(memory)).with("pause_on_hit", pauses).with(
        "snapshot",
        Json::Bool(true),
    ).with("snapshot_timing", Json::text(timing))
}

/// What the kinds of breakpoints offer.
pub fn breakpoint_kinds() -> (r: Json)
    ensures
        r@ == kinds_report(),
{
    let mut kinds: Vec<Json> = Vec::new();
    kinds.push(describe_kind("exec", "exact", false, "pre_instruction"));
    kinds.push(describe_kind("read", "inclusive", true, "pre_access"));
    kinds.push(describe_kind("write", "inclusive", true, "pre_access"));
    let r = Json::array(kinds);
    assert(r@->Array_0 =~= kinds_report()->Array_0);
    r
}

/// How much one call can advance.
pub open spec fn limits_report(display: bool) -> JsonView {
    JsonView::object().with("max_sync_advance_count"@, JsonView::Unsigned(MAX_STEP_COUNT)).with(
        "max_sync_operation_ms"@,
        JsonView::Unsigned(MAX_SYNC_OPERATION_MS),
    ).with(
        "frame"@,
        JsonView::object().with(
            "max_count"@,
            JsonView::Unsigned(
                if display {
                    MAX_STEP_COUNT
                } else {
                    0
                },
            ),
        ),
    )
}

fn execution_limits(display: bool) -> (r: Json)
    ensures
        r@ == limits_report(display),
{
    let frames: u64 = if display {
        MAX_STEP_COUNT
    } else {
        0
    };
    Json::object().with("max_sync_advance_count", Json::Unsigned(MAX_STEP_COUNT)).with(
        "max_sync_operation_ms",
        Json::Unsigned(MAX_SYNC_OPERATION_MS),
    ).with("frame", Json::object().with("max_count", Json::Unsigned(frames)))
}

/// The memory that requests can name.
pub open spec fn memory_types() -> JsonView {
    json::text_array(seq!["rdram"@])
}

/// The sizes of the memories that requests can name.
pub open spec fn region_sizes() -> JsonView {
    JsonView::object().with("rdram"@, JsonView::Unsigned(RDRAM_SIZE))
}

fn input_button_names() -> (r: Json)
    ensures
        r@ == json::text_array(control::advertised_buttons()),
{
    let mut v: Vec<&'static str> = Vec::new();
    v.push("a");
    v.push("b");
    v.push("z");
    v.push("start");
    v.push("l");
    v.push("r");
    v.push("up");
    v.push("down");
    v.push("left");
    v.push("right");
    v.push("dpad_up");
    v.push("dpad_down");
    v.push("dpad_left");
    v.push("dpad_right");
    v.push("c_up");
    v.push("c_down");
    v.push("c_left");
    v.push("c_right");
    assert(json::literals(v@) =~= control::advertised_buttons());
    json::literal_array(v.as_slice())
}

/// What a session tells of itself besides what is fixed.
#[derive(Debug)]
pub struct SessionFacts {
    pub protocol_version: u64,
    pub display: bool,
    pub contracts: Json,
    pub content: String,
    pub build: String,
    pub name: Option<String>,
    pub session_token: Option<String>,
    pub launch_id: Option<String>,
}

/// The units that steps can be counted in.
pub open spec fn step_units(display: bool) -> Seq<Seq<char>> {
    if display {
        seq!["frames"@, "instructions"@]
    } else {
        seq!["instructions"@]
    }
}

/// The notes on what is offered.
pub open spec fn notes_report(display: bool) -> JsonView {
    JsonView::object().with("implemented_methods"@, json::text_array(methods(display))).with(
        "step_units"@,
        json::text_array(step_units(display)),
    ).with("step_cpus"@, json::text_array(seq!["r4300"@])).with(
        "execution_mode"@,
        JsonView::Str("pure_interpreter"@),
    ).with("rsp_observation"@, JsonView::Str("not_exposed"@)).with(
        "frame_source"@,
        JsonView::Str(
            if display {
                "rendered_frame_callback"@
            } else {
                "vi_callback"@
            },
        ),
    ).with("display"@, JsonView::Bool(display))
}

fn capability_notes(display: bool) -> (r: Json)
    ensures
        r@ == notes_report(display),
{
    let mut units: Vec<&'static str> = Vec::new();
    if display {
        units.push("frames");
    }
    units.push("instructions");
    assert(json::literals(units@) =~= step_units(display));
    let source = if display {
        "rendered_frame_callback"
    } else {
        "vi_callback"
    };
    Json::object().with(
        "implemented_methods",
        json::literal_array(methods_for(display).as_slice()),
    ).with("step_units", json::literal_array(units.as_slice())).with("step_cpus", json::one_text("r4300")).with(
        "execution_mode",
        Json::text("pure_interpreter"),
    ).with("rsp_observation", Json::text("not_exposed")).with("frame_source", Json::text(source)).with(
        "display",
        Json::Bool(display),
    )
}

/// The greeting of a session.
pub open spec fn hello_report(facts: SessionFacts) -> JsonView {
    let fixed = JsonView::object().with(
        "protocol_version"@,
        JsonView::Unsigned(facts.protocol_version),
    ).with("system"@, JsonView::Str("n64"@)).with(
        "adapter"@,
        JsonView::Str("mupen64plus-native"@),
    ).with("backend"@, JsonView::Str("mupen64plus-core"@)).with(
        "debugger"@,
        JsonView::Bool(true),
    ).with("methods"@, json::text_array(methods(facts.display))).with(
        "memory_types"@,
        memory_types(),
    ).with("region_sizes"@, region_sizes()).with("breakpoint_kinds"@, kinds_report()).with(
        "input_buttons"@,
        json::text_array(control::advertised_buttons()),
    ).with("execution_limits"@, limits_report(facts.display)).with(
        "contracts"@,
        facts.contracts@,
    ).with("capability_notes"@, notes_report(facts.display)).with(
        "content"@,
        JsonView::Str(facts.content@),
    ).with("build"@, JsonView::Str(facts.build@));
    json::with_text(
        json::with_text(
            json::with_text(fixed, "name"@, facts.name),
            "session_token"@,
            facts.session_token,
        ),
        "launch_id"@,
        facts.launch_id,
    )
}

/// The greeting of a session.
pub fn hello(facts: &SessionFacts) -> (r: Json)
    ensures
        r@ == hello_report(*facts),
{
    let fixed = Json::object().with(
        "protocol_version",
        Json::Unsigned(facts.protocol_version),
    ).with("system", Json::text("n64")).with("adapter", Json::text("mupen64plus-native")).with(
        "backend",
        Json::text("mupen64plus-core"),
    ).with("debugger", Json::Bool(true)).with(
        "methods",
        json::literal_array(methods_for(facts.display).as_slice()),
    ).with("memory_types", json::one_text("rdram")).with(
        "region_sizes",
        Json::object().with("rdram", Json::Unsigned(RDRAM_SIZE)),
    ).with("breakpoint_kinds", breakpoint_kinds()).with("input_buttons", input_button_names()).with(
        "execution_limits",
        execution_limits(facts.display),
    ).with("contracts", facts.contracts.clone()).with(
        "capability_notes",
        capability_notes(facts.display),
    ).with("content", Json::text(facts.content.as_str())).with(
        "build",
        Json::text(facts.build.as_str()),
    );
    let named = json::add_text(fixed, "name", &facts.name);
    let with_token = json::add_text(named, "session_token", &facts.session_token);
    json::add_text(with_token, "launch_id", &facts.launch_id)
}

/// The counters and beliefs that a status tells.
#[derive(Clone, Copy, Debug, PartialEq, Eq, Structural)]
pub struct StatusFacts {
    pub readiness: AdapterReadiness,
    pub frame: u64,
    pub rendered_frame: u64,
    pub rendered_frame_observed: bool,
    pub vi_count: u64,
    pub display: bool,
    pub synchronized: bool,
    pub frozen: bool,
}

/// The name of a run state.
pub open spec fn run_state(frozen: bool) -> Seq<char> {
    if frozen {
        "frozen"@
    } else {
        "running"@
    }
}

/// The status of a session; the run state is told only while it is connected.
pub open spec fn status_report(facts: StatusFacts, held: Seq<bool>) -> JsonView {
    let fixed = JsonView::object().with(
        "connected"@,
        JsonView::Bool(facts.readiness is Ready),
    ).with("readiness"@, JsonView::Str(facts.readiness.name())).with(
        "system"@,
        JsonView::Str("n64"@),
    ).with("adapter"@, JsonView::Str("mupen64plus-native"@)).with(
        "backend"@,
        JsonView::Str("mupen64plus-core"@),
    ).with("debugger"@, JsonView::Bool(true)).with("frame"@, JsonView::Unsigned(facts.frame)).with(
        "rendered_frame"@,
        JsonView::Unsigned(facts.rendered_frame),
    ).with("rendered_frame_observed"@, JsonView::Bool(facts.rendered_frame_observed)).with(
        "rendered_frame_synchronized"@,
        JsonView::Bool(facts.synchronized),
    ).with("vi_count"@, JsonView::Unsigned(facts.vi_count)).with(
        "methods"@,
        json::text_array(methods(facts.display)),
    ).with("memory_types"@, memory_types()).with("region_sizes"@, region_sizes()).with(
        "breakpoint_kinds"@,
        kinds_report(),
    ).with("display"@, JsonView::Bool(facts.display)).with(
        "input_buttons"@,
        json::text_array(control::advertised_buttons()),
    ).with("execution_limits"@, limits_report(facts.display)).with(
        "input_override"@,
        JsonView::object().with("engaged"@, JsonView::Bool(control::any_held(held))).with(
            "buttons"@,
            control::names_report(held),
        ).with("ownership"@, JsonView::Str(control::ownership(held))),
    );
    if facts.readiness is Ready {
        fixed.with("state"@, JsonView::Str(run_state(facts.frozen)))
    } else {
        fixed
    }
}

/// The name of a run state.
pub fn run_state_name(frozen: bool) -> (r: &'static str)
    ensures
        r@ == run_state(frozen),
{
    if frozen {
        "frozen"
    } else {
        "running"
    }
}

/// The status of a session.
pub fn status(facts: StatusFacts, held: &ButtonSet) -> (r: Json)
    requires
        held.wf(),
    ensures
        r@ == status_report(facts, held@),
{
    let engaged = !held.is_empty();
    let owner = if engaged {
        "shared_with_native"
    } else {
        "native"
    };
    let input = Json::object().with("engaged", Json::Bool(engaged)).with(
        "buttons",
        Json::texts(held.names().as_slice()),
    ).with("ownership", Json::text(owner));
    let connected = facts.readiness.is_ready();
    let fixed = Json::object().with("connected", Json::Bool(connected)).with(
        "readiness",
        Json::text(facts.readiness.label()),
    ).with("system", Json::text("n64")).with("adapter", Json::text("mupen64plus-native")).with(
        "backend",
        Json::text("mupen64plus-core"),
    ).with("debugger", Json::Bool(true)).with("frame", Json::Unsigned(facts.frame)).with(
        "rendered_frame",
        Json::Unsigned(facts.rendered_frame),
    ).with("rendered_frame_observed", Json::Bool(facts.rendered_frame_observed)).with(
        "rendered_frame_synchronized",
        Json::Bool(facts.synchronized),
    ).with("vi_count", Json::Unsigned(facts.vi_count)).with(
        "methods",
        json::literal_array(methods_for(facts.display).as_slice()),
    ).with("memory_types", json::one_text("rdram")).with(
        "region_sizes",
        Json::object().with("rdram", Json::Unsigned(RDRAM_SIZE)),
    ).with("breakpoint_kinds", breakpoint_kinds()).with("display", Json::Bool(facts.display)).with(
        "input_buttons",
        input_button_names(),
    ).with("execution_limits", execution_limits(facts.display)).with("input_override", input);
    if connected {
        fixed.with("state", Json::text(run_state_name(facts.frozen)))
    } else {
        fixed
    }
}

/// A checked access to RDRAM: the offset that reports show, the address and the length.
#[derive(Clone, Copy, Debug, PartialEq, Eq, Structural)]
pub struct MemoryAccess {
    pub offset: u64,
    pub address: u64,
    pub length: u64,
}

/// What a memory read asks for.
pub open spec fn read_request(params: JsonView) -> Result<MemoryAccess, N64ErrorView> {
    match params::required(params, "length"@) {
        Err(e) => Err(e),
        Ok(length) => if length > MAX_MEMORY_TRANSFER {
            n64::bad_params(
                (("read length "@ + text::prefixed_hex(length as nat)) + " exceeds "@)
                    + text::prefixed_hex(MAX_MEMORY_TRANSFER as nat),
            )
        } else {
            match (params::required(params, "address"@), params::rdram_target(params, length)) {
                (Err(e), _) => Err(e),
                (_, Err(e)) => Err(e),
                (Ok(offset), Ok(address)) => Ok(MemoryAccess { offset, address, length }),
            }
        },
    }
}

/// Checks a memory read.
pub fn check_read(params: &Json) -> (r: Result<MemoryAccess, N64Error>)
    ensures
        n64::gives(r, read_request(params@)),
        r matches Ok(a) ==> n64::RDRAM_BASE <= a.address && a.address + a.length <= n64::RDRAM_BASE
            + RDRAM_SIZE,
{
    let length: u64 = params::required_num(params, "length")?;
    if length > MAX_MEMORY_TRANSFER {
        let m = text::join("read length ", text::prefixed_hex_of(length).as_str());
        let m = text::join(m.as_str(), " exceeds ");
        return Err(
            N64Error::BadParams(
                text::join(m.as_str(), text::prefixed_hex_of(MAX_MEMORY_TRANSFER).as_str()),
            ),
        );
    }
    let offset: u64 = params::required_num(params, "address")?;
    let address: u64 = params::rdram_address(params, length)?;
    Ok(MemoryAccess { offset, address, length })
}

/// The report of a memory read.
pub fn read_report(access: MemoryAccess, data: &[u8]) -> (r: Json)
    ensures
        r@ == JsonView::object().with("address"@, JsonView::Unsigned(access.offset)).with(
            "length"@,
            JsonView::Unsigned(access.length),
        ).with("hex"@, JsonView::Str(encoding::hex_text(data@))),
{
    Json::object().with("address", Json::Unsigned(access.offset)).with(
        "length",
        Json::Unsigned(access.length),
    ).with("hex", Json::Str(encoding::hex_encode(data)))
}

/// The text of the bytes that a memory write carries.
pub open spec fn write_text(params: JsonView) -> Option<Seq<char>> {
    let given = match params.field("hex"@) {
        Some(v) => Some(v),
        None => params.field("data"@),
    };
    match given {
        Some(v) => v.as_text(),
        None => None,
    }
}

/// What a memory write asks for, with its bytes.
pub open spec fn write_request(params: JsonView) -> Result<(MemoryAccess, Seq<u8>), N64ErrorView> {
    match write_text(params) {
        None => n64::bad_params("missing required param: hex"@),
        Some(raw) => match encoding::hex_bytes(raw) {
            None => n64::bad_params("hex must contain complete bytes"@),
            Some(data) => if data.len() > MAX_MEMORY_TRANSFER {
                n64::bad_params(
                    (("write length "@ + text::prefixed_hex(data.len())) + " exceeds "@)
                        + text::prefixed_hex(MAX_MEMORY_TRANSFER as nat),
                )
            } else {
                match (
                    params::required(params, "address"@),
                    params::rdram_target(params, data.len() as u64),
                ) {
                    (Err(e), _) => Err(e),
                    (_, Err(e)) => Err(e),
                    (Ok(offset), Ok(address)) => Ok(
                        (MemoryAccess { offset, address, length: data.len() as u64 }, data),
                    ),
                }
            },
        },
    }
}

/// Checks a memory write and decodes its bytes.
pub fn check_write(params: &Json) -> (r: Result<(MemoryAccess, Vec<u8>), N64Error>)
    ensures
        match (r, write_request(params@)) {
            (Ok((access, data)), Ok((a, d))) => access == a && data@ == d,
            (Err(e), Err(f)) => e@ == f,
            _ => false,
        },
        r matches Ok((a, data)) ==> a.length == data@.len() && n64::RDRAM_BASE <= a.address
            && a.address + a.length <= n64::RDRAM_BASE + RDRAM_SIZE,
{
    let given = match params.get("hex") {
        Some(v) => Some(v),
        None => params.get("data"),
    };
    let raw = match given {
        Some(v) => v.as_str(),
        None => None,
    };
    let raw = match raw {
        Some(raw) => raw,
        None => {
            return Err(N64Error::BadParams("missing required param: hex".to_owned()));
        },
    };
    let data = match encoding::hex_decode(raw) {
        Some(data) => data,
        None => {
            return Err(N64Error::BadParams("hex must contain complete bytes".to_owned()));
        },
    };
    if data.len() as u64 > MAX_MEMORY_TRANSFER {
        let m = text::join("write length ", text::prefixed_hex_of(data.len() as u64).as_str());
        let m = text::join(m.as_str(), " exceeds ");
        return Err(
            N64Error::BadParams(
                text::join(m.as_str(), text::prefixed_hex_of(MAX_MEMORY_TRANSFER).as_str()),
            ),
        );
    }
    let offset: u64 = params::required_num(params, "address")?;
    let address: u64 = params::rdram_address(params, data.len() as u64)?;
    Ok((MemoryAccess { offset, address, length: data.len() as u64 }, data))
}

/// The report of a memory write.
pub fn write_report(access: MemoryAccess) -> (r: Json)
    ensures
        r@ == JsonView::object().with("address"@, JsonView::Unsigned(access.offset)).with(
            "written"@,
            JsonView::Unsigned(access.length),
        ),
{
    Json::object().with("address", Json::Unsigned(access.offset)).with(
        "written",
        Json::Unsigned(access.length),
    )
}

/// What a write put there is what a read of the same range asks for: the reply of the read is the
/// text of the written bytes where the memory holds them.
pub proof fn read_asks_for_what_write_put(params: JsonView, reader: JsonView)
    requires
        write_request(params) is Ok,
        reader.field("address"@) == params.field("address"@),
        reader.field("memory_type"@) == params.field("memory_type"@),
        reader.field("length"@) == Some(
            JsonView::Unsigned(write_request(params)->Ok_0.1.len() as u64),
        ),
    ensures
        read_request(reader) == Ok::<_, N64ErrorView>(write_request(params)->Ok_0.0),
        encoding::hex_bytes(encoding::hex_text(write_request(params)->Ok_0.1)) == Some(
            write_request(params)->Ok_0.1,
        ),
{
    encoding::hex_round_trip(write_request(params)->Ok_0.1);
}

/// The number of instructions and the address of a disassembly.
pub open spec fn disassembly_request(params: JsonView) -> Result<(u64, u64), N64ErrorView> {
    match params::optional(params, "count"@) {
        Err(e) => Err(e),
        Ok(given) => {
            let count = match given {
                Some(n) => n,
                None => 8,
            };
            if 1 <= count <= debug::MAX_DISASSEMBLY_COUNT {
                match debug::disassembly_window(params, count) {
                    Err(e) => Err(e),
                    Ok((base, _)) => Ok((count, base)),
                }
            } else {
                n64::bad_params(
                    "N64 disassemble count must be in 1..="@ + text::decimal(
                        debug::MAX_DISASSEMBLY_COUNT as int,
                    ),
                )
            }
        },
    }
}

/// Checks a disassembly and gives its count and base address.
pub fn check_disassembly(params: &Json) -> (r: Result<(u64, u64), N64Error>)
    ensures
        n64::gives(r, disassembly_request(params@)),
        r matches Ok((count, base)) ==> 1 <= count <= debug::MAX_DISASSEMBLY_COUNT && base + 4
            * count <= debug::N64_ADDRESS_SPACE_SIZE,
{
    let count: u64 = match params::optional_num(params, "count")? {
        Some(n) => n,
        None => 8,
    };
    if count < 1 || count > debug::MAX_DISASSEMBLY_COUNT {
        return Err(
            N64Error::BadParams(
                text::join(
                    "N64 disassemble count must be in 1..=",
                    text::decimal_of(debug::MAX_DISASSEMBLY_COUNT).as_str(),
                ),
            ),
        );
    }
    let (base, _length) = debug::disassembly_range(params, count)?;
    Ok((count, base))
}

/// The word in four bytes, most significant first.
pub fn opcode_of(bytes: &[u8]) -> (r: u32)
    requires
        bytes@.len() == 4,
    ensures
        r == control::big_endian(bytes@, 0),
{
    bytes[0] as u32 * 0x100_0000 + bytes[1] as u32 * 0x1_0000 + bytes[2] as u32 * 0x100
        + bytes[3] as u32
}

/// The report of one disassembled instruction.
pub fn instruction_report(address: u64, bytes: &[u8], mnemonic: &str, arguments: &str) -> (r: Json)
    ensures
        r@ == JsonView::object().with("addr"@, JsonView::Unsigned(address)).with(
            "bytes"@,
            JsonView::Str(encoding::hex_text(bytes@)),
        ).with("length"@, JsonView::Unsigned(4)).with(
            "text"@,
            JsonView::Str(
                if arguments@.len() == 0 {
                    mnemonic@
                } else {
                    (mnemonic@ + " "@) + arguments@
                },
            ),
        ),
{
    let line = if arguments.is_empty() {
        mnemonic.to_owned()
    } else {
        text::join(text::join(mnemonic, " ").as_str(), arguments)
    };
    Json::object().with("addr", Json::Unsigned(address)).with(
        "bytes",
        Json::Str(encoding::hex_encode(bytes)),
    ).with("length", Json::Unsigned(4)).with("text", Json::Str(line))
}

/// The report of a disassembly.
pub fn disassembly_report(instructions: Vec<Json>) -> (r: Json)
    ensures
        r@ == JsonView::object().with(
            "instructions"@,
            JsonView::Array(json::views(instructions@)),
        ).with("cpu"@, JsonView::Str("r4300"@)),
{
    Json::object().with("instructions", Json::array(instructions)).with("cpu", Json::text("r4300"))
}

/// The general registers of the R4300, from the first on.
pub open spec fn general_registers(values: Seq<u64>, n: nat) -> JsonView
    decreases n,
{
    if n == 0 {
        JsonView::object()
    } else {
        general_registers(values, (n - 1) as nat).with(
            "r"@ + text::decimal(n - 1),
            JsonView::Unsigned(values[n - 1]),
        )
    }
}

/// The registers of the R4300: the general ones, the program counter, and the multiply pair.
pub fn registers_report(values: &[u64], pc: u32, hi: u64, lo: u64) -> (r: Json)
    requires
        values@.len() == 32,
    ensures
        r@ == general_registers(values@, 32).with("pc"@, JsonView::Unsigned(pc as u64)).with(
            "hi"@,
            JsonView::Unsigned(hi),
        ).with("lo"@, JsonView::Unsigned(lo)),
{
    let mut registers = Json::object();
    let mut i: usize = 0;
    while i < 32
        invariant
            i <= 32,
            values@.len() == 32,
            registers@ == general_registers(values@, i as nat),
        decreases 32 - i,
    {
        let name = text::join("r", text::decimal_of(i as u64).as_str());
        registers = registers.with(name.as_str(), Json::Unsigned(values[i]));
        i += 1;
    }
    registers.with("pc", Json::Unsigned(pc as u64)).with("hi", Json::Unsigned(hi)).with(
        "lo",
        Json::Unsigned(lo),
    )
}

/// The report of the machine state around its registers.
pub fn state_report(registers: Json, facts: StatusFacts) -> (r: Json)
    ensures
        r@ == JsonView::object().with("cpu"@, JsonView::Str("r4300"@)).with(
            "state"@,
            registers@,
        ).with("frame"@, JsonView::Unsigned(facts.frame)).with(
            "rendered_frame"@,
            JsonView::Unsigned(facts.rendered_frame),
        ).with("rendered_frame_observed"@, JsonView::Bool(facts.rendered_frame_observed)).with(
            "rendered_frame_synchronized"@,
            JsonView::Bool(facts.synchronized),
        ).with("vi_count"@, JsonView::Unsigned(facts.vi_count)),
{
    Json::object().with("cpu", Json::text("r4300")).with("state", registers).with(
        "frame",
        Json::Unsigned(facts.frame),
    ).with("rendered_frame", Json::Unsigned(facts.rendered_frame)).with(
        "rendered_frame_observed",
        Json::Bool(facts.rendered_frame_observed),
    ).with("rendered_frame_synchronized", Json::Bool(facts.synchronized)).with(
        "vi_count",
        Json::Unsigned(facts.vi_count),
    )
}

/// The identity of the loaded ROM, by the digest and size of its file.
pub fn rom_report(name: &str, path: &str, sha1: &str, size: u64, extension: &str) -> (r: Json)
    ensures
        r@ == JsonView::object().with("system"@, JsonView::Str("n64"@)).with(
            "adapter"@,
            JsonView::Str("mupen64plus-native"@),
        ).with("name"@, JsonView::Str(name@)).with("path"@, JsonView::Str(path@)).with(
            "sha1"@,
            JsonView::Str(sha1@),
        ).with("size"@, JsonView::Unsigned(size)).with(
            "media_type"@,
            JsonView::Str(text::lowered(extension@)),
        ),
{
    Json::object().with("system", Json::text("n64")).with(
        "adapter",
        Json::text("mupen64plus-native"),
    ).with("name", Json::text(name)).with("path", Json::text(path)).with(
        "sha1",
        Json::text(sha1),
    ).with("size", Json::Unsigned(size)).with("media_type", Json::Str(text::lower(extension)))
}

} // verus!
