//! Answering requests: which operation a method is, what the bridge tells of itself, and which
//! requests work with files.

use vstd::prelude::*;
use crate::gdb;
use crate::gdb::{GdbBridgeEnv, GdbStep, GdbTransport};
use crate::json;
use crate::json::{Json, JsonView};
use crate::live::protocol::{Request, Response, ResponseView};
use crate::live::temporal::{MAX_SYNC_ADVANCE_COUNT, MAX_SYNC_OPERATION_MS};
use crate::neogeo;
use crate::neogeo::breakpoints;
use crate::neogeo::control;
use crate::neogeo::files;
use crate::neogeo::files::StateVerb;
use crate::neogeo::hits;
use crate::neogeo::machine;
use crate::neogeo::machine::{MachineView, NeoGeoBridge, Run};
use crate::neogeo::memory;
use crate::neogeo::{
    BridgeError,
    BridgeErrorView,
    NeoGeoProfile,
    FRAME_OPERATION_BUDGET_MS,
    MAX_DRAINED_PACKETS,
};
use crate::text;

verus! {

/// The operation that a method is.
#[derive(Debug, Clone, Copy, PartialEq, Eq, Structural)]
pub enum Operation {
    Hello,
    Status,
    GetRomInfo,
    GetState,
    SaveState,
    LoadState,
    ReadMemory,
    WriteMemory,
    Screenshot,
    SetInput,
    PressButtons,
    Pause,
    Resume,
    Step,
    StepInstructions,
    RunFrames,
    Reset,
    SetBreakpoint,
    ClearBreakpoint,
    ListBreakpoints,
    ClearAllBreakpoints,
    PollEvents,
    Disassemble,
    CallStack,
}

/// The methods of a machine.
pub open spec fn methods(profile: NeoGeoProfile) -> Seq<Seq<char>> {
    match profile {
        NeoGeoProfile::Mvs | NeoGeoProfile::Aes => seq![
            "hello"@,
            "status"@,
            "get_rom_info"@,
            "get_state"@,
            "save_state"@,
            "load_state"@,
            "read_memory"@,
            "write_memory"@,
            "screenshot"@,
            "set_input"@,
            "press_buttons"@,
            "pause"@,
            "resume"@,
            "step"@,
            "step_instructions"@,
            "run_frames"@,
            "reset"@,
            "set_breakpoint"@,
            "clear_breakpoint"@,
            "list_breakpoints"@,
            "clear_all_breakpoints"@,
            "poll_events"@,
            "disassemble"@,
            "call_stack"@,
        ],
        NeoGeoProfile::Cd => seq![
            "hello"@,
            "status"@,
            "get_rom_info"@,
            "get_state"@,
            "read_memory"@,
            "write_memory"@,
            "screenshot"@,
            "set_input"@,
            "press_buttons"@,
            "pause"@,
            "resume"@,
            "step"@,
            "step_instructions"@,
            "run_frames"@,
            "reset"@,
            "set_breakpoint"@,
            "clear_breakpoint"@,
            "list_breakpoints"@,
            "clear_all_breakpoints"@,
            "poll_events"@,
            "disassemble"@,
            "call_stack"@,
        ],
    }
}

/// The exceptions of the contracts that are active for a machine.
pub open spec fn exceptions(profile: NeoGeoProfile) -> Seq<Seq<char>> {
    match profile {
        NeoGeoProfile::Mvs | NeoGeoProfile::Aes => seq![
            "neogeo.state-read.frozen-only"@,
            "neogeo.state-save.frozen-only"@,
            "neogeo.state-load.frozen-only"@,
            "neogeo.memory-read.frozen-only"@,
            "neogeo.memory-read.bounded"@,
            "neogeo.memory-write.frozen-only"@,
            "neogeo.input-hold.port-zero-only"@,
            "neogeo.input-pulse.constraints"@,
            "neogeo.execution-step.main-cpu-only"@,
            "neogeo.execution-pause.machine-global"@,
            "neogeo.execution-resume.machine-global"@,
            "neogeo.breakpoint.pausing-subset"@,
            "neogeo.call-stack.frozen-best-effort"@,
        ],
        NeoGeoProfile::Cd => seq![
            "neogeo.state-read.frozen-only"@,
            "neogeo.memory-read.frozen-only"@,
            "neogeo.memory-read.bounded"@,
            "neogeo.memory-write.frozen-only"@,
            "neogeo.input-hold.port-zero-only"@,
            "neogeo.input-pulse.constraints"@,
            "neogeo.execution-step.main-cpu-only"@,
            "neogeo.execution-pause.machine-global"@,
            "neogeo.execution-resume.machine-global"@,
            "neogeo.breakpoint.pausing-subset"@,
            "neogeo.call-stack.frozen-best-effort"@,
        ],
    }
}

/// The operation of a method.
pub open spec fn operation_of(method: Seq<char>) -> Option<Operation> {
    if method == "hello"@ {
        Some(Operation::Hello)
    } else if method == "status"@ {
        Some(Operation::Status)
    } else if method == "get_rom_info"@ {
        Some(Operation::GetRomInfo)
    } else if method == "get_state"@ {
        Some(Operation::GetState)
    } else if method == "save_state"@ {
        Some(Operation::SaveState)
    } else if method == "load_state"@ {
        Some(Operation::LoadState)
    } else if method == "read_memory"@ {
        Some(Operation::ReadMemory)
    } else if method == "write_memory"@ {
        Some(Operation::WriteMemory)
    } else if method == "screenshot"@ {
        Some(Operation::Screenshot)
    } else if method == "set_input"@ {
        Some(Operation::SetInput)
    } else if method == "press_buttons"@ {
        Some(Operation::PressButtons)
    } else if method == "pause"@ {
        Some(Operation::Pause)
    } else if method == "resume"@ {
        Some(Operation::Resume)
    } else if method == "step"@ {
        Some(Operation::Step)
    } else if method == "step_instructions"@ {
        Some(Operation::StepInstructions)
    } else if method == "run_frames"@ {
        Some(Operation::RunFrames)
    } else if method == "reset"@ {
        Some(Operation::Reset)
    } else if method == "set_breakpoint"@ {
        Some(Operation::SetBreakpoint)
    } else if method == "clear_breakpoint"@ {
        Some(Operation::ClearBreakpoint)
    } else if method == "list_breakpoints"@ {
        Some(Operation::ListBreakpoints)
    } else if method == "clear_all_breakpoints"@ {
        Some(Operation::ClearAllBreakpoints)
    } else if method == "poll_events"@ {
        Some(Operation::PollEvents)
    } else if method == "disassemble"@ {
        Some(Operation::Disassemble)
    } else if method == "call_stack"@ {
        Some(Operation::CallStack)
    } else {
        None
    }
}

/// What routing a method comes to: the disc machine has no saved states.
pub open spec fn routed_method(profile: NeoGeoProfile, method: Seq<char>) -> Result<
    Operation,
    BridgeErrorView,
> {
    match operation_of(method) {
        None => Err(BridgeErrorView::UnknownMethod(method)),
        Some(operation) => if (operation == Operation::SaveState || operation
            == Operation::LoadState) && !profile.has_state_files() {
            Err(BridgeErrorView::UnknownMethod(method))
        } else {
            Ok(operation)
        },
    }
}

fn find_operation(method: &str) -> (r: Option<Operation>)
    ensures
        r == operation_of(method@),
{
    if text::same(method, "hello") {
        Some(Operation::Hello)
    } else if text::same(method, "status") {
        Some(Operation::Status)
    } else if text::same(method, "get_rom_info") {
        Some(Operation::GetRomInfo)
    } else if text::same(method, "get_state") {
        Some(Operation::GetState)
    } else if text::same(method, "save_state") {
        Some(Operation::SaveState)
    } else if text::same(method, "load_state") {
        Some(Operation::LoadState)
    } else if text::same(method, "read_memory") {
        Some(Operation::ReadMemory)
    } else if text::same(method, "write_memory") {
        Some(Operation::WriteMemory)
    } else if text::same(method, "screenshot") {
        Some(Operation::Screenshot)
    } else if text::same(method, "set_input") {
        Some(Operation::SetInput)
    } else if text::same(method, "press_buttons") {
        Some(Operation::PressButtons)
    } else if text::same(method, "pause") {
        Some(Operation::Pause)
    } else if text::same(method, "resume") {
        Some(Operation::Resume)
    } else if text::same(method, "step") {
        Some(Operation::Step)
    } else if text::same(method, "step_instructions") {
        Some(Operation::StepInstructions)
    } else if text::same(method, "run_frames") {
        Some(Operation::RunFrames)
    } else if text::same(method, "reset") {
        Some(Operation::Reset)
    } else if text::same(method, "set_breakpoint") {
        Some(Operation::SetBreakpoint)
    } else if text::same(method, "clear_breakpoint") {
        Some(Operation::ClearBreakpoint)
    } else if text::same(method, "list_breakpoints") {
        Some(Operation::ListBreakpoints)
    } else if text::same(method, "clear_all_breakpoints") {
        Some(Operation::ClearAllBreakpoints)
    } else if text::same(method, "poll_events") {
        Some(Operation::PollEvents)
    } else if text::same(method, "disassemble") {
        Some(Operation::Disassemble)
    } else if text::same(method, "call_stack") {
        Some(Operation::CallStack)
    } else {
        None
    }
}

fn route_method(profile: NeoGeoProfile, method: &str) -> (r: Result<Operation, BridgeError>)
    ensures
        neogeo::plain(r) == routed_method(profile, method@),
{
    match find_operation(method) {
        None => Err(BridgeError::UnknownMethod(method.to_owned())),
        Some(operation) => if (operation == Operation::SaveState || operation
            == Operation::LoadState) && !profile.supports_state_files() {
            Err(BridgeError::UnknownMethod(method.to_owned()))
        } else {
            Ok(operation)
        },
    }
}

proof fn state_methods_are_others(method: Seq<char>)
    requires
        methods(NeoGeoProfile::Cd).contains(method),
    ensures
        method != "save_state"@,
        method != "load_state"@,
{
    let all = methods(NeoGeoProfile::Cd);
    let i = choose|i: int| 0 <= i < all.len() && all[i] == method;
    reveal_strlit("save_state");
    assert("save_state"@.len() == 10);
    reveal_strlit("load_state");
    assert("load_state"@.len() == 10);
    reveal_strlit("hello");
    assert("hello"@.len() == 5);
    reveal_strlit("status");
    assert("status"@.len() == 6);
    reveal_strlit("get_rom_info");
    assert("get_rom_info"@.len() == 12);
    reveal_strlit("get_state");
    assert("get_state"@.len() == 9);
    reveal_strlit("read_memory");
    assert("read_memory"@.len() == 11);
    reveal_strlit("write_memory");
    assert("write_memory"@.len() == 12);
    reveal_strlit("screenshot");
    assert("screenshot"@.len() == 10);
    assert("screenshot"@[1] != "save_state"@[1]);
    assert("screenshot"@[0] != "load_state"@[0]);
    reveal_strlit("set_input");
    assert("set_input"@.len() == 9);
    reveal_strlit("press_buttons");
    assert("press_buttons"@.len() == 13);
    reveal_strlit("pause");
    assert("pause"@.len() == 5);
    reveal_strlit("resume");
    assert("resume"@.len() == 6);
    reveal_strlit("step");
    assert("step"@.len() == 4);
    reveal_strlit("step_instructions");
    assert("step_instructions"@.len() == 17);
    reveal_strlit("run_frames");
    assert("run_frames"@.len() == 10);
    assert("run_frames"@[0] != "save_state"@[0]);
    assert("run_frames"@[0] != "load_state"@[0]);
    reveal_strlit("reset");
    assert("reset"@.len() == 5);
    reveal_strlit("set_breakpoint");
    assert("set_breakpoint"@.len() == 14);
    reveal_strlit("clear_breakpoint");
    assert("clear_breakpoint"@.len() == 16);
    reveal_strlit("list_breakpoints");
    assert("list_breakpoints"@.len() == 16);
    reveal_strlit("clear_all_breakpoints");
    assert("clear_all_breakpoints"@.len() == 21);
    reveal_strlit("poll_events");
    assert("poll_events"@.len() == 11);
    reveal_strlit("disassemble");
    assert("disassemble"@.len() == 11);
    reveal_strlit("call_stack");
    assert("call_stack"@.len() == 10);
    assert("call_stack"@[0] != "save_state"@[0]);
    assert("call_stack"@[0] != "load_state"@[0]);
}

/// A method is answered exactly where the machine tells of it.
pub proof fn told_methods_are_the_answered_ones(profile: NeoGeoProfile, method: Seq<char>)
    ensures
        methods(profile).contains(method) <==> routed_method(profile, method) is Ok,
{
    let all = methods(profile);
    if all.contains(method) {
        let i = choose|i: int| 0 <= i < all.len() && all[i] == method;
        assert(all[i] == method);
        if profile == NeoGeoProfile::Cd {
            state_methods_are_others(method);
        }
    }
    if routed_method(profile, method) is Ok {
        if profile == NeoGeoProfile::Cd {
            assert(all[0] == "hello"@);
            assert(all[1] == "status"@);
            assert(all[2] == "get_rom_info"@);
            assert(all[3] == "get_state"@);
            assert(all[4] == "read_memory"@);
            assert(all[5] == "write_memory"@);
            assert(all[6] == "screenshot"@);
            assert(all[7] == "set_input"@);
            assert(all[8] == "press_buttons"@);
            assert(all[9] == "pause"@);
            assert(all[10] == "resume"@);
            assert(all[11] == "step"@);
            assert(all[12] == "step_instructions"@);
            assert(all[13] == "run_frames"@);
            assert(all[14] == "reset"@);
            assert(all[15] == "set_breakpoint"@);
            assert(all[16] == "clear_breakpoint"@);
            assert(all[17] == "list_breakpoints"@);
            assert(all[18] == "clear_all_breakpoints"@);
            assert(all[19] == "poll_events"@);
            assert(all[20] == "disassemble"@);
            assert(all[21] == "call_stack"@);
        } else {
            assert(all[0] == "hello"@);
            assert(all[1] == "status"@);
            assert(all[2] == "get_rom_info"@);
            assert(all[3] == "get_state"@);
            assert(all[4] == "save_state"@);
            assert(all[5] == "load_state"@);
            assert(all[6] == "read_memory"@);
            assert(all[7] == "write_memory"@);
            assert(all[8] == "screenshot"@);
            assert(all[9] == "set_input"@);
            assert(all[10] == "press_buttons"@);
            assert(all[11] == "pause"@);
            assert(all[12] == "resume"@);
            assert(all[13] == "step"@);
            assert(all[14] == "step_instructions"@);
            assert(all[15] == "run_frames"@);
            assert(all[16] == "reset"@);
            assert(all[17] == "set_breakpoint"@);
            assert(all[18] == "clear_breakpoint"@);
            assert(all[19] == "list_breakpoints"@);
            assert(all[20] == "clear_all_breakpoints"@);
            assert(all[21] == "poll_events"@);
            assert(all[22] == "disassemble"@);
            assert(all[23] == "call_stack"@);
        }
        assert(all.contains(method));
    }
}

fn methods_json(profile: NeoGeoProfile) -> (r: Json)
    ensures
        r@ == json::text_array(methods(profile)),
{
    let state_files = profile.supports_state_files();
    let mut v: Vec<&'static str> = Vec::new();
    v.push("hello");
    v.push("status");
    v.push("get_rom_info");
    v.push("get_state");
    if state_files {
        v.push("save_state");
        v.push("load_state");
    }
    v.push("read_memory");
    v.push("write_memory");
    v.push("screenshot");
    v.push("set_input");
    v.push("press_buttons");
    v.push("pause");
    v.push("resume");
    v.push("step");
    v.push("step_instructions");
    v.push("run_frames");
    v.push("reset");
    v.push("set_breakpoint");
    v.push("clear_breakpoint");
    v.push("list_breakpoints");
    v.push("clear_all_breakpoints");
    v.push("poll_events");
    v.push("disassemble");
    v.push("call_stack");
    assert(json::literals(v@) =~= methods(profile));
    json::literal_array(v.as_slice())
}

/// The names of the contracts' exceptions that are active for a machine.
pub fn active_exceptions(profile: NeoGeoProfile) -> (r: Vec<&'static str>)
    ensures
        json::literals(r@) == exceptions(profile),
{
    let state_files = profile.supports_state_files();
    let mut v: Vec<&'static str> = Vec::new();
    v.push("neogeo.state-read.frozen-only");
    if state_files {
        v.push("neogeo.state-save.frozen-only");
        v.push("neogeo.state-load.frozen-only");
    }
    v.push("neogeo.memory-read.frozen-only");
    v.push("neogeo.memory-read.bounded");
    v.push("neogeo.memory-write.frozen-only");
    v.push("neogeo.input-hold.port-zero-only");
    v.push("neogeo.input-pulse.constraints");
    v.push("neogeo.execution-step.main-cpu-only");
    v.push("neogeo.execution-pause.machine-global");
    v.push("neogeo.execution-resume.machine-global");
    v.push("neogeo.breakpoint.pausing-subset");
    v.push("neogeo.call-stack.frozen-best-effort");
    assert(json::literals(v@) =~= exceptions(profile));
    v
}

/// What the bridge tells of saved states.
pub open spec fn state_notes(profile: NeoGeoProfile) -> JsonView {
    if profile.has_state_files() {
        JsonView::object().with("supported"@, JsonView::Bool(true)).with(
            "format"@,
            JsonView::Str("mame-native"@),
        ).with(
            "save_completion"@,
            JsonView::Str("pre-save notifier plus completed non-empty file"@),
        ).with("load_completion"@, JsonView::Str("post-load notifier"@)).with(
            "execution_state"@,
            JsonView::Str("frozen"@),
        ).with(
            "screenshot_after_load"@,
            JsonView::Str("step one frozen frame before judging the restored screen"@),
        )
    } else {
        JsonView::object().with("supported"@, JsonView::Bool(false)).with(
            "reason"@,
            JsonView::Str(
                "MAME 0.288 does not mark the CDZ driver as supporting save states"@,
            ),
        )
    }
}

fn state_notes_json(profile: NeoGeoProfile) -> (r: Json)
    ensures
        r@ == state_notes(profile),
{
    if profile.supports_state_files() {
        Json::object().with("supported", Json::Bool(true)).with(
            "format",
            Json::text("mame-native"),
        ).with(
            "save_completion",
            Json::text("pre-save notifier plus completed non-empty file"),
        ).with("load_completion", Json::text("post-load notifier")).with(
            "execution_state",
            Json::text("frozen"),
        ).with(
            "screenshot_after_load",
            Json::text("step one frozen frame before judging the restored screen"),
        )
    } else {
        Json::object().with("supported", Json::Bool(false)).with(
            "reason",
            Json::text("MAME 0.288 does not mark the CDZ driver as supporting save states"),
        )
    }
}

/// The limits of synchronous operations.
pub open spec fn limits() -> JsonView {
    JsonView::object().with(
        "max_sync_advance_count"@,
        JsonView::Unsigned(MAX_SYNC_ADVANCE_COUNT),
    ).with("max_sync_operation_ms"@, JsonView::Unsigned(MAX_SYNC_OPERATION_MS)).with(
        "frame"@,
        JsonView::object().with(
            "max_count"@,
            JsonView::Unsigned(neogeo::max_frames() as u64),
        ).with("estimated_ms_per_frame"@, JsonView::Unsigned(FRAME_OPERATION_BUDGET_MS)),
    )
}

fn limits_json() -> (r: Json)
    ensures
        r@ == limits(),
{
    Json::object().with(
        "max_sync_advance_count",
        Json::Unsigned(MAX_SYNC_ADVANCE_COUNT),
    ).with("max_sync_operation_ms", Json::Unsigned(MAX_SYNC_OPERATION_MS)).with(
        "frame",
        Json::object().with("max_count", Json::Unsigned(neogeo::max_sync_frame_count())).with(
            "estimated_ms_per_frame",
            Json::Unsigned(FRAME_OPERATION_BUDGET_MS),
        ),
    )
}

/// A kind of breakpoint.
pub open spec fn kind_row(kind: Seq<char>, range: Seq<char>, memory: bool, timing: Seq<char>) -> JsonView {
    JsonView::object().with("kind"@, JsonView::Str(kind)).with(
        "range_unit"@,
        JsonView::Str("address"@),
    ).with("range_mode"@, JsonView::Str(range)).with(
        "memory_type_used"@,
        JsonView::Bool(memory),
    ).with("pause_on_hit"@, JsonView::Array(seq![JsonView::Bool(true)])).with(
        "snapshot"@,
        JsonView::Bool(true),
    ).with("snapshot_timing"@, JsonView::Str(timing))
}

/// The kinds of breakpoints that the machine has.
pub open spec fn kind_rows() -> JsonView {
    JsonView::Array(
        seq![
            kind_row("exec"@, "exact"@, false, "pre_instruction"@),
            kind_row("read"@, "inclusive"@, true, "backend_stop"@),
            kind_row("write"@, "inclusive"@, true, "backend_stop"@),
        ],
    )
}

fn describe_kind(kind: &str, range: &str, memory: bool, timing: &str) -> (r: Json)
    ensures
        r@ == kind_row(kind@, range@, memory, timing@),
{
    let mut pausing: Vec<Json> = Vec::new();
    pausing.push(Json::Bool(true));
    assert(json::views(pausing@) =~= seq![JsonView::Bool(true)]);
    Json::object().with("kind", Json::text(kind)).with("range_unit", Json::text("address")).with(
        "range_mode",
        Json::text(range),
    ).with("memory_type_used", Json::Bool(memory)).with(
        "pause_on_hit",
        Json::array(pausing),
    ).with("snapshot", Json::Bool(true)).with("snapshot_timing", Json::text(timing))
}

/// The kinds of breakpoints that the machine has.
pub fn breakpoint_kinds() -> (r: Json)
    ensures
        r@ == kind_rows(),
{
    let mut rows: Vec<Json> = Vec::new();
    rows.push(describe_kind("exec", "exact", false, "pre_instruction"));
    rows.push(describe_kind("read", "inclusive", true, "backend_stop"));
    rows.push(describe_kind("write", "inclusive", true, "backend_stop"));
    assert(json::views(rows@) =~= kind_rows()->Array_0);
    Json::array(rows)
}

/// What the bridge tells of its buttons.
pub open spec fn buttons_told(system: Seq<char>, profile: NeoGeoProfile) -> JsonView {
    JsonView::object().with("system"@, JsonView::Str(system)).with(
        "buttons"@,
        json::text_array(profile.buttons()),
    )
}

fn buttons_json(system: &str, profile: NeoGeoProfile) -> (r: Json)
    ensures
        r@ == buttons_told(system@, profile),
{
    Json::object().with("system", Json::text(system)).with(
        "buttons",
        json::literal_array(profile.input_buttons().as_slice()),
    )
}

/// The notes on what the bridge can do.
pub open spec fn notes(profile: NeoGeoProfile) -> JsonView {
    JsonView::object().with("implemented_methods"@, json::text_array(methods(profile))).with(
        "step_units"@,
        json::text_array(seq!["frames"@, "instructions"@]),
    ).with("step_cpus"@, json::text_array(seq!["m68000"@])).with(
        "main_cpu"@,
        JsonView::Str("m68000"@),
    ).with("secondary_cpu"@, JsonView::Str("z80"@)).with(
        "initial_scope"@,
        JsonView::Str(profile.scope_name()),
    ).with("state_restore"@, state_notes(profile))
}

fn notes_json(profile: NeoGeoProfile) -> (r: Json)
    ensures
        r@ == notes(profile),
{
    let mut units: Vec<&'static str> = Vec::new();
    units.push("frames");
    units.push("instructions");
    assert(json::literals(units@) =~= seq!["frames"@, "instructions"@]);
    Json::object().with("implemented_methods", methods_json(profile)).with(
        "step_units",
        json::literal_array(units.as_slice()),
    ).with("step_cpus", json::one_text("m68000")).with("main_cpu", Json::text("m68000")).with(
        "secondary_cpu",
        Json::text("z80"),
    ).with("initial_scope", Json::text(profile.scope())).with(
        "state_restore",
        state_notes_json(profile),
    )
}

/// The size of the work memory, by its name.
pub open spec fn sizes(profile: NeoGeoProfile) -> JsonView {
    JsonView::object().with("ram"@, JsonView::Unsigned(profile.memory().1))
}

fn sizes_json(profile: NeoGeoProfile) -> (r: Json)
    ensures
        r@ == sizes(profile),
{
    let (_, size) = profile.ram();
    Json::object().with("ram", Json::Unsigned(size))
}

/// What the bridge says of its launch.
pub open spec fn with_launch(hello: JsonView, env: GdbBridgeEnv) -> JsonView {
    let named = json::with_text(
        json::with_text(
            json::with_text(
                json::with_text(hello, "name"@, env.name),
                "session_token"@,
                env.session_token,
            ),
            "launch_id"@,
            env.launch_id,
        ),
        "content"@,
        env.content,
    );
    named.with(
        "build"@,
        JsonView::Str(
            match env.build {
                Some(build) => build@,
                None => "unknown"@,
            },
        ),
    )
}

fn add_launch(hello: Json, env: &GdbBridgeEnv) -> (r: Json)
    ensures
        r@ == with_launch(hello@, *env),
{
    let hello = json::add_text(hello, "name", &env.name);
    let hello = json::add_text(hello, "session_token", &env.session_token);
    let hello = json::add_text(hello, "launch_id", &env.launch_id);
    let hello = json::add_text(hello, "content", &env.content);
    let build = match &env.build {
        Some(build) => build.as_str(),
        None => "unknown",
    };
    hello.with("build", Json::text(build))
}

/// What the bridge tells of itself. No kind of breakpoint is promised before the machine is asked
/// for its status.
pub open spec fn hello_report(system: Seq<char>, profile: NeoGeoProfile, env: GdbBridgeEnv) -> JsonView {
    with_launch(
        JsonView::object().with("protocol_version"@, JsonView::Unsigned(env.protocol_version)).with(
            "system"@,
            JsonView::Str(system),
        ).with("adapter"@, JsonView::Str("mame-neogeo-rust-gdb"@)).with(
            "backend"@,
            JsonView::Str("lua-gdbstub"@),
        ).with("debugger"@, JsonView::Bool(true)).with(
            "methods"@,
            json::text_array(methods(profile)),
        ).with("memory_types"@, json::text_array(seq!["ram"@])).with(
            "region_sizes"@,
            sizes(profile),
        ).with("breakpoint_kinds"@, JsonView::Array(Seq::empty())).with(
            "contracts"@,
            env.contracts@,
        ).with("input_buttons"@, buttons_told(system, profile)).with(
            "capability_notes"@,
            notes(profile),
        ).with("execution_limits"@, limits()),
        env,
    )
}

/// The input that is held, by the frames that are left of it.
pub open spec fn override_report(left: i64) -> JsonView {
    if left == 0 {
        JsonView::object().with("observable"@, JsonView::Bool(true)).with(
            "engaged"@,
            JsonView::Bool(false),
        ).with("mode"@, JsonView::Str("native"@))
    } else if left < 0 {
        JsonView::object().with("observable"@, JsonView::Bool(true)).with(
            "engaged"@,
            JsonView::Bool(true),
        ).with("mode"@, JsonView::Str("persistent"@))
    } else {
        JsonView::object().with("observable"@, JsonView::Bool(true)).with(
            "engaged"@,
            JsonView::Bool(true),
        ).with("mode"@, JsonView::Str("timed"@)).with(
            "remaining_frames"@,
            JsonView::Unsigned(left as u64),
        )
    }
}

fn describe_override(left: i64) -> (r: Json)
    ensures
        r@ == override_report(left),
{
    if left == 0 {
        Json::object().with("observable", Json::Bool(true)).with(
            "engaged",
            Json::Bool(false),
        ).with("mode", Json::text("native"))
    } else if left < 0 {
        Json::object().with("observable", Json::Bool(true)).with("engaged", Json::Bool(true)).with(
            "mode",
            Json::text("persistent"),
        )
    } else {
        Json::object().with("observable", Json::Bool(true)).with("engaged", Json::Bool(true)).with(
            "mode",
            Json::text("timed"),
        ).with("remaining_frames", Json::Unsigned(left as u64))
    }
}

/// The pieces of a list that are not empty.
pub open spec fn full_pieces(items: Seq<Seq<char>>) -> Seq<Seq<char>>
    decreases items.len(),
{
    if items.len() == 0 {
        Seq::empty()
    } else {
        let earlier = full_pieces(items.drop_last());
        if items.last().len() == 0 {
            earlier
        } else {
            earlier.push(items.last())
        }
    }
}

fn read_fields(raw: &str) -> (r: Vec<String>)
    ensures
        text::text_views(r@) == full_pieces(text::pieces(raw@, ',')),
{
    let items = text::split(raw, ',');
    let ghost all = text::text_views(items@);
    let mut full: Vec<String> = Vec::new();
    let mut i: usize = 0;
    assert(all.take(0) =~= Seq::empty());
    assert(text::text_views(full@) =~= Seq::empty());
    while i < items.len()
        invariant
            i <= items@.len(),
            all == text::text_views(items@),
            all == text::pieces(raw@, ','),
            text::text_views(full@) == full_pieces(all.take(i as int)),
        decreases items.len() - i,
    {
        proof {
            assert(all.take(i + 1).drop_last() =~= all.take(i as int));
            assert(all.take(i + 1).last() == items@[i as int]@);
        }
        let chars = text::chars_of(items[i].as_str());
        if chars.len() > 0 {
            let ghost earlier = text::text_views(full@);
            let item = items[i].clone();
            full.push(item);
            assert(text::text_views(full@) =~= earlier.push(item@));
        }
        i += 1;
    }
    assert(all.take(i as int) =~= all);
    full
}

/// Reading the input fields that the machine has.
pub open spec fn fields_run(h: Seq<GdbStep>, n: int, s: MachineView) -> Run<Seq<Seq<char>>> {
    match machine::lua_run(h, n, s, "inputfields"@, None) {
        None => None,
        Some((m, t, Err(e))) => Some((m, t, Err(e))),
        Some((m, t, Ok(raw))) => Some((m, t, Ok(full_pieces(text::pieces(raw, ','))))),
    }
}

/// Reading the input that is held.
pub open spec fn override_run(h: Seq<GdbStep>, n: int, s: MachineView) -> Run<JsonView> {
    match machine::lua_run(h, n, s, "inputstatus"@, None) {
        None => None,
        Some((m, t, Err(e))) => Some((m, t, Err(e))),
        Some((m, t, Ok(raw))) => Some(
            (
                m,
                t,
                match text::i64_value(raw) {
                    Some(left) => Ok(override_report(left)),
                    None => neogeo::fault("invalid MAME input status"@),
                },
            ),
        ),
    }
}

/// The report of the status.
pub open spec fn status_report(
    system: Seq<char>,
    s: MachineView,
    frame: u64,
    fields: Seq<Seq<char>>,
    held: JsonView,
) -> JsonView {
    JsonView::object().with("connected"@, JsonView::Bool(true)).with(
        "system"@,
        JsonView::Str(system),
    ).with("adapter"@, JsonView::Str("mame-neogeo-rust-gdb"@)).with(
        "backend"@,
        JsonView::Str("lua-gdbstub"@),
    ).with("debugger"@, JsonView::Bool(true)).with(
        "state"@,
        JsonView::Str(control::state_name(s.frozen)),
    ).with("frame"@, JsonView::Unsigned(frame)).with(
        "methods"@,
        json::text_array(methods(s.profile)),
    ).with("memory_types"@, json::text_array(seq!["ram"@])).with(
        "region_sizes"@,
        sizes(s.profile),
    ).with("breakpoint_kinds"@, kind_rows()).with(
        "input_buttons"@,
        buttons_told(system, s.profile).with("available"@, json::text_array(fields)),
    ).with("input_override"@, held).with("execution_limits"@, limits())
}

/// Telling the status.
pub open spec fn status_run(h: Seq<GdbStep>, n: int, s: MachineView, system: Seq<char>) -> Run<
    JsonView,
> {
    match hits::drain_run(h, n, s, MAX_DRAINED_PACKETS as nat) {
        None => None,
        Some((m, t, Err(e))) => Some((m, t, Err(e))),
        Some((m, t, Ok(()))) => match machine::frame_run(h, m, t) {
            None => None,
            Some((k, u, Err(e))) => Some((k, u, Err(e))),
            Some((k, u, Ok(frame))) => match fields_run(h, k, u) {
                None => None,
                Some((j, v, Err(e))) => Some((j, v, Err(e))),
                Some((j, v, Ok(fields))) => match override_run(h, j, v) {
                    None => None,
                    Some((i, w, Err(e))) => Some((i, w, Err(e))),
                    Some((i, w, Ok(held))) => Some(
                        (i, w, Ok(status_report(system, w, frame, fields, held))),
                    ),
                },
            },
        },
    }
}

/// What some texts hold, or why there are none.
pub open spec fn shown_texts(r: Result<Vec<String>, BridgeError>) -> Result<
    Seq<Seq<char>>,
    BridgeErrorView,
> {
    match r {
        Ok(v) => Ok(text::text_views(v@)),
        Err(e) => Err(e@),
    }
}

/// What an answer holds.
pub open spec fn outcome_of(r: Result<JsonView, BridgeErrorView>) -> Result<
    JsonView,
    (Seq<char>, Seq<char>),
> {
    match r {
        Ok(v) => Ok(v),
        Err(e) => Err((e.wire_kind(), e.sentence())),
    }
}

/// The answer to a request.
pub fn respond(id: u64, result: Result<Json, BridgeError>) -> (r: Response)
    ensures
        r.tells(ResponseView { id, outcome: outcome_of(neogeo::shown(result)) }),
{
    match result {
        Ok(value) => Response::success(id, value),
        Err(error) => Response::failure(id, error.error_kind(), error.message()),
    }
}

/// The path of the game.
pub open spec fn content_of(env: GdbBridgeEnv) -> Result<Seq<char>, BridgeErrorView> {
    match env.content {
        Some(path) => Ok(path@),
        None => neogeo::bad("EMUCAP_CONTENT is not set for get_rom_info"@),
    }
}

/// What a request comes to: an answer, or work with files that ends in one.
#[derive(Debug)]
pub enum Handled {
    Done(Response),
    /// The file of the game is to be described.
    RomInfo { id: u64, path: String },
    /// A state is to be saved.
    SaveState { id: u64, path: String },
    /// A state is to be loaded.
    LoadState { id: u64, path: String },
    /// A screenshot is to be taken.
    Screenshot { id: u64 },
    /// A disassembly is to be listed.
    Disassemble { id: u64, address: u64, count: u64 },
}

impl Handled {
    /// Whether a request was answered with a result.
    pub open spec fn is_answer(self, id: u64, r: Result<JsonView, BridgeErrorView>) -> bool {
        self matches Handled::Done(response) && response.tells(
            ResponseView { id, outcome: outcome_of(r) },
        )
    }
}

/// Whether an operation works with files.
pub open spec fn needs_files(operation: Operation) -> bool {
    operation == Operation::GetRomInfo || operation == Operation::SaveState || operation
        == Operation::LoadState || operation == Operation::Screenshot || operation
        == Operation::Disassemble
}

/// What an operation that needs no file comes to.
pub open spec fn operation_run(
    h: Seq<GdbStep>,
    n: int,
    s: MachineView,
    system: Seq<char>,
    env: GdbBridgeEnv,
    operation: Operation,
    params: JsonView,
) -> Run<JsonView> {
    match operation {
        Operation::Hello => Some((n, s, Ok(hello_report(system, s.profile, env)))),
        Operation::Status => status_run(h, n, s, system),
        Operation::GetState => memory::get_state_run(h, n, s),
        Operation::ReadMemory => memory::read_memory_run(h, n, s, params),
        Operation::WriteMemory => memory::write_memory_run(h, n, s, params),
        Operation::SetInput => control::set_input_run(h, n, s, params),
        Operation::PressButtons => control::press_run(h, n, s, params),
        Operation::Pause => control::pause_run(h, n, s, params),
        Operation::Resume => control::resume_run(h, n, s, params),
        Operation::Step => control::step_run(h, n, s, params),
        Operation::StepInstructions => control::step_instructions_run(h, n, s, params),
        Operation::RunFrames => control::run_frames_run(h, n, s, params),
        Operation::Reset => control::reset_run(h, n, s),
        Operation::SetBreakpoint => breakpoints::set_run(h, n, s, params),
        Operation::ClearBreakpoint => breakpoints::clear_one_run(h, n, s, params),
        Operation::ListBreakpoints => Some((n, s, Ok(breakpoints::bp_list(s.bps)))),
        Operation::ClearAllBreakpoints => breakpoints::clear_every_run(h, n, s),
        Operation::PollEvents => breakpoints::poll_run(h, n, s, params),
        Operation::CallStack => memory::call_stack_run(h, n, s, params),
        Operation::GetRomInfo | Operation::SaveState | Operation::LoadState
        | Operation::Screenshot | Operation::Disassemble => None,
    }
}

/// Whether a request that works with files was handled: it was refused, or the work is told.
pub open spec fn file_work(
    s: MachineView,
    env: GdbBridgeEnv,
    operation: Operation,
    id: u64,
    params: JsonView,
    r: Handled,
) -> bool {
    match operation {
        Operation::GetRomInfo => match content_of(env) {
            Err(e) => r.is_answer(id, Err(e)),
            Ok(path) => r matches Handled::RomInfo { id: i, path: p } && i == id && p@ == path,
        },
        Operation::SaveState => match files::state_request(s, StateVerb::Save, params) {
            Err(e) => r.is_answer(id, Err(e)),
            Ok(path) => r matches Handled::SaveState { id: i, path: p } && i == id && p@ == path,
        },
        Operation::LoadState => match files::state_request(s, StateVerb::Load, params) {
            Err(e) => r.is_answer(id, Err(e)),
            Ok(path) => r matches Handled::LoadState { id: i, path: p } && i == id && p@ == path,
        },
        Operation::Screenshot => r matches Handled::Screenshot { id: i } && i == id,
        Operation::Disassemble => match files::listing_request(params) {
            Err(e) => r.is_answer(id, Err(e)),
            Ok((address, count)) => r matches Handled::Disassemble { id: i, address: a, count: c }
                && i == id && a == address && c == count,
        },
        _ => false,
    }
}

impl<G: GdbTransport> NeoGeoBridge<G> {
    /// Tells of the bridge itself.
    pub fn hello(&self) -> (r: Json)
        ensures
            r@ == hello_report(self.system@, self.profile, self.env),
    {
        let none: Vec<Json> = Vec::new();
        assert(json::views(none@) =~= Seq::empty());
        let system = self.system.as_str();
        let profile = self.profile;
        add_launch(
            Json::object().with(
                "protocol_version",
                Json::Unsigned(self.env.protocol_version),
            ).with("system", Json::text(system)).with(
                "adapter",
                Json::text("mame-neogeo-rust-gdb"),
            ).with("backend", Json::text("lua-gdbstub")).with("debugger", Json::Bool(true)).with(
                "methods",
                methods_json(profile),
            ).with("memory_types", json::one_text("ram")).with(
                "region_sizes",
                sizes_json(profile),
            ).with("breakpoint_kinds", Json::array(none)).with(
                "contracts",
                self.env.contracts.clone(),
            ).with("input_buttons", buttons_json(system, profile)).with(
                "capability_notes",
                notes_json(profile),
            ).with("execution_limits", limits_json()),
            &self.env,
        )
    }

    fn input_fields(&mut self) -> (r: Result<Vec<String>, BridgeError>)
        ensures
            machine::went_on(*old(self), *final(self)),
            final(self)@ == old(self)@,
            forall|h: Seq<GdbStep>|
                gdb::goes_on(final(self).gdb.history(), h) ==> #[trigger] fields_run(
                    h,
                    old(self).gdb.history().len() as int,
                    old(self)@,
                ) == Some((final(self).gdb.history().len() as int, final(self)@, shown_texts(r))),
    {
        let raw = self.lua_cmd("inputfields", None)?;
        Ok(read_fields(raw.as_str()))
    }

    fn input_override(&mut self) -> (r: Result<Json, BridgeError>)
        ensures
            machine::went_on(*old(self), *final(self)),
            final(self)@ == old(self)@,
            forall|h: Seq<GdbStep>|
                gdb::goes_on(final(self).gdb.history(), h) ==> #[trigger] override_run(
                    h,
                    old(self).gdb.history().len() as int,
                    old(self)@,
                ) == Some((final(self).gdb.history().len() as int, final(self)@, neogeo::shown(r))),
    {
        let raw = self.lua_cmd("inputstatus", None)?;
        match text::parse_i64(raw.as_str()) {
            Some(left) => Ok(describe_override(left)),
            None => Err(BridgeError::Emulator("invalid MAME input status".to_owned())),
        }
    }

    /// Tells the status.
    pub fn status(&mut self) -> (r: Result<Json, BridgeError>)
        ensures
            machine::settles(
                *old(self),
                *final(self),
                status_run(
                    final(self).gdb.history(),
                    old(self).gdb.history().len() as int,
                    old(self)@,
                    old(self).system@,
                ),
                neogeo::shown(r),
            ),
    {
        broadcast use gdb::goes_on_further;

        self.drain_breakpoint_packets()?;
        let frame: u64 = self.current_frame()?;
        let fields = self.input_fields()?;
        let held = self.input_override()?;
        let system = self.system.as_str();
        let profile = self.profile;
        let state = if self.frozen {
            "frozen"
        } else {
            "running"
        };
        Ok(
            Json::object().with("connected", Json::Bool(true)).with(
                "system",
                Json::text(system),
            ).with("adapter", Json::text("mame-neogeo-rust-gdb")).with(
                "backend",
                Json::text("lua-gdbstub"),
            ).with("debugger", Json::Bool(true)).with("state", Json::text(state)).with(
                "frame",
                Json::Unsigned(frame),
            ).with("methods", methods_json(profile)).with(
                "memory_types",
                json::one_text("ram"),
            ).with("region_sizes", sizes_json(profile)).with(
                "breakpoint_kinds",
                breakpoint_kinds(),
            ).with(
                "input_buttons",
                buttons_json(system, profile).with("available", Json::texts(fields.as_slice())),
            ).with("input_override", held).with("execution_limits", limits_json()),
        )
    }

    fn perform(&mut self, operation: Operation, params: &Json) -> (r: Result<Json, BridgeError>)
        requires
            !needs_files(operation),
        ensures
            machine::settles(
                *old(self),
                *final(self),
                operation_run(
                    final(self).gdb.history(),
                    old(self).gdb.history().len() as int,
                    old(self)@,
                    old(self).system@,
                    old(self).env,
                    operation,
                    params@,
                ),
                neogeo::shown(r),
            ),
    {
        match operation {
            Operation::Hello => Ok(self.hello()),
            Operation::Status => self.status(),
            Operation::GetState => self.get_state(),
            Operation::ReadMemory => self.read_memory(params),
            Operation::WriteMemory => self.write_memory(params),
            Operation::SetInput => self.set_input(params),
            Operation::PressButtons => self.press_buttons(params),
            Operation::Pause => self.pause(params),
            Operation::Resume => self.resume(params),
            Operation::Step => self.step(params),
            Operation::StepInstructions => self.step_instructions(params),
            Operation::RunFrames => self.run_frames(params),
            Operation::Reset => self.reset(),
            Operation::SetBreakpoint => self.set_breakpoint(params),
            Operation::ClearBreakpoint => self.clear_breakpoint(params),
            Operation::ListBreakpoints => Ok(self.list_breakpoints()),
            Operation::ClearAllBreakpoints => self.clear_all_breakpoints(),
            Operation::PollEvents => self.poll_events(params),
            Operation::CallStack => self.call_stack(params),
            _ => Err(BridgeError::UnknownMethod(String::new())),
        }
    }

    fn plan_files(&self, operation: Operation, id: u64, params: &Json) -> (r: Handled)
        requires
            needs_files(operation),
        ensures
            file_work(self@, self.env, operation, id, params@, r),
    {
        match operation {
            Operation::GetRomInfo => match &self.env.content {
                Some(path) => Handled::RomInfo { id, path: path.clone() },
                None => Handled::Done(
                    respond(
                        id,
                        Err(
                            BridgeError::BadParams(
                                "EMUCAP_CONTENT is not set for get_rom_info".to_owned(),
                            ),
                        ),
                    ),
                ),
            },
            Operation::SaveState => match self.save_request(params) {
                Ok(path) => Handled::SaveState { id, path },
                Err(error) => Handled::Done(respond(id, Err(error))),
            },
            Operation::LoadState => match self.load_request(params) {
                Ok(path) => Handled::LoadState { id, path },
                Err(error) => Handled::Done(respond(id, Err(error))),
            },
            Operation::Disassemble => match files::read_listing_request(params) {
                Ok((address, count)) => Handled::Disassemble { id, address, count },
                Err(error) => Handled::Done(respond(id, Err(error))),
            },
            _ => Handled::Screenshot { id },
        }
    }

    /// Handles a request.
    pub fn handle_request(&mut self, request: Request) -> (r: Handled)
        ensures
            machine::went_on(*old(self), *final(self)),
            match routed_method(old(self).profile, request.method@) {
                Err(e) => machine::idle(*old(self), *final(self)) && r.is_answer(
                    request.id,
                    Err(e),
                ),
                Ok(operation) => if needs_files(operation) {
                    machine::idle(*old(self), *final(self)) && file_work(
                        old(self)@,
                        old(self).env,
                        operation,
                        request.id,
                        request.params@,
                        r,
                    )
                } else {
                    match operation_run(
                        final(self).gdb.history(),
                        old(self).gdb.history().len() as int,
                        old(self)@,
                        old(self).system@,
                        old(self).env,
                        operation,
                        request.params@,
                    ) {
                        None => false,
                        Some((end, machine, result)) => end == final(self).gdb.history().len()
                            && machine == final(self)@ && r.is_answer(request.id, result),
                    }
                },
            },
    {
        let operation = match route_method(self.profile, request.method.as_str()) {
            Ok(operation) => operation,
            Err(error) => {
                return Handled::Done(respond(request.id, Err(error)));
            },
        };
        match operation {
            Operation::GetRomInfo
            | Operation::SaveState
            | Operation::LoadState
            | Operation::Screenshot
            | Operation::Disassemble => self.plan_files(operation, request.id, &request.params),
            _ => {
                let result = self.perform(operation, &request.params);
                Handled::Done(respond(request.id, result))
            },
        }
    }
}

} // verus!
