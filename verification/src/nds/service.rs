//! Answering requests: which operation a method is, what the bridge tells of itself, and the parts
//! of the requests that read or write files.

use vstd::prelude::*;
use crate::gdb;
use crate::gdb::{GdbBridgeEnv, GdbTransport};
use crate::json;
use crate::json::{Json, JsonView};
use crate::live::protocol::{Request, Response, ResponseView};
use crate::live::temporal::{MAX_SYNC_ADVANCE_COUNT, MAX_SYNC_OPERATION_MS};
use crate::nds;
use crate::nds::bridge;
use crate::nds::bridge::{Cores, NdsBridge, Ran, Wires};
use crate::nds::commands;
use crate::nds::control;
use crate::nds::events;
use crate::nds::memory;
use crate::nds::support;
use crate::nds::{CpuId, NdsBridgeError, NdsErrorView, MAX_SYNC_TIMED_INPUT_FRAMES};
use crate::text;

verus! {

/// The operation that a method is.
#[derive(Debug, Clone, Copy, PartialEq, Eq, Structural)]
pub enum Operation {
    Hello,
    Status,
    GetRomInfo,
    ReadMemory,
    WriteMemory,
    FindPattern,
    DumpMemory,
    GetState,
    Step,
    StepInstructions,
    SetBreakpoint,
    ClearBreakpoint,
    ListBreakpoints,
    ClearAllBreakpoints,
    Pause,
    Resume,
    PollEvents,
    Screenshot,
    SetInput,
    PressButtons,
    Touch,
    SaveState,
    LoadState,
    Disassemble,
    CallStack,
    Reset,
}

/// The methods that the bridge offers.
pub open spec fn methods() -> Seq<Seq<char>> {
    seq![
        "hello"@,
        "status"@,
        "get_rom_info"@,
        "read_memory"@,
        "write_memory"@,
        "get_state"@,
        "find_pattern"@,
        "dump_memory"@,
        "step_instructions"@,
        "set_breakpoint"@,
        "clear_breakpoint"@,
        "list_breakpoints"@,
        "clear_all_breakpoints"@,
        "pause"@,
        "resume"@,
        "poll_events"@,
        "screenshot"@,
        "set_input"@,
        "press_buttons"@,
        "touch"@,
        "save_state"@,
        "load_state"@,
        "disassemble"@,
        "call_stack"@,
        "reset"@,
    ]
}

/// Whether a method is one that other bridges have and that this stub cannot do.
pub open spec fn is_unsupported(method: Seq<char>) -> bool {
    method == "run_frames"@ || method == "probe"@ || method == "watch_register"@ || method
        == "set_trace"@ || method == "get_trace"@ || method == "break_on_reset"@
}

/// The operation of a method.
pub open spec fn operation_of(method: Seq<char>) -> Option<Operation> {
    if method == "hello"@ {
        Some(Operation::Hello)
    } else if method == "status"@ {
        Some(Operation::Status)
    } else if method == "get_rom_info"@ {
        Some(Operation::GetRomInfo)
    } else if method == "read_memory"@ {
        Some(Operation::ReadMemory)
    } else if method == "write_memory"@ {
        Some(Operation::WriteMemory)
    } else if method == "find_pattern"@ {
        Some(Operation::FindPattern)
    } else if method == "dump_memory"@ {
        Some(Operation::DumpMemory)
    } else if method == "get_state"@ {
        Some(Operation::GetState)
    } else if method == "step"@ {
        Some(Operation::Step)
    } else if method == "step_instructions"@ {
        Some(Operation::StepInstructions)
    } else if method == "set_breakpoint"@ {
        Some(Operation::SetBreakpoint)
    } else if method == "clear_breakpoint"@ {
        Some(Operation::ClearBreakpoint)
    } else if method == "list_breakpoints"@ {
        Some(Operation::ListBreakpoints)
    } else if method == "clear_all_breakpoints"@ {
        Some(Operation::ClearAllBreakpoints)
    } else if method == "pause"@ {
        Some(Operation::Pause)
    } else if method == "resume"@ {
        Some(Operation::Resume)
    } else if method == "poll_events"@ {
        Some(Operation::PollEvents)
    } else if method == "screenshot"@ {
        Some(Operation::Screenshot)
    } else if method == "set_input"@ {
        Some(Operation::SetInput)
    } else if method == "press_buttons"@ {
        Some(Operation::PressButtons)
    } else if method == "touch"@ {
        Some(Operation::Touch)
    } else if method == "save_state"@ {
        Some(Operation::SaveState)
    } else if method == "load_state"@ {
        Some(Operation::LoadState)
    } else if method == "disassemble"@ {
        Some(Operation::Disassemble)
    } else if method == "call_stack"@ {
        Some(Operation::CallStack)
    } else if method == "reset"@ {
        Some(Operation::Reset)
    } else {
        None
    }
}

/// What routing a method comes to.
pub open spec fn routed_method(method: Seq<char>) -> Result<Operation, NdsErrorView> {
    match operation_of(method) {
        Some(operation) => Ok(operation),
        None => if is_unsupported(method) {
            Err(NdsErrorView::Unsupported(method))
        } else {
            Err(NdsErrorView::UnknownMethod(method))
        },
    }
}

fn route_method(method: &str) -> (r: Result<Operation, NdsBridgeError>)
    ensures
        nds::plain(r) == routed_method(method@),
{
    if text::same(method, "hello") {
        Ok(Operation::Hello)
    } else if text::same(method, "status") {
        Ok(Operation::Status)
    } else if text::same(method, "get_rom_info") {
        Ok(Operation::GetRomInfo)
    } else if text::same(method, "read_memory") {
        Ok(Operation::ReadMemory)
    } else if text::same(method, "write_memory") {
        Ok(Operation::WriteMemory)
    } else if text::same(method, "find_pattern") {
        Ok(Operation::FindPattern)
    } else if text::same(method, "dump_memory") {
        Ok(Operation::DumpMemory)
    } else if text::same(method, "get_state") {
        Ok(Operation::GetState)
    } else if text::same(method, "step") {
        Ok(Operation::Step)
    } else if text::same(method, "step_instructions") {
        Ok(Operation::StepInstructions)
    } else if text::same(method, "set_breakpoint") {
        Ok(Operation::SetBreakpoint)
    } else if text::same(method, "clear_breakpoint") {
        Ok(Operation::ClearBreakpoint)
    } else if text::same(method, "list_breakpoints") {
        Ok(Operation::ListBreakpoints)
    } else if text::same(method, "clear_all_breakpoints") {
        Ok(Operation::ClearAllBreakpoints)
    } else if text::same(method, "pause") {
        Ok(Operation::Pause)
    } else if text::same(method, "resume") {
        Ok(Operation::Resume)
    } else if text::same(method, "poll_events") {
        Ok(Operation::PollEvents)
    } else if text::same(method, "screenshot") {
        Ok(Operation::Screenshot)
    } else if text::same(method, "set_input") {
        Ok(Operation::SetInput)
    } else if text::same(method, "press_buttons") {
        Ok(Operation::PressButtons)
    } else if text::same(method, "touch") {
        Ok(Operation::Touch)
    } else if text::same(method, "save_state") {
        Ok(Operation::SaveState)
    } else if text::same(method, "load_state") {
        Ok(Operation::LoadState)
    } else if text::same(method, "disassemble") {
        Ok(Operation::Disassemble)
    } else if text::same(method, "call_stack") {
        Ok(Operation::CallStack)
    } else if text::same(method, "reset") {
        Ok(Operation::Reset)
    } else if text::same(method, "run_frames") || text::same(method, "probe") || text::same(
        method,
        "watch_register",
    ) || text::same(method, "set_trace") || text::same(method, "get_trace") || text::same(
        method,
        "break_on_reset",
    ) {
        Err(NdsBridgeError::Unsupported(method.to_owned()))
    } else {
        Err(NdsBridgeError::UnknownMethod(method.to_owned()))
    }
}

/// Every method that the bridge offers is one that it answers.
pub proof fn told_methods_are_answered(i: int)
    requires
        0 <= i < methods().len(),
    ensures
        routed_method(methods()[i]) is Ok,
{
}

/// The names of the contracts' exceptions that are active in this bridge.
pub fn active_exceptions() -> (r: Vec<&'static str>)
    ensures
        json::literals(r@) == seq![
            "nds.execution.frame-step-absent"@,
            "nds.call-stack.best-effort"@,
            "nds.input-hold.port-zero-only"@,
            "nds.input-pulse.constraints"@,
            "nds.input-touch.constraints"@,
        ],
{
    let mut r: Vec<&'static str> = Vec::new();
    r.push("nds.execution.frame-step-absent");
    r.push("nds.call-stack.best-effort");
    r.push("nds.input-hold.port-zero-only");
    r.push("nds.input-pulse.constraints");
    r.push("nds.input-touch.constraints");
    assert(json::literals(r@) =~= seq![
        "nds.execution.frame-step-absent"@,
        "nds.call-stack.best-effort"@,
        "nds.input-hold.port-zero-only"@,
        "nds.input-pulse.constraints"@,
        "nds.input-touch.constraints"@,
    ]);
    r
}

fn methods_json() -> (r: Json)
    ensures
        r@ == json::text_array(methods()),
{
    let mut v: Vec<&'static str> = Vec::new();
    v.push("hello");
    v.push("status");
    v.push("get_rom_info");
    v.push("read_memory");
    v.push("write_memory");
    v.push("get_state");
    v.push("find_pattern");
    v.push("dump_memory");
    v.push("step_instructions");
    v.push("set_breakpoint");
    v.push("clear_breakpoint");
    v.push("list_breakpoints");
    v.push("clear_all_breakpoints");
    v.push("pause");
    v.push("resume");
    v.push("poll_events");
    v.push("screenshot");
    v.push("set_input");
    v.push("press_buttons");
    v.push("touch");
    v.push("save_state");
    v.push("load_state");
    v.push("disassemble");
    v.push("call_stack");
    v.push("reset");
    assert(json::literals(v@) =~= methods());
    json::literal_array(v.as_slice())
}

/// The names of the cores that are attached.
pub open spec fn cpu_names(attached: bool) -> Seq<Seq<char>> {
    if attached {
        seq!["arm9"@, "arm7"@]
    } else {
        seq!["arm9"@]
    }
}

fn cpu_names_json(attached: bool) -> (r: Json)
    ensures
        r@ == json::text_array(cpu_names(attached)),
{
    let mut v: Vec<&'static str> = Vec::new();
    v.push("arm9");
    if attached {
        v.push("arm7");
    }
    assert(json::literals(v@) =~= cpu_names(attached));
    json::literal_array(v.as_slice())
}

/// The kinds of memory that can be reached.
pub open spec fn memory_types(attached: bool) -> Seq<Seq<char>> {
    if attached {
        seq!["main"@, "arm9"@, "arm7"@]
    } else {
        seq!["main"@, "arm9"@]
    }
}

fn memory_types_json(attached: bool) -> (r: Json)
    ensures
        r@ == json::text_array(memory_types(attached)),
{
    let mut v: Vec<&'static str> = Vec::new();
    v.push("main");
    v.push("arm9");
    if attached {
        v.push("arm7");
    }
    assert(json::literals(v@) =~= memory_types(attached));
    json::literal_array(v.as_slice())
}

/// The sizes of the kinds of memory.
pub open spec fn region_sizes(attached: bool) -> JsonView {
    let sizes = JsonView::object().with("main"@, JsonView::Unsigned(0x0040_0000)).with(
        "arm9"@,
        JsonView::Unsigned(0x1_0000_0000),
    );
    if attached {
        sizes.with("arm7"@, JsonView::Unsigned(0x1_0000_0000))
    } else {
        sizes
    }
}

fn region_sizes_json(attached: bool) -> (r: Json)
    ensures
        r@ == region_sizes(attached),
{
    let sizes = Json::object().with("main", Json::Unsigned(0x0040_0000)).with(
        "arm9",
        Json::Unsigned(0x1_0000_0000),
    );
    if attached {
        sizes.with("arm7", Json::Unsigned(0x1_0000_0000))
    } else {
        sizes
    }
}

/// The notes on what the bridge can do.
pub open spec fn notes(attached: bool) -> JsonView {
    JsonView::object().with("backend"@, JsonView::Str("desmume-gdbstub"@)).with(
        "rust_bridge"@,
        JsonView::Bool(true),
    ).with("implemented_methods"@, json::text_array(methods())).with(
        "screenshot"@,
        JsonView::Bool(true),
    ).with("input"@, JsonView::Bool(true)).with(
        "timed_input_terminal_ack"@,
        JsonView::Bool(true),
    ).with("timed_input_max_frames"@, JsonView::Unsigned(MAX_SYNC_TIMED_INPUT_FRAMES)).with(
        "frame_step"@,
        JsonView::Bool(false),
    ).with("step_units"@, json::text_array(seq!["instructions"@])).with(
        "breakpoints"@,
        JsonView::Bool(true),
    ).with("watch_register"@, JsonView::Bool(false)).with("trace"@, JsonView::Bool(false)).with(
        "state_restore"@,
        JsonView::Bool(true),
    ).with("disassemble"@, JsonView::Bool(true)).with("call_stack"@, JsonView::Bool(true)).with(
        "dual_cpu"@,
        JsonView::Bool(true),
    ).with("shared_scheduler"@, JsonView::Bool(true)).with(
        "default_cpu"@,
        JsonView::Str("arm9"@),
    ).with("cpus"@, json::text_array(cpu_names(attached)))
}

fn notes_json(attached: bool) -> (r: Json)
    ensures
        r@ == notes(attached),
{
    Json::object().with("backend", Json::text("desmume-gdbstub")).with(
        "rust_bridge",
        Json::Bool(true),
    ).with("implemented_methods", methods_json()).with("screenshot", Json::Bool(true)).with(
        "input",
        Json::Bool(true),
    ).with("timed_input_terminal_ack", Json::Bool(true)).with(
        "timed_input_max_frames",
        Json::Unsigned(MAX_SYNC_TIMED_INPUT_FRAMES),
    ).with("frame_step", Json::Bool(false)).with(
        "step_units",
        json::one_text("instructions"),
    ).with("breakpoints", Json::Bool(true)).with("watch_register", Json::Bool(false)).with(
        "trace",
        Json::Bool(false),
    ).with("state_restore", Json::Bool(true)).with("disassemble", Json::Bool(true)).with(
        "call_stack",
        Json::Bool(true),
    ).with("dual_cpu", Json::Bool(true)).with("shared_scheduler", Json::Bool(true)).with(
        "default_cpu",
        Json::text("arm9"),
    ).with("cpus", cpu_names_json(attached))
}

/// The names of the buttons.
pub open spec fn button_names() -> Seq<Seq<char>> {
    seq![
        "a"@,
        "b"@,
        "x"@,
        "y"@,
        "l"@,
        "r"@,
        "start"@,
        "select"@,
        "up"@,
        "down"@,
        "left"@,
        "right"@,
    ]
}

/// What the bridge says of its buttons.
pub open spec fn buttons_report() -> JsonView {
    JsonView::object().with("system"@, JsonView::Str("nds"@)).with(
        "buttons"@,
        json::text_array(button_names()),
    ).with("implemented"@, JsonView::Bool(true)).with(
        "notes"@,
        JsonView::Str(
            "Injected on the ARM9 connection via the DeSmuME fork's QEmucap,input command. set_input holds until changed; press_buttons holds for N frames while the emulator runs."@,
        ),
    )
}

fn buttons_json() -> (r: Json)
    ensures
        r@ == buttons_report(),
{
    let mut v: Vec<&'static str> = Vec::new();
    v.push("a");
    v.push("b");
    v.push("x");
    v.push("y");
    v.push("l");
    v.push("r");
    v.push("start");
    v.push("select");
    v.push("up");
    v.push("down");
    v.push("left");
    v.push("right");
    assert(json::literals(v@) =~= button_names());
    Json::object().with("system", Json::text("nds")).with(
        "buttons",
        json::literal_array(v.as_slice()),
    ).with("implemented", Json::Bool(true)).with(
        "notes",
        Json::text(
            "Injected on the ARM9 connection via the DeSmuME fork's QEmucap,input command. set_input holds until changed; press_buttons holds for N frames while the emulator runs.",
        ),
    )
}

/// The bounds of a synchronous operation.
pub open spec fn limits() -> JsonView {
    JsonView::object().with(
        "max_sync_advance_count"@,
        JsonView::Unsigned(MAX_SYNC_ADVANCE_COUNT),
    ).with("max_sync_operation_ms"@, JsonView::Unsigned(MAX_SYNC_OPERATION_MS))
}

fn limits_json() -> (r: Json)
    ensures
        r@ == limits(),
{
    Json::object().with("max_sync_advance_count", Json::Unsigned(MAX_SYNC_ADVANCE_COUNT)).with(
        "max_sync_operation_ms",
        Json::Unsigned(MAX_SYNC_OPERATION_MS),
    )
}

/// The greeting of the bridge.
pub open spec fn hello_report(env: GdbBridgeEnv, attached: bool) -> JsonView {
    let fixed = JsonView::object().with(
        "protocol_version"@,
        JsonView::Unsigned(env.protocol_version),
    ).with("system"@, JsonView::Str("nds"@)).with(
        "adapter"@,
        JsonView::Str("desmume-nds-rust-gdb"@),
    ).with("backend"@, JsonView::Str("desmume-gdbstub"@)).with(
        "debugger"@,
        JsonView::Bool(true),
    ).with("methods"@, json::text_array(methods())).with(
        "memory_types"@,
        json::text_array(memory_types(attached)),
    ).with("contracts"@, env.contracts@).with("region_sizes"@, region_sizes(attached)).with(
        "capability_notes"@,
        notes(attached),
    ).with("input_buttons"@, buttons_report()).with(
        "cpus"@,
        json::text_array(cpu_names(attached)),
    ).with("execution_limits"@, limits());
    let named = json::with_text(
        json::with_text(
            json::with_text(
                json::with_text(fixed, "name"@, env.name),
                "session_token"@,
                env.session_token,
            ),
            "launch_id"@,
            env.launch_id,
        ),
        "content"@,
        env.content,
    );
    named.with(
        "build"@,
        JsonView::Str(
            match env.build {
                Some(b) => b@,
                None => "unknown"@,
            },
        ),
    )
}

/// Reading how long the overrides of the input still last, where the stub tells.
pub open spec fn overrides_on(w: Wires, s: Cores) -> Ran<(Option<i64>, Option<i64>)> {
    match bridge::drain_on(w, s) {
        None => None,
        Some((t, Err(e))) => Some((t, Err(e))),
        Some((t, Ok(()))) => match commands::remaining_run(
            w.nine,
            t.nine.0,
            t.nine.1,
            "qEmucap,inputstatus"@,
        ) {
            None => None,
            Some((n, c, input)) => match commands::remaining_run(
                w.nine,
                n,
                c,
                "qEmucap,touchstatus"@,
            ) {
                None => None,
                Some((m, d, touch)) => Some(
                    (Cores { nine: (m, d), ..t }, Ok((told(input), told(touch)))),
                ),
            },
        },
    }
}

/// A number that was told, where it was.
pub open spec fn told(r: Result<i64, NdsErrorView>) -> Option<i64> {
    match r {
        Ok(n) => Some(n),
        Err(_) => None,
    }
}

/// The state of a core.
pub open spec fn core_state(frozen: bool) -> Seq<char> {
    if frozen {
        "frozen"@
    } else {
        "running"@
    }
}

/// The states of the cores.
pub open spec fn cpu_status(s: Cores) -> JsonView {
    let nine = JsonView::object().with(
        "arm9"@,
        JsonView::object().with("connected"@, JsonView::Bool(true)).with(
            "state"@,
            JsonView::Str(core_state(s.nine.1.frozen)),
        ),
    );
    match s.seven {
        Some((_, c)) => nine.with(
            "arm7"@,
            JsonView::object().with("connected"@, JsonView::Bool(true)).with(
                "state"@,
                JsonView::Str(core_state(c.frozen)),
            ),
        ),
        None => nine.with(
            "arm7"@,
            JsonView::object().with("connected"@, JsonView::Bool(false)),
        ),
    }
}

/// The status of the bridge.
pub open spec fn status_report(
    env: GdbBridgeEnv,
    s: Cores,
    overrides: (Option<i64>, Option<i64>),
) -> JsonView {
    let attached = s.seven is Some;
    JsonView::object().with("connected"@, JsonView::Bool(true)).with(
        "system"@,
        JsonView::Str("nds"@),
    ).with("adapter"@, JsonView::Str("desmume-nds-rust-gdb"@)).with(
        "backend"@,
        JsonView::Str("desmume-gdbstub"@),
    ).with("debugger"@, JsonView::Bool(true)).with(
        "state"@,
        JsonView::Str(core_state(s.nine.1.frozen)),
    ).with("memory_types"@, json::text_array(memory_types(attached))).with(
        "contracts"@,
        env.contracts@,
    ).with("cpus"@, cpu_status(s)).with("capability_notes"@, notes(attached)).with(
        "input_buttons"@,
        buttons_report(),
    ).with("input_override"@, support::override_view(overrides.0)).with(
        "touch_override"@,
        support::override_view(overrides.1),
    ).with("execution_limits"@, limits())
}

/// What a status request comes to.
pub open spec fn status_does<G: GdbTransport>(
    before: NdsBridge<G>,
    after: NdsBridge<G>,
    r: Result<JsonView, NdsErrorView>,
) -> bool {
    bridge::settles(
        before,
        after,
        overrides_on(after.wires(), before.cores()),
        |overrides: (Option<i64>, Option<i64>)|
            Ok(status_report(before.env, after.cores(), overrides)),
        r,
    )
}

fn state_text(frozen: bool) -> (r: &'static str)
    ensures
        r@ == core_state(frozen),
{
    if frozen {
        "frozen"
    } else {
        "running"
    }
}

impl<G: GdbTransport> NdsBridge<G> {
    /// Greets.
    pub fn hello(&self) -> (r: Json)
        ensures
            r@ == hello_report(self.env, self.arm7 is Some),
    {
        let attached = self.arm7.is_some();
        let fixed = Json::object().with(
            "protocol_version",
            Json::Unsigned(self.env.protocol_version),
        ).with("system", Json::text("nds")).with(
            "adapter",
            Json::text("desmume-nds-rust-gdb"),
        ).with("backend", Json::text("desmume-gdbstub")).with("debugger", Json::Bool(true)).with(
            "methods",
            methods_json(),
        ).with("memory_types", memory_types_json(attached)).with(
            "contracts",
            self.env.contracts.clone(),
        ).with("region_sizes", region_sizes_json(attached)).with(
            "capability_notes",
            notes_json(attached),
        ).with("input_buttons", buttons_json()).with("cpus", cpu_names_json(attached)).with(
            "execution_limits",
            limits_json(),
        );
        let named = json::add_text(fixed, "name", &self.env.name);
        let named = json::add_text(named, "session_token", &self.env.session_token);
        let named = json::add_text(named, "launch_id", &self.env.launch_id);
        let named = json::add_text(named, "content", &self.env.content);
        let build = match &self.env.build {
            Some(build) => build.as_str(),
            None => "unknown",
        };
        named.with("build", Json::text(build))
    }

    fn overrides(&mut self) -> (r: Result<(Option<i64>, Option<i64>), NdsBridgeError>)
        ensures
            bridge::kept(*old(self), *final(self)),
            overrides_on(final(self).wires(), old(self).cores()) == Some(
                (final(self).cores(), nds::plain(r)),
            ),
    {
        let drained = self.drain_scheduler_stops();
        let ghost w1 = self.wires();
        proof {
            bridge::wires_stay(w1);
        }
        drained?;
        let input = self.arm9.override_remaining("qEmucap,inputstatus");
        let ghost w2 = self.wires();
        let touch = self.arm9.override_remaining("qEmucap,touchstatus");
        proof {
            let w3 = self.wires();
            assert(gdb::goes_on(w2.nine, w3.nine));
            assert(bridge::wires_go_on(w1, w2));
            bridge::wires_go_through(w1, w2);
            assert(bridge::wires_go_on(w2, w3));
            assert(bridge::wires_go_on(w1, w3));
            bridge::wires_stay(w3);
        }
        let input = match input {
            Ok(n) => Some(n),
            Err(_) => None,
        };
        let touch = match touch {
            Ok(n) => Some(n),
            Err(_) => None,
        };
        Ok((input, touch))
    }

    fn cpu_status_json(&self) -> (r: Json)
        ensures
            r@ == cpu_status(self.cores()),
    {
        let nine = Json::object().with(
            "arm9",
            Json::object().with("connected", Json::Bool(true)).with(
                "state",
                Json::text(state_text(self.arm9.frozen)),
            ),
        );
        match &self.arm7 {
            Some(core) => nine.with(
                "arm7",
                Json::object().with("connected", Json::Bool(true)).with(
                    "state",
                    Json::text(state_text(core.frozen)),
                ),
            ),
            None => nine.with("arm7", Json::object().with("connected", Json::Bool(false))),
        }
    }

    /// Tells the state of the machine.
    pub fn status(&mut self) -> (r: Result<Json, NdsBridgeError>)
        ensures
            status_does(*old(self), *final(self), nds::shown(r)),
    {
        let (input, touch) = self.overrides()?;
        let attached = self.arm7.is_some();
        Ok(
            Json::object().with("connected", Json::Bool(true)).with(
                "system",
                Json::text("nds"),
            ).with("adapter", Json::text("desmume-nds-rust-gdb")).with(
                "backend",
                Json::text("desmume-gdbstub"),
            ).with("debugger", Json::Bool(true)).with(
                "state",
                Json::text(state_text(self.arm9.frozen)),
            ).with("memory_types", memory_types_json(attached)).with(
                "contracts",
                self.env.contracts.clone(),
            ).with("cpus", self.cpu_status_json()).with(
                "capability_notes",
                notes_json(attached),
            ).with("input_buttons", buttons_json()).with(
                "input_override",
                support::override_status_json(input),
            ).with("touch_override", support::override_status_json(touch)).with(
                "execution_limits",
                limits_json(),
            ),
        )
    }

    /// The file that a request about the game needs.
    pub fn content_path(&self) -> (r: Result<String, NdsBridgeError>)
        ensures
            nds::shown(r) == content_of(self.env),
    {
        match &self.env.content {
            Some(path) => Ok(path.clone()),
            None => Err(
                NdsBridgeError::BadParams("EMUCAP_CONTENT is not set for get_rom_info".to_owned()),
            ),
        }
    }

    /// Reads the bytes of a kind of memory.
    pub fn read_region_bytes(&mut self, memory_type: &str, start: u64, length: u64) -> (r: Result<
        Vec<u8>,
        NdsBridgeError,
    >)
        ensures
            match region_plan(memory_type@, start, length) {
                Err(e) => bridge::idle(*old(self), *final(self)) && nds::shown(r) == Err::<
                    Seq<u8>,
                    _,
                >(e),
                Ok((cpu, address)) => bridge::kept(*old(self), *final(self))
                    && bridge::snapshot_on(
                    final(self).wires(),
                    old(self).cores(),
                    cpu,
                    address,
                    length,
                ) == Some((final(self).cores(), nds::shown(r))),
            },
            r matches Ok(bytes) ==> bytes@.len() == length,
    {
        let region = support::require_region(memory_type)?;
        if length > region.size || start > region.size - length {
            return Err(
                NdsBridgeError::BadParams(
                    support::range_text(memory_type, start, length, region.size),
                ),
            );
        }
        let r = self.snapshot(region.cpu, region.base + start, length);
        proof {
            bridge::wires_stay(self.wires());
        }
        r
    }
}

/// The core and the bus address of a part of a kind of memory.
pub open spec fn region_plan(memory_type: Seq<char>, start: u64, length: u64) -> Result<
    (CpuId, u64),
    NdsErrorView,
> {
    match support::region_of(memory_type) {
        None => support::no_region(memory_type),
        Some(region) => if start + length > region.size {
            support::bad(support::range_message(memory_type, start, length, region.size))
        } else {
            Ok((region.cpu, (region.base + start) as u64))
        },
    }
}

/// The file of the game.
pub open spec fn content_of(env: GdbBridgeEnv) -> Result<Seq<char>, NdsErrorView> {
    match env.content {
        Some(path) => Ok(path@),
        None => support::bad("EMUCAP_CONTENT is not set for get_rom_info"@),
    }
}

/// The refusal of a game file that is not there.
pub fn missing_content(path: &str) -> (r: NdsBridgeError)
    ensures
        r@ == NdsErrorView::BadParams("content image not found: "@ + path@),
{
    NdsBridgeError::BadParams(text::join("content image not found: ", path))
}

/// A text that may be missing.
pub open spec fn or_empty(s: Option<&str>) -> Seq<char> {
    match s {
        Some(t) => t@,
        None => Seq::empty(),
    }
}

/// Describes the file of the game.
pub fn rom_report(name: Option<&str>, path: &str, sha1: &str, size: u64, extension: Option<&str>) -> (r:
    Json)
    ensures
        r@ == JsonView::object().with("system"@, JsonView::Str("nds"@)).with(
            "adapter"@,
            JsonView::Str("desmume-nds-rust-gdb"@),
        ).with("name"@, JsonView::Str(or_empty(name))).with("path"@, JsonView::Str(path@)).with(
            "sha1"@,
            JsonView::Str(sha1@),
        ).with("size"@, JsonView::Unsigned(size)).with(
            "media_type"@,
            JsonView::Str(text::lowered(or_empty(extension))),
        ),
{
    let name = match name {
        Some(s) => s.to_owned(),
        None => String::new(),
    };
    let extension = match extension {
        Some(s) => s.to_owned(),
        None => String::new(),
    };
    Json::object().with("system", Json::text("nds")).with(
        "adapter",
        Json::text("desmume-nds-rust-gdb"),
    ).with("name", Json::text(name.as_str())).with("path", Json::text(path)).with(
        "sha1",
        Json::text(sha1),
    ).with("size", Json::Unsigned(size)).with(
        "media_type",
        Json::text(text::lower(extension.as_str()).as_str()),
    )
}

/// The names of the kinds of memory that a dump holds.
pub fn dump_regions() -> (r: Vec<&'static str>)
    ensures
        json::literals(r@) == seq!["main"@],
{
    let mut r: Vec<&'static str> = Vec::new();
    r.push("main");
    assert(json::literals(r@) =~= seq!["main"@]);
    r
}

/// Exactly the kinds of memory that are marked so are dumped.
pub proof fn dumps_hold_the_marked_regions(name: Seq<char>)
    ensures
        seq!["main"@].contains(name) <==> (support::region_of(name) is Some && support::region_of(
            name,
        )->0.dumpable),
{
    assert(seq!["main"@][0] == "main"@);
}

/// The entry of a kind of memory in the list of a dump.
pub fn region_entry(name: &str) -> (r: Result<Json, NdsBridgeError>)
    ensures
        nds::shown(r) == (match support::region_of(name@) {
            None => support::no_region(name@),
            Some(region) => Ok(
                JsonView::object().with("name"@, JsonView::Str(name@)).with(
                    "memory_type"@,
                    JsonView::Str(name@),
                ).with("base_address"@, JsonView::Unsigned(region.base)).with(
                    "size"@,
                    JsonView::Unsigned(region.size),
                ),
            ),
        }),
{
    let region = support::require_region(name)?;
    Ok(
        Json::object().with("name", Json::text(name)).with("memory_type", Json::text(name)).with(
            "base_address",
            Json::Unsigned(region.base),
        ).with("size", Json::Unsigned(region.size)),
    )
}

/// The message that a file of a dump is not whole.
pub open spec fn partial_message(name: Seq<char>, written: u64, size: u64) -> Seq<char> {
    let m = (("dump "@ + name) + ": wrote "@) + text::decimal(written as int);
    ((m + " of "@) + text::decimal(size as int)) + " bytes to disk"@
}

/// Refuses a file of a dump that is not whole.
pub fn check_written(name: &str, written: u64, size: u64) -> (r: Result<(), NdsBridgeError>)
    ensures
        nds::plain(r) == (if written == size {
            Ok(())
        } else {
            commands::fault(partial_message(name@, written, size))
        }),
{
    if written == size {
        return Ok(());
    }
    let m = text::join("dump ", name);
    let m = text::join(m.as_str(), ": wrote ");
    let m = text::join(m.as_str(), text::decimal_of(written).as_str());
    let m = text::join(m.as_str(), " of ");
    let m = text::join(m.as_str(), text::decimal_of(size).as_str());
    Err(NdsBridgeError::Emulator(text::join(m.as_str(), " bytes to disk")))
}

/// The report of a dump.
pub fn dump_report(path: &str, regions: u64) -> (r: Json)
    ensures
        r@ == JsonView::object().with("path"@, JsonView::Str(path@)).with(
            "regions"@,
            JsonView::Unsigned(regions),
        ),
{
    Json::object().with("path", Json::text(path)).with("regions", Json::Unsigned(regions))
}

/// What an answer holds.
pub open spec fn outcome_of(r: Result<JsonView, NdsErrorView>) -> Result<
    JsonView,
    (Seq<char>, Seq<char>),
> {
    match r {
        Ok(v) => Ok(v),
        Err(e) => Err((e.wire_kind(), e.sentence())),
    }
}

/// The answer to a request.
pub fn respond(id: u64, result: Result<Json, NdsBridgeError>) -> (r: Response)
    ensures
        r.tells(ResponseView { id, outcome: outcome_of(nds::shown(result)) }),
{
    match result {
        Ok(value) => Response::success(id, value),
        Err(error) => Response::failure(id, error.error_kind(), error.message()),
    }
}

/// What a request comes to: an answer, or work with files that ends in one.
#[derive(Debug)]
pub enum Handled {
    Done(Response),
    /// The file of the game is to be described.
    RomInfo { id: u64, path: String },
    /// The memory is to be dumped into a directory.
    Dump { id: u64, path: String },
}

impl Handled {
    /// Whether a request was answered with a result.
    pub open spec fn is_answer(self, id: u64, r: Result<JsonView, NdsErrorView>) -> bool {
        self matches Handled::Done(response) && response.tells(
            ResponseView { id, outcome: outcome_of(r) },
        )
    }
}

/// What an operation that needs no file comes to.
pub open spec fn operation_does<G: GdbTransport>(
    before: NdsBridge<G>,
    after: NdsBridge<G>,
    operation: Operation,
    params: JsonView,
    r: Result<JsonView, NdsErrorView>,
) -> bool {
    match operation {
        Operation::Hello => bridge::idle(before, after) && r == Ok::<_, NdsErrorView>(
            hello_report(before.env, before.arm7 is Some),
        ),
        Operation::Status => status_does(before, after, r),
        Operation::ReadMemory => memory::read_memory_does(before, after, params, r),
        Operation::WriteMemory => memory::write_memory_does(before, after, params, r),
        Operation::FindPattern => memory::find_pattern_does(before, after, params, r),
        Operation::GetState => memory::get_state_does(before, after, params, r),
        Operation::Step => memory::step_does(before, after, params, r),
        Operation::StepInstructions => memory::step_instructions_does(before, after, params, r),
        Operation::SetBreakpoint => events::set_breakpoint_does(before, after, params, r),
        Operation::ClearBreakpoint => events::clear_breakpoint_does(before, after, params, r),
        Operation::ListBreakpoints => bridge::idle(before, after) && r == Ok::<_, NdsErrorView>(
            events::bp_list(before.bps@),
        ),
        Operation::ClearAllBreakpoints => events::clear_all_does(before, after, r),
        Operation::Pause => control::pause_does(before, after, params, r),
        Operation::Resume => control::resume_does(before, after, params, r),
        Operation::PollEvents => events::poll_events_does(before, after, params, r),
        Operation::Screenshot => control::screenshot_does(before, after, r),
        Operation::SetInput => control::set_input_does(before, after, params, r),
        Operation::PressButtons => control::press_buttons_does(before, after, params, r),
        Operation::Touch => control::touch_does(before, after, params, r),
        Operation::SaveState => control::state_does(before, after, params, false, r),
        Operation::LoadState => control::state_does(before, after, params, true, r),
        Operation::Disassemble => memory::disassemble_does(before, after, params, r),
        Operation::CallStack => memory::call_stack_does(before, after, params, r),
        Operation::Reset => control::reset_does(before, after, r),
        Operation::GetRomInfo | Operation::DumpMemory => false,
    }
}

impl<G: GdbTransport> NdsBridge<G> {
    fn perform(&mut self, operation: Operation, params: &Json) -> (r: Result<Json, NdsBridgeError>)
        requires
            operation != Operation::GetRomInfo,
            operation != Operation::DumpMemory,
        ensures
            operation_does(*old(self), *final(self), operation, params@, nds::shown(r)),
    {
        match operation {
            Operation::Hello => Ok(self.hello()),
            Operation::Status => self.status(),
            Operation::ReadMemory => self.read_memory(params),
            Operation::WriteMemory => self.write_memory(params),
            Operation::FindPattern => self.find_pattern(params),
            Operation::GetState => self.get_state(params),
            Operation::Step => self.step(params),
            Operation::StepInstructions => self.step_instructions(params),
            Operation::SetBreakpoint => self.set_breakpoint(params),
            Operation::ClearBreakpoint => self.clear_breakpoint(params),
            Operation::ListBreakpoints => Ok(self.list_breakpoints()),
            Operation::ClearAllBreakpoints => self.clear_all_breakpoints(),
            Operation::Pause => self.pause(params),
            Operation::Resume => self.resume(params),
            Operation::PollEvents => self.poll_events(params),
            Operation::Screenshot => self.screenshot(),
            Operation::SetInput => self.set_input(params),
            Operation::PressButtons => self.press_buttons(params),
            Operation::Touch => self.touch(params),
            Operation::SaveState => self.save_state(params),
            Operation::LoadState => self.load_state(params),
            Operation::Disassemble => self.disassemble(params),
            Operation::CallStack => self.call_stack(params),
            Operation::Reset => self.reset(),
            _ => Err(NdsBridgeError::UnknownMethod(String::new())),
        }
    }

    /// Handles a request.
    pub fn handle_request(&mut self, request: Request) -> (r: Handled)
        ensures
            match routed_method(request.method@) {
                Err(e) => bridge::idle(*old(self), *final(self)) && r.is_answer(
                    request.id,
                    Err(e),
                ),
                Ok(Operation::GetRomInfo) => bridge::idle(*old(self), *final(self)) && (
                match content_of(old(self).env) {
                    Err(e) => r.is_answer(request.id, Err(e)),
                    Ok(path) => r matches Handled::RomInfo { id, path: p } && id == request.id
                        && p@ == path,
                }),
                Ok(Operation::DumpMemory) => bridge::idle(*old(self), *final(self)) && (
                match support::required_text(request.params@, "path"@) {
                    Err(e) => r.is_answer(request.id, Err(e)),
                    Ok(path) => r matches Handled::Dump { id, path: p } && id == request.id
                        && p@ == path,
                }),
                Ok(operation) => exists|result: Result<JsonView, NdsErrorView>| #[trigger]
                    operation_does(*old(self), *final(self), operation, request.params@, result)
                        && r.is_answer(request.id, result),
            },
    {
        let operation = match route_method(request.method.as_str()) {
            Ok(operation) => operation,
            Err(error) => {
                return Handled::Done(respond(request.id, Err(error)));
            },
        };
        match operation {
            Operation::GetRomInfo => match self.content_path() {
                Ok(path) => Handled::RomInfo { id: request.id, path },
                Err(error) => Handled::Done(respond(request.id, Err(error))),
            },
            Operation::DumpMemory => match support::required_str(&request.params, "path") {
                Ok(path) => Handled::Dump { id: request.id, path },
                Err(error) => Handled::Done(respond(request.id, Err(error))),
            },
            _ => {
                let result = self.perform(operation, &request.params);
                let ghost shown = nds::shown(result);
                assert(operation_does(
                    *old(self),
                    *self,
                    operation,
                    request.params@,
                    shown,
                ));
                Handled::Done(respond(request.id, result))
            },
        }
    }
}

} // verus!
