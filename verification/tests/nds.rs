use std::collections::VecDeque;

use base64::Engine;
use emucap::gdb::{GdbBridgeEnv, GdbError, GdbTransport};
use emucap::json::Json;
use emucap::live::protocol::{ProtocolError, Request};
use emucap::live::temporal::{MAX_SYNC_ADVANCE_COUNT, MAX_SYNC_OPERATION_MS, NANOS_PER_MS};
use emucap::nds::bridge::NdsBridge;
use emucap::nds::decode::{
    buttons_to_mask, le_hex_to_u32, opcode_hex_to_le_bytes, state_from_arm_regs_hex,
};
use emucap::nds::service::{
    active_exceptions, check_written, dump_regions, dump_report, missing_content, region_entry,
    respond, rom_report, Handled,
};
use emucap::nds::support::{
    is_interrupt_stop, looks_like_stray_stop, memory_region, override_status_json, parse_num,
    stop_event,
};
use emucap::nds::{
    CpuId, GDBSTUB_BUFMAX, MAX_READ_CHUNK, MAX_SYNC_TIMED_INPUT_FRAMES, MAX_WRITE_CHUNK, MAX_WRITE_LEN,
};
use serde_json::Value;

const READ_CHUNK: usize = MAX_READ_CHUNK as usize;
const WRITE_CHUNK: usize = MAX_WRITE_CHUNK as usize;
const WRITE_LEN: usize = MAX_WRITE_LEN as usize;
const BUFFER: usize = GDBSTUB_BUFMAX as usize;

fn from_value(value: &Value) -> Json {
    match value {
        Value::Null => Json::Null,
        Value::Bool(b) => Json::Bool(*b),
        Value::Number(n) => {
            if let Some(u) = n.as_u64() {
                Json::Unsigned(u)
            } else if let Some(i) = n.as_i64() {
                Json::Negative(i)
            } else {
                Json::Float(n.to_string())
            }
        }
        Value::String(s) => Json::Str(s.clone()),
        Value::Array(items) => Json::Array(items.iter().map(from_value).collect()),
        Value::Object(fields) => Json::Object(
            fields
                .iter()
                .map(|(key, value)| (key.clone(), from_value(value)))
                .collect(),
        ),
    }
}

fn to_value(value: &Json) -> Value {
    match value {
        Json::Null => Value::Null,
        Json::Bool(b) => Value::Bool(*b),
        Json::Unsigned(n) => Value::from(*n),
        Json::Negative(n) => Value::from(*n),
        Json::Float(number) => serde_json::from_str(number).unwrap(),
        Json::Str(s) => Value::String(s.clone()),
        Json::Array(items) => Value::Array(items.iter().map(to_value).collect()),
        Json::Object(fields) => Value::Object(
            fields
                .iter()
                .map(|(key, value)| (key.clone(), to_value(value)))
                .collect(),
        ),
    }
}

fn parsed(text: &str) -> Value {
    serde_json::from_str(text).unwrap()
}

fn j(text: &str) -> Json {
    from_value(&parsed(text))
}

#[derive(Default)]
struct FakeGdb {
    replies: VecDeque<(String, String)>,
    calls: Vec<String>,
    nonblocking: VecDeque<String>,
    now: u64,
    timeout: u64,
    fail_interrupt: bool,
    fail_nonblocking: bool,
}

impl FakeGdb {
    fn with(replies: &[(&str, &str)]) -> Self {
        Self {
            replies: replies
                .iter()
                .map(|(a, b)| ((*a).into(), (*b).into()))
                .collect(),
            ..Default::default()
        }
    }

    fn from_pairs(replies: Vec<(String, String)>) -> Self {
        Self {
            replies: replies.into_iter().collect(),
            ..Default::default()
        }
    }
}

impl GdbTransport for FakeGdb {
    fn send(&mut self, payload: &str) -> Result<String, GdbError> {
        self.calls.push(payload.into());
        let Some((expected, reply)) = self.replies.pop_front() else {
            return Err(GdbError::Emulator(format!(
                "unexpected fake GDB call: {payload}"
            )));
        };
        assert_eq!(payload, expected);
        Ok(reply)
    }

    fn send_no_reply(&mut self, payload: &str) -> Result<(), GdbError> {
        self.calls.push(payload.into());
        Ok(())
    }

    fn interrupt(&mut self) -> Result<String, GdbError> {
        if self.fail_interrupt {
            return Err(GdbError::Emulator("fake interrupt failure".into()));
        }
        Ok(self.nonblocking.pop_front().unwrap_or_else(|| "S02".into()))
    }

    fn recv_nonblocking(&mut self) -> Result<Option<String>, GdbError> {
        if self.fail_nonblocking {
            return Err(GdbError::Emulator("fake nonblocking failure".into()));
        }
        Ok(self.nonblocking.pop_front())
    }

    fn recv_reply(&mut self) -> Result<String, GdbError> {
        Err(GdbError::Emulator("unexpected fake GDB read".into()))
    }

    fn get_timeout(&mut self) -> Result<u64, GdbError> {
        Ok(self.timeout)
    }

    fn set_timeout(&mut self, timeout: u64) -> Result<(), GdbError> {
        self.timeout = timeout;
        Ok(())
    }

    fn clock(&mut self) -> u64 {
        self.now
    }

    fn wait(&mut self, time: u64) {
        self.now += time;
    }

    fn is_terminal(&self) -> bool {
        false
    }
}

fn arm_regs_hex(regs: &[(usize, u32)], cpsr: u32) -> String {
    let mut bytes = vec![0u8; 168];
    for i in 0..16 {
        let value = regs
            .iter()
            .find(|(idx, _)| *idx == i)
            .map(|(_, v)| *v)
            .unwrap_or(0);
        bytes[i * 4..i * 4 + 4].copy_from_slice(&value.to_le_bytes());
    }
    bytes[164..168].copy_from_slice(&cpsr.to_le_bytes());
    hex::encode(bytes)
}

fn env() -> GdbBridgeEnv {
    GdbBridgeEnv {
        name: None,
        session_token: None,
        launch_id: None,
        content: None,
        build: None,
        protocol_version: 1,
        contracts: Json::Null,
    }
}

fn bridge_arm9_only(replies: &[(&str, &str)]) -> NdsBridge<FakeGdb> {
    NdsBridge::new(FakeGdb::with(replies), None, env())
}

fn bridge_arm9_only_pairs(replies: Vec<(String, String)>) -> NdsBridge<FakeGdb> {
    NdsBridge::new(FakeGdb::from_pairs(replies), None, env())
}

struct Answer {
    ok: bool,
    result: Option<Value>,
    error: Option<ProtocolError>,
}

fn request(id: u64, method: &str, params: Json) -> Request {
    Request {
        id,
        method: method.into(),
        params,
    }
}

fn ask(bridge: &mut NdsBridge<FakeGdb>, request: Request) -> Answer {
    let id = request.id;
    match bridge.handle_request(request) {
        Handled::Done(response) => {
            assert_eq!(response.id, id);
            Answer {
                ok: response.ok,
                result: response.result.as_ref().map(to_value),
                error: response.error,
            }
        }
        other => panic!("{other:?}"),
    }
}

#[test]
fn looks_like_stray_stop_distinguishes_stops_from_base64() {
    assert!(looks_like_stray_stop("S05"));
    assert!(looks_like_stray_stop("S00"));
    assert!(looks_like_stray_stop("T05thread:1;0d:0000;"));
    assert!(looks_like_stray_stop("T0b20:0102;"));
    assert!(!looks_like_stray_stop("SGVsbG8="));
    assert!(!looks_like_stray_stop("TWFuIGlzIGRpc3Rpbmd1aXNoZWQ="));
    assert!(!looks_like_stray_stop("iVBORw0KGgoAAAANSUhEUg=="));
    assert!(!looks_like_stray_stop("S0"));
}

#[test]
fn hello_advertises_only_tier1_truths() {
    let mut bridge = NdsBridge::new(
        FakeGdb::with(&[("?", "S05")]),
        Some(FakeGdb::with(&[("?", "S05")])),
        GdbBridgeEnv {
            name: Some("nds".into()),
            contracts: Json::object().with(
                "active_exceptions",
                Json::Array(active_exceptions().iter().map(|name| Json::text(name)).collect()),
            ),
            ..env()
        },
    );
    let response = ask(&mut bridge, request(1, "hello", j("{}")));
    let result = response.result.unwrap();
    assert_eq!(result["adapter"], "desmume-nds-rust-gdb");
    assert_eq!(result["system"], "nds");
    assert_eq!(result["memory_types"], parsed("[\"main\",\"arm9\",\"arm7\"]"));
    assert_eq!(
        result["execution_limits"]["max_sync_advance_count"],
        MAX_SYNC_ADVANCE_COUNT
    );
    assert_eq!(
        result["execution_limits"]["max_sync_operation_ms"],
        MAX_SYNC_OPERATION_MS
    );

    let methods = result["methods"].as_array().unwrap();
    for wanted in [
        "read_memory",
        "get_state",
        "set_breakpoint",
        "poll_events",
        "step_instructions",
        "screenshot",
        "set_input",
        "press_buttons",
        "save_state",
        "load_state",
        "disassemble",
        "call_stack",
        "reset",
    ] {
        assert!(methods.iter().any(|m| m == wanted), "missing {wanted}");
    }
    for forbidden in ["run_frames", "probe", "set_trace", "watch_register"] {
        assert!(
            !methods.iter().any(|m| m == forbidden),
            "should not advertise {forbidden}"
        );
    }

    let caps = &result["capability_notes"];
    assert_eq!(caps["screenshot"], true);
    assert_eq!(caps["input"], true);
    assert_eq!(caps["frame_step"], false);
    assert_eq!(caps["breakpoints"], true);
    assert_eq!(caps["state_restore"], true);
    assert_eq!(caps["disassemble"], true);
    assert_eq!(caps["call_stack"], true);
    assert_eq!(caps["step_units"], parsed("[\"instructions\"]"));

    let contracts = &result["contracts"];
    assert_eq!(
        contracts["active_exceptions"],
        parsed("[\"nds.execution.frame-step-absent\",\"nds.call-stack.best-effort\",\"nds.input-hold.port-zero-only\",\"nds.input-pulse.constraints\",\"nds.input-touch.constraints\"]")
    );
    assert!(contracts.get("authority").is_none());
}

#[test]
fn hello_omits_arm7_memory_type_when_arm7_absent() {
    let mut bridge = bridge_arm9_only(&[("?", "S05")]);
    let response = ask(&mut bridge, request(1, "hello", j("{}")));
    let result = response.result.unwrap();
    assert_eq!(result["memory_types"], parsed("[\"main\",\"arm9\"]"));
    assert_eq!(result["cpus"], parsed("[\"arm9\"]"));
}

#[test]
fn read_memory_maps_main_region_to_absolute_arm9_address() {
    let mut bridge = bridge_arm9_only(&[("?", "S05"), ("m2000000,4", "deadbeef")]);
    let response = ask(&mut bridge, request(
        2,
        "read_memory",
        j("{\"memory_type\":\"main\",\"address\":0,\"length\":4}"),
    ));
    let result = response.result.unwrap();
    assert_eq!(result["hex"], "deadbeef");
    assert_eq!(result["cpu"], "arm9");
}

#[test]
fn write_memory_sends_m_packet_on_routed_cpu() {
    let mut bridge = bridge_arm9_only(&[("?", "S05"), ("M2000000,2:aabb", "OK")]);
    let response = ask(&mut bridge, request(
        3,
        "write_memory",
        j("{\"memory_type\":\"main\",\"address\":\"0x0\",\"hex\":\"aabb\"}"),
    ));
    assert_eq!(response.result.unwrap()["written"], 2);
}

#[test]
fn get_state_decodes_arm_register_packet_little_endian() {
    let regs = arm_regs_hex(
        &[
            (0, 0x0000_0011),
            (13, 0x0380_0000),
            (14, 0x0200_1000),
            (15, 0x0200_0800),
        ],
        0x6000_00DF,
    );
    let mut bridge = bridge_arm9_only(&[("?", "S05"), ("g", &regs)]);
    let response = ask(&mut bridge, request(4, "get_state", j("{}")));
    let result = response.result.unwrap();
    assert_eq!(result["cpu"], "arm9");
    let state = &result["state"];
    assert_eq!(state["cpu.r0"], 0x11);
    assert_eq!(state["cpu.r15"], 0x0200_0800);
    assert_eq!(state["cpu.pc"], 0x0200_0800);
    assert_eq!(state["cpu.sp"], 0x0380_0000);
    assert_eq!(state["cpu.lr"], 0x0200_1000);
    assert_eq!(state["cpu.cpsr"], 0x6000_00DF);
}

#[test]
fn set_breakpoint_sends_z0_and_tracks_id() {
    let mut bridge = bridge_arm9_only(&[("?", "S05"), ("Z0,2000100,4", "OK")]);
    let set = ask(&mut bridge, request(
        5,
        "set_breakpoint",
        j("{\"memory_type\":\"main\",\"address\":256}"),
    ));
    let set = set.result.unwrap();
    assert_eq!(set["id"], 1);
    assert_eq!(set["address"], 0x0200_0100);
    assert_eq!(set["cpu"], "arm9");

    let list = ask(&mut bridge, request(6, "list_breakpoints", j("{}")));
    assert_eq!(
        list.result.unwrap()["breakpoints"],
        parsed("[{\"id\":1,\"cpu\":\"arm9\",\"kind\":\"exec\",\"address\":33554688,\"hardware\":false}]")
    );
}

#[test]
fn arm7_memory_type_routes_to_arm7_connection() {
    let arm9 = FakeGdb::with(&[("?", "S05")]);
    let arm7 = FakeGdb::with(&[("?", "S05"), ("m3800000,4", "cafef00d")]);
    let mut bridge = NdsBridge::new(arm9, Some(arm7), env());
    let response = ask(&mut bridge, request(
        7,
        "read_memory",
        j("{\"memory_type\":\"arm7\",\"address\":58720256,\"length\":4}"),
    ));
    let result = response.result.unwrap();
    assert_eq!(result["hex"], "cafef00d");
    assert_eq!(result["cpu"], "arm7");
    assert_eq!(bridge.arm9.gdb.calls, vec!["?".to_string()]);
}

#[test]
fn arm7_memory_type_errors_when_arm7_not_attached() {
    let mut bridge = bridge_arm9_only(&[("?", "S05")]);
    let response = ask(&mut bridge, request(
        8,
        "read_memory",
        j("{\"memory_type\":\"arm7\",\"address\":0,\"length\":4}"),
    ));
    assert!(!response.ok);
    assert!(response.error.unwrap().message.contains("ARM7"));
}

#[test]
fn step_instructions_single_steps_then_reports_pc() {
    let regs = arm_regs_hex(&[(15, 0x0200_0004)], 0);
    let mut bridge = bridge_arm9_only(&[("?", "S05"), ("s", "S05"), ("g", &regs)]);
    let response = ask(&mut bridge, request(9, "step_instructions", j("{\"count\":1}")));
    let result = response.result.unwrap();
    assert_eq!(result["status"], "completed");
    assert_eq!(result["unit"], "instructions");
    assert_eq!(result["count"], 1);
    assert_eq!(result["pc"], 0x0200_0004);
    assert_eq!(
        bridge
            .arm9
            .gdb
            .calls
            .iter()
            .filter(|c| c.as_str() == "s")
            .count(),
        1
    );
}

#[test]
fn step_instructions_rejects_over_sync_cap_before_backend_calls() {
    let mut bridge = bridge_arm9_only(&[("?", "S05")]);
    bridge.arm9.gdb.calls.clear();
    let response = ask(&mut bridge, request(
        9,
        "step_instructions",
        j(&format!("{{\"count\":{}}}", MAX_SYNC_ADVANCE_COUNT + 1)),
    ));

    assert!(!response.ok);
    assert_eq!(response.error.unwrap().kind, "bad_params");
    assert!(bridge.arm9.gdb.calls.is_empty());
}

#[test]
fn step_method_treats_frames_with_instructions_unit_as_instruction_count() {
    let regs = arm_regs_hex(&[(15, 0x0200_0008)], 0);
    let mut bridge = bridge_arm9_only(&[("?", "S05"), ("s", "S05"), ("g", &regs)]);
    let response = ask(&mut bridge, request(
        9,
        "step",
        j("{\"frames\":1,\"unit\":\"instructions\"}"),
    ));
    let result = response.result.unwrap();
    assert_eq!(result["status"], "completed");
    assert_eq!(result["count"], 1);
    assert_eq!(
        bridge
            .arm9
            .gdb
            .calls
            .iter()
            .filter(|c| c.as_str() == "s")
            .count(),
        1
    );
}

#[test]
fn step_method_rejects_bare_frames_as_unsupported_frame_step() {
    let mut bridge = bridge_arm9_only(&[("?", "S05")]);
    let response = ask(&mut bridge, request(9, "step", j("{\"frames\":60}")));
    assert!(!response.ok);
    assert!(response
        .error
        .unwrap()
        .message
        .contains("프레임 step 미지원"));
}

#[test]
fn the_signal_of_a_stop_is_cut_by_bytes() {
    let signal = |stop: &str| to_value(&stop_event(stop, CpuId::Arm9))["signal"].clone();
    assert_eq!(signal("T05thread:1;"), "05");
    assert_eq!(signal("S05"), "05");
    assert_eq!(signal("T\u{e9}"), "\u{e9}");
    assert_eq!(signal("T1\u{e9}"), "");
    assert_eq!(signal("T0"), "");
}

#[test]
fn registers_are_cut_by_bytes() {
    let packet = format!("01000000{}02000000", "\u{e9}".repeat(4));
    let state = to_value(&state_from_arm_regs_hex(&packet));
    assert_eq!(state["cpu.r0"], 1);
    assert!(state.get("cpu.r1").is_none());
    assert_eq!(state["cpu.r2"], 2);
    let raw = to_value(&state_from_arm_regs_hex("\u{e9}\u{e9}"));
    assert_eq!(raw["cpu.raw_register_bytes"], 2);
}

#[test]
fn an_entry_that_names_no_button_is_written_out() {
    let message = |buttons: &str| match buttons_to_mask(Some(&j(buttons))) {
        Err(error) => error.message(),
        Ok(held) => panic!("{held:?}"),
    };
    let valid = "valid: a, b, x, y, l, r, start, select, up, down, left, right";
    for (buttons, written) in [
        ("[[1, \"A\\n\"]]", "[1,\"a\\n\"]"),
        ("[{\"B\": null, \"A\": true}]", "{\"a\":true,\"b\":null}"),
        ("[1.5]", "1.5"),
        ("[-2]", "-2"),
        ("[[]]", "[]"),
    ] {
        assert!(
            message(buttons).contains(&format!("unsupported nds button: {written}; {valid}")),
            "{}",
            message(buttons)
        );
    }
}

#[test]
fn written_values_are_those_of_the_wire() {
    for text in [
        "null",
        "[true,false,0,-1,1.5]",
        "{\"a\":\"\\u0001\\b\\t\\n\\f\\r\\u001f\\\"\\\\\u{e9}/\",\"b\":{}}",
    ] {
        let value: Value = serde_json::from_str(text).unwrap();
        assert_eq!(from_value(&value).to_text(), value.to_string());
        assert_eq!(from_value(&value).to_text(), text);
    }
}

#[test]
fn is_interrupt_stop_matches_sigint_only() {
    assert!(is_interrupt_stop("S02"));
    assert!(is_interrupt_stop("T02thread:1;"));
    assert!(!is_interrupt_stop("S05"));
    assert!(!is_interrupt_stop("T05thread:1;"));
    assert!(!is_interrupt_stop("OK"));
}

#[test]
fn note_stop_drops_sigint_keeps_sigtrap() {
    let mut bridge = bridge_arm9_only(&[("?", "S05")]);
    bridge.arm9.note_stop("S02");
    assert!(
        bridge.arm9.events.is_empty(),
        "SIGINT (S02) must not enter the event queue"
    );
    bridge.arm9.note_stop("S05");
    assert_eq!(
        bridge.arm9.events.len(),
        1,
        "SIGTRAP (S05) breakpoint stop must be reported"
    );
}

#[test]
fn reset_while_running_halts_core_without_resuming() {
    let mut bridge = bridge_arm9_only(&[("?", "S05"), ("QEmucap,reset", "OK")]);
    bridge.arm9.frozen = false;
    let response = ask(&mut bridge, request(9, "reset", j("{}")));
    let result = response.result.unwrap();
    assert_eq!(result["state"], "frozen");
    assert!(
        bridge.arm9.frozen,
        "ARM9 must actually be halted after reset"
    );
    assert!(
        !bridge.arm9.gdb.calls.iter().any(|c| c == "c"),
        "reset must not resume the core; calls = {:?}",
        bridge.arm9.gdb.calls
    );
}

#[test]
fn reset_from_frozen_completes_without_resuming() {
    let mut bridge = bridge_arm9_only(&[("?", "S05"), ("QEmucap,reset", "OK")]);
    let response = ask(&mut bridge, request(9, "reset", j("{}")));
    assert_eq!(response.result.unwrap()["state"], "frozen");
    assert!(bridge.arm9.frozen);
    assert!(!bridge.arm9.gdb.calls.iter().any(|c| c == "c"));
}

#[test]
fn read_memory_rejects_out_of_range_main_offset() {
    let mut bridge = bridge_arm9_only(&[("?", "S05")]);
    let r = ask(&mut bridge, request(
        1,
        "read_memory",
        j("{\"memory_type\":\"main\",\"address\":4194304,\"length\":4}"),
    ));
    assert!(!r.ok);
    assert_eq!(r.error.unwrap().kind, "bad_params");
}

#[test]
fn read_memory_rejects_length_over_cap() {
    let mut bridge = bridge_arm9_only(&[("?", "S05")]);
    let r = ask(&mut bridge, request(
        1,
        "read_memory",
        j("{\"memory_type\":\"arm9\",\"address\":0,\"length\":3145728}"),
    ));
    assert!(!r.ok);
    assert_eq!(r.error.unwrap().kind, "bad_params");
}

#[test]
fn read_memory_accepts_in_range_main() {
    let mut bridge = bridge_arm9_only(&[("?", "S05"), ("m2000000,4", "aabbccdd")]);
    let r = ask(&mut bridge, request(
        1,
        "read_memory",
        j("{\"memory_type\":\"main\",\"address\":0,\"length\":4}"),
    ));
    assert!(r.ok, "{:?}", r.error);
    assert_eq!(r.result.unwrap()["hex"], "aabbccdd");
}

#[test]
fn pending_breakpoint_stop_survives_a_data_command() {
    let regs = arm_regs_hex(&[(15, 0x0200_0000)], 0);
    let mut bridge = bridge_arm9_only(&[("?", "S05"), ("g", &regs)]);
    bridge.arm9.frozen = false;
    bridge.arm9.gdb.nonblocking.push_back("S05".into());
    let _ = ask(&mut bridge, request(1, "get_state", j("{}")));
    let events = ask(&mut bridge, request(2, "poll_events", j("{}")))
        .result
        .unwrap();
    assert!(
        events["events"]
            .as_array()
            .unwrap()
            .iter()
            .any(|e| e["signal"] == "05"),
        "pending breakpoint hit was lost: {events:?}"
    );
}

#[test]
fn poll_events_bad_filter_does_not_drop_buffered_hit() {
    let mut bridge = bridge_arm9_only(&[("?", "S05")]);
    bridge.events.push(j("{\"type\":\"breakpoint_hit\",\"signal\":\"05\",\"id\":7}"));
    let bad = ask(&mut bridge, request(
        1,
        "poll_events",
        j("{\"breakpoint_id\":\"abc\"}"),
    ));
    assert!(!bad.ok, "malformed breakpoint_id must be rejected");
    assert_eq!(bad.error.unwrap().kind, "bad_params");
    let good = ask(&mut bridge, request(2, "poll_events", j("{}")))
        .result
        .unwrap();
    assert!(
        good["events"]
            .as_array()
            .unwrap()
            .iter()
            .any(|e| e["id"] == 7 && e["signal"] == "05"),
        "buffered breakpoint hit was lost by the bad-filter poll: {good:?}"
    );
}

#[test]
fn pending_breakpoint_stop_leaves_core_halted_after_data_command() {
    let regs = arm_regs_hex(&[(15, 0x0200_0000)], 0);
    let mut bridge = bridge_arm9_only(&[
        ("?", "S05"),
        ("Z0,2000000,4", "OK"),
        ("g", &regs),
        ("g", &regs),
    ]);
    let set = ask(&mut bridge, request(
        1,
        "set_breakpoint",
        j("{\"cpu\":\"arm9\",\"address\":\"0x2000000\",\"kind\":\"exec\"}"),
    ));
    let bp_id = set.result.unwrap()["id"].as_u64().unwrap();
    bridge.arm9.frozen = false;
    bridge.arm9.gdb.nonblocking.push_back("S05".into());

    let _ = ask(&mut bridge, request(2, "get_state", j("{}")));
    assert!(
        bridge.arm9.frozen,
        "core must stay halted at the breakpoint, not be resumed past it"
    );
    assert!(
        !bridge.arm9.gdb.calls.iter().any(|c| c == "c"),
        "no continue may be sent after draining a real breakpoint stop: {:?}",
        bridge.arm9.gdb.calls
    );

    let events = ask(&mut bridge, request(3, "poll_events", j("{}")))
        .result
        .unwrap();
    let arr = events["events"].as_array().unwrap();
    let hit = arr
        .iter()
        .find(|e| e["signal"] == "05")
        .expect("pending breakpoint hit was lost");
    assert_eq!(hit["type"], "breakpoint_hit");
    assert_eq!(hit["breakpoint_id"], bp_id);
    assert_eq!(hit["address"], 0x0200_0000);
}

#[test]
fn all_stops_that_arrived_are_taken_in_their_order() {
    let mut bridge = bridge_arm9_only(&[("?", "S05")]);
    bridge.arm9.frozen = false;
    for packet in ["S05", "S02", "S0b", "OK", "S05"] {
        bridge.arm9.gdb.nonblocking.push_back(packet.into());
    }
    assert!(bridge.arm9.drain_stops().is_ok());
    assert!(bridge.arm9.frozen);
    let signals: Vec<Value> = bridge
        .arm9
        .events
        .iter()
        .map(|event| to_value(event)["signal"].clone())
        .collect();
    assert_eq!(signals, vec![Value::from("05"), Value::from("0b")]);
    assert_eq!(bridge.arm9.gdb.nonblocking.len(), 1);
}

#[test]
fn a_long_run_of_stops_is_taken_whole() {
    let mut bridge = bridge_arm9_only(&[("?", "S05")]);
    for _ in 0..3000 {
        bridge.arm9.gdb.nonblocking.push_back("S05".into());
    }
    assert!(bridge.arm9.drain_stops().is_ok());
    assert_eq!(bridge.arm9.events.len(), 3000);
    assert!(bridge.arm9.gdb.nonblocking.is_empty());
}

#[test]
fn data_command_resumes_running_core_when_no_stop_was_pending() {
    let mut bridge = bridge_arm9_only(&[("?", "S05"), ("m2000000,4", "aabbccdd")]);
    bridge.arm9.frozen = false;
    let r = ask(&mut bridge, request(
        1,
        "read_memory",
        j("{\"memory_type\":\"main\",\"address\":0,\"length\":4}"),
    ));
    assert!(r.ok, "{:?}", r.error);
    assert!(
        !bridge.arm9.frozen,
        "core the bridge paused itself must be resumed back to running"
    );
    assert!(
        bridge.arm9.gdb.calls.iter().any(|c| c == "c"),
        "a bridge-injected pause must be undone with a continue: {:?}",
        bridge.arm9.gdb.calls
    );
}

#[test]
fn unsupported_method_returns_unsupported_error_kind() {
    let mut bridge = bridge_arm9_only(&[("?", "S05")]);
    for method in ["run_frames", "probe", "set_trace", "watch_register"] {
        let response = ask(&mut bridge, request(10, method, j("{}")));
        assert!(!response.ok, "{method} should fail");
        let error = response.error.unwrap();
        assert_eq!(error.kind, "unsupported", "{method} kind");
        assert!(error.message.contains("unsupported on nds"), "{method} msg");
    }
}

#[test]
fn screenshot_sends_query_and_returns_png_base64() {
    let png = b"\x89PNG\r\n\x1a\nDESMUME-TEST-BYTES";
    let b64 = base64::engine::general_purpose::STANDARD.encode(png);
    let mut bridge = bridge_arm9_only(&[("?", "S05"), ("qEmucap,ss", b64.as_str())]);
    let response = ask(&mut bridge, request(1, "screenshot", j("{}")));
    assert!(response.ok, "screenshot failed: {:?}", response.error);
    let result = response.result.unwrap();
    assert_eq!(result["png_base64"], b64);
    assert_eq!(result["format"], "png");
    assert_eq!(result["width"], 256);
    assert_eq!(result["height"], 384);
    assert!(bridge.arm9.gdb.calls.iter().any(|c| c == "qEmucap,ss"));
}

#[test]
fn screenshot_rejects_non_png_reply() {
    let b64 = base64::engine::general_purpose::STANDARD.encode(b"not a png");
    let mut bridge = bridge_arm9_only(&[("?", "S05"), ("qEmucap,ss", b64.as_str())]);
    let response = ask(&mut bridge, request(1, "screenshot", j("{}")));
    assert!(!response.ok);
    assert_eq!(response.error.unwrap().kind, "emulator_error");
}

#[test]
fn set_input_sends_mask_for_a_and_b() {
    let mut bridge = bridge_arm9_only(&[("?", "S05"), ("QEmucap,input:3", "OK")]);
    let response =
        ask(&mut bridge, request(1, "set_input", j("{\"buttons\":[\"a\",\"b\"]}")));
    assert!(response.ok, "set_input failed: {:?}", response.error);
    let result = response.result.unwrap();
    assert_eq!(result["buttons"], parsed("[\"a\",\"b\"]"));
    assert_eq!(result["cpu"], "arm9");
}

#[test]
fn set_input_maps_shoulder_and_dpad_bits() {
    let mut bridge = bridge_arm9_only(&[("?", "S05"), ("QEmucap,input:128", "OK")]);
    let response = ask(&mut bridge, request(
        1,
        "set_input",
        j("{\"buttons\":[\"left\",\"r\",\"start\"]}"),
    ));
    assert!(response.ok, "set_input failed: {:?}", response.error);
}

#[test]
fn set_input_empty_releases_with_zero_mask() {
    let mut bridge = bridge_arm9_only(&[("?", "S05"), ("QEmucap,input:0", "OK")]);
    let response = ask(&mut bridge, request(1, "set_input", j("{\"buttons\":[]}")));
    assert!(response.ok, "release failed: {:?}", response.error);
}

#[test]
fn zero_remaining_override_is_reported_as_native_input() {
    assert_eq!(
        to_value(&override_status_json(Some(0))),
        parsed("{\"observable\":true,\"engaged\":false,\"mode\":\"native\",\"remaining_frames\":0}")
    );
}

#[test]
fn input_methods_reject_nonzero_port_before_gdb_mutation() {
    for (method, params) in [
        ("set_input", j("{\"port\":1,\"buttons\":[\"a\"]}")),
        (
            "press_buttons",
            j("{\"port\":1,\"buttons\":[\"a\"],\"frames\":1}"),
        ),
        ("touch", j("{\"port\":1,\"x\":10,\"y\":20}")),
    ] {
        let mut bridge = bridge_arm9_only(&[("?", "S05")]);
        let response = ask(&mut bridge, request(1, method, params));
        assert!(!response.ok, "{method} must reject port 1");
        assert_eq!(response.error.unwrap().kind, "bad_params");
        assert_eq!(
            bridge.arm9.gdb.calls,
            ["?"],
            "{method} mutated the emulator before rejecting the port"
        );
    }
}

#[test]
fn press_buttons_encodes_mask_and_frames() {
    let mut bridge = bridge_arm9_only(&[
        ("?", "S05"),
        ("QEmucap,input:1,3", "OK"),
        ("qEmucap,inputstatus", "2"),
        ("qEmucap,inputstatus", "0"),
    ]);
    let response = ask(&mut bridge, request(
        1,
        "press_buttons",
        j("{\"buttons\":[\"a\"],\"frames\":3}"),
    ));
    assert!(response.ok, "press failed: {:?}", response.error);
    let result = response.result.unwrap();
    assert_eq!(result["status"], "completed");
    assert_eq!(result["frames"], 3);
    assert_eq!(result["frames_elapsed"], 3);
    assert_eq!(result["buttons"], parsed("[\"a\"]"));
    assert_eq!(result["override_engaged"], false);
    assert!(!bridge.arm9.frozen, "frozen press must atomically resume");
}

#[test]
fn press_buttons_requires_a_button() {
    let mut bridge = bridge_arm9_only(&[("?", "S05")]);
    let response = ask(&mut bridge, request(1, "press_buttons", j("{\"buttons\":[]}")));
    assert!(!response.ok);
    assert_eq!(response.error.unwrap().kind, "bad_params");
}

#[test]
fn unknown_button_is_rejected() {
    let mut bridge = bridge_arm9_only(&[("?", "S05")]);
    let response =
        ask(&mut bridge, request(1, "set_input", j("{\"buttons\":[\"turbo\"]}")));
    assert!(!response.ok);
    assert_eq!(response.error.unwrap().kind, "bad_params");
}

#[test]
fn touch_sends_hex_coords() {
    let mut bridge = bridge_arm9_only(&[("?", "S05"), ("QEmucap,touch:80,60", "OK")]);
    let response = ask(&mut bridge, request(1, "touch", j("{\"x\":128,\"y\":96}")));
    assert!(response.ok, "touch failed: {:?}", response.error);
    let result = response.result.unwrap();
    assert_eq!(result["x"], 128);
    assert_eq!(result["y"], 96);
}

#[test]
fn touch_with_frames_is_a_tap() {
    let mut bridge = bridge_arm9_only(&[
        ("?", "S05"),
        ("QEmucap,touch:a,14,5", "OK"),
        ("qEmucap,touchstatus", "0"),
    ]);
    let response = ask(&mut bridge, request(
        1,
        "touch",
        j("{\"x\":10,\"y\":20,\"frames\":5}"),
    ));
    assert!(response.ok, "touch failed: {:?}", response.error);
    let result = response.result.unwrap();
    assert_eq!(result["status"], "completed");
    assert_eq!(result["frames"], 5);
    assert_eq!(result["override_engaged"], false);
}

#[test]
fn timed_input_interruption_releases_override_before_reply() {
    let mut bridge = bridge_arm9_only(&[
        ("?", "S05"),
        ("QEmucap,input:1,3", "OK"),
        ("qEmucap,inputstatus", "2"),
        ("QEmucap,input:0", "OK"),
    ]);
    bridge.arm9.gdb.nonblocking.push_back("S05".into());
    let response = ask(&mut bridge, request(
        1,
        "press_buttons",
        j("{\"buttons\":[\"a\"],\"frames\":3}"),
    ));
    assert!(
        response.ok,
        "interruption should be a terminal result: {:?}",
        response.error
    );
    let result = response.result.unwrap();
    assert_eq!(result["status"], "interrupted");
    assert_eq!(result["reason"], "breakpoint");
    assert_eq!(result["frames_elapsed"], 1);
    assert_eq!(result["override_engaged"], false);
    assert!(bridge.arm9.frozen);
    assert!(bridge
        .arm9
        .gdb
        .calls
        .iter()
        .any(|call| call == "QEmucap,input:0"));
}

#[test]
fn timed_input_release_and_stop_same_poll_reports_interrupted() {
    let mut bridge = bridge_arm9_only(&[
        ("?", "S05"),
        ("QEmucap,input:1,3", "OK"),
        ("qEmucap,inputstatus", "0"),
        ("QEmucap,input:0", "OK"),
    ]);
    bridge.arm9.gdb.nonblocking.push_back("S05".into());

    let response = ask(&mut bridge, request(
        1,
        "press_buttons",
        j("{\"buttons\":[\"a\"],\"frames\":3}"),
    ));

    assert!(response.ok, "same-frame stop is a terminal interruption");
    let result = response.result.unwrap();
    assert_eq!(result["status"], "interrupted");
    assert_eq!(result["frames_elapsed"], 3);
    assert_eq!(result["state"], "frozen");
    assert_eq!(result["override_engaged"], false);
    assert!(bridge.arm9.frozen);
}

#[test]
fn timed_input_over_sync_bound_is_rejected_before_arming() {
    let mut bridge = bridge_arm9_only(&[("?", "S05")]);
    let response = ask(&mut bridge, request(
        1,
        "press_buttons",
        j(&format!("{{\"buttons\":[\"a\"],\"frames\":{}}}", MAX_SYNC_TIMED_INPUT_FRAMES + 1)),
    ));
    assert!(!response.ok);
    assert_eq!(response.error.unwrap().kind, "bad_params");
    assert!(!bridge
        .arm9
        .gdb
        .calls
        .iter()
        .any(|call| call.starts_with("QEmucap,input:")));
}

#[test]
fn touch_release_lifts() {
    let mut bridge = bridge_arm9_only(&[("?", "S05"), ("QEmucap,touch:release", "OK")]);
    let response = ask(&mut bridge, request(1, "touch", j("{\"release\":true}")));
    assert!(response.ok, "touch release failed: {:?}", response.error);
    assert_eq!(response.result.unwrap()["released"], true);
}

#[test]
fn touch_out_of_range_is_rejected() {
    let mut bridge = bridge_arm9_only(&[("?", "S05")]);
    let response = ask(&mut bridge, request(1, "touch", j("{\"x\":300,\"y\":96}")));
    assert!(!response.ok);
    assert_eq!(response.error.unwrap().kind, "bad_params");
}

#[test]
fn touch_requires_coords() {
    let mut bridge = bridge_arm9_only(&[("?", "S05")]);
    let response = ask(&mut bridge, request(1, "touch", j("{\"y\":96}")));
    assert!(!response.ok);
    assert_eq!(response.error.unwrap().kind, "bad_params");
}

#[test]
fn unknown_method_uses_unknown_method_kind() {
    let mut bridge = bridge_arm9_only(&[("?", "S05")]);
    let response = ask(&mut bridge, request(11, "not_a_method", j("{}")));
    assert!(!response.ok);
    assert_eq!(response.error.unwrap().kind, "unknown_method");
}

#[test]
fn write_memory_accepts_desmume_empty_reply() {
    let mut bridge = bridge_arm9_only(&[("?", "S05"), ("M2100000,4:deadbeef", "")]);
    let response = ask(&mut bridge, request(
        1,
        "write_memory",
        j("{\"memory_type\":\"main\",\"address\":1048576,\"hex\":\"deadbeef\"}"),
    ));
    assert!(
        response.ok,
        "empty M reply is success: {:?}",
        response.error
    );
    assert_eq!(response.result.unwrap()["written"], parsed("4"));
}

#[test]
fn write_memory_rejects_error_reply() {
    let mut bridge = bridge_arm9_only(&[("?", "S05"), ("M2100000,4:deadbeef", "E02")]);
    let response = ask(&mut bridge, request(
        1,
        "write_memory",
        j("{\"memory_type\":\"main\",\"address\":1048576,\"hex\":\"deadbeef\"}"),
    ));
    assert!(!response.ok);
    assert_eq!(response.error.unwrap().kind, "emulator_error");
}

#[test]
fn resume_defaults_to_arm9_only() {
    let mut bridge = NdsBridge::new(
        FakeGdb::with(&[("?", "S05")]),
        Some(FakeGdb::with(&[("?", "S05")])),
        env(),
    );
    let response = ask(&mut bridge, request(1, "resume", j("{}")));
    assert!(response.ok);
    let cpus = response.result.unwrap()["cpus"].clone();
    assert_eq!(cpus.get("arm9").and_then(|v| v.as_str()), Some("running"));
    assert!(
        cpus.get("arm7").is_none(),
        "arm7 must not resume by default"
    );
}

#[test]
fn resume_both_opts_into_dual_continue() {
    let mut bridge = NdsBridge::new(
        FakeGdb::with(&[("?", "S05")]),
        Some(FakeGdb::with(&[("?", "S05")])),
        env(),
    );
    let response = ask(&mut bridge, request(1, "resume", j("{\"cpu\":\"both\"}")));
    assert!(response.ok);
    let cpus = response.result.unwrap()["cpus"].clone();
    assert_eq!(cpus.get("arm9").and_then(|v| v.as_str()), Some("running"));
    assert_eq!(cpus.get("arm7").and_then(|v| v.as_str()), Some("running"));
}

#[test]
fn save_state_sends_hex_encoded_savestate_command() {
    let path = "/tmp/s.dsv";
    let cmd = format!("QEmucap,savestate:{}", hex::encode(path));
    let mut bridge = bridge_arm9_only(&[("?", "S05"), (cmd.as_str(), "OK")]);
    let response = ask(&mut bridge, request(1, "save_state", j(&format!("{{\"path\":\"{}\"}}", path))));
    assert!(response.ok, "save_state failed: {:?}", response.error);
    let result = response.result.unwrap();
    assert_eq!(result["path"], path);
    assert_eq!(result["status"], "completed");
    assert!(bridge.arm9.gdb.calls.iter().any(|c| c == &cmd));
}

#[test]
fn reset_sends_reset_command_and_reports_frozen() {
    let mut bridge = bridge_arm9_only(&[("?", "S05"), ("QEmucap,reset", "OK")]);
    let response = ask(&mut bridge, request(1, "reset", j("{}")));
    assert!(response.ok, "reset failed: {:?}", response.error);
    let result = response.result.unwrap();
    assert_eq!(result["status"], "completed");
    assert_eq!(result["state"], "frozen");
    assert!(bridge.arm9.gdb.calls.iter().any(|c| c == "QEmucap,reset"));
}

#[test]
fn load_state_sends_hex_encoded_loadstate_command() {
    let path = "/tmp/s.dsv";
    let cmd = format!("QEmucap,loadstate:{}", hex::encode(path));
    let mut bridge = bridge_arm9_only(&[("?", "S05"), (cmd.as_str(), "OK")]);
    let response = ask(&mut bridge, request(1, "load_state", j(&format!("{{\"path\":\"{}\"}}", path))));
    assert!(response.ok, "load_state failed: {:?}", response.error);
    assert_eq!(response.result.unwrap()["status"], "completed");
}

#[test]
fn save_state_surfaces_emulator_error_on_e01() {
    let path = "/bad/s.dsv";
    let cmd = format!("QEmucap,savestate:{}", hex::encode(path));
    let mut bridge = bridge_arm9_only(&[("?", "S05"), (cmd.as_str(), "E01")]);
    let response = ask(&mut bridge, request(1, "save_state", j(&format!("{{\"path\":\"{}\"}}", path))));
    assert!(!response.ok);
    assert_eq!(response.error.unwrap().kind, "emulator_error");
}

#[test]
fn disassemble_sends_query_and_parses_little_endian_bytes() {
    let block = "2000000|e3a00001|mov r0, #1\n2000004|e12fff1e|bx lr\n";
    let b64 = base64::engine::general_purpose::STANDARD.encode(block);
    let mut bridge = bridge_arm9_only(&[("?", "S05"), ("qEmucap,disasm:2000000,2", b64.as_str())]);
    let response = ask(&mut bridge, request(
        1,
        "disassemble",
        j("{\"address\":33554432,\"count\":2}"),
    ));
    assert!(response.ok, "disassemble failed: {:?}", response.error);
    let result = response.result.unwrap();
    assert_eq!(result["cpu"], "arm9");
    let insns = result["instructions"].as_array().unwrap();
    assert_eq!(insns.len(), 2);
    assert_eq!(insns[0]["addr"], 0x0200_0000u64);
    assert_eq!(insns[0]["text"], "mov r0, #1");
    assert_eq!(insns[0]["bytes"], "0100a0e3");
    assert_eq!(insns[1]["addr"], 0x0200_0004u64);
    assert_eq!(insns[1]["text"], "bx lr");
    assert_eq!(insns[1]["bytes"], "1eff2fe1");
}

#[test]
fn disassemble_passes_thumb_mode_to_fork() {
    let block = "2000000|2001|movs r0, #1\n";
    let b64 = base64::engine::general_purpose::STANDARD.encode(block);
    let mut bridge =
        bridge_arm9_only(&[("?", "S05"), ("qEmucap,disasm:2000000,1,t", b64.as_str())]);
    let response = ask(&mut bridge, request(
        1,
        "disassemble",
        j("{\"address\":33554432,\"count\":1,\"mode\":\"thumb\"}"),
    ));
    assert!(
        response.ok,
        "disassemble thumb failed: {:?}",
        response.error
    );
    let result = response.result.unwrap();
    assert_eq!(result["mode"], "thumb");
    assert_eq!(result["instructions"][0]["bytes"], "0120");
}

#[test]
fn call_stack_walks_lr_then_fp_chain_over_g_and_m() {
    let regs = arm_regs_hex(
        &[
            (11, 0x0300_0100),
            (13, 0x0300_0000),
            (14, 0x0200_0200),
            (15, 0x0200_0100),
        ],
        0,
    );
    let mut bridge = bridge_arm9_only(&[
        ("?", "S05"),
        ("g", &regs),
        ("m30000fc,4", "00030002"),
        ("m30000f4,4", "00020003"),
        ("m30001fc,4", "00000000"),
        ("m30001f4,4", "00000000"),
    ]);
    let response = ask(&mut bridge, request(1, "call_stack", j("{}")));
    assert!(response.ok, "call_stack failed: {:?}", response.error);
    let result = response.result.unwrap();
    assert_eq!(result["cpu"], "arm9");
    assert_eq!(result["method"], "lr+fp-walk (best-effort)");
    let frames = result["frames"].as_array().unwrap();
    assert_eq!(frames.len(), 3, "pc + lr + one fp-walk frame");
    assert_eq!(frames[0]["pc"], 0x0200_0100u64);
    assert_eq!(frames[0]["kind"], "pc");
    assert_eq!(frames[1]["pc"], 0x0200_0200u64);
    assert_eq!(frames[1]["kind"], "lr");
    assert_eq!(frames[2]["pc"], 0x0200_0300u64);
    assert_eq!(frames[2]["kind"], "fp-walk");
}

#[test]
fn call_stack_without_frame_pointer_returns_pc_and_lr_only() {
    let regs = arm_regs_hex(&[(14, 0x0200_0200), (15, 0x0200_0100)], 0);
    let mut bridge = bridge_arm9_only(&[("?", "S05"), ("g", &regs)]);
    let response = ask(&mut bridge, request(1, "call_stack", j("{}")));
    assert!(response.ok, "call_stack failed: {:?}", response.error);
    let frames = response.result.unwrap()["frames"]
        .as_array()
        .unwrap()
        .clone();
    assert_eq!(frames.len(), 2);
    assert_eq!(frames[0]["kind"], "pc");
    assert_eq!(frames[1]["kind"], "lr");
}

#[test]
fn opcode_hex_to_le_bytes_reverses_byte_order() {
    assert_eq!(opcode_hex_to_le_bytes("e3a00001"), "0100a0e3");
    assert_eq!(opcode_hex_to_le_bytes("2001"), "0120");
}

#[test]
fn find_pattern_scans_main_region_with_match_limit() {
    let mut bridge = bridge_arm9_only(&[("?", "S05"), ("m2000000,8", "aa00aa00aa00aa00")]);
    let response = ask(&mut bridge, request(
        7,
        "find_pattern",
        j("{\"memory_type\":\"main\",\"start\":0,\"length\":8,\"hex\":\"aa00\",\"max_matches\":2}"),
    ));
    let result = response.result.unwrap();
    assert_eq!(result["matches"], parsed("[0,2]"));
    assert_eq!(result["count"], 2);
    assert_eq!(result["truncated_matches"], true);
    assert_eq!(result["truncated"], true);
    assert_eq!(result["cpu"], "arm9");
}

#[test]
fn find_pattern_absent_returns_no_matches() {
    let mut bridge = bridge_arm9_only(&[("?", "S05"), ("m2000000,8", "1122334455667788")]);
    let response = ask(&mut bridge, request(
        8,
        "find_pattern",
        j("{\"memory_type\":\"main\",\"start\":0,\"length\":8,\"hex\":\"aa00\"}"),
    ));
    let result = response.result.unwrap();
    assert_eq!(result["matches"], parsed("[]"));
    assert_eq!(result["count"], 0);
    assert_eq!(result["truncated"], false);
}

#[test]
fn find_pattern_offsets_are_region_relative_to_start() {
    let mut bridge = bridge_arm9_only(&[("?", "S05"), ("m2000004,4", "0000aa00")]);
    let response = ask(&mut bridge, request(
        9,
        "find_pattern",
        j("{\"memory_type\":\"main\",\"start\":4,\"length\":4,\"hex\":\"aa00\"}"),
    ));
    let result = response.result.unwrap();
    assert_eq!(result["matches"], parsed("[6]"));
    assert_eq!(result["count"], 1);
}

fn dump(
    bridge: &mut NdsBridge<FakeGdb>,
    files: &mut Vec<(String, Vec<u8>)>,
) -> Result<Value, emucap::nds::NdsBridgeError> {
    let mut written = Vec::new();
    let mut entries = Vec::new();
    for name in dump_regions() {
        let region = memory_region(name).unwrap();
        let bytes = bridge.read_region_bytes(name, 0, region.size)?;
        check_written(name, bytes.len() as u64, region.size)?;
        entries.push(region_entry(name)?);
        written.push((format!("{name}.bin"), bytes));
    }
    let count = entries.len() as u64;
    written.push((
        "regions.json".into(),
        to_value(&Json::Array(entries)).to_string().into_bytes(),
    ));
    files.append(&mut written);
    Ok(to_value(&dump_report("/dump", count)))
}

#[test]
fn dump_memory_writes_regions_under_requested_directory() {
    let mut replies = vec![("?".to_string(), "S05".to_string())];
    let names = dump_regions();
    for name in &names {
        let region = memory_region(name).unwrap();
        let mut offset = 0usize;
        while offset < region.size as usize {
            let chunk = READ_CHUNK.min(region.size as usize - offset);
            replies.push((
                format!("m{:x},{:x}", region.base as usize + offset, chunk),
                "00".repeat(chunk),
            ));
            offset += chunk;
        }
    }
    let mut bridge = bridge_arm9_only_pairs(replies);
    let handled = bridge.handle_request(request(12, "dump_memory", j("{\"path\":\"/dump\"}")));
    assert!(matches!(handled, Handled::Dump { id: 12, path } if path == "/dump"));
    let mut files = Vec::new();
    let report = dump(&mut bridge, &mut files).unwrap();
    assert_eq!(report["regions"], names.len());
    assert_eq!(report["path"], "/dump");

    let regions: Value = serde_json::from_slice(&files.last().unwrap().1).unwrap();
    let regions = regions.as_array().unwrap();
    assert_eq!(regions.len(), names.len());
    let main_meta = regions.iter().find(|r| r["name"] == "main").unwrap();
    assert_eq!(main_meta["memory_type"], "main");
    assert_eq!(main_meta["base_address"], 0x0200_0000u64);
    assert_eq!(main_meta["size"], 0x0040_0000u64);
    let main = files.iter().find(|(name, _)| name == "main.bin").unwrap();
    assert_eq!(main.1.len() as u64, memory_region("main").unwrap().size);
}

#[test]
fn dump_memory_short_read_fails_without_partial_bin() {
    let mut bridge = bridge_arm9_only(&[("?", "S05"), ("m2000000,2000", "00")]);
    let mut files = Vec::new();
    let error = dump(&mut bridge, &mut files).unwrap_err();
    let response = respond(13, Err(error));
    assert!(!response.ok, "short read must fail the dump");
    assert_eq!(response.error.unwrap().kind, "emulator_error");
    assert!(files.is_empty());
    assert_eq!(
        check_written("main", 3, 4).unwrap_err().message(),
        "dump main: wrote 3 of 4 bytes to disk"
    );
}

#[test]
fn shared_read_freezes_running_arm7_then_restores_it() {
    let arm9 = FakeGdb::with(&[("?", "S05"), ("m2000000,8", "1122334455667788")]);
    let arm7 = FakeGdb::with(&[("?", "S05")]);
    let mut bridge = NdsBridge::new(arm9, Some(arm7), env());
    bridge.arm9.frozen = false;
    bridge.arm7.as_mut().unwrap().frozen = false;
    let resp = ask(&mut bridge, request(
        1,
        "find_pattern",
        j("{\"memory_type\":\"main\",\"start\":0,\"length\":8,\"hex\":\"aa\"}"),
    ));
    assert!(resp.ok, "{:?}", resp.error);
    let a7 = bridge.arm7.as_ref().unwrap();
    assert!(
        a7.gdb.calls.iter().any(|c| c == "c"),
        "a running ARM7 must be frozen for the shared read and resumed after: {:?}",
        a7.gdb.calls
    );
    assert!(
        !a7.frozen,
        "ARM7 must be restored to running after the read"
    );
    assert!(
        !bridge.arm9.frozen,
        "ARM9 must be restored to running after the read"
    );
}

#[test]
fn shared_read_leaves_already_frozen_arm7_frozen() {
    let arm9 = FakeGdb::with(&[("?", "S05"), ("m2000000,8", "1122334455667788")]);
    let arm7 = FakeGdb::with(&[("?", "S05")]);
    let mut bridge = NdsBridge::new(arm9, Some(arm7), env());
    bridge.arm9.frozen = false;
    let resp = ask(&mut bridge, request(
        2,
        "find_pattern",
        j("{\"memory_type\":\"main\",\"start\":0,\"length\":8,\"hex\":\"aa\"}"),
    ));
    assert!(resp.ok, "{:?}", resp.error);
    let a7 = bridge.arm7.as_ref().unwrap();
    assert!(a7.frozen, "an already-frozen ARM7 must stay frozen");
    assert!(
        !a7.gdb.calls.iter().any(|c| c == "c"),
        "an already-frozen ARM7 must not be resumed by a shared read: {:?}",
        a7.gdb.calls
    );
}

#[test]
fn step_on_running_core_stays_halted_and_labeled_frozen() {
    let regs = arm_regs_hex(&[(15, 0x0200_0004)], 0);
    let mut bridge = bridge_arm9_only(&[("?", "S05"), ("s", "S05"), ("g", &regs)]);
    bridge.arm9.frozen = false;
    let response = ask(&mut bridge, request(9, "step_instructions", j("{\"count\":1}")));
    assert!(response.ok, "{:?}", response.error);
    assert!(
        bridge.arm9.frozen,
        "a stepped core must be labeled frozen (matching its real halted state)"
    );
    assert!(
        !bridge.arm9.gdb.calls.iter().any(|c| c == "c"),
        "stepping must not resume (re-run) the core: {:?}",
        bridge.arm9.gdb.calls
    );
    assert_eq!(
        bridge
            .arm9
            .gdb
            .calls
            .iter()
            .filter(|c| c.as_str() == "s")
            .count(),
        1
    );
}

#[test]
fn write_memory_chunks_large_write_into_buffer_sized_packets() {
    let size = WRITE_CHUNK + 0x10;
    let hexstr = "ab".repeat(size);
    let hex1 = "ab".repeat(WRITE_CHUNK);
    let hex2 = "ab".repeat(0x10);
    let addr2 = 0x0200_0000usize + WRITE_CHUNK;
    let mut bridge = bridge_arm9_only_pairs(vec![
        ("?".into(), "S05".into()),
        (
            format!("M2000000,{:x}:{hex1}", WRITE_CHUNK),
            "OK".into(),
        ),
        (format!("M{addr2:x},10:{hex2}"), "OK".into()),
    ]);
    let response = ask(&mut bridge, request(
        3,
        "write_memory",
        j(&format!("{{\"memory_type\":\"main\",\"address\":\"0x0\",\"hex\":\"{}\"}}", hexstr)),
    ));
    assert!(response.ok, "{:?}", response.error);
    assert_eq!(response.result.unwrap()["written"], size);
    let m_calls: Vec<&String> = bridge
        .arm9
        .gdb
        .calls
        .iter()
        .filter(|c| c.starts_with('M'))
        .collect();
    assert_eq!(
        m_calls.len(),
        2,
        "an over-chunk write must be split into 2 M packets, got {}",
        m_calls.len()
    );
    for c in &m_calls {
        assert!(
            c.len() + 4 <= BUFFER,
            "M packet ({} bytes) must fit the stub input buffer",
            c.len()
        );
    }
}

#[test]
fn shared_main_write_leaves_running_arm7_untouched() {
    let size = WRITE_CHUNK + 0x10;
    let hexstr = "ab".repeat(size);
    let hex1 = "ab".repeat(WRITE_CHUNK);
    let hex2 = "ab".repeat(0x10);
    let addr2 = 0x0200_0000usize + WRITE_CHUNK;
    let arm9 = FakeGdb::from_pairs(vec![
        ("?".into(), "S05".into()),
        (
            format!("M2000000,{:x}:{hex1}", WRITE_CHUNK),
            "OK".into(),
        ),
        (format!("M{addr2:x},10:{hex2}"), "OK".into()),
    ]);
    let arm7 = FakeGdb::with(&[("?", "S05")]);
    let mut bridge = NdsBridge::new(arm9, Some(arm7), env());
    bridge.arm9.frozen = false;
    bridge.arm7.as_mut().unwrap().frozen = false;
    let response = ask(&mut bridge, request(
        1,
        "write_memory",
        j(&format!("{{\"memory_type\":\"main\",\"address\":\"0x0\",\"hex\":\"{}\"}}", hexstr)),
    ));
    assert!(response.ok, "{:?}", response.error);
    assert_eq!(response.result.unwrap()["written"], size);

    let a7 = bridge.arm7.as_ref().unwrap();
    assert!(
        !a7.frozen,
        "a running ARM7 must stay running across a shared-Main write"
    );
    assert_eq!(
        a7.gdb.calls,
        vec!["?".to_string()],
        "a shared-Main write must not send ARM7 anything past the handshake: {:?}",
        a7.gdb.calls
    );

    let m_calls: Vec<&String> = bridge
        .arm9
        .gdb
        .calls
        .iter()
        .filter(|c| c.starts_with('M'))
        .collect();
    assert_eq!(
        m_calls.len(),
        2,
        "the chunked write must reach ARM9 as 2 M packets: {m_calls:?}"
    );
    assert!(
        !bridge.arm9.frozen,
        "ARM9 must be restored to running after the write"
    );
    assert!(
        bridge.arm9.gdb.calls.iter().any(|c| c == "c"),
        "ARM9 frozen for the write must be resumed after: {:?}",
        bridge.arm9.gdb.calls
    );
}

#[test]
fn shared_read_does_not_phantom_freeze_arm7_when_stale_sigint_drains_after_resume() {
    let arm9 = FakeGdb::from_pairs(vec![
        ("?".into(), "S05".into()),
        ("m2000000,8".into(), "1122334455667788".into()),
    ]);
    let arm7 = FakeGdb::with(&[("?", "S05")]);
    let mut bridge = NdsBridge::new(arm9, Some(arm7), env());
    bridge.arm9.frozen = false;
    bridge.arm7.as_mut().unwrap().frozen = false;

    let r = ask(&mut bridge, request(
        1,
        "find_pattern",
        j("{\"memory_type\":\"main\",\"start\":0,\"length\":8,\"hex\":\"55\"}"),
    ));
    assert!(r.ok, "{:?}", r.error);
    let a7 = bridge.arm7.as_ref().unwrap();
    assert!(
        a7.gdb.calls.iter().any(|c| c == "c"),
        "shared read must resume ARM7: {:?}",
        a7.gdb.calls
    );
    assert!(
        !a7.frozen,
        "ARM7 must be running right after the shared read"
    );

    bridge
        .arm7
        .as_mut()
        .unwrap()
        .gdb
        .nonblocking
        .push_back("S02".into());
    let st = ask(&mut bridge, request(2, "status", j("{}")))
        .result
        .unwrap();
    assert_eq!(
        st["cpus"]["arm7"]["state"], "running",
        "a stale SIGINT must not phantom-freeze a resumed ARM7: {st}"
    );
    assert_eq!(st["cpus"]["arm9"]["state"], "running", "{st}");
    assert_eq!(st["state"], "running", "{st}");
}

#[test]
fn nonshared_write_does_not_freeze_running_arm7() {
    let arm9 = FakeGdb::with(&[("?", "S05"), ("M2000000,4:deadbeef", "OK")]);
    let arm7 = FakeGdb::with(&[("?", "S05")]);
    let mut bridge = NdsBridge::new(arm9, Some(arm7), env());
    bridge.arm9.frozen = false;
    bridge.arm7.as_mut().unwrap().frozen = false;
    let response = ask(&mut bridge, request(
        1,
        "write_memory",
        j("{\"memory_type\":\"arm9\",\"address\":33554432,\"hex\":\"deadbeef\"}"),
    ));
    assert!(response.ok, "{:?}", response.error);
    let a7 = bridge.arm7.as_ref().unwrap();
    assert!(!a7.frozen, "ARM7 stays running for a non-shared write");
    assert_eq!(
        a7.gdb.calls,
        vec!["?".to_string()],
        "a non-shared write must not touch ARM7 (no pause/resume): {:?}",
        a7.gdb.calls
    );
}

#[test]
fn write_memory_rejects_length_over_cap() {
    let mut bridge = bridge_arm9_only(&[("?", "S05")]);
    let hexstr = "00".repeat(WRITE_LEN + 1);
    let r = ask(&mut bridge, request(
        1,
        "write_memory",
        j(&format!("{{\"memory_type\":\"arm9\",\"address\":0,\"hex\":\"{}\"}}", hexstr)),
    ));
    assert!(!r.ok);
    assert_eq!(r.error.unwrap().kind, "bad_params");
}

#[test]
fn shared_read_arm7_pause_failure_resumes_arm9() {
    let arm9 = FakeGdb::with(&[("?", "S05")]);
    let mut arm7 = FakeGdb::with(&[("?", "S05")]);
    arm7.fail_interrupt = true;
    let mut bridge = NdsBridge::new(arm9, Some(arm7), env());
    bridge.arm9.frozen = false;
    bridge.arm7.as_mut().unwrap().frozen = false;
    let resp = ask(&mut bridge, request(
        1,
        "find_pattern",
        j("{\"memory_type\":\"main\",\"start\":0,\"length\":8,\"hex\":\"aa\"}"),
    ));
    assert!(!resp.ok, "an ARM7 pause failure must propagate as an error");
    assert_eq!(resp.error.unwrap().kind, "emulator_error");
    assert!(
        !bridge.arm9.frozen,
        "ARM9 paused by the helper must be resumed after the ARM7 pause fails"
    );
    assert!(
        bridge.arm9.gdb.calls.iter().any(|c| c == "c"),
        "a rollback resume (continue) must be sent to ARM9: {:?}",
        bridge.arm9.gdb.calls
    );
}

#[test]
fn poll_events_preserves_arm9_events_when_arm7_drain_errors() {
    let regs = arm_regs_hex(&[(15, 0x0200_0000)], 0);
    let arm9 = FakeGdb::with(&[("?", "S05"), ("g", &regs)]);
    let arm7 = FakeGdb::with(&[("?", "S05")]);
    let mut bridge = NdsBridge::new(arm9, Some(arm7), env());
    bridge.arm9.gdb.nonblocking.push_back("S05".into());
    bridge.arm7.as_mut().unwrap().gdb.fail_nonblocking = true;

    let first = ask(&mut bridge, request(1, "poll_events", j("{}")));
    assert!(!first.ok, "an ARM7 drain error must surface");

    bridge.arm7.as_mut().unwrap().gdb.fail_nonblocking = false;
    let second = ask(&mut bridge, request(2, "poll_events", j("{}")));
    assert!(second.ok, "{:?}", second.error);
    let events = second.result.unwrap();
    assert!(
        events["events"]
            .as_array()
            .unwrap()
            .iter()
            .any(|e| e["signal"] == "05"),
        "the ARM9 breakpoint hit drained before the ARM7 error was lost: {events:?}"
    );
}

struct DelayedStepGdb {
    timeout: u64,
    step_delay: u64,
    now: u64,
    issued_steps: u64,
    timeout_history: Vec<u64>,
}

impl DelayedStepGdb {
    fn delayed_step(&mut self) -> Result<String, GdbError> {
        self.issued_steps += 1;
        self.now += self.step_delay.min(self.timeout);
        if self.timeout < self.step_delay {
            return Err(GdbError::Io(
                "delayed GDB step exceeded its clipped timeout".into(),
            ));
        }
        Ok("S05".into())
    }
}

impl GdbTransport for DelayedStepGdb {
    fn send(&mut self, payload: &str) -> Result<String, GdbError> {
        match payload {
            "?" => Ok("S05".into()),
            "s" => self.delayed_step(),
            other => Err(GdbError::Emulator(format!(
                "unexpected delayed GDB call: {other}"
            ))),
        }
    }

    fn send_no_reply(&mut self, _payload: &str) -> Result<(), GdbError> {
        Ok(())
    }

    fn interrupt(&mut self) -> Result<String, GdbError> {
        Ok("S02".into())
    }

    fn recv_nonblocking(&mut self) -> Result<Option<String>, GdbError> {
        Ok(None)
    }

    fn recv_reply(&mut self) -> Result<String, GdbError> {
        Err(GdbError::Poisoned)
    }

    fn get_timeout(&mut self) -> Result<u64, GdbError> {
        Ok(self.timeout)
    }

    fn set_timeout(&mut self, timeout: u64) -> Result<(), GdbError> {
        self.timeout = timeout;
        self.timeout_history.push(timeout);
        Ok(())
    }

    fn clock(&mut self) -> u64 {
        self.now
    }

    fn wait(&mut self, time: u64) {
        self.now += time;
    }

    fn is_terminal(&self) -> bool {
        false
    }
}

#[test]
fn delayed_backend_cannot_turn_a_partial_nds_step_into_completion() {
    let second = 1_000 * NANOS_PER_MS;
    let mut bridge = NdsBridge::new(
        DelayedStepGdb {
            timeout: second,
            step_delay: 70 * NANOS_PER_MS,
            now: 0,
            issued_steps: 0,
            timeout_history: Vec::new(),
        },
        None,
        env(),
    );
    let error = bridge
        .step_cpu_with_budget(&j("{}"), 3, 120 * NANOS_PER_MS)
        .unwrap_err();

    assert!(bridge.arm9.gdb.now < 250 * NANOS_PER_MS);
    assert!(error.message().contains("after 1 acknowledged of 3"));
    assert_eq!(bridge.arm9.gdb.issued_steps, 2);
    assert!(bridge.arm9.frozen);
    assert_eq!(bridge.arm9.gdb.timeout, second);
    assert!(bridge
        .arm9
        .gdb
        .timeout_history
        .iter()
        .any(|timeout| *timeout < 70 * NANOS_PER_MS));
}

#[test]
fn rom_reports_tell_the_lower_case_extension() {
    let report = to_value(&rom_report(Some("A.NDS"), "/roms/A.NDS", "00", 4, Some("NDS")));
    assert_eq!(report["media_type"], "nds");
    assert_eq!(report["name"], "A.NDS");
    assert_eq!(
        missing_content("/roms/A.NDS").message(),
        "content image not found: /roms/A.NDS"
    );
    let mut bridge = bridge_arm9_only(&[("?", "S05")]);
    let missing = ask(&mut bridge, request(1, "get_rom_info", j("{}")));
    assert_eq!(missing.error.unwrap().kind, "bad_params");
}

#[test]
fn numbers_are_read_in_their_written_forms() {
    assert_eq!(parse_num(&j("\"0X1f\"")), Some(31));
    assert_eq!(parse_num(&j("\"$1f\"")), Some(31));
    assert_eq!(parse_num(&j("\" 31 \"")), Some(31));
    assert_eq!(parse_num(&j("-1")), None);
    assert_eq!(le_hex_to_u32("04030201"), Some(0x0102_0304));
}

#[test]
fn breakpoint_numbers_are_never_given_twice() {
    let mut bridge = bridge_arm9_only(&[
        ("?", "S05"),
        ("Z0,2000100,4", "OK"),
        ("z0,2000100,4", "OK"),
        ("Z1,2000104,4", "OK"),
    ]);
    let first = ask(
        &mut bridge,
        request(1, "set_breakpoint", j("{\"memory_type\":\"main\",\"address\":256}")),
    );
    assert_eq!(first.result.unwrap()["id"], 1);
    let cleared = ask(&mut bridge, request(2, "clear_all_breakpoints", j("{}")));
    assert_eq!(cleared.result.unwrap()["cleared"], parsed("[1]"));
    let second = ask(
        &mut bridge,
        request(
            3,
            "set_breakpoint",
            j("{\"memory_type\":\"main\",\"address\":260,\"hardware\":true}"),
        ),
    );
    assert_eq!(second.result.unwrap()["id"], 2);
    let unknown = ask(&mut bridge, request(4, "clear_breakpoint", j("{\"id\":1}")));
    assert_eq!(unknown.error.unwrap().message, "unknown breakpoint id: 1");
}
