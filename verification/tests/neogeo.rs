use std::collections::VecDeque;

use emucap::encoding::{FileDigest, StateDigest};
use emucap::gdb::{GdbBridgeEnv, GdbError, GdbTransport};
use emucap::json::Json;
use emucap::live::protocol::{Request, Response};
use emucap::neogeo::files::{
    check_listing_path, check_listing_size, check_loadable, missing_content, missing_parent,
    partial_name, DiscFile, SaveAction, SaveEvent, SaveStage, StateSave,
};
use emucap::neogeo::machine::NeoGeoBridge;
use emucap::neogeo::packets::{little_endian_hex, parse_arm_reply, parse_breakpoint_stop};
use emucap::neogeo::service::{active_exceptions, breakpoint_kinds, respond, Handled};
use emucap::neogeo::stack::parse_stack;
use emucap::neogeo::{
    max_sync_frame_count, BridgeError, NeoGeoProfile, CD_RAM_SIZE, MVS_RAM_SIZE,
    STATE_OPERATION_TIMEOUT_NS,
};
use serde_json::Value;

fn from_value(value: &Value) -> Json {
    match value {
        Value::Null => Json::Null,
        Value::Bool(b) => Json::Bool(*b),
        Value::Number(n) => {
            if let Some(u) = n.as_u64() {
                Json::Unsigned(u)
            } else if let Some(i) = n.as_i64() {
                Json::Negative(i)
            } else {
                Json::Float(n.to_string())
            }
        }
        Value::String(s) => Json::Str(s.clone()),
        Value::Array(items) => Json::Array(items.iter().map(from_value).collect()),
        Value::Object(fields) => Json::Object(
            fields
                .iter()
                .map(|(key, value)| (key.clone(), from_value(value)))
                .collect(),
        ),
    }
}

fn to_value(value: &Json) -> Value {
    match value {
        Json::Null => Value::Null,
        Json::Bool(b) => Value::Bool(*b),
        Json::Unsigned(n) => Value::from(*n),
        Json::Negative(n) => Value::from(*n),
        Json::Float(number) => serde_json::from_str(number).unwrap(),
        Json::Str(s) => Value::String(s.clone()),
        Json::Array(items) => Value::Array(items.iter().map(to_value).collect()),
        Json::Object(fields) => Value::Object(
            fields
                .iter()
                .map(|(key, value)| (key.clone(), to_value(value)))
                .collect(),
        ),
    }
}

fn parsed(text: &str) -> Value {
    serde_json::from_str(text).unwrap()
}

fn j(text: &str) -> Json {
    from_value(&parsed(text))
}

const SECOND: u64 = 1_000_000_000;

struct FakeGdb {
    replies: VecDeque<String>,
    packets: VecDeque<String>,
    sent: Vec<String>,
    timeout: u64,
    timeout_changes: Vec<u64>,
    fail_timeout_from: Option<usize>,
}

impl FakeGdb {
    fn with(replies: &[&str]) -> Self {
        Self {
            replies: replies.iter().map(|v| (*v).into()).collect(),
            packets: VecDeque::new(),
            sent: Vec::new(),
            timeout: 5 * SECOND,
            timeout_changes: Vec::new(),
            fail_timeout_from: None,
        }
    }
}

impl GdbTransport for FakeGdb {
    fn send(&mut self, payload: &str) -> Result<String, GdbError> {
        self.sent.push(payload.into());
        Ok(self.replies.pop_front().unwrap_or_default())
    }

    fn send_no_reply(&mut self, payload: &str) -> Result<(), GdbError> {
        self.sent.push(payload.into());
        Ok(())
    }

    fn interrupt(&mut self) -> Result<String, GdbError> {
        self.sent.push("interrupt".into());
        Ok(self.replies.pop_front().unwrap_or_else(|| "S05".into()))
    }

    fn recv_nonblocking(&mut self) -> Result<Option<String>, GdbError> {
        Ok(self.packets.pop_front())
    }

    fn recv_reply(&mut self) -> Result<String, GdbError> {
        Ok(self.replies.pop_front().unwrap_or_default())
    }

    fn get_timeout(&mut self) -> Result<u64, GdbError> {
        Ok(self.timeout)
    }

    fn set_timeout(&mut self, timeout: u64) -> Result<(), GdbError> {
        if let Some(from) = self.fail_timeout_from {
            if self.timeout_changes.len() >= from {
                return Err(GdbError::Io("socket gone".into()));
            }
        }
        self.timeout = timeout;
        self.timeout_changes.push(timeout);
        Ok(())
    }

    fn clock(&mut self) -> u64 {
        0
    }

    fn wait(&mut self, _time: u64) {}

    fn is_terminal(&self) -> bool {
        false
    }
}

fn env() -> GdbBridgeEnv {
    GdbBridgeEnv {
        name: None,
        session_token: None,
        launch_id: None,
        content: None,
        build: None,
        protocol_version: 1,
        contracts: Json::Null,
    }
}

fn bridge(replies: &[&str], system: &str) -> NeoGeoBridge<FakeGdb> {
    match NeoGeoBridge::new(FakeGdb::with(replies), env(), system) {
        Ok(bridge) => bridge,
        Err(error) => panic!("{}", error.message()),
    }
}

fn request(id: u64, method: &str, params: &str) -> Request {
    Request {
        id,
        method: method.into(),
        params: j(params),
    }
}

fn ask(bridge: &mut NeoGeoBridge<FakeGdb>, id: u64, method: &str, params: &str) -> Response {
    match bridge.handle_request(request(id, method, params)) {
        Handled::Done(response) => response,
        other => panic!("{other:?}"),
    }
}

fn result(response: Response) -> Value {
    assert!(response.ok, "{:?}", response.error);
    to_value(&response.result.unwrap())
}

fn has(list: &Value, name: &str) -> bool {
    list.as_array().unwrap().iter().any(|entry| entry == name)
}

#[test]
fn rejects_ambiguous_neogeo_system() {
    let result = NeoGeoBridge::new(FakeGdb::with(&[]), env(), "neogeo");
    assert!(matches!(result, Err(BridgeError::BadParams(_))));
}

#[test]
fn hello_advertises_only_proven_initial_surface() {
    let exceptions = active_exceptions(NeoGeoProfile::Mvs);
    let contracts = format!(
        "{{\"active_exceptions\":[{}]}}",
        exceptions
            .iter()
            .map(|name| format!("\"{name}\""))
            .collect::<Vec<_>>()
            .join(",")
    );
    let mut told = env();
    told.contracts = j(&contracts);
    let mut bridge = match NeoGeoBridge::new(FakeGdb::with(&[]), told, "neogeo_mvs") {
        Ok(bridge) => bridge,
        Err(error) => panic!("{}", error.message()),
    };
    let value = result(ask(&mut bridge, 1, "hello", "{}"));
    assert_eq!(value["system"], "neogeo_mvs");
    assert_eq!(value["memory_types"], parsed("[\"ram\"]"));
    assert_eq!(value["breakpoint_kinds"], parsed("[]"));
    assert_eq!(
        value["execution_limits"]["frame"]["max_count"],
        max_sync_frame_count()
    );
    assert_eq!(
        value["contracts"]["active_exceptions"]
            .as_array()
            .unwrap()
            .len(),
        13
    );
    assert_eq!(value["build"], "unknown");
    assert!(bridge.gdb.sent.is_empty());
}

#[test]
fn aes_hello_advertises_state_files_and_console_inputs() {
    let mut bridge = bridge(&[], "neogeo_aes");
    let value = result(ask(&mut bridge, 1, "hello", "{}"));
    assert_eq!(value["system"], "neogeo_aes");
    assert_eq!(value["region_sizes"]["ram"], MVS_RAM_SIZE);
    assert_eq!(value["capability_notes"]["initial_scope"], "aes");
    assert_eq!(
        value["capability_notes"]["state_restore"]["supported"],
        true
    );
    assert!(
        value["capability_notes"]["state_restore"]["screenshot_after_load"]
            .as_str()
            .is_some_and(|note| note.contains("one frozen frame"))
    );
    assert!(has(&value["methods"], "save_state"));
    assert!(has(&value["methods"], "load_state"));
    assert!(has(&value["input_buttons"]["buttons"], "select"));
    assert!(!has(&value["input_buttons"]["buttons"], "coin"));
}

#[test]
fn cd_hello_advertises_the_cd_profile_without_state_files() {
    let mut bridge = bridge(&[], "neogeo_cd");
    let value = result(ask(&mut bridge, 1, "hello", "{}"));
    assert_eq!(value["system"], "neogeo_cd");
    assert_eq!(value["region_sizes"]["ram"], CD_RAM_SIZE);
    assert_eq!(value["capability_notes"]["initial_scope"], "cdz");
    assert_eq!(
        value["capability_notes"]["state_restore"]["supported"],
        false
    );
    assert!(!has(&value["methods"], "save_state"));
    assert!(!has(&value["methods"], "load_state"));
    assert!(has(&value["input_buttons"]["buttons"], "select"));
    assert!(!has(&value["input_buttons"]["buttons"], "coin"));
    assert_eq!(active_exceptions(NeoGeoProfile::Cd).len(), 11);
}

#[test]
fn memory_access_requires_freeze_and_checks_cross_boundary() {
    let mut bridge = bridge(&[], "neogeo_mvs");
    let running = ask(
        &mut bridge,
        1,
        "read_memory",
        "{\"memory_type\":\"ram\",\"address\":0,\"length\":1}",
    );
    assert_eq!(running.error.unwrap().kind, "bad_state");

    let write_running = ask(
        &mut bridge,
        2,
        "write_memory",
        "{\"memory_type\":\"ram\",\"address\":0,\"hex\":\"00\"}",
    );
    assert_eq!(write_running.error.unwrap().kind, "bad_state");

    bridge.frozen = true;
    let boundary = ask(
        &mut bridge,
        3,
        "read_memory",
        "{\"memory_type\":\"ram\",\"address\":65535,\"length\":2}",
    );
    assert_eq!(boundary.error.unwrap().kind, "bad_params");

    let oversized = ask(
        &mut bridge,
        4,
        "read_memory",
        "{\"memory_type\":\"ram\",\"address\":0,\"length\":16385}",
    );
    assert_eq!(oversized.error.unwrap().kind, "bad_params");
    assert!(bridge.gdb.sent.is_empty());
}

#[test]
fn aes_uses_mvs_ram_with_console_only_input() {
    let mut bridge = bridge(&["aa"], "neogeo_aes");
    bridge.frozen = true;
    let last_byte = ask(
        &mut bridge,
        1,
        "read_memory",
        "{\"memory_type\":\"ram\",\"address\":65535,\"length\":1}",
    );
    assert!(last_byte.ok, "{:?}", last_byte.error);
    assert_eq!(bridge.gdb.sent, vec!["m10ffff,1"]);

    let crossing = ask(
        &mut bridge,
        2,
        "read_memory",
        "{\"memory_type\":\"ram\",\"address\":65535,\"length\":2}",
    );
    assert_eq!(crossing.error.unwrap().kind, "bad_params");
    let coin = ask(&mut bridge, 3, "set_input", "{\"buttons\":[\"coin\"]}");
    assert_eq!(coin.error.unwrap().kind, "bad_params");
    assert_eq!(bridge.gdb.sent, vec!["m10ffff,1"]);
}

#[test]
fn cd_ram_uses_the_two_megabyte_zero_based_profile() {
    let mut bridge = bridge(&["aa"], "neogeo_cd");
    bridge.frozen = true;
    let last_byte = ask(
        &mut bridge,
        1,
        "read_memory",
        "{\"memory_type\":\"ram\",\"address\":2097151,\"length\":1}",
    );
    assert!(last_byte.ok, "{:?}", last_byte.error);
    assert_eq!(bridge.gdb.sent, vec!["m1fffff,1"]);

    let crossing = ask(
        &mut bridge,
        2,
        "read_memory",
        "{\"memory_type\":\"ram\",\"address\":2097151,\"length\":2}",
    );
    assert_eq!(crossing.error.unwrap().kind, "bad_params");
    assert_eq!(bridge.gdb.sent, vec!["m1fffff,1"]);
}

#[test]
fn cd_rejects_state_files_and_mvs_only_input_before_backend_mutation() {
    let mut bridge = bridge(&[], "neogeo_cd");
    let save = ask(
        &mut bridge,
        1,
        "save_state",
        "{\"path\":\"/tmp/not-supported.sta\"}",
    );
    assert_eq!(save.error.unwrap().kind, "unknown_method");
    let coin = ask(&mut bridge, 2, "set_input", "{\"buttons\":[\"coin\"]}");
    assert_eq!(coin.error.unwrap().kind, "bad_params");
    assert!(bridge.gdb.sent.is_empty());

    bridge.gdb.replies.push_back("OK".into());
    let select = ask(&mut bridge, 3, "set_input", "{\"buttons\":[\"select\"]}");
    assert!(select.ok, "{:?}", select.error);
    assert_eq!(bridge.gdb.sent, vec!["qEmucap,setinput,73656c656374"]);
}

fn described_disc(bridge: &NeoGeoBridge<FakeGdb>, cue: &[u8], track: &[u8]) -> Value {
    let mut graph = FileDigest::new();
    let mut files = Vec::new();
    for (name, data) in [("disc.cue", cue), ("track01.bin", track)] {
        graph.feed(data);
        let mut digest = FileDigest::new();
        digest.feed(data);
        let (sha1, size) = digest.finish();
        files.push(DiscFile {
            declared_name: name.into(),
            path: format!("/discs/{name}"),
            size,
            sha1,
        });
    }
    let (sha1, size) = graph.finish();
    to_value(&bridge.describe_disc(Some("disc.cue"), "/discs/disc.cue", &sha1, size, &files))
}

#[test]
fn cd_rom_info_hashes_the_complete_cue_graph() {
    let mut told = env();
    told.content = Some("/discs/disc.cue".into());
    let mut bridge = match NeoGeoBridge::new(FakeGdb::with(&[]), told, "neogeo_cd") {
        Ok(bridge) => bridge,
        Err(error) => panic!("{}", error.message()),
    };
    let handled = bridge.handle_request(request(1, "get_rom_info", "{}"));
    assert!(matches!(handled, Handled::RomInfo { id: 1, path } if path == "/discs/disc.cue"));

    let cue = b"FILE \"track01.bin\" BINARY\n";
    let before = described_disc(&bridge, cue, b"track-one");
    assert_eq!(before["identity"]["kind"], "cue_graph_v1");
    assert_eq!(before["identity"]["files"].as_array().unwrap().len(), 2);
    assert_eq!(before["media_type"], "cue");

    let after = described_disc(&bridge, cue, b"track-two");
    assert_ne!(before["sha1"], after["sha1"]);
}

#[test]
fn cartridge_rom_info_tells_the_digest_and_the_lower_case_extension() {
    let bridge = bridge(&[], "neogeo_mvs");
    let mut digest = FileDigest::new();
    digest.feed(b"ab");
    digest.feed(b"c");
    let (sha1, size) = digest.finish();
    let value = to_value(&bridge.describe_cartridge(
        Some("Game.ZIP"),
        "/roms/Game.ZIP",
        &sha1,
        size,
        Some("ZIP"),
    ));
    assert_eq!(value["sha1"], "a9993e364706816aba3e25717850c26c9cd0d89d");
    assert_eq!(value["size"], 3);
    assert_eq!(value["media_type"], "zip");
    assert_eq!(value["name"], "Game.ZIP");
    assert_eq!(
        missing_content("/roms/none.zip").message(),
        "content not found: /roms/none.zip"
    );
}

#[test]
fn rom_info_without_content_is_refused() {
    let mut bridge = bridge(&[], "neogeo_mvs");
    let response = ask(&mut bridge, 1, "get_rom_info", "{}");
    let error = response.error.unwrap();
    assert_eq!(error.kind, "bad_params");
    assert_eq!(error.message, "EMUCAP_CONTENT is not set for get_rom_info");
}

#[test]
fn state_read_requires_freeze() {
    let mut bridge = bridge(&[], "neogeo_mvs");
    let response = ask(&mut bridge, 1, "get_state", "{}");
    assert_eq!(response.error.unwrap().kind, "bad_state");
    assert!(bridge.gdb.sent.is_empty());
}

#[test]
fn native_state_methods_require_freeze_before_backend_mutation() {
    let mut bridge = bridge(&[], "neogeo_mvs");
    let save = ask(&mut bridge, 1, "save_state", "{\"path\":\"/tmp/state.sta\"}");
    assert_eq!(save.error.unwrap().kind, "bad_state");
    let load = ask(&mut bridge, 2, "load_state", "{\"path\":\"/tmp/state.sta\"}");
    assert_eq!(load.error.unwrap().kind, "bad_state");
    assert!(bridge.gdb.sent.is_empty());
}

#[test]
fn native_save_waits_for_backend_completion_and_publishes_the_file() {
    let mut bridge = bridge(&["OK", "42"], "neogeo_mvs");
    bridge.frozen = true;
    let path = match bridge.handle_request(request(
        1,
        "save_state",
        "{\"path\":\"/tmp/state with spaces.sta\"}",
    )) {
        Handled::SaveState { id: 1, path } => path,
        other => panic!("{other:?}"),
    };
    let partial = partial_name(Some("state with spaces.sta"), 7, 9);
    assert_eq!(partial, ".state with spaces.sta.partial.7.9");
    assert_eq!(partial_name(None, 7, 9), ".state.partial.7.9");

    let mut prior: Vec<u8> = b"prior-state".to_vec();
    let fixture: &[u8] = b"MAMESAVE-fixture";
    let (mut save, mut action) = StateSave::begin(&path);
    let mut published = false;
    let report = loop {
        let event = match action {
            SaveAction::Prepare => SaveEvent::Prepared(Ok(())),
            SaveAction::Write => SaveEvent::Written(bridge.write_state(&partial)),
            SaveAction::Measure => SaveEvent::Measured(Ok(fixture.len() as u64)),
            SaveAction::Publish => {
                assert_eq!(bridge.gdb.timeout_changes.len(), 2);
                prior = fixture.to_vec();
                published = true;
                SaveEvent::Published(Ok(()))
            }
            SaveAction::Digest => {
                let mut digest = StateDigest::new();
                assert!(digest.feed(&prior));
                SaveEvent::Digested(Ok(digest.finish()))
            }
            SaveAction::Frame => SaveEvent::Framed(bridge.standing_frame()),
            SaveAction::Finish(report) => break report,
            SaveAction::Abandon(error) => panic!("{}", error.message()),
        };
        let (next, todo) = save.advance(event);
        save = next;
        action = todo;
    };
    assert!(published);
    let value = to_value(&report.unwrap());
    assert_eq!(value["state"], "frozen");
    assert_eq!(value["bytes"], 16);
    assert_eq!(value["frame"], 42);
    assert_eq!(value["sha256"].as_str().unwrap().len(), 64);
    assert_eq!(prior, fixture);
    assert_eq!(
        bridge.gdb.timeout_changes,
        vec![STATE_OPERATION_TIMEOUT_NS, 5 * SECOND]
    );
    assert!(bridge.gdb.sent[0].starts_with("qEmucap,savesync,"));
}

#[test]
fn failed_saves_never_publish_and_drop_the_partial_file() {
    let (save, action) = StateSave::begin("/tmp/a.sta");
    assert!(matches!(action, SaveAction::Prepare));
    let (save, action) = save.advance(SaveEvent::Prepared(Ok(())));
    assert!(matches!(action, SaveAction::Write));
    let (save, action) = save.advance(SaveEvent::Written(Ok(())));
    assert!(matches!(action, SaveAction::Measure));
    let (save, action) = save.advance(SaveEvent::Measured(Ok(0)));
    match action {
        SaveAction::Abandon(error) => assert_eq!(
            error.message(),
            "MAME save completed with an empty state file"
        ),
        other => panic!("{other:?}"),
    }
    assert_eq!(save.stage, SaveStage::Ended);

    let (save, _) = StateSave::begin("/tmp/a.sta");
    let (_, action) = save.advance(SaveEvent::Prepared(Err("read-only".into())));
    match action {
        SaveAction::Finish(Err(error)) => {
            assert_eq!(error.error_kind(), "bridge_error");
            assert_eq!(error.message(), "read-only");
        }
        other => panic!("{other:?}"),
    }

    let (save, _) = StateSave::begin("/tmp/a.sta");
    let (_, action) = save.advance(SaveEvent::Measured(Ok(3)));
    assert!(matches!(action, SaveAction::Abandon(BridgeError::BadState(_))));
}

#[test]
fn state_digest_is_that_of_the_whole_file() {
    let mut digest = StateDigest::new();
    assert!(digest.feed(b"ab"));
    assert!(digest.feed(b"c"));
    let (length, sha256) = digest.finish();
    assert_eq!(length, 3);
    assert_eq!(
        sha256,
        "ba7816bf8f01cfea414140de5dae2223b00361a396177a9cb410ff61f20015ad"
    );
}

#[test]
fn native_load_waits_for_post_load_completion_and_stays_frozen() {
    let mut bridge = bridge(&["OK", "7"], "neogeo_mvs");
    bridge.frozen = true;
    let path = match bridge.handle_request(request(
        1,
        "load_state",
        "{\"path\":\"/tmp/state.sta\"}",
    )) {
        Handled::LoadState { id: 1, path } => path,
        other => panic!("{other:?}"),
    };
    assert!(check_loadable(&path, Some(16)).is_ok());
    let value = result(respond(1, bridge.load_state(&path)));
    assert_eq!(value["status"], "completed");
    assert_eq!(value["state"], "frozen");
    assert!(bridge.frozen);
    assert_eq!(
        bridge.gdb.timeout_changes,
        vec![STATE_OPERATION_TIMEOUT_NS, 5 * SECOND]
    );
    assert!(bridge.gdb.sent[0].starts_with("qEmucap,loadsync,"));
}

#[test]
fn missing_or_empty_states_are_not_loaded() {
    for length in [None, Some(0)] {
        let error = check_loadable("/tmp/none.sta", length).unwrap_err();
        assert_eq!(
            error.message(),
            "Neo Geo save state not found or empty: /tmp/none.sta"
        );
    }
    assert_eq!(
        missing_parent("state.sta").message(),
        "save path has no parent directory: state.sta"
    );
}

#[test]
fn a_timeout_that_cannot_be_put_back_is_told() {
    let mut bridge = bridge(&["OK"], "neogeo_mvs");
    bridge.gdb.fail_timeout_from = Some(1);
    let error = bridge.write_state("/tmp/p").unwrap_err();
    assert_eq!(
        error.message(),
        "MAME savesync completed but failed to restore the GDB timeout: socket gone"
    );

    let mut bridge = self::bridge(&["E01"], "neogeo_mvs");
    bridge.gdb.fail_timeout_from = Some(1);
    let error = bridge.write_state("/tmp/p").unwrap_err();
    assert_eq!(
        error.message(),
        "MAME savesync failed: E01; additionally failed to restore the GDB timeout: socket gone"
    );
}

#[test]
fn parses_m68000_register_packet_as_plugin_little_endian_words() {
    let mut packet = String::new();
    for value in 0..18u32 {
        for byte in value.to_le_bytes() {
            packet.push_str(&format!("{byte:02x}"));
        }
    }
    let mut bridge = bridge(&[&packet, "42"], "neogeo_mvs");
    bridge.frozen = true;
    let value = result(ask(&mut bridge, 1, "get_state", "{}"));
    assert_eq!(value["M68K"]["d0"], 0);
    assert_eq!(value["M68K"]["pc"], 17);
    assert_eq!(value["frame"], 42);
}

#[test]
fn input_rejects_unknown_button_before_backend_mutation() {
    let mut bridge = bridge(&[], "neogeo_mvs");
    let response = ask(&mut bridge, 1, "set_input", "{\"buttons\":[\"menu\"]}");
    assert_eq!(response.error.unwrap().kind, "bad_params");
    assert!(bridge.gdb.sent.is_empty());
}

#[test]
fn input_constraints_reject_before_backend_mutation() {
    let mut bridge = bridge(&[], "neogeo_mvs");
    let port = ask(
        &mut bridge,
        1,
        "set_input",
        "{\"port\":1,\"buttons\":[\"a\"]}",
    );
    assert_eq!(port.error.unwrap().kind, "bad_params");

    let pulse = ask(
        &mut bridge,
        2,
        "press_buttons",
        "{\"buttons\":[\"a\"],\"frames\":121}",
    );
    assert_eq!(pulse.error.unwrap().kind, "bad_params");
    assert!(bridge.gdb.sent.is_empty());
}

#[test]
fn empty_input_explicitly_returns_native_control() {
    let mut bridge = bridge(&["OK"], "neogeo_mvs");
    let value = result(ask(&mut bridge, 1, "set_input", "{\"buttons\":[]}"));
    assert_eq!(value["mode"], "native");
    assert_eq!(bridge.gdb.sent, vec!["qEmucap,setinput,"]);
}

#[test]
fn secondary_cpu_requests_are_rejected_before_backend_mutation() {
    let mut bridge = bridge(&[], "neogeo_mvs");
    let response = ask(
        &mut bridge,
        1,
        "step_instructions",
        "{\"cpu\":\"z80\",\"count\":1}",
    );
    assert_eq!(response.error.unwrap().kind, "bad_params");

    let pause = ask(&mut bridge, 2, "pause", "{\"cpu\":\"z80\"}");
    assert_eq!(pause.error.unwrap().kind, "bad_params");

    let resume = ask(&mut bridge, 3, "resume", "{\"cpu\":\"z80\"}");
    assert_eq!(resume.error.unwrap().kind, "bad_params");
    assert!(bridge.gdb.sent.is_empty());
}

#[test]
fn one_instruction_step_stays_frozen() {
    let mut bridge = bridge(&["S05"], "neogeo_mvs");
    bridge.frozen = true;
    let response = ask(
        &mut bridge,
        1,
        "step",
        "{\"unit\":\"instructions\",\"count\":1}",
    );
    assert!(response.ok);
    assert_eq!(bridge.gdb.sent, vec!["s"]);
    assert!(bridge.frozen);
}

#[test]
fn long_frame_advance_gets_a_bounded_timeout_and_restores_it() {
    let mut bridge = bridge(&["10", "OK", "410"], "neogeo_mvs");
    let value = result(ask(&mut bridge, 1, "run_frames", "{\"frames\":400}"));
    assert_eq!(value["frame"], 410);
    assert_eq!(
        bridge.gdb.timeout_changes,
        vec![205 * SECOND, 5 * SECOND]
    );
    assert_eq!(bridge.gdb.timeout, 5 * SECOND);
}

#[test]
fn run_frames_accepts_a_terminal_overshoot_and_reports_it() {
    let mut bridge = bridge(&["10", "OK", "72"], "neogeo_mvs");
    let value = result(ask(&mut bridge, 1, "run_frames", "{\"frames\":60}"));
    assert_eq!(value["count"], 60);
    assert_eq!(value["frames_observed_min"], 60);
    assert_eq!(value["frame_counter_delta"], 62);
    assert_eq!(value["frame_counter_continuous"], true);
    assert_eq!(value["state"], "running");
}

#[test]
fn frame_advance_accepts_a_screen_counter_reset_after_terminal_ack() {
    let mut bridge = bridge(&["100", "OK", "4"], "neogeo_mvs");
    let value = result(ask(&mut bridge, 1, "run_frames", "{\"frames\":60}"));
    assert_eq!(value["frames_observed_min"], 60);
    assert_eq!(value["frame_counter_delta"], Value::Null);
    assert_eq!(value["frame_counter_continuous"], false);
}

#[test]
fn oversized_frame_advance_is_rejected_before_backend_mutation() {
    let mut bridge = bridge(&[], "neogeo_mvs");
    bridge.frozen = true;
    let params = format!(
        "{{\"unit\":\"frames\",\"count\":{}}}",
        max_sync_frame_count() + 1
    );
    let response = ask(&mut bridge, 1, "step", &params);
    assert_eq!(response.error.unwrap().kind, "bad_params");
    assert!(bridge.gdb.sent.is_empty());
    assert!(bridge.gdb.timeout_changes.is_empty());
}

#[test]
fn the_frame_cap_fits_the_operation_budget() {
    assert_eq!(max_sync_frame_count(), 490);
}

#[test]
fn exact_frame_steps_must_advance_the_counter_by_the_count() {
    let mut exact = bridge(&["10", "OK", "13"], "neogeo_mvs");
    exact.frozen = true;
    let value = result(ask(&mut exact, 1, "step", "{\"count\":3}"));
    assert_eq!(value["state"], "frozen");
    assert_eq!(
        exact.gdb.sent,
        vec![
            "qEmucap,frame",
            "qEmucap,framestep,33",
            "qEmucap,frame"
        ]
    );

    let mut early = bridge(&["10", "OK", "12"], "neogeo_mvs");
    early.frozen = true;
    let error = ask(&mut early, 1, "step", "{\"count\":3}").error.unwrap();
    assert_eq!(
        error.message,
        "Neo Geo exact frame step completed with screen-frame delta Some(2), expected 3"
    );
    assert!(early.frozen);

    let mut back = bridge(&["10", "OK", "9"], "neogeo_mvs");
    back.frozen = true;
    let error = ask(&mut back, 1, "step", "{\"count\":3}").error.unwrap();
    assert_eq!(
        error.message,
        "Neo Geo exact frame step completed with screen-frame delta None, expected 3"
    );
}

#[test]
fn only_the_names_of_the_main_processor_are_accepted() {
    for name in ["main", "m68k", "z80"] {
        let mut bridge = bridge(&["S05", "12"], "neogeo_mvs");
        let error = ask(&mut bridge, 1, "pause", &format!("{{\"cpu\":\"{name}\"}}"))
            .error
            .unwrap();
        assert_eq!(error.kind, "bad_params");
        assert_eq!(
            error.message,
            format!(
                "Neo Geo execution control currently supports the m68000 main CPU only, got {name}"
            )
        );
        assert!(bridge.gdb.sent.is_empty());
    }
}

#[test]
fn pause_and_resume_follow_the_machine() {
    let mut bridge = bridge(&["S05", "12"], "neogeo_mvs");
    let value = result(ask(&mut bridge, 1, "pause", "{\"cpu\":\"68k\"}"));
    assert_eq!(value["state"], "frozen");
    assert_eq!(value["frame"], 12);
    assert!(bridge.frozen);
    let value = result(ask(&mut bridge, 2, "resume", "{\"cpu\":\"maincpu\"}"));
    assert_eq!(value["state"], "running");
    assert!(!bridge.frozen);
    assert_eq!(
        bridge.gdb.sent,
        vec!["interrupt", "qEmucap,frame", "c"]
    );
}

#[test]
fn written_memory_is_read_back_as_it_was_written() {
    let mut bridge = bridge(&["OK", "0aff"], "neogeo_mvs");
    bridge.frozen = true;
    let value = result(ask(
        &mut bridge,
        1,
        "write_memory",
        "{\"address\":\"0x10\",\"hex\":\"0AFF\"}",
    ));
    assert_eq!(value["written"], 2);
    assert_eq!(value["address"], 16);
    let value = result(ask(
        &mut bridge,
        2,
        "read_memory",
        "{\"address\":\"$10\",\"length\":2}",
    ));
    assert_eq!(value["hex"], "0aff");
    assert_eq!(bridge.gdb.sent, vec!["M100010,2:0aff", "m100010,2"]);
}

#[test]
fn short_memory_replies_are_errors() {
    let mut bridge = bridge(&["0a", "zz"], "neogeo_mvs");
    bridge.frozen = true;
    let error = ask(&mut bridge, 1, "read_memory", "{\"address\":0,\"length\":2}")
        .error
        .unwrap();
    assert_eq!(error.message, "short MAME memory response: expected 2, got 1");
    assert_eq!(error.kind, "emulator_error");
    let error = ask(&mut bridge, 2, "read_memory", "{\"address\":0,\"length\":1}")
        .error
        .unwrap();
    assert_eq!(error.message, "invalid MAME memory response");
}

#[test]
fn reset_sequences_advance_and_failures_disarm_every_breakpoint() {
    let mut bridge = bridge(&["BP:4", "OK:1", "OK:1"], "neogeo_mvs");
    let value = result(ask(&mut bridge, 1, "set_breakpoint", "{\"start\":4096}"));
    assert_eq!(value["id"], 1);
    let value = result(ask(&mut bridge, 2, "reset", "{}"));
    assert_eq!(value["reset_seq"], 1);
    assert!(bridge.breakpoints[0].backend_id.is_some());

    let error = ask(&mut bridge, 3, "reset", "{}").error.unwrap();
    assert_eq!(
        error.message,
        "MAME synchronous reset expected sequence 2, received OK:1"
    );
    let listed = result(ask(&mut bridge, 4, "list_breakpoints", "{}"));
    assert_eq!(listed["breakpoints"][0]["arm_state"], "failed");
    assert_eq!(
        listed["breakpoints"][0]["arm_error"],
        "reset could not verify native point: MAME synchronous reset expected sequence 2, received OK:1"
    );
    assert_eq!(listed["breakpoints"][0]["backend_id"], Value::Null);

    bridge.next_reset_seq = u64::MAX;
    let error = ask(&mut bridge, 5, "reset", "{}").error.unwrap();
    assert_eq!(error.kind, "bad_state");
}

#[test]
fn a_hit_captures_memory_and_is_rearmed_and_polled_once() {
    let mut bridge = bridge(&["BP:7", "0102", "BP:9"], "neogeo_mvs");
    let value = result(ask(
        &mut bridge,
        1,
        "set_breakpoint",
        "{\"kind\":\"exec\",\"start\":4096,\"snapshot\":[\"ram:0x10:2\"]}",
    ));
    assert_eq!(value["arm_state"], "armed");
    bridge
        .gdb
        .packets
        .push_back("T05hwbreak:00100000;idx:7;seq:1;".into());
    let value = result(ask(&mut bridge, 2, "poll_events", "{\"breakpoint_id\":1}"));
    let event = &value["events"][0];
    assert_eq!(event["address"], 4096);
    assert_eq!(event["hit_seq"], 1);
    assert_eq!(event["snapshot"][0]["hex"], "0102");
    assert_eq!(event["rearmed"], true);
    assert_eq!(event["backend_id_after"], 9);
    assert!(bridge.frozen);
    assert_eq!(
        bridge.gdb.sent,
        vec![
            "qEmucap,setpoint,307c313030307c317c317c",
            "m100010,2",
            "qEmucap,setpoint,307c313030307c317c317c"
        ]
    );
    let value = result(ask(&mut bridge, 3, "poll_events", "{}"));
    assert_eq!(value["events"], parsed("[]"));

    bridge
        .gdb
        .packets
        .push_back("T05hwbreak:00100000;idx:9;seq:1;".into());
    let error = ask(&mut bridge, 4, "poll_events", "{}").error.unwrap();
    assert_eq!(
        error.message,
        "Neo Geo breakpoint hit sequence did not advance: last=1, received=1"
    );
}

#[test]
fn events_of_other_breakpoints_are_held_back() {
    let mut bridge = bridge(&["BP:7", "WP:8", "BP:9", "WP:10"], "neogeo_mvs");
    result(ask(&mut bridge, 1, "set_breakpoint", "{\"start\":4096}"));
    result(ask(
        &mut bridge,
        2,
        "set_breakpoint",
        "{\"kind\":\"write\",\"start\":16,\"end\":17}",
    ));
    bridge
        .gdb
        .packets
        .push_back("T05hwbreak:00100000;idx:7;seq:1;".into());
    bridge
        .gdb
        .packets
        .push_back("T05watch:10001000;idx:8;seq:2;".into());
    let value = result(ask(&mut bridge, 3, "poll_events", "{\"breakpoint_id\":2}"));
    assert_eq!(value["events"].as_array().unwrap().len(), 1);
    assert_eq!(value["events"][0]["kind"], "write");
    let value = result(ask(&mut bridge, 4, "poll_events", "{}"));
    assert_eq!(value["events"].as_array().unwrap().len(), 1);
    assert_eq!(value["events"][0]["kind"], "exec");
}

#[test]
fn breakpoints_are_checked_before_the_machine_is_asked() {
    for (params, message) in [
        (
            "{\"start\":0,\"condition\":\"x\"}",
            "Neo Geo breakpoint option condition is not supported",
        ),
        (
            "{\"start\":0,\"pause_on_hit\":false}",
            "Neo Geo breakpoints require pause_on_hit=true",
        ),
        ("{}", "missing or invalid param: start"),
        (
            "{\"start\":2,\"end\":1}",
            "breakpoint end must be greater than or equal to start",
        ),
        (
            "{\"start\":1,\"end\":2}",
            "Neo Geo exec breakpoints require an exact address",
        ),
        (
            "{\"start\":16777216}",
            "Neo Geo exec address exceeds the 68000 24-bit program space",
        ),
        (
            "{\"start\":0,\"memory_type\":\"ram\"}",
            "Neo Geo exec breakpoints use an absolute 68000 address; memory_type may only be cpu",
        ),
        (
            "{\"kind\":\"read\",\"start\":65535,\"end\":65536}",
            "ram access out of range: offset 0xffff+0x2 exceeds 0x10000",
        ),
        (
            "{\"kind\":\"read\",\"start\":0,\"end\":18446744073709551615}",
            "breakpoint range overflow",
        ),
        (
            "{\"kind\":\"jump\",\"start\":0}",
            "unsupported Neo Geo breakpoint kind: jump; supported: exec, read, write",
        ),
        (
            "{\"start\":0,\"snapshot\":[\"ram:0:16385\"]}",
            "snapshot byte total exceeds 16384",
        ),
        (
            "{\"start\":0,\"snapshot\":[\"vram:0:1\"]}",
            "unsupported Neo Geo memory_type: vram",
        ),
    ] {
        let mut bridge = bridge(&[], "neogeo_mvs");
        let error = ask(&mut bridge, 1, "set_breakpoint", params).error.unwrap();
        assert_eq!(error.kind, "bad_params");
        assert_eq!(error.message, message);
        assert!(bridge.gdb.sent.is_empty());
    }
}

#[test]
fn identical_breakpoints_are_refused_and_cleared_ones_forgotten() {
    let mut bridge = bridge(&["WP:3", "OK", "WP:4"], "neogeo_mvs");
    let params = "{\"kind\":\"read\",\"start\":16}";
    result(ask(&mut bridge, 1, "set_breakpoint", params));
    let error = ask(&mut bridge, 2, "set_breakpoint", params).error.unwrap();
    assert_eq!(
        error.message,
        "an identical Neo Geo breakpoint is already armed"
    );
    let value = result(ask(&mut bridge, 3, "clear_breakpoint", "{\"id\":1}"));
    assert_eq!(value["cleared"], 1);
    let error = ask(&mut bridge, 4, "clear_breakpoint", "{\"id\":1}")
        .error
        .unwrap();
    assert_eq!(error.message, "unknown breakpoint id: 1");
    let value = result(ask(&mut bridge, 5, "set_breakpoint", params));
    assert_eq!(value["id"], 2);
    let value = result(ask(&mut bridge, 6, "list_breakpoints", "{}"));
    assert_eq!(value["breakpoints"][0]["id"], 2);
}

#[test]
fn clearing_all_breakpoints_stops_at_the_first_failure() {
    let mut bridge = bridge(&["BP:1", "BP:2", "OK", "no"], "neogeo_mvs");
    result(ask(&mut bridge, 1, "set_breakpoint", "{\"start\":16}"));
    result(ask(&mut bridge, 2, "set_breakpoint", "{\"start\":32}"));
    let error = ask(&mut bridge, 3, "clear_all_breakpoints", "{}")
        .error
        .unwrap();
    assert_eq!(error.message, "MAME breakpoint clear failed: no");
    assert_eq!(bridge.breakpoints.len(), 1);
    assert_eq!(bridge.breakpoints[0].id, 2);
    assert_eq!(
        bridge.gdb.sent[2..],
        ["qEmucap,clearpoint,62707c31", "qEmucap,clearpoint,62707c32"]
    );
    bridge.gdb.replies.push_back("OK".into());
    let value = result(ask(&mut bridge, 4, "clear_all_breakpoints", "{}"));
    assert_eq!(value["cleared"], parsed("[2]"));
}

#[test]
fn a_point_of_another_kind_is_cleared_again() {
    let mut bridge = bridge(&["WP:5", "OK"], "neogeo_mvs");
    let error = ask(&mut bridge, 1, "set_breakpoint", "{\"start\":16}")
        .error
        .unwrap();
    assert_eq!(error.message, "MAME returned wp for a exec breakpoint");
    assert!(bridge.breakpoints.is_empty());
    assert_eq!(bridge.gdb.sent[1], "qEmucap,clearpoint,77707c35");
}

#[test]
fn stops_tell_their_registers_and_the_program_counter() {
    let mut regs = String::new();
    for value in 0..18u32 {
        for byte in value.to_le_bytes() {
            regs.push_str(&format!("{byte:02x}"));
        }
    }
    let packet = format!("T05rwatch:1000;idx:3;seq:4;regs:{regs};");
    let stop = parse_breakpoint_stop(&packet).unwrap();
    assert_eq!(stop.address, 16);
    assert_eq!(stop.backend_id, 3);
    assert_eq!(stop.hit_seq, Some(4));
    assert_eq!(to_value(&stop.regs)["sp"], 15);
    assert!(parse_breakpoint_stop("T05rwatch:1000;seq:4;").is_none());
    let stop = parse_breakpoint_stop("T05watch:10;idx:1;regs:00;").unwrap();
    assert_eq!(to_value(&stop.regs)["byte_len"], 1);
    assert_eq!(stop.hit_seq, None);
    assert_eq!(little_endian_hex("0102"), Some(0x0201));
    assert_eq!(little_endian_hex("010203040506070809"), None);
    assert!(parse_arm_reply("XP:1").is_err());
    assert!(parse_arm_reply("BP").is_err());
    assert!(parse_arm_reply("BP:x").is_err());
}

#[test]
fn call_stacks_are_told_from_the_innermost_frame() {
    let mut bridge = bridge(
        &["STACK|1000|2000|1|0|2|10,20,30,40|11,21,31,41"],
        "neogeo_mvs",
    );
    bridge.frozen = true;
    let value = result(ask(&mut bridge, 1, "call_stack", "{}"));
    assert_eq!(value["depth"], 3);
    assert_eq!(value["frames"][0]["pc"], 0x1000);
    assert_eq!(value["frames"][1]["pc"], 0x11);
    assert_eq!(value["frames"][2]["return_stack_pointer"], 0x40);
    assert_eq!(value["complete_since_reset"], true);
    assert_eq!(value["truncated"], false);
    assert_eq!(value["max_depth"], 64);
}

#[test]
fn malformed_call_stacks_are_errors() {
    for (raw, message) in [
        ("NOPE", "invalid MAME native call stack response"),
        ("STACK", "invalid MAME call stack pc"),
        ("STACK|1|x", "invalid MAME call stack sp"),
        ("STACK|1|2|3", "invalid MAME call stack completeness flag"),
        ("STACK|1|2|1|x", "invalid MAME call stack dropped count"),
        ("STACK|1|2|1|0|", "invalid MAME call stack native depth"),
        ("STACK|1|2|1|0|1|1,2", "invalid MAME call stack frame 0"),
        ("STACK|1|2|1|0|1|1,2,3,x", "invalid MAME call stack return stack pointer"),
        (
            "STACK|1|2|1|0|2|1,2,3,4",
            "MAME call stack declared 2 native frames but returned 1",
        ),
    ] {
        assert_eq!(parse_stack(raw).unwrap_err().message(), message);
    }
    let many = format!("STACK|1|2|0|1|64{}", "|1,2,3,4".repeat(64));
    assert_eq!(
        parse_stack(&many).unwrap_err().message(),
        "MAME returned more than 63 native call frames"
    );
    let full = format!("STACK|1|2|0|1|64{}", "|1,2,3,4".repeat(63));
    assert_eq!(parse_stack(&full).unwrap().frames.len(), 63);
}

#[test]
fn disassembly_is_planned_written_and_read() {
    let mut bridge = bridge(&["OK"], "neogeo_mvs");
    let (address, count) = match bridge.handle_request(request(
        1,
        "disassemble",
        "{\"address\":\"0x1000\",\"count\":1}",
    )) {
        Handled::Disassemble { id: 1, address, count } => (address, count),
        other => panic!("{other:?}"),
    };
    assert!(check_listing_path("/tmp/dasm.txt").is_ok());
    assert!(check_listing_path("/tmp/da\"sm.txt").is_err());
    assert!(bridge.write_listing("/d", address, count).is_ok());
    // "/d|1000|10"
    assert_eq!(bridge.gdb.sent, vec!["qEmucap,dasm,2f647c313030307c3130"]);
    assert!(check_listing_size(0x2_0000).is_ok());
    assert_eq!(
        check_listing_size(0x2_0001).unwrap_err().message(),
        "MAME disassemble output exceeds 131072 bytes"
    );
    let listing = "; header\r\n1000: 4E 71  nop  \r\n1002: 4E 75 rts\n";
    let value = to_value(&bridge.describe_listing(listing, 1).unwrap());
    assert_eq!(value["instructions"].as_array().unwrap().len(), 1);
    assert_eq!(value["instructions"][0]["addr"], 0x1000);
    assert_eq!(value["instructions"][0]["bytes"], "4e71");
    assert_eq!(value["instructions"][0]["length"], 2);
    assert_eq!(value["instructions"][0]["text"], "nop");
    assert_eq!(value["artifact_scope"], "adapter");
    assert_eq!(
        bridge.describe_listing("nothing", 1).unwrap_err().message(),
        "MAME disassemble produced no instructions"
    );
    let error = ask(&mut bridge, 2, "disassemble", "{\"address\":0,\"count\":65}")
        .error
        .unwrap();
    assert_eq!(
        error.message,
        "Neo Geo disassemble count must be in 1..=64"
    );
}

#[test]
fn screenshots_must_be_pictures() {
    let mut bridge = bridge(&["5", "OK", "6"], "neogeo_mvs");
    assert!(matches!(
        bridge.handle_request(request(1, "screenshot", "{}")),
        Handled::Screenshot { id: 1 }
    ));
    let before = bridge.write_screenshot("/s").unwrap();
    assert_eq!(before, 5);
    assert_eq!(bridge.gdb.sent[1], "qEmucap,snapshot,2f73");
    assert_eq!(
        bridge
            .describe_screenshot(before, b"GIF89a")
            .unwrap_err()
            .message(),
        "MAME snapshot is not PNG"
    );
    let data = b"\x89PNG\r\n\x1a\nabc";
    let value = to_value(&bridge.describe_screenshot(before, data).unwrap());
    assert_eq!(value["png_base64"], "iVBORw0KGgphYmM=");
    assert_eq!(value["byte_len"], 11);
    assert_eq!(value["frame_after"], 6);
    assert_eq!(value["frame_stable"], false);
    assert_eq!(value["state"], "running");
}

#[test]
fn status_tells_fields_input_and_kinds() {
    let mut bridge = bridge(&["9", "P1 A,,P1 B", "-1"], "neogeo_mvs");
    let value = result(ask(&mut bridge, 1, "status", "{}"));
    assert_eq!(value["frame"], 9);
    assert_eq!(
        value["input_buttons"]["available"],
        parsed("[\"P1 A\",\"P1 B\"]")
    );
    assert_eq!(value["input_override"]["mode"], "persistent");
    assert_eq!(value["breakpoint_kinds"], to_value(&breakpoint_kinds()));
    assert_eq!(value["breakpoint_kinds"][1]["range_mode"], "inclusive");
    bridge.gdb.replies = ["9", "", "12"].iter().map(|v| v.to_string()).collect();
    let value = result(ask(&mut bridge, 2, "status", "{}"));
    assert_eq!(value["input_override"]["remaining_frames"], 12);
    bridge.gdb.replies = ["9", "", "soon"].iter().map(|v| v.to_string()).collect();
    let error = ask(&mut bridge, 3, "status", "{}").error.unwrap();
    assert_eq!(error.message, "invalid MAME input status");
}

#[test]
fn pressed_buttons_run_until_released_or_hit() {
    let mut bridge = bridge(&["OK", "BP:7", "T05hwbreak:00100000;idx:7;seq:1;", "BP:8"], "neogeo_mvs");
    let value = result(ask(
        &mut bridge,
        1,
        "press_buttons",
        "{\"buttons\":[\" A \",\"up\"],\"frames\":2}",
    ));
    assert_eq!(value["buttons"], parsed("[\"a\",\"up\"]"));
    assert_eq!(value["state"], "running");
    // "2:a,up"
    assert_eq!(bridge.gdb.sent, vec!["qEmucap,press,323a612c7570"]);
    result(ask(&mut bridge, 2, "set_breakpoint", "{\"start\":4096}"));
    let value = result(ask(&mut bridge, 3, "press_buttons", "{\"buttons\":[\"a\"]}"));
    assert_eq!(value["status"], "interrupted");
    assert_eq!(value["breakpoint_id"], 1);
    assert_eq!(value["frames"], 1);
    assert!(bridge.frozen);
}

#[test]
fn unknown_methods_and_gdb_failures_have_their_kinds() {
    let mut bridge = bridge(&[], "neogeo_mvs");
    let error = ask(&mut bridge, 1, "fly", "{}").error.unwrap();
    assert_eq!(error.kind, "unknown_method");
    assert_eq!(error.message, "unknown method: fly");
    assert_eq!(
        BridgeError::Gdb(GdbError::Emulator("no".into())).error_kind(),
        "emulator_error"
    );
    assert_eq!(BridgeError::Gdb(GdbError::Poisoned).error_kind(), "bridge_error");
    assert_eq!(BridgeError::Io("gone".into()).error_kind(), "bridge_error");
}
