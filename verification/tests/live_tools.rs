use std::collections::VecDeque;

use emucap::json::Json;
use emucap::live::capture::{
    collect_dump, dump_report, ensure_replaceable_dir, is_unsupported_exchange_errno, screenshot,
    sibling_name, ReplaceAction, ReplaceEvent, ReplaceStage, Target,
};
use emucap::live::cleanup::call_session_cleanup;
use emucap::live::dump::{DumpAction, DumpEvent, DumpStage, StagingPath};
use emucap::live::frozen::{hold_until, tap, tap_sequence};
use emucap::live::link::{Capabilities, EmulatorIdentity, EmulatorLink, LinkError, MemoryRegion};
use emucap::live::pointer::{click_pointer, drag_pointer, move_pointer};
use emucap::live::restart::{power_cycle, reset};
use emucap::live::temporal::MAX_SYNC_ADVANCE_COUNT;
use emucap::live::tools::{
    poll_events, press_buttons, probe, read_memory, run_frames, set_breakpoint, step, touch,
    watch_register, write_memory, write_memory_bytes, StepUnit, ToolOutput,
    MAX_WRITE_BYTES,
};
use serde_json::Value;

fn from_value(value: &Value) -> Json {
    match value {
        Value::Null => Json::Null,
        Value::Bool(b) => Json::Bool(*b),
        Value::Number(n) => {
            if let Some(u) = n.as_u64() {
                Json::Unsigned(u)
            } else if let Some(i) = n.as_i64() {
                Json::Negative(i)
            } else {
                Json::Float(n.to_string())
            }
        }
        Value::String(s) => Json::Str(s.clone()),
        Value::Array(items) => Json::Array(items.iter().map(from_value).collect()),
        Value::Object(fields) => Json::Object(
            fields
                .iter()
                .map(|(key, value)| (key.clone(), from_value(value)))
                .collect(),
        ),
    }
}

fn to_value(value: &Json) -> Value {
    match value {
        Json::Null => Value::Null,
        Json::Bool(b) => Value::Bool(*b),
        Json::Unsigned(n) => Value::from(*n),
        Json::Negative(n) => Value::from(*n),
        Json::Float(number) => serde_json::from_str(number).unwrap(),
        Json::Str(s) => Value::String(s.clone()),
        Json::Array(items) => Value::Array(items.iter().map(to_value).collect()),
        Json::Object(fields) => Value::Object(
            fields
                .iter()
                .map(|(key, value)| (key.clone(), to_value(value)))
                .collect(),
        ),
    }
}

fn parsed(text: &str) -> Value {
    serde_json::from_str(text).unwrap()
}

fn j(text: &str) -> Json {
    from_value(&parsed(text))
}

fn capabilities(methods: &[&str], launch_id: Option<&str>) -> Capabilities {
    Capabilities {
        protocol_version: 1,
        methods: methods.iter().map(|method| method.to_string()).collect(),
        memory_types: vec![],
        memory_regions: Vec::<MemoryRegion>::new(),
        identity: EmulatorIdentity {
            launch_id: launch_id.map(String::from),
            content: None,
        },
    }
}

fn names(buttons: &[&str]) -> Vec<String> {
    buttons.iter().map(|name| name.to_string()).collect()
}

fn buttons_of(params: &Value) -> Vec<String> {
    params["buttons"]
        .as_array()
        .unwrap()
        .iter()
        .filter_map(Value::as_str)
        .map(String::from)
        .collect()
}

fn json_of(output: ToolOutput) -> Value {
    match output {
        ToolOutput::Json(value) => to_value(&value),
        other => panic!("{other:?}"),
    }
}

struct FakeLink {
    caps: Capabilities,
    reply: Json,
    last_method: Option<String>,
    last_params: Option<Value>,
}

impl FakeLink {
    fn ok(reply: &str) -> Self {
        Self {
            caps: capabilities(&[], None),
            reply: j(reply),
            last_method: None,
            last_params: None,
        }
    }
}

impl EmulatorLink for FakeLink {
    fn capabilities(&self) -> &Capabilities {
        &self.caps
    }

    fn call(&mut self, method: &str, params: Json) -> Result<Json, LinkError> {
        self.last_method = Some(method.into());
        self.last_params = Some(to_value(&params));
        Ok(self.reply.clone())
    }

    fn supports_session_reconnect(&self) -> bool {
        false
    }

    fn prepare_reconnect(&mut self) {}

    fn wait_for_session(&mut self) -> bool {
        false
    }
}

struct Rec {
    calls: Vec<(String, Value)>,
    state: String,
    reads: Vec<String>,
    read_i: usize,
    fail_calls: Vec<usize>,
    caps: Capabilities,
}

impl Rec {
    fn new(state: &str, reads: &[&str]) -> Self {
        Rec {
            calls: vec![],
            state: state.into(),
            reads: names(reads),
            read_i: 0,
            fail_calls: vec![],
            caps: capabilities(&[], None),
        }
    }

    fn with_fail_calls(mut self, calls: &[usize]) -> Self {
        self.fail_calls = calls.to_vec();
        self
    }

    fn with_methods(mut self, methods: &[&str]) -> Self {
        self.caps.methods = names(methods);
        self
    }

    fn methods(&self) -> Vec<&str> {
        self.calls.iter().map(|(m, _)| m.as_str()).collect()
    }
}

impl EmulatorLink for Rec {
    fn capabilities(&self) -> &Capabilities {
        &self.caps
    }

    fn call(&mut self, method: &str, params: Json) -> Result<Json, LinkError> {
        self.calls.push((method.to_string(), to_value(&params)));
        if self.fail_calls.contains(&self.calls.len()) {
            return Err(LinkError::Timeout);
        }
        if method == "resume" && self.state != "frozen" {
            return Err(LinkError::emulator("not_paused", "resume needs a frozen machine"));
        }
        Ok(match method {
            "status" => j(&format!("{{\"state\":\"{}\",\"frame\":0}}", self.state)),
            "read_memory" => {
                let h = self
                    .reads
                    .get(self.read_i)
                    .or_else(|| self.reads.last())
                    .cloned()
                    .unwrap_or_default();
                self.read_i += 1;
                j(&format!("{{\"hex\":\"{h}\"}}"))
            }
            _ => j("{}"),
        })
    }

    fn supports_session_reconnect(&self) -> bool {
        false
    }

    fn prepare_reconnect(&mut self) {}

    fn wait_for_session(&mut self) -> bool {
        false
    }
}

#[test]
fn step_routes_public_units_to_compatible_wire_methods() {
    let mut link = Rec::new("frozen", &[]).with_methods(&["step", "step_instructions"]);

    step(&mut link, 3, StepUnit::Frames, None).unwrap();
    step(&mut link, 2, StepUnit::Instructions, Some("arm7")).unwrap();

    assert_eq!(link.calls[0], ("step".into(), parsed("{\"frames\":3}")));
    assert_eq!(
        link.calls[1],
        (
            "step_instructions".into(),
            parsed("{\"count\":2,\"cpu\":\"arm7\"}")
        )
    );
}

#[test]
fn step_rejects_units_missing_from_adapter_capabilities() {
    let mut link = Rec::new("frozen", &[]).with_methods(&["step"]);
    let error = step(&mut link, 1, StepUnit::Instructions, None).unwrap_err();

    assert!(matches!(
        error,
        LinkError::Emulator { ref kind, .. } if kind == "unsupported"
    ));
    assert!(link.calls.is_empty());
}

#[test]
fn synchronous_advance_caps_reject_before_transport() {
    let over = MAX_SYNC_ADVANCE_COUNT + 1;

    let mut run_link = FakeLink::ok("{}");
    assert!(run_frames(&mut run_link, over).is_err());
    assert_eq!(run_link.last_method, None);

    let mut press_link = FakeLink::ok("{}");
    assert!(press_buttons(&mut press_link, 0, &names(&["a"]), over).is_err());
    assert_eq!(press_link.last_method, None);

    let mut step_link = Rec::new("frozen", &[]).with_methods(&["step"]);
    assert!(step(&mut step_link, over, StepUnit::Frames, None).is_err());
    assert!(step_link.calls.is_empty());
}

struct ProjectionLink {
    caps: Capabilities,
    delay: u64,
    now: u64,
    buttons: Vec<String>,
    projection: Vec<Vec<String>>,
}

impl ProjectionLink {
    fn new(delay: u64) -> Self {
        Self {
            caps: capabilities(&["pause", "set_input", "step"], None),
            delay,
            now: 0,
            buttons: vec![],
            projection: vec![],
        }
    }
}

impl EmulatorLink for ProjectionLink {
    fn capabilities(&self) -> &Capabilities {
        &self.caps
    }

    fn call(&mut self, method: &str, params: Json) -> Result<Json, LinkError> {
        self.now += self.delay;
        let params = to_value(&params);
        match method {
            "pause" => {}
            "set_input" => self.buttons = buttons_of(&params),
            "step" => {
                for _ in 0..params["frames"].as_u64().unwrap() {
                    self.projection.push(self.buttons.clone());
                }
            }
            other => return Err(LinkError::Protocol(format!("unexpected call: {other}"))),
        }
        Ok(j("{}"))
    }

    fn supports_session_reconnect(&self) -> bool {
        false
    }

    fn prepare_reconnect(&mut self) {}

    fn wait_for_session(&mut self) -> bool {
        false
    }
}

#[test]
fn frozen_tap_projection_is_independent_of_host_delay() {
    let down = names(&["down"]);
    let a = names(&["a"]);
    let mut no_delay = ProjectionLink::new(0);
    let mut delayed = ProjectionLink::new(2);

    tap(&mut no_delay, 0, &down, 2, 0).unwrap();
    tap(&mut no_delay, 0, &a, 2, 0).unwrap();
    tap(&mut delayed, 0, &down, 2, 0).unwrap();
    tap(&mut delayed, 0, &a, 2, 0).unwrap();

    assert_eq!(delayed.projection, no_delay.projection);
    assert!(delayed.buttons.is_empty());
    assert_eq!(
        no_delay.projection,
        vec![
            vec!["down".to_string()],
            vec!["down".to_string()],
            vec![],
            vec!["a".to_string()],
            vec!["a".to_string()],
            vec![]
        ]
    );
}

struct FaultProjectionLink {
    caps: Capabilities,
    fail_after_apply: Option<usize>,
    disconnect_after_apply: Option<usize>,
    calls: usize,
    connected: bool,
    frozen: bool,
    buttons: Vec<String>,
    projection: Vec<Vec<String>>,
}

impl FaultProjectionLink {
    fn timeout_on(call: usize) -> Self {
        Self::new(Some(call), None)
    }

    fn disconnect_on(call: usize) -> Self {
        Self::new(None, Some(call))
    }

    fn new(fail_after_apply: Option<usize>, disconnect_after_apply: Option<usize>) -> Self {
        Self {
            caps: capabilities(&["pause", "set_input", "step"], None),
            fail_after_apply,
            disconnect_after_apply,
            calls: 0,
            connected: true,
            frozen: false,
            buttons: vec![],
            projection: vec![],
        }
    }
}

impl EmulatorLink for FaultProjectionLink {
    fn capabilities(&self) -> &Capabilities {
        &self.caps
    }

    fn call(&mut self, method: &str, params: Json) -> Result<Json, LinkError> {
        if !self.connected {
            return Err(LinkError::NotConnected);
        }
        self.calls += 1;
        let params = to_value(&params);
        match method {
            "pause" => self.frozen = true,
            "set_input" => self.buttons = buttons_of(&params),
            "step" => {
                assert!(self.frozen, "step projection requires a frozen clock");
                for _ in 0..params["frames"].as_u64().unwrap() {
                    self.projection.push(self.buttons.clone());
                }
            }
            other => return Err(LinkError::Protocol(format!("unexpected call: {other}"))),
        }
        if self.disconnect_after_apply == Some(self.calls) {
            self.connected = false;
            return Err(LinkError::NotConnected);
        }
        if self.fail_after_apply == Some(self.calls) {
            return Err(LinkError::Timeout);
        }
        Ok(j("{}"))
    }

    fn supports_session_reconnect(&self) -> bool {
        false
    }

    fn prepare_reconnect(&mut self) {}

    fn wait_for_session(&mut self) -> bool {
        false
    }
}

#[test]
fn transient_tap_recovers_after_post_effect_timeout_at_each_boundary() {
    for fail_call in 2..=5 {
        let mut link = FaultProjectionLink::timeout_on(fail_call);
        let result = tap(&mut link, 0, &names(&["a"]), 2, 0);
        assert!(
            result.is_err(),
            "failure at call {fail_call} must be visible"
        );
        assert!(
            link.buttons.is_empty(),
            "failure at call {fail_call} left transient input engaged"
        );
        assert!(
            link.frozen,
            "failure at call {fail_call} did not restore the frozen terminal state"
        );
    }
}

#[test]
fn disconnect_without_adapter_cleanup_is_never_reported_as_completion() {
    let mut link = FaultProjectionLink::disconnect_on(2);
    let error = tap(&mut link, 0, &names(&["a"]), 2, 0).unwrap_err();

    assert!(
        matches!(error, LinkError::Emulator { ref kind, .. } if kind == "cleanup_failed"),
        "an unreachable release must stay fail-loud: {error:?}"
    );
    assert_eq!(link.buttons, vec!["a"]);
}

#[test]
fn run_frames_no_separate_resume_when_frozen() {
    let mut l = Rec::new("frozen", &[]);
    run_frames(&mut l, 5).unwrap();
    let m = l.methods();
    assert!(!m.contains(&"resume"), "{m:?}");
    assert_eq!(*m.last().unwrap(), "run_frames");
}

#[test]
fn press_buttons_no_separate_resume_when_frozen() {
    let mut l = Rec::new("frozen", &[]);
    press_buttons(&mut l, 0, &names(&["start"]), 10).unwrap();
    let m = l.methods();
    assert!(!m.contains(&"resume"), "{m:?}");
    assert_eq!(*m.last().unwrap(), "press_buttons");
}

#[test]
fn run_frames_no_resume_when_running() {
    let mut l = Rec::new("running", &[]);
    run_frames(&mut l, 5).unwrap();
    assert!(!l.methods().contains(&"resume"), "{:?}", l.methods());
}

#[test]
fn press_buttons_no_resume_when_running() {
    let mut l = Rec::new("running", &[]);
    press_buttons(&mut l, 0, &names(&["start"]), 10).unwrap();
    assert!(!l.methods().contains(&"resume"), "{:?}", l.methods());
}

#[test]
fn tap_after_frames_advances_at_end() {
    let mut l = Rec::new("frozen", &[]);
    tap(&mut l, 0, &names(&["a"]), 2, 10).unwrap();
    let last = l.calls.last().unwrap();
    assert_eq!(last.0, "step");
    assert_eq!(last.1["frames"], 10);
}

#[test]
fn tap_step_failure_releases_input_before_returning_error() {
    let mut l = Rec::new("frozen", &[]).with_fail_calls(&[3]);
    let error = tap(&mut l, 0, &names(&["a"]), 2, 0).unwrap_err();
    assert!(matches!(error, LinkError::Timeout));
    assert_eq!(
        l.methods(),
        vec!["pause", "set_input", "step", "set_input", "pause"]
    );
    assert_eq!(l.calls[3].1["buttons"], parsed("[]"));
}

#[test]
fn tap_lost_acquire_response_still_releases_and_refreezes() {
    let mut l = Rec::new("frozen", &[]).with_fail_calls(&[2]);
    let error = tap(&mut l, 0, &names(&["a"]), 2, 0).unwrap_err();
    assert!(matches!(error, LinkError::Timeout));
    assert_eq!(
        l.methods(),
        vec!["pause", "set_input", "set_input", "pause"]
    );
    assert_eq!(l.calls[2].1["buttons"], parsed("[]"));
}

#[test]
fn tap_reports_cleanup_failure_without_claiming_completion() {
    let mut l = Rec::new("frozen", &[]).with_fail_calls(&[3, 4]);
    let error = tap(&mut l, 0, &names(&["a"]), 2, 0).unwrap_err();
    assert!(
        matches!(error, LinkError::Emulator { ref kind, .. } if kind == "cleanup_failed"),
        "dual failure must surface cleanup_failed: {error:?}"
    );
}

#[test]
fn hold_until_stops_on_change() {
    let mut l = Rec::new("frozen", &["aa", "aa", "bb"]);
    let v = json_of(hold_until(&mut l, 0, &names(&["down"]), "workraml", 0x1000, 1, 100).unwrap());
    assert_eq!(v["changed"], true);
    assert_eq!(v["frames"], 2);
    assert_eq!(v["before"], "aa");
    assert_eq!(v["after"], "bb");
}

#[test]
fn hold_until_read_failure_releases_input() {
    let mut l = Rec::new("frozen", &["aa"]).with_fail_calls(&[3]);
    let error = hold_until(&mut l, 0, &names(&["down"]), "workraml", 0x1000, 1, 3).unwrap_err();
    assert!(matches!(error, LinkError::Timeout));
    assert_eq!(
        l.methods(),
        vec!["pause", "set_input", "read_memory", "set_input", "pause"]
    );
    assert_eq!(l.calls[3].1["buttons"], parsed("[]"));
}

#[test]
fn hold_until_lost_acquire_response_still_releases_and_refreezes() {
    let mut l = Rec::new("frozen", &["aa"]).with_fail_calls(&[2]);
    let error = hold_until(&mut l, 0, &names(&["down"]), "workraml", 0x1000, 1, 3).unwrap_err();
    assert!(matches!(error, LinkError::Timeout));
    assert_eq!(
        l.methods(),
        vec!["pause", "set_input", "set_input", "pause"]
    );
    assert_eq!(l.calls[2].1["buttons"], parsed("[]"));
}

#[test]
fn hold_until_cleanup_failure_is_not_completed() {
    let mut l = Rec::new("frozen", &["aa", "bb"]).with_fail_calls(&[6]);
    let error = hold_until(&mut l, 0, &names(&["down"]), "workraml", 0x1000, 1, 3).unwrap_err();
    assert!(
        matches!(error, LinkError::Emulator { ref kind, .. } if kind == "cleanup_failed"),
        "release failure must replace a false successful completion: {error:?}"
    );
}

#[test]
fn hold_until_max_frames_when_no_change() {
    let mut l = Rec::new("frozen", &["aa"]);
    let v = json_of(hold_until(&mut l, 0, &names(&["down"]), "workraml", 0x1000, 1, 3).unwrap());
    assert_eq!(v["changed"], false);
    assert_eq!(v["frames"], 3);
}

#[test]
fn read_memory_forwards_params_and_returns_json() {
    let mut link = FakeLink::ok("{\"hex\":\"00ff\"}");
    let v = json_of(read_memory(&mut link, "snesWorkRam", 0, 2).unwrap());
    assert_eq!(v["hex"], "00ff");
    assert_eq!(link.last_method.as_deref(), Some("read_memory"));
    let p = link.last_params.unwrap();
    assert_eq!(p["memory_type"], "snesWorkRam");
    assert_eq!(p["length"], 2);
}

#[test]
fn probe_forwards_params_and_returns_json() {
    let mut link = FakeLink::ok("{\"hex\":\"11223344\",\"frame\":3}");
    let v = json_of(probe(&mut link, "/tmp/base.mst", 3, "vram", 0x4000, 8).unwrap());
    assert_eq!(v["hex"], "11223344");
    assert_eq!(v["frame"], 3);
    assert_eq!(link.last_method.as_deref(), Some("probe"));
    let p = link.last_params.unwrap();
    assert_eq!(p["state"], "/tmp/base.mst");
    assert_eq!(p["frame"], 3);
    assert_eq!(p["memory_type"], "vram");
    assert_eq!(p["address"], 0x4000);
    assert_eq!(p["length"], 8);
}

#[test]
fn write_memory_forwards() {
    let mut link = FakeLink::ok("{\"written\":4}");
    let out = write_memory(&mut link, "snesWorkRam", 16, "deadbeef").unwrap();
    assert!(matches!(out, ToolOutput::Json(_)));
    let p = link.last_params.unwrap();
    assert_eq!(p["memory_type"], "snesWorkRam");
    assert_eq!(p["address"], 16);
    assert_eq!(p["hex"], "deadbeef");
}

#[test]
fn write_memory_rejects_invalid_or_oversized_payload_before_transport() {
    for hex in ["", "0", "zz"] {
        let mut link = FakeLink::ok("{\"written\":0}");
        assert!(write_memory(&mut link, "ram", 0, hex).is_err());
        assert_eq!(link.last_method, None);
    }

    let mut link = FakeLink::ok("{\"written\":0}");
    let oversized = vec![0u8; MAX_WRITE_BYTES + 1];
    assert!(write_memory_bytes(&mut link, "ram", 0, &oversized).is_err());
    assert_eq!(link.last_method, None);

    let mut link = FakeLink::ok("{\"written\":0}");
    assert!(write_memory_bytes(&mut link, "ram", u64::MAX, &[1]).is_err());
    assert_eq!(link.last_method, None);
}

#[test]
fn press_buttons_forwards_list_and_frames() {
    let mut link = FakeLink::ok("{\"status\":\"completed\"}");
    press_buttons(&mut link, 0, &names(&["a", "start"]), 10).unwrap();
    let p = link.last_params.unwrap();
    assert_eq!(p["buttons"], parsed("[\"a\",\"start\"]"));
    assert_eq!(p["frames"], 10);
    assert_eq!(link.last_method.as_deref(), Some("press_buttons"));
}

#[test]
fn run_frames_passes_interrupted_through() {
    let mut link = FakeLink::ok("{\"status\":\"interrupted\",\"reason\":\"breakpoint\"}");
    let v = json_of(run_frames(&mut link, 100).unwrap());
    assert_eq!(v["status"], "interrupted");
}

#[test]
fn probe_passes_interrupted_through() {
    let mut link =
        FakeLink::ok("{\"status\":\"interrupted\",\"reason\":\"breakpoint\",\"pc\":196624}");
    let v = json_of(probe(&mut link, "/tmp/s.mss", 60, "cpu", 0x1000, 4).unwrap());
    assert_eq!(v["status"], "interrupted");
    assert_eq!(v["reason"], "breakpoint");
}

#[test]
fn set_breakpoint_forwards_all_fields() {
    let mut link = FakeLink::ok("{\"id\":3}");
    set_breakpoint(
        &mut link,
        "exec",
        "snesMemory",
        0x8000,
        0x8000,
        true,
        true,
        None,
        None,
        None,
        None,
        None,
        &[],
    )
    .unwrap();
    let p = link.last_params.unwrap();
    assert_eq!(p["kind"], "exec");
    assert_eq!(p["start"], 0x8000);
    assert_eq!(p["pause_on_hit"], true);
    assert_eq!(p["auto_savestate"], true);
    assert!(p.get("snapshot").is_none());

    let mut link2 = FakeLink::ok("{\"id\":4}");
    set_breakpoint(
        &mut link2,
        "write",
        "snesMemory",
        0x2118,
        0x2118,
        true,
        false,
        None,
        None,
        None,
        None,
        None,
        &names(&["snesWorkRam:0x68:3"]),
    )
    .unwrap();
    let p2 = link2.last_params.unwrap();
    assert_eq!(p2["snapshot"][0], "snesWorkRam:0x68:3");
}

#[test]
fn step_and_poll_events_forward() {
    let mut link = FakeLink::ok("{\"events\":[],\"dropped\":0}");
    let v = json_of(poll_events(&mut link).unwrap());
    assert_eq!(v["dropped"], 0);
    assert_eq!(link.last_method.as_deref(), Some("poll_events"));
}

const ABC_SHA256: &str = "b5d4045c3f466fa91fe2cc6abe79232a1a57cdf104f7a26e716e0a1e2789df78";

#[test]
fn screenshot_returns_image_without_save() {
    let mut link = FakeLink::ok(&format!(
        "{{\"png_base64\":\"QUJD\",\"frame_before\":42,\"frame_after\":42,\"state\":\"frozen\",\"sha256\":\"{ABC_SHA256}\"}}"
    ));
    let shot = screenshot(&mut link, None).unwrap();
    assert_eq!(shot.png, b"ABC");
    match shot.output {
        ToolOutput::Image {
            png_base64,
            saved_path,
            provenance,
        } => {
            let provenance = to_value(&provenance);
            assert_eq!(png_base64, "QUJD");
            assert!(saved_path.is_none());
            assert_eq!(provenance["sha256"], ABC_SHA256);
            assert_eq!(provenance["byte_len"], 3);
            assert_eq!(provenance["frame_before"], 42);
            assert_eq!(provenance["frame_after"], 42);
            assert_eq!(provenance["state"], "frozen");
            assert!(provenance.get("png_base64").is_none());
        }
        other => panic!("{other:?}"),
    }
}

#[test]
fn screenshot_rejects_adapter_hash_mismatch() {
    let mut link =
        FakeLink::ok("{\"png_base64\":\"QUJD\",\"sha256\":\"not-the-decoded-png-hash\"}");
    let error = screenshot(&mut link, None).unwrap_err();
    assert!(error.message().contains("sha256 mismatch"));
}

#[test]
fn screenshot_saves_to_path_when_given() {
    let mut link = FakeLink::ok("{\"png_base64\":\"QUJD\"}");
    let shot = screenshot(&mut link, Some("/tmp/shot.png")).unwrap();
    match shot.output {
        ToolOutput::Image { saved_path, .. } => {
            assert_eq!(saved_path.as_deref(), Some("/tmp/shot.png"))
        }
        other => panic!("{other:?}"),
    }
    assert_eq!(shot.png, b"ABC");
}

#[test]
fn screenshots_that_are_no_base64_are_refused() {
    let mut link = FakeLink::ok("{\"png_base64\":\"Q\"}");
    assert!(matches!(
        screenshot(&mut link, None),
        Err(LinkError::Protocol(_))
    ));
    let mut link = FakeLink::ok("{}");
    assert!(screenshot(&mut link, None).is_err());
}

struct DumpLink {
    caps: Capabilities,
    calls: Vec<(String, Value)>,
}

impl EmulatorLink for DumpLink {
    fn capabilities(&self) -> &Capabilities {
        &self.caps
    }

    fn call(&mut self, method: &str, params: Json) -> Result<Json, LinkError> {
        self.calls.push((method.into(), to_value(&params)));
        match method {
            "dump_memory" => Ok(j("{\"path\":\"/out/.dump.staging\",\"regions\":1}")),
            "get_state" => Ok(j("{\"state\":{\"cpu.pc\":42}}")),
            _ => Ok(j("{}")),
        }
    }

    fn supports_session_reconnect(&self) -> bool {
        false
    }

    fn prepare_reconnect(&mut self) {}

    fn wait_for_session(&mut self) -> bool {
        false
    }
}

#[test]
fn dump_memory_publishes_region_files_and_state_together() {
    let mut link = DumpLink {
        caps: capabilities(&[], None),
        calls: vec![],
    };
    let dump = collect_dump(&mut link, "/out/.dump.staging").unwrap();
    assert_eq!(link.calls[0].0, "dump_memory");
    assert_eq!(link.calls[0].1["path"], "/out/.dump.staging");
    assert_eq!(link.calls[1].0, "get_state");
    assert_eq!(to_value(&dump.state)["cpu.pc"], 42);
    let report = json_of(dump_report(dump.regions, "/out/dump"));
    assert_eq!(report["path"], "/out/dump");
    assert_eq!(
        sibling_name(Some("dump"), "dump-staging", 7, 9),
        ".dump.dump-staging.7.9"
    );
}

/// The files of a dump directory, and of the one that it is staged in.
#[derive(Default)]
struct DumpFiles {
    target: Option<Vec<(String, String)>>,
    staging: Option<Vec<(String, String)>>,
}

fn dumped(
    files: &mut DumpFiles,
    target: Target,
    link: &mut DumpLink,
    write_fault: Option<&str>,
    swap_fault: Option<&str>,
) -> Result<ToolOutput, LinkError> {
    let outcome = |fault: Option<&str>| fault.map_or(Ok(()), |m| Err(m.to_string()));
    let (mut stage, mut action) = DumpStage::begin(target, "/out/dump");
    loop {
        let event = match action {
            DumpAction::NameStaging => {
                DumpEvent::Named(StagingPath::Text("/out/.dump.staging".into()))
            }
            DumpAction::MakeStaging => {
                files.staging = Some(vec![]);
                DumpEvent::Made(Ok(()))
            }
            DumpAction::Collect { staging } => {
                let collected = collect_dump(link, &staging);
                files
                    .staging
                    .as_mut()
                    .unwrap()
                    .push(("main.bin".into(), "NEWDUMP".into()));
                DumpEvent::Collected(collected)
            }
            DumpAction::Write { state } => {
                if write_fault.is_none() {
                    let staged = files.staging.as_mut().unwrap();
                    staged.push(("state.json".into(), state));
                }
                DumpEvent::Written(outcome(write_fault))
            }
            DumpAction::Replace => {
                if swap_fault.is_none() {
                    files.target = files.staging.take();
                }
                DumpEvent::Replaced(outcome(swap_fault))
            }
            DumpAction::RemoveStaging => {
                files.staging = None;
                DumpEvent::Removed
            }
            DumpAction::Finish(result) => return result,
        };
        (stage, action) = stage.advance(event);
    }
}

fn dump_link() -> DumpLink {
    DumpLink {
        caps: capabilities(&[], None),
        calls: vec![],
    }
}

fn old_dump() -> Option<Vec<(String, String)>> {
    Some(vec![
        ("main.bin".into(), "OLDDUMP".into()),
        ("state.json".into(), "{\"cpu.pc\":1}".into()),
    ])
}

#[test]
fn a_dump_takes_the_place_of_an_earlier_one() {
    let mut files = DumpFiles {
        target: old_dump(),
        staging: None,
    };
    let output = dumped(&mut files, Target::Directory, &mut dump_link(), None, None).unwrap();
    assert_eq!(json_of(output)["path"], "/out/dump");
    let published = files.target.unwrap();
    assert_eq!(published.len(), 2);
    assert_eq!(published[0], ("main.bin".into(), "NEWDUMP".into()));
    assert_eq!(published[1].0, "state.json");
    let state: Value = serde_json::from_str(&published[1].1).unwrap();
    assert_eq!(state["cpu.pc"], 42);
    assert!(files.staging.is_none());
}

#[test]
fn dump_memory_state_write_failure_preserves_prior_dump() {
    let mut files = DumpFiles {
        target: old_dump(),
        staging: None,
    };
    let mut link = dump_link();
    let error = dumped(&mut files, Target::Directory, &mut link, Some("full"), None).unwrap_err();
    assert!(matches!(error, LinkError::Protocol(m) if m == "state.json 쓰기 실패: full"));
    assert_eq!(link.calls.len(), 2);
    assert_eq!(files.target, old_dump());
    assert!(files.staging.is_none());

    let error = dumped(&mut files, Target::Directory, &mut link, None, Some("busy")).unwrap_err();
    assert!(matches!(error, LinkError::Protocol(m) if m == "덤프 배치(스왑) 실패: busy"));
    assert_eq!(files.target, old_dump());
    assert!(files.staging.is_none());
}

#[test]
fn tools_dump_memory_refuses_file_destination() {
    for (target, reason) in [
        (Target::Other, "destination is not a directory: /out/dump"),
        (
            Target::Symlink,
            "destination is a symlink, refusing to replace: /out/dump",
        ),
    ] {
        let mut files = DumpFiles::default();
        let mut link = dump_link();
        let error = dumped(&mut files, target, &mut link, None, None).unwrap_err();
        match error {
            LinkError::Protocol(m) => assert_eq!(
                m,
                format!("덤프 경로가 교체 가능한 디렉토리가 아님: {reason}")
            ),
            other => panic!("{other:?}"),
        }
        assert!(link.calls.is_empty());
        assert!(files.staging.is_none());
    }
}

#[test]
fn a_dump_without_a_place_to_stage_it_is_refused() {
    for (name, message) in [
        (
            StagingPath::NoParent,
            "덤프 스테이징 경로 실패: dump path /out/dump has no parent directory to stage under",
        ),
        (StagingPath::NotText, "덤프 스테이징 경로가 UTF-8이 아님"),
    ] {
        let (stage, _) = DumpStage::begin(Target::Absent, "/out/dump");
        match stage.advance(DumpEvent::Named(name)).1 {
            DumpAction::Finish(Err(LinkError::Protocol(m))) => assert_eq!(m, message),
            other => panic!("{other:?}"),
        }
    }
    let (stage, _) = DumpStage::begin(Target::Absent, "/out/dump");
    let (stage, _) = stage.advance(DumpEvent::Named(StagingPath::Text("/out/s".into())));
    let (stage, action) = stage.advance(DumpEvent::Made(Err("denied".into())));
    assert!(matches!(action, DumpAction::RemoveStaging));
    match stage.advance(DumpEvent::Removed).1 {
        DumpAction::Finish(Err(LinkError::Protocol(m))) => {
            assert_eq!(m, "스테이징 디렉토리 생성 실패: denied")
        }
        other => panic!("{other:?}"),
    }
}

fn replaced(target: Target, events: &[ReplaceEvent]) -> (Vec<ReplaceAction>, ReplaceAction) {
    let (mut stage, mut action) = ReplaceStage::begin(target);
    let mut actions = vec![];
    for event in events {
        actions.push(action);
        let (next, todo) = stage.advance(*event);
        stage = next;
        action = todo;
    }
    (actions, action)
}

#[test]
fn tools_replace_dir_into_absent_dst_is_single_rename() {
    let (actions, end) = replaced(Target::Absent, &[ReplaceEvent::Done]);
    assert_eq!(actions, [ReplaceAction::MoveStagingToTarget]);
    assert_eq!(end, ReplaceAction::Succeed);
}

#[test]
fn tools_replace_dir_publishes_new_dump_over_existing() {
    let (actions, end) = replaced(
        Target::Directory,
        &[ReplaceEvent::Done, ReplaceEvent::Done],
    );
    assert_eq!(
        actions,
        [ReplaceAction::Exchange, ReplaceAction::RemoveStaging]
    );
    assert_eq!(end, ReplaceAction::Succeed);
}

#[test]
fn tools_replace_dir_fallback_swaps_over_existing() {
    let (actions, end) = replaced(
        Target::Directory,
        &[
            ReplaceEvent::Unsupported,
            ReplaceEvent::Done,
            ReplaceEvent::Done,
            ReplaceEvent::Done,
        ],
    );
    assert_eq!(
        actions,
        [
            ReplaceAction::Exchange,
            ReplaceAction::MoveTargetToBackup,
            ReplaceAction::MoveStagingToTarget,
            ReplaceAction::RemoveBackup
        ]
    );
    assert_eq!(end, ReplaceAction::Succeed);
}

#[test]
fn a_failed_replacement_puts_the_old_directory_back() {
    let (actions, end) = replaced(
        Target::Directory,
        &[
            ReplaceEvent::Unsupported,
            ReplaceEvent::Done,
            ReplaceEvent::Failed,
            ReplaceEvent::Done,
        ],
    );
    assert_eq!(actions[3], ReplaceAction::MoveBackupToTarget);
    assert_eq!(end, ReplaceAction::Fail);
}

#[test]
fn tools_replace_dir_refuses_file_destination() {
    assert!(ensure_replaceable_dir(Target::Other, "/out/dump").is_err());
    assert!(ensure_replaceable_dir(Target::Symlink, "/out/dump").is_err());
    assert!(ensure_replaceable_dir(Target::Directory, "/out/dump").is_ok());
    assert!(ensure_replaceable_dir(Target::Absent, "/out/dump").is_ok());
}

#[test]
fn tools_unit_tests_unsupported_exchange_errnos_fall_back_not_hard_fail() {
    for e in [libc::ENOSYS, libc::EINVAL, libc::ENOTSUP] {
        assert!(is_unsupported_exchange_errno(Some(e)), "{e}");
    }
    assert!(!is_unsupported_exchange_errno(Some(libc::ENOENT)));
    assert!(!is_unsupported_exchange_errno(None));
}

#[test]
fn tools_unsupported_exchange_errnos_fall_back_not_hard_fail() {
    for e in [libc::ENOSYS, libc::EINVAL, libc::ENOTSUP] {
        assert!(is_unsupported_exchange_errno(Some(e)), "{e}");
    }
    assert!(!is_unsupported_exchange_errno(Some(libc::ENOENT)));
    assert!(!is_unsupported_exchange_errno(None));
}

fn watch_budget_is_bounded() {
    let mut link = FakeLink::ok("{\"id\":1}");
    let r = watch_register(&mut link, "sp", 0, 0xffff, true, Some(u64::MAX));
    assert!(
        matches!(r, Err(LinkError::Emulator { ref kind, .. }) if kind == "bad_params"),
        "{r:?}"
    );
    let mut link2 = FakeLink::ok("{\"id\":1}");
    assert!(watch_register(&mut link2, "sp", 0, 0xffff, true, Some(1000)).is_ok());
}

#[test]
fn tools_watch_register_rejects_over_budget() {
    watch_budget_is_bounded();
}

#[test]
fn tools_unit_tests_watch_register_rejects_over_budget() {
    watch_budget_is_bounded();
}

#[test]
fn tap_sequence_rejects_over_aggregate_budget() {
    let mut link = FakeLink::ok("{}");
    let steps: Vec<Vec<String>> = vec![vec!["a".to_string()]; 4000];
    let r = tap_sequence(&mut link, 0, &steps, 1000);
    assert!(
        matches!(r, Err(LinkError::Emulator { ref kind, .. }) if kind == "bad_params"),
        "{r:?}"
    );
    assert!(link.last_method.is_none());
}

#[test]
fn tap_sequence_accepts_within_budget() {
    let mut link = FakeLink::ok("{}");
    let steps: Vec<Vec<String>> = vec![vec!["a".to_string()]; 10];
    assert!(tap_sequence(&mut link, 0, &steps, 2).is_ok());
}

struct ResetReconnectLink {
    caps: Capabilities,
    status_results: VecDeque<Result<Json, LinkError>>,
    prepared: bool,
    calls: Vec<String>,
    operation: &'static str,
    replacement_launch_id: Option<&'static str>,
}

impl EmulatorLink for ResetReconnectLink {
    fn capabilities(&self) -> &Capabilities {
        &self.caps
    }

    fn call(&mut self, method: &str, _params: Json) -> Result<Json, LinkError> {
        self.calls.push(method.to_string());
        match method {
            method if method == self.operation => Ok(j(&format!(
                "{{\"{}\":true,\"reconnect\":true}}",
                self.operation
            ))),
            "status" => {
                assert!(self.prepared, "old transport must be discarded first");
                let result = self
                    .status_results
                    .pop_front()
                    .unwrap_or(Err(LinkError::NotConnected));
                if result
                    .as_ref()
                    .is_ok_and(|status| status.get_bool("connected") == Some(true))
                {
                    if let Some(launch_id) = self.replacement_launch_id {
                        self.caps.identity.launch_id = Some(launch_id.into());
                    }
                }
                result
            }
            other => panic!("unexpected method: {other}"),
        }
    }

    fn supports_session_reconnect(&self) -> bool {
        true
    }

    fn prepare_reconnect(&mut self) {
        self.prepared = true;
    }

    fn wait_for_session(&mut self) -> bool {
        true
    }
}

fn reconnecting(operation: &'static str) -> ResetReconnectLink {
    ResetReconnectLink {
        caps: capabilities(&[], None),
        status_results: VecDeque::from([
            Err(LinkError::NotConnected),
            Ok(j("{\"connected\":true,\"state\":\"running\"}")),
        ]),
        prepared: false,
        calls: Vec::new(),
        operation,
        replacement_launch_id: None,
    }
}

#[test]
fn reset_waits_for_replacement_session() {
    let mut link = reconnecting("reset");
    let result = json_of(reset(&mut link).unwrap());
    assert_eq!(
        result,
        parsed("{\"reset\":true,\"reconnected\":true,\"state\":\"running\"}")
    );
    assert_eq!(link.calls, ["reset", "status", "status"]);
}

#[test]
fn power_cycle_waits_for_replacement_session() {
    let mut link = reconnecting("power_cycle");
    let result = json_of(power_cycle(&mut link).unwrap());
    assert_eq!(
        result,
        parsed("{\"power_cycle\":true,\"reconnected\":true,\"state\":\"running\"}")
    );
    assert_eq!(link.calls, ["power_cycle", "status", "status"]);
}

#[test]
fn reconnecting_operation_rejects_a_replacement_launch_generation() {
    let mut link = reconnecting("power_cycle");
    link.caps.identity.launch_id = Some("launch-original".into());
    link.status_results = VecDeque::from([Ok(j("{\"connected\":true,\"state\":\"running\"}"))]);
    link.replacement_launch_id = Some("launch-replacement");
    let error = power_cycle(&mut link).unwrap_err();
    assert!(matches!(error, LinkError::Emulator { ref kind, .. } if kind == "identity_changed"));
}

#[test]
fn reset_without_reconnect_marker_stays_single_call() {
    let mut link = FakeLink::ok("{\"reset\":true}");
    assert_eq!(
        json_of(reset(&mut link).unwrap()),
        parsed("{\"reset\":true}")
    );
    assert_eq!(link.last_method.as_deref(), Some("reset"));
}

struct GenerationSwapLink {
    caps: Capabilities,
    prepared: bool,
    calls: Vec<String>,
}

impl EmulatorLink for GenerationSwapLink {
    fn capabilities(&self) -> &Capabilities {
        &self.caps
    }

    fn call(&mut self, method: &str, _params: Json) -> Result<Json, LinkError> {
        self.calls.push(method.to_string());
        match (method, self.prepared) {
            ("set_input", false) => Err(LinkError::NotConnected),
            ("status", true) => {
                self.caps.identity.launch_id = Some("replacement-generation".into());
                Ok(j("{\"connected\":true}"))
            }
            ("set_input", true) => panic!("cleanup must not mutate a replacement generation"),
            other => panic!("unexpected call: {other:?}"),
        }
    }

    fn supports_session_reconnect(&self) -> bool {
        true
    }

    fn prepare_reconnect(&mut self) {
        self.prepared = true;
    }

    fn wait_for_session(&mut self) -> bool {
        true
    }
}

#[test]
fn session_cleanup_refuses_a_replacement_launch_generation() {
    let mut link = GenerationSwapLink {
        caps: capabilities(&["status", "set_input"], Some("original-generation")),
        prepared: false,
        calls: Vec::new(),
    };

    let error = call_session_cleanup(
        &mut link,
        "set_input",
        j("{\"buttons\":[]}"),
        Some("original-generation"),
    )
    .unwrap_err();

    assert!(
        matches!(error, LinkError::Emulator { ref kind, .. } if kind == "bad_state"),
        "generation replacement must fail closed: {error:?}"
    );
    assert_eq!(link.calls, ["set_input", "status"]);
}

#[test]
fn session_cleanup_preflights_before_mutating_an_unknown_connection() {
    let mut link = GenerationSwapLink {
        caps: capabilities(&[], None),
        prepared: false,
        calls: Vec::new(),
    };

    let error = call_session_cleanup(
        &mut link,
        "set_input",
        j("{\"buttons\":[]}"),
        Some("original-generation"),
    )
    .unwrap_err();

    assert!(
        matches!(error, LinkError::Emulator { ref kind, .. } if kind == "bad_state"),
        "an unknown replacement generation must fail closed: {error:?}"
    );
    assert_eq!(
        link.calls,
        ["status"],
        "generation status must precede every cleanup mutation"
    );
}

struct ReturningLink {
    caps: Capabilities,
    disconnect_on: usize,
    calls: usize,
    connected: bool,
    frozen: bool,
    buttons: Vec<String>,
    projection: Vec<Vec<String>>,
}

impl ReturningLink {
    fn new(disconnect_on: usize) -> Self {
        Self {
            caps: capabilities(
                &["status", "pause", "set_input", "step", "read_memory"],
                Some("test-generation"),
            ),
            disconnect_on,
            calls: 0,
            connected: true,
            frozen: false,
            buttons: vec![],
            projection: vec![],
        }
    }
}

impl EmulatorLink for ReturningLink {
    fn capabilities(&self) -> &Capabilities {
        &self.caps
    }

    fn call(&mut self, method: &str, params: Json) -> Result<Json, LinkError> {
        if !self.connected {
            return Err(LinkError::NotConnected);
        }
        self.calls += 1;
        let params = to_value(&params);
        let reply = match method {
            "pause" => {
                self.frozen = true;
                j("{\"state\":\"frozen\"}")
            }
            "set_input" => {
                self.buttons = buttons_of(&params);
                j("{}")
            }
            "step" => {
                assert!(self.frozen);
                for _ in 0..params["frames"].as_u64().unwrap() {
                    self.projection.push(self.buttons.clone());
                }
                j("{\"state\":\"frozen\"}")
            }
            "read_memory" => {
                if self.projection.is_empty() {
                    j("{\"hex\":\"00\"}")
                } else {
                    j("{\"hex\":\"01\"}")
                }
            }
            "status" => j(&format!(
                "{{\"connected\":true,\"state\":\"{}\",\"input_override\":{{\"engaged\":{}}}}}",
                if self.frozen { "frozen" } else { "running" },
                !self.buttons.is_empty()
            )),
            other => panic!("unexpected method: {other}"),
        };
        if self.calls == self.disconnect_on {
            self.connected = false;
            return Err(LinkError::NotConnected);
        }
        Ok(reply)
    }

    fn supports_session_reconnect(&self) -> bool {
        true
    }

    fn prepare_reconnect(&mut self) {
        self.connected = true;
    }

    fn wait_for_session(&mut self) -> bool {
        true
    }
}

#[test]
fn tap_reclaims_input_after_a_disconnect_at_each_boundary() {
    let a = || vec!["a".to_string()];
    let expected = [
        (1, false, vec![]),
        (2, false, vec![]),
        (3, false, vec![a(), a()]),
        (4, true, vec![a(), a(), vec![]]),
        (5, false, vec![a(), a(), vec![]]),
    ];
    for (disconnect_on, completes, projection) in expected {
        let mut link = ReturningLink::new(disconnect_on);
        let result = tap(&mut link, 0, &a(), 2, 0);
        assert_eq!(
            result.is_ok(),
            completes,
            "unexpected terminal result after disconnect at request boundary {disconnect_on}: {result:?}"
        );
        let status =
            call_session_cleanup(&mut link, "status", j("{}"), Some("test-generation")).unwrap();
        let status = to_value(&status);
        assert_eq!(status["state"], "frozen");
        assert_eq!(status["input_override"]["engaged"], false);
        assert_eq!(link.projection, projection);
    }
}

#[test]
fn hold_until_reclaims_input_after_a_disconnect_at_each_boundary() {
    let down = || vec!["down".to_string()];
    let expected = [
        (1, false, vec![]),
        (2, false, vec![]),
        (3, false, vec![]),
        (4, false, vec![down()]),
        (5, false, vec![down()]),
        (6, true, vec![down(), vec![]]),
        (7, false, vec![down(), vec![]]),
    ];
    for (disconnect_on, completes, projection) in expected {
        let mut link = ReturningLink::new(disconnect_on);
        let result = hold_until(&mut link, 0, &down(), "test", 0, 1, 1);
        assert_eq!(
            result.is_ok(),
            completes,
            "unexpected terminal result after disconnect at request boundary {disconnect_on}: {result:?}"
        );
        let status =
            call_session_cleanup(&mut link, "status", j("{}"), Some("test-generation")).unwrap();
        let status = to_value(&status);
        assert_eq!(status["state"], "frozen");
        assert_eq!(status["input_override"]["engaged"], false);
        assert_eq!(link.projection, projection);
    }
}

#[test]
fn pointer_gestures_are_checked_before_any_call() {
    let mut link = FakeLink::ok("{}");
    assert!(move_pointer(&mut link, 0, 0, 0, 1).is_err());
    assert!(move_pointer(&mut link, 0, 1, 0, 0).is_err());
    assert!(click_pointer(&mut link, 0, "side", 1, 0).is_err());
    assert!(drag_pointer(&mut link, 0, "left", 0, 0, 1, 0).is_err());
    assert_eq!(link.last_method, None);
}

#[test]
fn pointer_gestures_run_on_a_frozen_machine_and_end_released() {
    let mut link = Rec::new("frozen", &[]);
    move_pointer(&mut link, 0, -3, 4, 2).unwrap();
    assert_eq!(link.calls[0].0, "pause");
    assert_eq!(
        link.calls[1],
        (
            "move_pointer".into(),
            parsed("{\"port\":0,\"dx\":-3,\"dy\":4,\"frames\":2}")
        )
    );

    let mut link = Rec::new("frozen", &[]);
    let report = json_of(click_pointer(&mut link, 0, "left", 2, 0).unwrap());
    assert_eq!(report["clicked"], true);
    assert_eq!(report["operation"], "click_pointer");
    let pressed: Vec<&Value> = link
        .calls
        .iter()
        .filter(|(method, _)| method == "set_input")
        .map(|(_, params)| &params["buttons"])
        .collect();
    assert_eq!(*pressed.last().unwrap(), &parsed("[]"));

    let mut link = Rec::new("frozen", &[]);
    drag_pointer(&mut link, 0, "left", 5, 0, 3, 0).unwrap();
    let methods = link.methods();
    assert!(methods.contains(&"move_pointer"));
    let last = link
        .calls
        .iter()
        .filter(|(method, _)| method == "set_input")
        .last()
        .unwrap();
    assert_eq!(last.1["buttons"], parsed("[]"));
}

#[test]
fn touches_send_what_they_are_told() {
    let mut link = FakeLink::ok("{}");
    touch(&mut link, 0, Some(3), Some(4), Some(2), false).unwrap();
    let p = link.last_params.unwrap();
    assert_eq!(p["x"], 3);
    assert_eq!(p["y"], 4);
    assert_eq!(p["frames"], 2);
}

#[test]
fn breakpoint_conditions_are_sent_where_they_are_given() {
    let mut link = FakeLink::ok("{\"id\":5}");
    set_breakpoint(
        &mut link,
        "write",
        "ram",
        1,
        2,
        false,
        false,
        Some(3),
        Some(4),
        Some(5),
        None,
        Some(2),
        &[],
    )
    .unwrap();
    let p = link.last_params.unwrap();
    assert_eq!(p["pc_min"], 3);
    assert_eq!(p["pc_max"], 4);
    assert_eq!(p["value"], 5);
    assert_eq!(p["value_len"], 2);
    assert!(p.get("value_mask").is_none());
}

#[test]
fn taps_report_the_tap_whatever_a_step_tells() {
    let reply = "{\"status\":\"interrupted\",\"reason\":\"breakpoint\"}";
    let mut link = FakeLink::ok(reply);
    let report = json_of(tap(&mut link, 0, &names(&["a"]), 2, 3).unwrap());
    assert_eq!(
        report,
        parsed("{\"tapped\":[\"a\"],\"press_frames\":2,\"after_frames\":3,\"state\":\"frozen\"}")
    );
    let mut link = FakeLink::ok(reply);
    let steps = vec![names(&["a"]), names(&["b"])];
    let report = json_of(tap_sequence(&mut link, 0, &steps, 2).unwrap());
    assert_eq!(report["sequence_len"], 2);
    let mut link = FakeLink::ok(reply);
    let report = json_of(click_pointer(&mut link, 0, "left", 2, 0).unwrap());
    assert_eq!(report["clicked"], true);
    assert_eq!(report["status"], "completed");
    let mut link = FakeLink::ok(reply);
    let report = json_of(drag_pointer(&mut link, 0, "left", 1, 0, 2, 0).unwrap());
    assert_eq!(report["status"], "interrupted");
    assert_eq!(report["phase"], "movement");
    assert_eq!(report["released"], true);
}
