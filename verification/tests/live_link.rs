use emucap::json::Json;
use emucap::live::exchange::{
    AbortRequest, CallPlan, Exchange, ExchangeAction, ExchangeEvent, MAX_ID_MISMATCH,
};
use emucap::live::link::{Capabilities, EmulatorIdentity, EmulatorLink, LinkError, MemoryRegion};
use emucap::live::probe::{probe, probe_available, probe_available_for_methods};
use emucap::live::protocol::{ProtocolError, Response};
use emucap::live::reattach::{
    LeaseState, Preaccept, ProcessState, ReattachAction, ReattachEvent, ReattachRequest,
    ReattachStage,
};
use emucap::live::receipt::{
    ReceiptAction, ReceiptEvent, ReceiptRequest, ReceiptStage, RuntimeGeneration, SnapshotBoundary,
};
use emucap::live::temporal::NANOS_PER_MS;
use emucap::live::tools::ToolOutput;
use serde_json::Value;

fn from_value(value: &Value) -> Json {
    match value {
        Value::Null => Json::Null,
        Value::Bool(b) => Json::Bool(*b),
        Value::Number(n) => {
            if let Some(u) = n.as_u64() {
                Json::Unsigned(u)
            } else if let Some(i) = n.as_i64() {
                Json::Negative(i)
            } else {
                Json::Float(n.to_string())
            }
        }
        Value::String(s) => Json::Str(s.clone()),
        Value::Array(items) => Json::Array(items.iter().map(from_value).collect()),
        Value::Object(fields) => Json::Object(
            fields
                .iter()
                .map(|(key, value)| (key.clone(), from_value(value)))
                .collect(),
        ),
    }
}

fn to_value(value: &Json) -> Value {
    match value {
        Json::Null => Value::Null,
        Json::Bool(b) => Value::Bool(*b),
        Json::Unsigned(n) => Value::from(*n),
        Json::Negative(n) => Value::from(*n),
        Json::Float(number) => serde_json::from_str(number).unwrap(),
        Json::Str(s) => Value::String(s.clone()),
        Json::Array(items) => Value::Array(items.iter().map(to_value).collect()),
        Json::Object(fields) => Value::Object(
            fields
                .iter()
                .map(|(key, value)| (key.clone(), to_value(value)))
                .collect(),
        ),
    }
}

fn parsed(text: &str) -> Value {
    serde_json::from_str(text).unwrap()
}

fn j(text: &str) -> Json {
    from_value(&parsed(text))
}

fn plan() -> CallPlan {
    CallPlan {
        method: "read_memory".into(),
        params: j("{\"address\":0}"),
        timeout: 200 * NANOS_PER_MS,
        deferred_deadline: 1_000 * NANOS_PER_MS,
        max_host: None,
        observed: false,
        abort: None,
    }
}

fn reply(id: u64, result: &str) -> ExchangeEvent {
    ExchangeEvent::Line(Ok(Response {
        id,
        ok: true,
        result: Some(j(result)),
        error: None,
    }))
}

fn started(plan: &CallPlan) -> Exchange {
    let (exchange, action) = Exchange::begin(plan, true, 7, 0, 0);
    match action {
        ExchangeAction::Write { request, timeout } => {
            assert_eq!(request.id, 7);
            assert_eq!(request.method, "read_memory");
            assert_eq!(timeout, 200 * NANOS_PER_MS);
        }
        other => panic!("{other:?}"),
    }
    let (exchange, action) = exchange.advance(plan, 0, false, ExchangeEvent::Written);
    assert!(matches!(action, ExchangeAction::Read { .. }));
    exchange
}

#[test]
fn a_call_gives_the_result_of_its_own_response() {
    let plan = plan();
    let exchange = started(&plan);
    let (exchange, action) = exchange.advance(&plan, 1, false, reply(7, "{\"hex\":\"00ff\"}"));
    match action {
        ExchangeAction::Finish { result } => assert_eq!(to_value(&result)["hex"], "00ff"),
        other => panic!("{other:?}"),
    }
    assert_eq!(exchange.next_id, 8);
}

#[test]
fn tcp_link_not_connected_when_no_client() {
    let (_, action) = Exchange::begin(&plan(), false, 7, 0, 0);
    assert!(matches!(
        action,
        ExchangeAction::Refuse {
            error: LinkError::NotConnected,
            drop: false
        }
    ));
}

#[test]
fn tcp_link_waits_through_keepalive() {
    let plan = plan();
    let mut exchange = started(&plan);
    for _ in 0..3 {
        let (next, action) =
            exchange.advance(&plan, 1, false, reply(7, "{\"status\":\"working\"}"));
        assert!(matches!(action, ExchangeAction::Read { .. }));
        exchange = next;
    }
    let (_, action) = exchange.advance(&plan, 2, false, reply(7, "{\"status\":\"completed\"}"));
    assert!(matches!(action, ExchangeAction::Finish { .. }));
}

#[test]
fn tcp_link_discards_stale_id_response() {
    let plan = plan();
    let exchange = started(&plan);
    let (exchange, action) = exchange.advance(&plan, 1, false, reply(6, "{\"stale\":true}"));
    assert!(matches!(action, ExchangeAction::Read { .. }));
    let (_, action) = exchange.advance(&plan, 1, false, reply(7, "{\"fresh\":true}"));
    match action {
        ExchangeAction::Finish { result } => assert_eq!(to_value(&result)["fresh"], true),
        other => panic!("{other:?}"),
    }
}

#[test]
fn tcp_link_bails_on_id_mismatch_flood() {
    let plan = plan();
    let mut exchange = started(&plan);
    for _ in 0..MAX_ID_MISMATCH {
        let (next, action) = exchange.advance(&plan, 1, false, reply(1, "{}"));
        assert!(matches!(action, ExchangeAction::Read { .. }));
        exchange = next;
    }
    let (_, action) = exchange.advance(&plan, 1, false, reply(1, "{}"));
    assert!(matches!(
        action,
        ExchangeAction::Refuse {
            error: LinkError::Protocol(_),
            drop: true
        }
    ));
}

#[test]
fn tcp_link_bails_on_working_flood_past_deadline() {
    let plan = plan();
    let exchange = started(&plan);
    let (_, action) = exchange.advance(
        &plan,
        1_001 * NANOS_PER_MS,
        false,
        reply(7, "{\"status\":\"working\"}"),
    );
    assert!(matches!(
        action,
        ExchangeAction::Refuse {
            error: LinkError::Timeout,
            ..
        }
    ));
}

#[test]
fn a_timeout_that_cannot_be_set_keeps_the_connection() {
    let plan = plan();
    let unset = || ExchangeEvent::Unset(LinkError::protocol("no such option"));
    let (exchange, _) = Exchange::begin(&plan, true, 7, 0, 0);
    let (exchange, action) = exchange.advance(&plan, 0, false, unset());
    assert!(matches!(action, ExchangeAction::Refuse { drop: false, .. }));
    assert_eq!(exchange.next_id, 7);
    let (exchange, action) = started(&plan).advance(&plan, 0, false, unset());
    assert!(matches!(action, ExchangeAction::Refuse { drop: false, .. }));
    assert_eq!(exchange.next_id, 8);
}

#[test]
fn tcp_link_write_timeout_poisons_conn() {
    let plan = plan();
    let (exchange, _) = Exchange::begin(&plan, true, 7, 0, 0);
    let (_, action) = exchange.advance(&plan, 1, false, ExchangeEvent::TimedOut);
    assert!(matches!(
        action,
        ExchangeAction::Refuse {
            error: LinkError::Timeout,
            drop: true
        }
    ));
}

#[test]
fn adapter_errors_keep_the_connection_and_their_kind() {
    let plan = plan();
    let exchange = started(&plan);
    let failed = ExchangeEvent::Line(Ok(Response {
        id: 7,
        ok: false,
        result: None,
        error: Some(ProtocolError {
            kind: "bad_params".into(),
            message: "no".into(),
        }),
    }));
    let (_, action) = exchange.advance(&plan, 1, false, failed);
    match action {
        ExchangeAction::Refuse {
            error: LinkError::Emulator { kind, message },
            drop: false,
        } => {
            assert_eq!(kind, "bad_params");
            assert_eq!(message, "no");
        }
        other => panic!("{other:?}"),
    }
}

#[test]
fn a_cancelled_call_asks_the_adapter_to_stop_once() {
    let mut plan = plan();
    plan.abort = Some(AbortRequest {
        method: "cancel".into(),
        params: j("{}"),
    });
    let exchange = started(&plan);
    let (exchange, action) =
        exchange.advance(&plan, 1, true, reply(7, "{\"status\":\"working\"}"));
    match action {
        ExchangeAction::Abort { request } => {
            assert_eq!(request.method, "cancel");
            assert_eq!(request.id, 8);
        }
        other => panic!("{other:?}"),
    }
    let (exchange, action) = exchange.advance(&plan, 2, true, ExchangeEvent::Written);
    assert!(matches!(action, ExchangeAction::Read { .. }));
    let (_, action) = exchange.advance(&plan, 3, true, reply(7, "{\"status\":\"working\"}"));
    assert!(matches!(action, ExchangeAction::Read { .. }));
}

#[test]
fn a_closed_or_broken_stream_is_dropped() {
    let plan = plan();
    let (_, action) = started(&plan).advance(&plan, 1, false, ExchangeEvent::Closed);
    assert!(matches!(
        action,
        ExchangeAction::Refuse {
            error: LinkError::NotConnected,
            drop: true
        }
    ));
    let (_, action) = started(&plan).advance(
        &plan,
        1,
        false,
        ExchangeEvent::Line(Err("not JSON".into())),
    );
    assert!(matches!(
        action,
        ExchangeAction::Refuse {
            error: LinkError::Protocol(_),
            drop: true
        }
    ));
}

fn reattach() -> ReattachRequest {
    ReattachRequest {
        expected_launch_id: "launch".into(),
        bound_launch_id: None,
        connected: false,
        host: "127.0.0.1".into(),
        configured_port: 9000,
        base_port: 9000,
        range: 2,
        endpoint_port: None,
        listening: false,
        preaccepting: false,
    }
}

#[test]
fn a_returned_generation_is_found_bound_claimed_and_committed() {
    let request = reattach();
    let (stage, action) = ReattachStage::begin(&request);
    assert!(matches!(action, ReattachAction::ReadCurrent { port: 9000 }));
    let (stage, action) = stage.advance(&request, ReattachEvent::Current(None));
    assert!(matches!(action, ReattachAction::ReadCurrent { port: 9001 }));
    let (stage, action) =
        stage.advance(&request, ReattachEvent::Current(Some("launch".into())));
    assert!(matches!(action, ReattachAction::CheckLife { port: 9001 }));
    let (stage, action) = stage.advance(
        &request,
        ReattachEvent::Life {
            process: ProcessState::Alive,
            bridge: None,
        },
    );
    assert!(matches!(
        action,
        ReattachAction::ReadCapability { port: 9001 }
    ));
    let (stage, action) = stage.advance(&request, ReattachEvent::Capability { present: true });
    assert!(matches!(action, ReattachAction::ReadLease { port: 9001 }));
    let (stage, action) = stage.advance(
        &request,
        ReattachEvent::Lease {
            launch_id: Some("launch".into()),
            lease: Some(LeaseState::Available),
        },
    );
    match &action {
        ReattachAction::Bind { address } => assert_eq!(address, "127.0.0.1:9001"),
        other => panic!("{other:?}"),
    }
    let (stage, action) = stage.advance(&request, ReattachEvent::Bound);
    assert!(matches!(action, ReattachAction::Claim { port: 9001 }));
    let (stage, action) = stage.advance(
        &request,
        ReattachEvent::Claimed {
            state: LeaseState::Held,
            told: j("{\"state\":\"held\"}"),
        },
    );
    assert!(matches!(
        action,
        ReattachAction::Commit {
            preaccept: Preaccept::OnNewListener
        }
    ));
    let (_, action) = stage.advance(&request, ReattachEvent::Committed);
    match action {
        ReattachAction::Finish { result } => {
            let result = to_value(&result);
            assert_eq!(result["listening_port"], 9001);
            assert_eq!(result["connection"], "pending");
            assert_eq!(result["lease"]["state"], "held");
        }
        other => panic!("{other:?}"),
    }
}

fn refusal(request: &ReattachRequest, events: Vec<ReattachEvent>) -> LinkError {
    let (mut stage, mut action) = ReattachStage::begin(request);
    for event in events {
        let (next, todo) = stage.advance(request, event);
        stage = next;
        action = todo;
    }
    match action {
        ReattachAction::Refuse { error } => error,
        other => panic!("{other:?}"),
    }
}

fn kind_of(error: &LinkError) -> &str {
    match error {
        LinkError::Emulator { kind, .. } => kind,
        other => other.kind(),
    }
}

#[test]
fn reattaching_refuses_what_it_cannot_verify() {
    let request = reattach();
    let found = || ReattachEvent::Current(Some("launch".into()));
    let other = || ReattachEvent::Current(Some("other".into()));
    let alive = || ReattachEvent::Life {
        process: ProcessState::Alive,
        bridge: None,
    };
    assert_eq!(
        kind_of(&refusal(&request, vec![other(), other()])),
        "no_such_generation"
    );
    assert_eq!(
        kind_of(&refusal(&request, vec![found(), found()])),
        "ambiguous_generation"
    );
    assert_eq!(
        kind_of(&refusal(
            &request,
            vec![
                found(),
                other(),
                ReattachEvent::Life {
                    process: ProcessState::Exited,
                    bridge: None
                }
            ]
        )),
        "execution_not_alive"
    );
    assert_eq!(
        kind_of(&refusal(
            &request,
            vec![
                found(),
                other(),
                alive(),
                ReattachEvent::Capability { present: false }
            ]
        )),
        "reclaim_capability_unavailable"
    );
    assert_eq!(
        kind_of(&refusal(
            &request,
            vec![
                found(),
                other(),
                alive(),
                ReattachEvent::Capability { present: true },
                ReattachEvent::Lease {
                    launch_id: Some("launch".into()),
                    lease: Some(LeaseState::Foreign)
                }
            ]
        )),
        "busy"
    );
}

fn receipt() -> ReceiptRequest {
    ReceiptRequest {
        recording_advertised: true,
        state_load_advertised: true,
        port: Some(9000),
        path: "/states/a".into(),
        path_is_absolute: true,
        launch_id: Some("launch".into()),
        content: Some("/roms/a".into()),
    }
}

#[test]
fn a_recording_receipt_is_bound_saved_acquired_and_preserved() {
    let request = receipt();
    let (stage, action) = ReceiptStage::begin(&request);
    assert!(matches!(action, ReceiptAction::ReadCurrent { port: 9000 }));
    let current = RuntimeGeneration {
        launch_id: "launch".into(),
        content: "/roms/a".into(),
    };
    let (stage, action) = stage.advance(&request, ReceiptEvent::Current(Ok(Some(current))));
    assert!(matches!(action, ReceiptAction::BindSource));
    let (stage, action) = stage.advance(&request, ReceiptEvent::Bound(Ok(())));
    match &action {
        ReceiptAction::Save { params } => assert_eq!(to_value(params)["path"], "/states/a"),
        other => panic!("{other:?}"),
    }
    let saved = j("{\"state\":\"frozen\",\"frame\":5,\"boundary\":\"frame_boundary\"}");
    let (stage, action) = stage.advance(&request, ReceiptEvent::Saved(Ok(saved)));
    assert!(matches!(action, ReceiptAction::Acquire));
    let (stage, action) = stage.advance(&request, ReceiptEvent::Acquired(Ok(())));
    assert!(matches!(
        action,
        ReceiptAction::Preserve {
            frame: 5,
            boundary: SnapshotBoundary::FrameBoundary
        }
    ));
    let (_, action) = stage.advance(
        &request,
        ReceiptEvent::Preserved(Ok(j("{\"id\":\"r1\"}"))),
    );
    match action {
        ReceiptAction::Finish { result } => {
            let result = to_value(&result);
            assert_eq!(result["snapshot_receipt"]["id"], "r1");
            assert_eq!(result["frame"], 5);
        }
        other => panic!("{other:?}"),
    }
}

#[test]
fn receipts_need_a_frozen_save_of_the_bound_generation() {
    let mut request = receipt();
    request.path_is_absolute = false;
    assert!(matches!(
        ReceiptStage::begin(&request).1,
        ReceiptAction::Refuse { .. }
    ));

    let request = receipt();
    let other = RuntimeGeneration {
        launch_id: "other".into(),
        content: "/roms/a".into(),
    };
    let (stage, _) = ReceiptStage::begin(&request);
    let (_, action) = stage.advance(&request, ReceiptEvent::Current(Ok(Some(other))));
    assert!(matches!(action, ReceiptAction::Refuse { .. }));

    let (_, action) = ReceiptStage::Saving.advance(
        &request,
        ReceiptEvent::Saved(Ok(j("{\"state\":\"running\"}"))),
    );
    assert!(matches!(action, ReceiptAction::Refuse { .. }));
    let (_, action) = ReceiptStage::Acquiring(j("{\"state\":\"frozen\"}"))
        .advance(&request, ReceiptEvent::Acquired(Ok(())));
    assert!(matches!(action, ReceiptAction::Refuse { .. }));
}

struct ScriptedLink {
    caps: Capabilities,
    replies: Vec<(&'static str, Result<&'static str, LinkError>)>,
    calls: Vec<(String, Value)>,
}

impl ScriptedLink {
    fn new(
        methods: &[&str],
        replies: Vec<(&'static str, Result<&'static str, LinkError>)>,
    ) -> Self {
        Self {
            caps: Capabilities {
                protocol_version: 1,
                methods: methods.iter().map(|name| name.to_string()).collect(),
                memory_types: vec!["ram".into()],
                memory_regions: vec![MemoryRegion {
                    memory_type: "ram".into(),
                    size: 16,
                }],
                identity: EmulatorIdentity {
                    launch_id: None,
                    content: None,
                },
            },
            replies,
            calls: vec![],
        }
    }

    fn methods(&self) -> Vec<&str> {
        self.calls.iter().map(|(method, _)| method.as_str()).collect()
    }
}

impl EmulatorLink for ScriptedLink {
    fn capabilities(&self) -> &Capabilities {
        &self.caps
    }

    fn call(&mut self, method: &str, params: Json) -> Result<Json, LinkError> {
        self.calls.push((method.into(), to_value(&params)));
        let (expected, reply) = self.replies.remove(0);
        assert_eq!(method, expected);
        reply.map(j)
    }

    fn supports_session_reconnect(&self) -> bool {
        false
    }

    fn prepare_reconnect(&mut self) {}

    fn wait_for_session(&mut self) -> bool {
        false
    }
}

const COMPOSED: [&str; 6] = [
    "status",
    "pause",
    "resume",
    "load_state",
    "step",
    "read_memory",
];

#[test]
fn a_probe_is_offered_by_itself_or_by_its_parts() {
    let methods: Vec<String> = COMPOSED.iter().map(|name| name.to_string()).collect();
    assert!(probe_available_for_methods(&methods, true));
    assert!(!probe_available_for_methods(&methods, false));
    assert!(!probe_available_for_methods(&methods[1..], true));
    assert!(probe_available_for_methods(&["probe".to_string()], false));
    assert!(probe_available(&ScriptedLink::new(&COMPOSED, vec![])));
    assert!(!probe_available(&ScriptedLink::new(&["step"], vec![])));
}

#[test]
fn probe_spans_are_checked_before_any_call() {
    for (memory_type, address, length) in
        [("", 0, 1), ("ram", 0, 0), ("ram", u64::MAX, 1), ("rom", 0, 1), ("ram", 15, 2)]
    {
        let mut link = ScriptedLink::new(&["probe", "status"], vec![]);
        let error = probe(&mut link, "/s", 1, memory_type, address, length).unwrap_err();
        assert_eq!(kind_of(&error), "bad_params");
        assert!(link.calls.is_empty());
    }
    let mut link = ScriptedLink::new(&["step"], vec![]);
    assert!(probe(&mut link, "/s", 1, "ram", 0, 1).is_err());
    assert!(link.calls.is_empty());
}

#[test]
fn a_native_probe_must_answer_whole() {
    let ok = "{\"status\":\"completed\",\"requested_frames\":2,\"completed_frames\":2,\"hex\":\"0aff\",\"state\":\"frozen\"}";
    let mut link = ScriptedLink::new(&["probe", "status"], vec![("probe", Ok(ok)), ("status", Ok("{\"state\":\"frozen\"}"))]);
    let result = probe(&mut link, "/s", 2, "ram", 0, 2);
    match result {
        Ok(ToolOutput::Json(value)) => assert_eq!(to_value(&value)["hex"], "0aff"),
        other => panic!("{other:?} after {:?}", link.methods()),
    }
    let short = "{\"status\":\"completed\",\"requested_frames\":2,\"completed_frames\":1,\"hex\":\"0aff\",\"state\":\"frozen\"}";
    let mut link = ScriptedLink::new(&["probe", "status"], vec![("probe", Ok(short)), ("status", Ok("{\"state\":\"frozen\"}"))]);
    assert!(matches!(
        probe(&mut link, "/s", 2, "ram", 0, 2),
        Err(LinkError::Protocol(_))
    ));
}

#[test]
fn a_composed_probe_restores_steps_and_reads() {
    let replies = vec![
        ("status", Ok("{\"state\":\"frozen\"}")),
        ("load_state", Ok("{\"state\":\"frozen\"}")),
        (
            "step",
            Ok("{\"status\":\"completed\",\"state\":\"frozen\",\"frame\":9}"),
        ),
        ("read_memory", Ok("{\"hex\":\"0aff\"}")),
    ];
    let mut link = ScriptedLink::new(&COMPOSED, replies);
    let result = probe(&mut link, "/s", 2, "ram", 4, 2);
    match result {
        Ok(ToolOutput::Json(report)) => {
            let report = to_value(&report);
            assert_eq!(report["hex"], "0aff");
            assert_eq!(report["completed_frames"], 2);
            assert_eq!(report["frame"], 9);
            assert_eq!(report["composition"], "load_state_step_read_memory");
        }
        other => panic!("{other:?} after {:?}", link.methods()),
    }
    assert_eq!(
        link.calls.last().unwrap().1,
        parsed("{\"memory_type\":\"ram\",\"address\":4,\"length\":2}")
    );
}

#[test]
fn a_composed_probe_refuses_a_short_read() {
    let replies = vec![
        ("status", Ok("{\"state\":\"frozen\"}")),
        ("load_state", Ok("{\"state\":\"frozen\"}")),
        ("step", Ok("{\"state\":\"frozen\"}")),
        ("read_memory", Ok("{\"hex\":\"0a\"}")),
    ];
    let mut link = ScriptedLink::new(&COMPOSED, replies);
    assert!(matches!(
        probe(&mut link, "/s", 2, "ram", 4, 2),
        Err(LinkError::Protocol(_))
    ));
}
