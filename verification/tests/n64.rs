use std::collections::{BTreeMap, BTreeSet};

use emucap::json::Json;
use emucap::live::temporal::MAX_SYNC_ADVANCE_COUNT;
use emucap::n64::breakpoints::{ArmOutcome, BreakpointTable};
use emucap::n64::control::{
    check_pulse, input_key, input_report, normalize_buttons, operation_result, partial_name,
    png_dimensions, require_port_zero, saved_report, ButtonSet,
};
use emucap::n64::debug::{
    breakpoint_spec, disassembly_range, ranges_overlap, slot_after_clear, trigger_matches,
    BKP_ENABLED, BKP_EXEC, BKP_READ,
};
use emucap::n64::drain::{DrainAction, DrainEvent, UpdateDrain};
use emucap::n64::effects::{
    EffectAction, EffectEvent, EffectKind, NativeEffect, PublishAction, PublishEvent, PublishStage,
};
use emucap::n64::execution::{
    FrameRun, Pause, PauseAction, PauseEvent, Resume, ResumeAction, ResumeEvent, RunAction,
};
use emucap::n64::frame::{
    validate_observed_frame, FrameGate, FrameGateTrigger, FrameWaitOutcome,
};
use emucap::n64::frame_step::{FrameAction, FrameEvent, FrameStep};
use emucap::n64::hits::{identify, HitLog, Trigger};
use emucap::n64::instruction_step::{InstructionStep, StepAction, StepEvent};
use emucap::n64::lifecycle::{
    generation_stopped, readiness_for, require_frozen, AdapterReadiness, HostState,
};
use emucap::n64::params::{parse_num, rdram_address, require_r4300};
use emucap::n64::prepare::{
    closing_keys, controller_settings, core_settings, requested_plugins, shutdown_plan,
    PluginKind, Preparation, Resource, Step,
};
use emucap::n64::pulse::{Pulse, PulseAction, PulseEvent};
use emucap::n64::reset::{Reset, ResetAction, ResetEvent};
use emucap::n64::service::{
    check_read, check_write, exceptions_for, hello, methods_for, read_report, respond, rom_report,
    route, Operation, SessionFacts,
};
use emucap::n64::stack::{
    describe_stack, r4300_link_instruction, r4300_rdram_offset, walk_r4300_stack,
};
use emucap::n64::{
    error_kind, N64Error, MAX_INPUT_PULSE_FRAMES, MAX_STEP_COUNT, RDRAM_BASE, RDRAM_SIZE,
};
use serde_json::Value;

fn from_value(value: &Value) -> Json {
    match value {
        Value::Null => Json::Null,
        Value::Bool(b) => Json::Bool(*b),
        Value::Number(n) => {
            if let Some(u) = n.as_u64() {
                Json::Unsigned(u)
            } else if let Some(i) = n.as_i64() {
                Json::Negative(i)
            } else {
                Json::Float(n.to_string())
            }
        }
        Value::String(s) => Json::Str(s.clone()),
        Value::Array(items) => Json::Array(items.iter().map(from_value).collect()),
        Value::Object(fields) => Json::Object(
            fields
                .iter()
                .map(|(key, value)| (key.clone(), from_value(value)))
                .collect(),
        ),
    }
}

fn to_value(value: &Json) -> Value {
    match value {
        Json::Null => Value::Null,
        Json::Bool(b) => Value::Bool(*b),
        Json::Unsigned(n) => Value::from(*n),
        Json::Negative(n) => Value::from(*n),
        Json::Float(number) => serde_json::from_str(number).unwrap(),
        Json::Str(s) => Value::String(s.clone()),
        Json::Array(items) => Value::Array(items.iter().map(to_value).collect()),
        Json::Object(fields) => Value::Object(
            fields
                .iter()
                .map(|(key, value)| (key.clone(), to_value(value)))
                .collect(),
        ),
    }
}

fn parsed(text: &str) -> Value {
    serde_json::from_str(text).unwrap()
}

fn j(text: &str) -> Json {
    from_value(&parsed(text))
}

#[test]
fn readiness_requires_the_first_rendered_frame_only_in_visible_mode() {
    assert_eq!(
        readiness_for(true, false, false, false, false),
        AdapterReadiness::WaitingForDebugger
    );
    assert_eq!(
        readiness_for(true, true, false, false, false),
        AdapterReadiness::WaitingForInitialRelease
    );
    assert_eq!(
        readiness_for(true, true, true, false, false),
        AdapterReadiness::WaitingForFirstRenderedFrame
    );
    assert_eq!(
        readiness_for(true, true, true, false, true),
        AdapterReadiness::Ready
    );
    assert_eq!(
        readiness_for(false, true, true, false, false),
        AdapterReadiness::Ready
    );
    assert_eq!(
        readiness_for(false, true, true, true, true),
        AdapterReadiness::Terminated
    );
}

#[test]
fn rdram_access_is_offset_based_and_fail_loud_at_the_boundary() {
    assert_eq!(
        rdram_address(&j("{\"memory_type\":\"rdram\",\"address\":0}"), 1).unwrap(),
        RDRAM_BASE
    );
    let last = format!("{{\"memory_type\":\"rdram\",\"address\":{}}}", RDRAM_SIZE - 1);
    assert!(matches!(
        rdram_address(&j(&last), 2),
        Err(N64Error::BadParams(_))
    ));
}

#[test]
fn rdram_access_rejects_unknown_memory_types() {
    assert!(matches!(
        rdram_address(&j("{\"memory_type\":\"rom\",\"address\":0}"), 1),
        Err(N64Error::BadParams(_))
    ));
}

#[test]
fn execution_cpu_is_explicitly_limited_to_r4300() {
    require_r4300(&j("{\"cpu\":\"r4300\"}")).unwrap();
    require_r4300(&j("{}")).unwrap();
    assert!(matches!(
        require_r4300(&j("{\"cpu\":\"rsp\"}")),
        Err(N64Error::BadParams(_))
    ));
}

#[test]
fn numeric_parameters_accept_decimal_and_prefixed_hex() {
    assert_eq!(parse_num(&j("\"0x20\"")), Some(32));
    assert_eq!(parse_num(&j("\"$20\"")), Some(32));
    assert_eq!(parse_num(&j("32")), Some(32));
}

#[test]
fn r4300_link_classifier_distinguishes_calls_from_plain_jumps() {
    assert!(r4300_link_instruction(0x0c00_0000));
    assert!(r4300_link_instruction(0x03e0_f809));
    assert!(r4300_link_instruction(0x0410_0000));
    assert!(!r4300_link_instruction(0x0800_0000));
    assert!(!r4300_link_instruction(0x03e0_0008));
}

#[test]
fn r4300_rdram_aliases_share_one_bounded_stack_region() {
    assert_eq!(r4300_rdram_offset(0x8000_0020), Some(0x20));
    assert_eq!(r4300_rdram_offset(0xa000_0020), Some(0x20));
    assert_eq!(r4300_rdram_offset(0x8080_0000), None);
    assert_eq!(r4300_rdram_offset(0xa080_0000), None);
}

#[test]
fn r4300_stack_walk_keeps_only_validated_return_addresses() {
    let pc: u32 = 0x8000_1000;
    let ra: u32 = 0x8000_2008;
    let sp: u32 = 0x8001_0000;
    let words: BTreeMap<u32, u32> = BTreeMap::from([
        (0x8000_2000, 0x0c00_0000),
        (0x8000_3000, 0x03e0_f809),
        (sp + 4, 0x8123_4568),
        (sp + 8, 0x8000_3008),
        (sp + 12, ra),
    ]);
    let frames = walk_r4300_stack(pc, ra, sp, |address: u32| {
        words.get(&address).copied().unwrap_or(0)
    });
    assert_eq!(frames.len(), 3);
    assert_eq!(frames[0].pc, pc);
    assert_eq!(frames[0].kind, "pc");
    assert_eq!(frames[1].pc, ra);
    assert_eq!(frames[1].kind, "ra");
    assert_eq!(frames[2].pc, 0x8000_3008);
    assert_eq!(frames[2].stack_address, Some(sp + 8));

    let report = to_value(&describe_stack(&frames));
    assert_eq!(report["depth"], 3);
    assert_eq!(report["frames"][2]["stack_address"], sp + 8);
    assert_eq!(report["frames"][0]["stack_address"], Value::Null);
}

#[test]
fn initial_contract_advertisement_validates() {
    let exceptions = exceptions_for(true);
    let methods = methods_for(true);
    for method in [
        "step_instructions",
        "call_stack",
        "set_input",
        "press_buttons",
        "screenshot",
        "save_state",
        "load_state",
    ] {
        assert!(methods.iter().any(|advertised| *advertised == method));
    }
    assert!(!exceptions.contains(&"n64.execution.frame-step-absent"));
}

#[test]
fn headless_contract_removes_frame_step_and_reports_the_exception() {
    let exceptions = exceptions_for(false);
    let methods = methods_for(false);
    assert!(exceptions.contains(&"n64.execution.frame-step-absent"));
    let facts = SessionFacts {
        protocol_version: 1,
        display: false,
        contracts: Json::Null,
        content: "/roms/a.z64".into(),
        build: "b".into(),
        name: None,
        session_token: None,
        launch_id: None,
    };
    assert_eq!(
        to_value(&hello(&facts))["capability_notes"]["step_units"],
        parsed("[\"instructions\"]")
    );
    assert!(methods.iter().any(|method| *method == "set_input"));
    assert!(methods.iter().any(|method| *method == "call_stack"));
    for unavailable in [
        "step",
        "press_buttons",
        "screenshot",
        "save_state",
        "load_state",
    ] {
        assert!(!methods.iter().any(|method| *method == unavailable));
        assert!(route(unavailable, false).is_err());
        assert!(route(unavailable, true).is_ok());
    }
}

#[test]
fn frame_gate_rearms_before_releasing_the_previous_callback() {
    let mut barrier = FrameGate::new();
    barrier.arm(FrameGateTrigger::NextFrame).unwrap();
    assert!(barrier.on_frame(0, false));
    assert!(matches!(barrier.poll(0, false), FrameWaitOutcome::Frame(1)));
    barrier.arm(FrameGateTrigger::NextFrame).unwrap();
    assert_eq!(barrier.release().unwrap(), 1);
    assert!(barrier.on_frame(1, false));
    assert!(matches!(barrier.poll(0, false), FrameWaitOutcome::Frame(2)));
    assert_eq!(barrier.release().unwrap(), 2);
    assert!(!barrier.on_frame(2, false));
}

#[test]
fn timed_out_frame_gate_returns_callback_ownership() {
    let mut barrier = FrameGate::new();
    barrier.arm(FrameGateTrigger::NextFrame).unwrap();
    assert!(matches!(barrier.poll(0, false), FrameWaitOutcome::Waiting));
    let expired = barrier.poll(0, true);
    assert!(!matches!(
        expired,
        FrameWaitOutcome::Frame(_) | FrameWaitOutcome::DebugUpdate(_) | FrameWaitOutcome::Waiting
    ));
    assert!(!barrier.is_blocked());
    assert!(!barrier.on_frame(0, false));
    assert!(!barrier.is_blocked());
}

#[test]
fn screenshot_gate_waits_for_completion_before_freezing_a_frame() {
    let mut barrier = FrameGate::new();
    barrier.arm(FrameGateTrigger::ScreenshotCompleted).unwrap();
    assert!(!barrier.on_frame(0, false));
    assert!(!barrier.is_blocked());
    assert!(barrier.on_frame(1, true));
    assert!(matches!(barrier.poll(0, false), FrameWaitOutcome::Frame(2)));
    assert_eq!(barrier.release().unwrap(), 2);
    assert!(barrier.release().is_err());
}

#[test]
fn screenshot_completion_may_cross_internal_frame_callbacks_but_step_may_not() {
    assert!(validate_observed_frame(FrameGateTrigger::NextFrame, true, 10, 11).is_ok());
    assert!(matches!(
        validate_observed_frame(FrameGateTrigger::NextFrame, true, 10, 13),
        Err(N64Error::BadState(_))
    ));
    assert!(validate_observed_frame(FrameGateTrigger::ScreenshotCompleted, true, 10, 13).is_ok());
    assert!(matches!(
        validate_observed_frame(FrameGateTrigger::ScreenshotCompleted, true, 10, 10),
        Err(N64Error::BadState(_))
    ));
}

#[test]
fn input_names_are_canonicalized_and_mapped_to_unique_scancodes() {
    let buttons = normalize_buttons(Some(&j(
        "[\"A\",\"shoulder-l\",\"analog_up\",\"dpad-right\",\"c_left\"]",
    )))
    .unwrap();
    assert_eq!(
        buttons.names(),
        ["a", "c_left", "dpad_right", "l", "up"]
    );
    let names = [
        "a", "b", "z", "start", "l", "r", "up", "down", "left", "right", "dpad_up", "dpad_down",
        "dpad_left", "dpad_right", "c_up", "c_down", "c_left", "c_right",
    ];
    let scancodes = names
        .iter()
        .map(|button| input_key(button).unwrap())
        .collect::<BTreeSet<_>>();
    assert_eq!(scancodes.len(), names.len());
    assert!(normalize_buttons(Some(&j("[\"menu\"]"))).is_err());
}

#[test]
fn input_port_and_pulse_bound_are_fail_loud() {
    require_port_zero(&j("{}")).unwrap();
    require_port_zero(&j("{\"port\":0}")).unwrap();
    assert!(matches!(
        require_port_zero(&j("{\"port\":1}")),
        Err(N64Error::BadParams(_))
    ));
    assert_eq!(MAX_INPUT_PULSE_FRAMES, 120);
    assert_eq!(MAX_STEP_COUNT, MAX_SYNC_ADVANCE_COUNT);
    assert!(check_pulse(
        &j("{\"buttons\":[\"a\"],\"frames\":121}"),
        AdapterReadiness::Ready
    )
    .is_err());
}

#[test]
fn breakpoint_specs_separate_virtual_exec_from_physical_rdram_access() {
    let exec = breakpoint_spec(&j(
        "{\"kind\":\"exec\",\"start\":\"0x80000100\",\"pause_on_hit\":true}",
    ))
    .unwrap();
    assert_eq!(exec.native.address, 0x8000_0100);
    assert_eq!(exec.native.endaddr, 0x8000_0100);
    assert_eq!(exec.native.flags, BKP_ENABLED | BKP_EXEC);

    let read = breakpoint_spec(&j("{\"kind\":\"read\",\"memory_type\":\"rdram\",\"start\":32,\"end\":35,\"pause_on_hit\":true,\"snapshot\":[\"rdram:0x40:4\"]}"))
        .unwrap();
    assert_eq!(read.native.address, 0x20);
    assert_eq!(read.native.endaddr, 0x23);
    assert_eq!(read.native.flags, BKP_ENABLED | BKP_READ);
    assert_eq!(read.snapshots[0].offset, 0x40);
    assert_eq!(read.snapshots[0].length, 4);
}

#[test]
fn breakpoint_specs_reject_ambiguous_or_unobservable_requests() {
    let past = format!(
        "{{\"kind\":\"write\",\"memory_type\":\"rdram\",\"start\":{RDRAM_SIZE}}}"
    );
    for params in [
        "{\"kind\":\"exec\",\"start\":256,\"end\":260}",
        "{\"kind\":\"access\",\"start\":256}",
        "{\"kind\":\"read\",\"memory_type\":\"rom\",\"start\":0}",
        past.as_str(),
        "{\"kind\":\"exec\",\"start\":256,\"pause_on_hit\":false}",
        "{\"kind\":\"exec\",\"start\":256,\"value\":1}",
    ] {
        assert!(breakpoint_spec(&j(params)).is_err(), "{params}");
    }
}

#[test]
fn native_slot_identity_moves_only_after_a_lower_slot_is_removed() {
    assert_eq!(slot_after_clear(2, 1), Some(1));
    assert_eq!(slot_after_clear(1, 2), Some(1));
    assert_eq!(slot_after_clear(1, 1), None);
}

#[test]
fn trigger_matching_requires_one_non_overlapping_public_range() {
    let at_100 = "{\"kind\":\"exec\",\"start\":2147483904}";
    let at_104 = "{\"kind\":\"exec\",\"start\":2147483908}";
    let exec = breakpoint_spec(&j(at_100)).unwrap();
    let same = breakpoint_spec(&j(at_100)).unwrap();
    let other = breakpoint_spec(&j(at_104)).unwrap();
    assert!(ranges_overlap(&exec, &same));
    assert!(!ranges_overlap(&exec, &other));
    assert!(trigger_matches(&exec, BKP_EXEC, 0, 0x8000_0100));
    assert!(!trigger_matches(&exec, BKP_EXEC, 0, 0x8000_0104));
}

#[test]
fn disassembly_uses_the_r4300_virtual_address_space_and_checks_its_boundary() {
    assert_eq!(
        disassembly_range(&j("{\"address\":\"0x80000100\"}"), 4).unwrap(),
        (0x8000_0100, 16)
    );
    assert!(
        disassembly_range(&j("{\"address\":\"0xfffffffc\"}"), 1).is_ok(),
        "the final aligned instruction is within the 32-bit address space"
    );
    assert!(disassembly_range(&j("{\"address\":\"0xfffffffc\"}"), 2).is_err());
    assert!(disassembly_range(&j("{\"address\":4294967296}"), 1).is_err());
}

#[test]
fn png_header_validation_reports_dimensions() {
    let mut png = b"\x89PNG\r\n\x1a\n\0\0\0\rIHDR".to_vec();
    png.extend_from_slice(&320u32.to_be_bytes());
    png.extend_from_slice(&240u32.to_be_bytes());
    assert_eq!(png_dimensions(&png).unwrap(), (320, 240));
    assert!(png_dimensions(b"not png").is_err());
}

#[test]
fn state_partial_path_stays_beside_the_destination() {
    let partial = partial_name("slot.m64p", 7, 9);
    assert_ne!(partial, "slot.m64p");
    assert!(!partial.contains('/'));
    assert!(partial.contains(".slot.m64p.partial."));
    assert_eq!(partial, ".slot.m64p.partial.7.9");
}

#[test]
fn native_operation_result_classifies_terminal_callback_values() {
    operation_result(1, "test operation").unwrap();
    assert!(matches!(
        operation_result(0, "test operation"),
        Err(N64Error::BadState(_))
    ));
    assert!(matches!(
        operation_result(-1, "test operation"),
        Err(N64Error::BadState(_))
    ));
}

fn frozen_host(frame_paused: bool) -> HostState {
    HostState {
        frozen: true,
        frame_paused,
        frame_clock_synchronized: true,
    }
}

#[test]
fn a_frame_step_ends_frozen_at_the_frame_that_it_counted() {
    let step = FrameStep::begin(
        &j("{\"frames\":1}"),
        FrameGateTrigger::NextFrame,
        frozen_host(false),
        Ok(()),
        10,
    )
    .unwrap();
    let (step, action) = step.advance(FrameEvent::Sampled {
        frame_count: 10,
        update_count: 4,
    });
    assert!(matches!(action, FrameAction::Arm(FrameGateTrigger::NextFrame)));
    let (step, action) = step.advance(FrameEvent::Armed(Ok(())));
    assert!(matches!(action, FrameAction::SetRunning));
    let (step, action) = step.advance(FrameEvent::RunStateSet(0));
    assert!(matches!(action, FrameAction::DebugStep));
    let (step, action) = step.advance(FrameEvent::Stepped(0));
    assert!(matches!(action, FrameAction::Await { after_update: 4 }));
    let (step, action) = step.advance(FrameEvent::FrameSeen(11));
    assert!(matches!(action, FrameAction::Observe));
    let (step, action) = step.advance(FrameEvent::Observed {
        pc: 0x8000_0000,
        vi_count: 3,
    });
    match action {
        FrameAction::Finish(Ok(report)) => {
            let report = to_value(&report);
            assert_eq!(report["status"], "completed");
            assert_eq!(report["frame"], 11);
        }
        other => panic!("{other:?}"),
    }
    assert!(step.host.frozen);
    assert!(step.host.frame_paused);
}

#[test]
fn a_frame_step_that_loses_its_frame_recovers_at_a_debugger_boundary() {
    let step = FrameStep::begin(
        &j("{}"),
        FrameGateTrigger::NextFrame,
        frozen_host(true),
        Ok(()),
        10,
    )
    .unwrap();
    let (step, _) = step.advance(FrameEvent::Sampled {
        frame_count: 10,
        update_count: 4,
    });
    let (step, action) = step.advance(FrameEvent::Armed(Ok(())));
    assert!(matches!(action, FrameAction::Release));
    let (step, action) = step.advance(FrameEvent::Released(Ok(())));
    assert!(matches!(action, FrameAction::Await { after_update: 4 }));
    let (step, action) = step.advance(FrameEvent::WaitFailed(N64Error::Timeout("late".into())));
    assert!(matches!(action, FrameAction::Recover));
    let (_, action) = step.advance(FrameEvent::Recovered(Ok(())));
    assert!(matches!(
        action,
        FrameAction::Finish(Err(N64Error::Timeout(_)))
    ));
}

#[test]
fn an_instruction_step_counts_debugger_updates() {
    let (step, action) = match InstructionStep::begin(
        &j("{\"count\":1}"),
        frozen_host(false),
        Ok(()),
        20,
    ) {
        Ok(begun) => begun,
        Err(error) => panic!("{}", error.message()),
    };
    assert!(matches!(action, StepAction::DebugStep));
    let (step, action) = step.advance(StepEvent::Stepped(0));
    assert!(matches!(action, StepAction::AwaitUpdate { at_least: 21 }));
    let (step, action) = step.advance(StepEvent::Awaited(Ok(())));
    assert!(matches!(action, StepAction::Drain));
    let (step, action) = step.advance(StepEvent::Drained(Ok(None)));
    assert!(matches!(action, StepAction::Observe));
    let (_, action) = step.advance(StepEvent::Observed {
        pc: 0x8000_0004,
        frame: 2,
        vi_count: 3,
    });
    match action {
        StepAction::Finish(Ok(report)) => {
            let report = to_value(&report);
            assert_eq!(report["status"], "completed");
            assert_eq!(report["pc"], 0x8000_0004u32);
        }
        other => panic!("{other:?}"),
    }
    assert!(InstructionStep::begin(
        &j("{\"count\":5001}"),
        frozen_host(false),
        Ok(()),
        20
    )
    .is_err());
}

#[test]
fn a_trigger_is_recorded_once_for_the_breakpoint_it_belongs_to() {
    let mut table = BreakpointTable::new();
    let params = j("{\"kind\":\"exec\",\"start\":\"0x80000100\"}");
    let spec = table.accept(&params).unwrap();
    let id = match table.arm(spec, 0, 0, 1) {
        ArmOutcome::Entered(id) => id,
        other => panic!("{other:?}"),
    };
    let report = match table.conclude_arm(id, 1, &[0]) {
        Ok(report) => to_value(&report),
        Err((_, error)) => panic!("{}", error.message()),
    };
    assert_eq!(report["id"], id);
    assert_eq!(report["set"], true);
    assert!(table.accept(&params).is_err());

    let trigger = Trigger {
        update: 5,
        flags: BKP_EXEC,
        accessed: 0,
        pc: 0x8000_0100,
    };
    let mut log = HitLog::new();
    assert_eq!(identify(&mut table, trigger).unwrap(), Some(id));
    let event = log
        .record(
            table.get(id).unwrap(),
            trigger,
            Ok(j("{\"cpu\":\"r4300\",\"state\":{\"pc\":2147483904},\"frame\":7}")),
            &[],
        )
        .unwrap();
    assert_eq!(to_value(&event)["regs"]["pc"], 2_147_483_904_u64);
    assert_eq!(to_value(&event)["regs"].as_object().unwrap().len(), 1);
    assert_eq!(to_value(&event)["evidence_complete"], true);
    assert_eq!(to_value(&event)["breakpoint_id"], id);
    assert_eq!(to_value(&event)["hit_seq"], 1);
    let fetched = to_value(&log.fetch(Some(id + 1)));
    assert_eq!(fetched["events"].as_array().unwrap().len(), 0);
    let fetched = to_value(&log.fetch(None));
    assert_eq!(fetched["events"].as_array().unwrap().len(), 1);

    assert!(table.clear(id, 1, 0, 0).is_ok());
    assert!(table.conclude_clear(id, 0, &[]).is_ok());
    assert_eq!(table.len(), 0);
}

#[test]
fn a_debugger_update_is_taken_once_and_tells_of_its_hit() {
    let mut table = BreakpointTable::new();
    let spec = table
        .accept(&j("{\"kind\":\"exec\",\"start\":\"0x80000100\",\"snapshot\":[\"rdram:0x10:2\"]}"))
        .unwrap();
    assert!(matches!(table.arm(spec, 0, 0, 1), ArmOutcome::Entered(1)));
    let mut log = HitLog::new();
    let mut host = RUNNING;
    let hit = DrainEvent::Consumed {
        flags: BKP_EXEC,
        accessed: 0,
        pc: 0x8000_0100,
    };

    let (drain, action) = UpdateDrain::begin(&log, 5);
    assert!(matches!(action, DrainAction::Consume));
    let (drain, action) = drain.advance(hit, &mut log, &mut table, &mut host);
    assert!(matches!(action, DrainAction::AskState));
    assert!(host.frozen);
    assert_eq!(log.last_update_seen, 5);
    let told = DrainEvent::Told(Ok(j("{\"state\":{\"pc\":1}}")));
    let (drain, action) = drain.advance(told, &mut log, &mut table, &mut host);
    match action {
        DrainAction::Capture(ranges) => {
            assert_eq!(ranges.len(), 1);
            assert_eq!((ranges[0].offset, ranges[0].length), (0x10, 2));
        }
        other => panic!("{other:?}"),
    }
    let captured = DrainEvent::Captured(vec![vec![0xab, 0xcd]]);
    let (_, action) = drain.advance(captured, &mut log, &mut table, &mut host);
    match action {
        DrainAction::Finish(Ok(Some(event))) => {
            let event = to_value(&event);
            assert_eq!(event["hit_seq"], 1);
            assert_eq!(event["debug_update_seq"], 5);
            assert_eq!(event["snapshot"][0]["hex"], "abcd");
            assert_eq!(event["regs"]["pc"], 1);
        }
        other => panic!("{other:?}"),
    }
    assert_eq!(log.events.len(), 1);
    assert_eq!(log.next_hit_seq, 2);
    let (_, action) = UpdateDrain::begin(&log, 5);
    assert!(matches!(action, DrainAction::Finish(Ok(None))));
}

#[test]
fn a_debugger_update_without_flags_tells_nothing() {
    let mut table = BreakpointTable::new();
    let mut log = HitLog::new();
    let mut host = RUNNING;
    let quiet = || DrainEvent::Consumed {
        flags: 0,
        accessed: 0,
        pc: 4,
    };
    let (drain, _) = UpdateDrain::begin(&log, 1);
    let (drain, action) = drain.advance(quiet(), &mut log, &mut table, &mut host);
    assert!(matches!(action, DrainAction::Finish(Ok(None))));
    assert!(!host.frozen);
    assert_eq!(log.last_update_seen, 1);
    let (_, action) = drain.advance(quiet(), &mut log, &mut table, &mut host);
    assert!(matches!(action, DrainAction::Finish(Err(_))));

    log.next_hit_seq = u64::MAX;
    let spec = table
        .accept(&j("{\"kind\":\"exec\",\"start\":\"0x80000100\"}"))
        .unwrap();
    assert!(matches!(table.arm(spec, 0, 0, 1), ArmOutcome::Entered(1)));
    let (drain, _) = UpdateDrain::begin(&log, 2);
    let hit = DrainEvent::Consumed {
        flags: BKP_EXEC,
        accessed: 0,
        pc: 0x8000_0100,
    };
    let (_, action) = drain.advance(hit, &mut log, &mut table, &mut host);
    match action {
        DrainAction::Finish(Err(error)) => {
            assert!(error.message().contains("N64 hit sequence is exhausted"))
        }
        other => panic!("{other:?}"),
    }
    assert!(host.frozen);
}

#[test]
fn a_debugger_update_holds_the_machine_only_where_it_tells_of_a_breakpoint() {
    let paused = HostState {
        frozen: false,
        frame_paused: true,
        frame_clock_synchronized: true,
    };
    assert!(!paused.after_update(0).frozen);
    assert!(paused.after_update(0).frame_paused);
    assert!(paused.after_update(BKP_EXEC).frozen);
    assert!(!paused.after_update(BKP_EXEC).frame_paused);
}

#[test]
fn a_trigger_without_a_breakpoint_disarms_the_whole_table() {
    let mut table = BreakpointTable::new();
    let spec = table
        .accept(&j("{\"kind\":\"exec\",\"start\":\"0x80000100\"}"))
        .unwrap();
    assert!(matches!(table.arm(spec, 0, 0, 1), ArmOutcome::Entered(1)));
    let stray = Trigger {
        update: 5,
        flags: BKP_EXEC,
        accessed: 0,
        pc: 0x8000_0200,
    };
    assert!(identify(&mut table, stray).is_err());
    let listed = to_value(&table.list_breakpoints());
    assert_eq!(listed["breakpoints"][0]["arm_state"], "failed");
}

#[test]
fn a_failed_preparation_gives_back_what_it_took_in_reverse_order() {
    let mut preparation = Preparation::new(false);
    assert_eq!(preparation.fail(), vec![]);
    while preparation.step != Step::OpenRom {
        preparation = preparation.succeed();
    }
    assert_eq!(
        preparation.fail(),
        vec![Resource::RunningCore, Resource::CoreLibrary]
    );
    while preparation.step != Step::Done {
        preparation = preparation.succeed();
    }
    let given_back = preparation.fail();
    assert_eq!(given_back.last(), Some(&Resource::CoreLibrary));
    assert!(given_back.contains(&Resource::OpenRom));
    assert!(requested_plugins(true).contains(&PluginKind::Gfx));
    assert!(!requested_plugins(false).contains(&PluginKind::Gfx));
}

#[test]
fn settings_name_the_debugger_and_the_keyboard() {
    assert!(core_settings().iter().any(|s| s.name == "EnableDebugger"));
    assert_eq!(controller_settings(0).len(), 24);
    assert_eq!(controller_settings(1).len(), 5);
    let plan = shutdown_plan(true, false);
    assert!(plan.stop && !plan.unload);
}

#[test]
fn held_buttons_are_released_at_the_end() {
    let held = normalize_buttons(Some(&j("[\"a\",\"z\"]"))).unwrap();
    let keys = closing_keys(&held);
    assert_eq!(keys.len(), 2);
    assert!(keys.iter().all(|key| !key.pressed));
    assert_eq!(to_value(&input_report(&held))["buttons"], parsed("[\"a\",\"z\"]"));

    let none = ButtonSet::new();
    let mut now = ButtonSet::new();
    for change in none.changes_to(&held) {
        assert!(change.pressed);
        now.apply(change);
    }
    assert_eq!(now.names(), held.names());
    assert!(now.changes_to(&held).is_empty());
}

fn press(was_frozen: bool, held: &ButtonSet) -> (Pulse, PulseAction) {
    Pulse::begin(
        &j("{\"buttons\":[\"a\"],\"frames\":2}"),
        AdapterReadiness::Ready,
        held,
        was_frozen,
    )
    .unwrap()
}

#[test]
fn a_press_pauses_presses_steps_releases_and_resumes() {
    let held = normalize_buttons(Some(&j("[\"z\"]"))).unwrap();
    let (press, action) = press(false, &held);
    assert!(matches!(action, PulseAction::Pause));
    let (press, action) = press.advance(PulseEvent::Told(Ok(Json::object())));
    match action {
        PulseAction::SendKey(change) => {
            assert!(change.pressed);
            assert_eq!(Some(change.key), input_key("a"));
        }
        other => panic!("{other:?}"),
    }
    let (press, action) = press.advance(PulseEvent::KeySent(0));
    assert!(matches!(action, PulseAction::Step { frames: 2 }));
    assert_eq!(press.held.names(), ["a", "z"]);
    let stepped = j("{\"status\":\"completed\",\"frame\":9}");
    let (press, action) = press.advance(PulseEvent::Told(Ok(stepped)));
    assert!(matches!(action, PulseAction::SendKey(change) if !change.pressed));
    let (press, action) = press.advance(PulseEvent::KeySent(0));
    assert!(matches!(action, PulseAction::Resume));
    let (press, action) = press.advance(PulseEvent::Told(Ok(Json::object())));
    assert_eq!(press.held.names(), held.names());
    match action {
        PulseAction::Finish(Ok(report)) => {
            let report = to_value(&report);
            assert_eq!(report["frame"], 9);
            assert_eq!(report["state"], "running");
            assert_eq!(report["buttons"], parsed("[\"a\"]"));
            assert_eq!(report["persistent_buttons"], parsed("[\"z\"]"));
        }
        other => panic!("{other:?}"),
    }
}

#[test]
fn a_press_whose_release_fails_stops_the_generation() {
    let (press, action) = press(true, &ButtonSet::new());
    assert!(matches!(action, PulseAction::SendKey(_)));
    let (press, _) = press.advance(PulseEvent::KeySent(0));
    let (press, action) =
        press.advance(PulseEvent::Told(Err(N64Error::Timeout("step".into()))));
    assert!(matches!(action, PulseAction::SendKey(change) if !change.pressed));
    let (_, action) = press.advance(PulseEvent::KeySent(4));
    match action {
        PulseAction::StopGeneration(error) => assert_eq!(
            error.message(),
            "Mupen64Plus input-pulse cleanup did not close safely; the launch generation was \
             stopped: Mupen64Plus SEND_SDL_KEYUP failed with error 4"
        ),
        other => panic!("{other:?}"),
    }
}

#[test]
fn a_press_that_a_breakpoint_interrupts_stays_frozen() {
    let (press, _) = press(false, &ButtonSet::new());
    let (press, _) = press.advance(PulseEvent::Told(Ok(Json::object())));
    let (press, _) = press.advance(PulseEvent::KeySent(0));
    let stepped = j("{\"status\":\"interrupted\",\"breakpoint_id\":3,\"event\":{\"id\":3}}");
    let (press, _) = press.advance(PulseEvent::Told(Ok(stepped)));
    let (_, action) = press.advance(PulseEvent::KeySent(0));
    match action {
        PulseAction::Finish(Ok(report)) => {
            let report = to_value(&report);
            assert_eq!(report["status"], "interrupted");
            assert_eq!(report["breakpoint_id"], 3);
            assert_eq!(report["state"], "frozen");
        }
        other => panic!("{other:?}"),
    }
}

const RUNNING: HostState = HostState {
    frozen: false,
    frame_paused: false,
    frame_clock_synchronized: true,
};

const STANDING: HostState = HostState {
    frozen: true,
    frame_paused: false,
    frame_clock_synchronized: true,
};

const AT_FRAME: HostState = HostState {
    frozen: true,
    frame_paused: true,
    frame_clock_synchronized: true,
};

#[test]
fn a_pause_waits_for_the_debugger_and_tells_a_hit_that_came_first() {
    let (pause, action) =
        Pause::begin(&Json::object(), AdapterReadiness::Ready, RUNNING).unwrap();
    assert!(matches!(action, PauseAction::Drain));
    let hit = PauseEvent::Drained {
        hit: Ok(Some(j("{\"id\":5}"))),
        host: STANDING,
    };
    let (ended, action) = pause.advance(hit);
    assert!(ended.host.frozen);
    assert!(matches!(
        action,
        PauseAction::Finish(Ok(ref report)) if to_value(report)["breakpoint_id"] == 5
    ));

    let (pause, _) = pause.advance(PauseEvent::Drained {
        hit: Ok(None),
        host: RUNNING,
    });
    let (pause, action) = pause.advance(PauseEvent::Looked {
        debugger_paused: false,
        update: 7,
    });
    assert!(matches!(action, PauseAction::SetPaused));
    let (pause, action) = pause.advance(PauseEvent::RunStateSet(0));
    assert!(matches!(action, PauseAction::Await { after_update: 7 }));
    let (pause, action) = pause.advance(PauseEvent::Waited(Ok(())));
    assert!(matches!(action, PauseAction::Observe));
    let (pause, action) = pause.advance(PauseEvent::Observed {
        frame: 1,
        vi_count: 2,
        pc: 3,
    });
    assert!(pause.host.frozen);
    assert!(matches!(
        action,
        PauseAction::Finish(Ok(ref report)) if to_value(report)["vi_count"] == 2
    ));
    assert!(Pause::begin(&Json::object(), AdapterReadiness::Terminated, RUNNING).is_err());
}

#[test]
fn a_resume_lets_go_of_the_barrier_that_holds() {
    let drained = || ResumeEvent::Drained {
        hit: Ok(None),
        host: AT_FRAME,
    };
    let (resume, _) = Resume::begin(&Json::object(), AdapterReadiness::Ready, AT_FRAME).unwrap();
    let (resume, _) = resume.advance(drained());
    let (resume, action) = resume.advance(ResumeEvent::Looked {
        debugger_paused: true,
    });
    assert!(matches!(action, ResumeAction::SetRunning));
    let (resume, action) = resume.advance(ResumeEvent::RunStateSet(0));
    assert!(matches!(action, ResumeAction::ReleaseFrame));
    let (resume, action) =
        resume.advance(ResumeEvent::Released(Err(N64Error::BadState("stuck".into()))));
    assert!(matches!(action, ResumeAction::Recover));
    let (resume, action) = resume.advance(ResumeEvent::Recovered(Ok(())));
    assert!(matches!(action, ResumeAction::Finish(Err(N64Error::BadState(_)))));
    assert_eq!(resume.host, STANDING);

    let (resume, _) = Resume::begin(&Json::object(), AdapterReadiness::Ready, STANDING).unwrap();
    let (resume, _) = resume.advance(ResumeEvent::Drained {
        hit: Ok(None),
        host: STANDING,
    });
    let (resume, _) = resume.advance(ResumeEvent::Looked {
        debugger_paused: true,
    });
    let (resume, action) = resume.advance(ResumeEvent::RunStateSet(0));
    assert!(matches!(action, ResumeAction::DebugStep));
    let (resume, action) = resume.advance(ResumeEvent::Stepped(0));
    assert!(matches!(action, ResumeAction::Finish(Ok(_))));
    assert_eq!(resume.host, RUNNING);
}

#[test]
fn a_run_pauses_steps_and_resumes_unless_a_breakpoint_comes() {
    let (run, action) = FrameRun::begin(&j("{\"n\":4}"), false).unwrap();
    assert!(matches!(action, RunAction::Pause));
    let (run, action) = run.advance(Ok(Json::object()));
    assert!(matches!(action, RunAction::Step { frames: 4 }));
    let (run, action) = run.advance(Ok(j("{\"frame_before\":1,\"frame\":5}")));
    assert!(matches!(action, RunAction::Resume));
    let (_, action) = run.advance(Ok(Json::object()));
    match action {
        RunAction::Finish(Ok(report)) => {
            let report = to_value(&report);
            assert_eq!(report["completed"], 4);
            assert_eq!(report["controlled_segment_end_frame"], 5);
            assert_eq!(report["started_state"], "running");
        }
        other => panic!("{other:?}"),
    }
    let (run, _) = FrameRun::begin(&j("{}"), false).unwrap();
    let (_, action) = run.advance(Ok(j("{\"reason\":\"breakpoint\",\"breakpoint_id\":2}")));
    assert!(matches!(
        action,
        RunAction::Finish(Ok(ref report)) if to_value(report)["completed"] == 0
    ));
    assert!(FrameRun::begin(&j("{\"n\":0}"), true).is_err());
}

#[test]
fn a_reset_from_the_frame_barrier_keeps_buttons_and_breakpoints() {
    let held = normalize_buttons(Some(&j("[\"a\"]"))).unwrap();
    let (reset, action) = Reset::begin(
        &j("{\"hard\":true}"),
        AdapterReadiness::Ready,
        AT_FRAME,
        false,
        true,
        11,
        6,
    )
    .unwrap();
    assert!(matches!(action, ResetAction::SetPaused));
    let (reset, action) = reset.advance(&held, ResetEvent::Answered(0));
    assert!(matches!(action, ResetAction::ReleaseFrame));
    let (reset, action) = reset.advance(&held, ResetEvent::Released(Ok(())));
    assert!(matches!(action, ResetAction::Await { after_update: 11 }));
    let (reset, action) = reset.advance(&held, ResetEvent::Waited(Ok(())));
    assert!(matches!(action, ResetAction::Command { hard: true }));
    assert_eq!(reset.next_sequence, 7);
    let (reset, action) = reset.advance(&held, ResetEvent::Answered(0));
    assert!(matches!(action, ResetAction::SendKey(change) if change.pressed));
    let (reset, action) = reset.advance(&held, ResetEvent::Answered(0));
    assert!(matches!(action, ResetAction::Verify));
    let (reset, action) = reset.advance(&held, ResetEvent::Verified(Ok(())));
    assert!(matches!(action, ResetAction::Settle));
    let (reset, action) = reset.advance(&held, ResetEvent::Settled);
    assert!(matches!(action, ResetAction::Observe));
    assert!(!reset.host.frame_clock_synchronized);
    let (_, action) = reset.advance(&held, ResetEvent::Observed { pc: 9 });
    match action {
        ResetAction::Finish(Ok(report)) => {
            let report = to_value(&report);
            assert_eq!(report["reset_seq"], 6);
            assert_eq!(report["hard"], true);
            assert_eq!(report["state"], "frozen");
        }
        other => panic!("{other:?}"),
    }
}

#[test]
fn a_reset_that_changes_breakpoints_distrusts_them() {
    let none = ButtonSet::new();
    let (reset, action) = Reset::begin(
        &Json::object(),
        AdapterReadiness::Ready,
        STANDING,
        true,
        false,
        0,
        1,
    )
    .unwrap();
    assert!(matches!(action, ResetAction::Command { hard: false }));
    let (reset, _) = reset.advance(&none, ResetEvent::Answered(0));
    let (_, action) = reset.advance(
        &none,
        ResetEvent::Verified(Err(N64Error::BadState("gone".into()))),
    );
    match action {
        ResetAction::Distrust { reason } => {
            assert_eq!(reason, "N64 reset changed native breakpoints: gone")
        }
        other => panic!("{other:?}"),
    }
    let (_, action) = Reset::begin(
        &Json::object(),
        AdapterReadiness::Ready,
        STANDING,
        true,
        false,
        0,
        u64::MAX,
    )
    .unwrap();
    assert!(matches!(action, ResetAction::Finish(Err(N64Error::BadState(_)))));
}

#[test]
fn native_operations_end_by_the_word_of_the_core() {
    let (effect, host, action) = NativeEffect::begin(EffectKind::LoadState, STANDING);
    assert!(!host.frame_clock_synchronized);
    assert!(matches!(action, EffectAction::Command));
    let (effect, action) = effect.advance(EffectEvent::Commanded(0));
    assert!(matches!(
        action,
        EffectAction::Step {
            trigger: FrameGateTrigger::NextFrame
        }
    ));
    let (effect, action) = effect.advance(EffectEvent::Stepped(Ok(Json::object())));
    assert!(matches!(action, EffectAction::Await));
    let (_, action) = effect.advance(EffectEvent::Settled(Some(1)));
    assert!(matches!(action, EffectAction::Proceed { .. }));

    let (effect, _, _) = NativeEffect::begin(EffectKind::Screenshot, STANDING);
    let (effect, _) = effect.advance(EffectEvent::Commanded(0));
    let (effect, _) = effect.advance(EffectEvent::Stepped(Ok(Json::object())));
    let (_, action) = effect.advance(EffectEvent::Settled(None));
    match action {
        EffectAction::StopGeneration(error) => assert_eq!(
            error.message(),
            "Mupen64Plus screenshot did not close safely; the launch generation was stopped: \
             Mupen64Plus screenshot completion timed out"
        ),
        other => panic!("{other:?}"),
    }
    let (effect, _, _) = NativeEffect::begin(EffectKind::SaveState, STANDING);
    let (_, action) = effect.advance(EffectEvent::Commanded(3));
    assert!(matches!(action, EffectAction::Fail(N64Error::Core { code: 3, .. })));
}

#[test]
fn empty_states_are_discarded_and_written_ones_published() {
    let stepped = j("{\"frame\":2}");
    let (stage, _) = PublishStage::begin();
    let (_, action) = stage.advance("/s", 1, &stepped, PublishEvent::Measured(Ok(0)));
    assert!(matches!(action, PublishAction::Discard(N64Error::BadState(_))));
    let (stage, action) = stage.advance("/s", 1, &stepped, PublishEvent::Measured(Ok(3)));
    assert!(matches!(action, PublishAction::Publish));
    let (stage, action) = stage.advance("/s", 1, &stepped, PublishEvent::Published(Ok(())));
    assert!(matches!(action, PublishAction::DropPartial));
    let (stage, action) = stage.advance("/s", 1, &stepped, PublishEvent::Dropped(Ok(())));
    assert!(matches!(action, PublishAction::ReadBack));
    let (_, action) = stage.advance("/s", 1, &stepped, PublishEvent::Read(Ok(b"abc".to_vec())));
    match action {
        PublishAction::Finish(report) => assert_eq!(to_value(&report)["bytes"], 3),
        other => panic!("{other:?}"),
    }
}

#[test]
fn memory_requests_are_bounded_and_hex_is_lower_case() {
    let access = check_read(&j("{\"address\":16,\"length\":2}")).unwrap();
    assert_eq!(access.address, RDRAM_BASE + 16);
    let report = to_value(&read_report(access, &[0x0a, 0xff]));
    assert_eq!(report["hex"], "0aff");
    let (access, data) = check_write(&j("{\"address\":16,\"hex\":\"0AFF\"}")).unwrap();
    assert_eq!(access.length, 2);
    assert_eq!(data, vec![0x0a, 0xff]);
    assert!(check_read(&j("{\"address\":0,\"length\":16385}")).is_err());
    assert!(check_write(&j("{\"address\":0,\"hex\":\"0\"}")).is_err());
}

#[test]
fn saved_states_are_told_with_their_digest() {
    let report = to_value(&saved_report("/s", b"abc", 3, &j("{\"frame\":4}")));
    assert_eq!(
        report["sha256"],
        "ba7816bf8f01cfea414140de5dae2223b00361a396177a9cb410ff61f20015ad"
    );
    let rom = to_value(&rom_report("a.Z64", "/roms/a.Z64", &"ab".repeat(20), 3, "Z64"));
    assert_eq!(rom["media_type"], "z64");
    assert_eq!(rom["sha1"].as_str().unwrap().len(), 40);
}

#[test]
fn errors_have_their_wire_kinds() {
    let stopped = generation_stopped("step", &N64Error::Timeout("late".into()));
    assert_eq!(error_kind(&stopped), "emulator_error");
    assert_eq!(error_kind(&N64Error::BadParams("x".into())), "bad_params");
    assert_eq!(error_kind(&N64Error::BadState("x".into())), "bad_state");
    assert_eq!(error_kind(&N64Error::Unsupported("x".into())), "unsupported");
    assert_eq!(error_kind(&N64Error::Timeout("x".into())), "emulator_error");
    let response = respond(3, Err(N64Error::BadState("no".into())));
    assert_eq!(response.id, 3);
    assert!(!response.ok);
    assert!(matches!(route("call_stack", false), Ok(Operation::CallStack)));
    assert!(require_frozen("read", AdapterReadiness::Ready, false).is_err());
    assert!(require_frozen("read", AdapterReadiness::Ready, true).is_ok());
}
