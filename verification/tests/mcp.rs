use emucap::json::Json;
use emucap::live::link::LinkError;
use emucap::live::tools::ToolOutput;
use emucap::mcp_result::{
    boolean_outcome_result, error_result, json_result, link_error_result, tool_output_result,
    ToolResult,
};
use emucap::mcp_stdio::{
    message_bytes, missing_data, oversized_message, BoundedLine, Gate, LineReader, Verdict,
    MAX_MCP_STDIN_LINE_BYTES,
};
use rmcp::model::{CallToolResult, ContentBlock};
use serde_json::Value;

fn from_value(value: &Value) -> Json {
    match value {
        Value::Null => Json::Null,
        Value::Bool(b) => Json::Bool(*b),
        Value::Number(n) => {
            if let Some(u) = n.as_u64() {
                Json::Unsigned(u)
            } else if let Some(i) = n.as_i64() {
                Json::Negative(i)
            } else {
                Json::Float(n.to_string())
            }
        }
        Value::String(s) => Json::Str(s.clone()),
        Value::Array(items) => Json::Array(items.iter().map(from_value).collect()),
        Value::Object(fields) => Json::Object(
            fields
                .iter()
                .map(|(key, value)| (key.clone(), from_value(value)))
                .collect(),
        ),
    }
}

fn to_value(value: &Json) -> Value {
    match value {
        Json::Null => Value::Null,
        Json::Bool(b) => Value::Bool(*b),
        Json::Unsigned(n) => Value::from(*n),
        Json::Negative(n) => Value::from(*n),
        Json::Float(number) => serde_json::from_str(number).unwrap(),
        Json::Str(s) => Value::String(s.clone()),
        Json::Array(items) => Value::Array(items.iter().map(to_value).collect()),
        Json::Object(fields) => Value::Object(
            fields
                .iter()
                .map(|(key, value)| (key.clone(), to_value(value)))
                .collect(),
        ),
    }
}

fn parsed(text: &str) -> Value {
    serde_json::from_str(text).unwrap()
}

fn j(text: &str) -> Json {
    from_value(&parsed(text))
}

fn published(result: &ToolResult) -> CallToolResult {
    let value = to_value(&result.structured);
    let mut answer = if result.is_error {
        CallToolResult::structured_error(value)
    } else {
        CallToolResult::structured(value)
    };
    if let Some(png) = &result.png_base64 {
        answer
            .content
            .insert(0, ContentBlock::image(png.clone(), "image/png"));
    }
    answer
}

#[test]
fn json_results_keep_text_compatibility_and_add_structured_content() {
    let value = parsed("{\"ok\":true,\"count\":3}");
    let result = published(&json_result(from_value(&value)));

    assert_eq!(result.structured_content, Some(value.clone()));
    assert_eq!(result.content.len(), 1);
    let serialized = value.to_string();
    assert_eq!(
        result.content[0].as_text().map(|text| text.text.as_str()),
        Some(serialized.as_str())
    );
    assert_eq!(result.is_error, Some(false));
}

#[test]
fn link_errors_preserve_the_adapter_error_code() {
    let result = published(&link_error_result(LinkError::Emulator {
        kind: "bad_params".into(),
        message: "invalid range".into(),
    }));

    assert_eq!(result.is_error, Some(true));
    assert_eq!(
        result.structured_content.as_ref().unwrap()["error"]["code"],
        "bad_params"
    );
    let own = link_error_result(LinkError::Timeout);
    assert_eq!(to_value(&own.structured)["error"]["code"], "timeout");
}

#[test]
fn explicit_false_outcomes_are_tool_errors_without_losing_diagnostics() {
    let diagnostics = parsed(
        "{\"launched\":false,\"reason\":\"binary missing\",\"next_action\":\"build the adapter\"}",
    );
    let result = published(&boolean_outcome_result(
        from_value(&diagnostics),
        "launched",
    ));

    assert_eq!(result.is_error, Some(true));
    assert_eq!(result.structured_content, Some(diagnostics));
}

#[test]
fn explicit_true_outcomes_remain_successful() {
    let result = published(&boolean_outcome_result(j("{\"stopped\":true}"), "stopped"));
    assert_eq!(result.is_error, Some(false));
    assert!(!boolean_outcome_result(j("{}"), "stopped").is_error);
}

#[test]
fn images_publish_machine_readable_metadata_after_the_image_block() {
    let result = published(&tool_output_result(ToolOutput::Image {
        png_base64: "QUJD".into(),
        saved_path: Some("/tmp/shot.png".into()),
        provenance: j("{\"sha256\":\"abc\",\"byte_len\":3}"),
    }));

    assert!(result
        .content
        .first()
        .and_then(|block| block.as_image())
        .is_some());
    let metadata = result.structured_content.unwrap();
    assert_eq!(metadata["kind"], "image");
    assert_eq!(metadata["saved_path"], "/tmp/shot.png");
    assert_eq!(metadata["provenance"]["sha256"], "abc");
}

#[test]
fn error_results_name_their_code_and_message() {
    let result = error_result("bad", "why");
    assert!(result.is_error);
    assert_eq!(
        to_value(&result.structured),
        parsed("{\"ok\":false,\"error\":{\"code\":\"bad\",\"message\":\"why\"}}")
    );
}

fn discover(id: u64) -> String {
    format!(
        "{{\"jsonrpc\":\"2.0\",\"id\":{id},\"method\":\"server/discover\",\"params\":{{\"_meta\":{{\"io.modelcontextprotocol/protocolVersion\":\"2026-07-28\",\"io.modelcontextprotocol/clientInfo\":{{\"name\":\"bounded-stdio-test\",\"version\":\"1\"}},\"io.modelcontextprotocol/clientCapabilities\":{{}}}}}}}}"
    )
}

fn lines_of(input: &[u8], chunk: usize) -> Vec<BoundedLine> {
    let mut reader = LineReader::new();
    let mut lines = Vec::new();
    for piece in input.chunks(chunk) {
        let mut rest = piece;
        while !rest.is_empty() {
            let (taken, line) = reader.feed(rest);
            rest = &rest[taken..];
            lines.extend(line);
        }
    }
    lines.push(reader.end());
    lines
}

#[test]
fn malformed_first_request_is_rejected_before_valid_discover_is_admitted() {
    let input = format!(
        "{{\"jsonrpc\":\"2.0\",\"id\":1,\"method\":\"server/discover\",\"params\":{{}}}}\n{}\n",
        discover(2)
    );
    let mut barrier = Gate::new();
    let mut verdicts = Vec::new();
    for line in lines_of(input.as_bytes(), 64) {
        if let BoundedLine::Line(bytes) = line {
            let raw: Value = serde_json::from_slice(&message_bytes(&bytes)).unwrap();
            verdicts.push((
                raw["id"].clone(),
                barrier.admit_initial(true, &from_value(&raw)),
            ));
        }
    }
    assert_eq!(verdicts.len(), 2);
    assert_eq!(verdicts[0].0, 1);
    match &verdicts[0].1 {
        Verdict::Reject { message, missing } => {
            assert_eq!(message, "Missing required modern MCP request metadata");
            assert_eq!(
                to_value(&missing_data(missing))["missing"],
                parsed("[\"io.modelcontextprotocol/protocolVersion\",\"io.modelcontextprotocol/clientCapabilities\"]")
            );
        }
        other => panic!("{other:?}"),
    }
    assert_eq!(verdicts[1].0, 2);
    assert!(matches!(verdicts[1].1, Verdict::Pass));
    assert!(barrier.admitted);
}

#[test]
fn oversized_first_line_is_bounded_and_next_request_is_admitted() {
    let mut input = vec![b'x'; MAX_MCP_STDIN_LINE_BYTES + 1];
    input.push(b'\n');
    input.extend_from_slice(format!("{}\n", discover(3)).as_bytes());
    for chunk in [4096, input.len()] {
        let lines = lines_of(&input, chunk);
        assert_eq!(lines.len(), 3);
        assert!(matches!(lines[0], BoundedLine::Oversized));
        match &lines[1] {
            BoundedLine::Line(bytes) => {
                let raw: Value = serde_json::from_slice(bytes).unwrap();
                let verdict = Gate::new().admit_initial(true, &from_value(&raw));
                assert!(matches!(verdict, Verdict::Pass));
            }
            other => panic!("{other:?}"),
        }
        assert!(matches!(lines[2], BoundedLine::Eof));
    }
    assert!(oversized_message().contains("1048576-byte limit"));
}

#[test]
fn a_line_of_exactly_the_bound_is_whole_in_any_pieces() {
    let mut input = vec![b'x'; MAX_MCP_STDIN_LINE_BYTES];
    input.push(b'\n');
    for chunk in [1000, input.len()] {
        match &lines_of(&input, chunk)[0] {
            BoundedLine::Line(bytes) => assert_eq!(bytes.len(), MAX_MCP_STDIN_LINE_BYTES),
            other => panic!("{other:?}"),
        }
    }
}

#[test]
fn an_unfinished_line_is_dropped_at_the_end() {
    assert!(matches!(lines_of(b"abc", 2)[..], [BoundedLine::Eof]));
    let long = vec![b'x'; MAX_MCP_STDIN_LINE_BYTES + 1];
    assert!(matches!(lines_of(&long, 4096)[..], [BoundedLine::Oversized]));
}

#[test]
fn messages_lose_the_mark_and_the_carriage_return() {
    assert_eq!(message_bytes(b"\xEF\xBB\xBF{}\r"), b"{}");
    assert_eq!(message_bytes(b"{}"), b"{}");
    assert_eq!(message_bytes(b"\r"), b"");
    assert_eq!(message_bytes(b""), b"");
}

#[test]
fn pings_pass_without_admission_and_notifications_do_not() {
    let mut barrier = Gate::new();
    assert!(matches!(
        barrier.admit_initial(true, &j("{\"method\":\"ping\"}")),
        Verdict::Pass
    ));
    assert!(!barrier.admitted);
    match barrier.admit_initial(false, &j("{\"method\":\"initialized\"}")) {
        Verdict::Reject { message, missing } => {
            assert_eq!(message, "Expected an initialize, ping, or modern request");
            assert!(missing.is_empty());
        }
        other => panic!("{other:?}"),
    }
    assert!(!barrier.admitted);
    assert!(matches!(
        barrier.admit_initial(true, &j("{\"method\":\"initialize\"}")),
        Verdict::Pass
    ));
    assert!(barrier.admitted);
    assert!(matches!(
        barrier.admit_initial(false, &j("{}")),
        Verdict::Pass
    ));
}
