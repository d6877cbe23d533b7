//! What a tool call is answered with.

use vstd::prelude::*;
use crate::json;
use crate::json::{Json, JsonView};
use crate::live::link::{LinkError, LinkErrorView};
use crate::live::tools::ToolOutput;

verus! {

/// The answer to a tool call: a structured value, whether it tells of an error, and a picture that
/// stands before it.
#[derive(Debug)]
pub struct ToolResult {
    pub structured: Json,
    pub is_error: bool,
    pub png_base64: Option<String>,
}

/// What an answer holds.
pub struct ToolResultView {
    pub structured: JsonView,
    pub is_error: bool,
    pub png_base64: Option<Seq<char>>,
}

impl View for ToolResult {
    type V = ToolResultView;

    open spec fn view(&self) -> ToolResultView {
        ToolResultView {
            structured: self.structured@,
            is_error: self.is_error,
            png_base64: match self.png_base64 {
                Some(s) => Some(s@),
                None => None,
            },
        }
    }
}

/// The answer that gives a value.
pub open spec fn success(value: JsonView) -> ToolResultView {
    ToolResultView { structured: value, is_error: false, png_base64: None }
}

/// The answer that tells of an error.
pub open spec fn failure(value: JsonView) -> ToolResultView {
    ToolResultView { structured: value, is_error: true, png_base64: None }
}

/// The answer that gives a value.
pub fn json_result(value: Json) -> (r: ToolResult)
    ensures
        r@ == success(value@),
{
    ToolResult { structured: value, is_error: false, png_base64: None }
}

/// The answer that gives a value, as an error where the value itself says that what was asked for
/// did not happen. The value is kept as it is, so that nothing of the diagnosis is lost.
pub fn boolean_outcome_result(value: Json, success_field: &str) -> (r: ToolResult)
    ensures
        r@ == (if value@.truth_field(success_field@) == Some(false) {
            failure(value@)
        } else {
            success(value@)
        }),
{
    let is_error = match value.get_bool(success_field) {
        Some(flag) => !flag,
        None => false,
    };
    ToolResult { structured: value, is_error, png_base64: None }
}

/// The value of an error.
pub open spec fn error_value(code: Seq<char>, message: Seq<char>) -> JsonView {
    JsonView::object().with("ok"@, JsonView::Bool(false)).with(
        "error"@,
        JsonView::object().with("code"@, JsonView::Str(code)).with(
            "message"@,
            JsonView::Str(message),
        ),
    )
}

/// The answer that tells of an error.
pub fn error_result(code: &str, message: &str) -> (r: ToolResult)
    ensures
        r@ == failure(error_value(code@, message@)),
{
    let error = Json::object().with("code", Json::text(code)).with("message", Json::text(message));
    ToolResult {
        structured: Json::object().with("ok", Json::Bool(false)).with("error", error),
        is_error: true,
        png_base64: None,
    }
}

/// The code of an error of the link: that of the adapter, where the adapter told one.
pub open spec fn link_code(error: LinkErrorView) -> Seq<char> {
    match error {
        LinkErrorView::Emulator { kind, .. } => kind,
        other => other.class(),
    }
}

/// The answer that tells of an error of the link.
pub fn link_error_result(error: LinkError) -> (r: ToolResult)
    ensures
        r@ == failure(error_value(link_code(error@), error@.sentence())),
{
    let message = error.message();
    match &error {
        LinkError::Emulator { kind, .. } => error_result(kind.as_str(), message.as_str()),
        _ => error_result(error.kind(), message.as_str()),
    }
}

/// What is told of a picture.
pub open spec fn picture_value(saved_path: Option<String>, provenance: JsonView) -> JsonView {
    JsonView::object().with("kind"@, JsonView::Str("image"@)).with(
        "mime_type"@,
        JsonView::Str("image/png"@),
    ).with(
        "saved_path"@,
        json::text_or_null(
            match saved_path {
                Some(path) => Some(path@),
                None => None,
            },
        ),
    ).with("provenance"@, provenance)
}

/// The answer that gives what a tool returned.
pub open spec fn output_answer(output: ToolOutput) -> ToolResultView {
    match output {
        ToolOutput::Json(value) => success(value@),
        ToolOutput::Image { png_base64, saved_path, provenance } => ToolResultView {
            structured: picture_value(saved_path, provenance@),
            is_error: false,
            png_base64: Some(png_base64@),
        },
    }
}

/// The answer that gives what a tool returned. The picture, where there is one, comes first.
pub fn tool_output_result(output: ToolOutput) -> (r: ToolResult)
    ensures
        r@ == output_answer(output),
{
    match output {
        ToolOutput::Json(value) => json_result(value),
        ToolOutput::Image { png_base64, saved_path, provenance } => {
            let path = match &saved_path {
                Some(path) => Json::text(path.as_str()),
                None => Json::Null,
            };
            let metadata = Json::object().with("kind", Json::text("image")).with(
                "mime_type",
                Json::text("image/png"),
            ).with("saved_path", path).with("provenance", provenance);
            ToolResult { structured: metadata, is_error: false, png_base64: Some(png_base64) }
        },
    }
}

} // verus!
