//! Saving a state with a receipt: the save counts for a recording only where the runtime is the
//! one that is bound, the machine was frozen, and the saved file was taken into the store.

use vstd::prelude::*;
use crate::json::{Json, JsonView};
use crate::live::link;
use crate::live::link::{LinkError, LinkErrorView};
use crate::live::tools;
use crate::text;

verus! {

/// What is known before a state is saved for a recording.
#[derive(Debug)]
pub struct ReceiptRequest {
    pub recording_advertised: bool,
    pub state_load_advertised: bool,
    pub port: Option<u16>,
    pub path: String,
    pub path_is_absolute: bool,
    pub launch_id: Option<String>,
    pub content: Option<String>,
}

/// The runtime that a store knows of.
#[derive(Debug)]
pub struct RuntimeGeneration {
    pub launch_id: String,
    pub content: String,
}

/// Where between two instructions or frames a state was saved.
#[derive(Debug, Clone, Copy, PartialEq, Eq, Structural)]
pub enum SnapshotBoundary {
    FrameBoundary,
    InstructionBoundary,
}

/// Where the saving stands.
#[derive(Debug)]
pub enum ReceiptStage {
    Reading,
    Binding,
    Saving,
    Acquiring(Json),
    Preserving(Json),
    Ended,
}

/// What to do next.
#[derive(Debug)]
pub enum ReceiptAction {
    /// Read the generation that the store holds for a port.
    ReadCurrent { port: u16 },
    /// Make the identity of the source out of what is bound.
    BindSource,
    /// Call `save_state` with these parameters.
    Save { params: Json },
    /// Take the saved file into hand.
    Acquire,
    /// Keep the state with a frame and a boundary.
    Preserve { frame: u64, boundary: SnapshotBoundary },
    /// Give this result.
    Finish { result: Json },
    /// Give this error.
    Refuse { error: LinkError },
}

/// What came of an action.
#[derive(Debug)]
pub enum ReceiptEvent {
    Current(Result<Option<RuntimeGeneration>, String>),
    Bound(Result<(), String>),
    Saved(Result<Json, LinkError>),
    Acquired(Result<(), String>),
    Preserved(Result<Json, String>),
}

/// A protocol error.
pub open spec fn fault(message: Seq<char>) -> Option<LinkErrorView> {
    Some(LinkErrorView::Protocol(message))
}

/// Why a state cannot be saved with a receipt, before anything is read.
pub open spec fn request_fault(request: ReceiptRequest) -> Option<LinkErrorView> {
    if !request.recording_advertised {
        fault("recording is not advertised by this runtime"@)
    } else if !request.state_load_advertised {
        fault("state-backed recording is not advertised"@)
    } else if request.port is None {
        fault("a managed direct runtime is required for a recording receipt"@)
    } else if !request.path_is_absolute {
        fault("save_state requires an absolute path for a producer-managed snapshot receipt"@)
    } else {
        None
    }
}

/// Why the generation that a store holds is not the one that is bound.
pub open spec fn generation_fault(
    request: ReceiptRequest,
    current: Result<Option<RuntimeGeneration>, String>,
) -> Option<LinkErrorView> {
    match current {
        Err(m) => fault("runtime identity read failed: "@ + m@),
        Ok(None) => fault("runtime generation is missing"@),
        Ok(Some(g)) => if link::optional_text(request.launch_id) != Some(g.launch_id@)
            || link::optional_text(request.content) != Some(g.content@) {
            fault("save_state receipt requires an exactly bound live generation"@)
        } else {
            None
        },
    }
}

/// The boundary that a reply names.
pub open spec fn boundary_of(reply: JsonView) -> Option<SnapshotBoundary> {
    match reply.text_field("boundary"@) {
        Some(s) => if s == "frame_boundary"@ {
            Some(SnapshotBoundary::FrameBoundary)
        } else if s == "instruction_boundary"@ {
            Some(SnapshotBoundary::InstructionBoundary)
        } else {
            None
        },
        None => None,
    }
}

/// Why the saved file of a reply cannot be kept.
pub open spec fn acquired_fault(reply: JsonView, acquired: Result<(), String>) -> Option<
    LinkErrorView,
> {
    match acquired {
        Err(m) => fault(
            "save_state completed but its exact receipt could not be acquired: "@ + m@,
        ),
        Ok(()) => if reply.unsigned_field("frame"@) is None {
            fault("frozen save_state response lacks its frame"@)
        } else if boundary_of(reply) is None {
            fault("frozen save_state response lacks its boundary kind"@)
        } else {
            None
        },
    }
}

/// A refusal of the given fault.
pub open spec fn refuses(r: (ReceiptStage, ReceiptAction), error: LinkErrorView) -> bool {
    &&& r.0 is Ended
    &&& r.1 matches ReceiptAction::Refuse { error: e } && e@ == error
}

/// What follows an event, in the stage that waits for it.
pub open spec fn follows(
    stage: ReceiptStage,
    request: ReceiptRequest,
    event: ReceiptEvent,
    r: (ReceiptStage, ReceiptAction),
) -> bool {
    match (stage, event) {
        (ReceiptStage::Reading, ReceiptEvent::Current(current)) => match generation_fault(
            request,
            current,
        ) {
            Some(e) => refuses(r, e),
            None => r.0 is Binding && r.1 is BindSource,
        },
        (ReceiptStage::Binding, ReceiptEvent::Bound(bound)) => match bound {
            Err(m) => refuses(r, LinkErrorView::Protocol("runtime identity failed: "@ + m@)),
            Ok(()) => r.0 is Saving && (r.1 matches ReceiptAction::Save { params } && params@
                == tools::path_params(request.path@)),
        },
        (ReceiptStage::Saving, ReceiptEvent::Saved(saved)) => match saved {
            Err(e) => refuses(r, e@),
            Ok(reply) => if reply@.text_field("state"@) != Some("frozen"@) {
                refuses(
                    r,
                    LinkErrorView::Protocol(
                        "save_state did not prove the frozen state required for a recording receipt"@,
                    ),
                )
            } else {
                (r.0 matches ReceiptStage::Acquiring(kept) && kept@ == reply@) && r.1 is Acquire
            },
        },
        (ReceiptStage::Acquiring(reply), ReceiptEvent::Acquired(acquired)) => match acquired_fault(
            reply@,
            acquired,
        ) {
            Some(e) => refuses(r, e),
            None => (r.0 matches ReceiptStage::Preserving(kept) && kept@ == reply@) && (
            r.1 matches ReceiptAction::Preserve { frame, boundary } && Some(frame)
                == reply@.unsigned_field("frame"@) && Some(boundary) == boundary_of(reply@)),
        },
        (ReceiptStage::Preserving(reply), ReceiptEvent::Preserved(preserved)) => match preserved {
            Err(m) => refuses(
                r,
                LinkErrorView::Protocol(
                    "save_state completed but its managed receipt could not be preserved: "@ + m@,
                ),
            ),
            Ok(receipt) => r.0 is Ended && (r.1 matches ReceiptAction::Finish { result } && result@
                == reply@.put("snapshot_receipt"@, receipt@)),
        },
        _ => refuses(r, LinkErrorView::Protocol("save_state receipt step out of order"@)),
    }
}

fn refuse(message: &str) -> (r: (ReceiptStage, ReceiptAction))
    ensures
        refuses(r, LinkErrorView::Protocol(message@)),
{
    (ReceiptStage::Ended, ReceiptAction::Refuse { error: LinkError::protocol(message) })
}

fn same_text(known: &Option<String>, s: &str) -> (r: bool)
    ensures
        r == (link::optional_text(*known) == Some(s@)),
{
    match known {
        Some(k) => text::same(k.as_str(), s),
        None => false,
    }
}

fn read_boundary(reply: &Json) -> (r: Option<SnapshotBoundary>)
    ensures
        r == boundary_of(reply@),
{
    match reply.get_str("boundary") {
        Some(s) => if text::same(s, "frame_boundary") {
            Some(SnapshotBoundary::FrameBoundary)
        } else if text::same(s, "instruction_boundary") {
            Some(SnapshotBoundary::InstructionBoundary)
        } else {
            None
        },
        None => None,
    }
}

impl ReceiptStage {
    /// Starts saving a state with a receipt.
    pub fn begin(request: &ReceiptRequest) -> (r: (ReceiptStage, ReceiptAction))
        ensures
            match request_fault(*request) {
                Some(e) => refuses(r, e),
                None => r.0 is Reading && (r.1 matches ReceiptAction::ReadCurrent { port }
                    && Some(port) == request.port),
            },
    {
        if !request.recording_advertised {
            return refuse("recording is not advertised by this runtime");
        }
        if !request.state_load_advertised {
            return refuse("state-backed recording is not advertised");
        }
        let port: u16 = match request.port {
            Some(port) => port,
            None => {
                return refuse("a managed direct runtime is required for a recording receipt");
            },
        };
        if !request.path_is_absolute {
            return refuse(
                "save_state requires an absolute path for a producer-managed snapshot receipt",
            );
        }
        (ReceiptStage::Reading, ReceiptAction::ReadCurrent { port })
    }

    /// Goes on after an event.
    pub fn advance(self, request: &ReceiptRequest, event: ReceiptEvent) -> (r: (
        ReceiptStage,
        ReceiptAction,
    ))
        ensures
            follows(self, *request, event, r),
    {
        match (self, event) {
            (ReceiptStage::Reading, ReceiptEvent::Current(current)) => match current {
                Err(m) => refuse(text::join("runtime identity read failed: ", m.as_str()).as_str()),
                Ok(None) => refuse("runtime generation is missing"),
                Ok(Some(g)) => if !same_text(&request.launch_id, g.launch_id.as_str()) || !same_text(
                    &request.content,
                    g.content.as_str(),
                ) {
                    refuse("save_state receipt requires an exactly bound live generation")
                } else {
                    (ReceiptStage::Binding, ReceiptAction::BindSource)
                },
            },
            (ReceiptStage::Binding, ReceiptEvent::Bound(bound)) => match bound {
                Err(m) => refuse(text::join("runtime identity failed: ", m.as_str()).as_str()),
                Ok(()) => (
                    ReceiptStage::Saving,
                    ReceiptAction::Save {
                        params: Json::object().with("path", Json::text(request.path.as_str())),
                    },
                ),
            },
            (ReceiptStage::Saving, ReceiptEvent::Saved(saved)) => match saved {
                Err(error) => (ReceiptStage::Ended, ReceiptAction::Refuse { error }),
                Ok(reply) => {
                    let frozen = match reply.get_str("state") {
                        Some(s) => text::same(s, "frozen"),
                        None => false,
                    };
                    if !frozen {
                        refuse(
                            "save_state did not prove the frozen state required for a recording receipt",
                        )
                    } else {
                        (ReceiptStage::Acquiring(reply), ReceiptAction::Acquire)
                    }
                },
            },
            (ReceiptStage::Acquiring(reply), ReceiptEvent::Acquired(acquired)) => {
                if let Err(m) = acquired {
                    return refuse(
                        text::join(
                            "save_state completed but its exact receipt could not be acquired: ",
                            m.as_str(),
                        ).as_str(),
                    );
                }
                let frame: u64 = match reply.get_u64("frame") {
                    Some(frame) => frame,
                    None => {
                        return refuse("frozen save_state response lacks its frame");
                    },
                };
                match read_boundary(&reply) {
                    Some(boundary) => (
                        ReceiptStage::Preserving(reply),
                        ReceiptAction::Preserve { frame, boundary },
                    ),
                    None => refuse("frozen save_state response lacks its boundary kind"),
                }
            },
            (ReceiptStage::Preserving(reply), ReceiptEvent::Preserved(preserved)) => match preserved {
                Err(m) => refuse(
                    text::join(
                        "save_state completed but its managed receipt could not be preserved: ",
                        m.as_str(),
                    ).as_str(),
                ),
                Ok(receipt) => (
                    ReceiptStage::Ended,
                    ReceiptAction::Finish { result: reply.put("snapshot_receipt", receipt) },
                ),
            },
            _ => refuse("save_state receipt step out of order"),
        }
    }
}

/// What holds of the reply that a stage keeps.
pub open spec fn is_proven(stage: ReceiptStage) -> bool {
    match stage {
        ReceiptStage::Acquiring(reply) => reply@.text_field("state"@) == Some("frozen"@),
        ReceiptStage::Preserving(reply) => {
            &&& reply@.text_field("state"@) == Some("frozen"@)
            &&& reply@.unsigned_field("frame"@) is Some
            &&& boundary_of(reply@) is Some
        },
        _ => true,
    }
}

/// A receipt is given only for a save that proved a frozen machine, its frame and its boundary:
/// every step keeps what is proven of the reply, and only a proven reply gets a receipt.
pub proof fn receipts_are_proven(
    stage: ReceiptStage,
    request: ReceiptRequest,
    event: ReceiptEvent,
    r: (ReceiptStage, ReceiptAction),
)
    requires
        is_proven(stage),
        follows(stage, request, event, r),
    ensures
        is_proven(r.0),
        r.1 is Finish ==> stage is Preserving,
{
}

} // verus!
