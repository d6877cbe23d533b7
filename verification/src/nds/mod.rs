//! The Nintendo DS bridge: DeSmuME has one GDB stub for each of its two cores, and this module
//! speaks the adapter protocol on one side and GDB packets to those stubs on the other.

pub mod bridge;
pub mod button_laws;
pub mod commands;
pub mod control;
pub mod control_laws;
pub mod cpu;
pub mod decode;
pub mod decode_laws;
pub mod events;
pub mod input_laws;
pub mod laws;
pub mod listing_laws;
pub mod memory;
pub mod search_laws;
pub mod service;
pub mod support;
pub mod timed;

use vstd::prelude::*;
use crate::gdb::{GdbError, GdbErrorView};
use crate::text;

verus! {

/// The most bytes of one memory read packet. Its reply of two digits for each byte has to fit the
/// buffer of the stub.
pub const MAX_READ_CHUNK: u64 = 0x2000;

/// The most bytes of one memory write packet, which has to fit the buffer of the stub.
pub const MAX_WRITE_CHUNK: u64 = 0x2000;

/// The size of the buffer of the stub.
pub const GDBSTUB_BUFMAX: u64 = 0x8000;

/// What a stub adds around the payload of a reply.
pub const GDBSTUB_REPLY_FRAMING: u64 = 5;

/// What a write packet holds besides its data, at most.
pub const GDBSTUB_WRITE_FRAMING: u64 = 32;

/// The most bytes of one read request.
pub const MAX_READ_LEN: u64 = 0x2_0000;

/// The most bytes of one write request.
pub const MAX_WRITE_LEN: u64 = 0x2_0000;

/// The most bytes that one search looks through.
pub const MAX_FIND_LEN: u64 = 0x2_0000;

/// The most frames that a timed input lasts, so that its reply comes before the outer link gives
/// up.
pub const MAX_SYNC_TIMED_INPUT_FRAMES: u64 = 120;

/// The time between two looks at a timed input, in nanoseconds.
pub const TIMED_INPUT_POLL_INTERVAL: u64 = 8_000_000;

/// The time that a timed input may take, in nanoseconds.
pub const TIMED_INPUT_DEADLINE: u64 = 4_000_000_000;

/// A core.
#[derive(Debug, Clone, Copy, PartialEq, Eq, Structural)]
pub enum CpuId {
    Arm9,
    Arm7,
}

impl CpuId {
    /// The name of a core.
    pub open spec fn name(self) -> Seq<char> {
        match self {
            CpuId::Arm9 => "arm9"@,
            CpuId::Arm7 => "arm7"@,
        }
    }

    /// The name of a core.
    pub fn as_str(self) -> (r: &'static str)
        ensures
            r@ == self.name(),
    {
        match self {
            CpuId::Arm9 => "arm9",
            CpuId::Arm7 => "arm7",
        }
    }
}

/// Why a request to the bridge failed.
#[derive(Debug)]
pub enum NdsBridgeError {
    BadParams(String),
    UnknownMethod(String),
    Unsupported(String),
    Emulator(String),
    Io(String),
    Gdb(GdbError),
}

/// What an error holds.
pub enum NdsErrorView {
    BadParams(Seq<char>),
    UnknownMethod(Seq<char>),
    Unsupported(Seq<char>),
    Emulator(Seq<char>),
    Io(Seq<char>),
    Gdb(GdbErrorView),
}

impl View for NdsBridgeError {
    type V = NdsErrorView;

    open spec fn view(&self) -> NdsErrorView {
        match *self {
            NdsBridgeError::BadParams(m) => NdsErrorView::BadParams(m@),
            NdsBridgeError::UnknownMethod(m) => NdsErrorView::UnknownMethod(m@),
            NdsBridgeError::Unsupported(m) => NdsErrorView::Unsupported(m@),
            NdsBridgeError::Emulator(m) => NdsErrorView::Emulator(m@),
            NdsBridgeError::Io(m) => NdsErrorView::Io(m@),
            NdsBridgeError::Gdb(e) => NdsErrorView::Gdb(e@),
        }
    }
}

impl NdsErrorView {
    /// The error in words.
    pub open spec fn sentence(self) -> Seq<char> {
        match self {
            NdsErrorView::BadParams(m) => m,
            NdsErrorView::UnknownMethod(m) => "unknown method: "@ + m,
            NdsErrorView::Unsupported(m) => "unsupported on nds (planned): "@ + m,
            NdsErrorView::Emulator(m) => m,
            NdsErrorView::Io(m) => m,
            NdsErrorView::Gdb(e) => e.sentence(),
        }
    }

    /// The class of the error on the wire.
    pub open spec fn wire_kind(self) -> Seq<char> {
        match self {
            NdsErrorView::BadParams(_) => "bad_params"@,
            NdsErrorView::UnknownMethod(_) => "unknown_method"@,
            NdsErrorView::Unsupported(_) => "unsupported"@,
            NdsErrorView::Emulator(_) => "emulator_error"@,
            NdsErrorView::Io(_) => "bridge_error"@,
            NdsErrorView::Gdb(GdbErrorView::Emulator(_)) => "emulator_error"@,
            NdsErrorView::Gdb(_) => "bridge_error"@,
        }
    }
}

impl NdsBridgeError {
    /// The error in words.
    pub fn message(&self) -> (r: String)
        ensures
            r@ == self@.sentence(),
    {
        match self {
            NdsBridgeError::BadParams(m) => m.clone(),
            NdsBridgeError::UnknownMethod(m) => text::join("unknown method: ", m.as_str()),
            NdsBridgeError::Unsupported(m) => text::join(
                "unsupported on nds (planned): ",
                m.as_str(),
            ),
            NdsBridgeError::Emulator(m) => m.clone(),
            NdsBridgeError::Io(m) => m.clone(),
            NdsBridgeError::Gdb(e) => e.message(),
        }
    }

    /// The class of the error on the wire.
    pub fn error_kind(&self) -> (r: &'static str)
        ensures
            r@ == self@.wire_kind(),
    {
        match self {
            NdsBridgeError::BadParams(_) => "bad_params",
            NdsBridgeError::UnknownMethod(_) => "unknown_method",
            NdsBridgeError::Unsupported(_) => "unsupported",
            NdsBridgeError::Emulator(_) => "emulator_error",
            NdsBridgeError::Gdb(GdbError::Emulator(_)) => "emulator_error",
            NdsBridgeError::Io(_) => "bridge_error",
            NdsBridgeError::Gdb(_) => "bridge_error",
        }
    }
}

/// Whether a result is the given one, by a value that is its own view.
pub open spec fn gives<T>(r: Result<T, NdsBridgeError>, expected: Result<T, NdsErrorView>) -> bool {
    match (r, expected) {
        (Ok(a), Ok(b)) => a == b,
        (Err(e), Err(f)) => e@ == f,
        _ => false,
    }
}

/// What a result holds, by a value that is its own view.
pub open spec fn plain<T>(r: Result<T, NdsBridgeError>) -> Result<T, NdsErrorView> {
    match r {
        Ok(v) => Ok(v),
        Err(e) => Err(e@),
    }
}

/// What a result holds, by the view of its value.
pub open spec fn shown<T: View>(r: Result<T, NdsBridgeError>) -> Result<T::V, NdsErrorView> {
    match r {
        Ok(v) => Ok(v@),
        Err(e) => Err(e@),
    }
}

/// A whole read packet fits the buffer of the stub, and so does a whole write packet.
pub proof fn chunks_fit_the_stub()
    ensures
        MAX_READ_CHUNK * 2 + GDBSTUB_REPLY_FRAMING <= GDBSTUB_BUFMAX,
        MAX_WRITE_CHUNK * 2 + GDBSTUB_WRITE_FRAMING <= GDBSTUB_BUFMAX,
{
}

} // verus!
