//! The Nintendo 64 adapter: request checking, debugger bookkeeping and frame stepping around a
//! debugger-enabled Mupen64Plus core. The core itself is driven from outside; each operation here
//! says what to ask of it and what its answers mean.

pub mod breakpoints;
pub mod control;
pub mod debug;
pub mod drain;
pub mod effects;
pub mod execution;
pub mod frame;
pub mod frame_step;
pub mod hits;
pub mod input_laws;
pub mod instruction_step;
pub mod laws;
pub mod lifecycle;
pub mod params;
pub mod prepare;
pub mod pulse;
pub mod reset;
pub mod service;
pub mod snapshot_laws;
pub mod stack;
pub mod stack_laws;

use vstd::prelude::*;
use crate::text;

verus! {

/// Where RDRAM starts in the virtual address space of the R4300.
pub const RDRAM_BASE: u64 = 0x8000_0000;

/// The number of bytes of RDRAM.
pub const RDRAM_SIZE: u64 = 0x80_0000;

/// The most bytes that one memory request moves.
pub const MAX_MEMORY_TRANSFER: u64 = 0x4000;

/// The most frames or instructions that one request advances.
pub const MAX_STEP_COUNT: u64 = 5000;

/// The most frames that one button press lasts.
pub const MAX_INPUT_PULSE_FRAMES: u64 = 120;

/// Why a request to the adapter failed.
#[derive(Debug)]
pub enum N64Error {
    BadParams(String),
    BadState(String),
    Unsupported(String),
    Core { operation: String, code: i32 },
    Timeout(String),
    GenerationStopped { operation: String, reason: String },
    Dynamic(String),
    Io(String),
}

/// What an adapter error holds.
pub enum N64ErrorView {
    BadParams(Seq<char>),
    BadState(Seq<char>),
    Unsupported(Seq<char>),
    Core { operation: Seq<char>, code: i32 },
    Timeout(Seq<char>),
    GenerationStopped { operation: Seq<char>, reason: Seq<char> },
    Dynamic(Seq<char>),
    Io(Seq<char>),
}

impl View for N64Error {
    type V = N64ErrorView;

    open spec fn view(&self) -> N64ErrorView {
        match *self {
            N64Error::BadParams(m) => N64ErrorView::BadParams(m@),
            N64Error::BadState(m) => N64ErrorView::BadState(m@),
            N64Error::Unsupported(m) => N64ErrorView::Unsupported(m@),
            N64Error::Core { operation, code } => N64ErrorView::Core { operation: operation@, code },
            N64Error::Timeout(m) => N64ErrorView::Timeout(m@),
            N64Error::GenerationStopped { operation, reason } => N64ErrorView::GenerationStopped {
                operation: operation@,
                reason: reason@,
            },
            N64Error::Dynamic(m) => N64ErrorView::Dynamic(m@),
            N64Error::Io(m) => N64ErrorView::Io(m@),
        }
    }
}

impl N64ErrorView {
    /// The sentence that tells a person what went wrong.
    pub open spec fn sentence(self) -> Seq<char> {
        match self {
            N64ErrorView::BadParams(m) => m,
            N64ErrorView::BadState(m) => m,
            N64ErrorView::Unsupported(m) => "unsupported N64 method: "@ + m,
            N64ErrorView::Core { operation, code } => (("Mupen64Plus "@ + operation)
                + " failed with error "@) + text::decimal(code as int),
            N64ErrorView::Timeout(m) => ("Mupen64Plus "@ + m) + " timed out"@,
            N64ErrorView::GenerationStopped { operation, reason } => (("Mupen64Plus "@ + operation)
                + " did not close safely; the launch generation was stopped: "@) + reason,
            N64ErrorView::Dynamic(m) => "dynamic library error: "@ + m,
            N64ErrorView::Io(m) => m,
        }
    }

    /// The class of the error on the wire.
    pub open spec fn wire_kind(self) -> Seq<char> {
        match self {
            N64ErrorView::BadParams(_) => "bad_params"@,
            N64ErrorView::BadState(_) => "bad_state"@,
            N64ErrorView::Unsupported(_) => "unsupported"@,
            N64ErrorView::Core { .. } => "emulator_error"@,
            N64ErrorView::Timeout(_) => "emulator_error"@,
            N64ErrorView::GenerationStopped { .. } => "emulator_error"@,
            N64ErrorView::Dynamic(_) => "adapter_error"@,
            N64ErrorView::Io(_) => "adapter_error"@,
        }
    }
}

impl N64Error {
    /// The sentence that tells a person what went wrong.
    pub fn message(&self) -> (r: String)
        ensures
            r@ == self@.sentence(),
    {
        match self {
            N64Error::BadParams(m) => m.clone(),
            N64Error::BadState(m) => m.clone(),
            N64Error::Unsupported(m) => text::join("unsupported N64 method: ", m.as_str()),
            N64Error::Core { operation, code } => text::join(
                text::join(
                    text::join("Mupen64Plus ", operation.as_str()).as_str(),
                    " failed with error ",
                ).as_str(),
                text::signed_decimal_of(*code as i64).as_str(),
            ),
            N64Error::Timeout(m) => text::join(
                text::join("Mupen64Plus ", m.as_str()).as_str(),
                " timed out",
            ),
            N64Error::GenerationStopped { operation, reason } => text::join(
                text::join(
                    text::join("Mupen64Plus ", operation.as_str()).as_str(),
                    " did not close safely; the launch generation was stopped: ",
                ).as_str(),
                reason.as_str(),
            ),
            N64Error::Dynamic(m) => text::join("dynamic library error: ", m.as_str()),
            N64Error::Io(m) => m.clone(),
        }
    }
}

/// The class of an error on the wire.
pub fn error_kind(error: &N64Error) -> (r: &'static str)
    ensures
        r@ == error@.wire_kind(),
{
    match error {
        N64Error::BadParams(_) => "bad_params",
        N64Error::BadState(_) => "bad_state",
        N64Error::Unsupported(_) => "unsupported",
        N64Error::Core { .. } => "emulator_error",
        N64Error::Timeout(_) => "emulator_error",
        N64Error::GenerationStopped { .. } => "emulator_error",
        N64Error::Dynamic(_) => "adapter_error",
        N64Error::Io(_) => "adapter_error",
    }
}

/// A refusal of the request's parameters.
pub open spec fn bad_params<T>(message: Seq<char>) -> Result<T, N64ErrorView> {
    Err(N64ErrorView::BadParams(message))
}

/// A refusal in the machine's present state.
pub open spec fn bad_state<T>(message: Seq<char>) -> Result<T, N64ErrorView> {
    Err(N64ErrorView::BadState(message))
}

/// Whether a result is the one described: the same value, or an error with the same content.
pub open spec fn gives<T>(r: Result<T, N64Error>, expected: Result<T, N64ErrorView>) -> bool {
    match (r, expected) {
        (Ok(x), Ok(y)) => x == y,
        (Err(e), Err(f)) => e@ == f,
        _ => false,
    }
}

/// Whether a result is the one described, up to the view of its value.
pub open spec fn gives_view<T: View>(
    r: Result<T, N64Error>,
    expected: Result<T::V, N64ErrorView>,
) -> bool {
    match (r, expected) {
        (Ok(x), Ok(y)) => x@ == y,
        (Err(e), Err(f)) => e@ == f,
        _ => false,
    }
}

/// Turns the status code of a core call into a result; zero is success.
pub fn check_core(operation: &str, code: i32) -> (r: Result<(), N64Error>)
    ensures
        gives(
            r,
            if code == 0 {
                Ok(())
            } else {
                Err(N64ErrorView::Core { operation: operation@, code })
            },
        ),
{
    if code == 0 {
        Ok(())
    } else {
        Err(N64Error::Core { operation: operation.to_owned(), code })
    }
}

} // verus!
