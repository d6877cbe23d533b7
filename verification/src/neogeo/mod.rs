//! The Neo Geo bridge: the cartridge and disc machines of MAME behind its Lua debugger stub.

pub mod breakpoint_laws;
pub mod breakpoints;
pub mod control;
pub mod control_laws;
pub mod files;
pub mod hits;
pub mod laws;
pub mod listing_laws;
pub mod machine;
pub mod memory;
pub mod packets;
pub mod params;
pub mod service;
pub mod snapshot_laws;
pub mod stack;

use vstd::prelude::*;
use crate::gdb::{GdbError, GdbErrorView};
use crate::live::temporal::{MAX_SYNC_ADVANCE_COUNT, MAX_SYNC_OPERATION_MS};
use crate::text;

verus! {

/// Where the work memory of the cartridge machines starts, and its size.
pub const MVS_RAM_BASE: u64 = 0x10_0000;

pub const MVS_RAM_SIZE: u64 = 0x1_0000;

/// Where the work memory of the disc machine starts, and its size.
pub const CD_RAM_BASE: u64 = 0;

pub const CD_RAM_SIZE: u64 = 0x20_0000;

/// The most bytes that one read gives.
pub const MAX_READ: u64 = 0x4000;

/// The most frames that a press lasts.
pub const MAX_INPUT_FRAMES: u64 = 120;

/// The time that a frame operation takes to start, in milliseconds.
pub const FRAME_OPERATION_STARTUP_MS: u64 = 5_000;

/// The time that a frame operation gives each frame, in milliseconds.
pub const FRAME_OPERATION_BUDGET_MS: u64 = 500;

/// The time that saving or loading a state takes at most, in nanoseconds.
pub const STATE_OPERATION_TIMEOUT_NS: u64 = 65_000_000_000;

/// The most bytes of a disassembly listing.
pub const MAX_DASM_OUTPUT_BYTES: u64 = 0x2_0000;

/// The most instructions of a disassembly.
pub const MAX_DASM_COUNT: u64 = 64;

/// The most breakpoints at a time.
pub const MAX_BREAKPOINTS: usize = 128;

/// The most ranges that a breakpoint captures.
pub const MAX_SNAPSHOTS: usize = 16;

/// The most bytes that a breakpoint captures.
pub const MAX_SNAPSHOT_BYTES: u64 = 0x4000;

/// The last address of the program space.
pub const MAX_PROGRAM_ADDRESS: u64 = 0x00ff_ffff;

/// The most calls that the machine tells of its stack.
pub const MAX_NATIVE_FRAMES: usize = 63;

/// The most packets that are taken at once without waiting.
pub const MAX_DRAINED_PACKETS: u64 = 256;

/// A machine.
#[derive(Debug, Clone, Copy, PartialEq, Eq, Structural)]
pub enum NeoGeoProfile {
    Mvs,
    Aes,
    Cd,
}

/// The machine of a system's name.
pub open spec fn profile_of(system: Seq<char>) -> Option<NeoGeoProfile> {
    if system == "neogeo_mvs"@ {
        Some(NeoGeoProfile::Mvs)
    } else if system == "neogeo_aes"@ {
        Some(NeoGeoProfile::Aes)
    } else if system == "neogeo_cd"@ {
        Some(NeoGeoProfile::Cd)
    } else {
        None
    }
}

impl NeoGeoProfile {
    /// Where the work memory starts, and its size.
    pub open spec fn memory(self) -> (u64, u64) {
        match self {
            NeoGeoProfile::Mvs | NeoGeoProfile::Aes => (MVS_RAM_BASE, MVS_RAM_SIZE),
            NeoGeoProfile::Cd => (CD_RAM_BASE, CD_RAM_SIZE),
        }
    }

    /// The buttons of the machine.
    pub open spec fn buttons(self) -> Seq<Seq<char>> {
        match self {
            NeoGeoProfile::Mvs => seq![
                "a"@,
                "b"@,
                "c"@,
                "d"@,
                "start"@,
                "coin"@,
                "service"@,
                "up"@,
                "down"@,
                "left"@,
                "right"@,
            ],
            NeoGeoProfile::Aes | NeoGeoProfile::Cd => seq![
                "a"@,
                "b"@,
                "c"@,
                "d"@,
                "start"@,
                "select"@,
                "up"@,
                "down"@,
                "left"@,
                "right"@,
            ],
        }
    }

    /// What the machine is called in the notes.
    pub open spec fn scope_name(self) -> Seq<char> {
        match self {
            NeoGeoProfile::Mvs => "mvs"@,
            NeoGeoProfile::Aes => "aes"@,
            NeoGeoProfile::Cd => "cdz"@,
        }
    }

    /// Whether the machine saves and loads states.
    pub open spec fn has_state_files(self) -> bool {
        self != NeoGeoProfile::Cd
    }

    /// The machine of a system's name.
    pub fn parse(system: &str) -> (r: Result<Self, BridgeError>)
        ensures
            plain(r) == (match profile_of(system@) {
                Some(profile) => Ok(profile),
                None => Err(
                    BridgeErrorView::BadParams("unsupported Neo Geo system: "@ + system@),
                ),
            }),
    {
        if text::same(system, "neogeo_mvs") {
            Ok(NeoGeoProfile::Mvs)
        } else if text::same(system, "neogeo_aes") {
            Ok(NeoGeoProfile::Aes)
        } else if text::same(system, "neogeo_cd") {
            Ok(NeoGeoProfile::Cd)
        } else {
            Err(BridgeError::BadParams(text::join("unsupported Neo Geo system: ", system)))
        }
    }

    /// Where the work memory starts, and its size.
    pub fn ram(self) -> (r: (u64, u64))
        ensures
            r == self.memory(),
    {
        match self {
            NeoGeoProfile::Mvs | NeoGeoProfile::Aes => (MVS_RAM_BASE, MVS_RAM_SIZE),
            NeoGeoProfile::Cd => (CD_RAM_BASE, CD_RAM_SIZE),
        }
    }

    /// The buttons of the machine.
    pub fn input_buttons(self) -> (r: Vec<&'static str>)
        ensures
            crate::json::literals(r@) == self.buttons(),
    {
        let mut v: Vec<&'static str> = Vec::new();
        v.push("a");
        v.push("b");
        v.push("c");
        v.push("d");
        v.push("start");
        if let NeoGeoProfile::Mvs = self {
            v.push("coin");
            v.push("service");
        } else {
            v.push("select");
        }
        v.push("up");
        v.push("down");
        v.push("left");
        v.push("right");
        assert(crate::json::literals(v@) =~= self.buttons());
        v
    }

    /// What the machine is called in the notes.
    pub fn scope(self) -> (r: &'static str)
        ensures
            r@ == self.scope_name(),
    {
        match self {
            NeoGeoProfile::Mvs => "mvs",
            NeoGeoProfile::Aes => "aes",
            NeoGeoProfile::Cd => "cdz",
        }
    }

    /// Whether the machine saves and loads states.
    pub fn supports_state_files(self) -> (r: bool)
        ensures
            r == self.has_state_files(),
    {
        match self {
            NeoGeoProfile::Mvs | NeoGeoProfile::Aes => true,
            NeoGeoProfile::Cd => false,
        }
    }
}

/// Why a request to the bridge failed.
#[derive(Debug)]
pub enum BridgeError {
    BadParams(String),
    BadState(String),
    UnknownMethod(String),
    Emulator(String),
    Io(String),
    Gdb(GdbError),
}

/// What an error holds.
pub enum BridgeErrorView {
    BadParams(Seq<char>),
    BadState(Seq<char>),
    UnknownMethod(Seq<char>),
    Emulator(Seq<char>),
    Io(Seq<char>),
    Gdb(GdbErrorView),
}

impl View for BridgeError {
    type V = BridgeErrorView;

    open spec fn view(&self) -> BridgeErrorView {
        match *self {
            BridgeError::BadParams(m) => BridgeErrorView::BadParams(m@),
            BridgeError::BadState(m) => BridgeErrorView::BadState(m@),
            BridgeError::UnknownMethod(m) => BridgeErrorView::UnknownMethod(m@),
            BridgeError::Emulator(m) => BridgeErrorView::Emulator(m@),
            BridgeError::Io(m) => BridgeErrorView::Io(m@),
            BridgeError::Gdb(e) => BridgeErrorView::Gdb(e@),
        }
    }
}

impl BridgeErrorView {
    /// The error in words.
    pub open spec fn sentence(self) -> Seq<char> {
        match self {
            BridgeErrorView::BadParams(m) => m,
            BridgeErrorView::BadState(m) => m,
            BridgeErrorView::UnknownMethod(m) => "unknown method: "@ + m,
            BridgeErrorView::Emulator(m) => m,
            BridgeErrorView::Io(m) => m,
            BridgeErrorView::Gdb(e) => e.sentence(),
        }
    }

    /// The class of the error on the wire.
    pub open spec fn wire_kind(self) -> Seq<char> {
        match self {
            BridgeErrorView::BadParams(_) => "bad_params"@,
            BridgeErrorView::BadState(_) => "bad_state"@,
            BridgeErrorView::UnknownMethod(_) => "unknown_method"@,
            BridgeErrorView::Emulator(_) => "emulator_error"@,
            BridgeErrorView::Io(_) => "bridge_error"@,
            BridgeErrorView::Gdb(GdbErrorView::Emulator(_)) => "emulator_error"@,
            BridgeErrorView::Gdb(_) => "bridge_error"@,
        }
    }
}

impl BridgeError {
    /// The error in words.
    pub fn message(&self) -> (r: String)
        ensures
            r@ == self@.sentence(),
    {
        match self {
            BridgeError::BadParams(m) => m.clone(),
            BridgeError::BadState(m) => m.clone(),
            BridgeError::UnknownMethod(m) => text::join("unknown method: ", m.as_str()),
            BridgeError::Emulator(m) => m.clone(),
            BridgeError::Io(m) => m.clone(),
            BridgeError::Gdb(e) => e.message(),
        }
    }

    /// The class of the error on the wire.
    pub fn error_kind(&self) -> (r: &'static str)
        ensures
            r@ == self@.wire_kind(),
    {
        match self {
            BridgeError::BadParams(_) => "bad_params",
            BridgeError::BadState(_) => "bad_state",
            BridgeError::UnknownMethod(_) => "unknown_method",
            BridgeError::Emulator(_) => "emulator_error",
            BridgeError::Gdb(GdbError::Emulator(_)) => "emulator_error",
            BridgeError::Io(_) => "bridge_error",
            BridgeError::Gdb(_) => "bridge_error",
        }
    }
}

/// What a result holds, by a value that is its own view.
pub open spec fn plain<T>(r: Result<T, BridgeError>) -> Result<T, BridgeErrorView> {
    match r {
        Ok(v) => Ok(v),
        Err(e) => Err(e@),
    }
}

/// What a result holds, by the view of its value.
pub open spec fn shown<T: View>(r: Result<T, BridgeError>) -> Result<T::V, BridgeErrorView> {
    match r {
        Ok(v) => Ok(v@),
        Err(e) => Err(e@),
    }
}

/// A refusal of parameters.
pub open spec fn bad<T>(message: Seq<char>) -> Result<T, BridgeErrorView> {
    Err(BridgeErrorView::BadParams(message))
}

/// An error of the emulator.
pub open spec fn fault<T>(message: Seq<char>) -> Result<T, BridgeErrorView> {
    Err(BridgeErrorView::Emulator(message))
}

/// The most frames that one operation advances: as many as its time budget allows for.
pub open spec fn max_frames() -> int {
    let allowed = (MAX_SYNC_OPERATION_MS - FRAME_OPERATION_STARTUP_MS) / (
    FRAME_OPERATION_BUDGET_MS as int);
    if allowed < MAX_SYNC_ADVANCE_COUNT {
        allowed
    } else {
        MAX_SYNC_ADVANCE_COUNT as int
    }
}

/// The most frames that one operation advances.
pub fn max_sync_frame_count() -> (r: u64)
    ensures
        r == max_frames(),
{
    let allowed: u64 = (MAX_SYNC_OPERATION_MS - FRAME_OPERATION_STARTUP_MS)
        / FRAME_OPERATION_BUDGET_MS;
    if allowed < MAX_SYNC_ADVANCE_COUNT {
        allowed
    } else {
        MAX_SYNC_ADVANCE_COUNT
    }
}

/// Every number of frames that one operation advances fits its time budget.
pub proof fn frame_budgets_fit(count: int)
    requires
        0 <= count <= max_frames(),
    ensures
        FRAME_OPERATION_STARTUP_MS + count * FRAME_OPERATION_BUDGET_MS <= MAX_SYNC_OPERATION_MS,
{
}

} // verus!
