//! Readiness of the adapter, the frozen boundary, and what each operation demands of them.

use vstd::prelude::*;
use crate::n64;
use crate::n64::{N64Error, N64ErrorView};
use crate::text;

verus! {

/// How far the adapter has come up.
#[derive(Clone, Copy, Debug, PartialEq, Eq, Structural)]
pub enum AdapterReadiness {
    WaitingForDebugger,
    WaitingForInitialRelease,
    WaitingForFirstRenderedFrame,
    Ready,
    Terminated,
}

impl AdapterReadiness {
    /// The name of the stage in reports.
    pub open spec fn name(self) -> Seq<char> {
        match self {
            AdapterReadiness::WaitingForDebugger => "waiting_for_debugger"@,
            AdapterReadiness::WaitingForInitialRelease => "waiting_for_initial_release"@,
            AdapterReadiness::WaitingForFirstRenderedFrame => "waiting_for_first_rendered_frame"@,
            AdapterReadiness::Ready => "ready"@,
            AdapterReadiness::Terminated => "terminated"@,
        }
    }

    /// The name of the stage in reports.
    pub fn label(self) -> (r: &'static str)
        ensures
            r@ == self.name(),
    {
        match self {
            AdapterReadiness::WaitingForDebugger => "waiting_for_debugger",
            AdapterReadiness::WaitingForInitialRelease => "waiting_for_initial_release",
            AdapterReadiness::WaitingForFirstRenderedFrame => "waiting_for_first_rendered_frame",
            AdapterReadiness::Ready => "ready",
            AdapterReadiness::Terminated => "terminated",
        }
    }

    /// Whether requests can be served.
    pub fn is_ready(self) -> (r: bool)
        ensures
            r == (self is Ready),
    {
        self == AdapterReadiness::Ready
    }
}

/// The stage that the observations add up to. Without a display no rendered frame is awaited.
pub open spec fn stage(
    display: bool,
    debugger_ready: bool,
    initial_released: bool,
    execution_terminal: bool,
    rendered_frame_seen: bool,
) -> AdapterReadiness {
    if execution_terminal {
        AdapterReadiness::Terminated
    } else if !debugger_ready {
        AdapterReadiness::WaitingForDebugger
    } else if !initial_released {
        AdapterReadiness::WaitingForInitialRelease
    } else if display && !rendered_frame_seen {
        AdapterReadiness::WaitingForFirstRenderedFrame
    } else {
        AdapterReadiness::Ready
    }
}

/// The stage that the observations add up to.
pub fn readiness_for(
    display: bool,
    debugger_ready: bool,
    initial_released: bool,
    execution_terminal: bool,
    rendered_frame_seen: bool,
) -> (r: AdapterReadiness)
    ensures
        r == stage(
            display,
            debugger_ready,
            initial_released,
            execution_terminal,
            rendered_frame_seen,
        ),
{
    if execution_terminal {
        AdapterReadiness::Terminated
    } else if !debugger_ready {
        AdapterReadiness::WaitingForDebugger
    } else if !initial_released {
        AdapterReadiness::WaitingForInitialRelease
    } else if display && !rendered_frame_seen {
        AdapterReadiness::WaitingForFirstRenderedFrame
    } else {
        AdapterReadiness::Ready
    }
}

/// An ended execution is never ready, and readiness needs the debugger and the first release.
pub proof fn ready_means_alive(
    display: bool,
    debugger_ready: bool,
    initial_released: bool,
    execution_terminal: bool,
    rendered_frame_seen: bool,
)
    ensures
        stage(
            display,
            debugger_ready,
            initial_released,
            execution_terminal,
            rendered_frame_seen,
        ) is Ready <==> !execution_terminal && debugger_ready && initial_released && (!display
            || rendered_frame_seen),
{
}

/// What the host believes of the machine: it is frozen, the frame barrier holds it, and the
/// frame counter is known to be in step.
#[derive(Clone, Copy, Debug, PartialEq, Eq, Structural)]
pub struct HostState {
    pub frozen: bool,
    pub frame_paused: bool,
    pub frame_clock_synchronized: bool,
}

impl HostState {
    /// Whether the machine stands at a boundary: the debugger or the frame barrier holds it.
    pub open spec fn at_boundary(self, debugger_paused: bool, gate_blocked: bool) -> bool {
        self.frozen && (debugger_paused || (self.frame_paused && gate_blocked))
    }

    /// Whether the machine stands at a boundary.
    pub fn is_frozen_boundary(self, debugger_paused: bool, gate_blocked: bool) -> (r: bool)
        ensures
            r == self.at_boundary(debugger_paused, gate_blocked),
    {
        self.frozen && (debugger_paused || (self.frame_paused && gate_blocked))
    }

    /// What the host believes once it has looked: a ready machine is frozen where a barrier holds it.
    pub open spec fn seen(self, readiness: AdapterReadiness, debugger_paused: bool, gate_blocked: bool) -> HostState {
        if readiness is Ready {
            HostState { frozen: debugger_paused || (self.frame_paused && gate_blocked), ..self }
        } else {
            self
        }
    }

    /// Looks again whether the machine is frozen.
    pub fn look(self, readiness: AdapterReadiness, debugger_paused: bool, gate_blocked: bool) -> (r: HostState)
        ensures
            r == self.seen(readiness, debugger_paused, gate_blocked),
    {
        if readiness.is_ready() {
            HostState { frozen: debugger_paused || (self.frame_paused && gate_blocked), ..self }
        } else {
            self
        }
    }

    /// What the host believes after a debugger update: where its flags tell of a breakpoint, the
    /// debugger holds the machine.
    pub open spec fn updated(self, flags: u32) -> HostState {
        if flags == 0 {
            self
        } else {
            HostState { frozen: true, frame_paused: false, ..self }
        }
    }

    /// What the host believes after a debugger update.
    pub fn after_update(self, flags: u32) -> (r: HostState)
        ensures
            r == self.updated(flags),
    {
        if flags == 0 {
            self
        } else {
            HostState { frozen: true, frame_paused: false, ..self }
        }
    }

    /// What the host believes after the launch generation was stopped.
    pub fn given_up(self) -> (r: HostState)
        ensures
            r == (HostState { frozen: false, frame_paused: false, ..self }),
    {
        HostState { frozen: false, frame_paused: false, ..self }
    }
}

/// What an operation on a running adapter demands.
pub open spec fn connected_check(readiness: AdapterReadiness) -> Result<(), N64ErrorView> {
    if readiness is Ready {
        Ok(())
    } else {
        n64::bad_state("Mupen64Plus adapter is not ready: "@ + readiness.name())
    }
}

/// What an operation on a frozen machine demands.
pub open spec fn frozen_check(
    operation: Seq<char>,
    readiness: AdapterReadiness,
    at_boundary: bool,
) -> Result<(), N64ErrorView> {
    if readiness !is Ready {
        connected_check(readiness)
    } else if at_boundary {
        Ok(())
    } else {
        n64::bad_state(operation + " requires a frozen N64 machine; call pause first"@)
    }
}

/// Refuses an operation while the adapter is not ready.
pub fn require_connected(readiness: AdapterReadiness) -> (r: Result<(), N64Error>)
    ensures
        n64::gives(r, connected_check(readiness)),
{
    if readiness.is_ready() {
        Ok(())
    } else {
        Err(
            N64Error::BadState(
                text::join("Mupen64Plus adapter is not ready: ", readiness.label()),
            ),
        )
    }
}

/// Refuses an operation unless the machine stands at a boundary.
pub fn require_frozen(operation: &str, readiness: AdapterReadiness, at_boundary: bool) -> (r:
    Result<(), N64Error>)
    ensures
        n64::gives(r, frozen_check(operation@, readiness, at_boundary)),
{
    require_connected(readiness)?;
    if at_boundary {
        Ok(())
    } else {
        Err(
            N64Error::BadState(
                text::join(operation, " requires a frozen N64 machine; call pause first"),
            ),
        )
    }
}

/// The frame number that reports show: rendered frames with a display, else vertical interrupts.
pub fn public_frame(display: bool, rendered_frames: u64, vertical_interrupts: u64) -> (r: u64)
    ensures
        r == (if display {
            rendered_frames
        } else {
            vertical_interrupts
        }),
{
    if display {
        rendered_frames
    } else {
        vertical_interrupts
    }
}

/// The error of a failed operation whose recovery failed as well.
pub fn recovery_failure(original: &N64Error, recovery: &N64Error) -> (r: N64Error)
    ensures
        r@ == N64ErrorView::BadState(
            (original@.sentence() + "; debugger-boundary recovery also failed: "@)
                + recovery@.sentence(),
        ),
{
    let m = text::join(
        original.message().as_str(),
        "; debugger-boundary recovery also failed: ",
    );
    N64Error::BadState(text::join(m.as_str(), recovery.message().as_str()))
}

/// The error of an operation whose effect could not be closed, after the generation was stopped.
pub fn generation_stopped(operation: &str, cause: &N64Error) -> (r: N64Error)
    ensures
        r@ == (N64ErrorView::GenerationStopped {
            operation: operation@,
            reason: cause@.sentence(),
        }),
{
    N64Error::GenerationStopped { operation: operation.to_owned(), reason: cause.message() }
}

/// Whether a value of the display setting asks for a window.
pub open spec fn asks_for_display(value: Seq<char>) -> bool {
    let v = text::lowered(text::trimmed(value));
    v == "1"@ || v == "true"@ || v == "yes"@ || v == "on"@
}

/// Whether a value of the display setting asks for a window.
pub fn display_requested(value: &str) -> (r: bool)
    ensures
        r == asks_for_display(value@),
{
    let v = text::lower(text::trim(value).as_str());
    text::same(v.as_str(), "1") || text::same(v.as_str(), "true") || text::same(v.as_str(), "yes")
        || text::same(v.as_str(), "on")
}

} // verus!
