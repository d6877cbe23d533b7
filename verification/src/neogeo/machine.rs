//! The machine behind the bridge: what it knows, and the commands of its stub.
//!
//! A `.._run` function reads the history of the connection from a place on: it gives the place
//! after the operation, the machine as the bridge then knows it, and the result.

use vstd::prelude::*;
use crate::encoding;
use crate::gdb;
use crate::gdb::{GdbBridgeEnv, GdbStep, GdbTransport};
use crate::json;
use crate::json::{Json, JsonView};
use crate::neogeo;
use crate::neogeo::packets::BreakpointKind;
use crate::neogeo::params::NeoGeoSnapshot;
use crate::neogeo::{BridgeError, BridgeErrorView, NeoGeoProfile};
use crate::text;

verus! {

/// Whether a breakpoint is armed in the machine.
#[derive(Debug)]
pub enum NeoGeoArmState {
    Armed,
    Failed(String),
}

impl View for NeoGeoArmState {
    type V = Result<(), Seq<char>>;

    open spec fn view(&self) -> Result<(), Seq<char>> {
        match *self {
            NeoGeoArmState::Armed => Ok(()),
            NeoGeoArmState::Failed(m) => Err(m@),
        }
    }
}

/// A breakpoint.
#[derive(Debug)]
pub struct NeoGeoBreakpoint {
    pub id: u64,
    pub kind: BreakpointKind,
    pub start: u64,
    pub end: u64,
    pub absolute_start: u64,
    pub backend_id: Option<u64>,
    pub snapshots: Vec<NeoGeoSnapshot>,
    pub arm_state: NeoGeoArmState,
}

/// What a breakpoint holds.
pub struct BreakpointView {
    pub id: u64,
    pub kind: BreakpointKind,
    pub start: u64,
    pub end: u64,
    pub absolute_start: u64,
    pub backend_id: Option<u64>,
    pub snapshots: Seq<NeoGeoSnapshot>,
    pub armed: Result<(), Seq<char>>,
}

impl View for NeoGeoBreakpoint {
    type V = BreakpointView;

    open spec fn view(&self) -> BreakpointView {
        BreakpointView {
            id: self.id,
            kind: self.kind,
            start: self.start,
            end: self.end,
            absolute_start: self.absolute_start,
            backend_id: self.backend_id,
            snapshots: self.snapshots@,
            armed: self.arm_state@,
        }
    }
}

/// What some breakpoints hold.
pub open spec fn breakpoint_views(items: Seq<NeoGeoBreakpoint>) -> Seq<BreakpointView> {
    Seq::new(items.len(), |i: int| items[i]@)
}

/// The bridge to a machine.
pub struct NeoGeoBridge<G> {
    pub gdb: G,
    pub env: GdbBridgeEnv,
    pub system: String,
    pub profile: NeoGeoProfile,
    pub frozen: bool,
    /// The breakpoints, by their numbers.
    pub breakpoints: Vec<NeoGeoBreakpoint>,
    pub next_breakpoint_id: u64,
    pub events: Vec<Json>,
    pub last_hit_seq: u64,
    pub next_reset_seq: u64,
}

/// The machine as the bridge knows it.
#[verifier::ext_equal]
pub struct MachineView {
    pub profile: NeoGeoProfile,
    pub frozen: bool,
    pub bps: Seq<BreakpointView>,
    pub next_bp: u64,
    pub events: Seq<JsonView>,
    pub last_hit: u64,
    pub next_reset: u64,
}

impl<G> View for NeoGeoBridge<G> {
    type V = MachineView;

    open spec fn view(&self) -> MachineView {
        MachineView {
            profile: self.profile,
            frozen: self.frozen,
            bps: breakpoint_views(self.breakpoints@),
            next_bp: self.next_breakpoint_id,
            events: json::views(self.events@),
            last_hit: self.last_hit_seq,
            next_reset: self.next_reset_seq,
        }
    }
}

/// What an operation comes to.
pub type Run<T> = Option<(int, MachineView, Result<T, BridgeErrorView>)>;

/// Whether an operation went on from the history of the connection.
pub open spec fn went_on<G: GdbTransport>(before: NeoGeoBridge<G>, after: NeoGeoBridge<G>) -> bool {
    &&& gdb::goes_on(before.gdb.history(), after.gdb.history())
    &&& after.env == before.env
    &&& after.system == before.system
    &&& after.profile == before.profile
}

/// Whether an operation did nothing at all.
pub open spec fn idle<G: GdbTransport>(before: NeoGeoBridge<G>, after: NeoGeoBridge<G>) -> bool {
    &&& went_on(before, after)
    &&& after.gdb.history() == before.gdb.history()
    &&& after@ == before@
}

/// Whether what an operation came to is a result of the bridge.
pub open spec fn settles<G: GdbTransport, T>(
    before: NeoGeoBridge<G>,
    after: NeoGeoBridge<G>,
    run: Run<T>,
    r: Result<T, BridgeErrorView>,
) -> bool {
    went_on(before, after) && run == Some((after.gdb.history().len() as int, after@, r))
}

/// Sending a packet and reading its reply.
pub open spec fn sent_run(h: Seq<GdbStep>, n: int, s: MachineView, payload: Seq<char>) -> Run<
    Seq<char>,
> {
    if !gdb::is_sent(h, n, payload) {
        None
    } else {
        match gdb::reply_at(h, n) {
            Err(e) => Some((n + 1, s, Err(BridgeErrorView::Gdb(e)))),
            Ok(reply) => Some((n + 1, s, Ok(reply))),
        }
    }
}

/// Sending a packet that has no reply.
pub open spec fn told_run(h: Seq<GdbStep>, n: int, s: MachineView, payload: Seq<char>) -> Run<()> {
    if !gdb::is_told(h, n, payload) {
        None
    } else {
        match gdb::outcome_at(h, n) {
            Err(e) => Some((n + 1, s, Err(BridgeErrorView::Gdb(e)))),
            Ok(()) => Some((n + 1, s, Ok(()))),
        }
    }
}

/// Interrupting the machine.
pub open spec fn interrupted_run(h: Seq<GdbStep>, n: int, s: MachineView) -> Run<Seq<char>> {
    if !(0 <= n < h.len() && h[n] is Interrupted) {
        None
    } else {
        match gdb::reply_at(h, n) {
            Err(e) => Some((n + 1, s, Err(BridgeErrorView::Gdb(e)))),
            Ok(reply) => Some((n + 1, s, Ok(reply))),
        }
    }
}

/// Looking for a packet that has arrived.
pub open spec fn polled_run(h: Seq<GdbStep>, n: int, s: MachineView) -> Run<Option<Seq<char>>> {
    if !(0 <= n < h.len()) {
        None
    } else {
        match h[n] {
            GdbStep::Polled { packet: Err(e) } => Some((n + 1, s, Err(BridgeErrorView::Gdb(e)))),
            GdbStep::Polled { packet: Ok(packet) } => Some((n + 1, s, Ok(packet))),
            _ => None,
        }
    }
}

/// Reading the timeout of an exchange.
pub open spec fn timeout_read_run(h: Seq<GdbStep>, n: int, s: MachineView) -> Run<u64> {
    if !(0 <= n < h.len()) {
        None
    } else {
        match h[n] {
            GdbStep::TimeoutRead { told: Err(e) } => Some((n + 1, s, Err(BridgeErrorView::Gdb(e)))),
            GdbStep::TimeoutRead { told: Ok(timeout) } => Some((n + 1, s, Ok(timeout))),
            _ => None,
        }
    }
}

/// Setting the timeout of an exchange.
pub open spec fn timeout_set_run(h: Seq<GdbStep>, n: int, s: MachineView, timeout: u64) -> Run<()> {
    if !gdb::is_timeout_set(h, n, timeout) {
        None
    } else {
        match gdb::outcome_at(h, n) {
            Err(e) => Some((n + 1, s, Err(BridgeErrorView::Gdb(e)))),
            Ok(()) => Some((n + 1, s, Ok(()))),
        }
    }
}

/// The packet of a command of the machine, with an argument where it takes one.
pub open spec fn lua_packet(name: Seq<char>, value: Option<Seq<char>>) -> Seq<char> {
    match value {
        Some(v) => (("qEmucap,"@ + name) + ","@) + encoding::hex_text(
            vstd::utf8::encode_utf8(v),
        ),
        None => "qEmucap,"@ + name,
    }
}

/// A command of the machine; a reply that starts with `E` is a failure.
pub open spec fn lua_run(
    h: Seq<GdbStep>,
    n: int,
    s: MachineView,
    name: Seq<char>,
    value: Option<Seq<char>>,
) -> Run<Seq<char>> {
    match sent_run(h, n, s, lua_packet(name, value)) {
        Some((m, t, Ok(reply))) => Some(
            (
                m,
                t,
                if text::has_prefix(reply, "E"@) {
                    neogeo::fault((("MAME "@ + name) + " failed: "@) + reply)
                } else {
                    Ok(reply)
                },
            ),
        ),
        other => other,
    }
}

/// Reading the frame counter.
pub open spec fn frame_run(h: Seq<GdbStep>, n: int, s: MachineView) -> Run<u64> {
    match lua_run(h, n, s, "frame"@, None) {
        None => None,
        Some((m, t, Err(e))) => Some((m, t, Err(e))),
        Some((m, t, Ok(reply))) => Some(
            (
                m,
                t,
                match text::u64_value(reply, 10) {
                    Some(frame) => Ok(frame),
                    None => neogeo::fault("invalid MAME frame counter"@),
                },
            ),
        ),
    }
}

/// What a command under a timeout of its own comes to, once the timeout was to be put back.
pub open spec fn restored(
    name: Seq<char>,
    outcome: Result<Seq<char>, BridgeErrorView>,
    restore: Result<(), BridgeErrorView>,
) -> Result<Seq<char>, BridgeErrorView> {
    match (outcome, restore) {
        (Ok(reply), Ok(())) => Ok(reply),
        (Err(primary), Ok(())) => Err(primary),
        (Ok(_), Err(cleanup)) => neogeo::fault(
            (("MAME "@ + name) + " completed but failed to restore the GDB timeout: "@)
                + cleanup.sentence(),
        ),
        (Err(primary), Err(cleanup)) => neogeo::fault(
            (primary.sentence() + "; additionally failed to restore the GDB timeout: "@)
                + cleanup.sentence(),
        ),
    }
}

/// A command under a timeout of its own, which is put back whatever the command comes to.
pub open spec fn timed_run(
    h: Seq<GdbStep>,
    n: int,
    s: MachineView,
    name: Seq<char>,
    value: Option<Seq<char>>,
    timeout: u64,
) -> Run<Seq<char>> {
    match timeout_read_run(h, n, s) {
        None => None,
        Some((m, t, Err(e))) => Some((m, t, Err(e))),
        Some((m, t, Ok(previous))) => match timeout_set_run(h, m, t, timeout) {
            None => None,
            Some((k, u, Err(e))) => Some((k, u, Err(e))),
            Some((k, u, Ok(()))) => match lua_run(h, k, u, name, value) {
                None => None,
                Some((j, v, outcome)) => match timeout_set_run(h, j, v, previous) {
                    None => None,
                    Some((i, w, restore)) => Some((i, w, restored(name, outcome, restore))),
                },
            },
        },
    }
}

/// A command under a timeout of its own puts the timeout back that it found: wherever it set its
/// own, the last step of the connection set the earlier one again.
pub proof fn timeouts_are_put_back(
    h: Seq<GdbStep>,
    n: int,
    s: MachineView,
    name: Seq<char>,
    value: Option<Seq<char>>,
    timeout: u64,
)
    requires
        timed_run(h, n, s, name, value, timeout) is Some,
        timeout_read_run(h, n, s) matches Some((_, _, Ok(_))),
        timeout_set_run(h, n + 1, s, timeout) matches Some((_, _, Ok(_))),
    ensures
        ({
            let end = (timed_run(h, n, s, name, value, timeout)->0).0;
            let previous = (timeout_read_run(h, n, s)->0).2->Ok_0;
            end == n + 4 && gdb::is_timeout_set(h, end - 1, previous)
        }),
{
}

/// The refusal of an operation that needs a frozen machine.
pub open spec fn frozen_check(s: MachineView, operation: Seq<char>) -> Result<
    (),
    BridgeErrorView,
> {
    if s.frozen {
        Ok(())
    } else {
        Err(
            BridgeErrorView::BadState(
                operation + " requires a frozen Neo Geo machine; call pause first"@,
            ),
        )
    }
}

/// What a packet looked for holds, or why there is none.
pub open spec fn shown_packet(r: Result<Option<String>, BridgeError>) -> Result<
    Option<Seq<char>>,
    BridgeErrorView,
> {
    match r {
        Ok(Some(s)) => Ok(Some(s@)),
        Ok(None) => Ok(None),
        Err(e) => Err(e@),
    }
}

/// What a text that may be missing holds.
pub open spec fn shown_text(value: Option<&str>) -> Option<Seq<char>> {
    match value {
        Some(s) => Some(s@),
        None => None,
    }
}

impl<G: GdbTransport> NeoGeoBridge<G> {
    /// The bridge to the machine of a system.
    pub fn new(gdb: G, env: GdbBridgeEnv, system: &str) -> (r: Result<Self, BridgeError>)
        ensures
            match neogeo::profile_of(system@) {
                None => r matches Err(e) && e@ == BridgeErrorView::BadParams(
                    "unsupported Neo Geo system: "@ + system@,
                ),
                Some(profile) => r matches Ok(bridge) && bridge.gdb == gdb && bridge.env == env
                    && bridge.system@ == system@ && bridge@ == (MachineView {
                    profile,
                    frozen: false,
                    bps: Seq::empty(),
                    next_bp: 1,
                    events: Seq::empty(),
                    last_hit: 0,
                    next_reset: 1,
                }),
            },
    {
        let profile = NeoGeoProfile::parse(system)?;
        let bridge = NeoGeoBridge {
            gdb,
            env,
            system: system.to_owned(),
            profile,
            frozen: false,
            breakpoints: Vec::new(),
            next_breakpoint_id: 1,
            events: Vec::new(),
            last_hit_seq: 0,
            next_reset_seq: 1,
        };
        assert(bridge@.bps =~= Seq::empty());
        assert(bridge@.events =~= Seq::empty());
        Ok(bridge)
    }

    /// Whether the connection is over for good.
    pub fn backend_terminal(&self) -> (r: bool)
        ensures
            r == self.gdb.over(),
    {
        self.gdb.is_terminal()
    }

    pub(crate) fn sent(&mut self, payload: &str) -> (r: Result<String, BridgeError>)
        ensures
            went_on(*old(self), *final(self)),
            final(self)@ == old(self)@,
            forall|h: Seq<GdbStep>|
                gdb::goes_on(final(self).gdb.history(), h) ==> #[trigger] sent_run(
                    h,
                    old(self).gdb.history().len() as int,
                    old(self)@,
                    payload@,
                ) == Some((final(self).gdb.history().len() as int, final(self)@, neogeo::shown(r))),
    {
        broadcast use gdb::goes_on_by_one;

        match self.gdb.send(payload) {
            Ok(reply) => Ok(reply),
            Err(error) => Err(BridgeError::Gdb(error)),
        }
    }

    pub(crate) fn told(&mut self, payload: &str) -> (r: Result<(), BridgeError>)
        ensures
            went_on(*old(self), *final(self)),
            final(self)@ == old(self)@,
            forall|h: Seq<GdbStep>|
                gdb::goes_on(final(self).gdb.history(), h) ==> #[trigger] told_run(
                    h,
                    old(self).gdb.history().len() as int,
                    old(self)@,
                    payload@,
                ) == Some((final(self).gdb.history().len() as int, final(self)@, neogeo::plain(r))),
    {
        broadcast use gdb::goes_on_by_one;

        match self.gdb.send_no_reply(payload) {
            Ok(()) => Ok(()),
            Err(error) => Err(BridgeError::Gdb(error)),
        }
    }

    pub(crate) fn interrupted(&mut self) -> (r: Result<String, BridgeError>)
        ensures
            went_on(*old(self), *final(self)),
            final(self)@ == old(self)@,
            forall|h: Seq<GdbStep>|
                gdb::goes_on(final(self).gdb.history(), h) ==> #[trigger] interrupted_run(
                    h,
                    old(self).gdb.history().len() as int,
                    old(self)@,
                ) == Some((final(self).gdb.history().len() as int, final(self)@, neogeo::shown(r))),
    {
        broadcast use gdb::goes_on_by_one;

        match self.gdb.interrupt() {
            Ok(reply) => Ok(reply),
            Err(error) => Err(BridgeError::Gdb(error)),
        }
    }

    pub(crate) fn polled(&mut self) -> (r: Result<Option<String>, BridgeError>)
        ensures
            went_on(*old(self), *final(self)),
            final(self)@ == old(self)@,
            forall|h: Seq<GdbStep>|
                gdb::goes_on(final(self).gdb.history(), h) ==> #[trigger] polled_run(
                    h,
                    old(self).gdb.history().len() as int,
                    old(self)@,
                ) == Some((final(self).gdb.history().len() as int, final(self)@, shown_packet(r))),
    {
        broadcast use gdb::goes_on_by_one;

        match self.gdb.recv_nonblocking() {
            Ok(packet) => Ok(packet),
            Err(error) => Err(BridgeError::Gdb(error)),
        }
    }

    fn timeout_read(&mut self) -> (r: Result<u64, BridgeError>)
        ensures
            went_on(*old(self), *final(self)),
            final(self)@ == old(self)@,
            forall|h: Seq<GdbStep>|
                gdb::goes_on(final(self).gdb.history(), h) ==> #[trigger] timeout_read_run(
                    h,
                    old(self).gdb.history().len() as int,
                    old(self)@,
                ) == Some((final(self).gdb.history().len() as int, final(self)@, neogeo::plain(r))),
    {
        broadcast use gdb::goes_on_by_one;

        match self.gdb.get_timeout() {
            Ok(timeout) => Ok(timeout),
            Err(error) => Err(BridgeError::Gdb(error)),
        }
    }

    fn timeout_set(&mut self, timeout: u64) -> (r: Result<(), BridgeError>)
        ensures
            went_on(*old(self), *final(self)),
            final(self)@ == old(self)@,
            forall|h: Seq<GdbStep>|
                gdb::goes_on(final(self).gdb.history(), h) ==> #[trigger] timeout_set_run(
                    h,
                    old(self).gdb.history().len() as int,
                    old(self)@,
                    timeout,
                ) == Some((final(self).gdb.history().len() as int, final(self)@, neogeo::plain(r))),
    {
        broadcast use gdb::goes_on_by_one;

        match self.gdb.set_timeout(timeout) {
            Ok(()) => Ok(()),
            Err(error) => Err(BridgeError::Gdb(error)),
        }
    }

    /// Gives the machine a command.
    pub(crate) fn lua_cmd(&mut self, name: &str, value: Option<&str>) -> (r: Result<
        String,
        BridgeError,
    >)
        ensures
            went_on(*old(self), *final(self)),
            final(self)@ == old(self)@,
            forall|h: Seq<GdbStep>|
                gdb::goes_on(final(self).gdb.history(), h) ==> #[trigger] lua_run(
                    h,
                    old(self).gdb.history().len() as int,
                    old(self)@,
                    name@,
                    shown_text(value),
                ) == Some((final(self).gdb.history().len() as int, final(self)@, neogeo::shown(r))),
    {
        let mut packet = text::join("qEmucap,", name);
        if let Some(value) = value {
            packet = text::join(packet.as_str(), ",");
            packet = text::join(packet.as_str(), encoding::hex_encode(value.as_bytes()).as_str());
        }
        let response = self.sent(packet.as_str())?;
        if text::starts_with(response.as_str(), "E") {
            let m = text::join("MAME ", name);
            let m = text::join(m.as_str(), " failed: ");
            return Err(BridgeError::Emulator(text::join(m.as_str(), response.as_str())));
        }
        Ok(response)
    }

    /// Reads the frame counter.
    pub fn current_frame(&mut self) -> (r: Result<u64, BridgeError>)
        ensures
            went_on(*old(self), *final(self)),
            final(self)@ == old(self)@,
            forall|h: Seq<GdbStep>|
                gdb::goes_on(final(self).gdb.history(), h) ==> #[trigger] frame_run(
                    h,
                    old(self).gdb.history().len() as int,
                    old(self)@,
                ) == Some((final(self).gdb.history().len() as int, final(self)@, neogeo::plain(r))),
    {
        let reply = self.lua_cmd("frame", None)?;
        match text::parse_u64(reply.as_str(), 10) {
            Some(frame) => Ok(frame),
            None => Err(BridgeError::Emulator("invalid MAME frame counter".to_owned())),
        }
    }

    /// Gives the machine a command under a timeout of its own.
    pub(crate) fn timed_cmd(&mut self, name: &str, value: Option<&str>, timeout: u64) -> (r: Result<
        String,
        BridgeError,
    >)
        ensures
            went_on(*old(self), *final(self)),
            final(self)@ == old(self)@,
            forall|h: Seq<GdbStep>|
                gdb::goes_on(final(self).gdb.history(), h) ==> #[trigger] timed_run(
                    h,
                    old(self).gdb.history().len() as int,
                    old(self)@,
                    name@,
                    shown_text(value),
                    timeout,
                ) == Some((final(self).gdb.history().len() as int, final(self)@, neogeo::shown(r))),
    {
        broadcast use gdb::goes_on_further;

        let previous: u64 = self.timeout_read()?;
        self.timeout_set(timeout)?;
        let outcome = self.lua_cmd(name, value);
        let restore = self.timeout_set(previous);
        match (outcome, restore) {
            (Ok(reply), Ok(())) => Ok(reply),
            (Err(primary), Ok(())) => Err(primary),
            (Ok(_), Err(cleanup)) => {
                let m = text::join("MAME ", name);
                let m = text::join(
                    m.as_str(),
                    " completed but failed to restore the GDB timeout: ",
                );
                Err(BridgeError::Emulator(text::join(m.as_str(), cleanup.message().as_str())))
            },
            (Err(primary), Err(cleanup)) => {
                let m = text::join(
                    primary.message().as_str(),
                    "; additionally failed to restore the GDB timeout: ",
                );
                Err(BridgeError::Emulator(text::join(m.as_str(), cleanup.message().as_str())))
            },
        }
    }

    /// Refuses an operation that needs a frozen machine.
    pub fn require_frozen(&self, operation: &str) -> (r: Result<(), BridgeError>)
        ensures
            neogeo::plain(r) == frozen_check(self@, operation@),
    {
        if self.frozen {
            Ok(())
        } else {
            Err(
                BridgeError::BadState(
                    text::join(
                        operation,
                        " requires a frozen Neo Geo machine; call pause first",
                    ),
                ),
            )
        }
    }
}

} // verus!
