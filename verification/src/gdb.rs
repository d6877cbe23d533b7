//! The connection to a GDB stub. What a connection did is its history; the bridges say which
//! packets they send and what they make of the replies as functions of that history.

use vstd::prelude::*;
use crate::json::Json;
use crate::text;

verus! {

/// What a bridge was started with.
#[derive(Debug)]
pub struct GdbBridgeEnv {
    pub name: Option<String>,
    pub session_token: Option<String>,
    pub launch_id: Option<String>,
    pub content: Option<String>,
    pub build: Option<String>,
    pub protocol_version: u64,
    /// What the bridge says of the contracts that it keeps.
    pub contracts: Json,
}

/// Why an exchange with a stub failed.
#[derive(Debug)]
pub enum GdbError {
    /// The stub answered with an error.
    Emulator(String),
    /// The transport failed.
    Io(String),
    /// The transport failed before, and its stream can no longer be trusted.
    Poisoned,
}

/// What an error holds.
pub enum GdbErrorView {
    Emulator(Seq<char>),
    Io(Seq<char>),
    Poisoned,
}

impl View for GdbError {
    type V = GdbErrorView;

    open spec fn view(&self) -> GdbErrorView {
        match *self {
            GdbError::Emulator(m) => GdbErrorView::Emulator(m@),
            GdbError::Io(m) => GdbErrorView::Io(m@),
            GdbError::Poisoned => GdbErrorView::Poisoned,
        }
    }
}

impl GdbErrorView {
    /// The error in words.
    pub open spec fn sentence(self) -> Seq<char> {
        match self {
            GdbErrorView::Emulator(m) => m,
            GdbErrorView::Io(m) => m,
            GdbErrorView::Poisoned => "GDB transport is poisoned by an earlier failure"@,
        }
    }
}

impl GdbError {
    /// The error in words.
    pub fn message(&self) -> (r: String)
        ensures
            r@ == self@.sentence(),
    {
        match self {
            GdbError::Emulator(m) => m.clone(),
            GdbError::Io(m) => m.clone(),
            GdbError::Poisoned => "GDB transport is poisoned by an earlier failure".to_owned(),
        }
    }
}

/// What came of an exchange that gives a text.
pub open spec fn text_reply(r: Result<String, GdbError>) -> Result<Seq<char>, GdbErrorView> {
    match r {
        Ok(s) => Ok(s@),
        Err(e) => Err(e@),
    }
}

/// What came of looking for a packet.
pub open spec fn packet_reply(r: Result<Option<String>, GdbError>) -> Result<
    Option<Seq<char>>,
    GdbErrorView,
> {
    match r {
        Ok(Some(s)) => Ok(Some(s@)),
        Ok(None) => Ok(None),
        Err(e) => Err(e@),
    }
}

/// What came of an exchange that gives a number.
pub open spec fn number_reply(r: Result<u64, GdbError>) -> Result<u64, GdbErrorView> {
    match r {
        Ok(n) => Ok(n),
        Err(e) => Err(e@),
    }
}

/// What came of an exchange that gives nothing.
pub open spec fn done_reply(r: Result<(), GdbError>) -> Result<(), GdbErrorView> {
    match r {
        Ok(()) => Ok(()),
        Err(e) => Err(e@),
    }
}

/// What a connection did.
pub enum GdbStep {
    /// A packet was sent and its reply read.
    Sent { payload: Seq<char>, reply: Result<Seq<char>, GdbErrorView> },
    /// A packet was sent that has no reply.
    Told { payload: Seq<char>, outcome: Result<(), GdbErrorView> },
    /// The core was interrupted.
    Interrupted { reply: Result<Seq<char>, GdbErrorView> },
    /// A packet was looked for without waiting.
    Polled { packet: Result<Option<Seq<char>>, GdbErrorView> },
    /// One more reply was read.
    Received { reply: Result<Seq<char>, GdbErrorView> },
    /// The timeout of an exchange was read, in nanoseconds.
    TimeoutRead { told: Result<u64, GdbErrorView> },
    /// The timeout of an exchange was set, in nanoseconds.
    TimeoutSet { timeout: u64, outcome: Result<(), GdbErrorView> },
    /// The clock was read, in nanoseconds.
    Clock { now: u64 },
    /// Some time was spent waiting, in nanoseconds.
    Waited { time: u64 },
}

/// A connection to the GDB stub of one core.
///
/// The specification functions say what a verified implementation has to account for. One
/// that is not verified can leave them out.
pub trait GdbTransport: Sized {
    /// What the connection did so far.
    closed spec fn history(&self) -> Seq<GdbStep> {
        arbitrary()
    }

    /// Whether the connection is over for good.
    closed spec fn over(&self) -> bool {
        arbitrary()
    }

    /// Sends a packet and reads its reply.
    fn send(&mut self, payload: &str) -> (r: Result<String, GdbError>)
        ensures
            final(self).history() == old(self).history().push(
                GdbStep::Sent { payload: payload@, reply: text_reply(r) },
            ),
    ;

    /// Sends a packet that has no reply.
    fn send_no_reply(&mut self, payload: &str) -> (r: Result<(), GdbError>)
        ensures
            final(self).history() == old(self).history().push(
                GdbStep::Told { payload: payload@, outcome: done_reply(r) },
            ),
    ;

    /// Interrupts the core and reads its stop.
    fn interrupt(&mut self) -> (r: Result<String, GdbError>)
        ensures
            final(self).history() == old(self).history().push(
                GdbStep::Interrupted { reply: text_reply(r) },
            ),
    ;

    /// Looks for a packet that has already arrived.
    fn recv_nonblocking(&mut self) -> (r: Result<Option<String>, GdbError>)
        ensures
            final(self).history() == old(self).history().push(
                GdbStep::Polled { packet: packet_reply(r) },
            ),
    ;

    /// Reads one more reply.
    fn recv_reply(&mut self) -> (r: Result<String, GdbError>)
        ensures
            final(self).history() == old(self).history().push(
                GdbStep::Received { reply: text_reply(r) },
            ),
    ;

    /// The timeout of an exchange.
    fn get_timeout(&mut self) -> (r: Result<u64, GdbError>)
        ensures
            final(self).history() == old(self).history().push(
                GdbStep::TimeoutRead { told: number_reply(r) },
            ),
    ;

    /// Sets the timeout of an exchange.
    fn set_timeout(&mut self, timeout: u64) -> (r: Result<(), GdbError>)
        ensures
            final(self).history() == old(self).history().push(
                GdbStep::TimeoutSet { timeout, outcome: done_reply(r) },
            ),
    ;

    /// Reads a monotonic clock.
    fn clock(&mut self) -> (r: u64)
        ensures
            final(self).history() == old(self).history().push(GdbStep::Clock { now: r }),
    ;

    /// Waits for some time.
    fn wait(&mut self, time: u64)
        ensures
            final(self).history() == old(self).history().push(GdbStep::Waited { time }),
    ;

    /// Whether the connection is over for good.
    fn is_terminal(&self) -> (r: bool)
        ensures
            r == self.over(),
    ;
}

/// Whether the step at a place sent the given packet.
pub open spec fn is_sent(h: Seq<GdbStep>, n: int, payload: Seq<char>) -> bool {
    &&& 0 <= n < h.len()
    &&& h[n] matches GdbStep::Sent { payload: p, .. } && p == payload
}

/// Whether the step at a place told the given packet.
pub open spec fn is_told(h: Seq<GdbStep>, n: int, payload: Seq<char>) -> bool {
    &&& 0 <= n < h.len()
    &&& h[n] matches GdbStep::Told { payload: p, .. } && p == payload
}

/// Whether the step at a place set the given timeout.
pub open spec fn is_timeout_set(h: Seq<GdbStep>, n: int, timeout: u64) -> bool {
    &&& 0 <= n < h.len()
    &&& h[n] matches GdbStep::TimeoutSet { timeout: t, .. } && t == timeout
}

/// The reply at a place.
pub open spec fn reply_at(h: Seq<GdbStep>, n: int) -> Result<Seq<char>, GdbErrorView> {
    match h[n] {
        GdbStep::Sent { reply, .. } => reply,
        GdbStep::Interrupted { reply } => reply,
        GdbStep::Received { reply } => reply,
        _ => Err(GdbErrorView::Poisoned),
    }
}

/// What came of the step at a place that gives nothing.
pub open spec fn outcome_at(h: Seq<GdbStep>, n: int) -> Result<(), GdbErrorView> {
    match h[n] {
        GdbStep::Told { outcome, .. } => outcome,
        GdbStep::TimeoutSet { outcome, .. } => outcome,
        _ => Err(GdbErrorView::Poisoned),
    }
}

/// Whether one history goes on from another.
pub open spec fn goes_on(h: Seq<GdbStep>, longer: Seq<GdbStep>) -> bool {
    &&& h.len() <= longer.len()
    &&& forall|i: int| 0 <= i < h.len() ==> #[trigger] longer[i] == h[i]
}

/// A history that goes on from a second one that goes on from a first goes on from the first.
pub proof fn goes_on_through(a: Seq<GdbStep>, b: Seq<GdbStep>)
    requires
        goes_on(a, b),
    ensures
        forall|h: Seq<GdbStep>| goes_on(b, h) ==> #[trigger] goes_on(a, h),
{
    assert forall|h: Seq<GdbStep>| goes_on(b, h) implies #[trigger] goes_on(a, h) by {
        assert forall|i: int| 0 <= i < a.len() implies #[trigger] h[i] == a[i] by {
            assert(h[i] == b[i]);
        }
    }
}

/// A history that goes on from a second one that goes on from a first goes on from the first.
pub broadcast proof fn goes_on_further(a: Seq<GdbStep>, b: Seq<GdbStep>, c: Seq<GdbStep>)
    requires
        #[trigger] goes_on(a, b),
        #[trigger] goes_on(b, c),
    ensures
        goes_on(a, c),
{
    goes_on_through(a, b);
}

/// A history goes on from the one before its last step.
pub broadcast proof fn goes_on_by_one(h: Seq<GdbStep>, step: GdbStep)
    ensures
        goes_on(h, #[trigger] h.push(step)),
{
}

/// A stop packet: one of the kinds `S` and `T`.
pub open spec fn is_stop(packet: Seq<char>) -> bool {
    packet.len() > 0 && (packet[0] == 'S' || packet[0] == 'T')
}

/// Whether a packet tells of a stop.
pub fn is_stop_packet(packet: &str) -> (r: bool)
    ensures
        r == is_stop(packet@),
{
    let chars = text::chars_of(packet);
    chars.len() > 0 && (chars[0] == 'S' || chars[0] == 'T')
}

} // verus!
