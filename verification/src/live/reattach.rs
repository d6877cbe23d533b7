//! Taking over a runtime generation that was handed back: it is found among the slots of the
//! listener, checked to be alive and free, its listener bound, and its lease claimed. Nothing of
//! the link changes before the claim is granted. The caller performs each action and hands back
//! what came of it.

use vstd::prelude::*;
use crate::json::{Json, JsonView};
use crate::live::link;
use crate::live::link::{LinkError, LinkErrorView};
use crate::text;

verus! {

/// What is known of the link and of what is asked.
#[derive(Debug)]
pub struct ReattachRequest {
    pub expected_launch_id: String,
    /// The launch of the present connection, and whether there is one.
    pub bound_launch_id: Option<String>,
    pub connected: bool,
    /// The address that the link was configured with.
    pub host: String,
    pub configured_port: u16,
    pub base_port: u16,
    /// The number of slots from the base port on.
    pub range: u16,
    /// The port that the link listens on.
    pub endpoint_port: Option<u16>,
    pub listening: bool,
    pub preaccepting: bool,
}

/// What a request holds.
pub struct ReattachView {
    pub expected: Seq<char>,
    pub bound: Option<Seq<char>>,
    pub connected: bool,
    pub host: Seq<char>,
    pub configured_port: u16,
    pub base_port: u16,
    pub range: u16,
    pub endpoint_port: Option<u16>,
    pub listening: bool,
    pub preaccepting: bool,
}

impl View for ReattachRequest {
    type V = ReattachView;

    open spec fn view(&self) -> ReattachView {
        ReattachView {
            expected: self.expected_launch_id@,
            bound: link::optional_text(self.bound_launch_id),
            connected: self.connected,
            host: self.host@,
            configured_port: self.configured_port,
            base_port: self.base_port,
            range: self.range,
            endpoint_port: self.endpoint_port,
            listening: self.listening,
            preaccepting: self.preaccepting,
        }
    }
}

/// Whether a process is there.
#[derive(Debug, Clone, Copy, PartialEq, Eq, Structural)]
pub enum ProcessState {
    Alive,
    Exited,
    Unknown,
}

/// Who holds the lease of a generation.
#[derive(Debug, Clone, Copy, PartialEq, Eq, Structural)]
pub enum LeaseState {
    /// This process.
    Held,
    /// Nobody.
    Available,
    /// Another process.
    Foreign,
    Unknown,
}

/// How connections are awaited after the takeover.
#[derive(Debug, Clone, Copy, PartialEq, Eq, Structural)]
pub enum Preaccept {
    /// On the listener that was bound for it.
    OnNewListener,
    /// On the listener that the link has.
    OnOwnListener,
    /// As far as the link needs it.
    AsNeeded,
}

/// Where a takeover stands.
#[derive(Debug)]
pub enum ReattachStage {
    /// The slot at an offset is looked at; those before hold these matches.
    Scanning { offset: u16, found: Vec<u16> },
    CheckingLife { port: u16 },
    ReadingCapability { port: u16 },
    ReadingLease { port: u16 },
    Binding { port: u16 },
    Claiming { port: u16, preaccept: Preaccept },
    Committing { port: u16, lease: Json, connected: bool },
    Ended,
}

/// What a stage holds.
pub enum StageView {
    Scanning { offset: u16, found: Seq<u16> },
    CheckingLife { port: u16 },
    ReadingCapability { port: u16 },
    ReadingLease { port: u16 },
    Binding { port: u16 },
    Claiming { port: u16, preaccept: Preaccept },
    Committing { port: u16, lease: JsonView, connected: bool },
    Ended,
}

impl View for ReattachStage {
    type V = StageView;

    open spec fn view(&self) -> StageView {
        match *self {
            ReattachStage::Scanning { offset, found } => StageView::Scanning {
                offset,
                found: found@,
            },
            ReattachStage::CheckingLife { port } => StageView::CheckingLife { port },
            ReattachStage::ReadingCapability { port } => StageView::ReadingCapability { port },
            ReattachStage::ReadingLease { port } => StageView::ReadingLease { port },
            ReattachStage::Binding { port } => StageView::Binding { port },
            ReattachStage::Claiming { port, preaccept } => StageView::Claiming {
                port,
                preaccept,
            },
            ReattachStage::Committing { port, lease, connected } => StageView::Committing {
                port,
                lease: lease@,
                connected,
            },
            ReattachStage::Ended => StageView::Ended,
        }
    }
}

/// What to do next.
#[derive(Debug)]
pub enum ReattachAction {
    /// Read which launch is current at a port.
    ReadCurrent { port: u16 },
    /// Look whether the processes of the generation at a port are alive.
    CheckLife { port: u16 },
    /// Read the private capability of the generation.
    ReadCapability { port: u16 },
    /// Read the lease record of the generation.
    ReadLease { port: u16 },
    /// Bind a listener, without taking it into use.
    Bind { address: String },
    /// Claim the lease.
    Claim { port: u16 },
    /// Take the generation over: a new listener is adopted, and the old connection dropped, where
    /// `preaccept` says that one was bound.
    Commit { preaccept: Preaccept },
    Finish { result: Json },
    Refuse { error: LinkError },
}

/// What an action holds.
pub enum ActionView {
    ReadCurrent { port: u16 },
    CheckLife { port: u16 },
    ReadCapability { port: u16 },
    ReadLease { port: u16 },
    Bind { address: Seq<char> },
    Claim { port: u16 },
    Commit { preaccept: Preaccept },
    Finish { result: JsonView },
    Refuse { error: LinkErrorView },
}

impl View for ReattachAction {
    type V = ActionView;

    open spec fn view(&self) -> ActionView {
        match *self {
            ReattachAction::ReadCurrent { port } => ActionView::ReadCurrent { port },
            ReattachAction::CheckLife { port } => ActionView::CheckLife { port },
            ReattachAction::ReadCapability { port } => ActionView::ReadCapability { port },
            ReattachAction::ReadLease { port } => ActionView::ReadLease { port },
            ReattachAction::Bind { address } => ActionView::Bind { address: address@ },
            ReattachAction::Claim { port } => ActionView::Claim { port },
            ReattachAction::Commit { preaccept } => ActionView::Commit { preaccept },
            ReattachAction::Finish { result } => ActionView::Finish { result: result@ },
            ReattachAction::Refuse { error } => ActionView::Refuse { error: error@ },
        }
    }
}

/// What came of an action.
#[derive(Debug)]
pub enum ReattachEvent {
    /// The launch that is current at the port that was read.
    Current(Option<String>),
    /// The state of the emulator, and that of its bridge where it has one.
    Life { process: ProcessState, bridge: Option<ProcessState> },
    /// Whether there is a capability.
    Capability { present: bool },
    /// The launch of the lease record, and the state of its lease where it has one.
    Lease { launch_id: Option<String>, lease: Option<LeaseState> },
    Bound,
    /// The address is in use.
    AddressInUse,
    /// The claim was granted; the state of the lease after it, and how it is told.
    Claimed { state: LeaseState, told: Json },
    /// The claim was denied.
    Denied,
    Committed,
    Failed(LinkError),
}

/// What an event holds.
pub enum EventView {
    Current(Option<Seq<char>>),
    Life { process: ProcessState, bridge: Option<ProcessState> },
    Capability { present: bool },
    Lease { launch_id: Option<Seq<char>>, lease: Option<LeaseState> },
    Bound,
    AddressInUse,
    Claimed { state: LeaseState, told: JsonView },
    Denied,
    Committed,
    Failed(LinkErrorView),
}

impl View for ReattachEvent {
    type V = EventView;

    open spec fn view(&self) -> EventView {
        match *self {
            ReattachEvent::Current(id) => EventView::Current(link::optional_text(id)),
            ReattachEvent::Life { process, bridge } => EventView::Life { process, bridge },
            ReattachEvent::Capability { present } => EventView::Capability { present },
            ReattachEvent::Lease { launch_id, lease } => EventView::Lease {
                launch_id: link::optional_text(launch_id),
                lease,
            },
            ReattachEvent::Bound => EventView::Bound,
            ReattachEvent::AddressInUse => EventView::AddressInUse,
            ReattachEvent::Claimed { state, told } => EventView::Claimed { state, told: told@ },
            ReattachEvent::Denied => EventView::Denied,
            ReattachEvent::Committed => EventView::Committed,
            ReattachEvent::Failed(e) => EventView::Failed(e@),
        }
    }
}

/// A refusal.
pub open spec fn refuse(error: LinkErrorView) -> (StageView, ActionView) {
    (StageView::Ended, ActionView::Refuse { error })
}

/// A refusal of the emulator's kind.
pub open spec fn deny(kind: Seq<char>, message: Seq<char>) -> (StageView, ActionView) {
    refuse(LinkErrorView::Emulator { kind, message })
}

/// The address of a port.
pub open spec fn address_of(host: Seq<char>, port: u16) -> Seq<char> {
    (host + ":"@) + text::decimal(port as int)
}

/// What the matches of a whole scan come to: exactly one is wanted.
pub open spec fn judge_found(found: Seq<u16>) -> (StageView, ActionView) {
    if found.len() == 0 {
        deny(
            "no_such_generation"@,
            "the requested launch_id is not current in this listener range"@,
        )
    } else if found.len() == 1 {
        (
            StageView::CheckingLife { port: found[0] },
            ActionView::CheckLife { port: found[0] },
        )
    } else {
        deny(
            "ambiguous_generation"@,
            "the requested launch_id appears in more than one runtime slot"@,
        )
    }
}

/// Looking at the slot at an offset, or judging the matches where there is none.
pub open spec fn scan(request: ReattachView, offset: int, found: Seq<u16>) -> (
    StageView,
    ActionView,
) {
    if offset >= request.range || request.base_port + offset > u16::MAX {
        judge_found(found)
    } else {
        (
            StageView::Scanning { offset: offset as u16, found },
            ActionView::ReadCurrent { port: (request.base_port + offset) as u16 },
        )
    }
}

/// How connections are awaited on the listener that the link has.
pub open spec fn own_preaccept(request: ReattachView) -> Preaccept {
    if !request.connected && !request.preaccepting {
        Preaccept::OnOwnListener
    } else {
        Preaccept::AsNeeded
    }
}

/// After the lease was found free: binding, unless the link listens there already.
pub open spec fn bind_or_claim(request: ReattachView, port: u16) -> (StageView, ActionView) {
    if request.endpoint_port == Some(port) {
        if own_preaccept(request) == Preaccept::OnOwnListener && !request.listening {
            refuse(LinkErrorView::NotConnected)
        } else {
            (
                StageView::Claiming { port, preaccept: own_preaccept(request) },
                ActionView::Claim { port },
            )
        }
    } else {
        (
            StageView::Binding { port },
            ActionView::Bind { address: address_of(request.host, port) },
        )
    }
}

/// The report of a takeover.
pub open spec fn report(request: ReattachView, port: u16, lease: JsonView, connected: bool) -> JsonView {
    JsonView::object().with("launch_id"@, JsonView::Str(request.expected)).with(
        "listening_port"@,
        JsonView::Unsigned(port as u64),
    ).with("lease"@, lease).with(
        "connection"@,
        JsonView::Str(
            if connected {
                "connected"@
            } else {
                "pending"@
            },
        ),
    )
}

/// What follows an event.
pub open spec fn next(stage: StageView, request: ReattachView, event: EventView) -> (
    StageView,
    ActionView,
) {
    match (stage, event) {
        (StageView::Ended, _) => refuse(LinkErrorView::Protocol("reattach step out of order"@)),
        (_, EventView::Failed(e)) => refuse(e),
        (StageView::Scanning { offset, found }, EventView::Current(id)) => scan(
            request,
            offset + 1,
            if id == Some(request.expected) {
                found.push((request.base_port + offset) as u16)
            } else {
                found
            },
        ),
        (StageView::CheckingLife { port }, EventView::Life { process, bridge }) => if process
            != ProcessState::Alive {
            deny(
                "execution_not_alive"@,
                "the requested runtime generation is not verifiably alive"@,
            )
        } else if bridge is Some && bridge != Some(ProcessState::Alive) {
            deny(
                "backend_unavailable"@,
                "the requested runtime generation's bridge is not verifiably alive"@,
            )
        } else {
            (StageView::ReadingCapability { port }, ActionView::ReadCapability { port })
        },
        (StageView::ReadingCapability { port }, EventView::Capability { present }) => if present {
            (StageView::ReadingLease { port }, ActionView::ReadLease { port })
        } else {
            deny(
                "reclaim_capability_unavailable"@,
                "the requested runtime generation has no private reclaim capability"@,
            )
        },
        (StageView::ReadingLease { port }, EventView::Lease { launch_id, lease }) => if launch_id
            != Some(request.expected) || lease is None {
            deny(
                "lease_unavailable"@,
                "the requested runtime generation has no verifiable returned lease"@,
            )
        } else if lease == Some(LeaseState::Held) || lease == Some(LeaseState::Available) {
            bind_or_claim(request, port)
        } else {
            refuse(LinkErrorView::Busy)
        },
        (StageView::Binding { port }, EventView::Bound) => (
            StageView::Claiming { port, preaccept: Preaccept::OnNewListener },
            ActionView::Claim { port },
        ),
        (StageView::Binding { port }, EventView::AddressInUse) => refuse(
            LinkErrorView::PortBusy { addr: address_of(request.host, port) },
        ),
        (StageView::Claiming { port, preaccept }, EventView::Claimed { state, told }) => if state
            == LeaseState::Held {
            (
                StageView::Committing {
                    port,
                    lease: told,
                    connected: request.connected && preaccept != Preaccept::OnNewListener,
                },
                ActionView::Commit { preaccept },
            )
        } else {
            refuse(LinkErrorView::Busy)
        },
        (StageView::Claiming { .. }, EventView::Denied) => refuse(LinkErrorView::Busy),
        (StageView::Committing { port, lease, connected }, EventView::Committed) => (
            StageView::Ended,
            ActionView::Finish { result: report(request, port, lease, connected) },
        ),
        _ => refuse(LinkErrorView::Protocol("reattach step out of order"@)),
    }
}

/// The first stage of a takeover.
pub open spec fn first(request: ReattachView) -> (StageView, ActionView) {
    if request.connected && request.bound != Some(request.expected) {
        refuse(LinkErrorView::Busy)
    } else if request.configured_port == 0 || request.base_port == 0 {
        deny(
            "unsupported"@,
            "explicit reattachment requires a configured direct port range"@,
        )
    } else {
        scan(request, 0, Seq::empty())
    }
}

fn refusal(error: LinkError) -> (r: (ReattachStage, ReattachAction))
    ensures
        (r.0@, r.1@) == refuse(error@),
{
    (ReattachStage::Ended, ReattachAction::Refuse { error })
}

fn denial(kind: &str, message: &str) -> (r: (ReattachStage, ReattachAction))
    ensures
        (r.0@, r.1@) == deny(kind@, message@),
{
    refusal(LinkError::emulator(kind, message))
}

fn address(host: &str, port: u16) -> (r: String)
    ensures
        r@ == address_of(host@, port),
{
    text::join(text::join(host, ":").as_str(), text::decimal_of(port as u64).as_str())
}

fn is_expected(id: &Option<String>, expected: &str) -> (r: bool)
    ensures
        r == (link::optional_text(*id) == Some(expected@)),
{
    match id {
        Some(id) => text::same(id.as_str(), expected),
        None => false,
    }
}

fn judge(found: Vec<u16>) -> (r: (ReattachStage, ReattachAction))
    ensures
        (r.0@, r.1@) == judge_found(found@),
{
    if found.len() == 0 {
        denial(
            "no_such_generation",
            "the requested launch_id is not current in this listener range",
        )
    } else if found.len() == 1 {
        let port: u16 = found[0];
        (ReattachStage::CheckingLife { port }, ReattachAction::CheckLife { port })
    } else {
        denial(
            "ambiguous_generation",
            "the requested launch_id appears in more than one runtime slot",
        )
    }
}

fn look_at(request: &ReattachRequest, offset: u32, found: Vec<u16>) -> (r: (
    ReattachStage,
    ReattachAction,
))
    requires
        offset <= 0x1_0000,
    ensures
        (r.0@, r.1@) == scan(request@, offset as int, found@),
{
    let place: u32 = request.base_port as u32 + offset;
    if offset >= request.range as u32 || place > 0xffff {
        return judge(found);
    }
    (
        ReattachStage::Scanning { offset: offset as u16, found },
        ReattachAction::ReadCurrent { port: place as u16 },
    )
}

fn bind(request: &ReattachRequest, port: u16) -> (r: (ReattachStage, ReattachAction))
    ensures
        (r.0@, r.1@) == bind_or_claim(request@, port),
{
    let own = match request.endpoint_port {
        Some(p) => p == port,
        None => false,
    };
    if !own {
        return (
            ReattachStage::Binding { port },
            ReattachAction::Bind { address: address(request.host.as_str(), port) },
        );
    }
    if !request.connected && !request.preaccepting {
        if !request.listening {
            return refusal(LinkError::NotConnected);
        }
        return (
            ReattachStage::Claiming { port, preaccept: Preaccept::OnOwnListener },
            ReattachAction::Claim { port },
        );
    }
    (
        ReattachStage::Claiming { port, preaccept: Preaccept::AsNeeded },
        ReattachAction::Claim { port },
    )
}

impl ReattachStage {
    /// Whether a stage is one that a takeover of this request can be in.
    pub open spec fn valid(self, request: ReattachRequest) -> bool {
        self@ matches StageView::Scanning { offset, .. } ==> offset < request.range
            && request.base_port + offset <= u16::MAX
    }

    /// Starts a takeover.
    pub fn begin(request: &ReattachRequest) -> (r: (ReattachStage, ReattachAction))
        ensures
            (r.0@, r.1@) == first(request@),
            r.0.valid(*request),
    {
        if request.connected && !is_expected(
            &request.bound_launch_id,
            request.expected_launch_id.as_str(),
        ) {
            return refusal(LinkError::Busy);
        }
        if request.configured_port == 0 || request.base_port == 0 {
            return denial(
                "unsupported",
                "explicit reattachment requires a configured direct port range",
            );
        }
        look_at(request, 0, Vec::new())
    }

    /// Goes on after an event.
    pub fn advance(self, request: &ReattachRequest, event: ReattachEvent) -> (r: (
        ReattachStage,
        ReattachAction,
    ))
        requires
            self.valid(*request),
        ensures
            (r.0@, r.1@) == next(self@, request@, event@),
            r.0.valid(*request),
    {
        match (self, event) {
            (ReattachStage::Ended, _) => refusal(LinkError::protocol("reattach step out of order")),
            (_, ReattachEvent::Failed(error)) => refusal(error),
            (ReattachStage::Scanning { offset, found }, ReattachEvent::Current(id)) => {
                let mut found = found;
                if is_expected(&id, request.expected_launch_id.as_str()) {
                    found.push(request.base_port + offset);
                }
                look_at(request, offset as u32 + 1, found)
            },
            (ReattachStage::CheckingLife { port }, ReattachEvent::Life { process, bridge }) => {
                if process != ProcessState::Alive {
                    return denial(
                        "execution_not_alive",
                        "the requested runtime generation is not verifiably alive",
                    );
                }
                if let Some(state) = bridge {
                    if state != ProcessState::Alive {
                        return denial(
                            "backend_unavailable",
                            "the requested runtime generation's bridge is not verifiably alive",
                        );
                    }
                }
                (
                    ReattachStage::ReadingCapability { port },
                    ReattachAction::ReadCapability { port },
                )
            },
            (ReattachStage::ReadingCapability { port }, ReattachEvent::Capability { present }) => {
                if !present {
                    return denial(
                        "reclaim_capability_unavailable",
                        "the requested runtime generation has no private reclaim capability",
                    );
                }
                (ReattachStage::ReadingLease { port }, ReattachAction::ReadLease { port })
            },
            (ReattachStage::ReadingLease { port }, ReattachEvent::Lease { launch_id, lease }) => {
                let ours = is_expected(&launch_id, request.expected_launch_id.as_str());
                match lease {
                    Some(state) if ours => match state {
                        LeaseState::Held | LeaseState::Available => bind(request, port),
                        _ => refusal(LinkError::Busy),
                    },
                    _ => denial(
                        "lease_unavailable",
                        "the requested runtime generation has no verifiable returned lease",
                    ),
                }
            },
            (ReattachStage::Binding { port }, ReattachEvent::Bound) => (
                ReattachStage::Claiming { port, preaccept: Preaccept::OnNewListener },
                ReattachAction::Claim { port },
            ),
            (ReattachStage::Binding { port }, ReattachEvent::AddressInUse) => refusal(
                LinkError::PortBusy { addr: address(request.host.as_str(), port) },
            ),
            (
                ReattachStage::Claiming { port, preaccept },
                ReattachEvent::Claimed { state, told },
            ) => {
                if state != LeaseState::Held {
                    return refusal(LinkError::Busy);
                }
                let connected = request.connected && preaccept != Preaccept::OnNewListener;
                (
                    ReattachStage::Committing { port, lease: told, connected },
                    ReattachAction::Commit { preaccept },
                )
            },
            (ReattachStage::Claiming { .. }, ReattachEvent::Denied) => refusal(LinkError::Busy),
            (
                ReattachStage::Committing { port, lease, connected },
                ReattachEvent::Committed,
            ) => {
                let connection = if connected {
                    "connected"
                } else {
                    "pending"
                };
                let result = Json::object().with(
                    "launch_id",
                    Json::text(request.expected_launch_id.as_str()),
                ).with("listening_port", Json::Unsigned(port as u64)).with("lease", lease).with(
                    "connection",
                    Json::text(connection),
                );
                (ReattachStage::Ended, ReattachAction::Finish { result })
            },
            _ => refusal(LinkError::protocol("reattach step out of order")),
        }
    }
}

/// A rejected takeover changes nothing: the link is changed only after the claim was granted and
/// the lease is held, and a result is told only after that change.
pub proof fn only_a_held_lease_commits(stage: StageView, request: ReattachView, event: EventView)
    ensures
        next(stage, request, event).1 is Commit ==> stage is Claiming && (
        event matches EventView::Claimed { state, .. } && state == LeaseState::Held),
        next(stage, request, event).1 is Finish ==> stage is Committing && event is Committed,
        !(first(request).1 is Commit) && !(first(request).1 is Finish),
{
}

/// What holds of the matches of a scan: they are the ports of slots before the present one.
pub open spec fn are_scanned(stage: StageView, request: ReattachView) -> bool {
    stage matches StageView::Scanning { offset, found } ==> offset < request.range
        && request.base_port + offset <= u16::MAX && (forall|i: int|
        0 <= i < found.len() ==> request.base_port <= #[trigger] found[i] < request.base_port
            + offset)
}

/// A takeover reaches only slots of its own range: every port that is read or checked lies in it.
pub proof fn takeovers_stay_in_range(stage: StageView, request: ReattachView, event: EventView)
    requires
        are_scanned(stage, request),
    ensures
        are_scanned(next(stage, request, event).0, request),
        next(stage, request, event).1 matches ActionView::ReadCurrent { port } ==> request.base_port
            <= port < request.base_port + request.range,
        next(stage, request, event).1 matches ActionView::CheckLife { port } ==> request.base_port
            <= port < request.base_port + request.range,
{
}

} // verus!
