//! The link through which tools call an emulator adapter. What a link did is its history; every
//! tool says which calls it makes and what it returns as a function of the replies.

use vstd::prelude::*;
use crate::json::{Json, JsonView};
use crate::text;

verus! {

/// Why a call over the link failed.
#[derive(Debug)]
pub enum LinkError {
    NotConnected,
    Timeout,
    Busy,
    Cancelled,
    PortBusy { addr: String },
    IdentityMismatch { message: String },
    Protocol(String),
    Emulator { kind: String, message: String },
}

/// What a link error holds.
pub enum LinkErrorView {
    NotConnected,
    Timeout,
    Busy,
    Cancelled,
    PortBusy { addr: Seq<char> },
    IdentityMismatch { message: Seq<char> },
    Protocol(Seq<char>),
    Emulator { kind: Seq<char>, message: Seq<char> },
}

impl View for LinkError {
    type V = LinkErrorView;

    open spec fn view(&self) -> LinkErrorView {
        match *self {
            LinkError::NotConnected => LinkErrorView::NotConnected,
            LinkError::Timeout => LinkErrorView::Timeout,
            LinkError::Busy => LinkErrorView::Busy,
            LinkError::Cancelled => LinkErrorView::Cancelled,
            LinkError::PortBusy { addr } => LinkErrorView::PortBusy { addr: addr@ },
            LinkError::IdentityMismatch { message } => LinkErrorView::IdentityMismatch {
                message: message@,
            },
            LinkError::Protocol(m) => LinkErrorView::Protocol(m@),
            LinkError::Emulator { kind, message } => LinkErrorView::Emulator {
                kind: kind@,
                message: message@,
            },
        }
    }
}

impl LinkErrorView {
    /// The class of the error.
    pub open spec fn class(self) -> Seq<char> {
        match self {
            LinkErrorView::NotConnected => "not_connected"@,
            LinkErrorView::Timeout => "timeout"@,
            LinkErrorView::Busy => "busy"@,
            LinkErrorView::Cancelled => "cancelled"@,
            LinkErrorView::PortBusy { .. } => "port_busy"@,
            LinkErrorView::IdentityMismatch { .. } => "identity_mismatch"@,
            LinkErrorView::Protocol(_) => "protocol"@,
            LinkErrorView::Emulator { .. } => "emulator"@,
        }
    }

    /// The sentence that tells a person what went wrong.
    pub open spec fn sentence(self) -> Seq<char> {
        match self {
            LinkErrorView::NotConnected => "emulator is not connected"@,
            LinkErrorView::Timeout => "emulator call timed out"@,
            LinkErrorView::Busy => "emulator is held by another session"@,
            LinkErrorView::Cancelled => "emulator call was cancelled"@,
            LinkErrorView::PortBusy { addr } => "port is in use: "@ + addr,
            LinkErrorView::IdentityMismatch { message } => "emulator identity mismatch: "@
                + message,
            LinkErrorView::Protocol(m) => "protocol error: "@ + m,
            LinkErrorView::Emulator { kind, message } => (kind + ": "@) + message,
        }
    }
}

impl LinkError {
    /// The class of the error.
    pub fn kind(&self) -> (r: &'static str)
        ensures
            r@ == self@.class(),
    {
        match self {
            LinkError::NotConnected => "not_connected",
            LinkError::Timeout => "timeout",
            LinkError::Busy => "busy",
            LinkError::Cancelled => "cancelled",
            LinkError::PortBusy { .. } => "port_busy",
            LinkError::IdentityMismatch { .. } => "identity_mismatch",
            LinkError::Protocol(_) => "protocol",
            LinkError::Emulator { .. } => "emulator",
        }
    }

    /// The sentence that tells a person what went wrong.
    pub fn message(&self) -> (r: String)
        ensures
            r@ == self@.sentence(),
    {
        match self {
            LinkError::NotConnected => "emulator is not connected".to_owned(),
            LinkError::Timeout => "emulator call timed out".to_owned(),
            LinkError::Busy => "emulator is held by another session".to_owned(),
            LinkError::Cancelled => "emulator call was cancelled".to_owned(),
            LinkError::PortBusy { addr } => text::join("port is in use: ", addr.as_str()),
            LinkError::IdentityMismatch { message } => text::join(
                "emulator identity mismatch: ",
                message.as_str(),
            ),
            LinkError::Protocol(m) => text::join("protocol error: ", m.as_str()),
            LinkError::Emulator { kind, message } => text::join(
                text::join(kind.as_str(), ": ").as_str(),
                message.as_str(),
            ),
        }
    }

    /// A protocol error with a message.
    pub fn protocol(message: &str) -> (r: LinkError)
        ensures
            r@ == LinkErrorView::Protocol(message@),
    {
        LinkError::Protocol(message.to_owned())
    }

    /// An error of the emulator with a kind and a message.
    pub fn emulator(kind: &str, message: &str) -> (r: LinkError)
        ensures
            r@ == (LinkErrorView::Emulator { kind: kind@, message: message@ }),
    {
        LinkError::Emulator { kind: kind.to_owned(), message: message.to_owned() }
    }
}

/// A refusal of parameters.
pub open spec fn bad_params_view(message: Seq<char>) -> LinkErrorView {
    LinkErrorView::Emulator { kind: "bad_params"@, message }
}

/// A memory region of known size.
#[derive(Debug)]
pub struct MemoryRegion {
    pub memory_type: String,
    pub size: u64,
}

/// Who answers at the other end.
#[derive(Debug)]
pub struct EmulatorIdentity {
    pub launch_id: Option<String>,
    pub content: Option<String>,
}

/// What the adapter at the other end offers.
#[derive(Debug)]
pub struct Capabilities {
    pub protocol_version: u64,
    pub methods: Vec<String>,
    pub memory_types: Vec<String>,
    pub memory_regions: Vec<MemoryRegion>,
    pub identity: EmulatorIdentity,
}

/// What the offers of an adapter hold.
#[verifier::ext_equal]
pub struct OffersView {
    pub methods: Seq<Seq<char>>,
    pub memory_types: Seq<Seq<char>>,
    pub regions: Seq<(Seq<char>, u64)>,
    pub launch_id: Option<Seq<char>>,
    pub content: Option<Seq<char>>,
}

/// What an optional text holds.
pub open spec fn optional_text(s: Option<String>) -> Option<Seq<char>> {
    match s {
        Some(t) => Some(t@),
        None => None,
    }
}

/// What an optional borrowed text holds.
pub open spec fn optional_str(s: Option<&str>) -> Option<Seq<char>> {
    match s {
        Some(t) => Some(t@),
        None => None,
    }
}

/// What the given regions hold.
pub open spec fn region_views(regions: Seq<MemoryRegion>) -> Seq<(Seq<char>, u64)> {
    Seq::new(regions.len(), |i: int| (regions[i].memory_type@, regions[i].size))
}

impl View for Capabilities {
    type V = OffersView;

    open spec fn view(&self) -> OffersView {
        OffersView {
            methods: text::text_views(self.methods@),
            memory_types: text::text_views(self.memory_types@),
            regions: region_views(self.memory_regions@),
            launch_id: optional_text(self.identity.launch_id),
            content: optional_text(self.identity.content),
        }
    }
}

impl Capabilities {
    /// The offers of a link that has not been greeted.
    pub fn empty() -> (r: Capabilities)
        ensures
            r@ == (OffersView {
                methods: Seq::empty(),
                memory_types: Seq::empty(),
                regions: Seq::empty(),
                launch_id: None,
                content: None,
            }),
    {
        let r = Capabilities {
            protocol_version: 0,
            methods: Vec::new(),
            memory_types: Vec::new(),
            memory_regions: Vec::new(),
            identity: EmulatorIdentity { launch_id: None, content: None },
        };
        assert(r@.methods =~= Seq::empty());
        assert(r@.memory_types =~= Seq::empty());
        assert(r@.regions =~= Seq::empty());
        r
    }

    /// Whether the adapter has a method.
    pub fn has_method(&self, method: &str) -> (r: bool)
        ensures
            r == self@.methods.contains(method@),
    {
        has_text(self.methods.as_slice(), method)
    }
}

/// Whether a list holds a text.
pub fn has_text(items: &[String], s: &str) -> (r: bool)
    ensures
        r == text::text_views(items@).contains(s@),
{
    let ghost shown = text::text_views(items@);
    let mut i: usize = 0;
    while i < items.len()
        invariant
            i <= items.len(),
            shown == text::text_views(items@),
            forall|k: int| 0 <= k < i ==> shown[k] != s@,
        decreases items.len() - i,
    {
        assert(shown[i as int] == items@[i as int]@);
        if text::same(items[i].as_str(), s) {
            return true;
        }
        i += 1;
    }
    false
}

/// What a link did. Each step carries what the adapter offered after it.
pub enum LinkStep {
    /// A call with its parameters and its reply.
    Called {
        method: Seq<char>,
        params: JsonView,
        reply: Result<JsonView, LinkErrorView>,
        offers: OffersView,
    },
    /// The old transport was given up, to take the one of a returning session.
    Prepared { offers: OffersView },
    /// Some time was spent waiting for a returning session; `again` says whether more may be.
    Waited { again: bool, offers: OffersView },
}

/// What a reply holds.
pub open spec fn reply_view(r: Result<Json, LinkError>) -> Result<JsonView, LinkErrorView> {
    match r {
        Ok(v) => Ok(v@),
        Err(e) => Err(e@),
    }
}

/// What a reply without a value holds.
pub open spec fn done_view(r: Result<(), LinkError>) -> Result<(), LinkErrorView> {
    match r {
        Ok(()) => Ok(()),
        Err(e) => Err(e@),
    }
}

/// A link to an emulator adapter.
///
/// The specification functions say what a verified implementation has to account for. One
/// that is not verified can leave them out.
pub trait EmulatorLink: Sized {
    /// What the link did so far.
    closed spec fn history(&self) -> Seq<LinkStep> {
        arbitrary()
    }

    /// What the adapter offers now.
    closed spec fn offers(&self) -> OffersView {
        arbitrary()
    }

    /// Whether a session that was lost can be taken up again.
    closed spec fn reconnects(&self) -> bool {
        arbitrary()
    }

    /// What the adapter offers.
    fn capabilities(&self) -> (r: &Capabilities)
        ensures
            r@ == self.offers(),
    ;

    /// Calls a method and waits for its reply.
    fn call(&mut self, method: &str, params: Json) -> (r: Result<Json, LinkError>)
        ensures
            final(self).history() == old(self).history().push(
                LinkStep::Called {
                    method: method@,
                    params: params@,
                    reply: reply_view(r),
                    offers: final(self).offers(),
                },
            ),
            final(self).reconnects() == old(self).reconnects(),
    ;

    /// Whether a session that was lost can be taken up again.
    fn supports_session_reconnect(&self) -> (r: bool)
        ensures
            r == self.reconnects(),
    ;

    /// Gives up the old transport, to take the one of a returning session.
    fn prepare_reconnect(&mut self)
        ensures
            final(self).history() == old(self).history().push(
                LinkStep::Prepared { offers: final(self).offers() },
            ),
            final(self).reconnects() == old(self).reconnects(),
    ;

    /// Waits a moment for a returning session and says whether to look again.
    fn wait_for_session(&mut self) -> (r: bool)
        ensures
            final(self).history() == old(self).history().push(
                LinkStep::Waited { again: r, offers: final(self).offers() },
            ),
            final(self).reconnects() == old(self).reconnects(),
    ;
}

/// Whether the step at a place is the given call.
pub open spec fn is_call(h: Seq<LinkStep>, n: int, method: Seq<char>, params: JsonView) -> bool {
    &&& 0 <= n < h.len()
    &&& h[n] matches LinkStep::Called { method: m, params: p, .. } && m == method && p == params
}

/// The reply of the call at a place.
pub open spec fn reply_at(h: Seq<LinkStep>, n: int) -> Result<JsonView, LinkErrorView> {
    match h[n] {
        LinkStep::Called { reply, .. } => reply,
        _ => Err(LinkErrorView::NotConnected),
    }
}

/// What the adapter offered after the step at a place.
pub open spec fn offers_at(h: Seq<LinkStep>, n: int) -> OffersView {
    match h[n] {
        LinkStep::Called { offers, .. } => offers,
        LinkStep::Prepared { offers } => offers,
        LinkStep::Waited { offers, .. } => offers,
    }
}

/// Whether the last step of a link tells what the adapter offers now.
pub open spec fn is_current<L: EmulatorLink>(link: L) -> bool {
    link.history().len() > 0 && link.offers() == offers_at(
        link.history(),
        link.history().len() - 1,
    )
}

/// Whether one history goes on from another.
pub open spec fn goes_on(h: Seq<LinkStep>, longer: Seq<LinkStep>) -> bool {
    &&& h.len() <= longer.len()
    &&& forall|i: int| 0 <= i < h.len() ==> #[trigger] longer[i] == h[i]
}

/// A link whose calls all succeed with one value, and which remembers the last of them.
pub struct FakeLink {
    pub caps: Capabilities,
    pub reply: Json,
    pub last_method: Option<String>,
    pub last_params: Option<Json>,
    pub steps: Ghost<Seq<LinkStep>>,
}

impl FakeLink {
    /// A link whose calls all succeed with one value.
    pub fn ok(reply: Json) -> (r: FakeLink)
        ensures
            r.history() == Seq::<LinkStep>::empty(),
            !r.reconnects(),
            r.reply@ == reply@,
            r.last_method is None,
    {
        FakeLink {
            caps: Capabilities::empty(),
            reply,
            last_method: None,
            last_params: None,
            steps: Ghost(Seq::empty()),
        }
    }
}

impl EmulatorLink for FakeLink {
    closed spec fn history(&self) -> Seq<LinkStep> {
        self.steps@
    }

    closed spec fn offers(&self) -> OffersView {
        self.caps@
    }

    closed spec fn reconnects(&self) -> bool {
        false
    }

    fn capabilities(&self) -> &Capabilities {
        &self.caps
    }

    fn call(&mut self, method: &str, params: Json) -> (r: Result<Json, LinkError>)
        ensures
            r matches Ok(v) && v@ == old(self).reply@,
            final(self).last_method matches Some(m) && m@ == method@,
    {
        let value = self.reply.clone();
        self.last_method = Some(method.to_owned());
        self.steps = Ghost(
            self.steps@.push(
                LinkStep::Called {
                    method: method@,
                    params: params@,
                    reply: Ok(value@),
                    offers: self.caps@,
                },
            ),
        );
        self.last_params = Some(params);
        Ok(value)
    }

    fn supports_session_reconnect(&self) -> bool {
        false
    }

    fn prepare_reconnect(&mut self) {
        self.steps = Ghost(self.steps@.push(LinkStep::Prepared { offers: self.caps@ }));
    }

    fn wait_for_session(&mut self) -> bool {
        self.steps = Ghost(self.steps@.push(LinkStep::Waited { again: false, offers: self.caps@ }));
        false
    }
}

} // verus!
