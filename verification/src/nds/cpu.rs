//! One core: its connection, whether it is frozen, and the stops that were noticed. The stub
//! takes commands only while the core is frozen, so a running core is paused around each of them
//! and set running again, unless a stop of its own was found meanwhile.
//!
//! A `.._run` function reads the history of a connection from a place on: it gives the place after
//! the operation, the core after it and its result, or nothing where the history is not one of the
//! operation.

use vstd::prelude::*;
use crate::gdb;
use crate::gdb::{GdbError, GdbStep, GdbTransport};
use crate::json;
use crate::json::{Json, JsonView};
use crate::nds;
use crate::nds::support;
use crate::nds::{CpuId, NdsBridgeError, NdsErrorView};

verus! {

/// One core with its connection.
pub struct CpuConn<G> {
    pub id: CpuId,
    pub gdb: G,
    pub frozen: bool,
    pub events: Vec<Json>,
}

/// What is known of a core.
#[verifier::ext_equal]
pub struct CoreView {
    pub id: CpuId,
    pub frozen: bool,
    pub events: Seq<JsonView>,
}

impl<G> View for CpuConn<G> {
    type V = CoreView;

    open spec fn view(&self) -> CoreView {
        CoreView { id: self.id, frozen: self.frozen, events: json::views(self.events@) }
    }
}

/// What an operation on a core comes to: the place after it, the core after it, and its result.
pub type Run<T> = Option<(int, CoreView, Result<T, NdsErrorView>)>;

/// A core after a stop was noticed. A stop of the bridge's own interrupts is none of the core's,
/// and does not say that it is frozen.
pub open spec fn noted(core: CoreView, stop: Seq<char>) -> CoreView {
    if support::is_interrupt(stop) {
        core
    } else {
        CoreView {
            frozen: true,
            events: core.events.push(support::stop_view(stop, core.id)),
            ..core
        }
    }
}

/// A core after a list of stops was noticed, one after the other.
pub open spec fn all_noted(core: CoreView, stops: Seq<String>) -> CoreView
    decreases stops.len(),
{
    if stops.len() == 0 {
        core
    } else {
        noted(all_noted(core, stops.drop_last()), stops.last()@)
    }
}

/// Taking the stops that have arrived.
pub open spec fn drain_run(h: Seq<GdbStep>, n: int, core: CoreView) -> Run<()>
    decreases h.len() - n,
{
    if !(0 <= n < h.len()) {
        None
    } else {
        match h[n] {
            GdbStep::Polled { packet } => match packet {
                Err(e) => Some((n + 1, core, Err(NdsErrorView::Gdb(e)))),
                Ok(None) => Some((n + 1, core, Ok(()))),
                Ok(Some(p)) => if gdb::is_stop(p) {
                    drain_run(h, n + 1, noted(core, p))
                } else {
                    Some((n + 1, core, Ok(())))
                },
            },
            _ => None,
        }
    }
}

/// Freezing a core. The result says whether a stop of its own was found: it then stands there, and
/// is not to be set running again. A core that turns out to be stopped is not interrupted.
pub open spec fn pause_run(h: Seq<GdbStep>, n: int, core: CoreView) -> Run<bool> {
    if core.frozen {
        Some((n, core, Ok(false)))
    } else {
        match drain_run(h, n, core) {
            None => None,
            Some((m, c, Err(e))) => Some((m, c, Err(e))),
            Some((m, c, Ok(()))) => {
                let found = c.events.len() > core.events.len();
                if c.frozen {
                    Some((m, c, Ok(found)))
                } else if !(0 <= m < h.len() && h[m] is Interrupted) {
                    None
                } else {
                    match gdb::reply_at(h, m) {
                        Err(e) => Some((m + 1, c, Err(NdsErrorView::Gdb(e)))),
                        Ok(stop) => Some(
                            (m + 1, CoreView { frozen: true, ..noted(c, stop) }, Ok(found)),
                        ),
                    }
                }
            },
        }
    }
}

/// Setting a core running.
pub open spec fn resume_run(h: Seq<GdbStep>, n: int, core: CoreView) -> Run<()> {
    if !core.frozen {
        Some((n, core, Ok(())))
    } else if !gdb::is_told(h, n, "c"@) {
        None
    } else {
        match gdb::outcome_at(h, n) {
            Err(e) => Some((n + 1, core, Err(NdsErrorView::Gdb(e)))),
            Ok(()) => Some((n + 1, CoreView { frozen: false, ..core }, Ok(()))),
        }
    }
}

/// Freezing a core for an operation. The result says whether it is to run again afterwards.
pub open spec fn enter_run(h: Seq<GdbStep>, n: int, core: CoreView) -> Run<bool> {
    match pause_run(h, n, core) {
        None => None,
        Some((m, c, Err(e))) => Some((m, c, Err(e))),
        Some((m, c, Ok(found))) => Some((m, c, Ok(!core.frozen && !found))),
    }
}

/// Setting a core running again after an operation; that this fails is not told.
pub open spec fn leave_run(h: Seq<GdbStep>, n: int, core: CoreView, again: bool) -> Option<
    (int, CoreView),
> {
    if !again {
        Some((n, core))
    } else {
        match resume_run(h, n, core) {
            None => None,
            Some((m, c, _)) => Some((m, c)),
        }
    }
}

/// An operation on a core that is frozen around it.
pub open spec fn bracket<T>(
    h: Seq<GdbStep>,
    n: int,
    core: CoreView,
    body: spec_fn(int, CoreView) -> Run<T>,
) -> Run<T> {
    match enter_run(h, n, core) {
        None => None,
        Some((m, c, Err(e))) => Some((m, c, Err(e))),
        Some((m, c, Ok(again))) => match body(m, c) {
            None => None,
            Some((k, d, result)) => match leave_run(h, k, d, again) {
                None => None,
                Some((j, e)) => Some((j, e, result)),
            },
        },
    }
}

/// Reading on until a reply is none of the stops that `is_stop` tells.
pub open spec fn reply_run(
    h: Seq<GdbStep>,
    n: int,
    core: CoreView,
    reply: Seq<char>,
) -> Run<Seq<char>>
    decreases h.len() - n,
{
    if !gdb::is_stop(reply) {
        Some((n, core, Ok(reply)))
    } else if !(0 <= n < h.len() && h[n] is Received) {
        None
    } else {
        match gdb::reply_at(h, n) {
            Err(e) => Some((n + 1, noted(core, reply), Err(NdsErrorView::Gdb(e)))),
            Ok(next) => reply_run(h, n + 1, noted(core, reply), next),
        }
    }
}

/// Sending a command to a frozen core. Stops ahead of its reply are noticed and passed over.
pub open spec fn exchange_run(h: Seq<GdbStep>, n: int, core: CoreView, payload: Seq<char>) -> Run<
    Seq<char>,
> {
    if !gdb::is_sent(h, n, payload) {
        None
    } else {
        match gdb::reply_at(h, n) {
            Err(e) => Some((n + 1, core, Err(NdsErrorView::Gdb(e)))),
            Ok(reply) => if support::expects_stop(payload) {
                Some((n + 1, core, Ok(reply)))
            } else {
                reply_run(h, n + 1, core, reply)
            },
        }
    }
}

/// Sending a command.
pub open spec fn cmd_run(h: Seq<GdbStep>, n: int, core: CoreView, payload: Seq<char>) -> Run<
    Seq<char>,
> {
    bracket(h, n, core, |m: int, c: CoreView| exchange_run(h, m, c, payload))
}

proof fn drains_lose_no_stop(h: Seq<GdbStep>, n: int, core: CoreView)
    ensures
        drain_run(h, n, core) matches Some((_, c, _)) ==> {
            &&& core.events.is_prefix_of(c.events)
            &&& core.frozen ==> c.frozen
            &&& c.events.len() > core.events.len() ==> c.frozen
        },
    decreases h.len() - n,
{
    if 0 <= n < h.len() {
        if let GdbStep::Polled { packet: Ok(Some(p)) } = h[n] {
            if gdb::is_stop(p) {
                drains_lose_no_stop(h, n + 1, noted(core, p));
            }
        }
    }
}

proof fn replies_lose_no_stop(h: Seq<GdbStep>, n: int, core: CoreView, reply: Seq<char>)
    ensures
        reply_run(h, n, core, reply) matches Some((_, c, _)) ==> {
            &&& core.events.is_prefix_of(c.events)
            &&& core.frozen ==> c.frozen
        },
    decreases h.len() - n,
{
    if gdb::is_stop(reply) && 0 <= n < h.len() && h[n] is Received {
        if let Ok(next) = gdb::reply_at(h, n) {
            replies_lose_no_stop(h, n + 1, noted(core, reply), next);
        }
    }
}

/// A command loses no stop of its core, and it never runs a core past one: a core that stood, or at
/// which a stop had arrived, stands afterwards.
pub proof fn commands_respect_stops(h: Seq<GdbStep>, n: int, core: CoreView, payload: Seq<char>)
    ensures
        cmd_run(h, n, core, payload) matches Some((_, c, _)) ==> {
            &&& core.events.is_prefix_of(c.events)
            &&& core.frozen ==> c.frozen
            &&& (drain_run(h, n, core) matches Some((_, d, Ok(_)))
                && d.events.len() > core.events.len()) ==> c.frozen
        },
{
    drains_lose_no_stop(h, n, core);
    if let Some((m, c, Ok(_))) = enter_run(h, n, core) {
        if gdb::is_sent(h, m, payload) {
            if let Ok(reply) = gdb::reply_at(h, m) {
                replies_lose_no_stop(h, m + 1, c, reply);
            }
        }
    }
}

/// Whether a core is never told to run between two points of its history.
pub open spec fn stands(h: Seq<GdbStep>, n: int, m: int) -> bool {
    n <= m && forall|k: int| n <= k < m ==> !(#[trigger] h[k] is Told)
}

/// An operation that a core is frozen around finds it frozen.
pub proof fn brackets_freeze(h: Seq<GdbStep>, n: int, core: CoreView)
    ensures
        enter_run(h, n, core) matches Some((_, c, Ok(_))) ==> c.frozen,
{
}

proof fn replies_stand(h: Seq<GdbStep>, n: int, core: CoreView, reply: Seq<char>)
    ensures
        reply_run(h, n, core, reply) matches Some((m, _, _)) ==> stands(h, n, m),
    decreases h.len() - n,
{
    if gdb::is_stop(reply) && 0 <= n < h.len() && h[n] is Received {
        if let Ok(next) = gdb::reply_at(h, n) {
            replies_stand(h, n + 1, noted(core, reply), next);
        }
    }
}

/// A command to a frozen core leaves it frozen, and does not let it run in between.
pub proof fn frozen_commands_stand(h: Seq<GdbStep>, n: int, core: CoreView, payload: Seq<char>)
    requires
        core.frozen,
    ensures
        cmd_run(h, n, core, payload) matches Some((m, c, _)) ==> c.frozen && stands(h, n, m),
{
    commands_respect_stops(h, n, core, payload);
    if gdb::is_sent(h, n, payload) {
        if let Ok(reply) = gdb::reply_at(h, n) {
            replies_stand(h, n + 1, core, reply);
        }
    }
}

/// Whether an operation on a core went on from its history.
pub open spec fn went_on<G: GdbTransport>(before: CpuConn<G>, after: CpuConn<G>) -> bool {
    &&& gdb::goes_on(before.gdb.history(), after.gdb.history())
    &&& after.id == before.id
}

/// The error of a connection.
pub fn gdb_error(error: GdbError) -> (r: NdsBridgeError)
    ensures
        r@ == NdsErrorView::Gdb(error@),
{
    NdsBridgeError::Gdb(error)
}

impl<G: GdbTransport> CpuConn<G> {
    /// A core at a connection. It is frozen where the stub answers at all, because it halts at
    /// the start.
    pub fn new(id: CpuId, gdb: G) -> (r: Self)
        ensures
            gdb::is_sent(r.gdb.history(), gdb.history().len() as int, "?"@),
            r.gdb.history().len() == gdb.history().len() + 1,
            gdb::goes_on(gdb.history(), r.gdb.history()),
            r@ == (CoreView {
                id,
                frozen: gdb::reply_at(r.gdb.history(), gdb.history().len() as int) is Ok,
                events: Seq::empty(),
            }),
    {
        let mut gdb = gdb;
        let frozen = gdb.send("?").is_ok();
        let r = CpuConn { id, gdb, frozen, events: Vec::new() };
        assert(r@.events =~= Seq::empty());
        r
    }

    /// Notices a stop.
    pub fn note_stop(&mut self, stop: &str)
        ensures
            final(self)@ == noted(old(self)@, stop@),
            final(self).gdb == old(self).gdb,
    {
        if support::is_interrupt_stop(stop) {
            return;
        }
        self.frozen = true;
        let ghost earlier = self.events@;
        let event = support::stop_event(stop, self.id);
        self.events.push(event);
        assert(json::views(self.events@) =~= json::views(earlier).push(event@));
    }

    fn note_all(&mut self, stops: &Vec<String>)
        ensures
            final(self)@ == all_noted(old(self)@, stops@),
            final(self).gdb == old(self).gdb,
            final(self).id == old(self).id,
    {
        let mut i: usize = 0;
        while i < stops.len()
            invariant
                i <= stops.len(),
                self@ == all_noted(old(self)@, stops@.take(i as int)),
                self.gdb == old(self).gdb,
                self.id == old(self).id,
            decreases stops.len() - i,
        {
            let ghost before = self@;
            self.note_stop(stops[i].as_str());
            assert(self@.id == before.id);
            i += 1;
            assert(stops@.take(i as int).drop_last() =~= stops@.take(i - 1));
        }
        assert(stops@.take(i as int) =~= stops@);
    }

    /// Takes the stops that have arrived, without waiting.
    pub fn drain_stops(&mut self) -> (r: Result<(), NdsBridgeError>)
        ensures
            went_on(*old(self), *final(self)),
            forall|h: Seq<GdbStep>|
                gdb::goes_on(final(self).gdb.history(), h) ==> #[trigger] drain_run(
                    h,
                    old(self).gdb.history().len() as int,
                    old(self)@,
                ) == Some((final(self).gdb.history().len() as int, final(self)@, nds::plain(r))),
    {
        let ghost n = self.gdb.history().len() as int;
        let ghost start = self@;
        let mut stops: Vec<String> = Vec::new();
        loop
            invariant
                n == old(self).gdb.history().len(),
                start == old(self)@,
                self@ == start,
                went_on(*old(self), *self),
                forall|h: Seq<GdbStep>|
                    gdb::goes_on(self.gdb.history(), h) ==> #[trigger] drain_run(h, n, start)
                        == drain_run(
                        h,
                        self.gdb.history().len() as int,
                        all_noted(start, stops@),
                    ),
            decreases usize::MAX - stops.len(),
        {
            let ghost here = self.gdb.history();
            let polled = self.gdb.recv_nonblocking();
            proof {
                let now = self.gdb.history();
                assert forall|h: Seq<GdbStep>| gdb::goes_on(now, h) implies {
                    &&& gdb::goes_on(here, h)
                    &&& #[trigger] h[here.len() as int] == (GdbStep::Polled {
                        packet: gdb::packet_reply(polled),
                    })
                } by {
                    assert(h[here.len() as int] == now[here.len() as int]);
                    assert forall|i: int| 0 <= i < here.len() implies #[trigger] h[i] == here[i] by {
                        assert(h[i] == now[i]);
                    }
                }
            }
            let packet = match polled {
                Ok(Some(packet)) => packet,
                Ok(None) => {
                    self.note_all(&stops);
                    return Ok(());
                },
                Err(error) => {
                    self.note_all(&stops);
                    return Err(gdb_error(error));
                },
            };
            if !gdb::is_stop_packet(packet.as_str()) {
                self.note_all(&stops);
                return Ok(());
            }
            let ghost earlier = stops@;
            stops.push(packet);
            assert(stops@.drop_last() =~= earlier);
        }
    }

    /// Freezes the core, and says whether a stop of its own was found.
    pub fn pause(&mut self) -> (r: Result<bool, NdsBridgeError>)
        ensures
            went_on(*old(self), *final(self)),
            forall|h: Seq<GdbStep>|
                gdb::goes_on(final(self).gdb.history(), h) ==> #[trigger] pause_run(
                    h,
                    old(self).gdb.history().len() as int,
                    old(self)@,
                ) == Some((final(self).gdb.history().len() as int, final(self)@, nds::plain(r))),
    {
        if self.frozen {
            return Ok(false);
        }
        let ghost n = self.gdb.history().len() as int;
        let ghost start = self@;
        let before: usize = self.events.len();
        let drained = self.drain_stops();
        let ghost h1 = self.gdb.history();
        let ghost core = self@;
        drained?;
        let found = self.events.len() > before;
        if self.frozen {
            return Ok(found);
        }
        let stop = self.gdb.interrupt();
        let ghost h2 = self.gdb.history();
        proof {
            assert(gdb::goes_on(h1, h2));
            gdb::goes_on_through(h1, h2);
            assert forall|h: Seq<GdbStep>| gdb::goes_on(h2, h) implies {
                &&& gdb::goes_on(h1, h)
                &&& #[trigger] h[h1.len() as int] == (GdbStep::Interrupted {
                    reply: gdb::text_reply(stop),
                })
            } by {
                assert(h[h1.len() as int] == h2[h1.len() as int]);
                assert(gdb::goes_on(h1, h));
            }
            assert forall|h: Seq<GdbStep>| gdb::goes_on(h2, h) implies {
                &&& drain_run(h, n, start) == Some(
                    (h1.len() as int, core, Ok::<(), NdsErrorView>(())),
                )
                &&& #[trigger] gdb::reply_at(h, h1.len() as int) == gdb::text_reply(stop)
                &&& h[h1.len() as int] is Interrupted
            } by {
                assert(h[h1.len() as int] is Interrupted);
            }
            assert forall|h: Seq<GdbStep>| gdb::goes_on(h2, h) implies #[trigger] pause_run(
                h,
                n,
                start,
            ) == (match gdb::text_reply(stop) {
                Err(e) => Some((h2.len() as int, core, Err(NdsErrorView::Gdb(e)))),
                Ok(s) => Some(
                    (h2.len() as int, CoreView { frozen: true, ..noted(core, s) }, Ok(found)),
                ),
            }) by {
                assert(gdb::reply_at(h, h1.len() as int) == gdb::text_reply(stop));
            }
        }
        match stop {
            Ok(stop) => {
                self.note_stop(stop.as_str());
                self.frozen = true;
                Ok(found)
            },
            Err(error) => Err(gdb_error(error)),
        }
    }

    /// Sets the core running.
    pub fn resume(&mut self) -> (r: Result<(), NdsBridgeError>)
        ensures
            went_on(*old(self), *final(self)),
            forall|h: Seq<GdbStep>|
                gdb::goes_on(final(self).gdb.history(), h) ==> #[trigger] resume_run(
                    h,
                    old(self).gdb.history().len() as int,
                    old(self)@,
                ) == Some((final(self).gdb.history().len() as int, final(self)@, nds::plain(r))),
    {
        if !self.frozen {
            return Ok(());
        }
        let ghost n = self.gdb.history().len() as int;
        let told = self.gdb.send_no_reply("c");
        proof {
            let now = self.gdb.history();
            assert forall|h: Seq<GdbStep>| gdb::goes_on(now, h) implies {
                &&& gdb::is_told(h, n, "c"@)
                &&& #[trigger] gdb::outcome_at(h, n) == gdb::done_reply(told)
            } by {
                assert(h[n] == now[n]);
            }
        }
        match told {
            Ok(()) => {
                self.frozen = false;
                Ok(())
            },
            Err(error) => Err(gdb_error(error)),
        }
    }

    /// Freezes the core for an operation, and says whether it is to run again afterwards.
    pub fn enter(&mut self) -> (r: Result<bool, NdsBridgeError>)
        ensures
            went_on(*old(self), *final(self)),
            r is Ok ==> final(self).frozen,
            forall|h: Seq<GdbStep>|
                gdb::goes_on(final(self).gdb.history(), h) ==> #[trigger] enter_run(
                    h,
                    old(self).gdb.history().len() as int,
                    old(self)@,
                ) == Some((final(self).gdb.history().len() as int, final(self)@, nds::plain(r))),
    {
        let running = !self.frozen;
        let ghost n = self.gdb.history().len() as int;
        let ghost start = self@;
        let paused = self.pause();
        proof {
            let now = self.gdb.history();
            assert(gdb::goes_on(now, now));
            assert(pause_run(now, n, start) == Some((now.len() as int, self@, nds::plain(paused))));
        }
        match paused {
            Ok(found) => Ok(running && !found),
            Err(error) => Err(error),
        }
    }

    /// Sets the core running again after an operation.
    pub fn leave(&mut self, again: bool)
        ensures
            went_on(*old(self), *final(self)),
            forall|h: Seq<GdbStep>|
                gdb::goes_on(final(self).gdb.history(), h) ==> #[trigger] leave_run(
                    h,
                    old(self).gdb.history().len() as int,
                    old(self)@,
                    again,
                ) == Some((final(self).gdb.history().len() as int, final(self)@)),
    {
        if again {
            let _resumed = self.resume();
        }
    }

    fn exchange(&mut self, payload: &str) -> (r: Result<String, NdsBridgeError>)
        ensures
            went_on(*old(self), *final(self)),
            forall|h: Seq<GdbStep>|
                gdb::goes_on(final(self).gdb.history(), h) ==> #[trigger] exchange_run(
                    h,
                    old(self).gdb.history().len() as int,
                    old(self)@,
                    payload@,
                ) == Some((final(self).gdb.history().len() as int, final(self)@, nds::shown(r))),
    {
        let ghost n = self.gdb.history().len() as int;
        let ghost start = self@;
        let sent = self.gdb.send(payload);
        let ghost h1 = self.gdb.history();
        proof {
            assert forall|h: Seq<GdbStep>| gdb::goes_on(h1, h) implies {
                &&& gdb::is_sent(h, n, payload@)
                &&& #[trigger] gdb::reply_at(h, n) == gdb::text_reply(sent)
            } by {
                assert(h[n] == h1[n]);
            }
        }
        let mut reply = match sent {
            Ok(reply) => reply,
            Err(error) => {
                return Err(gdb_error(error));
            },
        };
        if support::command_expects_stop(payload) {
            return Ok(reply);
        }
        let mut stops: Vec<String> = Vec::new();
        while gdb::is_stop_packet(reply.as_str())
            invariant
                n == old(self).gdb.history().len(),
                start == old(self)@,
                self@ == start,
                went_on(*old(self), *self),
                forall|h: Seq<GdbStep>|
                    gdb::goes_on(self.gdb.history(), h) ==> #[trigger] exchange_run(
                        h,
                        n,
                        start,
                        payload@,
                    ) == reply_run(
                        h,
                        self.gdb.history().len() as int,
                        all_noted(start, stops@),
                        reply@,
                    ),
            decreases usize::MAX - stops.len(),
        {
            let ghost here = self.gdb.history();
            let ghost earlier = stops@;
            let ghost stop = reply@;
            stops.push(reply);
            assert(stops@.drop_last() =~= earlier);
            let received = self.gdb.recv_reply();
            proof {
                let now = self.gdb.history();
                assert forall|h: Seq<GdbStep>| gdb::goes_on(now, h) implies {
                    &&& gdb::goes_on(here, h)
                    &&& h[here.len() as int] is Received
                    &&& #[trigger] gdb::reply_at(h, here.len() as int) == gdb::text_reply(received)
                } by {
                    assert(h[here.len() as int] == now[here.len() as int]);
                    assert forall|i: int| 0 <= i < here.len() implies #[trigger] h[i] == here[i] by {
                        assert(h[i] == now[i]);
                    }
                }
                assert forall|h: Seq<GdbStep>| gdb::goes_on(now, h) implies #[trigger] exchange_run(
                    h,
                    n,
                    start,
                    payload@,
                ) == (match gdb::text_reply(received) {
                    Err(e) => Some(
                        (now.len() as int, all_noted(start, stops@), Err(NdsErrorView::Gdb(e))),
                    ),
                    Ok(next) => reply_run(h, now.len() as int, all_noted(start, stops@), next),
                }) by {
                    assert(gdb::reply_at(h, here.len() as int) == gdb::text_reply(received));
                    assert(all_noted(start, stops@) == noted(all_noted(start, earlier), stop));
                }
            }
            reply = match received {
                Ok(reply) => reply,
                Err(error) => {
                    self.note_all(&stops);
                    return Err(gdb_error(error));
                },
            };
        }
        self.note_all(&stops);
        Ok(reply)
    }

    /// Sends a command and gives its reply.
    pub fn send_cmd(&mut self, payload: &str) -> (r: Result<String, NdsBridgeError>)
        ensures
            went_on(*old(self), *final(self)),
            forall|h: Seq<GdbStep>|
                gdb::goes_on(final(self).gdb.history(), h) ==> #[trigger] cmd_run(
                    h,
                    old(self).gdb.history().len() as int,
                    old(self)@,
                    payload@,
                ) == Some((final(self).gdb.history().len() as int, final(self)@, nds::shown(r))),
    {
        let entered = self.enter();
        let ghost h1 = self.gdb.history();
        let again = entered?;
        let r = self.exchange(payload);
        let ghost h2 = self.gdb.history();
        self.leave(again);
        proof {
            gdb::goes_on_through(h1, h2);
            gdb::goes_on_through(h2, self.gdb.history());
        }
        r
    }
}

} // verus!
