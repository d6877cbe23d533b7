//! Operations of a core that take time: waiting for a timed override, and stepping instructions
//! within a budget.

use vstd::prelude::*;
use crate::gdb;
use crate::gdb::{GdbStep, GdbTransport};
use crate::json::{Json, JsonView};
use crate::live::exchange;
use crate::live::temporal::{MAX_SYNC_ADVANCE_COUNT, NANOS_PER_MS};
use crate::nds;
use crate::nds::commands;
use crate::nds::cpu;
use crate::nds::cpu::{CoreView, CpuConn, Run};
use crate::nds::decode;
use crate::nds::support;
use crate::nds::{
    NdsBridgeError, NdsErrorView, TIMED_INPUT_DEADLINE, TIMED_INPUT_POLL_INTERVAL,
};
use crate::text;

verus! {

/// How a timed override ended.
#[derive(Debug, Clone, Copy, PartialEq, Eq, Structural)]
pub enum TimedOverrideTerminal {
    Completed,
    Interrupted { frames_elapsed: u64 },
}

/// How often a timed override is looked at: by then its time is over, because each look waits.
pub const MAX_TIMED_INPUT_POLLS: u64 = 500;

/// The frames of an override that have passed.
pub open spec fn elapsed_frames(requested: u64, remaining: i64) -> u64 {
    if requested > remaining {
        (requested - remaining) as u64
    } else {
        0
    }
}

/// The message that an override did not end in time.
pub open spec fn overdue(requested: u64, remaining: i64) -> Seq<char> {
    let m = (("timed override did not complete within "@ + text::decimal(
        (TIMED_INPUT_DEADLINE / NANOS_PER_MS) as int,
    )) + " ms (requested "@) + text::decimal(requested as int);
    ((m + " frames, "@) + text::decimal(remaining as int)) + " remaining)"@
}

/// Looking at an override until it ends. A core that stopped meanwhile ends it too, even where the
/// override ran out in the same frame.
pub open spec fn look_run(
    h: Seq<GdbStep>,
    n: int,
    core: CoreView,
    query: Seq<char>,
    requested: u64,
    started: u64,
    left: nat,
) -> Run<TimedOverrideTerminal>
    decreases left,
{
    if !(0 <= n < h.len() && h[n] == (GdbStep::Waited { time: TIMED_INPUT_POLL_INTERVAL })) {
        None
    } else {
        match commands::remaining_run(h, n + 1, core, query) {
            None => None,
            Some((m, c, Err(e))) => Some((m, c, Err(e))),
            Some((m, c, Ok(remaining))) => if remaining < 0 {
                Some(
                    (
                        m,
                        c,
                        commands::fault("timed override unexpectedly became a persistent hold"@),
                    ),
                )
            } else if c.frozen {
                Some(
                    (
                        m,
                        c,
                        Ok(
                            TimedOverrideTerminal::Interrupted {
                                frames_elapsed: elapsed_frames(requested, remaining),
                            },
                        ),
                    ),
                )
            } else if remaining == 0 {
                Some((m, c, Ok(TimedOverrideTerminal::Completed)))
            } else if !(0 <= m < h.len()) {
                None
            } else {
                match h[m] {
                    GdbStep::Clock { now } => if left <= 1 || now - started
                        >= TIMED_INPUT_DEADLINE {
                        Some((m + 1, c, commands::fault(overdue(requested, remaining))))
                    } else {
                        look_run(h, m + 1, c, query, requested, started, (left - 1) as nat)
                    },
                    _ => None,
                }
            },
        }
    }
}

/// Waiting for the end of a timed override.
pub open spec fn wait_run(
    h: Seq<GdbStep>,
    n: int,
    core: CoreView,
    query: Seq<char>,
    requested: u64,
) -> Run<TimedOverrideTerminal> {
    if !(0 <= n < h.len()) {
        None
    } else {
        match h[n] {
            GdbStep::Clock { now } => look_run(
                h,
                n + 1,
                core,
                query,
                requested,
                now,
                MAX_TIMED_INPUT_POLLS as nat,
            ),
            _ => None,
        }
    }
}

/// The message that an advance is too long.
pub open spec fn too_many(count: u64) -> Seq<char> {
    ((("instruction count "@ + text::decimal(count as int)) + " exceeds the synchronous cap "@)
        + text::decimal(MAX_SYNC_ADVANCE_COUNT as int))
        + "; split the advance and verify each terminal response"@
}

/// The message that an advance ended early.
pub open spec fn stopped_short(done: u64, count: u64, cause: Seq<char>) -> Seq<char> {
    let m = (("instruction step stopped after "@ + text::decimal(done as int))
        + " acknowledged of "@) + text::decimal(count as int);
    ((m + ": "@) + cause) + "; the core remains frozen"@
}

/// The timeout of one step: the usual one, but no more than is left, and no less than one
/// millisecond.
pub open spec fn clipped(usual: u64, deadline: u64, now: u64) -> u64 {
    let left = if deadline > now {
        (deadline - now) as u64
    } else {
        0
    };
    let least = if left < usual {
        left
    } else {
        usual
    };
    if least < NANOS_PER_MS {
        NANOS_PER_MS
    } else {
        least
    }
}

/// Stepping a frozen core, one acknowledged instruction after another.
pub open spec fn steps_run(
    h: Seq<GdbStep>,
    n: int,
    core: CoreView,
    usual: u64,
    deadline: u64,
    count: u64,
    done: u64,
) -> Run<()>
    decreases count - done,
{
    if done >= count {
        Some((n, core, Ok(())))
    } else if !(0 <= n < h.len()) {
        None
    } else {
        match h[n] {
            GdbStep::Clock { now } => if now >= deadline {
                Some(
                    (
                        n + 1,
                        core,
                        commands::fault(stopped_short(done, count, "deadline exceeded"@)),
                    ),
                )
            } else {
                match cpu::drain_run(h, n + 1, core) {
                    None => None,
                    Some((m, c, Err(e))) => Some((m, c, Err(e))),
                    Some((m, c, Ok(()))) => if !gdb::is_timeout_set(
                        h,
                        m,
                        clipped(usual, deadline, now),
                    ) {
                        None
                    } else {
                        match gdb::outcome_at(h, m) {
                            Err(e) => Some((m + 1, c, Err(NdsErrorView::Gdb(e)))),
                            Ok(()) => match cpu::cmd_run(h, m + 1, c, "s"@) {
                                None => None,
                                Some((k, d, Err(e))) => Some(
                                    (
                                        k,
                                        d,
                                        commands::fault(
                                            stopped_short(done, count, e.sentence()),
                                        ),
                                    ),
                                ),
                                Some((k, d, Ok(reply))) => if commands::is_error(reply) {
                                    Some(
                                        (
                                            k,
                                            d,
                                            commands::fault(
                                                "GDB instruction step failed: "@ + reply,
                                            ),
                                        ),
                                    )
                                } else if !gdb::is_stop(reply) {
                                    Some(
                                        (
                                            k,
                                            d,
                                            commands::fault(
                                                "GDB instruction step returned unexpected response: "@
                                                    + reply,
                                            ),
                                        ),
                                    )
                                } else {
                                    steps_run(
                                        h,
                                        k,
                                        d,
                                        usual,
                                        deadline,
                                        count,
                                        (done + 1) as u64,
                                    )
                                },
                            },
                        }
                    },
                }
            },
            _ => None,
        }
    }
}

/// Stepping a frozen core within a budget. The usual timeout is put back whatever the steps gave,
/// and the core counts as frozen.
pub open spec fn budgeted_run(h: Seq<GdbStep>, n: int, core: CoreView, count: u64, budget: u64) -> Run<
    (),
> {
    if !(0 <= n && n + 1 < h.len()) {
        None
    } else {
        match (h[n], h[n + 1]) {
            (GdbStep::Clock { now }, GdbStep::TimeoutRead { told }) => match told {
                Err(e) => Some((n + 2, core, Err(NdsErrorView::Gdb(e)))),
                Ok(usual) => match steps_run(
                    h,
                    n + 2,
                    core,
                    usual,
                    exchange::capped_sum(now, budget),
                    count,
                    0,
                ) {
                    None => None,
                    Some((k, d, outcome)) => if !gdb::is_timeout_set(h, k, usual) {
                        None
                    } else {
                        Some(
                            (
                                k + 1,
                                CoreView { frozen: true, ..d },
                                match (outcome, gdb::outcome_at(h, k)) {
                                    (Err(e), _) => Err(e),
                                    (_, Err(e)) => Err(NdsErrorView::Gdb(e)),
                                    _ => Ok(()),
                                },
                            ),
                        )
                    },
                },
            },
            _ => None,
        }
    }
}

/// Stepping a core within a budget: it is frozen first and stays so. The result is the state after
/// the last step.
pub open spec fn step_run(h: Seq<GdbStep>, n: int, core: CoreView, count: u64, budget: u64) -> Run<
    JsonView,
> {
    if count > MAX_SYNC_ADVANCE_COUNT {
        Some((n, core, support::bad(too_many(count))))
    } else {
        match cpu::pause_run(h, n, core) {
            None => None,
            Some((m, c, Err(e))) => Some((m, c, Err(e))),
            Some((m, c, Ok(_))) => match budgeted_run(h, m, c, count, budget) {
                None => None,
                Some((k, d, Err(e))) => Some((k, d, Err(e))),
                Some((k, d, Ok(()))) => match commands::regs_run(h, k, d) {
                    None => None,
                    Some((j, f, Err(e))) => Some((j, f, Err(e))),
                    Some((j, f, Ok(packet))) => Some((j, f, Ok(decode::state_of(packet)))),
                },
            },
        }
    }
}

fn overdue_text(requested: u64, remaining: i64) -> (r: String)
    ensures
        r@ == overdue(requested, remaining),
{
    let m = text::join(
        "timed override did not complete within ",
        text::decimal_of(TIMED_INPUT_DEADLINE / NANOS_PER_MS).as_str(),
    );
    let m = text::join(m.as_str(), " ms (requested ");
    let m = text::join(m.as_str(), text::decimal_of(requested).as_str());
    let m = text::join(m.as_str(), " frames, ");
    let m = text::join(m.as_str(), text::signed_decimal_of(remaining).as_str());
    text::join(m.as_str(), " remaining)")
}

fn stopped_text(done: u64, count: u64, cause: &str) -> (r: String)
    ensures
        r@ == stopped_short(done, count, cause@),
{
    let m = text::join("instruction step stopped after ", text::decimal_of(done).as_str());
    let m = text::join(m.as_str(), " acknowledged of ");
    let m = text::join(m.as_str(), text::decimal_of(count).as_str());
    let m = text::join(m.as_str(), ": ");
    let m = text::join(m.as_str(), cause);
    text::join(m.as_str(), "; the core remains frozen")
}

fn clip(usual: u64, deadline: u64, now: u64) -> (r: u64)
    ensures
        r == clipped(usual, deadline, now),
{
    let left: u64 = if deadline > now {
        deadline - now
    } else {
        0
    };
    let least: u64 = if left < usual {
        left
    } else {
        usual
    };
    if least < NANOS_PER_MS {
        NANOS_PER_MS
    } else {
        least
    }
}

impl<G: GdbTransport> CpuConn<G> {
    /// Waits for the end of a timed override.
    pub fn wait_timed_override(&mut self, query: &str, requested: u64) -> (r: Result<
        TimedOverrideTerminal,
        NdsBridgeError,
    >)
        ensures
            cpu::went_on(*old(self), *final(self)),
            r matches Ok(TimedOverrideTerminal::Completed) ==> !final(self).frozen,
            r matches Ok(TimedOverrideTerminal::Interrupted { .. }) ==> final(self).frozen,
            forall|h: Seq<GdbStep>|
                gdb::goes_on(final(self).gdb.history(), h) ==> #[trigger] wait_run(
                    h,
                    old(self).gdb.history().len() as int,
                    old(self)@,
                    query@,
                    requested,
                ) == Some((final(self).gdb.history().len() as int, final(self)@, nds::plain(r))),
    {
        let ghost n = self.gdb.history().len() as int;
        let ghost start = self@;
        let started: u64 = self.gdb.clock();
        let ghost h1 = self.gdb.history();
        let mut left: u64 = MAX_TIMED_INPUT_POLLS;
        proof {
            assert forall|h: Seq<GdbStep>| gdb::goes_on(h1, h) implies #[trigger] wait_run(
                h,
                n,
                start,
                query@,
                requested,
            ) == look_run(h, h1.len() as int, start, query@, requested, started, left as nat) by {
                assert(h[n] == h1[n]);
            }
        }
        loop
            invariant
                1 <= left <= MAX_TIMED_INPUT_POLLS,
                n == old(self).gdb.history().len(),
                start == old(self)@,
                cpu::went_on(*old(self), *self),
                forall|h: Seq<GdbStep>|
                    gdb::goes_on(self.gdb.history(), h) ==> #[trigger] wait_run(
                        h,
                        n,
                        start,
                        query@,
                        requested,
                    ) == look_run(
                        h,
                        self.gdb.history().len() as int,
                        self@,
                        query@,
                        requested,
                        started,
                        left as nat,
                    ),
            decreases left,
        {
            let ghost here = self.gdb.history();
            let ghost core = self@;
            let ghost k = here.len() as int;
            self.gdb.wait(TIMED_INPUT_POLL_INTERVAL);
            let ghost waited = self.gdb.history();
            let looked = self.override_remaining(query);
            let ghost h2 = self.gdb.history();
            let ghost seen = self@;
            proof {
                assert(gdb::goes_on(here, waited));
                gdb::goes_on_through(here, waited);
                gdb::goes_on_through(waited, h2);
                assert forall|h: Seq<GdbStep>| gdb::goes_on(h2, h) implies {
                    &&& gdb::goes_on(here, h)
                    &&& h[k] == (GdbStep::Waited { time: TIMED_INPUT_POLL_INTERVAL })
                    &&& #[trigger] commands::remaining_run(h, k + 1, core, query@) == Some(
                        (h2.len() as int, seen, nds::plain(looked)),
                    )
                } by {
                    assert(gdb::goes_on(waited, h));
                    assert(h[k] == waited[k]);
                    assert(gdb::goes_on(here, h));
                }
            }
            let remaining: i64 = looked?;
            if remaining < 0 {
                return Err(
                    NdsBridgeError::Emulator(
                        "timed override unexpectedly became a persistent hold".to_owned(),
                    ),
                );
            }
            if self.frozen {
                let frames_elapsed: u64 = if requested > remaining as u64 {
                    requested - remaining as u64
                } else {
                    0
                };
                return Ok(TimedOverrideTerminal::Interrupted { frames_elapsed });
            }
            if remaining == 0 {
                return Ok(TimedOverrideTerminal::Completed);
            }
            let now: u64 = self.gdb.clock();
            let ghost h3 = self.gdb.history();
            proof {
                assert(gdb::goes_on(h2, h3));
                gdb::goes_on_through(h2, h3);
                assert forall|h: Seq<GdbStep>| gdb::goes_on(h3, h) implies #[trigger] wait_run(
                    h,
                    n,
                    start,
                    query@,
                    requested,
                ) == (if left <= 1 || now - started >= TIMED_INPUT_DEADLINE {
                    Some(
                        (
                            h3.len() as int,
                            seen,
                            commands::fault::<TimedOverrideTerminal>(
                                overdue(requested, remaining),
                            ),
                        ),
                    )
                } else {
                    look_run(
                        h,
                        h3.len() as int,
                        seen,
                        query@,
                        requested,
                        started,
                        (left - 1) as nat,
                    )
                }) by {
                    assert(gdb::goes_on(h2, h));
                    assert(h[h2.len() as int] == h3[h2.len() as int]);
                    assert(commands::remaining_run(h, k + 1, core, query@) == Some(
                        (h2.len() as int, seen, nds::plain(looked)),
                    ));
                }
            }
            if left <= 1 || (now >= started && now - started >= TIMED_INPUT_DEADLINE) {
                return Err(NdsBridgeError::Emulator(overdue_text(requested, remaining)));
            }
            left -= 1;
        }
    }

    fn steps(&mut self, usual: u64, deadline: u64, count: u64) -> (r: Result<(), NdsBridgeError>)
        ensures
            cpu::went_on(*old(self), *final(self)),
            forall|h: Seq<GdbStep>|
                gdb::goes_on(final(self).gdb.history(), h) ==> #[trigger] steps_run(
                    h,
                    old(self).gdb.history().len() as int,
                    old(self)@,
                    usual,
                    deadline,
                    count,
                    0,
                ) == Some((final(self).gdb.history().len() as int, final(self)@, nds::plain(r))),
    {
        let ghost n = self.gdb.history().len() as int;
        let ghost start = self@;
        let mut done: u64 = 0;
        while done < count
            invariant
                done <= count,
                n == old(self).gdb.history().len(),
                start == old(self)@,
                cpu::went_on(*old(self), *self),
                forall|h: Seq<GdbStep>|
                    gdb::goes_on(self.gdb.history(), h) ==> #[trigger] steps_run(
                        h,
                        n,
                        start,
                        usual,
                        deadline,
                        count,
                        0,
                    ) == steps_run(
                        h,
                        self.gdb.history().len() as int,
                        self@,
                        usual,
                        deadline,
                        count,
                        done,
                    ),
            decreases count - done,
        {
            let ghost here = self.gdb.history();
            let ghost core = self@;
            let ghost k = here.len() as int;
            let now: u64 = self.gdb.clock();
            let ghost h1 = self.gdb.history();
            proof {
                assert(gdb::goes_on(here, h1));
                gdb::goes_on_through(here, h1);
                assert forall|h: Seq<GdbStep>| gdb::goes_on(h1, h) implies {
                    &&& gdb::goes_on(here, h)
                    &&& #[trigger] h[k] == (GdbStep::Clock { now })
                } by {
                    assert(h[k] == h1[k]);
                    assert(gdb::goes_on(here, h));
                }
            }
            if now >= deadline {
                return Err(
                    NdsBridgeError::Emulator(stopped_text(done, count, "deadline exceeded")),
                );
            }
            let drained = self.drain_stops();
            let ghost h2 = self.gdb.history();
            let ghost core2 = self@;
            proof {
                gdb::goes_on_through(h1, h2);
                assert forall|h: Seq<GdbStep>| gdb::goes_on(h2, h) implies {
                    &&& gdb::goes_on(here, h)
                    &&& h[k] == (GdbStep::Clock { now })
                    &&& #[trigger] cpu::drain_run(h, k + 1, core) == Some(
                        (h2.len() as int, core2, nds::plain(drained)),
                    )
                } by {
                    assert(gdb::goes_on(h1, h));
                }
            }
            drained?;
            let timeout: u64 = clip(usual, deadline, now);
            let set = self.gdb.set_timeout(timeout);
            let ghost h3 = self.gdb.history();
            let ghost m = h2.len() as int;
            proof {
                assert(gdb::goes_on(h2, h3));
                gdb::goes_on_through(h2, h3);
                assert forall|h: Seq<GdbStep>| gdb::goes_on(h3, h) implies {
                    &&& gdb::goes_on(h2, h)
                    &&& gdb::is_timeout_set(h, m, timeout)
                    &&& #[trigger] gdb::outcome_at(h, m) == gdb::done_reply(set)
                } by {
                    assert(gdb::goes_on(h2, h));
                    assert(h[m] == h3[m]);
                }
            }
            if let Err(error) = set {
                proof {
                    assert forall|h: Seq<GdbStep>| gdb::goes_on(h3, h) implies #[trigger] steps_run(
                        h,
                        n,
                        start,
                        usual,
                        deadline,
                        count,
                        0,
                    ) == Some(
                        (h3.len() as int, core2, Err::<(), _>(NdsErrorView::Gdb(error@))),
                    ) by {
                        assert(gdb::outcome_at(h, m) == gdb::done_reply(set));
                        assert(cpu::drain_run(h, k + 1, core) == Some(
                            (h2.len() as int, core2, nds::plain(drained)),
                        ));
                    }
                }
                return Err(cpu::gdb_error(error));
            }
            let sent = self.send_cmd("s");
            let ghost h4 = self.gdb.history();
            let ghost core4 = self@;
            proof {
                gdb::goes_on_through(h3, h4);
                assert forall|h: Seq<GdbStep>| gdb::goes_on(h4, h) implies #[trigger] steps_run(
                    h,
                    n,
                    start,
                    usual,
                    deadline,
                    count,
                    0,
                ) == (match nds::shown(sent) {
                    Err(e) => Some(
                        (
                            h4.len() as int,
                            core4,
                            commands::fault::<()>(stopped_short(done, count, e.sentence())),
                        ),
                    ),
                    Ok(reply) => if commands::is_error(reply) {
                        Some(
                            (
                                h4.len() as int,
                                core4,
                                commands::fault("GDB instruction step failed: "@ + reply),
                            ),
                        )
                    } else if !gdb::is_stop(reply) {
                        Some(
                            (
                                h4.len() as int,
                                core4,
                                commands::fault(
                                    "GDB instruction step returned unexpected response: "@ + reply,
                                ),
                            ),
                        )
                    } else {
                        steps_run(
                            h,
                            h4.len() as int,
                            core4,
                            usual,
                            deadline,
                            count,
                            (done + 1) as u64,
                        )
                    },
                }) by {
                    assert(gdb::goes_on(h3, h));
                    assert(gdb::outcome_at(h, m) == gdb::done_reply(set));
                    assert(cpu::drain_run(h, k + 1, core) == Some(
                        (h2.len() as int, core2, nds::plain(drained)),
                    ));
                    assert(cpu::cmd_run(h, m + 1, core2, "s"@) == Some(
                        (h4.len() as int, core4, nds::shown(sent)),
                    ));
                }
            }
            let reply = match sent {
                Ok(reply) => reply,
                Err(error) => {
                    return Err(
                        NdsBridgeError::Emulator(
                            stopped_text(done, count, error.message().as_str()),
                        ),
                    );
                },
            };
            if text::starts_with(reply.as_str(), "E") {
                return Err(
                    NdsBridgeError::Emulator(
                        text::join("GDB instruction step failed: ", reply.as_str()),
                    ),
                );
            }
            if !gdb::is_stop_packet(reply.as_str()) {
                return Err(
                    NdsBridgeError::Emulator(
                        text::join(
                            "GDB instruction step returned unexpected response: ",
                            reply.as_str(),
                        ),
                    ),
                );
            }
            done += 1;
        }
        Ok(())
    }

    fn budgeted_steps(&mut self, count: u64, budget: u64) -> (r: Result<(), NdsBridgeError>)
        ensures
            cpu::went_on(*old(self), *final(self)),
            forall|h: Seq<GdbStep>|
                gdb::goes_on(final(self).gdb.history(), h) ==> #[trigger] budgeted_run(
                    h,
                    old(self).gdb.history().len() as int,
                    old(self)@,
                    count,
                    budget,
                ) == Some((final(self).gdb.history().len() as int, final(self)@, nds::plain(r))),
    {
        let ghost n = self.gdb.history().len() as int;
        let ghost start = self@;
        let now: u64 = self.gdb.clock();
        let told = self.gdb.get_timeout();
        let ghost h1 = self.gdb.history();
        proof {
            assert forall|h: Seq<GdbStep>| gdb::goes_on(h1, h) implies {
                &&& h[n] == (GdbStep::Clock { now })
                &&& #[trigger] h[n + 1] == (GdbStep::TimeoutRead { told: gdb::number_reply(told) })
            } by {
                assert(h[n] == h1[n]);
                assert(h[n + 1] == h1[n + 1]);
            }
        }
        let usual: u64 = match told {
            Ok(usual) => usual,
            Err(error) => {
                proof {
                    assert forall|h: Seq<GdbStep>| gdb::goes_on(h1, h) implies #[trigger] budgeted_run(
                        h,
                        n,
                        start,
                        count,
                        budget,
                    ) == Some((n + 2, start, Err::<(), _>(NdsErrorView::Gdb(error@)))) by {
                        assert(h[n + 1] is TimeoutRead);
                    }
                }
                return Err(cpu::gdb_error(error));
            },
        };
        let deadline: u64 = now.saturating_add(budget);
        let stepped = self.steps(usual, deadline, count);
        let ghost h2 = self.gdb.history();
        let ghost core = self@;
        let ghost k = h2.len() as int;
        let restored = self.gdb.set_timeout(usual);
        self.frozen = true;
        let ghost h3 = self.gdb.history();
        proof {
            gdb::goes_on_through(h1, h2);
            assert(gdb::goes_on(h2, h3));
            gdb::goes_on_through(h2, h3);
            let held = CoreView { frozen: true, ..core };
            assert(self@ =~= held);
            assert forall|h: Seq<GdbStep>| gdb::goes_on(h3, h) implies #[trigger] budgeted_run(
                h,
                n,
                start,
                count,
                budget,
            ) == Some(
                (
                    k + 1,
                    held,
                    match (nds::plain(stepped), gdb::done_reply(restored)) {
                        (Err(e), _) => Err(e),
                        (_, Err(e)) => Err(NdsErrorView::Gdb(e)),
                        _ => Ok(()),
                    },
                ),
            ) by {
                assert(gdb::goes_on(h2, h));
                assert(gdb::goes_on(h1, h));
                assert(h[n + 1] is TimeoutRead);
                assert(h[k] == h3[k]);
                assert(steps_run(h, n + 2, start, usual, deadline, count, 0) == Some(
                    (k, core, nds::plain(stepped)),
                ));
            }
        }
        stepped?;
        match restored {
            Ok(()) => Ok(()),
            Err(error) => Err(cpu::gdb_error(error)),
        }
    }

    /// Steps instructions within a budget, and reads the state after the last of them.
    pub fn step_instructions_and_read_state(&mut self, count: u64, budget: u64) -> (r: Result<
        Json,
        NdsBridgeError,
    >)
        ensures
            cpu::went_on(*old(self), *final(self)),
            forall|h: Seq<GdbStep>|
                gdb::goes_on(final(self).gdb.history(), h) ==> #[trigger] step_run(
                    h,
                    old(self).gdb.history().len() as int,
                    old(self)@,
                    count,
                    budget,
                ) == Some((final(self).gdb.history().len() as int, final(self)@, nds::shown(r))),
    {
        if count > MAX_SYNC_ADVANCE_COUNT {
            let m = text::join("instruction count ", text::decimal_of(count).as_str());
            let m = text::join(m.as_str(), " exceeds the synchronous cap ");
            let m = text::join(m.as_str(), text::decimal_of(MAX_SYNC_ADVANCE_COUNT).as_str());
            return Err(
                NdsBridgeError::BadParams(
                    text::join(
                        m.as_str(),
                        "; split the advance and verify each terminal response",
                    ),
                ),
            );
        }
        let paused = self.pause();
        let ghost h1 = self.gdb.history();
        paused?;
        let stepped = self.budgeted_steps(count, budget);
        let ghost h2 = self.gdb.history();
        proof {
            gdb::goes_on_through(h1, h2);
        }
        stepped?;
        let read = self.read_regs_hex();
        proof {
            gdb::goes_on_through(h2, self.gdb.history());
        }
        let packet = read?;
        Ok(decode::state_from_arm_regs_hex(packet.as_str()))
    }
}

} // verus!
