//! Restarting the guest: a reset or a power cycle, after which the adapter may come back in a new
//! session.

use vstd::prelude::*;
use crate::json::{Json, JsonView};
use crate::live::cleanup::MAX_SESSION_POLLS;
use crate::live::frozen;
use crate::live::link;
use crate::live::link::{EmulatorLink, LinkError, LinkErrorView, LinkStep};
use crate::live::tools;
use crate::live::tools::ToolOutput;
use crate::text;

verus! {

/// The error of a restart after which another launch answered.
pub open spec fn changed(method: Seq<char>) -> LinkErrorView {
    LinkErrorView::Emulator {
        kind: "identity_changed"@,
        message: method + " reconnected to another launch generation"@,
    }
}

/// The error of a restart whose session did not come back.
pub open spec fn lost(method: Seq<char>) -> LinkErrorView {
    LinkErrorView::Emulator {
        kind: "reconnect_failed"@,
        message: method + " did not reconnect"@,
    }
}

/// The report of a restart whose session came back.
pub open spec fn returned(reply: JsonView, status: JsonView) -> JsonView {
    reply.without("reconnect"@).put("reconnected"@, JsonView::Bool(true)).put(
        "state"@,
        status.at("state"@),
    )
}

/// Looking for the session that comes back after a restart, at most `left` times. It is there
/// when its status says that it is connected.
pub open spec fn return_run(
    h: Seq<LinkStep>,
    n: int,
    method: Seq<char>,
    reply: JsonView,
    expected: Option<Seq<char>>,
    left: nat,
) -> Option<(int, Result<JsonView, LinkErrorView>)>
    decreases left,
{
    if left == 0 {
        Some((n, Err(lost(method))))
    } else if !link::is_call(h, n, "status"@, JsonView::object()) {
        None
    } else {
        let status = link::reply_at(h, n);
        if status matches Ok(s) && s.truth_field("connected"@) == Some(true) {
            Some(
                (
                    n + 1,
                    if expected is Some && link::offers_at(h, n).launch_id != expected {
                        Err(changed(method))
                    } else {
                        Ok(returned(reply, status->Ok_0))
                    },
                ),
            )
        } else if status is Err && !(status->Err_0 is NotConnected || status->Err_0 is Timeout) {
            Some((n + 1, Err(status->Err_0)))
        } else {
            match h[n + 1] {
                LinkStep::Waited { again, .. } => if n + 1 >= h.len() {
                    None
                } else if again {
                    return_run(h, n + 2, method, reply, expected, (left - 1) as nat)
                } else {
                    Some((n + 2, Err(lost(method))))
                },
                _ => None,
            }
        }
    }
}

/// A restart. Where the reply says that the adapter reconnects, the old transport is given up and
/// the session looked for; it has to be of the same launch as before.
pub open spec fn restart_run(
    h: Seq<LinkStep>,
    n: int,
    method: Seq<char>,
    expected: Option<Seq<char>>,
) -> Option<(int, Result<JsonView, LinkErrorView>)> {
    if !link::is_call(h, n, method, JsonView::object()) {
        None
    } else {
        match link::reply_at(h, n) {
            Err(e) => Some((n + 1, Err(e))),
            Ok(reply) => if reply.truth_field("reconnect"@) != Some(true) {
                Some((n + 1, Ok(reply)))
            } else if n + 1 < h.len() && h[n + 1] is Prepared {
                return_run(h, n + 2, method, reply, expected, MAX_SESSION_POLLS as nat)
            } else {
                None
            },
        }
    }
}

fn is_same_launch<L: EmulatorLink>(link: &L, expected: &Option<String>) -> (r: bool)
    ensures
        r == !(link::optional_text(*expected) is Some && link.offers().launch_id
            != link::optional_text(*expected)),
{
    match expected {
        None => true,
        Some(id) => match &link.capabilities().identity.launch_id {
            Some(current) => text::same(current.as_str(), id.as_str()),
            None => false,
        },
    }
}

fn await_return<L: EmulatorLink>(
    link: &mut L,
    method: &str,
    reply: &Json,
    expected: &Option<String>,
) -> (r: Result<Json, LinkError>)
    ensures
        link::goes_on(old(link).history(), final(link).history()),
        return_run(
            final(link).history(),
            old(link).history().len() as int,
            method@,
            reply@,
            link::optional_text(*expected),
            MAX_SESSION_POLLS as nat,
        ) == Some((final(link).history().len() as int, link::reply_view(r))),
{
    let ghost want = link::optional_text(*expected);
    let ghost start = link.history();
    let mut left: u64 = MAX_SESSION_POLLS;
    while left > 0
        invariant
            left <= MAX_SESSION_POLLS,
            want == link::optional_text(*expected),
            start == old(link).history(),
            link::goes_on(start, link.history()),
            forall|h: Seq<LinkStep>|
                link::goes_on(link.history(), h) ==> #[trigger] return_run(
                    h,
                    start.len() as int,
                    method@,
                    reply@,
                    want,
                    MAX_SESSION_POLLS as nat,
                ) == return_run(
                    h,
                    link.history().len() as int,
                    method@,
                    reply@,
                    want,
                    left as nat,
                ),
        decreases left,
    {
        let ghost before = link.history();
        match link.call("status", Json::object()) {
            Ok(status) => {
                if let Some(true) = status.get_bool("connected") {
                    if is_same_launch(link, expected) {
                        return Ok(
                            reply.clone().without("reconnect").put(
                                "reconnected",
                                Json::Bool(true),
                            ).put("state", status.at("state")),
                        );
                    }
                    let message = text::join(method, " reconnected to another launch generation");
                    return Err(LinkError::emulator("identity_changed", message.as_str()));
                }
            },
            Err(LinkError::NotConnected) => {},
            Err(LinkError::Timeout) => {},
            Err(error) => {
                return Err(error);
            },
        }
        if !link.wait_for_session() {
            let message = text::join(method, " did not reconnect");
            return Err(LinkError::emulator("reconnect_failed", message.as_str()));
        }
        left -= 1;
    }
    let message = text::join(method, " did not reconnect");
    Err(LinkError::emulator("reconnect_failed", message.as_str()))
}

fn restart<L: EmulatorLink>(link: &mut L, method: &str) -> (r: Result<ToolOutput, LinkError>)
    ensures
        link::goes_on(old(link).history(), final(link).history()),
        restart_run(
            final(link).history(),
            old(link).history().len() as int,
            method@,
            old(link).offers().launch_id,
        ) matches Some((m, expected)) && m == final(link).history().len() && tools::yields(
            r,
            expected,
        ),
{
    let ghost n = link.history().len() as int;
    let expected = frozen::launch_id(link);
    let reply = match link.call(method, Json::object()) {
        Ok(value) => value,
        Err(error) => {
            return Err(error);
        },
    };
    let ghost h1 = link.history();
    let reconnects = match reply.get_bool("reconnect") {
        Some(flag) => flag,
        None => false,
    };
    if !reconnects {
        return Ok(ToolOutput::Json(reply));
    }
    link.prepare_reconnect();
    let ghost h2 = link.history();
    let ended = await_return(link, method, &reply, &expected);
    proof {
        let h3 = link.history();
        assert(h3[n] == h2[n] && h2[n] == h1[n]);
        assert(h3[n + 1] == h2[n + 1]);
    }
    match ended {
        Ok(value) => Ok(ToolOutput::Json(value)),
        Err(error) => Err(error),
    }
}

/// Resets the guest.
pub fn reset<L: EmulatorLink>(link: &mut L) -> (r: Result<ToolOutput, LinkError>)
    ensures
        link::goes_on(old(link).history(), final(link).history()),
        restart_run(
            final(link).history(),
            old(link).history().len() as int,
            "reset"@,
            old(link).offers().launch_id,
        ) matches Some((m, expected)) && m == final(link).history().len() && tools::yields(
            r,
            expected,
        ),
{
    restart(link, "reset")
}

/// Turns the guest off and on.
pub fn power_cycle<L: EmulatorLink>(link: &mut L) -> (r: Result<ToolOutput, LinkError>)
    ensures
        link::goes_on(old(link).history(), final(link).history()),
        restart_run(
            final(link).history(),
            old(link).history().len() as int,
            "power_cycle"@,
            old(link).offers().launch_id,
        ) matches Some((m, expected)) && m == final(link).history().len() && tools::yields(
            r,
            expected,
        ),
{
    restart(link, "power_cycle")
}

} // verus!
