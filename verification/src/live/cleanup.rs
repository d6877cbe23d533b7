//! Cleaning up after a tool: releasing transient input and refreezing the machine, over a link
//! that may have lost its session meanwhile, and never in a session of another launch.
//!
//! A `.._run` function reads a history from a place on: it gives the place after the operation
//! and its result, or nothing where the history is not one of the operation.

use vstd::prelude::*;
use crate::json;
use crate::json::{Json, JsonView};
use crate::live::link;
use crate::live::link::{EmulatorLink, LinkError, LinkErrorView, LinkStep, OffersView};
use crate::text;

verus! {

/// How often a returning session is looked for.
pub const MAX_SESSION_POLLS: u64 = 600;

/// The error of a cleanup that would reach another launch.
pub open spec fn replaced() -> LinkErrorView {
    LinkErrorView::Emulator {
        kind: "bad_state"@,
        message: "the emulator session was replaced by another launch generation"@,
    }
}

/// The error of an operation whose cleanup failed.
pub open spec fn cleanup_failed(primary: Option<LinkErrorView>, cleanup: LinkErrorView) -> LinkErrorView {
    LinkErrorView::Emulator {
        kind: "cleanup_failed"@,
        message: match primary {
            Some(p) => (p.sentence() + "; terminal cleanup also failed: "@) + cleanup.sentence(),
            None => "terminal cleanup failed: "@ + cleanup.sentence(),
        },
    }
}

/// The error of an operation whose cleanup failed.
fn cleanup_error(primary: Option<&LinkError>, cleanup: &LinkError) -> (r: LinkError)
    ensures
        r@ == cleanup_failed(
            match primary {
                Some(p) => Some(p@),
                None => None,
            },
            cleanup@,
        ),
{
    let message = match primary {
        Some(p) => text::join(
            text::join(p.message().as_str(), "; terminal cleanup also failed: ").as_str(),
            cleanup.message().as_str(),
        ),
        None => text::join("terminal cleanup failed: ", cleanup.message().as_str()),
    };
    LinkError::Emulator { kind: "cleanup_failed".to_owned(), message }
}

/// Looking for the session of a launch by its status, at most `left` times.
pub open spec fn poll_run(
    h: Seq<LinkStep>,
    n: int,
    expected: Option<Seq<char>>,
    left: nat,
) -> Option<(int, Result<(), LinkErrorView>)>
    decreases left,
{
    if left == 0 {
        Some((n, Err(LinkErrorView::NotConnected)))
    } else if !link::is_call(h, n, "status"@, JsonView::object()) {
        None
    } else {
        match link::reply_at(h, n) {
            Ok(_) => Some(
                (
                    n + 1,
                    if expected is Some && link::offers_at(h, n).launch_id != expected {
                        Err(replaced())
                    } else {
                        Ok(())
                    },
                ),
            ),
            Err(LinkErrorView::NotConnected) => match h[n + 1] {
                LinkStep::Waited { again, .. } => if n + 1 >= h.len() {
                    None
                } else if again {
                    poll_run(h, n + 2, expected, (left - 1) as nat)
                } else {
                    Some((n + 2, Err(LinkErrorView::NotConnected)))
                },
                _ => None,
            },
            Err(e) => Some((n + 1, Err(e))),
        }
    }
}

/// Taking up the session of a launch again.
pub open spec fn reclaim_run(h: Seq<LinkStep>, n: int, expected: Option<Seq<char>>) -> Option<
    (int, Result<(), LinkErrorView>),
> {
    if 0 <= n < h.len() && h[n] is Prepared {
        poll_run(h, n + 1, expected, MAX_SESSION_POLLS as nat)
    } else {
        None
    }
}

/// One call of a cleanup. In a session that is not known to be the expected one, it is taken up
/// and checked first; a session that was lost is taken up and checked before the call is made
/// once more. `offers` are those before.
pub open spec fn cleanup_run(
    h: Seq<LinkStep>,
    n: int,
    offers: OffersView,
    reconnects: bool,
    method: Seq<char>,
    params: JsonView,
    expected: Option<Seq<char>>,
) -> Option<(int, Result<JsonView, LinkErrorView>)> {
    if reconnects && expected is Some && offers.launch_id != expected {
        retried_run(h, n, method, params, expected)
    } else if !link::is_call(h, n, method, params) {
        None
    } else if reconnects && link::reply_at(h, n) == Err::<JsonView, _>(LinkErrorView::NotConnected) {
        retried_run(h, n + 1, method, params, expected)
    } else {
        Some((n + 1, link::reply_at(h, n)))
    }
}

/// A call after its session was taken up again.
pub open spec fn retried_run(
    h: Seq<LinkStep>,
    n: int,
    method: Seq<char>,
    params: JsonView,
    expected: Option<Seq<char>>,
) -> Option<(int, Result<JsonView, LinkErrorView>)> {
    match reclaim_run(h, n, expected) {
        None => None,
        Some((m, Err(e))) => Some((m, Err(e))),
        Some((m, Ok(()))) => if link::is_call(h, m, method, params) {
            Some((m + 1, link::reply_at(h, m)))
        } else {
            None
        },
    }
}

fn poll_session<L: EmulatorLink>(link: &mut L, expected: Option<&str>) -> (r: Result<(), LinkError>)
    requires
        link::is_current(*old(link)),
    ensures
        link::goes_on(old(link).history(), final(link).history()),
        final(link).reconnects() == old(link).reconnects(),
        link::is_current(*final(link)),
        forall|h: Seq<LinkStep>|
            link::goes_on(final(link).history(), h) ==> #[trigger] poll_run(
                h,
                old(link).history().len() as int,
                link::optional_str(expected),
                MAX_SESSION_POLLS as nat,
            ) == Some((final(link).history().len() as int, link::done_view(r))),
{
    let ghost want = link::optional_str(expected);
    let ghost start = link.history();
    let mut left: u64 = MAX_SESSION_POLLS;
    while left > 0
        invariant
            left <= MAX_SESSION_POLLS,
            want == link::optional_str(expected),
            start == old(link).history(),
            link.reconnects() == old(link).reconnects(),
            link::is_current(*link),
            link::goes_on(start, link.history()),
            forall|h: Seq<LinkStep>|
                link::goes_on(link.history(), h) ==> #[trigger] poll_run(
                    h,
                    start.len() as int,
                    want,
                    MAX_SESSION_POLLS as nat,
                ) == poll_run(h, link.history().len() as int, want, left as nat),
        decreases left,
    {
        let ghost before = link.history();
        match link.call("status", Json::object()) {
            Ok(_status) => {
                let same = match expected {
                    None => true,
                    Some(id) => match &link.capabilities().identity.launch_id {
                        Some(current) => text::same(current.as_str(), id),
                        None => false,
                    },
                };
                if same {
                    return Ok(());
                }
                return Err(
                    LinkError::emulator(
                        "bad_state",
                        "the emulator session was replaced by another launch generation",
                    ),
                );
            },
            Err(LinkError::NotConnected) => {},
            Err(error) => {
                return Err(error);
            },
        }
        if !link.wait_for_session() {
            return Err(LinkError::NotConnected);
        }
        left -= 1;
    }
    Err(LinkError::NotConnected)
}

fn retry_call<L: EmulatorLink>(link: &mut L, method: &str, params: Json, expected: Option<&str>) -> (r:
    Result<Json, LinkError>)
    ensures
        link::goes_on(old(link).history(), final(link).history()),
        final(link).reconnects() == old(link).reconnects(),
        link::is_current(*final(link)),
        old(link).history().len() < final(link).history().len(),
        forall|h: Seq<LinkStep>|
            link::goes_on(final(link).history(), h) ==> #[trigger] retried_run(
                h,
                old(link).history().len() as int,
                method@,
                params@,
                link::optional_str(expected),
            ) == Some((final(link).history().len() as int, link::reply_view(r))),
{
    link.prepare_reconnect();
    poll_session(link, expected)?;
    link.call(method, params)
}

/// Makes one call of a cleanup, in the session of the expected launch or not at all.
pub fn call_session_cleanup<L: EmulatorLink>(
    link: &mut L,
    method: &str,
    params: Json,
    expected_launch_id: Option<&str>,
) -> (r: Result<Json, LinkError>)
    ensures
        link::goes_on(old(link).history(), final(link).history()),
        final(link).reconnects() == old(link).reconnects(),
        link::is_current(*final(link)),
        old(link).history().len() < final(link).history().len(),
        forall|h: Seq<LinkStep>|
            link::goes_on(final(link).history(), h) ==> #[trigger] cleanup_run(
                h,
                old(link).history().len() as int,
                old(link).offers(),
                old(link).reconnects(),
                method@,
                params@,
                link::optional_str(expected_launch_id),
            ) == Some((final(link).history().len() as int, link::reply_view(r))),
{
    let reconnects = link.supports_session_reconnect();
    if reconnects {
        if let Some(id) = expected_launch_id {
            let known = match &link.capabilities().identity.launch_id {
                Some(current) => text::same(current.as_str(), id),
                None => false,
            };
            if !known {
                return retry_call(link, method, params, expected_launch_id);
            }
        }
    }
    let again = params.clone();
    match link.call(method, params) {
        Err(LinkError::NotConnected) => if reconnects {
            retry_call(link, method, again, expected_launch_id)
        } else {
            Err(LinkError::NotConnected)
        },
        other => other,
    }
}

/// What an operation on a frozen machine comes to: where it failed, the machine is frozen again
/// before the failure is told.
pub open spec fn frozen_run(
    h: Seq<LinkStep>,
    n: int,
    offers: OffersView,
    reconnects: bool,
    expected: Option<Seq<char>>,
    outcome: Result<JsonView, LinkErrorView>,
) -> Option<(int, Result<JsonView, LinkErrorView>)> {
    match outcome {
        Ok(v) => Some((n, Ok(v))),
        Err(primary) => match cleanup_run(
            h,
            n,
            offers,
            reconnects,
            "pause"@,
            JsonView::object(),
            expected,
        ) {
            None => None,
            Some((m, Ok(_))) => Some((m, Err(primary))),
            Some((m, Err(e))) => Some((m, Err(cleanup_failed(Some(primary), e)))),
        },
    }
}

/// Ends an operation on a frozen machine.
pub fn finish_frozen<L: EmulatorLink>(
    link: &mut L,
    expected_launch_id: Option<&str>,
    outcome: Result<Json, LinkError>,
) -> (r: Result<Json, LinkError>)
    ensures
        link::goes_on(old(link).history(), final(link).history()),
        final(link).reconnects() == old(link).reconnects(),
        link::is_current(*old(link)) ==> link::is_current(*final(link)),
        forall|h: Seq<LinkStep>|
            link::goes_on(final(link).history(), h) ==> #[trigger] frozen_run(
                h,
                old(link).history().len() as int,
                old(link).offers(),
                old(link).reconnects(),
                link::optional_str(expected_launch_id),
                link::reply_view(outcome),
            ) == Some((final(link).history().len() as int, link::reply_view(r))),
        r is Ok ==> outcome is Ok,
{
    let primary = match outcome {
        Ok(value) => {
            return Ok(value);
        },
        Err(primary) => primary,
    };
    let ghost n = link.history().len() as int;
    let ghost offers = link.offers();
    let ghost reconnects = link.reconnects();
    let cleanup = call_session_cleanup(link, "pause", Json::object(), expected_launch_id);
    proof {
        let expected = link::optional_str(expected_launch_id);
        assert forall|h: Seq<LinkStep>| link::goes_on(link.history(), h) implies cleanup_run(
            h,
            n,
            offers,
            reconnects,
            "pause"@,
            JsonView::object(),
            expected,
        ) == Some((link.history().len() as int, #[trigger] link::reply_view(cleanup))) by {}
    }
    match cleanup {
        Ok(_paused) => Err(primary),
        Err(error) => Err(cleanup_error(Some(&primary), &error)),
    }
}

/// The parameters that hold buttons.
pub open spec fn input_params(port: u64, buttons: Seq<Seq<char>>) -> JsonView {
    JsonView::object().with("port"@, JsonView::Unsigned(port)).with(
        "buttons"@,
        json::text_array(buttons),
    )
}

/// The parameters that hold buttons.
pub fn input_request(port: u64, buttons: &[String]) -> (r: Json)
    ensures
        r@ == input_params(port, text::text_views(buttons@)),
{
    Json::object().with("port", Json::Unsigned(port)).with("buttons", Json::texts(buttons))
}

/// What an operation with held input comes to: the input is released in any case. Where the
/// operation or the release failed, the machine is frozen again too. A failed release or freeze
/// is told as a failed cleanup, whatever the operation gave.
pub open spec fn transient_run(
    h: Seq<LinkStep>,
    n: int,
    offers: OffersView,
    reconnects: bool,
    port: u64,
    expected: Option<Seq<char>>,
    outcome: Result<JsonView, LinkErrorView>,
) -> Option<(int, Result<JsonView, LinkErrorView>)> {
    let primary = match outcome {
        Ok(_) => None,
        Err(e) => Some(e),
    };
    match cleanup_run(
        h,
        n,
        offers,
        reconnects,
        "set_input"@,
        input_params(port, Seq::empty()),
        expected,
    ) {
        None => None,
        Some((m, released)) => if outcome is Ok && released is Ok {
            Some((m, outcome))
        } else {
            match cleanup_run(
                h,
                m,
                link::offers_at(h, m - 1),
                reconnects,
                "pause"@,
                JsonView::object(),
                expected,
            ) {
                None => None,
                Some((k, paused)) => Some(
                    (
                        k,
                        match (released, paused) {
                            (Err(e), _) => Err(cleanup_failed(primary, e)),
                            (_, Err(e)) => Err(cleanup_failed(primary, e)),
                            _ => outcome,
                        },
                    ),
                ),
            }
        },
    }
}

/// Ends an operation with held input.
pub fn finish_transient_input<L: EmulatorLink>(
    link: &mut L,
    port: u64,
    expected_launch_id: Option<&str>,
    outcome: Result<Json, LinkError>,
) -> (r: Result<Json, LinkError>)
    ensures
        link::goes_on(old(link).history(), final(link).history()),
        final(link).reconnects() == old(link).reconnects(),
        link::is_current(*final(link)),
        forall|h: Seq<LinkStep>|
            link::goes_on(final(link).history(), h) ==> #[trigger] transient_run(
                h,
                old(link).history().len() as int,
                old(link).offers(),
                old(link).reconnects(),
                port,
                link::optional_str(expected_launch_id),
                link::reply_view(outcome),
            ) == Some((final(link).history().len() as int, link::reply_view(r))),
        r is Ok ==> outcome is Ok,
{
    let ghost expected = link::optional_str(expected_launch_id);
    let ghost n = link.history().len() as int;
    let ghost offers = link.offers();
    let ghost reconnects = link.reconnects();
    let none: Vec<String> = Vec::new();
    assert(text::text_views(none@) =~= Seq::empty());
    let request = input_request(port, none.as_slice());
    let ghost release_params = request@;
    let released = call_session_cleanup(link, "set_input", request, expected_launch_id);
    let ghost m = link.history().len() as int;
    proof {
        assert forall|h: Seq<LinkStep>| link::goes_on(link.history(), h) implies #[trigger] cleanup_run(
            h,
            n,
            offers,
            reconnects,
            "set_input"@,
            release_params,
            expected,
        ) == Some((m, link::reply_view(released))) by {}
    }
    if outcome.is_ok() && released.is_ok() {
        return outcome;
    }
    let ghost between = link.offers();
    let paused = call_session_cleanup(link, "pause", Json::object(), expected_launch_id);
    proof {
        let k = link.history().len() as int;
        assert forall|h: Seq<LinkStep>| link::goes_on(link.history(), h) implies #[trigger] cleanup_run(
            h,
            m,
            between,
            reconnects,
            "pause"@,
            JsonView::object(),
            expected,
        ) == Some((k, link::reply_view(paused))) by {}
        assert forall|h: Seq<LinkStep>| link::goes_on(link.history(), h) implies link::offers_at(
            h,
            m - 1,
        ) == between by {
            assert(h[m - 1] == link.history()[m - 1]);
        }
    }
    match (released, paused) {
        (Err(error), _) => match &outcome {
            Ok(_) => Err(cleanup_error(None, &error)),
            Err(primary) => Err(cleanup_error(Some(primary), &error)),
        },
        (Ok(_), Err(error)) => match &outcome {
            Ok(_) => Err(cleanup_error(None, &error)),
            Err(primary) => Err(cleanup_error(Some(primary), &error)),
        },
        (Ok(_), Ok(_)) => outcome,
    }
}

/// An operation whose cleanup failed is never told as a success.
pub proof fn failed_cleanup_is_told(
    h: Seq<LinkStep>,
    n: int,
    offers: OffersView,
    reconnects: bool,
    port: u64,
    expected: Option<Seq<char>>,
    outcome: Result<JsonView, LinkErrorView>,
)
    requires
        transient_run(h, n, offers, reconnects, port, expected, outcome) is Some,
    ensures
        (transient_run(h, n, offers, reconnects, port, expected, outcome)->0).1 is Ok ==> {
            let released = cleanup_run(
                h,
                n,
                offers,
                reconnects,
                "set_input"@,
                input_params(port, Seq::empty()),
                expected,
            );
            outcome is Ok && released is Some && (released->0).1 is Ok
        },
{
}

/// A cleanup reaches no session of another launch: where a session was taken up again and is not
/// the expected one, the call of the cleanup is not made.
pub proof fn cleanup_spares_other_launches(
    h: Seq<LinkStep>,
    n: int,
    method: Seq<char>,
    params: JsonView,
    expected: Option<Seq<char>>,
)
    requires
        retried_run(h, n, method, params, expected) is Some,
        reclaim_run(h, n, expected) matches Some((m, Err(_))),
    ensures
        (retried_run(h, n, method, params, expected)->0).0 == (reclaim_run(h, n, expected)->0).0,
        (retried_run(h, n, method, params, expected)->0).1 is Err,
{
}

/// Whether a call that holds no button of a port succeeded.
pub open spec fn lifts(h: Seq<LinkStep>, k: int, port: u64) -> bool {
    link::is_call(h, k, "set_input"@, input_params(port, Seq::empty())) && link::reply_at(
        h,
        k,
    ) is Ok
}

/// Whether the input of a port was lifted between two points of a history.
pub open spec fn lifted(h: Seq<LinkStep>, n: int, m: int, port: u64) -> bool {
    exists|k: int| n <= k < m && #[trigger] lifts(h, k, port)
}

/// Whether an error tells of a failed cleanup.
pub open spec fn is_cleanup_failure(e: LinkErrorView) -> bool {
    e matches LinkErrorView::Emulator { kind, .. } && kind == "cleanup_failed"@
}

/// Whether an operation let go of the input of a port: it was lifted, or the result tells of a
/// failed cleanup.
pub open spec fn lets_go<T>(
    h: Seq<LinkStep>,
    n: int,
    m: int,
    port: u64,
    r: Result<T, LinkErrorView>,
) -> bool {
    n <= m && (lifted(h, n, m, port) || (r matches Err(e) && is_cleanup_failure(e)))
}

proof fn polls_go_on(h: Seq<LinkStep>, n: int, expected: Option<Seq<char>>, left: nat)
    ensures
        poll_run(h, n, expected, left) matches Some((m, _)) ==> n <= m,
    decreases left,
{
    if left > 0 {
        polls_go_on(h, n + 2, expected, (left - 1) as nat);
    }
}

/// A cleanup that succeeds ends with its call, which succeeded.
pub proof fn cleanups_end_with_their_call(
    h: Seq<LinkStep>,
    n: int,
    offers: OffersView,
    reconnects: bool,
    method: Seq<char>,
    params: JsonView,
    expected: Option<Seq<char>>,
)
    ensures
        cleanup_run(h, n, offers, reconnects, method, params, expected) matches Some((m, r)) ==> {
            &&& n < m
            &&& r is Ok ==> link::is_call(h, m - 1, method, params) && link::reply_at(
                h,
                m - 1,
            ) is Ok
        },
{
    polls_go_on(h, n + 1, expected, MAX_SESSION_POLLS as nat);
    polls_go_on(h, n + 2, expected, MAX_SESSION_POLLS as nat);
}

/// An operation with held input lets go of it, whatever it gave.
pub proof fn operations_let_go(
    h: Seq<LinkStep>,
    n: int,
    offers: OffersView,
    reconnects: bool,
    port: u64,
    expected: Option<Seq<char>>,
    outcome: Result<JsonView, LinkErrorView>,
)
    ensures
        transient_run(h, n, offers, reconnects, port, expected, outcome) matches Some((m, r))
            ==> lets_go(h, n, m, port, r),
{
    let nothing = input_params(port, Seq::empty());
    cleanups_end_with_their_call(h, n, offers, reconnects, "set_input"@, nothing, expected);
    if let Some((m, released)) = cleanup_run(
        h,
        n,
        offers,
        reconnects,
        "set_input"@,
        nothing,
        expected,
    ) {
        cleanups_end_with_their_call(
            h,
            m,
            link::offers_at(h, m - 1),
            reconnects,
            "pause"@,
            JsonView::object(),
            expected,
        );
        if released is Ok {
            assert(lifts(h, m - 1, port));
        }
    }
}

/// An operation on a frozen machine does not go back in its history.
pub proof fn frozen_operations_go_on(
    h: Seq<LinkStep>,
    n: int,
    offers: OffersView,
    reconnects: bool,
    expected: Option<Seq<char>>,
    outcome: Result<JsonView, LinkErrorView>,
)
    ensures
        frozen_run(h, n, offers, reconnects, expected, outcome) matches Some((m, _)) ==> n <= m,
{
    cleanups_end_with_their_call(
        h,
        n,
        offers,
        reconnects,
        "pause"@,
        JsonView::object(),
        expected,
    );
}

} // verus!
