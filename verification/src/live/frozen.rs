//! Operations made of several calls on a frozen machine: taps, holds and pointer gestures. Held
//! input never outlives the operation, and a machine on which a step fails is frozen again.

use vstd::prelude::*;
use crate::json;
use crate::json::{Json, JsonView};
use crate::live::cleanup;
use crate::live::cleanup::{finish_frozen, finish_transient_input, input_params, input_request};
use crate::live::link;
use crate::live::link::{EmulatorLink, LinkError, LinkErrorView, LinkStep};
use crate::live::tools;
use crate::live::tools::{ToolOutput, MAX_TAP_SEQUENCE_FRAMES};
use crate::text;

verus! {

/// The parameters of a frame step.
pub open spec fn frames_params(frames: u64) -> JsonView {
    JsonView::object().with("frames"@, JsonView::Unsigned(frames))
}

/// Whether a reply tells of an advance that something interrupted.
pub open spec fn is_interrupted(reply: JsonView) -> bool {
    reply.text_field("status"@) == Some("interrupted"@)
}

/// The report of an operation that was interrupted in a phase, after its input was released.
pub open spec fn interrupted_in(reply: JsonView, operation: Seq<char>, phase: Seq<char>) -> JsonView {
    reply.put("operation"@, JsonView::Str(operation)).put("phase"@, JsonView::Str(phase)).put(
        "released"@,
        JsonView::Bool(true),
    ).put("state"@, JsonView::Str("frozen"@))
}

pub(crate) fn interrupted(reply: &Json) -> (r: bool)
    ensures
        r == is_interrupted(reply@),
{
    match reply.get_str("status") {
        Some(status) => text::same(status, "interrupted"),
        None => false,
    }
}

pub(crate) fn interruption(reply: Json, operation: &str, phase: &str) -> (r: Json)
    ensures
        r@ == interrupted_in(reply@, operation@, phase@),
{
    reply.put("operation", Json::text(operation)).put("phase", Json::text(phase)).put(
        "released",
        Json::Bool(true),
    ).put("state", Json::text("frozen"))
}

/// What a step of an operation comes to: an error, an interruption to report, or nothing to
/// report.
pub open spec fn step_view(r: Result<Option<Json>, LinkError>) -> Result<
    Option<JsonView>,
    LinkErrorView,
> {
    match r {
        Ok(Some(v)) => Ok(Some(v@)),
        Ok(None) => Ok(None),
        Err(e) => Err(e@),
    }
}

/// Stepping a frozen machine by some frames: where that fails, it is frozen again.
pub open spec fn step_run(
    h: Seq<LinkStep>,
    n: int,
    reconnects: bool,
    frames: u64,
    expected: Option<Seq<char>>,
) -> Option<(int, Result<JsonView, LinkErrorView>)> {
    if !link::is_call(h, n, "step"@, frames_params(frames)) {
        None
    } else {
        cleanup::frozen_run(
            h,
            n + 1,
            link::offers_at(h, n),
            reconnects,
            expected,
            link::reply_at(h, n),
        )
    }
}

/// Advancing a frozen machine by some frames, with an interruption told.
pub open spec fn advance_run(
    h: Seq<LinkStep>,
    n: int,
    reconnects: bool,
    frames: u64,
    expected: Option<Seq<char>>,
    operation: Seq<char>,
    phase: Seq<char>,
) -> Option<(int, Result<Option<JsonView>, LinkErrorView>)> {
    match step_run(h, n, reconnects, frames, expected) {
        None => None,
        Some((m, Err(e))) => Some((m, Err(e))),
        Some((m, Ok(v))) => Some(
            (
                m,
                Ok(
                    if is_interrupted(v) {
                        Some(interrupted_in(v, operation, phase))
                    } else {
                        None
                    },
                ),
            ),
        ),
    }
}

/// One tap: the buttons are held for some frames, released, and the release is seen by one frame.
pub open spec fn one_tap_run(
    h: Seq<LinkStep>,
    n: int,
    reconnects: bool,
    port: u64,
    buttons: Seq<Seq<char>>,
    press_frames: u64,
    expected: Option<Seq<char>>,
) -> Option<(int, Result<(), LinkErrorView>)> {
    let held = if press_frames == 0 {
        1
    } else {
        press_frames
    };
    if !link::is_call(h, n, "set_input"@, input_params(port, buttons)) {
        None
    } else {
        match link::reply_at(h, n) {
            Err(e) => match cleanup::transient_run(
                h,
                n + 1,
                link::offers_at(h, n),
                reconnects,
                port,
                expected,
                Err(e),
            ) {
                Some((m, Err(f))) => Some((m, Err(f))),
                _ => None,
            },
            Ok(_) => if !link::is_call(h, n + 1, "step"@, frames_params(held)) {
                None
            } else {
                match cleanup::transient_run(
                    h,
                    n + 2,
                    link::offers_at(h, n + 1),
                    reconnects,
                    port,
                    expected,
                    link::reply_at(h, n + 1),
                ) {
                    None => None,
                    Some((m, Err(e))) => Some((m, Err(e))),
                    Some((m, Ok(_))) => match step_run(h, m, reconnects, 1, expected) {
                        None => None,
                        Some((k, Err(e))) => Some((k, Err(e))),
                        Some((k, Ok(_))) => Some((k, Ok(()))),
                    },
                }
            },
        }
    }
}

/// The report of a completed tap.
pub open spec fn tapped(buttons: Seq<Seq<char>>, press_frames: u64, after_frames: u64) -> JsonView {
    JsonView::object().with("tapped"@, json::text_array(buttons)).with(
        "press_frames"@,
        JsonView::Unsigned(press_frames),
    ).with("after_frames"@, JsonView::Unsigned(after_frames)).with(
        "state"@,
        JsonView::Str("frozen"@),
    )
}

/// A tap: the machine is frozen, the tap made, and some frames advanced after it.
pub open spec fn tap_run(
    h: Seq<LinkStep>,
    n: int,
    reconnects: bool,
    port: u64,
    buttons: Seq<Seq<char>>,
    press_frames: u64,
    after_frames: u64,
) -> Option<(int, Result<JsonView, LinkErrorView>)> {
    if !link::is_call(h, n, "pause"@, JsonView::object()) {
        None
    } else {
        match link::reply_at(h, n) {
            Err(e) => Some((n + 1, Err(e))),
            Ok(_) => {
                let expected = link::offers_at(h, n).launch_id;
                match one_tap_run(h, n + 1, reconnects, port, buttons, press_frames, expected) {
                    None => None,
                    Some((m, Err(e))) => Some((m, Err(e))),
                    Some((m, Ok(()))) => if after_frames == 0 {
                        Some((m, Ok(tapped(buttons, press_frames, after_frames))))
                    } else {
                        match step_run(h, m, reconnects, after_frames, expected) {
                            None => None,
                            Some((k, Err(e))) => Some((k, Err(e))),
                            Some((k, Ok(_))) => Some(
                                (k, Ok(tapped(buttons, press_frames, after_frames))),
                            ),
                        }
                    },
                }
            },
        }
    }
}

/// The launch that a link is bound to now.
pub(crate) fn launch_id<L: EmulatorLink>(link: &L) -> (r: Option<String>)
    ensures
        link::optional_text(r) == link.offers().launch_id,
{
    match &link.capabilities().identity.launch_id {
        Some(id) => Some(id.clone()),
        None => None,
    }
}

pub(crate) fn borrowed(s: &Option<String>) -> (r: Option<&str>)
    ensures
        link::optional_str(r) == link::optional_text(*s),
{
    match s {
        Some(t) => Some(t.as_str()),
        None => None,
    }
}

fn step_frozen<L: EmulatorLink>(link: &mut L, frames: u64, expected: Option<&str>) -> (r: Result<
    Json,
    LinkError,
>)
    ensures
        link::goes_on(old(link).history(), final(link).history()),
        final(link).reconnects() == old(link).reconnects(),
        link::is_current(*final(link)),
        forall|h: Seq<LinkStep>|
            link::goes_on(final(link).history(), h) ==> #[trigger] step_run(
                h,
                old(link).history().len() as int,
                old(link).reconnects(),
                frames,
                link::optional_str(expected),
            ) == Some((final(link).history().len() as int, link::reply_view(r))),
{
    let ghost n = link.history().len() as int;
    let reply = link.call("step", Json::object().with("frames", Json::Unsigned(frames)));
    let ghost given = link::reply_view(reply);
    let ghost offers = link.offers();
    let ended = finish_frozen(link, expected, reply);
    proof {
        let m = link.history().len() as int;
        assert forall|h: Seq<LinkStep>| link::goes_on(link.history(), h) implies {
            &&& link::is_call(h, n, "step"@, frames_params(frames))
            &&& link::reply_at(h, n) == given
            &&& link::offers_at(h, n) == offers
            &&& #[trigger] cleanup::frozen_run(
                h,
                n + 1,
                offers,
                link.reconnects(),
                link::optional_str(expected),
                given,
            ) == Some((m, link::reply_view(ended)))
        } by {
            assert(h[n] == link.history()[n]);
        }
    }
    ended
}

pub(crate) fn advance<L: EmulatorLink>(
    link: &mut L,
    frames: u64,
    expected: Option<&str>,
    operation: &str,
    phase: &str,
) -> (r: Result<Option<Json>, LinkError>)
    ensures
        link::goes_on(old(link).history(), final(link).history()),
        final(link).reconnects() == old(link).reconnects(),
        link::is_current(*final(link)),
        forall|h: Seq<LinkStep>|
            link::goes_on(final(link).history(), h) ==> #[trigger] advance_run(
                h,
                old(link).history().len() as int,
                old(link).reconnects(),
                frames,
                link::optional_str(expected),
                operation@,
                phase@,
            ) == Some((final(link).history().len() as int, step_view(r))),
{
    let value = step_frozen(link, frames, expected)?;
    if interrupted(&value) {
        Ok(Some(interruption(value, operation, phase)))
    } else {
        Ok(None)
    }
}

fn one_tap<L: EmulatorLink>(
    link: &mut L,
    port: u64,
    buttons: &[String],
    press_frames: u64,
    expected: Option<&str>,
) -> (r: Result<(), LinkError>)
    ensures
        link::goes_on(old(link).history(), final(link).history()),
        final(link).reconnects() == old(link).reconnects(),
        link::is_current(*final(link)),
        forall|h: Seq<LinkStep>|
            link::goes_on(final(link).history(), h) ==> #[trigger] one_tap_run(
                h,
                old(link).history().len() as int,
                old(link).reconnects(),
                port,
                text::text_views(buttons@),
                press_frames,
                link::optional_str(expected),
            ) == Some((final(link).history().len() as int, link::done_view(r))),
{
    let ghost n = link.history().len() as int;
    let ghost want = link::optional_str(expected);
    let ghost names = text::text_views(buttons@);
    let held: u64 = if press_frames == 0 {
        1
    } else {
        press_frames
    };
    let acquired = link.call("set_input", input_request(port, buttons));
    let ghost acquired_view = link::reply_view(acquired);
    let ghost acquired_offers = link.offers();
    let ghost h1 = link.history();
    if let Err(error) = acquired {
        let failed: Result<Json, LinkError> = Err(error);
        let ended = finish_transient_input(link, port, expected, failed);
        proof {
            let m = link.history().len() as int;
            assert forall|h: Seq<LinkStep>| link::goes_on(link.history(), h) implies #[trigger] one_tap_run(
                h,
                n,
                link.reconnects(),
                port,
                names,
                press_frames,
                want,
            ) == Some((m, Err::<(), _>(link::reply_view(ended)->Err_0))) by {
                assert(h[n] == h1[n]);
                assert(cleanup::transient_run(
                    h,
                    n + 1,
                    acquired_offers,
                    link.reconnects(),
                    port,
                    want,
                    acquired_view,
                ) == Some((m, link::reply_view(ended))));
            }
        }
        return match ended {
            Err(e) => Err(e),
            Ok(_) => Ok(()),
        };
    }
    let stepped = link.call("step", Json::object().with("frames", Json::Unsigned(held)));
    let ghost stepped_view = link::reply_view(stepped);
    let ghost stepped_offers = link.offers();
    let ghost h2 = link.history();
    let ended = finish_transient_input(link, port, expected, stepped);
    let ghost m = link.history().len() as int;
    let ghost h3 = link.history();
    proof {
        assert forall|h: Seq<LinkStep>| link::goes_on(h3, h) implies {
            &&& link::is_call(h, n, "set_input"@, input_params(port, names))
            &&& link::reply_at(h, n) == acquired_view
            &&& link::is_call(h, n + 1, "step"@, frames_params(held))
            &&& link::reply_at(h, n + 1) == stepped_view
            &&& link::offers_at(h, n + 1) == stepped_offers
            &&& #[trigger] cleanup::transient_run(
                h,
                n + 2,
                stepped_offers,
                link.reconnects(),
                port,
                want,
                stepped_view,
            ) == Some((m, link::reply_view(ended)))
        } by {
            assert(h[n] == h3[n] && h3[n] == h2[n] && h2[n] == h1[n]);
            assert(h[n + 1] == h3[n + 1] && h3[n + 1] == h2[n + 1]);
        }
    }
    ended?;
    step_frozen(link, 1, expected)?;
    Ok(())
}

/// Holds buttons for exactly some frames of a frozen machine and releases them: one input without
/// repeats. With `after_frames` the machine advances further after the release. The machine stays
/// frozen. Advances beyond the bound are refused before any call.
pub fn tap<L: EmulatorLink>(
    link: &mut L,
    port: u64,
    buttons: &[String],
    press_frames: u64,
    after_frames: u64,
) -> (r: Result<ToolOutput, LinkError>)
    ensures
        match (
            tools::advance_check("tap press frame"@, 0, press_frames),
            tools::advance_check("tap trailing frame"@, 0, after_frames),
        ) {
            (Err(e), _) => final(link).history() == old(link).history() && tools::yields(r, Err(e)),
            (_, Err(e)) => final(link).history() == old(link).history() && tools::yields(r, Err(e)),
            (Ok(()), Ok(())) => {
                &&& link::goes_on(old(link).history(), final(link).history())
                &&& tap_run(
                    final(link).history(),
                    old(link).history().len() as int,
                    old(link).reconnects(),
                    port,
                    text::text_views(buttons@),
                    press_frames,
                    after_frames,
                ) matches Some((m, expected)) && m == final(link).history().len() && tools::yields(
                    r,
                    expected,
                )
            },
        },
{
    tools::validate_sync_advance("tap press frame", press_frames)?;
    tools::validate_sync_advance("tap trailing frame", after_frames)?;
    let ghost n = link.history().len() as int;
    let ghost names = text::text_views(buttons@);
    let paused = link.call("pause", Json::object());
    let ghost h1 = link.history();
    let ghost offers1 = link.offers();
    if let Err(error) = paused {
        return Err(error);
    }
    let id = launch_id(link);
    let expected = borrowed(&id);
    let ghost want = link::optional_str(expected);
    let tap = one_tap(link, port, buttons, press_frames, expected);
    let ghost h2 = link.history();
    let ghost m = h2.len() as int;
    proof {
        assert forall|h: Seq<LinkStep>| link::goes_on(h2, h) implies {
            &&& link::is_call(h, n, "pause"@, JsonView::object())
            &&& link::reply_at(h, n) is Ok
            &&& link::offers_at(h, n).launch_id == want
            &&& #[trigger] one_tap_run(
                h,
                n + 1,
                link.reconnects(),
                port,
                names,
                press_frames,
                want,
            ) == Some((m, link::done_view(tap)))
        } by {
            assert(h[n] == h2[n] && h2[n] == h1[n]);
        }
    }
    tap?;
    if after_frames > 0 {
        step_frozen(link, after_frames, expected)?;
    }
    Ok(
        ToolOutput::Json(
            Json::object().with("tapped", Json::texts(buttons)).with(
                "press_frames",
                Json::Unsigned(press_frames),
            ).with("after_frames", Json::Unsigned(after_frames)).with(
                "state",
                Json::text("frozen"),
            ),
        ),
    )
}

/// The button lists of a sequence.
pub open spec fn list_views(steps: Seq<Vec<String>>) -> Seq<Seq<Seq<char>>> {
    Seq::new(steps.len(), |i: int| text::text_views(steps[i]@))
}

/// The taps of a sequence from one on.
pub open spec fn sequence_run(
    h: Seq<LinkStep>,
    n: int,
    reconnects: bool,
    port: u64,
    steps: Seq<Seq<Seq<char>>>,
    press_frames: u64,
    expected: Option<Seq<char>>,
    i: int,
) -> Option<(int, Result<(), LinkErrorView>)>
    decreases steps.len() - i,
{
    if i >= steps.len() || i < 0 {
        Some((n, Ok(())))
    } else {
        match one_tap_run(h, n, reconnects, port, steps[i], press_frames, expected) {
            None => None,
            Some((m, Ok(()))) => sequence_run(
                h,
                m,
                reconnects,
                port,
                steps,
                press_frames,
                expected,
                i + 1,
            ),
            other => other,
        }
    }
}

/// A sequence of taps on a machine that is frozen first.
pub open spec fn tap_sequence_run(
    h: Seq<LinkStep>,
    n: int,
    reconnects: bool,
    port: u64,
    steps: Seq<Seq<Seq<char>>>,
    press_frames: u64,
) -> Option<(int, Result<JsonView, LinkErrorView>)> {
    if !link::is_call(h, n, "pause"@, JsonView::object()) {
        None
    } else {
        match link::reply_at(h, n) {
            Err(e) => Some((n + 1, Err(e))),
            Ok(_) => match sequence_run(
                h,
                n + 1,
                reconnects,
                port,
                steps,
                press_frames,
                link::offers_at(h, n).launch_id,
                0,
            ) {
                None => None,
                Some((m, Err(e))) => Some((m, Err(e))),
                Some((m, Ok(()))) => Some(
                    (
                        m,
                        Ok(
                            JsonView::object().with(
                                "sequence_len"@,
                                JsonView::Unsigned(steps.len() as u64),
                            ).with("press_frames"@, JsonView::Unsigned(press_frames)).with(
                                "state"@,
                                JsonView::Str("frozen"@),
                            ),
                        ),
                    ),
                ),
            },
        }
    }
}

/// A number brought down to the largest that 64 bits hold.
pub open spec fn saturated(n: int) -> u64 {
    if n > u64::MAX {
        u64::MAX
    } else {
        n as u64
    }
}

/// The frames of one tap of a sequence, with its release.
pub open spec fn frames_per_tap(press_frames: u64) -> u64 {
    saturated(press_frames + 2)
}

/// The frames of a whole sequence.
pub open spec fn sequence_frames(steps: nat, press_frames: u64) -> u64 {
    saturated(steps * frames_per_tap(press_frames))
}

/// The message that a sequence is too long.
pub open spec fn sequence_message(steps: nat, press_frames: u64) -> Seq<char> {
    let a = ("tap_sequence 총 프레임 "@ + text::decimal(
        sequence_frames(steps, press_frames) as int,
    )) + "(steps "@;
    let b = ((a + text::decimal(steps as int)) + " × "@) + text::decimal(
        frames_per_tap(press_frames) as int,
    );
    ((b + ")이 상한 "@) + text::decimal(MAX_TAP_SEQUENCE_FRAMES as int))
        + " 초과 — 나눠 호출하라"@
}

/// Makes several taps in one operation. A sequence beyond the bound is refused before any call.
pub fn tap_sequence<L: EmulatorLink>(
    link: &mut L,
    port: u64,
    steps: &[Vec<String>],
    press_frames: u64,
) -> (r: Result<ToolOutput, LinkError>)
    ensures
        if sequence_frames(steps@.len(), press_frames) > MAX_TAP_SEQUENCE_FRAMES {
            tools::refuses(
                *old(link),
                *final(link),
                sequence_message(steps@.len(), press_frames),
                r,
            )
        } else {
            &&& link::goes_on(old(link).history(), final(link).history())
            &&& tap_sequence_run(
                final(link).history(),
                old(link).history().len() as int,
                old(link).reconnects(),
                port,
                list_views(steps@),
                press_frames,
            ) matches Some((m, expected)) && m == final(link).history().len() && tools::yields(
                r,
                expected,
            )
        },
{
    let count: u64 = steps.len() as u64;
    let per_tap: u64 = press_frames.saturating_add(2);
    assert(count as int * per_tap as int <= u64::MAX * u64::MAX) by (nonlinear_arith)
        requires
            count <= u64::MAX,
            per_tap <= u64::MAX,
    ;
    let product: u128 = count as u128 * per_tap as u128;
    let total: u64 = if product > u64::MAX as u128 {
        u64::MAX
    } else {
        product as u64
    };
    if total > MAX_TAP_SEQUENCE_FRAMES {
        let m = text::join("tap_sequence 총 프레임 ", text::decimal_of(total).as_str());
        let m = text::join(m.as_str(), "(steps ");
        let m = text::join(m.as_str(), text::decimal_of(count).as_str());
        let m = text::join(m.as_str(), " × ");
        let m = text::join(m.as_str(), text::decimal_of(per_tap).as_str());
        let m = text::join(m.as_str(), ")이 상한 ");
        let m = text::join(m.as_str(), text::decimal_of(MAX_TAP_SEQUENCE_FRAMES).as_str());
        let message = text::join(m.as_str(), " 초과 — 나눠 호출하라");
        return Err(LinkError::Emulator { kind: "bad_params".to_owned(), message });
    }
    let ghost n = link.history().len() as int;
    let ghost lists = list_views(steps@);
    if let Err(error) = link.call("pause", Json::object()) {
        return Err(error);
    }
    let ghost h1 = link.history();
    let ghost reconnects = link.reconnects();
    let id = launch_id(link);
    let expected = borrowed(&id);
    let ghost want = link::optional_str(expected);
    assert(link::offers_at(h1, n).launch_id == want);
    let mut i: usize = 0;
    while i < steps.len()
        invariant
            i <= steps.len(),
            n == old(link).history().len(),
            lists == list_views(steps@),
            want == link::optional_str(expected),
            reconnects == old(link).reconnects(),
            link.reconnects() == reconnects,
            link::goes_on(old(link).history(), h1),
            link::is_call(h1, n, "pause"@, JsonView::object()),
            link::reply_at(h1, n) is Ok,
            link::offers_at(h1, n).launch_id == want,
            h1.len() == n + 1,
            sequence_frames(steps@.len(), press_frames) <= MAX_TAP_SEQUENCE_FRAMES,
            link::goes_on(h1, link.history()),
            forall|h: Seq<LinkStep>|
                link::goes_on(link.history(), h) ==> #[trigger] sequence_run(
                    h,
                    n + 1,
                    reconnects,
                    port,
                    lists,
                    press_frames,
                    want,
                    0,
                ) == sequence_run(
                    h,
                    link.history().len() as int,
                    reconnects,
                    port,
                    lists,
                    press_frames,
                    want,
                    i as int,
                ),
        decreases steps.len() - i,
    {
        let ghost here = link.history().len() as int;
        let ghost before = link.history();
        let tap = one_tap(link, port, steps[i].as_slice(), press_frames, expected);
        let ghost after = link.history();
        proof {
            assert(lists[i as int] == text::text_views(steps@[i as int]@));
            assert(link::goes_on(h1, after));
            assert forall|h: Seq<LinkStep>| link::goes_on(after, h) implies {
                &&& link::goes_on(before, h)
                &&& #[trigger] one_tap_run(
                    h,
                    here,
                    reconnects,
                    port,
                    lists[i as int],
                    press_frames,
                    want,
                ) == Some((after.len() as int, link::done_view(tap)))
            } by {}
            assert(link::goes_on(after, after));
            assert(after[n] == h1[n]);
        }
        tap?;
        i += 1;
    }
    assert(link.history()[n] == h1[n]);
    Ok(
        ToolOutput::Json(
            Json::object().with("sequence_len", Json::Unsigned(count)).with(
                "press_frames",
                Json::Unsigned(press_frames),
            ).with("state", Json::text("frozen")),
        ),
    )
}

/// The hexadecimal text of a memory reply, empty where it has none.
pub open spec fn reply_hex(reply: JsonView) -> Seq<char> {
    match reply.text_field("hex"@) {
        Some(s) => s,
        None => Seq::empty(),
    }
}

/// The report of a hold.
pub open spec fn held_report(changed: bool, frames: u64, before: Seq<char>, after: Seq<char>) -> JsonView {
    JsonView::object().with("changed"@, JsonView::Bool(changed)).with(
        "frames"@,
        JsonView::Unsigned(frames),
    ).with("before"@, JsonView::Str(before)).with("after"@, JsonView::Str(after)).with(
        "state"@,
        JsonView::Str("frozen"@),
    )
}

/// Advancing frame by frame until the watched memory differs from what it was.
pub open spec fn watch_run(
    h: Seq<LinkStep>,
    n: int,
    span: JsonView,
    before: Seq<char>,
    after: Seq<char>,
    frames: u64,
    max_frames: u64,
) -> Option<(int, Result<JsonView, LinkErrorView>)>
    decreases max_frames - frames,
{
    if frames >= max_frames {
        Some((n, Ok(held_report(false, frames, before, after))))
    } else if !link::is_call(h, n, "step"@, frames_params(1)) {
        None
    } else {
        match link::reply_at(h, n) {
            Err(e) => Some((n + 1, Err(e))),
            Ok(_) => if !link::is_call(h, n + 1, "read_memory"@, span) {
                None
            } else {
                match link::reply_at(h, n + 1) {
                    Err(e) => Some((n + 2, Err(e))),
                    Ok(v) => if reply_hex(v) != before {
                        Some(
                            (
                                n + 2,
                                Ok(held_report(true, (frames + 1) as u64, before, reply_hex(v))),
                            ),
                        )
                    } else {
                        watch_run(
                            h,
                            n + 2,
                            span,
                            before,
                            reply_hex(v),
                            (frames + 1) as u64,
                            max_frames,
                        )
                    },
                }
            },
        }
    }
}

/// The watched part of a hold: the memory is read, then watched frame by frame.
pub open spec fn held_run(h: Seq<LinkStep>, n: int, span: JsonView, max_frames: u64) -> Option<
    (int, Result<JsonView, LinkErrorView>),
> {
    if !link::is_call(h, n, "read_memory"@, span) {
        None
    } else {
        match link::reply_at(h, n) {
            Err(e) => Some((n + 1, Err(e))),
            Ok(v) => watch_run(h, n + 1, span, reply_hex(v), reply_hex(v), 0, max_frames),
        }
    }
}

/// A hold: the machine is frozen, the buttons held while the memory is watched, then released,
/// and the release seen by one frame.
pub open spec fn hold_run(
    h: Seq<LinkStep>,
    n: int,
    reconnects: bool,
    port: u64,
    buttons: Seq<Seq<char>>,
    span: JsonView,
    max_frames: u64,
) -> Option<(int, Result<JsonView, LinkErrorView>)> {
    if !link::is_call(h, n, "pause"@, JsonView::object()) {
        None
    } else {
        match link::reply_at(h, n) {
            Err(e) => Some((n + 1, Err(e))),
            Ok(_) => if !link::is_call(h, n + 1, "set_input"@, input_params(port, buttons)) {
                None
            } else {
                let expected = link::offers_at(h, n).launch_id;
                let body = match link::reply_at(h, n + 1) {
                    Err(e) => Some((n + 2, Err(e))),
                    Ok(_) => held_run(h, n + 2, span, max_frames),
                };
                match body {
                    None => None,
                    Some((m, outcome)) => match cleanup::transient_run(
                        h,
                        m,
                        link::offers_at(h, m - 1),
                        reconnects,
                        port,
                        expected,
                        outcome,
                    ) {
                        None => None,
                        Some((k, Err(e))) => Some((k, Err(e))),
                        Some((k, Ok(report))) => if !link::is_call(
                            h,
                            k,
                            "step"@,
                            frames_params(1),
                        ) {
                            None
                        } else {
                            match cleanup::frozen_run(
                                h,
                                k + 1,
                                link::offers_at(h, k),
                                reconnects,
                                expected,
                                link::reply_at(h, k),
                            ) {
                                None => None,
                                Some((j, Err(e))) => Some((j, Err(e))),
                                Some((j, Ok(_))) => Some((j, Ok(report))),
                            }
                        },
                    },
                }
            },
        }
    }
}

fn hex_of_reply(reply: &Json) -> (r: String)
    ensures
        r@ == reply_hex(reply@),
{
    match reply.get_str("hex") {
        Some(s) => s.to_owned(),
        None => String::new(),
    }
}

fn describe_hold(changed: bool, frames: u64, before: &str, after: &str) -> (r: Json)
    ensures
        r@ == held_report(changed, frames, before@, after@),
{
    Json::object().with("changed", Json::Bool(changed)).with("frames", Json::Unsigned(frames)).with(
        "before",
        Json::text(before),
    ).with("after", Json::text(after)).with("state", Json::text("frozen"))
}

fn watch<L: EmulatorLink>(
    link: &mut L,
    memory_type: &str,
    address: u64,
    length: u64,
    max_frames: u64,
) -> (r: Result<Json, LinkError>)
    ensures
        link::goes_on(old(link).history(), final(link).history()),
        final(link).reconnects() == old(link).reconnects(),
        link::is_current(*final(link)),
        final(link).history().len() > old(link).history().len(),
        forall|h: Seq<LinkStep>|
            link::goes_on(final(link).history(), h) ==> #[trigger] held_run(
                h,
                old(link).history().len() as int,
                tools::span_params(memory_type@, address, length),
                max_frames,
            ) == Some((final(link).history().len() as int, link::reply_view(r))),
{
    let ghost n = link.history().len() as int;
    let ghost span = tools::span_params(memory_type@, address, length);
    let first = match link.call("read_memory", tools::span_request(memory_type, address, length)) {
        Ok(value) => value,
        Err(error) => {
            return Err(error);
        },
    };
    let before = hex_of_reply(&first);
    let mut after = before.clone();
    let mut frames: u64 = 0;
    proof {
        let here = link.history();
        assert forall|h: Seq<LinkStep>| link::goes_on(here, h) implies #[trigger] held_run(
            h,
            n,
            span,
            max_frames,
        ) == watch_run(h, here.len() as int, span, before@, after@, frames, max_frames) by {
            assert(h[n] == here[n]);
        }
    }
    while frames < max_frames
        invariant
            frames <= max_frames,
            n == old(link).history().len(),
            span == tools::span_params(memory_type@, address, length),
            link.reconnects() == old(link).reconnects(),
            link::goes_on(old(link).history(), link.history()),
            link::is_current(*link),
            link.history().len() > old(link).history().len(),
            forall|h: Seq<LinkStep>|
                link::goes_on(link.history(), h) ==> #[trigger] held_run(h, n, span, max_frames)
                    == watch_run(
                    h,
                    link.history().len() as int,
                    span,
                    before@,
                    after@,
                    frames,
                    max_frames,
                ),
        decreases max_frames - frames,
    {
        let ghost here = link.history();
        let stepped = link.call("step", Json::object().with("frames", Json::Unsigned(1)));
        let ghost h1 = link.history();
        if let Err(error) = stepped {
            proof {
                assert forall|h: Seq<LinkStep>| link::goes_on(h1, h) implies #[trigger] held_run(
                    h,
                    n,
                    span,
                    max_frames,
                ) == Some((h1.len() as int, Err::<JsonView, _>(error@))) by {
                    assert(link::goes_on(here, h));
                    assert(h[here.len() as int] == h1[here.len() as int]);
                }
            }
            return Err(error);
        }
        let read = link.call("read_memory", tools::span_request(memory_type, address, length));
        let ghost h2 = link.history();
        proof {
            assert forall|h: Seq<LinkStep>| link::goes_on(h2, h) implies {
                &&& link::goes_on(here, h)
                &&& link::is_call(h, here.len() as int, "step"@, frames_params(1))
                &&& link::reply_at(h, here.len() as int) is Ok
                &&& link::is_call(h, here.len() as int + 1, "read_memory"@, span)
                &&& #[trigger] link::reply_at(h, here.len() as int + 1) == link::reply_view(read)
            } by {
                assert(h[here.len() as int] == h2[here.len() as int]);
                assert(h[here.len() as int + 1] == h2[here.len() as int + 1]);
                assert forall|i: int| 0 <= i < here.len() implies #[trigger] h[i] == here[i] by {
                    assert(h[i] == h2[i]);
                }
            }
            assert forall|h: Seq<LinkStep>| link::goes_on(h2, h) implies #[trigger] held_run(
                h,
                n,
                span,
                max_frames,
            ) == watch_run(h, here.len() as int, span, before@, after@, frames, max_frames) by {
                assert(link::reply_at(h, here.len() as int + 1) == link::reply_view(read));
            }
        }
        let value = match read {
            Ok(value) => value,
            Err(error) => {
                proof {
                    assert forall|h: Seq<LinkStep>| link::goes_on(h2, h) implies #[trigger] held_run(
                        h,
                        n,
                        span,
                        max_frames,
                    ) == Some((h2.len() as int, Err::<JsonView, _>(error@))) by {
                        assert(link::reply_at(h, here.len() as int + 1) == link::reply_view(read));
                    }
                }
                return Err(error);
            },
        };
        let ghost earlier = after@;
        let ghost done = frames;
        frames = frames + 1;
        after = hex_of_reply(&value);
        if !text::same(after.as_str(), before.as_str()) {
            let report = describe_hold(true, frames, before.as_str(), after.as_str());
            proof {
                assert forall|h: Seq<LinkStep>| link::goes_on(h2, h) implies #[trigger] held_run(
                    h,
                    n,
                    span,
                    max_frames,
                ) == Some((h2.len() as int, Ok::<_, LinkErrorView>(report@))) by {
                    assert(link::reply_at(h, here.len() as int + 1) == link::reply_view(read));
                }
            }
            return Ok(report);
        }
        proof {
            assert forall|h: Seq<LinkStep>| link::goes_on(h2, h) implies #[trigger] held_run(
                h,
                n,
                span,
                max_frames,
            ) == watch_run(h, h2.len() as int, span, before@, after@, frames, max_frames) by {
                assert(link::reply_at(h, here.len() as int + 1) == link::reply_view(read));
            }
        }
    }
    Ok(describe_hold(false, frames, before.as_str(), after.as_str()))
}

/// Holds buttons on a frozen machine, frame by frame, until watched memory changes or a number of
/// frames has passed; then releases them. Whatever fails, the buttons are released.
pub fn hold_until<L: EmulatorLink>(
    link: &mut L,
    port: u64,
    buttons: &[String],
    memory_type: &str,
    address: u64,
    length: u64,
    max_frames: u64,
) -> (r: Result<ToolOutput, LinkError>)
    ensures
        link::goes_on(old(link).history(), final(link).history()),
        hold_run(
            final(link).history(),
            old(link).history().len() as int,
            old(link).reconnects(),
            port,
            text::text_views(buttons@),
            tools::span_params(memory_type@, address, length),
            max_frames,
        ) matches Some((m, expected)) && m == final(link).history().len() && tools::yields(
            r,
            expected,
        ),
{
    let ghost n = link.history().len() as int;
    let ghost names = text::text_views(buttons@);
    let ghost span = tools::span_params(memory_type@, address, length);
    let ghost reconnects = link.reconnects();
    if let Err(error) = link.call("pause", Json::object()) {
        return Err(error);
    }
    let ghost h1 = link.history();
    let id = launch_id(link);
    let expected = borrowed(&id);
    let ghost want = link::optional_str(expected);
    let acquired = link.call("set_input", input_request(port, buttons));
    let ghost h2 = link.history();
    let ghost acquired_view = link::reply_view(acquired);
    let outcome = match acquired {
        Err(error) => Err(error),
        Ok(_) => watch(link, memory_type, address, length, max_frames),
    };
    let ghost h3 = link.history();
    let ghost m = h3.len() as int;
    let ghost outcome_view = link::reply_view(outcome);
    let ghost offers3 = link.offers();
    let ended = finish_transient_input(link, port, expected, outcome);
    let ghost h4 = link.history();
    let ghost k = h4.len() as int;
    proof {
        assert forall|h: Seq<LinkStep>| link::goes_on(h4, h) implies {
            &&& link::is_call(h, n, "pause"@, JsonView::object())
            &&& link::reply_at(h, n) is Ok
            &&& link::offers_at(h, n).launch_id == want
            &&& link::is_call(h, n + 1, "set_input"@, input_params(port, names))
            &&& link::reply_at(h, n + 1) == acquired_view
            &&& link::offers_at(h, m - 1) == offers3
            &&& (acquired_view is Ok ==> held_run(h, n + 2, span, max_frames) == Some(
                (m, outcome_view),
            ))
            &&& #[trigger] cleanup::transient_run(
                h,
                m,
                offers3,
                reconnects,
                port,
                want,
                outcome_view,
            ) == Some((k, link::reply_view(ended)))
        } by {
            assert(h[n] == h4[n] && h4[n] == h3[n] && h3[n] == h2[n] && h2[n] == h1[n]);
            assert(h[n + 1] == h4[n + 1] && h4[n + 1] == h3[n + 1] && h3[n + 1] == h2[n + 1]);
            assert(h[m - 1] == h4[m - 1] && h4[m - 1] == h3[m - 1]);
            assert forall|i: int| 0 <= i < h3.len() implies #[trigger] h[i] == h3[i] by {
                assert(h[i] == h4[i]);
            }
            assert(link::goes_on(h3, h));
        }
    }
    let report = match ended {
        Err(error) => {
            assert(link::goes_on(h4, h4));
            return Err(error);
        },
        Ok(report) => report,
    };
    let edge = link.call("step", Json::object().with("frames", Json::Unsigned(1)));
    let ghost h5 = link.history();
    let ghost edge_view = link::reply_view(edge);
    let ghost offers5 = link.offers();
    let settled = finish_frozen(link, expected, edge);
    let ghost h6 = link.history();
    proof {
        assert(link::goes_on(h6, h6));
        assert(h6[k] == h5[k]);
        assert(cleanup::frozen_run(h6, k + 1, offers5, reconnects, want, edge_view) == Some(
            (h6.len() as int, link::reply_view(settled)),
        ));
        assert forall|i: int| 0 <= i < h4.len() implies #[trigger] h6[i] == h4[i] by {
            assert(h6[i] == h5[i]);
        }
        assert(link::goes_on(h4, h6));
        assert(cleanup::transient_run(h6, m, offers3, reconnects, port, want, outcome_view)
            == Some((k, link::reply_view(ended))));
    }
    match settled {
        Err(error) => Err(error),
        Ok(_) => Ok(ToolOutput::Json(report)),
    }
}

proof fn steps_go_on(
    h: Seq<LinkStep>,
    n: int,
    reconnects: bool,
    frames: u64,
    expected: Option<Seq<char>>,
)
    ensures
        step_run(h, n, reconnects, frames, expected) matches Some((m, _)) ==> n <= m,
{
    cleanup::frozen_operations_go_on(
        h,
        n + 1,
        link::offers_at(h, n),
        reconnects,
        expected,
        link::reply_at(h, n),
    );
}

/// An advance does not go back in its history.
pub proof fn advances_go_on(
    h: Seq<LinkStep>,
    n: int,
    reconnects: bool,
    frames: u64,
    expected: Option<Seq<char>>,
    operation: Seq<char>,
    phase: Seq<char>,
)
    ensures
        advance_run(h, n, reconnects, frames, expected, operation, phase) matches Some((m, _))
            ==> n <= m,
{
    steps_go_on(h, n, reconnects, frames, expected);
}

proof fn single_taps_let_go(
    h: Seq<LinkStep>,
    n: int,
    reconnects: bool,
    port: u64,
    buttons: Seq<Seq<char>>,
    press_frames: u64,
    expected: Option<Seq<char>>,
)
    ensures
        one_tap_run(h, n, reconnects, port, buttons, press_frames, expected) matches Some((m, r))
            ==> cleanup::lets_go(h, n, m, port, r),
{
    match link::reply_at(h, n) {
        Err(e) => {
            cleanup::operations_let_go(
                h,
                n + 1,
                link::offers_at(h, n),
                reconnects,
                port,
                expected,
                Err(e),
            );
        },
        Ok(_) => {
            let offers = link::offers_at(h, n + 1);
            let outcome = link::reply_at(h, n + 1);
            cleanup::operations_let_go(h, n + 2, offers, reconnects, port, expected, outcome);
            if let Some((m, Ok(_))) = cleanup::transient_run(
                h,
                n + 2,
                offers,
                reconnects,
                port,
                expected,
                outcome,
            ) {
                steps_go_on(h, m, reconnects, 1, expected);
            }
        },
    }
}

/// A tap that got the machine frozen lets go of its buttons, whatever comes of it.
pub proof fn taps_let_go(
    h: Seq<LinkStep>,
    n: int,
    reconnects: bool,
    port: u64,
    buttons: Seq<Seq<char>>,
    press_frames: u64,
    after_frames: u64,
)
    requires
        link::reply_at(h, n) is Ok,
    ensures
        tap_run(h, n, reconnects, port, buttons, press_frames, after_frames) matches Some((m, r))
            ==> cleanup::lets_go(h, n, m, port, r),
{
    let expected = link::offers_at(h, n).launch_id;
    single_taps_let_go(h, n + 1, reconnects, port, buttons, press_frames, expected);
    if let Some((m, Ok(()))) = one_tap_run(
        h,
        n + 1,
        reconnects,
        port,
        buttons,
        press_frames,
        expected,
    ) {
        steps_go_on(h, m, reconnects, after_frames, expected);
    }
}

proof fn sequences_let_go(
    h: Seq<LinkStep>,
    n: int,
    reconnects: bool,
    port: u64,
    steps: Seq<Seq<Seq<char>>>,
    press_frames: u64,
    expected: Option<Seq<char>>,
    i: int,
)
    requires
        0 <= i,
    ensures
        sequence_run(h, n, reconnects, port, steps, press_frames, expected, i) matches Some((m, r))
            ==> n <= m && (i < steps.len() ==> cleanup::lets_go(h, n, m, port, r)),
    decreases steps.len() - i,
{
    if i < steps.len() {
        single_taps_let_go(h, n, reconnects, port, steps[i], press_frames, expected);
        if let Some((m, Ok(()))) = one_tap_run(
            h,
            n,
            reconnects,
            port,
            steps[i],
            press_frames,
            expected,
        ) {
            sequences_let_go(h, m, reconnects, port, steps, press_frames, expected, i + 1);
        }
    }
}

/// A sequence of taps that got the machine frozen lets go of its buttons, whatever comes of it.
pub proof fn tap_sequences_let_go(
    h: Seq<LinkStep>,
    n: int,
    reconnects: bool,
    port: u64,
    steps: Seq<Seq<Seq<char>>>,
    press_frames: u64,
)
    requires
        link::reply_at(h, n) is Ok,
        steps.len() > 0,
    ensures
        tap_sequence_run(h, n, reconnects, port, steps, press_frames) matches Some((m, r))
            ==> cleanup::lets_go(h, n, m, port, r),
{
    let expected = link::offers_at(h, n).launch_id;
    sequences_let_go(h, n + 1, reconnects, port, steps, press_frames, expected, 0);
}

proof fn watches_go_on(
    h: Seq<LinkStep>,
    n: int,
    span: JsonView,
    before: Seq<char>,
    after: Seq<char>,
    frames: u64,
    max_frames: u64,
)
    ensures
        watch_run(h, n, span, before, after, frames, max_frames) matches Some((m, _)) ==> n <= m,
    decreases max_frames - frames,
{
    if frames < max_frames {
        if let Ok(v) = link::reply_at(h, n + 1) {
            watches_go_on(
                h,
                n + 2,
                span,
                before,
                reply_hex(v),
                (frames + 1) as u64,
                max_frames,
            );
        }
    }
}

/// A hold that got the machine frozen lets go of its buttons, whatever comes of it.
pub proof fn holds_let_go(
    h: Seq<LinkStep>,
    n: int,
    reconnects: bool,
    port: u64,
    buttons: Seq<Seq<char>>,
    span: JsonView,
    max_frames: u64,
)
    requires
        link::reply_at(h, n) is Ok,
    ensures
        hold_run(h, n, reconnects, port, buttons, span, max_frames) matches Some((m, r))
            ==> cleanup::lets_go(h, n, m, port, r),
{
    let expected = link::offers_at(h, n).launch_id;
    let body = match link::reply_at(h, n + 1) {
        Err(e) => Some((n + 2, Err(e))),
        Ok(_) => held_run(h, n + 2, span, max_frames),
    };
    if let Ok(v) = link::reply_at(h, n + 2) {
        watches_go_on(h, n + 3, span, reply_hex(v), reply_hex(v), 0, max_frames);
    }
    if let Some((m, outcome)) = body {
        let offers = link::offers_at(h, m - 1);
        cleanup::operations_let_go(h, m, offers, reconnects, port, expected, outcome);
        if let Some((k, Ok(_))) = cleanup::transient_run(
            h,
            m,
            offers,
            reconnects,
            port,
            expected,
            outcome,
        ) {
            cleanup::frozen_operations_go_on(
                h,
                k + 1,
                link::offers_at(h, k),
                reconnects,
                expected,
                link::reply_at(h, k),
            );
        }
    }
}

} // verus!
