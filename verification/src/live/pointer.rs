//! Pointer gestures on a frozen machine: relative moves, clicks and drags.

use vstd::prelude::*;
use crate::json::{Json, JsonView};
use crate::live::cleanup;
use crate::live::cleanup::{finish_frozen, finish_transient_input, input_params, input_request};
use crate::live::frozen;
use crate::live::link;
use crate::live::link::{EmulatorLink, LinkError, LinkErrorView, LinkStep};
use crate::live::tools;
use crate::live::tools::ToolOutput;
use crate::text;

verus! {

/// The name by which an adapter knows a pointer button.
pub open spec fn canonical_button(button: Seq<char>) -> Option<Seq<char>> {
    let name = text::lowered(text::trimmed(button));
    if name == "left"@ || name == "mouse_left"@ || name == "left_click"@ {
        Some("mouse_left"@)
    } else if name == "right"@ || name == "mouse_right"@ || name == "right_click"@ {
        Some("mouse_right"@)
    } else if name == "middle"@ || name == "mouse_middle"@ || name == "middle_click"@ {
        Some("mouse_middle"@)
    } else {
        None
    }
}

/// What naming a button comes to.
pub open spec fn button_check(button: Seq<char>) -> Result<Seq<char>, LinkErrorView> {
    match canonical_button(button) {
        Some(name) => Ok(name),
        None => Err(link::bad_params_view("pointer button must be left, right, or middle"@)),
    }
}

fn canonical_pointer_button(button: &str) -> (r: Result<String, LinkError>)
    ensures
        match (r, button_check(button@)) {
            (Ok(name), Ok(wanted)) => name@ == wanted,
            (Err(e), Err(f)) => e@ == f,
            _ => false,
        },
{
    let name = text::lower(text::trim(button).as_str());
    let name = name.as_str();
    if text::same(name, "left") || text::same(name, "mouse_left") || text::same(
        name,
        "left_click",
    ) {
        Ok("mouse_left".to_owned())
    } else if text::same(name, "right") || text::same(name, "mouse_right") || text::same(
        name,
        "right_click",
    ) {
        Ok("mouse_right".to_owned())
    } else if text::same(name, "middle") || text::same(name, "mouse_middle") || text::same(
        name,
        "middle_click",
    ) {
        Ok("mouse_middle".to_owned())
    } else {
        Err(LinkError::emulator("bad_params", "pointer button must be left, right, or middle"))
    }
}

/// Whether a gesture moves the pointer at all.
pub open spec fn delta_check(operation: Seq<char>, dx: i64, dy: i64) -> Result<(), LinkErrorView> {
    if dx == 0 && dy == 0 {
        Err(link::bad_params_view(operation + " requires a non-zero relative delta"@))
    } else {
        Ok(())
    }
}

fn validate_delta(operation: &str, dx: i64, dy: i64) -> (r: Result<(), LinkError>)
    ensures
        link::done_view(r) == delta_check(operation@, dx, dy),
{
    if dx == 0 && dy == 0 {
        let message = text::join(operation, " requires a non-zero relative delta");
        Err(LinkError::emulator("bad_params", message.as_str()))
    } else {
        Ok(())
    }
}

/// The parameters of a relative move.
pub open spec fn move_params(port: u64, dx: i64, dy: i64, frames: u64) -> JsonView {
    JsonView::object().with("port"@, JsonView::Unsigned(port)).with(
        "dx"@,
        JsonView::signed(dx),
    ).with("dy"@, JsonView::signed(dy)).with("frames"@, JsonView::Unsigned(frames))
}

fn move_request(port: u64, dx: i64, dy: i64, frames: u64) -> (r: Json)
    ensures
        r@ == move_params(port, dx, dy, frames),
{
    Json::object().with("port", Json::Unsigned(port)).with("dx", Json::signed(dx)).with(
        "dy",
        Json::signed(dy),
    ).with("frames", Json::Unsigned(frames))
}

/// A relative move on a machine that is frozen first.
pub open spec fn move_run(
    h: Seq<LinkStep>,
    n: int,
    reconnects: bool,
    port: u64,
    dx: i64,
    dy: i64,
    frames: u64,
) -> Option<(int, Result<JsonView, LinkErrorView>)> {
    if !link::is_call(h, n, "pause"@, JsonView::object()) {
        None
    } else {
        match link::reply_at(h, n) {
            Err(e) => Some((n + 1, Err(e))),
            Ok(_) => if !link::is_call(
                h,
                n + 1,
                "move_pointer"@,
                move_params(port, dx, dy, frames),
            ) {
                None
            } else {
                cleanup::frozen_run(
                    h,
                    n + 2,
                    link::offers_at(h, n + 1),
                    reconnects,
                    link::offers_at(h, n).launch_id,
                    link::reply_at(h, n + 1),
                )
            },
        }
    }
}

/// The first of two checks that fails.
pub open spec fn first_fault(
    a: Result<(), LinkErrorView>,
    b: Result<(), LinkErrorView>,
) -> Result<(), LinkErrorView> {
    match a {
        Err(e) => Err(e),
        Ok(()) => b,
    }
}

/// What a checked operation comes to: a refusal without any call, or what its run gives.
pub open spec fn checked<L: EmulatorLink>(
    before: L,
    after: L,
    check: Result<(), LinkErrorView>,
    run: Option<(int, Result<JsonView, LinkErrorView>)>,
    r: Result<ToolOutput, LinkError>,
) -> bool {
    match check {
        Err(e) => after.history() == before.history() && tools::yields(r, Err(e)),
        Ok(()) => {
            &&& link::goes_on(before.history(), after.history())
            &&& run matches Some((m, expected)) && m == after.history().len() && tools::yields(
                r,
                expected,
            )
        },
    }
}

/// Moves the pointer by a relative delta over some frames of a frozen machine. An empty delta and
/// an advance out of bounds are refused before any call.
pub fn move_pointer<L: EmulatorLink>(link: &mut L, port: u64, dx: i64, dy: i64, frames: u64) -> (r:
    Result<ToolOutput, LinkError>)
    ensures
        checked(
            *old(link),
            *final(link),
            first_fault(
                tools::advance_check("move_pointer frame"@, 1, frames),
                delta_check("move_pointer"@, dx, dy),
            ),
            move_run(
                final(link).history(),
                old(link).history().len() as int,
                old(link).reconnects(),
                port,
                dx,
                dy,
                frames,
            ),
            r,
        ),
{
    tools::validate_positive_sync_advance("move_pointer frame", frames)?;
    validate_delta("move_pointer", dx, dy)?;
    let ghost n = link.history().len() as int;
    if let Err(error) = link.call("pause", Json::object()) {
        return Err(error);
    }
    let ghost h1 = link.history();
    let id = frozen::launch_id(link);
    let outcome = link.call("move_pointer", move_request(port, dx, dy, frames));
    let ghost h2 = link.history();
    let ended = finish_frozen(link, frozen::borrowed(&id), outcome);
    proof {
        let h3 = link.history();
        assert(link::goes_on(h3, h3));
        assert(h3[n] == h2[n] && h2[n] == h1[n]);
        assert(h3[n + 1] == h2[n + 1]);
    }
    match ended {
        Ok(value) => Ok(ToolOutput::Json(value)),
        Err(error) => Err(error),
    }
}

/// The report of a click, from that of the tap it is made of.
pub open spec fn clicked(
    report: JsonView,
    button: Seq<char>,
    press_frames: u64,
    after_frames: u64,
) -> JsonView {
    let stopped = frozen::is_interrupted(report);
    let named = report.without("tapped"@).put("operation"@, JsonView::Str("click_pointer"@)).put(
        "button"@,
        JsonView::Str(button),
    ).put("clicked"@, JsonView::Bool(!stopped));
    let marked = if stopped {
        named
    } else {
        named.put("status"@, JsonView::Str("completed"@))
    };
    marked.put("press_frames"@, JsonView::Unsigned(press_frames)).put(
        "after_frames"@,
        JsonView::Unsigned(after_frames),
    ).put("state"@, JsonView::Str("frozen"@))
}

/// A click: the run of a tap of the button, with its report made one of a click.
pub open spec fn click_run(
    h: Seq<LinkStep>,
    n: int,
    reconnects: bool,
    port: u64,
    button: Seq<char>,
    press_frames: u64,
    after_frames: u64,
) -> Option<(int, Result<JsonView, LinkErrorView>)> {
    match frozen::tap_run(h, n, reconnects, port, seq![button], press_frames, after_frames) {
        Some((m, Ok(report))) => Some(
            (m, Ok(clicked(report, button, press_frames, after_frames))),
        ),
        other => other,
    }
}

/// The checks of a click, in order.
pub open spec fn click_check(button: Seq<char>, press_frames: u64, after_frames: u64) -> Result<
    (),
    LinkErrorView,
> {
    let named = match button_check(button) {
        Ok(_) => Ok(()),
        Err(e) => Err(e),
    };
    first_fault(
        tools::advance_check("click_pointer press frame"@, 1, press_frames),
        first_fault(named, tools::advance_check("tap trailing frame"@, 0, after_frames)),
    )
}

/// Clicks a pointer button: one tap of it on a frozen machine.
pub fn click_pointer<L: EmulatorLink>(
    link: &mut L,
    port: u64,
    button: &str,
    press_frames: u64,
    after_frames: u64,
) -> (r: Result<ToolOutput, LinkError>)
    ensures
        checked(
            *old(link),
            *final(link),
            click_check(button@, press_frames, after_frames),
            click_run(
                final(link).history(),
                old(link).history().len() as int,
                old(link).reconnects(),
                port,
                canonical_button(button@).unwrap(),
                press_frames,
                after_frames,
            ),
            r,
        ),
{
    tools::validate_positive_sync_advance("click_pointer press frame", press_frames)?;
    let name = canonical_pointer_button(button)?;
    let mut names: Vec<String> = Vec::new();
    names.push(name.clone());
    assert(text::text_views(names@) =~= seq![name@]);
    let output = frozen::tap(link, port, names.as_slice(), press_frames, after_frames)?;
    let report = match output {
        ToolOutput::Json(report) => report,
        ToolOutput::Image { .. } => {
            return Err(LinkError::protocol("tap returned a non-JSON pointer click result"));
        },
    };
    let stopped = frozen::interrupted(&report);
    let named = report.without("tapped").put("operation", Json::text("click_pointer")).put(
        "button",
        Json::text(name.as_str()),
    ).put("clicked", Json::Bool(!stopped));
    let marked = if stopped {
        named
    } else {
        named.put("status", Json::text("completed"))
    };
    Ok(
        ToolOutput::Json(
            marked.put("press_frames", Json::Unsigned(press_frames)).put(
                "after_frames",
                Json::Unsigned(after_frames),
            ).put("state", Json::text("frozen")),
        ),
    )
}

/// The report of a completed drag.
pub open spec fn dragged(
    button: Seq<char>,
    dx: i64,
    dy: i64,
    move_frames: u64,
    after_frames: u64,
) -> JsonView {
    JsonView::object().with("status"@, JsonView::Str("completed"@)).with(
        "dragged"@,
        JsonView::Bool(true),
    ).with("button"@, JsonView::Str(button)).with("dx"@, JsonView::signed(dx)).with(
        "dy"@,
        JsonView::signed(dy),
    ).with("move_frames"@, JsonView::Unsigned(move_frames)).with(
        "after_frames"@,
        JsonView::Unsigned(after_frames),
    ).with("state"@, JsonView::Str("frozen"@))
}

/// The frames that follow the release of a drag: one that sees the release, then those asked for.
pub open spec fn trail_run(
    h: Seq<LinkStep>,
    n: int,
    reconnects: bool,
    after_frames: u64,
    expected: Option<Seq<char>>,
) -> Option<(int, Result<Option<JsonView>, LinkErrorView>)> {
    match frozen::advance_run(
        h,
        n,
        reconnects,
        1,
        expected,
        "drag_pointer"@,
        "release_edge"@,
    ) {
        Some((m, Ok(None))) => if after_frames == 0 {
            Some((m, Ok(None)))
        } else {
            frozen::advance_run(
                h,
                m,
                reconnects,
                after_frames,
                expected,
                "drag_pointer"@,
                "after_release"@,
            )
        },
        other => other,
    }
}

/// A drag on a machine that is frozen first: the button is held during the move, and released
/// whatever the move gives.
pub open spec fn drag_run(
    h: Seq<LinkStep>,
    n: int,
    reconnects: bool,
    port: u64,
    button: Seq<char>,
    dx: i64,
    dy: i64,
    move_frames: u64,
    after_frames: u64,
) -> Option<(int, Result<JsonView, LinkErrorView>)> {
    if !link::is_call(h, n, "pause"@, JsonView::object()) {
        None
    } else {
        match link::reply_at(h, n) {
            Err(e) => Some((n + 1, Err(e))),
            Ok(_) => {
                let expected = link::offers_at(h, n).launch_id;
                if !link::is_call(h, n + 1, "set_input"@, input_params(port, seq![button])) {
                    None
                } else {
                    match link::reply_at(h, n + 1) {
                        Err(e) => cleanup::transient_run(
                            h,
                            n + 2,
                            link::offers_at(h, n + 1),
                            reconnects,
                            port,
                            expected,
                            Err(e),
                        ),
                        Ok(_) => if !link::is_call(
                            h,
                            n + 2,
                            "move_pointer"@,
                            move_params(port, dx, dy, move_frames),
                        ) {
                            None
                        } else {
                            match cleanup::transient_run(
                                h,
                                n + 3,
                                link::offers_at(h, n + 2),
                                reconnects,
                                port,
                                expected,
                                link::reply_at(h, n + 2),
                            ) {
                                Some((m, Ok(v))) => if frozen::is_interrupted(v) {
                                    Some(
                                        (
                                            m,
                                            Ok(
                                                frozen::interrupted_in(
                                                    v,
                                                    "drag_pointer"@,
                                                    "movement"@,
                                                ).put("button"@, JsonView::Str(button)),
                                            ),
                                        ),
                                    )
                                } else {
                                    match trail_run(h, m, reconnects, after_frames, expected) {
                                        None => None,
                                        Some((k, Err(e))) => Some((k, Err(e))),
                                        Some((k, Ok(Some(w)))) => Some(
                                            (k, Ok(w.put("button"@, JsonView::Str(button)))),
                                        ),
                                        Some((k, Ok(None))) => Some(
                                            (
                                                k,
                                                Ok(
                                                    dragged(
                                                        button,
                                                        dx,
                                                        dy,
                                                        move_frames,
                                                        after_frames,
                                                    ),
                                                ),
                                            ),
                                        ),
                                    }
                                },
                                other => other,
                            }
                        },
                    }
                }
            },
        }
    }
}

/// The checks of a drag, in order.
pub open spec fn drag_check(
    button: Seq<char>,
    dx: i64,
    dy: i64,
    move_frames: u64,
    after_frames: u64,
) -> Result<(), LinkErrorView> {
    let named = match button_check(button) {
        Ok(_) => Ok(()),
        Err(e) => Err(e),
    };
    first_fault(
        tools::advance_check("drag_pointer movement frame"@, 1, move_frames),
        first_fault(
            tools::advance_check("drag_pointer trailing frame"@, 0, after_frames),
            first_fault(delta_check("drag_pointer"@, dx, dy), named),
        ),
    )
}

fn trail<L: EmulatorLink>(link: &mut L, after_frames: u64, expected: Option<&str>) -> (r: Result<
    Option<Json>,
    LinkError,
>)
    ensures
        link::goes_on(old(link).history(), final(link).history()),
        forall|h: Seq<LinkStep>|
            link::goes_on(final(link).history(), h) ==> #[trigger] trail_run(
                h,
                old(link).history().len() as int,
                old(link).reconnects(),
                after_frames,
                link::optional_str(expected),
            ) == Some((final(link).history().len() as int, frozen::step_view(r))),
{
    let ghost n = link.history().len() as int;
    let edge = frozen::advance(link, 1, expected, "drag_pointer", "release_edge");
    let ghost h1 = link.history();
    match edge {
        Err(error) => {
            return Err(error);
        },
        Ok(Some(report)) => {
            return Ok(Some(report));
        },
        Ok(None) => {},
    }
    if after_frames == 0 {
        return Ok(None);
    }
    let r = frozen::advance(link, after_frames, expected, "drag_pointer", "after_release");
    proof {
        let h2 = link.history();
        assert forall|h: Seq<LinkStep>| link::goes_on(h2, h) implies link::goes_on(h1, h) by {
            assert forall|i: int| 0 <= i < h1.len() implies #[trigger] h[i] == h1[i] by {
                assert(h[i] == h2[i]);
            }
        }
    }
    r
}

/// Drags with a pointer button held over a relative move on a frozen machine. The button is
/// released whatever the move gives.
pub fn drag_pointer<L: EmulatorLink>(
    link: &mut L,
    port: u64,
    button: &str,
    dx: i64,
    dy: i64,
    move_frames: u64,
    after_frames: u64,
) -> (r: Result<ToolOutput, LinkError>)
    ensures
        checked(
            *old(link),
            *final(link),
            drag_check(button@, dx, dy, move_frames, after_frames),
            drag_run(
                final(link).history(),
                old(link).history().len() as int,
                old(link).reconnects(),
                port,
                canonical_button(button@).unwrap(),
                dx,
                dy,
                move_frames,
                after_frames,
            ),
            r,
        ),
{
    tools::validate_positive_sync_advance("drag_pointer movement frame", move_frames)?;
    tools::validate_sync_advance("drag_pointer trailing frame", after_frames)?;
    validate_delta("drag_pointer", dx, dy)?;
    let name = canonical_pointer_button(button)?;
    let mut names: Vec<String> = Vec::new();
    names.push(name.clone());
    assert(text::text_views(names@) =~= seq![name@]);
    let ghost n = link.history().len() as int;
    let ghost reconnects = link.reconnects();
    if let Err(error) = link.call("pause", Json::object()) {
        return Err(error);
    }
    let ghost h1 = link.history();
    let id = frozen::launch_id(link);
    let expected = frozen::borrowed(&id);
    let ghost want = link::optional_str(expected);
    let acquired = link.call("set_input", input_request(port, names.as_slice()));
    let ghost h2 = link.history();
    assert(h2[n] == h1[n]);
    if let Err(primary) = acquired {
        let ended = finish_transient_input(link, port, expected, Err(primary));
        proof {
            let h3 = link.history();
            assert(link::goes_on(h3, h3));
            assert(h3[n] == h2[n]);
            assert(h3[n + 1] == h2[n + 1]);
        }
        return match ended {
            Ok(value) => Ok(ToolOutput::Json(value)),
            Err(error) => Err(error),
        };
    }
    let outcome = link.call("move_pointer", move_request(port, dx, dy, move_frames));
    let ghost h3 = link.history();
    let ghost outcome_view = link::reply_view(outcome);
    let ghost offers3 = link.offers();
    let ended = finish_transient_input(link, port, expected, outcome);
    let ghost h4 = link.history();
    let ghost m = h4.len() as int;
    proof {
        assert forall|h: Seq<LinkStep>| link::goes_on(h4, h) implies {
            &&& link::is_call(h, n, "pause"@, JsonView::object())
            &&& link::reply_at(h, n) is Ok
            &&& link::offers_at(h, n).launch_id == want
            &&& link::is_call(h, n + 1, "set_input"@, input_params(port, seq![name@]))
            &&& link::reply_at(h, n + 1) is Ok
            &&& link::is_call(
                h,
                n + 2,
                "move_pointer"@,
                move_params(port, dx, dy, move_frames),
            )
            &&& link::reply_at(h, n + 2) == outcome_view
            &&& link::offers_at(h, n + 2) == offers3
            &&& #[trigger] cleanup::transient_run(
                h,
                n + 3,
                offers3,
                reconnects,
                port,
                want,
                outcome_view,
            ) == Some((m, link::reply_view(ended)))
        } by {
            assert(h[n] == h4[n] && h4[n] == h3[n] && h3[n] == h2[n]);
            assert(h[n + 1] == h4[n + 1] && h4[n + 1] == h3[n + 1] && h3[n + 1] == h2[n + 1]);
            assert(h[n + 2] == h4[n + 2] && h4[n + 2] == h3[n + 2]);
        }
        assert(link::goes_on(h4, h4));
    }
    let movement = match ended {
        Ok(value) => value,
        Err(error) => {
            return Err(error);
        },
    };
    if frozen::interrupted(&movement) {
        let report = frozen::interruption(movement, "drag_pointer", "movement");
        return Ok(ToolOutput::Json(report.put("button", Json::text(name.as_str()))));
    }
    let trailing = trail(link, after_frames, expected);
    proof {
        let h5 = link.history();
        assert(link::goes_on(h5, h5));
        assert(link::goes_on(h4, h5));
        assert(cleanup::transient_run(h5, n + 3, offers3, reconnects, port, want, outcome_view)
            == Some((m, link::reply_view(ended))));
    }
    match trailing {
        Err(error) => Err(error),
        Ok(Some(report)) => Ok(
            ToolOutput::Json(report.put("button", Json::text(name.as_str()))),
        ),
        Ok(None) => Ok(
            ToolOutput::Json(
                Json::object().with("status", Json::text("completed")).with(
                    "dragged",
                    Json::Bool(true),
                ).with("button", Json::text(name.as_str())).with("dx", Json::signed(dx)).with(
                    "dy",
                    Json::signed(dy),
                ).with("move_frames", Json::Unsigned(move_frames)).with(
                    "after_frames",
                    Json::Unsigned(after_frames),
                ).with("state", Json::text("frozen")),
            ),
        ),
    }
}

/// A click that got the machine frozen lets go of its button, whatever comes of it.
pub proof fn clicks_let_go(
    h: Seq<LinkStep>,
    n: int,
    reconnects: bool,
    port: u64,
    button: Seq<char>,
    press_frames: u64,
    after_frames: u64,
)
    requires
        link::reply_at(h, n) is Ok,
    ensures
        click_run(h, n, reconnects, port, button, press_frames, after_frames) matches Some((m, r))
            ==> cleanup::lets_go(h, n, m, port, r),
{
    frozen::taps_let_go(h, n, reconnects, port, seq![button], press_frames, after_frames);
}

/// A drag that got the machine frozen lets go of its button, whatever comes of it.
pub proof fn drags_let_go(
    h: Seq<LinkStep>,
    n: int,
    reconnects: bool,
    port: u64,
    button: Seq<char>,
    dx: i64,
    dy: i64,
    move_frames: u64,
    after_frames: u64,
)
    requires
        link::reply_at(h, n) is Ok,
    ensures
        drag_run(h, n, reconnects, port, button, dx, dy, move_frames, after_frames) matches Some(
            (m, r),
        ) ==> cleanup::lets_go(h, n, m, port, r),
{
    let expected = link::offers_at(h, n).launch_id;
    match link::reply_at(h, n + 1) {
        Err(e) => {
            cleanup::operations_let_go(
                h,
                n + 2,
                link::offers_at(h, n + 1),
                reconnects,
                port,
                expected,
                Err(e),
            );
        },
        Ok(_) => {
            let offers = link::offers_at(h, n + 2);
            let outcome = link::reply_at(h, n + 2);
            cleanup::operations_let_go(h, n + 3, offers, reconnects, port, expected, outcome);
            if let Some((m, Ok(_))) = cleanup::transient_run(
                h,
                n + 3,
                offers,
                reconnects,
                port,
                expected,
                outcome,
            ) {
                let edge = "release_edge"@;
                frozen::advances_go_on(h, m, reconnects, 1, expected, "drag_pointer"@, edge);
                if let Some((k, Ok(None))) = frozen::advance_run(
                    h,
                    m,
                    reconnects,
                    1,
                    expected,
                    "drag_pointer"@,
                    edge,
                ) {
                    frozen::advances_go_on(
                        h,
                        k,
                        reconnects,
                        after_frames,
                        expected,
                        "drag_pointer"@,
                        "after_release"@,
                    );
                }
            }
        },
    }
}

} // verus!
