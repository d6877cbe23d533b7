//! What input gestures on a frozen machine promise, told by the calls that the link made.

use vstd::prelude::*;
use crate::json;
use crate::json::JsonView;
use crate::live::cleanup;
use crate::live::frozen;
use crate::live::link::{LinkErrorView, LinkStep, OffersView};
use crate::live::pointer;

verus! {

/// Whether a step is a call of a method that succeeded.
pub open spec fn succeeded(step: LinkStep, wanted: Seq<char>) -> bool {
    step matches LinkStep::Called { method, reply: Ok(_), .. } && method == wanted
}

/// Whether a step is a call that reached the machine and changed its input or let it run.
pub open spec fn acts(step: LinkStep) -> bool {
    succeeded(step, "set_input"@) || succeeded(step, "step"@) || succeeded(step, "move_pointer"@)
}

/// The steps between two places that reached the machine, in order.
pub open spec fn acted(h: Seq<LinkStep>, n: int, m: int) -> Seq<LinkStep>
    decreases m - n,
{
    if n >= m {
        Seq::empty()
    } else if acts(h[m - 1]) {
        acted(h, n, m - 1).push(h[m - 1])
    } else {
        acted(h, n, m - 1)
    }
}

/// The calls between two places that read memory, in order.
pub open spec fn looked(h: Seq<LinkStep>, n: int, m: int) -> Seq<LinkStep>
    decreases m - n,
{
    if n >= m {
        Seq::empty()
    } else if succeeded(h[m - 1], "read_memory"@) {
        looked(h, n, m - 1).push(h[m - 1])
    } else {
        looked(h, n, m - 1)
    }
}

/// Whether a step holds exactly some buttons of a port.
pub open spec fn holds(step: LinkStep, port: u64, buttons: Seq<Seq<char>>) -> bool {
    &&& succeeded(step, "set_input"@)
    &&& step matches LinkStep::Called { params, .. } && {
        &&& params.unsigned_field("port"@) == Some(port)
        &&& params.field("buttons"@) matches Some(JsonView::Array(told)) && told.len()
            == buttons.len() && forall|i: int|
            0 <= i < told.len() ==> #[trigger] told[i] == JsonView::Str(buttons[i])
    }
}

/// Whether a step lets the machine run for some frames.
pub open spec fn passes(step: LinkStep, frames: u64) -> bool {
    &&& succeeded(step, "step"@)
    &&& step matches LinkStep::Called { params, .. } && params.unsigned_field("frames"@) == Some(
        frames,
    )
}

/// Whether a step moves the pointer of a port by some distance during some frames.
pub open spec fn moves(step: LinkStep, port: u64, dx: i64, dy: i64, frames: u64) -> bool {
    &&& succeeded(step, "move_pointer"@)
    &&& step matches LinkStep::Called { params, .. } && {
        &&& params.unsigned_field("port"@) == Some(port)
        &&& params.field("dx"@) matches Some(x) && x.as_signed() == Some(dx)
        &&& params.field("dy"@) matches Some(y) && y.as_signed() == Some(dy)
        &&& params.unsigned_field("frames"@) == Some(frames)
    }
}

/// Whether a step reads memory as asked for, and what it reads as hexadecimal text.
pub open spec fn reads(step: LinkStep, span: JsonView, hex: Seq<char>) -> bool {
    step matches LinkStep::Called { method, params, reply: Ok(reply), .. } && {
        &&& method == "read_memory"@
        &&& params == span
        &&& match reply.text_field("hex"@) {
            Some(told) => told == hex,
            None => hex.len() == 0,
        }
    }
}

/// The frames that a press of some frames takes: a press is seen by one frame at least.
pub open spec fn seen_frames(press_frames: u64) -> u64 {
    if press_frames == 0 {
        1
    } else {
        press_frames
    }
}

pub proof fn methods_differ()
    ensures
        "set_input"@ != "step"@,
        "set_input"@ != "move_pointer"@,
        "set_input"@ != "read_memory"@,
        "set_input"@ != "status"@,
        "set_input"@ != "pause"@,
        "step"@ != "move_pointer"@,
        "step"@ != "read_memory"@,
        "step"@ != "status"@,
        "step"@ != "pause"@,
        "move_pointer"@ != "read_memory"@,
        "move_pointer"@ != "status"@,
        "move_pointer"@ != "pause"@,
        "read_memory"@ != "status"@,
        "read_memory"@ != "pause"@,
        "status"@ != "pause"@,
{
    reveal_strlit("set_input");
    reveal_strlit("step");
    reveal_strlit("move_pointer");
    reveal_strlit("read_memory");
    reveal_strlit("status");
    reveal_strlit("pause");
    assert("set_input"@.len() == 9);
    assert("step"@.len() == 4);
    assert("move_pointer"@.len() == 12);
    assert("read_memory"@.len() == 11);
    assert("status"@.len() == 6);
    assert("pause"@.len() == 5);
}

proof fn keys_differ()
    ensures
        "port"@ != "buttons"@,
        "port"@ != "frames"@,
        "port"@ != "dx"@,
        "port"@ != "dy"@,
        "buttons"@ != "frames"@,
        "buttons"@ != "dx"@,
        "buttons"@ != "dy"@,
        "frames"@ != "dx"@,
        "frames"@ != "dy"@,
        "dx"@ != "dy"@,
{
    reveal_strlit("port");
    reveal_strlit("buttons");
    reveal_strlit("frames");
    reveal_strlit("dx");
    reveal_strlit("dy");
    assert("port"@.len() == 4);
    assert("buttons"@.len() == 7);
    assert("frames"@.len() == 6);
    assert("dx"@.len() == 2);
    assert("dy"@.len() == 2);
    assert("dx"@[1] == 'x');
    assert("dy"@[1] == 'y');
}

proof fn report_keys_differ()
    ensures
        "changed"@ != "frames"@,
        "changed"@ != "before"@,
        "changed"@ != "after"@,
        "changed"@ != "state"@,
        "changed"@ != "tapped"@,
        "changed"@ != "press_frames"@,
        "changed"@ != "after_frames"@,
        "changed"@ != "sequence_len"@,
        "changed"@ != "status"@,
        "changed"@ != "dragged"@,
        "changed"@ != "button"@,
        "changed"@ != "dx"@,
        "changed"@ != "dy"@,
        "changed"@ != "move_frames"@,
        "changed"@ != "operation"@,
        "changed"@ != "phase"@,
        "changed"@ != "released"@,
        "changed"@ != "clicked"@,
        "frames"@ != "before"@,
        "frames"@ != "after"@,
        "frames"@ != "state"@,
        "frames"@ != "tapped"@,
        "frames"@ != "press_frames"@,
        "frames"@ != "after_frames"@,
        "frames"@ != "sequence_len"@,
        "frames"@ != "status"@,
        "frames"@ != "dragged"@,
        "frames"@ != "button"@,
        "frames"@ != "dx"@,
        "frames"@ != "dy"@,
        "frames"@ != "move_frames"@,
        "frames"@ != "operation"@,
        "frames"@ != "phase"@,
        "frames"@ != "released"@,
        "frames"@ != "clicked"@,
        "before"@ != "after"@,
        "before"@ != "state"@,
        "before"@ != "tapped"@,
        "before"@ != "press_frames"@,
        "before"@ != "after_frames"@,
        "before"@ != "sequence_len"@,
        "before"@ != "status"@,
        "before"@ != "dragged"@,
        "before"@ != "button"@,
        "before"@ != "dx"@,
        "before"@ != "dy"@,
        "before"@ != "move_frames"@,
        "before"@ != "operation"@,
        "before"@ != "phase"@,
        "before"@ != "released"@,
        "before"@ != "clicked"@,
        "after"@ != "state"@,
        "after"@ != "tapped"@,
        "after"@ != "press_frames"@,
        "after"@ != "after_frames"@,
        "after"@ != "sequence_len"@,
        "after"@ != "status"@,
        "after"@ != "dragged"@,
        "after"@ != "button"@,
        "after"@ != "dx"@,
        "after"@ != "dy"@,
        "after"@ != "move_frames"@,
        "after"@ != "operation"@,
        "after"@ != "phase"@,
        "after"@ != "released"@,
        "after"@ != "clicked"@,
        "state"@ != "tapped"@,
        "state"@ != "press_frames"@,
        "state"@ != "after_frames"@,
        "state"@ != "sequence_len"@,
        "state"@ != "status"@,
        "state"@ != "dragged"@,
        "state"@ != "button"@,
        "state"@ != "dx"@,
        "state"@ != "dy"@,
        "state"@ != "move_frames"@,
        "state"@ != "operation"@,
        "state"@ != "phase"@,
        "state"@ != "released"@,
        "state"@ != "clicked"@,
        "tapped"@ != "press_frames"@,
        "tapped"@ != "after_frames"@,
        "tapped"@ != "sequence_len"@,
        "tapped"@ != "status"@,
        "tapped"@ != "dragged"@,
        "tapped"@ != "button"@,
        "tapped"@ != "dx"@,
        "tapped"@ != "dy"@,
        "tapped"@ != "move_frames"@,
        "tapped"@ != "operation"@,
        "tapped"@ != "phase"@,
        "tapped"@ != "released"@,
        "tapped"@ != "clicked"@,
        "press_frames"@ != "after_frames"@,
        "press_frames"@ != "sequence_len"@,
        "press_frames"@ != "status"@,
        "press_frames"@ != "dragged"@,
        "press_frames"@ != "button"@,
        "press_frames"@ != "dx"@,
        "press_frames"@ != "dy"@,
        "press_frames"@ != "move_frames"@,
        "press_frames"@ != "operation"@,
        "press_frames"@ != "phase"@,
        "press_frames"@ != "released"@,
        "press_frames"@ != "clicked"@,
        "after_frames"@ != "sequence_len"@,
        "after_frames"@ != "status"@,
        "after_frames"@ != "dragged"@,
        "after_frames"@ != "button"@,
        "after_frames"@ != "dx"@,
        "after_frames"@ != "dy"@,
        "after_frames"@ != "move_frames"@,
        "after_frames"@ != "operation"@,
        "after_frames"@ != "phase"@,
        "after_frames"@ != "released"@,
        "after_frames"@ != "clicked"@,
        "sequence_len"@ != "status"@,
        "sequence_len"@ != "dragged"@,
        "sequence_len"@ != "button"@,
        "sequence_len"@ != "dx"@,
        "sequence_len"@ != "dy"@,
        "sequence_len"@ != "move_frames"@,
        "sequence_len"@ != "operation"@,
        "sequence_len"@ != "phase"@,
        "sequence_len"@ != "released"@,
        "sequence_len"@ != "clicked"@,
        "status"@ != "dragged"@,
        "status"@ != "button"@,
        "status"@ != "dx"@,
        "status"@ != "dy"@,
        "status"@ != "move_frames"@,
        "status"@ != "operation"@,
        "status"@ != "phase"@,
        "status"@ != "released"@,
        "status"@ != "clicked"@,
        "dragged"@ != "button"@,
        "dragged"@ != "dx"@,
        "dragged"@ != "dy"@,
        "dragged"@ != "move_frames"@,
        "dragged"@ != "operation"@,
        "dragged"@ != "phase"@,
        "dragged"@ != "released"@,
        "dragged"@ != "clicked"@,
        "button"@ != "dx"@,
        "button"@ != "dy"@,
        "button"@ != "move_frames"@,
        "button"@ != "operation"@,
        "button"@ != "phase"@,
        "button"@ != "released"@,
        "button"@ != "clicked"@,
        "dx"@ != "dy"@,
        "dx"@ != "move_frames"@,
        "dx"@ != "operation"@,
        "dx"@ != "phase"@,
        "dx"@ != "released"@,
        "dx"@ != "clicked"@,
        "dy"@ != "move_frames"@,
        "dy"@ != "operation"@,
        "dy"@ != "phase"@,
        "dy"@ != "released"@,
        "dy"@ != "clicked"@,
        "move_frames"@ != "operation"@,
        "move_frames"@ != "phase"@,
        "move_frames"@ != "released"@,
        "move_frames"@ != "clicked"@,
        "operation"@ != "phase"@,
        "operation"@ != "released"@,
        "operation"@ != "clicked"@,
        "phase"@ != "released"@,
        "phase"@ != "clicked"@,
        "released"@ != "clicked"@,
{
    reveal_strlit("changed");
    reveal_strlit("frames");
    reveal_strlit("before");
    reveal_strlit("after");
    reveal_strlit("state");
    reveal_strlit("tapped");
    reveal_strlit("press_frames");
    reveal_strlit("after_frames");
    reveal_strlit("sequence_len");
    reveal_strlit("status");
    reveal_strlit("dragged");
    reveal_strlit("button");
    reveal_strlit("dx");
    reveal_strlit("dy");
    reveal_strlit("move_frames");
    reveal_strlit("operation");
    reveal_strlit("phase");
    reveal_strlit("released");
    reveal_strlit("clicked");
    assert("changed"@.len() == 7);
    assert("frames"@.len() == 6);
    assert("before"@.len() == 6);
    assert("after"@.len() == 5);
    assert("state"@.len() == 5);
    assert("tapped"@.len() == 6);
    assert("press_frames"@.len() == 12);
    assert("after_frames"@.len() == 12);
    assert("sequence_len"@.len() == 12);
    assert("status"@.len() == 6);
    assert("dragged"@.len() == 7);
    assert("button"@.len() == 6);
    assert("dx"@.len() == 2);
    assert("dy"@.len() == 2);
    assert("move_frames"@.len() == 11);
    assert("operation"@.len() == 9);
    assert("phase"@.len() == 5);
    assert("released"@.len() == 8);
    assert("clicked"@.len() == 7);
    assert("changed"@[0] == 'c');
    assert("changed"@[1] == 'h');
    assert("frames"@[0] == 'f');
    assert("before"@[0] == 'b');
    assert("before"@[1] == 'e');
    assert("after"@[0] == 'a');
    assert("state"@[0] == 's');
    assert("tapped"@[0] == 't');
    assert("press_frames"@[0] == 'p');
    assert("after_frames"@[0] == 'a');
    assert("sequence_len"@[0] == 's');
    assert("status"@[0] == 's');
    assert("dragged"@[0] == 'd');
    assert("button"@[0] == 'b');
    assert("button"@[1] == 'u');
    assert("dx"@[1] == 'x');
    assert("dy"@[1] == 'y');
    assert("phase"@[0] == 'p');
    assert("clicked"@[0] == 'c');
    assert("clicked"@[1] == 'l');
}

proof fn requests_tell(port: u64, buttons: Seq<Seq<char>>, frames: u64, dx: i64, dy: i64)
    ensures
        ({
            let input = cleanup::input_params(port, buttons);
            &&& input.unsigned_field("port"@) == Some(port)
            &&& input.field("buttons"@) == Some(json::text_array(buttons))
        }),
        frozen::frames_params(frames).unsigned_field("frames"@) == Some(frames),
        ({
            let moved = pointer::move_params(port, dx, dy, frames);
            &&& moved.unsigned_field("port"@) == Some(port)
            &&& moved.field("dx"@) == Some(JsonView::signed(dx))
            &&& moved.field("dy"@) == Some(JsonView::signed(dy))
            &&& moved.unsigned_field("frames"@) == Some(frames)
        }),
{
    broadcast use json::added_is_found;

    keys_differ();
}

pub proof fn acted_joins(h: Seq<LinkStep>, n: int, m: int, k: int)
    requires
        n <= m <= k,
    ensures
        acted(h, n, k) == acted(h, n, m) + acted(h, m, k),
        looked(h, n, k) == looked(h, n, m) + looked(h, m, k),
    decreases k - m,
{
    if m < k {
        acted_joins(h, n, m, k - 1);
        assert(acted(h, n, k) =~= acted(h, n, m) + acted(h, m, k));
        assert(looked(h, n, k) =~= looked(h, n, m) + looked(h, m, k));
    } else {
        assert(acted(h, n, k) =~= acted(h, n, m) + acted(h, m, k));
        assert(looked(h, n, k) =~= looked(h, n, m) + looked(h, m, k));
    }
}

/// One step that acts, or none.
pub proof fn one_step(h: Seq<LinkStep>, n: int)
    ensures
        acted(h, n, n + 1) == (if acts(h[n]) {
            seq![h[n]]
        } else {
            Seq::empty()
        }),
        looked(h, n, n + 1) == (if succeeded(h[n], "read_memory"@) {
            seq![h[n]]
        } else {
            Seq::empty()
        }),
{
    reveal_with_fuel(acted, 2);
    reveal_with_fuel(looked, 2);
    assert(acted(h, n, n + 1) =~= (if acts(h[n]) {
        seq![h[n]]
    } else {
        Seq::empty()
    }));
    assert(looked(h, n, n + 1) =~= (if succeeded(h[n], "read_memory"@) {
        seq![h[n]]
    } else {
        Seq::empty()
    }));
}

proof fn polls_do_not_act(h: Seq<LinkStep>, n: int, expected: Option<Seq<char>>, left: nat)
    ensures
        cleanup::poll_run(h, n, expected, left) matches Some((m, _)) ==> n <= m && acted(h, n, m).len()
            == 0 && looked(h, n, m).len() == 0,
    decreases left,
{
    methods_differ();
    if left > 0 {
        one_step(h, n);
        one_step(h, n + 1);
        polls_do_not_act(h, n + 2, expected, (left - 1) as nat);
        if let Some((m, _)) = cleanup::poll_run(h, n, expected, left) {
            if m >= n + 2 {
                acted_joins(h, n, n + 1, n + 2);
                acted_joins(h, n, n + 2, m);
            }
        }
    }
}

/// A cleanup that succeeds acts by its call alone, which is its last step.
proof fn cleanups_act_once(
    h: Seq<LinkStep>,
    n: int,
    offers: OffersView,
    reconnects: bool,
    params: JsonView,
    expected: Option<Seq<char>>,
)
    ensures
        cleanup::cleanup_run(h, n, offers, reconnects, "set_input"@, params, expected) matches Some(
            (m, Ok(_)),
        ) ==> {
            &&& n < m
            &&& acted(h, n, m) == seq![h[m - 1]]
            &&& looked(h, n, m).len() == 0
            &&& h[m - 1] matches LinkStep::Called { method, params: sent, reply: Ok(_), .. } && method
                == "set_input"@ && sent == params
        },
{
    cleanup::cleanups_end_with_their_call(
        h,
        n,
        offers,
        reconnects,
        "set_input"@,
        params,
        expected,
    );
    methods_differ();
    if let Some((m, Ok(_))) = cleanup::cleanup_run(
        h,
        n,
        offers,
        reconnects,
        "set_input"@,
        params,
        expected,
    ) {
        one_step(h, m - 1);
        one_step(h, n);
        let start = if reconnects && expected is Some && offers.launch_id != expected {
            n
        } else {
            n + 1
        };
        if m > n + 1 || start == n {
            polls_do_not_act(h, start + 1, expected, cleanup::MAX_SESSION_POLLS as nat);
            one_step(h, start);
            acted_joins(h, n, start, start + 1);
            acted_joins(h, n, start + 1, m - 1);
            acted_joins(h, n, m - 1, m);
            assert(acted(h, n, n).len() == 0);
            assert(acted(h, n, m - 1) =~= Seq::empty());
            assert(acted(h, n, m) =~= acted(h, m - 1, m));
        } else {
            assert(m - 1 == n);
            assert(acted(h, n, m) == acted(h, m - 1, m));
        }
        assert((m - 1) + 1 == m);
        assert(acted(h, m - 1, m) == seq![h[m - 1]]);
        assert(acted(h, n, m) =~= seq![h[m - 1]]);
    }
}

/// A press that succeeds: the buttons are held, the frames pass, the buttons are released.
proof fn single_taps_act(
    h: Seq<LinkStep>,
    n: int,
    reconnects: bool,
    port: u64,
    buttons: Seq<Seq<char>>,
    press_frames: u64,
    expected: Option<Seq<char>>,
)
    ensures
        frozen::one_tap_run(h, n, reconnects, port, buttons, press_frames, expected) matches Some(
            (m, Ok(())),
        ) ==> {
            let did = acted(h, n, m);
            &&& n < m
            &&& did.len() == 4
            &&& holds(did[0], port, buttons)
            &&& passes(did[1], seen_frames(press_frames))
            &&& holds(did[2], port, Seq::empty())
            &&& passes(did[3], 1)
        },
{
    methods_differ();
    requests_tell(port, buttons, seen_frames(press_frames), 0, 0);
    requests_tell(port, Seq::empty(), 1, 0, 0);
    let nothing = cleanup::input_params(port, Seq::empty());
    if let Some((m, Ok(()))) = frozen::one_tap_run(
        h,
        n,
        reconnects,
        port,
        buttons,
        press_frames,
        expected,
    ) {
        cleanups_act_once(
            h,
            n + 2,
            crate::live::link::offers_at(h, n + 1),
            reconnects,
            nothing,
            expected,
        );
        one_step(h, n);
        one_step(h, n + 1);
        one_step(h, m - 1);
        acted_joins(h, n, n + 1, n + 2);
        acted_joins(h, n, n + 2, m - 1);
        acted_joins(h, n, m - 1, m);
        assert(acted(h, n, m) =~= seq![h[n], h[n + 1], h[m - 2], h[m - 1]]);
    }
}

/// A step of a frozen machine that succeeds is one call.
proof fn steps_act_once(
    h: Seq<LinkStep>,
    n: int,
    reconnects: bool,
    frames: u64,
    expected: Option<Seq<char>>,
)
    ensures
        frozen::step_run(h, n, reconnects, frames, expected) matches Some((m, Ok(_))) ==> {
            &&& m == n + 1
            &&& acted(h, n, m) == seq![h[n]]
            &&& passes(h[n], frames)
        },
{
    methods_differ();
    requests_tell(0, Seq::empty(), frames, 0, 0);
    one_step(h, n);
}

/// A tap that succeeds holds exactly its buttons for its frames, and at least for one, releases
/// them for one frame, and then lets the frames pass that follow it. Nothing else reaches the
/// machine, which is frozen before.
pub proof fn taps_act_as_asked_for(
    h: Seq<LinkStep>,
    n: int,
    reconnects: bool,
    port: u64,
    buttons: Seq<Seq<char>>,
    press_frames: u64,
    after_frames: u64,
)
    ensures
        frozen::tap_run(h, n, reconnects, port, buttons, press_frames, after_frames) matches Some(
            (m, Ok(report)),
        ) ==> {
            let did = acted(h, n, m);
            &&& succeeded(h[n], "pause"@)
            &&& did.len() == (if after_frames == 0 {
                4int
            } else {
                5int
            })
            &&& holds(did[0], port, buttons)
            &&& passes(did[1], seen_frames(press_frames))
            &&& holds(did[2], port, Seq::empty())
            &&& passes(did[3], 1)
            &&& after_frames > 0 ==> passes(did[4], after_frames)
            &&& report.field("tapped"@) == Some(json::text_array(buttons))
            &&& report.unsigned_field("press_frames"@) == Some(press_frames)
            &&& report.unsigned_field("after_frames"@) == Some(after_frames)
            &&& report.text_field("state"@) == Some("frozen"@)
        },
{
    methods_differ();
    tap_reports_tell(buttons, press_frames, after_frames);
    if let Some((m, Ok(report))) = frozen::tap_run(
        h,
        n,
        reconnects,
        port,
        buttons,
        press_frames,
        after_frames,
    ) {
        let expected = crate::live::link::offers_at(h, n).launch_id;
        one_step(h, n);
        single_taps_act(h, n + 1, reconnects, port, buttons, press_frames, expected);
        if let Some((k, Ok(()))) = frozen::one_tap_run(
            h,
            n + 1,
            reconnects,
            port,
            buttons,
            press_frames,
            expected,
        ) {
            acted_joins(h, n, n + 1, k);
            assert(acted(h, n, k) =~= acted(h, n + 1, k));
            if after_frames > 0 {
                steps_act_once(h, k, reconnects, after_frames, expected);
                acted_joins(h, n, k, m);
            }
        }
    }
}

proof fn tap_reports_tell(buttons: Seq<Seq<char>>, press_frames: u64, after_frames: u64)
    ensures
        ({
            let report = frozen::tapped(buttons, press_frames, after_frames);
            &&& report.field("tapped"@) == Some(json::text_array(buttons))
            &&& report.unsigned_field("press_frames"@) == Some(press_frames)
            &&& report.unsigned_field("after_frames"@) == Some(after_frames)
            &&& report.text_field("state"@) == Some("frozen"@)
        }),
{
    broadcast use json::added_is_found;

    report_keys_differ();
}

/// Whether the calls of a sequence from one place on are those of a tap of some buttons.
pub open spec fn is_tap(
    did: Seq<LinkStep>,
    at: int,
    port: u64,
    buttons: Seq<Seq<char>>,
    press_frames: u64,
) -> bool {
    &&& holds(did[at], port, buttons)
    &&& passes(did[at + 1], seen_frames(press_frames))
    &&& holds(did[at + 2], port, Seq::empty())
    &&& passes(did[at + 3], 1)
}

proof fn sequences_act(
    h: Seq<LinkStep>,
    n: int,
    reconnects: bool,
    port: u64,
    steps: Seq<Seq<Seq<char>>>,
    press_frames: u64,
    expected: Option<Seq<char>>,
    i: int,
)
    requires
        0 <= i <= steps.len(),
    ensures
        frozen::sequence_run(h, n, reconnects, port, steps, press_frames, expected, i) matches Some(
            (m, Ok(())),
        ) ==> {
            let did = acted(h, n, m);
            &&& n <= m
            &&& did.len() == 4 * (steps.len() - i)
            &&& forall|k: int|
                0 <= k < steps.len() - i ==> is_tap(
                    did,
                    4 * k,
                    port,
                    #[trigger] steps[i + k],
                    press_frames,
                )
        },
    decreases steps.len() - i,
{
    if i < steps.len() {
        single_taps_act(h, n, reconnects, port, steps[i], press_frames, expected);
        if let Some((k, Ok(()))) = frozen::one_tap_run(
            h,
            n,
            reconnects,
            port,
            steps[i],
            press_frames,
            expected,
        ) {
            sequences_act(h, k, reconnects, port, steps, press_frames, expected, i + 1);
            if let Some((m, Ok(()))) = frozen::sequence_run(
                h,
                k,
                reconnects,
                port,
                steps,
                press_frames,
                expected,
                i + 1,
            ) {
                acted_joins(h, n, k, m);
                let first = acted(h, n, k);
                let rest = acted(h, k, m);
                let did = acted(h, n, m);
                assert forall|q: int| 0 <= q < steps.len() - i implies is_tap(
                    did,
                    4 * q,
                    port,
                    #[trigger] steps[i + q],
                    press_frames,
                ) by {
                    if q == 0 {
                        assert(did[0] == first[0] && did[1] == first[1] && did[2] == first[2]
                            && did[3] == first[3]);
                    } else {
                        let p = q - 1;
                        assert(steps[i + q] == steps[(i + 1) + p]);
                        assert(is_tap(rest, 4 * p, port, steps[(i + 1) + p], press_frames));
                        assert(did[4 * q] == rest[4 * p]);
                        assert(did[4 * q + 1] == rest[4 * p + 1]);
                        assert(did[4 * q + 2] == rest[4 * p + 2]);
                        assert(did[4 * q + 3] == rest[4 * p + 3]);
                    }
                }
            }
        }
    }
}

/// A sequence of taps that succeeds makes exactly one tap for each of its steps, in their order:
/// the buttons of a tap are those of its step. Nothing else reaches the machine, which is frozen
/// before.
pub proof fn tap_sequences_act_as_asked_for(
    h: Seq<LinkStep>,
    n: int,
    reconnects: bool,
    port: u64,
    steps: Seq<Seq<Seq<char>>>,
    press_frames: u64,
)
    ensures
        frozen::tap_sequence_run(h, n, reconnects, port, steps, press_frames) matches Some(
            (m, Ok(report)),
        ) ==> {
            let did = acted(h, n, m);
            &&& succeeded(h[n], "pause"@)
            &&& did.len() == 4 * steps.len()
            &&& forall|k: int|
                0 <= k < steps.len() ==> is_tap(
                    did,
                    4 * k,
                    port,
                    #[trigger] steps[k],
                    press_frames,
                )
            &&& report.unsigned_field("sequence_len"@) == Some(steps.len() as u64)
            &&& report.unsigned_field("press_frames"@) == Some(press_frames)
            &&& report.text_field("state"@) == Some("frozen"@)
        },
{
    methods_differ();
    sequence_reports_tell(steps.len(), press_frames);
    if let Some((m, Ok(report))) = frozen::tap_sequence_run(
        h,
        n,
        reconnects,
        port,
        steps,
        press_frames,
    ) {
        let expected = crate::live::link::offers_at(h, n).launch_id;
        one_step(h, n);
        sequences_act(h, n + 1, reconnects, port, steps, press_frames, expected, 0);
        acted_joins(h, n, n + 1, m);
        assert(acted(h, n, m) =~= acted(h, n + 1, m));
        let did = acted(h, n, m);
        assert forall|k: int| 0 <= k < steps.len() implies is_tap(
            did,
            4 * k,
            port,
            #[trigger] steps[k],
            press_frames,
        ) by {
            assert(steps[k] == steps[0 + k]);
        }
    }
}

proof fn sequence_reports_tell(count: nat, press_frames: u64)
    ensures
        ({
            let report = JsonView::object().with("sequence_len"@, JsonView::Unsigned(count as u64)).with(
                "press_frames"@,
                JsonView::Unsigned(press_frames),
            ).with("state"@, JsonView::Str("frozen"@));
            &&& report.unsigned_field("sequence_len"@) == Some(count as u64)
            &&& report.unsigned_field("press_frames"@) == Some(press_frames)
            &&& report.text_field("state"@) == Some("frozen"@)
        }),
{
    broadcast use json::added_is_found;

    report_keys_differ();
}

proof fn held_reports_tell(changed: bool, frames: u64, before: Seq<char>, after: Seq<char>)
    ensures
        ({
            let report = frozen::held_report(changed, frames, before, after);
            &&& report.truth_field("changed"@) == Some(changed)
            &&& report.unsigned_field("frames"@) == Some(frames)
            &&& report.text_field("before"@) == Some(before)
            &&& report.text_field("after"@) == Some(after)
            &&& report.text_field("state"@) == Some("frozen"@)
        }),
{
    broadcast use json::added_is_found;

    report_keys_differ();
}

/// Whether a hold that is reported went as it is told: each frame passed alone and was followed by
/// one look, the looks but the last found what was there before, and the last found what is told.
/// The hold went on to its last frame only where nothing changed.
pub open spec fn watched(
    did: Seq<LinkStep>,
    seen: Seq<LinkStep>,
    span: JsonView,
    before: Seq<char>,
    done: u64,
    max_frames: u64,
    report: JsonView,
) -> bool {
    &&& report.unsigned_field("frames"@) matches Some(frames) && {
        &&& done <= frames <= max_frames
        &&& did.len() == frames - done
        &&& seen.len() == frames - done
        &&& forall|k: int| 0 <= k < did.len() ==> passes(#[trigger] did[k], 1)
        &&& report.truth_field("changed"@) matches Some(changed) && report.text_field(
            "after"@,
        ) matches Some(after) && {
            &&& changed == (after != before)
            &&& !changed ==> frames == max_frames
            &&& changed ==> frames > done
            &&& forall|k: int|
                0 <= k < seen.len() ==> reads(
                    #[trigger] seen[k],
                    span,
                    if k == seen.len() - 1 {
                        after
                    } else {
                        before
                    },
                )
        }
    }
    &&& report.text_field("before"@) == Some(before)
    &&& report.text_field("state"@) == Some("frozen"@)
}

proof fn watches_act(
    h: Seq<LinkStep>,
    n: int,
    span: JsonView,
    before: Seq<char>,
    done: u64,
    max_frames: u64,
)
    requires
        done <= max_frames,
    ensures
        frozen::watch_run(h, n, span, before, before, done, max_frames) matches Some((m, Ok(report)))
            ==> n <= m && watched(
            acted(h, n, m),
            looked(h, n, m),
            span,
            before,
            done,
            max_frames,
            report,
        ),
    decreases max_frames - done,
{
    methods_differ();
    requests_tell(0, Seq::empty(), 1, 0, 0);
    if let Some((m, Ok(report))) = frozen::watch_run(
        h,
        n,
        span,
        before,
        before,
        done,
        max_frames,
    ) {
        if done >= max_frames {
            held_reports_tell(false, done, before, before);
        } else {
            one_step(h, n);
            one_step(h, n + 1);
            acted_joins(h, n, n + 1, n + 2);
            let v = crate::live::link::reply_at(h, n + 1)->Ok_0;
            let hex = frozen::reply_hex(v);
            assert(reads(h[n + 1], span, hex));
            assert(acted(h, n, n + 2) =~= seq![h[n]]);
            assert(looked(h, n, n + 2) =~= seq![h[n + 1]]);
            if hex != before {
                held_reports_tell(true, (done + 1) as u64, before, hex);
            } else {
                let next = (done + 1) as u64;
                watches_act(h, n + 2, span, before, next, max_frames);
                acted_joins(h, n, n + 2, m);
                let did = acted(h, n + 2, m);
                let seen = looked(h, n + 2, m);
                assert(watched(did, seen, span, before, next, max_frames, report));
                assert forall|k: int| 0 <= k < acted(h, n, m).len() implies passes(
                    #[trigger] acted(h, n, m)[k],
                    1,
                ) by {
                    if k > 0 {
                        assert(acted(h, n, m)[k] == did[k - 1]);
                    }
                }
                let after = report.text_field("after"@)->0;
                assert forall|k: int| 0 <= k < looked(h, n, m).len() implies reads(
                    #[trigger] looked(h, n, m)[k],
                    span,
                    if k == looked(h, n, m).len() - 1 {
                        after
                    } else {
                        before
                    },
                ) by {
                    if k > 0 {
                        assert(looked(h, n, m)[k] == seen[k - 1]);
                    }
                }
            }
        }
    }
}

/// A hold that succeeds holds exactly its buttons, lets one frame after the other pass until the
/// memory that it watches changes or the frames are used up, then releases the buttons for one
/// frame. It tells what the memory held before and after, whether that differs, and for how many
/// frames the buttons were held. Nothing else reaches the machine, which is frozen before.
pub proof fn holds_act_as_asked_for(
    h: Seq<LinkStep>,
    n: int,
    reconnects: bool,
    port: u64,
    buttons: Seq<Seq<char>>,
    span: JsonView,
    max_frames: u64,
)
    ensures
        frozen::hold_run(h, n, reconnects, port, buttons, span, max_frames) matches Some(
            (m, Ok(report)),
        ) ==> {
            let did = acted(h, n, m);
            let seen = looked(h, n, m);
            &&& succeeded(h[n], "pause"@)
            &&& did.len() >= 3
            &&& holds(did[0], port, buttons)
            &&& holds(did[did.len() - 2], port, Seq::empty())
            &&& passes(did[did.len() - 1], 1)
            &&& seen.len() >= 1
            &&& report.text_field("before"@) matches Some(before) && {
                &&& reads(seen[0], span, before)
                &&& watched(
                    did.subrange(1, did.len() - 2),
                    seen.skip(1),
                    span,
                    before,
                    0,
                    max_frames,
                    report,
                )
            }
        },
{
    methods_differ();
    requests_tell(port, buttons, 1, 0, 0);
    requests_tell(port, Seq::empty(), 1, 0, 0);
    if let Some((m, Ok(report))) = frozen::hold_run(
        h,
        n,
        reconnects,
        port,
        buttons,
        span,
        max_frames,
    ) {
        let expected = crate::live::link::offers_at(h, n).launch_id;
        let nothing = cleanup::input_params(port, Seq::empty());
        let first = crate::live::link::reply_at(h, n + 2)->Ok_0;
        let before = frozen::reply_hex(first);
        watches_act(h, n + 3, span, before, 0, max_frames);
        if let Some((k, Ok(outcome))) = frozen::held_run(h, n + 2, span, max_frames) {
            cleanups_act_once(
                h,
                k,
                crate::live::link::offers_at(h, k - 1),
                reconnects,
                nothing,
                expected,
            );
            one_step(h, n);
            one_step(h, n + 1);
            one_step(h, n + 2);
            one_step(h, m - 1);
            acted_joins(h, n, n + 1, n + 2);
            acted_joins(h, n, n + 2, n + 3);
            acted_joins(h, n, n + 3, k);
            acted_joins(h, n, k, m - 1);
            acted_joins(h, n, m - 1, m);
            let did = acted(h, n, m);
            let seen = looked(h, n, m);
            assert(reads(h[n + 2], span, before));
            assert(did =~= seq![h[n + 1]] + acted(h, n + 3, k) + seq![h[m - 2], h[m - 1]]);
            assert(seen =~= seq![h[n + 2]] + looked(h, n + 3, k));
            assert(did.subrange(1, did.len() - 2) =~= acted(h, n + 3, k));
            assert(seen.skip(1) =~= looked(h, n + 3, k));
        }
    }
}

/// A relative move that succeeds is one call with the distance and the frames that were asked for,
/// on a machine that is frozen before. Its reply is the result.
pub proof fn moves_act_as_asked_for(
    h: Seq<LinkStep>,
    n: int,
    reconnects: bool,
    port: u64,
    dx: i64,
    dy: i64,
    frames: u64,
)
    ensures
        pointer::move_run(h, n, reconnects, port, dx, dy, frames) matches Some((m, Ok(report))) ==> {
            &&& m == n + 2
            &&& succeeded(h[n], "pause"@)
            &&& moves(h[n + 1], port, dx, dy, frames)
            &&& h[n + 1] matches LinkStep::Called { reply, .. } && reply == Ok::<
                JsonView,
                LinkErrorView,
            >(report)
        },
{
    requests_tell(port, Seq::empty(), frames, dx, dy);
}

proof fn click_reports_tell(button: Seq<char>, press_frames: u64, after_frames: u64)
    ensures
        ({
            let report = pointer::clicked(
                frozen::tapped(seq![button], press_frames, after_frames),
                button,
                press_frames,
                after_frames,
            );
            &&& report.truth_field("clicked"@) == Some(true)
            &&& report.text_field("status"@) == Some("completed"@)
            &&& report.text_field("button"@) == Some(button)
            &&& report.field("tapped"@) is None
        }),
{
    broadcast use json::added_is_found;

    report_keys_differ();
    let tap = frozen::tapped(seq![button], press_frames, after_frames);
    assert(tap.field("status"@) is None);
    let base = tap.without("tapped"@);
    json::dropped_lookup(tap->Object_0, "tapped"@, "tapped"@);
    let a = base.put("operation"@, JsonView::Str("click_pointer"@));
    let b = a.put("button"@, JsonView::Str(button));
    let c = b.put("clicked"@, JsonView::Bool(true));
    let d = c.put("status"@, JsonView::Str("completed"@));
    let e = d.put("press_frames"@, JsonView::Unsigned(press_frames));
    let f = e.put("after_frames"@, JsonView::Unsigned(after_frames));
    let g = f.put("state"@, JsonView::Str("frozen"@));
    assert forall|key: Seq<char>|
        key == "clicked"@ || key == "status"@ || key == "button"@ || key == "tapped"@ implies {
        &&& #[trigger] g.field(key) == d.field(key)
        &&& d.field(key) == (if key == "status"@ {
            Some(JsonView::Str("completed"@))
        } else {
            c.field(key)
        })
        &&& c.field(key) == (if key == "clicked"@ {
            Some(JsonView::Bool(true))
        } else {
            b.field(key)
        })
        &&& b.field(key) == (if key == "button"@ {
            Some(JsonView::Str(button))
        } else {
            a.field(key)
        })
        &&& a.field(key) == base.field(key)
    } by {
        json::put_is_found(base, "operation"@, JsonView::Str("click_pointer"@), key);
        json::put_is_found(a, "button"@, JsonView::Str(button), key);
        json::put_is_found(b, "clicked"@, JsonView::Bool(true), key);
        json::put_is_found(c, "status"@, JsonView::Str("completed"@), key);
        json::put_is_found(d, "press_frames"@, JsonView::Unsigned(press_frames), key);
        json::put_is_found(e, "after_frames"@, JsonView::Unsigned(after_frames), key);
        json::put_is_found(f, "state"@, JsonView::Str("frozen"@), key);
    }
    assert(g.field("clicked"@) == Some(JsonView::Bool(true)));
    assert(g.field("status"@) == Some(JsonView::Str("completed"@)));
    assert(g.field("button"@) == Some(JsonView::Str(button)));
    assert(g.field("tapped"@) is None);
}

/// A click that succeeds is a tap of its button alone, and is told as a click of it.
pub proof fn clicks_act_as_asked_for(
    h: Seq<LinkStep>,
    n: int,
    reconnects: bool,
    port: u64,
    button: Seq<char>,
    press_frames: u64,
    after_frames: u64,
)
    ensures
        pointer::click_run(h, n, reconnects, port, button, press_frames, after_frames) matches Some(
            (m, Ok(report)),
        ) ==> {
            let did = acted(h, n, m);
            &&& succeeded(h[n], "pause"@)
            &&& did.len() == (if after_frames == 0 {
                4int
            } else {
                5int
            })
            &&& holds(did[0], port, seq![button])
            &&& passes(did[1], seen_frames(press_frames))
            &&& holds(did[2], port, Seq::empty())
            &&& passes(did[3], 1)
            &&& after_frames > 0 ==> passes(did[4], after_frames)
            &&& report.truth_field("clicked"@) == Some(true)
            &&& report.text_field("status"@) == Some("completed"@)
            &&& report.text_field("button"@) == Some(button)
        },
{
    taps_act_as_asked_for(h, n, reconnects, port, seq![button], press_frames, after_frames);
    click_reports_tell(button, press_frames, after_frames);
}

proof fn drag_reports_tell(button: Seq<char>, dx: i64, dy: i64, move_frames: u64, after_frames: u64)
    ensures
        ({
            let report = pointer::dragged(button, dx, dy, move_frames, after_frames);
            &&& report.truth_field("dragged"@) == Some(true)
            &&& report.text_field("button"@) == Some(button)
            &&& report.field("dx"@) == Some(JsonView::signed(dx))
            &&& report.field("dy"@) == Some(JsonView::signed(dy))
            &&& report.unsigned_field("move_frames"@) == Some(move_frames)
            &&& report.unsigned_field("after_frames"@) == Some(after_frames)
        }),
{
    broadcast use json::added_is_found;

    report_keys_differ();
}

proof fn interruptions_are_no_completions(v: JsonView, phase: Seq<char>, button: Seq<char>)
    requires
        frozen::is_interrupted(v),
    ensures
        frozen::interrupted_in(v, "drag_pointer"@, phase).put(
            "button"@,
            JsonView::Str(button),
        ).text_field("status"@) == Some("interrupted"@),
{
    report_keys_differ();
    let a = v.put("operation"@, JsonView::Str("drag_pointer"@));
    let b = a.put("phase"@, JsonView::Str(phase));
    let c = b.put("released"@, JsonView::Bool(true));
    let d = c.put("state"@, JsonView::Str("frozen"@));
    json::put_is_found(v, "operation"@, JsonView::Str("drag_pointer"@), "status"@);
    json::put_is_found(a, "phase"@, JsonView::Str(phase), "status"@);
    json::put_is_found(b, "released"@, JsonView::Bool(true), "status"@);
    json::put_is_found(c, "state"@, JsonView::Str("frozen"@), "status"@);
    json::put_is_found(d, "button"@, JsonView::Str(button), "status"@);
}

/// A drag that succeeds holds its button alone while the pointer moves by the distance and during
/// the frames that were asked for, and releases it. One that was not interrupted then lets one
/// frame pass, and the frames that follow it. Nothing else reaches the machine, which is frozen
/// before.
pub proof fn drags_act_as_asked_for(
    h: Seq<LinkStep>,
    n: int,
    reconnects: bool,
    port: u64,
    button: Seq<char>,
    dx: i64,
    dy: i64,
    move_frames: u64,
    after_frames: u64,
)
    ensures
        pointer::drag_run(
            h,
            n,
            reconnects,
            port,
            button,
            dx,
            dy,
            move_frames,
            after_frames,
        ) matches Some((m, Ok(report))) ==> {
            let did = acted(h, n, m);
            &&& succeeded(h[n], "pause"@)
            &&& did.len() >= 3
            &&& holds(did[0], port, seq![button])
            &&& moves(did[1], port, dx, dy, move_frames)
            &&& holds(did[2], port, Seq::empty())
            &&& did.len() > 3 ==> passes(did[3], 1)
            &&& did.len() > 4 ==> passes(did[4], after_frames)
            &&& did.len() <= (if after_frames == 0 {
                4int
            } else {
                5int
            })
            &&& report.text_field("status"@) != Some("interrupted"@) ==> did.len() == (
            if after_frames == 0 {
                4int
            } else {
                5int
            })
            &&& report.text_field("status"@) != Some("interrupted"@) ==> {
                &&& report.truth_field("dragged"@) == Some(true)
                &&& report.text_field("button"@) == Some(button)
            }
        },
{
    methods_differ();
    requests_tell(port, seq![button], move_frames, dx, dy);
    requests_tell(port, Seq::empty(), 1, 0, 0);
    drag_reports_tell(button, dx, dy, move_frames, after_frames);
    if let Some((m, Ok(report))) = pointer::drag_run(
        h,
        n,
        reconnects,
        port,
        button,
        dx,
        dy,
        move_frames,
        after_frames,
    ) {
        let expected = crate::live::link::offers_at(h, n).launch_id;
        let offers = crate::live::link::offers_at(h, n + 2);
        let reply = crate::live::link::reply_at(h, n + 2);
        let nothing = cleanup::input_params(port, Seq::empty());
        cleanups_act_once(h, n + 3, offers, reconnects, nothing, expected);
        one_step(h, n);
        one_step(h, n + 1);
        one_step(h, n + 2);
        if let Some((k, Ok(v))) = cleanup::transient_run(
            h,
            n + 3,
            offers,
            reconnects,
            port,
            expected,
            reply,
        ) {
            acted_joins(h, n, n + 1, n + 2);
            acted_joins(h, n, n + 2, n + 3);
            acted_joins(h, n, n + 3, k);
            assert(acted(h, n, k) =~= seq![h[n + 1], h[n + 2], h[k - 1]]);
            if frozen::is_interrupted(v) {
                interruptions_are_no_completions(v, "movement"@, button);
            } else {
                steps_act_once(h, k, reconnects, 1, expected);
                steps_act_once(h, k + 1, reconnects, after_frames, expected);
                acted_joins(h, n, k, k + 1);
                if m > k + 1 {
                    acted_joins(h, n, k + 1, k + 2);
                }
                let w1 = crate::live::link::reply_at(h, k)->Ok_0;
                let w2 = crate::live::link::reply_at(h, k + 1)->Ok_0;
                if frozen::is_interrupted(w1) {
                    interruptions_are_no_completions(w1, "release_edge"@, button);
                } else if after_frames > 0 && frozen::is_interrupted(w2) {
                    interruptions_are_no_completions(w2, "after_release"@, button);
                }
            }
        }
    }
}

} // verus!
