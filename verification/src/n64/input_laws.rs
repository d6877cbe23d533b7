//! What button presses and runs for some frames promise, told by the keys that are down and by what
//! was asked of the core.

use vstd::prelude::*;
use crate::json;
use crate::json::JsonView;
use crate::n64::control;
use crate::n64::control::KeyChange;
use crate::n64::execution;
use crate::n64::execution::{FrameRunView, RunActionView, RunStageView};
use crate::n64::lifecycle::AdapterReadiness;
use crate::n64::pulse::{PulseActionView, PulseEventView, PulseStageView, PulseView};
use crate::n64::N64ErrorView;

verus! {

proof fn button_names_differ()
    ensures
        "a"@ != "b"@,
        "a"@ != "c_down"@,
        "a"@ != "c_left"@,
        "a"@ != "c_right"@,
        "a"@ != "c_up"@,
        "a"@ != "down"@,
        "a"@ != "dpad_down"@,
        "a"@ != "dpad_left"@,
        "a"@ != "dpad_right"@,
        "a"@ != "dpad_up"@,
        "a"@ != "l"@,
        "a"@ != "left"@,
        "a"@ != "r"@,
        "a"@ != "right"@,
        "a"@ != "start"@,
        "a"@ != "up"@,
        "a"@ != "z"@,
        "b"@ != "c_down"@,
        "b"@ != "c_left"@,
        "b"@ != "c_right"@,
        "b"@ != "c_up"@,
        "b"@ != "down"@,
        "b"@ != "dpad_down"@,
        "b"@ != "dpad_left"@,
        "b"@ != "dpad_right"@,
        "b"@ != "dpad_up"@,
        "b"@ != "l"@,
        "b"@ != "left"@,
        "b"@ != "r"@,
        "b"@ != "right"@,
        "b"@ != "start"@,
        "b"@ != "up"@,
        "b"@ != "z"@,
        "c_down"@ != "c_left"@,
        "c_down"@ != "c_right"@,
        "c_down"@ != "c_up"@,
        "c_down"@ != "down"@,
        "c_down"@ != "dpad_down"@,
        "c_down"@ != "dpad_left"@,
        "c_down"@ != "dpad_right"@,
        "c_down"@ != "dpad_up"@,
        "c_down"@ != "l"@,
        "c_down"@ != "left"@,
        "c_down"@ != "r"@,
        "c_down"@ != "right"@,
        "c_down"@ != "start"@,
        "c_down"@ != "up"@,
        "c_down"@ != "z"@,
        "c_left"@ != "c_right"@,
        "c_left"@ != "c_up"@,
        "c_left"@ != "down"@,
        "c_left"@ != "dpad_down"@,
        "c_left"@ != "dpad_left"@,
        "c_left"@ != "dpad_right"@,
        "c_left"@ != "dpad_up"@,
        "c_left"@ != "l"@,
        "c_left"@ != "left"@,
        "c_left"@ != "r"@,
        "c_left"@ != "right"@,
        "c_left"@ != "start"@,
        "c_left"@ != "up"@,
        "c_left"@ != "z"@,
        "c_right"@ != "c_up"@,
        "c_right"@ != "down"@,
        "c_right"@ != "dpad_down"@,
        "c_right"@ != "dpad_left"@,
        "c_right"@ != "dpad_right"@,
        "c_right"@ != "dpad_up"@,
        "c_right"@ != "l"@,
        "c_right"@ != "left"@,
        "c_right"@ != "r"@,
        "c_right"@ != "right"@,
        "c_right"@ != "start"@,
        "c_right"@ != "up"@,
        "c_right"@ != "z"@,
        "c_up"@ != "down"@,
        "c_up"@ != "dpad_down"@,
        "c_up"@ != "dpad_left"@,
        "c_up"@ != "dpad_right"@,
        "c_up"@ != "dpad_up"@,
        "c_up"@ != "l"@,
        "c_up"@ != "left"@,
        "c_up"@ != "r"@,
        "c_up"@ != "right"@,
        "c_up"@ != "start"@,
        "c_up"@ != "up"@,
        "c_up"@ != "z"@,
        "down"@ != "dpad_down"@,
        "down"@ != "dpad_left"@,
        "down"@ != "dpad_right"@,
        "down"@ != "dpad_up"@,
        "down"@ != "l"@,
        "down"@ != "left"@,
        "down"@ != "r"@,
        "down"@ != "right"@,
        "down"@ != "start"@,
        "down"@ != "up"@,
        "down"@ != "z"@,
        "dpad_down"@ != "dpad_left"@,
        "dpad_down"@ != "dpad_right"@,
        "dpad_down"@ != "dpad_up"@,
        "dpad_down"@ != "l"@,
        "dpad_down"@ != "left"@,
        "dpad_down"@ != "r"@,
        "dpad_down"@ != "right"@,
        "dpad_down"@ != "start"@,
        "dpad_down"@ != "up"@,
        "dpad_down"@ != "z"@,
        "dpad_left"@ != "dpad_right"@,
        "dpad_left"@ != "dpad_up"@,
        "dpad_left"@ != "l"@,
        "dpad_left"@ != "left"@,
        "dpad_left"@ != "r"@,
        "dpad_left"@ != "right"@,
        "dpad_left"@ != "start"@,
        "dpad_left"@ != "up"@,
        "dpad_left"@ != "z"@,
        "dpad_right"@ != "dpad_up"@,
        "dpad_right"@ != "l"@,
        "dpad_right"@ != "left"@,
        "dpad_right"@ != "r"@,
        "dpad_right"@ != "right"@,
        "dpad_right"@ != "start"@,
        "dpad_right"@ != "up"@,
        "dpad_right"@ != "z"@,
        "dpad_up"@ != "l"@,
        "dpad_up"@ != "left"@,
        "dpad_up"@ != "r"@,
        "dpad_up"@ != "right"@,
        "dpad_up"@ != "start"@,
        "dpad_up"@ != "up"@,
        "dpad_up"@ != "z"@,
        "l"@ != "left"@,
        "l"@ != "r"@,
        "l"@ != "right"@,
        "l"@ != "start"@,
        "l"@ != "up"@,
        "l"@ != "z"@,
        "left"@ != "r"@,
        "left"@ != "right"@,
        "left"@ != "start"@,
        "left"@ != "up"@,
        "left"@ != "z"@,
        "r"@ != "right"@,
        "r"@ != "start"@,
        "r"@ != "up"@,
        "r"@ != "z"@,
        "right"@ != "start"@,
        "right"@ != "up"@,
        "right"@ != "z"@,
        "start"@ != "up"@,
        "start"@ != "z"@,
        "up"@ != "z"@,
{
    reveal_strlit("a");
    reveal_strlit("b");
    reveal_strlit("c_down");
    reveal_strlit("c_left");
    reveal_strlit("c_right");
    reveal_strlit("c_up");
    reveal_strlit("down");
    reveal_strlit("dpad_down");
    reveal_strlit("dpad_left");
    reveal_strlit("dpad_right");
    reveal_strlit("dpad_up");
    reveal_strlit("l");
    reveal_strlit("left");
    reveal_strlit("r");
    reveal_strlit("right");
    reveal_strlit("start");
    reveal_strlit("up");
    reveal_strlit("z");
    assert("a"@.len() == 1);
    assert("b"@.len() == 1);
    assert("c_down"@.len() == 6);
    assert("c_left"@.len() == 6);
    assert("c_right"@.len() == 7);
    assert("c_up"@.len() == 4);
    assert("down"@.len() == 4);
    assert("dpad_down"@.len() == 9);
    assert("dpad_left"@.len() == 9);
    assert("dpad_right"@.len() == 10);
    assert("dpad_up"@.len() == 7);
    assert("l"@.len() == 1);
    assert("left"@.len() == 4);
    assert("r"@.len() == 1);
    assert("right"@.len() == 5);
    assert("start"@.len() == 5);
    assert("up"@.len() == 2);
    assert("z"@.len() == 1);
    assert("a"@[0] == 'a');
    assert("b"@[0] == 'b');
    assert("c_down"@[2] == 'd');
    assert("c_left"@[2] == 'l');
    assert("c_right"@[0] == 'c');
    assert("c_up"@[0] == 'c');
    assert("down"@[0] == 'd');
    assert("dpad_down"@[5] == 'd');
    assert("dpad_left"@[5] == 'l');
    assert("dpad_up"@[0] == 'd');
    assert("l"@[0] == 'l');
    assert("left"@[0] == 'l');
    assert("r"@[0] == 'r');
    assert("right"@[0] == 'r');
    assert("start"@[0] == 's');
    assert("z"@[0] == 'z');
}

/// The scancode of a letter: the letters stand in alphabetical order, from the fourth code on.
pub open spec fn key_of_letter(letter: char) -> int {
    letter as int - 'a' as int + 4
}

/// Whether a button is bound to a key.
pub open spec fn bound_to(name: Seq<char>, key: int) -> bool {
    control::button_place(name) matches Some(i) && control::button_keys()[i] == key
}

proof fn places_of_names(i: int)
    requires
        0 <= i < control::BUTTON_COUNT,
    ensures
        control::button_place(control::button_names()[i]) == Some(i),
{
    button_names_differ();
    reveal_with_fuel(control::button_among, 19);
}

/// The stick stands on the keys of the left hand, the yellow buttons on those of the right hand, and
/// the rest on the letters beside them; the arrows are the directional pad.
pub proof fn buttons_are_bound_to_keys()
    ensures
        bound_to("up"@, key_of_letter('w')),
        bound_to("left"@, key_of_letter('a')),
        bound_to("down"@, key_of_letter('s')),
        bound_to("right"@, key_of_letter('d')),
        bound_to("c_up"@, key_of_letter('i')),
        bound_to("c_left"@, key_of_letter('j')),
        bound_to("c_down"@, key_of_letter('k')),
        bound_to("c_right"@, key_of_letter('l')),
        bound_to("a"@, key_of_letter('x')),
        bound_to("b"@, key_of_letter('c')),
        bound_to("z"@, key_of_letter('z')),
        bound_to("l"@, key_of_letter('q')),
        bound_to("r"@, key_of_letter('e')),
        bound_to("start"@, 40),
        bound_to("dpad_right"@, 79),
        bound_to("dpad_left"@, 80),
        bound_to("dpad_down"@, 81),
        bound_to("dpad_up"@, 82),
{
    places_of_names(0);
    places_of_names(1);
    places_of_names(2);
    places_of_names(3);
    places_of_names(4);
    places_of_names(5);
    places_of_names(6);
    places_of_names(7);
    places_of_names(8);
    places_of_names(9);
    places_of_names(10);
    places_of_names(11);
    places_of_names(12);
    places_of_names(13);
    places_of_names(14);
    places_of_names(15);
    places_of_names(16);
    places_of_names(17);
}

/// Whether an entry of a list is the name of the button at a place.
pub open spec fn names(entry: JsonView, i: int) -> bool {
    entry.as_text() matches Some(raw) && control::canonical(raw) == control::button_names()[i]
}

/// Whether an entry of a list is the name of a button.
pub open spec fn names_one(entry: JsonView) -> bool {
    exists|i: int| 0 <= i < control::BUTTON_COUNT && #[trigger] names(entry, i)
}

/// Whether some entry of a list is the name of the button at a place.
pub open spec fn names_button(entries: Seq<JsonView>, i: int) -> bool {
    exists|k: int| 0 <= k < entries.len() && names(#[trigger] entries[k], i)
}

proof fn placed_names(name: Seq<char>, n: nat)
    requires
        n <= control::BUTTON_COUNT,
    ensures
        control::button_among(name, n) matches Some(i) ==> 0 <= i < n && control::button_names()[i]
            == name,
        control::button_among(name, n) is None ==> forall|i: int|
            0 <= i < n ==> #[trigger] control::button_names()[i] != name,
    decreases n,
{
    if n > 0 {
        placed_names(name, (n - 1) as nat);
    }
}

proof fn entries_name_their_button(entry: JsonView)
    ensures
        match control::button_entry(entry) {
            Ok(at) => {
                &&& 0 <= at < control::BUTTON_COUNT
                &&& names(entry, at)
                &&& forall|i: int|
                    0 <= i < control::BUTTON_COUNT && #[trigger] names(entry, i) ==> i == at
            },
            Err(_) => !names_one(entry),
        },
{
    if let Some(raw) = entry.as_text() {
        placed_names(control::canonical(raw), control::BUTTON_COUNT as nat);
        if let Ok(at) = control::button_entry(entry) {
            places_of_names(at);
            assert forall|i: int| 0 <= i < control::BUTTON_COUNT && #[trigger] names(entry, i) implies i
                == at by {
                places_of_names(i);
            }
        }
    }
}

/// A list of names holds exactly the buttons that some entry names, and is refused where an entry
/// names no button.
pub proof fn named_buttons_are_held(entries: Seq<JsonView>)
    ensures
        match control::button_entries(entries) {
            Ok(held) => {
                &&& held.len() == control::BUTTON_COUNT
                &&& forall|i: int|
                    0 <= i < control::BUTTON_COUNT ==> #[trigger] held[i] == names_button(
                        entries,
                        i,
                    )
                &&& forall|k: int| 0 <= k < entries.len() ==> names_one(#[trigger] entries[k])
            },
            Err(_) => exists|k: int| 0 <= k < entries.len() && !names_one(#[trigger] entries[k]),
        },
    decreases entries.len(),
{
    if entries.len() > 0 {
        let before = entries.drop_last();
        let last = entries.last();
        named_buttons_are_held(before);
        entries_name_their_button(last);
        assert(last == entries[entries.len() - 1]);
        match (control::button_entries(before), control::button_entry(last)) {
            (Err(_), _) => {
                let k = choose|k: int| 0 <= k < before.len() && !names_one(#[trigger] before[k]);
                assert(entries[k] == before[k]);
            },
            (Ok(held), Ok(at)) => {
                let after = held.update(at, true);
                assert forall|i: int| 0 <= i < control::BUTTON_COUNT implies #[trigger] after[i]
                    == names_button(entries, i) by {
                    assert(held[i] == names_button(before, i));
                    if names_button(before, i) {
                        let k = choose|k: int| 0 <= k < before.len() && names(#[trigger] before[k], i);
                        assert(names(entries[k], i));
                    }
                    if i != at && names_button(entries, i) {
                        let k = choose|k: int| 0 <= k < entries.len() && names(#[trigger] entries[k], i);
                        assert(k != entries.len() - 1);
                        assert(names(before[k], i));
                    }
                }
                assert forall|k: int| 0 <= k < entries.len() implies names_one(
                    #[trigger] entries[k],
                ) by {
                    if k < before.len() {
                        assert(names_one(before[k]));
                    }
                }
            },
            _ => {},
        }
    }
}

/// Whether the keys that are down are those of the buttons of a set.
pub open spec fn shows(down: Set<int>, held: Seq<bool>) -> bool {
    forall|i: int|
        0 <= i < control::BUTTON_COUNT ==> #[trigger] held[i] == down.contains(
            control::button_keys()[i] as int,
        )
}

/// The keys that are down after a change of one of them.
pub open spec fn keys_after(down: Set<int>, change: KeyChange) -> Set<int> {
    if change.pressed {
        down.insert(change.key as int)
    } else {
        down.remove(change.key as int)
    }
}

/// What came of a press: the steps that were asked for, each with the keys that were down then, the
/// keys that are down at the end, and the result.
pub struct PressEnd {
    pub steps: Seq<(u64, Set<int>)>,
    pub down: Set<int>,
    pub result: Result<JsonView, N64ErrorView>,
}

/// Whether an event answers an action: a key is answered by the core, and all else by a report.
pub open spec fn answers(action: PulseActionView, event: PulseEventView) -> bool {
    action is SendKey <==> event is KeySent
}

/// What comes of a press by the events from the `n`-th on; none where they do not bring it to a
/// result. A key is down or up once the core has taken it.
pub open spec fn press_end(
    press: PulseView,
    action: PulseActionView,
    events: Seq<PulseEventView>,
    n: int,
    down: Set<int>,
) -> Option<PressEnd>
    decreases events.len() - n,
{
    match action {
        PulseActionView::Finish(result) => Some(PressEnd { steps: Seq::empty(), down, result }),
        PulseActionView::StopGeneration(_) => None,
        _ => if !(0 <= n < events.len()) || !answers(action, events[n]) {
            None
        } else {
            let (after, then) = press.next(events[n]);
            let now = match (action, events[n]) {
                (PulseActionView::SendKey(change), PulseEventView::KeySent(0)) => keys_after(
                    down,
                    change,
                ),
                _ => down,
            };
            match press_end(after, then, events, n + 1, now) {
                None => None,
                Some(end) => match action {
                    PulseActionView::Step { frames } => Some(
                        PressEnd { steps: seq![(frames, down)] + end.steps, ..end },
                    ),
                    _ => Some(end),
                },
            }
        },
    }
}

/// Whether each change of a row is of the key of its button.
spec fn keyed(row: Seq<KeyChange>) -> bool {
    forall|i: int|
        0 <= i < row.len() ==> (#[trigger] row[i]).button < control::BUTTON_COUNT && row[i].key
            == control::button_keys()[row[i].button as int]
}

proof fn releases_are_keyed(held: Seq<bool>, desired: Seq<bool>, n: nat)
    requires
        n <= control::BUTTON_COUNT,
    ensures
        keyed(control::releases(held, desired, n)),
        keyed(control::presses(held, desired, n)),
    decreases n,
{
    if n > 0 {
        releases_are_keyed(held, desired, (n - 1) as nat);
    }
}

proof fn changes_are_keyed(held: Seq<bool>, desired: Seq<bool>)
    ensures
        keyed(control::changes(held, desired)),
{
    releases_are_keyed(held, desired, control::BUTTON_COUNT as nat);
}

proof fn keys_follow_the_set(down: Set<int>, held: Seq<bool>, change: KeyChange)
    requires
        held.len() == control::BUTTON_COUNT,
        shows(down, held),
        change.button < control::BUTTON_COUNT,
        change.key == control::button_keys()[change.button as int],
    ensures
        shows(keys_after(down, change), control::changed(held, change)),
{
    let after = control::changed(held, change);
    assert forall|i: int| 0 <= i < control::BUTTON_COUNT implies #[trigger] after[i] == keys_after(
        down,
        change,
    ).contains(control::button_keys()[i] as int) by {
        let at = change.button as int;
        if i < at {
            control::scancodes_are_unique(i, at);
        } else if at < i {
            control::scancodes_are_unique(at, i);
        }
        assert(i != at ==> after[i] == held[i]);
    }
}

/// The keys that are down after the first `n` changes of a row.
pub open spec fn keys_after_all(down: Set<int>, row: Seq<KeyChange>, n: nat) -> Set<int>
    decreases n,
{
    if n == 0 {
        down
    } else {
        keys_after(keys_after_all(down, row, (n - 1) as nat), row[n - 1])
    }
}

proof fn rows_are_followed(down: Set<int>, held: Seq<bool>, row: Seq<KeyChange>, n: nat)
    requires
        n <= row.len(),
        held.len() == control::BUTTON_COUNT,
        shows(down, held),
        keyed(row),
    ensures
        control::after_changes(held, row.take(n as int)).len() == control::BUTTON_COUNT,
        shows(keys_after_all(down, row, n), control::after_changes(held, row.take(n as int))),
    decreases n,
{
    if n > 0 {
        rows_are_followed(down, held, row, (n - 1) as nat);
        let part = row.take(n as int);
        assert(part.drop_last() =~= row.take(n - 1));
        assert(part.last() == row[n - 1]);
        keys_follow_the_set(
            keys_after_all(down, row, (n - 1) as nat),
            control::after_changes(held, row.take(n - 1)),
            row[n - 1],
        );
    } else {
        assert(row.take(0) =~= Seq::empty());
    }
}

/// The changes from the buttons that are held to those that are wanted bring the keys down of exactly the
/// wanted buttons; a key that stays as it is is not touched.
pub proof fn changes_bring_the_wanted_keys_down(
    down: Set<int>,
    held: Seq<bool>,
    wanted: Seq<bool>,
    k: int,
)
    requires
        held.len() == control::BUTTON_COUNT,
        wanted.len() == control::BUTTON_COUNT,
        shows(down, held),
    ensures
        ({
            let row = control::changes(held, wanted);
            &&& shows(keys_after_all(down, row, row.len()), wanted)
            &&& 0 <= k < row.len() ==> row[k].button < control::BUTTON_COUNT
                && held[row[k].button as int] != wanted[row[k].button as int] && row[k].pressed
                == wanted[row[k].button as int]
        }),
{
    let row = control::changes(held, wanted);
    changes_are_keyed(held, wanted);
    rows_are_followed(down, held, row, row.len());
    assert(row.take(row.len() as int) =~= row);
    control::changes_reach_the_desired_set(held, wanted);
    changes_are_needed(held, wanted, control::BUTTON_COUNT as nat);
}

spec fn is_needed(held: Seq<bool>, wanted: Seq<bool>, change: KeyChange) -> bool {
    &&& change.button < control::BUTTON_COUNT
    &&& held[change.button as int] != wanted[change.button as int]
    &&& change.pressed == wanted[change.button as int]
}

proof fn changes_are_needed(held: Seq<bool>, wanted: Seq<bool>, n: nat)
    requires
        n <= control::BUTTON_COUNT,
    ensures
        forall|k: int|
            0 <= k < control::releases(held, wanted, n).len() ==> is_needed(
                held,
                wanted,
                #[trigger] control::releases(held, wanted, n)[k],
            ),
        forall|k: int|
            0 <= k < control::presses(held, wanted, n).len() ==> is_needed(
                held,
                wanted,
                #[trigger] control::presses(held, wanted, n)[k],
            ),
    decreases n,
{
    if n > 0 {
        changes_are_needed(held, wanted, (n - 1) as nat);
        let released = control::releases(held, wanted, (n - 1) as nat);
        let pressed = control::presses(held, wanted, (n - 1) as nat);
        assert forall|k: int| 0 <= k < control::releases(held, wanted, n).len() implies is_needed(
            held,
            wanted,
            #[trigger] control::releases(held, wanted, n)[k],
        ) by {
            if k < released.len() {
                assert(control::releases(held, wanted, n)[k] == released[k]);
            }
        }
        assert forall|k: int| 0 <= k < control::presses(held, wanted, n).len() implies is_needed(
            held,
            wanted,
            #[trigger] control::presses(held, wanted, n)[k],
        ) by {
            if k < pressed.len() {
                assert(control::presses(held, wanted, n)[k] == pressed[k]);
            }
        }
    }
}

spec fn failed(press: PulseView, action: PulseActionView) -> bool {
    match press.stage {
        PulseStageView::Releasing { outcome, .. } => outcome is Err,
        PulseStageView::Resuming { outcome } => outcome is Err,
        PulseStageView::Over => action matches PulseActionView::Finish(Err(_)),
        _ => false,
    }
}

spec fn comes_back(press: PulseView, action: PulseActionView) -> bool {
    match press.stage {
        PulseStageView::Releasing { row, done, .. } => {
            &&& 0 <= done < row.len()
            &&& keyed(row)
            &&& control::after_changes(press.held, row.skip(done)) == press.persistent
            &&& action == PulseActionView::SendKey(row[done])
        },
        PulseStageView::Resuming { .. } => action is Resume && press.held == press.persistent,
        PulseStageView::Over => action is Finish && press.held == press.persistent,
        _ => false,
    }
}

spec fn stands(press: PulseView, action: PulseActionView) -> bool {
    let both = control::union_of(press.persistent, press.pulse);
    &&& press.held.len() == control::BUTTON_COUNT
    &&& press.persistent.len() == control::BUTTON_COUNT
    &&& match press.stage {
        PulseStageView::Pausing => action is Pause && press.held == press.persistent,
        PulseStageView::Pressing { row, done } => {
            &&& 0 <= done < row.len()
            &&& keyed(row)
            &&& control::after_changes(press.held, row.skip(done)) == both
            &&& action == PulseActionView::SendKey(row[done])
        },
        PulseStageView::Stepping => action == (PulseActionView::Step { frames: press.frames })
            && press.held == both,
        _ => comes_back(press, action),
    }
}

proof fn rows_go_on(held: Seq<bool>, row: Seq<KeyChange>, done: int)
    requires
        0 <= done < row.len(),
    ensures
        control::after_changes(held, row.skip(done)) == control::after_changes(
            control::changed(held, row[done]),
            row.skip(done + 1),
        ),
        done + 1 == row.len() ==> control::after_changes(held, row.skip(done)) == control::changed(
            held,
            row[done],
        ),
{
    let rest = row.skip(done);
    control::first_change_first(held, rest);
    assert(rest.skip(1) =~= row.skip(done + 1));
    if done + 1 == row.len() {
        assert(row.skip(done + 1) =~= Seq::empty());
    }
}

proof fn coming_back_stands(press: PulseView, outcome: Result<JsonView, N64ErrorView>)
    requires
        press.held.len() == control::BUTTON_COUNT,
        press.persistent.len() == control::BUTTON_COUNT,
    ensures
        ({
            let (after, then) = press.brings_back(outcome);
            &&& after.held == press.held
            &&& after.persistent == press.persistent
            &&& stands(after, then)
            &&& comes_back(after, then)
            &&& outcome is Err ==> failed(after, then)
        }),
{
    let row = control::changes(press.held, press.persistent);
    changes_are_keyed(press.held, press.persistent);
    control::changes_reach_the_desired_set(press.held, press.persistent);
    assert(row.skip(0) =~= row);
    if row.len() == 0 {
        assert(row =~= Seq::empty());
    }
}

proof fn presses_stand(press: PulseView)
    requires
        press.held.len() == control::BUTTON_COUNT,
        press.held == press.persistent,
    ensures
        ({
            let (after, then) = press.starts();
            &&& after.held == press.held
            &&& after.persistent == press.persistent
            &&& after.pulse == press.pulse
            &&& after.frames == press.frames
            &&& after.stage is Pressing || after.stage is Stepping
            &&& stands(after, then)
        }),
{
    let both = control::union_of(press.persistent, press.pulse);
    let row = control::changes(press.held, both);
    changes_are_keyed(press.held, both);
    control::changes_reach_the_desired_set(press.held, both);
    assert(row.skip(0) =~= row);
    if row.len() == 0 {
        assert(row =~= Seq::empty());
    }
}

spec fn before_the_step(press: PulseView) -> bool {
    press.stage is Pausing || press.stage is Pressing || press.stage is Stepping
}

spec fn stepped_once(press: PulseView, end: PressEnd) -> bool {
    &&& end.steps.len() == 1
    &&& end.steps[0].0 == press.frames
    &&& shows(end.steps[0].1, control::union_of(press.persistent, press.pulse))
}

proof fn keys_come_back(
    press: PulseView,
    action: PulseActionView,
    events: Seq<PulseEventView>,
    n: int,
    down: Set<int>,
)
    requires
        0 <= n,
        stands(press, action),
        comes_back(press, action),
        shows(down, press.held),
    ensures
        press_end(press, action, events, n, down) matches Some(end) ==> {
            &&& shows(end.down, press.persistent)
            &&& end.steps.len() == 0
            &&& failed(press, action) ==> end.result is Err
        },
    decreases events.len() - n,
{
    if !(press.stage is Over) && n < events.len() && answers(action, events[n]) {
        let (after, then) = press.next(events[n]);
        match press.stage {
            PulseStageView::Releasing { row, done, outcome } => {
                if events[n]->KeySent_0 == 0 {
                    rows_go_on(press.held, row, done);
                    keys_follow_the_set(down, press.held, row[done]);
                    keys_come_back(after, then, events, n + 1, keys_after(down, row[done]));
                }
            },
            _ => {
                keys_come_back(after, then, events, n + 1, down);
            },
        }
    }
}

proof fn keys_go_down(
    press: PulseView,
    action: PulseActionView,
    events: Seq<PulseEventView>,
    n: int,
    down: Set<int>,
)
    requires
        0 <= n,
        stands(press, action),
        before_the_step(press),
        shows(down, press.held),
    ensures
        press_end(press, action, events, n, down) matches Some(end) ==> {
            &&& shows(end.down, press.persistent)
            &&& end.result is Ok ==> stepped_once(press, end)
        },
    decreases events.len() - n,
{
    if n < events.len() && answers(action, events[n]) {
        let (after, then) = press.next(events[n]);
        match press.stage {
            PulseStageView::Pausing => {
                if events[n]->Told_0 is Ok {
                    presses_stand(press);
                    keys_go_down(after, then, events, n + 1, down);
                } else {
                    keys_come_back(after, then, events, n + 1, down);
                }
            },
            PulseStageView::Pressing { row, done } => {
                if events[n]->KeySent_0 == 0 {
                    rows_go_on(press.held, row, done);
                    keys_follow_the_set(down, press.held, row[done]);
                    keys_go_down(after, then, events, n + 1, keys_after(down, row[done]));
                } else {
                    let e = execution::core_error(
                        crate::n64::pulse::key_command(row[done]),
                        events[n]->KeySent_0,
                    );
                    coming_back_stands(press, e);
                    keys_come_back(after, then, events, n + 1, down);
                }
            },
            _ => {
                coming_back_stands(press, events[n]->Told_0);
                keys_come_back(after, then, events, n + 1, down);
            },
        }
    }
}

/// A press that is told with a report has stepped the machine once, by the frames asked for, while
/// the keys were down of the buttons pressed and of those held before; and however it ends, the keys
/// are down at its end that were down before it.
pub proof fn presses_hold_their_buttons(
    params: JsonView,
    readiness: AdapterReadiness,
    asked: u64,
    persistent: Seq<bool>,
    was_frozen: bool,
    press: PulseView,
    action: PulseActionView,
    events: Seq<PulseEventView>,
    down: Set<int>,
)
    requires
        params.unsigned_field("frames"@) == Some(asked) || (params.field("frames"@) is None && asked
            == 1),
        persistent.len() == control::BUTTON_COUNT,
        shows(down, persistent),
        control::pulse_request(params, readiness) == Ok::<_, N64ErrorView>(
            (press.pulse, press.frames),
        ),
        press.persistent == persistent,
        press.was_frozen == was_frozen,
        ({
            let first = PulseView { held: persistent, stage: PulseStageView::Pausing, ..press };
            (press, action) == if was_frozen {
                first.starts()
            } else {
                (first, PulseActionView::Pause)
            }
        }),
    ensures
        1 <= asked <= 120,
        press_end(press, action, events, 0, down) matches Some(end) ==> {
            &&& shows(end.down, persistent)
            &&& end.result is Ok ==> {
                &&& end.steps.len() == 1
                &&& end.steps[0].0 == asked
                &&& forall|i: int|
                    0 <= i < control::BUTTON_COUNT ==> (#[trigger] press.pulse[i] || persistent[i])
                        == end.steps[0].1.contains(control::button_keys()[i] as int)
            }
        },
{
    let first = PulseView { held: persistent, stage: PulseStageView::Pausing, ..press };
    if was_frozen {
        presses_stand(first);
    }
    keys_go_down(press, action, events, 0, down);
    if let Some(end) = press_end(press, action, events, 0, down) {
        if end.result is Ok {
            let both = control::union_of(persistent, press.pulse);
            assert forall|i: int| 0 <= i < control::BUTTON_COUNT implies (#[trigger] press.pulse[i]
                || persistent[i]) == end.steps[0].1.contains(control::button_keys()[i] as int) by {
                assert(both[i] == (persistent[i] || press.pulse[i]));
            }
        }
    }
}

/// What comes of a run by the results from the `n`-th on: the frames that were asked of the core,
/// whether it was set running at the end, and the result; none where they do not bring it to one.
pub open spec fn run_end(
    run: FrameRunView,
    action: RunActionView,
    told: Seq<Result<JsonView, N64ErrorView>>,
    n: int,
) -> Option<(int, bool, Result<JsonView, N64ErrorView>)>
    decreases told.len() - n,
{
    match action {
        RunActionView::Finish(result) => Some((0, false, result)),
        _ => if !(0 <= n < told.len()) {
            None
        } else {
            let (after, then) = run.next(told[n]);
            match run_end(after, then, told, n + 1) {
                None => None,
                Some((frames, resumed, result)) => Some(
                    (
                        frames + match action {
                            RunActionView::Step { frames } => frames as int,
                            _ => 0,
                        },
                        resumed || (action is Resume && told[n] is Ok),
                        result,
                    ),
                ),
            }
        },
    }
}

proof fn run_words_differ()
    ensures
        "completed"@ != "interrupted"@,
        "status"@ != "unit"@,
        "status"@ != "count"@,
        "status"@ != "completed"@,
        "status"@ != "started_state"@,
        "status"@ != "state"@,
        "status"@ != "at_least"@,
        "status"@ != "exact"@,
        "status"@ != "controlled_segment_exact"@,
        "status"@ != "frame_before"@,
        "status"@ != "controlled_segment_end_frame"@,
        "status"@ != "reason"@,
        "status"@ != "breakpoint_id"@,
        "status"@ != "event"@,
{
    reveal_strlit("completed");
    reveal_strlit("interrupted");
    reveal_strlit("status");
    reveal_strlit("unit");
    reveal_strlit("count");
    reveal_strlit("started_state");
    reveal_strlit("state");
    reveal_strlit("at_least");
    reveal_strlit("exact");
    reveal_strlit("controlled_segment_exact");
    reveal_strlit("frame_before");
    reveal_strlit("controlled_segment_end_frame");
    reveal_strlit("reason");
    reveal_strlit("breakpoint_id");
    reveal_strlit("event");
    assert("status"@.len() == 6);
    assert("reason"@.len() == 6);
    assert("status"@[0] == 's');
    assert("reason"@[0] == 'r');
    assert("completed"@.len() == 9);
    assert("interrupted"@.len() == 11);
}

proof fn run_reports_are_told(started_frozen: bool, count: u64, report: JsonView)
    ensures
        execution::early_end(report, count).text_field("status"@) == Some("interrupted"@),
{
    broadcast use json::added_is_found;

    run_words_differ();
}

proof fn runs_are_counted(
    run: FrameRunView,
    action: RunActionView,
    told: Seq<Result<JsonView, N64ErrorView>>,
    n: int,
)
    requires
        0 <= n,
        match run.stage {
            RunStageView::Pausing => action is Pause,
            RunStageView::Stepping => action == (RunActionView::Step { frames: run.count }),
            RunStageView::Resuming { .. } => action is Resume,
            RunStageView::Over => action is Finish,
        },
    ensures
        run_end(run, action, told, n) matches Some((frames, resumed, Ok(report))) ==> report.text_field(
            "status"@,
        ) != Some("interrupted"@) ==> match run.stage {
            RunStageView::Over => frames == 0,
            RunStageView::Resuming { .. } => frames == 0 && resumed,
            _ => frames == run.count && resumed,
        },
    decreases told.len() - n,
{
    if !(run.stage is Over) && n < told.len() {
        let (after, then) = run.next(told[n]);
        runs_are_counted(after, then, told, n + 1);
        if let Ok(report) = told[n] {
            run_reports_are_told(run.started_frozen, run.count, report);
        }
    }
}

/// A run that is told as completed has stepped the core by exactly as many frames as were asked for,
/// and then set it running.
pub proof fn completed_runs_are_exact(
    params: JsonView,
    asked: u64,
    run: FrameRunView,
    action: RunActionView,
    told: Seq<Result<JsonView, N64ErrorView>>,
)
    requires
        params.unsigned_field("n"@) == Some(asked) || (params.field("n"@) is None && (
        params.unsigned_field("count"@) == Some(asked) || (params.field("count"@) is None && (
        params.unsigned_field("frames"@) == Some(asked) || (params.field("frames"@) is None && asked
            == 1))))),
        execution::asked_frames(params) == Ok::<_, N64ErrorView>(run.count),
        if run.started_frozen {
            (run, action) == run.steps()
        } else {
            run.stage is Pausing && action is Pause
        },
    ensures
        1 <= asked <= 5000,
        run_end(run, action, told, 0) matches Some((frames, resumed, Ok(report)))
            ==> report.text_field("status"@) == Some("completed"@) ==> frames == asked && resumed,
{
    run_words_differ();
    runs_are_counted(run, action, told, 0);
}

} // verus!
