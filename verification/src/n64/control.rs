//! Controller input, screenshots and save states.

use vstd::prelude::*;
use crate::encoding;
use crate::json;
use crate::json::{Json, JsonView};
use crate::n64;
use crate::n64::lifecycle;
use crate::n64::lifecycle::AdapterReadiness;
use crate::n64::params;
use crate::n64::{N64Error, N64ErrorView, MAX_INPUT_PULSE_FRAMES};
use crate::text;

verus! {

/// The number of controller buttons.
pub const BUTTON_COUNT: usize = 18;

/// The button names in alphabetical order.
pub open spec fn button_names() -> Seq<Seq<char>> {
    seq![
        "a"@,
        "b"@,
        "c_down"@,
        "c_left"@,
        "c_right"@,
        "c_up"@,
        "down"@,
        "dpad_down"@,
        "dpad_left"@,
        "dpad_right"@,
        "dpad_up"@,
        "l"@,
        "left"@,
        "r"@,
        "right"@,
        "start"@,
        "up"@,
        "z"@,
    ]
}

/// The keyboard scancodes that the buttons are bound to, in the order of the names.
pub open spec fn button_keys() -> Seq<i32> {
    seq![27, 6, 14, 13, 15, 12, 22, 81, 80, 79, 82, 20, 4, 8, 7, 40, 26, 29]
}

/// The first of the first `n` buttons with a name.
pub open spec fn button_among(name: Seq<char>, n: nat) -> Option<int>
    decreases n,
{
    if n == 0 {
        None
    } else {
        match button_among(name, (n - 1) as nat) {
            Some(i) => Some(i),
            None => if button_names()[n - 1] == name {
                Some(n - 1)
            } else {
                None
            },
        }
    }
}

/// The place of a button in the alphabetical order.
pub open spec fn button_place(name: Seq<char>) -> Option<int> {
    button_among(name, BUTTON_COUNT as nat)
}

/// No two buttons are bound to the same scancode.
pub proof fn scancodes_are_unique(i: int, j: int)
    requires
        0 <= i < j < BUTTON_COUNT,
    ensures
        button_keys()[i] != button_keys()[j],
{
}

fn button_name(i: usize) -> (r: &'static str)
    requires
        i < BUTTON_COUNT,
    ensures
        r@ == button_names()[i as int],
{
    match i {
        0 => "a",
        1 => "b",
        2 => "c_down",
        3 => "c_left",
        4 => "c_right",
        5 => "c_up",
        6 => "down",
        7 => "dpad_down",
        8 => "dpad_left",
        9 => "dpad_right",
        10 => "dpad_up",
        11 => "l",
        12 => "left",
        13 => "r",
        14 => "right",
        15 => "start",
        16 => "up",
        _ => "z",
    }
}

fn button_key(i: usize) -> (r: i32)
    requires
        i < BUTTON_COUNT,
    ensures
        r == button_keys()[i as int],
{
    match i {
        0 => 27,
        1 => 6,
        2 => 14,
        3 => 13,
        4 => 15,
        5 => 12,
        6 => 22,
        7 => 81,
        8 => 80,
        9 => 79,
        10 => 82,
        11 => 20,
        12 => 4,
        13 => 8,
        14 => 7,
        15 => 40,
        16 => 26,
        _ => 29,
    }
}

proof fn button_among_bound(name: Seq<char>, n: nat)
    ensures
        button_among(name, n) matches Some(i) ==> 0 <= i < n,
    decreases n,
{
    if n > 0 {
        button_among_bound(name, (n - 1) as nat);
    }
}

fn place_of(name: &str) -> (r: Option<usize>)
    ensures
        r is Some == button_place(name@) is Some,
        r matches Some(i) ==> i < BUTTON_COUNT && i == button_place(name@)->0,
{
    let mut found: Option<usize> = None;
    let mut i: usize = 0;
    while i < BUTTON_COUNT
        invariant
            i <= BUTTON_COUNT,
            found is Some == button_among(name@, i as nat) is Some,
            found matches Some(p) ==> p < i && p == button_among(name@, i as nat)->0,
        decreases BUTTON_COUNT - i,
    {
        if found.is_none() && text::same(button_name(i), name) {
            found = Some(i);
        }
        i += 1;
    }
    found
}

/// The scancode of a button.
pub fn input_key(button: &str) -> (r: Option<i32>)
    ensures
        r == (match button_place(button@) {
            Some(i) => Some(button_keys()[i]),
            None => None,
        }),
{
    match place_of(button) {
        Some(i) => Some(button_key(i)),
        None => None,
    }
}

/// The names that requests may use, in the order in which they are told.
pub open spec fn advertised_buttons() -> Seq<Seq<char>> {
    seq![
        "a"@,
        "b"@,
        "z"@,
        "start"@,
        "l"@,
        "r"@,
        "up"@,
        "down"@,
        "left"@,
        "right"@,
        "dpad_up"@,
        "dpad_down"@,
        "dpad_left"@,
        "dpad_right"@,
        "c_up"@,
        "c_down"@,
        "c_left"@,
        "c_right"@,
    ]
}

/// A set of controller buttons.
#[derive(Debug, PartialEq, Eq)]
pub struct ButtonSet {
    held: Vec<bool>,
}

/// The names of the first `n` buttons that are in a set.
pub open spec fn held_names(held: Seq<bool>, n: nat) -> Seq<Seq<char>>
    decreases n,
{
    if n == 0 {
        Seq::empty()
    } else {
        let before = held_names(held, (n - 1) as nat);
        if held[n - 1] {
            before.push(button_names()[n - 1])
        } else {
            before
        }
    }
}

/// No button.
pub open spec fn no_buttons() -> Seq<bool> {
    Seq::new(BUTTON_COUNT as nat, |i: int| false)
}

/// Whether a set holds any button.
pub open spec fn any_held(held: Seq<bool>) -> bool {
    exists|i: int| 0 <= i < held.len() && #[trigger] held[i]
}

/// The buttons of either of two sets.
pub open spec fn union_of(a: Seq<bool>, b: Seq<bool>) -> Seq<bool> {
    Seq::new(BUTTON_COUNT as nat, |i: int| a[i] || b[i])
}

/// The list of the names in a set, in alphabetical order.
pub open spec fn names_report(held: Seq<bool>) -> JsonView {
    json::text_array(held_names(held, BUTTON_COUNT as nat))
}

/// A key to press or to release.
#[derive(Clone, Copy, Debug, PartialEq, Eq, Structural)]
pub struct KeyChange {
    pub button: usize,
    pub key: i32,
    pub pressed: bool,
}

/// The keys of the first `n` buttons that are held and not wanted, to be released.
pub open spec fn releases(held: Seq<bool>, desired: Seq<bool>, n: nat) -> Seq<KeyChange>
    decreases n,
{
    if n == 0 {
        Seq::empty()
    } else {
        let before = releases(held, desired, (n - 1) as nat);
        if held[n - 1] && !desired[n - 1] {
            before.push(
                KeyChange {
                    button: (n - 1) as usize,
                    key: button_keys()[n - 1],
                    pressed: false,
                },
            )
        } else {
            before
        }
    }
}

/// The keys of the first `n` buttons that are wanted and not held, to be pressed.
pub open spec fn presses(held: Seq<bool>, desired: Seq<bool>, n: nat) -> Seq<KeyChange>
    decreases n,
{
    if n == 0 {
        Seq::empty()
    } else {
        let before = presses(held, desired, (n - 1) as nat);
        if desired[n - 1] && !held[n - 1] {
            before.push(
                KeyChange { button: (n - 1) as usize, key: button_keys()[n - 1], pressed: true },
            )
        } else {
            before
        }
    }
}

/// The changes from one set to another: first every release, then every press.
pub open spec fn changes(held: Seq<bool>, desired: Seq<bool>) -> Seq<KeyChange> {
    releases(held, desired, BUTTON_COUNT as nat) + presses(held, desired, BUTTON_COUNT as nat)
}

/// The set after one change.
pub open spec fn changed(held: Seq<bool>, change: KeyChange) -> Seq<bool> {
    held.update(change.button as int, change.pressed)
}

/// The set after a row of changes.
pub open spec fn after_changes(held: Seq<bool>, row: Seq<KeyChange>) -> Seq<bool>
    decreases row.len(),
{
    if row.len() == 0 {
        held
    } else {
        changed(after_changes(held, row.drop_last()), row.last())
    }
}

proof fn after_releases(held: Seq<bool>, desired: Seq<bool>, n: nat)
    requires
        held.len() == BUTTON_COUNT,
        desired.len() == BUTTON_COUNT,
        n <= BUTTON_COUNT,
    ensures
        after_changes(held, releases(held, desired, n)) == Seq::new(
            BUTTON_COUNT as nat,
            |i: int|
                if i < n {
                    held[i] && desired[i]
                } else {
                    held[i]
                },
        ),
    decreases n,
{
    let goal = Seq::new(
        BUTTON_COUNT as nat,
        |i: int|
            if i < n {
                held[i] && desired[i]
            } else {
                held[i]
            },
    );
    if n == 0 {
        assert(held =~= goal);
    } else {
        after_releases(held, desired, (n - 1) as nat);
        let row = releases(held, desired, n);
        if held[n - 1] && !desired[n - 1] {
            assert(row.drop_last() =~= releases(held, desired, (n - 1) as nat));
        }
        assert(after_changes(held, row) =~= goal);
    }
}

proof fn after_presses(start: Seq<bool>, held: Seq<bool>, desired: Seq<bool>, head: Seq<KeyChange>, n: nat)
    requires
        held.len() == BUTTON_COUNT,
        desired.len() == BUTTON_COUNT,
        n <= BUTTON_COUNT,
        after_changes(start, head) == Seq::new(
            BUTTON_COUNT as nat,
            |i: int| held[i] && desired[i],
        ),
    ensures
        after_changes(start, head + presses(held, desired, n)) == Seq::new(
            BUTTON_COUNT as nat,
            |i: int|
                if i < n {
                    desired[i]
                } else {
                    held[i] && desired[i]
                },
        ),
    decreases n,
{
    let goal = Seq::new(
        BUTTON_COUNT as nat,
        |i: int|
            if i < n {
                desired[i]
            } else {
                held[i] && desired[i]
            },
    );
    let row = head + presses(held, desired, n);
    if n == 0 {
        assert(row =~= head);
        assert(after_changes(start, row) =~= goal);
    } else {
        after_presses(start, held, desired, head, (n - 1) as nat);
        if desired[n - 1] && !held[n - 1] {
            assert(row.drop_last() =~= head + presses(held, desired, (n - 1) as nat));
        }
        assert(after_changes(start, row) =~= goal);
    }
}

/// The changes from one set to another lead to the other.
pub proof fn changes_reach_the_desired_set(held: Seq<bool>, desired: Seq<bool>)
    requires
        held.len() == BUTTON_COUNT,
        desired.len() == BUTTON_COUNT,
    ensures
        after_changes(held, changes(held, desired)) == desired,
{
    let n = BUTTON_COUNT as nat;
    after_releases(held, desired, n);
    let head = releases(held, desired, n);
    assert(after_changes(held, head) =~= Seq::new(n, |i: int| held[i] && desired[i]));
    after_presses(held, held, desired, head, n);
    assert(after_changes(held, changes(held, desired)) =~= desired);
}

/// A row of changes can be made one by one, from its first.
pub proof fn first_change_first(held: Seq<bool>, row: Seq<KeyChange>)
    requires
        row.len() > 0,
    ensures
        after_changes(held, row) == after_changes(changed(held, row[0]), row.skip(1)),
    decreases row.len(),
{
    if row.len() == 1 {
        assert(row.drop_last() =~= Seq::empty());
        assert(row.skip(1) =~= Seq::empty());
        assert(after_changes(held, row.drop_last()) == held);
    } else {
        first_change_first(held, row.drop_last());
        assert(row.drop_last().skip(1) =~= row.skip(1).drop_last());
    }
}

/// Whether every change of a row is of a button.
pub open spec fn of_buttons(row: Seq<KeyChange>) -> bool {
    forall|i: int| 0 <= i < row.len() ==> (#[trigger] row[i]).button < BUTTON_COUNT
}

proof fn releases_are_of_buttons(held: Seq<bool>, desired: Seq<bool>, n: nat)
    requires
        n <= BUTTON_COUNT,
    ensures
        of_buttons(releases(held, desired, n)),
    decreases n,
{
    if n > 0 {
        releases_are_of_buttons(held, desired, (n - 1) as nat);
    }
}

proof fn presses_are_of_buttons(held: Seq<bool>, desired: Seq<bool>, n: nat)
    requires
        n <= BUTTON_COUNT,
    ensures
        of_buttons(presses(held, desired, n)),
    decreases n,
{
    if n > 0 {
        presses_are_of_buttons(held, desired, (n - 1) as nat);
    }
}

/// The changes from one set to another are changes of buttons.
pub proof fn changes_are_of_buttons(held: Seq<bool>, desired: Seq<bool>)
    ensures
        of_buttons(changes(held, desired)),
{
    releases_are_of_buttons(held, desired, BUTTON_COUNT as nat);
    presses_are_of_buttons(held, desired, BUTTON_COUNT as nat);
}

/// The canonical form of a button name: trimmed, in lower case, with underscores, and with the
/// common names of shoulder buttons and stick directions resolved.
pub open spec fn canonical(raw: Seq<char>) -> Seq<char> {
    let name = text::replaced(text::lowered(text::trimmed(raw)), '-', '_');
    if name == "shoulder_l"@ {
        "l"@
    } else if name == "shoulder_r"@ {
        "r"@
    } else if name == "analog_up"@ {
        "up"@
    } else if name == "analog_down"@ {
        "down"@
    } else if name == "analog_left"@ {
        "left"@
    } else if name == "analog_right"@ {
        "right"@
    } else {
        name
    }
}

/// The button that an entry of a list names.
pub open spec fn button_entry(entry: JsonView) -> Result<int, N64ErrorView> {
    match entry.as_text() {
        None => n64::bad_params("button names must be strings"@),
        Some(raw) => match button_place(canonical(raw)) {
            Some(i) => Ok(i),
            None => n64::bad_params("unsupported N64 input button: "@ + raw),
        },
    }
}

/// The buttons that a list names; the first entry at fault decides the error.
pub open spec fn button_entries(entries: Seq<JsonView>) -> Result<Seq<bool>, N64ErrorView>
    decreases entries.len(),
{
    if entries.len() == 0 {
        Ok(no_buttons())
    } else {
        match button_entries(entries.drop_last()) {
            Err(e) => Err(e),
            Ok(before) => match button_entry(entries.last()) {
                Err(e) => Err(e),
                Ok(i) => Ok(before.update(i, true)),
            },
        }
    }
}

/// The buttons that a request names.
pub open spec fn named_buttons(value: Option<JsonView>) -> Result<Seq<bool>, N64ErrorView> {
    match value {
        None => n64::bad_params("buttons must be an array"@),
        Some(v) => match v.as_items() {
            None => n64::bad_params("buttons must be an array"@),
            Some(entries) => button_entries(entries),
        },
    }
}

proof fn button_entries_prefix(entries: Seq<JsonView>, n: int)
    requires
        0 <= n <= entries.len(),
    ensures
        button_entries(entries.take(n)) is Err ==> button_entries(entries) == button_entries(
            entries.take(n),
        ),
    decreases entries.len() - n,
{
    if n == entries.len() {
        assert(entries.take(n) =~= entries);
    } else {
        assert(entries.take(n + 1).drop_last() =~= entries.take(n));
        button_entries_prefix(entries, n + 1);
    }
}

fn canonical_name(raw: &str) -> (r: String)
    ensures
        r@ == canonical(raw@),
{
    let name = text::replace(text::lower(text::trim(raw).as_str()).as_str(), '-', '_');
    if text::same(name.as_str(), "shoulder_l") {
        "l".to_owned()
    } else if text::same(name.as_str(), "shoulder_r") {
        "r".to_owned()
    } else if text::same(name.as_str(), "analog_up") {
        "up".to_owned()
    } else if text::same(name.as_str(), "analog_down") {
        "down".to_owned()
    } else if text::same(name.as_str(), "analog_left") {
        "left".to_owned()
    } else if text::same(name.as_str(), "analog_right") {
        "right".to_owned()
    } else {
        name
    }
}

impl ButtonSet {
    /// Which buttons are in the set, in the alphabetical order of their names.
    pub closed spec fn view(&self) -> Seq<bool> {
        self.held@
    }

    /// A set with the same buttons.
    pub fn duplicate(&self) -> (r: ButtonSet)
        ensures
            r@ == self@,
    {
        ButtonSet { held: self.held.clone() }
    }

    /// The set speaks of every button.
    pub open spec fn wf(&self) -> bool {
        self@.len() == BUTTON_COUNT
    }

    /// The empty set.
    pub fn new() -> (r: ButtonSet)
        ensures
            r.wf(),
            r@ == no_buttons(),
    {
        let mut held: Vec<bool> = Vec::new();
        let mut i: usize = 0;
        while i < BUTTON_COUNT
            invariant
                i <= BUTTON_COUNT,
                held@ == Seq::new(i as nat, |k: int| false),
            decreases BUTTON_COUNT - i,
        {
            held.push(false);
            i += 1;
            assert(held@ =~= Seq::new(i as nat, |k: int| false));
        }
        ButtonSet { held }
    }

    /// Whether the set is empty.
    pub fn is_empty(&self) -> (r: bool)
        ensures
            r == !any_held(self@),
    {
        let mut i: usize = 0;
        while i < self.held.len()
            invariant
                i <= self.held.len(),
                forall|k: int| 0 <= k < i ==> !(#[trigger] self@[k]),
            decreases self.held.len() - i,
        {
            if self.held[i] {
                assert(self@[i as int]);
                return false;
            }
            i += 1;
        }
        true
    }

    /// The names in the set, in alphabetical order.
    pub fn names(&self) -> (r: Vec<String>)
        requires
            self.wf(),
        ensures
            text::text_views(r@) == held_names(self@, BUTTON_COUNT as nat),
    {
        let mut r: Vec<String> = Vec::new();
        let mut i: usize = 0;
        assert(text::text_views(r@) =~= Seq::empty());
        while i < BUTTON_COUNT
            invariant
                i <= BUTTON_COUNT,
                self.wf(),
                text::text_views(r@) == held_names(self@, i as nat),
            decreases BUTTON_COUNT - i,
        {
            let ghost before = text::text_views(r@);
            if self.held[i] {
                r.push(button_name(i).to_owned());
                assert(text::text_views(r@) =~= before.push(button_names()[i as int]));
            }
            i += 1;
        }
        r
    }

    /// The buttons of either of two sets.
    pub fn union(&self, other: &ButtonSet) -> (r: ButtonSet)
        requires
            self.wf(),
            other.wf(),
        ensures
            r.wf(),
            r@ == union_of(self@, other@),
    {
        let mut held: Vec<bool> = Vec::new();
        let mut i: usize = 0;
        while i < BUTTON_COUNT
            invariant
                i <= BUTTON_COUNT,
                self.wf(),
                other.wf(),
                held@ == union_of(self@, other@).take(i as int),
            decreases BUTTON_COUNT - i,
        {
            held.push(self.held[i] || other.held[i]);
            i += 1;
            assert(held@ =~= union_of(self@, other@).take(i as int));
        }
        assert(held@ =~= union_of(self@, other@));
        ButtonSet { held }
    }

    /// The keys to release and to press on the way to another set.
    pub fn changes_to(&self, desired: &ButtonSet) -> (r: Vec<KeyChange>)
        requires
            self.wf(),
            desired.wf(),
        ensures
            r@ == changes(self@, desired@),
    {
        let mut r: Vec<KeyChange> = Vec::new();
        let mut i: usize = 0;
        while i < BUTTON_COUNT
            invariant
                i <= BUTTON_COUNT,
                self.wf(),
                desired.wf(),
                r@ == releases(self@, desired@, i as nat),
            decreases BUTTON_COUNT - i,
        {
            if self.held[i] && !desired.held[i] {
                r.push(KeyChange { button: i, key: button_key(i), pressed: false });
            }
            i += 1;
        }
        let ghost head = r@;
        let mut j: usize = 0;
        assert(head + presses(self@, desired@, 0) =~= head);
        while j < BUTTON_COUNT
            invariant
                j <= BUTTON_COUNT,
                self.wf(),
                desired.wf(),
                head == releases(self@, desired@, BUTTON_COUNT as nat),
                r@ == head + presses(self@, desired@, j as nat),
            decreases BUTTON_COUNT - j,
        {
            let ghost before = r@;
            if desired.held[j] && !self.held[j] {
                r.push(KeyChange { button: j, key: button_key(j), pressed: true });
            }
            j += 1;
            assert(r@ =~= head + presses(self@, desired@, j as nat));
        }
        r
    }

    /// Takes a change that has been sent into the set.
    pub fn apply(&mut self, change: KeyChange)
        requires
            old(self).wf(),
            change.button < BUTTON_COUNT,
        ensures
            final(self).wf(),
            final(self)@ == changed(old(self)@, change),
    {
        self.held[change.button] = change.pressed;
    }
}

/// Reads the list of buttons of a request.
pub fn normalize_buttons(value: Option<&Json>) -> (r: Result<ButtonSet, N64Error>)
    ensures
        match (
            r,
            named_buttons(
                match value {
                    Some(v) => Some(v@),
                    None => None,
                },
            ),
        ) {
            (Ok(set), Ok(held)) => set.wf() && set@ == held,
            (Err(e), Err(f)) => e@ == f,
            _ => false,
        },
{
    let entries = match value {
        Some(v) => match v.as_array() {
            Some(entries) => entries,
            None => {
                return Err(N64Error::BadParams("buttons must be an array".to_owned()));
            },
        },
        None => {
            return Err(N64Error::BadParams("buttons must be an array".to_owned()));
        },
    };
    let ghost items = json::views(entries@);
    let mut set = ButtonSet::new();
    let mut i: usize = 0;
    assert(items.take(0) =~= Seq::empty());
    while i < entries.len()
        invariant
            i <= entries.len(),
            items == json::views(entries@),
            value is Some,
            value->0@.as_items() == Some(items),
            set.wf(),
            button_entries(items.take(i as int)) == Ok::<_, N64ErrorView>(set@),
        decreases entries.len() - i,
    {
        proof {
            assert(items.take(i + 1).drop_last() =~= items.take(i as int));
            assert(items.take(i + 1).last() == entries@[i as int]@);
            button_entries_prefix(items, i + 1);
        }
        let raw = match entries[i].as_str() {
            Some(raw) => raw,
            None => {
                return Err(N64Error::BadParams("button names must be strings".to_owned()));
            },
        };
        match place_of(canonical_name(raw).as_str()) {
            Some(place) => {
                set.held[place] = true;
            },
            None => {
                return Err(N64Error::BadParams(text::join("unsupported N64 input button: ", raw)));
            },
        }
        i += 1;
    }
    assert(items.take(entries.len() as int) =~= items);
    Ok(set)
}

/// Only the first controller port is driven.
pub open spec fn port_check(params: JsonView) -> Result<(), N64ErrorView> {
    match params::optional(params, "port"@) {
        Err(e) => Err(e),
        Ok(None) => Ok(()),
        Ok(Some(port)) => if port == 0 {
            Ok(())
        } else {
            n64::bad_params(
                "N64 input currently supports port 0 only, got "@ + text::decimal(port as int),
            )
        },
    }
}

/// Refuses a request for a controller port other than the first.
pub fn require_port_zero(params: &Json) -> (r: Result<(), N64Error>)
    ensures
        n64::gives(r, port_check(params@)),
{
    match params::optional_num(params, "port")? {
        None => Ok(()),
        Some(port) => if port == 0 {
            Ok(())
        } else {
            Err(
                N64Error::BadParams(
                    text::join(
                        "N64 input currently supports port 0 only, got ",
                        text::decimal_of(port).as_str(),
                    ),
                ),
            )
        },
    }
}

/// What a request to hold buttons asks for.
pub open spec fn input_request(params: JsonView, readiness: AdapterReadiness) -> Result<
    Seq<bool>,
    N64ErrorView,
> {
    match (port_check(params), lifecycle::connected_check(readiness)) {
        (Err(e), _) => Err(e),
        (_, Err(e)) => Err(e),
        (Ok(()), Ok(())) => named_buttons(params.field("buttons"@)),
    }
}

/// Checks a request to hold buttons.
pub fn check_input(params: &Json, readiness: AdapterReadiness) -> (r: Result<ButtonSet, N64Error>)
    ensures
        match (r, input_request(params@, readiness)) {
            (Ok(set), Ok(held)) => set.wf() && set@ == held,
            (Err(e), Err(f)) => e@ == f,
            _ => false,
        },
{
    require_port_zero(params)?;
    lifecycle::require_connected(readiness)?;
    normalize_buttons(params.get("buttons"))
}

/// Who drives the controller: the native input alone, or together with held buttons.
pub open spec fn ownership(held: Seq<bool>) -> Seq<char> {
    if any_held(held) {
        "shared_with_native"@
    } else {
        "native"@
    }
}

/// The report of held buttons.
pub fn input_report(held: &ButtonSet) -> (r: Json)
    requires
        held.wf(),
    ensures
        r@ == JsonView::object().with("status"@, JsonView::Str("completed"@)).with(
            "buttons"@,
            names_report(held@),
        ).with("override_engaged"@, JsonView::Bool(any_held(held@))).with(
            "ownership"@,
            JsonView::Str(ownership(held@)),
        ),
{
    let engaged = !held.is_empty();
    let owner = if engaged {
        "shared_with_native"
    } else {
        "native"
    };
    Json::object().with("status", Json::text("completed")).with(
        "buttons",
        Json::texts(held.names().as_slice()),
    ).with("override_engaged", Json::Bool(engaged)).with("ownership", Json::text(owner))
}

/// The buttons and the number of frames of a button press.
pub open spec fn pulse_request(params: JsonView, readiness: AdapterReadiness) -> Result<
    (Seq<bool>, u64),
    N64ErrorView,
> {
    match input_request(params, readiness) {
        Err(e) => Err(e),
        Ok(pulse) => if !any_held(pulse) {
            n64::bad_params("press_buttons requires at least one button"@)
        } else {
            match params::optional(params, "frames"@) {
                Err(e) => Err(e),
                Ok(given) => {
                    let frames = match given {
                        Some(n) => n,
                        None => 1,
                    };
                    if 1 <= frames <= MAX_INPUT_PULSE_FRAMES {
                        Ok((pulse, frames))
                    } else {
                        n64::bad_params(
                            (("press_buttons frames must be in 1..="@ + text::decimal(
                                MAX_INPUT_PULSE_FRAMES as int,
                            )) + ", got "@) + text::decimal(frames as int),
                        )
                    }
                },
            }
        },
    }
}

/// Checks a button press.
pub fn check_pulse(params: &Json, readiness: AdapterReadiness) -> (r: Result<
    (ButtonSet, u64),
    N64Error,
>)
    ensures
        match (r, pulse_request(params@, readiness)) {
            (Ok((set, frames)), Ok((held, n))) => set.wf() && set@ == held && frames == n,
            (Err(e), Err(f)) => e@ == f,
            _ => false,
        },
{
    let pulse = check_input(params, readiness)?;
    if pulse.is_empty() {
        return Err(N64Error::BadParams("press_buttons requires at least one button".to_owned()));
    }
    let frames: u64 = match params::optional_num(params, "frames")? {
        Some(n) => n,
        None => 1,
    };
    if 1 <= frames && frames <= MAX_INPUT_PULSE_FRAMES {
        return Ok((pulse, frames));
    }
    let m = text::join(
        "press_buttons frames must be in 1..=",
        text::decimal_of(MAX_INPUT_PULSE_FRAMES).as_str(),
    );
    let m = text::join(m.as_str(), ", got ");
    Err(N64Error::BadParams(text::join(m.as_str(), text::decimal_of(frames).as_str())))
}

/// Reads the value that the core's callback left for an operation: one is success.
pub fn operation_result(value: i32, operation: &str) -> (r: Result<(), N64Error>)
    ensures
        n64::gives(
            r,
            if value == 1 {
                Ok(())
            } else {
                n64::bad_state(("Mupen64Plus reported that "@ + operation@) + " failed"@)
            },
        ),
{
    if value == 1 {
        Ok(())
    } else {
        let m = text::join("Mupen64Plus reported that ", operation);
        Err(N64Error::BadState(text::join(m.as_str(), " failed")))
    }
}

/// The tag of the header chunk of a PNG file.
pub open spec fn png_header_tag() -> Seq<u8> {
    seq![0x49, 0x48, 0x44, 0x52]
}

/// The number in four bytes, most significant first.
pub open spec fn big_endian(data: Seq<u8>, at: int) -> u32 {
    (data[at] * 0x100_0000 + data[at + 1] * 0x1_0000 + data[at + 2] * 0x100 + data[at + 3]) as u32
}

/// The width and height that a PNG header tells.
pub open spec fn png_size(data: Seq<u8>) -> Result<(u32, u32), N64ErrorView> {
    if data.len() < 24 || data.take(8) != encoding::png_signature() || data.subrange(12, 16)
        != png_header_tag() {
        n64::bad_state("Mupen64Plus screenshot is not a valid PNG header"@)
    } else if big_endian(data, 16) == 0 || big_endian(data, 20) == 0 {
        n64::bad_state("Mupen64Plus screenshot has zero dimensions"@)
    } else {
        Ok((big_endian(data, 16), big_endian(data, 20)))
    }
}

fn read_big_endian(data: &[u8], at: usize) -> (r: u32)
    requires
        at + 4 <= data@.len(),
    ensures
        r == big_endian(data@, at as int),
{
    data[at] as u32 * 0x100_0000 + data[at + 1] as u32 * 0x1_0000 + data[at + 2] as u32 * 0x100
        + data[at + 3] as u32
}

/// Reads the width and height from the header of a PNG file.
pub fn png_dimensions(data: &[u8]) -> (r: Result<(u32, u32), N64Error>)
    ensures
        n64::gives(r, png_size(data@)),
{
    let valid = data.len() >= 24 && data[0] == 0x89 && data[1] == 0x50 && data[2] == 0x4e && data[3]
        == 0x47 && data[4] == 0x0d && data[5] == 0x0a && data[6] == 0x1a && data[7] == 0x0a
        && data[12] == 0x49 && data[13] == 0x48 && data[14] == 0x44 && data[15] == 0x52;
    proof {
        if data@.len() >= 24 {
            let head = data@.take(8);
            let tag = data@.subrange(12, 16);
            if valid {
                assert(head =~= encoding::png_signature());
                assert(tag =~= png_header_tag());
            } else if head == encoding::png_signature() && tag == png_header_tag() {
                assert(head[0] == 0x89 && head[1] == 0x50 && head[2] == 0x4e && head[3] == 0x47);
                assert(head[4] == 0x0d && head[5] == 0x0a && head[6] == 0x1a && head[7] == 0x0a);
                assert(tag[0] == 0x49 && tag[1] == 0x48 && tag[2] == 0x44 && tag[3] == 0x52);
                assert(head[0] == data@[0] && tag[0] == data@[12]);
            }
        }
    }
    if !valid {
        return Err(
            N64Error::BadState("Mupen64Plus screenshot is not a valid PNG header".to_owned()),
        );
    }
    let width: u32 = read_big_endian(data, 16);
    let height: u32 = read_big_endian(data, 20);
    if width == 0 || height == 0 {
        return Err(N64Error::BadState("Mupen64Plus screenshot has zero dimensions".to_owned()));
    }
    Ok((width, height))
}

/// The report of a screenshot.
pub open spec fn screenshot_view(
    data: Seq<u8>,
    width: u32,
    height: u32,
    frame_before: u64,
    stepped: JsonView,
) -> JsonView {
    JsonView::object().with("png_base64"@, JsonView::Str(encoding::base64_text(data))).with(
        "sha256"@,
        JsonView::Str(encoding::hex_text(encoding::sha256_of(data))),
    ).with("byte_len"@, JsonView::Unsigned(data.len() as u64)).with(
        "width"@,
        JsonView::Unsigned(width as u64),
    ).with("height"@, JsonView::Unsigned(height as u64)).with(
        "frame_before"@,
        JsonView::Unsigned(frame_before),
    ).with("frame_after"@, stepped.at("frame"@)).with("frame_stable"@, JsonView::Bool(false)).with(
        "state"@,
        JsonView::Str("frozen"@),
    ).with("freshness"@, JsonView::Str("current"@)).with(
        "capture_boundary"@,
        JsonView::Str("first_callback_after_screenshot_completion"@),
    )
}

/// Reports a screenshot from the bytes of the one file that it left.
pub fn screenshot_report(data: &[u8], frame_before: u64, stepped: &Json) -> (r: Result<
    Json,
    N64Error,
>)
    ensures
        n64::gives_view(
            r,
            match png_size(data@) {
                Err(e) => Err(e),
                Ok((width, height)) => Ok(
                    screenshot_view(data@, width, height, frame_before, stepped@),
                ),
            },
        ),
{
    let (width, height) = png_dimensions(data)?;
    let digest = encoding::sha256_digest(data);
    Ok(
        Json::object().with("png_base64", Json::Str(encoding::base64_encode(data))).with(
            "sha256",
            Json::Str(encoding::hex_encode(digest.as_slice())),
        ).with("byte_len", Json::Unsigned(data.len() as u64)).with(
            "width",
            Json::Unsigned(width as u64),
        ).with("height", Json::Unsigned(height as u64)).with(
            "frame_before",
            Json::Unsigned(frame_before),
        ).with("frame_after", stepped.at("frame")).with("frame_stable", Json::Bool(false)).with(
            "state",
            Json::text("frozen"),
        ).with("freshness", Json::text("current")).with(
            "capture_boundary",
            Json::text("first_callback_after_screenshot_completion"),
        ),
    )
}

/// Refuses a screenshot that left no new file, or several.
pub fn one_new_screenshot(created: usize) -> (r: Result<(), N64Error>)
    ensures
        n64::gives(
            r,
            if created == 1 {
                Ok(())
            } else {
                n64::bad_state(
                    ("Mupen64Plus screenshot completed but produced "@ + text::decimal(
                        created as int,
                    )) + " new PNG files"@,
                )
            },
        ),
{
    if created == 1 {
        return Ok(());
    }
    let m = text::join(
        "Mupen64Plus screenshot completed but produced ",
        text::decimal_of(created as u64).as_str(),
    );
    Err(N64Error::BadState(text::join(m.as_str(), " new PNG files")))
}

/// The path that a request names.
pub fn requested_path<'a>(params: &'a Json, key: &str) -> (r: Result<&'a str, N64Error>)
    ensures
        match (r, params@.text_field(key@)) {
            (Ok(path), Some(s)) => path@ == s && s.len() > 0,
            (Err(e), Some(s)) => s.len() == 0 && e@ == N64ErrorView::BadParams(
                "missing or invalid param: "@ + key@,
            ),
            (Err(e), None) => e@ == N64ErrorView::BadParams("missing or invalid param: "@ + key@),
            (Ok(_), None) => false,
        },
{
    if let Some(path) = params.get_str(key) {
        if !path.is_empty() {
            return Ok(path);
        }
    }
    Err(N64Error::BadParams(text::join("missing or invalid param: ", key)))
}

/// The name of the file that a save state is first written to, beside its destination.
pub fn partial_name(name: &str, process: u64, nanos: u64) -> (r: String)
    ensures
        r@ == (((("."@ + name@) + ".partial."@) + text::decimal(process as int)) + "."@)
            + text::decimal(nanos as int),
{
    let m = text::join(".", name);
    let m = text::join(m.as_str(), ".partial.");
    let m = text::join(m.as_str(), text::decimal_of(process).as_str());
    let m = text::join(m.as_str(), ".");
    text::join(m.as_str(), text::decimal_of(nanos).as_str())
}

/// The report of a saved state.
pub open spec fn saved_view(
    path: Seq<char>,
    data: Seq<u8>,
    frame_before: u64,
    stepped: JsonView,
) -> JsonView {
    JsonView::object().with("status"@, JsonView::Str("completed"@)).with(
        "path"@,
        JsonView::Str(path),
    ).with("format"@, JsonView::Str("mupen64plus-native"@)).with(
        "bytes"@,
        JsonView::Unsigned(data.len() as u64),
    ).with("sha256"@, JsonView::Str(encoding::hex_text(encoding::sha256_of(data)))).with(
        "state"@,
        JsonView::Str("frozen"@),
    ).with("frame_before"@, JsonView::Unsigned(frame_before)).with("frame"@, stepped.at("frame"@))
}

/// Reports a saved state by the bytes of its file.
pub fn saved_report(path: &str, data: &[u8], frame_before: u64, stepped: &Json) -> (r: Json)
    ensures
        r@ == saved_view(path@, data@, frame_before, stepped@),
{
    let digest = encoding::sha256_digest(data);
    Json::object().with("status", Json::text("completed")).with("path", Json::text(path)).with(
        "format",
        Json::text("mupen64plus-native"),
    ).with("bytes", Json::Unsigned(data.len() as u64)).with(
        "sha256",
        Json::Str(encoding::hex_encode(digest.as_slice())),
    ).with("state", Json::text("frozen")).with("frame_before", Json::Unsigned(frame_before)).with(
        "frame",
        stepped.at("frame"),
    )
}

/// Refuses a saved state without bytes.
pub fn check_saved_length(length: u64) -> (r: Result<(), N64Error>)
    ensures
        n64::gives(
            r,
            if length == 0 {
                n64::bad_state("Mupen64Plus save completed with an empty state file"@)
            } else {
                Ok(())
            },
        ),
{
    if length == 0 {
        Err(
            N64Error::BadState("Mupen64Plus save completed with an empty state file".to_owned()),
        )
    } else {
        Ok(())
    }
}

/// Refuses to load a state that is not a file with bytes.
pub fn check_state_file(path: &str, is_file: bool, length: u64) -> (r: Result<(), N64Error>)
    ensures
        n64::gives(
            r,
            if !is_file || length == 0 {
                n64::bad_params("N64 save state not found or empty: "@ + path@)
            } else {
                Ok(())
            },
        ),
{
    if !is_file || length == 0 {
        Err(N64Error::BadParams(text::join("N64 save state not found or empty: ", path)))
    } else {
        Ok(())
    }
}

/// Reports a loaded state.
pub fn loaded_report(path: &str, frame_before: u64, stepped: &Json, pc: u32) -> (r: Json)
    ensures
        r@ == JsonView::object().with("status"@, JsonView::Str("completed"@)).with(
            "path"@,
            JsonView::Str(path@),
        ).with("format"@, JsonView::Str("mupen64plus-native"@)).with(
            "state"@,
            JsonView::Str("frozen"@),
        ).with("frame_before"@, JsonView::Unsigned(frame_before)).with(
            "frame"@,
            stepped@.at("frame"@),
        ).with("frame_counter_continuous"@, JsonView::Bool(false)).with(
            "pc"@,
            JsonView::Unsigned(pc as u64),
        ),
{
    Json::object().with("status", Json::text("completed")).with("path", Json::text(path)).with(
        "format",
        Json::text("mupen64plus-native"),
    ).with("state", Json::text("frozen")).with("frame_before", Json::Unsigned(frame_before)).with(
        "frame",
        stepped.at("frame"),
    ).with("frame_counter_continuous", Json::Bool(false)).with("pc", Json::Unsigned(pc as u64))
}

} // verus!
