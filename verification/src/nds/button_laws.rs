//! What button masks, run states and call stacks promise.

use vstd::prelude::*;
use crate::gdb::GdbTransport;
use crate::json;
use crate::json::JsonView;
use crate::nds::bridge::{Cores, NdsBridge, Wires};
use crate::nds::decode;
use crate::nds::memory;
use crate::nds::service;
use crate::nds::service::Operation;
use crate::nds::{CpuId, NdsErrorView};

verus! {

proof fn button_names_differ()
    ensures
        "a"@ != "b"@,
        "a"@ != "select"@,
        "a"@ != "start"@,
        "a"@ != "right"@,
        "a"@ != "left"@,
        "a"@ != "up"@,
        "a"@ != "down"@,
        "a"@ != "r"@,
        "a"@ != "l"@,
        "a"@ != "x"@,
        "a"@ != "y"@,
        "b"@ != "select"@,
        "b"@ != "start"@,
        "b"@ != "right"@,
        "b"@ != "left"@,
        "b"@ != "up"@,
        "b"@ != "down"@,
        "b"@ != "r"@,
        "b"@ != "l"@,
        "b"@ != "x"@,
        "b"@ != "y"@,
        "select"@ != "start"@,
        "select"@ != "right"@,
        "select"@ != "left"@,
        "select"@ != "up"@,
        "select"@ != "down"@,
        "select"@ != "r"@,
        "select"@ != "l"@,
        "select"@ != "x"@,
        "select"@ != "y"@,
        "start"@ != "right"@,
        "start"@ != "left"@,
        "start"@ != "up"@,
        "start"@ != "down"@,
        "start"@ != "r"@,
        "start"@ != "l"@,
        "start"@ != "x"@,
        "start"@ != "y"@,
        "right"@ != "left"@,
        "right"@ != "up"@,
        "right"@ != "down"@,
        "right"@ != "r"@,
        "right"@ != "l"@,
        "right"@ != "x"@,
        "right"@ != "y"@,
        "left"@ != "up"@,
        "left"@ != "down"@,
        "left"@ != "r"@,
        "left"@ != "l"@,
        "left"@ != "x"@,
        "left"@ != "y"@,
        "up"@ != "down"@,
        "up"@ != "r"@,
        "up"@ != "l"@,
        "up"@ != "x"@,
        "up"@ != "y"@,
        "down"@ != "r"@,
        "down"@ != "l"@,
        "down"@ != "x"@,
        "down"@ != "y"@,
        "r"@ != "l"@,
        "r"@ != "x"@,
        "r"@ != "y"@,
        "l"@ != "x"@,
        "l"@ != "y"@,
        "x"@ != "y"@,
{
    reveal_strlit("a");
    reveal_strlit("b");
    reveal_strlit("select");
    reveal_strlit("start");
    reveal_strlit("right");
    reveal_strlit("left");
    reveal_strlit("up");
    reveal_strlit("down");
    reveal_strlit("r");
    reveal_strlit("l");
    reveal_strlit("x");
    reveal_strlit("y");
    assert("a"@.len() == 1);
    assert("b"@.len() == 1);
    assert("select"@.len() == 6);
    assert("start"@.len() == 5);
    assert("right"@.len() == 5);
    assert("left"@.len() == 4);
    assert("up"@.len() == 2);
    assert("down"@.len() == 4);
    assert("r"@.len() == 1);
    assert("l"@.len() == 1);
    assert("x"@.len() == 1);
    assert("y"@.len() == 1);
    assert("a"@[0] == 'a');
    assert("b"@[0] == 'b');
    assert("start"@[0] == 's');
    assert("right"@[0] == 'r');
    assert("left"@[0] == 'l');
    assert("down"@[0] == 'd');
    assert("r"@[0] == 'r');
    assert("l"@[0] == 'l');
    assert("x"@[0] == 'x');
    assert("y"@[0] == 'y');
}

proof fn core_names_differ()
    ensures
        "arm9"@ != "arm7"@,
        "arm9"@ != "both"@,
        "arm9"@ != "all"@,
        "arm7"@ != "both"@,
        "arm7"@ != "all"@,
        "both"@ != "all"@,
{
    reveal_strlit("arm9");
    reveal_strlit("arm7");
    reveal_strlit("both");
    reveal_strlit("all");
    assert("arm9"@.len() == 4);
    assert("arm7"@.len() == 4);
    assert("both"@.len() == 4);
    assert("all"@.len() == 3);
    assert("arm9"@[0] == 'a');
    assert("arm9"@[3] == '9');
    assert("arm7"@[0] == 'a');
    assert("arm7"@[3] == '7');
    assert("both"@[0] == 'b');
}

proof fn frame_words_differ()
    ensures
        "pc"@ != "kind"@,
        "pc"@ != "in_code_region"@,
        "kind"@ != "in_code_region"@,
{
    reveal_strlit("pc");
    reveal_strlit("kind");
    reveal_strlit("in_code_region");
    assert("pc"@.len() == 2);
    assert("kind"@.len() == 4);
    assert("in_code_region"@.len() == 14);
}

/// The buttons in the order of their bits in the key register, from the lowest on.
pub open spec fn buttons_in_order() -> Seq<Seq<char>> {
    seq![
        "a"@,
        "b"@,
        "select"@,
        "start"@,
        "right"@,
        "left"@,
        "up"@,
        "down"@,
        "r"@,
        "l"@,
        "x"@,
        "y"@,
    ]
}

/// The number of which one bit is set.
pub open spec fn bit(i: int) -> u16
    decreases i,
{
    if i <= 0 {
        1
    } else {
        (2 * bit(i - 1)) as u16
    }
}

/// Whether an entry of a list is the name of a button.
pub open spec fn names(entry: JsonView, button: Seq<char>) -> bool {
    decode::usual_name(decode::entry_name(entry)) == button
}

/// Whether some entry of a list is the name of a button.
pub open spec fn are_named(entries: Seq<JsonView>, button: Seq<char>) -> bool {
    exists|k: int| 0 <= k < entries.len() && names(#[trigger] entries[k], button)
}

/// Whether a number is one of the bits of the buttons.
spec fn is_bit(b: u16) -> bool {
    b == 1 || b == 2 || b == 4 || b == 8 || b == 16 || b == 32 || b == 64 || b == 128 || b == 256
        || b == 512 || b == 1024 || b == 2048
}

proof fn bits_of_buttons(i: int)
    requires
        0 <= i < 12,
    ensures
        decode::button_bit(buttons_in_order()[i]) == Some(bit(i)),
        is_bit(bit(i)),
{
    button_names_differ();
    reveal_with_fuel(bit, 12);
}

proof fn named_bits(name: Seq<char>)
    ensures
        decode::button_bit(name) matches Some(b) ==> is_bit(b) && exists|i: int|
            0 <= i < 12 && name == #[trigger] buttons_in_order()[i] && b == bit(i),
{
    if decode::button_bit(name) is Some {
        assert forall|i: int| 0 <= i < 12 implies decode::button_bit(
            #[trigger] buttons_in_order()[i],
        ) == Some(bit(i)) by {
            bits_of_buttons(i);
        }
        let order = buttons_in_order();
        assert(name == order[0] || name == order[1] || name == order[2] || name == order[3] || name == order[4] || name == order[5] || name == order[6] || name == order[7] || name == order[8] || name == order[9] || name == order[10] || name == order[11]);
    }
}

proof fn bits_are_apart(m: u16, b: u16, k: u16)
    requires
        is_bit(b),
        is_bit(k),
    ensures
        ((m | b) & k != 0) == (m & k != 0 || b == k),
        (0u16 & k) == 0,
{
    assert(((m | b) & k != 0) == (m & k != 0 || b == k)) by (bit_vector)
        requires
            b == 1 || b == 2 || b == 4 || b == 8 || b == 16 || b == 32 || b == 64 || b == 128 || b
                == 256 || b == 512 || b == 1024 || b == 2048,
            k == 1 || k == 2 || k == 4 || k == 8 || k == 16 || k == 32 || k == 64 || k == 128 || k
                == 256 || k == 512 || k == 1024 || k == 2048,
    ;
    assert((0u16 & k) == 0) by (bit_vector);
}

proof fn buttons_are_apart(i: int, j: int)
    requires
        0 <= i < 12,
        0 <= j < 12,
    ensures
        bit(i) == bit(j) <==> i == j,
        buttons_in_order()[i] == buttons_in_order()[j] <==> i == j,
{
    button_names_differ();
    reveal_with_fuel(bit, 12);
}

/// The mask of a list has the bit of a button set exactly where some entry names that button. The list
/// is told by the usual names of its entries, and is refused where an entry names no button.
pub proof fn masks_hold_the_named_buttons(entries: Seq<JsonView>)
    ensures
        match decode::held_entries(entries) {
            Ok(held) => {
                &&& forall|i: int|
                    0 <= i < 12 ==> ((held.mask & #[trigger] bit(i)) != 0) == are_named(
                        entries,
                        buttons_in_order()[i],
                    )
                &&& held.names.len() == entries.len()
                &&& forall|k: int|
                    0 <= k < entries.len() ==> names(entries[k], #[trigger] held.names[k])
                        && buttons_in_order().contains(held.names[k])
            },
            Err(_) => exists|k: int|
                0 <= k < entries.len() && forall|i: int|
                    0 <= i < 12 ==> !names(#[trigger] entries[k], #[trigger] buttons_in_order()[i]),
        },
    decreases entries.len(),
{
    let order = buttons_in_order();
    if entries.len() == 0 {
        assert forall|i: int| 0 <= i < 12 implies ((0u16 & #[trigger] bit(i)) != 0) == are_named(
            entries,
            order[i],
        ) by {
            bits_of_buttons(i);
            bits_are_apart(0, bit(i), bit(i));
        }
    } else {
        let before = entries.drop_last();
        let last = entries.last();
        masks_hold_the_named_buttons(before);
        let name = decode::usual_name(decode::entry_name(last));
        named_bits(name);
        assert(last == entries[entries.len() - 1]);
        match (decode::held_entries(before), decode::button_bit(name)) {
            (Err(_), _) => {
                let k = choose|k: int|
                    0 <= k < before.len() && forall|i: int|
                        0 <= i < 12 ==> !names(#[trigger] before[k], #[trigger] order[i]);
                assert(entries[k] == before[k]);
                assert forall|i: int| 0 <= i < 12 implies !names(entries[k], #[trigger] order[i]) by {
                    assert(!names(before[k], order[i]));
                }
            },
            (Ok(held), None) => {
                let k = entries.len() - 1;
                assert forall|i: int| 0 <= i < 12 implies !names(entries[k], #[trigger] order[i]) by {
                    bits_of_buttons(i);
                }
            },
            (Ok(held), Some(b)) => {
                let after = decode::held_entries(entries)->Ok_0;
                let at = choose|i: int| 0 <= i < 12 && name == #[trigger] order[i] && b == bit(i);
                assert forall|i: int| 0 <= i < 12 implies ((after.mask & #[trigger] bit(i)) != 0)
                    == are_named(entries, order[i]) by {
                    bits_of_buttons(i);
                    bits_are_apart(held.mask, b, bit(i));
                    buttons_are_apart(i, at);
                    assert(((held.mask & bit(i)) != 0) == are_named(before, order[i]));
                    if are_named(before, order[i]) {
                        let k = choose|k: int|
                            0 <= k < before.len() && names(#[trigger] before[k], order[i]);
                        assert(names(entries[k], order[i]));
                    }
                    if i == at {
                        assert(names(entries[entries.len() - 1], order[i]));
                    } else if are_named(entries, order[i]) {
                        let k = choose|k: int|
                            0 <= k < entries.len() && names(#[trigger] entries[k], order[i]);
                        assert(k != entries.len() - 1);
                        assert(names(before[k], order[i]));
                    }
                }
                assert forall|k: int| 0 <= k < entries.len() implies names(
                    entries[k],
                    #[trigger] after.names[k],
                ) && order.contains(after.names[k]) by {
                    if k < before.len() {
                        assert(after.names[k] == held.names[k]);
                        assert(entries[k] == before[k]);
                    } else {
                        assert(order[at] == after.names[k]);
                    }
                }
            },
        }
    }
}

/// A pause that succeeds leaves every core frozen.
pub proof fn pauses_freeze_every_core<G: GdbTransport>(
    before: NdsBridge<G>,
    after: NdsBridge<G>,
    params: JsonView,
    r: Result<JsonView, NdsErrorView>,
)
    requires
        service::operation_does(before, after, Operation::Pause, params, r),
    ensures
        r is Ok ==> after.cores().nine.1.frozen && (after.cores().seven matches Some((_, c))
            ==> c.frozen),
{
}

/// A resume that succeeds leaves the cores running that it names: the ARM9 where it names none.
pub proof fn resumes_run_the_named_cores<G: GdbTransport>(
    before: NdsBridge<G>,
    after: NdsBridge<G>,
    params: JsonView,
    r: Result<JsonView, NdsErrorView>,
)
    requires
        service::operation_does(before, after, Operation::Resume, params, r),
    ensures
        r is Ok ==> match params.text_field("cpu"@) {
            None => !after.cores().nine.1.frozen,
            Some(name) => {
                &&& name == "arm9"@ || name == "arm7"@ || name == "both"@ || name == "all"@
                &&& name == "arm9"@ ==> !after.cores().nine.1.frozen
                &&& name == "arm7"@ ==> (after.cores().seven matches Some((_, c)) && !c.frozen)
                &&& name == "both"@ || name == "all"@ ==> !after.cores().nine.1.frozen && (
                after.cores().seven matches Some((_, c)) ==> !c.frozen)
            },
        },
{
    core_names_differ();
}

proof fn frames_are_told(pc: u64, kind: Seq<char>)
    ensures
        memory::frame_view(pc, kind).unsigned_field("pc"@) == Some(pc),
        memory::frame_view(pc, kind).text_field("kind"@) == Some(kind),
        memory::frame_view(pc, kind).truth_field("in_code_region"@) == Some(decode::in_code(pc)),
{
    broadcast use json::added_is_found;

    frame_words_differ();
}

/// Whether an address is one at which code may stand.
pub open spec fn may_be_code(address: int) -> bool {
    ||| 0x0100_0000 <= address <= 0x023f_ffff
    ||| 0x0300_0000 <= address <= 0x03ff_ffff
    ||| 0xffff_0000 <= address <= 0xffff_7fff
}

/// Following the frame pointers keeps the frames that are known, and adds behind them no more than
/// are left, each a return address in code.
pub proof fn chains_add_return_addresses(
    w: Wires,
    s: Cores,
    id: CpuId,
    fp: u64,
    sp: u64,
    depth: nat,
    frames: Seq<JsonView>,
)
    ensures
        memory::chain_on(w, s, id, fp, sp, depth, frames) matches Some((_, all)) ==> {
            &&& frames.len() <= all.len()
            &&& depth <= 64 ==> all.len() + depth <= frames.len() + 64
            &&& forall|i: int| 0 <= i < frames.len() ==> #[trigger] all[i] == frames[i]
            &&& forall|i: int|
                frames.len() <= i < all.len() ==> (#[trigger] all[i]).text_field("kind"@) == Some(
                    "fp-walk"@,
                ) && (all[i].unsigned_field("pc"@) matches Some(pc) && may_be_code(pc as int))
        },
    decreases 64 - depth,
{
    if depth < 64 && decode::in_ram(fp) && !(sp != 0 && fp < sp) {
        if let Some((t, Some((lr, next)))) = memory::links_on(w, s, id, fp) {
            frames_are_told(lr, "fp-walk"@);
            let more = frames.push(memory::frame_view(lr, "fp-walk"@));
            if decode::in_code(lr) && next > fp && decode::in_ram(next) {
                chains_add_return_addresses(w, t, id, next, sp, depth + 1, more);
                if let Some((_, all)) = memory::chain_on(w, s, id, fp, sp, depth, frames) {
                    assert(all[frames.len() as int] == more[frames.len() as int]);
                    assert forall|i: int| 0 <= i < frames.len() implies #[trigger] all[i]
                        == frames[i] by {
                        assert(all[i] == more[i]);
                    }
                }
            }
        }
    }
}

/// A call stack begins with the program counter, and with the link register where that is set.
pub proof fn stacks_begin_with_the_registers(state: JsonView, pc: u64, lr: u64)
    requires
        state.unsigned_field("cpu.pc"@) == Some(pc),
        state.unsigned_field("cpu.lr"@) == Some(lr),
    ensures
        ({
            let frames = memory::first_frames(state);
            &&& frames.len() == if lr == 0 {
                1int
            } else {
                2
            }
            &&& frames[0].unsigned_field("pc"@) == Some(pc)
            &&& frames[0].text_field("kind"@) == Some("pc"@)
            &&& lr != 0 ==> frames[1].unsigned_field("pc"@) == Some(lr)
            &&& lr != 0 ==> frames[1].text_field("kind"@) == Some("lr"@)
            &&& forall|i: int|
                0 <= i < frames.len() ==> (#[trigger] frames[i].truth_field("in_code_region"@)
                    == Some(may_be_code(frames[i].unsigned_field("pc"@)->0 as int)))
        }),
{
    frames_are_told(pc, "pc"@);
    frames_are_told(lr, "lr"@);
}

} // verus!
