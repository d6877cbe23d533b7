//! What a walk of the stack promises.

use vstd::prelude::*;
use crate::n64::stack;
use crate::n64::stack::StackFrameView;

verus! {

/// An instruction stores a return address exactly where it is a jump and link to a place or to a
/// register, or a branch and link.
pub proof fn linking_instructions_are_the_calls(word: u32)
    ensures
        stack::links(word) <==> {
            ||| word >> 26 == 3
            ||| word >> 26 == 0 && word & 0x3f == 9
            ||| word >> 26 == 1 && (word >> 16) & 0x1f >= 0x10 && (word >> 16) & 0x1f <= 0x13
        },
{
    assert(word / 0x400_0000 == word >> 26) by (bit_vector);
    assert(word % 64 == word & 0x3f) by (bit_vector);
    assert((word / 0x1_0000) % 32 == (word >> 16) & 0x1f) by (bit_vector);
}

/// The cached and the uncached alias of a place in memory lead to that place, and no other address
/// leads to any.
pub proof fn aliases_lead_to_their_place(offset: u32, address: u32)
    ensures
        offset < 0x80_0000 ==> stack::rdram_offset((0x8000_0000 + offset) as u32) == Some(offset),
        offset < 0x80_0000 ==> stack::rdram_offset((0xa000_0000 + offset) as u32) == Some(offset),
        stack::rdram_offset(address) matches Some(place) ==> place < 0x80_0000 && (address == place
            + 0x8000_0000 || address == place + 0xa000_0000),
{
}

/// The word that stands some words above the stack pointer, and where it stands.
pub open spec fn slot(sp: u32, k: int) -> u32 {
    (sp + 4 * k) as u32
}

/// Whether a word of the stack is one that the walk tells: it stands in memory, is a return address
/// behind a call, and is not the one that the register holds.
pub open spec fn is_told(memory: spec_fn(u32) -> u32, ra: u32, sp: u32, k: int) -> bool {
    let word = memory(slot(sp, k));
    &&& sp % 4 == 0 && sp + 4 * k <= 0xffff_ffff
    &&& stack::rdram_offset(slot(sp, k)) is Some
    &&& word != ra
    &&& word % 4 == 0 && word >= 8
    &&& stack::rdram_offset((word - 8) as u32) is Some
    &&& stack::links(memory((word - 8) as u32))
}

/// The frame of a word of the stack.
pub open spec fn frame_at(memory: spec_fn(u32) -> u32, sp: u32, k: int) -> StackFrameView {
    StackFrameView {
        pc: memory(slot(sp, k)),
        kind: "stack"@,
        stack_address: Some(slot(sp, k)),
    }
}

proof fn words_are_told(memory: spec_fn(u32) -> u32, ra: u32, sp: u32, n: nat)
    ensures
        forall|k: int|
            0 <= k < n && #[trigger] is_told(memory, ra, sp, k) ==> stack::stack_frames(
                memory,
                ra,
                sp,
                n,
            ).contains(frame_at(memory, sp, k)),
        forall|i: int|
            0 <= i < stack::stack_frames(memory, ra, sp, n).len() ==> exists|k: int|
                0 <= k < n && #[trigger] is_told(memory, ra, sp, k) && (
                #[trigger] stack::stack_frames(memory, ra, sp, n)[i]) == frame_at(memory, sp, k),
    decreases n,
{
    if n > 0 {
        let before = stack::stack_frames(memory, ra, sp, (n - 1) as nat);
        let frames = stack::stack_frames(memory, ra, sp, n);
        words_are_told(memory, ra, sp, (n - 1) as nat);
        let last = frame_at(memory, sp, n - 1);
        assert(frames == if is_told(memory, ra, sp, n - 1) {
            before.push(last)
        } else {
            before
        });
        assert forall|k: int| 0 <= k < n && #[trigger] is_told(
            memory,
            ra,
            sp,
            k,
        ) implies frames.contains(frame_at(memory, sp, k)) by {
            if k < n - 1 {
                let i = choose|i: int|
                    0 <= i < before.len() && before[i] == frame_at(memory, sp, k);
                assert(frames[i] == before[i]);
            } else {
                assert(frames[frames.len() - 1] == last);
            }
        }
        assert forall|i: int| 0 <= i < frames.len() implies exists|k: int|
            0 <= k < n && #[trigger] is_told(memory, ra, sp, k) && (#[trigger] frames[i])
                == frame_at(memory, sp, k) by {
            if i < before.len() {
                assert(frames[i] == before[i]);
                let k = choose|k: int|
                    0 <= k < n - 1 && #[trigger] is_told(memory, ra, sp, k) && before[i]
                        == frame_at(memory, sp, k);
                assert(is_told(memory, ra, sp, k));
            } else {
                assert(is_told(memory, ra, sp, n - 1));
            }
        }
    }
}

proof fn words_are_told_in_order(memory: spec_fn(u32) -> u32, ra: u32, sp: u32, n: nat)
    ensures
        ({
            let frames = stack::stack_frames(memory, ra, sp, n);
            &&& forall|i: int|
                0 <= i < frames.len() ==> ((#[trigger] frames[i]).stack_address matches Some(a) && a
                    < sp + 4 * n)
            &&& forall|i: int, j: int|
                0 <= i < j < frames.len() ==> (#[trigger] frames[i]).stack_address->0 < (
                #[trigger] frames[j]).stack_address->0
        }),
    decreases n,
{
    if n > 0 {
        words_are_told_in_order(memory, ra, sp, (n - 1) as nat);
        let before = stack::stack_frames(memory, ra, sp, (n - 1) as nat);
        let frames = stack::stack_frames(memory, ra, sp, n);
        assert forall|i: int| 0 <= i < frames.len() implies ((
        #[trigger] frames[i]).stack_address matches Some(a) && a < sp + 4 * n) by {
            if i < before.len() {
                assert(frames[i] == before[i]);
            }
        }
        assert forall|i: int, j: int| 0 <= i < j < frames.len() implies (
        #[trigger] frames[i]).stack_address->0 < (#[trigger] frames[j]).stack_address->0 by {
            assert(frames[i] == before[i]);
            if j < before.len() {
                assert(frames[j] == before[j]);
            }
        }
    }
}

/// A walk tells the running code first, then the return address of the register where a call stands
/// before it, and then exactly the return addresses among the words above the stack pointer, from the
/// lowest word to the highest.
pub proof fn walks_tell_the_return_addresses(
    memory: spec_fn(u32) -> u32,
    pc: u32,
    ra: u32,
    sp: u32,
    k: int,
    i: int,
    j: int,
)
    ensures
        ({
            let frames = stack::call_stack(memory, pc, ra, sp);
            let from_register = ra % 4 == 0 && ra >= 8 && stack::rdram_offset((ra - 8) as u32) is Some
                && stack::links(memory((ra - 8) as u32));
            let first: int = if from_register {
                2
            } else {
                1
            };
            &&& frames.len() >= first
            &&& frames[0].pc == pc && frames[0].kind == "pc"@
            &&& from_register ==> frames[1].pc == ra && frames[1].kind == "ra"@
            &&& 0 <= k < 1024 && is_told(memory, ra, sp, k) ==> frames.skip(first).contains(
                frame_at(memory, sp, k),
            )
            &&& first <= i < frames.len() ==> exists|k: int|
                0 <= k < 1024 && #[trigger] is_told(memory, ra, sp, k) && frames[i] == frame_at(
                    memory,
                    sp,
                    k,
                )
            &&& first <= i < j < frames.len() ==> frames[i].stack_address->0
                < frames[j].stack_address->0
        }),
{
    let n: nat = 1024;
    let told = stack::stack_frames(memory, ra, sp, n);
    let frames = stack::call_stack(memory, pc, ra, sp);
    words_are_told(memory, ra, sp, n);
    words_are_told_in_order(memory, ra, sp, n);
    let first = frames.len() - told.len();
    assert(frames.skip(first) =~= told);
    if first <= i < frames.len() {
        assert(frames[i] == told[i - first]);
    }
    if first <= i < j < frames.len() {
        assert(frames[j] == told[j - first]);
    }
}

} // verus!
