//! What probes promise of the ranges they read and of what the adapter answers.

use vstd::prelude::*;
use crate::encoding;
use crate::json;
use crate::json::JsonView;
use crate::live::link;
use crate::live::link::{LinkStep, OffersView};
use crate::live::probe;

verus! {

/// Whether a region is the first of its kind of memory.
pub open spec fn is_first_of(regions: Seq<(Seq<char>, u64)>, i: int, memory_type: Seq<char>) -> bool {
    &&& 0 <= i < regions.len()
    &&& regions[i].0 == memory_type
    &&& forall|j: int| 0 <= j < i ==> (#[trigger] regions[j]).0 != memory_type
}

proof fn sizes_are_those_of_the_first(regions: Seq<(Seq<char>, u64)>, memory_type: Seq<char>)
    ensures
        match probe::known_size(regions, memory_type) {
            Some(size) => exists|i: int|
                #[trigger] is_first_of(regions, i, memory_type) && regions[i].1 == size,
            None => forall|i: int|
                0 <= i < regions.len() ==> (#[trigger] regions[i]).0 != memory_type,
        },
    decreases regions.len(),
{
    if regions.len() > 0 {
        if regions[0].0 == memory_type {
            assert(is_first_of(regions, 0, memory_type));
        } else {
            let rest = regions.drop_first();
            sizes_are_those_of_the_first(rest, memory_type);
            if probe::known_size(rest, memory_type) is Some {
                let i = choose|i: int|
                    #[trigger] is_first_of(rest, i, memory_type) && Some(rest[i].1)
                        == probe::known_size(rest, memory_type);
                assert forall|j: int| 0 <= j < i + 1 implies (#[trigger] regions[j]).0
                    != memory_type by {
                    if j > 0 {
                        assert(rest[j - 1] == regions[j]);
                    }
                }
                assert(is_first_of(regions, i + 1, memory_type));
            } else {
                assert forall|i: int| 0 <= i < regions.len() implies (#[trigger] regions[i]).0
                    != memory_type by {
                    if i > 0 {
                        assert(rest[i - 1] == regions[i]);
                    }
                }
            }
        }
    }
}

/// A probe reads a range exactly where it is not empty, its memory is offered, and it ends within the
/// first region of that memory; a memory without a region of a known size is read anywhere.
pub proof fn probes_stay_in_their_memory(
    offers: OffersView,
    memory_type: Seq<char>,
    address: u64,
    length: u64,
)
    ensures
        probe::span_check(offers, memory_type, address, length) is Ok <==> {
            &&& memory_type.len() > 0
            &&& length > 0
            &&& address + length <= u64::MAX
            &&& offers.memory_types.len() == 0 || offers.memory_types.contains(memory_type)
            &&& forall|i: int| #[trigger]
                is_first_of(offers.regions, i, memory_type) ==> address + length
                    <= offers.regions[i].1
        },
{
    sizes_are_those_of_the_first(offers.regions, memory_type);
    if let Some(size) = probe::known_size(offers.regions, memory_type) {
        let k = choose|i: int|
            #[trigger] is_first_of(offers.regions, i, memory_type) && offers.regions[i].1 == size;
        assert forall|i: int| #[trigger] is_first_of(offers.regions, i, memory_type) implies i == k by {
            if i < k {
                assert(offers.regions[i].0 != memory_type);
            } else if k < i {
                assert(offers.regions[k].0 != memory_type);
            }
        }
    }
}

proof fn status_words_differ()
    ensures
        "completed"@ != "interrupted"@,
        "state"@ != "status"@,
        "state"@ != "requested_frames"@,
        "state"@ != "completed_frames"@,
        "state"@ != "hex"@,
{
    reveal_strlit("completed");
    reveal_strlit("interrupted");
    reveal_strlit("state");
    reveal_strlit("status");
    reveal_strlit("requested_frames");
    reveal_strlit("completed_frames");
    reveal_strlit("hex");
    assert("completed"@.len() == 9);
    assert("interrupted"@.len() == 11);
    assert("state"@.len() == 5);
    assert("status"@.len() == 6);
    assert("requested_frames"@.len() == 16);
    assert("completed_frames"@.len() == 16);
    assert("hex"@.len() == 3);
}

/// A native probe that succeeds asked the adapter once, with the parameters it was given, and tells the
/// adapter's own reply: completed, with all the frames and as many bytes as asked for, or interrupted,
/// with no more frames than asked for and no other number of bytes.
pub proof fn native_probes_tell_the_reply(
    h: Seq<LinkStep>,
    n: int,
    params: JsonView,
    frame: u64,
    length: u64,
)
    ensures
        probe::native_run(h, n, params, frame, length) matches Some((m, Ok(report))) ==> {
            &&& n < m
            &&& link::is_call(h, n, "probe"@, params)
            &&& link::reply_at(h, n) matches Ok(reply) && {
                &&& reply.text_field("status"@) == Some("completed"@) || reply.text_field("status"@)
                    == Some("interrupted"@)
                &&& reply.text_field("status"@) == Some("completed"@) ==> {
                    &&& reply.unsigned_field("requested_frames"@) == Some(frame)
                    &&& reply.unsigned_field("completed_frames"@) == Some(frame)
                    &&& reply.text_field("hex"@) is Some
                }
                &&& reply.unsigned_field("requested_frames"@) matches Some(asked) ==> asked == frame
                &&& reply.unsigned_field("completed_frames"@) matches Some(done) ==> done <= frame
                &&& reply.text_field("hex"@) matches Some(hex) ==> (encoding::hex_bytes(
                    hex,
                ) matches Some(bytes) && bytes.len() == length)
                &&& report.text_field("status"@) == reply.text_field("status"@)
                &&& report.text_field("hex"@) == reply.text_field("hex"@)
                &&& report.unsigned_field("completed_frames"@) == reply.unsigned_field(
                    "completed_frames"@,
                )
                &&& report.text_field("state"@) == Some("frozen"@)
            }
        },
{
    status_words_differ();
    if let Ok(reply) = link::reply_at(h, n) {
        if reply is Object {
            let state = JsonView::Str("frozen"@);
            json::put_is_found(reply, "state"@, state, "status"@);
            json::put_is_found(reply, "state"@, state, "hex"@);
            json::put_is_found(reply, "state"@, state, "completed_frames"@);
            json::put_is_found(reply, "state"@, state, "state"@);
        }
    }
}

} // verus!
