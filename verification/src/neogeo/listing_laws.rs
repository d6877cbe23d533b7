//! What disassemblies, save states and call stacks promise, told by the packets that were sent and by
//! what the machine answered.

use vstd::prelude::*;
use crate::gdb::{GdbBridgeEnv, GdbStep};
use crate::json;
use crate::json::JsonView;
use crate::neogeo::files;
use crate::neogeo::files::StateVerb;
use crate::neogeo::laws;
use crate::neogeo::machine::MachineView;
use crate::neogeo::packets;
use crate::neogeo::service;
use crate::neogeo::service::Operation;
use crate::neogeo::stack;
use crate::text;

verus! {

proof fn row_words_differ()
    ensures
        "addr"@ != "bytes"@,
        "addr"@ != "length"@,
        "addr"@ != "text"@,
        "bytes"@ != "length"@,
        "bytes"@ != "text"@,
        "length"@ != "text"@,
{
    reveal_strlit("addr");
    reveal_strlit("bytes");
    reveal_strlit("length");
    reveal_strlit("text");
    assert("addr"@.len() == 4);
    assert("bytes"@.len() == 5);
    assert("length"@.len() == 6);
    assert("text"@.len() == 4);
    assert("addr"@[0] == 'a');
    assert("text"@[0] == 't');
}

proof fn stack_words_differ()
    ensures
        "pc"@ != "sp"@,
        "pc"@ != "kind"@,
        "pc"@ != "target"@,
        "pc"@ != "return_address"@,
        "pc"@ != "return_stack_pointer"@,
        "pc"@ != "frames"@,
        "pc"@ != "depth"@,
        "pc"@ != "cpu"@,
        "pc"@ != "order"@,
        "pc"@ != "method"@,
        "pc"@ != "authority"@,
        "pc"@ != "complete_since_reset"@,
        "pc"@ != "native_depth"@,
        "pc"@ != "dropped"@,
        "pc"@ != "truncated"@,
        "pc"@ != "max_depth"@,
        "sp"@ != "kind"@,
        "sp"@ != "target"@,
        "sp"@ != "return_address"@,
        "sp"@ != "return_stack_pointer"@,
        "sp"@ != "frames"@,
        "sp"@ != "depth"@,
        "sp"@ != "cpu"@,
        "sp"@ != "order"@,
        "sp"@ != "method"@,
        "sp"@ != "authority"@,
        "sp"@ != "complete_since_reset"@,
        "sp"@ != "native_depth"@,
        "sp"@ != "dropped"@,
        "sp"@ != "truncated"@,
        "sp"@ != "max_depth"@,
        "kind"@ != "target"@,
        "kind"@ != "return_address"@,
        "kind"@ != "return_stack_pointer"@,
        "kind"@ != "frames"@,
        "kind"@ != "depth"@,
        "kind"@ != "cpu"@,
        "kind"@ != "order"@,
        "kind"@ != "method"@,
        "kind"@ != "authority"@,
        "kind"@ != "complete_since_reset"@,
        "kind"@ != "native_depth"@,
        "kind"@ != "dropped"@,
        "kind"@ != "truncated"@,
        "kind"@ != "max_depth"@,
        "target"@ != "return_address"@,
        "target"@ != "return_stack_pointer"@,
        "target"@ != "frames"@,
        "target"@ != "depth"@,
        "target"@ != "cpu"@,
        "target"@ != "order"@,
        "target"@ != "method"@,
        "target"@ != "authority"@,
        "target"@ != "complete_since_reset"@,
        "target"@ != "native_depth"@,
        "target"@ != "dropped"@,
        "target"@ != "truncated"@,
        "target"@ != "max_depth"@,
        "return_address"@ != "return_stack_pointer"@,
        "return_address"@ != "frames"@,
        "return_address"@ != "depth"@,
        "return_address"@ != "cpu"@,
        "return_address"@ != "order"@,
        "return_address"@ != "method"@,
        "return_address"@ != "authority"@,
        "return_address"@ != "complete_since_reset"@,
        "return_address"@ != "native_depth"@,
        "return_address"@ != "dropped"@,
        "return_address"@ != "truncated"@,
        "return_address"@ != "max_depth"@,
        "return_stack_pointer"@ != "frames"@,
        "return_stack_pointer"@ != "depth"@,
        "return_stack_pointer"@ != "cpu"@,
        "return_stack_pointer"@ != "order"@,
        "return_stack_pointer"@ != "method"@,
        "return_stack_pointer"@ != "authority"@,
        "return_stack_pointer"@ != "complete_since_reset"@,
        "return_stack_pointer"@ != "native_depth"@,
        "return_stack_pointer"@ != "dropped"@,
        "return_stack_pointer"@ != "truncated"@,
        "return_stack_pointer"@ != "max_depth"@,
        "frames"@ != "depth"@,
        "frames"@ != "cpu"@,
        "frames"@ != "order"@,
        "frames"@ != "method"@,
        "frames"@ != "authority"@,
        "frames"@ != "complete_since_reset"@,
        "frames"@ != "native_depth"@,
        "frames"@ != "dropped"@,
        "frames"@ != "truncated"@,
        "frames"@ != "max_depth"@,
        "depth"@ != "cpu"@,
        "depth"@ != "order"@,
        "depth"@ != "method"@,
        "depth"@ != "authority"@,
        "depth"@ != "complete_since_reset"@,
        "depth"@ != "native_depth"@,
        "depth"@ != "dropped"@,
        "depth"@ != "truncated"@,
        "depth"@ != "max_depth"@,
        "cpu"@ != "order"@,
        "cpu"@ != "method"@,
        "cpu"@ != "authority"@,
        "cpu"@ != "complete_since_reset"@,
        "cpu"@ != "native_depth"@,
        "cpu"@ != "dropped"@,
        "cpu"@ != "truncated"@,
        "cpu"@ != "max_depth"@,
        "order"@ != "method"@,
        "order"@ != "authority"@,
        "order"@ != "complete_since_reset"@,
        "order"@ != "native_depth"@,
        "order"@ != "dropped"@,
        "order"@ != "truncated"@,
        "order"@ != "max_depth"@,
        "method"@ != "authority"@,
        "method"@ != "complete_since_reset"@,
        "method"@ != "native_depth"@,
        "method"@ != "dropped"@,
        "method"@ != "truncated"@,
        "method"@ != "max_depth"@,
        "authority"@ != "complete_since_reset"@,
        "authority"@ != "native_depth"@,
        "authority"@ != "dropped"@,
        "authority"@ != "truncated"@,
        "authority"@ != "max_depth"@,
        "complete_since_reset"@ != "native_depth"@,
        "complete_since_reset"@ != "dropped"@,
        "complete_since_reset"@ != "truncated"@,
        "complete_since_reset"@ != "max_depth"@,
        "native_depth"@ != "dropped"@,
        "native_depth"@ != "truncated"@,
        "native_depth"@ != "max_depth"@,
        "dropped"@ != "truncated"@,
        "dropped"@ != "max_depth"@,
        "truncated"@ != "max_depth"@,
{
    reveal_strlit("pc");
    reveal_strlit("sp");
    reveal_strlit("kind");
    reveal_strlit("target");
    reveal_strlit("return_address");
    reveal_strlit("return_stack_pointer");
    reveal_strlit("frames");
    reveal_strlit("depth");
    reveal_strlit("cpu");
    reveal_strlit("order");
    reveal_strlit("method");
    reveal_strlit("authority");
    reveal_strlit("complete_since_reset");
    reveal_strlit("native_depth");
    reveal_strlit("dropped");
    reveal_strlit("truncated");
    reveal_strlit("max_depth");
    assert("pc"@.len() == 2);
    assert("sp"@.len() == 2);
    assert("kind"@.len() == 4);
    assert("target"@.len() == 6);
    assert("return_address"@.len() == 14);
    assert("return_stack_pointer"@.len() == 20);
    assert("frames"@.len() == 6);
    assert("depth"@.len() == 5);
    assert("cpu"@.len() == 3);
    assert("order"@.len() == 5);
    assert("method"@.len() == 6);
    assert("authority"@.len() == 9);
    assert("complete_since_reset"@.len() == 20);
    assert("native_depth"@.len() == 12);
    assert("dropped"@.len() == 7);
    assert("truncated"@.len() == 9);
    assert("max_depth"@.len() == 9);
    assert("pc"@[0] == 'p');
    assert("sp"@[0] == 's');
    assert("target"@[0] == 't');
    assert("return_stack_pointer"@[0] == 'r');
    assert("frames"@[0] == 'f');
    assert("depth"@[0] == 'd');
    assert("order"@[0] == 'o');
    assert("method"@[0] == 'm');
    assert("authority"@[0] == 'a');
    assert("complete_since_reset"@[0] == 'c');
    assert("truncated"@[0] == 't');
    assert("max_depth"@[0] == 'm');
}

/// A disassembly is accepted exactly where its address is one of the program space and it asks for one
/// to sixty-four instructions, and it is of that address and as many; eight where it tells no number.
pub proof fn disassemblies_stand_where_asked_for(params: JsonView, address: u64, asked: u64)
    requires
        params.unsigned_field("address"@) == Some(address),
        params.unsigned_field("count"@) == Some(asked) || (params.field("count"@) is None && asked
            == 8),
    ensures
        files::listing_request(params) is Ok <==> address <= 0xff_ffff && 1 <= asked <= 64,
        files::listing_request(params) matches Ok((at, count)) ==> at == address && count == asked,
{
}

/// A listing that the machine wrote was asked for once, to be written to its path, from its address on
/// and over the longest instructions that many, but sixteen bytes at least.
pub proof fn listings_cover_their_instructions(
    h: Seq<GdbStep>,
    n: int,
    s: MachineView,
    path: Seq<char>,
    address: u64,
    count: u64,
)
    ensures
        files::listing_run(h, n, s, path, address, count) matches Some((m, t, r)) ==> {
            &&& t == s
            &&& m == n + 1
            &&& r is Ok ==> exists|bytes: nat|
                {
                    &&& bytes >= 12 * count && bytes >= 16 && (bytes == 12 * count || bytes == 16)
                    &&& #[trigger] laws::answered(
                        h[n],
                        laws::command(
                            "dasm"@,
                            (((path + "|"@) + text::hexadecimal(address as nat)) + "|"@)
                                + text::hexadecimal(bytes),
                        ),
                        "OK"@,
                    )
                }
        },
{
    let most: nat = if 12 * count >= 16 {
        (12 * count) as nat
    } else {
        16
    };
    let packet = laws::command(
        "dasm"@,
        (((path + "|"@) + text::hexadecimal(address as nat)) + "|"@) + text::hexadecimal(most),
    );
    if let Some((m, t, Ok(_))) = files::listing_run(h, n, s, path, address, count) {
        assert(files::listing_bytes(count) == most);
        assert(laws::answered(h[n], packet, "OK"@));
    }
}

/// Whether a line of a listing begins with an address.
pub open spec fn has_address(line: Seq<char>) -> bool {
    text::halves(text::trimmed(line), ':') matches Some((head, _)) && text::u64_value(
        text::trimmed(head),
        16,
    ) is Some
}

/// The instructions of a listing are those of its lines that begin with an address, in their order,
/// up to the number asked for.
pub proof fn instructions_are_those_of_the_lines(lines: Seq<Seq<char>>, count: nat)
    ensures
        ({
            let told = lines.filter(|line: Seq<char>| has_address(line));
            let rows = packets::listing_rows(lines, count);
            &&& rows.len() == if told.len() < count {
                told.len()
            } else {
                count
            }
            &&& forall|i: int|
                0 <= i < rows.len() ==> packets::listing_row(told[i]) == Some(#[trigger] rows[i])
        }),
    decreases lines.len(),
{
    reveal(Seq::filter);
    if lines.len() > 0 {
        let front = lines.drop_last();
        instructions_are_those_of_the_lines(front, count);
        let told = lines.filter(|line: Seq<char>| has_address(line));
        let earlier = front.filter(|line: Seq<char>| has_address(line));
        let rows = packets::listing_rows(lines, count);
        let before = packets::listing_rows(front, count);
        assert(told == if has_address(lines.last()) {
            earlier.push(lines.last())
        } else {
            earlier
        });
        assert forall|i: int| 0 <= i < rows.len() implies packets::listing_row(told[i]) == Some(
            #[trigger] rows[i],
        ) by {
            if i < before.len() {
                assert(rows[i] == before[i]);
            }
        }
    }
}

proof fn bytes_come_first(parts: Seq<Seq<char>>)
    ensures
        ({
            let n = packets::byte_words(parts) as int;
            &&& n <= parts.len()
            &&& forall|i: int| 0 <= i < n ==> packets::is_byte_word(#[trigger] parts[i])
            &&& n < parts.len() ==> !packets::is_byte_word(parts[n])
        }),
    decreases parts.len(),
{
    if parts.len() > 0 && packets::is_byte_word(parts[0]) {
        let rest = parts.drop_first();
        bytes_come_first(rest);
        let n = packets::byte_words(parts) as int;
        assert forall|i: int| 0 <= i < n implies packets::is_byte_word(#[trigger] parts[i]) by {
            if i > 0 {
                assert(parts[i] == rest[i - 1]);
            }
        }
        if n < parts.len() {
            assert(parts[n] == rest[n - 1]);
        }
    }
}

/// The instruction of a line tells the address before the colon, as its bytes the words after it that
/// are bytes, as many as its length, and as its text the words after those.
pub proof fn instructions_tell_their_line(line: Seq<char>)
    ensures
        packets::listing_row(line) is Some <==> has_address(line),
        packets::listing_row(line) matches Some(row) ==> {
            let (head, rest) = text::halves(text::trimmed(line), ':')->0;
            let parts = text::words(rest);
            &&& row.unsigned_field("addr"@) == text::u64_value(text::trimmed(head), 16)
            &&& parts.len() <= u64::MAX ==> (row.unsigned_field("length"@) matches Some(length) && {
                &&& length <= parts.len()
                &&& forall|i: int| 0 <= i < length ==> packets::is_byte_word(#[trigger] parts[i])
                &&& length < parts.len() ==> !packets::is_byte_word(parts[length as int])
                &&& row.text_field("bytes"@) == Some(
                    text::lowered(text::joined(parts.take(length as int), ""@)),
                )
                &&& row.text_field("text"@) == Some(
                    text::joined(parts.skip(length as int), " "@),
                )
            })
        },
{
    broadcast use json::added_is_found;

    row_words_differ();
    if let Some((_, rest)) = text::halves(text::trimmed(line), ':') {
        bytes_come_first(text::words(rest));
    }
}

/// A state that the machine saved or loaded was asked for once, at its path, and acknowledged.
pub proof fn states_are_moved_by_their_path(
    h: Seq<GdbStep>,
    n: int,
    s: MachineView,
    verb: StateVerb,
    path: Seq<char>,
)
    ensures
        files::state_run(h, n, s, verb, path) matches Some((m, t, Ok(_))) ==> {
            &&& t == s
            &&& m == n + 4
            &&& laws::answered(
                h[n + 2],
                laws::command(
                    if verb == StateVerb::Save {
                        "savesync"@
                    } else {
                        "loadsync"@
                    },
                    path,
                ),
                "OK"@,
            )
        },
{
}

/// The number that a part of a field of a reply is, in hexadecimal.
pub open spec fn part_of(field: Seq<char>, i: int) -> Option<u64> {
    text::u64_value(text::pieces(field, ',')[i], 16)
}

proof fn frames_are_those_of_the_fields(fields: Seq<Seq<char>>)
    ensures
        stack::frames_of(fields) matches Ok(frames) ==> {
            &&& frames.len() == fields.len()
            &&& forall|i: int|
                0 <= i < frames.len() ==> {
                    &&& part_of(fields[i], 0) == Some((#[trigger] frames[i]).source)
                    &&& part_of(fields[i], 1) == Some(frames[i].target)
                    &&& part_of(fields[i], 2) == Some(frames[i].return_address)
                    &&& part_of(fields[i], 3) == Some(frames[i].return_stack_pointer)
                }
        },
    decreases fields.len(),
{
    if fields.len() > 0 {
        let front = fields.drop_last();
        frames_are_those_of_the_fields(front);
        if let Ok(frames) = stack::frames_of(fields) {
            let earlier = stack::frames_of(front)->Ok_0;
            assert forall|i: int| 0 <= i < frames.len() implies {
                &&& part_of(fields[i], 0) == Some((#[trigger] frames[i]).source)
                &&& part_of(fields[i], 1) == Some(frames[i].target)
                &&& part_of(fields[i], 2) == Some(frames[i].return_address)
                &&& part_of(fields[i], 3) == Some(frames[i].return_stack_pointer)
            } by {
                if i < earlier.len() {
                    assert(frames[i] == earlier[i]);
                    assert(fields[i] == front[i]);
                }
            }
        }
    }
}

proof fn calls_are_told(frame: stack::NativeFrame)
    ensures
        stack::call_row(frame).unsigned_field("pc"@) == Some(frame.source),
        stack::call_row(frame).unsigned_field("target"@) == Some(frame.target),
        stack::call_row(frame).unsigned_field("return_address"@) == Some(frame.return_address),
        stack::call_row(frame).unsigned_field("return_stack_pointer"@) == Some(
            frame.return_stack_pointer,
        ),
{
    broadcast use json::added_is_found;

    stack_words_differ();
}

proof fn stacks_are_told(told: stack::StackView)
    ensures
        stack::top_row(told).unsigned_field("pc"@) == Some(told.pc),
        stack::top_row(told).unsigned_field("sp"@) == Some(told.sp),
        stack::stack_report(told).field("frames"@) == Some(
            JsonView::Array(stack::stack_rows(told)),
        ),
        stack::stack_report(told).unsigned_field("native_depth"@) == Some(told.native_depth),
        stack::stack_report(told).unsigned_field("dropped"@) == Some(told.dropped),
{
    broadcast use json::added_is_found;

    stack_words_differ();
}

/// A call stack that is told was asked of the frozen machine once. Its first row is the running code;
/// behind it stand the calls of the reply, the last one first, each with its four addresses.
pub proof fn call_stacks_tell_the_calls(
    h: Seq<GdbStep>,
    n: int,
    s: MachineView,
    system: Seq<char>,
    env: GdbBridgeEnv,
    params: JsonView,
    raw: Seq<char>,
    i: int,
)
    requires
        h[n] == (GdbStep::Sent { payload: "qEmucap,callstack"@, reply: Ok(raw) }),
    ensures
        service::operation_run(h, n, s, system, env, Operation::CallStack, params) matches Some(
            (m, t, Ok(report)),
        ) ==> {
            let fields = text::pieces(raw, '|');
            &&& s.frozen && t == s && m == n + 1
            &&& report.field("frames"@) matches Some(JsonView::Array(rows)) && {
                &&& rows.len() == if fields.len() > 6 {
                    fields.len() - 5
                } else {
                    1
                }
                &&& rows[0].unsigned_field("pc"@) == text::u64_value(fields[1], 16)
                &&& rows[0].unsigned_field("sp"@) == text::u64_value(fields[2], 16)
                &&& 1 <= i < rows.len() ==> {
                    let call = fields[fields.len() - i];
                    &&& rows[i].unsigned_field("pc"@) == part_of(call, 0)
                    &&& rows[i].unsigned_field("target"@) == part_of(call, 1)
                    &&& rows[i].unsigned_field("return_address"@) == part_of(call, 2)
                    &&& rows[i].unsigned_field("return_stack_pointer"@) == part_of(call, 3)
                }
            }
            &&& report.unsigned_field("dropped"@) == text::u64_value(fields[4], 10)
            &&& report.unsigned_field("native_depth"@) == text::u64_value(fields[5], 10)
        },
{
    if let Some((m, t, Ok(report))) = service::operation_run(
        h,
        n,
        s,
        system,
        env,
        Operation::CallStack,
        params,
    ) {
        reveal_strlit("qEmucap,callstack");
        reveal_strlit("qEmucap,");
        reveal_strlit("callstack");
        assert("qEmucap,"@ + "callstack"@ =~= "qEmucap,callstack"@);
        let told = stack::stack_of(raw)->Ok_0;
        let fields = text::pieces(raw, '|');
        let calls = stack::calls_in(fields);
        empty_texts_are_no_numbers();
        frames_are_those_of_the_fields(calls);
        stacks_are_told(told);
        let rows = stack::stack_rows(told);
        if 1 <= i < rows.len() {
            let k = told.frames.len() - i;
            calls_are_told(told.frames[k]);
            assert(calls[k] == fields[k + 6]);
        }
    }
}

proof fn empty_texts_are_no_numbers()
    ensures
        text::u64_value(Seq::empty(), 10) is None,
        text::u64_value(Seq::empty(), 16) is None,
{
}

} // verus!
