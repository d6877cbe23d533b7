//! What registers and disassemblies promise, told by the texts that the stub answered.

use vstd::prelude::*;
use crate::encoding;
use crate::gdb;
use crate::gdb::GdbTransport;
use crate::json;
use crate::json::JsonView;
use crate::nds::bridge::NdsBridge;
use crate::nds::control_laws;
use crate::nds::cpu;
use crate::nds::decode;
use crate::nds::laws;
use crate::nds::service;
use crate::nds::service::Operation;
use crate::nds::NdsErrorView;
use crate::text;
use crate::text_laws;

verus! {

/// The number of the eight hexadecimal digits of a packet from a place on, the lowest byte first.
pub open spec fn word_from(packet: Seq<char>, at: int) -> Option<u64> {
    match text::byte_range(packet, at, at + 8) {
        Some(digits) => match encoding::hex_bytes(digits) {
            Some(b) => if b.len() == 4 {
                Some((b[0] + 256 * (b[1] + 256 * (b[2] + 256 * b[3]))) as u64)
            } else {
                None
            },
            None => None,
        },
        None => None,
    }
}

/// The name under which a general register is told.
pub open spec fn name_of_register(i: int) -> Seq<char> {
    "cpu.r"@ + text::decimal(i)
}

proof fn names_of_registers_differ(i: int, j: int)
    requires
        0 <= i,
        0 <= j,
        i != j,
    ensures
        name_of_register(i) != name_of_register(j),
{
    text_laws::numerals_tell_numbers_apart(i as nat, j as nat);
    let a = name_of_register(i);
    let b = name_of_register(j);
    if a == b {
        assert(a.skip("cpu.r"@.len() as int) =~= text::decimal(i));
        assert(b.skip("cpu.r"@.len() as int) =~= text::decimal(j));
    }
}

proof fn names_are_no_others(i: int)
    requires
        0 <= i,
    ensures
        name_of_register(i) != "cpu.cpsr"@,
        name_of_register(i) != "cpu.pc"@,
        name_of_register(i) != "cpu.sp"@,
        name_of_register(i) != "cpu.lr"@,
        name_of_register(i) != "cpu.raw_register_bytes"@,
        "cpu.pc"@ != "cpu.sp"@,
        "cpu.pc"@ != "cpu.lr"@,
        "cpu.sp"@ != "cpu.lr"@,
        "cpu.pc"@ != "cpu.cpsr"@,
        "cpu.sp"@ != "cpu.cpsr"@,
        "cpu.lr"@ != "cpu.cpsr"@,
        "cpu.pc"@ != "cpu.raw_register_bytes"@,
        "cpu.sp"@ != "cpu.raw_register_bytes"@,
        "cpu.lr"@ != "cpu.raw_register_bytes"@,
{
    reveal_strlit("cpu.r");
    reveal_strlit("cpu.cpsr");
    reveal_strlit("cpu.pc");
    reveal_strlit("cpu.sp");
    reveal_strlit("cpu.lr");
    reveal_strlit("cpu.raw_register_bytes");
    text_laws::numerals_are_read_back(i as nat, 10);
    let digits = text::decimal(i);
    assert(text_laws::is_numeral_char(digits[0]));
    let name = name_of_register(i);
    assert(name[4] == 'r');
    assert(name[5] == digits[0]);
    assert("cpu.cpsr"@[4] == 'c' && "cpu.pc"@[4] == 'p' && "cpu.sp"@[4] == 's' && "cpu.lr"@[4] == 'l');
    assert("cpu.raw_register_bytes"@[4] == 'r');
    assert(digits.len() > 0);
    if name == "cpu.raw_register_bytes"@ {
        assert(name[6] == 'w');
        assert("cpu.raw_register_bytes"@[7] == '_');
        assert(digits[2] == name[7]);
        assert(text_laws::is_numeral_char(digits[2]));
    }
}

proof fn registers_are_found(packet: Seq<char>, n: nat, i: int)
    requires
        0 <= i < n,
    ensures
        decode::registers(packet, n) is Object,
        decode::registers(packet, n).unsigned_field(name_of_register(i)) == word_from(packet, 8 * i),
    decreases n,
{
    broadcast use json::added_is_found;

    let last = n - 1;
    let earlier = decode::registers(packet, last as nat);
    if i < last {
        registers_are_found(packet, last as nat, i);
        names_of_registers_differ(i, last);
    } else {
        none_beyond(packet, last as nat, i);
    }
}

proof fn none_beyond(packet: Seq<char>, n: nat, i: int)
    requires
        i >= n,
    ensures
        decode::registers(packet, n) is Object,
        decode::registers(packet, n).field(name_of_register(i)) is None,
    decreases n,
{
    broadcast use json::added_is_found;

    if n > 0 {
        none_beyond(packet, (n - 1) as nat, i);
        names_of_registers_differ(i, n - 1);
    }
}

/// The state of a register packet tells each general register as the word that stands in its place,
/// and the program counter, the stack pointer and the link register as the fifteenth, the thirteenth
/// and the fourteenth of them.
pub proof fn registers_are_the_words_of_the_packet(packet: Seq<char>, i: int)
    requires
        0 <= i < 16,
        word_from(packet, 8 * i) is Some,
    ensures
        decode::state_of(packet).unsigned_field(name_of_register(i)) == word_from(packet, 8 * i),
        i == 15 ==> decode::state_of(packet).unsigned_field("cpu.pc"@) == word_from(packet, 8 * i),
        i == 13 ==> decode::state_of(packet).unsigned_field("cpu.sp"@) == word_from(packet, 8 * i),
        i == 14 ==> decode::state_of(packet).unsigned_field("cpu.lr"@) == word_from(packet, 8 * i),
{
    broadcast use json::added_is_found;

    registers_are_found(packet, 16, i);
    names_are_no_others(i);
    names_are_no_others(15);
    names_are_no_others(13);
    names_are_no_others(14);
    aliases_are_written(i);
    if i != 15 {
        names_of_registers_differ(i, 15);
    }
    if i != 13 {
        names_of_registers_differ(i, 13);
    }
    if i != 14 {
        names_of_registers_differ(i, 14);
    }
    names_of_registers_differ(13, 15);
    names_of_registers_differ(13, 14);
    names_of_registers_differ(14, 15);
    let general = decode::with_word(
        decode::registers(packet, 16),
        "cpu.cpsr"@,
        decode::status_word(packet),
    );
    assert(general.field(name_of_register(i)) == decode::registers(packet, 16).field(
        name_of_register(i),
    ));
    let a = decode::with_alias(general, "cpu.pc"@, "cpu.r15"@);
    let b = decode::with_alias(a, "cpu.sp"@, "cpu.r13"@);
    let c = decode::with_alias(b, "cpu.lr"@, "cpu.r14"@);
    assert(a is Object && b is Object && c is Object);
    assert(a.field(name_of_register(i)) == general.field(name_of_register(i)));
    assert(b.field(name_of_register(i)) == a.field(name_of_register(i)));
    assert(c.field(name_of_register(i)) == b.field(name_of_register(i)));
    assert(!decode::is_bare(c)) by {
        if decode::is_bare(c) {
            assert(c->Object_0.len() == 0);
        }
    }
}

proof fn aliases_are_written(i: int)
    ensures
        name_of_register(15) == "cpu.r15"@,
        name_of_register(13) == "cpu.r13"@,
        name_of_register(14) == "cpu.r14"@,
{
    reveal_strlit("cpu.r");
    reveal_strlit("cpu.r15");
    reveal_strlit("cpu.r13");
    reveal_strlit("cpu.r14");
    reveal_with_fuel(text::numeral, 3);
    assert(text::decimal(15) =~= seq!['1', '5']);
    assert(text::decimal(13) =~= seq!['1', '3']);
    assert(text::decimal(14) =~= seq!['1', '4']);
    assert(name_of_register(15) =~= "cpu.r15"@);
    assert(name_of_register(13) =~= "cpu.r13"@);
    assert(name_of_register(14) =~= "cpu.r14"@);
}

/// Reading the registers sends one packet to the core that the request names, and tells the state
/// of its answer.
pub proof fn states_are_read_from_their_core<G: GdbTransport>(
    before: NdsBridge<G>,
    after: NdsBridge<G>,
    params: JsonView,
    r: Result<JsonView, NdsErrorView>,
)
    requires
        service::operation_does(before, after, Operation::GetState, params, r),
    ensures
        r matches Ok(report) ==> {
            let cpu = control_laws::asked_core(params);
            let steps = laws::sent_to(after.wires(), before.cores(), after.cores(), cpu);
            &&& steps.len() == 1
            &&& laws::asks(steps[0], "g"@)
            &&& report.text_field("cpu"@) == Some(laws::name_of(cpu))
            &&& !gdb::is_stop(laws::answer(steps[0])) ==> report.field("state"@) == Some(
                decode::state_of(laws::answer(steps[0])),
            )
        },
{
    broadcast use json::added_is_found;

    laws::names_differ();
    state_words_differ();
    laws::commands_are_sent_once(
        after.wires().nine,
        before.cores().nine.0,
        before.cores().nine.1,
        "g"@,
    );
    if let Some((n, c)) = before.cores().seven {
        laws::commands_are_sent_once(after.wires().seven, n, c, "g"@);
    }
}

proof fn state_words_differ()
    ensures
        "cpu"@ != "state"@,
        "cpu"@ != "mode"@,
        "cpu"@ != "instructions"@,
        "cpu"@ != "addr"@,
        "cpu"@ != "text"@,
        "cpu"@ != "bytes"@,
        "state"@ != "mode"@,
        "state"@ != "instructions"@,
        "state"@ != "addr"@,
        "state"@ != "text"@,
        "state"@ != "bytes"@,
        "mode"@ != "instructions"@,
        "mode"@ != "addr"@,
        "mode"@ != "text"@,
        "mode"@ != "bytes"@,
        "instructions"@ != "addr"@,
        "instructions"@ != "text"@,
        "instructions"@ != "bytes"@,
        "addr"@ != "text"@,
        "addr"@ != "bytes"@,
        "text"@ != "bytes"@,
{
    reveal_strlit("cpu");
    reveal_strlit("state");
    reveal_strlit("mode");
    reveal_strlit("instructions");
    reveal_strlit("addr");
    reveal_strlit("text");
    reveal_strlit("bytes");
    assert("cpu"@.len() == 3);
    assert("state"@.len() == 5);
    assert("mode"@.len() == 4);
    assert("instructions"@.len() == 12);
    assert("addr"@.len() == 4);
    assert("text"@.len() == 4);
    assert("bytes"@.len() == 5);
    assert("state"@[0] == 's');
    assert("mode"@[0] == 'm');
    assert("addr"@[0] == 'a');
    assert("text"@[0] == 't');
    assert("bytes"@[0] == 'b');
}

/// The rows of a disassembly are those of the lines that have an address, in their order, each with
/// the address that its line begins with; there are no more than asked for, and a line is left out
/// only where it has no address or enough rows stand before it.
pub proof fn rows_are_those_of_the_lines(lines: Seq<Seq<char>>, count: nat, k: int)
    requires
        0 <= k < lines.len(),
    ensures
        decode::rows_of(lines, count).len() <= count || decode::rows_of(lines, count).len() == 0,
        decode::row_of(lines[k]) matches Some(row) ==> decode::rows_of(lines, count).contains(row)
            || decode::rows_of(lines, count).len() >= count,
    decreases lines.len(),
{
    let rows = decode::rows_of(lines, count);
    let front = lines.drop_last();
    let earlier = decode::rows_of(front, count);
    rows_are_bounded(lines, count);
    if k < front.len() {
        rows_are_those_of_the_lines(front, count, k);
        assert(front[k] == lines[k]);
        if let Some(row) = decode::row_of(lines[k]) {
            if earlier.contains(row) {
                let i = choose|i: int| 0 <= i < earlier.len() && earlier[i] == row;
                assert(rows[i] == row);
            }
        }
    } else if let Some(row) = decode::row_of(lines[k]) {
        if earlier.len() < count {
            assert(rows[rows.len() - 1] == row);
        }
    }
}

/// There are no more rows than asked for.
pub proof fn rows_are_bounded(lines: Seq<Seq<char>>, count: nat)
    ensures
        decode::rows_of(lines, count).len() <= count,
    decreases lines.len(),
{
    if lines.len() > 0 {
        rows_are_bounded(lines.drop_last(), count);
    }
}

/// A row tells the address that its line begins with, up to the first bar.
pub proof fn rows_tell_the_address_of_their_line(line: Seq<char>)
    ensures
        decode::row_of(line) matches Some(row) ==> row.unsigned_field("addr"@) == text::u64_value(
            text::trimmed(text::before(text::trimmed(line), '|')),
            16,
        ),
        decode::row_of(line) is None ==> text::u64_value(
            text::trimmed(text::before(text::trimmed(line), '|')),
            16,
        ) is None,
{
    broadcast use json::added_is_found;

    state_words_differ();
}

/// The bytes of an opcode stand in memory in the reverse order of its hexadecimal value.
pub proof fn opcodes_stand_reversed(opcode: Seq<char>, i: int)
    ensures
        encoding::hex_bytes(opcode) matches Some(value) ==> encoding::hex_bytes(
            decode::opcode_bytes(opcode),
        ) matches Some(bytes) && bytes.len() == value.len() && (0 <= i < bytes.len() ==> bytes[i]
            == value[value.len() - 1 - i]),
{
    if let Some(value) = encoding::hex_bytes(opcode) {
        encoding::hex_round_trip(value.reverse());
    }
}

} // verus!
