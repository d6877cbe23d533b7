//! What requests promise, told by the packets that were sent to the cores and by their replies.

use vstd::prelude::*;
use crate::encoding;
use crate::gdb;
use crate::gdb::{GdbStep, GdbTransport};
use crate::json;
use crate::json::JsonView;
use crate::nds::bridge::{Cores, NdsBridge, Wires};
use crate::nds::commands;
use crate::nds::cpu;
use crate::nds::cpu::CoreView;
use crate::nds::events;
use crate::nds::memory;
use crate::nds::service;
use crate::nds::service::Operation;
use crate::nds::support;
use crate::nds::{CpuId, NdsErrorView};
use crate::text;

verus! {

/// The packets that were sent between two places and are answered, in order.
pub open spec fn sent(h: Seq<GdbStep>, n: int, m: int) -> Seq<GdbStep>
    decreases m - n,
{
    if n >= m {
        Seq::empty()
    } else if h[m - 1] is Sent {
        sent(h, n, m - 1).push(h[m - 1])
    } else {
        sent(h, n, m - 1)
    }
}

/// The packets that an operation sent to a core.
pub open spec fn sent_to(w: Wires, before: Cores, after: Cores, cpu: CpuId) -> Seq<GdbStep> {
    match cpu {
        CpuId::Arm9 => sent(w.nine, before.nine.0, after.nine.0),
        CpuId::Arm7 => match (before.seven, after.seven) {
            (Some((n, _)), Some((m, _))) => sent(w.seven, n, m),
            _ => Seq::empty(),
        },
    }
}

/// Whether a step sent a packet that was answered.
pub open spec fn asks(step: GdbStep, wanted: Seq<char>) -> bool {
    step matches GdbStep::Sent { payload, reply: Ok(_) } && payload == wanted
}

/// What the packet of a step was answered.
pub open spec fn answer(step: GdbStep) -> Seq<char> {
    match step {
        GdbStep::Sent { reply: Ok(reply), .. } => reply,
        _ => Seq::empty(),
    }
}

/// The answers to packets, one behind the other.
pub open spec fn answers(steps: Seq<GdbStep>) -> Seq<char>
    decreases steps.len(),
{
    if steps.len() == 0 {
        Seq::empty()
    } else {
        answers(steps.drop_last()) + answer(steps.last())
    }
}

/// Whether no packet was answered with a stop.
pub open spec fn undisturbed(steps: Seq<GdbStep>) -> bool {
    forall|k: int| 0 <= k < steps.len() ==> !gdb::is_stop(answer(#[trigger] steps[k]))
}

/// The bytes of a part of a range that is moved in parts.
pub open spec fn part_of(length: int, k: int) -> int {
    if length - k * 0x2000 < 0x2000 {
        length - k * 0x2000
    } else {
        0x2000
    }
}

/// Whether packets move a range in parts: there is one for each part, and no other.
pub open spec fn covers(count: nat, length: int) -> bool {
    count * 0x2000 >= length && (count - 1) * 0x2000 < length
}

/// Whether packets read exactly a range.
pub open spec fn reads_range(steps: Seq<GdbStep>, address: int, length: int) -> bool {
    &&& covers(steps.len(), length)
    &&& forall|k: int|
        0 <= k < steps.len() ==> asks(
            #[trigger] steps[k],
            (("m"@ + text::hexadecimal((address + k * 0x2000) as nat)) + ","@) + text::hexadecimal(
                part_of(length, k) as nat,
            ),
        )
}

/// Whether packets write exactly a range, with the text of its bytes.
pub open spec fn writes_range(steps: Seq<GdbStep>, address: int, hex: Seq<char>) -> bool {
    let length = (hex.len() / 2) as int;
    &&& covers(steps.len(), length)
    &&& forall|k: int|
        0 <= k < steps.len() ==> asks(
            #[trigger] steps[k],
            (((("M"@ + text::hexadecimal((address + k * 0x2000) as nat)) + ","@)
                + text::hexadecimal(part_of(length, k) as nat)) + ":"@) + hex.subrange(
                2 * (k * 0x2000),
                2 * (k * 0x2000 + part_of(length, k)),
            ),
        ) && (answer(steps[k]).len() == 0 || answer(steps[k]) == "OK"@ || gdb::is_stop(
            answer(steps[k]),
        ))
}

/// Where a kind of memory begins on the bus.
pub open spec fn base_named(name: Seq<char>) -> int {
    if name == "main"@ {
        0x0200_0000
    } else {
        0
    }
}

/// How large a kind of memory is.
pub open spec fn size_named(name: Seq<char>) -> int {
    if name == "main"@ {
        0x0040_0000
    } else {
        0x1_0000_0000
    }
}

/// The kind of memory that a request names.
pub open spec fn memory_named(params: JsonView, default: Seq<char>) -> Seq<char> {
    match params.text_field("memory_type"@) {
        Some(name) => name,
        None => default,
    }
}

/// The core of a request: the one that it names, or the one of its memory.
pub open spec fn core_named(params: JsonView, name: Seq<char>) -> CpuId {
    match params.text_field("cpu"@) {
        Some(told) => if told == "arm7"@ {
            CpuId::Arm7
        } else {
            CpuId::Arm9
        },
        None => if name == "arm7"@ {
            CpuId::Arm7
        } else {
            CpuId::Arm9
        },
    }
}

/// The name of a core.
pub open spec fn name_of(cpu: CpuId) -> Seq<char> {
    match cpu {
        CpuId::Arm9 => "arm9"@,
        CpuId::Arm7 => "arm7"@,
    }
}

pub proof fn names_differ()
    ensures
        "main"@ != "arm9"@,
        "main"@ != "arm7"@,
        "arm9"@ != "arm7"@,
{
    reveal_strlit("main");
    reveal_strlit("arm9");
    reveal_strlit("arm7");
    assert("main"@.len() == 4);
    assert("arm9"@.len() == 4);
    assert("arm7"@.len() == 4);
    assert("main"@[0] == 'm');
    assert("arm9"@[0] == 'a');
    assert("arm9"@[3] == '9');
    assert("arm7"@[0] == 'a');
    assert("arm7"@[3] == '7');
}

proof fn report_words_differ()
    ensures
        "hex"@ != "cpu"@,
        "hex"@ != "written"@,
        "hex"@ != "status"@,
        "hex"@ != "unit"@,
        "hex"@ != "count"@,
        "hex"@ != "pc"@,
        "hex"@ != "state"@,
        "hex"@ != "matches"@,
        "hex"@ != "truncated"@,
        "hex"@ != "truncated_scan"@,
        "hex"@ != "truncated_matches"@,
        "hex"@ != "scanned"@,
        "hex"@ != "start"@,
        "hex"@ != "memory_type"@,
        "hex"@ != "id"@,
        "hex"@ != "address"@,
        "hex"@ != "hardware"@,
        "hex"@ != "cleared"@,
        "hex"@ != "events"@,
        "hex"@ != "dropped"@,
        "cpu"@ != "written"@,
        "cpu"@ != "status"@,
        "cpu"@ != "unit"@,
        "cpu"@ != "count"@,
        "cpu"@ != "pc"@,
        "cpu"@ != "state"@,
        "cpu"@ != "matches"@,
        "cpu"@ != "truncated"@,
        "cpu"@ != "truncated_scan"@,
        "cpu"@ != "truncated_matches"@,
        "cpu"@ != "scanned"@,
        "cpu"@ != "start"@,
        "cpu"@ != "memory_type"@,
        "cpu"@ != "id"@,
        "cpu"@ != "address"@,
        "cpu"@ != "hardware"@,
        "cpu"@ != "cleared"@,
        "cpu"@ != "events"@,
        "cpu"@ != "dropped"@,
        "written"@ != "status"@,
        "written"@ != "unit"@,
        "written"@ != "count"@,
        "written"@ != "pc"@,
        "written"@ != "state"@,
        "written"@ != "matches"@,
        "written"@ != "truncated"@,
        "written"@ != "truncated_scan"@,
        "written"@ != "truncated_matches"@,
        "written"@ != "scanned"@,
        "written"@ != "start"@,
        "written"@ != "memory_type"@,
        "written"@ != "id"@,
        "written"@ != "address"@,
        "written"@ != "hardware"@,
        "written"@ != "cleared"@,
        "written"@ != "events"@,
        "written"@ != "dropped"@,
        "status"@ != "unit"@,
        "status"@ != "count"@,
        "status"@ != "pc"@,
        "status"@ != "state"@,
        "status"@ != "matches"@,
        "status"@ != "truncated"@,
        "status"@ != "truncated_scan"@,
        "status"@ != "truncated_matches"@,
        "status"@ != "scanned"@,
        "status"@ != "start"@,
        "status"@ != "memory_type"@,
        "status"@ != "id"@,
        "status"@ != "address"@,
        "status"@ != "hardware"@,
        "status"@ != "cleared"@,
        "status"@ != "events"@,
        "status"@ != "dropped"@,
        "unit"@ != "count"@,
        "unit"@ != "pc"@,
        "unit"@ != "state"@,
        "unit"@ != "matches"@,
        "unit"@ != "truncated"@,
        "unit"@ != "truncated_scan"@,
        "unit"@ != "truncated_matches"@,
        "unit"@ != "scanned"@,
        "unit"@ != "start"@,
        "unit"@ != "memory_type"@,
        "unit"@ != "id"@,
        "unit"@ != "address"@,
        "unit"@ != "hardware"@,
        "unit"@ != "cleared"@,
        "unit"@ != "events"@,
        "unit"@ != "dropped"@,
        "count"@ != "pc"@,
        "count"@ != "state"@,
        "count"@ != "matches"@,
        "count"@ != "truncated"@,
        "count"@ != "truncated_scan"@,
        "count"@ != "truncated_matches"@,
        "count"@ != "scanned"@,
        "count"@ != "start"@,
        "count"@ != "memory_type"@,
        "count"@ != "id"@,
        "count"@ != "address"@,
        "count"@ != "hardware"@,
        "count"@ != "cleared"@,
        "count"@ != "events"@,
        "count"@ != "dropped"@,
        "pc"@ != "state"@,
        "pc"@ != "matches"@,
        "pc"@ != "truncated"@,
        "pc"@ != "truncated_scan"@,
        "pc"@ != "truncated_matches"@,
        "pc"@ != "scanned"@,
        "pc"@ != "start"@,
        "pc"@ != "memory_type"@,
        "pc"@ != "id"@,
        "pc"@ != "address"@,
        "pc"@ != "hardware"@,
        "pc"@ != "cleared"@,
        "pc"@ != "events"@,
        "pc"@ != "dropped"@,
        "state"@ != "matches"@,
        "state"@ != "truncated"@,
        "state"@ != "truncated_scan"@,
        "state"@ != "truncated_matches"@,
        "state"@ != "scanned"@,
        "state"@ != "start"@,
        "state"@ != "memory_type"@,
        "state"@ != "id"@,
        "state"@ != "address"@,
        "state"@ != "hardware"@,
        "state"@ != "cleared"@,
        "state"@ != "events"@,
        "state"@ != "dropped"@,
        "matches"@ != "truncated"@,
        "matches"@ != "truncated_scan"@,
        "matches"@ != "truncated_matches"@,
        "matches"@ != "scanned"@,
        "matches"@ != "start"@,
        "matches"@ != "memory_type"@,
        "matches"@ != "id"@,
        "matches"@ != "address"@,
        "matches"@ != "hardware"@,
        "matches"@ != "cleared"@,
        "matches"@ != "events"@,
        "matches"@ != "dropped"@,
        "truncated"@ != "truncated_scan"@,
        "truncated"@ != "truncated_matches"@,
        "truncated"@ != "scanned"@,
        "truncated"@ != "start"@,
        "truncated"@ != "memory_type"@,
        "truncated"@ != "id"@,
        "truncated"@ != "address"@,
        "truncated"@ != "hardware"@,
        "truncated"@ != "cleared"@,
        "truncated"@ != "events"@,
        "truncated"@ != "dropped"@,
        "truncated_scan"@ != "truncated_matches"@,
        "truncated_scan"@ != "scanned"@,
        "truncated_scan"@ != "start"@,
        "truncated_scan"@ != "memory_type"@,
        "truncated_scan"@ != "id"@,
        "truncated_scan"@ != "address"@,
        "truncated_scan"@ != "hardware"@,
        "truncated_scan"@ != "cleared"@,
        "truncated_scan"@ != "events"@,
        "truncated_scan"@ != "dropped"@,
        "truncated_matches"@ != "scanned"@,
        "truncated_matches"@ != "start"@,
        "truncated_matches"@ != "memory_type"@,
        "truncated_matches"@ != "id"@,
        "truncated_matches"@ != "address"@,
        "truncated_matches"@ != "hardware"@,
        "truncated_matches"@ != "cleared"@,
        "truncated_matches"@ != "events"@,
        "truncated_matches"@ != "dropped"@,
        "scanned"@ != "start"@,
        "scanned"@ != "memory_type"@,
        "scanned"@ != "id"@,
        "scanned"@ != "address"@,
        "scanned"@ != "hardware"@,
        "scanned"@ != "cleared"@,
        "scanned"@ != "events"@,
        "scanned"@ != "dropped"@,
        "start"@ != "memory_type"@,
        "start"@ != "id"@,
        "start"@ != "address"@,
        "start"@ != "hardware"@,
        "start"@ != "cleared"@,
        "start"@ != "events"@,
        "start"@ != "dropped"@,
        "memory_type"@ != "id"@,
        "memory_type"@ != "address"@,
        "memory_type"@ != "hardware"@,
        "memory_type"@ != "cleared"@,
        "memory_type"@ != "events"@,
        "memory_type"@ != "dropped"@,
        "id"@ != "address"@,
        "id"@ != "hardware"@,
        "id"@ != "cleared"@,
        "id"@ != "events"@,
        "id"@ != "dropped"@,
        "address"@ != "hardware"@,
        "address"@ != "cleared"@,
        "address"@ != "events"@,
        "address"@ != "dropped"@,
        "hardware"@ != "cleared"@,
        "hardware"@ != "events"@,
        "hardware"@ != "dropped"@,
        "cleared"@ != "events"@,
        "cleared"@ != "dropped"@,
        "events"@ != "dropped"@,
{
    reveal_strlit("hex");
    reveal_strlit("cpu");
    reveal_strlit("written");
    reveal_strlit("status");
    reveal_strlit("unit");
    reveal_strlit("count");
    reveal_strlit("pc");
    reveal_strlit("state");
    reveal_strlit("matches");
    reveal_strlit("truncated");
    reveal_strlit("truncated_scan");
    reveal_strlit("truncated_matches");
    reveal_strlit("scanned");
    reveal_strlit("start");
    reveal_strlit("memory_type");
    reveal_strlit("id");
    reveal_strlit("address");
    reveal_strlit("hardware");
    reveal_strlit("cleared");
    reveal_strlit("events");
    reveal_strlit("dropped");
    assert("hex"@.len() == 3);
    assert("cpu"@.len() == 3);
    assert("written"@.len() == 7);
    assert("status"@.len() == 6);
    assert("unit"@.len() == 4);
    assert("count"@.len() == 5);
    assert("pc"@.len() == 2);
    assert("state"@.len() == 5);
    assert("matches"@.len() == 7);
    assert("truncated"@.len() == 9);
    assert("truncated_scan"@.len() == 14);
    assert("truncated_matches"@.len() == 17);
    assert("scanned"@.len() == 7);
    assert("start"@.len() == 5);
    assert("memory_type"@.len() == 11);
    assert("id"@.len() == 2);
    assert("address"@.len() == 7);
    assert("hardware"@.len() == 8);
    assert("cleared"@.len() == 7);
    assert("events"@.len() == 6);
    assert("dropped"@.len() == 7);
    assert("hex"@[0] == 'h');
    assert("cpu"@[0] == 'c');
    assert("written"@[0] == 'w');
    assert("status"@[0] == 's');
    assert("count"@[0] == 'c');
    assert("pc"@[0] == 'p');
    assert("state"@[0] == 's');
    assert("state"@[3] == 't');
    assert("matches"@[0] == 'm');
    assert("scanned"@[0] == 's');
    assert("start"@[0] == 's');
    assert("start"@[3] == 'r');
    assert("id"@[0] == 'i');
    assert("address"@[0] == 'a');
    assert("cleared"@[0] == 'c');
    assert("events"@[0] == 'e');
    assert("dropped"@[0] == 'd');
}

pub proof fn sent_joins(h: Seq<GdbStep>, n: int, m: int, k: int)
    requires
        n <= m <= k,
    ensures
        sent(h, n, k) == sent(h, n, m) + sent(h, m, k),
    decreases k - m,
{
    if m < k {
        sent_joins(h, n, m, k - 1);
    }
    assert(sent(h, n, k) =~= sent(h, n, m) + sent(h, m, k));
}

pub proof fn one_step(h: Seq<GdbStep>, n: int)
    ensures
        sent(h, n, n + 1) == (if h[n] is Sent {
            seq![h[n]]
        } else {
            Seq::empty()
        }),
{
    reveal_with_fuel(sent, 2);
    assert(sent(h, n, n + 1) =~= (if h[n] is Sent {
        seq![h[n]]
    } else {
        Seq::empty()
    }));
}

pub proof fn drains_send_nothing(h: Seq<GdbStep>, n: int, core: CoreView)
    ensures
        cpu::drain_run(h, n, core) matches Some((m, _, _)) ==> n <= m && sent(h, n, m).len() == 0,
    decreases h.len() - n,
{
    if 0 <= n < h.len() {
        one_step(h, n);
        if let GdbStep::Polled { packet: Ok(Some(p)) } = h[n] {
            if gdb::is_stop(p) {
                drains_send_nothing(h, n + 1, cpu::noted(core, p));
                if let Some((m, _, _)) = cpu::drain_run(h, n, core) {
                    sent_joins(h, n, n + 1, m);
                }
            }
        }
    }
}

pub proof fn pauses_send_nothing(h: Seq<GdbStep>, n: int, core: CoreView)
    ensures
        cpu::pause_run(h, n, core) matches Some((m, _, _)) ==> n <= m && sent(h, n, m).len() == 0,
        cpu::enter_run(h, n, core) matches Some((m, _, _)) ==> n <= m && sent(h, n, m).len() == 0,
{
    drains_send_nothing(h, n, core);
    if !core.frozen {
        if let Some((m, _, _)) = cpu::drain_run(h, n, core) {
            one_step(h, m);
            sent_joins(h, n, m, m + 1);
        }
    }
}

pub proof fn leaving_sends_nothing(h: Seq<GdbStep>, n: int, core: CoreView, again: bool)
    ensures
        cpu::leave_run(h, n, core, again) matches Some((m, _)) ==> n <= m && sent(h, n, m).len() == 0,
{
    one_step(h, n);
}

pub proof fn replies_send_nothing(h: Seq<GdbStep>, n: int, core: CoreView, reply: Seq<char>)
    ensures
        cpu::reply_run(h, n, core, reply) matches Some((m, _, _)) ==> n <= m && sent(h, n, m).len()
            == 0,
    decreases h.len() - n,
{
    if gdb::is_stop(reply) && 0 <= n < h.len() && h[n] is Received {
        one_step(h, n);
        if let Ok(next) = gdb::reply_at(h, n) {
            replies_send_nothing(h, n + 1, cpu::noted(core, reply), next);
            if let Some((m, _, _)) = cpu::reply_run(h, n, core, reply) {
                sent_joins(h, n, n + 1, m);
            }
        }
    }
}

/// A command that succeeds sends its packet once, and nothing else. Its reply is the answer to the
/// packet, unless stops came in ahead of it.
pub proof fn commands_are_sent_once(h: Seq<GdbStep>, n: int, core: CoreView, payload: Seq<char>)
    ensures
        cpu::cmd_run(h, n, core, payload) matches Some((m, _, Ok(reply))) ==> {
            let steps = sent(h, n, m);
            &&& n <= m
            &&& steps.len() == 1
            &&& asks(steps[0], payload)
            &&& !gdb::is_stop(answer(steps[0])) ==> reply == answer(steps[0])
            &&& support::expects_stop(payload) ==> reply == answer(steps[0])
        },
{
    pauses_send_nothing(h, n, core);
    if let Some((a, c, Ok(again))) = cpu::enter_run(h, n, core) {
        if let Some((k, d, Ok(reply))) = cpu::exchange_run(h, a, c, payload) {
            one_step(h, a);
            replies_send_nothing(h, a + 1, c, answer(h[a]));
            leaving_sends_nothing(h, k, d, again);
            sent_joins(h, n, a, a + 1);
            sent_joins(h, n, a + 1, k);
            if let Some((m, e)) = cpu::leave_run(h, k, d, again) {
                sent_joins(h, n, k, m);
                assert(sent(h, n, m) =~= seq![h[a]]);
            }
        }
    }
}

proof fn answers_join(a: Seq<GdbStep>, b: Seq<GdbStep>)
    ensures
        answers(a + b) == answers(a) + answers(b),
    decreases b.len(),
{
    if b.len() == 0 {
        assert(a + b =~= a);
        assert(answers(a) + answers(b) =~= answers(a));
    } else {
        answers_join(a, b.drop_last());
        assert((a + b).drop_last() =~= a + b.drop_last());
        assert((answers(a) + answers(b.drop_last())) + answer(b.last()) =~= answers(a) + (answers(
            b.drop_last(),
        ) + answer(b.last())));
    }
}

proof fn single_answers(step: GdbStep)
    ensures
        answers(seq![step]) == answer(step),
{
    reveal_with_fuel(answers, 2);
    assert(seq![step].drop_last() =~= Seq::empty());
    assert(Seq::<char>::empty() + answer(step) =~= answer(step));
}

proof fn reads_cover(
    h: Seq<GdbStep>,
    n: int,
    core: CoreView,
    address: u64,
    length: u64,
    offset: int,
    read: Seq<char>,
)
    requires
        0 <= offset <= length,
    ensures
        commands::read_chunks_run(h, n, core, address, length, offset, read) matches Some(
            (m, _, Ok(hex)),
        ) ==> {
            &&& n <= m
            &&& reads_range(sent(h, n, m), address + offset, length - offset)
            &&& undisturbed(sent(h, n, m)) ==> hex == read + answers(sent(h, n, m))
        },
    decreases length - offset,
{
    if offset >= length {
        assert(read + answers(sent(h, n, n)) =~= read);
    } else {
        let chunk = commands::chunk_of(length - offset, crate::nds::MAX_READ_CHUNK);
        let packet = commands::read_packet(address + offset, chunk);
        commands_are_sent_once(h, n, core, packet);
        if let Some((k, c, Ok(reply))) = cpu::cmd_run(h, n, core, packet) {
            reads_cover(h, k, c, address, length, offset + chunk, read + reply);
            if let Some((m, d, Ok(hex))) = commands::read_chunks_run(
                h,
                k,
                c,
                address,
                length,
                offset + chunk,
                read + reply,
            ) {
                sent_joins(h, n, k, m);
                let first = sent(h, n, k);
                let rest = sent(h, k, m);
                let all = sent(h, n, m);
                assert(first =~= seq![first[0]]);
                answers_join(first, rest);
                single_answers(first[0]);
                assert forall|q: int| 0 <= q < all.len() implies asks(
                    #[trigger] all[q],
                    (("m"@ + text::hexadecimal((address + offset + q * 0x2000) as nat)) + ","@)
                        + text::hexadecimal(part_of(length - offset, q) as nat),
                ) by {
                    if q == 0 {
                        assert(all[0] == first[0]);
                    } else {
                        assert(all[q] == rest[q - 1]);
                        assert(address + (offset + chunk) + (q - 1) * 0x2000 == address + offset + q
                            * 0x2000);
                        assert(part_of(length - (offset + chunk), q - 1) == part_of(
                            length - offset,
                            q,
                        ));
                    }
                }
                if undisturbed(all) {
                    assert(first[0] == all[0]);
                    assert(!gdb::is_stop(answer(first[0])));
                    assert forall|q: int| 0 <= q < rest.len() implies !gdb::is_stop(
                        answer(#[trigger] rest[q]),
                    ) by {
                        assert(rest[q] == all[q + 1]);
                    }
                    assert((read + reply) + answers(rest) =~= read + (reply + answers(rest)));
                }
            }
        }
    }
}

/// A read that succeeds sends one packet for each part of the range, in order, and gives their
/// answers.
pub proof fn core_reads_cover_the_range(
    h: Seq<GdbStep>,
    n: int,
    core: CoreView,
    address: u64,
    length: u64,
)
    ensures
        commands::read_run(h, n, core, address, length) matches Some((m, _, Ok(hex))) ==> {
            &&& n <= m
            &&& reads_range(sent(h, n, m), address as int, length as int)
            &&& undisturbed(sent(h, n, m)) ==> hex == answers(sent(h, n, m))
        },
{
    pauses_send_nothing(h, n, core);
    if let Some((a, c, Ok(again))) = cpu::enter_run(h, n, core) {
        reads_cover(h, a, c, address, length, 0, Seq::empty());
        if let Some((k, d, Ok(hex))) = commands::read_chunks_run(
            h,
            a,
            c,
            address,
            length,
            0,
            Seq::empty(),
        ) {
            leaving_sends_nothing(h, k, d, again);
            if let Some((m, e)) = cpu::leave_run(h, k, d, again) {
                sent_joins(h, n, a, k);
                sent_joins(h, n, k, m);
                assert(sent(h, n, m) =~= sent(h, a, k));
                assert(Seq::<char>::empty() + answers(sent(h, a, k)) =~= answers(sent(h, a, k)));
            }
        }
    }
}

proof fn writes_cover(
    h: Seq<GdbStep>,
    n: int,
    core: CoreView,
    address: u64,
    hex: Seq<char>,
    offset: int,
)
    requires
        0 <= offset <= hex.len() / 2,
    ensures
        commands::write_chunks_run(h, n, core, address, hex, offset) matches Some((m, _, Ok(()))) ==> {
            &&& n <= m
            &&& writes_range(sent(h, n, m), address + offset, hex.skip(2 * offset))
        },
    decreases hex.len() / 2 - offset,
{
    let size = (hex.len() / 2) as int;
    if offset < size {
        let chunk = commands::chunk_of(size - offset, crate::nds::MAX_WRITE_CHUNK);
        let packet = commands::write_packet(
            address + offset,
            chunk,
            hex.subrange(2 * offset, 2 * (offset + chunk)),
        );
        commands_are_sent_once(h, n, core, packet);
        if let Some((k, c, Ok(reply))) = cpu::cmd_run(h, n, core, packet) {
            writes_cover(h, k, c, address, hex, offset + chunk);
            if reply.len() == 0 || reply == "OK"@ {
                if let Some((m, d, Ok(()))) = commands::write_chunks_run(
                    h,
                    k,
                    c,
                    address,
                    hex,
                    offset + chunk,
                ) {
                    sent_joins(h, n, k, m);
                    let first = sent(h, n, k);
                    let rest = sent(h, k, m);
                    let all = sent(h, n, m);
                    let left = hex.skip(2 * offset);
                    let later = hex.skip(2 * (offset + chunk));
                    assert(left.len() / 2 == size - offset);
                    assert(later.len() / 2 == size - offset - chunk);
                    assert forall|q: int| 0 <= q < all.len() implies asks(
                        #[trigger] all[q],
                        (((("M"@ + text::hexadecimal((address + offset + q * 0x2000) as nat)) + ","@)
                            + text::hexadecimal(part_of(size - offset, q) as nat)) + ":"@)
                            + left.subrange(
                            2 * (q * 0x2000),
                            2 * (q * 0x2000 + part_of(size - offset, q)),
                        ),
                    ) && (answer(all[q]).len() == 0 || answer(all[q]) == "OK"@ || gdb::is_stop(
                        answer(all[q]),
                    )) by {
                        if q == 0 {
                            assert(all[0] == first[0]);
                            let part = part_of(size - offset, q);
                            assert(part == chunk);
                            assert(left.subrange(2 * (q * 0x2000), 2 * (q * 0x2000 + part))
                                =~= hex.subrange(2 * offset, 2 * (offset + chunk)));
                            assert(address + offset + q * 0x2000 == address + offset);
                        } else {
                            assert(all[q] == rest[q - 1]);
                            assert(chunk == 0x2000);
                            assert((address + (offset + chunk)) + (q - 1) * 0x2000 == address + offset
                                + q * 0x2000);
                            assert(part_of(size - (offset + chunk), q - 1) == part_of(size - offset, q));
                            let part = part_of(size - offset, q);
                            assert(0 <= part);
                            assert(q * 0x2000 + part <= size - offset);
                            assert(later.subrange(
                                2 * ((q - 1) * 0x2000),
                                2 * ((q - 1) * 0x2000 + part),
                            ) =~= left.subrange(2 * (q * 0x2000), 2 * (q * 0x2000 + part)));
                            assert(asks(
                                rest[q - 1],
                                (((("M"@ + text::hexadecimal(
                                    ((address + (offset + chunk)) + (q - 1) * 0x2000) as nat,
                                )) + ","@) + text::hexadecimal(part as nat)) + ":"@) + later.subrange(
                                    2 * ((q - 1) * 0x2000),
                                    2 * ((q - 1) * 0x2000 + part),
                                ),
                            ));
                        }
                    }
                }
            }
        }
    } else {
        assert(hex.skip(2 * offset).len() / 2 == 0);
    }
}

/// A write that succeeds sends one packet for each part of the range, in order, with the text of
/// that part, and each was acknowledged.
pub proof fn core_writes_cover_the_range(
    h: Seq<GdbStep>,
    n: int,
    core: CoreView,
    address: u64,
    hex: Seq<char>,
)
    ensures
        commands::write_run(h, n, core, address, hex) matches Some((m, _, Ok(()))) ==> n <= m
            && writes_range(sent(h, n, m), address as int, hex),
{
    pauses_send_nothing(h, n, core);
    assert(hex.skip(0) =~= hex);
    if let Some((a, c, Ok(again))) = cpu::enter_run(h, n, core) {
        writes_cover(h, a, c, address, hex, 0);
        if let Some((k, d, Ok(()))) = commands::write_chunks_run(h, a, c, address, hex, 0) {
            leaving_sends_nothing(h, k, d, again);
            if let Some((m, e)) = cpu::leave_run(h, k, d, again) {
                sent_joins(h, n, a, k);
                sent_joins(h, n, k, m);
                assert(sent(h, n, m) =~= sent(h, a, k));
            }
        }
    }
}

/// A read of memory that succeeds lies inside its memory, and is read from its core at the place
/// where that memory begins on the bus; what is told are the answers.
pub proof fn reads_tell_the_bytes_asked_for<G: GdbTransport>(
    before: NdsBridge<G>,
    after: NdsBridge<G>,
    params: JsonView,
    r: Result<JsonView, NdsErrorView>,
    offset: u64,
    length: u64,
)
    requires
        service::operation_does(before, after, Operation::ReadMemory, params, r),
        params.unsigned_field("address"@) == Some(offset),
        params.unsigned_field("length"@) == Some(length),
    ensures
        r matches Ok(report) ==> {
            let name = memory_named(params, "arm9"@);
            let cpu = core_named(params, name);
            let steps = sent_to(after.wires(), before.cores(), after.cores(), cpu);
            &&& name == "main"@ || name == "arm9"@ || name == "arm7"@
            &&& offset + length <= size_named(name)
            &&& reads_range(steps, base_named(name) + offset, length as int)
            &&& undisturbed(steps) ==> report.text_field("hex"@) == Some(answers(steps))
            &&& report.text_field("cpu"@) == Some(name_of(cpu))
        },
{
    broadcast use json::added_is_found;

    names_differ();
    report_words_differ();
    if let Ok((cpu, address, wanted)) = memory::read_plan(params) {
        core_reads_cover_the_range(
            after.wires().nine,
            before.cores().nine.0,
            before.cores().nine.1,
            address,
            length,
        );
        if let Some((n, c)) = before.cores().seven {
            core_reads_cover_the_range(after.wires().seven, n, c, address, length);
        }
    }
}

/// A write of memory that succeeds lies inside its memory, and was written through its core, all
/// bytes of it in order, at the place where that memory begins on the bus.
pub proof fn writes_send_the_bytes_asked_for<G: GdbTransport>(
    before: NdsBridge<G>,
    after: NdsBridge<G>,
    params: JsonView,
    r: Result<JsonView, NdsErrorView>,
    offset: u64,
    hex: Seq<char>,
)
    requires
        service::operation_does(before, after, Operation::WriteMemory, params, r),
        params.unsigned_field("address"@) == Some(offset),
        params.text_field("hex"@) == Some(hex),
    ensures
        r matches Ok(report) ==> {
            let name = memory_named(params, "arm9"@);
            let cpu = core_named(params, name);
            let steps = sent_to(after.wires(), before.cores(), after.cores(), cpu);
            &&& name == "main"@ || name == "arm9"@ || name == "arm7"@
            &&& encoding::hex_bytes(hex) matches Some(bytes) && offset + bytes.len() <= size_named(name)
                && report.unsigned_field("written"@) == Some(bytes.len() as u64)
            &&& writes_range(steps, base_named(name) + offset, hex)
        },
{
    broadcast use json::added_is_found;

    names_differ();
    report_words_differ();
    if let Ok((cpu, address, text, size)) = memory::write_plan(params) {
        core_writes_cover_the_range(
            after.wires().nine,
            before.cores().nine.0,
            before.cores().nine.1,
            address,
            hex,
        );
        if let Some((n, c)) = before.cores().seven {
            core_writes_cover_the_range(after.wires().seven, n, c, address, hex);
        }
    }
}

} // verus!
