//! What disassemblies promise, told by the packets that were sent.

use vstd::prelude::*;
use crate::encoding;
use crate::gdb;
use crate::gdb::{GdbStep, GdbTransport};
use crate::json;
use crate::json::JsonView;
use crate::nds::bridge::NdsBridge;
use crate::nds::commands;
use crate::nds::control_laws;
use crate::nds::cpu;
use crate::nds::cpu::CoreView;
use crate::nds::decode_laws;
use crate::nds::laws;
use crate::nds::memory;
use crate::nds::service;
use crate::nds::service::Operation;
use crate::nds::support;
use crate::nds::{CpuId, NdsErrorView};
use crate::text;

verus! {

proof fn strays_send_nothing(h: Seq<GdbStep>, n: int, core: CoreView, reply: Seq<char>, left: nat)
    ensures
        commands::stray_run(h, n, core, reply, left) matches Some((m, _, _)) ==> n <= m && laws::sent(
            h,
            n,
            m,
        ).len() == 0,
    decreases left,
{
    if left > 0 && support::is_stray_stop(reply) && 0 <= n < h.len()
        && h[n] is Received {
        laws::one_step(h, n);
        if let Ok(next) = gdb::reply_at(h, n) {
            strays_send_nothing(h, n + 1, cpu::noted(core, reply), next, (left - 1) as nat);
            if let Some((m, _, _)) = commands::stray_run(h, n, core, reply, left) {
                laws::sent_joins(h, n, n + 1, m);
            }
        }
    }
}

/// A question for a base64 reply that succeeds sends its packet once, and nothing else.
pub proof fn base64_questions_are_sent_once(
    h: Seq<GdbStep>,
    n: int,
    core: CoreView,
    payload: Seq<char>,
)
    ensures
        commands::base64_run(h, n, core, payload) matches Some((m, _, Ok(_))) ==> {
            let steps = laws::sent(h, n, m);
            n <= m && steps.len() == 1 && laws::asks(steps[0], payload)
        },
{
    laws::pauses_send_nothing(h, n, core);
    if let Some((a, c, Ok(again))) = cpu::enter_run(h, n, core) {
        laws::drains_send_nothing(h, a, c);
        if let Some((b, d, Ok(()))) = cpu::drain_run(h, a, c) {
            laws::sent_joins(h, n, a, b);
            if let Some((k, e, Ok(reply))) = commands::base64_exchange_run(h, a, c, payload) {
                laws::one_step(h, b);
                strays_send_nothing(
                    h,
                    b + 1,
                    d,
                    laws::answer(h[b]),
                    commands::MAX_STRAY_STOPS as nat,
                );
                laws::leaving_sends_nothing(h, k, e, again);
                laws::sent_joins(h, n, b, b + 1);
                laws::sent_joins(h, n, b + 1, k);
                if let Some((m, f)) = cpu::leave_run(h, k, e, again) {
                    laws::sent_joins(h, n, k, m);
                    assert(laws::sent(h, n, m) =~= seq![h[b]]);
                }
            }
        }
    }
}

proof fn words_differ()
    ensures
        "instructions"@ != "cpu"@,
        "instructions"@ != "mode"@,
        "cpu"@ != "mode"@,
        "auto"@ != "arm"@,
        "auto"@ != "thumb"@,
        "arm"@ != "thumb"@,
{
    reveal_strlit("instructions");
    reveal_strlit("cpu");
    reveal_strlit("mode");
    reveal_strlit("auto");
    reveal_strlit("arm");
    reveal_strlit("thumb");
    assert("instructions"@.len() == 12);
    assert("cpu"@.len() == 3);
    assert("mode"@.len() == 4);
    assert("auto"@.len() == 4);
    assert("arm"@.len() == 3);
    assert("thumb"@.len() == 5);
}

/// How the instruction set of a disassembly is written at the end of its packet.
pub open spec fn set_suffix(params: JsonView) -> Seq<char> {
    match params.text_field("mode"@) {
        Some(mode) => if mode == "arm"@ {
            ",a"@
        } else if mode == "thumb"@ {
            ",t"@
        } else {
            Seq::empty()
        },
        None => Seq::empty(),
    }
}

/// The number of instructions that are told of a disassembly that asks for some.
pub open spec fn in_bounds(asked: u64) -> u64 {
    if asked == 0 {
        1
    } else if asked > 4096 {
        4096
    } else {
        asked
    }
}

/// A disassembly that succeeds asked the core that it names once, for its address, its number of
/// instructions and its instruction set, and tells no more instructions than that.
pub proof fn disassemblies_stand_where_asked_for<G: GdbTransport>(
    before: NdsBridge<G>,
    after: NdsBridge<G>,
    params: JsonView,
    r: Result<JsonView, NdsErrorView>,
    address: u64,
    asked: u64,
)
    requires
        service::operation_does(before, after, Operation::Disassemble, params, r),
        params.unsigned_field("address"@) == Some(address),
        params.unsigned_field("count"@) == Some(asked) || (params.field("count"@) is None && asked
            == 8),
    ensures
        r matches Ok(report) ==> {
            let cpu = control_laws::asked_core(params);
            let steps = laws::sent_to(after.wires(), before.cores(), after.cores(), cpu);
            &&& steps.len() == 1
            &&& laws::asks(
                steps[0],
                ((("qEmucap,disasm:"@ + text::hexadecimal(address as nat)) + ","@)
                    + text::hexadecimal(in_bounds(asked) as nat)) + set_suffix(params),
            )
            &&& report.text_field("cpu"@) == Some(laws::name_of(cpu))
            &&& report.field("instructions"@) matches Some(JsonView::Array(rows)) && 1 <= rows.len()
                <= in_bounds(asked)
        },
{
    broadcast use json::added_is_found;

    laws::names_differ();
    words_differ();
    if let Ok((cpu, at, count, mode)) = memory::disasm_plan(params) {
        let packet = commands::disasm_packet(at, count, mode);
        let head = (("qEmucap,disasm:"@ + text::hexadecimal(address as nat)) + ","@)
            + text::hexadecimal(in_bounds(asked) as nat);
        assert(head + Seq::<char>::empty() =~= head);
        assert(packet == head + set_suffix(params));
        base64_questions_are_sent_once(
            after.wires().nine,
            before.cores().nine.0,
            before.cores().nine.1,
            packet,
        );
        if let Some((n, c)) = before.cores().seven {
            base64_questions_are_sent_once(after.wires().seven, n, c, packet);
        }
        if let Ok(report) = r {
            rows_are_bounded_in(report, cpu, count, mode);
        }
    }
}

proof fn rows_are_bounded_in(
    report: JsonView,
    cpu: CpuId,
    count: u64,
    mode: Seq<char>,
)
    ensures
        forall|reply: Seq<char>|
            #[trigger] memory::disasm_report(reply, cpu, count, mode) == Ok::<_, NdsErrorView>(report)
                ==> (report.field("instructions"@) matches Some(JsonView::Array(rows)) && 1
                <= rows.len() <= count) && report.text_field("cpu"@) == Some(cpu.name()),
{
    assert forall|reply: Seq<char>|
        #[trigger] memory::disasm_report(reply, cpu, count, mode) == Ok::<_, NdsErrorView>(
            report,
        ) implies (report.field("instructions"@) matches Some(JsonView::Array(rows)) && 1 <= rows.len()
        <= count) && report.text_field("cpu"@) == Some(cpu.name()) by {
        rows_of_reply(reply, cpu, count, mode);
    }
}

proof fn rows_of_reply(reply: Seq<char>, cpu: CpuId, count: u64, mode: Seq<char>)
    ensures
        memory::disasm_report(reply, cpu, count, mode) matches Ok(report) ==> (report.field(
            "instructions"@,
        ) matches Some(JsonView::Array(rows)) && 1 <= rows.len() <= count) && report.text_field(
            "cpu"@,
        ) == Some(cpu.name()),
{
    broadcast use json::added_is_found;

    words_differ();
    if let Ok(bytes) = encoding::base64_result(text::trimmed(reply)) {
        decode_laws::rows_are_bounded(
            text::pieces(memory::lossy_text(bytes), '\n'),
            count as nat,
        );
    }
}

} // verus!
