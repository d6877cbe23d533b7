//! The commands of a stub: registers, memory, base64 replies, input overrides, saved states and
//! disassembly.

use vstd::prelude::*;
use crate::encoding;
use crate::gdb;
use crate::gdb::{GdbStep, GdbTransport};
use crate::media_graph;
use crate::nds;
use crate::nds::cpu;
use crate::nds::cpu::{CoreView, CpuConn, Run};
use crate::nds::decode;
use crate::nds::support;
use crate::nds::{NdsBridgeError, NdsErrorView, MAX_READ_CHUNK, MAX_WRITE_CHUNK};
use crate::text;

verus! {

/// An error of the emulator.
pub open spec fn fault<T>(message: Seq<char>) -> Result<T, NdsErrorView> {
    Err(NdsErrorView::Emulator(message))
}

fn emulator_error(message: String) -> (r: NdsBridgeError)
    ensures
        r@ == NdsErrorView::Emulator(message@),
{
    NdsBridgeError::Emulator(message)
}

/// Whether a reply is an error of the stub.
pub open spec fn is_error(reply: Seq<char>) -> bool {
    text::has_prefix(reply, "E"@)
}

/// Reading the registers.
pub open spec fn regs_run(h: Seq<GdbStep>, n: int, core: CoreView) -> Run<Seq<char>> {
    match cpu::cmd_run(h, n, core, "g"@) {
        Some((m, c, Ok(reply))) => Some(
            (
                m,
                c,
                if is_error(reply) {
                    fault("GDB register read failed: "@ + reply)
                } else {
                    Ok(reply)
                },
            ),
        ),
        other => other,
    }
}

/// The packet that reads memory.
pub open spec fn read_packet(address: int, length: int) -> Seq<char> {
    (("m"@ + text::hexadecimal(address as nat)) + ","@) + text::hexadecimal(length as nat)
}

/// The size of a chunk of what is left.
pub open spec fn chunk_of(left: int, most: u64) -> int {
    if left < most {
        left
    } else {
        most as int
    }
}

/// Reading memory from an offset on, in chunks.
pub open spec fn read_chunks_run(
    h: Seq<GdbStep>,
    n: int,
    core: CoreView,
    address: u64,
    length: u64,
    offset: int,
    read: Seq<char>,
) -> Run<Seq<char>>
    decreases length - offset,
{
    if offset >= length {
        Some((n, core, Ok(read)))
    } else {
        let chunk = chunk_of(length - offset, MAX_READ_CHUNK);
        match cpu::cmd_run(h, n, core, read_packet(address + offset, chunk)) {
            None => None,
            Some((m, c, Err(e))) => Some((m, c, Err(e))),
            Some((m, c, Ok(reply))) => if is_error(reply) {
                Some((m, c, fault("GDB memory read failed: "@ + reply)))
            } else {
                read_chunks_run(h, m, c, address, length, offset + chunk, read + reply)
            },
        }
    }
}

/// Reading memory as a whole: the core is frozen around all of its chunks.
pub open spec fn read_run(h: Seq<GdbStep>, n: int, core: CoreView, address: u64, length: u64) -> Run<
    Seq<char>,
> {
    cpu::bracket(
        h,
        n,
        core,
        |m: int, c: CoreView| read_chunks_run(h, m, c, address, length, 0, Seq::empty()),
    )
}

/// The packet that writes memory.
pub open spec fn write_packet(address: int, length: int, hex: Seq<char>) -> Seq<char> {
    (((("M"@ + text::hexadecimal(address as nat)) + ","@) + text::hexadecimal(length as nat)) + ":"@)
        + hex
}

/// Writing memory from an offset on, in chunks.
pub open spec fn write_chunks_run(
    h: Seq<GdbStep>,
    n: int,
    core: CoreView,
    address: u64,
    hex: Seq<char>,
    offset: int,
) -> Run<()>
    decreases hex.len() / 2 - offset,
{
    let size = (hex.len() / 2) as int;
    if offset >= size || offset < 0 {
        Some((n, core, Ok(())))
    } else {
        let chunk = chunk_of(size - offset, MAX_WRITE_CHUNK);
        match cpu::cmd_run(
            h,
            n,
            core,
            write_packet(
                address + offset,
                chunk,
                hex.subrange(2 * offset, 2 * (offset + chunk)),
            ),
        ) {
            None => None,
            Some((m, c, Err(e))) => Some((m, c, Err(e))),
            Some((m, c, Ok(reply))) => if reply.len() > 0 && reply != "OK"@ {
                Some((m, c, fault("GDB memory write failed: "@ + reply)))
            } else {
                write_chunks_run(h, m, c, address, hex, offset + chunk)
            },
        }
    }
}

/// Writing memory as a whole: the core is frozen around all of its chunks.
pub open spec fn write_run(h: Seq<GdbStep>, n: int, core: CoreView, address: u64, hex: Seq<char>) -> Run<
    (),
> {
    cpu::bracket(h, n, core, |m: int, c: CoreView| write_chunks_run(h, m, c, address, hex, 0))
}

/// The chunks of a read are not torn: a core that is frozen before the first of them is not let run
/// until after the last.
pub proof fn reads_are_not_torn(
    h: Seq<GdbStep>,
    n: int,
    core: CoreView,
    address: u64,
    length: u64,
    offset: int,
    read: Seq<char>,
)
    requires
        core.frozen,
    ensures
        read_chunks_run(h, n, core, address, length, offset, read) matches Some((m, c, _))
            ==> c.frozen && cpu::stands(h, n, m),
    decreases length - offset,
{
    if offset < length {
        let chunk = chunk_of(length - offset, MAX_READ_CHUNK);
        let packet = read_packet(address + offset, chunk);
        cpu::frozen_commands_stand(h, n, core, packet);
        if let Some((m, c, Ok(reply))) = cpu::cmd_run(h, n, core, packet) {
            reads_are_not_torn(h, m, c, address, length, offset + chunk, read + reply);
        }
    }
}

/// The chunks of a write are not torn: a core that is frozen before the first of them is not let
/// run until after the last.
pub proof fn writes_are_not_torn(
    h: Seq<GdbStep>,
    n: int,
    core: CoreView,
    address: u64,
    hex: Seq<char>,
    offset: int,
)
    requires
        core.frozen,
    ensures
        write_chunks_run(h, n, core, address, hex, offset) matches Some((m, c, _)) ==> c.frozen
            && cpu::stands(h, n, m),
    decreases hex.len() / 2 - offset,
{
    let size = (hex.len() / 2) as int;
    if 0 <= offset < size {
        let chunk = chunk_of(size - offset, MAX_WRITE_CHUNK);
        let packet = write_packet(
            address + offset,
            chunk,
            hex.subrange(2 * offset, 2 * (offset + chunk)),
        );
        cpu::frozen_commands_stand(h, n, core, packet);
        if let Some((m, c, Ok(reply))) = cpu::cmd_run(h, n, core, packet) {
            writes_are_not_torn(h, m, c, address, hex, offset + chunk);
        }
    }
}

/// A command that has to be answered with `OK`.
pub open spec fn ok_run(
    h: Seq<GdbStep>,
    n: int,
    core: CoreView,
    payload: Seq<char>,
    trouble: Seq<char>,
) -> Run<()> {
    match cpu::cmd_run(h, n, core, payload) {
        None => None,
        Some((m, c, Err(e))) => Some((m, c, Err(e))),
        Some((m, c, Ok(reply))) => Some(
            (
                m,
                c,
                if reply == "OK"@ {
                    Ok(())
                } else {
                    fault(trouble + reply)
                },
            ),
        ),
    }
}

/// How many stray stops are passed over ahead of a base64 reply.
pub const MAX_STRAY_STOPS: u64 = 16;

/// Reading on until a reply has not the shape of a stray stop.
pub open spec fn stray_run(
    h: Seq<GdbStep>,
    n: int,
    core: CoreView,
    reply: Seq<char>,
    left: nat,
) -> Run<Seq<char>>
    decreases left,
{
    if left == 0 || !support::is_stray_stop(reply) {
        Some((n, core, Ok(reply)))
    } else if !(0 <= n < h.len() && h[n] is Received) {
        None
    } else {
        match gdb::reply_at(h, n) {
            Err(e) => Some((n + 1, cpu::noted(core, reply), Err(NdsErrorView::Gdb(e)))),
            Ok(next) => stray_run(h, n + 1, cpu::noted(core, reply), next, (left - 1) as nat),
        }
    }
}

/// Asking a frozen core for a base64 reply.
pub open spec fn base64_exchange_run(
    h: Seq<GdbStep>,
    n: int,
    core: CoreView,
    payload: Seq<char>,
) -> Run<Seq<char>> {
    match cpu::drain_run(h, n, core) {
        None => None,
        Some((m, c, Err(e))) => Some((m, c, Err(e))),
        Some((m, c, Ok(()))) => if !gdb::is_sent(h, m, payload) {
            None
        } else {
            match gdb::reply_at(h, m) {
                Err(e) => Some((m + 1, c, Err(NdsErrorView::Gdb(e)))),
                Ok(reply) => stray_run(h, m + 1, c, reply, MAX_STRAY_STOPS as nat),
            }
        },
    }
}

/// Asking for a base64 reply.
pub open spec fn base64_run(h: Seq<GdbStep>, n: int, core: CoreView, payload: Seq<char>) -> Run<
    Seq<char>,
> {
    cpu::bracket(h, n, core, |m: int, c: CoreView| base64_exchange_run(h, m, c, payload))
}

/// Asking for a base64 reply that may not be empty.
pub open spec fn filled_run(
    h: Seq<GdbStep>,
    n: int,
    core: CoreView,
    payload: Seq<char>,
    trouble: Seq<char>,
) -> Run<Seq<char>> {
    match base64_run(h, n, core, payload) {
        Some((m, c, Ok(reply))) => Some(
            (
                m,
                c,
                if reply.len() == 0 {
                    fault(trouble)
                } else {
                    Ok(reply)
                },
            ),
        ),
        other => other,
    }
}

/// The packet that disassembles.
pub open spec fn disasm_packet(address: u64, count: u64, mode: Seq<char>) -> Seq<char> {
    let head = (("qEmucap,disasm:"@ + text::hexadecimal(address as nat)) + ","@)
        + text::hexadecimal(count as nat);
    if mode == "arm"@ {
        head + ",a"@
    } else if mode == "thumb"@ {
        head + ",t"@
    } else {
        head
    }
}

/// A number of frames at the end of a packet, where there is one.
pub open spec fn with_frames(packet: Seq<char>, frames: Option<u64>) -> Seq<char> {
    match frames {
        Some(n) => (packet + ","@) + text::hexadecimal(n as nat),
        None => packet,
    }
}

/// The packet that forces buttons.
pub open spec fn input_packet(mask: u16, frames: Option<u64>) -> Seq<char> {
    with_frames("QEmucap,input:"@ + text::hexadecimal(mask as nat), frames)
}

/// The packet that touches the screen.
pub open spec fn touch_packet(x: u64, y: u64, frames: Option<u64>) -> Seq<char> {
    with_frames(
        (("QEmucap,touch:"@ + text::hexadecimal(x as nat)) + ","@) + text::hexadecimal(y as nat),
        frames,
    )
}

/// Reading how many frames an override still lasts.
pub open spec fn remaining_run(h: Seq<GdbStep>, n: int, core: CoreView, query: Seq<char>) -> Run<
    i64,
> {
    match cpu::cmd_run(h, n, core, query) {
        None => None,
        Some((m, c, Err(e))) => Some((m, c, Err(e))),
        Some((m, c, Ok(reply))) => Some(
            (
                m,
                c,
                match text::i64_value(reply) {
                    None => fault(
                        "timed override status returned an invalid value: "@
                            + media_graph::quoted_text(reply),
                    ),
                    Some(left) => if left < -1 {
                        fault(
                            "timed override status returned an invalid remaining count: "@
                                + text::decimal(left as int),
                        )
                    } else {
                        Ok(left)
                    },
                },
            ),
        ),
    }
}

/// What a saved-state command is called.
pub open spec fn state_verb(load: bool) -> Seq<char> {
    if load {
        "loadstate"@
    } else {
        "savestate"@
    }
}

/// Saving or loading a state.
pub open spec fn savestate_run(h: Seq<GdbStep>, n: int, core: CoreView, path: Seq<char>, load: bool) -> Run<
    (),
> {
    let verb = state_verb(load);
    match cpu::drain_run(h, n, core) {
        None => None,
        Some((m, c, Err(e))) => Some((m, c, Err(e))),
        Some((m, c, Ok(()))) => match cpu::cmd_run(
            h,
            m,
            c,
            (("QEmucap,"@ + verb) + ":"@) + encoding::hex_text(vstd::utf8::encode_utf8(path)),
        ) {
            None => None,
            Some((k, d, Err(e))) => Some((k, d, Err(e))),
            Some((k, d, Ok(reply))) => Some(
                (
                    k,
                    d,
                    if reply == "OK"@ {
                        Ok(())
                    } else {
                        fault(
                            ((verb + " failed (DeSmuME reply "@) + reply)
                                + "); the emulator must be paused and the path writable/readable"@,
                        )
                    },
                ),
            ),
        },
    }
}

/// Reading a pointer for a stack walk: any failure only says that there is none.
pub open spec fn pointer_run(h: Seq<GdbStep>, n: int, core: CoreView, address: u64) -> Option<
    (int, CoreView, Option<u64>),
> {
    match read_run(h, n, core, address, 4) {
        None => None,
        Some((m, c, Err(_))) => Some((m, c, None)),
        Some((m, c, Ok(reply))) => Some((m, c, decode::le_word(reply))),
    }
}

impl<G: GdbTransport> CpuConn<G> {
    /// Reads the registers.
    pub fn read_regs_hex(&mut self) -> (r: Result<String, NdsBridgeError>)
        ensures
            cpu::went_on(*old(self), *final(self)),
            forall|h: Seq<GdbStep>|
                gdb::goes_on(final(self).gdb.history(), h) ==> #[trigger] regs_run(
                    h,
                    old(self).gdb.history().len() as int,
                    old(self)@,
                ) == Some((final(self).gdb.history().len() as int, final(self)@, nds::shown(r))),
    {
        let reply = self.send_cmd("g")?;
        if text::starts_with(reply.as_str(), "E") {
            return Err(
                emulator_error(text::join("GDB register read failed: ", reply.as_str())),
            );
        }
        Ok(reply)
    }

    fn read_chunks(&mut self, address: u64, length: u64) -> (r: Result<String, NdsBridgeError>)
        requires
            address + length <= u64::MAX,
        ensures
            cpu::went_on(*old(self), *final(self)),
            forall|h: Seq<GdbStep>|
                gdb::goes_on(final(self).gdb.history(), h) ==> #[trigger] read_chunks_run(
                    h,
                    old(self).gdb.history().len() as int,
                    old(self)@,
                    address,
                    length,
                    0,
                    Seq::empty(),
                ) == Some((final(self).gdb.history().len() as int, final(self)@, nds::shown(r))),
    {
        let ghost n = self.gdb.history().len() as int;
        let ghost start = self@;
        let mut read = String::new();
        let mut offset: u64 = 0;
        assert(read@ =~= Seq::<char>::empty());
        while offset < length
            invariant
                offset <= length,
                address + length <= u64::MAX,
                n == old(self).gdb.history().len(),
                start == old(self)@,
                cpu::went_on(*old(self), *self),
                forall|h: Seq<GdbStep>|
                    gdb::goes_on(self.gdb.history(), h) ==> #[trigger] read_chunks_run(
                        h,
                        n,
                        start,
                        address,
                        length,
                        0,
                        Seq::empty(),
                    ) == read_chunks_run(
                        h,
                        self.gdb.history().len() as int,
                        self@,
                        address,
                        length,
                        offset as int,
                        read@,
                    ),
            decreases length - offset,
        {
            let chunk: u64 = if length - offset < MAX_READ_CHUNK {
                length - offset
            } else {
                MAX_READ_CHUNK
            };
            let packet = text::join("m", text::hexadecimal_of(address + offset).as_str());
            let packet = text::join(packet.as_str(), ",");
            let packet = text::join(packet.as_str(), text::hexadecimal_of(chunk).as_str());
            let ghost here = self.gdb.history();
            let ghost core = self@;
            let sent = self.send_cmd(packet.as_str());
            proof {
                let now = self.gdb.history();
                gdb::goes_on_through(here, now);
                assert forall|h: Seq<GdbStep>| gdb::goes_on(now, h) implies {
                    &&& gdb::goes_on(here, h)
                    &&& #[trigger] cpu::cmd_run(
                        h,
                        here.len() as int,
                        core,
                        read_packet(address + offset, chunk as int),
                    ) == Some((now.len() as int, self@, nds::shown(sent)))
                } by {
                    assert(gdb::goes_on(here, h));
                }
            }
            let reply = sent?;
            if text::starts_with(reply.as_str(), "E") {
                return Err(
                    emulator_error(text::join("GDB memory read failed: ", reply.as_str())),
                );
            }
            read = text::join(read.as_str(), reply.as_str());
            offset = offset + chunk;
        }
        Ok(read)
    }

    /// Reads memory. The core is frozen around the whole read, so that it is of one moment.
    pub fn read_abs_hex(&mut self, address: u64, length: u64) -> (r: Result<String, NdsBridgeError>)
        requires
            address + length <= u64::MAX,
        ensures
            cpu::went_on(*old(self), *final(self)),
            forall|h: Seq<GdbStep>|
                gdb::goes_on(final(self).gdb.history(), h) ==> #[trigger] read_run(
                    h,
                    old(self).gdb.history().len() as int,
                    old(self)@,
                    address,
                    length,
                ) == Some((final(self).gdb.history().len() as int, final(self)@, nds::shown(r))),
    {
        let entered = self.enter();
        let ghost h1 = self.gdb.history();
        let again = entered?;
        let r = self.read_chunks(address, length);
        let ghost h2 = self.gdb.history();
        self.leave(again);
        proof {
            gdb::goes_on_through(h1, h2);
            gdb::goes_on_through(h2, self.gdb.history());
        }
        r
    }

    fn write_chunks(&mut self, address: u64, hex: &str) -> (r: Result<(), NdsBridgeError>)
        requires
            address + hex@.len() <= u64::MAX,
        ensures
            cpu::went_on(*old(self), *final(self)),
            forall|h: Seq<GdbStep>|
                gdb::goes_on(final(self).gdb.history(), h) ==> #[trigger] write_chunks_run(
                    h,
                    old(self).gdb.history().len() as int,
                    old(self)@,
                    address,
                    hex@,
                    0,
                ) == Some((final(self).gdb.history().len() as int, final(self)@, nds::plain(r))),
    {
        let ghost n = self.gdb.history().len() as int;
        let ghost start = self@;
        let chars = text::chars_of(hex);
        let total: usize = chars.len();
        let size: usize = total / 2;
        let mut offset: usize = 0;
        while offset < size
            invariant
                offset <= size,
                total == chars@.len(),
                size == total / 2,
                chars@ == hex@,
                address + hex@.len() <= u64::MAX,
                n == old(self).gdb.history().len(),
                start == old(self)@,
                cpu::went_on(*old(self), *self),
                forall|h: Seq<GdbStep>|
                    gdb::goes_on(self.gdb.history(), h) ==> #[trigger] write_chunks_run(
                        h,
                        n,
                        start,
                        address,
                        hex@,
                        0,
                    ) == write_chunks_run(
                        h,
                        self.gdb.history().len() as int,
                        self@,
                        address,
                        hex@,
                        offset as int,
                    ),
            decreases size - offset,
        {
            let chunk: usize = if ((size - offset) as u64) < MAX_WRITE_CHUNK {
                size - offset
            } else {
                MAX_WRITE_CHUNK as usize
            };
            let part = text::slice_text(chars.as_slice(), 2 * offset, 2 * (offset + chunk));
            let place: u64 = address + offset as u64;
            let packet = text::join("M", text::hexadecimal_of(place).as_str());
            let packet = text::join(packet.as_str(), ",");
            let packet = text::join(packet.as_str(), text::hexadecimal_of(chunk as u64).as_str());
            let packet = text::join(packet.as_str(), ":");
            let packet = text::join(packet.as_str(), part.as_str());
            let ghost here = self.gdb.history();
            let ghost core = self@;
            let sent = self.send_cmd(packet.as_str());
            proof {
                let now = self.gdb.history();
                gdb::goes_on_through(here, now);
                assert forall|h: Seq<GdbStep>| gdb::goes_on(now, h) implies {
                    &&& gdb::goes_on(here, h)
                    &&& #[trigger] cpu::cmd_run(h, here.len() as int, core, packet@) == Some(
                        (now.len() as int, self@, nds::shown(sent)),
                    )
                } by {
                    assert(gdb::goes_on(here, h));
                }
                assert(packet@ == write_packet(
                    address + offset,
                    chunk as int,
                    hex@.subrange(2 * offset, 2 * (offset + chunk)),
                ));
            }
            let reply = sent?;
            if !reply.as_str().is_empty() && !text::same(reply.as_str(), "OK") {
                return Err(
                    emulator_error(text::join("GDB memory write failed: ", reply.as_str())),
                );
            }
            offset = offset + chunk;
        }
        Ok(())
    }

    /// Writes memory, given as hexadecimal. The core is frozen around the whole write.
    pub fn write_abs_hex(&mut self, address: u64, hex: &str) -> (r: Result<(), NdsBridgeError>)
        requires
            address + hex@.len() <= u64::MAX,
        ensures
            cpu::went_on(*old(self), *final(self)),
            forall|h: Seq<GdbStep>|
                gdb::goes_on(final(self).gdb.history(), h) ==> #[trigger] write_run(
                    h,
                    old(self).gdb.history().len() as int,
                    old(self)@,
                    address,
                    hex@,
                ) == Some((final(self).gdb.history().len() as int, final(self)@, nds::plain(r))),
    {
        let entered = self.enter();
        let ghost h1 = self.gdb.history();
        let again = entered?;
        let r = self.write_chunks(address, hex);
        let ghost h2 = self.gdb.history();
        self.leave(again);
        proof {
            gdb::goes_on_through(h1, h2);
            gdb::goes_on_through(h2, self.gdb.history());
        }
        r
    }

    /// Sends a command that has to be answered with `OK`.
    pub fn send_ok(&mut self, payload: &str, trouble: &str) -> (r: Result<(), NdsBridgeError>)
        ensures
            cpu::went_on(*old(self), *final(self)),
            forall|h: Seq<GdbStep>|
                gdb::goes_on(final(self).gdb.history(), h) ==> #[trigger] ok_run(
                    h,
                    old(self).gdb.history().len() as int,
                    old(self)@,
                    payload@,
                    trouble@,
                ) == Some((final(self).gdb.history().len() as int, final(self)@, nds::plain(r))),
    {
        let reply = self.send_cmd(payload)?;
        if text::same(reply.as_str(), "OK") {
            Ok(())
        } else {
            Err(emulator_error(text::join(trouble, reply.as_str())))
        }
    }

    fn base64_exchange(&mut self, payload: &str) -> (r: Result<String, NdsBridgeError>)
        ensures
            cpu::went_on(*old(self), *final(self)),
            forall|h: Seq<GdbStep>|
                gdb::goes_on(final(self).gdb.history(), h) ==> #[trigger] base64_exchange_run(
                    h,
                    old(self).gdb.history().len() as int,
                    old(self)@,
                    payload@,
                ) == Some((final(self).gdb.history().len() as int, final(self)@, nds::shown(r))),
    {
        let ghost n = self.gdb.history().len() as int;
        let ghost start = self@;
        let drained = self.drain_stops();
        let ghost h1 = self.gdb.history();
        let ghost core = self@;
        drained?;
        let sent = self.gdb.send(payload);
        let ghost h2 = self.gdb.history();
        proof {
            assert(gdb::goes_on(h1, h2));
            gdb::goes_on_through(h1, h2);
            assert forall|h: Seq<GdbStep>| gdb::goes_on(h2, h) implies {
                &&& gdb::goes_on(h1, h)
                &&& gdb::is_sent(h, h1.len() as int, payload@)
                &&& #[trigger] gdb::reply_at(h, h1.len() as int) == gdb::text_reply(sent)
            } by {
                assert(gdb::goes_on(h1, h));
                assert(h[h1.len() as int] == h2[h1.len() as int]);
            }
            assert forall|h: Seq<GdbStep>| gdb::goes_on(h2, h) implies #[trigger] base64_exchange_run(
                h,
                n,
                start,
                payload@,
            ) == (match gdb::text_reply(sent) {
                Err(e) => Some((h2.len() as int, core, Err(NdsErrorView::Gdb(e)))),
                Ok(reply) => stray_run(h, h2.len() as int, core, reply, MAX_STRAY_STOPS as nat),
            }) by {
                assert(gdb::reply_at(h, h1.len() as int) == gdb::text_reply(sent));
            }
        }
        let mut reply = match sent {
            Ok(reply) => reply,
            Err(error) => {
                return Err(cpu::gdb_error(error));
            },
        };
        let mut left: u64 = MAX_STRAY_STOPS;
        while left > 0 && support::looks_like_stray_stop(reply.as_str())
            invariant
                left <= MAX_STRAY_STOPS,
                n == old(self).gdb.history().len(),
                start == old(self)@,
                cpu::went_on(*old(self), *self),
                forall|h: Seq<GdbStep>|
                    gdb::goes_on(self.gdb.history(), h) ==> #[trigger] base64_exchange_run(
                        h,
                        n,
                        start,
                        payload@,
                    ) == stray_run(
                        h,
                        self.gdb.history().len() as int,
                        self@,
                        reply@,
                        left as nat,
                    ),
            decreases left,
        {
            let ghost here = self.gdb.history();
            let ghost core = self@;
            let ghost stop = reply@;
            self.note_stop(reply.as_str());
            let received = self.gdb.recv_reply();
            proof {
                let now = self.gdb.history();
                assert(gdb::goes_on(here, now));
                gdb::goes_on_through(here, now);
                assert forall|h: Seq<GdbStep>| gdb::goes_on(now, h) implies {
                    &&& gdb::goes_on(here, h)
                    &&& h[here.len() as int] is Received
                    &&& #[trigger] gdb::reply_at(h, here.len() as int) == gdb::text_reply(received)
                } by {
                    assert(gdb::goes_on(here, h));
                    assert(h[here.len() as int] == now[here.len() as int]);
                }
                assert forall|h: Seq<GdbStep>| gdb::goes_on(now, h) implies #[trigger] base64_exchange_run(
                    h,
                    n,
                    start,
                    payload@,
                ) == (match gdb::text_reply(received) {
                    Err(e) => Some(
                        (now.len() as int, cpu::noted(core, stop), Err(NdsErrorView::Gdb(e))),
                    ),
                    Ok(next) => stray_run(
                        h,
                        now.len() as int,
                        cpu::noted(core, stop),
                        next,
                        (left - 1) as nat,
                    ),
                }) by {
                    assert(gdb::reply_at(h, here.len() as int) == gdb::text_reply(received));
                }
            }
            reply = match received {
                Ok(reply) => reply,
                Err(error) => {
                    return Err(cpu::gdb_error(error));
                },
            };
            left -= 1;
        }
        Ok(reply)
    }

    /// Sends a command whose reply is base64 text, which may look like a stop.
    pub fn send_b64_reply(&mut self, payload: &str) -> (r: Result<String, NdsBridgeError>)
        ensures
            cpu::went_on(*old(self), *final(self)),
            forall|h: Seq<GdbStep>|
                gdb::goes_on(final(self).gdb.history(), h) ==> #[trigger] base64_run(
                    h,
                    old(self).gdb.history().len() as int,
                    old(self)@,
                    payload@,
                ) == Some((final(self).gdb.history().len() as int, final(self)@, nds::shown(r))),
    {
        let entered = self.enter();
        let ghost h1 = self.gdb.history();
        let again = entered?;
        let r = self.base64_exchange(payload);
        let ghost h2 = self.gdb.history();
        self.leave(again);
        proof {
            gdb::goes_on_through(h1, h2);
            gdb::goes_on_through(h2, self.gdb.history());
        }
        r
    }

    fn send_filled(&mut self, payload: &str, trouble: &str) -> (r: Result<String, NdsBridgeError>)
        ensures
            cpu::went_on(*old(self), *final(self)),
            forall|h: Seq<GdbStep>|
                gdb::goes_on(final(self).gdb.history(), h) ==> #[trigger] filled_run(
                    h,
                    old(self).gdb.history().len() as int,
                    old(self)@,
                    payload@,
                    trouble@,
                ) == Some((final(self).gdb.history().len() as int, final(self)@, nds::shown(r))),
    {
        let reply = self.send_b64_reply(payload)?;
        if reply.as_str().is_empty() {
            return Err(emulator_error(trouble.to_owned()));
        }
        Ok(reply)
    }

    /// Takes a picture of both screens, as base64.
    pub fn screenshot_b64(&mut self) -> (r: Result<String, NdsBridgeError>)
        ensures
            cpu::went_on(*old(self), *final(self)),
            forall|h: Seq<GdbStep>|
                gdb::goes_on(final(self).gdb.history(), h) ==> #[trigger] filled_run(
                    h,
                    old(self).gdb.history().len() as int,
                    old(self)@,
                    "qEmucap,ss"@,
                    "screenshot: DeSmuME returned an empty reply (frame buffer unavailable)"@,
                ) == Some((final(self).gdb.history().len() as int, final(self)@, nds::shown(r))),
    {
        self.send_filled(
            "qEmucap,ss",
            "screenshot: DeSmuME returned an empty reply (frame buffer unavailable)",
        )
    }

    /// Disassembles, as base64 rows.
    pub fn disasm_b64(&mut self, address: u64, count: u64, mode: &str) -> (r: Result<
        String,
        NdsBridgeError,
    >)
        ensures
            cpu::went_on(*old(self), *final(self)),
            forall|h: Seq<GdbStep>|
                gdb::goes_on(final(self).gdb.history(), h) ==> #[trigger] filled_run(
                    h,
                    old(self).gdb.history().len() as int,
                    old(self)@,
                    disasm_packet(address, count, mode@),
                    "disassemble: DeSmuME returned an empty reply (bus unavailable)"@,
                ) == Some((final(self).gdb.history().len() as int, final(self)@, nds::shown(r))),
    {
        let m = text::join("qEmucap,disasm:", text::hexadecimal_of(address).as_str());
        let m = text::join(m.as_str(), ",");
        let head = text::join(m.as_str(), text::hexadecimal_of(count).as_str());
        let packet = if text::same(mode, "arm") {
            text::join(head.as_str(), ",a")
        } else if text::same(mode, "thumb") {
            text::join(head.as_str(), ",t")
        } else {
            head
        };
        self.send_filled(
            packet.as_str(),
            "disassemble: DeSmuME returned an empty reply (bus unavailable)",
        )
    }

    /// Forces buttons, until changed or for a number of frames.
    pub fn send_input(&mut self, mask: u16, frames: Option<u64>) -> (r: Result<(), NdsBridgeError>)
        ensures
            cpu::went_on(*old(self), *final(self)),
            forall|h: Seq<GdbStep>|
                gdb::goes_on(final(self).gdb.history(), h) ==> #[trigger] ok_run(
                    h,
                    old(self).gdb.history().len() as int,
                    old(self)@,
                    input_packet(mask, frames),
                    "input injection failed: "@,
                ) == Some((final(self).gdb.history().len() as int, final(self)@, nds::plain(r))),
    {
        self.send_ok(input_text(mask, frames).as_str(), "input injection failed: ")
    }

    /// Touches the screen, until changed or for a number of frames.
    pub fn send_touch(&mut self, x: u64, y: u64, frames: Option<u64>) -> (r: Result<
        (),
        NdsBridgeError,
    >)
        ensures
            cpu::went_on(*old(self), *final(self)),
            forall|h: Seq<GdbStep>|
                gdb::goes_on(final(self).gdb.history(), h) ==> #[trigger] ok_run(
                    h,
                    old(self).gdb.history().len() as int,
                    old(self)@,
                    touch_packet(x, y, frames),
                    "touch injection failed: "@,
                ) == Some((final(self).gdb.history().len() as int, final(self)@, nds::plain(r))),
    {
        self.send_ok(touch_text(x, y, frames).as_str(), "touch injection failed: ")
    }

    /// Lifts the touch.
    pub fn send_touch_release(&mut self) -> (r: Result<(), NdsBridgeError>)
        ensures
            cpu::went_on(*old(self), *final(self)),
            forall|h: Seq<GdbStep>|
                gdb::goes_on(final(self).gdb.history(), h) ==> #[trigger] ok_run(
                    h,
                    old(self).gdb.history().len() as int,
                    old(self)@,
                    "QEmucap,touch:release"@,
                    "touch release failed: "@,
                ) == Some((final(self).gdb.history().len() as int, final(self)@, nds::plain(r))),
    {
        self.send_ok("QEmucap,touch:release", "touch release failed: ")
    }

    /// Reads how many frames an override still lasts; minus one is one without an end.
    pub fn override_remaining(&mut self, query: &str) -> (r: Result<i64, NdsBridgeError>)
        ensures
            cpu::went_on(*old(self), *final(self)),
            r matches Ok(left) ==> left >= -1,
            forall|h: Seq<GdbStep>|
                gdb::goes_on(final(self).gdb.history(), h) ==> #[trigger] remaining_run(
                    h,
                    old(self).gdb.history().len() as int,
                    old(self)@,
                    query@,
                ) == Some((final(self).gdb.history().len() as int, final(self)@, nds::plain(r))),
    {
        let reply = self.send_cmd(query)?;
        let left: i64 = match text::parse_i64(reply.as_str()) {
            Some(left) => left,
            None => {
                return Err(
                    emulator_error(
                        text::join(
                            "timed override status returned an invalid value: ",
                            media_graph::quote(reply.as_str()).as_str(),
                        ),
                    ),
                );
            },
        };
        if left < -1 {
            return Err(
                emulator_error(
                    text::join(
                        "timed override status returned an invalid remaining count: ",
                        text::signed_decimal_of(left).as_str(),
                    ),
                ),
            );
        }
        Ok(left)
    }

    /// Saves or loads a state.
    pub fn savestate(&mut self, path: &str, load: bool) -> (r: Result<(), NdsBridgeError>)
        ensures
            cpu::went_on(*old(self), *final(self)),
            forall|h: Seq<GdbStep>|
                gdb::goes_on(final(self).gdb.history(), h) ==> #[trigger] savestate_run(
                    h,
                    old(self).gdb.history().len() as int,
                    old(self)@,
                    path@,
                    load,
                ) == Some((final(self).gdb.history().len() as int, final(self)@, nds::plain(r))),
    {
        let drained = self.drain_stops();
        let ghost h1 = self.gdb.history();
        drained?;
        let verb = if load {
            "loadstate"
        } else {
            "savestate"
        };
        let packet = text::join("QEmucap,", verb);
        let packet = text::join(packet.as_str(), ":");
        let packet = text::join(packet.as_str(), encoding::hex_encode(path.as_bytes()).as_str());
        let sent = self.send_cmd(packet.as_str());
        proof {
            gdb::goes_on_through(h1, self.gdb.history());
        }
        let reply = sent?;
        if text::same(reply.as_str(), "OK") {
            return Ok(());
        }
        let m = text::join(verb, " failed (DeSmuME reply ");
        let m = text::join(m.as_str(), reply.as_str());
        Err(
            emulator_error(
                text::join(
                    m.as_str(),
                    "); the emulator must be paused and the path writable/readable",
                ),
            ),
        )
    }

    /// Reads a pointer for a stack walk.
    pub fn read_ptr_le(&mut self, address: u64) -> (r: Option<u64>)
        requires
            address + 4 <= u64::MAX,
        ensures
            cpu::went_on(*old(self), *final(self)),
            r matches Some(p) ==> p <= u32::MAX,
            forall|h: Seq<GdbStep>|
                gdb::goes_on(final(self).gdb.history(), h) ==> #[trigger] pointer_run(
                    h,
                    old(self).gdb.history().len() as int,
                    old(self)@,
                    address,
                ) == Some((final(self).gdb.history().len() as int, final(self)@, r)),
    {
        match self.read_abs_hex(address, 4) {
            Ok(hex) => decode::le_hex_to_u32(hex.as_str()),
            Err(_) => None,
        }
    }
}

fn add_frames(packet: String, frames: Option<u64>) -> (r: String)
    ensures
        r@ == with_frames(packet@, frames),
{
    match frames {
        Some(n) => text::join(
            text::join(packet.as_str(), ",").as_str(),
            text::hexadecimal_of(n).as_str(),
        ),
        None => packet,
    }
}

/// The packet that forces buttons.
pub fn input_text(mask: u16, frames: Option<u64>) -> (r: String)
    ensures
        r@ == input_packet(mask, frames),
{
    let packet = text::join("QEmucap,input:", text::hexadecimal_of(mask as u64).as_str());
    add_frames(packet, frames)
}

/// The packet that touches the screen.
pub fn touch_text(x: u64, y: u64, frames: Option<u64>) -> (r: String)
    ensures
        r@ == touch_packet(x, y, frames),
{
    let packet = text::join("QEmucap,touch:", text::hexadecimal_of(x).as_str());
    let packet = text::join(packet.as_str(), ",");
    let packet = text::join(packet.as_str(), text::hexadecimal_of(y).as_str());
    add_frames(packet, frames)
}

} // verus!
