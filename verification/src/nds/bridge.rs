//! The bridge over both cores: which core an operation reaches, and what it does to it.
//!
//! A `.._on` function reads the histories of both connections from the places where the cores
//! stand: it gives the cores after the operation and its result.

use vstd::prelude::*;
use crate::encoding;
use crate::gdb;
use crate::gdb::{GdbBridgeEnv, GdbStep, GdbTransport};
use crate::json::{Json, JsonView};
use crate::nds;
use crate::nds::commands;
use crate::nds::cpu;
use crate::nds::cpu::{CoreView, CpuConn, Run};
use crate::nds::timed;
use crate::nds::{CpuId, NdsBridgeError, NdsErrorView, MAX_READ_CHUNK};
use crate::text;

verus! {

/// A breakpoint: an address of a core's code.
#[derive(Debug, Clone, Copy, PartialEq, Eq, Structural)]
pub struct NdsBreakpoint {
    pub id: u64,
    pub cpu: CpuId,
    pub address: u64,
    pub hardware: bool,
}

/// The bridge: the cores with their connections, the breakpoints that are set, and the events that
/// were held back.
pub struct NdsBridge<G> {
    pub arm9: CpuConn<G>,
    pub arm7: Option<CpuConn<G>>,
    pub env: GdbBridgeEnv,
    pub bps: Vec<NdsBreakpoint>,
    pub next_bp: u64,
    pub events: Vec<Json>,
}

/// The histories of both connections.
#[verifier::ext_equal]
pub struct Wires {
    pub nine: Seq<GdbStep>,
    pub seven: Seq<GdbStep>,
}

/// Both cores, each with its place in its history.
#[verifier::ext_equal]
pub struct Cores {
    pub nine: (int, CoreView),
    pub seven: Option<(int, CoreView)>,
}

/// What an operation on the cores comes to.
pub type Ran<T> = Option<(Cores, Result<T, NdsErrorView>)>;

/// Whether histories go on from others.
pub open spec fn wires_go_on(a: Wires, b: Wires) -> bool {
    gdb::goes_on(a.nine, b.nine) && gdb::goes_on(a.seven, b.seven)
}

impl<G: GdbTransport> NdsBridge<G> {
    /// The histories of both connections.
    pub open spec fn wires(&self) -> Wires {
        Wires {
            nine: self.arm9.gdb.history(),
            seven: match self.arm7 {
                Some(c) => c.gdb.history(),
                None => Seq::empty(),
            },
        }
    }

    /// Both cores, at the ends of their histories.
    pub open spec fn cores(&self) -> Cores {
        Cores {
            nine: (self.arm9.gdb.history().len() as int, self.arm9@),
            seven: match self.arm7 {
                Some(c) => Some((c.gdb.history().len() as int, c@)),
                None => None,
            },
        }
    }

    /// The bridge of a core, or of both.
    pub fn new(arm9: G, arm7: Option<G>, env: GdbBridgeEnv) -> (r: Self)
        ensures
            r.env == env,
            r.bps@.len() == 0,
            r.next_bp == 1,
            r.events@.len() == 0,
            gdb::is_sent(r.arm9.gdb.history(), arm9.history().len() as int, "?"@),
            r.arm9@.frozen == gdb::reply_at(
                r.arm9.gdb.history(),
                arm9.history().len() as int,
            ) is Ok,
            r.arm9@.id == CpuId::Arm9,
            r.arm9@.events.len() == 0,
            r.arm7 is Some == arm7 is Some,
            arm7 matches Some(g) ==> {
                let core = r.arm7->0;
                &&& gdb::is_sent(core.gdb.history(), g.history().len() as int, "?"@)
                &&& core@ == (CoreView {
                    id: CpuId::Arm7,
                    frozen: gdb::reply_at(core.gdb.history(), g.history().len() as int) is Ok,
                    events: Seq::empty(),
                })
            },
    {
        NdsBridge {
            arm9: CpuConn::new(CpuId::Arm9, arm9),
            arm7: match arm7 {
                Some(g) => Some(CpuConn::new(CpuId::Arm7, g)),
                None => None,
            },
            env,
            bps: Vec::new(),
            next_bp: 1,
            events: Vec::new(),
        }
    }

    /// Whether a connection is over for good.
    pub fn backend_terminal(&self) -> (r: bool)
        ensures
            r == (self.arm9.gdb.over() || (self.arm7 is Some && self.arm7->0.gdb.over())),
    {
        self.arm9.gdb.is_terminal() || match &self.arm7 {
            Some(core) => core.gdb.is_terminal(),
            None => false,
        }
    }
}

/// Whether an operation left alone everything but the cores.
pub open spec fn kept<G: GdbTransport>(before: NdsBridge<G>, after: NdsBridge<G>) -> bool {
    &&& wires_go_on(before.wires(), after.wires())
    &&& before.arm7 is Some == after.arm7 is Some
    &&& after.env == before.env
    &&& after.bps == before.bps
    &&& after.next_bp == before.next_bp
    &&& after.events == before.events
}

/// Whether an operation did nothing at all.
pub open spec fn idle<G: GdbTransport>(before: NdsBridge<G>, after: NdsBridge<G>) -> bool {
    &&& kept(before, after)
    &&& after.cores() == before.cores()
}

/// Whether an operation on the cores came to a result, told as a report.
pub open spec fn settles<G: GdbTransport, T>(
    before: NdsBridge<G>,
    after: NdsBridge<G>,
    ran: Ran<T>,
    report: spec_fn(T) -> Result<JsonView, NdsErrorView>,
    r: Result<JsonView, NdsErrorView>,
) -> bool {
    &&& kept(before, after)
    &&& ran matches Some((cores, result)) && cores == after.cores() && r == (match result {
        Ok(v) => report(v),
        Err(e) => Err(e),
    })
}

/// Histories go on from themselves.
pub proof fn wires_stay(w: Wires)
    ensures
        wires_go_on(w, w),
{
}

/// Histories that go on from second ones that go on from first ones go on from the first.
pub proof fn wires_go_through(a: Wires, b: Wires)
    requires
        wires_go_on(a, b),
    ensures
        forall|w: Wires| wires_go_on(b, w) ==> #[trigger] wires_go_on(a, w),
{
    gdb::goes_on_through(a.nine, b.nine);
    gdb::goes_on_through(a.seven, b.seven);
}

/// The error of a core that has no connection.
pub open spec fn detached() -> NdsErrorView {
    NdsErrorView::Emulator(
        "ARM7 GDB connection is not attached (launch with an ARM7 endpoint to use arm7 memory/cpu)"@,
    )
}

/// The error of a core that has no connection.
pub fn detached_error() -> (r: NdsBridgeError)
    ensures
        r@ == detached(),
{
    NdsBridgeError::Emulator(
        "ARM7 GDB connection is not attached (launch with an ARM7 endpoint to use arm7 memory/cpu)".to_owned(),
    )
}

/// An operation on one core.
pub open spec fn on_cpu<T>(
    w: Wires,
    s: Cores,
    id: CpuId,
    body: spec_fn(Seq<GdbStep>, int, CoreView) -> Run<T>,
) -> Ran<T> {
    match id {
        CpuId::Arm9 => match body(w.nine, s.nine.0, s.nine.1) {
            None => None,
            Some((n, c, r)) => Some((Cores { nine: (n, c), ..s }, r)),
        },
        CpuId::Arm7 => match s.seven {
            None => Some((s, Err(detached()))),
            Some((n, c)) => match body(w.seven, n, c) {
                None => None,
                Some((m, d, r)) => Some((Cores { seven: Some((m, d)), ..s }, r)),
            },
        },
    }
}

/// Reading the registers of a core.
pub open spec fn regs_on(w: Wires, s: Cores, id: CpuId) -> Ran<Seq<char>> {
    on_cpu(w, s, id, |h: Seq<GdbStep>, n: int, c: CoreView| commands::regs_run(h, n, c))
}

/// Reading the memory of a core.
pub open spec fn read_on(w: Wires, s: Cores, id: CpuId, address: u64, length: u64) -> Ran<Seq<char>> {
    on_cpu(
        w,
        s,
        id,
        |h: Seq<GdbStep>, n: int, c: CoreView| commands::read_run(h, n, c, address, length),
    )
}

/// Writing the memory of a core.
pub open spec fn write_on(w: Wires, s: Cores, id: CpuId, address: u64, hex: Seq<char>) -> Ran<()> {
    on_cpu(
        w,
        s,
        id,
        |h: Seq<GdbStep>, n: int, c: CoreView| commands::write_run(h, n, c, address, hex),
    )
}

/// Sending a command to a core.
pub open spec fn cmd_on(w: Wires, s: Cores, id: CpuId, payload: Seq<char>) -> Ran<Seq<char>> {
    on_cpu(w, s, id, |h: Seq<GdbStep>, n: int, c: CoreView| cpu::cmd_run(h, n, c, payload))
}

/// Disassembling on a core.
pub open spec fn disasm_on(w: Wires, s: Cores, id: CpuId, address: u64, count: u64, mode: Seq<char>) -> Ran<
    Seq<char>,
> {
    on_cpu(
        w,
        s,
        id,
        |h: Seq<GdbStep>, n: int, c: CoreView|
            commands::filled_run(
                h,
                n,
                c,
                commands::disasm_packet(address, count, mode),
                "disassemble: DeSmuME returned an empty reply (bus unavailable)"@,
            ),
    )
}

/// Stepping a core.
pub open spec fn step_on(w: Wires, s: Cores, id: CpuId, count: u64, budget: u64) -> Ran<JsonView> {
    on_cpu(
        w,
        s,
        id,
        |h: Seq<GdbStep>, n: int, c: CoreView| timed::step_run(h, n, c, count, budget),
    )
}

/// Freezing a core.
pub open spec fn pause_on(w: Wires, s: Cores, id: CpuId) -> Ran<bool> {
    on_cpu(w, s, id, |h: Seq<GdbStep>, n: int, c: CoreView| cpu::pause_run(h, n, c))
}

/// Setting a core running.
pub open spec fn resume_on(w: Wires, s: Cores, id: CpuId) -> Ran<()> {
    on_cpu(w, s, id, |h: Seq<GdbStep>, n: int, c: CoreView| cpu::resume_run(h, n, c))
}

/// Reading a pointer of a core; a core without a connection has none.
pub open spec fn pointer_on(w: Wires, s: Cores, id: CpuId, address: u64) -> Option<
    (Cores, Option<u64>),
> {
    match id {
        CpuId::Arm9 => match commands::pointer_run(w.nine, s.nine.0, s.nine.1, address) {
            None => None,
            Some((n, c, p)) => Some((Cores { nine: (n, c), ..s }, p)),
        },
        CpuId::Arm7 => match s.seven {
            None => Some((s, None)),
            Some((n, c)) => match commands::pointer_run(w.seven, n, c, address) {
                None => None,
                Some((m, d, p)) => Some((Cores { seven: Some((m, d)), ..s }, p)),
            },
        },
    }
}

impl<G: GdbTransport> NdsBridge<G> {
    /// Reads the registers of a core.
    pub fn regs_of(&mut self, id: CpuId) -> (r: Result<String, NdsBridgeError>)
        ensures
            kept(*old(self), *final(self)),
            forall|w: Wires|
                wires_go_on(final(self).wires(), w) ==> #[trigger] regs_on(
                    w,
                    old(self).cores(),
                    id,
                ) == Some((final(self).cores(), nds::shown(r))),
    {
        match id {
            CpuId::Arm9 => self.arm9.read_regs_hex(),
            CpuId::Arm7 => match self.arm7.take() {
                None => Err(detached_error()),
                Some(core) => {
                    let mut core = core;
                    let r = core.read_regs_hex();
                    self.arm7 = Some(core);
                    r
                },
            },
        }
    }

    /// Reads the memory of a core.
    pub fn read_of(&mut self, id: CpuId, address: u64, length: u64) -> (r: Result<
        String,
        NdsBridgeError,
    >)
        requires
            address + length <= u64::MAX,
        ensures
            kept(*old(self), *final(self)),
            forall|w: Wires|
                wires_go_on(final(self).wires(), w) ==> #[trigger] read_on(
                    w,
                    old(self).cores(),
                    id,
                    address,
                    length,
                ) == Some((final(self).cores(), nds::shown(r))),
    {
        match id {
            CpuId::Arm9 => self.arm9.read_abs_hex(address, length),
            CpuId::Arm7 => match self.arm7.take() {
                None => Err(detached_error()),
                Some(core) => {
                    let mut core = core;
                    let r = core.read_abs_hex(address, length);
                    self.arm7 = Some(core);
                    r
                },
            },
        }
    }

    /// Writes the memory of a core.
    pub fn write_of(&mut self, id: CpuId, address: u64, hex: &str) -> (r: Result<
        (),
        NdsBridgeError,
    >)
        requires
            address + hex@.len() <= u64::MAX,
        ensures
            kept(*old(self), *final(self)),
            forall|w: Wires|
                wires_go_on(final(self).wires(), w) ==> #[trigger] write_on(
                    w,
                    old(self).cores(),
                    id,
                    address,
                    hex@,
                ) == Some((final(self).cores(), nds::plain(r))),
    {
        match id {
            CpuId::Arm9 => self.arm9.write_abs_hex(address, hex),
            CpuId::Arm7 => match self.arm7.take() {
                None => Err(detached_error()),
                Some(core) => {
                    let mut core = core;
                    let r = core.write_abs_hex(address, hex);
                    self.arm7 = Some(core);
                    r
                },
            },
        }
    }

    /// Sends a command to a core.
    pub fn cmd_of(&mut self, id: CpuId, payload: &str) -> (r: Result<String, NdsBridgeError>)
        ensures
            kept(*old(self), *final(self)),
            forall|w: Wires|
                wires_go_on(final(self).wires(), w) ==> #[trigger] cmd_on(
                    w,
                    old(self).cores(),
                    id,
                    payload@,
                ) == Some((final(self).cores(), nds::shown(r))),
    {
        match id {
            CpuId::Arm9 => self.arm9.send_cmd(payload),
            CpuId::Arm7 => match self.arm7.take() {
                None => Err(detached_error()),
                Some(core) => {
                    let mut core = core;
                    let r = core.send_cmd(payload);
                    self.arm7 = Some(core);
                    r
                },
            },
        }
    }

    /// Disassembles on a core.
    pub fn disasm_of(&mut self, id: CpuId, address: u64, count: u64, mode: &str) -> (r: Result<
        String,
        NdsBridgeError,
    >)
        ensures
            kept(*old(self), *final(self)),
            forall|w: Wires|
                wires_go_on(final(self).wires(), w) ==> #[trigger] disasm_on(
                    w,
                    old(self).cores(),
                    id,
                    address,
                    count,
                    mode@,
                ) == Some((final(self).cores(), nds::shown(r))),
    {
        match id {
            CpuId::Arm9 => self.arm9.disasm_b64(address, count, mode),
            CpuId::Arm7 => match self.arm7.take() {
                None => Err(detached_error()),
                Some(core) => {
                    let mut core = core;
                    let r = core.disasm_b64(address, count, mode);
                    self.arm7 = Some(core);
                    r
                },
            },
        }
    }

    /// Steps a core.
    pub fn step_of(&mut self, id: CpuId, count: u64, budget: u64) -> (r: Result<
        Json,
        NdsBridgeError,
    >)
        ensures
            kept(*old(self), *final(self)),
            forall|w: Wires|
                wires_go_on(final(self).wires(), w) ==> #[trigger] step_on(
                    w,
                    old(self).cores(),
                    id,
                    count,
                    budget,
                ) == Some((final(self).cores(), nds::shown(r))),
    {
        match id {
            CpuId::Arm9 => self.arm9.step_instructions_and_read_state(count, budget),
            CpuId::Arm7 => match self.arm7.take() {
                None => Err(detached_error()),
                Some(core) => {
                    let mut core = core;
                    let r = core.step_instructions_and_read_state(count, budget);
                    self.arm7 = Some(core);
                    r
                },
            },
        }
    }

    /// Freezes a core.
    pub fn pause_of(&mut self, id: CpuId) -> (r: Result<bool, NdsBridgeError>)
        ensures
            kept(*old(self), *final(self)),
            forall|w: Wires|
                wires_go_on(final(self).wires(), w) ==> #[trigger] pause_on(
                    w,
                    old(self).cores(),
                    id,
                ) == Some((final(self).cores(), nds::plain(r))),
    {
        match id {
            CpuId::Arm9 => self.arm9.pause(),
            CpuId::Arm7 => match self.arm7.take() {
                None => Err(detached_error()),
                Some(core) => {
                    let mut core = core;
                    let r = core.pause();
                    self.arm7 = Some(core);
                    r
                },
            },
        }
    }

    /// Sets a core running.
    pub fn resume_of(&mut self, id: CpuId) -> (r: Result<(), NdsBridgeError>)
        ensures
            kept(*old(self), *final(self)),
            forall|w: Wires|
                wires_go_on(final(self).wires(), w) ==> #[trigger] resume_on(
                    w,
                    old(self).cores(),
                    id,
                ) == Some((final(self).cores(), nds::plain(r))),
    {
        match id {
            CpuId::Arm9 => self.arm9.resume(),
            CpuId::Arm7 => match self.arm7.take() {
                None => Err(detached_error()),
                Some(core) => {
                    let mut core = core;
                    let r = core.resume();
                    self.arm7 = Some(core);
                    r
                },
            },
        }
    }

    /// Reads a pointer of a core.
    pub fn pointer_of(&mut self, id: CpuId, address: u64) -> (r: Option<u64>)
        requires
            address + 4 <= u64::MAX,
        ensures
            kept(*old(self), *final(self)),
            r matches Some(p) ==> p <= u32::MAX,
            forall|w: Wires|
                wires_go_on(final(self).wires(), w) ==> #[trigger] pointer_on(
                    w,
                    old(self).cores(),
                    id,
                    address,
                ) == Some((final(self).cores(), r)),
    {
        match id {
            CpuId::Arm9 => self.arm9.read_ptr_le(address),
            CpuId::Arm7 => match self.arm7.take() {
                None => None,
                Some(core) => {
                    let mut core = core;
                    let r = core.read_ptr_le(address);
                    self.arm7 = Some(core);
                    r
                },
            },
        }
    }
}

/// Taking the stops of both cores. A stop of one of them halts both.
pub open spec fn drain_on(w: Wires, s: Cores) -> Ran<()> {
    match cpu::drain_run(w.nine, s.nine.0, s.nine.1) {
        None => None,
        Some((n, c, Err(e))) => Some((Cores { nine: (n, c), ..s }, Err(e))),
        Some((n, c, Ok(()))) => match s.seven {
            None => Some((Cores { nine: (n, c), ..s }, Ok(()))),
            Some((m, d)) => match cpu::drain_run(w.seven, m, d) {
                None => None,
                Some((k, f, Err(e))) => Some(
                    (Cores { nine: (n, c), seven: Some((k, f)) }, Err(e)),
                ),
                Some((k, f, Ok(()))) => {
                    let t = Cores { nine: (n, c), seven: Some((k, f)) };
                    Some(
                        (
                            if c.frozen || f.frozen {
                                all_frozen(t, true)
                            } else {
                                t
                            },
                            Ok(()),
                        ),
                    )
                },
            },
        },
    }
}

/// Both cores frozen, or both running, as far as the bridge knows.
pub open spec fn all_frozen(s: Cores, frozen: bool) -> Cores {
    Cores {
        nine: (s.nine.0, CoreView { frozen, ..s.nine.1 }),
        seven: match s.seven {
            Some((n, c)) => Some((n, CoreView { frozen, ..c })),
            None => None,
        },
    }
}

impl<G: GdbTransport> NdsBridge<G> {
    /// Notes that both cores are frozen, or that both run.
    pub fn set_scheduler_frozen(&mut self, frozen: bool)
        ensures
            kept(*old(self), *final(self)),
            final(self).wires() == old(self).wires(),
            final(self).cores() == all_frozen(old(self).cores(), frozen),
    {
        self.arm9.frozen = frozen;
        if let Some(core) = self.arm7.take() {
            let mut core = core;
            core.frozen = frozen;
            self.arm7 = Some(core);
        }
    }

    /// Takes the stops of both cores.
    pub fn drain_scheduler_stops(&mut self) -> (r: Result<(), NdsBridgeError>)
        ensures
            kept(*old(self), *final(self)),
            forall|w: Wires|
                wires_go_on(final(self).wires(), w) ==> #[trigger] drain_on(
                    w,
                    old(self).cores(),
                ) == Some((final(self).cores(), nds::plain(r))),
    {
        self.arm9.drain_stops()?;
        if let Some(core) = self.arm7.take() {
            let mut core = core;
            let drained = core.drain_stops();
            let frozen = core.frozen;
            self.arm7 = Some(core);
            drained?;
            if self.arm9.frozen || frozen {
                self.set_scheduler_frozen(true);
            }
        }
        Ok(())
    }
}

/// The bytes of a region from an offset on, read in chunks from a core that is held.
pub open spec fn region_run(
    h: Seq<GdbStep>,
    n: int,
    core: CoreView,
    address: u64,
    length: u64,
    offset: int,
    read: Seq<u8>,
) -> Run<Seq<u8>>
    decreases length - offset,
{
    if offset >= length {
        Some((n, core, Ok(read)))
    } else {
        let chunk = commands::chunk_of(length - offset, MAX_READ_CHUNK);
        match commands::read_run(h, n, core, (address + offset) as u64, chunk as u64) {
            None => None,
            Some((m, c, Err(e))) => Some((m, c, Err(e))),
            Some((m, c, Ok(hex))) => match encoding::hex_bytes(hex) {
                None => Some((m, c, commands::fault("GDB returned invalid hex"@))),
                Some(bytes) => if bytes.len() != chunk {
                    Some(
                        (
                            m,
                            c,
                            commands::fault(short_read(address + offset, chunk, bytes.len() as int)),
                        ),
                    )
                } else {
                    region_run(h, m, c, address, length, offset + chunk, read + bytes)
                },
            },
        }
    }
}

/// The message that a read gave another number of bytes than asked for.
pub open spec fn short_read(address: int, wanted: int, got: int) -> Seq<char> {
    let m = ("short GDB read at "@ + text::prefixed_hex(address as nat)) + ": requested "@;
    ((m + text::decimal(wanted)) + " bytes, got "@) + text::decimal(got)
}

impl<G: GdbTransport> CpuConn<G> {
    /// Reads the bytes of a region in chunks.
    pub fn read_region(&mut self, address: u64, length: u64) -> (r: Result<
        Vec<u8>,
        NdsBridgeError,
    >)
        requires
            address + length <= u64::MAX,
        ensures
            cpu::went_on(*old(self), *final(self)),
            r matches Ok(bytes) ==> bytes@.len() == length,
            forall|h: Seq<GdbStep>|
                gdb::goes_on(final(self).gdb.history(), h) ==> #[trigger] region_run(
                    h,
                    old(self).gdb.history().len() as int,
                    old(self)@,
                    address,
                    length,
                    0,
                    Seq::empty(),
                ) == Some((final(self).gdb.history().len() as int, final(self)@, nds::shown(r))),
    {
        let ghost n = self.gdb.history().len() as int;
        let ghost start = self@;
        let mut read: Vec<u8> = Vec::new();
        let mut offset: u64 = 0;
        while offset < length
            invariant
                offset <= length,
                read@.len() == offset,
                address + length <= u64::MAX,
                n == old(self).gdb.history().len(),
                start == old(self)@,
                cpu::went_on(*old(self), *self),
                forall|h: Seq<GdbStep>|
                    gdb::goes_on(self.gdb.history(), h) ==> #[trigger] region_run(
                        h,
                        n,
                        start,
                        address,
                        length,
                        0,
                        Seq::empty(),
                    ) == region_run(
                        h,
                        self.gdb.history().len() as int,
                        self@,
                        address,
                        length,
                        offset as int,
                        read@,
                    ),
            decreases length - offset,
        {
            let chunk: u64 = if length - offset < MAX_READ_CHUNK {
                length - offset
            } else {
                MAX_READ_CHUNK
            };
            let ghost here = self.gdb.history();
            let ghost core = self@;
            let sent = self.read_abs_hex(address + offset, chunk);
            proof {
                let now = self.gdb.history();
                gdb::goes_on_through(here, now);
                assert forall|h: Seq<GdbStep>| gdb::goes_on(now, h) implies {
                    &&& gdb::goes_on(here, h)
                    &&& #[trigger] commands::read_run(
                        h,
                        here.len() as int,
                        core,
                        (address + offset) as u64,
                        chunk,
                    ) == Some((now.len() as int, self@, nds::shown(sent)))
                } by {
                    assert(gdb::goes_on(here, h));
                }
            }
            let hex = sent?;
            let bytes = match encoding::hex_decode(hex.as_str()) {
                Some(bytes) => bytes,
                None => {
                    return Err(NdsBridgeError::Emulator("GDB returned invalid hex".to_owned()));
                },
            };
            if bytes.len() as u64 != chunk {
                let m = text::join(
                    "short GDB read at ",
                    text::prefixed_hex_of(address + offset).as_str(),
                );
                let m = text::join(m.as_str(), ": requested ");
                let m = text::join(m.as_str(), text::decimal_of(chunk).as_str());
                let m = text::join(m.as_str(), " bytes, got ");
                return Err(
                    NdsBridgeError::Emulator(
                        text::join(m.as_str(), text::decimal_of(bytes.len() as u64).as_str()),
                    ),
                );
            }
            let mut bytes = bytes;
            read.append(&mut bytes);
            offset = offset + chunk;
        }
        Ok(read)
    }
}

/// Reading the bytes of a core's bus while both cores are frozen. Cores that the bridge froze for
/// it run again afterwards, also where freezing the second one fails.
pub open spec fn snapshot_on(w: Wires, s: Cores, id: CpuId, address: u64, length: u64) -> Ran<
    Seq<u8>,
> {
    match cpu::enter_run(w.nine, s.nine.0, s.nine.1) {
        None => None,
        Some((n, c, Err(e))) => Some((Cores { nine: (n, c), ..s }, Err(e))),
        Some((n, c, Ok(again))) => match s.seven {
            None => snapshot_body(w, Cores { nine: (n, c), ..s }, id, address, length, again, false),
            Some((m, d)) => match cpu::enter_run(w.seven, m, d) {
                None => None,
                Some((k, f, Err(e))) => match cpu::leave_run(w.nine, n, c, again) {
                    None => None,
                    Some((j, g)) => Some((Cores { nine: (j, g), seven: Some((k, f)) }, Err(e))),
                },
                Some((k, f, Ok(also))) => snapshot_body(
                    w,
                    Cores { nine: (n, c), seven: Some((k, f)) },
                    id,
                    address,
                    length,
                    again,
                    also,
                ),
            },
        },
    }
}

/// Reading the bytes of a core's bus, and setting the cores running again.
pub open spec fn snapshot_body(
    w: Wires,
    s: Cores,
    id: CpuId,
    address: u64,
    length: u64,
    again: bool,
    also: bool,
) -> Ran<Seq<u8>> {
    match on_cpu(
        w,
        s,
        id,
        |h: Seq<GdbStep>, n: int, c: CoreView|
            region_run(h, n, c, address, length, 0, Seq::empty()),
    ) {
        None => None,
        Some((t, r)) => match cpu::leave_run(w.nine, t.nine.0, t.nine.1, again) {
            None => None,
            Some((n, c)) => match t.seven {
                None => Some((Cores { nine: (n, c), ..t }, r)),
                Some((m, d)) => match cpu::leave_run(w.seven, m, d, also) {
                    None => None,
                    Some((k, f)) => Some((Cores { nine: (n, c), seven: Some((k, f)) }, r)),
                },
            },
        },
    }
}

impl<G: GdbTransport> NdsBridge<G> {
    /// Reads the bytes of a core's bus while both cores are frozen.
    #[verifier::spinoff_prover]
    #[verifier::rlimit(60)]
    pub fn snapshot(&mut self, id: CpuId, address: u64, length: u64) -> (r: Result<
        Vec<u8>,
        NdsBridgeError,
    >)
        requires
            address + length <= u64::MAX,
        ensures
            kept(*old(self), *final(self)),
            r matches Ok(bytes) ==> bytes@.len() == length,
            forall|w: Wires|
                wires_go_on(final(self).wires(), w) ==> #[trigger] snapshot_on(
                    w,
                    old(self).cores(),
                    id,
                    address,
                    length,
                ) == Some((final(self).cores(), nds::shown(r))),
    {
        let entered = self.arm9.enter();
        let ghost a1 = self.arm9.gdb.history();
        let again = entered?;
        match self.arm7.take() {
            None => {
                let r = match id {
                    CpuId::Arm9 => self.arm9.read_region(address, length),
                    CpuId::Arm7 => Err(detached_error()),
                };
                let ghost a2 = self.arm9.gdb.history();
                self.arm9.leave(again);
                proof {
                    gdb::goes_on_through(a1, a2);
                    gdb::goes_on_through(a2, self.arm9.gdb.history());
                }
                r
            },
            Some(core) => {
                let mut core = core;
                let entered = core.enter();
                let ghost b1 = core.gdb.history();
                let also = match entered {
                    Ok(also) => also,
                    Err(error) => {
                        self.arm9.leave(again);
                        proof {
                            gdb::goes_on_through(a1, self.arm9.gdb.history());
                        }
                        self.arm7 = Some(core);
                        return Err(error);
                    },
                };
                let r = match id {
                    CpuId::Arm9 => self.arm9.read_region(address, length),
                    CpuId::Arm7 => core.read_region(address, length),
                };
                let ghost a2 = self.arm9.gdb.history();
                let ghost b2 = core.gdb.history();
                self.arm9.leave(again);
                core.leave(also);
                proof {
                    assert(gdb::goes_on(a1, a2));
                    assert(gdb::goes_on(b1, b2));
                    gdb::goes_on_through(a1, a2);
                    gdb::goes_on_through(a2, self.arm9.gdb.history());
                    gdb::goes_on_through(b1, b2);
                    gdb::goes_on_through(b2, core.gdb.history());
                }
                self.arm7 = Some(core);
                r
            },
        }
    }
}

} // verus!
