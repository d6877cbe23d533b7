//! Looking into the frozen machine: registers, work memory and the call stack.

use vstd::prelude::*;
use crate::encoding;
use crate::gdb;
use crate::gdb::{GdbStep, GdbTransport};
use crate::json::{Json, JsonView};
use crate::neogeo;
use crate::neogeo::hits;
use crate::neogeo::machine;
use crate::neogeo::machine::{MachineView, NeoGeoBridge, Run};
use crate::neogeo::packets;
use crate::neogeo::packets::REGISTER_COUNT;
use crate::neogeo::params;
use crate::neogeo::stack;
use crate::neogeo::{BridgeError, BridgeErrorView, NeoGeoProfile, MAX_READ};
use crate::text;

verus! {

/// The registers of a packet.
pub open spec fn packet_registers(raw: Seq<char>) -> Result<JsonView, BridgeErrorView> {
    match encoding::hex_bytes(text::trimmed(raw)) {
        None => neogeo::fault("invalid MAME register packet"@),
        Some(bytes) => if bytes.len() != REGISTER_COUNT * 4 {
            neogeo::fault(
                "unexpected M68000 register packet length: "@ + text::decimal(bytes.len() as int),
            )
        } else {
            Ok(packets::registers(bytes, REGISTER_COUNT as nat))
        },
    }
}

fn read_packet_registers(raw: &str) -> (r: Result<Json, BridgeError>)
    ensures
        neogeo::shown(r) == packet_registers(raw@),
{
    match encoding::hex_decode(text::trim(raw).as_str()) {
        None => Err(BridgeError::Emulator("invalid MAME register packet".to_owned())),
        Some(bytes) => if bytes.len() != REGISTER_COUNT * 4 {
            Err(
                BridgeError::Emulator(
                    text::join(
                        "unexpected M68000 register packet length: ",
                        text::decimal_of(bytes.len() as u64).as_str(),
                    ),
                ),
            )
        } else {
            Ok(packets::read_registers(bytes.as_slice()))
        },
    }
}

/// Reading the registers.
pub open spec fn get_state_run(h: Seq<GdbStep>, n: int, s: MachineView) -> Run<JsonView> {
    match machine::frozen_check(s, "get_state"@) {
        Err(e) => Some((n, s, Err(e))),
        Ok(()) => match machine::sent_run(h, n, s, "g"@) {
            None => None,
            Some((m, t, Err(e))) => Some((m, t, Err(e))),
            Some((m, t, Ok(raw))) => match packet_registers(raw) {
                Err(e) => Some((m, t, Err(e))),
                Ok(regs) => match machine::frame_run(h, m, t) {
                    None => None,
                    Some((k, u, Err(e))) => Some((k, u, Err(e))),
                    Some((k, u, Ok(frame))) => Some(
                        (
                            k,
                            u,
                            Ok(
                                JsonView::object().with("M68K"@, regs).with(
                                    "frame"@,
                                    JsonView::Unsigned(frame),
                                ),
                            ),
                        ),
                    ),
                },
            },
        },
    }
}

/// What a read asks for: the length, and the address in the machine.
pub open spec fn read_target(profile: NeoGeoProfile, params: JsonView) -> Result<
    (u64, u64),
    BridgeErrorView,
> {
    match params::required(params, "length"@) {
        Err(e) => Err(e),
        Ok(length) => if length > MAX_READ {
            neogeo::bad(
                (("read length "@ + text::prefixed_hex(length as nat)) + " exceeds "@)
                    + text::prefixed_hex(MAX_READ as nat),
            )
        } else {
            match params::place_of(profile, params, length) {
                Err(e) => Err(e),
                Ok(address) => Ok((length, address)),
            }
        },
    }
}

/// What a read holds.
pub open spec fn read_report(params: JsonView, length: u64, raw: Seq<char>) -> Result<
    JsonView,
    BridgeErrorView,
> {
    match encoding::hex_bytes(text::trimmed(raw)) {
        None => neogeo::fault("invalid MAME memory response"@),
        Some(data) => if data.len() != length {
            neogeo::fault(
                (("short MAME memory response: expected "@ + text::decimal(length as int))
                    + ", got "@) + text::decimal(data.len() as int),
            )
        } else {
            match params::required(params, "address"@) {
                Err(e) => Err(e),
                Ok(offset) => Ok(
                    JsonView::object().with("address"@, JsonView::Unsigned(offset)).with(
                        "length"@,
                        JsonView::Unsigned(length),
                    ).with("hex"@, JsonView::Str(encoding::hex_text(data))),
                ),
            }
        },
    }
}

fn describe_read(params: &Json, length: u64, raw: &str) -> (r: Result<Json, BridgeError>)
    ensures
        neogeo::shown(r) == read_report(params@, length, raw@),
{
    match encoding::hex_decode(text::trim(raw).as_str()) {
        None => Err(BridgeError::Emulator("invalid MAME memory response".to_owned())),
        Some(data) => if data.len() as u64 != length {
            let m = text::join(
                "short MAME memory response: expected ",
                text::decimal_of(length).as_str(),
            );
            let m = text::join(m.as_str(), ", got ");
            Err(
                BridgeError::Emulator(
                    text::join(m.as_str(), text::decimal_of(data.len() as u64).as_str()),
                ),
            )
        } else {
            let offset: u64 = params::required_num(params, "address")?;
            Ok(
                Json::object().with("address", Json::Unsigned(offset)).with(
                    "length",
                    Json::Unsigned(length),
                ).with("hex", Json::text(encoding::hex_encode(data.as_slice()).as_str())),
            )
        },
    }
}

/// Reading the work memory.
pub open spec fn read_memory_run(h: Seq<GdbStep>, n: int, s: MachineView, params: JsonView) -> Run<
    JsonView,
> {
    match machine::frozen_check(s, "read_memory"@) {
        Err(e) => Some((n, s, Err(e))),
        Ok(()) => match read_target(s.profile, params) {
            Err(e) => Some((n, s, Err(e))),
            Ok((length, address)) => match machine::sent_run(
                h,
                n,
                s,
                hits::read_packet(address, length),
            ) {
                None => None,
                Some((m, t, Err(e))) => Some((m, t, Err(e))),
                Some((m, t, Ok(raw))) => Some((m, t, read_report(params, length, raw))),
            },
        },
    }
}

/// The bytes that a request writes, by either of their names.
pub open spec fn written_bytes(params: JsonView) -> Result<Seq<u8>, BridgeErrorView> {
    let value = if params.field("hex"@) is Some {
        params.field("hex"@)
    } else {
        params.field("data"@)
    };
    match value {
        None => neogeo::bad("missing required param: hex"@),
        Some(v) => match v.as_text() {
            None => neogeo::bad("missing required param: hex"@),
            Some(raw) => match encoding::hex_bytes(raw) {
                None => neogeo::bad("hex must contain complete bytes"@),
                Some(data) => Ok(data),
            },
        },
    }
}

/// What some bytes hold, or why there are none.
pub open spec fn shown_bytes(r: Result<Vec<u8>, BridgeError>) -> Result<Seq<u8>, BridgeErrorView> {
    match r {
        Ok(v) => Ok(v@),
        Err(e) => Err(e@),
    }
}

fn read_written(params: &Json) -> (r: Result<Vec<u8>, BridgeError>)
    ensures
        shown_bytes(r) == written_bytes(params@),
{
    let value = match params.get("hex") {
        Some(value) => Some(value),
        None => params.get("data"),
    };
    let raw = match value {
        Some(value) => value.as_str(),
        None => None,
    };
    match raw {
        None => Err(BridgeError::BadParams("missing required param: hex".to_owned())),
        Some(raw) => match encoding::hex_decode(raw) {
            None => Err(BridgeError::BadParams("hex must contain complete bytes".to_owned())),
            Some(data) => Ok(data),
        },
    }
}

/// The packet that writes memory.
pub open spec fn write_packet(address: u64, data: Seq<u8>) -> Seq<char> {
    (((("M"@ + text::hexadecimal(address as nat)) + ","@) + text::hexadecimal(data.len())) + ":"@)
        + encoding::hex_text(data)
}

/// Writing the work memory.
pub open spec fn write_memory_run(h: Seq<GdbStep>, n: int, s: MachineView, params: JsonView) -> Run<
    JsonView,
> {
    match machine::frozen_check(s, "write_memory"@) {
        Err(e) => Some((n, s, Err(e))),
        Ok(()) => match written_bytes(params) {
            Err(e) => Some((n, s, Err(e))),
            Ok(data) => match params::place_of(s.profile, params, data.len() as u64) {
                Err(e) => Some((n, s, Err(e))),
                Ok(address) => match machine::sent_run(h, n, s, write_packet(address, data)) {
                    None => None,
                    Some((m, t, Err(e))) => Some((m, t, Err(e))),
                    Some((m, t, Ok(reply))) => Some((m, t, write_report(params, data, reply))),
                },
            },
        },
    }
}

/// What a write comes to.
pub open spec fn write_report(params: JsonView, data: Seq<u8>, reply: Seq<char>) -> Result<
    JsonView,
    BridgeErrorView,
> {
    if reply != "OK"@ {
        neogeo::fault("MAME memory write failed: "@ + reply)
    } else {
        match params::required(params, "address"@) {
            Err(e) => Err(e),
            Ok(offset) => Ok(
                JsonView::object().with("written"@, JsonView::Unsigned(data.len() as u64)).with(
                    "address"@,
                    JsonView::Unsigned(offset),
                ),
            ),
        }
    }
}

/// Reading the call stack.
pub open spec fn call_stack_run(h: Seq<GdbStep>, n: int, s: MachineView, params: JsonView) -> Run<
    JsonView,
> {
    match params::cpu_check(params) {
        Err(e) => Some((n, s, Err(e))),
        Ok(()) => match machine::frozen_check(s, "call_stack"@) {
            Err(e) => Some((n, s, Err(e))),
            Ok(()) => match machine::lua_run(h, n, s, "callstack"@, None) {
                None => None,
                Some((m, t, Err(e))) => Some((m, t, Err(e))),
                Some((m, t, Ok(raw))) => Some(
                    (
                        m,
                        t,
                        match stack::stack_of(raw) {
                            Err(e) => Err(e),
                            Ok(told) => Ok(stack::stack_report(told)),
                        },
                    ),
                ),
            },
        },
    }
}

/// A running machine is not looked into and not written to: the request is refused before anything
/// is sent.
pub proof fn running_machines_are_left_alone(
    h: Seq<GdbStep>,
    n: int,
    s: MachineView,
    params: JsonView,
)
    requires
        !s.frozen,
    ensures
        get_state_run(h, n, s) matches Some((m, t, Err(BridgeErrorView::BadState(_)))) && m == n
            && t == s,
        read_memory_run(h, n, s, params) matches Some((m, t, Err(BridgeErrorView::BadState(_))))
            && m == n && t == s,
        write_memory_run(h, n, s, params) matches Some((m, t, Err(BridgeErrorView::BadState(_))))
            && m == n && t == s,
        call_stack_run(h, n, s, params) matches Some((m, t, Err(_))) && m == n && t == s,
{
}

/// What is written and then read back unchanged is told as it was written: the packet of the write
/// and the report of the read hold the same hexadecimal text.
pub proof fn reads_tell_what_was_written(params: JsonView, data: Seq<u8>, length: u64)
    requires
        length == data.len(),
        params::required(params, "address"@) is Ok,
    ensures
        read_report(params, length, encoding::hex_text(data)) == Ok::<_, BridgeErrorView>(
            JsonView::object().with(
                "address"@,
                JsonView::Unsigned(params::required(params, "address"@)->Ok_0),
            ).with("length"@, JsonView::Unsigned(length)).with(
                "hex"@,
                JsonView::Str(encoding::hex_text(data)),
            ),
        ),
{
    encoding::hex_round_trip(data);
    let s = encoding::hex_text(data);
    assert forall|i: int| 0 <= i < s.len() implies !text::is_space(#[trigger] s[i]) by {
        assert(0 <= data[i / 2] / 16 < 16 && 0 <= data[i / 2] % 16 < 16);
    }
    assert(text::left_trimmed(s) == s);
    assert(text::right_trimmed(s) == s);
}

impl<G: GdbTransport> NeoGeoBridge<G> {
    /// Reads the registers.
    pub fn get_state(&mut self) -> (r: Result<Json, BridgeError>)
        ensures
            machine::settles(
                *old(self),
                *final(self),
                get_state_run(
                    final(self).gdb.history(),
                    old(self).gdb.history().len() as int,
                    old(self)@,
                ),
                neogeo::shown(r),
            ),
    {
        broadcast use gdb::goes_on_further;

        self.require_frozen("get_state")?;
        let raw = self.sent("g")?;
        let regs = read_packet_registers(raw.as_str())?;
        let frame: u64 = self.current_frame()?;
        Ok(Json::object().with("M68K", regs).with("frame", Json::Unsigned(frame)))
    }

    /// Reads the work memory.
    pub fn read_memory(&mut self, params: &Json) -> (r: Result<Json, BridgeError>)
        ensures
            machine::settles(
                *old(self),
                *final(self),
                read_memory_run(
                    final(self).gdb.history(),
                    old(self).gdb.history().len() as int,
                    old(self)@,
                    params@,
                ),
                neogeo::shown(r),
            ),
    {
        self.require_frozen("read_memory")?;
        let length: u64 = params::required_num(params, "length")?;
        if length > MAX_READ {
            let m = text::join("read length ", text::prefixed_hex_of(length).as_str());
            let m = text::join(m.as_str(), " exceeds ");
            return Err(
                BridgeError::BadParams(
                    text::join(m.as_str(), text::prefixed_hex_of(MAX_READ).as_str()),
                ),
            );
        }
        let address: u64 = params::region_address(self.profile, params, length)?;
        let raw = self.sent(hits::read_command(address, length).as_str())?;
        describe_read(params, length, raw.as_str())
    }

    /// Writes the work memory.
    pub fn write_memory(&mut self, params: &Json) -> (r: Result<Json, BridgeError>)
        ensures
            machine::settles(
                *old(self),
                *final(self),
                write_memory_run(
                    final(self).gdb.history(),
                    old(self).gdb.history().len() as int,
                    old(self)@,
                    params@,
                ),
                neogeo::shown(r),
            ),
    {
        self.require_frozen("write_memory")?;
        let data = read_written(params)?;
        let size: u64 = data.len() as u64;
        let address: u64 = params::region_address(self.profile, params, size)?;
        let m = text::join("M", text::hexadecimal_of(address).as_str());
        let m = text::join(m.as_str(), ",");
        let m = text::join(m.as_str(), text::hexadecimal_of(size).as_str());
        let m = text::join(m.as_str(), ":");
        let packet = text::join(m.as_str(), encoding::hex_encode(data.as_slice()).as_str());
        let reply = self.sent(packet.as_str())?;
        if !text::same(reply.as_str(), "OK") {
            return Err(
                BridgeError::Emulator(text::join("MAME memory write failed: ", reply.as_str())),
            );
        }
        let offset: u64 = params::required_num(params, "address")?;
        Ok(
            Json::object().with("written", Json::Unsigned(size)).with(
                "address",
                Json::Unsigned(offset),
            ),
        )
    }

    /// Reads the call stack.
    pub fn call_stack(&mut self, params: &Json) -> (r: Result<Json, BridgeError>)
        ensures
            machine::settles(
                *old(self),
                *final(self),
                call_stack_run(
                    final(self).gdb.history(),
                    old(self).gdb.history().len() as int,
                    old(self)@,
                    params@,
                ),
                neogeo::shown(r),
            ),
    {
        params::require_main_cpu(params)?;
        self.require_frozen("call_stack")?;
        let raw = self.lua_cmd("callstack", None)?;
        proof {
            if stack::stack_of(raw@) is Ok {
                stack::told_stacks_are_whole(raw@);
            }
        }
        let told = stack::parse_stack(raw.as_str())?;
        Ok(stack::describe_stack(&told))
    }
}

} // verus!
