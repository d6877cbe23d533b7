//! The parts of requests that work with files: saved states, screenshots, disassembly listings and
//! the description of the game.

use vstd::prelude::*;
use crate::encoding;
use crate::gdb;
use crate::gdb::{GdbStep, GdbTransport};
use crate::json::{Json, JsonView};
use crate::neogeo;
use crate::neogeo::control;
use crate::neogeo::machine;
use crate::neogeo::machine::{MachineView, NeoGeoBridge, Run};
use crate::neogeo::packets;
use crate::neogeo::params;
use crate::neogeo::{
    BridgeError,
    BridgeErrorView,
    MAX_DASM_COUNT,
    MAX_DASM_OUTPUT_BYTES,
    MAX_PROGRAM_ADDRESS,
    STATE_OPERATION_TIMEOUT_NS,
};
use crate::text;

verus! {

/// What is done with a state.
#[derive(Debug, Clone, Copy, PartialEq, Eq, Structural)]
pub enum StateVerb {
    Save,
    Load,
}

impl StateVerb {
    /// What the request is called.
    pub open spec fn request(self) -> Seq<char> {
        match self {
            StateVerb::Save => "save_state"@,
            StateVerb::Load => "load_state"@,
        }
    }

    /// What the command of the machine is called.
    pub open spec fn command(self) -> Seq<char> {
        match self {
            StateVerb::Save => "savesync"@,
            StateVerb::Load => "loadsync"@,
        }
    }
}

/// The path of a request that saves or loads a state, which needs a frozen machine.
pub open spec fn state_request(s: MachineView, verb: StateVerb, params: JsonView) -> Result<
    Seq<char>,
    BridgeErrorView,
> {
    match machine::frozen_check(s, verb.request()) {
        Err(e) => Err(e),
        Ok(()) => params::path_of(params, "path"@),
    }
}

/// Saving or loading a state in the machine, under a timeout of its own.
pub open spec fn state_run(h: Seq<GdbStep>, n: int, s: MachineView, verb: StateVerb, path: Seq<char>) -> Run<
    (),
> {
    match machine::timed_run(h, n, s, verb.command(), Some(path), STATE_OPERATION_TIMEOUT_NS) {
        None => None,
        Some((m, t, Err(e))) => Some((m, t, Err(e))),
        Some((m, t, Ok(reply))) => Some(
            (
                m,
                t,
                if reply == "OK"@ {
                    Ok(())
                } else {
                    neogeo::fault(
                        (("MAME "@ + verb.command()) + " returned an unexpected response: "@)
                            + reply,
                    )
                },
            ),
        ),
    }
}

/// Reading the frame of the machine, which stands after a state was saved or loaded.
pub open spec fn standing_run(h: Seq<GdbStep>, n: int, s: MachineView) -> Run<u64> {
    machine::frame_run(h, n, MachineView { frozen: true, ..s })
}

/// The name of the file that a state is written to before it is published.
pub open spec fn partial_text(name: Option<Seq<char>>, process: u64, nanos: u64) -> Seq<char> {
    let base = match name {
        Some(name) => name,
        None => "state"@,
    };
    (((("."@ + base) + ".partial."@) + text::decimal(process as int)) + "."@) + text::decimal(
        nanos as int,
    )
}

/// The name of the file that a state is written to before it is published.
pub fn partial_name(name: Option<&str>, process: u64, nanos: u64) -> (r: String)
    ensures
        r@ == partial_text(machine::shown_text(name), process, nanos),
{
    let base = match name {
        Some(name) => name,
        None => "state",
    };
    let m = text::join(".", base);
    let m = text::join(m.as_str(), ".partial.");
    let m = text::join(m.as_str(), text::decimal_of(process).as_str());
    let m = text::join(m.as_str(), ".");
    text::join(m.as_str(), text::decimal_of(nanos).as_str())
}

/// The refusal of a path that names no file in a directory.
pub fn missing_parent(path: &str) -> (r: BridgeError)
    ensures
        r@ == BridgeErrorView::BadParams("save path has no parent directory: "@ + path@),
{
    BridgeError::BadParams(text::join("save path has no parent directory: ", path))
}

/// How far a save has come.
#[derive(Debug, Clone, Copy, PartialEq, Eq, Structural)]
pub enum SaveStage {
    /// The directory is made, and an old partial file dropped.
    Preparing,
    /// The machine writes the partial file.
    Writing,
    /// The partial file is measured.
    Measuring,
    /// The partial file replaces the state.
    Publishing,
    /// The state is read back.
    Digesting,
    /// The frame is read.
    Framing,
    /// The save is over.
    Ended,
}

/// What came of the last action of a save.
#[derive(Debug)]
pub enum SaveEvent {
    Prepared(Result<(), String>),
    Written(Result<(), BridgeError>),
    Measured(Result<u64, String>),
    Published(Result<(), String>),
    /// The length of the state and its digest.
    Digested(Result<(u64, String), String>),
    Framed(Result<u64, BridgeError>),
}

/// What an event holds.
pub enum SaveEventView {
    Prepared(Result<(), Seq<char>>),
    Written(Result<(), BridgeErrorView>),
    Measured(Result<u64, Seq<char>>),
    Published(Result<(), Seq<char>>),
    Digested(Result<(u64, Seq<char>), Seq<char>>),
    Framed(Result<u64, BridgeErrorView>),
}

/// What came of an action, its failure in words.
pub open spec fn shown_outcome<T>(r: Result<T, String>) -> Result<T, Seq<char>> {
    match r {
        Ok(v) => Ok(v),
        Err(m) => Err(m@),
    }
}

impl View for SaveEvent {
    type V = SaveEventView;

    open spec fn view(&self) -> SaveEventView {
        match *self {
            SaveEvent::Prepared(r) => SaveEventView::Prepared(shown_outcome(r)),
            SaveEvent::Written(r) => SaveEventView::Written(neogeo::plain(r)),
            SaveEvent::Measured(r) => SaveEventView::Measured(shown_outcome(r)),
            SaveEvent::Published(r) => SaveEventView::Published(shown_outcome(r)),
            SaveEvent::Digested(r) => SaveEventView::Digested(
                match r {
                    Ok((n, digest)) => Ok((n, digest@)),
                    Err(m) => Err(m@),
                },
            ),
            SaveEvent::Framed(r) => SaveEventView::Framed(neogeo::plain(r)),
        }
    }
}

/// What is to be done next in a save.
#[derive(Debug)]
pub enum SaveAction {
    /// Make the directory of the state, and drop a partial file that is there.
    Prepare,
    /// Let the machine write the partial file.
    Write,
    /// Measure the partial file.
    Measure,
    /// Replace the state by the partial file.
    Publish,
    /// Drop the partial file, and read the state.
    Digest,
    /// Read the frame.
    Frame,
    /// End with a result.
    Finish(Result<Json, BridgeError>),
    /// Drop the partial file, and end with a failure.
    Abandon(BridgeError),
}

/// What an action holds.
pub enum SaveActionView {
    Prepare,
    Write,
    Measure,
    Publish,
    Digest,
    Frame,
    Finish(Result<JsonView, BridgeErrorView>),
    Abandon(BridgeErrorView),
}

impl View for SaveAction {
    type V = SaveActionView;

    open spec fn view(&self) -> SaveActionView {
        match *self {
            SaveAction::Prepare => SaveActionView::Prepare,
            SaveAction::Write => SaveActionView::Write,
            SaveAction::Measure => SaveActionView::Measure,
            SaveAction::Publish => SaveActionView::Publish,
            SaveAction::Digest => SaveActionView::Digest,
            SaveAction::Frame => SaveActionView::Frame,
            SaveAction::Finish(r) => SaveActionView::Finish(neogeo::shown(r)),
            SaveAction::Abandon(e) => SaveActionView::Abandon(e@),
        }
    }
}

/// A save under way.
#[derive(Debug)]
pub struct StateSave {
    pub path: String,
    pub stage: SaveStage,
    pub bytes: u64,
    pub sha256: String,
}

/// What a save under way holds.
pub struct SaveView {
    pub path: Seq<char>,
    pub stage: SaveStage,
    pub bytes: u64,
    pub sha256: Seq<char>,
}

impl View for StateSave {
    type V = SaveView;

    open spec fn view(&self) -> SaveView {
        SaveView { path: self.path@, stage: self.stage, bytes: self.bytes, sha256: self.sha256@ }
    }
}

/// The report of a saved state.
pub open spec fn save_report(path: Seq<char>, bytes: u64, sha256: Seq<char>, frame: u64) -> JsonView {
    JsonView::object().with("status"@, JsonView::Str("completed"@)).with(
        "path"@,
        JsonView::Str(path),
    ).with("format"@, JsonView::Str("mame-native"@)).with("bytes"@, JsonView::Unsigned(bytes)).with(
        "sha256"@,
        JsonView::Str(sha256),
    ).with("state"@, JsonView::Str("frozen"@)).with("frame"@, JsonView::Unsigned(frame))
}

/// A save at a stage.
pub open spec fn at_stage(save: SaveView, stage: SaveStage) -> SaveView {
    SaveView { stage, ..save }
}

/// A save given up after a failure of the file system.
pub open spec fn given_up(save: SaveView, message: Seq<char>) -> (SaveView, SaveActionView) {
    (at_stage(save, SaveStage::Ended), SaveActionView::Abandon(BridgeErrorView::Io(message)))
}

/// The error of a save whose events come out of order.
pub open spec fn out_of_order() -> BridgeErrorView {
    BridgeErrorView::BadState("Neo Geo save events are out of order"@)
}

/// What an event of a save leads to.
pub open spec fn next_save(save: SaveView, event: SaveEventView) -> (SaveView, SaveActionView) {
    match (save.stage, event) {
        (SaveStage::Preparing, SaveEventView::Prepared(r)) => match r {
            Ok(()) => (at_stage(save, SaveStage::Writing), SaveActionView::Write),
            Err(m) => (
                at_stage(save, SaveStage::Ended),
                SaveActionView::Finish(Err(BridgeErrorView::Io(m))),
            ),
        },
        (SaveStage::Writing, SaveEventView::Written(r)) => match r {
            Ok(()) => (at_stage(save, SaveStage::Measuring), SaveActionView::Measure),
            Err(e) => (at_stage(save, SaveStage::Ended), SaveActionView::Abandon(e)),
        },
        (SaveStage::Measuring, SaveEventView::Measured(r)) => match r {
            Ok(length) => if length == 0 {
                (
                    at_stage(save, SaveStage::Ended),
                    SaveActionView::Abandon(
                        BridgeErrorView::Emulator(
                            "MAME save completed with an empty state file"@,
                        ),
                    ),
                )
            } else {
                (at_stage(save, SaveStage::Publishing), SaveActionView::Publish)
            },
            Err(m) => given_up(save, m),
        },
        (SaveStage::Publishing, SaveEventView::Published(r)) => match r {
            Ok(()) => (at_stage(save, SaveStage::Digesting), SaveActionView::Digest),
            Err(m) => given_up(save, m),
        },
        (SaveStage::Digesting, SaveEventView::Digested(r)) => match r {
            Ok((bytes, sha256)) => (
                SaveView { stage: SaveStage::Framing, bytes, sha256, ..save },
                SaveActionView::Frame,
            ),
            Err(m) => given_up(save, m),
        },
        (SaveStage::Framing, SaveEventView::Framed(r)) => match r {
            Ok(frame) => (
                at_stage(save, SaveStage::Ended),
                SaveActionView::Finish(
                    Ok(save_report(save.path, save.bytes, save.sha256, frame)),
                ),
            ),
            Err(e) => (at_stage(save, SaveStage::Ended), SaveActionView::Abandon(e)),
        },
        _ => (at_stage(save, SaveStage::Ended), SaveActionView::Abandon(out_of_order())),
    }
}

/// An earlier state is replaced only after the machine said that it wrote the new one and the file
/// was found not to be empty.
pub proof fn only_whole_states_are_published(save: SaveView, event: SaveEventView)
    ensures
        next_save(save, event).1 is Publish ==> save.stage == SaveStage::Measuring && (
        event matches SaveEventView::Measured(Ok(length)) && length > 0),
        next_save(save, event).1 is Measure ==> save.stage == SaveStage::Writing && (
        event matches SaveEventView::Written(Ok(_))),
{
}

/// A save that fails after the partial file was begun drops that file.
pub proof fn failed_saves_drop_the_partial_file(save: SaveView, event: SaveEventView)
    requires
        save.stage != SaveStage::Preparing,
    ensures
        !(next_save(save, event).1 matches SaveActionView::Finish(Err(_))),
        next_save(save, event).0.stage == SaveStage::Ended ==> {
            ||| next_save(save, event).1 is Abandon
            ||| next_save(save, event).1 is Finish
        },
{
}

fn io_error(message: String) -> (r: SaveAction)
    ensures
        r@ == SaveActionView::Abandon(BridgeErrorView::Io(message@)),
{
    SaveAction::Abandon(BridgeError::Io(message))
}

impl StateSave {
    /// Begins a save to a path.
    pub fn begin(path: &str) -> (r: (StateSave, SaveAction))
        ensures
            r.0@ == (SaveView {
                path: path@,
                stage: SaveStage::Preparing,
                bytes: 0,
                sha256: Seq::empty(),
            }),
            r.1@ is Prepare,
    {
        let save = StateSave {
            path: path.to_owned(),
            stage: SaveStage::Preparing,
            bytes: 0,
            sha256: String::new(),
        };
        assert(save.sha256@ =~= Seq::empty());
        (save, SaveAction::Prepare)
    }

    /// Takes what came of the last action, and says what is to be done next.
    pub fn advance(self, event: SaveEvent) -> (r: (StateSave, SaveAction))
        ensures
            (r.0@, r.1@) == next_save(self@, event@),
    {
        let mut save = self;
        let ghost before = save@;
        let stage = save.stage;
        save.stage = SaveStage::Ended;
        let action = match (stage, event) {
            (SaveStage::Preparing, SaveEvent::Prepared(r)) => match r {
                Ok(()) => {
                    save.stage = SaveStage::Writing;
                    SaveAction::Write
                },
                Err(m) => SaveAction::Finish(Err(BridgeError::Io(m))),
            },
            (SaveStage::Writing, SaveEvent::Written(r)) => match r {
                Ok(()) => {
                    save.stage = SaveStage::Measuring;
                    SaveAction::Measure
                },
                Err(e) => SaveAction::Abandon(e),
            },
            (SaveStage::Measuring, SaveEvent::Measured(r)) => match r {
                Ok(length) => if length == 0 {
                    SaveAction::Abandon(
                        BridgeError::Emulator(
                            "MAME save completed with an empty state file".to_owned(),
                        ),
                    )
                } else {
                    save.stage = SaveStage::Publishing;
                    SaveAction::Publish
                },
                Err(m) => io_error(m),
            },
            (SaveStage::Publishing, SaveEvent::Published(r)) => match r {
                Ok(()) => {
                    save.stage = SaveStage::Digesting;
                    SaveAction::Digest
                },
                Err(m) => io_error(m),
            },
            (SaveStage::Digesting, SaveEvent::Digested(r)) => match r {
                Ok((bytes, sha256)) => {
                    save.stage = SaveStage::Framing;
                    save.bytes = bytes;
                    save.sha256 = sha256;
                    SaveAction::Frame
                },
                Err(m) => io_error(m),
            },
            (SaveStage::Framing, SaveEvent::Framed(r)) => match r {
                Ok(frame) => {
                    let report = Json::object().with("status", Json::text("completed")).with(
                        "path",
                        Json::text(save.path.as_str()),
                    ).with("format", Json::text("mame-native")).with(
                        "bytes",
                        Json::Unsigned(save.bytes),
                    ).with("sha256", Json::text(save.sha256.as_str())).with(
                        "state",
                        Json::text("frozen"),
                    ).with("frame", Json::Unsigned(frame));
                    SaveAction::Finish(Ok(report))
                },
                Err(e) => SaveAction::Abandon(e),
            },
            _ => SaveAction::Abandon(
                BridgeError::BadState("Neo Geo save events are out of order".to_owned()),
            ),
        };
        (save, action)
    }
}

/// The refusal of a state that is not there or holds nothing.
pub open spec fn loadable_check(path: Seq<char>, length: Option<u64>) -> Result<
    (),
    BridgeErrorView,
> {
    if length is None || length == Some(0u64) {
        neogeo::bad("Neo Geo save state not found or empty: "@ + path)
    } else {
        Ok(())
    }
}

/// Refuses a state that is not there or holds nothing.
pub fn check_loadable(path: &str, length: Option<u64>) -> (r: Result<(), BridgeError>)
    ensures
        neogeo::plain(r) == loadable_check(path@, length),
{
    if let Some(n) = length {
        if n != 0 {
            return Ok(());
        }
    }
    Err(BridgeError::BadParams(text::join("Neo Geo save state not found or empty: ", path)))
}

/// Loading a state that is there.
pub open spec fn load_run(h: Seq<GdbStep>, n: int, s: MachineView, path: Seq<char>) -> Run<JsonView> {
    match state_run(h, n, s, StateVerb::Load, path) {
        None => None,
        Some((m, t, Err(e))) => Some((m, t, Err(e))),
        Some((m, t, Ok(()))) => match standing_run(h, m, t) {
            None => None,
            Some((k, u, Err(e))) => Some((k, u, Err(e))),
            Some((k, u, Ok(frame))) => Some(
                (
                    k,
                    u,
                    Ok(
                        JsonView::object().with("status"@, JsonView::Str("completed"@)).with(
                            "path"@,
                            JsonView::Str(path),
                        ).with("format"@, JsonView::Str("mame-native"@)).with(
                            "state"@,
                            JsonView::Str("frozen"@),
                        ).with("frame"@, JsonView::Unsigned(frame)),
                    ),
                ),
            ),
        },
    }
}

/// A loaded state leaves the machine frozen.
pub proof fn loads_leave_the_machine_frozen(h: Seq<GdbStep>, n: int, s: MachineView, path: Seq<char>)
    ensures
        load_run(h, n, s, path) matches Some((_, t, Ok(_))) ==> t.frozen,
{
}

/// Letting the machine write a screenshot; the result is the frame before it.
pub open spec fn snapshot_run(h: Seq<GdbStep>, n: int, s: MachineView, path: Seq<char>) -> Run<u64> {
    match machine::frame_run(h, n, s) {
        None => None,
        Some((m, t, Err(e))) => Some((m, t, Err(e))),
        Some((m, t, Ok(frame))) => match machine::lua_run(h, m, t, "snapshot"@, Some(path)) {
            None => None,
            Some((k, u, Err(e))) => Some((k, u, Err(e))),
            Some((k, u, Ok(_))) => Some((k, u, Ok(frame))),
        },
    }
}

/// The report of a screenshot.
pub open spec fn screenshot_report(data: Seq<u8>, before: u64, after: u64, frozen: bool) -> JsonView {
    JsonView::object().with("png_base64"@, JsonView::Str(encoding::base64_text(data))).with(
        "sha256"@,
        JsonView::Str(encoding::hex_text(encoding::sha256_of(data))),
    ).with("byte_len"@, JsonView::Unsigned(data.len() as u64)).with(
        "frame_before"@,
        JsonView::Unsigned(before),
    ).with("frame_after"@, JsonView::Unsigned(after)).with(
        "frame_stable"@,
        JsonView::Bool(before == after),
    ).with("state"@, JsonView::Str(control::state_name(frozen))).with(
        "freshness"@,
        JsonView::Str("current_screen"@),
    )
}

/// Describing a screenshot that the machine wrote.
pub open spec fn picture_run(h: Seq<GdbStep>, n: int, s: MachineView, before: u64, data: Seq<u8>) -> Run<
    JsonView,
> {
    if !encoding::is_png(data) {
        Some((n, s, neogeo::fault("MAME snapshot is not PNG"@)))
    } else {
        match machine::frame_run(h, n, s) {
            None => None,
            Some((m, t, Err(e))) => Some((m, t, Err(e))),
            Some((m, t, Ok(after))) => Some(
                (m, t, Ok(screenshot_report(data, before, after, t.frozen))),
            ),
        }
    }
}

/// What a request for a disassembly asks for: the address, and the number of instructions.
pub open spec fn listing_request(params: JsonView) -> Result<(u64, u64), BridgeErrorView> {
    match params::required(params, "address"@) {
        Err(e) => Err(e),
        Ok(address) => if address > MAX_PROGRAM_ADDRESS {
            neogeo::bad("Neo Geo disassemble address exceeds the 68000 24-bit program space"@)
        } else {
            match params::optional(params, "count"@) {
                Err(e) => Err(e),
                Ok(told) => {
                    let count = match told {
                        Some(count) => count,
                        None => 8,
                    };
                    if !(1 <= count <= MAX_DASM_COUNT) {
                        neogeo::bad(
                            "Neo Geo disassemble count must be in 1..="@ + text::decimal(
                                MAX_DASM_COUNT as int,
                            ),
                        )
                    } else {
                        Ok((address, count))
                    }
                },
            }
        },
    }
}

/// Reads what a request for a disassembly asks for.
pub fn read_listing_request(params: &Json) -> (r: Result<(u64, u64), BridgeError>)
    ensures
        neogeo::plain(r) == listing_request(params@),
{
    let address: u64 = params::required_num(params, "address")?;
    if address > MAX_PROGRAM_ADDRESS {
        return Err(
            BridgeError::BadParams(
                "Neo Geo disassemble address exceeds the 68000 24-bit program space".to_owned(),
            ),
        );
    }
    let count: u64 = match params::optional_num(params, "count")? {
        Some(count) => count,
        None => 8,
    };
    if count < 1 || count > MAX_DASM_COUNT {
        return Err(
            BridgeError::BadParams(
                text::join(
                    "Neo Geo disassemble count must be in 1..=",
                    text::decimal_of(MAX_DASM_COUNT).as_str(),
                ),
            ),
        );
    }
    Ok((address, count))
}

/// Whether a character cannot stand in a path that the debugger reads.
pub open spec fn is_unsafe_in_path(c: char) -> bool {
    c == '"' || c == '\r' || c == '\n'
}

/// The refusal of a path that the debugger cannot read.
pub open spec fn listing_path_check(path: Seq<char>) -> Result<(), BridgeErrorView> {
    if exists|i: int| 0 <= i < path.len() && is_unsafe_in_path(#[trigger] path[i]) {
        Err(
            BridgeErrorView::BadState(
                "Neo Geo disassemble path contains characters unsafe for the MAME debugger"@,
            ),
        )
    } else {
        Ok(())
    }
}

/// Refuses a path that the debugger cannot read.
pub fn check_listing_path(path: &str) -> (r: Result<(), BridgeError>)
    ensures
        neogeo::plain(r) == listing_path_check(path@),
{
    let chars = text::chars_of(path);
    let mut i: usize = 0;
    while i < chars.len()
        invariant
            i <= chars@.len(),
            chars@ == path@,
            forall|k: int| 0 <= k < i ==> !is_unsafe_in_path(#[trigger] path@[k]),
        decreases chars.len() - i,
    {
        let c = chars[i];
        if c == '"' || c == '\r' || c == '\n' {
            assert(is_unsafe_in_path(path@[i as int]));
            return Err(
                BridgeError::BadState(
                    "Neo Geo disassemble path contains characters unsafe for the MAME debugger".to_owned(),
                ),
            );
        }
        i += 1;
    }
    Ok(())
}

/// The bytes that are disassembled for some instructions.
pub open spec fn listing_bytes(count: u64) -> int {
    if count * 12 < 16 {
        16
    } else {
        count * 12
    }
}

/// Letting the machine write a disassembly listing.
pub open spec fn listing_run(
    h: Seq<GdbStep>,
    n: int,
    s: MachineView,
    path: Seq<char>,
    address: u64,
    count: u64,
) -> Run<()> {
    match machine::lua_run(
        h,
        n,
        s,
        "dasm"@,
        Some(
            (((path + "|"@) + text::hexadecimal(address as nat)) + "|"@) + text::hexadecimal(
                listing_bytes(count) as nat,
            ),
        ),
    ) {
        None => None,
        Some((m, t, Err(e))) => Some((m, t, Err(e))),
        Some((m, t, Ok(reply))) => Some(
            (
                m,
                t,
                if reply == "OK"@ {
                    Ok(())
                } else {
                    neogeo::fault("MAME disassemble failed: "@ + reply)
                },
            ),
        ),
    }
}

/// The refusal of a listing that is too long.
pub open spec fn listing_size_check(length: u64) -> Result<(), BridgeErrorView> {
    if length > MAX_DASM_OUTPUT_BYTES {
        neogeo::fault(
            ("MAME disassemble output exceeds "@ + text::decimal(MAX_DASM_OUTPUT_BYTES as int))
                + " bytes"@,
        )
    } else {
        Ok(())
    }
}

/// Refuses a listing that is too long.
pub fn check_listing_size(length: u64) -> (r: Result<(), BridgeError>)
    ensures
        neogeo::plain(r) == listing_size_check(length),
{
    if length > MAX_DASM_OUTPUT_BYTES {
        let m = text::join(
            "MAME disassemble output exceeds ",
            text::decimal_of(MAX_DASM_OUTPUT_BYTES).as_str(),
        );
        return Err(BridgeError::Emulator(text::join(m.as_str(), " bytes")));
    }
    Ok(())
}

/// The report of a disassembly.
pub open spec fn listing_report(listing: Seq<char>, count: u64, launched: bool) -> Result<
    JsonView,
    BridgeErrorView,
> {
    let rows = packets::listing_rows(text::pieces(listing, '\n'), count as nat);
    if rows.len() == 0 {
        neogeo::fault("MAME disassemble produced no instructions"@)
    } else {
        Ok(
            JsonView::object().with("instructions"@, JsonView::Array(rows)).with(
                "artifact_scope"@,
                JsonView::Str(
                    if launched {
                        "generation"@
                    } else {
                        "adapter"@
                    },
                ),
            ),
        )
    }
}

/// The refusal of a game file that is not there.
pub fn missing_content(path: &str) -> (r: BridgeError)
    ensures
        r@ == BridgeErrorView::BadParams("content not found: "@ + path@),
{
    BridgeError::BadParams(text::join("content not found: ", path))
}

/// A text that may be missing.
pub open spec fn or_empty(s: Option<&str>) -> Seq<char> {
    match s {
        Some(t) => t@,
        None => Seq::empty(),
    }
}

fn text_or_empty(s: Option<&str>) -> (r: String)
    ensures
        r@ == or_empty(s),
{
    match s {
        Some(t) => t.to_owned(),
        None => String::new(),
    }
}

/// What every description of a game tells.
pub open spec fn game_report(
    system: Seq<char>,
    name: Seq<char>,
    path: Seq<char>,
    sha1: Seq<char>,
    size: u64,
    media_type: Seq<char>,
) -> JsonView {
    JsonView::object().with("system"@, JsonView::Str(system)).with(
        "adapter"@,
        JsonView::Str("mame-neogeo-rust-gdb"@),
    ).with("name"@, JsonView::Str(name)).with("path"@, JsonView::Str(path)).with(
        "sha1"@,
        JsonView::Str(sha1),
    ).with("size"@, JsonView::Unsigned(size)).with("media_type"@, JsonView::Str(media_type))
}

fn describe_game(system: &str, name: &str, path: &str, sha1: &str, size: u64, media_type: &str) -> (r:
    Json)
    ensures
        r@ == game_report(system@, name@, path@, sha1@, size, media_type@),
{
    Json::object().with("system", Json::text(system)).with(
        "adapter",
        Json::text("mame-neogeo-rust-gdb"),
    ).with("name", Json::text(name)).with("path", Json::text(path)).with(
        "sha1",
        Json::text(sha1),
    ).with("size", Json::Unsigned(size)).with("media_type", Json::text(media_type))
}

/// A file of a disc.
#[derive(Debug)]
pub struct DiscFile {
    pub declared_name: String,
    pub path: String,
    pub size: u64,
    pub sha1: String,
}

/// The row of a file of a disc.
pub open spec fn disc_row(file: DiscFile) -> JsonView {
    JsonView::object().with("declared_name"@, JsonView::Str(file.declared_name@)).with(
        "path"@,
        JsonView::Str(file.path@),
    ).with("size"@, JsonView::Unsigned(file.size)).with("sha1"@, JsonView::Str(file.sha1@))
}

/// What the description of a disc tells of its files.
pub open spec fn disc_identity(files: Seq<DiscFile>) -> JsonView {
    JsonView::object().with("kind"@, JsonView::Str("cue_graph_v1"@)).with(
        "files"@,
        JsonView::Array(Seq::new(files.len(), |i: int| disc_row(files[i]))),
    )
}

fn describe_disc_files(files: &Vec<DiscFile>) -> (r: Json)
    ensures
        r@ == disc_identity(files@),
{
    let mut rows: Vec<Json> = Vec::new();
    let mut i: usize = 0;
    while i < files.len()
        invariant
            i <= files@.len(),
            rows@.len() == i,
            forall|k: int| 0 <= k < i ==> (#[trigger] rows@[k])@ == disc_row(files@[k]),
        decreases files.len() - i,
    {
        let file = &files[i];
        rows.push(
            Json::object().with("declared_name", Json::text(file.declared_name.as_str())).with(
                "path",
                Json::text(file.path.as_str()),
            ).with("size", Json::Unsigned(file.size)).with("sha1", Json::text(file.sha1.as_str())),
        );
        i += 1;
    }
    let list = Json::array(rows);
    assert(list@->Array_0 =~= Seq::new(files@.len(), |i: int| disc_row(files@[i])));
    Json::object().with("kind", Json::text("cue_graph_v1")).with("files", list)
}

impl<G: GdbTransport> NeoGeoBridge<G> {
    /// The path of a request that saves a state.
    pub fn save_request(&self, params: &Json) -> (r: Result<String, BridgeError>)
        ensures
            neogeo::shown(r) == state_request(self@, StateVerb::Save, params@),
    {
        self.require_frozen("save_state")?;
        params::required_path(params, "path")
    }

    /// The path of a request that loads a state.
    pub fn load_request(&self, params: &Json) -> (r: Result<String, BridgeError>)
        ensures
            neogeo::shown(r) == state_request(self@, StateVerb::Load, params@),
    {
        self.require_frozen("load_state")?;
        params::required_path(params, "path")
    }

    fn state_command(&mut self, verb: StateVerb, path: &str) -> (r: Result<(), BridgeError>)
        ensures
            machine::went_on(*old(self), *final(self)),
            final(self)@ == old(self)@,
            forall|h: Seq<GdbStep>|
                gdb::goes_on(final(self).gdb.history(), h) ==> #[trigger] state_run(
                    h,
                    old(self).gdb.history().len() as int,
                    old(self)@,
                    verb,
                    path@,
                ) == Some((final(self).gdb.history().len() as int, final(self)@, neogeo::plain(r))),
    {
        let name = match verb {
            StateVerb::Save => "savesync",
            StateVerb::Load => "loadsync",
        };
        let reply = self.timed_cmd(name, Some(path), STATE_OPERATION_TIMEOUT_NS)?;
        if !text::same(reply.as_str(), "OK") {
            let m = text::join("MAME ", name);
            let m = text::join(m.as_str(), " returned an unexpected response: ");
            return Err(BridgeError::Emulator(text::join(m.as_str(), reply.as_str())));
        }
        Ok(())
    }

    /// Lets the machine write a state to a file.
    pub fn write_state(&mut self, partial: &str) -> (r: Result<(), BridgeError>)
        ensures
            machine::settles(
                *old(self),
                *final(self),
                state_run(
                    final(self).gdb.history(),
                    old(self).gdb.history().len() as int,
                    old(self)@,
                    StateVerb::Save,
                    partial@,
                ),
                neogeo::plain(r),
            ),
    {
        self.state_command(StateVerb::Save, partial)
    }

    /// Reads the frame of the machine, which stands after a state was saved or loaded.
    pub fn standing_frame(&mut self) -> (r: Result<u64, BridgeError>)
        ensures
            machine::went_on(*old(self), *final(self)),
            forall|h: Seq<GdbStep>|
                gdb::goes_on(final(self).gdb.history(), h) ==> #[trigger] standing_run(
                    h,
                    old(self).gdb.history().len() as int,
                    old(self)@,
                ) == Some((final(self).gdb.history().len() as int, final(self)@, neogeo::plain(r))),
    {
        self.frozen = true;
        self.current_frame()
    }

    /// Loads a state that is there.
    pub fn load_state(&mut self, path: &str) -> (r: Result<Json, BridgeError>)
        ensures
            machine::settles(
                *old(self),
                *final(self),
                load_run(
                    final(self).gdb.history(),
                    old(self).gdb.history().len() as int,
                    old(self)@,
                    path@,
                ),
                neogeo::shown(r),
            ),
    {
        broadcast use gdb::goes_on_further;

        self.state_command(StateVerb::Load, path)?;
        let frame: u64 = self.standing_frame()?;
        Ok(
            Json::object().with("status", Json::text("completed")).with(
                "path",
                Json::text(path),
            ).with("format", Json::text("mame-native")).with("state", Json::text("frozen")).with(
                "frame",
                Json::Unsigned(frame),
            ),
        )
    }

    /// Lets the machine write a screenshot, and tells the frame before it.
    pub fn write_screenshot(&mut self, path: &str) -> (r: Result<u64, BridgeError>)
        ensures
            machine::settles(
                *old(self),
                *final(self),
                snapshot_run(
                    final(self).gdb.history(),
                    old(self).gdb.history().len() as int,
                    old(self)@,
                    path@,
                ),
                neogeo::plain(r),
            ),
    {
        broadcast use gdb::goes_on_further;

        let frame: u64 = self.current_frame()?;
        self.lua_cmd("snapshot", Some(path))?;
        Ok(frame)
    }

    /// Describes a screenshot that the machine wrote.
    pub fn describe_screenshot(&mut self, before: u64, data: &[u8]) -> (r: Result<
        Json,
        BridgeError,
    >)
        ensures
            machine::settles(
                *old(self),
                *final(self),
                picture_run(
                    final(self).gdb.history(),
                    old(self).gdb.history().len() as int,
                    old(self)@,
                    before,
                    data@,
                ),
                neogeo::shown(r),
            ),
    {
        if !encoding::starts_like_png(data) {
            return Err(BridgeError::Emulator("MAME snapshot is not PNG".to_owned()));
        }
        let after: u64 = self.current_frame()?;
        let state = if self.frozen {
            "frozen"
        } else {
            "running"
        };
        let digest = encoding::sha256_digest(data);
        Ok(
            Json::object().with(
                "png_base64",
                Json::text(encoding::base64_encode(data).as_str()),
            ).with("sha256", Json::text(encoding::hex_encode(digest.as_slice()).as_str())).with(
                "byte_len",
                Json::Unsigned(data.len() as u64),
            ).with("frame_before", Json::Unsigned(before)).with(
                "frame_after",
                Json::Unsigned(after),
            ).with("frame_stable", Json::Bool(before == after)).with(
                "state",
                Json::text(state),
            ).with("freshness", Json::text("current_screen")),
        )
    }

    /// Lets the machine write a disassembly listing.
    pub fn write_listing(&mut self, path: &str, address: u64, count: u64) -> (r: Result<
        (),
        BridgeError,
    >)
        requires
            count <= MAX_DASM_COUNT,
        ensures
            machine::settles(
                *old(self),
                *final(self),
                listing_run(
                    final(self).gdb.history(),
                    old(self).gdb.history().len() as int,
                    old(self)@,
                    path@,
                    address,
                    count,
                ),
                neogeo::plain(r),
            ),
    {
        let bytes: u64 = if count * 12 < 16 {
            16
        } else {
            count * 12
        };
        let m = text::join(path, "|");
        let m = text::join(m.as_str(), text::hexadecimal_of(address).as_str());
        let m = text::join(m.as_str(), "|");
        let told = text::join(m.as_str(), text::hexadecimal_of(bytes).as_str());
        let reply = self.lua_cmd("dasm", Some(told.as_str()))?;
        if !text::same(reply.as_str(), "OK") {
            return Err(
                BridgeError::Emulator(text::join("MAME disassemble failed: ", reply.as_str())),
            );
        }
        Ok(())
    }

    /// Describes a disassembly listing.
    pub fn describe_listing(&self, listing: &str, count: u64) -> (r: Result<Json, BridgeError>)
        requires
            count <= MAX_DASM_COUNT,
        ensures
            neogeo::shown(r) == listing_report(listing@, count, self.env.launch_id is Some),
    {
        let rows = packets::parse_dasm_lines(listing, count as usize);
        if rows.len() == 0 {
            return Err(
                BridgeError::Emulator("MAME disassemble produced no instructions".to_owned()),
            );
        }
        let scope = if self.env.launch_id.is_some() {
            "generation"
        } else {
            "adapter"
        };
        Ok(
            Json::object().with("instructions", Json::array(rows)).with(
                "artifact_scope",
                Json::text(scope),
            ),
        )
    }

    /// Describes the game of a cartridge machine.
    pub fn describe_cartridge(
        &self,
        name: Option<&str>,
        path: &str,
        sha1: &str,
        size: u64,
        extension: Option<&str>,
    ) -> (r: Json)
        ensures
            r@ == game_report(
                self.system@,
                or_empty(name),
                path@,
                sha1@,
                size,
                text::lowered(or_empty(extension)),
            ),
    {
        describe_game(
            self.system.as_str(),
            text_or_empty(name).as_str(),
            path,
            sha1,
            size,
            text::lower(text_or_empty(extension).as_str()).as_str(),
        )
    }

    /// Describes the game of the disc machine.
    pub fn describe_disc(
        &self,
        name: Option<&str>,
        path: &str,
        sha1: &str,
        size: u64,
        files: &Vec<DiscFile>,
    ) -> (r: Json)
        ensures
            r@ == game_report(
                self.system@,
                or_empty(name),
                path@,
                sha1@,
                size,
                "cue"@,
            ).with("identity"@, disc_identity(files@)),
    {
        describe_game(
            self.system.as_str(),
            text_or_empty(name).as_str(),
            path,
            sha1,
            size,
            "cue",
        ).with("identity", describe_disc_files(files))
    }
}

} // verus!
