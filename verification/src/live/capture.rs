//! Taking things out of a machine: screenshots with their provenance, and memory dumps that are
//! published as a whole.

use vstd::prelude::*;
use crate::encoding;
use crate::json::{Json, JsonView};
use crate::live::link;
use crate::live::link::{EmulatorLink, LinkError, LinkErrorView};
use crate::live::tools;
use crate::live::tools::ToolOutput;
use crate::text;

verus! {

/// A screenshot: what the tool returns, and the bytes of its picture.
#[derive(Debug)]
pub struct Screenshot {
    pub output: ToolOutput,
    pub png: Vec<u8>,
}

/// A picture with its provenance.
pub struct Picture {
    pub encoded: Seq<char>,
    pub png: Seq<u8>,
    pub provenance: JsonView,
}

/// The digest of bytes as text.
pub open spec fn digest_text(data: Seq<u8>) -> Seq<char> {
    encoding::hex_text(encoding::sha256_of(data))
}

/// Where a picture comes from: what the adapter told of it, with its digest and length.
pub open spec fn provenance_of(reply: JsonView, png: Seq<u8>) -> JsonView {
    reply.without("png_base64"@).put("sha256"@, JsonView::Str(digest_text(png))).put(
        "byte_len"@,
        JsonView::Unsigned(png.len() as u64),
    )
}

/// The message that a picture is not the one that the adapter told of.
pub open spec fn mismatch_message(told: Seq<char>, digest: Seq<char>) -> Seq<char> {
    (("screenshot sha256 mismatch: adapter reported "@ + told) + ", decoded PNG has "@) + digest
}

/// The picture of a reply. A digest that the adapter told of has to be the one of its bytes.
pub open spec fn picture_of(reply: JsonView) -> Result<Picture, LinkErrorView> {
    match reply.text_field("png_base64"@) {
        None => Err(LinkErrorView::Protocol("screenshot 응답에 png_base64 없음"@)),
        Some(encoded) => match encoding::base64_result(encoded) {
            Err(fault) => Err(LinkErrorView::Protocol("base64 디코드 실패: "@ + fault)),
            Ok(png) => if reply.text_field("sha256"@) is Some && reply.text_field("sha256"@)
                != Some(digest_text(png)) {
                Err(
                    LinkErrorView::Protocol(
                        mismatch_message(
                            reply.text_field("sha256"@).unwrap(),
                            digest_text(png),
                        ),
                    ),
                )
            } else {
                Ok(Picture { encoded, png, provenance: provenance_of(reply, png) })
            },
        },
    }
}

/// Whether a screenshot shows a picture, and names where it is saved.
pub open spec fn shows(shot: Screenshot, picture: Picture, saved: Option<Seq<char>>) -> bool {
    &&& shot.png@ == picture.png
    &&& shot.output matches ToolOutput::Image { png_base64, saved_path, provenance }
        && png_base64@ == picture.encoded && link::optional_text(saved_path) == saved
        && provenance@ == picture.provenance
}

/// Reads the picture out of the reply of a screenshot.
pub fn read_screenshot(reply: Json, save_path: Option<&str>) -> (r: Result<Screenshot, LinkError>)
    ensures
        match (r, picture_of(reply@)) {
            (Ok(shot), Ok(picture)) => shows(shot, picture, link::optional_str(save_path)),
            (Err(e), Err(f)) => e@ == f,
            _ => false,
        },
{
    let encoded = match reply.get_str("png_base64") {
        Some(s) => s.to_owned(),
        None => {
            return Err(LinkError::protocol("screenshot 응답에 png_base64 없음"));
        },
    };
    let png = match encoding::base64_decode(encoded.as_str()) {
        Ok(bytes) => bytes,
        Err(fault) => {
            return Err(LinkError::Protocol(text::join("base64 디코드 실패: ", fault.as_str())));
        },
    };
    let digest = encoding::hex_encode(encoding::sha256_digest(png.as_slice()).as_slice());
    if let Some(told) = reply.get_str("sha256") {
        if !text::same(told, digest.as_str()) {
            let m = text::join("screenshot sha256 mismatch: adapter reported ", told);
            let m = text::join(m.as_str(), ", decoded PNG has ");
            return Err(LinkError::Protocol(text::join(m.as_str(), digest.as_str())));
        }
    }
    let provenance = reply.without("png_base64").put("sha256", Json::text(digest.as_str())).put(
        "byte_len",
        Json::Unsigned(png.len() as u64),
    );
    let saved_path = match save_path {
        Some(path) => Some(path.to_owned()),
        None => None,
    };
    Ok(
        Screenshot {
            output: ToolOutput::Image { png_base64: encoded, saved_path, provenance },
            png,
        },
    )
}

/// Takes a screenshot. The caller writes its bytes where `save_path` asks for it.
pub fn screenshot<L: EmulatorLink>(link: &mut L, save_path: Option<&str>) -> (r: Result<
    Screenshot,
    LinkError,
>)
    ensures
        final(link).history().len() == old(link).history().len() + 1,
        link::goes_on(old(link).history(), final(link).history()),
        link::is_call(
            final(link).history(),
            old(link).history().len() as int,
            "screenshot"@,
            JsonView::object(),
        ),
        match link::reply_at(final(link).history(), old(link).history().len() as int) {
            Err(e) => r matches Err(f) && f@ == e,
            Ok(reply) => match (r, picture_of(reply)) {
                (Ok(shot), Ok(picture)) => shows(shot, picture, link::optional_str(save_path)),
                (Err(e), Err(f)) => e@ == f,
                _ => false,
            },
        },
{
    match link.call("screenshot", Json::object()) {
        Ok(reply) => read_screenshot(reply, save_path),
        Err(error) => Err(error),
    }
}

/// What a dump takes from the machine: the regions that the adapter wrote, and the state to be
/// written beside them.
#[derive(Debug)]
pub struct Dump {
    pub regions: Json,
    pub state: Json,
}

/// The state of a reply: its field, or all of it.
pub open spec fn state_map(reply: JsonView) -> JsonView {
    match reply.field("state"@) {
        Some(v) => v,
        None => reply,
    }
}

/// Has the adapter dump its memory into a directory, and takes the state to be kept with it.
pub fn collect_dump<L: EmulatorLink>(link: &mut L, directory: &str) -> (r: Result<Dump, LinkError>)
    ensures
        link::goes_on(old(link).history(), final(link).history()),
        link::is_call(
            final(link).history(),
            old(link).history().len() as int,
            "dump_memory"@,
            tools::path_params(directory@),
        ),
        match link::reply_at(final(link).history(), old(link).history().len() as int) {
            Err(e) => r matches Err(f) && f@ == e && final(link).history().len() == old(
                link,
            ).history().len() + 1,
            Ok(regions) => {
                &&& final(link).history().len() == old(link).history().len() + 2
                &&& link::is_call(
                    final(link).history(),
                    old(link).history().len() as int + 1,
                    "get_state"@,
                    JsonView::object(),
                )
                &&& match link::reply_at(
                    final(link).history(),
                    old(link).history().len() as int + 1,
                ) {
                    Err(e) => r matches Err(f) && f@ == e,
                    Ok(state) => r matches Ok(dump) && dump.regions@ == regions && dump.state@
                        == state_map(state),
                }
            },
        },
{
    let ghost n = link.history().len() as int;
    let regions = match link.call("dump_memory", Json::object().with("path", Json::text(directory))) {
        Ok(regions) => regions,
        Err(error) => {
            return Err(error);
        },
    };
    let ghost h1 = link.history();
    let reply = link.call("get_state", Json::object());
    assert(link.history()[n] == h1[n]);
    let state = match reply {
        Ok(state) => state,
        Err(error) => {
            return Err(error);
        },
    };
    let inner = match state.get("state") {
        Some(v) => Some(v.clone()),
        None => None,
    };
    match inner {
        Some(v) => Ok(Dump { regions, state: v }),
        None => Ok(Dump { regions, state }),
    }
}

/// The report of a published dump: what the adapter told, at the directory that was asked for.
pub fn dump_report(regions: Json, directory: &str) -> (r: ToolOutput)
    ensures
        r matches ToolOutput::Json(v) && v@ == regions@.put("path"@, JsonView::Str(directory@)),
{
    ToolOutput::Json(regions.put("path", Json::text(directory)))
}

/// The name of a hidden entry beside a dump, made unique by a process and a time.
pub open spec fn sibling_name_of(
    name: Option<Seq<char>>,
    label: Seq<char>,
    process: u64,
    nanos: u64,
) -> Seq<char> {
    let base = match name {
        Some(n) => n,
        None => "dump"@,
    };
    let stem = ((("."@ + base) + "."@) + label) + "."@;
    ((stem + text::decimal(process as int)) + "."@) + text::decimal(nanos as int)
}

/// The name of a hidden entry beside a dump, made unique by a process and a time.
pub fn sibling_name(name: Option<&str>, label: &str, process: u64, nanos: u64) -> (r: String)
    ensures
        r@ == sibling_name_of(link::optional_str(name), label@, process, nanos),
{
    let m = match name {
        Some(n) => text::join(".", n),
        None => text::join(".", "dump"),
    };
    let m = text::join(m.as_str(), ".");
    let m = text::join(m.as_str(), label);
    let m = text::join(m.as_str(), ".");
    let m = text::join(m.as_str(), text::decimal_of(process).as_str());
    let m = text::join(m.as_str(), ".");
    text::join(m.as_str(), text::decimal_of(nanos).as_str())
}

/// What stands at a path.
#[derive(Debug, Clone, Copy, PartialEq, Eq, Structural)]
pub enum Target {
    Absent,
    Directory,
    Symlink,
    Other,
}

/// Why what stands at a path is not to be replaced by a directory.
pub open spec fn refusal(target: Target, path: Seq<char>) -> Option<Seq<char>> {
    match target {
        Target::Absent => None,
        Target::Directory => None,
        Target::Symlink => Some("destination is a symlink, refusing to replace: "@ + path),
        Target::Other => Some("destination is not a directory: "@ + path),
    }
}

/// Lets a directory be replaced only where nothing or another directory stands.
pub fn ensure_replaceable_dir(target: Target, path: &str) -> (r: Result<(), String>)
    ensures
        r is Ok == (target == Target::Absent || target == Target::Directory),
        r matches Err(m) ==> refusal(target, path@) == Some(m@),
{
    match target {
        Target::Absent | Target::Directory => Ok(()),
        Target::Symlink => Err(
            text::join("destination is a symlink, refusing to replace: ", path),
        ),
        Target::Other => Err(text::join("destination is not a directory: ", path)),
    }
}

/// Where the replacement of a directory stands.
#[derive(Debug, Clone, Copy, PartialEq, Eq, Structural)]
pub enum ReplaceStage {
    /// The staged directory is moved to a free place.
    Moving,
    /// The staged directory and the old one change places.
    Exchanging,
    /// The old directory, now at the staged one's place, is removed.
    DroppingOld,
    /// The old directory is moved aside.
    BackingUp,
    /// The staged directory is moved to the place left free.
    Publishing,
    /// The old directory is moved back.
    RollingBack,
    /// The old directory, moved aside, is removed.
    DroppingBackup,
    /// The replacement is over.
    Ended,
}

/// What to do next.
#[derive(Debug, Clone, Copy, PartialEq, Eq, Structural)]
pub enum ReplaceAction {
    MoveStagingToTarget,
    Exchange,
    RemoveStaging,
    MoveTargetToBackup,
    MoveBackupToTarget,
    RemoveBackup,
    Succeed,
    Fail,
}

/// What came of an action.
#[derive(Debug, Clone, Copy, PartialEq, Eq, Structural)]
pub enum ReplaceEvent {
    Done,
    /// Only of an exchange: the system has none here.
    Unsupported,
    Failed,
}

/// The first stage of a replacement, by whether a directory is there to be replaced.
pub open spec fn first_stage(present: bool) -> (ReplaceStage, ReplaceAction) {
    if present {
        (ReplaceStage::Exchanging, ReplaceAction::Exchange)
    } else {
        (ReplaceStage::Moving, ReplaceAction::MoveStagingToTarget)
    }
}

/// The stage after an event.
pub open spec fn next_stage(stage: ReplaceStage, event: ReplaceEvent) -> (
    ReplaceStage,
    ReplaceAction,
) {
    match stage {
        ReplaceStage::Moving => if event == ReplaceEvent::Done {
            (ReplaceStage::Ended, ReplaceAction::Succeed)
        } else {
            (ReplaceStage::Ended, ReplaceAction::Fail)
        },
        ReplaceStage::Exchanging => match event {
            ReplaceEvent::Done => (ReplaceStage::DroppingOld, ReplaceAction::RemoveStaging),
            ReplaceEvent::Unsupported => (
                ReplaceStage::BackingUp,
                ReplaceAction::MoveTargetToBackup,
            ),
            ReplaceEvent::Failed => (ReplaceStage::Ended, ReplaceAction::Fail),
        },
        ReplaceStage::BackingUp => if event == ReplaceEvent::Done {
            (ReplaceStage::Publishing, ReplaceAction::MoveStagingToTarget)
        } else {
            (ReplaceStage::Ended, ReplaceAction::Fail)
        },
        ReplaceStage::Publishing => if event == ReplaceEvent::Done {
            (ReplaceStage::DroppingBackup, ReplaceAction::RemoveBackup)
        } else {
            (ReplaceStage::RollingBack, ReplaceAction::MoveBackupToTarget)
        },
        ReplaceStage::DroppingOld => (ReplaceStage::Ended, ReplaceAction::Succeed),
        ReplaceStage::DroppingBackup => (ReplaceStage::Ended, ReplaceAction::Succeed),
        ReplaceStage::RollingBack => (ReplaceStage::Ended, ReplaceAction::Fail),
        ReplaceStage::Ended => (ReplaceStage::Ended, ReplaceAction::Fail),
    }
}

impl ReplaceStage {
    /// Starts a replacement of what stands at the target.
    pub fn begin(target: Target) -> (r: (ReplaceStage, ReplaceAction))
        requires
            target == Target::Absent || target == Target::Directory,
        ensures
            r == first_stage(target == Target::Directory),
    {
        match target {
            Target::Directory => (ReplaceStage::Exchanging, ReplaceAction::Exchange),
            _ => (ReplaceStage::Moving, ReplaceAction::MoveStagingToTarget),
        }
    }

    /// Goes on after an event.
    pub fn advance(self, event: ReplaceEvent) -> (r: (ReplaceStage, ReplaceAction))
        ensures
            r == next_stage(self, event),
    {
        match (self, event) {
            (ReplaceStage::Moving, ReplaceEvent::Done) => (
                ReplaceStage::Ended,
                ReplaceAction::Succeed,
            ),
            (ReplaceStage::Exchanging, ReplaceEvent::Done) => (
                ReplaceStage::DroppingOld,
                ReplaceAction::RemoveStaging,
            ),
            (ReplaceStage::Exchanging, ReplaceEvent::Unsupported) => (
                ReplaceStage::BackingUp,
                ReplaceAction::MoveTargetToBackup,
            ),
            (ReplaceStage::BackingUp, ReplaceEvent::Done) => (
                ReplaceStage::Publishing,
                ReplaceAction::MoveStagingToTarget,
            ),
            (ReplaceStage::Publishing, ReplaceEvent::Done) => (
                ReplaceStage::DroppingBackup,
                ReplaceAction::RemoveBackup,
            ),
            (ReplaceStage::Publishing, _) => (
                ReplaceStage::RollingBack,
                ReplaceAction::MoveBackupToTarget,
            ),
            (ReplaceStage::DroppingOld, _) => (ReplaceStage::Ended, ReplaceAction::Succeed),
            (ReplaceStage::DroppingBackup, _) => (ReplaceStage::Ended, ReplaceAction::Succeed),
            _ => (ReplaceStage::Ended, ReplaceAction::Fail),
        }
    }
}

/// What stands at the three places of a replacement.
pub struct Places<D> {
    pub staging: Option<D>,
    pub target: Option<D>,
    pub backup: Option<D>,
}

/// What an action that is done makes of the places. Removing may stop halfway, and a failed one
/// says nothing of what it was to remove.
pub open spec fn done<D>(action: ReplaceAction, places: Places<D>) -> Places<D> {
    match action {
        ReplaceAction::MoveStagingToTarget => Places {
            staging: None,
            target: places.staging,
            ..places
        },
        ReplaceAction::Exchange => Places {
            staging: places.target,
            target: places.staging,
            ..places
        },
        ReplaceAction::RemoveStaging => Places { staging: None, ..places },
        ReplaceAction::MoveTargetToBackup => Places {
            target: None,
            backup: places.target,
            ..places
        },
        ReplaceAction::MoveBackupToTarget => Places {
            target: places.backup,
            backup: None,
            ..places
        },
        ReplaceAction::RemoveBackup => Places { backup: None, ..places },
        ReplaceAction::Succeed | ReplaceAction::Fail => places,
    }
}

/// What the places hold while a stage waits for its action, when `old` was to be replaced by
/// `new`.
pub open spec fn holds<D>(stage: ReplaceStage, places: Places<D>, old: Option<D>, new: D) -> bool {
    match stage {
        ReplaceStage::Moving => old is None && places.target is None && places.staging == Some(new),
        ReplaceStage::Exchanging => places.target == old && places.staging == Some(new),
        ReplaceStage::BackingUp => places.target == old && places.staging == Some(new),
        ReplaceStage::Publishing => places.target is None && places.backup == old && places.staging
            == Some(new),
        ReplaceStage::RollingBack => places.target is None && places.backup == old,
        ReplaceStage::DroppingOld | ReplaceStage::DroppingBackup => places.target == Some(new),
        ReplaceStage::Ended => true,
    }
}

/// The action that a stage waits for.
pub open spec fn awaited(stage: ReplaceStage) -> ReplaceAction {
    match stage {
        ReplaceStage::Moving => ReplaceAction::MoveStagingToTarget,
        ReplaceStage::Exchanging => ReplaceAction::Exchange,
        ReplaceStage::DroppingOld => ReplaceAction::RemoveStaging,
        ReplaceStage::BackingUp => ReplaceAction::MoveTargetToBackup,
        ReplaceStage::Publishing => ReplaceAction::MoveStagingToTarget,
        ReplaceStage::RollingBack => ReplaceAction::MoveBackupToTarget,
        ReplaceStage::DroppingBackup => ReplaceAction::RemoveBackup,
        ReplaceStage::Ended => ReplaceAction::Fail,
    }
}

/// A replacement starts with the places as its first stage expects them, and with the action that
/// this stage waits for.
pub proof fn replacement_starts_in_shape<D>(places: Places<D>, new: D)
    requires
        places.staging == Some(new),
    ensures
        first_stage(places.target is Some).1 == awaited(first_stage(places.target is Some).0),
        holds(first_stage(places.target is Some).0, places, places.target, new),
{
}

/// A dump is never lost: after every event the places are as the next stage expects them. A
/// replacement succeeds only with the new directory at the target; it fails only with the old one
/// there, unless moving that back failed too, and then it stands at the backup.
pub proof fn replacement_loses_nothing<D>(
    stage: ReplaceStage,
    places: Places<D>,
    old: Option<D>,
    new: D,
    event: ReplaceEvent,
)
    requires
        stage != ReplaceStage::Ended,
        holds(stage, places, old, new),
    ensures
        ({
            let after = if event == ReplaceEvent::Done {
                done(awaited(stage), places)
            } else {
                places
            };
            let (next, action) = next_stage(stage, event);
            &&& holds(next, after, old, new)
            &&& next != ReplaceStage::Ended ==> action == awaited(next)
            &&& action == ReplaceAction::Succeed ==> after.target == Some(new)
            &&& action == ReplaceAction::Fail ==> after.target == old || (stage
                == ReplaceStage::RollingBack && event != ReplaceEvent::Done && after.backup == old)
        }),
{
}

/// `libc::ENOSYS`, the error number of a call that the system does not have. Its value depends on
/// the machine, so none is stated.
#[verifier::external_body]
fn errno_nosys() -> (r: i32) {
    libc::ENOSYS
}

/// `libc::EINVAL`, the error number of an argument that a call does not take. Its value depends on
/// the machine, so none is stated.
#[verifier::external_body]
fn errno_inval() -> (r: i32) {
    libc::EINVAL
}

/// `libc::ENOTSUP`, the error number of an operation that a file system does not have. Its value
/// depends on the machine, so none is stated.
#[verifier::external_body]
fn errno_notsup() -> (r: i32) {
    libc::ENOTSUP
}

/// Whether an error number is one of the three by which a system says that it has no exchange: the
/// call is missing, or the system or the file system does not take it.
pub fn is_one_of_three(raw: Option<i32>, nosys: i32, inval: i32, notsup: i32) -> (r: bool)
    ensures
        r == (raw == Some(nosys) || raw == Some(inval) || raw == Some(notsup)),
{
    match raw {
        Some(code) => code == nosys || code == inval || code == notsup,
        None => false,
    }
}

/// Whether the error of an exchange means that there is none here, rather than that it failed: it
/// is `ENOSYS`, `EINVAL` or `ENOTSUP`. Which numbers these are depends on the machine, so the
/// contract does not say for which ones beyond none at all.
pub fn is_unsupported_exchange_errno(raw: Option<i32>) -> (r: bool)
    ensures
        raw is None ==> !r,
{
    is_one_of_three(raw, errno_nosys(), errno_inval(), errno_notsup())
}

} // verus!
