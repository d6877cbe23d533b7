//! The call stack that the machine tells from its history of control transfers.

use vstd::prelude::*;
use crate::json::{Json, JsonView};
use crate::neogeo;
use crate::neogeo::{BridgeError, BridgeErrorView, MAX_NATIVE_FRAMES};
use crate::text;

verus! {

/// A call of the stack.
#[derive(Debug, Clone, Copy, PartialEq, Eq, Structural)]
pub struct NativeFrame {
    pub source: u64,
    pub target: u64,
    pub return_address: u64,
    pub return_stack_pointer: u64,
}

/// The stack that the machine tells, its calls from the outermost on.
#[derive(Debug)]
pub struct NativeStack {
    pub pc: u64,
    pub sp: u64,
    pub complete: bool,
    pub dropped: u64,
    pub native_depth: u64,
    pub frames: Vec<NativeFrame>,
}

/// What a stack holds.
pub struct StackView {
    pub pc: u64,
    pub sp: u64,
    pub complete: bool,
    pub dropped: u64,
    pub native_depth: u64,
    pub frames: Seq<NativeFrame>,
}

impl View for NativeStack {
    type V = StackView;

    open spec fn view(&self) -> StackView {
        StackView {
            pc: self.pc,
            sp: self.sp,
            complete: self.complete,
            dropped: self.dropped,
            native_depth: self.native_depth,
            frames: self.frames@,
        }
    }
}

/// A field of the reply; a missing one is empty.
pub open spec fn field_at(fields: Seq<Seq<char>>, i: int) -> Seq<char> {
    if 0 <= i < fields.len() {
        fields[i]
    } else {
        Seq::empty()
    }
}

/// The number of a field.
pub open spec fn field_number(name: Seq<char>, value: Seq<char>, radix: nat) -> Result<
    u64,
    BridgeErrorView,
> {
    match text::u64_value(value, radix) {
        Some(n) => Ok(n),
        None => neogeo::fault("invalid MAME call stack "@ + name),
    }
}

fn read_number(name: &str, value: &str, radix: u64) -> (r: Result<u64, BridgeError>)
    requires
        radix == 10 || radix == 16,
    ensures
        neogeo::plain(r) == field_number(name@, value@, radix as nat),
{
    match text::parse_u64(value, radix) {
        Some(n) => Ok(n),
        None => Err(BridgeError::Emulator(text::join("invalid MAME call stack ", name))),
    }
}

/// The call of a field.
pub open spec fn frame_of(encoded: Seq<char>, index: int) -> Result<NativeFrame, BridgeErrorView> {
    let values = text::pieces(encoded, ',');
    if values.len() != 4 {
        neogeo::fault("invalid MAME call stack frame "@ + text::decimal(index))
    } else {
        match field_number("source"@, values[0], 16) {
            Err(e) => Err(e),
            Ok(source) => match field_number("target"@, values[1], 16) {
                Err(e) => Err(e),
                Ok(target) => match field_number("return address"@, values[2], 16) {
                    Err(e) => Err(e),
                    Ok(return_address) => match field_number(
                        "return stack pointer"@,
                        values[3],
                        16,
                    ) {
                        Err(e) => Err(e),
                        Ok(return_stack_pointer) => Ok(
                            NativeFrame { source, target, return_address, return_stack_pointer },
                        ),
                    },
                },
            },
        }
    }
}

/// The calls of some fields; the first wrong one decides, and so does one too many.
pub open spec fn frames_of(fields: Seq<Seq<char>>) -> Result<Seq<NativeFrame>, BridgeErrorView>
    decreases fields.len(),
{
    if fields.len() == 0 {
        Ok(Seq::empty())
    } else {
        match frames_of(fields.drop_last()) {
            Err(e) => Err(e),
            Ok(earlier) => if earlier.len() == MAX_NATIVE_FRAMES {
                neogeo::fault(
                    ("MAME returned more than "@ + text::decimal(MAX_NATIVE_FRAMES as int))
                        + " native call frames"@,
                )
            } else {
                match frame_of(fields.last(), fields.len() - 1) {
                    Err(e) => Err(e),
                    Ok(frame) => Ok(earlier.push(frame)),
                }
            },
        }
    }
}

/// Whether the machine says that its history is complete.
pub open spec fn flag_of(value: Seq<char>) -> Result<bool, BridgeErrorView> {
    if value == "1"@ {
        Ok(true)
    } else if value == "0"@ {
        Ok(false)
    } else {
        neogeo::fault("invalid MAME call stack completeness flag"@)
    }
}

/// The message that the calls are not as many as declared.
pub open spec fn depth_message(declared: u64, returned: nat) -> Seq<char> {
    (("MAME call stack declared "@ + text::decimal(declared as int))
        + " native frames but returned "@) + text::decimal(returned as int)
}

/// How many calls the machine tells of a stack of some depth.
pub open spec fn told_frames(native_depth: u64) -> int {
    if native_depth < MAX_NATIVE_FRAMES {
        native_depth as int
    } else {
        MAX_NATIVE_FRAMES as int
    }
}

/// The calls behind the head of a reply.
pub open spec fn calls_in(fields: Seq<Seq<char>>) -> Seq<Seq<char>> {
    if fields.len() <= 6 {
        Seq::empty()
    } else {
        fields.skip(6)
    }
}

/// The stack of a reply whose head was read.
pub open spec fn stack_body(
    fields: Seq<Seq<char>>,
    pc: u64,
    sp: u64,
    complete: bool,
    dropped: u64,
    native_depth: u64,
) -> Result<StackView, BridgeErrorView> {
    match frames_of(calls_in(fields)) {
        Err(e) => Err(e),
        Ok(frames) => if frames.len() != told_frames(native_depth) {
            neogeo::fault(depth_message(native_depth, frames.len()))
        } else {
            Ok(StackView { pc, sp, complete, dropped, native_depth, frames })
        },
    }
}

/// The stack of a reply.
pub open spec fn stack_of(raw: Seq<char>) -> Result<StackView, BridgeErrorView> {
    let fields = text::pieces(raw, '|');
    if field_at(fields, 0) != "STACK"@ {
        neogeo::fault("invalid MAME native call stack response"@)
    } else {
        match field_number("pc"@, field_at(fields, 1), 16) {
            Err(e) => Err(e),
            Ok(pc) => match field_number("sp"@, field_at(fields, 2), 16) {
                Err(e) => Err(e),
                Ok(sp) => match flag_of(field_at(fields, 3)) {
                    Err(e) => Err(e),
                    Ok(complete) => match field_number(
                        "dropped count"@,
                        field_at(fields, 4),
                        10,
                    ) {
                        Err(e) => Err(e),
                        Ok(dropped) => match field_number(
                            "native depth"@,
                            field_at(fields, 5),
                            10,
                        ) {
                            Err(e) => Err(e),
                            Ok(depth) => stack_body(fields, pc, sp, complete, dropped, depth),
                        },
                    },
                },
            },
        }
    }
}

proof fn frames_count(fields: Seq<Seq<char>>)
    ensures
        frames_of(fields) matches Ok(frames) ==> frames.len() == fields.len() && frames.len()
            <= MAX_NATIVE_FRAMES,
    decreases fields.len(),
{
    if fields.len() > 0 {
        frames_count(fields.drop_last());
    }
}

proof fn first_wrong_frame_stays(fields: Seq<Seq<char>>, k: int)
    requires
        0 <= k <= fields.len(),
        frames_of(fields.take(k)) is Err,
    ensures
        frames_of(fields) == frames_of(fields.take(k)),
    decreases fields.len(),
{
    if k == fields.len() {
        assert(fields.take(k) =~= fields);
    } else {
        assert(fields.drop_last().take(k) =~= fields.take(k));
        first_wrong_frame_stays(fields.drop_last(), k);
    }
}

fn read_field(fields: &Vec<String>, i: usize) -> (r: String)
    ensures
        r@ == field_at(text::text_views(fields@), i as int),
{
    if i < fields.len() {
        fields[i].clone()
    } else {
        String::new()
    }
}

fn read_frame(encoded: &str, index: usize) -> (r: Result<NativeFrame, BridgeError>)
    ensures
        neogeo::plain(r) == frame_of(encoded@, index as int),
{
    let values = text::split(encoded, ',');
    let ghost shown = text::text_views(values@);
    assert(shown.len() == values@.len());
    if values.len() != 4 {
        return Err(
            BridgeError::Emulator(
                text::join(
                    "invalid MAME call stack frame ",
                    text::decimal_of(index as u64).as_str(),
                ),
            ),
        );
    }
    assert(forall|i: int| 0 <= i < 4 ==> #[trigger] shown[i] == values@[i]@);
    let source: u64 = read_number("source", values[0].as_str(), 16)?;
    let target: u64 = read_number("target", values[1].as_str(), 16)?;
    let return_address: u64 = read_number("return address", values[2].as_str(), 16)?;
    let return_stack_pointer: u64 = read_number("return stack pointer", values[3].as_str(), 16)?;
    Ok(NativeFrame { source, target, return_address, return_stack_pointer })
}

/// What a list of calls holds, or why there is none.
pub open spec fn shown_frames(r: Result<Vec<NativeFrame>, BridgeError>) -> Result<
    Seq<NativeFrame>,
    BridgeErrorView,
> {
    match r {
        Ok(v) => Ok(v@),
        Err(e) => Err(e@),
    }
}

fn read_frames(fields: &Vec<String>) -> (r: Result<Vec<NativeFrame>, BridgeError>)
    ensures
        shown_frames(r) == frames_of(calls_in(text::text_views(fields@))),
{
    let ghost all = text::text_views(fields@);
    let ghost calls = calls_in(all);
    let mut frames: Vec<NativeFrame> = Vec::new();
    if fields.len() <= 6 {
        assert(frames@ =~= Seq::empty());
        return Ok(frames);
    }
    let mut i: usize = 6;
    assert(calls.take(0) =~= Seq::empty());
    assert(frames@ =~= Seq::empty());
    while i < fields.len()
        invariant
            6 <= i <= fields@.len(),
            all == text::text_views(fields@),
            calls == all.skip(6),
            calls == calls_in(all),
            frames_of(calls.take(i - 6)) == Ok::<_, BridgeErrorView>(frames@),
        decreases fields.len() - i,
    {
        proof {
            frames_count(calls.take(i - 6));
            assert(calls.take(i - 5).drop_last() =~= calls.take(i - 6));
            assert(calls.take(i - 5).last() == fields@[i as int]@);
        }
        if frames.len() == MAX_NATIVE_FRAMES {
            proof {
                first_wrong_frame_stays(calls, i - 5);
            }
            let m = text::join(
                "MAME returned more than ",
                text::decimal_of(MAX_NATIVE_FRAMES as u64).as_str(),
            );
            return Err(
                BridgeError::Emulator(text::join(m.as_str(), " native call frames")),
            );
        }
        match read_frame(fields[i].as_str(), i - 6) {
            Ok(frame) => {
                frames.push(frame);
            },
            Err(error) => {
                proof {
                    first_wrong_frame_stays(calls, i - 5);
                }
                return Err(error);
            },
        }
        i += 1;
    }
    assert(calls.take(i - 6) =~= calls);
    Ok(frames)
}

/// Reads the stack of a reply.
pub fn parse_stack(raw: &str) -> (r: Result<NativeStack, BridgeError>)
    ensures
        neogeo::shown(r) == stack_of(raw@),
{
    let fields = text::split(raw, '|');
    if !text::same(read_field(&fields, 0).as_str(), "STACK") {
        return Err(
            BridgeError::Emulator("invalid MAME native call stack response".to_owned()),
        );
    }
    let pc: u64 = read_number("pc", read_field(&fields, 1).as_str(), 16)?;
    let sp: u64 = read_number("sp", read_field(&fields, 2).as_str(), 16)?;
    let flag = read_field(&fields, 3);
    let complete = if text::same(flag.as_str(), "1") {
        true
    } else if text::same(flag.as_str(), "0") {
        false
    } else {
        return Err(
            BridgeError::Emulator("invalid MAME call stack completeness flag".to_owned()),
        );
    };
    let dropped: u64 = read_number("dropped count", read_field(&fields, 4).as_str(), 10)?;
    let native_depth: u64 = read_number("native depth", read_field(&fields, 5).as_str(), 10)?;
    let frames = read_frames(&fields)?;
    let told: u64 = if native_depth < MAX_NATIVE_FRAMES as u64 {
        native_depth
    } else {
        MAX_NATIVE_FRAMES as u64
    };
    proof {
        frames_count(calls_in(text::text_views(fields@)));
    }
    if frames.len() as u64 != told {
        let m = text::join("MAME call stack declared ", text::decimal_of(native_depth).as_str());
        let m = text::join(m.as_str(), " native frames but returned ");
        return Err(
            BridgeError::Emulator(
                text::join(m.as_str(), text::decimal_of(frames.len() as u64).as_str()),
            ),
        );
    }
    Ok(NativeStack { pc, sp, complete, dropped, native_depth, frames })
}

/// The row of the running code.
pub open spec fn top_row(stack: StackView) -> JsonView {
    JsonView::object().with("pc"@, JsonView::Unsigned(stack.pc)).with(
        "sp"@,
        JsonView::Unsigned(stack.sp),
    ).with("kind"@, JsonView::Str("pc"@))
}

/// The row of a call.
pub open spec fn call_row(frame: NativeFrame) -> JsonView {
    JsonView::object().with("pc"@, JsonView::Unsigned(frame.source)).with(
        "kind"@,
        JsonView::Str("call"@),
    ).with("target"@, JsonView::Unsigned(frame.target)).with(
        "return_address"@,
        JsonView::Unsigned(frame.return_address),
    ).with("return_stack_pointer"@, JsonView::Unsigned(frame.return_stack_pointer))
}

/// The rows of a stack, from the running code to the outermost call.
pub open spec fn stack_rows(stack: StackView) -> Seq<JsonView> {
    Seq::new(
        stack.frames.len() + 1,
        |i: int|
            if i == 0 {
                top_row(stack)
            } else {
                call_row(stack.frames[stack.frames.len() - i])
            },
    )
}

/// The report of a stack.
pub open spec fn stack_report(stack: StackView) -> JsonView {
    JsonView::object().with("frames"@, JsonView::Array(stack_rows(stack))).with(
        "depth"@,
        JsonView::Unsigned((stack.frames.len() + 1) as u64),
    ).with("cpu"@, JsonView::Str("m68000"@)).with(
        "order"@,
        JsonView::Str("innermost_to_outermost"@),
    ).with("method"@, JsonView::Str("mame-native-control-transfer-history"@)).with(
        "authority"@,
        JsonView::Str("best_effort"@),
    ).with(
        "complete_since_reset"@,
        JsonView::Bool(stack.complete && stack.dropped == 0),
    ).with("native_depth"@, JsonView::Unsigned(stack.native_depth)).with(
        "dropped"@,
        JsonView::Unsigned(stack.dropped),
    ).with(
        "truncated"@,
        JsonView::Bool(stack.native_depth > MAX_NATIVE_FRAMES || stack.dropped > 0),
    ).with("max_depth"@, JsonView::Unsigned((MAX_NATIVE_FRAMES + 1) as u64))
}

/// Describes a stack.
pub fn describe_stack(stack: &NativeStack) -> (r: Json)
    requires
        stack.frames@.len() < usize::MAX,
    ensures
        r@ == stack_report(stack@),
{
    let total: usize = stack.frames.len();
    let mut rows: Vec<Json> = Vec::new();
    rows.push(
        Json::object().with("pc", Json::Unsigned(stack.pc)).with(
            "sp",
            Json::Unsigned(stack.sp),
        ).with("kind", Json::text("pc")),
    );
    let mut i: usize = 0;
    while i < total
        invariant
            i <= total,
            total == stack.frames@.len(),
            total < usize::MAX,
            rows@.len() == i + 1,
            forall|k: int| 0 <= k <= i ==> (#[trigger] rows@[k])@ == stack_rows(stack@)[k],
        decreases total - i,
    {
        let frame = stack.frames[total - 1 - i];
        rows.push(
            Json::object().with("pc", Json::Unsigned(frame.source)).with(
                "kind",
                Json::text("call"),
            ).with("target", Json::Unsigned(frame.target)).with(
                "return_address",
                Json::Unsigned(frame.return_address),
            ).with("return_stack_pointer", Json::Unsigned(frame.return_stack_pointer)),
        );
        i += 1;
    }
    let depth: usize = rows.len();
    let list = Json::array(rows);
    assert(list@->Array_0 =~= stack_rows(stack@));
    Json::object().with("frames", list).with("depth", Json::Unsigned(depth as u64)).with(
        "cpu",
        Json::text("m68000"),
    ).with("order", Json::text("innermost_to_outermost")).with(
        "method",
        Json::text("mame-native-control-transfer-history"),
    ).with("authority", Json::text("best_effort")).with(
        "complete_since_reset",
        Json::Bool(stack.complete && stack.dropped == 0),
    ).with("native_depth", Json::Unsigned(stack.native_depth)).with(
        "dropped",
        Json::Unsigned(stack.dropped),
    ).with(
        "truncated",
        Json::Bool(stack.native_depth > MAX_NATIVE_FRAMES as u64 || stack.dropped > 0),
    ).with("max_depth", Json::Unsigned(MAX_NATIVE_FRAMES as u64 + 1))
}

/// A stack that is told holds exactly the calls that it declares, as far as the machine keeps them.
pub proof fn told_stacks_are_whole(raw: Seq<char>)
    requires
        stack_of(raw) is Ok,
    ensures
        ({
            let stack = stack_of(raw)->Ok_0;
            &&& stack.frames.len() == told_frames(stack.native_depth)
            &&& stack.frames.len() <= MAX_NATIVE_FRAMES
            &&& stack_rows(stack).len() <= MAX_NATIVE_FRAMES + 1
        }),
{
}

} // verus!
