//! A best-effort walk of the R4300 call stack: the words above the stack pointer that can be
//! return addresses because a call instruction stands before the place they point to.

use vstd::prelude::*;
use crate::json::{Json, JsonView};
use crate::n64::RDRAM_SIZE;

verus! {

/// The number of stack words that a walk looks at.
pub const MAX_STACK_WORDS: u32 = 1024;

/// Whether an instruction word stores a return address: `JAL`, `JALR` or a branch-and-link.
pub open spec fn links(word: u32) -> bool {
    let opcode = word / 0x400_0000;
    ||| opcode == 3
    ||| opcode == 0 && word % 64 == 9
    ||| opcode == 1 && 0x10 <= (word / 0x1_0000) % 32 <= 0x13
}

/// Whether an instruction word stores a return address.
pub fn r4300_link_instruction(word: u32) -> (r: bool)
    ensures
        r == links(word),
{
    let opcode: u32 = word / 0x400_0000;
    let rt: u32 = (word / 0x1_0000) % 32;
    opcode == 3 || (opcode == 0 && word % 64 == 9) || (opcode == 1 && 0x10 <= rt && rt <= 0x13)
}

/// The RDRAM offset behind a virtual address, through the cached or the uncached alias.
pub open spec fn rdram_offset(address: u32) -> Option<u32> {
    if 0x8000_0000 <= address < 0x8000_0000 + RDRAM_SIZE {
        Some((address - 0x8000_0000) as u32)
    } else if 0xa000_0000 <= address < 0xa000_0000 + RDRAM_SIZE {
        Some((address - 0xa000_0000) as u32)
    } else {
        None
    }
}

/// The RDRAM offset behind a virtual address, through the cached or the uncached alias.
pub fn r4300_rdram_offset(address: u32) -> (r: Option<u32>)
    ensures
        r == rdram_offset(address),
{
    let wide: u64 = address as u64;
    if 0x8000_0000 <= wide && wide < 0x8000_0000 + RDRAM_SIZE {
        Some(address - 0x8000_0000)
    } else if 0xa000_0000 <= wide && wide < 0xa000_0000 + RDRAM_SIZE {
        Some(address - 0xa000_0000)
    } else {
        None
    }
}

/// One frame of a call stack.
#[derive(Clone, Copy, Debug)]
pub struct StackFrame {
    pub pc: u32,
    pub kind: &'static str,
    pub stack_address: Option<u32>,
}

/// What a stack frame holds.
pub struct StackFrameView {
    pub pc: u32,
    pub kind: Seq<char>,
    pub stack_address: Option<u32>,
}

impl View for StackFrame {
    type V = StackFrameView;

    open spec fn view(&self) -> StackFrameView {
        StackFrameView { pc: self.pc, kind: self.kind@, stack_address: self.stack_address }
    }
}

/// What the given frames hold.
pub open spec fn frame_views(frames: Seq<StackFrame>) -> Seq<StackFrameView> {
    Seq::new(frames.len(), |i: int| frames[i]@)
}

/// Whether a word can be a return address in the given memory: the call stands two instructions
/// before it, with the delay slot between.
pub open spec fn returns_to(memory: spec_fn(u32) -> u32, word: u32) -> bool {
    &&& word % 4 == 0
    &&& word >= 8
    &&& rdram_offset((word - 8) as u32) is Some
    &&& links(memory((word - 8) as u32))
}

/// Whether the walk looks at the `n`-th word above the stack pointer.
pub open spec fn walked(sp: u32, n: int) -> bool {
    &&& sp % 4 == 0
    &&& sp + 4 * n <= u32::MAX
    &&& rdram_offset((sp + 4 * n) as u32) is Some
}

/// The frames found in the first `n` words above the stack pointer; the saved copies of the
/// return-address register are not told twice.
pub open spec fn stack_frames(memory: spec_fn(u32) -> u32, ra: u32, sp: u32, n: nat) -> Seq<
    StackFrameView,
>
    decreases n,
{
    if n == 0 {
        Seq::empty()
    } else {
        let before = stack_frames(memory, ra, sp, (n - 1) as nat);
        let slot = (sp + 4 * (n - 1)) as u32;
        let word = memory(slot);
        if walked(sp, n - 1) && word != ra && returns_to(memory, word) {
            before.push(
                StackFrameView { pc: word, kind: "stack"@, stack_address: Some(slot) },
            )
        } else {
            before
        }
    }
}

/// The whole walk: the current instruction, the return-address register where a call stands
/// before it, and what the stack holds.
pub open spec fn call_stack(memory: spec_fn(u32) -> u32, pc: u32, ra: u32, sp: u32) -> Seq<
    StackFrameView,
> {
    let top = seq![StackFrameView { pc, kind: "pc"@, stack_address: None }];
    let caller = if returns_to(memory, ra) {
        top.push(StackFrameView { pc: ra, kind: "ra"@, stack_address: None })
    } else {
        top
    };
    caller + stack_frames(memory, ra, sp, MAX_STACK_WORDS as nat)
}

/// The word that a reader gives for an address.
pub open spec fn word_of<F: Fn(u32) -> u32>(read: F, address: u32) -> u32 {
    choose|word: u32| call_ensures(read, (address,), word)
}

/// Whether a reader can be asked for every address and has one answer for each.
pub open spec fn steady<F: Fn(u32) -> u32>(read: F) -> bool {
    &&& forall|address: u32| #[trigger] call_requires(read, (address,))
    &&& forall|address: u32, word: u32|
        #[trigger] call_ensures(read, (address,), word) ==> word == word_of(read, address)
}

fn can_return_to<F: Fn(u32) -> u32>(read: &F, word: u32) -> (r: bool)
    requires
        steady(*read),
    ensures
        r == returns_to(|a: u32| word_of(*read, a), word),
{
    if word % 4 != 0 || word < 8 || r4300_rdram_offset(word - 8).is_none() {
        return false;
    }
    let instruction: u32 = read(word - 8);
    r4300_link_instruction(instruction)
}

/// Walks the call stack from the program counter, the return-address register and the stack
/// pointer, reading memory through `read`.
pub fn walk_r4300_stack<F: Fn(u32) -> u32>(pc: u32, ra: u32, sp: u32, read: F) -> (r: Vec<
    StackFrame,
>)
    requires
        steady(read),
    ensures
        frame_views(r@) == call_stack(|a: u32| word_of(read, a), pc, ra, sp),
{
    let ghost memory = |a: u32| word_of(read, a);
    let mut frames: Vec<StackFrame> = Vec::new();
    frames.push(StackFrame { pc, kind: "pc", stack_address: None });
    if can_return_to(&read, ra) {
        frames.push(StackFrame { pc: ra, kind: "ra", stack_address: None });
    }
    let ghost head = frame_views(frames@);
    let mut n: u32 = 0;
    assert(head + stack_frames(memory, ra, sp, 0) =~= head);
    while n < MAX_STACK_WORDS
        invariant
            n <= MAX_STACK_WORDS,
            steady(read),
            memory == (|a: u32| word_of(read, a)),
            frame_views(frames@) == head + stack_frames(memory, ra, sp, n as nat),
        decreases MAX_STACK_WORDS - n,
    {
        let ghost before = frame_views(frames@);
        let address: u64 = sp as u64 + 4 * n as u64;
        if sp % 4 == 0 && address <= u32::MAX as u64 {
            let slot: u32 = address as u32;
            if r4300_rdram_offset(slot).is_some() {
                let word: u32 = read(slot);
                if word != ra && can_return_to(&read, word) {
                    frames.push(StackFrame { pc: word, kind: "stack", stack_address: Some(slot) });
                    assert(frame_views(frames@) =~= before.push(frames@.last()@));
                }
            }
        }
        n += 1;
        assert(frame_views(frames@) =~= head + stack_frames(memory, ra, sp, n as nat));
    }
    proof {
        let top = seq![StackFrameView { pc, kind: "pc"@, stack_address: None }];
        if returns_to(memory, ra) {
            assert(head =~= top.push(
                StackFrameView { pc: ra, kind: "ra"@, stack_address: None },
            ));
        } else {
            assert(head =~= top);
        }
    }
    frames
}

/// The row of a frame.
pub open spec fn frame_row(frame: StackFrameView) -> JsonView {
    JsonView::object().with("pc"@, JsonView::Unsigned(frame.pc as u64)).with(
        "kind"@,
        JsonView::Str(frame.kind),
    ).with(
        "stack_address"@,
        match frame.stack_address {
            Some(address) => JsonView::Unsigned(address as u64),
            None => JsonView::Null,
        },
    )
}

/// The report of a call stack.
pub open spec fn stack_report(frames: Seq<StackFrameView>) -> JsonView {
    JsonView::object().with(
        "frames"@,
        JsonView::Array(Seq::new(frames.len(), |i: int| frame_row(frames[i]))),
    ).with("depth"@, JsonView::Unsigned(frames.len() as u64)).with(
        "cpu"@,
        JsonView::Str("r4300"@),
    ).with("order"@, JsonView::Str("innermost_to_outermost"@)).with(
        "authority"@,
        JsonView::Str("best_effort"@),
    )
}

/// Describes a call stack.
pub fn describe_stack(frames: &Vec<StackFrame>) -> (r: Json)
    ensures
        r@ == stack_report(frame_views(frames@)),
{
    let mut rows: Vec<Json> = Vec::new();
    let mut i: usize = 0;
    while i < frames.len()
        invariant
            i <= frames@.len(),
            rows@.len() == i,
            forall|k: int| 0 <= k < i ==> (#[trigger] rows@[k])@ == frame_row(frames@[k]@),
        decreases frames.len() - i,
    {
        let frame = frames[i];
        let address = match frame.stack_address {
            Some(address) => Json::Unsigned(address as u64),
            None => Json::Null,
        };
        rows.push(
            Json::object().with("pc", Json::Unsigned(frame.pc as u64)).with(
                "kind",
                Json::text(frame.kind),
            ).with("stack_address", address),
        );
        i += 1;
    }
    let list = Json::array(rows);
    assert(list@->Array_0 =~= Seq::new(
        frame_views(frames@).len(),
        |i: int| frame_row(frame_views(frames@)[i]),
    ));
    Json::object().with("frames", list).with(
        "depth",
        Json::Unsigned(frames.len() as u64),
    ).with("cpu", Json::text("r4300")).with("order", Json::text("innermost_to_outermost")).with(
        "authority",
        Json::text("best_effort"),
    )
}

} // verus!
