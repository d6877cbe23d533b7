//! A bounded line reader for the standard input, and the admission of the first message.
//!
//! One malformed or oversized line must not end a server that its client is about to use again.
//! The reader bounds every line, and the barrier refuses what cannot come first, until a message
//! arrives that can.

use vstd::prelude::*;
use crate::json;
use crate::json::{Json, JsonView};
use crate::text;

verus! {

/// The most bytes of a line.
pub const MAX_MCP_STDIN_LINE_BYTES: usize = 1_048_576;

/// The byte that ends a line.
pub const LINE_END: u8 = 10;

/// A line that came to its end.
#[derive(Debug)]
pub enum BoundedLine {
    Line(Vec<u8>),
    Oversized,
    Eof,
}

/// What a line that came to its end holds.
pub enum LineOutcome {
    Line(Seq<u8>),
    Oversized,
    Eof,
}

impl View for BoundedLine {
    type V = LineOutcome;

    open spec fn view(&self) -> LineOutcome {
        match *self {
            BoundedLine::Line(bytes) => LineOutcome::Line(bytes@),
            BoundedLine::Oversized => LineOutcome::Oversized,
            BoundedLine::Eof => LineOutcome::Eof,
        }
    }
}

/// The line that is being read.
#[derive(Debug)]
pub struct LineReader {
    line: Vec<u8>,
    discarding: bool,
}

/// The line so far, or that it is already too long.
#[verifier::ext_equal]
pub struct LineView {
    pub line: Seq<u8>,
    pub discarding: bool,
}

impl View for LineReader {
    type V = LineView;

    closed spec fn view(&self) -> LineView {
        LineView { line: self.line@, discarding: self.discarding }
    }
}

/// No line yet.
pub open spec fn no_line() -> LineView {
    LineView { line: Seq::empty(), discarding: false }
}

/// Whether a line is one that the reader can hold.
pub open spec fn is_bounded(v: LineView) -> bool {
    if v.discarding {
        v.line.len() == 0
    } else {
        v.line.len() <= MAX_MCP_STDIN_LINE_BYTES
    }
}

/// The line with more bytes, none of which ends it.
pub open spec fn taken(v: LineView, bytes: Seq<u8>) -> LineView {
    if v.discarding || v.line.len() + bytes.len() > MAX_MCP_STDIN_LINE_BYTES {
        LineView { line: Seq::empty(), discarding: true }
    } else {
        LineView { line: v.line + bytes, discarding: false }
    }
}

/// What a line comes to at its end.
pub open spec fn finished(v: LineView) -> LineOutcome {
    if v.discarding {
        LineOutcome::Oversized
    } else {
        LineOutcome::Line(v.line)
    }
}

/// Whether no byte ends the line.
pub open spec fn is_inside(bytes: Seq<u8>) -> bool {
    forall|i: int| 0 <= i < bytes.len() ==> #[trigger] bytes[i] != LINE_END
}

/// It does not matter in which pieces a line arrives.
pub proof fn pieces_do_not_matter(v: LineView, first: Seq<u8>, second: Seq<u8>)
    requires
        is_bounded(v),
    ensures
        taken(taken(v, first), second) == taken(v, first + second),
        is_bounded(taken(v, first)),
{
    assert((v.line + first) + second =~= v.line + (first + second));
}

/// A line is refused exactly where it is longer than the bound.
pub proof fn exactly_long_lines_are_refused(line: Seq<u8>)
    ensures
        finished(taken(no_line(), line)) == (if line.len() > MAX_MCP_STDIN_LINE_BYTES {
            LineOutcome::Oversized
        } else {
            LineOutcome::Line(line)
        }),
{
    assert(Seq::<u8>::empty() + line =~= line);
}

impl LineReader {
    /// Whether the reader holds no more than the bound.
    pub open spec fn wf(&self) -> bool {
        is_bounded(self@)
    }

    /// A reader at the start of a line.
    pub fn new() -> (r: LineReader)
        ensures
            r.wf(),
            r@ == no_line(),
    {
        let r = LineReader { line: Vec::new(), discarding: false };
        assert(r.line@ =~= Seq::empty());
        r
    }

    fn take(&mut self, bytes: &[u8], end: usize)
        requires
            end <= bytes@.len(),
            old(self).wf(),
        ensures
            final(self).wf(),
            final(self)@ == taken(old(self)@, bytes@.take(end as int)),
    {
        let ghost before = self@;
        if self.discarding {
            self.line = Vec::new();
            assert(self.line@ =~= Seq::empty());
            return;
        }
        let held: usize = self.line.len();
        if end > MAX_MCP_STDIN_LINE_BYTES - held {
            self.line = Vec::new();
            self.discarding = true;
            assert(self.line@ =~= Seq::empty());
            return;
        }
        let mut i: usize = 0;
        assert(bytes@.take(0) =~= Seq::empty());
        assert(self.line@ =~= before.line + bytes@.take(0));
        while i < end
            invariant
                i <= end <= bytes@.len(),
                !self.discarding,
                self.line@ == before.line + bytes@.take(i as int),
            decreases end - i,
        {
            self.line.push(bytes[i]);
            assert(bytes@.take(i + 1) =~= bytes@.take(i as int).push(bytes@[i as int]));
            assert(self.line@ =~= before.line + bytes@.take(i + 1));
            i += 1;
        }
    }

    fn finish(&mut self) -> (r: BoundedLine)
        ensures
            final(self)@ == no_line(),
            r@ == finished(old(self)@),
    {
        let mut line: Vec<u8> = Vec::new();
        line.append(&mut self.line);
        assert(line@ =~= old(self).line@);
        assert(self.line@ =~= Seq::empty());
        if self.discarding {
            self.discarding = false;
            return BoundedLine::Oversized;
        }
        BoundedLine::Line(line)
    }

    /// Takes bytes up to the end of the line, or all of them. The first part of the result says how
    /// many were taken, the second what the line came to, where it ended.
    pub fn feed(&mut self, available: &[u8]) -> (r: (usize, Option<BoundedLine>))
        requires
            old(self).wf(),
        ensures
            final(self).wf(),
            match r.1 {
                None => r.0 == available@.len() && is_inside(available@) && final(self)@ == taken(
                    old(self)@,
                    available@,
                ),
                Some(line) => {
                    &&& 0 < r.0 <= available@.len()
                    &&& available@[r.0 - 1] == LINE_END
                    &&& is_inside(available@.take(r.0 - 1))
                    &&& line@ == finished(taken(old(self)@, available@.take(r.0 - 1)))
                    &&& final(self)@ == no_line()
                },
            },
    {
        let mut i: usize = 0;
        while i < available.len() && available[i] != LINE_END
            invariant
                i <= available@.len(),
                *self == *old(self),
                is_inside(available@.take(i as int)),
            decreases available.len() - i,
        {
            assert(available@.take(i + 1) =~= available@.take(i as int).push(
                available@[i as int],
            ));
            i += 1;
        }
        self.take(available, i);
        if i < available.len() {
            let line = self.finish();
            return (i + 1, Some(line));
        }
        assert(available@.take(i as int) =~= available@);
        (i, None)
    }

    /// Takes the end of the input. A line that it cuts off is dropped.
    pub fn end(&mut self) -> (r: BoundedLine)
        ensures
            final(self)@ == no_line(),
            r@ == (if old(self)@.discarding {
                LineOutcome::Oversized
            } else {
                LineOutcome::Eof
            }),
    {
        match self.finish() {
            BoundedLine::Oversized => BoundedLine::Oversized,
            _ => BoundedLine::Eof,
        }
    }
}

/// A line without the carriage return at its end.
pub open spec fn without_return(line: Seq<u8>) -> Seq<u8> {
    if line.len() > 0 && line.last() == 13 {
        line.drop_last()
    } else {
        line
    }
}

/// Whether bytes begin with the mark of UTF-8.
pub open spec fn has_mark(line: Seq<u8>) -> bool {
    line.len() >= 3 && line[0] == 0xEF && line[1] == 0xBB && line[2] == 0xBF
}

/// The message of a line: without a carriage return at its end and a mark at its start.
pub open spec fn message_of(line: Seq<u8>) -> Seq<u8> {
    let rest = without_return(line);
    if has_mark(rest) {
        rest.skip(3)
    } else {
        rest
    }
}

/// The message of a line.
pub fn message_bytes(line: &[u8]) -> (r: Vec<u8>)
    ensures
        r@ == message_of(line@),
{
    let total: usize = line.len();
    let end: usize = if total > 0 && line[total - 1] == 13 {
        total - 1
    } else {
        total
    };
    let ghost rest = without_return(line@);
    assert(rest =~= line@.take(end as int));
    let start: usize = if end >= 3 && line[0] == 0xEF && line[1] == 0xBB && line[2] == 0xBF {
        3
    } else {
        0
    };
    let mut r: Vec<u8> = Vec::new();
    let mut i: usize = start;
    while i < end
        invariant
            start <= i <= end <= line@.len(),
            r@ == line@.subrange(start as int, i as int),
        decreases end - i,
    {
        r.push(line[i]);
        assert(line@.subrange(start as int, i + 1) =~= line@.subrange(start as int, i as int).push(
            line@[i as int],
        ));
        i += 1;
    }
    assert(r@ =~= message_of(line@));
    r
}

/// The message that a line is too long.
pub open spec fn oversized_text() -> Seq<char> {
    ("MCP stdio line exceeds the "@ + text::decimal(MAX_MCP_STDIN_LINE_BYTES as int))
        + "-byte limit"@
}

/// The message that a line is too long.
pub fn oversized_message() -> (r: String)
    ensures
        r@ == oversized_text(),
{
    let m = text::join(
        "MCP stdio line exceeds the ",
        text::decimal_of(MAX_MCP_STDIN_LINE_BYTES as u64).as_str(),
    );
    text::join(m.as_str(), "-byte limit")
}

/// What a message before admission comes to.
#[derive(Debug)]
pub enum Verdict {
    /// The message is passed on.
    Pass,
    /// The message is refused. The answer names the request where there is one, and what is missing
    /// from it.
    Reject { message: String, missing: Vec<String> },
}

/// What a verdict holds.
pub enum VerdictView {
    Pass,
    Reject { message: Seq<char>, missing: Seq<Seq<char>> },
}

impl View for Verdict {
    type V = VerdictView;

    open spec fn view(&self) -> VerdictView {
        match *self {
            Verdict::Pass => VerdictView::Pass,
            Verdict::Reject { message, missing } => VerdictView::Reject {
                message: message@,
                missing: text::text_views(missing@),
            },
        }
    }
}

/// The method of a message.
pub open spec fn method_of(raw: JsonView) -> Seq<char> {
    match raw.text_field("method"@) {
        Some(method) => method,
        None => Seq::empty(),
    }
}

/// What a message tells about itself.
pub open spec fn meta_of(raw: JsonView) -> JsonView {
    raw.at("params"@).at("_meta"@)
}

/// What a request without a session has to tell about itself, and does not.
pub open spec fn missing_from(raw: JsonView) -> Seq<Seq<char>> {
    let meta = meta_of(raw);
    let version = if meta.text_field("io.modelcontextprotocol/protocolVersion"@) is None {
        seq!["io.modelcontextprotocol/protocolVersion"@]
    } else {
        Seq::empty()
    };
    if meta.field("io.modelcontextprotocol/clientCapabilities"@) is None {
        version.push("io.modelcontextprotocol/clientCapabilities"@)
    } else {
        version
    }
}

/// What a message comes to, and whether the client is admitted afterwards.
pub open spec fn judged(admitted: bool, is_request: bool, raw: JsonView) -> (bool, VerdictView) {
    if admitted {
        (true, VerdictView::Pass)
    } else if !is_request {
        (
            false,
            VerdictView::Reject {
                message: "Expected an initialize, ping, or modern request"@,
                missing: Seq::empty(),
            },
        )
    } else if method_of(raw) == "ping"@ {
        (false, VerdictView::Pass)
    } else if method_of(raw) == "initialize"@ {
        (true, VerdictView::Pass)
    } else if missing_from(raw).len() > 0 {
        (
            false,
            VerdictView::Reject {
                message: "Missing required modern MCP request metadata"@,
                missing: missing_from(raw),
            },
        )
    } else {
        (true, VerdictView::Pass)
    }
}

/// Admission is never lost, a refused message admits nobody, and a message that could come first
/// is passed on and admits its client whatever was refused before.
pub proof fn refusals_leave_the_gate_as_it_was(admitted: bool, is_request: bool, raw: JsonView)
    ensures
        judged(admitted, is_request, raw).1 is Reject ==> judged(admitted, is_request, raw).0
            == admitted,
        admitted ==> judged(admitted, is_request, raw) == (true, VerdictView::Pass),
        is_request && (method_of(raw) == "initialize"@ && method_of(raw) != "ping"@ || (method_of(
            raw,
        ) != "ping"@ && missing_from(raw).len() == 0)) ==> judged(admitted, is_request, raw) == (
            true,
            VerdictView::Pass,
        ),
{
}

/// The barrier that the first messages of a client pass.
#[derive(Debug)]
pub struct Gate {
    pub admitted: bool,
}

fn read_missing(raw: &Json) -> (r: Vec<String>)
    ensures
        text::text_views(r@) == missing_from(raw@),
{
    let meta = raw.at("params").at("_meta");
    let mut missing: Vec<String> = Vec::new();
    assert(text::text_views(missing@) =~= Seq::empty());
    if meta.get_str("io.modelcontextprotocol/protocolVersion").is_none() {
        missing.push("io.modelcontextprotocol/protocolVersion".to_owned());
        assert(text::text_views(missing@) =~= seq!["io.modelcontextprotocol/protocolVersion"@]);
    }
    if meta.get("io.modelcontextprotocol/clientCapabilities").is_none() {
        let ghost earlier = text::text_views(missing@);
        missing.push("io.modelcontextprotocol/clientCapabilities".to_owned());
        assert(text::text_views(missing@) =~= earlier.push(
            "io.modelcontextprotocol/clientCapabilities"@,
        ));
    }
    missing
}

impl Gate {
    /// A barrier that nobody has passed.
    pub fn new() -> (r: Gate)
        ensures
            !r.admitted,
    {
        Gate { admitted: false }
    }

    /// Judges a message.
    pub fn admit_initial(&mut self, is_request: bool, raw: &Json) -> (r: Verdict)
        ensures
            (final(self).admitted, r@) == judged(old(self).admitted, is_request, raw@),
    {
        if self.admitted {
            return Verdict::Pass;
        }
        if !is_request {
            let none: Vec<String> = Vec::new();
            assert(text::text_views(none@) =~= Seq::empty());
            return Verdict::Reject {
                message: "Expected an initialize, ping, or modern request".to_owned(),
                missing: none,
            };
        }
        let method = match raw.get_str("method") {
            Some(method) => method.to_owned(),
            None => String::new(),
        };
        if text::same(method.as_str(), "ping") {
            return Verdict::Pass;
        }
        if text::same(method.as_str(), "initialize") {
            self.admitted = true;
            return Verdict::Pass;
        }
        let missing = read_missing(raw);
        assert(text::text_views(missing@).len() == missing@.len());
        if missing.len() > 0 {
            return Verdict::Reject {
                message: "Missing required modern MCP request metadata".to_owned(),
                missing,
            };
        }
        self.admitted = true;
        Verdict::Pass
    }
}

/// The data of a refusal, where anything is missing.
pub fn missing_data(missing: &Vec<String>) -> (r: Json)
    ensures
        r@ == JsonView::object().with("missing"@, json::text_array(text::text_views(missing@))),
{
    Json::object().with("missing", Json::texts(missing.as_slice()))
}

} // verus!
