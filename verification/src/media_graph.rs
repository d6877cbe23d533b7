//! Shared bounds, checks and hashing for descriptor-based optical media. Opening and reading files
//! is the caller's; what was found is checked here.

use vstd::prelude::*;
use vstd::string::*;
use crate::encoding;
use crate::encoding::Sha256Stream;
use crate::path_safety;
use crate::text;

verus! {

pub const MAX_DESCRIPTOR_BYTES: u64 = 0x10_0000;

pub const MAX_GRAPH_MEMBERS: usize = 256;

pub const MAX_MEMBER_BYTES: u64 = 0x8000_0000;

pub const MAX_GRAPH_BYTES: u64 = 0x2_0000_0000;

pub const MAX_DECLARED_NAME_BYTES: usize = 0xc000;

/// The class of a media error.
#[derive(Clone, Copy, Debug, PartialEq, Eq, Structural)]
pub enum MediaErrorKind {
    NotFound,
    InvalidData,
    Other,
}

/// Why a media graph was refused.
#[derive(Debug)]
pub struct MediaError {
    pub kind: MediaErrorKind,
    pub message: String,
}

/// What a media error holds.
pub struct MediaErrorView {
    pub kind: MediaErrorKind,
    pub message: Seq<char>,
}

impl View for MediaError {
    type V = MediaErrorView;

    open spec fn view(&self) -> MediaErrorView {
        MediaErrorView { kind: self.kind, message: self.message@ }
    }
}

/// A refusal of what a graph holds.
pub open spec fn invalid<T>(message: Seq<char>) -> Result<T, MediaErrorView> {
    Err(MediaErrorView { kind: MediaErrorKind::InvalidData, message })
}

/// Builds a refusal of what a graph holds.
pub fn invalid_data(message: String) -> (r: MediaError)
    ensures
        r@ == (MediaErrorView { kind: MediaErrorKind::InvalidData, message: message@ }),
{
    MediaError { kind: MediaErrorKind::InvalidData, message }
}

/// A member of a graph, by its portable path relative to the directory of the entry.
#[derive(Debug, PartialEq, Eq)]
pub struct MediaReference {
    pub declared_name: String,
}

/// The names of the given members.
pub open spec fn reference_names(references: Seq<MediaReference>) -> Seq<Seq<char>> {
    Seq::new(references.len(), |i: int| references[i].declared_name@)
}

/// The identity of one file of a graph.
#[derive(Debug, PartialEq, Eq)]
pub struct MediaFileIdentity {
    pub declared_name: String,
    pub path: String,
    pub size: u64,
    pub sha256: String,
}

/// What a file identity holds.
#[verifier::ext_equal]
pub struct FileIdentityView {
    pub declared_name: Seq<char>,
    pub path: Seq<char>,
    pub size: u64,
    pub sha256: Seq<char>,
}

impl View for MediaFileIdentity {
    type V = FileIdentityView;

    open spec fn view(&self) -> FileIdentityView {
        FileIdentityView {
            declared_name: self.declared_name@,
            path: self.path@,
            size: self.size,
            sha256: self.sha256@,
        }
    }
}

/// The identity of a whole graph.
#[derive(Debug, PartialEq, Eq)]
pub struct MediaGraphIdentity {
    pub sha256: String,
    pub size: u64,
    pub files: Vec<MediaFileIdentity>,
}

/// What the given file identities hold.
pub open spec fn file_views(files: Seq<MediaFileIdentity>) -> Seq<FileIdentityView> {
    Seq::new(files.len(), |i: int| files[i]@)
}

/// What a graph identity holds.
#[verifier::ext_equal]
pub struct GraphIdentityView {
    pub sha256: Seq<char>,
    pub size: u64,
    pub files: Seq<FileIdentityView>,
}

impl View for MediaGraphIdentity {
    type V = GraphIdentityView;

    open spec fn view(&self) -> GraphIdentityView {
        GraphIdentityView { sha256: self.sha256@, size: self.size, files: file_views(self.files@) }
    }
}

/// Whether a result is the one described, up to the views of its value and error.
pub open spec fn gives<T: View>(r: Result<T, MediaError>, expected: Result<T::V, MediaErrorView>) -> bool {
    match (r, expected) {
        (Ok(x), Ok(y)) => x@ == y,
        (Err(e), Err(f)) => e@ == f,
        _ => false,
    }
}

/// Whether a check has the described result.
pub open spec fn checks(r: Result<(), MediaError>, expected: Result<(), MediaErrorView>) -> bool {
    match (r, expected) {
        (Ok(()), Ok(())) => true,
        (Err(e), Err(f)) => e@ == f,
        _ => false,
    }
}

// ---------------------------------------------------------------------------------------------
// Reading a descriptor.

/// What tells a file apart from a changed one: its length and the time of its last change.
#[derive(Clone, Copy, Debug, PartialEq, Eq, Structural)]
pub struct FileStamp {
    pub len: u64,
    pub modified: Option<u64>,
}

/// The message that an entry file is too long.
pub open spec fn oversized(kind: Seq<char>, max_bytes: u64, display: Seq<char>) -> Seq<char> {
    (((kind + " entry file exceeds "@) + text::decimal(max_bytes as int)) + " bytes: "@) + display
}

fn oversized_entry(kind: &str, max_bytes: u64, display: &str) -> (r: MediaError)
    ensures
        r@ == (MediaErrorView {
            kind: MediaErrorKind::InvalidData,
            message: oversized(kind@, max_bytes, display@),
        }),
{
    let m = text::join(kind, " entry file exceeds ");
    let m = text::join(m.as_str(), text::decimal_of(max_bytes).as_str());
    let m = text::join(m.as_str(), " bytes: ");
    invalid_data(text::join(m.as_str(), display))
}

/// What the bytes read from an entry file come to, given its stamps before and after.
pub open spec fn descriptor_check(
    kind: Seq<char>,
    display: Seq<char>,
    max_bytes: u64,
    before: FileStamp,
    read: int,
    after: FileStamp,
) -> Result<(), MediaErrorView> {
    if before.len > max_bytes || read > max_bytes {
        invalid(oversized(kind, max_bytes, display))
    } else if read != before.len || after != before {
        invalid((kind + " entry file changed while it was read: "@) + display)
    } else {
        Ok(())
    }
}

/// Checks the bytes read from an entry file: within the bound, and of a file that did not change.
pub fn check_descriptor(
    kind: &str,
    display: &str,
    max_bytes: u64,
    before: FileStamp,
    read: u64,
    after: FileStamp,
) -> (r: Result<(), MediaError>)
    ensures
        checks(r, descriptor_check(kind@, display@, max_bytes, before, read as int, after)),
{
    if before.len > max_bytes || read > max_bytes {
        return Err(oversized_entry(kind, max_bytes, display));
    }
    if read != before.len || after.len != before.len || after.modified != before.modified {
        let m = text::join(kind, " entry file changed while it was read: ");
        return Err(invalid_data(text::join(m.as_str(), display)));
    }
    Ok(())
}

/// What an outside file operation reported.
#[derive(Debug)]
pub struct IoFailure {
    pub kind: MediaErrorKind,
    pub message: String,
}

/// The error of an entry file that could not be opened.
pub fn entry_open_error(kind: &str, display: &str, failure: &IoFailure) -> (r: MediaError)
    ensures
        r@ == (MediaErrorView {
            kind: failure.kind,
            message: (((kind@ + " entry file is missing or unsafe: "@) + display@) + ": "@)
                + failure.message@,
        }),
{
    let m = text::join(kind, " entry file is missing or unsafe: ");
    let m = text::join(m.as_str(), display);
    let m = text::join(m.as_str(), ": ");
    MediaError { kind: failure.kind, message: text::join(m.as_str(), failure.message.as_str()) }
}

// ---------------------------------------------------------------------------------------------
// Text descriptors.

/// What `std::str::from_utf8` says of bytes that are no UTF-8.
pub uninterp spec fn utf8_fault(bytes: Seq<u8>) -> Seq<char>;

/// `std::str::from_utf8` gives the text of bytes that are UTF-8, and else says why they are not.
#[verifier::external_body]
fn read_utf8(bytes: &[u8]) -> (r: Result<&str, String>)
    ensures
        match r {
            Ok(s) => vstd::utf8::valid_utf8(bytes@) && s@ == vstd::utf8::decode_utf8(bytes@),
            Err(m) => !vstd::utf8::valid_utf8(bytes@) && m@ == utf8_fault(bytes@),
        },
{
    std::str::from_utf8(bytes).map_err(|error| error.to_string())
}

/// The text as `{:?}` of std writes it: in quotes, with escapes.
pub uninterp spec fn quoted_text(s: Seq<char>) -> Seq<char>;

/// The `Debug` form of `str` in std, through `format!`.
#[verifier::external_body]
pub(crate) fn quote(s: &str) -> (r: String)
    ensures
        r@ == quoted_text(s@),
{
    format!("{s:?}")
}

/// Whether a character is a control character (the Unicode category Cc).
pub open spec fn is_control(c: char) -> bool {
    c < ' ' || '\u{7f}' <= c <= '\u{9f}'
}

/// Whether a character is one that a loader may take for the end of a string or of a line.
pub open spec fn is_unsafe_control(c: char) -> bool {
    is_control(c) && c != '\t' && c != '\n' && c != '\r'
}

/// The place of the first unsafe control character.
pub open spec fn first_control(s: Seq<char>) -> Option<int>
    decreases s.len(),
{
    if s.len() == 0 {
        None
    } else {
        match first_control(s.drop_last()) {
            Some(i) => Some(i),
            None => if is_unsafe_control(s.last()) {
                Some(s.len() - 1)
            } else {
                None
            },
        }
    }
}

/// The text of a descriptor, or why it is refused.
pub open spec fn descriptor_content(bytes: Seq<u8>, kind: Seq<char>) -> Result<
    Seq<char>,
    MediaErrorView,
> {
    if !vstd::utf8::valid_utf8(bytes) {
        invalid(utf8_fault(bytes))
    } else {
        let s = vstd::utf8::decode_utf8(bytes);
        match first_control(s) {
            None => Ok(s),
            Some(i) => invalid(
                (kind + " contains an unsupported control character at byte "@) + text::decimal(
                    vstd::utf8::encode_utf8(s.take(i)).len() as int,
                ),
            ),
        }
    }
}

proof fn first_control_stays(s: Seq<char>, n: int)
    requires
        0 <= n <= s.len(),
        first_control(s.take(n)) is Some,
    ensures
        first_control(s) == first_control(s.take(n)),
    decreases s.len() - n,
{
    if n == s.len() {
        assert(s.take(n) =~= s);
    } else {
        assert(s.take(n + 1).drop_last() =~= s.take(n));
        first_control_stays(s, n + 1);
    }
}

proof fn encode_append(a: Seq<char>, c: char)
    ensures
        vstd::utf8::encode_utf8(a.push(c)) == vstd::utf8::encode_utf8(a)
            + vstd::utf8::encode_scalar(c as u32),
    decreases a.len(),
{
    let all = a.push(c);
    if a.len() == 0 {
        assert(all.drop_first() =~= a);
        assert(all[0] == c);
        assert(vstd::utf8::encode_utf8(a) =~= Seq::empty());
        assert(vstd::utf8::encode_utf8(all) =~= vstd::utf8::encode_utf8(a)
            + vstd::utf8::encode_scalar(c as u32));
    } else {
        encode_append(a.drop_first(), c);
        assert(all.drop_first() =~= a.drop_first().push(c));
        assert(vstd::utf8::encode_utf8(all) =~= vstd::utf8::encode_utf8(a)
            + vstd::utf8::encode_scalar(c as u32));
    }
}

proof fn encode_grows(s: Seq<char>, n: int)
    requires
        0 <= n <= s.len(),
    ensures
        vstd::utf8::encode_utf8(s.take(n)).len() <= vstd::utf8::encode_utf8(s).len(),
    decreases s.len() - n,
{
    if n == s.len() {
        assert(s.take(n) =~= s);
    } else {
        encode_append(s.take(n), s[n]);
        assert(s.take(n).push(s[n]) =~= s.take(n + 1));
        encode_grows(s, n + 1);
    }
}

fn encoded_len(c: char) -> (r: usize)
    ensures
        r == vstd::utf8::encode_scalar(c as u32).len(),
        1 <= r <= 4,
{
    let code: u32 = c as u32;
    if code <= 0x7f {
        1
    } else if code <= 0x7ff {
        2
    } else if code <= 0xffff {
        3
    } else {
        4
    }
}

/// Decodes a text descriptor without accepting control characters that loaders may treat as
/// string terminators or line ends.
pub fn descriptor_text<'a>(bytes: &'a [u8], kind: &str) -> (r: Result<&'a str, MediaError>)
    ensures
        match (r, descriptor_content(bytes@, kind@)) {
            (Ok(s), Ok(t)) => s@ == t,
            (Err(e), Err(f)) => e@ == f,
            _ => false,
        },
{
    let s = match read_utf8(bytes) {
        Ok(s) => s,
        Err(message) => {
            return Err(invalid_data(message));
        },
    };
    let total: usize = s.as_bytes().len();
    let chars = text::chars_of(s);
    let mut offset: usize = 0;
    let mut i: usize = 0;
    assert(s@.take(0) =~= Seq::empty());
    while i < chars.len()
        invariant
            i <= chars.len(),
            chars@ == s@,
            vstd::utf8::valid_utf8(bytes@),
            s@ == vstd::utf8::decode_utf8(bytes@),
            total == vstd::utf8::encode_utf8(s@).len(),
            offset == vstd::utf8::encode_utf8(s@.take(i as int)).len(),
            first_control(s@.take(i as int)) is None,
        decreases chars.len() - i,
    {
        let c = chars[i];
        proof {
            assert(s@.take(i + 1).drop_last() =~= s@.take(i as int));
            assert(s@.take(i + 1) =~= s@.take(i as int).push(c));
            encode_append(s@.take(i as int), c);
            encode_grows(s@, i + 1);
        }
        if (c < ' ' || ('\u{7f}' <= c && c <= '\u{9f}')) && c != '\t' && c != '\n' && c != '\r' {
            proof {
                first_control_stays(s@, i + 1);
            }
            let m = text::join(kind, " contains an unsupported control character at byte ");
            return Err(invalid_data(text::join(m.as_str(), text::decimal_of(offset as u64).as_str())));
        }
        offset = offset + encoded_len(c);
        i += 1;
    }
    assert(s@.take(chars.len() as int) =~= s@);
    Ok(s)
}

/// A line being split into fields.
#[verifier::ext_equal]
pub struct FieldState {
    pub fields: Seq<Seq<char>>,
    pub current: Seq<char>,
    pub quoted: bool,
    pub started: bool,
}

/// The message of a fault in a line.
pub open spec fn line_fault(kind: Seq<char>, fault: Seq<char>, line_number: int) -> Seq<char> {
    ((kind + fault) + " at line "@) + text::decimal(line_number)
}

/// The splitting after one more character: quotes open only at the start of a field and close
/// it, white space outside quotes ends it.
pub open spec fn field_step(
    st: FieldState,
    c: char,
    kind: Seq<char>,
    line_number: int,
    max_fields: int,
) -> Result<FieldState, MediaErrorView> {
    if c == '"' {
        if st.quoted {
            Ok(FieldState { quoted: false, started: true, ..st })
        } else if !st.started {
            Ok(FieldState { quoted: true, started: true, ..st })
        } else {
            invalid(line_fault(kind, " has an unexpected quote"@, line_number))
        }
    } else if text::is_space(c) && !st.quoted {
        if !st.started {
            Ok(st)
        } else if st.fields.len() >= max_fields {
            invalid(line_fault(kind, " has too many fields"@, line_number))
        } else {
            Ok(
                FieldState {
                    fields: st.fields.push(st.current),
                    current: Seq::empty(),
                    started: false,
                    ..st
                },
            )
        }
    } else {
        Ok(FieldState { current: st.current.push(c), started: true, ..st })
    }
}

/// The splitting of a line so far; the first fault decides.
pub open spec fn field_scan(line: Seq<char>, kind: Seq<char>, line_number: int, max_fields: int) -> Result<
    FieldState,
    MediaErrorView,
>
    decreases line.len(),
{
    if line.len() == 0 {
        Ok(
            FieldState {
                fields: Seq::empty(),
                current: Seq::empty(),
                quoted: false,
                started: false,
            },
        )
    } else {
        match field_scan(line.drop_last(), kind, line_number, max_fields) {
            Err(e) => Err(e),
            Ok(st) => field_step(st, line.last(), kind, line_number, max_fields),
        }
    }
}

/// The fields of a line.
pub open spec fn fields_of(line: Seq<char>, kind: Seq<char>, line_number: int, max_fields: int) -> Result<
    Seq<Seq<char>>,
    MediaErrorView,
> {
    match field_scan(line, kind, line_number, max_fields) {
        Err(e) => Err(e),
        Ok(st) => if st.quoted {
            invalid(line_fault(kind, " has an unterminated quote"@, line_number))
        } else if !st.started {
            Ok(st.fields)
        } else if st.fields.len() >= max_fields {
            invalid(line_fault(kind, " has too many fields"@, line_number))
        } else {
            Ok(st.fields.push(st.current))
        },
    }
}

proof fn field_scan_stays(line: Seq<char>, kind: Seq<char>, line_number: int, max_fields: int, n: int)
    requires
        0 <= n <= line.len(),
        field_scan(line.take(n), kind, line_number, max_fields) is Err,
    ensures
        field_scan(line, kind, line_number, max_fields) == field_scan(
            line.take(n),
            kind,
            line_number,
            max_fields,
        ),
    decreases line.len() - n,
{
    if n == line.len() {
        assert(line.take(n) =~= line);
    } else {
        assert(line.take(n + 1).drop_last() =~= line.take(n));
        field_scan_stays(line, kind, line_number, max_fields, n + 1);
    }
}

proof fn field_scan_bound(line: Seq<char>, kind: Seq<char>, line_number: int, max_fields: int)
    requires
        max_fields >= 0,
    ensures
        field_scan(line, kind, line_number, max_fields) matches Ok(st) ==> st.fields.len()
            <= max_fields,
    decreases line.len(),
{
    if line.len() > 0 {
        field_scan_bound(line.drop_last(), kind, line_number, max_fields);
    }
}

/// No line has more fields than allowed.
pub proof fn fields_are_bounded(line: Seq<char>, kind: Seq<char>, line_number: int, max_fields: int)
    requires
        max_fields >= 0,
    ensures
        fields_of(line, kind, line_number, max_fields) matches Ok(fields) ==> fields.len()
            <= max_fields,
{
    field_scan_bound(line, kind, line_number, max_fields);
}

fn line_error(kind: &str, fault: &str, line_number: usize) -> (r: MediaError)
    ensures
        r@ == (MediaErrorView {
            kind: MediaErrorKind::InvalidData,
            message: line_fault(kind@, fault@, line_number as int),
        }),
{
    let m = text::join(kind, fault);
    let m = text::join(m.as_str(), " at line ");
    invalid_data(text::join(m.as_str(), text::decimal_of(line_number as u64).as_str()))
}

/// Splits a line into fields; a field may be quoted to hold white space.
pub fn quoted_fields(line: &str, kind: &str, line_number: usize, max_fields: usize) -> (r: Result<
    Vec<String>,
    MediaError,
>)
    ensures
        match (r, fields_of(line@, kind@, line_number as int, max_fields as int)) {
            (Ok(v), Ok(fields)) => text::text_views(v@) == fields,
            (Err(e), Err(f)) => e@ == f,
            _ => false,
        },
{
    let chars = text::chars_of(line);
    let mut fields: Vec<String> = Vec::new();
    let mut current = String::new();
    let mut quoted = false;
    let mut started = false;
    let mut i: usize = 0;
    proof {
        assert(line@.take(0) =~= Seq::empty());
        assert(text::text_views(fields@) =~= Seq::empty());
    }
    while i < chars.len()
        invariant
            i <= chars.len(),
            chars@ == line@,
            field_scan(line@.take(i as int), kind@, line_number as int, max_fields as int) == Ok::<
                _,
                MediaErrorView,
            >(
                FieldState {
                    fields: text::text_views(fields@),
                    current: current@,
                    quoted,
                    started,
                },
            ),
        decreases chars.len() - i,
    {
        let c = chars[i];
        let ghost before = text::text_views(fields@);
        let ghost word = current@;
        proof {
            assert(line@.take(i + 1).drop_last() =~= line@.take(i as int));
            assert(line@.take(i + 1).last() == c);
        }
        if c == '"' {
            if quoted {
                quoted = false;
                started = true;
            } else if !started {
                quoted = true;
                started = true;
            } else {
                proof {
                    field_scan_stays(line@, kind@, line_number as int, max_fields as int, i + 1);
                }
                return Err(line_error(kind, " has an unexpected quote", line_number));
            }
        } else if text::space(c) && !quoted {
            if started {
                if fields.len() >= max_fields {
                    proof {
                        field_scan_stays(line@, kind@, line_number as int, max_fields as int, i + 1);
                    }
                    return Err(line_error(kind, " has too many fields", line_number));
                }
                fields.push(current);
                current = String::new();
                started = false;
                assert(text::text_views(fields@) =~= before.push(word));
            }
        } else {
            current.push(c);
            started = true;
        }
        i += 1;
    }
    assert(line@.take(chars.len() as int) =~= line@);
    if quoted {
        return Err(line_error(kind, " has an unterminated quote", line_number));
    }
    if started {
        if fields.len() >= max_fields {
            return Err(line_error(kind, " has too many fields", line_number));
        }
        let ghost before = text::text_views(fields@);
        let ghost word = current@;
        fields.push(current);
        assert(text::text_views(fields@) =~= before.push(word));
    }
    Ok(fields)
}

// ---------------------------------------------------------------------------------------------
// Checking the members of a graph.

/// What opening a member found. The member is opened without following links; its canonical path
/// is resolved after its length was accepted.
#[derive(Debug)]
pub enum MemberProbe {
    OpenFailed(IoFailure),
    MetadataFailed(IoFailure),
    PathFailed { len: u64, failure: IoFailure },
    Found { len: u64, path: String },
}

/// The entry of a graph: how it is shown, its canonical path and its length.
#[derive(Debug)]
pub struct EntryFacts {
    pub display: String,
    pub canonical: String,
    pub len: u64,
}

/// The error of a member that is missing or unsafe.
pub open spec fn member_fault(kind: Seq<char>, name: Seq<char>, failure: IoFailure) -> MediaErrorView {
    MediaErrorView {
        kind: if failure.kind is NotFound {
            MediaErrorKind::NotFound
        } else {
            MediaErrorKind::InvalidData
        },
        message: (((kind + " member is missing or unsafe (declared as "@) + quoted_text(name))
            + "): "@) + failure.message@,
    }
}

/// The error of a member that is missing or unsafe.
pub fn member_error(kind: &str, name: &str, failure: &IoFailure) -> (r: MediaError)
    ensures
        r@ == member_fault(kind@, name@, *failure),
{
    let error_kind = match failure.kind {
        MediaErrorKind::NotFound => MediaErrorKind::NotFound,
        _ => MediaErrorKind::InvalidData,
    };
    let m = text::join(kind, " member is missing or unsafe (declared as ");
    let m = text::join(m.as_str(), quote(name).as_str());
    let m = text::join(m.as_str(), "): ");
    MediaError { kind: error_kind, message: text::join(m.as_str(), failure.message.as_str()) }
}

/// The error that an outside failure stands for as it is.
pub open spec fn plain_fault(failure: IoFailure) -> MediaErrorView {
    MediaErrorView { kind: failure.kind, message: failure.message@ }
}

fn plain_error(failure: &IoFailure) -> (r: MediaError)
    ensures
        r@ == plain_fault(*failure),
{
    MediaError { kind: failure.kind, message: failure.message.clone() }
}

/// The members accepted so far: the bytes of their names, the bytes of the entry and of all
/// distinct members, and their canonical paths in order.
#[derive(Debug)]
pub struct ReferenceCheck {
    pub name_bytes: usize,
    pub total: u64,
    pub paths: Vec<String>,
}

/// What the accepted members hold.
#[verifier::ext_equal]
pub struct ReferenceCheckView {
    pub name_bytes: nat,
    pub total: nat,
    pub paths: Seq<Seq<char>>,
}

impl View for ReferenceCheck {
    type V = ReferenceCheckView;

    open spec fn view(&self) -> ReferenceCheckView {
        ReferenceCheckView {
            name_bytes: self.name_bytes as nat,
            total: self.total as nat,
            paths: text::text_views(self.paths@),
        }
    }
}

/// The bytes of a name.
pub open spec fn name_len(name: Seq<char>) -> nat {
    vstd::utf8::encode_utf8(name).len()
}

/// What the next declared name comes to, before anything is opened.
pub open spec fn name_check(st: ReferenceCheckView, kind: Seq<char>, name: Seq<char>) -> Result<
    ReferenceCheckView,
    MediaErrorView,
> {
    if st.name_bytes + name_len(name) > usize::MAX {
        invalid("media member name size overflow"@)
    } else if st.name_bytes + name_len(name) > MAX_DECLARED_NAME_BYTES {
        invalid("media graph declares too much file-name data"@)
    } else if !path_safety::is_portable(name) {
        invalid((kind + " member path escapes or is not portable: "@) + quoted_text(name))
    } else {
        Ok(ReferenceCheckView { name_bytes: st.name_bytes + name_len(name), ..st })
    }
}

/// The message that a member has an unusable size.
pub open spec fn size_fault(kind: Seq<char>, name: Seq<char>) -> Seq<char> {
    (((kind + " member size is outside 1..="@) + text::decimal(MAX_MEMBER_BYTES as int)) + ": "@)
        + quoted_text(name)
}

/// What an opened member comes to. A file that is named twice counts once.
pub open spec fn member_check(
    st: ReferenceCheckView,
    entry: EntryFacts,
    kind: Seq<char>,
    name: Seq<char>,
    probe: MemberProbe,
) -> Result<ReferenceCheckView, MediaErrorView> {
    match probe {
        MemberProbe::OpenFailed(failure) => Err(member_fault(kind, name, failure)),
        MemberProbe::MetadataFailed(failure) => Err(plain_fault(failure)),
        MemberProbe::PathFailed { len, failure } => if len == 0 || len > MAX_MEMBER_BYTES {
            invalid(size_fault(kind, name))
        } else {
            Err(member_fault(kind, name, failure))
        },
        MemberProbe::Found { len, path } => if len == 0 || len > MAX_MEMBER_BYTES {
            invalid(size_fault(kind, name))
        } else if path@ == entry.canonical@ {
            invalid(kind + " entry file cannot also be a media member"@)
        } else if st.paths.contains(path@) {
            Ok(ReferenceCheckView { paths: st.paths.push(path@), ..st })
        } else if st.total + len > u64::MAX {
            invalid("media graph size overflow"@)
        } else if st.total + len > MAX_GRAPH_BYTES {
            invalid(
                (((kind + " graph exceeds "@) + text::decimal(MAX_GRAPH_BYTES as int))
                    + " bytes: "@) + entry.display@,
            )
        } else {
            Ok(
                ReferenceCheckView {
                    total: st.total + len as nat,
                    paths: st.paths.push(path@),
                    ..st
                },
            )
        },
    }
}

/// The members accepted out of the first ones; the first fault decides.
pub open spec fn members_scan(
    entry: EntryFacts,
    kind: Seq<char>,
    names: Seq<Seq<char>>,
    probes: Seq<MemberProbe>,
) -> Result<ReferenceCheckView, MediaErrorView>
    decreases names.len(),
{
    if names.len() == 0 {
        Ok(ReferenceCheckView { name_bytes: 0, total: entry.len as nat, paths: Seq::empty() })
    } else {
        match members_scan(entry, kind, names.drop_last(), probes) {
            Err(e) => Err(e),
            Ok(st) => match name_check(st, kind, names.last()) {
                Err(e) => Err(e),
                Ok(named) => member_check(named, entry, kind, names.last(), probes[names.len() - 1]),
            },
        }
    }
}

/// Whether the number of members is one that a graph may have.
pub open spec fn count_check(display: Seq<char>, kind: Seq<char>, count: nat) -> Result<
    (),
    MediaErrorView,
> {
    if count == 0 {
        invalid((kind + " contains no media references: "@) + display)
    } else if count > MAX_GRAPH_MEMBERS - 1 {
        invalid((kind + " references too many files: "@) + display)
    } else {
        Ok(())
    }
}

/// The canonical paths of the members of a graph, or why it is refused.
pub open spec fn validated(
    entry: EntryFacts,
    kind: Seq<char>,
    names: Seq<Seq<char>>,
    probes: Seq<MemberProbe>,
) -> Result<Seq<Seq<char>>, MediaErrorView> {
    match count_check(entry.display@, kind, names.len()) {
        Err(e) => Err(e),
        Ok(()) => match members_scan(entry, kind, names, probes) {
            Err(e) => Err(e),
            Ok(st) => Ok(st.paths),
        },
    }
}

proof fn members_scan_stays(
    entry: EntryFacts,
    kind: Seq<char>,
    names: Seq<Seq<char>>,
    probes: Seq<MemberProbe>,
    n: int,
)
    requires
        0 <= n <= names.len(),
        members_scan(entry, kind, names.take(n), probes) is Err,
    ensures
        members_scan(entry, kind, names, probes) == members_scan(entry, kind, names.take(n), probes),
    decreases names.len() - n,
{
    if n == names.len() {
        assert(names.take(n) =~= names);
    } else {
        assert(names.take(n + 1).drop_last() =~= names.take(n));
        members_scan_stays(entry, kind, names, probes, n + 1);
    }
}

proof fn members_scan_bounds(
    entry: EntryFacts,
    kind: Seq<char>,
    names: Seq<Seq<char>>,
    probes: Seq<MemberProbe>,
)
    ensures
        members_scan(entry, kind, names, probes) matches Ok(st) ==> {
            &&& st.paths.len() == names.len()
            &&& st.name_bytes <= MAX_DECLARED_NAME_BYTES
            &&& names.len() > 0 ==> (st.total <= MAX_GRAPH_BYTES || st.total == entry.len)
            &&& forall|i: int|
                0 <= i < names.len() ==> path_safety::is_portable(#[trigger] names[i]) && name_len(
                    names[i],
                ) <= MAX_DECLARED_NAME_BYTES
            &&& !st.paths.contains(entry.canonical@)
        },
    decreases names.len(),
{
    if names.len() > 0 {
        let front = names.drop_last();
        members_scan_bounds(entry, kind, front, probes);
        if members_scan(entry, kind, names, probes) is Ok {
            let st = members_scan(entry, kind, front, probes)->Ok_0;
            let after = members_scan(entry, kind, names, probes)->Ok_0;
            assert forall|i: int| 0 <= i < names.len() implies path_safety::is_portable(
                #[trigger] names[i],
            ) && name_len(names[i]) <= MAX_DECLARED_NAME_BYTES by {
                if i < names.len() - 1 {
                    assert(front[i] == names[i]);
                }
            }
            assert forall|i: int| 0 <= i < after.paths.len() implies after.paths[i]
                != entry.canonical@ by {
                if i < st.paths.len() {
                    assert(after.paths[i] == st.paths[i]);
                    assert(st.paths.contains(st.paths[i]));
                }
            }
        }
    }
}

/// Every accepted graph keeps its bounds: at most 255 members, portable names of at most 48 KiB
/// together, the entry is none of its own members, and an entry of acceptable length and the
/// distinct members stay within the bound of a graph.
pub proof fn accepted_graphs_are_bounded(
    entry: EntryFacts,
    kind: Seq<char>,
    names: Seq<Seq<char>>,
    probes: Seq<MemberProbe>,
)
    requires
        validated(entry, kind, names, probes) is Ok,
    ensures
        1 <= names.len() <= 255,
        validated(entry, kind, names, probes)->Ok_0.len() == names.len(),
        !validated(entry, kind, names, probes)->Ok_0.contains(entry.canonical@),
        forall|i: int| 0 <= i < names.len() ==> path_safety::is_portable(#[trigger] names[i]),
        members_scan(entry, kind, names, probes)->Ok_0.name_bytes <= MAX_DECLARED_NAME_BYTES,
        entry.len <= MAX_GRAPH_BYTES ==> members_scan(entry, kind, names, probes)->Ok_0.total
            <= MAX_GRAPH_BYTES,
{
    members_scan_bounds(entry, kind, names, probes);
}

/// Refuses a graph without members or with too many.
pub fn check_reference_count(display: &str, kind: &str, count: usize) -> (r: Result<(), MediaError>)
    ensures
        checks(r, count_check(display@, kind@, count as nat)),
{
    if count == 0 {
        let m = text::join(kind, " contains no media references: ");
        return Err(invalid_data(text::join(m.as_str(), display)));
    }
    if count > MAX_GRAPH_MEMBERS - 1 {
        let m = text::join(kind, " references too many files: ");
        return Err(invalid_data(text::join(m.as_str(), display)));
    }
    Ok(())
}

fn contains_text(items: &[String], s: &str) -> (r: bool)
    ensures
        r == text::text_views(items@).contains(s@),
{
    let ghost shown = text::text_views(items@);
    let mut i: usize = 0;
    while i < items.len()
        invariant
            i <= items.len(),
            shown == text::text_views(items@),
            forall|k: int| 0 <= k < i ==> shown[k] != s@,
        decreases items.len() - i,
    {
        assert(shown[i as int] == items@[i as int]@);
        if text::same(items[i].as_str(), s) {
            return true;
        }
        i += 1;
    }
    false
}

impl ReferenceCheck {
    /// Before the first member: only the entry counts.
    pub fn new(entry_len: u64) -> (r: ReferenceCheck)
        ensures
            r@ == (ReferenceCheckView {
                name_bytes: 0,
                total: entry_len as nat,
                paths: Seq::empty(),
            }),
    {
        let r = ReferenceCheck { name_bytes: 0, total: entry_len, paths: Vec::new() };
        assert(r@.paths =~= Seq::empty());
        r
    }

    /// Checks the next declared name, before anything is opened.
    pub fn name(&mut self, kind: &str, name: &str) -> (r: Result<(), MediaError>)
        ensures
            match name_check(old(self)@, kind@, name@) {
                Ok(st) => r is Ok && final(self)@ == st,
                Err(e) => (r matches Err(error) && error@ == e) && final(self)@.paths == old(
                    self,
                )@.paths,
            },
    {
        let len: usize = name.as_bytes().len();
        let sum: usize = match self.name_bytes.checked_add(len) {
            Some(sum) => sum,
            None => {
                return Err(invalid_data("media member name size overflow".to_owned()));
            },
        };
        if sum > MAX_DECLARED_NAME_BYTES {
            return Err(invalid_data("media graph declares too much file-name data".to_owned()));
        }
        if !path_safety::is_portable_relative_member(name) {
            let m = text::join(kind, " member path escapes or is not portable: ");
            return Err(invalid_data(text::join(m.as_str(), quote(name).as_str())));
        }
        self.name_bytes = sum;
        Ok(())
    }

    /// Checks what opening a member found.
    pub fn member(&mut self, entry: &EntryFacts, kind: &str, name: &str, probe: &MemberProbe) -> (r:
        Result<(), MediaError>)
        ensures
            match member_check(old(self)@, *entry, kind@, name@, *probe) {
                Ok(st) => r is Ok && final(self)@ == st,
                Err(e) => (r matches Err(error) && error@ == e) && final(self)@ == old(self)@,
            },
    {
        let ghost start = self@;
        let (len, found) = match probe {
            MemberProbe::OpenFailed(failure) => {
                return Err(member_error(kind, name, failure));
            },
            MemberProbe::MetadataFailed(failure) => {
                return Err(plain_error(failure));
            },
            MemberProbe::PathFailed { len, failure } => (*len, Err(failure)),
            MemberProbe::Found { len, path } => (*len, Ok(path)),
        };
        if len == 0 || len > MAX_MEMBER_BYTES {
            let m = text::join(kind, " member size is outside 1..=");
            let m = text::join(m.as_str(), text::decimal_of(MAX_MEMBER_BYTES).as_str());
            let m = text::join(m.as_str(), ": ");
            return Err(invalid_data(text::join(m.as_str(), quote(name).as_str())));
        }
        let path = match found {
            Ok(path) => path,
            Err(failure) => {
                return Err(member_error(kind, name, failure));
            },
        };
        if text::same(path.as_str(), entry.canonical.as_str()) {
            return Err(
                invalid_data(text::join(kind, " entry file cannot also be a media member")),
            );
        }
        if !contains_text(self.paths.as_slice(), path.as_str()) {
            let sum: u64 = match self.total.checked_add(len) {
                Some(sum) => sum,
                None => {
                    return Err(invalid_data("media graph size overflow".to_owned()));
                },
            };
            if sum > MAX_GRAPH_BYTES {
                let m = text::join(kind, " graph exceeds ");
                let m = text::join(m.as_str(), text::decimal_of(MAX_GRAPH_BYTES).as_str());
                let m = text::join(m.as_str(), " bytes: ");
                return Err(invalid_data(text::join(m.as_str(), entry.display.as_str())));
            }
            self.total = sum;
        }
        self.paths.push(path.clone());
        assert(self@.paths =~= start.paths.push(path@));
        Ok(())
    }
}

/// Checks the members of a graph by what opening each of them found, and gives their canonical
/// paths.
pub fn validate_references(
    entry: &EntryFacts,
    kind: &str,
    references: &[MediaReference],
    probes: &[MemberProbe],
) -> (r: Result<Vec<String>, MediaError>)
    requires
        probes@.len() == references@.len(),
    ensures
        match (r, validated(*entry, kind@, reference_names(references@), probes@)) {
            (Ok(paths), Ok(expected)) => text::text_views(paths@) == expected,
            (Err(e), Err(f)) => e@ == f,
            _ => false,
        },
{
    let ghost names = reference_names(references@);
    check_reference_count(entry.display.as_str(), kind, references.len())?;
    let mut check = ReferenceCheck::new(entry.len);
    let mut i: usize = 0;
    assert(names.take(0) =~= Seq::empty());
    while i < references.len()
        invariant
            i <= references.len(),
            names == reference_names(references@),
            probes@.len() == references@.len(),
            count_check(entry.display@, kind@, names.len()) is Ok,
            members_scan(*entry, kind@, names.take(i as int), probes@) == Ok::<_, MediaErrorView>(
                check@,
            ),
        decreases references.len() - i,
    {
        proof {
            assert(names.take(i + 1).drop_last() =~= names.take(i as int));
            assert(names.take(i + 1).last() == references@[i as int].declared_name@);
            if members_scan(*entry, kind@, names.take(i + 1), probes@) is Err {
                members_scan_stays(*entry, kind@, names, probes@, i + 1);
            }
        }
        let name = references[i].declared_name.as_str();
        check.name(kind, name)?;
        check.member(entry, kind, name, &probes[i])?;
        i += 1;
    }
    assert(names.take(references.len() as int) =~= names);
    Ok(check.paths)
}

// ---------------------------------------------------------------------------------------------
// The digest of a graph.

/// A named piece of a graph as it enters the digest: the length and bytes of its name, then the
/// length and bytes of its content.
pub open spec fn frame(name: Seq<char>, content: Seq<u8>) -> Seq<u8> {
    frame_head(name, content.len() as u64) + content
}

/// What stands before the content of a piece.
pub open spec fn frame_head(name: Seq<char>, size: u64) -> Seq<u8> {
    (vstd::bytes::spec_u64_to_le_bytes(name_len(name) as u64) + vstd::utf8::encode_utf8(name))
        + vstd::bytes::spec_u64_to_le_bytes(size)
}

/// What reading a member found.
#[derive(Debug)]
pub enum MemberRead {
    OpenFailed(IoFailure),
    Failed(IoFailure),
    /// The length before the read, the bytes, and whether length and time were the same after.
    Read { size: u64, contents: Vec<u8>, unchanged: bool },
}

/// The graph hashed so far: the bytes of the digest, the size, and the files.
#[verifier::ext_equal]
pub struct GraphState {
    pub fed: Seq<u8>,
    pub size: nat,
    pub files: Seq<FileIdentityView>,
}

/// Whether a file is already part of the graph.
pub open spec fn knows(files: Seq<FileIdentityView>, path: Seq<char>) -> bool {
    exists|i: int| 0 <= i < files.len() && (#[trigger] files[i]).path == path
}

/// The graph after one more member. A file that is already part of it is not hashed again.
pub open spec fn hash_member(
    st: GraphState,
    kind: Seq<char>,
    name: Seq<char>,
    path: Seq<char>,
    read: MemberRead,
) -> Result<GraphState, MediaErrorView> {
    if knows(st.files, path) {
        Ok(st)
    } else {
        match read {
            MemberRead::OpenFailed(failure) => Err(member_fault(kind, name, failure)),
            MemberRead::Failed(failure) => Err(plain_fault(failure)),
            MemberRead::Read { size, contents, unchanged } => if contents@.len() != size
                || !unchanged {
                invalid((kind + " member changed while it was hashed: "@) + quoted_text(name))
            } else if st.size + size > u64::MAX {
                invalid("media graph size overflow"@)
            } else {
                Ok(
                    GraphState {
                        fed: st.fed + frame(name, contents@),
                        size: st.size + size as nat,
                        files: st.files.push(
                            FileIdentityView {
                                declared_name: name,
                                path,
                                size,
                                sha256: encoding::hex_text(encoding::sha256_of(contents@)),
                            },
                        ),
                    },
                )
            },
        }
    }
}

/// The graph after the first members; the first fault decides.
pub open spec fn hash_members(
    start: GraphState,
    kind: Seq<char>,
    names: Seq<Seq<char>>,
    paths: Seq<Seq<char>>,
    reads: Seq<MemberRead>,
) -> Result<GraphState, MediaErrorView>
    decreases names.len(),
{
    if names.len() == 0 {
        Ok(start)
    } else {
        match hash_members(start, kind, names.drop_last(), paths, reads) {
            Err(e) => Err(e),
            Ok(st) => hash_member(
                st,
                kind,
                names.last(),
                paths[names.len() - 1],
                reads[names.len() - 1],
            ),
        }
    }
}

/// The graph with its entry alone. The digest holds a fixed marker in place of the entry's name.
pub open spec fn graph_start(
    entry: EntryFacts,
    entry_name: Seq<char>,
    entry_bytes: Seq<u8>,
    entry_marker: Seq<char>,
    digest_domain: Seq<u8>,
) -> GraphState {
    GraphState {
        fed: digest_domain + frame(entry_marker, entry_bytes),
        size: entry_bytes.len(),
        files: seq![
            FileIdentityView {
                declared_name: entry_name,
                path: entry.canonical@,
                size: entry_bytes.len() as u64,
                sha256: encoding::hex_text(encoding::sha256_of(entry_bytes)),
            },
        ],
    }
}

/// The identity that a hashed graph stands for.
pub open spec fn identity_of(st: GraphState) -> GraphIdentityView {
    GraphIdentityView {
        sha256: encoding::hex_text(encoding::sha256_of(st.fed)),
        size: st.size as u64,
        files: st.files,
    }
}

proof fn hash_members_stays(
    start: GraphState,
    kind: Seq<char>,
    names: Seq<Seq<char>>,
    paths: Seq<Seq<char>>,
    reads: Seq<MemberRead>,
    n: int,
)
    requires
        0 <= n <= names.len(),
        hash_members(start, kind, names.take(n), paths, reads) is Err,
    ensures
        hash_members(start, kind, names, paths, reads) == hash_members(
            start,
            kind,
            names.take(n),
            paths,
            reads,
        ),
    decreases names.len() - n,
{
    if n == names.len() {
        assert(names.take(n) =~= names);
    } else {
        assert(names.take(n + 1).drop_last() =~= names.take(n));
        hash_members_stays(start, kind, names, paths, reads, n + 1);
    }
}

/// The framing is unambiguous: equal bytes mean equal names and contents, and equal rests.
pub proof fn frames_are_unambiguous(
    name_a: Seq<char>,
    content_a: Seq<u8>,
    rest_a: Seq<u8>,
    name_b: Seq<char>,
    content_b: Seq<u8>,
    rest_b: Seq<u8>,
)
    requires
        name_len(name_a) <= u64::MAX,
        name_len(name_b) <= u64::MAX,
        content_a.len() <= u64::MAX,
        content_b.len() <= u64::MAX,
        frame(name_a, content_a) + rest_a == frame(name_b, content_b) + rest_b,
    ensures
        name_a == name_b,
        content_a == content_b,
        rest_a == rest_b,
{
    vstd::bytes::lemma_auto_spec_u64_to_from_le_bytes();
    let whole_a = frame(name_a, content_a) + rest_a;
    let whole_b = frame(name_b, content_b) + rest_b;
    let la = vstd::bytes::spec_u64_to_le_bytes(name_len(name_a) as u64);
    let lb = vstd::bytes::spec_u64_to_le_bytes(name_len(name_b) as u64);
    assert(whole_a.take(8) =~= la);
    assert(whole_b.take(8) =~= lb);
    let n = name_len(name_a) as int;
    assert(n == name_len(name_b));
    let ea = vstd::utf8::encode_utf8(name_a);
    let eb = vstd::utf8::encode_utf8(name_b);
    assert(whole_a.subrange(8, 8 + n) =~= ea);
    assert(whole_b.subrange(8, 8 + n) =~= eb);
    vstd::utf8::encode_utf8_decode_utf8(name_a);
    vstd::utf8::encode_utf8_decode_utf8(name_b);
    let sa = vstd::bytes::spec_u64_to_le_bytes(content_a.len() as u64);
    let sb = vstd::bytes::spec_u64_to_le_bytes(content_b.len() as u64);
    assert(whole_a.subrange(8 + n, 16 + n) =~= sa);
    assert(whole_b.subrange(8 + n, 16 + n) =~= sb);
    let m = content_a.len() as int;
    assert(m == content_b.len());
    assert(whole_a.subrange(16 + n, 16 + n + m) =~= content_a);
    assert(whole_b.subrange(16 + n, 16 + n + m) =~= content_b);
    assert(whole_a.skip(16 + n + m) =~= rest_a);
    assert(whole_b.skip(16 + n + m) =~= rest_b);
}

/// A member being hashed.
pub struct MemberDigest {
    name: String,
    path: String,
    size: u64,
    read: u64,
    state: Sha256Stream,
}

/// A graph being hashed, member by member and piece by piece.
pub struct GraphDigest {
    graph: Sha256Stream,
    size: u64,
    files: Vec<MediaFileIdentity>,
}

fn feed_head(stream: &mut Sha256Stream, name: &str, size: u64)
    ensures
        encoding::fed(*final(stream)) == encoding::fed(*old(stream)) + frame_head(name@, size),
{
    let bytes = name.as_bytes();
    let length = vstd::bytes::u64_to_le_bytes(bytes.len() as u64);
    encoding::sha256_update(stream, length.as_slice());
    encoding::sha256_update(stream, bytes);
    let size_bytes = vstd::bytes::u64_to_le_bytes(size);
    encoding::sha256_update(stream, size_bytes.as_slice());
    assert(encoding::fed(*stream) =~= encoding::fed(*old(stream)) + frame_head(name@, size));
}

impl MemberDigest {
    /// The bytes of the member so far.
    pub closed spec fn content(&self) -> Seq<u8> {
        encoding::fed(self.state)
    }

    /// The declared name of the member.
    pub closed spec fn declared(&self) -> Seq<char> {
        self.name@
    }

    /// The canonical path of the member.
    pub closed spec fn place(&self) -> Seq<char> {
        self.path@
    }

    /// The length of the member before it was read.
    pub closed spec fn expected(&self) -> u64 {
        self.size
    }

    /// The count of bytes is that of the bytes taken.
    pub closed spec fn wf(&self) -> bool {
        self.read == encoding::fed(self.state).len()
    }
}

impl GraphDigest {
    /// What has been hashed.
    pub closed spec fn view(&self) -> GraphState {
        GraphState {
            fed: encoding::fed(self.graph),
            size: self.size as nat,
            files: file_views(self.files@),
        }
    }

    /// Starts with the entry of a graph.
    pub fn begin(
        entry: &EntryFacts,
        entry_name: &str,
        entry_bytes: &[u8],
        entry_marker: &str,
        digest_domain: &[u8],
    ) -> (r: GraphDigest)
        ensures
            r@ == graph_start(*entry, entry_name@, entry_bytes@, entry_marker@, digest_domain@),
    {
        let mut graph = encoding::sha256_stream();
        encoding::sha256_update(&mut graph, digest_domain);
        feed_head(&mut graph, entry_marker, entry_bytes.len() as u64);
        encoding::sha256_update(&mut graph, entry_bytes);
        let digest = encoding::sha256_digest(entry_bytes);
        let mut files: Vec<MediaFileIdentity> = Vec::new();
        files.push(
            MediaFileIdentity {
                declared_name: entry_name.to_owned(),
                path: entry.canonical.clone(),
                size: entry_bytes.len() as u64,
                sha256: encoding::hex_encode(digest.as_slice()),
            },
        );
        let r = GraphDigest { graph, size: entry_bytes.len() as u64, files };
        let ghost expected = graph_start(
            *entry,
            entry_name@,
            entry_bytes@,
            entry_marker@,
            digest_domain@,
        );
        assert(r@.fed =~= expected.fed);
        assert(r@.files =~= expected.files);
        r
    }

    /// Whether a file is already part of the graph.
    pub fn knows_path(&self, path: &str) -> (r: bool)
        ensures
            r == knows(self@.files, path@),
    {
        let mut i: usize = 0;
        while i < self.files.len()
            invariant
                i <= self.files.len(),
                forall|k: int| 0 <= k < i ==> (#[trigger] self@.files[k]).path != path@,
            decreases self.files.len() - i,
        {
            assert(self@.files[i as int] == self.files@[i as int]@);
            if text::same(self.files[i].path.as_str(), path) {
                return true;
            }
            i += 1;
        }
        false
    }

    /// Starts a member of the given length.
    pub fn start_member(&mut self, name: &str, path: &str, size: u64) -> (r: MemberDigest)
        ensures
            r.wf(),
            r.content() == Seq::<u8>::empty(),
            r.declared() == name@,
            r.place() == path@,
            r.expected() == size,
            final(self)@.fed == old(self)@.fed + frame_head(name@, size),
            final(self)@.size == old(self)@.size,
            final(self)@.files == old(self)@.files,
    {
        feed_head(&mut self.graph, name, size);
        MemberDigest {
            name: name.to_owned(),
            path: path.to_owned(),
            size,
            read: 0,
            state: encoding::sha256_stream(),
        }
    }

    /// Takes the next bytes of a member.
    pub fn feed_member(&mut self, member: &mut MemberDigest, bytes: &[u8]) -> (r: Result<
        (),
        MediaError,
    >)
        requires
            old(member).wf(),
        ensures
            final(member).wf(),
            final(member).declared() == old(member).declared(),
            final(member).place() == old(member).place(),
            final(member).expected() == old(member).expected(),
            final(self)@.size == old(self)@.size,
            final(self)@.files == old(self)@.files,
            if old(member).content().len() + bytes@.len() > u64::MAX {
                &&& r matches Err(e) && e@ == (MediaErrorView {
                    kind: MediaErrorKind::InvalidData,
                    message: "media member size overflow"@,
                })
                &&& final(self)@ == old(self)@
                &&& final(member).content() == old(member).content()
            } else {
                &&& r is Ok
                &&& final(self)@.fed == old(self)@.fed + bytes@
                &&& final(member).content() == old(member).content() + bytes@
            },
    {
        match member.read.checked_add(bytes.len() as u64) {
            Some(read) => {
                member.read = read;
            },
            None => {
                return Err(invalid_data("media member size overflow".to_owned()));
            },
        }
        encoding::sha256_update(&mut self.graph, bytes);
        encoding::sha256_update(&mut member.state, bytes);
        Ok(())
    }

    /// Ends a member: all its bytes were read, and it did not change meanwhile.
    pub fn finish_member(&mut self, member: MemberDigest, kind: &str, unchanged: bool) -> (r: Result<
        (),
        MediaError,
    >)
        requires
            member.wf(),
        ensures
            final(self)@.fed == old(self)@.fed,
            if member.content().len() != member.expected() || !unchanged {
                &&& r matches Err(e) && e@ == (MediaErrorView {
                    kind: MediaErrorKind::InvalidData,
                    message: (kind@ + " member changed while it was hashed: "@) + quoted_text(
                        member.declared(),
                    ),
                })
                &&& final(self)@ == old(self)@
            } else if old(self)@.size + member.expected() > u64::MAX {
                &&& r matches Err(e) && e@ == (MediaErrorView {
                    kind: MediaErrorKind::InvalidData,
                    message: "media graph size overflow"@,
                })
                &&& final(self)@ == old(self)@
            } else {
                &&& r is Ok
                &&& final(self)@.size == old(self)@.size + member.expected()
                &&& final(self)@.files == old(self)@.files.push(
                    FileIdentityView {
                        declared_name: member.declared(),
                        path: member.place(),
                        size: member.expected(),
                        sha256: encoding::hex_text(encoding::sha256_of(member.content())),
                    },
                )
            },
    {
        let ghost start = self@;
        if member.read != member.size || !unchanged {
            let m = text::join(kind, " member changed while it was hashed: ");
            return Err(invalid_data(text::join(m.as_str(), quote(member.name.as_str()).as_str())));
        }
        self.size = match self.size.checked_add(member.size) {
            Some(size) => size,
            None => {
                return Err(invalid_data("media graph size overflow".to_owned()));
            },
        };
        let digest = encoding::sha256_finish(member.state);
        self.files.push(
            MediaFileIdentity {
                declared_name: member.name,
                path: member.path,
                size: member.size,
                sha256: encoding::hex_encode(digest.as_slice()),
            },
        );
        assert(self@.files =~= start.files.push(self.files@.last()@));
        Ok(())
    }

    /// The identity of the whole graph.
    pub fn finish(self) -> (r: MediaGraphIdentity)
        ensures
            r@ == identity_of(self@),
    {
        let digest = encoding::sha256_finish(self.graph);
        MediaGraphIdentity {
            sha256: encoding::hex_encode(digest.as_slice()),
            size: self.size,
            files: self.files,
        }
    }
}

fn hash_read(
    graph: &mut GraphDigest,
    kind: &str,
    name: &str,
    path: &str,
    read: &MemberRead,
) -> (r: Result<(), MediaError>)
    ensures
        match hash_member(old(graph)@, kind@, name@, path@, *read) {
            Ok(st) => r is Ok && final(graph)@ == st,
            Err(e) => r matches Err(error) && error@ == e,
        },
{
    let ghost start = graph@;
    if graph.knows_path(path) {
        return Ok(());
    }
    match read {
        MemberRead::OpenFailed(failure) => Err(member_error(kind, name, failure)),
        MemberRead::Failed(failure) => Err(plain_error(failure)),
        MemberRead::Read { size, contents, unchanged } => {
            let mut member = graph.start_member(name, path, *size);
            let bytes = contents.as_slice();
            let count: usize = bytes.len();
            assert(bytes@.len() == count);
            graph.feed_member(&mut member, bytes)?;
            assert(member.content() =~= contents@);
            graph.finish_member(member, kind, *unchanged)?;
            assert(graph@.fed =~= start.fed + frame(name@, contents@));
            assert(graph@ =~= hash_member(start, kind@, name@, path@, *read)->Ok_0);
            Ok(())
        },
    }
}

fn hash_reads(
    graph: &mut GraphDigest,
    kind: &str,
    references: &[MediaReference],
    paths: &[String],
    reads: &[MemberRead],
) -> (r: Result<(), MediaError>)
    requires
        paths@.len() == references@.len(),
        reads@.len() == references@.len(),
    ensures
        match hash_members(
            old(graph)@,
            kind@,
            reference_names(references@),
            text::text_views(paths@),
            reads@,
        ) {
            Ok(st) => r is Ok && final(graph)@ == st,
            Err(e) => r matches Err(error) && error@ == e,
        },
{
    let ghost names = reference_names(references@);
    let ghost places = text::text_views(paths@);
    let ghost start = graph@;
    let mut i: usize = 0;
    assert(names.take(0) =~= Seq::empty());
    while i < references.len()
        invariant
            i <= references.len(),
            names == reference_names(references@),
            places == text::text_views(paths@),
            paths@.len() == references@.len(),
            reads@.len() == references@.len(),
            start == old(graph)@,
            hash_members(start, kind@, names.take(i as int), places, reads@) == Ok::<
                _,
                MediaErrorView,
            >(graph@),
        decreases references.len() - i,
    {
        proof {
            assert(names.take(i + 1).drop_last() =~= names.take(i as int));
            assert(names.take(i + 1).last() == references@[i as int].declared_name@);
            assert(places[i as int] == paths@[i as int]@);
            if hash_members(start, kind@, names.take(i + 1), places, reads@) is Err {
                hash_members_stays(start, kind@, names, places, reads@, i + 1);
            }
        }
        hash_read(
            graph,
            kind,
            references[i].declared_name.as_str(),
            paths[i].as_str(),
            &reads[i],
        )?;
        i += 1;
    }
    assert(names.take(references.len() as int) =~= names);
    Ok(())
}

fn same_bytes(a: &[u8], b: &[u8]) -> (r: bool)
    ensures
        r == (a@ == b@),
{
    if a.len() != b.len() {
        return false;
    }
    let mut i: usize = 0;
    while i < a.len()
        invariant
            i <= a.len(),
            a.len() == b.len(),
            forall|k: int| 0 <= k < i ==> a@[k] == b@[k],
        decreases a.len() - i,
    {
        if a[i] != b[i] {
            return false;
        }
        i += 1;
    }
    assert(a@ =~= b@);
    true
}

/// The identity of a graph from what was read of it, or why there is none.
pub open spec fn graph_result(
    entry: EntryFacts,
    entry_name: Seq<char>,
    entry_bytes: Seq<u8>,
    kind: Seq<char>,
    entry_marker: Seq<char>,
    digest_domain: Seq<u8>,
    names: Seq<Seq<char>>,
    probes: Seq<MemberProbe>,
    reads: Seq<MemberRead>,
    entry_again: Seq<u8>,
) -> Result<GraphIdentityView, MediaErrorView> {
    match validated(entry, kind, names, probes) {
        Err(e) => Err(e),
        Ok(paths) => match hash_members(
            graph_start(entry, entry_name, entry_bytes, entry_marker, digest_domain),
            kind,
            names,
            paths,
            reads,
        ) {
            Err(e) => Err(e),
            Ok(st) => concluded(st, entry, kind, entry_bytes, entry_again),
        },
    }
}

/// The identity of a hashed graph, unless its entry has changed in the meantime.
pub open spec fn concluded(
    st: GraphState,
    entry: EntryFacts,
    kind: Seq<char>,
    entry_bytes: Seq<u8>,
    entry_again: Seq<u8>,
) -> Result<GraphIdentityView, MediaErrorView> {
    if entry_again != entry_bytes {
        invalid(
            (kind + " entry file changed while its graph identity was established: "@)
                + entry.display@,
        )
    } else {
        Ok(identity_of(st))
    }
}

/// Ends a graph whose members have been hashed; `entry_again` are the entry's bytes read once more.
pub fn conclude_graph(
    graph: GraphDigest,
    entry: &EntryFacts,
    kind: &str,
    entry_bytes: &[u8],
    entry_again: &[u8],
) -> (r: Result<MediaGraphIdentity, MediaError>)
    ensures
        gives(r, concluded(graph@, *entry, kind@, entry_bytes@, entry_again@)),
{
    if !same_bytes(entry_again, entry_bytes) {
        let m = text::join(
            kind,
            " entry file changed while its graph identity was established: ",
        );
        return Err(invalid_data(text::join(m.as_str(), entry.display.as_str())));
    }
    Ok(graph.finish())
}

/// The identity of a graph whose files have been read: the digest of the entry's bytes and of the
/// name and bytes of each distinct member. `entry_again` are the entry's bytes read once more at
/// the end.
pub fn graph_identity(
    entry: &EntryFacts,
    entry_name: &str,
    entry_bytes: &[u8],
    kind: &str,
    entry_marker: &str,
    digest_domain: &[u8],
    references: &[MediaReference],
    probes: &[MemberProbe],
    reads: &[MemberRead],
    entry_again: &[u8],
) -> (r: Result<MediaGraphIdentity, MediaError>)
    requires
        probes@.len() == references@.len(),
        reads@.len() == references@.len(),
    ensures
        gives(
            r,
            graph_result(
                *entry,
                entry_name@,
                entry_bytes@,
                kind@,
                entry_marker@,
                digest_domain@,
                reference_names(references@),
                probes@,
                reads@,
                entry_again@,
            ),
        ),
{
    let paths = validate_references(entry, kind, references, probes)?;
    proof {
        members_scan_bounds(*entry, kind@, reference_names(references@), probes@);
    }
    let mut graph = GraphDigest::begin(entry, entry_name, entry_bytes, entry_marker, digest_domain);
    hash_reads(&mut graph, kind, references, paths.as_slice(), reads)?;
    conclude_graph(graph, entry, kind, entry_bytes, entry_again)
}

/// The bytes that reading a member gave.
pub open spec fn content_of(read: MemberRead) -> Seq<u8> {
    match read {
        MemberRead::Read { contents, .. } => contents@,
        _ => Seq::empty(),
    }
}

/// Whether a member is a file that an earlier member is already.
pub open spec fn repeats(paths: Seq<Seq<char>>, i: int) -> bool {
    exists|j: int| 0 <= j < i && #[trigger] paths[j] == paths[i]
}

/// The names and contents of the distinct members, in order.
pub open spec fn distinct_members(
    names: Seq<Seq<char>>,
    paths: Seq<Seq<char>>,
    reads: Seq<MemberRead>,
) -> Seq<(Seq<char>, Seq<u8>)>
    decreases names.len(),
{
    if names.len() == 0 {
        Seq::empty()
    } else {
        let before = distinct_members(names.drop_last(), paths, reads);
        let i = names.len() - 1;
        if repeats(paths, i) {
            before
        } else {
            before.push((names[i], content_of(reads[i])))
        }
    }
}

/// Named pieces one after another.
pub open spec fn frames(pieces: Seq<(Seq<char>, Seq<u8>)>) -> Seq<u8>
    decreases pieces.len(),
{
    if pieces.len() == 0 {
        Seq::empty()
    } else {
        frame(pieces[0].0, pieces[0].1) + frames(pieces.skip(1))
    }
}

/// The bytes that the digest of a graph is made of.
pub open spec fn digested(
    entry_bytes: Seq<u8>,
    entry_marker: Seq<char>,
    digest_domain: Seq<u8>,
    members: Seq<(Seq<char>, Seq<u8>)>,
) -> Seq<u8> {
    (digest_domain + frame(entry_marker, entry_bytes)) + frames(members)
}

proof fn frames_grow(pieces: Seq<(Seq<char>, Seq<u8>)>, last: (Seq<char>, Seq<u8>))
    ensures
        frames(pieces.push(last)) == frames(pieces) + frame(last.0, last.1),
    decreases pieces.len(),
{
    let all = pieces.push(last);
    if pieces.len() == 0 {
        assert(all.skip(1) =~= Seq::empty());
        assert(frames(all.skip(1)) =~= Seq::empty());
        assert(frames(all) =~= frames(pieces) + frame(last.0, last.1));
    } else {
        assert(all.skip(1) =~= pieces.skip(1).push(last));
        frames_grow(pieces.skip(1), last);
        assert(frames(all) =~= frames(pieces) + frame(last.0, last.1));
    }
}

/// Whether the lengths of named pieces are numbers that a frame can hold.
pub open spec fn are_framed(pieces: Seq<(Seq<char>, Seq<u8>)>) -> bool {
    forall|i: int|
        0 <= i < pieces.len() ==> name_len((#[trigger] pieces[i]).0) <= u64::MAX
            && pieces[i].1.len() <= u64::MAX
}

proof fn rows_of_frames_are_unambiguous(
    a: Seq<(Seq<char>, Seq<u8>)>,
    b: Seq<(Seq<char>, Seq<u8>)>,
)
    requires
        are_framed(a),
        are_framed(b),
        frames(a) == frames(b),
    ensures
        a == b,
    decreases a.len(),
{
    if a.len() == 0 {
        if b.len() > 0 {
            assert(frames(b).len() >= frame(b[0].0, b[0].1).len());
            assert(frame(b[0].0, b[0].1).len() > 0) by {
                vstd::bytes::lemma_auto_spec_u64_to_from_le_bytes();
            }
        }
        assert(a =~= b);
    } else if b.len() == 0 {
        assert(frames(a).len() >= frame(a[0].0, a[0].1).len());
        assert(frame(a[0].0, a[0].1).len() > 0) by {
            vstd::bytes::lemma_auto_spec_u64_to_from_le_bytes();
        }
    } else {
        frames_are_unambiguous(
            a[0].0,
            a[0].1,
            frames(a.skip(1)),
            b[0].0,
            b[0].1,
            frames(b.skip(1)),
        );
        rows_of_frames_are_unambiguous(a.skip(1), b.skip(1));
        assert(a =~= seq![a[0]] + a.skip(1));
        assert(b =~= seq![b[0]] + b.skip(1));
    }
}

/// Hashing members adds the distinct ones among them to the digest.
proof fn members_are_digested(
    start: GraphState,
    kind: Seq<char>,
    names: Seq<Seq<char>>,
    paths: Seq<Seq<char>>,
    reads: Seq<MemberRead>,
)
    requires
        names.len() <= paths.len(),
        start.files.len() == 1,
        !paths.contains(start.files[0].path),
        forall|i: int| 0 <= i < names.len() ==> name_len(#[trigger] names[i]) <= u64::MAX,
    ensures
        hash_members(start, kind, names, paths, reads) matches Ok(st) ==> {
            &&& st.fed == start.fed + frames(distinct_members(names, paths, reads))
            &&& are_framed(distinct_members(names, paths, reads))
            &&& forall|p: Seq<char>| #[trigger]
                knows(st.files, p) <==> p == start.files[0].path || exists|j: int|
                    0 <= j < names.len() && #[trigger] paths[j] == p
        },
    decreases names.len(),
{
    if names.len() == 0 {
        assert(start.fed + frames(distinct_members(names, paths, reads)) =~= start.fed);
        assert forall|p: Seq<char>| #[trigger]
            knows(start.files, p) <==> p == start.files[0].path by {
            if p == start.files[0].path {
                assert(start.files[0].path == p);
            }
        }
    } else {
        let front = names.drop_last();
        let i = names.len() - 1;
        assert forall|k: int| 0 <= k < front.len() implies name_len(#[trigger] front[k])
            <= u64::MAX by {
            assert(front[k] == names[k]);
        }
        members_are_digested(start, kind, front, paths, reads);
        if hash_members(start, kind, names, paths, reads) is Ok {
            let before = hash_members(start, kind, front, paths, reads)->Ok_0;
            let st = hash_members(start, kind, names, paths, reads)->Ok_0;
            assert(paths.contains(paths[i]));
            assert(knows(before.files, paths[i]) == repeats(paths, i));
            let listed = distinct_members(front, paths, reads);
            if !repeats(paths, i) {
                let piece = (names[i], content_of(reads[i]));
                frames_grow(listed, piece);
                assert(st.fed =~= start.fed + frames(listed.push(piece)));
                assert forall|p: Seq<char>| #[trigger]
                    knows(st.files, p) <==> knows(before.files, p) || p == paths[i] by {
                    if knows(before.files, p) {
                        let k = choose|k: int|
                            0 <= k < before.files.len() && (#[trigger] before.files[k]).path == p;
                        assert(st.files[k].path == p);
                    }
                    if p == paths[i] {
                        assert(st.files[before.files.len() as int].path == p);
                    }
                    if knows(st.files, p) {
                        let k = choose|k: int|
                            0 <= k < st.files.len() && (#[trigger] st.files[k]).path == p;
                        if k < before.files.len() {
                            assert(before.files[k].path == p);
                        }
                    }
                }
            }
            assert forall|p: Seq<char>| #[trigger]
                knows(st.files, p) <==> p == start.files[0].path || exists|j: int|
                    0 <= j < names.len() && #[trigger] paths[j] == p by {
                assert(knows(before.files, p) <==> p == start.files[0].path || exists|j: int|
                    0 <= j < front.len() && #[trigger] paths[j] == p);
                if exists|j: int| 0 <= j < names.len() && #[trigger] paths[j] == p {
                    let j = choose|j: int| 0 <= j < names.len() && #[trigger] paths[j] == p;
                    if j == i && repeats(paths, i) {
                        let e = choose|e: int| 0 <= e < i && #[trigger] paths[e] == paths[i];
                        assert(paths[e] == p);
                    }
                }
            }
        }
    }
}

/// All that the identity of a graph is made from.
pub struct GraphInput {
    pub entry: EntryFacts,
    pub entry_name: Seq<char>,
    pub entry_bytes: Seq<u8>,
    pub kind: Seq<char>,
    pub entry_marker: Seq<char>,
    pub digest_domain: Seq<u8>,
    pub names: Seq<Seq<char>>,
    pub probes: Seq<MemberProbe>,
    pub reads: Seq<MemberRead>,
    pub entry_again: Seq<u8>,
}

impl GraphInput {
    /// The identity of the graph, or why there is none.
    pub open spec fn result(self) -> Result<GraphIdentityView, MediaErrorView> {
        graph_result(
            self.entry,
            self.entry_name,
            self.entry_bytes,
            self.kind,
            self.entry_marker,
            self.digest_domain,
            self.names,
            self.probes,
            self.reads,
            self.entry_again,
        )
    }

    /// The canonical paths of the members of an accepted graph.
    pub open spec fn paths(self) -> Seq<Seq<char>> {
        validated(self.entry, self.kind, self.names, self.probes)->Ok_0
    }

    /// The names and contents of the distinct members.
    pub open spec fn members(self) -> Seq<(Seq<char>, Seq<u8>)> {
        distinct_members(self.names, self.paths(), self.reads)
    }

    /// The bytes that the digest is made of.
    pub open spec fn digested(self) -> Seq<u8> {
        digested(self.entry_bytes, self.entry_marker, self.digest_domain, self.members())
    }

    /// Whether two graphs are digested in the same way.
    pub open spec fn digests_like(self, other: GraphInput) -> bool {
        self.entry_marker == other.entry_marker && self.digest_domain == other.digest_domain
    }

    /// Whether two graphs name the same members, and have the same members repeat earlier ones.
    pub open spec fn shaped_like(self, other: GraphInput) -> bool {
        &&& self.names == other.names
        &&& forall|i: int|
            0 <= i < self.names.len() ==> #[trigger] repeats(self.paths(), i) == repeats(
                other.paths(),
                i,
            )
    }

    /// Whether the lengths of the entry and of its marker are numbers that a frame can hold.
    pub open spec fn has_framed_entry(self) -> bool {
        name_len(self.entry_marker) <= u64::MAX && self.entry_bytes.len() <= u64::MAX
    }
}

/// The digest of a graph that has an identity is that of its entry and its distinct members.
pub proof fn identities_are_digests(graph: GraphInput)
    ensures
        graph.result() matches Ok(identity) ==> {
            &&& are_framed(graph.members())
            &&& identity.sha256 == encoding::hex_text(encoding::sha256_of(graph.digested()))
        },
{
    if let Ok(paths) = validated(graph.entry, graph.kind, graph.names, graph.probes) {
        members_scan_bounds(graph.entry, graph.kind, graph.names, graph.probes);
        let start = graph_start(
            graph.entry,
            graph.entry_name,
            graph.entry_bytes,
            graph.entry_marker,
            graph.digest_domain,
        );
        members_are_digested(start, graph.kind, graph.names, paths, graph.reads);
    }
}

proof fn same_members(
    names: Seq<Seq<char>>,
    first_paths: Seq<Seq<char>>,
    first_reads: Seq<MemberRead>,
    second_paths: Seq<Seq<char>>,
    second_reads: Seq<MemberRead>,
)
    requires
        forall|i: int|
            0 <= i < names.len() ==> #[trigger] repeats(first_paths, i) == repeats(
                second_paths,
                i,
            ),
        forall|i: int|
            0 <= i < names.len() && !#[trigger] repeats(first_paths, i) ==> content_of(
                first_reads[i],
            ) == content_of(second_reads[i]),
    ensures
        distinct_members(names, first_paths, first_reads) == distinct_members(
            names,
            second_paths,
            second_reads,
        ),
    decreases names.len(),
{
    if names.len() > 0 {
        same_members(names.drop_last(), first_paths, first_reads, second_paths, second_reads);
        assert(repeats(first_paths, names.len() - 1) == repeats(second_paths, names.len() - 1));
    }
}

/// The digest of a graph does not depend on the name or the place of its entry, nor on where its
/// members are: two graphs whose entries have the same bytes, and whose members have the same
/// names, the same contents and the same repeated files, have the same digest.
pub proof fn digest_ignores_names_and_places(first: GraphInput, second: GraphInput)
    requires
        first.result() is Ok,
        second.result() is Ok,
        first.digests_like(second),
        first.shaped_like(second),
        first.entry_bytes == second.entry_bytes,
        forall|i: int|
            0 <= i < first.names.len() && !#[trigger] repeats(first.paths(), i) ==> content_of(
                first.reads[i],
            ) == content_of(second.reads[i]),
    ensures
        first.result()->Ok_0.sha256 == second.result()->Ok_0.sha256,
{
    identities_are_digests(first);
    identities_are_digests(second);
    same_members(first.names, first.paths(), first.reads, second.paths(), second.reads);
}

/// What a digest is made of tells the graph: for two graphs that are digested in the same way it
/// is the same exactly where their entries have the same bytes and their distinct members the same
/// names and contents.
pub proof fn digested_bytes_tell_contents(first: GraphInput, second: GraphInput)
    requires
        first.result() is Ok,
        second.result() is Ok,
        first.digests_like(second),
        first.has_framed_entry(),
        second.has_framed_entry(),
    ensures
        first.digested() == second.digested() <==> first.entry_bytes == second.entry_bytes
            && first.members() == second.members(),
{
    identities_are_digests(first);
    identities_are_digests(second);
    let a = first.members();
    let b = second.members();
    if first.digested() == second.digested() {
        let n = first.digest_domain.len() as int;
        let marker = first.entry_marker;
        assert(first.digested().skip(n) =~= frame(marker, first.entry_bytes) + frames(a));
        assert(second.digested().skip(n) =~= frame(marker, second.entry_bytes) + frames(b));
        frames_are_unambiguous(
            marker,
            first.entry_bytes,
            frames(a),
            marker,
            second.entry_bytes,
            frames(b),
        );
        rows_of_frames_are_unambiguous(a, b);
    }
}

/// Whether SHA-256 does not tell two different inputs apart.
pub open spec fn collides(a: Seq<u8>, b: Seq<u8>) -> bool {
    a != b && encoding::sha256_of(a) == encoding::sha256_of(b)
}

proof fn changed_members_differ(
    names: Seq<Seq<char>>,
    first_paths: Seq<Seq<char>>,
    first_reads: Seq<MemberRead>,
    second_paths: Seq<Seq<char>>,
    second_reads: Seq<MemberRead>,
    changed: int,
)
    requires
        0 <= changed < names.len(),
        forall|i: int|
            0 <= i < names.len() ==> #[trigger] repeats(first_paths, i) == repeats(
                second_paths,
                i,
            ),
        !repeats(first_paths, changed),
        content_of(first_reads[changed]) != content_of(second_reads[changed]),
    ensures
        distinct_members(names, first_paths, first_reads) != distinct_members(
            names,
            second_paths,
            second_reads,
        ),
    decreases names.len(),
{
    let i = names.len() - 1;
    let front = names.drop_last();
    assert(repeats(first_paths, i) == repeats(second_paths, i));
    let a = distinct_members(front, first_paths, first_reads);
    let b = distinct_members(front, second_paths, second_reads);
    let x = a.push((names[i], content_of(first_reads[i])));
    let y = b.push((names[i], content_of(second_reads[i])));
    if changed == i {
        assert(x.last() != y.last());
    } else {
        changed_members_differ(
            front,
            first_paths,
            first_reads,
            second_paths,
            second_reads,
            changed,
        );
        assert(x.drop_last() =~= a);
        assert(y.drop_last() =~= b);
    }
}

/// A changed member changes the digest: where two graphs that are digested in the same way name the
/// same members with the same repeated files, and a distinct member has other bytes in one, their
/// digests differ, unless SHA-256 does not tell apart what they are made of.
pub proof fn changed_members_change_the_digest(first: GraphInput, second: GraphInput, changed: int)
    requires
        first.result() is Ok,
        second.result() is Ok,
        first.digests_like(second),
        first.shaped_like(second),
        first.has_framed_entry(),
        second.has_framed_entry(),
        0 <= changed < first.names.len(),
        !repeats(first.paths(), changed),
        content_of(first.reads[changed]) != content_of(second.reads[changed]),
    ensures
        first.digested() != second.digested(),
        first.result()->Ok_0.sha256 != second.result()->Ok_0.sha256 || collides(
            first.digested(),
            second.digested(),
        ),
{
    identities_are_digests(first);
    identities_are_digests(second);
    changed_members_differ(
        first.names,
        first.paths(),
        first.reads,
        second.paths(),
        second.reads,
        changed,
    );
    digested_bytes_tell_contents(first, second);
    encoding::hex_round_trip(encoding::sha256_of(first.digested()));
    encoding::hex_round_trip(encoding::sha256_of(second.digested()));
}

} // verus!
