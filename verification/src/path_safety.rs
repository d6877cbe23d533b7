//! Names of graph members: which are portable and stay below the directory of their entry.

use vstd::prelude::*;
use crate::text;

verus! {

/// Whether a character may stand in a component of a member name. Backslashes and colons have a
/// meaning on some systems, and control characters none on any.
pub open spec fn is_name_char(c: char) -> bool {
    c != '\\' && c != ':' && c >= ' ' && c != '\u{7f}'
}

/// Whether a component of a member name names something below its directory.
pub open spec fn is_name_component(s: Seq<char>) -> bool {
    &&& s.len() > 0
    &&& s != "."@
    &&& s != ".."@
    &&& forall|i: int| 0 <= i < s.len() ==> is_name_char(#[trigger] s[i])
}

/// Whether a name is relative, made of plain components, and cannot leave its directory.
pub open spec fn is_portable(name: Seq<char>) -> bool {
    forall|i: int|
        0 <= i < text::pieces(name, '/').len() ==> is_name_component(
            #[trigger] text::pieces(name, '/')[i],
        )
}

fn component_ok(s: &str) -> (r: bool)
    ensures
        r == is_name_component(s@),
{
    if s.is_empty() || text::same(s, ".") || text::same(s, "..") {
        return false;
    }
    let chars = text::chars_of(s);
    let mut i: usize = 0;
    while i < chars.len()
        invariant
            i <= chars.len(),
            chars@ == s@,
            forall|k: int| 0 <= k < i ==> is_name_char(#[trigger] s@[k]),
        decreases chars.len() - i,
    {
        let c = chars[i];
        if c == '\\' || c == ':' || c < ' ' || c == '\u{7f}' {
            assert(!is_name_char(s@[i as int]));
            return false;
        }
        i += 1;
    }
    true
}

/// Whether a name is relative, made of plain components, and cannot leave its directory.
pub fn is_portable_relative_member(name: &str) -> (r: bool)
    ensures
        r == is_portable(name@),
{
    let parts = text::split(name, '/');
    let ghost shown = text::pieces(name@, '/');
    let mut i: usize = 0;
    while i < parts.len()
        invariant
            i <= parts.len(),
            shown == text::pieces(name@, '/'),
            text::text_views(parts@) == shown,
            forall|k: int| 0 <= k < i ==> is_name_component(#[trigger] shown[k]),
        decreases parts.len() - i,
    {
        assert(shown[i as int] == parts@[i as int]@);
        if !component_ok(parts[i].as_str()) {
            return false;
        }
        i += 1;
    }
    true
}

/// The place of the last occurrence of a character.
pub open spec fn last_place(s: Seq<char>, c: char) -> Option<int>
    decreases s.len(),
{
    if s.len() == 0 {
        None
    } else if s.last() == c {
        Some(s.len() - 1)
    } else {
        last_place(s.drop_last(), c)
    }
}

/// The directory of a relative name: what stands before the last slash.
pub open spec fn parent_of(name: Seq<char>) -> Seq<char> {
    match last_place(name, '/') {
        Some(i) => name.take(i),
        None => Seq::empty(),
    }
}

/// The last component of a path.
pub open spec fn file_name_of(path: Seq<char>) -> Seq<char> {
    match last_place(path, '/') {
        Some(i) => path.skip(i + 1),
        None => path,
    }
}

/// The extension of a path: what follows the last dot of its last component, where that dot is
/// not its first character.
pub open spec fn extension_of(path: Seq<char>) -> Option<Seq<char>> {
    let name = file_name_of(path);
    if name == ".."@ {
        None
    } else {
        match last_place(name, '.') {
            Some(i) => if i > 0 {
                Some(name.skip(i + 1))
            } else {
                None
            },
            None => None,
        }
    }
}

/// A name below a directory; an absolute name stands for itself.
pub open spec fn below(directory: Seq<char>, name: Seq<char>) -> Seq<char> {
    if directory.len() == 0 || (name.len() > 0 && name[0] == '/') {
        name
    } else {
        (directory + "/"@) + name
    }
}

fn find_last(chars: &[char], c: char) -> (r: Option<usize>)
    ensures
        r is Some == last_place(chars@, c) is Some,
        r matches Some(i) ==> i == last_place(chars@, c)->0 && i < chars@.len(),
{
    let mut i: usize = chars.len();
    assert(chars@.take(i as int) =~= chars@);
    while i > 0
        invariant
            i <= chars.len(),
            last_place(chars@, c) == last_place(chars@.take(i as int), c),
        decreases i,
    {
        i -= 1;
        assert(chars@.take(i + 1).drop_last() =~= chars@.take(i as int));
        if chars[i] == c {
            return Some(i);
        }
    }
    None
}

/// The directory of a relative name.
pub fn parent(name: &str) -> (r: String)
    ensures
        r@ == parent_of(name@),
{
    let chars = text::chars_of(name);
    match find_last(chars.as_slice(), '/') {
        Some(i) => {
            let r = text::slice_text(chars.as_slice(), 0, i);
            assert(r@ =~= name@.take(i as int));
            r
        },
        None => String::new(),
    }
}

/// The last component of a path.
pub fn file_name(path: &str) -> (r: String)
    ensures
        r@ == file_name_of(path@),
{
    let chars = text::chars_of(path);
    let end: usize = chars.len();
    match find_last(chars.as_slice(), '/') {
        Some(i) => {
            let r = text::slice_text(chars.as_slice(), i + 1, end);
            assert(r@ =~= path@.skip(i + 1));
            r
        },
        None => path.to_owned(),
    }
}

/// The extension of a path.
pub fn extension(path: &str) -> (r: Option<String>)
    ensures
        r is Some == extension_of(path@) is Some,
        r matches Some(s) ==> s@ == extension_of(path@)->0,
{
    let name = file_name(path);
    if text::same(name.as_str(), "..") {
        return None;
    }
    let chars = text::chars_of(name.as_str());
    let end: usize = chars.len();
    match find_last(chars.as_slice(), '.') {
        Some(i) => if i > 0 {
            let r = text::slice_text(chars.as_slice(), i + 1, end);
            assert(r@ =~= name@.skip(i + 1));
            Some(r)
        } else {
            None
        },
        None => None,
    }
}

/// A name below a directory.
pub fn join_below(directory: &str, name: &str) -> (r: String)
    ensures
        r@ == below(directory@, name@),
{
    let chars = text::chars_of(name);
    if directory.is_empty() || (chars.len() > 0 && chars[0] == '/') {
        name.to_owned()
    } else {
        text::join(text::join(directory, "/").as_str(), name)
    }
}

/// A portable name has no leading slash and no component that goes up.
pub proof fn portable_names_stay_inside(name: Seq<char>, i: int)
    requires
        is_portable(name),
        0 <= i < text::pieces(name, '/').len(),
    ensures
        text::pieces(name, '/')[i] != ".."@,
        text::pieces(name, '/')[i] != "."@,
        text::pieces(name, '/')[i].len() > 0,
{
}

} // verus!
