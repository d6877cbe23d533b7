//! What media graphs promise: which members are accepted, what an identity tells of the files, and how
//! the fields of a line are read.

use vstd::prelude::*;
use crate::encoding;
use crate::media_graph;
use crate::media_graph::{EntryFacts, FieldState, FileIdentityView, GraphInput, GraphState};
use crate::media_graph::{MediaErrorView, MemberProbe, MemberRead, ReferenceCheckView};
use crate::path_safety;
use crate::text;

verus! {

/// Whether a file of an identity is what was read of a member: under its name and at its place, with
/// the length and the digest of its content, which did not change meanwhile.
pub open spec fn is_member(
    file: FileIdentityView,
    name: Seq<char>,
    path: Seq<char>,
    read: MemberRead,
) -> bool {
    &&& file.declared_name == name
    &&& file.path == path
    &&& read matches MemberRead::Read { size, contents, unchanged } && unchanged && size
        == contents@.len() && file.size == size && file.sha256 == encoding::hex_text(
        encoding::sha256_of(contents@),
    )
}

/// The sizes of some files together.
pub open spec fn size_of(files: Seq<FileIdentityView>) -> nat
    decreases files.len(),
{
    if files.len() == 0 {
        0
    } else {
        size_of(files.drop_last()) + files.last().size as nat
    }
}

/// Whether a file stands for one of the first `n` members.
pub open spec fn stands_for_one(
    file: FileIdentityView,
    names: Seq<Seq<char>>,
    paths: Seq<Seq<char>>,
    reads: Seq<MemberRead>,
) -> bool {
    exists|k: int|
        0 <= k < names.len() && is_member(file, names[k], #[trigger] paths[k], reads[k])
}

proof fn members_are_listed(
    start: GraphState,
    kind: Seq<char>,
    names: Seq<Seq<char>>,
    paths: Seq<Seq<char>>,
    reads: Seq<MemberRead>,
)
    requires
        start.size == size_of(start.files),
        start.size <= u64::MAX,
    ensures
        media_graph::hash_members(start, kind, names, paths, reads) matches Ok(st) ==> {
            &&& st.size == size_of(st.files)
            &&& st.size <= u64::MAX
            &&& start.files.len() <= st.files.len()
            &&& forall|i: int| 0 <= i < start.files.len() ==> #[trigger] st.files[i] == start.files[i]
            &&& forall|k: int|
                0 <= k < names.len() ==> media_graph::knows(st.files, #[trigger] paths[k])
            &&& forall|i: int|
                start.files.len() <= i < st.files.len() ==> stands_for_one(
                    #[trigger] st.files[i],
                    names,
                    paths,
                    reads,
                )
            &&& forall|i: int, j: int|
                0 <= i < j < st.files.len() && start.files.len() <= j ==> (
                #[trigger] st.files[i]).path != (#[trigger] st.files[j]).path
        },
    decreases names.len(),
{
    if names.len() > 0 {
        let front = names.drop_last();
        members_are_listed(start, kind, front, paths, reads);
        if let Ok(after) = media_graph::hash_members(start, kind, names, paths, reads) {
            let st = media_graph::hash_members(start, kind, front, paths, reads)->Ok_0;
            let last = names.len() - 1;
            if !media_graph::knows(st.files, paths[last]) {
                assert(after.files.drop_last() =~= st.files);
                assert(is_member(after.files.last(), names[last], paths[last], reads[last]));
                assert(after.files[st.files.len() as int].path == paths[last]);
            }
            assert forall|i: int| 0 <= i < start.files.len() implies #[trigger] after.files[i]
                == start.files[i] by {
                assert(after.files[i] == st.files[i]);
            }
            assert forall|k: int| 0 <= k < names.len() implies media_graph::knows(
                after.files,
                #[trigger] paths[k],
            ) by {
                if k < last {
                    assert(media_graph::knows(st.files, paths[k]));
                    let i = choose|i: int|
                        0 <= i < st.files.len() && (#[trigger] st.files[i]).path == paths[k];
                    assert(after.files[i] == st.files[i]);
                }
            }
            assert forall|i: int| start.files.len() <= i < after.files.len() implies stands_for_one(
                #[trigger] after.files[i],
                names,
                paths,
                reads,
            ) by {
                if i < st.files.len() {
                    assert(after.files[i] == st.files[i]);
                    assert(stands_for_one(st.files[i], front, paths, reads));
                    let k = choose|k: int|
                        0 <= k < front.len() && is_member(
                            st.files[i],
                            front[k],
                            #[trigger] paths[k],
                            reads[k],
                        );
                    assert(front[k] == names[k]);
                    assert(is_member(after.files[i], names[k], paths[k], reads[k]));
                }
            }
            assert forall|i: int, j: int|
                0 <= i < j < after.files.len() && start.files.len() <= j implies (
            #[trigger] after.files[i]).path != (#[trigger] after.files[j]).path by {
                assert(after.files[i] == st.files[i]);
                if j < st.files.len() {
                    assert(after.files[j] == st.files[j]);
                } else {
                    assert(st.files[i].path != paths[last]);
                }
            }
        }
    }
}

/// The identity of a graph tells the entry first and then, once each, the files of all members, every
/// one with what was read of it; its size is that of all these files together.
pub proof fn identities_tell_every_file(graph: GraphInput)
    requires
        graph.entry_bytes.len() <= u64::MAX,
    ensures
        graph.result() matches Ok(identity) ==> {
            &&& identity.files.len() >= 1
            &&& identity.files[0].declared_name == graph.entry_name
            &&& identity.files[0].path == graph.entry.canonical@
            &&& identity.files[0].size == graph.entry_bytes.len()
            &&& identity.files[0].sha256 == encoding::hex_text(
                encoding::sha256_of(graph.entry_bytes),
            )
            &&& graph.entry_again == graph.entry_bytes
            &&& identity.size == size_of(identity.files)
            &&& forall|k: int|
                0 <= k < graph.names.len() ==> media_graph::knows(
                    identity.files,
                    #[trigger] graph.paths()[k],
                )
            &&& forall|i: int|
                1 <= i < identity.files.len() ==> stands_for_one(
                    #[trigger] identity.files[i],
                    graph.names,
                    graph.paths(),
                    graph.reads,
                )
            &&& forall|i: int, j: int|
                0 <= i < j < identity.files.len() ==> (#[trigger] identity.files[i]).path != (
                #[trigger] identity.files[j]).path
        },
{
    if graph.result() is Ok {
        let start = media_graph::graph_start(
            graph.entry,
            graph.entry_name,
            graph.entry_bytes,
            graph.entry_marker,
            graph.digest_domain,
        );
        assert(start.files.drop_last() =~= Seq::empty());
        assert(size_of(start.files.drop_last()) == 0);
        assert(size_of(start.files) == start.size);
        members_are_listed(start, graph.kind, graph.names, graph.paths(), graph.reads);
    }
}

/// The sizes of the first `n` members together, each file counted once.
pub open spec fn sizes_of(paths: Seq<Seq<char>>, sizes: Seq<u64>, n: nat) -> nat
    decreases n,
{
    if n == 0 {
        0
    } else if media_graph::repeats(paths, n - 1) {
        sizes_of(paths, sizes, (n - 1) as nat)
    } else {
        sizes_of(paths, sizes, (n - 1) as nat) + sizes[n - 1] as nat
    }
}

/// The lengths of the first `n` names together.
pub open spec fn names_length(names: Seq<Seq<char>>, n: nat) -> nat
    decreases n,
{
    if n == 0 {
        0
    } else {
        names_length(names, (n - 1) as nat) + vstd::utf8::encode_utf8(names[n - 1]).len()
    }
}

/// Whether a member was found at its place, with its size.
pub open spec fn is_found(probe: MemberProbe, path: Seq<char>, size: u64) -> bool {
    probe matches MemberProbe::Found { len, path: place } && len == size && place@ == path
}

proof fn sums_grow(names: Seq<Seq<char>>, paths: Seq<Seq<char>>, sizes: Seq<u64>, n: nat, m: nat)
    requires
        n <= m,
    ensures
        sizes_of(paths, sizes, n) <= sizes_of(paths, sizes, m),
        names_length(names, n) <= names_length(names, m),
    decreases m,
{
    if n < m {
        sums_grow(names, paths, sizes, n, (m - 1) as nat);
    }
}

proof fn members_are_accepted(
    entry: EntryFacts,
    kind: Seq<char>,
    names: Seq<Seq<char>>,
    probes: Seq<MemberProbe>,
    paths: Seq<Seq<char>>,
    sizes: Seq<u64>,
    n: nat,
)
    requires
        n <= names.len(),
        paths.len() == names.len(),
        forall|i: int|
            0 <= i < names.len() ==> {
                &&& path_safety::is_portable(#[trigger] names[i])
                &&& is_found(probes[i], paths[i], sizes[i])
                &&& 1 <= sizes[i] <= 0x8000_0000
                &&& paths[i] != entry.canonical@
            },
        names_length(names, names.len()) <= 0xc000,
        entry.len + sizes_of(paths, sizes, names.len()) <= 0x2_0000_0000,
    ensures
        media_graph::members_scan(entry, kind, names.take(n as int), probes) == Ok::<_, MediaErrorView>(
            ReferenceCheckView {
                name_bytes: names_length(names, n),
                total: (entry.len + sizes_of(paths, sizes, n)) as nat,
                paths: paths.take(n as int),
            },
        ),
    decreases n,
{
    if n == 0 {
        assert(paths.take(0) =~= Seq::empty());
    } else {
        let last = n - 1;
        members_are_accepted(entry, kind, names, probes, paths, sizes, (n - 1) as nat);
        sums_grow(names, paths, sizes, n, names.len());
        sums_grow(names, paths, sizes, (n - 1) as nat, n);
        assert(names.take(n as int).drop_last() =~= names.take(last));
        assert(names.take(n as int).last() == names[last]);
        assert(paths.take(n as int) =~= paths.take(last).push(paths[last]));
        let known = paths.take(last);
        if media_graph::repeats(paths, last) {
            let j = choose|j: int| 0 <= j < last && #[trigger] paths[j] == paths[last];
            assert(known[j] == paths[last]);
            assert(known.contains(paths[last]));
        } else {
            assert forall|j: int| 0 <= j < known.len() implies known[j] != paths[last] by {
                assert(known[j] == paths[j]);
            }
            assert(!known.contains(paths[last]));
        }
    }
}

/// A graph of one to 255 members is accepted, with their places, where every name is portable, every
/// member was found and is none of the sizes refused, none is the entry, and neither the names nor the
/// files together are too long; a file that is named again counts once.
pub proof fn fitting_graphs_are_accepted(
    entry: EntryFacts,
    kind: Seq<char>,
    names: Seq<Seq<char>>,
    probes: Seq<MemberProbe>,
    paths: Seq<Seq<char>>,
    sizes: Seq<u64>,
)
    requires
        1 <= names.len() <= 255,
        paths.len() == names.len(),
        forall|i: int|
            0 <= i < names.len() ==> {
                &&& path_safety::is_portable(#[trigger] names[i])
                &&& is_found(probes[i], paths[i], sizes[i])
                &&& 1 <= sizes[i] <= 0x8000_0000
                &&& paths[i] != entry.canonical@
            },
        names_length(names, names.len()) <= 0xc000,
        entry.len + sizes_of(paths, sizes, names.len()) <= 0x2_0000_0000,
    ensures
        media_graph::validated(entry, kind, names, probes) == Ok::<_, MediaErrorView>(paths),
{
    members_are_accepted(entry, kind, names, probes, paths, sizes, names.len());
    assert(names.take(names.len() as int) =~= names);
    assert(paths.take(names.len() as int) =~= paths);
}

proof fn accepted_members_were_found(
    entry: EntryFacts,
    kind: Seq<char>,
    names: Seq<Seq<char>>,
    probes: Seq<MemberProbe>,
)
    ensures
        media_graph::members_scan(entry, kind, names, probes) matches Ok(st) ==> {
            &&& st.paths.len() == names.len()
            &&& forall|i: int|
                0 <= i < names.len() ==> {
                    &&& path_safety::is_portable(#[trigger] names[i])
                    &&& probes[i] matches MemberProbe::Found { len, path } && 1 <= len
                        <= 0x8000_0000 && path@ == st.paths[i] && path@ != entry.canonical@
                }
        },
    decreases names.len(),
{
    if names.len() > 0 {
        let front = names.drop_last();
        accepted_members_were_found(entry, kind, front, probes);
        if let Ok(after) = media_graph::members_scan(entry, kind, names, probes) {
            let st = media_graph::members_scan(entry, kind, front, probes)->Ok_0;
            assert forall|i: int| 0 <= i < names.len() implies {
                &&& path_safety::is_portable(#[trigger] names[i])
                &&& probes[i] matches MemberProbe::Found { len, path } && 1 <= len <= 0x8000_0000
                    && path@ == after.paths[i] && path@ != entry.canonical@
            } by {
                if i < front.len() {
                    assert(front[i] == names[i]);
                    assert(after.paths[i] == st.paths[i]);
                }
            }
        }
    }
}

/// Every member of an accepted graph has a portable name and was found, at the place that the graph
/// tells of it, with a size that is not refused; none is the entry.
pub proof fn accepted_members_are_told_where_found(
    entry: EntryFacts,
    kind: Seq<char>,
    names: Seq<Seq<char>>,
    probes: Seq<MemberProbe>,
    i: int,
)
    ensures
        media_graph::validated(entry, kind, names, probes) matches Ok(paths) ==> {
            &&& 1 <= names.len() <= 255
            &&& paths.len() == names.len()
            &&& 0 <= i < names.len() ==> {
                &&& path_safety::is_portable(names[i])
                &&& probes[i] matches MemberProbe::Found { len, path } && 1 <= len <= 0x8000_0000
                    && path@ == paths[i] && path@ != entry.canonical@
            }
        },
{
    accepted_members_were_found(entry, kind, names, probes);
}

/// The text of a descriptor is refused at its first character that is a control character and neither
/// a tab nor the end of a line; where there is none, it is the text that the bytes encode.
pub proof fn texts_are_free_of_controls(s: Seq<char>)
    ensures
        match media_graph::first_control(s) {
            Some(at) => {
                &&& 0 <= at < s.len()
                &&& (s[at] < ' ' || '\u{7f}' <= s[at] <= '\u{9f}') && s[at] != '\t' && s[at] != '\n'
                    && s[at] != '\r'
                &&& forall|i: int|
                    0 <= i < at ==> (#[trigger] s[i] == '\t' || s[i] == '\n' || s[i] == '\r' || ' '
                        <= s[i] < '\u{7f}' || '\u{9f}' < s[i])
            },
            None => forall|i: int|
                0 <= i < s.len() ==> (#[trigger] s[i] == '\t' || s[i] == '\n' || s[i] == '\r' || ' '
                    <= s[i] < '\u{7f}' || '\u{9f}' < s[i]),
        },
    decreases s.len(),
{
    if s.len() > 0 {
        let front = s.drop_last();
        texts_are_free_of_controls(front);
        assert forall|i: int| 0 <= i < front.len() implies #[trigger] s[i] == front[i] by {}
        assert(media_graph::first_control(front) is None ==> forall|i: int|
            0 <= i < front.len() ==> (#[trigger] s[i] == '\t' || s[i] == '\n' || s[i] == '\r' || ' '
                <= s[i] < '\u{7f}' || '\u{9f}' < s[i]));
    }
}

/// Whether a field can be written without quotes.
pub open spec fn is_bare(field: Seq<char>) -> bool {
    field.len() > 0 && forall|i: int| 0 <= i < field.len() ==> !text::is_space(#[trigger] field[i])
}

/// Whether a field can be written at all: it holds no quote.
pub open spec fn is_writable(field: Seq<char>) -> bool {
    forall|i: int| 0 <= i < field.len() ==> #[trigger] field[i] != '"'
}

/// A field as it is written, and a space behind it.
pub open spec fn written(field: Seq<char>) -> Seq<char> {
    if is_bare(field) {
        field.push(' ')
    } else {
        (seq!['"'] + field).push('"').push(' ')
    }
}

/// A line of fields.
pub open spec fn line_of(fields: Seq<Seq<char>>) -> Seq<char>
    decreases fields.len(),
{
    if fields.len() == 0 {
        Seq::empty()
    } else {
        line_of(fields.drop_last()) + written(fields.last())
    }
}

spec fn scanned(
    line: Seq<char>,
    kind: Seq<char>,
    number: int,
    most: int,
    fields: Seq<Seq<char>>,
    current: Seq<char>,
    quoted: bool,
    started: bool,
) -> bool {
    media_graph::field_scan(line, kind, number, most) == Ok::<_, MediaErrorView>(
        FieldState { fields, current, quoted, started },
    )
}

proof fn one_more(line: Seq<char>, c: char, kind: Seq<char>, number: int, most: int)
    ensures
        media_graph::field_scan(line, kind, number, most) matches Ok(st) ==> media_graph::field_scan(
            line.push(c),
            kind,
            number,
            most,
        ) == media_graph::field_step(st, c, kind, number, most),
{
    assert(line.push(c).drop_last() =~= line);
}

proof fn bare_fields_are_read(
    line: Seq<char>,
    field: Seq<char>,
    kind: Seq<char>,
    number: int,
    most: int,
    fields: Seq<Seq<char>>,
)
    requires
        scanned(line, kind, number, most, fields, Seq::empty(), false, false),
        is_writable(field),
        forall|i: int| 0 <= i < field.len() ==> !text::is_space(#[trigger] field[i]),
    ensures
        scanned(line + field, kind, number, most, fields, field, false, field.len() > 0),
    decreases field.len(),
{
    if field.len() == 0 {
        assert(line + field =~= line);
        assert(field =~= Seq::empty());
    } else {
        let front = field.drop_last();
        bare_fields_are_read(line, front, kind, number, most, fields);
        one_more(line + front, field.last(), kind, number, most);
        assert((line + front).push(field.last()) =~= line + field);
        assert(front.push(field.last()) =~= field);
    }
}

proof fn quoted_fields_are_read(
    line: Seq<char>,
    field: Seq<char>,
    kind: Seq<char>,
    number: int,
    most: int,
    fields: Seq<Seq<char>>,
)
    requires
        scanned(line, kind, number, most, fields, Seq::empty(), true, true),
        is_writable(field),
    ensures
        scanned(line + field, kind, number, most, fields, field, true, true),
    decreases field.len(),
{
    if field.len() == 0 {
        assert(line + field =~= line);
        assert(field =~= Seq::empty());
    } else {
        let front = field.drop_last();
        quoted_fields_are_read(line, front, kind, number, most, fields);
        one_more(line + front, field.last(), kind, number, most);
        assert((line + front).push(field.last()) =~= line + field);
        assert(front.push(field.last()) =~= field);
    }
}

proof fn lines_are_scanned(fields: Seq<Seq<char>>, kind: Seq<char>, number: int, most: int)
    requires
        fields.len() <= most,
        forall|i: int| 0 <= i < fields.len() ==> is_writable(#[trigger] fields[i]),
    ensures
        scanned(line_of(fields), kind, number, most, fields, Seq::empty(), false, false),
    decreases fields.len(),
{
    if fields.len() == 0 {
        assert(fields =~= Seq::empty());
    } else {
        let front = fields.drop_last();
        let field = fields.last();
        let line = line_of(front);
        lines_are_scanned(front, kind, number, most);
        assert(is_writable(field));
        if is_bare(field) {
            bare_fields_are_read(line, field, kind, number, most, front);
            one_more(line + field, ' ', kind, number, most);
            assert((line + field).push(' ') =~= line_of(fields));
        } else {
            let open = line.push('"');
            one_more(line, '"', kind, number, most);
            quoted_fields_are_read(open, field, kind, number, most, front);
            one_more(open + field, '"', kind, number, most);
            one_more((open + field).push('"'), ' ', kind, number, most);
            assert((open + field).push('"').push(' ') =~= line_of(fields));
        }
        assert(front.push(field) =~= fields);
    }
}

/// The fields of a line are read back as they were written: a field with white space in it, or an empty
/// one, between quotes, and any other as it is.
pub proof fn fields_are_read_back(fields: Seq<Seq<char>>, kind: Seq<char>, number: int, most: int)
    requires
        fields.len() <= most,
        forall|i: int| 0 <= i < fields.len() ==> is_writable(#[trigger] fields[i]),
    ensures
        media_graph::fields_of(line_of(fields), kind, number, most) == Ok::<_, MediaErrorView>(fields),
{
    lines_are_scanned(fields, kind, number, most);
}

} // verus!
