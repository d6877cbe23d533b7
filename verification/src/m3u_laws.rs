//! What a walk over playlists finds, told by the tree of the playlists that were read.

use vstd::prelude::*;
use crate::m3u;
use crate::m3u::{OpenPlaylistView, PendingView, PlaylistLineView, WalkActionView, WalkEventView, WalkView};
use crate::media_graph;
use crate::media_graph::MediaErrorView;
use crate::path_safety;
use crate::text;

verus! {

/// A name below a directory.
pub open spec fn joined(directory: Seq<char>, name: Seq<char>) -> Seq<char> {
    if directory.len() == 0 {
        name
    } else {
        (directory + seq!['/']) + name
    }
}

/// Whether a text has no slash.
pub open spec fn is_flat(s: Seq<char>) -> bool {
    forall|i: int| 0 <= i < s.len() ==> #[trigger] s[i] != '/'
}

proof fn last_place_holds(s: Seq<char>, c: char)
    ensures
        match path_safety::last_place(s, c) {
            Some(i) => 0 <= i < s.len() && s[i] == c && forall|k: int| i < k < s.len() ==> s[k] != c,
            None => forall|k: int| 0 <= k < s.len() ==> s[k] != c,
        },
    decreases s.len(),
{
    if s.len() > 0 && s.last() != c {
        let front = s.drop_last();
        last_place_holds(front, c);
        assert(forall|k: int| 0 <= k < front.len() ==> front[k] == #[trigger] s[k]);
    }
}

/// The directory of a name and its last component make up the name, and no slash stands in the
/// last component.
pub proof fn names_are_made_of_directory_and_file(name: Seq<char>)
    ensures
        is_flat(path_safety::file_name_of(name)),
        is_flat(name) ==> path_safety::parent_of(name).len() == 0 && path_safety::file_name_of(name)
            == name,
        !is_flat(name) ==> name == (path_safety::parent_of(name) + seq!['/'])
            + path_safety::file_name_of(name),
{
    last_place_holds(name, '/');
    if let Some(i) = path_safety::last_place(name, '/') {
        assert(name[i] == '/');
        assert(name =~= (name.take(i) + seq!['/']) + name.skip(i + 1));
    }
}

/// A name stands below a directory: behind it and a slash, where the name does not begin with one.
pub proof fn names_stand_below_their_directory(directory: Seq<char>, name: Seq<char>)
    requires
        name.len() > 0 ==> name[0] != '/',
    ensures
        path_safety::below(directory, name) == joined(directory, name),
        directory.len() > 0 && is_flat(name) ==> path_safety::parent_of(
            path_safety::below(directory, name),
        ) == directory,
{
    reveal_strlit("/");
    assert("/"@ =~= seq!['/']);
    if directory.len() > 0 && is_flat(name) {
        let full = path_safety::below(directory, name);
        last_place_holds(full, '/');
        let i = directory.len() as int;
        assert(full[i] == '/');
        assert forall|k: int| i < k < full.len() implies full[k] != '/' by {
            assert(full[k] == name[k - i - 1]);
        }
        let j = path_safety::last_place(full, '/')->0;
        assert(j == i);
        assert(full.take(i) =~= directory);
    }
}

proof fn first_pieces_begin_alike(s: Seq<char>, separator: char)
    ensures
        text::pieces(s, separator).len() > 0,
        s.len() > 0 ==> (if s[0] == separator {
            text::pieces(s, separator)[0].len() == 0
        } else {
            text::pieces(s, separator)[0].len() > 0
        }),
        s.len() == 0 ==> text::pieces(s, separator)[0].len() == 0,
    decreases s.len(),
{
    if s.len() > 0 {
        let front = s.drop_last();
        first_pieces_begin_alike(front, separator);
        reveal_with_fuel(text::pieces, 2);
    }
}

proof fn portable_names_begin_with_no_slash(name: Seq<char>)
    requires
        path_safety::is_portable(name),
    ensures
        name.len() > 0 && name[0] != '/',
{
    first_pieces_begin_alike(name, '/');
    assert(path_safety::is_name_component(text::pieces(name, '/')[0]));
}

/// Whether a line of a playlist names something.
pub open spec fn names_something(line: Seq<char>) -> bool {
    text::right_trimmed(line).len() > 0 && text::right_trimmed(line)[0] != '#'
}

/// Whether entries are those among lines that name something: all of them, in their order, each
/// with the number of its line, counted from one.
pub open spec fn are_entries(lines: Seq<Seq<char>>, entries: Seq<PlaylistLineView>) -> bool {
    &&& forall|k: int|
        0 <= k < entries.len() ==> {
            let at = (#[trigger] entries[k]).number - 1;
            &&& 0 <= at < lines.len()
            &&& names_something(lines[at])
            &&& entries[k].entry == text::right_trimmed(lines[at])
        }
    &&& forall|k: int, q: int|
        0 <= k < q < entries.len() ==> (#[trigger] entries[k]).number < (#[trigger] entries[q]).number
    &&& forall|at: int|
        0 <= at < lines.len() && names_something(#[trigger] lines[at]) ==> exists|k: int|
            0 <= k < entries.len() && (#[trigger] entries[k]).number == at + 1
}

proof fn entries_among_lines(lines: Seq<Seq<char>>)
    ensures
        are_entries(lines, m3u::entries_among(lines)),
    decreases lines.len(),
{
    let all = m3u::entries_among(lines);
    if lines.len() > 0 {
        let front = lines.drop_last();
        entries_among_lines(front);
        let before = m3u::entries_among(front);
        assert forall|k: int| 0 <= k < all.len() implies {
            let at = (#[trigger] all[k]).number - 1;
            &&& 0 <= at < lines.len()
            &&& names_something(lines[at])
            &&& all[k].entry == text::right_trimmed(lines[at])
        } by {
            if k < before.len() {
                assert(all[k] == before[k]);
                assert(front[before[k].number - 1] == lines[before[k].number - 1]);
            }
        }
        assert forall|k: int, q: int| 0 <= k < q < all.len() implies (#[trigger] all[k]).number < (
        #[trigger] all[q]).number by {
            assert(all[k] == before[k]);
            if q < before.len() {
                assert(all[q] == before[q]);
            }
        }
        assert forall|at: int|
            0 <= at < lines.len() && names_something(#[trigger] lines[at]) implies exists|k: int|
            0 <= k < all.len() && (#[trigger] all[k]).number == at + 1 by {
            if at < front.len() {
                assert(front[at] == lines[at]);
                let k = choose|k: int|
                    0 <= k < before.len() && (#[trigger] before[k]).number == at + 1;
                assert(all[k] == before[k]);
            } else {
                assert(all[all.len() - 1].number == at + 1);
            }
        }
    }
}

/// The entries of a playlist are exactly its lines that are neither empty nor comments, in their
/// order, without the white space that ends a line and without a byte order mark in front.
pub proof fn entries_are_the_lines_that_name_something(s: Seq<char>)
    ensures
        are_entries(
            text::pieces(
                if s.len() > 0 && s[0] == '\u{feff}' {
                    s.skip(1)
                } else {
                    s
                },
                '\n',
            ),
            m3u::entries_of(s),
        ),
{
    entries_among_lines(text::pieces(m3u::without_mark(s), '\n'));
}

/// Names, each below a directory.
pub open spec fn all_below(directory: Seq<char>, names: Seq<Seq<char>>) -> Seq<Seq<char>> {
    Seq::new(names.len(), |i: int| path_safety::below(directory, names[i]))
}

/// The extension that decides what a member is.
pub open spec fn kind_of(canonical: Seq<char>) -> Seq<char> {
    match path_safety::extension_of(canonical) {
        Some(e) => text::lowered(e),
        None => Seq::empty(),
    }
}

/// What a member comes to, from a place of what was read on: the member, then all that a playlist
/// names or all members of a disc. The place behind it is given too.
pub open spec fn member_listing(events: Seq<WalkEventView>, n: int, name: Seq<char>) -> Option<
    (int, Seq<Seq<char>>),
>
    decreases events.len() - n, 0int,
{
    if !(0 <= n && n + 2 <= events.len()) {
        None
    } else {
        match (events[n], events[n + 1]) {
            (WalkEventView::Member(canonical), WalkEventView::Playlist { bytes, .. }) => match (
            media_graph::descriptor_content(bytes, "M3U"@)) {
                Ok(s) => if kind_of(canonical) == "m3u"@ {
                    match lines_listing(events, n + 2, name, m3u::entries_of(s), 0) {
                        Some((m, inner)) => Some((m, seq![name] + inner)),
                        None => None,
                    }
                } else {
                    None
                },
                Err(_) => None,
            },
            (WalkEventView::Member(canonical), WalkEventView::Disc(names)) => if kind_of(canonical)
                == "cue"@ || kind_of(canonical) == "ccd"@ || kind_of(canonical) == "toc"@ {
                Some((n + 2, seq![name] + all_below(path_safety::parent_of(name), names)))
            } else {
                None
            },
            _ => None,
        }
    }
}

/// What the entries of a playlist come to from one of them on: each is named below the directory of
/// the playlist, and followed by what it comes to.
pub open spec fn lines_listing(
    events: Seq<WalkEventView>,
    n: int,
    relative: Seq<char>,
    entries: Seq<PlaylistLineView>,
    i: int,
) -> Option<(int, Seq<Seq<char>>)>
    decreases events.len() - n, entries.len() - i + 1,
{
    if !(0 <= n <= events.len()) || i < 0 {
        None
    } else if i >= entries.len() {
        Some((n, Seq::empty()))
    } else {
        let name = path_safety::below(path_safety::parent_of(relative), entries[i].entry);
        if !path_safety::is_portable(entries[i].entry) || !path_safety::is_portable(name) {
            None
        } else {
            match member_listing(events, n, name) {
                None => None,
                Some((m, first)) => if !(n < m <= events.len()) {
                    None
                } else {
                    match lines_listing(events, m, relative, entries, i + 1) {
                        None => None,
                        Some((k, rest)) => Some((k, first + rest)),
                    }
                },
            }
        }
    }
}

/// What a playlist comes to whose bytes were read first: all members of the tree below it, each
/// playlist and disc before what it names.
pub open spec fn playlist_listing(events: Seq<WalkEventView>) -> Option<(int, Seq<Seq<char>>)> {
    if events.len() == 0 {
        None
    } else {
        match events[0] {
            WalkEventView::Playlist { bytes, .. } => match media_graph::descriptor_content(
                bytes,
                "M3U"@,
            ) {
                Ok(s) => lines_listing(events, 1, Seq::empty(), m3u::entries_of(s), 0),
                Err(_) => None,
            },
            _ => None,
        }
    }
}

/// The end of a walk to which the given events are told from one on, where the last one ends it.
pub open spec fn walk_end(walk: WalkView, events: Seq<WalkEventView>, n: int) -> Option<
    Result<Seq<Seq<char>>, MediaErrorView>,
>
    decreases events.len() - n,
{
    if n < 0 || n >= events.len() || !walk.expects(events[n]) {
        None
    } else {
        match walk.next(events[n]) {
            (_, WalkActionView::Done(r)) => if n + 1 == events.len() {
                Some(r)
            } else {
                None
            },
            (after, _) => walk_end(after, events, n + 1),
        }
    }
}

spec fn stack_listing(events: Seq<WalkEventView>, n: int, open: Seq<OpenPlaylistView>) -> Option<
    (int, Seq<Seq<char>>),
>
    decreases open.len(),
{
    if open.len() == 0 {
        Some((n, Seq::empty()))
    } else {
        let top = open.last();
        match lines_listing(events, n, top.relative, top.lines, top.next as int) {
            None => None,
            Some((m, first)) => match stack_listing(events, m, open.drop_last()) {
                None => None,
                Some((k, rest)) => Some((k, first + rest)),
            },
        }
    }
}

spec fn followed(
    events: Seq<WalkEventView>,
    first: Option<(int, Seq<Seq<char>>)>,
    open: Seq<OpenPlaylistView>,
) -> Option<(int, Seq<Seq<char>>)> {
    match first {
        None => None,
        Some((m, a)) => match stack_listing(events, m, open) {
            None => None,
            Some((k, b)) => Some((k, a + b)),
        },
    }
}

proof fn listings_go_on(
    events: Seq<WalkEventView>,
    n: int,
    relative: Seq<char>,
    entries: Seq<PlaylistLineView>,
    i: int,
)
    ensures
        lines_listing(events, n, relative, entries, i) matches Some((m, _)) ==> n <= m <= events.len(),
    decreases events.len() - n, entries.len() - i,
{
    if 0 <= n <= events.len() && 0 <= i < entries.len() {
        let name = path_safety::below(path_safety::parent_of(relative), entries[i].entry);
        if let Some((m, first)) = member_listing(events, n, name) {
            if n < m <= events.len() {
                listings_go_on(events, m, relative, entries, i + 1);
            }
        }
    }
}

proof fn member_listings_go_on(events: Seq<WalkEventView>, n: int, name: Seq<char>)
    ensures
        member_listing(events, n, name) matches Some((m, _)) ==> n < m <= events.len(),
{
    if 0 <= n && n + 2 <= events.len() {
        if let WalkEventView::Playlist { bytes, display } = events[n + 1] {
            if let Ok(s) = media_graph::descriptor_content(bytes, "M3U"@) {
                listings_go_on(events, n + 2, name, m3u::entries_of(s), 0);
            }
        }
    }
}

proof fn continuing_lists(walk: WalkView, events: Seq<WalkEventView>, n: int)
    requires
        0 <= n <= events.len(),
    ensures
        match walk.continues() {
            (after, WalkActionView::Done(Ok(references))) => {
                &&& references == walk.references
                &&& stack_listing(events, n, walk.open) == Some((n, Seq::<Seq<char>>::empty()))
            },
            (after, WalkActionView::ResolveMember) => {
                &&& after.references == walk.references
                &&& after.pending matches PendingView::Member { name } && stack_listing(
                    events,
                    n,
                    walk.open,
                ) == followed(events, member_listing(events, n, name), after.open)
            },
            (_, WalkActionView::Done(Err(_))) => true,
            _ => false,
        },
    decreases walk.open.len(),
{
    if walk.open.len() > 0 {
        let top = walk.open.last();
        if top.next >= top.lines.len() {
            let shorter = WalkView { open: walk.open.drop_last(), ..walk };
            continuing_lists(shorter, events, n);
            if let Some((k, rest)) = stack_listing(events, n, shorter.open) {
                assert(Seq::<Seq<char>>::empty() + rest =~= rest);
            }
        } else {
            let line = top.lines[top.next as int];
            let name = path_safety::below(path_safety::parent_of(top.relative), line.entry);
            let taken = walk.open.drop_last().push(OpenPlaylistView { next: top.next + 1, ..top });
            assert(taken.drop_last() =~= walk.open.drop_last());
            member_listings_go_on(events, n, name);
            if let Some((m, a)) = member_listing(events, n, name) {
                if let Some((k, b)) = lines_listing(
                    events,
                    m,
                    top.relative,
                    top.lines,
                    (top.next + 1) as int,
                ) {
                    if let Some((j, c)) = stack_listing(events, k, walk.open.drop_last()) {
                        assert((a + b) + c =~= a + (b + c));
                    }
                }
            }
        }
    }
}

proof fn references_are_added(
    references: Seq<Seq<char>>,
    directory: Seq<char>,
    names: Seq<Seq<char>>,
)
    ensures
        m3u::with_references(references, directory, names) matches Ok(all) ==> all == references
            + all_below(directory, names),
    decreases names.len(),
{
    if names.len() > 0 {
        references_are_added(references, directory, names.drop_last());
        if let Ok(before) = m3u::with_references(references, directory, names.drop_last()) {
            assert(before.push(path_safety::below(directory, names.last())) =~= references + all_below(
                directory,
                names,
            ));
        }
    } else {
        assert(references =~= references + all_below(directory, names));
    }
}

spec fn pending_listing(walk: WalkView, events: Seq<WalkEventView>, n: int) -> Option<
    (int, Seq<Seq<char>>),
> {
    match (walk.pending, events[n]) {
        (
            PendingView::Playlist { relative, .. },
            WalkEventView::Playlist { bytes, .. },
        ) => match media_graph::descriptor_content(bytes, "M3U"@) {
            Ok(s) => followed(
                events,
                lines_listing(events, n + 1, relative, m3u::entries_of(s), 0),
                walk.open,
            ),
            Err(_) => None,
        },
        (PendingView::Member { name }, WalkEventView::Member(_)) => followed(
            events,
            member_listing(events, n, name),
            walk.open,
        ),
        (PendingView::Disc { name }, WalkEventView::Disc(names)) => followed(
            events,
            Some((n + 1, all_below(path_safety::parent_of(name), names))),
            walk.open,
        ),
        _ => None,
    }
}

proof fn walks_list(walk: WalkView, events: Seq<WalkEventView>, n: int)
    requires
        0 <= n,
    ensures
        walk_end(walk, events, n) matches Some(Ok(references)) ==> {
            &&& n < events.len()
            &&& pending_listing(walk, events, n) matches Some((k, rest)) && k == events.len()
                && references == walk.references + rest
        },
    decreases events.len() - n,
{
    if let Some(Ok(references)) = walk_end(walk, events, n) {
        let (after, action) = walk.next(events[n]);
        match events[n] {
            WalkEventView::Playlist { bytes, display } => {
                let s = media_graph::descriptor_content(bytes, "M3U"@)->Ok_0;
                let entered = OpenPlaylistView {
                    relative: walk.pending->relative,
                    canonical: walk.pending->canonical,
                    lines: m3u::entries_of(s),
                    next: 0,
                };
                let inside = WalkView {
                    open: walk.open.push(entered),
                    pending: PendingView::Nothing,
                    ..walk
                };
                continuing_lists(inside, events, n + 1);
                assert(inside.open.drop_last() =~= walk.open);
                assert(stack_listing(events, n + 1, inside.open) == pending_listing(walk, events, n));
                if action is ResolveMember {
                    walks_list(after, events, n + 1);
                } else {
                    assert(references =~= walk.references + Seq::empty());
                }
            },
            WalkEventView::Member(canonical) => {
                walks_list(after, events, n + 1);
                let name = walk.pending->Member_name;
                assert(after.references == walk.references.push(name));
                assert(after.open == walk.open);
                if let Some((k, rest)) = pending_listing(after, events, n + 1) {
                    assert(references =~= walk.references + (seq![name] + rest));
                    member_joins(events, n, name, walk.open, after);
                }
            },
            WalkEventView::Disc(names) => {
                let directory = path_safety::parent_of(walk.pending->Disc_name);
                references_are_added(walk.references, directory, names);
                let all = m3u::with_references(walk.references, directory, names)->Ok_0;
                let going = WalkView {
                    references: all,
                    pending: PendingView::Nothing,
                    ..walk
                };
                continuing_lists(going, events, n + 1);
                let found = all_below(directory, names);
                if action is ResolveMember {
                    walks_list(after, events, n + 1);
                    if let Some((k, rest)) = pending_listing(after, events, n + 1) {
                        assert(references =~= walk.references + (found + rest));
                    }
                } else {
                    assert(references =~= walk.references + (found + Seq::empty()));
                }
            },
            WalkEventView::Failed(e) => {},
        }
    }
}

/// What a member comes to is the member and what is pending behind it.
proof fn member_joins(
    events: Seq<WalkEventView>,
    n: int,
    name: Seq<char>,
    open: Seq<OpenPlaylistView>,
    after: WalkView,
)
    requires
        0 <= n < events.len(),
        n + 1 < events.len(),
        events[n] is Member,
        after.open == open,
        after.expects(events[n + 1]),
        ({
            let kind = kind_of(events[n]->Member_0);
            ||| kind == "m3u"@ && (after.pending matches PendingView::Playlist { relative, .. }
                && relative == name)
            ||| (kind == "cue"@ || kind == "ccd"@ || kind == "toc"@) && after.pending
                == PendingView::Disc { name }
        }),
        pending_listing(after, events, n + 1) is Some,
    ensures
        ({
            let (k, rest) = pending_listing(after, events, n + 1)->0;
            followed(events, member_listing(events, n, name), open) == Some(
                (k, seq![name] + rest),
            )
        }),
{
    match events[n + 1] {
        WalkEventView::Playlist { bytes, display } => {
            let s = media_graph::descriptor_content(bytes, "M3U"@)->Ok_0;
            if let Some((m, inner)) = lines_listing(events, n + 2, name, m3u::entries_of(s), 0) {
                if let Some((k, b)) = stack_listing(events, m, open) {
                    assert((seq![name] + inner) + b =~= seq![name] + (inner + b));
                }
            }
        },
        WalkEventView::Disc(names) => {
            let found = all_below(path_safety::parent_of(name), names);
            if let Some((k, b)) = stack_listing(events, n + 2, open) {
                assert((seq![name] + found) + b =~= seq![name] + (found + b));
            }
        },
        _ => {},
    }
}

/// A walk that ends well has read the whole tree of playlists and found exactly what it lists: each
/// entry of each playlist, in the order of the lines, named below the directory of its playlist, and
/// followed by what it names in turn, or by the members of the disc that it is. No event is left.
pub proof fn walks_find_the_tree_of_playlists(canonical: Seq<char>, events: Seq<WalkEventView>)
    ensures
        walk_end(
            WalkView {
                open: Seq::empty(),
                references: Seq::empty(),
                discs: 0,
                pending: PendingView::Playlist { relative: Seq::empty(), canonical },
            },
            events,
            0,
        ) matches Some(Ok(references)) ==> playlist_listing(events) == Some(
            (events.len() as int, references),
        ),
{
    let start = WalkView {
        open: Seq::empty(),
        references: Seq::empty(),
        discs: 0,
        pending: PendingView::Playlist { relative: Seq::empty(), canonical },
    };
    walks_list(start, events, 0);
    if let Some(Ok(references)) = walk_end(start, events, 0) {
        if let WalkEventView::Playlist { bytes, display } = events[0] {
            let s = media_graph::descriptor_content(bytes, "M3U"@)->Ok_0;
            if let Some((m, a)) = lines_listing(events, 1, Seq::empty(), m3u::entries_of(s), 0) {
                assert(a + Seq::<Seq<char>>::empty() =~= a);
                assert(Seq::<Seq<char>>::empty() + a =~= a);
            }
        }
    }
}

/// The entries of a listing are named as their directory and their line say.
pub proof fn entries_are_named_below_their_playlist(relative: Seq<char>, entry: Seq<char>)
    requires
        path_safety::is_portable(entry),
    ensures
        path_safety::below(path_safety::parent_of(relative), entry) == joined(
            path_safety::parent_of(relative),
            entry,
        ),
{
    portable_names_begin_with_no_slash(entry);
    names_stand_below_their_directory(path_safety::parent_of(relative), entry);
}

} // verus!
