//! Bounded discovery of the media graph behind an M3U playlist. The walk asks for playlists to be
//! read, members to be resolved and discs to be examined; it opens nothing itself.

use vstd::prelude::*;
use crate::media_graph;
use crate::media_graph::{
    EntryFacts, GraphDigest, MediaError, MediaErrorKind, MediaErrorView, MediaGraphIdentity,
    MediaReference, MemberProbe, MemberRead, MAX_GRAPH_MEMBERS,
};
use crate::path_safety;
use crate::text;

verus! {

/// How deep playlists may name playlists.
pub const MAX_RECURSION_DEPTH: usize = 9;

/// The most discs of one playlist with all that it names.
pub const MAX_DISCS: usize = 25;

/// A line of a playlist that names something, with its number.
#[derive(Debug)]
pub struct PlaylistLine {
    pub number: usize,
    pub entry: String,
}

/// What a playlist line holds.
#[verifier::ext_equal]
pub struct PlaylistLineView {
    pub number: int,
    pub entry: Seq<char>,
}

impl View for PlaylistLine {
    type V = PlaylistLineView;

    open spec fn view(&self) -> PlaylistLineView {
        PlaylistLineView { number: self.number as int, entry: self.entry@ }
    }
}

/// What the given lines hold.
pub open spec fn line_views(lines: Seq<PlaylistLine>) -> Seq<PlaylistLineView> {
    Seq::new(lines.len(), |i: int| lines[i]@)
}

/// A text without a byte order mark in front.
pub open spec fn without_mark(s: Seq<char>) -> Seq<char> {
    if s.len() > 0 && s[0] == '\u{feff}' {
        s.skip(1)
    } else {
        s
    }
}

/// The entries among the first lines: neither empty nor comments, without trailing white space.
pub open spec fn entries_among(lines: Seq<Seq<char>>) -> Seq<PlaylistLineView>
    decreases lines.len(),
{
    if lines.len() == 0 {
        Seq::empty()
    } else {
        let before = entries_among(lines.drop_last());
        let line = text::right_trimmed(lines.last());
        if line.len() == 0 || line[0] == '#' {
            before
        } else {
            before.push(PlaylistLineView { number: lines.len() as int, entry: line })
        }
    }
}

/// The entries of a playlist text.
pub open spec fn entries_of(s: Seq<char>) -> Seq<PlaylistLineView> {
    entries_among(text::pieces(without_mark(s), '\n'))
}

/// The message of a fault in a line of a playlist.
pub open spec fn line_message(fault: Seq<char>, number: int) -> Seq<char> {
    (fault + " at line "@) + text::decimal(number)
}

/// The message of a playlist without entries.
pub open spec fn no_entries(display: Seq<char>) -> Seq<char> {
    "M3U contains no disc entries: "@ + display
}

/// Reads the entries of a playlist text.
fn playlist_lines(content: &str) -> (r: Vec<PlaylistLine>)
    ensures
        line_views(r@) == entries_of(content@),
{
    let chars = text::chars_of(content);
    let body = if chars.len() > 0 && chars[0] == '\u{feff}' {
        text::slice_text(chars.as_slice(), 1, chars.len())
    } else {
        content.to_owned()
    };
    assert(body@ =~= without_mark(content@));
    let lines = text::split(body.as_str(), '\n');
    let ghost shown = text::text_views(lines@);
    let mut r: Vec<PlaylistLine> = Vec::new();
    let mut i: usize = 0;
    assert(shown.take(0) =~= Seq::empty());
    assert(line_views(r@) =~= Seq::empty());
    while i < lines.len()
        invariant
            i <= lines.len(),
            shown == text::text_views(lines@),
            line_views(r@) == entries_among(shown.take(i as int)),
        decreases lines.len() - i,
    {
        let ghost before = line_views(r@);
        assert(shown.take(i + 1).drop_last() =~= shown.take(i as int));
        assert(shown.take(i + 1).last() == lines@[i as int]@);
        let line = text::trim_end(lines[i].as_str());
        i += 1;
        if !line.as_str().is_empty() {
            let first = text::chars_of(line.as_str())[0];
            if first != '#' {
                r.push(PlaylistLine { number: i, entry: line });
                assert(line_views(r@) =~= before.push(r@.last()@));
            }
        }
    }
    assert(shown.take(lines.len() as int) =~= shown);
    r
}

/// What checking the first entries of one playlist comes to.
pub open spec fn direct_scan(lines: Seq<PlaylistLineView>) -> Result<Seq<Seq<char>>, MediaErrorView>
    decreases lines.len(),
{
    if lines.len() == 0 {
        Ok(Seq::empty())
    } else {
        match direct_scan(lines.drop_last()) {
            Err(e) => Err(e),
            Ok(before) => if !path_safety::is_portable(lines.last().entry) {
                media_graph::invalid(
                    line_message("M3U path escapes or is not portable"@, lines.last().number),
                )
            } else if before.len() >= MAX_GRAPH_MEMBERS - 1 {
                media_graph::invalid("M3U contains too many entries"@)
            } else {
                Ok(before.push(lines.last().entry))
            },
        }
    }
}

/// The entries of one playlist, or why it is refused.
pub open spec fn direct_result(bytes: Seq<u8>, display: Seq<char>) -> Result<
    Seq<Seq<char>>,
    MediaErrorView,
> {
    match media_graph::descriptor_content(bytes, "M3U"@) {
        Err(e) => Err(e),
        Ok(s) => match direct_scan(entries_of(s)) {
            Err(e) => Err(e),
            Ok(entries) => if entries.len() == 0 {
                media_graph::invalid(no_entries(display))
            } else {
                Ok(entries)
            },
        },
    }
}

proof fn direct_scan_stays(lines: Seq<PlaylistLineView>, n: int)
    requires
        0 <= n <= lines.len(),
        direct_scan(lines.take(n)) is Err,
    ensures
        direct_scan(lines) == direct_scan(lines.take(n)),
    decreases lines.len() - n,
{
    if n == lines.len() {
        assert(lines.take(n) =~= lines);
    } else {
        assert(lines.take(n + 1).drop_last() =~= lines.take(n));
        direct_scan_stays(lines, n + 1);
    }
}

fn line_fault(fault: &str, number: usize) -> (r: MediaError)
    ensures
        r@ == (MediaErrorView {
            kind: MediaErrorKind::InvalidData,
            message: line_message(fault@, number as int),
        }),
{
    let m = text::join(fault, " at line ");
    media_graph::invalid_data(text::join(m.as_str(), text::decimal_of(number as u64).as_str()))
}

/// Reads the entries of one playlist without opening anything that it names.
pub fn direct_entries(bytes: &[u8], display: &str) -> (r: Result<Vec<String>, MediaError>)
    ensures
        match (r, direct_result(bytes@, display@)) {
            (Ok(v), Ok(entries)) => text::text_views(v@) == entries,
            (Err(e), Err(f)) => e@ == f,
            _ => false,
        },
{
    let content = media_graph::descriptor_text(bytes, "M3U")?;
    let lines = playlist_lines(content);
    let ghost shown = line_views(lines@);
    let mut entries: Vec<String> = Vec::new();
    let mut i: usize = 0;
    assert(shown.take(0) =~= Seq::empty());
    assert(text::text_views(entries@) =~= Seq::empty());
    while i < lines.len()
        invariant
            i <= lines.len(),
            shown == line_views(lines@),
            shown == entries_of(content@),
            media_graph::descriptor_content(bytes@, "M3U"@) == Ok::<_, MediaErrorView>(content@),
            direct_scan(shown.take(i as int)) == Ok::<_, MediaErrorView>(
                text::text_views(entries@),
            ),
        decreases lines.len() - i,
    {
        let ghost before = text::text_views(entries@);
        proof {
            assert(shown.take(i + 1).drop_last() =~= shown.take(i as int));
            assert(shown.take(i + 1).last() == lines@[i as int]@);
            if direct_scan(shown.take(i + 1)) is Err {
                direct_scan_stays(shown, i + 1);
            }
        }
        let line = &lines[i];
        if !path_safety::is_portable_relative_member(line.entry.as_str()) {
            return Err(line_fault("M3U path escapes or is not portable", line.number));
        }
        if entries.len() >= MAX_GRAPH_MEMBERS - 1 {
            return Err(media_graph::invalid_data("M3U contains too many entries".to_owned()));
        }
        entries.push(line.entry.clone());
        assert(text::text_views(entries@) =~= before.push(line.entry@));
        i += 1;
    }
    assert(shown.take(lines.len() as int) =~= shown);
    if entries.is_empty() {
        return Err(
            media_graph::invalid_data(text::join("M3U contains no disc entries: ", display)),
        );
    }
    Ok(entries)
}

// ---------------------------------------------------------------------------------------------
// The walk over playlists that name playlists.

/// A kind of disc descriptor.
#[derive(Clone, Copy, Debug, PartialEq, Eq, Structural)]
pub enum DiscKind {
    Cue,
    Ccd,
    Toc,
}

/// A playlist that is being walked: its path below the root, its canonical path, the entries that
/// it has, and how many of them have been taken.
#[derive(Debug)]
pub struct OpenPlaylist {
    pub relative: String,
    pub canonical: String,
    pub lines: Vec<PlaylistLine>,
    pub next: usize,
}

/// What an open playlist holds.
#[verifier::ext_equal]
pub struct OpenPlaylistView {
    pub relative: Seq<char>,
    pub canonical: Seq<char>,
    pub lines: Seq<PlaylistLineView>,
    pub next: nat,
}

impl View for OpenPlaylist {
    type V = OpenPlaylistView;

    open spec fn view(&self) -> OpenPlaylistView {
        OpenPlaylistView {
            relative: self.relative@,
            canonical: self.canonical@,
            lines: line_views(self.lines@),
            next: self.next as nat,
        }
    }
}

/// What the given open playlists hold.
pub open spec fn playlist_views(playlists: Seq<OpenPlaylist>) -> Seq<OpenPlaylistView> {
    Seq::new(playlists.len(), |i: int| playlists[i]@)
}

/// What the walk has asked for.
#[derive(Debug)]
pub enum Pending {
    /// The bytes of a playlist, with its path below the root and its canonical path.
    Playlist { relative: String, canonical: String },
    /// The canonical path of a member.
    Member { name: String },
    /// The members of a disc.
    Disc { name: String },
    Nothing,
}

/// What a pending request holds.
pub enum PendingView {
    Playlist { relative: Seq<char>, canonical: Seq<char> },
    Member { name: Seq<char> },
    Disc { name: Seq<char> },
    Nothing,
}

impl View for Pending {
    type V = PendingView;

    open spec fn view(&self) -> PendingView {
        match *self {
            Pending::Playlist { relative, canonical } => PendingView::Playlist {
                relative: relative@,
                canonical: canonical@,
            },
            Pending::Member { name } => PendingView::Member { name: name@ },
            Pending::Disc { name } => PendingView::Disc { name: name@ },
            Pending::Nothing => PendingView::Nothing,
        }
    }
}

/// A walk under way: the playlists from the root to the present one, the members found, and the
/// number of discs.
#[derive(Debug)]
pub struct PlaylistWalk {
    pub open: Vec<OpenPlaylist>,
    pub references: Vec<String>,
    pub discs: usize,
    pub pending: Pending,
}

/// What a walk holds.
#[verifier::ext_equal]
pub struct WalkView {
    pub open: Seq<OpenPlaylistView>,
    pub references: Seq<Seq<char>>,
    pub discs: nat,
    pub pending: PendingView,
}

impl View for PlaylistWalk {
    type V = WalkView;

    open spec fn view(&self) -> WalkView {
        WalkView {
            open: playlist_views(self.open@),
            references: text::text_views(self.references@),
            discs: self.discs as nat,
            pending: self.pending@,
        }
    }
}

/// What to do next.
#[derive(Debug)]
pub enum WalkAction {
    /// Read the bytes of the pending playlist.
    ReadPlaylist,
    /// Resolve the pending member to its canonical path.
    ResolveMember,
    /// Examine the pending disc and give the names of its members.
    ExamineDisc(DiscKind),
    /// The walk has ended: these are the members, or the error.
    Done(Result<Vec<String>, MediaError>),
}

/// What an action holds.
pub enum WalkActionView {
    ReadPlaylist,
    ResolveMember,
    ExamineDisc(DiscKind),
    Done(Result<Seq<Seq<char>>, MediaErrorView>),
}

/// What the end of a walk holds.
pub open spec fn end_view(r: Result<Vec<String>, MediaError>) -> Result<
    Seq<Seq<char>>,
    MediaErrorView,
> {
    match r {
        Ok(v) => Ok(text::text_views(v@)),
        Err(e) => Err(e@),
    }
}

impl View for WalkAction {
    type V = WalkActionView;

    open spec fn view(&self) -> WalkActionView {
        match *self {
            WalkAction::ReadPlaylist => WalkActionView::ReadPlaylist,
            WalkAction::ResolveMember => WalkActionView::ResolveMember,
            WalkAction::ExamineDisc(kind) => WalkActionView::ExamineDisc(kind),
            WalkAction::Done(r) => WalkActionView::Done(end_view(r)),
        }
    }
}

/// What came of the last action.
#[derive(Debug)]
pub enum WalkEvent {
    /// The bytes of the playlist and how it is shown.
    Playlist { bytes: Vec<u8>, display: String },
    /// The canonical path of the member.
    Member(String),
    /// The members of the disc.
    Disc(Vec<String>),
    /// What was asked for failed.
    Failed(MediaError),
}

/// What an event holds.
pub enum WalkEventView {
    Playlist { bytes: Seq<u8>, display: Seq<char> },
    Member(Seq<char>),
    Disc(Seq<Seq<char>>),
    Failed(MediaErrorView),
}

impl View for WalkEvent {
    type V = WalkEventView;

    open spec fn view(&self) -> WalkEventView {
        match *self {
            WalkEvent::Playlist { bytes, display } => WalkEventView::Playlist {
                bytes: bytes@,
                display: display@,
            },
            WalkEvent::Member(path) => WalkEventView::Member(path@),
            WalkEvent::Disc(names) => WalkEventView::Disc(text::text_views(names@)),
            WalkEvent::Failed(e) => WalkEventView::Failed(e@),
        }
    }
}

/// The members after a list of names, each below a directory; one too many is refused.
pub open spec fn with_references(
    references: Seq<Seq<char>>,
    directory: Seq<char>,
    names: Seq<Seq<char>>,
) -> Result<Seq<Seq<char>>, MediaErrorView>
    decreases names.len(),
{
    if names.len() == 0 {
        Ok(references)
    } else {
        match with_references(references, directory, names.drop_last()) {
            Err(e) => Err(e),
            Ok(before) => with_reference(before, path_safety::below(directory, names.last())),
        }
    }
}

/// The members after one more.
pub open spec fn with_reference(references: Seq<Seq<char>>, name: Seq<char>) -> Result<
    Seq<Seq<char>>,
    MediaErrorView,
> {
    if references.len() >= MAX_GRAPH_MEMBERS - 1 {
        media_graph::invalid("M3U media graph contains too many files"@)
    } else {
        Ok(references.push(name))
    }
}

/// The disc descriptor that an extension stands for.
pub open spec fn disc_kind(extension: Seq<char>) -> Option<DiscKind> {
    if extension == "cue"@ {
        Some(DiscKind::Cue)
    } else if extension == "ccd"@ {
        Some(DiscKind::Ccd)
    } else if extension == "toc"@ {
        Some(DiscKind::Toc)
    } else {
        None
    }
}

/// Whether a playlist is one of those being walked.
pub open spec fn is_open(open: Seq<OpenPlaylistView>, canonical: Seq<char>) -> bool {
    exists|i: int| 0 <= i < open.len() && (#[trigger] open[i]).canonical == canonical
}

impl WalkView {
    /// The bounds of every walk: no playlist is walked inside itself, playlists nest no deeper
    /// than allowed, and neither members nor discs are too many.
    pub open spec fn wf(self) -> bool {
        &&& self.open.len() <= MAX_RECURSION_DEPTH + 1
        &&& self.references.len() <= MAX_GRAPH_MEMBERS - 1
        &&& self.discs <= MAX_DISCS + 1
        &&& self.pending is Member || self.pending is Playlist ==> self.discs <= MAX_DISCS
        &&& forall|i: int|
            0 <= i < self.open.len() ==> (#[trigger] self.open[i]).next <= self.open[i].lines.len()
        &&& forall|i: int, j: int|
            0 <= i < j < self.open.len() ==> (#[trigger] self.open[i]).canonical != (
            #[trigger] self.open[j]).canonical
        &&& self.pending matches PendingView::Playlist { canonical, .. } ==> self.open.len()
            <= MAX_RECURSION_DEPTH && !is_open(self.open, canonical)
        &&& self.pending is Member || self.pending is Disc ==> self.open.len() > 0
    }

    /// Whether an event answers what the walk asked for.
    pub open spec fn expects(self, event: WalkEventView) -> bool {
        match (self.pending, event) {
            (PendingView::Playlist { .. }, WalkEventView::Playlist { .. }) => true,
            (PendingView::Member { .. }, WalkEventView::Member(_)) => true,
            (PendingView::Disc { .. }, WalkEventView::Disc(_)) => true,
            (PendingView::Nothing, _) => false,
            (_, WalkEventView::Failed(_)) => true,
            _ => false,
        }
    }

    /// The end of the walk.
    pub open spec fn ends(self, result: Result<Seq<Seq<char>>, MediaErrorView>) -> (
        WalkView,
        WalkActionView,
    ) {
        (WalkView { pending: PendingView::Nothing, ..self }, WalkActionView::Done(result))
    }

    /// The walk goes on with the next entry of the innermost playlist; a playlist without further
    /// entries is left.
    pub open spec fn continues(self) -> (WalkView, WalkActionView)
        decreases self.open.len(),
    {
        if self.open.len() == 0 {
            self.ends(Ok(self.references))
        } else {
            let top = self.open.last();
            if top.next >= top.lines.len() {
                WalkView { open: self.open.drop_last(), ..self }.continues()
            } else {
                let line = top.lines[top.next as int];
                let taken = WalkView {
                    open: self.open.drop_last().push(
                        OpenPlaylistView { next: top.next + 1, ..top },
                    ),
                    ..self
                };
                let name = path_safety::below(path_safety::parent_of(top.relative), line.entry);
                if !path_safety::is_portable(line.entry) {
                    taken.ends(
                        media_graph::invalid(
                            line_message("M3U path escapes or is not portable"@, line.number),
                        ),
                    )
                } else if !path_safety::is_portable(name) {
                    taken.ends(
                        media_graph::invalid(
                            line_message("M3U nested path is not portable"@, line.number),
                        ),
                    )
                } else {
                    (
                        WalkView { pending: PendingView::Member { name }, ..taken },
                        WalkActionView::ResolveMember,
                    )
                }
            }
        }
    }

    /// What follows a member with its canonical path: a playlist is entered, a disc examined.
    pub open spec fn resolved(self, name: Seq<char>, canonical: Seq<char>) -> (
        WalkView,
        WalkActionView,
    ) {
        let extension = match path_safety::extension_of(canonical) {
            Some(e) => text::lowered(e),
            None => Seq::empty(),
        };
        match with_reference(self.references, name) {
            Err(e) => self.ends(Err(e)),
            Ok(references) => {
                let noted = WalkView { references, ..self };
                if extension == "m3u"@ {
                    if self.open.len() > MAX_RECURSION_DEPTH {
                        noted.ends(
                            media_graph::invalid(
                                "M3U recursion exceeds "@ + text::decimal(
                                    MAX_RECURSION_DEPTH as int,
                                ),
                            ),
                        )
                    } else if is_open(self.open, canonical) {
                        noted.ends(
                            media_graph::invalid("M3U playlist cycle detected at "@ + canonical),
                        )
                    } else {
                        (
                            WalkView {
                                pending: PendingView::Playlist { relative: name, canonical },
                                ..noted
                            },
                            WalkActionView::ReadPlaylist,
                        )
                    }
                } else {
                    match disc_kind(extension) {
                        Some(kind) => (
                            WalkView {
                                discs: self.discs + 1,
                                pending: PendingView::Disc { name },
                                ..noted
                            },
                            WalkActionView::ExamineDisc(kind),
                        ),
                        None => noted.ends(
                            media_graph::invalid(
                                "M3U member must be CUE, CCD, TOC, or M3U: "@
                                    + media_graph::quoted_text(name),
                            ),
                        ),
                    }
                }
            },
        }
    }

    /// The next state and action.
    pub open spec fn next(self, event: WalkEventView) -> (WalkView, WalkActionView) {
        match event {
            WalkEventView::Failed(e) => self.ends(Err(e)),
            WalkEventView::Playlist { bytes, display } => match media_graph::descriptor_content(
                bytes,
                "M3U"@,
            ) {
                Err(e) => self.ends(Err(e)),
                Ok(s) => if entries_of(s).len() == 0 {
                    self.ends(media_graph::invalid(no_entries(display)))
                } else {
                    WalkView {
                        open: self.open.push(
                            OpenPlaylistView {
                                relative: self.pending->relative,
                                canonical: self.pending->canonical,
                                lines: entries_of(s),
                                next: 0,
                            },
                        ),
                        pending: PendingView::Nothing,
                        ..self
                    }.continues()
                },
            },
            WalkEventView::Member(canonical) => self.resolved(self.pending->Member_name, canonical),
            WalkEventView::Disc(names) => match with_references(
                self.references,
                path_safety::parent_of(self.pending->Disc_name),
                names,
            ) {
                Err(e) => WalkView { references: Seq::empty(), ..self }.ends(Err(e)),
                Ok(references) => if self.discs > MAX_DISCS {
                    WalkView { references, ..self }.ends(
                        media_graph::invalid(
                            ("M3U contains more than "@ + text::decimal(MAX_DISCS as int))
                                + " discs"@,
                        ),
                    )
                } else {
                    WalkView { references, pending: PendingView::Nothing, ..self }.continues()
                },
            },
        }
    }
}

proof fn with_references_bound(
    references: Seq<Seq<char>>,
    directory: Seq<char>,
    names: Seq<Seq<char>>,
)
    requires
        references.len() <= MAX_GRAPH_MEMBERS - 1,
    ensures
        with_references(references, directory, names) matches Ok(all) ==> all.len()
            <= MAX_GRAPH_MEMBERS - 1,
    decreases names.len(),
{
    if names.len() > 0 {
        with_references_bound(references, directory, names.drop_last());
    }
}

proof fn with_references_stays(
    references: Seq<Seq<char>>,
    directory: Seq<char>,
    names: Seq<Seq<char>>,
    n: int,
)
    requires
        0 <= n <= names.len(),
        with_references(references, directory, names.take(n)) is Err,
    ensures
        with_references(references, directory, names) == with_references(
            references,
            directory,
            names.take(n),
        ),
    decreases names.len() - n,
{
    if n == names.len() {
        assert(names.take(n) =~= names);
    } else {
        assert(names.take(n + 1).drop_last() =~= names.take(n));
        with_references_stays(references, directory, names, n + 1);
    }
}

proof fn continuing_keeps_bounds(walk: WalkView)
    requires
        walk.wf(),
        walk.discs <= MAX_DISCS,
    ensures
        walk.continues().0.wf(),
    decreases walk.open.len(),
{
    if walk.open.len() > 0 {
        let top = walk.open.last();
        if top.next >= top.lines.len() {
            let shorter = WalkView { open: walk.open.drop_last(), ..walk };
            assert(forall|i: int|
                0 <= i < shorter.open.len() ==> #[trigger] shorter.open[i] == walk.open[i]);
            if walk.pending is Playlist {
                assert(!is_open(shorter.open, walk.pending->canonical)) by {
                    if is_open(shorter.open, walk.pending->canonical) {
                        let i = choose|i: int|
                            0 <= i < shorter.open.len() && (#[trigger] shorter.open[i]).canonical
                                == walk.pending->canonical;
                        assert(walk.open[i].canonical == walk.pending->canonical);
                    }
                }
            }
            if shorter.open.len() == 0 && (walk.pending is Member || walk.pending is Disc) {
                assert(shorter.continues().0 == shorter.ends(Ok(shorter.references)).0);
            } else {
                continuing_keeps_bounds(shorter);
            }
        }
    }
}

/// Every walk keeps its bounds from event to event: playlists nest at most nine deep and never
/// inside themselves, and at most 255 members and 25 discs are accepted.
pub proof fn walks_stay_bounded(walk: WalkView, event: WalkEventView)
    requires
        walk.wf(),
        walk.expects(event),
    ensures
        walk.next(event).0.wf(),
        walk.next(event).1 matches WalkActionView::Done(Ok(references)) ==> references.len() <= 255
            && walk.next(event).0.discs <= 25,
{
    match event {
        WalkEventView::Playlist { bytes, display } => {
            if let Ok(s) = media_graph::descriptor_content(bytes, "M3U"@) {
                let entered = WalkView {
                    open: walk.open.push(
                        OpenPlaylistView {
                            relative: walk.pending->relative,
                            canonical: walk.pending->canonical,
                            lines: entries_of(s),
                            next: 0,
                        },
                    ),
                    pending: PendingView::Nothing,
                    ..walk
                };
                assert(entered.open.drop_last() =~= walk.open);
                entering_keeps_bounds(walk, entered);
                continuing_keeps_bounds(entered);
                done_is_bounded(entered);
            }
        },
        WalkEventView::Member(canonical) => {},
        WalkEventView::Disc(names) => {
            let directory = path_safety::parent_of(walk.pending->Disc_name);
            with_references_bound(walk.references, directory, names);
            if let Ok(references) = with_references(walk.references, directory, names) {
                if walk.discs <= MAX_DISCS {
                    let going = WalkView { references, pending: PendingView::Nothing, ..walk };
                    continuing_keeps_bounds(going);
                    done_is_bounded(going);
                }
            }
        },
        WalkEventView::Failed(e) => {},
    }
}

proof fn done_is_bounded(walk: WalkView)
    requires
        walk.wf(),
        walk.discs <= MAX_DISCS,
    ensures
        walk.continues().0.discs == walk.discs,
        walk.continues().1 matches WalkActionView::Done(Ok(references)) ==> references
            == walk.references,
    decreases walk.open.len(),
{
    if walk.open.len() > 0 {
        let top = walk.open.last();
        if top.next >= top.lines.len() {
            let shorter = WalkView { open: walk.open.drop_last(), ..walk };
            let calm = WalkView { pending: PendingView::Nothing, ..shorter };
            calm_continues(shorter);
            assert(calm.wf()) by {
                assert(forall|i: int|
                    0 <= i < calm.open.len() ==> #[trigger] calm.open[i] == walk.open[i]);
            }
            done_is_bounded(calm);
        }
    }
}

proof fn calm_continues(walk: WalkView)
    ensures
        walk.continues() == (WalkView { pending: PendingView::Nothing, ..walk }).continues(),
    decreases walk.open.len(),
{
    let calm = WalkView { pending: PendingView::Nothing, ..walk };
    if walk.open.len() > 0 {
        let top = walk.open.last();
        if top.next >= top.lines.len() {
            calm_continues(WalkView { open: walk.open.drop_last(), ..walk });
        }
    }
}

impl PlaylistWalk {
    /// Starts at a playlist with the given canonical path; its bytes are asked for first.
    pub fn begin(canonical: &str) -> (r: PlaylistWalk)
        ensures
            r@ == (WalkView {
                open: Seq::empty(),
                references: Seq::empty(),
                discs: 0,
                pending: PendingView::Playlist {
                    relative: Seq::empty(),
                    canonical: canonical@,
                },
            }),
            r@.wf(),
    {
        let r = PlaylistWalk {
            open: Vec::new(),
            references: Vec::new(),
            discs: 0,
            pending: Pending::Playlist { relative: String::new(), canonical: canonical.to_owned() },
        };
        assert(r@.open =~= Seq::empty());
        assert(r@.references =~= Seq::empty());
        r
    }

    /// The name, below the root, of what the walk asks for; none for the playlist at the root.
    pub fn pending_name(&self) -> (r: Option<&str>)
        ensures
            match self@.pending {
                PendingView::Playlist { relative, .. } => if relative.len() == 0 {
                    r is None
                } else {
                    r matches Some(name) && name@ == relative
                },
                PendingView::Member { name } => r matches Some(found) && found@ == name,
                PendingView::Disc { name } => r matches Some(found) && found@ == name,
                PendingView::Nothing => r is None,
            },
    {
        match &self.pending {
            Pending::Playlist { relative, .. } => if relative.as_str().is_empty() {
                None
            } else {
                Some(relative.as_str())
            },
            Pending::Member { name } => Some(name.as_str()),
            Pending::Disc { name } => Some(name.as_str()),
            Pending::Nothing => None,
        }
    }

    fn end(self, result: Result<Vec<String>, MediaError>) -> (r: (PlaylistWalk, WalkAction))
        ensures
            (r.0@, r.1@) == self@.ends(end_view(result)),
    {
        (
            PlaylistWalk {
                open: self.open,
                references: self.references,
                discs: self.discs,
                pending: Pending::Nothing,
            },
            WalkAction::Done(result),
        )
    }

    fn go_on(playlists: Vec<OpenPlaylist>, references: Vec<String>, discs: usize) -> (r: (
        PlaylistWalk,
        WalkAction,
    ))
        requires
            forall|i: int|
                0 <= i < playlists@.len() ==> (#[trigger] playlist_views(playlists@)[i]).next
                    <= playlist_views(playlists@)[i].lines.len(),
        ensures
            (r.0@, r.1@) == (WalkView {
                open: playlist_views(playlists@),
                references: text::text_views(references@),
                discs: discs as nat,
                pending: PendingView::Nothing,
            }).continues(),
    {
        let ghost start = WalkView {
            open: playlist_views(playlists@),
            references: text::text_views(references@),
            discs: discs as nat,
            pending: PendingView::Nothing,
        };
        let mut open = playlists;
        proof {
            assert forall|i: int| 0 <= i < open@.len() implies (#[trigger] open@[i]).next
                <= open@[i].lines@.len() by {
                assert(playlist_views(open@)[i] == open@[i]@);
            }
        }
        while open.len() > 0
            invariant
                start == (WalkView {
                    open: playlist_views(playlists@),
                    references: text::text_views(references@),
                    discs: discs as nat,
                    pending: PendingView::Nothing,
                }),
                start.continues() == (WalkView {
                    open: playlist_views(open@),
                    references: text::text_views(references@),
                    discs: discs as nat,
                    pending: PendingView::Nothing,
                }).continues(),
                forall|i: int|
                    0 <= i < open@.len() ==> (#[trigger] open@[i]).next <= open@[i].lines@.len(),
            decreases open.len(),
        {
            let ghost here = WalkView {
                open: playlist_views(open@),
                references: text::text_views(references@),
                discs: discs as nat,
                pending: PendingView::Nothing,
            };
            let ghost all = playlist_views(open@);
            assert(all.len() == open@.len());
            let last: usize = open.len() - 1;
            assert(all.last() == open@[last as int]@);
            let next: usize = open[last].next;
            if next >= open[last].lines.len() {
                let _left = open.pop();
                assert(playlist_views(open@) =~= all.drop_last());
                continue;
            }
            let entry = open[last].lines[next].entry.clone();
            let number: usize = open[last].lines[next].number;
            let directory = path_safety::parent(open[last].relative.as_str());
            let ghost top = open@[last as int]@;
            assert(top.lines[next as int] == open@[last as int].lines@[next as int]@);
            let count: usize = open[last].lines.len();
            open[last].next = next + 1;
            assert(playlist_views(open@) =~= all.drop_last().push(
                OpenPlaylistView { next: top.next + 1, ..top },
            ));
            let name = path_safety::join_below(directory.as_str(), entry.as_str());
            let walk = PlaylistWalk { open, references, discs, pending: Pending::Nothing };
            if !path_safety::is_portable_relative_member(entry.as_str()) {
                return walk.end(Err(line_fault("M3U path escapes or is not portable", number)));
            }
            if !path_safety::is_portable_relative_member(name.as_str()) {
                return walk.end(Err(line_fault("M3U nested path is not portable", number)));
            }
            return (
                PlaylistWalk {
                    open: walk.open,
                    references: walk.references,
                    discs: walk.discs,
                    pending: Pending::Member { name },
                },
                WalkAction::ResolveMember,
            );
        }
        assert(playlist_views(open@) =~= Seq::empty());
        let found = copy_texts(references.as_slice());
        PlaylistWalk { open, references, discs, pending: Pending::Nothing }.end(Ok(found))
    }

    fn walks(&self, canonical: &str) -> (r: bool)
        ensures
            r == is_open(self@.open, canonical@),
    {
        let mut i: usize = 0;
        while i < self.open.len()
            invariant
                i <= self.open.len(),
                forall|k: int| 0 <= k < i ==> (#[trigger] self@.open[k]).canonical != canonical@,
            decreases self.open.len() - i,
        {
            assert(self@.open[i as int] == self.open@[i as int]@);
            if text::same(self.open[i].canonical.as_str(), canonical) {
                return true;
            }
            i += 1;
        }
        false
    }

    fn note(&mut self, name: String) -> (r: Result<(), MediaError>)
        ensures
            match with_reference(old(self)@.references, name@) {
                Ok(references) => r is Ok && final(self)@ == (WalkView {
                    references,
                    ..old(self)@
                }),
                Err(e) => (r matches Err(error) && error@ == e) && final(self)@ == old(self)@,
            },
    {
        if self.references.len() >= MAX_GRAPH_MEMBERS - 1 {
            return Err(
                media_graph::invalid_data("M3U media graph contains too many files".to_owned()),
            );
        }
        let ghost before = self@;
        self.references.push(name);
        assert(self@.references =~= before.references.push(name@));
        assert(self@.open =~= before.open);
        Ok(())
    }

    fn note_all(&mut self, directory: &str, names: &[String]) -> (r: Result<(), MediaError>)
        ensures
            match with_references(old(self)@.references, directory@, text::text_views(names@)) {
                Ok(references) => r is Ok && final(self)@ == (WalkView {
                    references,
                    ..old(self)@
                }),
                Err(e) => (r matches Err(error) && error@ == e) && final(self)@ == (WalkView {
                    references: final(self)@.references,
                    ..old(self)@
                }),
            },
    {
        let ghost shown = text::text_views(names@);
        let ghost start = self@;
        let mut i: usize = 0;
        assert(shown.take(0) =~= Seq::empty());
        while i < names.len()
            invariant
                i <= names.len(),
                shown == text::text_views(names@),
                start == old(self)@,
                self@ == (WalkView { references: self@.references, ..start }),
                with_references(start.references, directory@, shown.take(i as int)) == Ok::<
                    _,
                    MediaErrorView,
                >(self@.references),
            decreases names.len() - i,
        {
            proof {
                assert(shown.take(i + 1).drop_last() =~= shown.take(i as int));
                assert(shown.take(i + 1).last() == names@[i as int]@);
                if with_references(start.references, directory@, shown.take(i + 1)) is Err {
                    with_references_stays(start.references, directory@, shown, i + 1);
                }
            }
            let name = path_safety::join_below(directory, names[i].as_str());
            self.note(name)?;
            i += 1;
        }
        assert(shown.take(names.len() as int) =~= shown);
        Ok(())
    }

    fn resolve(self, name: String, canonical: String) -> (r: (PlaylistWalk, WalkAction))
        requires
            self@.wf(),
            self@.pending is Member,
        ensures
            (r.0@, r.1@) == self@.resolved(name@, canonical@),
    {
        let extension = match path_safety::extension(canonical.as_str()) {
            Some(e) => text::lower(e.as_str()),
            None => String::new(),
        };
        let mut walk = self;
        if let Err(error) = walk.note(name.clone()) {
            return walk.end(Err(error));
        }
        if text::same(extension.as_str(), "m3u") {
            if walk.open.len() > MAX_RECURSION_DEPTH {
                return walk.end(
                    Err(
                        media_graph::invalid_data(
                            text::join(
                                "M3U recursion exceeds ",
                                text::decimal_of(MAX_RECURSION_DEPTH as u64).as_str(),
                            ),
                        ),
                    ),
                );
            }
            if walk.walks(canonical.as_str()) {
                return walk.end(
                    Err(
                        media_graph::invalid_data(
                            text::join("M3U playlist cycle detected at ", canonical.as_str()),
                        ),
                    ),
                );
            }
            walk.pending = Pending::Playlist { relative: name, canonical };
            return (walk, WalkAction::ReadPlaylist);
        }
        let kind = if text::same(extension.as_str(), "cue") {
            DiscKind::Cue
        } else if text::same(extension.as_str(), "ccd") {
            DiscKind::Ccd
        } else if text::same(extension.as_str(), "toc") {
            DiscKind::Toc
        } else {
            return walk.end(
                Err(
                    media_graph::invalid_data(
                        text::join(
                            "M3U member must be CUE, CCD, TOC, or M3U: ",
                            media_graph::quote(name.as_str()).as_str(),
                        ),
                    ),
                ),
            );
        };
        walk.discs = walk.discs + 1;
        walk.pending = Pending::Disc { name };
        (walk, WalkAction::ExamineDisc(kind))
    }

    /// Takes in what came of the last action and says what to do next.
    pub fn advance(self, event: WalkEvent) -> (r: (PlaylistWalk, WalkAction))
        requires
            self@.wf(),
            self@.expects(event@),
        ensures
            (r.0@, r.1@) == self@.next(event@),
            r.0@.wf(),
    {
        proof {
            walks_stay_bounded(self@, event@);
        }
        let ghost start = self@;
        match event {
            WalkEvent::Failed(error) => self.end(Err(error)),
            WalkEvent::Playlist { bytes, display } => {
                let content = match media_graph::descriptor_text(bytes.as_slice(), "M3U") {
                    Ok(content) => content,
                    Err(error) => {
                        return self.end(Err(error));
                    },
                };
                let lines = playlist_lines(content);
                if lines.len() == 0 {
                    assert(line_views(lines@).len() == 0);
                    return self.end(
                        Err(
                            media_graph::invalid_data(
                                text::join("M3U contains no disc entries: ", display.as_str()),
                            ),
                        ),
                    );
                }
                assert(line_views(lines@).len() > 0);
                let (relative, canonical) = match self.pending {
                    Pending::Playlist { relative, canonical } => (relative, canonical),
                    _ => (String::new(), String::new()),
                };
                let mut open = self.open;
                let ghost before = playlist_views(open@);
                open.push(OpenPlaylist { relative, canonical, lines, next: 0 });
                assert(playlist_views(open@) =~= before.push(open@.last()@));
                let walk = PlaylistWalk {
                    open,
                    references: self.references,
                    discs: self.discs,
                    pending: Pending::Nothing,
                };
                proof {
                    assert(walk@.open.drop_last() =~= start.open);
                    entering_keeps_bounds(start, walk@);
                }
                PlaylistWalk::go_on(walk.open, walk.references, walk.discs)
            },
            WalkEvent::Member(canonical) => {
                let name = match &self.pending {
                    Pending::Member { name } => name.clone(),
                    _ => String::new(),
                };
                self.resolve(name, canonical)
            },
            WalkEvent::Disc(names) => {
                let directory = match &self.pending {
                    Pending::Disc { name } => path_safety::parent(name.as_str()),
                    _ => String::new(),
                };
                proof {
                    with_references_bound(start.references, directory@, text::text_views(names@));
                }
                let mut walk = self;
                if let Err(error) = walk.note_all(directory.as_str(), names.as_slice()) {
                    walk.references = Vec::new();
                    assert(walk@.references =~= Seq::empty());
                    return walk.end(Err(error));
                }
                if walk.discs > MAX_DISCS {
                    let m = text::join(
                        "M3U contains more than ",
                        text::decimal_of(MAX_DISCS as u64).as_str(),
                    );
                    return walk.end(
                        Err(media_graph::invalid_data(text::join(m.as_str(), " discs"))),
                    );
                }
                walk.pending = Pending::Nothing;
                PlaylistWalk::go_on(walk.open, walk.references, walk.discs)
            },
        }
    }
}

proof fn entering_keeps_bounds(before: WalkView, after: WalkView)
    requires
        before.wf(),
        before.pending is Playlist,
        after.open.len() == before.open.len() + 1,
        after.open.drop_last() == before.open,
        after.open.last().canonical == before.pending->canonical,
        after.open.last().next == 0,
        after.references == before.references,
        after.discs == before.discs,
        after.pending is Nothing,
    ensures
        after.wf(),
{
    assert forall|i: int| 0 <= i < before.open.len() implies #[trigger] after.open[i]
        == before.open[i] by {
        assert(after.open.drop_last()[i] == before.open[i]);
    }
    assert forall|i: int, j: int| 0 <= i < j < after.open.len() implies (
    #[trigger] after.open[i]).canonical != (#[trigger] after.open[j]).canonical by {
        if j == before.open.len() {
            assert(after.open[i] == before.open[i]);
            assert(!is_open(before.open, before.pending->canonical));
        }
    }
}

fn copy_texts(items: &[String]) -> (r: Vec<String>)
    ensures
        text::text_views(r@) == text::text_views(items@),
{
    let mut r: Vec<String> = Vec::new();
    let mut i: usize = 0;
    while i < items.len()
        invariant
            i <= items.len(),
            r@.len() == i,
            forall|k: int| 0 <= k < i ==> (#[trigger] r@[k])@ == items@[k]@,
        decreases items.len() - i,
    {
        r.push(items[i].clone());
        i += 1;
    }
    assert(text::text_views(r@) =~= text::text_views(items@));
    r
}

/// The members of a graph by their names.
pub fn references_of(names: Vec<String>) -> (r: Vec<MediaReference>)
    ensures
        media_graph::reference_names(r@) == text::text_views(names@),
{
    let mut r: Vec<MediaReference> = Vec::new();
    let mut i: usize = 0;
    while i < names.len()
        invariant
            i <= names.len(),
            r@.len() == i,
            forall|k: int| 0 <= k < i ==> (#[trigger] r@[k]).declared_name@ == names@[k]@,
        decreases names.len() - i,
    {
        r.push(MediaReference { declared_name: names[i].clone() });
        i += 1;
    }
    assert(media_graph::reference_names(r@) =~= text::text_views(names@));
    r
}

/// What the end of a walk and the look at the entry and the members come to: the members, where
/// the walk found them and each of them is accepted; else the first error.
pub open spec fn graph_check(
    walked: Result<Seq<Seq<char>>, MediaErrorView>,
    entry: Result<EntryFacts, MediaErrorView>,
    probes: Seq<MemberProbe>,
) -> Result<Seq<Seq<char>>, MediaErrorView> {
    match (walked, entry) {
        (Err(e), _) => Err(e),
        (Ok(_), Err(e)) => Err(e),
        (Ok(names), Ok(entry)) => match media_graph::validated(entry, "M3U"@, names, probes) {
            Err(e) => Err(e),
            Ok(_) => Ok(names),
        },
    }
}

/// A graph is valid with some members exactly where the walk ends with these members and each of
/// them is accepted. The error of the walk is handed on; after a walk that found members, the
/// error is that of the entry, or else that of the members.
pub proof fn valid_graphs_are_walked_and_checked(
    walked: Result<Seq<Seq<char>>, MediaErrorView>,
    entry: EntryFacts,
    probes: Seq<MemberProbe>,
)
    ensures
        forall|names: Seq<Seq<char>>|
            #[trigger] graph_check(walked, Ok(entry), probes) == Ok::<_, MediaErrorView>(names)
                <==> walked == Ok::<_, MediaErrorView>(names) && media_graph::validated(
                entry,
                "M3U"@,
                names,
                probes,
            ) is Ok,
        walked matches Err(e) ==> graph_check(walked, Ok(entry), probes) == Err::<
            Seq<Seq<char>>,
            _,
        >(e),
        walked matches Ok(names) ==> (media_graph::validated(entry, "M3U"@, names, probes) matches Err(
            e,
        ) ==> graph_check(walked, Ok(entry), probes) == Err::<Seq<Seq<char>>, _>(e)),
{
}

/// What looking at the entry of a graph found.
pub open spec fn entry_view(entry: Result<EntryFacts, MediaError>) -> Result<
    EntryFacts,
    MediaErrorView,
> {
    match entry {
        Ok(entry) => Ok(entry),
        Err(e) => Err(e@),
    }
}

/// Checks the end of a walk: the members that it found, by what the look at the entry and the
/// opening of each member found.
pub fn validate_graph(
    walked: Result<Vec<String>, MediaError>,
    entry: Result<EntryFacts, MediaError>,
    probes: &[MemberProbe],
) -> (r: Result<Vec<MediaReference>, MediaError>)
    requires
        walked matches Ok(names) ==> probes@.len() == names@.len(),
    ensures
        match (r, graph_check(end_view(walked), entry_view(entry), probes@)) {
            (Ok(v), Ok(names)) => media_graph::reference_names(v@) == names,
            (Err(e), Err(f)) => e@ == f,
            _ => false,
        },
{
    let names = match walked {
        Ok(names) => names,
        Err(error) => {
            return Err(error);
        },
    };
    let entry = match entry {
        Ok(entry) => entry,
        Err(error) => {
            return Err(error);
        },
    };
    let references = references_of(names);
    match media_graph::validate_references(&entry, "M3U", references.as_slice(), probes) {
        Ok(_) => Ok(references),
        Err(error) => Err(error),
    }
}

/// The name that the entry has in the digest of a playlist graph.
pub open spec fn entry_marker() -> Seq<char> {
    "entry.m3u"@
}

/// The bytes that set digests of playlist graphs apart from others.
pub open spec fn digest_domain() -> Seq<u8> {
    vstd::utf8::encode_utf8("emucap-m3u-graph-sha256\0"@)
}

fn same_references(a: &[MediaReference], b: &[MediaReference]) -> (r: bool)
    ensures
        r == (media_graph::reference_names(a@) == media_graph::reference_names(b@)),
{
    let ghost x = media_graph::reference_names(a@);
    let ghost y = media_graph::reference_names(b@);
    if a.len() != b.len() {
        assert(x.len() != y.len());
        return false;
    }
    let mut i: usize = 0;
    while i < a.len()
        invariant
            i <= a.len(),
            a.len() == b.len(),
            x == media_graph::reference_names(a@),
            y == media_graph::reference_names(b@),
            forall|k: int| 0 <= k < i ==> x[k] == y[k],
        decreases a.len() - i,
    {
        if !text::same(a[i].declared_name.as_str(), b[i].declared_name.as_str()) {
            assert(x[i as int] != y[i as int]);
            return false;
        }
        i += 1;
    }
    assert(x =~= y);
    true
}

/// What the directory of a playlist has to be.
pub open spec fn directory_check(is_link: bool, is_directory: bool) -> Result<(), MediaErrorView> {
    if is_link || !is_directory {
        media_graph::invalid("M3U entry directory must be a real directory"@)
    } else {
        Ok(())
    }
}

/// Refuses a playlist in a directory that is a link or none.
pub fn check_directory(is_link: bool, is_directory: bool) -> (r: Result<(), MediaError>)
    ensures
        match r {
            Ok(()) => directory_check(is_link, is_directory) is Ok,
            Err(e) => directory_check(is_link, is_directory) == Err::<(), _>(e@),
        },
{
    if is_link || !is_directory {
        return Err(
            media_graph::invalid_data("M3U entry directory must be a real directory".to_owned()),
        );
    }
    Ok(())
}

/// Starts the digest of a playlist graph with its entry.
pub fn begin_graph(entry: &EntryFacts, entry_name: &str, entry_bytes: &[u8]) -> (r: GraphDigest)
    ensures
        r@ == media_graph::graph_start(
            *entry,
            entry_name@,
            entry_bytes@,
            entry_marker(),
            digest_domain(),
        ),
{
    GraphDigest::begin(
        entry,
        entry_name,
        entry_bytes,
        "entry.m3u",
        "emucap-m3u-graph-sha256\0".as_bytes(),
    )
}

/// What a second walk of a graph has to find.
pub open spec fn unchanged(again: Seq<Seq<char>>, names: Seq<Seq<char>>) -> Result<
    (),
    MediaErrorView,
> {
    if again != names {
        media_graph::invalid("M3U graph changed while its identity was established"@)
    } else {
        Ok(())
    }
}

/// Refuses a graph whose members are others than before.
pub fn check_unchanged(again: &[MediaReference], references: &[MediaReference]) -> (r: Result<
    (),
    MediaError,
>)
    ensures
        match r {
            Ok(()) => unchanged(
                media_graph::reference_names(again@),
                media_graph::reference_names(references@),
            ) is Ok,
            Err(e) => unchanged(
                media_graph::reference_names(again@),
                media_graph::reference_names(references@),
            ) == Err::<(), _>(e@),
        },
{
    if same_references(again, references) {
        return Ok(());
    }
    Err(
        media_graph::invalid_data(
            "M3U graph changed while its identity was established".to_owned(),
        ),
    )
}

/// The identity of a playlist graph from what was read of it. `references_again` are the members
/// that a second walk found at the end.
pub fn graph_identity(
    entry: &EntryFacts,
    entry_name: &str,
    entry_bytes: &[u8],
    references: &[MediaReference],
    probes: &[MemberProbe],
    reads: &[MemberRead],
    entry_again: &[u8],
    references_again: &[MediaReference],
) -> (r: Result<MediaGraphIdentity, MediaError>)
    requires
        probes@.len() == references@.len(),
        reads@.len() == references@.len(),
    ensures
        media_graph::gives(
            r,
            match media_graph::graph_result(
                *entry,
                entry_name@,
                entry_bytes@,
                "M3U"@,
                entry_marker(),
                digest_domain(),
                media_graph::reference_names(references@),
                probes@,
                reads@,
                entry_again@,
            ) {
                Err(e) => Err(e),
                Ok(identity) => match unchanged(
                    media_graph::reference_names(references_again@),
                    media_graph::reference_names(references@),
                ) {
                    Err(e) => Err(e),
                    Ok(()) => Ok(identity),
                },
            },
        ),
{
    let identity = media_graph::graph_identity(
        entry,
        entry_name,
        entry_bytes,
        "M3U",
        "entry.m3u",
        "emucap-m3u-graph-sha256\0".as_bytes(),
        references,
        probes,
        reads,
        entry_again,
    )?;
    check_unchanged(references_again, references)?;
    Ok(identity)
}

} // verus!
