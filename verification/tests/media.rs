use std::collections::BTreeMap;

use emucap::encoding::FileDigest;
use emucap::m3u::{
    check_directory, check_unchanged, direct_entries, references_of, validate_graph, Pending, PlaylistWalk, WalkAction, WalkEvent, MAX_DISCS,
    MAX_RECURSION_DEPTH,
};
use emucap::media_graph::{
    check_descriptor, descriptor_text, entry_open_error, graph_identity, member_error, quoted_fields,
    validate_references, EntryFacts, FileStamp, IoFailure, MediaError, MediaErrorKind,
    MediaGraphIdentity, MediaReference, MemberProbe, MemberRead, MAX_DESCRIPTOR_BYTES,
};
use emucap::path_safety::is_portable_relative_member;

type Files = BTreeMap<String, Vec<u8>>;

fn files(entries: &[(&str, &[u8])]) -> Files {
    entries
        .iter()
        .map(|(name, bytes)| (name.to_string(), bytes.to_vec()))
        .collect()
}

fn add_cue(files: &mut Files, directory: &str, name: &str, track: &str, bytes: &[u8]) {
    files.insert(format!("{directory}{track}"), bytes.to_vec());
    files.insert(
        format!("{directory}{name}"),
        format!("FILE \"{track}\" BINARY\nTRACK 01 MODE1/2352\n").into_bytes(),
    );
}

fn missing() -> MediaError {
    MediaError {
        kind: MediaErrorKind::NotFound,
        message: "no such file".into(),
    }
}

fn disc_members(files: &Files, name: &str) -> Vec<String> {
    let mut members = Vec::new();
    let text = descriptor_text(&files[name], "CUE").unwrap();
    for (number, line) in text.lines().enumerate() {
        let fields = quoted_fields(line, "CUE", number + 1, 8).unwrap();
        if fields.first().is_some_and(|field| field == "FILE") {
            members.push(fields[1].clone());
        }
    }
    let companion = name.replace(".cue", ".sbi");
    if files.contains_key(&companion) {
        members.push(companion.rsplit('/').next().unwrap().to_string());
    }
    members
}

fn references(files: &Files, playlist: &str) -> Result<Vec<String>, MediaError> {
    let mut walk = PlaylistWalk::begin(&format!("/root/{playlist}"));
    let mut action = WalkAction::ReadPlaylist;
    loop {
        let event = match action {
            WalkAction::ReadPlaylist => match &walk.pending {
                Pending::Playlist { canonical, .. } => {
                    let name = canonical.strip_prefix("/root/").unwrap();
                    match files.get(name) {
                        Some(bytes) => WalkEvent::Playlist {
                            bytes: bytes.clone(),
                            display: canonical.clone(),
                        },
                        None => WalkEvent::Failed(missing()),
                    }
                }
                other => panic!("{other:?}"),
            },
            WalkAction::ResolveMember => match &walk.pending {
                Pending::Member { name } => {
                    if files.contains_key(name) {
                        WalkEvent::Member(format!("/root/{name}"))
                    } else {
                        WalkEvent::Failed(missing())
                    }
                }
                other => panic!("{other:?}"),
            },
            WalkAction::ExamineDisc(_) => match &walk.pending {
                Pending::Disc { name } => WalkEvent::Disc(disc_members(files, name)),
                other => panic!("{other:?}"),
            },
            WalkAction::Done(result) => return result,
        };
        let (next, todo) = walk.advance(event);
        walk = next;
        action = todo;
    }
}

fn identity_of(
    files: &Files,
    entry: &str,
    kind: &str,
    marker: &str,
    domain: &[u8],
    members: &[MediaReference],
) -> Result<MediaGraphIdentity, MediaError> {
    let bytes = &files[entry];
    let facts = EntryFacts {
        display: entry.into(),
        canonical: format!("/root/{entry}"),
        len: bytes.len() as u64,
    };
    let mut probes = Vec::new();
    let mut reads = Vec::new();
    for member in members {
        match files.get(&member.declared_name) {
            Some(contents) => {
                probes.push(MemberProbe::Found {
                    len: contents.len() as u64,
                    path: format!("/root/{}", member.declared_name),
                });
                reads.push(MemberRead::Read {
                    size: contents.len() as u64,
                    contents: contents.clone(),
                    unchanged: true,
                });
            }
            None => {
                let failure = || IoFailure {
                    kind: MediaErrorKind::NotFound,
                    message: "no such file".into(),
                };
                probes.push(MemberProbe::OpenFailed(failure()));
                reads.push(MemberRead::OpenFailed(failure()));
            }
        }
    }
    let name = entry.rsplit('/').next().unwrap();
    graph_identity(
        &facts, name, bytes, kind, marker, domain, members, &probes, &reads, bytes,
    )
}

fn playlist_identity(files: &Files, playlist: &str) -> Result<MediaGraphIdentity, MediaError> {
    let members = references_of(references(files, playlist)?);
    identity_of(files, playlist, "M3U", "entry.m3u", b"m3u\0", &members)
}

#[test]
fn nested_playlist_identity_covers_descriptors_and_disc_tracks() {
    let mut files = files(&[
        ("discs/set.m3u", b"one.cue\ntwo.cue\n"),
        ("games.m3u", b"#MEDNAFEN_DEFAULT\ndiscs/set.m3u\n"),
    ]);
    add_cue(&mut files, "discs/", "one.cue", "one.bin", b"one");
    add_cue(&mut files, "discs/", "two.cue", "two.bin", b"two");

    let before = playlist_identity(&files, "games.m3u").unwrap();
    assert_eq!(before.files.len(), 6);
    files.insert("discs/two.bin".into(), b"changed".to_vec());
    assert_ne!(
        before.sha256,
        playlist_identity(&files, "games.m3u").unwrap().sha256
    );
}

#[test]
fn playlist_rejects_cycles_parent_escape_and_unknown_members() {
    let cycle = files(&[("games.m3u", b"games.m3u\n")]);
    let error = references(&cycle, "games.m3u").unwrap_err();
    assert_eq!(
        error.message,
        "M3U playlist cycle detected at /root/games.m3u"
    );

    let escape = files(&[("games.m3u", b"../outside.cue\n")]);
    assert!(references(&escape, "games.m3u").is_err());

    let unknown = files(&[("disc.iso", b"iso"), ("games.m3u", b"disc.iso\n")]);
    let error = references(&unknown, "games.m3u").unwrap_err();
    assert_eq!(
        error.message,
        "M3U member must be CUE, CCD, TOC, or M3U: \"disc.iso\""
    );
}

#[test]
fn playlist_accepts_a_utf8_bom_and_binds_mednafen_sbi_files() {
    let mut files = files(&[
        ("disc.sbi", b"SBI\0"),
        ("games.m3u", "\u{feff}disc.cue\n".as_bytes()),
    ]);
    add_cue(&mut files, "", "disc.cue", "track.bin", b"track");
    let identity = playlist_identity(&files, "games.m3u").unwrap();
    assert_eq!(identity.files.len(), 4);
}

#[test]
fn playlist_rejects_excessive_disc_and_recursion_work() {
    let mut files = files(&[]);
    add_cue(&mut files, "", "disc.cue", "track.bin", b"track");
    files.insert(
        "games.m3u".into(),
        "disc.cue\n".repeat(MAX_DISCS + 1).into_bytes(),
    );
    assert!(references(&files, "games.m3u").is_err());
    files.insert(
        "games.m3u".into(),
        "disc.cue\n".repeat(MAX_DISCS).into_bytes(),
    );
    assert!(references(&files, "games.m3u").is_ok());

    for depth in 0..=MAX_RECURSION_DEPTH + 1 {
        let next = if depth == MAX_RECURSION_DEPTH + 1 {
            "disc.cue".to_string()
        } else {
            format!("level-{}.m3u", depth + 1)
        };
        files.insert(format!("level-{depth}.m3u"), format!("{next}\n").into_bytes());
    }
    files.insert("games.m3u".into(), b"level-0.m3u\n".to_vec());
    assert!(references(&files, "games.m3u").is_err());
}

#[test]
fn direct_entries_are_those_of_the_playlist_alone() {
    assert_eq!(
        direct_entries(b"# note\r\n\r\na.cue\r\nsub/b.m3u\n", "games.m3u").unwrap(),
        ["a.cue", "sub/b.m3u"]
    );
    assert!(direct_entries(b"a.cue\0b", "games.m3u").is_err());
}

#[test]
fn graph_digest_changes_with_a_member_but_not_the_entry_file_name() {
    let members = [MediaReference {
        declared_name: "track.bin".into(),
    }];
    let first = files(&[("track.bin", b"track"), ("first.test", b"descriptor")]);
    let mut second = files(&[("track.bin", b"track"), ("second.test", b"descriptor")]);
    let marker = "entry.test";
    let domain = b"test-domain\0";
    let first_identity =
        identity_of(&first, "first.test", "TEST", marker, domain, &members).unwrap();
    let second_identity =
        identity_of(&second, "second.test", "TEST", marker, domain, &members).unwrap();
    assert_eq!(first_identity.sha256, second_identity.sha256);
    assert_eq!(first_identity.size, 15);
    assert_eq!(
        first_identity.files[0].declared_name,
        "first.test"
    );

    second.insert("track.bin".into(), b"changed".to_vec());
    let changed = identity_of(&second, "second.test", "TEST", marker, domain, &members).unwrap();
    assert_ne!(first_identity.sha256, changed.sha256);
}

#[test]
fn validation_rejects_an_entry_listed_as_its_own_member() {
    let entry = EntryFacts {
        display: "disc.test".into(),
        canonical: "/root/disc.test".into(),
        len: 10,
    };
    let members = [MediaReference {
        declared_name: "disc.test".into(),
    }];
    let probes = [MemberProbe::Found {
        len: 10,
        path: "/root/disc.test".into(),
    }];
    assert!(validate_references(&entry, "TEST", &members, &probes).is_err());
    let files = files(&[("disc.test", b"descriptor")]);
    assert!(identity_of(
        &files,
        "disc.test",
        "TEST",
        "entry.test",
        b"test-domain\0",
        &members
    )
    .is_err());
}

#[test]
fn a_graph_is_valid_where_the_walk_and_its_members_are() {
    let facts = || EntryFacts {
        display: "games.m3u".into(),
        canonical: "/root/games.m3u".into(),
        len: 10,
    };
    let fault = |message: &str| MediaError {
        kind: MediaErrorKind::InvalidData,
        message: message.into(),
    };
    let found = || {
        [MemberProbe::Found {
            len: 3,
            path: "/root/a.cue".into(),
        }]
    };
    let valid = validate_graph(Ok(vec!["a.cue".into()]), Ok(facts()), &found()).unwrap();
    assert_eq!(valid.len(), 1);
    assert_eq!(valid[0].declared_name, "a.cue");

    let walk = validate_graph(Err(fault("walk")), Err(fault("entry")), &[]).unwrap_err();
    assert_eq!(walk.message, "walk");
    let entry =
        validate_graph(Ok(vec!["a.cue".into()]), Err(fault("entry")), &found()).unwrap_err();
    assert_eq!(entry.message, "entry");
    let own = [MemberProbe::Found {
        len: 10,
        path: "/root/games.m3u".into(),
    }];
    let member = validate_graph(Ok(vec!["a.cue".into()]), Ok(facts()), &own).unwrap_err();
    assert_eq!(
        member.message,
        "M3U entry file cannot also be a media member"
    );
}

#[test]
fn members_behind_links_are_refused_as_the_probe_tells() {
    let entry = EntryFacts {
        display: "disc.test".into(),
        canonical: "/root/disc.test".into(),
        len: 10,
    };
    let members = [MediaReference {
        declared_name: "tracks/track.bin".into(),
    }];
    let probes = [MemberProbe::OpenFailed(IoFailure {
        kind: MediaErrorKind::InvalidData,
        message: "symlinked directory".into(),
    })];
    assert_eq!(
        validate_references(&entry, "TEST", &members, &probes)
            .unwrap_err()
            .kind,
        MediaErrorKind::InvalidData
    );
    assert!(!is_portable_relative_member("../track.bin"));
    assert!(!is_portable_relative_member("/track.bin"));
    assert!(is_portable_relative_member("tracks/track.bin"));
}

#[test]
fn descriptors_must_be_whole_and_bounded() {
    let before = FileStamp {
        len: 3,
        modified: Some(5),
    };
    let touched = FileStamp {
        len: 3,
        modified: Some(6),
    };
    assert!(check_descriptor("TEST", "a", MAX_DESCRIPTOR_BYTES, before, 3, before).is_ok());
    assert!(check_descriptor("TEST", "a", MAX_DESCRIPTOR_BYTES, before, 3, touched).is_err());
    assert!(check_descriptor("TEST", "a", MAX_DESCRIPTOR_BYTES, before, 2, before).is_err());
    assert_eq!(
        check_descriptor("TEST", "a", 2, before, 3, before)
            .unwrap_err()
            .message,
        "TEST entry file exceeds 2 bytes: a"
    );
    let failure = IoFailure {
        kind: MediaErrorKind::NotFound,
        message: "gone".into(),
    };
    assert_eq!(
        entry_open_error("TEST", "a", &failure).message,
        "TEST entry file is missing or unsafe: a: gone"
    );
}

#[test]
fn text_descriptors_reject_embedded_string_terminators() {
    assert_eq!(
        descriptor_text(b"FILE \"track.bin\" BINARY\0ignored", "CUE")
            .unwrap_err()
            .kind,
        MediaErrorKind::InvalidData
    );
}

#[test]
fn text_descriptors_are_utf8() {
    assert_eq!(
        descriptor_text("\u{feff}FILE".as_bytes(), "CUE").unwrap(),
        "\u{feff}FILE"
    );
    let error = descriptor_text(b"FILE \xff", "CUE").unwrap_err();
    assert_eq!(error.kind, MediaErrorKind::InvalidData);
    assert!(error.message.contains("invalid utf-8"), "{}", error.message);
}

#[test]
fn quoted_fields_split_on_white_space_outside_quotes() {
    assert_eq!(
        quoted_fields("FILE \"track 01.bin\" BINARY", "CUE", 1, 3).unwrap(),
        ["FILE", "track 01.bin", "BINARY"]
    );
    assert!(quoted_fields("a b c d", "CUE", 1, 3).is_err());
    assert!(quoted_fields("FILE \"track", "CUE", 2, 3).is_err());
}

#[test]
fn a_member_that_changes_while_it_is_read_is_refused() {
    let entry = EntryFacts {
        display: "disc.test".into(),
        canonical: "/root/disc.test".into(),
        len: 1,
    };
    let members = [MediaReference {
        declared_name: "track.bin".into(),
    }];
    let probes = [MemberProbe::Found {
        len: 2,
        path: "/root/track.bin".into(),
    }];
    let reads = [MemberRead::Read {
        size: 2,
        contents: b"ab".to_vec(),
        unchanged: false,
    }];
    let error = graph_identity(
        &entry, "disc.test", b"x", "TEST", "entry.test", b"d\0", &members, &probes, &reads, b"x",
    )
    .unwrap_err();
    assert_eq!(
        error.message,
        "TEST member changed while it was hashed: \"track.bin\""
    );
}

#[test]
fn file_digests_do_not_depend_on_the_pieces() {
    let mut whole = FileDigest::new();
    whole.feed(b"abc");
    let mut pieces = FileDigest::new();
    pieces.feed(b"a");
    pieces.feed(b"");
    pieces.feed(b"bc");
    assert_eq!(whole.finish(), pieces.finish());
}

#[test]
fn member_errors_quote_the_declared_name() {
    let failure = IoFailure {
        kind: MediaErrorKind::NotFound,
        message: "gone".into(),
    };
    let error = member_error("CUE", "a\"b\n.bin", &failure);
    assert_eq!(error.kind, MediaErrorKind::NotFound);
    assert_eq!(
        error.message,
        "CUE member is missing or unsafe (declared as \"a\\\"b\\n.bin\"): gone"
    );
}

#[test]
fn playlists_need_a_real_directory_and_members_that_stay() {
    assert!(check_directory(false, true).is_ok());
    assert!(check_directory(true, true).is_err());
    assert!(check_directory(false, false).is_err());
    let one = references_of(vec!["a.cue".into()]);
    let same = references_of(vec!["a.cue".into()]);
    let other = references_of(vec!["b.cue".into()]);
    assert!(check_unchanged(&same, &one).is_ok());
    assert_eq!(
        check_unchanged(&other, &one).unwrap_err().message,
        "M3U graph changed while its identity was established"
    );
}
