use cnova::cli::{Cli, FileMatchStrictness, LrcAcquireBehavior};
use cnova::file::{
    acquire_filter_pass, ext_matches, from_entry, has_lrc, has_nolrc, prepare_entries,
    prepare_lyrics_request, probe_plan, with_extension, NoPathsError, PackError, ProbeKind,
    TagOutcome, TagSet, TrackEntry, WalkEvent,
};
use cnova::fs_state::FsState;
use cnova::remote::LyricsRequest;

fn typical_cli(paths: Vec<String>) -> Cli {
    Cli {
        paths,
        no_ignore_hidden: false,
        no_follow_symlinks: false,
        lrc_acquire_behavior: LrcAcquireBehavior::LrcMissing,
        deny_nolrc: false,
        strictness: FileMatchStrictness::FilterByExt,
        download_jobs: 1,
        traversal_jobs: 1,
        proxy: None,
    }
}

#[test]
fn with_extension_replaces_or_appends() {
    assert_eq!("dir/song.lrc", with_extension("dir/song.flac", "lrc"));
    assert_eq!("song.nolrc", with_extension("song.flac", "nolrc"));
    assert_eq!("plain.lrc", with_extension("plain", "lrc"));
    // A leading dot marks a hidden file, not an extension.
    assert_eq!("dir/.hidden.lrc", with_extension("dir/.hidden", "lrc"));
    // Dots in directory names are not extensions of the file.
    assert_eq!("a.b/c.lrc", with_extension("a.b/c", "lrc"));
    assert_eq!("x.tar.lrc", with_extension("x.tar.gz", "lrc"));
}

#[test]
fn extension_matching_is_case_insensitive() {
    assert!(ext_matches("song.flac"));
    assert!(ext_matches("song.FLAC"));
    assert!(ext_matches("song.Mp3"));
    assert!(ext_matches("a/b/c.opus"));
    assert!(ext_matches("song.aac"));
    assert!(ext_matches("song.alac"));
    assert!(ext_matches("song.ogg"));
    assert!(ext_matches("song.wav"));
    assert!(!ext_matches("song.txt"));
    assert!(!ext_matches("song"));
    assert!(!ext_matches(".flac"));
    assert!(!ext_matches("song.flacc"));
}

#[test]
fn probe_plan_follows_strictness() {
    assert_eq!(
        ProbeKind::Shallow,
        probe_plan(FileMatchStrictness::TrustyGuesser, false)
    );
    assert_eq!(
        ProbeKind::Shallow,
        probe_plan(FileMatchStrictness::TrustyGuesser, true)
    );
    assert_eq!(
        ProbeKind::Shallow,
        probe_plan(FileMatchStrictness::FilterByExt, true)
    );
    assert_eq!(
        ProbeKind::Skip,
        probe_plan(FileMatchStrictness::FilterByExt, false)
    );
    // Paranoid matching never trusts the extension: it always deep-probes.
    assert_eq!(
        ProbeKind::Deep,
        probe_plan(FileMatchStrictness::Paranoid, false)
    );
    assert_eq!(
        ProbeKind::Deep,
        probe_plan(FileMatchStrictness::Paranoid, true)
    );
}

#[test]
fn default_strictness_filters_by_extension() {
    assert_eq!(FileMatchStrictness::FilterByExt, FileMatchStrictness::default());
}

#[test]
fn sidecar_presence_checks() {
    let mut fs = FsState::new();
    fs.write("dir/song.lrc".to_string(), "text".to_string());

    let mut path = "dir/song.flac".to_string();
    assert!(has_lrc(&fs, &mut path));
    assert_eq!("dir/song.lrc", path);

    let mut path = "dir/song.flac".to_string();
    assert!(!has_nolrc(&fs, &mut path));
    assert_eq!("dir/song.nolrc", path);
}

#[test]
fn acquire_filter_honors_each_behavior() {
    let mut fs = FsState::new();
    fs.write("d/a.lrc".to_string(), String::new());
    fs.write("d/b.nolrc".to_string(), String::new());

    let a = "d/a.flac".to_string();
    let b = "d/b.flac".to_string();
    let c = "d/c.flac".to_string();

    assert!(acquire_filter_pass(LrcAcquireBehavior::All, &fs, &a));
    assert!(acquire_filter_pass(LrcAcquireBehavior::All, &fs, &b));

    assert!(acquire_filter_pass(LrcAcquireBehavior::OverwriteExceptNolrc, &fs, &a));
    assert!(!acquire_filter_pass(LrcAcquireBehavior::OverwriteExceptNolrc, &fs, &b));

    assert!(!acquire_filter_pass(LrcAcquireBehavior::LrcMissingAll, &fs, &a));
    assert!(acquire_filter_pass(LrcAcquireBehavior::LrcMissingAll, &fs, &b));

    assert!(!acquire_filter_pass(LrcAcquireBehavior::LrcMissing, &fs, &a));
    assert!(!acquire_filter_pass(LrcAcquireBehavior::LrcMissing, &fs, &b));
    assert!(acquire_filter_pass(LrcAcquireBehavior::LrcMissing, &fs, &c));
}

#[test]
fn request_preparation_requires_both_tags() {
    let req = prepare_lyrics_request(TagSet {
        artist: Some("A".to_string()),
        title: Some("T".to_string()),
        album: Some("L".to_string()),
    })
    .unwrap();
    assert_eq!(
        LyricsRequest {
            artist: "A".to_string(),
            title: "T".to_string(),
            album: Some("L".to_string()),
            duration: None,
        },
        req
    );

    let err = prepare_lyrics_request(TagSet {
        artist: Some("A".to_string()),
        title: None,
        album: None,
    })
    .unwrap_err();
    match err {
        PackError::RequestPrepare { artist, title } => {
            assert_eq!(Some("A".to_string()), artist);
            assert_eq!(None, title);
        }
        other => panic!("unexpected error: {:?}", other),
    }

    // An empty mandatory tag counts as not recovered.
    let err = prepare_lyrics_request(TagSet {
        artist: Some("".to_string()),
        title: Some("T".to_string()),
        album: None,
    })
    .unwrap_err();
    match err {
        PackError::RequestPrepare { artist, title } => {
            assert_eq!(None, artist);
            assert_eq!(Some("T".to_string()), title);
        }
        other => panic!("unexpected error: {:?}", other),
    }
}

#[test]
fn from_entry_skips_non_files_and_non_audio() {
    let fs = FsState::new();
    let cli = typical_cli(vec!["d".to_string()]);

    let dir = TrackEntry {
        path: "d/sub".to_string(),
        is_file: false,
        tags: TagOutcome::IoError("is a directory".to_string()),
    };
    assert!(from_entry(&dir, &cli, &fs).unwrap().is_none());

    let text = TrackEntry {
        path: "d/readme.txt".to_string(),
        is_file: true,
        tags: TagOutcome::DecodeError("not audio".to_string()),
    };
    assert!(from_entry(&text, &cli, &fs).unwrap().is_none());
}

#[test]
fn from_entry_reports_decoder_failures() {
    let fs = FsState::new();
    let cli = typical_cli(vec!["d".to_string()]);

    let bad = TrackEntry {
        path: "d/a.flac".to_string(),
        is_file: true,
        tags: TagOutcome::DecodeError("truncated".to_string()),
    };
    match from_entry(&bad, &cli, &fs).unwrap_err() {
        PackError::Lofty { path, message } => {
            assert_eq!("d/a.flac", path);
            assert_eq!("truncated", message);
        }
        other => panic!("unexpected error: {:?}", other),
    }

    let unreadable = TrackEntry {
        path: "d/b.flac".to_string(),
        is_file: true,
        tags: TagOutcome::IoError("permission denied".to_string()),
    };
    match from_entry(&unreadable, &cli, &fs).unwrap_err() {
        PackError::Io(m) => assert_eq!("permission denied", m),
        other => panic!("unexpected error: {:?}", other),
    }
}

#[test]
fn prepare_entries_fails_fast_without_roots() {
    let fs = FsState::new();
    let cli = typical_cli(Vec::new());
    let res = prepare_entries(&fs, &Vec::new(), &cli);
    assert_eq!(Err(NoPathsError), res.map(|_| ()));
}

#[test]
fn prepare_entries_carries_walk_errors_through() {
    let fs = FsState::new();
    let cli = typical_cli(vec!["d".to_string()]);
    let events = vec![WalkEvent::Error("broken symlink".to_string())];
    let packs = prepare_entries(&fs, &events, &cli).unwrap();
    assert_eq!(1, packs.len());
    match &packs[0] {
        Err(PackError::Ignore(m)) => assert_eq!("broken symlink", m),
        other => panic!("unexpected pack: {:?}", other),
    }
}
