use cnova::cli::{Cli, FileMatchStrictness, LrcAcquireBehavior};
use cnova::file::{TagOutcome, TagSet, TrackEntry, WalkEvent};
use cnova::fs_state::FsState;
use cnova::op::{start_up, HandleOutcome};
use cnova::remote::test::TestRemoteImpl;
use cnova::remote::duration_secs::DurationSecs;
use cnova::remote::{LyricsError, LyricsResponse};

fn typical_ok() -> Result<LyricsResponse, LyricsError> {
    Ok(LyricsResponse {
        id: Some(0),
        title: "title".to_owned(),
        artist: "artist".to_owned(),
        album: Some("album".to_owned()),
        duration: Some(DurationSecs::from_secs(10)),
        instrumental: Some(false),
        plain_lyrics: Some("plain_lyrics".to_owned()),
        synced_lyrics: Some("synced_lyrics".to_owned()),
    })
}

fn typical_err() -> Result<LyricsResponse, LyricsError> {
    Err(LyricsError::InvalidStatusCode {
        status: 403,
        url: "url".to_owned(),
    })
}

fn not_found() -> Result<LyricsResponse, LyricsError> {
    Err(LyricsError::InvalidStatusCode {
        status: 404,
        url: "url".to_owned(),
    })
}

fn typical_cli(paths: Vec<String>) -> Cli {
    Cli {
        paths,
        no_ignore_hidden: false,
        no_follow_symlinks: false,
        lrc_acquire_behavior: LrcAcquireBehavior::LrcMissing,
        deny_nolrc: false,
        strictness: FileMatchStrictness::FilterByExt,
        download_jobs: 1,
        traversal_jobs: 1,
        proxy: None,
    }
}

fn song_entry(path: &str, artist: &str, title: &str) -> WalkEvent {
    WalkEvent::Entry(TrackEntry {
        path: path.to_string(),
        is_file: true,
        tags: TagOutcome::Tags(TagSet {
            artist: Some(artist.to_string()),
            title: Some(title.to_string()),
            album: None,
        }),
    })
}

#[test]
fn test_empty_dirs() {
    // 0 files
    let mut fs = FsState::new();
    let mut remote = TestRemoteImpl::new_from_value(typical_ok());
    let cli = typical_cli(vec!["music".to_string()]);
    let log = start_up(&mut remote, &cli, &mut fs, &Vec::new()).unwrap();

    assert_eq!(0, remote.call_count());
    assert_eq!(0, log.outcomes.len());
}

#[test]
fn test_bad_files() {
    // Two audio-suffixed files the tag decoder rejects: errors are reported
    // but nothing is fetched.
    let events = vec![
        WalkEvent::Entry(TrackEntry {
            path: "dir/one.flac".to_string(),
            is_file: true,
            tags: TagOutcome::DecodeError("not really flac".to_string()),
        }),
        WalkEvent::Entry(TrackEntry {
            path: "dir/two.mp3".to_string(),
            is_file: true,
            tags: TagOutcome::DecodeError("not really mp3".to_string()),
        }),
    ];
    let mut fs = FsState::new();
    let mut remote = TestRemoteImpl::new_from_value(typical_ok());
    let cli = typical_cli(vec!["dir".to_string()]);
    let log = start_up(&mut remote, &cli, &mut fs, &events).unwrap();

    assert_eq!(0, remote.call_count());
    assert_eq!(
        vec![HandleOutcome::PackFailed, HandleOutcome::PackFailed],
        log.outcomes
    );
}

#[test]
fn scenario_lyrics_found_writes_lrc() {
    // song.flac with artist A / title T; the remote knows synced lyrics.
    let events = vec![song_entry("dir/song.flac", "A", "T")];
    let mut fs = FsState::new();
    fs.write("dir/song.flac".to_string(), String::new());
    let mut remote = TestRemoteImpl::new_from_value(Ok(LyricsResponse {
        id: None,
        title: "T".to_owned(),
        artist: "A".to_owned(),
        album: None,
        duration: None,
        instrumental: Some(false),
        plain_lyrics: None,
        synced_lyrics: Some("la la".to_owned()),
    }));
    let cli = typical_cli(vec!["dir".to_string()]);
    let log = start_up(&mut remote, &cli, &mut fs, &events).unwrap();

    assert_eq!(1, remote.call_count());
    assert_eq!(vec![HandleOutcome::WroteLyrics], log.outcomes);
    assert_eq!("la la", fs.read(&"dir/song.lrc".to_string()).unwrap().as_str());
    assert!(!fs.contains_path(&"dir/song.nolrc".to_string()));
}

#[test]
fn scenario_not_found_creates_empty_sentinel() {
    // Same track; the remote answers 404 and sentinels are allowed.
    let events = vec![song_entry("dir/song.flac", "A", "T")];
    let mut fs = FsState::new();
    fs.write("dir/song.flac".to_string(), String::new());
    let mut remote = TestRemoteImpl::new_from_value(not_found());
    let cli = typical_cli(vec!["dir".to_string()]);
    let log = start_up(&mut remote, &cli, &mut fs, &events).unwrap();

    assert_eq!(1, remote.call_count());
    assert_eq!(vec![HandleOutcome::MarkedAbsent], log.outcomes);
    assert_eq!("", fs.read(&"dir/song.nolrc".to_string()).unwrap().as_str());
    assert!(!fs.contains_path(&"dir/song.lrc".to_string()));
}

#[test]
fn scenario_not_found_denied_creates_nothing() {
    // Same track, 404, but sentinels are denied: no sidecar at all.
    let events = vec![song_entry("dir/song.flac", "A", "T")];
    let mut fs = FsState::new();
    fs.write("dir/song.flac".to_string(), String::new());
    let mut remote = TestRemoteImpl::new_from_value(not_found());
    let mut cli = typical_cli(vec!["dir".to_string()]);
    cli.deny_nolrc = true;
    let log = start_up(&mut remote, &cli, &mut fs, &events).unwrap();

    assert_eq!(1, remote.call_count());
    assert_eq!(vec![HandleOutcome::AbsenceDenied], log.outcomes);
    assert!(!fs.contains_path(&"dir/song.nolrc".to_string()));
    assert!(!fs.contains_path(&"dir/song.lrc".to_string()));
}

#[test]
fn scenario_existing_sentinel_skips_fetch() {
    // The track already carries song.nolrc: under LrcMissing the classifier
    // rejects it before any fetch happens.
    let events = vec![song_entry("dir/song.flac", "A", "T")];
    let mut fs = FsState::new();
    fs.write("dir/song.flac".to_string(), String::new());
    fs.write("dir/song.nolrc".to_string(), String::new());
    let mut remote = TestRemoteImpl::new_from_value(typical_ok());
    let cli = typical_cli(vec!["dir".to_string()]);
    let log = start_up(&mut remote, &cli, &mut fs, &events).unwrap();

    assert_eq!(0, remote.call_count());
    assert_eq!(0, log.outcomes.len());
}

#[test]
fn second_run_fetches_nothing() {
    // First run resolves both tracks (one with lyrics, one marked absent);
    // a second run over the same entries fetches nothing.
    let events = vec![
        song_entry("dir/a.flac", "A", "T1"),
        song_entry("dir/b.flac", "A", "T2"),
    ];
    let mut fs = FsState::new();
    fs.write("dir/a.flac".to_string(), String::new());
    fs.write("dir/b.flac".to_string(), String::new());
    let cli = typical_cli(vec!["dir".to_string()]);

    let mut remote = TestRemoteImpl::new_from_script(vec![typical_ok(), not_found()]);
    let log = start_up(&mut remote, &cli, &mut fs, &events).unwrap();
    assert_eq!(2, remote.call_count());
    assert_eq!(2, log.outcomes.len());

    let mut remote2 = TestRemoteImpl::new_from_value(typical_ok());
    let log2 = start_up(&mut remote2, &cli, &mut fs, &events).unwrap();
    assert_eq!(0, remote2.call_count());
    assert_eq!(0, log2.outcomes.len());
}

#[test]
fn no_track_ends_with_both_sidecars() {
    // A mixed run: every processed track ends with at most one sidecar.
    let events = vec![
        song_entry("dir/a.flac", "A", "T1"),
        song_entry("dir/b.flac", "A", "T2"),
        song_entry("dir/c.flac", "A", "T3"),
    ];
    let mut fs = FsState::new();
    fs.write("dir/a.flac".to_string(), String::new());
    fs.write("dir/b.flac".to_string(), String::new());
    fs.write("dir/c.flac".to_string(), String::new());
    let cli = typical_cli(vec!["dir".to_string()]);
    let mut remote =
        TestRemoteImpl::new_from_script(vec![typical_ok(), not_found(), typical_err()]);
    start_up(&mut remote, &cli, &mut fs, &events).unwrap();

    for stem in ["dir/a", "dir/b", "dir/c"] {
        let lrc = fs.contains_path(&format!("{}.lrc", stem));
        let nolrc = fs.contains_path(&format!("{}.nolrc", stem));
        assert!(!(lrc && nolrc), "{}", stem);
    }
}

#[test]
fn fetch_failure_leaves_track_unresolved() {
    let events = vec![song_entry("dir/song.flac", "A", "T")];
    let mut fs = FsState::new();
    fs.write("dir/song.flac".to_string(), String::new());
    let mut remote = TestRemoteImpl::new_from_value(typical_err());
    let cli = typical_cli(vec!["dir".to_string()]);
    let log = start_up(&mut remote, &cli, &mut fs, &events).unwrap();

    assert_eq!(vec![HandleOutcome::FetchFailed], log.outcomes);
    assert!(!fs.contains_path(&"dir/song.lrc".to_string()));
    assert!(!fs.contains_path(&"dir/song.nolrc".to_string()));
}

#[test]
fn peak_in_flight_stays_within_limit() {
    let events = vec![
        song_entry("dir/a.flac", "A", "T1"),
        song_entry("dir/b.flac", "A", "T2"),
        song_entry("dir/c.flac", "A", "T3"),
        song_entry("dir/d.flac", "A", "T4"),
    ];
    let mut fs = FsState::new();
    for p in ["dir/a.flac", "dir/b.flac", "dir/c.flac", "dir/d.flac"] {
        fs.write(p.to_string(), String::new());
    }
    let mut cli = typical_cli(vec!["dir".to_string()]);
    cli.download_jobs = 3;
    let mut remote = TestRemoteImpl::new_from_value(typical_ok());
    let log = start_up(&mut remote, &cli, &mut fs, &events).unwrap();

    assert_eq!(3, log.limit);
    assert!(log.peak_in_flight <= log.limit);
    assert_eq!(4, remote.call_count());
}

#[test]
fn no_paths_aborts_before_any_work() {
    let events = vec![song_entry("dir/song.flac", "A", "T")];
    let mut fs = FsState::new();
    fs.write("dir/song.flac".to_string(), String::new());
    let mut remote = TestRemoteImpl::new_from_value(typical_ok());
    let cli = typical_cli(Vec::new());
    let res = start_up(&mut remote, &cli, &mut fs, &events);

    assert!(res.is_err());
    assert_eq!(0, remote.call_count());
    assert!(!fs.contains_path(&"dir/song.lrc".to_string()));
}

#[test]
fn invalid_request_outcome_is_surfaced_as_fatal() {
    let events = vec![song_entry("dir/song.flac", "A", "T")];
    let mut fs = FsState::new();
    fs.write("dir/song.flac".to_string(), String::new());
    let mut remote = TestRemoteImpl::new_from_value(Err(LyricsError::InvalidRequest(
        "bad query".to_string(),
    )));
    let cli = typical_cli(vec!["dir".to_string()]);
    let log = start_up(&mut remote, &cli, &mut fs, &events).unwrap();

    assert_eq!(vec![HandleOutcome::InvalidRequest], log.outcomes);
    assert!(!fs.contains_path(&"dir/song.lrc".to_string()));
    assert!(!fs.contains_path(&"dir/song.nolrc".to_string()));
}

#[test]
fn instrumental_track_marks_absence() {
    // A response with lyrics text but flagged instrumental settles on no
    // usable lyrics and marks absence.
    let events = vec![song_entry("dir/song.flac", "A", "T")];
    let mut fs = FsState::new();
    fs.write("dir/song.flac".to_string(), String::new());
    let mut remote = TestRemoteImpl::new_from_value(Ok(LyricsResponse {
        id: None,
        title: "T".to_owned(),
        artist: "A".to_owned(),
        album: None,
        duration: None,
        instrumental: Some(true),
        plain_lyrics: Some("hums".to_owned()),
        synced_lyrics: Some("hums".to_owned()),
    }));
    let cli = typical_cli(vec!["dir".to_string()]);
    let log = start_up(&mut remote, &cli, &mut fs, &events).unwrap();

    assert_eq!(vec![HandleOutcome::MarkedAbsent], log.outcomes);
    assert!(fs.contains_path(&"dir/song.nolrc".to_string()));
    assert!(!fs.contains_path(&"dir/song.lrc".to_string()));
}

#[test]
fn synced_lyrics_win_over_plain() {
    let events = vec![song_entry("dir/song.flac", "A", "T")];
    let mut fs = FsState::new();
    fs.write("dir/song.flac".to_string(), String::new());
    let mut remote = TestRemoteImpl::new_from_value(typical_ok());
    let cli = typical_cli(vec!["dir".to_string()]);
    start_up(&mut remote, &cli, &mut fs, &events).unwrap();

    assert_eq!(
        "synced_lyrics",
        fs.read(&"dir/song.lrc".to_string()).unwrap().as_str()
    );
}

#[test]
fn replacing_sentinel_with_lyrics_reports_replacement() {
    let events = vec![song_entry("dir/song.flac", "A", "T")];
    let mut fs = FsState::new();
    fs.write("dir/song.flac".to_string(), String::new());
    fs.write("dir/song.nolrc".to_string(), String::new());
    let mut remote = TestRemoteImpl::new_from_value(typical_ok());
    let mut cli = typical_cli(vec!["dir".to_string()]);
    // OverwriteExceptNolrc would skip this track; All re-fetches everything.
    cli.lrc_acquire_behavior = LrcAcquireBehavior::All;
    let log = start_up(&mut remote, &cli, &mut fs, &events).unwrap();

    assert_eq!(vec![HandleOutcome::ReplacedAbsence], log.outcomes);
    assert!(fs.contains_path(&"dir/song.lrc".to_string()));
    assert!(!fs.contains_path(&"dir/song.nolrc".to_string()));
}
