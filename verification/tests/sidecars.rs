use cnova::fs_state::{FsError, FsState};
use cnova::op::{create_nolrc, replace_nolrc, ReplaceNolrcError};

fn fs_with_track() -> (FsState, String) {
    let mut fs = FsState::new();
    fs.write("music/track".to_string(), String::new());
    (fs, "music/track".to_string())
}

#[test]
fn test_create_nolrc() {
    let (mut fs, og_path) = fs_with_track();
    let mut path_clone = "music/track.flac".to_string();

    let res = create_nolrc(&mut fs, &mut path_clone);
    assert!(res.is_ok(), "{:?}", path_clone);

    let og_path_exists = fs.contains_path(&og_path);
    assert!(og_path_exists, "{:?}, {:?}", og_path_exists, og_path);

    let path = "music/track.nolrc".to_string();
    assert_eq!(path, path_clone);

    let nolrc_exists = fs.contains_path(&path);
    assert!(nolrc_exists, "{:?}", path);
}

#[test]
fn test_replace_nolrc_halfway() {
    let lyrics = "some lyrics go here, right?";
    let (mut fs, og_path) = fs_with_track();
    let mut path_clone = "music/track.flac".to_string();

    let res = replace_nolrc(&mut fs, &mut path_clone, lyrics);
    assert!(
        matches!(res, Err(ReplaceNolrcError::Delete(_))),
        "{:?}",
        path_clone
    );

    let og_path_exists = fs.contains_path(&og_path);
    assert!(og_path_exists, "{:?}, {:?}", og_path_exists, og_path);

    let path = "music/track.lrc".to_string();
    let lrc_exists = fs.contains_path(&path);
    assert!(lrc_exists, "{:?}", path);
    let lrc_content = fs.read(&path);
    assert!(lrc_content.is_some());
    assert_eq!(lyrics, lrc_content.unwrap().as_str());

    let path = "music/track.nolrc".to_string();
    let nolrc_exists = fs.contains_path(&path);
    assert!(!nolrc_exists, "{:?}", path);
}

#[test]
fn test_replace_nolrc_fully() {
    let lyrics = "some lyrics go here, right?";
    let (mut fs, og_path) = fs_with_track();
    let mut path_clone = "music/track.flac".to_string();

    let res = create_nolrc(&mut fs, &mut path_clone);
    assert!(res.is_ok(), "{:?}", path_clone);

    let mut path_clone = "music/track.flac".to_string();
    let res = replace_nolrc(&mut fs, &mut path_clone, lyrics);
    assert!(res.is_ok(), "{:?}", path_clone);

    let og_path_exists = fs.contains_path(&og_path);
    assert!(og_path_exists, "{:?}, {:?}", og_path_exists, og_path);

    let path = "music/track.lrc".to_string();
    let lrc_exists = fs.contains_path(&path);
    assert!(lrc_exists, "{:?}", path);
    let lrc_content = fs.read(&path);
    assert!(lrc_content.is_some());
    assert_eq!(lyrics, lrc_content.unwrap().as_str());

    let path = "music/track.nolrc".to_string();
    let nolrc_exists = fs.contains_path(&path);
    assert!(!nolrc_exists, "{:?}", path);
}

#[test]
fn create_nolrc_twice_is_a_no_op() {
    let (mut fs, _og) = fs_with_track();
    let mut path = "music/track.flac".to_string();
    assert!(create_nolrc(&mut fs, &mut path).is_ok());

    let mut path = "music/track.flac".to_string();
    let second = create_nolrc(&mut fs, &mut path);
    assert_eq!(second, Err(FsError::AlreadyExists));
    assert!(fs.contains_path(&"music/track.nolrc".to_string()));
    let contents = fs.read(&"music/track.nolrc".to_string());
    assert_eq!("", contents.unwrap().as_str());
}

#[test]
fn replace_keeps_lyrics_whether_or_not_sentinel_existed() {
    // With a sentinel present, the delete succeeds.
    let (mut fs, _og) = fs_with_track();
    let mut path = "music/track.flac".to_string();
    assert!(create_nolrc(&mut fs, &mut path).is_ok());
    let mut path = "music/track.flac".to_string();
    assert!(replace_nolrc(&mut fs, &mut path, "la la").is_ok());
    assert!(fs.contains_path(&"music/track.lrc".to_string()));
    assert!(!fs.contains_path(&"music/track.nolrc".to_string()));

    // Without one, the delete reports not-found and the lyrics stay intact.
    let (mut fs, _og) = fs_with_track();
    let mut path = "music/track.flac".to_string();
    let res = replace_nolrc(&mut fs, &mut path, "la la");
    assert_eq!(res, Err(ReplaceNolrcError::Delete(FsError::NotFound)));
    assert_eq!("la la", fs.read(&"music/track.lrc".to_string()).unwrap().as_str());
    assert!(!fs.contains_path(&"music/track.nolrc".to_string()));
}
