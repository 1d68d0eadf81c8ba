use cnova::remote::check_status;
use cnova::remote::duration_secs::{parse_secs, DurationSecs};
use cnova::remote::test::TestRemoteImpl;
use cnova::remote::{LyricsError, LyricsRequest, LyricsResponse, Remote};
use cnova::file::PackError;
use cnova::trace::u64_digits;
use cnova::util::TraceLog;

#[test]
fn parse_secs_accepts_integer_seconds() {
    assert_eq!(Some(DurationSecs::from_secs(300)), parse_secs("300"));
    assert_eq!(Some(DurationSecs { secs: 0, nanos: 0 }), parse_secs("0"));
    assert_eq!(
        Some(DurationSecs::from_secs(18446744073709551615)),
        parse_secs("18446744073709551615")
    );
}

#[test]
fn parse_secs_accepts_decimal_seconds() {
    assert_eq!(Some(DurationSecs::from_secs(300)), parse_secs("300.0"));
    assert_eq!(
        Some(DurationSecs { secs: 2, nanos: 500_000_000 }),
        parse_secs("2.5")
    );
    assert_eq!(
        Some(DurationSecs { secs: 0, nanos: 123_456_789 }),
        parse_secs("0.123456789")
    );
    // Digits beyond nanosecond precision are truncated.
    assert_eq!(
        Some(DurationSecs { secs: 1, nanos: 999_999_999 }),
        parse_secs("1.9999999999")
    );
}

#[test]
fn parse_secs_rejects_what_is_not_a_number() {
    assert_eq!(None, parse_secs(""));
    assert_eq!(None, parse_secs("abc"));
    assert_eq!(None, parse_secs("12."));
    assert_eq!(None, parse_secs(".5"));
    assert_eq!(None, parse_secs("1.2.3"));
    assert_eq!(None, parse_secs("12x"));
    assert_eq!(None, parse_secs("-3"));
    // Seconds beyond the representable range are rejected, not clamped.
    assert_eq!(None, parse_secs("18446744073709551616"));
}

#[test]
fn duration_rendering_matches_the_wire_format() {
    assert_eq!("300", DurationSecs::from_secs(300).render());
    assert_eq!("2.500000000", DurationSecs { secs: 2, nanos: 500_000_000 }.render());
    assert_eq!("0.000000001", DurationSecs { secs: 0, nanos: 1 }.render());
}

#[test]
fn status_gate_accepts_exactly_the_2xx_range() {
    assert!(check_status(200, "u").is_ok());
    assert!(check_status(299, "u").is_ok());
    match check_status(404, "u") {
        Err(LyricsError::InvalidStatusCode { status, url }) => {
            assert_eq!(404, status);
            assert_eq!("u", url);
        }
        other => panic!("unexpected: {:?}", other),
    }
    assert!(check_status(199, "u").is_err());
    assert!(check_status(500, "u").is_err());
}

#[test]
fn decimal_rendering_is_exact() {
    assert_eq!("0", u64_digits(0));
    assert_eq!("42069", u64_digits(42069));
    assert_eq!("18446744073709551615", u64_digits(u64::MAX));
}

fn response(synced: Option<&str>, plain: Option<&str>, instrumental: Option<bool>) -> LyricsResponse {
    LyricsResponse {
        id: Some(42069),
        title: "title".to_owned(),
        artist: "artist".to_owned(),
        album: Some("album".to_owned()),
        duration: Some(DurationSecs::from_secs(300)),
        instrumental,
        plain_lyrics: plain.map(|s| s.to_owned()),
        synced_lyrics: synced.map(|s| s.to_owned()),
    }
}

#[test]
fn chosen_lyrics_prefers_synced_and_respects_instrumental() {
    let r = response(Some("sync"), Some("plain"), Some(false));
    assert_eq!("sync", r.chosen_lyrics().unwrap().as_str());
    let r = response(None, Some("plain"), None);
    assert_eq!("plain", r.chosen_lyrics().unwrap().as_str());
    let r = response(Some("sync"), Some("plain"), Some(true));
    assert!(r.chosen_lyrics().is_none());
    let r = response(None, None, Some(false));
    assert!(r.chosen_lyrics().is_none());
}

#[test]
fn describe_reports_lyrics_presence() {
    let r = response(Some("sync"), None, Some(false));
    assert_eq!("title: title, artist: artist, LYRICS PRESENT", r.describe());
    let r = response(None, None, None);
    assert_eq!("title: title, artist: artist, NO LYRICS", r.describe());
}

#[test]
fn error_log_lines_name_each_failure() {
    let e = LyricsError::InvalidRequest("q".to_string());
    assert_eq!(
        "built an invalid request, this is bad, please report this to the developer: q",
        e.trace_log()
    );
    let e = LyricsError::Misc("timeout".to_string());
    assert_eq!("misc request error: timeout", e.trace_log());
    let e = LyricsError::InvalidStatusCode { status: 404, url: "u".to_string() };
    assert_eq!("lyrics not found at u", e.trace_log());
    let e = LyricsError::InvalidStatusCode { status: 500, url: "u".to_string() };
    assert_eq!("received http error from u", e.trace_log());
}

#[test]
fn pack_error_log_lines_carry_recovered_tags() {
    let e = PackError::RequestPrepare {
        artist: Some("A".to_string()),
        title: None,
    };
    assert_eq!(
        "failed to prepare a request. artist is \"A\", title is None",
        e.trace_log()
    );
    let e = PackError::Lofty { path: "p.flac".to_string(), message: "bad".to_string() };
    assert_eq!("underlying tagging error at p.flac: bad", e.trace_log());
}

fn any_request() -> LyricsRequest {
    LyricsRequest {
        artist: "A".to_owned(),
        title: "T".to_owned(),
        album: None,
        duration: None,
    }
}

#[test]
fn new_from_value_repeats_forever() {
    let mut remote = TestRemoteImpl::new_from_value(Ok(response(Some("s"), None, None)));
    let req = any_request();
    for _ in 0..3 {
        let r = remote.get_lyrics(&req).unwrap();
        assert_eq!(Some("s".to_owned()), r.synced_lyrics);
    }
    assert_eq!(3, remote.call_count());
}

#[test]
fn scripted_remote_answers_in_order_then_fails() {
    let mut remote = TestRemoteImpl::new_from_script(vec![
        Ok(response(Some("one"), None, None)),
        Err(LyricsError::Misc("boom".to_string())),
    ]);
    let req = any_request();
    assert_eq!(
        Some("one".to_owned()),
        remote.get_lyrics(&req).unwrap().synced_lyrics
    );
    assert!(matches!(
        remote.get_lyrics(&req),
        Err(LyricsError::Misc(_))
    ));
    assert!(matches!(
        remote.get_lyrics(&req),
        Err(LyricsError::Misc(_))
    ));
    assert_eq!(3, remote.call_count());
}

#[test]
fn lyrics_response_equality_is_by_contents() {
    assert_eq!(
        response(Some("s"), None, Some(false)),
        response(Some("s"), None, Some(false))
    );
    assert_ne!(
        response(Some("s"), None, Some(false)),
        response(Some("t"), None, Some(false))
    );
}
