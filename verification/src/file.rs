//! Track classification: deciding, per filesystem entry, whether to attempt
//! a tag read, and turning recovered tags into a lyrics request.

use vstd::prelude::*;
use vstd::string::StrSliceExecFns;
use vstd::string::StringExecFns;

use crate::cli::Cli;
use crate::cli::FileMatchStrictness;
use crate::cli::LrcAcquireBehavior;
use crate::fs_state::FsState;
use crate::remote::LyricsRequest;

verus! {

// ---------------------------------------------------------------------------
// Sidecar path naming
// ---------------------------------------------------------------------------

/// Index of the `.` introducing the extension of the final path component:
/// the last `.` of the path, provided no `/` follows it and it is neither the
/// first character of the component nor the start of the path. A leading dot
/// marks a hidden file, not an empty stem.
pub open spec fn ext_dot_at(p: Seq<char>) -> Option<int>
    decreases p.len(),
{
    if p.len() == 0 {
        None
    } else if p.last() == '/' {
        None
    } else if p.last() == '.' {
        if p.len() >= 2 && p[p.len() - 2] != '/' {
            Some(p.len() - 1)
        } else {
            None
        }
    } else {
        ext_dot_at(p.drop_last())
    }
}

/// The extension separator, when present, lies strictly inside the path.
pub proof fn lemma_ext_dot_at_range(p: Seq<char>)
    ensures
        match ext_dot_at(p) {
            Some(i) => 1 <= i < p.len(),
            None => true,
        },
    decreases p.len(),
{
    if p.len() > 0 && p.last() != '/' && p.last() != '.' {
        lemma_ext_dot_at_range(p.drop_last());
    }
}

/// The path with its extension replaced by `e` — or `.e` appended when the
/// final component has no extension. `name.flac` maps to `name.lrc` and
/// `name.nolrc`; this naming convention is the whole coupling between a track
/// and its sidecars.
pub open spec fn with_ext(p: Seq<char>, e: Seq<char>) -> Seq<char> {
    match ext_dot_at(p) {
        Some(i) => p.take(i) + seq!['.'] + e,
        None => p + seq!['.'] + e,
    }
}

/// The extension of the final path component, when it has one.
pub open spec fn extension_of(p: Seq<char>) -> Option<Seq<char>> {
    match ext_dot_at(p) {
        Some(i) => Some(p.skip(i + 1)),
        None => None,
    }
}

/// Replacing the extension with names of different lengths never yields the
/// same path, so a track's two sidecar paths are always distinct.
pub proof fn lemma_with_ext_injective_ext(p: Seq<char>, e1: Seq<char>, e2: Seq<char>)
    requires
        e1.len() != e2.len(),
    ensures
        with_ext(p, e1) != with_ext(p, e2),
{
    lemma_ext_dot_at_range(p);
    assert(with_ext(p, e1).len() != with_ext(p, e2).len());
}

/// Exec computation of [`with_ext`].
pub fn with_extension(path: &str, ext: &str) -> (r: String)
    ensures
        r@ == with_ext(path@, ext@),
{
    let n = path.unicode_len();
    let mut i = n;
    let mut cut = n;
    let ghost p = path@;
    proof {
        assert(p.take(n as int) =~= p);
    }
    loop
        invariant_except_break
            cut == n,
        invariant
            i <= n,
            n == p.len(),
            p == path@,
            ext_dot_at(p) == ext_dot_at(p.take(i as int)),
        ensures
            cut <= n,
            match ext_dot_at(p) {
                Some(d) => cut == d,
                None => cut == n,
            },
        decreases i,
    {
        if i == 0 {
            proof {
                assert(p.take(0) =~= Seq::<char>::empty());
            }
            break;
        }
        let c = path.get_char(i - 1);
        proof {
            assert(p.take(i as int).last() == p[i - 1]);
        }
        if c == '/' {
            break;
        }
        if c == '.' {
            if i >= 2 && path.get_char(i - 2) != '/' {
                proof {
                    assert(p.take(i as int)[i - 2] == p[i - 2]);
                }
                cut = i - 1;
            } else {
                proof {
                    if i >= 2 {
                        assert(p.take(i as int)[i - 2] == p[i - 2]);
                    }
                }
            }
            break;
        }
        proof {
            assert(p.take(i as int).drop_last() =~= p.take(i - 1));
        }
        i = i - 1;
    }
    let mut r = String::from_str(path.substring_char(0, cut));
    r.append(".");
    r.append(ext);
    proof {
        reveal_strlit(".");
        assert(r@ =~= with_ext(path@, ext@));
    }
    r
}

/// ASCII lowering of a single character; anything but `A`–`Z` is unchanged.
pub open spec fn lower_char(c: char) -> char {
    if c == 'A' { 'a' } else if c == 'B' { 'b' } else if c == 'C' { 'c' }
    else if c == 'D' { 'd' } else if c == 'E' { 'e' } else if c == 'F' { 'f' }
    else if c == 'G' { 'g' } else if c == 'H' { 'h' } else if c == 'I' { 'i' }
    else if c == 'J' { 'j' } else if c == 'K' { 'k' } else if c == 'L' { 'l' }
    else if c == 'M' { 'm' } else if c == 'N' { 'n' } else if c == 'O' { 'o' }
    else if c == 'P' { 'p' } else if c == 'Q' { 'q' } else if c == 'R' { 'r' }
    else if c == 'S' { 's' } else if c == 'T' { 't' } else if c == 'U' { 'u' }
    else if c == 'V' { 'v' } else if c == 'W' { 'w' } else if c == 'X' { 'x' }
    else if c == 'Y' { 'y' } else if c == 'Z' { 'z' } else { c }
}

/// Equality of a sequence against a lowercase candidate, up to ASCII case.
pub open spec fn eq_ignore_ascii_case(s: Seq<char>, lower: Seq<char>) -> bool {
    s.len() == lower.len() && forall|k: int| 0 <= k < s.len() ==> lower_char(s[k]) == lower[k]
}

fn lower_char_exec(c: char) -> (r: char)
    ensures
        r == lower_char(c),
{
    match c {
        'A' => 'a', 'B' => 'b', 'C' => 'c', 'D' => 'd', 'E' => 'e', 'F' => 'f',
        'G' => 'g', 'H' => 'h', 'I' => 'i', 'J' => 'j', 'K' => 'k', 'L' => 'l',
        'M' => 'm', 'N' => 'n', 'O' => 'o', 'P' => 'p', 'Q' => 'q', 'R' => 'r',
        'S' => 's', 'T' => 't', 'U' => 'u', 'V' => 'v', 'W' => 'w', 'X' => 'x',
        'Y' => 'y', 'Z' => 'z',
        _ => c,
    }
}

/// Whether `s` equals `lower` up to ASCII case. `lower` must already be
/// lowercase for the comparison to mean what its name says.
fn eq_ignore_case(s: &str, lower: &str) -> (r: bool)
    ensures
        r == eq_ignore_ascii_case(s@, lower@),
{
    let n = s.unicode_len();
    if n != lower.unicode_len() {
        return false;
    }
    let mut k: usize = 0;
    while k < n
        invariant
            k <= n,
            n == s@.len(),
            n == lower@.len(),
            forall|j: int| 0 <= j < k ==> lower_char(s@[j]) == lower@[j],
        decreases n - k,
    {
        if lower_char_exec(s.get_char(k)) != lower.get_char(k) {
            return false;
        }
        k += 1;
    }
    true
}

/// The fixed audio-extension set, compared case-insensitively.
pub open spec fn is_audio_extension(e: Seq<char>) -> bool {
    ||| eq_ignore_ascii_case(e, "aac"@)
    ||| eq_ignore_ascii_case(e, "alac"@)
    ||| eq_ignore_ascii_case(e, "flac"@)
    ||| eq_ignore_ascii_case(e, "mp3"@)
    ||| eq_ignore_ascii_case(e, "ogg"@)
    ||| eq_ignore_ascii_case(e, "opus"@)
    ||| eq_ignore_ascii_case(e, "wav"@)
}

/// Whether the path's extension is in the audio-extension set.
pub open spec fn spec_ext_matches(p: Seq<char>) -> bool {
    match extension_of(p) {
        Some(e) => is_audio_extension(e),
        None => false,
    }
}

/// Exec computation of [`spec_ext_matches`].
pub fn ext_matches(path: &str) -> (r: bool)
    ensures
        r == spec_ext_matches(path@),
{
    let n = path.unicode_len();
    let mut i = n;
    let ghost p = path@;
    proof {
        assert(p.take(n as int) =~= p);
    }
    loop
        invariant
            i <= n,
            n == p.len(),
            p == path@,
            ext_dot_at(p) == ext_dot_at(p.take(i as int)),
        decreases i,
    {
        if i == 0 {
            proof {
                assert(p.take(0) =~= Seq::<char>::empty());
            }
            return false;
        }
        let c = path.get_char(i - 1);
        proof {
            assert(p.take(i as int).last() == p[i - 1]);
        }
        if c == '/' {
            return false;
        }
        if c == '.' {
            if i >= 2 && path.get_char(i - 2) != '/' {
                proof {
                    assert(p.take(i as int)[i - 2] == p[i - 2]);
                }
                let ext = path.substring_char(i, n);
                proof {
                    assert(ext@ =~= p.skip(i as int));
                }
                return eq_ignore_case(ext, "aac") || eq_ignore_case(ext, "alac")
                    || eq_ignore_case(ext, "flac") || eq_ignore_case(ext, "mp3")
                    || eq_ignore_case(ext, "ogg") || eq_ignore_case(ext, "opus")
                    || eq_ignore_case(ext, "wav");
            }
            proof {
                if i >= 2 {
                    assert(p.take(i as int)[i - 2] == p[i - 2]);
                }
            }
            return false;
        }
        proof {
            assert(p.take(i as int).drop_last() =~= p.take(i - 1));
        }
        i = i - 1;
    }
}

// ---------------------------------------------------------------------------
// Sidecar presence
// ---------------------------------------------------------------------------

/// The lyrics sidecar path of a track.
pub open spec fn lrc_path(p: Seq<char>) -> Seq<char> {
    with_ext(p, "lrc"@)
}

/// The absence-sentinel path of a track.
pub open spec fn nolrc_path(p: Seq<char>) -> Seq<char> {
    with_ext(p, "nolrc"@)
}

/// A track's two sidecar paths never coincide.
pub proof fn lemma_sidecar_paths_distinct(p: Seq<char>)
    ensures
        lrc_path(p) != nolrc_path(p),
{
    reveal_strlit("lrc");
    reveal_strlit("nolrc");
    lemma_with_ext_injective_ext(p, "lrc"@, "nolrc"@);
}

/// A lyrics sidecar path never coincides with an absence-sentinel path,
/// whatever tracks the two come from: the two extensions differ in length,
/// so the dot of the shorter one would have to sit where the longer one has
/// the letter `o`.
pub proof fn lemma_lrc_never_meets_nolrc(p1: Seq<char>, p2: Seq<char>)
    ensures
        lrc_path(p1) != nolrc_path(p2),
{
    reveal_strlit("lrc");
    reveal_strlit("nolrc");
    let s1 = lrc_path(p1);
    let s2 = nolrc_path(p2);
    if s1 == s2 {
        let pre1 = match ext_dot_at(p1) {
            Some(i) => p1.take(i),
            None => p1,
        };
        let pre2 = match ext_dot_at(p2) {
            Some(i) => p2.take(i),
            None => p2,
        };
        lemma_ext_dot_at_range(p1);
        lemma_ext_dot_at_range(p2);
        assert(s1.len() == pre1.len() + 4);
        assert(s2.len() == pre2.len() + 6);
        assert(pre1.len() == pre2.len() + 2);
        assert(s1[pre1.len() as int] == '.');
        assert(s2[pre2.len() + 2int] == "nolrc"@[1]);
        assert("nolrc"@[1] == 'o');
        assert(false);
    }
}

/// Tracks whose lyrics-sidecar paths differ also have differing sentinel
/// paths: both sidecar names are the track's stem plus a fixed extension.
pub proof fn lemma_distinct_lrc_distinct_nolrc(p1: Seq<char>, p2: Seq<char>)
    requires
        lrc_path(p1) != lrc_path(p2),
    ensures
        nolrc_path(p1) != nolrc_path(p2),
{
    reveal_strlit("lrc");
    reveal_strlit("nolrc");
    if nolrc_path(p1) == nolrc_path(p2) {
        let pre1 = match ext_dot_at(p1) {
            Some(i) => p1.take(i),
            None => p1,
        };
        let pre2 = match ext_dot_at(p2) {
            Some(i) => p2.take(i),
            None => p2,
        };
        lemma_ext_dot_at_range(p1);
        lemma_ext_dot_at_range(p2);
        assert(nolrc_path(p1).len() == pre1.len() + 6);
        assert(nolrc_path(p2).len() == pre2.len() + 6);
        assert(pre1.len() == pre2.len());
        assert(nolrc_path(p1).take(pre1.len() as int) =~= pre1);
        assert(nolrc_path(p2).take(pre2.len() as int) =~= pre2);
        assert(pre1 == pre2);
        assert(lrc_path(p1) =~= lrc_path(p2));
        assert(false);
    }
}

/// Whether the track at `path` already has a lyrics sidecar; `path` itself
/// is turned into that sidecar path, as a scratch value for the caller.
pub fn has_lrc(fs: &FsState, path: &mut String) -> (r: bool)
    requires
        fs.wf(),
    ensures
        final(path)@ == lrc_path(old(path)@),
        r == fs@.dom().contains(lrc_path(old(path)@)),
{
    let p = with_extension(path.as_str(), "lrc");
    let r = fs.contains_path(&p);
    *path = p;
    r
}

/// Whether the track at `path` already has an absence sentinel; `path`
/// itself is turned into that sidecar path, as a scratch value for the
/// caller.
pub fn has_nolrc(fs: &FsState, path: &mut String) -> (r: bool)
    requires
        fs.wf(),
    ensures
        final(path)@ == nolrc_path(old(path)@),
        r == fs@.dom().contains(nolrc_path(old(path)@)),
{
    let p = with_extension(path.as_str(), "nolrc");
    let r = fs.contains_path(&p);
    *path = p;
    r
}

// ---------------------------------------------------------------------------
// Classification policy
// ---------------------------------------------------------------------------

/// Which existing sidecar states make the acquisition policy skip a track
/// before any tag read is attempted.
pub open spec fn spec_skip_by_behavior(
    b: LrcAcquireBehavior,
    fs: Map<Seq<char>, Seq<char>>,
    p: Seq<char>,
) -> bool {
    match b {
        LrcAcquireBehavior::All => false,
        LrcAcquireBehavior::OverwriteExceptNolrc => fs.dom().contains(nolrc_path(p)),
        LrcAcquireBehavior::LrcMissingAll => fs.dom().contains(lrc_path(p)),
        LrcAcquireBehavior::LrcMissing => fs.dom().contains(lrc_path(p)) || fs.dom().contains(
            nolrc_path(p),
        ),
    }
}

/// The acquisition policy over plain presence facts, for a caller that has
/// already checked which sidecars exist: whether the track is skipped.
pub fn skip_by_sidecars(b: LrcAcquireBehavior, lrc_exists: bool, nolrc_exists: bool) -> (r: bool)
    ensures
        r == match b {
            LrcAcquireBehavior::All => false,
            LrcAcquireBehavior::OverwriteExceptNolrc => nolrc_exists,
            LrcAcquireBehavior::LrcMissingAll => lrc_exists,
            LrcAcquireBehavior::LrcMissing => lrc_exists || nolrc_exists,
        },
{
    match b {
        LrcAcquireBehavior::All => false,
        LrcAcquireBehavior::OverwriteExceptNolrc => nolrc_exists,
        LrcAcquireBehavior::LrcMissingAll => lrc_exists,
        LrcAcquireBehavior::LrcMissing => lrc_exists || nolrc_exists,
    }
}

/// Exec evaluation of the acquisition policy: true when the track passes.
pub fn acquire_filter_pass(b: LrcAcquireBehavior, fs: &FsState, path: &String) -> (r: bool)
    requires
        fs.wf(),
    ensures
        r == !spec_skip_by_behavior(b, fs@, path@),
{
    match b {
        LrcAcquireBehavior::All => true,
        LrcAcquireBehavior::OverwriteExceptNolrc => {
            let mut scratch = path.clone();
            !has_nolrc(fs, &mut scratch)
        },
        LrcAcquireBehavior::LrcMissingAll => {
            let mut scratch = path.clone();
            !has_lrc(fs, &mut scratch)
        },
        LrcAcquireBehavior::LrcMissing => {
            let mut scratch = path.clone();
            let lrc = has_lrc(fs, &mut scratch);
            let mut scratch2 = path.clone();
            let nolrc = has_nolrc(fs, &mut scratch2);
            !lrc && !nolrc
        },
    }
}

/// Which tag read, if any, the strictness policy asks for.
#[derive(Clone, Copy, Debug, PartialEq, Eq, Structural)]
pub enum ProbeKind {
    /// Do not read this file at all.
    Skip,
    /// The fast, extension-trusting tag read.
    Shallow,
    /// The slower open-sniff-parse read that ignores the extension.
    Deep,
}

/// The strictness policy: lenient matching always does the fast read,
/// extension filtering skips non-audio extensions, and paranoid matching
/// always pays for the probing read.
pub open spec fn spec_probe_plan(s: FileMatchStrictness, ext_ok: bool) -> ProbeKind {
    match s {
        FileMatchStrictness::TrustyGuesser => ProbeKind::Shallow,
        FileMatchStrictness::FilterByExt => if ext_ok {
            ProbeKind::Shallow
        } else {
            ProbeKind::Skip
        },
        FileMatchStrictness::Paranoid => ProbeKind::Deep,
    }
}

/// Exec evaluation of [`spec_probe_plan`].
pub fn probe_plan(s: FileMatchStrictness, ext_ok: bool) -> (r: ProbeKind)
    ensures
        r == spec_probe_plan(s, ext_ok),
{
    match s {
        FileMatchStrictness::TrustyGuesser => ProbeKind::Shallow,
        FileMatchStrictness::FilterByExt => if ext_ok {
            ProbeKind::Shallow
        } else {
            ProbeKind::Skip
        },
        FileMatchStrictness::Paranoid => ProbeKind::Deep,
    }
}

// ---------------------------------------------------------------------------
// Entries and tag outcomes
// ---------------------------------------------------------------------------

/// The optional strings a tag read recovers.
#[derive(Debug)]
pub struct TagSet {
    pub artist: Option<String>,
    pub title: Option<String>,
    pub album: Option<String>,
}

/// What the tag-reading collaborator reported for one file.
#[derive(Debug)]
pub enum TagOutcome {
    /// Tags were decoded (possibly sparse).
    Tags(TagSet),
    /// The decoder rejected the file (its message).
    DecodeError(String),
    /// Opening or sniffing the file failed before decoding (the message).
    IoError(String),
}

/// One filesystem entry the walker produced, together with what a tag read
/// of it reports.
#[derive(Debug)]
pub struct TrackEntry {
    pub path: String,
    pub is_file: bool,
    pub tags: TagOutcome,
}

/// One item of the walker's output stream: an entry, or a traversal error.
#[derive(Debug)]
pub enum WalkEvent {
    Entry(TrackEntry),
    /// Permission failures, broken symlinks and the like; never fatal.
    Error(String),
}

/// Everything that can go wrong preparing one track's request.
#[derive(Debug)]
pub enum PackError {
    /// The tag decoder rejected the file.
    Lofty { path: String, message: String },
    /// Opening or sniffing the file failed.
    Io(String),
    /// Tags were decoded but a mandatory field is missing; carries whichever
    /// fields were actually recovered, for diagnostics.
    RequestPrepare { artist: Option<String>, title: Option<String> },
    /// The walker could not produce this entry.
    Ignore(String),
}

/// The run aborts before any work when no root paths were given.
#[derive(Clone, Copy, Debug, PartialEq, Eq, Structural)]
pub struct NoPathsError;

/// What flows from the walker to the orchestrator, per track: the prepared
/// request and the track's path, or the error that stopped preparation.
pub type PackResult = Result<(LyricsRequest, String), PackError>;

// ---------------------------------------------------------------------------
// Request preparation
// ---------------------------------------------------------------------------

/// A mandatory tag counts as recovered only when present and non-empty.
pub open spec fn tag_present(o: Option<String>) -> bool {
    match o {
        Some(s) => s@.len() > 0,
        None => false,
    }
}

/// The diagnostic form of a recovered tag: an empty string is no recovery.
pub open spec fn norm_tag(o: Option<String>) -> Option<String> {
    match o {
        Some(s) => if s@.len() > 0 {
            Some(s)
        } else {
            None
        },
        None => None,
    }
}

fn normalize_tag(o: Option<String>) -> (r: Option<String>)
    ensures
        r == norm_tag(o),
{
    match o {
        Some(s) => if !s.as_str().is_empty() {
            Some(s)
        } else {
            None
        },
        None => None,
    }
}

/// Build the lookup request from a decoded tag set. Succeeds exactly when
/// both mandatory fields were recovered; the failure carries whatever was.
pub fn prepare_lyrics_request(tags: TagSet) -> (r: Result<LyricsRequest, PackError>)
    ensures
        match r {
            Ok(req) => {
                &&& tag_present(tags.title)
                &&& tag_present(tags.artist)
                &&& Some(req.title) == tags.title
                &&& Some(req.artist) == tags.artist
                &&& req.album == tags.album
                &&& req.duration is None
                &&& req.wf()
            },
            Err(e) => {
                &&& !(tag_present(tags.title) && tag_present(tags.artist))
                &&& e == (PackError::RequestPrepare {
                    artist: norm_tag(tags.artist),
                    title: norm_tag(tags.title),
                })
            },
        },
{
    let TagSet { artist, title, album } = tags;
    let artist = normalize_tag(artist);
    let title = normalize_tag(title);
    match (title, artist) {
        (Some(title), Some(artist)) => Ok(
            LyricsRequest { artist, title, album, duration: None },
        ),
        (title, artist) => Err(PackError::RequestPrepare { artist, title }),
    }
}

// ---------------------------------------------------------------------------
// Classification of one entry
// ---------------------------------------------------------------------------

/// How the classifier disposes of one entry.
#[derive(Clone, Copy, Debug, PartialEq, Eq, Structural)]
pub enum ClassifyKind {
    /// Not a file, filtered by policy, or skipped by strictness: no work.
    Skip,
    /// The entry should have yielded a request but could not; an error is
    /// reported and the walk goes on.
    Reject,
    /// A request is emitted for this track.
    Accept,
}

/// The classifier's decision for one entry, over the filesystem as the walk
/// sees it.
pub open spec fn spec_classify(e: TrackEntry, cli: Cli, fs: Map<Seq<char>, Seq<char>>) -> ClassifyKind {
    if !e.is_file {
        ClassifyKind::Skip
    } else if spec_skip_by_behavior(cli.lrc_acquire_behavior, fs, e.path@) {
        ClassifyKind::Skip
    } else if spec_probe_plan(cli.strictness, spec_ext_matches(e.path@)) == ProbeKind::Skip {
        ClassifyKind::Skip
    } else {
        match e.tags {
            TagOutcome::Tags(ts) => if tag_present(ts.title) && tag_present(ts.artist) {
                ClassifyKind::Accept
            } else {
                ClassifyKind::Reject
            },
            TagOutcome::DecodeError(_) => ClassifyKind::Reject,
            TagOutcome::IoError(_) => ClassifyKind::Reject,
        }
    }
}

/// Classify one entry: decide whether to skip it, reject it with a
/// diagnostic, or emit the prepared request for it. The sidecar-based
/// acquisition filter runs before any tag outcome is consulted.
pub fn from_entry(entry: &TrackEntry, cli: &Cli, fs: &FsState) -> (r: Result<
    Option<(LyricsRequest, String)>,
    PackError,
>)
    requires
        fs.wf(),
    ensures
        match r {
            Ok(None) => spec_classify(*entry, *cli, fs@) == ClassifyKind::Skip,
            Ok(Some(pair)) => {
                &&& spec_classify(*entry, *cli, fs@) == ClassifyKind::Accept
                &&& pair.1@ == entry.path@
                &&& pair.0.wf()
                &&& entry.tags matches TagOutcome::Tags(ts) && Some(pair.0.title) == ts.title
                    && Some(pair.0.artist) == ts.artist && pair.0.album == ts.album
                    && pair.0.duration is None
            },
            Err(e) => {
                &&& spec_classify(*entry, *cli, fs@) == ClassifyKind::Reject
                &&& match entry.tags {
                    TagOutcome::Tags(ts) => e == (PackError::RequestPrepare {
                        artist: norm_tag(ts.artist),
                        title: norm_tag(ts.title),
                    }),
                    TagOutcome::DecodeError(m) => e == (PackError::Lofty {
                        path: entry.path,
                        message: m,
                    }),
                    TagOutcome::IoError(m) => e == (PackError::Io(m)),
                }
            },
        },
{
    if !entry.is_file {
        return Ok(None);
    }
    if !acquire_filter_pass(cli.lrc_acquire_behavior, fs, &entry.path) {
        return Ok(None);
    }
    let ext_ok = ext_matches(entry.path.as_str());
    match probe_plan(cli.strictness, ext_ok) {
        ProbeKind::Skip => Ok(None),
        ProbeKind::Shallow | ProbeKind::Deep => match &entry.tags {
            TagOutcome::Tags(ts) => {
                let tags = TagSet {
                    artist: clone_opt_string(&ts.artist),
                    title: clone_opt_string(&ts.title),
                    album: clone_opt_string(&ts.album),
                };
                match prepare_lyrics_request(tags) {
                    Ok(req) => Ok(Some((req, entry.path.clone()))),
                    Err(e) => Err(e),
                }
            },
            TagOutcome::DecodeError(m) => Err(
                PackError::Lofty { path: entry.path.clone(), message: m.clone() },
            ),
            TagOutcome::IoError(m) => Err(PackError::Io(m.clone())),
        },
    }
}

fn clone_opt_string(o: &Option<String>) -> (r: Option<String>)
    ensures
        r == *o,
{
    match o {
        Some(s) => Some(s.clone()),
        None => None,
    }
}

// ---------------------------------------------------------------------------
// Preparing the whole stream
// ---------------------------------------------------------------------------

/// What one walk event contributes to the pack stream: nothing for a skip,
/// a failed pack for errors and rejections, an admitted pack — recorded by
/// its track path — for an accepted entry.
pub open spec fn pack_contrib(ev: WalkEvent, cli: Cli, fs: Map<Seq<char>, Seq<char>>) -> Seq<
    Option<Seq<char>>,
> {
    match ev {
        WalkEvent::Entry(e) => match spec_classify(e, cli, fs) {
            ClassifyKind::Skip => Seq::empty(),
            ClassifyKind::Reject => seq![None],
            ClassifyKind::Accept => seq![Some(e.path@)],
        },
        WalkEvent::Error(_) => seq![None],
    }
}

/// The shape of the pack stream a walk produces: one element per emitted
/// pack, `Some(path)` for an admitted track and `None` for a failed pack.
pub open spec fn pack_plan(events: Seq<WalkEvent>, cli: Cli, fs: Map<Seq<char>, Seq<char>>) -> Seq<
    Option<Seq<char>>,
>
    decreases events.len(),
{
    if events.len() == 0 {
        Seq::empty()
    } else {
        pack_plan(events.drop_last(), cli, fs) + pack_contrib(events.last(), cli, fs)
    }
}

/// A track that already carries a sidecar — lyrics or absence sentinel —
/// is skipped outright under the default `LrcMissing` acquisition policy,
/// before any tag read and before any fetch.
pub proof fn lemma_resolved_track_skipped(e: TrackEntry, cli: Cli, fs: Map<Seq<char>, Seq<char>>)
    requires
        cli.lrc_acquire_behavior == LrcAcquireBehavior::LrcMissing,
        e.is_file ==> fs.dom().contains(lrc_path(e.path@)) || fs.dom().contains(
            nolrc_path(e.path@),
        ),
    ensures
        spec_classify(e, cli, fs) == ClassifyKind::Skip,
{
}

/// Under `LrcMissing`, every admitted track started with neither sidecar.
pub proof fn lemma_plan_admitted_clean(
    events: Seq<WalkEvent>,
    cli: Cli,
    fs: Map<Seq<char>, Seq<char>>,
)
    requires
        cli.lrc_acquire_behavior == LrcAcquireBehavior::LrcMissing,
    ensures
        forall|k: int|
            0 <= k < pack_plan(events, cli, fs).len() ==> (#[trigger] pack_plan(
                events,
                cli,
                fs,
            )[k] matches Some(p) ==> !fs.dom().contains(lrc_path(p)) && !fs.dom().contains(
                nolrc_path(p),
            )),
    decreases events.len(),
{
    if events.len() > 0 {
        lemma_plan_admitted_clean(events.drop_last(), cli, fs);
        let prefix = pack_plan(events.drop_last(), cli, fs);
        let last_part = pack_contrib(events.last(), cli, fs);
        assert forall|k: int|
            0 <= k < pack_plan(events, cli, fs).len() implies (#[trigger] pack_plan(
            events,
            cli,
            fs,
        )[k] matches Some(p) ==> !fs.dom().contains(lrc_path(p)) && !fs.dom().contains(
            nolrc_path(p),
        )) by {
            if k < prefix.len() {
                assert(pack_plan(events, cli, fs)[k] == prefix[k]);
            } else {
                assert(pack_plan(events, cli, fs)[k] == last_part[k - prefix.len()]);
            }
        }
    }
}

/// Walk the event stream and classify every entry, producing the pack
/// stream the orchestrator consumes. Fails — before any work — exactly when
/// no root paths were configured.
pub fn prepare_entries(fs: &FsState, events: &Vec<WalkEvent>, cli: &Cli) -> (r: Result<
    Vec<PackResult>,
    NoPathsError,
>)
    requires
        fs.wf(),
    ensures
        r is Err <==> cli.paths@.len() == 0,
        match r {
            Ok(packs) => {
                let plan = pack_plan(events@, *cli, fs@);
                &&& packs@.len() == plan.len()
                &&& forall|k: int|
                    0 <= k < plan.len() ==> match #[trigger] plan[k] {
                        Some(p) => packs@[k] matches Ok(pr) && pr.1@ == p && pr.0.wf(),
                        None => packs@[k] is Err,
                    }
            },
            Err(e) => e == NoPathsError,
        },
{
    if cli.paths.len() == 0 {
        return Err(NoPathsError);
    }
    let mut packs: Vec<PackResult> = Vec::new();
    let n = events.len();
    let mut i: usize = 0;
    while i < n
        invariant
            i <= n,
            n == events@.len(),
            fs.wf(),
            packs@.len() == pack_plan(events@.take(i as int), *cli, fs@).len(),
            forall|k: int|
                0 <= k < packs@.len() ==> match #[trigger] pack_plan(
                    events@.take(i as int),
                    *cli,
                    fs@,
                )[k] {
                    Some(p) => packs@[k] matches Ok(pr) && pr.1@ == p && pr.0.wf(),
                    None => packs@[k] is Err,
                },
        decreases n - i,
    {
        let ghost prefix = events@.take(i as int);
        let ghost prefix1 = events@.take(i + 1);
        proof {
            assert(prefix1.drop_last() =~= prefix);
            assert(prefix1.last() == events@[i as int]);
        }
        match &events[i] {
            WalkEvent::Entry(e) => {
                match from_entry(e, cli, fs) {
                    Ok(None) => {},
                    Ok(Some(pair)) => {
                        packs.push(Ok(pair));
                    },
                    Err(er) => {
                        packs.push(Err(er));
                    },
                }
            },
            WalkEvent::Error(m) => {
                packs.push(Err(PackError::Ignore(m.clone())));
            },
        }
        i += 1;
    }
    proof {
        assert(events@.take(n as int) =~= events@);
    }
    Ok(packs)
}

} // verus!
