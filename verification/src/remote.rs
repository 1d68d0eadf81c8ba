//! The remote lyrics lookup interface: request and response shapes, the
//! error taxonomy, and the [`Remote`] abstraction the orchestrator fetches
//! through.

use vstd::prelude::*;
use vstd::string::StringExecFns;

pub mod duration_secs;
pub mod test;

use duration_secs::DurationSecs;

verus! {

fn opt_u64_eq(a: &Option<u64>, b: &Option<u64>) -> (r: bool)
    ensures
        r == (*a == *b),
{
    match (a, b) {
        (Some(x), Some(y)) => *x == *y,
        (None, None) => true,
        _ => false,
    }
}

fn opt_bool_eq(a: &Option<bool>, b: &Option<bool>) -> (r: bool)
    ensures
        r == (*a == *b),
{
    match (a, b) {
        (Some(x), Some(y)) => *x == *y,
        (None, None) => true,
        _ => false,
    }
}

/// The lookup key sent to the remote service. `artist` and `title` are
/// mandatory and non-empty by construction; `album` and `duration` are
/// best-effort refinements.
#[derive(Debug)]
pub struct LyricsRequest {
    pub artist: String,
    pub title: String,
    pub album: Option<String>,
    pub duration: Option<DurationSecs>,
}

impl LyricsRequest {
    /// Request preparation only ever hands out requests with both mandatory
    /// fields non-empty; a request violating this is a programming error.
    pub open spec fn wf(&self) -> bool {
        self.artist@.len() > 0 && self.title@.len() > 0
    }
}

impl PartialEq for LyricsRequest {
    fn eq(&self, other: &Self) -> (r: bool) {
        self.artist == other.artist && self.title == other.title
            && match (&self.album, &other.album) {
                (Some(a), Some(b)) => *a == *b,
                (None, None) => true,
                _ => false,
            }
            && match (&self.duration, &other.duration) {
                (Some(a), Some(b)) => *a == *b,
                (None, None) => true,
                _ => false,
            }
    }
}

impl vstd::std_specs::cmp::PartialEqSpecImpl for LyricsRequest {
    open spec fn obeys_eq_spec() -> bool {
        true
    }

    open spec fn eq_spec(&self, other: &Self) -> bool {
        &&& self.artist@ == other.artist@
        &&& self.title@ == other.title@
        &&& match (self.album, other.album) {
            (Some(a), Some(b)) => a@ == b@,
            (None, None) => true,
            _ => false,
        }
        &&& self.duration == other.duration
    }
}

/// Everything the remote service reports about a track. The service may
/// return a sparse match: besides the `title`/`artist` pairing, every field
/// is optional.
#[derive(Debug)]
pub struct LyricsResponse {
    pub id: Option<u64>,
    pub title: String,
    pub artist: String,
    pub album: Option<String>,
    /// Track duration, parsed from seconds.
    pub duration: Option<DurationSecs>,
    pub instrumental: Option<bool>,
    pub plain_lyrics: Option<String>,
    pub synced_lyrics: Option<String>,
}

impl LyricsResponse {
    /// The lyrics this response settles on: synced lyrics when present,
    /// otherwise plain lyrics — and nothing at all for a track the service
    /// marks instrumental.
    pub open spec fn chosen(self) -> Option<Seq<char>> {
        if self.instrumental == Some(true) {
            None
        } else {
            match self.synced_lyrics {
                Some(s) => Some(s@),
                None => match self.plain_lyrics {
                    Some(s) => Some(s@),
                    None => None,
                },
            }
        }
    }

    /// Exec selection of the lyrics to persist, per [`LyricsResponse::chosen`].
    pub fn chosen_lyrics(&self) -> (r: Option<&String>)
        ensures
            match r {
                Some(s) => self.chosen() == Some(s@),
                None => self.chosen() is None,
            },
    {
        match self.instrumental {
            Some(true) => None,
            _ => match &self.synced_lyrics {
                Some(s) => Some(s),
                None => match &self.plain_lyrics {
                    Some(s) => Some(s),
                    None => None,
                },
            },
        }
    }

    /// A one-line presentation of the response: the track pairing followed
    /// by whether usable lyrics are present.
    pub fn describe(&self) -> (r: String)
        ensures
            r@ == "title: "@ + self.title@ + ", artist: "@ + self.artist@ + ", "@
                + (if self.chosen() is Some { "LYRICS PRESENT"@ } else { "NO LYRICS"@ }),
    {
        let mut r = String::from_str("title: ");
        r.append(self.title.as_str());
        r.append(", artist: ");
        r.append(self.artist.as_str());
        r.append(", ");
        if self.chosen_lyrics().is_some() {
            r.append("LYRICS PRESENT");
        } else {
            r.append("NO LYRICS");
        }
        r
    }
}

impl Clone for LyricsResponse {
    fn clone(&self) -> (r: Self)
        ensures
            r == *self,
    {
        LyricsResponse {
            id: self.id,
            title: self.title.clone(),
            artist: self.artist.clone(),
            album: match &self.album {
                Some(s) => Some(s.clone()),
                None => None,
            },
            duration: self.duration,
            instrumental: self.instrumental,
            plain_lyrics: match &self.plain_lyrics {
                Some(s) => Some(s.clone()),
                None => None,
            },
            synced_lyrics: match &self.synced_lyrics {
                Some(s) => Some(s.clone()),
                None => None,
            },
        }
    }
}

impl PartialEq for LyricsResponse {
    fn eq(&self, other: &Self) -> (r: bool) {
        opt_u64_eq(&self.id, &other.id) && self.title == other.title
            && self.artist == other.artist
            && match (&self.album, &other.album) {
                (Some(a), Some(b)) => *a == *b,
                (None, None) => true,
                _ => false,
            }
            && match (&self.duration, &other.duration) {
                (Some(a), Some(b)) => *a == *b,
                (None, None) => true,
                _ => false,
            }
            && opt_bool_eq(&self.instrumental, &other.instrumental)
            && match (&self.plain_lyrics, &other.plain_lyrics) {
                (Some(a), Some(b)) => *a == *b,
                (None, None) => true,
                _ => false,
            }
            && match (&self.synced_lyrics, &other.synced_lyrics) {
                (Some(a), Some(b)) => *a == *b,
                (None, None) => true,
                _ => false,
            }
    }
}

impl vstd::std_specs::cmp::PartialEqSpecImpl for LyricsResponse {
    open spec fn obeys_eq_spec() -> bool {
        true
    }

    open spec fn eq_spec(&self, other: &Self) -> bool {
        &&& self.id == other.id
        &&& self.title@ == other.title@
        &&& self.artist@ == other.artist@
        &&& match (self.album, other.album) {
            (Some(a), Some(b)) => a@ == b@,
            (None, None) => true,
            _ => false,
        }
        &&& self.duration == other.duration
        &&& self.instrumental == other.instrumental
        &&& match (self.plain_lyrics, other.plain_lyrics) {
            (Some(a), Some(b)) => a@ == b@,
            (None, None) => true,
            _ => false,
        }
        &&& match (self.synced_lyrics, other.synced_lyrics) {
            (Some(a), Some(b)) => a@ == b@,
            (None, None) => true,
            _ => false,
        }
    }
}

/// The HTTP status the remote service answers with when it knows no lyrics
/// for the requested track.
pub const NOT_FOUND_STATUS: u16 = 404;

/// What can go wrong talking to the remote service.
#[derive(Debug)]
pub enum LyricsError {
    /// The outgoing request could not even be built. Request construction
    /// validates its own fields, so this is a programming-invariant
    /// violation and fatal for the whole process.
    InvalidRequest(String),
    /// Transport-level failure; terminal for this one track only.
    Misc(String),
    /// The service answered with a non-2xx status.
    InvalidStatusCode { status: u16, url: String },
}

impl LyricsError {
    /// The 404-equivalent answer: the service has no lyrics for this track,
    /// which drives the absence-marking branch rather than an error path.
    pub open spec fn is_not_found(&self) -> bool {
        match *self {
            LyricsError::InvalidStatusCode { status, .. } => status == NOT_FOUND_STATUS,
            _ => false,
        }
    }

    /// Exec test for [`LyricsError::is_not_found`].
    pub fn not_found(&self) -> (r: bool)
        ensures
            r == self.is_not_found(),
    {
        match self {
            LyricsError::InvalidStatusCode { status, .. } => *status == NOT_FOUND_STATUS,
            _ => false,
        }
    }
}

impl Clone for LyricsError {
    fn clone(&self) -> (r: Self)
        ensures
            r == *self,
    {
        match self {
            LyricsError::InvalidRequest(s) => LyricsError::InvalidRequest(s.clone()),
            LyricsError::Misc(s) => LyricsError::Misc(s.clone()),
            LyricsError::InvalidStatusCode { status, url } => LyricsError::InvalidStatusCode {
                status: *status,
                url: url.clone(),
            },
        }
    }
}

impl PartialEq for LyricsError {
    fn eq(&self, other: &Self) -> (r: bool) {
        match (self, other) {
            (LyricsError::InvalidRequest(a), LyricsError::InvalidRequest(b)) => *a == *b,
            (LyricsError::Misc(a), LyricsError::Misc(b)) => *a == *b,
            (
                LyricsError::InvalidStatusCode { status: s1, url: u1 },
                LyricsError::InvalidStatusCode { status: s2, url: u2 },
            ) => *s1 == *s2 && *u1 == *u2,
            _ => false,
        }
    }
}

impl vstd::std_specs::cmp::PartialEqSpecImpl for LyricsError {
    open spec fn obeys_eq_spec() -> bool {
        true
    }

    open spec fn eq_spec(&self, other: &Self) -> bool {
        match (*self, *other) {
            (LyricsError::InvalidRequest(a), LyricsError::InvalidRequest(b)) => a@ == b@,
            (LyricsError::Misc(a), LyricsError::Misc(b)) => a@ == b@,
            (
                LyricsError::InvalidStatusCode { status: s1, url: u1 },
                LyricsError::InvalidStatusCode { status: s2, url: u2 },
            ) => s1 == s2 && u1@ == u2@,
            _ => false,
        }
    }
}

/// Gate an HTTP answer on its status: any non-2xx status is the
/// [`LyricsError::InvalidStatusCode`] failure, carrying the status and the
/// endpoint it came from.
pub fn check_status(status: u16, url: &str) -> (r: Result<(), LyricsError>)
    ensures
        r is Ok <==> 200 <= status < 300,
        match r {
            Ok(()) => true,
            Err(e) => e matches LyricsError::InvalidStatusCode { status: s, url: u } && s == status
                && u@ == url@,
        },
{
    if 200 <= status && status < 300 {
        Ok(())
    } else {
        Err(LyricsError::InvalidStatusCode { status, url: String::from_str(url) })
    }
}

/// The remote lyrics lookup, abstracted so the orchestrator can run against
/// the production HTTP client or a scripted stand-in. Implementations expose
/// how many fetches they have answered; the orchestrator's contracts count
/// fetches through this.
pub trait Remote {
    /// How many calls this remote has answered.
    spec fn calls(&self) -> nat;

    /// One stateless lookup. Nothing is promised about the answer — the
    /// service may fail or return an arbitrary match — beyond the call being
    /// counted; the sidecar writer states what happens for every outcome.
    fn get_lyrics(&mut self, req: &LyricsRequest) -> (r: Result<LyricsResponse, LyricsError>)
        requires
            req.wf(),
        ensures
            final(self).calls() == old(self).calls() + 1,
    ;
}

} // verus!
