//! The fetch orchestrator and sidecar writer: consume the pack stream,
//! admit fetches through a bounded gate, and drive every track's sidecar
//! state transition.

use vstd::prelude::*;
use vstd::string::StringExecFns;

use crate::cli::Cli;
use crate::file::lemma_sidecar_paths_distinct;
use crate::file::lrc_path;
use crate::file::nolrc_path;
use crate::file::pack_plan;
use crate::file::prepare_entries;
use crate::file::with_extension;
use crate::file::NoPathsError;
use crate::file::PackResult;
use crate::file::WalkEvent;
use crate::fs_state::FsError;
use crate::fs_state::FsState;
use crate::remote::LyricsError;
use crate::remote::LyricsResponse;
use crate::remote::Remote;

verus! {

// ---------------------------------------------------------------------------
// Admission control
// ---------------------------------------------------------------------------

/// The counting gate that bounds how many fetches are in flight at once. A
/// permit is taken before each remote call and handed back as soon as the
/// call returns — before any filesystem work — so admission only throttles
/// the remote service, never disk writes.
pub struct FetchGate {
    limit: usize,
    in_flight: usize,
    peak: usize,
}

impl FetchGate {
    /// The configured bound.
    pub closed spec fn limit(&self) -> nat {
        self.limit as nat
    }

    /// Permits currently held.
    pub closed spec fn in_flight(&self) -> nat {
        self.in_flight as nat
    }

    /// The most permits ever held at once.
    pub closed spec fn peak(&self) -> nat {
        self.peak as nat
    }

    /// Permits in flight never exceed the bound; neither did the recorded peak.
    pub open spec fn wf(&self) -> bool {
        &&& 1 <= self.limit()
        &&& self.in_flight() <= self.limit()
        &&& self.peak() <= self.limit()
    }

    /// A fresh gate with `limit` permits, none taken.
    pub fn new(limit: usize) -> (g: FetchGate)
        requires
            limit >= 1,
        ensures
            g.wf(),
            g.limit() == limit,
            g.in_flight() == 0,
            g.peak() == 0,
    {
        FetchGate { limit, in_flight: 0, peak: 0 }
    }

    /// Take one permit. A caller may only proceed once a permit is free;
    /// that is the blocking the real semaphore performs.
    pub fn acquire(&mut self)
        requires
            old(self).wf(),
            old(self).in_flight() < old(self).limit(),
        ensures
            final(self).wf(),
            final(self).limit() == old(self).limit(),
            final(self).in_flight() == old(self).in_flight() + 1,
            final(self).peak() == if old(self).in_flight() + 1 > old(self).peak() {
                old(self).in_flight() + 1
            } else {
                old(self).peak()
            },
    {
        self.in_flight = self.in_flight + 1;
        if self.in_flight > self.peak {
            self.peak = self.in_flight;
        }
    }

    /// Hand one permit back.
    pub fn release(&mut self)
        requires
            old(self).wf(),
            old(self).in_flight() >= 1,
        ensures
            final(self).wf(),
            final(self).limit() == old(self).limit(),
            final(self).in_flight() == old(self).in_flight() - 1,
            final(self).peak() == old(self).peak(),
    {
        self.in_flight = self.in_flight - 1;
    }

    /// The most fetches that were ever in flight at once.
    pub fn peak_in_flight(&self) -> (r: usize)
        ensures
            r == self.peak(),
    {
        self.peak
    }
}

/// The admission bound itself: a well-formed gate never has more fetches in
/// flight than its configured limit, and never had.
pub proof fn lemma_admission_bound(g: FetchGate)
    requires
        g.wf(),
    ensures
        g.in_flight() <= g.limit(),
        g.peak() <= g.limit(),
{
}

// ---------------------------------------------------------------------------
// Sidecar writer
// ---------------------------------------------------------------------------

/// What went wrong replacing an absence sentinel with a lyrics sidecar.
#[derive(Clone, Copy, Debug, PartialEq, Eq, Structural)]
pub enum ReplaceNolrcError {
    /// The lyrics sidecar could not be written.
    Write(FsError),
    /// The lyrics sidecar was written but deleting the absence sentinel
    /// failed; [`FsError::NotFound`] here is benign.
    Delete(FsError),
}

/// Write the track's lyrics sidecar — replacing any previous one — then
/// delete its absence sentinel. The lyrics write always comes first, and
/// stands even when the delete finds nothing to remove. `path` becomes the
/// sentinel path, as a scratch value for the caller.
pub fn replace_nolrc(fs: &mut FsState, path: &mut String, lyrics: &str) -> (r: Result<
    (),
    ReplaceNolrcError,
>)
    requires
        old(fs).wf(),
    ensures
        final(fs).wf(),
        final(fs)@ == old(fs)@.insert(lrc_path(old(path)@), lyrics@).remove(
            nolrc_path(old(path)@),
        ),
        final(path)@ == nolrc_path(old(path)@),
        r is Ok <==> old(fs)@.dom().contains(nolrc_path(old(path)@)),
        r is Err ==> r == Result::<(), ReplaceNolrcError>::Err(
            ReplaceNolrcError::Delete(FsError::NotFound),
        ),
{
    proof {
        lemma_sidecar_paths_distinct(path@);
    }
    let lrcp = with_extension(path.as_str(), "lrc");
    let nolrcp = with_extension(path.as_str(), "nolrc");
    fs.write(lrcp, String::from_str(lyrics));
    let r = match fs.remove_file(&nolrcp) {
        Ok(()) => Ok(()),
        Err(_) => Err(ReplaceNolrcError::Delete(FsError::NotFound)),
    };
    *path = nolrcp;
    r
}

/// Create the track's absence sentinel — an empty file — unless it already
/// exists; an existing sentinel is reported, not overwritten. `path` becomes
/// the sentinel path, as a scratch value for the caller.
pub fn create_nolrc(fs: &mut FsState, path: &mut String) -> (r: Result<(), FsError>)
    requires
        old(fs).wf(),
    ensures
        final(fs).wf(),
        final(path)@ == nolrc_path(old(path)@),
        match r {
            Ok(()) => !old(fs)@.dom().contains(nolrc_path(old(path)@)) && final(fs)@ == old(
                fs,
            )@.insert(nolrc_path(old(path)@), Seq::<char>::empty()),
            Err(e) => e == FsError::AlreadyExists && old(fs)@.dom().contains(
                nolrc_path(old(path)@),
            ) && final(fs)@ == old(fs)@,
        },
{
    let nolrcp = with_extension(path.as_str(), "nolrc");
    let r = fs.create_new(nolrcp.clone(), String::new());
    *path = nolrcp;
    r
}

/// Whether a fetch outcome asks for the absence-marking branch: the service
/// answered but settled on no lyrics, or reported not-found.
pub open spec fn spec_wants_absence(outcome: Result<LyricsResponse, LyricsError>) -> bool {
    match outcome {
        Ok(resp) => resp.chosen() is None,
        Err(e) => e.is_not_found(),
    }
}

/// The filesystem mutation a fetch outcome asks for, per track.
pub enum SidecarAction {
    /// Write the lyrics sidecar and clear any absence sentinel.
    WriteLyrics(String),
    /// Create the absence sentinel, if none exists.
    MarkAbsent,
    /// Touch nothing: either absence marking is denied by configuration or
    /// the fetch failed in a way that is terminal for this track only.
    NoAction,
    /// The outgoing request was invalid: a programming-invariant violation
    /// that the caller must treat as fatal for the whole process.
    Fatal,
}

/// Decide, from one fetch outcome, what the sidecar writer must do.
pub fn decide_outcome(outcome: &Result<LyricsResponse, LyricsError>, deny_nolrc: bool) -> (a:
    SidecarAction)
    ensures
        match a {
            SidecarAction::WriteLyrics(l) => outcome matches Ok(resp) && resp.chosen() == Some(
                l@,
            ),
            SidecarAction::MarkAbsent => spec_wants_absence(*outcome) && !deny_nolrc,
            SidecarAction::NoAction => (spec_wants_absence(*outcome) && deny_nolrc) || (
            outcome matches Err(e) && !e.is_not_found() && !(e matches
            LyricsError::InvalidRequest(_))),
            SidecarAction::Fatal => outcome matches Err(LyricsError::InvalidRequest(_)),
        },
{
    match outcome {
        Ok(resp) => match resp.chosen_lyrics() {
            Some(l) => SidecarAction::WriteLyrics(l.clone()),
            None => if deny_nolrc {
                SidecarAction::NoAction
            } else {
                SidecarAction::MarkAbsent
            },
        },
        Err(e) => if e.not_found() {
            if deny_nolrc {
                SidecarAction::NoAction
            } else {
                SidecarAction::MarkAbsent
            }
        } else {
            match e {
                LyricsError::InvalidRequest(_) => SidecarAction::Fatal,
                _ => SidecarAction::NoAction,
            }
        },
    }
}

/// The absence-marking transition: nothing when denied or already marked,
/// otherwise an empty sentinel appears.
pub open spec fn spec_absence(fs: Map<Seq<char>, Seq<char>>, p: Seq<char>, deny: bool) -> Map<
    Seq<char>,
    Seq<char>,
> {
    if deny || fs.dom().contains(nolrc_path(p)) {
        fs
    } else {
        fs.insert(nolrc_path(p), Seq::<char>::empty())
    }
}

/// The full sidecar transition one fetch outcome causes for the track at
/// `p`: found lyrics replace the sidecar pair, a no-lyrics answer marks
/// absence, and every other failure leaves the filesystem untouched.
pub open spec fn spec_apply_one(
    fs: Map<Seq<char>, Seq<char>>,
    p: Seq<char>,
    outcome: Result<LyricsResponse, LyricsError>,
    deny: bool,
) -> Map<Seq<char>, Seq<char>> {
    match outcome {
        Ok(resp) => match resp.chosen() {
            Some(l) => fs.insert(lrc_path(p), l).remove(nolrc_path(p)),
            None => spec_absence(fs, p, deny),
        },
        Err(e) => if e.is_not_found() {
            spec_absence(fs, p, deny)
        } else {
            fs
        },
    }
}

/// How one track's handling ended.
#[derive(Clone, Copy, Debug, PartialEq, Eq, Structural)]
pub enum HandleOutcome {
    /// Lyrics written and a stale absence sentinel deleted.
    ReplacedAbsence,
    /// Lyrics written; there was no absence sentinel to delete.
    WroteLyrics,
    /// Absence sentinel created.
    MarkedAbsent,
    /// Absence sentinel already present and left as it was.
    AbsenceExisted,
    /// No lyrics found, and configuration forbids absence sentinels.
    AbsenceDenied,
    /// Transport or status failure; nothing written, the track stays
    /// unresolved for a future run.
    FetchFailed,
    /// The outgoing request was invalid: the caller must treat this as
    /// fatal for the whole process.
    InvalidRequest,
    /// The pack itself carried an error; nothing was fetched or written.
    PackFailed,
}

/// The outcome [`handle_entry`] reports for a given filesystem and fetch
/// outcome.
pub open spec fn spec_handle_outcome(
    fs: Map<Seq<char>, Seq<char>>,
    p: Seq<char>,
    outcome: Result<LyricsResponse, LyricsError>,
    deny: bool,
) -> HandleOutcome {
    match outcome {
        Ok(resp) => match resp.chosen() {
            Some(_) => if fs.dom().contains(nolrc_path(p)) {
                HandleOutcome::ReplacedAbsence
            } else {
                HandleOutcome::WroteLyrics
            },
            None => spec_absence_outcome(fs, p, deny),
        },
        Err(e) => if e.is_not_found() {
            spec_absence_outcome(fs, p, deny)
        } else if e matches LyricsError::InvalidRequest(_) {
            HandleOutcome::InvalidRequest
        } else {
            HandleOutcome::FetchFailed
        },
    }
}

/// The outcome of the absence-marking branch.
pub open spec fn spec_absence_outcome(
    fs: Map<Seq<char>, Seq<char>>,
    p: Seq<char>,
    deny: bool,
) -> HandleOutcome {
    if deny {
        HandleOutcome::AbsenceDenied
    } else if fs.dom().contains(nolrc_path(p)) {
        HandleOutcome::AbsenceExisted
    } else {
        HandleOutcome::MarkedAbsent
    }
}

/// Drive one track's sidecar state transition from its fetch outcome. The
/// filesystem afterwards is exactly [`spec_apply_one`] of the outcome, and
/// the report is exactly [`spec_handle_outcome`].
pub fn handle_entry(
    fs: &mut FsState,
    path: String,
    outcome: Result<LyricsResponse, LyricsError>,
    deny_nolrc: bool,
) -> (o: HandleOutcome)
    requires
        old(fs).wf(),
    ensures
        final(fs).wf(),
        final(fs)@ == spec_apply_one(old(fs)@, path@, outcome, deny_nolrc),
        o == spec_handle_outcome(old(fs)@, path@, outcome, deny_nolrc),
        o != HandleOutcome::PackFailed,
{
    let action = decide_outcome(&outcome, deny_nolrc);
    match action {
        SidecarAction::WriteLyrics(l) => {
            let mut scratch = path;
            match replace_nolrc(fs, &mut scratch, l.as_str()) {
                Ok(()) => HandleOutcome::ReplacedAbsence,
                Err(_) => HandleOutcome::WroteLyrics,
            }
        },
        SidecarAction::MarkAbsent => {
            let mut scratch = path;
            match create_nolrc(fs, &mut scratch) {
                Ok(()) => HandleOutcome::MarkedAbsent,
                Err(_) => HandleOutcome::AbsenceExisted,
            }
        },
        SidecarAction::NoAction => {
            let denied = match &outcome {
                Ok(resp) => resp.chosen_lyrics().is_none(),
                Err(e) => e.not_found(),
            };
            if denied {
                HandleOutcome::AbsenceDenied
            } else {
                HandleOutcome::FetchFailed
            }
        },
        SidecarAction::Fatal => HandleOutcome::InvalidRequest,
    }
}

// ---------------------------------------------------------------------------
// The run
// ---------------------------------------------------------------------------

/// The pack stream reduced to its shape: `Some(path)` per admitted track,
/// `None` per failed pack.
pub open spec fn packs_plan(packs: Seq<PackResult>) -> Seq<Option<Seq<char>>> {
    packs.map_values(
        |p: PackResult|
            match p {
                Ok(pr) => Some(pr.1@),
                Err(_) => None,
            },
    )
}

/// How many of the first `n` stream elements are admitted tracks.
pub open spec fn num_admitted(plan: Seq<Option<Seq<char>>>, n: int) -> nat
    decreases n,
{
    if n <= 0 {
        0
    } else {
        num_admitted(plan, n - 1) + if plan[n - 1] is Some {
            1nat
        } else {
            0nat
        }
    }
}

/// The filesystem after the first `n` stream elements are handled, with the
/// admitted tracks' fetch outcomes supplied in order by `resps`.
pub open spec fn spec_run(
    fs: Map<Seq<char>, Seq<char>>,
    plan: Seq<Option<Seq<char>>>,
    resps: Seq<Result<LyricsResponse, LyricsError>>,
    deny: bool,
    n: int,
) -> Map<Seq<char>, Seq<char>>
    decreases n,
{
    if n <= 0 {
        fs
    } else {
        let prev = spec_run(fs, plan, resps, deny, n - 1);
        match plan[n - 1] {
            Some(p) => spec_apply_one(prev, p, resps[num_admitted(plan, n - 1) as int], deny),
            None => prev,
        }
    }
}

/// Admission counts never shrink along the stream.
proof fn lemma_num_admitted_mono(plan: Seq<Option<Seq<char>>>, a: int, b: int)
    requires
        a <= b,
    ensures
        num_admitted(plan, a) <= num_admitted(plan, b),
    decreases b - a,
{
    if a < b {
        lemma_num_admitted_mono(plan, a, b - 1);
    }
}

/// How the `k`-th stream element's handling ends: failed packs are reported
/// as such, and an admitted track's outcome is [`spec_handle_outcome`] of
/// the filesystem as it stood when its turn came.
pub open spec fn spec_outcome_at(
    fs0: Map<Seq<char>, Seq<char>>,
    plan: Seq<Option<Seq<char>>>,
    resps: Seq<Result<LyricsResponse, LyricsError>>,
    deny: bool,
    k: int,
) -> HandleOutcome {
    match plan[k] {
        Some(p) => spec_handle_outcome(
            spec_run(fs0, plan, resps, deny, k),
            p,
            resps[num_admitted(plan, k) as int],
            deny,
        ),
        None => HandleOutcome::PackFailed,
    }
}

/// Only the first `num_admitted(plan, n)` responses matter to the first `n`
/// steps of a run.
proof fn lemma_spec_run_resps_prefix(
    fs: Map<Seq<char>, Seq<char>>,
    plan: Seq<Option<Seq<char>>>,
    r1: Seq<Result<LyricsResponse, LyricsError>>,
    r2: Seq<Result<LyricsResponse, LyricsError>>,
    deny: bool,
    n: int,
)
    requires
        forall|j: int| 0 <= j < num_admitted(plan, n) ==> r1[j] == r2[j],
    ensures
        spec_run(fs, plan, r1, deny, n) == spec_run(fs, plan, r2, deny, n),
    decreases n,
{
    if n > 0 {
        assert(num_admitted(plan, n - 1) <= num_admitted(plan, n));
        lemma_spec_run_resps_prefix(fs, plan, r1, r2, deny, n - 1);
    }
}

/// Consume the pack stream: for every admitted track, take a permit, fetch,
/// release the permit, then run the sidecar writer; failed packs are
/// reported and skipped. Returns the per-pack outcomes and the fetch
/// responses in admission order.
pub fn handle_all<R: Remote>(
    remote: &mut R,
    gate: &mut FetchGate,
    fs: &mut FsState,
    packs: Vec<PackResult>,
    deny_nolrc: bool,
) -> (r: (Vec<HandleOutcome>, Vec<Result<LyricsResponse, LyricsError>>))
    requires
        old(fs).wf(),
        old(gate).wf(),
        old(gate).in_flight() == 0,
        forall|k: int|
            0 <= k < packs@.len() ==> match #[trigger] packs@[k] {
                Ok(pr) => pr.0.wf(),
                Err(_) => true,
            },
    ensures
        final(fs).wf(),
        final(gate).wf(),
        final(gate).in_flight() == 0,
        final(gate).limit() == old(gate).limit(),
        final(remote).calls() == old(remote).calls() + num_admitted(
            packs_plan(packs@),
            packs@.len() as int,
        ),
        r.1@.len() == num_admitted(packs_plan(packs@), packs@.len() as int),
        final(fs)@ == spec_run(
            old(fs)@,
            packs_plan(packs@),
            r.1@,
            deny_nolrc,
            packs@.len() as int,
        ),
        r.0@.len() == packs@.len(),
        forall|k: int|
            0 <= k < packs@.len() ==> #[trigger] r.0@[k] == spec_outcome_at(
                old(fs)@,
                packs_plan(packs@),
                r.1@,
                deny_nolrc,
                k,
            ),
        forall|k: int|
            0 <= k < packs@.len() ==> ((#[trigger] r.0@[k] == HandleOutcome::PackFailed)
                <==> packs@[k] is Err),
{
    let ghost fs0 = fs@;
    let ghost calls0 = remote.calls();
    let ghost plan = packs_plan(packs@);
    let mut outcomes: Vec<HandleOutcome> = Vec::new();
    let mut responses: Vec<Result<LyricsResponse, LyricsError>> = Vec::new();
    let n = packs.len();
    let mut i: usize = 0;
    while i < n
        invariant
            i <= n,
            n == packs@.len(),
            plan == packs_plan(packs@),
            fs.wf(),
            gate.wf(),
            gate.in_flight() == 0,
            gate.limit() == old(gate).limit(),
            forall|k: int|
                0 <= k < packs@.len() ==> match #[trigger] packs@[k] {
                    Ok(pr) => pr.0.wf(),
                    Err(_) => true,
                },
            remote.calls() == calls0 + num_admitted(plan, i as int),
            responses@.len() == num_admitted(plan, i as int),
            fs@ == spec_run(fs0, plan, responses@, deny_nolrc, i as int),
            outcomes@.len() == i,
            forall|k: int|
                0 <= k < i ==> #[trigger] outcomes@[k] == spec_outcome_at(
                    fs0,
                    plan,
                    responses@,
                    deny_nolrc,
                    k,
                ),
            forall|k: int|
                0 <= k < i ==> ((#[trigger] outcomes@[k] == HandleOutcome::PackFailed)
                    <==> packs@[k] is Err),
        decreases n - i,
    {
        let ghost resps_before = responses@;
        match &packs[i] {
            Ok(pr) => {
                gate.acquire();
                let resp = remote.get_lyrics(&pr.0);
                gate.release();
                let logged = clone_outcome(&resp);
                responses.push(logged);
                proof {
                    assert(forall|j: int|
                        0 <= j < num_admitted(plan, i as int) ==> resps_before[j]
                            == responses@[j]);
                    lemma_spec_run_resps_prefix(
                        fs0,
                        plan,
                        resps_before,
                        responses@,
                        deny_nolrc,
                        i as int,
                    );
                }
                let o = handle_entry(fs, pr.1.clone(), resp, deny_nolrc);
                outcomes.push(o);
                proof {
                    assert(plan[i as int] == Some(pr.1@));
                    assert(responses@[num_admitted(plan, i as int) as int] == resp);
                    assert forall|k: int| 0 <= k < i + 1 implies #[trigger] outcomes@[k]
                        == spec_outcome_at(fs0, plan, responses@, deny_nolrc, k) by {
                        if k < i {
                            lemma_num_admitted_mono(plan, k, i as int);
                            lemma_spec_run_resps_prefix(
                                fs0,
                                plan,
                                resps_before,
                                responses@,
                                deny_nolrc,
                                k,
                            );
                            if plan[k] is Some {
                                assert(num_admitted(plan, k + 1) == num_admitted(plan, k) + 1);
                                lemma_num_admitted_mono(plan, k + 1, i as int);
                            }
                        }
                    }
                }
            },
            Err(_) => {
                outcomes.push(HandleOutcome::PackFailed);
                proof {
                    assert(plan[i as int] is None);
                    assert(spec_outcome_at(fs0, plan, responses@, deny_nolrc, i as int)
                        == HandleOutcome::PackFailed);
                }
            },
        }
        i += 1;
    }
    (outcomes, responses)
}

fn clone_outcome(o: &Result<LyricsResponse, LyricsError>) -> (r: Result<
    LyricsResponse,
    LyricsError,
>)
    ensures
        r == *o,
{
    match o {
        Ok(v) => Ok(v.clone()),
        Err(e) => Err(e.clone()),
    }
}

/// Everything one run reports back: the per-pack outcomes, the fetch
/// responses in admission order, and what the admission gate observed.
pub struct RunLog {
    /// One entry per emitted pack, in stream order.
    pub outcomes: Vec<HandleOutcome>,
    /// One entry per admitted track, in fetch order.
    pub responses: Vec<Result<LyricsResponse, LyricsError>>,
    /// The most fetches that were ever in flight at once.
    pub peak_in_flight: usize,
    /// The configured concurrency limit the run was admitted under.
    pub limit: usize,
}

/// Run the whole pipeline over a walked stream of entries: classify every
/// entry against the filesystem as it stands, fetch lyrics for each
/// admitted track under the configured admission bound, and perform each
/// track's sidecar transition. Fails — touching nothing — exactly when no
/// root paths were configured.
pub fn start_up<R: Remote>(
    remote: &mut R,
    cli: &Cli,
    fs: &mut FsState,
    events: &Vec<WalkEvent>,
) -> (r: Result<RunLog, NoPathsError>)
    requires
        cli.wf(),
        old(fs).wf(),
    ensures
        final(fs).wf(),
        r is Err <==> cli.paths@.len() == 0,
        r is Err ==> final(fs)@ == old(fs)@ && final(remote).calls() == old(remote).calls(),
        match r {
            Ok(log) => {
                let plan = pack_plan(events@, *cli, old(fs)@);
                &&& log.responses@.len() == num_admitted(plan, plan.len() as int)
                &&& final(remote).calls() == old(remote).calls() + num_admitted(
                    plan,
                    plan.len() as int,
                )
                &&& final(fs)@ == spec_run(
                    old(fs)@,
                    plan,
                    log.responses@,
                    cli.deny_nolrc,
                    plan.len() as int,
                )
                &&& log.outcomes@.len() == plan.len()
                &&& forall|k: int|
                    0 <= k < plan.len() ==> #[trigger] log.outcomes@[k] == spec_outcome_at(
                        old(fs)@,
                        plan,
                        log.responses@,
                        cli.deny_nolrc,
                        k,
                    )
                &&& forall|k: int|
                    0 <= k < plan.len() ==> ((#[trigger] log.outcomes@[k]
                        == HandleOutcome::PackFailed) <==> plan[k] is None)
                &&& log.limit == cli.download_jobs
                &&& log.peak_in_flight <= log.limit
            },
            Err(e) => e == NoPathsError,
        },
{
    let packs = match prepare_entries(fs, events, cli) {
        Ok(packs) => packs,
        Err(e) => {
            return Err(e);
        },
    };
    let ghost plan = pack_plan(events@, *cli, fs@);
    proof {
        assert(packs_plan(packs@) =~= plan);
        assert forall|k: int|
            0 <= k < packs@.len() implies match #[trigger] packs@[k] {
            Ok(pr) => pr.0.wf(),
            Err(_) => true,
        } by {
            match plan[k] {
                Some(_) => {},
                None => {},
            }
        }
    }
    let mut gate = FetchGate::new(cli.download_jobs as usize);
    let (outcomes, responses) = handle_all(remote, &mut gate, fs, packs, cli.deny_nolrc);
    let peak = gate.peak_in_flight();
    Ok(
        RunLog {
            outcomes,
            responses,
            peak_in_flight: peak,
            limit: cli.download_jobs as usize,
        },
    )
}

// ---------------------------------------------------------------------------
// Laws of the sidecar writer
// ---------------------------------------------------------------------------

/// A track that does not already carry a lyrics sidecar never ends a
/// handling step carrying both sidecars: the lyrics branch always deletes
/// the sentinel after writing, and the absence branch cannot put a lyrics
/// sidecar there. (A track that entered the step with a lyrics sidecar can
/// keep it while gaining a sentinel; the default acquisition policy never
/// admits such a track.)
pub proof fn lemma_no_dual_sidecar(
    fs: Map<Seq<char>, Seq<char>>,
    p: Seq<char>,
    outcome: Result<LyricsResponse, LyricsError>,
    deny: bool,
)
    requires
        !fs.dom().contains(lrc_path(p)),
    ensures
        !(spec_apply_one(fs, p, outcome, deny).dom().contains(lrc_path(p)) && spec_apply_one(
            fs,
            p,
            outcome,
            deny,
        ).dom().contains(nolrc_path(p))),
{
    lemma_sidecar_paths_distinct(p);
}

/// Marking absence is idempotent: once the sentinel exists, marking again
/// changes nothing — and the writer reports the existing sentinel as
/// success, not as an error.
pub proof fn lemma_absence_idempotent(fs: Map<Seq<char>, Seq<char>>, p: Seq<char>, deny: bool)
    ensures
        spec_absence(spec_absence(fs, p, deny), p, deny) == spec_absence(fs, p, deny),
        spec_absence_outcome(spec_absence(fs, p, deny), p, deny) != HandleOutcome::MarkedAbsent
            || deny,
{
}

/// Writing lyrics always ends with the lyrics sidecar holding exactly the
/// fetched lyrics and no absence sentinel — whether the delete found a
/// sentinel to remove or failed with not-found.
pub proof fn lemma_replace_clears_absence(
    fs: Map<Seq<char>, Seq<char>>,
    p: Seq<char>,
    lyrics: Seq<char>,
)
    ensures
        fs.insert(lrc_path(p), lyrics).remove(nolrc_path(p)).dom().contains(lrc_path(p)),
        fs.insert(lrc_path(p), lyrics).remove(nolrc_path(p))[lrc_path(p)] == lyrics,
        !fs.insert(lrc_path(p), lyrics).remove(nolrc_path(p)).dom().contains(nolrc_path(p)),
{
    lemma_sidecar_paths_distinct(p);
}


/// Two streams that agree on their first `n` elements admit the same count.
proof fn lemma_num_admitted_agree(
    p1: Seq<Option<Seq<char>>>,
    p2: Seq<Option<Seq<char>>>,
    n: int,
)
    requires
        forall|j: int| 0 <= j < n ==> p1[j] == p2[j],
    ensures
        num_admitted(p1, n) == num_admitted(p2, n),
    decreases n,
{
    if n > 0 {
        lemma_num_admitted_agree(p1, p2, n - 1);
    }
}

/// Admission counts add up over concatenated streams.
pub proof fn lemma_num_admitted_append(s: Seq<Option<Seq<char>>>, t: Seq<Option<Seq<char>>>)
    ensures
        num_admitted(s + t, (s + t).len() as int) == num_admitted(s, s.len() as int)
            + num_admitted(t, t.len() as int),
    decreases t.len(),
{
    if t.len() == 0 {
        assert(s + t =~= s);
    } else {
        let n = (s + t).len() as int;
        lemma_num_admitted_append(s, t.drop_last());
        assert forall|j: int| 0 <= j < n - 1 implies (s + t.drop_last())[j] == (s + t)[j] by {
            if j >= s.len() {
                assert((s + t.drop_last())[j] == t.drop_last()[j - s.len()]);
                assert((s + t)[j] == t[j - s.len()]);
            }
        }
        lemma_num_admitted_agree(s + t.drop_last(), s + t, n - 1);
        assert((s + t)[n - 1] == t.last());
        assert(num_admitted(s + t, n) == num_admitted(s + t, n - 1) + if (s + t)[n - 1] is Some {
            1nat
        } else {
            0nat
        });
        assert(num_admitted(t, t.len() as int) == num_admitted(t, t.len() - 1) + if t.last()
            is Some {
            1nat
        } else {
            0nat
        });
        lemma_num_admitted_agree(t.drop_last(), t, t.len() - 1);
    }
}

/// Running the pipeline again over tracks that are all resolved — each
/// already carrying a lyrics sidecar or an absence sentinel — admits
/// nothing under the default `LrcMissing` policy, so the second run
/// performs zero fetches.
pub proof fn lemma_resolved_run_fetches_nothing(
    events: Seq<WalkEvent>,
    cli: Cli,
    fs: Map<Seq<char>, Seq<char>>,
)
    requires
        cli.lrc_acquire_behavior == crate::cli::LrcAcquireBehavior::LrcMissing,
        forall|k: int|
            0 <= k < events.len() ==> (#[trigger] events[k] matches WalkEvent::Entry(e) ==> (
            e.is_file ==> fs.dom().contains(lrc_path(e.path@)) || fs.dom().contains(
                nolrc_path(e.path@),
            ))),
    ensures
        num_admitted(
            pack_plan(events, cli, fs),
            pack_plan(events, cli, fs).len() as int,
        ) == 0,
    decreases events.len(),
{
    if events.len() > 0 {
        lemma_resolved_run_fetches_nothing(events.drop_last(), cli, fs);
        let prefix = pack_plan(events.drop_last(), cli, fs);
        let last_part = crate::file::pack_contrib(events.last(), cli, fs);
        assert(events[events.len() - 1] == events.last());
        match events.last() {
            WalkEvent::Entry(e) => {
                crate::file::lemma_resolved_track_skipped(e, cli, fs);
                assert(crate::file::spec_classify(e, cli, fs)
                    == crate::file::ClassifyKind::Skip);
                assert(last_part =~= Seq::<Option<Seq<char>>>::empty());
                assert(num_admitted(last_part, last_part.len() as int) == 0);
            },
            WalkEvent::Error(_) => {
                assert(last_part =~= seq![Option::<Seq<char>>::None]);
                assert(num_admitted(last_part, 1) == num_admitted(last_part, 0));
                assert(num_admitted(last_part, last_part.len() as int) == 0);
            },
        }
        lemma_num_admitted_append(prefix, last_part);
    }
}

/// One handling step touches nothing but its own track's two sidecar paths.
proof fn lemma_apply_one_frame(
    fs: Map<Seq<char>, Seq<char>>,
    p: Seq<char>,
    outcome: Result<LyricsResponse, LyricsError>,
    deny: bool,
    q: Seq<char>,
)
    requires
        q != lrc_path(p),
        q != nolrc_path(p),
    ensures
        spec_apply_one(fs, p, outcome, deny).dom().contains(q) == fs.dom().contains(q),
{
}

/// Whether the sidecar paths of two tracks are disjoint.
pub open spec fn sidecars_disjoint(p1: Seq<char>, p2: Seq<char>) -> bool {
    &&& lrc_path(p1) != lrc_path(p2)
    &&& lrc_path(p1) != nolrc_path(p2)
    &&& nolrc_path(p1) != lrc_path(p2)
    &&& nolrc_path(p1) != nolrc_path(p2)
}

/// Two tracks whose lyrics-sidecar paths differ have fully disjoint sidecar
/// pairs: a lyrics path can never coincide with a sentinel path at all, and
/// both sidecar names are determined by the track's stem.
pub proof fn lemma_disjoint_from_distinct_lrc(p1: Seq<char>, p2: Seq<char>)
    requires
        lrc_path(p1) != lrc_path(p2),
    ensures
        sidecars_disjoint(p1, p2),
{
    crate::file::lemma_lrc_never_meets_nolrc(p1, p2);
    crate::file::lemma_lrc_never_meets_nolrc(p2, p1);
    crate::file::lemma_distinct_lrc_distinct_nolrc(p1, p2);
}

/// After a whole run over tracks that each started with neither sidecar and
/// whose sidecar paths do not collide, no processed track ends up carrying
/// both a lyrics sidecar and an absence sentinel — whatever the remote
/// answered for each of them.
pub proof fn lemma_run_no_dual_sidecar(
    fs0: Map<Seq<char>, Seq<char>>,
    plan: Seq<Option<Seq<char>>>,
    resps: Seq<Result<LyricsResponse, LyricsError>>,
    deny: bool,
    n: int,
)
    requires
        0 <= n <= plan.len(),
        forall|k: int|
            0 <= k < plan.len() ==> (#[trigger] plan[k] matches Some(p) ==> !fs0.dom().contains(
                lrc_path(p),
            ) && !fs0.dom().contains(nolrc_path(p))),
        forall|k1: int, k2: int|
            0 <= k1 < plan.len() && 0 <= k2 < plan.len() && k1 != k2 ==> ((
            #[trigger] plan[k1], #[trigger] plan[k2]) matches (Some(p1), Some(p2))
                ==> sidecars_disjoint(p1, p2)),
    ensures
        forall|k: int|
            0 <= k < plan.len() ==> (#[trigger] plan[k] matches Some(p) ==> {
                let fsn = spec_run(fs0, plan, resps, deny, n);
                &&& (k < n ==> !(fsn.dom().contains(lrc_path(p)) && fsn.dom().contains(
                    nolrc_path(p),
                )))
                &&& (k >= n ==> !fsn.dom().contains(lrc_path(p)) && !fsn.dom().contains(
                    nolrc_path(p),
                ))
            }),
    decreases n,
{
    if n > 0 {
        lemma_run_no_dual_sidecar(fs0, plan, resps, deny, n - 1);
        let prev = spec_run(fs0, plan, resps, deny, n - 1);
        let fsn = spec_run(fs0, plan, resps, deny, n);
        match plan[n - 1] {
            Some(cur) => {
                let resp = resps[num_admitted(plan, n - 1) as int];
                lemma_no_dual_sidecar(prev, cur, resp, deny);
                assert forall|k: int|
                    0 <= k < plan.len() implies (#[trigger] plan[k] matches Some(p) ==> {
                    &&& (k < n ==> !(fsn.dom().contains(lrc_path(p)) && fsn.dom().contains(
                        nolrc_path(p),
                    )))
                    &&& (k >= n ==> !fsn.dom().contains(lrc_path(p)) && !fsn.dom().contains(
                        nolrc_path(p),
                    ))
                }) by {
                    if plan[k] is Some && k != n - 1 {
                        let p = plan[k]->0;
                        lemma_apply_one_frame(prev, cur, resp, deny, lrc_path(p));
                        lemma_apply_one_frame(prev, cur, resp, deny, nolrc_path(p));
                    }
                }
            },
            None => {},
        }
    }
}

/// The composed guarantee for the default policy: a run admitted under
/// `LrcMissing` — over tracks whose sidecar paths do not collide — leaves no
/// admitted track carrying both a lyrics sidecar and an absence sentinel,
/// whatever the remote answered. (Tracks with colliding sidecar paths, such
/// as `song.flac` and `song.mp3` side by side, are outside this guarantee:
/// the second track's sentinel can land next to the first one's lyrics.)
pub proof fn lemma_default_run_never_dual(
    events: Seq<WalkEvent>,
    cli: Cli,
    fs0: Map<Seq<char>, Seq<char>>,
    resps: Seq<Result<LyricsResponse, LyricsError>>,
)
    requires
        cli.lrc_acquire_behavior == crate::cli::LrcAcquireBehavior::LrcMissing,
        forall|k1: int, k2: int|
            0 <= k1 < pack_plan(events, cli, fs0).len() && 0 <= k2 < pack_plan(
                events,
                cli,
                fs0,
            ).len() && k1 != k2 ==> ((
            #[trigger] pack_plan(events, cli, fs0)[k1],
            #[trigger] pack_plan(events, cli, fs0)[k2],
        ) matches (Some(p1), Some(p2)) ==> sidecars_disjoint(p1, p2)),
    ensures
        forall|k: int|
            0 <= k < pack_plan(events, cli, fs0).len() ==> (#[trigger] pack_plan(
                events,
                cli,
                fs0,
            )[k] matches Some(p) ==> {
                let plan = pack_plan(events, cli, fs0);
                let fsn = spec_run(fs0, plan, resps, cli.deny_nolrc, plan.len() as int);
                !(fsn.dom().contains(lrc_path(p)) && fsn.dom().contains(nolrc_path(p)))
            }),
{
    let plan = pack_plan(events, cli, fs0);
    crate::file::lemma_plan_admitted_clean(events, cli, fs0);
    lemma_run_no_dual_sidecar(fs0, plan, resps, cli.deny_nolrc, plan.len() as int);
}

} // verus!
