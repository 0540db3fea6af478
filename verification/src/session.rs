//! The fetch-and-store pipeline, as a state machine the runtime
//! drives. The library decides; the runtime performs. Each step hands
//! the runtime one action (probe a path, fetch the source, store the
//! body) and takes back one event with the outcome; requirement
//! checking strictly precedes the fetch, and the fetch strictly
//! precedes the store. The spec-level run function iterates the very
//! same transition relation, so what is proved of it holds of every
//! honestly driven session.
use vstd::prelude::*;
use vstd::string::StringSliceAdditionalSpecFns;
use vstd::string::is_ascii_spec_bytes;
use crate::check::spec_required_paths;
use crate::model::Job;
use crate::model::JobResult;
use crate::model::JobResultV;
use crate::model::JobStatus;
use crate::model::JobV;
use crate::model::MessageError;
use crate::model::MessageErrorV;
use crate::model::copy_bytes;
use crate::model::spec_get_string;
use crate::parse::ascii_bytes;
use crate::parse::spec_parse_job;

verus! {

broadcast use crate::model::lemma_bytes_deep_view;

/// The id of the parameter naming the URL to fetch.
pub open spec fn source_key() -> Seq<u8> {
    ascii_bytes("source_path"@)
}

/// The id of the parameter naming the path to fill.
pub open spec fn destination_key() -> Seq<u8> {
    ascii_bytes("destination_path"@)
}

pub(crate) fn kb_source_path() -> (r: &'static [u8])
    ensures
        r@ == source_key(),
{
    proof {
        reveal_strlit("source_path");
        assert(vstd::string::is_ascii("source_path")) by {
            assert(forall|i: int| 0 <= i < "source_path"@.len() ==> ("source_path"@[i] as u32) < 128);
        }
        is_ascii_spec_bytes("source_path");
        assert("source_path".spec_bytes() =~= source_key());
    }
    "source_path".as_bytes()
}

pub(crate) fn kb_destination_path() -> (r: &'static [u8])
    ensures
        r@ == destination_key(),
{
    proof {
        reveal_strlit("destination_path");
        assert(vstd::string::is_ascii("destination_path")) by {
            assert(forall|i: int|
                0 <= i < "destination_path"@.len() ==> ("destination_path"@[i] as u32) < 128);
        }
        is_ascii_spec_bytes("destination_path");
        assert("destination_path".spec_bytes() =~= destination_key());
    }
    "destination_path".as_bytes()
}

/// The source and destination parameters, resolved in that order; a
/// missing one fails with `MissingParameter` naming it, the source
/// first.
pub open spec fn spec_resolve(job: JobV) -> Result<(Seq<u8>, Seq<u8>), MessageErrorV> {
    match spec_get_string(job.parameters, source_key()) {
        None => Err(MessageErrorV::MissingParameter { job_id: job.job_id, name: source_key() }),
        Some(src) => match spec_get_string(job.parameters, destination_key()) {
            None => Err(
                MessageErrorV::MissingParameter { job_id: job.job_id, name: destination_key() },
            ),
            Some(dst) => Ok((src, dst)),
        },
    }
}

impl Job {
    /// Resolves the source URL and the destination path.
    pub fn resolve_paths(&self) -> (r: Result<(Vec<u8>, Vec<u8>), MessageError>)
        ensures
            match r {
                Ok(p) => spec_resolve(self@) == Ok::<_, MessageErrorV>((p.0@, p.1@)),
                Err(e) => spec_resolve(self@) == Err::<(Seq<u8>, Seq<u8>), _>(e@),
            },
    {
        let src = match self.get_string_parameter(kb_source_path()) {
            Some(v) => v,
            None => {
                return Err(
                    MessageError::MissingParameter {
                        job_id: self.job_id,
                        name: copy_bytes(kb_source_path()),
                    },
                );
            },
        };
        let dst = match self.get_string_parameter(kb_destination_path()) {
            Some(v) => v,
            None => {
                return Err(
                    MessageError::MissingParameter {
                        job_id: self.job_id,
                        name: copy_bytes(kb_destination_path()),
                    },
                );
            },
        };
        Ok((src, dst))
    }
}

/// What the runtime is asked to do next.
#[derive(Debug, PartialEq, Eq)]
pub enum Action {
    /// Test whether this path exists on the local filesystem.
    CheckPath(Vec<u8>),
    /// Issue a blocking HTTP GET against this URL and buffer the body.
    Fetch(Vec<u8>),
    /// Write the buffered body to this path as a single write.
    Store(Vec<u8>),
}

/// Spec-level image of an [`Action`].
pub enum ActionV {
    CheckPath(Seq<u8>),
    Fetch(Seq<u8>),
    Store(Seq<u8>),
}

impl View for Action {
    type V = ActionV;

    open spec fn view(&self) -> ActionV {
        match self {
            Action::CheckPath(p) => ActionV::CheckPath(p@),
            Action::Fetch(u) => ActionV::Fetch(u@),
            Action::Store(p) => ActionV::Store(p@),
        }
    }
}

/// What the runtime reports back.
#[derive(Debug, PartialEq, Eq)]
pub enum Event {
    /// Whether the probed path exists.
    PathChecked(bool),
    /// A response arrived, with this status code.
    FetchStatus(u16),
    /// The client could not be built, the request failed in transport,
    /// or the body could not be read; with the failure's detail.
    FetchFailed(Vec<u8>),
    /// The body was written whole.
    StoreOk,
    /// Creating or writing the destination failed; with the detail.
    StoreFailed(Vec<u8>),
}

/// Spec-level image of an [`Event`].
pub enum EventV {
    PathChecked(bool),
    FetchStatus(u16),
    FetchFailed(Seq<u8>),
    StoreOk,
    StoreFailed(Seq<u8>),
}

impl View for Event {
    type V = EventV;

    open spec fn view(&self) -> EventV {
        match self {
            Event::PathChecked(b) => EventV::PathChecked(*b),
            Event::FetchStatus(s) => EventV::FetchStatus(*s),
            Event::FetchFailed(d) => EventV::FetchFailed(d@),
            Event::StoreOk => EventV::StoreOk,
            Event::StoreFailed(d) => EventV::StoreFailed(d@),
        }
    }
}

/// A step's yield: either the next action, or the job's one terminal
/// outcome.
#[derive(Debug, PartialEq, Eq)]
pub enum Outcome {
    Next(Action),
    Finished(Result<JobResult, MessageError>),
}

/// Spec-level image of an [`Outcome`].
pub enum OutcomeV {
    Next(ActionV),
    Finished(Result<JobResultV, MessageErrorV>),
}

impl View for Outcome {
    type V = OutcomeV;

    open spec fn view(&self) -> OutcomeV {
        match self {
            Outcome::Next(a) => OutcomeV::Next(a@),
            Outcome::Finished(r) => OutcomeV::Finished(
                match r {
                    Ok(jr) => Ok(jr@),
                    Err(e) => Err(e@),
                },
            ),
        }
    }
}

/// Where the pipeline stands between two exchanges with the runtime.
#[derive(Debug, PartialEq, Eq)]
pub enum Phase {
    /// Awaiting the probe of required path number `next`.
    Checking { next: usize },
    /// Awaiting the fetch outcome.
    Fetching,
    /// Awaiting the store outcome.
    Storing,
    /// A terminal outcome was reported.
    Done,
}

/// The result a completed job reports: its id, `Completed`, no
/// outputs and no message.
pub open spec fn spec_completed(job_id: u64) -> JobResultV {
    JobResultV {
        job_id: job_id,
        status: JobStatus::Completed,
        outputs: Seq::empty(),
        message: None,
    }
}

/// Which events answer which phase.
pub open spec fn spec_expects(phase: Phase, e: EventV) -> bool {
    match (phase, e) {
        (Phase::Checking { .. }, EventV::PathChecked(_)) => true,
        (Phase::Fetching, EventV::FetchStatus(_)) => true,
        (Phase::Fetching, EventV::FetchFailed(_)) => true,
        (Phase::Storing, EventV::StoreOk) => true,
        (Phase::Storing, EventV::StoreFailed(_)) => true,
        _ => false,
    }
}

/// A terminal phase answers no event: each job's outcome is reported
/// exactly once, and nothing follows it.
pub proof fn lemma_done_is_terminal(e: EventV)
    ensures
        !spec_expects(Phase::Done, e),
{
}

/// Once every required path is confirmed, parameters are resolved:
/// the fetch begins, or the job fails on the missing parameter.
pub open spec fn spec_after_checks(job: JobV) -> (Phase, OutcomeV) {
    match spec_resolve(job) {
        Ok(p) => (Phase::Fetching, OutcomeV::Next(ActionV::Fetch(p.0))),
        Err(e) => (Phase::Done, OutcomeV::Finished(Err(e))),
    }
}

/// The transition relation: one phase and one answering event yield
/// the next phase and what the runtime is told.
pub open spec fn spec_step(job: JobV, phase: Phase, e: EventV) -> (Phase, OutcomeV) {
    let paths = spec_required_paths(job);
    match (phase, e) {
        (Phase::Checking { next }, EventV::PathChecked(true)) => {
            if next + 1 < paths.len() {
                (
                    Phase::Checking { next: (next + 1) as usize },
                    OutcomeV::Next(ActionV::CheckPath(paths[next + 1])),
                )
            } else {
                spec_after_checks(job)
            }
        },
        (Phase::Checking { next }, EventV::PathChecked(false)) => (
            Phase::Done,
            OutcomeV::Finished(
                Err(
                    MessageErrorV::RequirementsUnmet {
                        job_id: job.job_id,
                        path: paths[next as int],
                    },
                ),
            ),
        ),
        (Phase::Fetching, EventV::FetchStatus(st)) => {
            if st == 200 {
                match spec_resolve(job) {
                    Ok(p) => (Phase::Storing, OutcomeV::Next(ActionV::Store(p.1))),
                    Err(e) => (Phase::Done, OutcomeV::Finished(Err(e))),
                }
            } else {
                (
                    Phase::Done,
                    OutcomeV::Finished(Err(MessageErrorV::BadResponseStatus { job_id: job.job_id })),
                )
            }
        },
        (Phase::Fetching, EventV::FetchFailed(d)) => (
            Phase::Done,
            OutcomeV::Finished(Err(MessageErrorV::IoError { job_id: job.job_id, detail: d })),
        ),
        (Phase::Storing, EventV::StoreOk) => (
            Phase::Done,
            OutcomeV::Finished(Ok(spec_completed(job.job_id))),
        ),
        (Phase::Storing, EventV::StoreFailed(d)) => (
            Phase::Done,
            OutcomeV::Finished(Err(MessageErrorV::IoError { job_id: job.job_id, detail: d })),
        ),
        _ => (phase, OutcomeV::Finished(Err(MessageErrorV::MalformedInput))),
    }
}

/// What a freshly parsed job is first asked: its first required path,
/// or, requiring nothing, straight on to resolution and the fetch.
pub open spec fn spec_begin(job: JobV) -> Result<(Phase, ActionV), MessageErrorV> {
    let paths = spec_required_paths(job);
    if paths.len() > 0 {
        Ok((Phase::Checking { next: 0 }, ActionV::CheckPath(paths[0])))
    } else {
        match spec_after_checks(job) {
            (phase, OutcomeV::Next(a)) => Ok((phase, a)),
            (phase, OutcomeV::Finished(res)) => match res {
                Ok(jr) => Err(MessageErrorV::MalformedInput),
                Err(e) => Err(e),
            },
        }
    }
}

/// The whole entry: parse, then begin.
pub open spec fn spec_start(s: Seq<u8>) -> Result<(JobV, Phase, ActionV), MessageErrorV> {
    match spec_parse_job(s) {
        None => Err(MessageErrorV::MalformedInput),
        Some(job) => match spec_begin(job) {
            Ok(p) => Ok((job, p.0, p.1)),
            Err(e) => Err(e),
        },
    }
}

/// What the one fetch of a run would bring, were it attempted.
pub enum FetchOutcomeV {
    Status(u16),
    FetchFail(Seq<u8>),
}

/// What the one store of a run would do, were it attempted.
pub enum StoreOutcomeV {
    Stored,
    StoreFail(Seq<u8>),
}

/// One whole run's observables: the terminal outcome, and whether the
/// runtime was ever asked to fetch or to store.
pub struct RunV {
    pub result: Result<JobResultV, MessageErrorV>,
    pub fetched: bool,
    pub stored: bool,
}

/// The event an honest runtime answers with, phase by phase, under
/// the given environment.
pub open spec fn spec_env_event(
    phase: Phase,
    exists: Seq<bool>,
    fetch: FetchOutcomeV,
    store: StoreOutcomeV,
) -> EventV {
    match phase {
        Phase::Checking { next } => EventV::PathChecked(exists[next as int]),
        Phase::Fetching => match fetch {
            FetchOutcomeV::Status(st) => EventV::FetchStatus(st),
            FetchOutcomeV::FetchFail(d) => EventV::FetchFailed(d),
        },
        Phase::Storing => match store {
            StoreOutcomeV::Stored => EventV::StoreOk,
            StoreOutcomeV::StoreFail(d) => EventV::StoreFailed(d),
        },
        Phase::Done => EventV::StoreOk,
    }
}

/// How far a phase still has to go.
pub open spec fn phase_measure(job: JobV, phase: Phase) -> int {
    match phase {
        Phase::Checking { next } => spec_required_paths(job).len() - next + 3,
        Phase::Fetching => 2,
        Phase::Storing => 1,
        Phase::Done => 0,
    }
}

/// The run that one job and one environment determine: the transition
/// relation of [`spec_step`], iterated under honest answers until a
/// terminal outcome falls out. What is proved of this function holds
/// of every session a runtime drives honestly.
pub open spec fn spec_run_from(
    job: JobV,
    phase: Phase,
    exists: Seq<bool>,
    fetch: FetchOutcomeV,
    store: StoreOutcomeV,
    fetched: bool,
    stored: bool,
) -> RunV
    decreases phase_measure(job, phase),
{
    let live = match phase {
        Phase::Done => false,
        Phase::Checking { next } => next < spec_required_paths(job).len()
            && spec_required_paths(job).len() <= usize::MAX,
        Phase::Fetching => true,
        Phase::Storing => true,
    };
    if !live {
        RunV { result: Err(MessageErrorV::MalformedInput), fetched, stored }
    } else {
        let e = spec_env_event(phase, exists, fetch, store);
        let sr = spec_step(job, phase, e);
        match sr.1 {
            OutcomeV::Finished(res) => RunV { result: res, fetched, stored },
            OutcomeV::Next(a) => spec_run_from(
                job,
                sr.0,
                exists,
                fetch,
                store,
                fetched || a is Fetch,
                stored || a is Store,
            ),
        }
    }
}

/// The run a message determines: parse, begin, iterate.
pub open spec fn spec_process(
    s: Seq<u8>,
    exists: Seq<bool>,
    fetch: FetchOutcomeV,
    store: StoreOutcomeV,
) -> RunV {
    match spec_start(s) {
        Err(e) => RunV { result: Err(e), fetched: false, stored: false },
        Ok(t) => spec_run_from(
            t.0,
            t.1,
            exists,
            fetch,
            store,
            t.2 is Fetch,
            t.2 is Store,
        ),
    }
}

/// A run blocked at required path `k` — the first one missing — fails
/// with `RequirementsUnmet` naming that path, from wherever in the
/// checks it stands.
proof fn lemma_run_checking_blocked(
    job: JobV,
    exists: Seq<bool>,
    fetch: FetchOutcomeV,
    store: StoreOutcomeV,
    m: int,
    k: int,
    fetched: bool,
    stored: bool,
)
    requires
        exists.len() == spec_required_paths(job).len(),
        exists.len() <= usize::MAX,
        0 <= m <= k < exists.len(),
        !exists[k],
        forall|j: int| m <= j < k ==> exists[j],
    ensures
        spec_run_from(job, Phase::Checking { next: m as usize }, exists, fetch, store, fetched, stored)
            == (RunV {
            result: Err(
                MessageErrorV::RequirementsUnmet {
                    job_id: job.job_id,
                    path: spec_required_paths(job)[k],
                },
            ),
            fetched,
            stored,
        }),
    decreases k - m,
{
    if m < k {
        lemma_run_checking_blocked(job, exists, fetch, store, m + 1, k, fetched, stored);
    }
}

/// A run whose remaining required paths all exist walks the checks to
/// their end and stands at resolution: the missing parameter fails it
/// with nothing fetched; otherwise the fetch begins.
proof fn lemma_run_checking_passes(
    job: JobV,
    exists: Seq<bool>,
    fetch: FetchOutcomeV,
    store: StoreOutcomeV,
    m: int,
    fetched: bool,
    stored: bool,
)
    requires
        exists.len() == spec_required_paths(job).len(),
        exists.len() <= usize::MAX,
        0 <= m < exists.len(),
        forall|j: int| m <= j < exists.len() ==> exists[j],
    ensures
        spec_run_from(job, Phase::Checking { next: m as usize }, exists, fetch, store, fetched, stored)
            == (match spec_resolve(job) {
            Err(e) => RunV { result: Err(e), fetched, stored },
            Ok(p) => spec_run_from(job, Phase::Fetching, exists, fetch, store, true, stored),
        }),
    decreases exists.len() - m,
{
    if m + 1 < exists.len() {
        lemma_run_checking_passes(job, exists, fetch, store, m + 1, fetched, stored);
    }
}

/// A message the grammar refuses fails with `MalformedInput`, and
/// nothing is probed, fetched or stored.
pub proof fn lemma_malformed_input(
    s: Seq<u8>,
    exists: Seq<bool>,
    fetch: FetchOutcomeV,
    store: StoreOutcomeV,
)
    requires
        spec_parse_job(s) is None,
    ensures
        spec_process(s, exists, fetch, store) == (RunV {
            result: Err(MessageErrorV::MalformedInput),
            fetched: false,
            stored: false,
        }),
{
}

/// A required path that does not exist fails the run with
/// `RequirementsUnmet` naming the first missing path in declaration
/// order, and no fetch and no store is ever asked for.
pub proof fn lemma_requirements_unmet_blocks_fetch(
    s: Seq<u8>,
    job: JobV,
    exists: Seq<bool>,
    fetch: FetchOutcomeV,
    store: StoreOutcomeV,
    k: int,
)
    requires
        spec_parse_job(s) == Some(job),
        exists.len() == spec_required_paths(job).len(),
        exists.len() <= usize::MAX,
        0 <= k < exists.len(),
        !exists[k],
        forall|j: int| 0 <= j < k ==> exists[j],
    ensures
        spec_process(s, exists, fetch, store) == (RunV {
            result: Err(
                MessageErrorV::RequirementsUnmet {
                    job_id: job.job_id,
                    path: spec_required_paths(job)[k],
                },
            ),
            fetched: false,
            stored: false,
        }),
{
    lemma_run_checking_blocked(job, exists, fetch, store, 0, k, false, false);
}

/// A job missing its source parameter fails with `MissingParameter`
/// naming `source_path`, before any fetch or store.
pub proof fn lemma_missing_source(
    s: Seq<u8>,
    job: JobV,
    exists: Seq<bool>,
    fetch: FetchOutcomeV,
    store: StoreOutcomeV,
)
    requires
        spec_parse_job(s) == Some(job),
        exists.len() == spec_required_paths(job).len(),
        exists.len() <= usize::MAX,
        forall|j: int| 0 <= j < exists.len() ==> exists[j],
        spec_get_string(job.parameters, source_key()) is None,
    ensures
        spec_process(s, exists, fetch, store) == (RunV {
            result: Err(
                MessageErrorV::MissingParameter { job_id: job.job_id, name: source_key() },
            ),
            fetched: false,
            stored: false,
        }),
{
    if exists.len() > 0 {
        lemma_run_checking_passes(job, exists, fetch, store, 0, false, false);
    }
}

/// A job with a source but no destination fails with
/// `MissingParameter` naming `destination_path`, before any fetch or
/// store.
pub proof fn lemma_missing_destination(
    s: Seq<u8>,
    job: JobV,
    exists: Seq<bool>,
    fetch: FetchOutcomeV,
    store: StoreOutcomeV,
)
    requires
        spec_parse_job(s) == Some(job),
        exists.len() == spec_required_paths(job).len(),
        exists.len() <= usize::MAX,
        forall|j: int| 0 <= j < exists.len() ==> exists[j],
        spec_get_string(job.parameters, source_key()) is Some,
        spec_get_string(job.parameters, destination_key()) is None,
    ensures
        spec_process(s, exists, fetch, store) == (RunV {
            result: Err(
                MessageErrorV::MissingParameter { job_id: job.job_id, name: destination_key() },
            ),
            fetched: false,
            stored: false,
        }),
{
    if exists.len() > 0 {
        lemma_run_checking_passes(job, exists, fetch, store, 0, false, false);
    }
}

/// A well-formed job whose source answers 200 and whose store goes
/// through completes: the result is `Completed` under its job id,
/// with no outputs and no message, after one fetch and one store.
pub proof fn lemma_completed_run(
    s: Seq<u8>,
    job: JobV,
    exists: Seq<bool>,
)
    requires
        spec_parse_job(s) == Some(job),
        exists.len() == spec_required_paths(job).len(),
        exists.len() <= usize::MAX,
        forall|j: int| 0 <= j < exists.len() ==> exists[j],
        spec_resolve(job) is Ok,
    ensures
        spec_process(s, exists, FetchOutcomeV::Status(200), StoreOutcomeV::Stored) == (RunV {
            result: Ok(spec_completed(job.job_id)),
            fetched: true,
            stored: true,
        }),
{
    reveal_with_fuel(spec_run_from, 4);
    if exists.len() > 0 {
        lemma_run_checking_passes(
            job,
            exists,
            FetchOutcomeV::Status(200),
            StoreOutcomeV::Stored,
            0,
            false,
            false,
        );
    }
}

/// A well-formed job whose source answers anything but 200 fails with
/// `BadResponseStatus`, and the store is never asked for.
pub proof fn lemma_bad_status(
    s: Seq<u8>,
    job: JobV,
    exists: Seq<bool>,
    st: u16,
    store: StoreOutcomeV,
)
    requires
        spec_parse_job(s) == Some(job),
        exists.len() == spec_required_paths(job).len(),
        exists.len() <= usize::MAX,
        forall|j: int| 0 <= j < exists.len() ==> exists[j],
        spec_resolve(job) is Ok,
        st != 200,
    ensures
        spec_process(s, exists, FetchOutcomeV::Status(st), store) == (RunV {
            result: Err(MessageErrorV::BadResponseStatus { job_id: job.job_id }),
            fetched: true,
            stored: false,
        }),
{
    if exists.len() > 0 {
        lemma_run_checking_passes(
            job,
            exists,
            FetchOutcomeV::Status(st),
            store,
            0,
            false,
            false,
        );
    }
}

/// A well-formed job whose fetch fails in transport (or whose body
/// cannot be read) fails with `IoError` carrying the failure's
/// detail, and the store is never asked for.
pub proof fn lemma_fetch_failure(
    s: Seq<u8>,
    job: JobV,
    exists: Seq<bool>,
    detail: Seq<u8>,
    store: StoreOutcomeV,
)
    requires
        spec_parse_job(s) == Some(job),
        exists.len() == spec_required_paths(job).len(),
        exists.len() <= usize::MAX,
        forall|j: int| 0 <= j < exists.len() ==> exists[j],
        spec_resolve(job) is Ok,
    ensures
        spec_process(s, exists, FetchOutcomeV::FetchFail(detail), store) == (RunV {
            result: Err(MessageErrorV::IoError { job_id: job.job_id, detail: detail }),
            fetched: true,
            stored: false,
        }),
{
    reveal_with_fuel(spec_run_from, 3);
    if exists.len() > 0 {
        lemma_run_checking_passes(
            job,
            exists,
            FetchOutcomeV::FetchFail(detail),
            store,
            0,
            false,
            false,
        );
    }
}

/// A well-formed job whose source answers 200 but whose store fails
/// fails with `IoError` carrying the failure's detail, after the one
/// fetch and the one store attempt.
pub proof fn lemma_store_failure(s: Seq<u8>, job: JobV, exists: Seq<bool>, detail: Seq<u8>)
    requires
        spec_parse_job(s) == Some(job),
        exists.len() == spec_required_paths(job).len(),
        exists.len() <= usize::MAX,
        forall|j: int| 0 <= j < exists.len() ==> exists[j],
        spec_resolve(job) is Ok,
    ensures
        spec_process(s, exists, FetchOutcomeV::Status(200), StoreOutcomeV::StoreFail(detail))
            == (RunV {
            result: Err(MessageErrorV::IoError { job_id: job.job_id, detail: detail }),
            fetched: true,
            stored: true,
        }),
{
    reveal_with_fuel(spec_run_from, 4);
    if exists.len() > 0 {
        lemma_run_checking_passes(
            job,
            exists,
            FetchOutcomeV::Status(200),
            StoreOutcomeV::StoreFail(detail),
            0,
            false,
            false,
        );
    }
}

/// One job in flight: the parsed job and where the pipeline stands.
#[derive(Debug, PartialEq, Eq)]
pub struct Session {
    pub job: Job,
    pub phase: Phase,
}

impl Session {
    /// What every reachable session satisfies: a probe index stays
    /// within the required paths, and past the checks both the source
    /// and the destination are known to resolve.
    pub open spec fn wf(self) -> bool {
        match self.phase {
            Phase::Checking { next } => next < spec_required_paths(self.job@).len(),
            Phase::Fetching => spec_resolve(self.job@) is Ok,
            Phase::Storing => spec_resolve(self.job@) is Ok,
            Phase::Done => true,
        }
    }

    /// Parses a message and opens the exchange with the runtime: the
    /// first action to perform, or the job's immediate failure.
    pub fn start(message: &str) -> (r: Result<(Session, Action), MessageError>)
        ensures
            match r {
                Ok(p) => {
                    &&& spec_start(message.spec_bytes()) == Ok::<_, MessageErrorV>(
                        (p.0.job@, p.0.phase, p.1@),
                    )
                    &&& p.0.wf()
                },
                Err(e) => spec_start(message.spec_bytes()) == Err::<(JobV, Phase, ActionV), _>(e@),
            },
    {
        let job = match crate::parse::parse_message(message) {
            Ok(j) => j,
            Err(e) => {
                return Err(e);
            },
        };
        let paths = job.required_paths();
        if paths.len() > 0 {
            let first = copy_bytes(paths[0].as_slice());
            Ok((Session { job, phase: Phase::Checking { next: 0 } }, Action::CheckPath(first)))
        } else {
            match job.resolve_paths() {
                Ok(p) => Ok((Session { job, phase: Phase::Fetching }, Action::Fetch(p.0))),
                Err(e) => Err(e),
            }
        }
    }

    /// Takes the runtime's answer to the pending action and yields
    /// the next action or the terminal outcome. The job itself never
    /// changes.
    pub fn step(&mut self, e: Event) -> (r: Outcome)
        requires
            old(self).wf(),
            spec_expects(old(self).phase, e@),
        ensures
            final(self).job == old(self).job,
            final(self).wf(),
            (final(self).phase, r@) == spec_step(old(self).job@, old(self).phase, e@),
    {
        match (&self.phase, &e) {
            (Phase::Checking { next }, Event::PathChecked(ok)) => {
                let n: usize = *next;
                let paths = self.job.required_paths();
                let total = paths.len();
                proof {
                    assert(n < spec_required_paths(self.job@).len());
                    assert(paths.deep_view().len() == paths@.len());
                    assert(n < total);
                }
                if *ok {
                    if n + 1 < total {
                        let p = copy_bytes(paths[n + 1].as_slice());
                        self.phase = Phase::Checking { next: n + 1 };
                        Outcome::Next(Action::CheckPath(p))
                    } else {
                        match self.job.resolve_paths() {
                            Ok(p) => {
                                self.phase = Phase::Fetching;
                                Outcome::Next(Action::Fetch(p.0))
                            },
                            Err(err) => {
                                self.phase = Phase::Done;
                                Outcome::Finished(Err(err))
                            },
                        }
                    }
                } else {
                    let p = copy_bytes(paths[n].as_slice());
                    self.phase = Phase::Done;
                    Outcome::Finished(
                        Err(MessageError::RequirementsUnmet { job_id: self.job.job_id, path: p }),
                    )
                }
            },
            (Phase::Fetching, Event::FetchStatus(st)) => {
                if *st == 200 {
                    match self.job.resolve_paths() {
                        Ok(p) => {
                            self.phase = Phase::Storing;
                            Outcome::Next(Action::Store(p.1))
                        },
                        Err(err) => {
                            self.phase = Phase::Done;
                            Outcome::Finished(Err(err))
                        },
                    }
                } else {
                    self.phase = Phase::Done;
                    Outcome::Finished(
                        Err(MessageError::BadResponseStatus { job_id: self.job.job_id }),
                    )
                }
            },
            (Phase::Fetching, Event::FetchFailed(_)) => {
                let d = match e {
                    Event::FetchFailed(d) => d,
                    _ => {
                        return Outcome::Finished(Err(MessageError::MalformedInput));
                    },
                };
                self.phase = Phase::Done;
                Outcome::Finished(
                    Err(MessageError::IoError { job_id: self.job.job_id, detail: d }),
                )
            },
            (Phase::Storing, Event::StoreOk) => {
                self.phase = Phase::Done;
                let jr = JobResult {
                    job_id: self.job.job_id,
                    status: JobStatus::Completed,
                    outputs: Vec::new(),
                    message: None,
                };
                proof {
                    assert(jr@.outputs =~= Seq::<crate::model::ParameterV>::empty());
                }
                Outcome::Finished(Ok(jr))
            },
            (Phase::Storing, Event::StoreFailed(_)) => {
                let d = match e {
                    Event::StoreFailed(d) => d,
                    _ => {
                        return Outcome::Finished(Err(MessageError::MalformedInput));
                    },
                };
                self.phase = Phase::Done;
                Outcome::Finished(
                    Err(MessageError::IoError { job_id: self.job.job_id, detail: d }),
                )
            },
            _ => {
                proof {
                    assert(false);
                }
                Outcome::Finished(Err(MessageError::MalformedInput))
            },
        }
    }
}

} // verus!

