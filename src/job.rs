//! Jobs, their outcomes, and the answers to status queries.

use crate::linker::LinkError;
use vstd::prelude::*;

verus! {

/// One bundle-attachment job: the bundle's tryte strings, in order, the two
/// references that seed its chain, and the difficulty of the search.
#[derive(Debug, Clone, PartialEq, Eq)]
pub struct PowRequest {
    pub id: String,
    pub trunk_transaction: String,
    pub branch_transaction: String,
    pub min_weight_magnitude: usize,
    pub trytes: Vec<String>,
}

/// What the worker records for a job.
#[derive(Debug, Clone, PartialEq, Eq)]
pub enum JobOutcome {
    /// The completed bundle, tail first.
    Completed(Vec<String>),
    /// The job failed; the id lets the caller match the message to its job.
    Failed { id: String, message: String },
}

/// The answer to a status query.
#[derive(Debug, Clone, PartialEq, Eq)]
pub enum QueryResult {
    Completed(Vec<String>),
    Failed(String),
    /// No outcome is recorded: the job is still running or was never submitted.
    NotReady,
}

impl LinkError {
    pub open spec fn message_spec(&self) -> Seq<char> {
        match self {
            LinkError::MalformedTrytes(_) => "malformed transaction trytes"@,
            LinkError::MalformedResult(_) => "malformed proof-of-work result"@,
            LinkError::Codec(m) => m@,
            LinkError::Search(m) => m@,
            LinkError::Clock(_) => "the clock gave no time"@,
        }
    }

    /// A human-readable cause.
    pub fn message(self) -> (r: String)
        ensures
            r@ == self.message_spec(),
    {
        match self {
            LinkError::MalformedTrytes(_) => "malformed transaction trytes".to_owned(),
            LinkError::MalformedResult(_) => "malformed proof-of-work result".to_owned(),
            LinkError::Codec(m) => m,
            LinkError::Search(m) => m,
            LinkError::Clock(_) => "the clock gave no time".to_owned(),
        }
    }
}

/// The outcome recorded for job `id` whose linking ended with `result`.
pub fn outcome_of(id: String, result: Result<Vec<String>, LinkError>) -> (r: JobOutcome)
    ensures
        match result {
            Ok(trytes) => r == JobOutcome::Completed(trytes),
            Err(e) => r matches JobOutcome::Failed { id: i, message: m } && i == id && m@
                == e.message_spec(),
        },
{
    match result {
        Ok(trytes) => JobOutcome::Completed(trytes),
        Err(e) => JobOutcome::Failed { id, message: e.message() },
    }
}

/// A lowercase hexadecimal digit.
pub open spec fn is_hex_digit(c: char) -> bool {
    ('0' <= c && c <= '9') || ('a' <= c && c <= 'f')
}

/// Relies on uuid's `Uuid::new_v4` with its `simple` format: a random id of
/// 32 lowercase hexadecimal digits.
#[verifier::external_body]
fn random_job_id() -> (r: String)
    ensures
        r@.len() == 32,
        forall|i: int| 0 <= i < 32 ==> is_hex_digit(#[trigger] r@[i]),
{
    uuid::Uuid::new_v4().simple().to_string()
}

/// The job with its id replaced by `id`.
pub fn with_id(request: PowRequest, id: String) -> (r: PowRequest)
    ensures
        r.id == id,
        r.trunk_transaction == request.trunk_transaction,
        r.branch_transaction == request.branch_transaction,
        r.min_weight_magnitude == request.min_weight_magnitude,
        r.trytes == request.trytes,
{
    PowRequest { id, ..request }
}

/// Stamps a freshly drawn id on a submitted job; any id it carried is
/// replaced.
pub fn assign_id(request: PowRequest) -> (r: PowRequest)
    ensures
        r.id@.len() == 32,
        forall|i: int| 0 <= i < 32 ==> is_hex_digit(#[trigger] r.id@[i]),
        r.trunk_transaction == request.trunk_transaction,
        r.branch_transaction == request.branch_transaction,
        r.min_weight_magnitude == request.min_weight_magnitude,
        r.trytes == request.trytes,
{
    with_id(request, random_job_id())
}

/// The answer to a status query for a job whose recorded outcome is `entry`.
pub open spec fn query_spec(entry: Option<JobOutcome>) -> QueryResult {
    match entry {
        None => QueryResult::NotReady,
        Some(JobOutcome::Completed(trytes)) => QueryResult::Completed(trytes),
        Some(JobOutcome::Failed { message, .. }) => QueryResult::Failed(message),
    }
}

pub fn status_of(entry: Option<JobOutcome>) -> (r: QueryResult)
    ensures
        r == query_spec(entry),
{
    match entry {
        None => QueryResult::NotReady,
        Some(JobOutcome::Completed(trytes)) => QueryResult::Completed(trytes),
        Some(JobOutcome::Failed { message, .. }) => QueryResult::Failed(message),
    }
}

/// The answer to a status query for `id` against a store of outcomes.
pub open spec fn status_in(store: Map<Seq<char>, JobOutcome>, id: Seq<char>) -> QueryResult {
    query_spec(
        if store.contains_key(id) {
            Some(store[id])
        } else {
            None
        },
    )
}

/// The store after the worker records `writes`, in order; a later write for
/// an id replaces the earlier one.
pub open spec fn record_all(
    store: Map<Seq<char>, JobOutcome>,
    writes: Seq<(Seq<char>, JobOutcome)>,
) -> Map<Seq<char>, JobOutcome>
    decreases writes.len(),
{
    if writes.len() == 0 {
        store
    } else {
        record_all(store.insert(writes[0].0, writes[0].1), writes.drop_first())
    }
}

/// Once the outcome of job `id` is recorded, every later status query for
/// `id` returns that same outcome, whatever the worker records for other
/// jobs in between.
pub proof fn status_is_stable(
    store: Map<Seq<char>, JobOutcome>,
    id: Seq<char>,
    outcome: JobOutcome,
    later: Seq<(Seq<char>, JobOutcome)>,
)
    requires
        forall|k: int| 0 <= k < later.len() ==> (#[trigger] later[k]).0 != id,
    ensures
        status_in(record_all(store.insert(id, outcome), later), id) == query_spec(Some(outcome)),
    decreases later.len(),
{
    if later.len() > 0 {
        let next = store.insert(id, outcome).insert(later[0].0, later[0].1);
        assert(later[0].0 != id);
        assert(next =~= store.insert(later[0].0, later[0].1).insert(id, outcome));
        assert forall|k: int| 0 <= k < later.drop_first().len() implies (
        #[trigger] later.drop_first()[k]).0 != id by {
            assert(later.drop_first()[k] == later[k + 1]);
        }
        status_is_stable(store.insert(later[0].0, later[0].1), id, outcome, later.drop_first());
    }
}

} // verus!
