//! A proof-of-work attachment service: the transactions of a bundle are
//! linked to each other, handed one by one to a nonce search, and the outcome
//! of each job is kept for later status queries.

mod engine;
mod job;
mod linker;
mod transaction;

pub use engine::PowEngine;
pub use job::{assign_id, with_id, outcome_of, status_is_stable, status_of, JobOutcome, PowRequest, QueryResult};
pub use linker::{
    decode, first_takes_job_references, results_carry_links, results_carry_tags, results_carry_upper_bound, later_branch_is_job_trunk, link_transaction,
    needs_obsolete_tag, process_request, timestamp_bounds_fixed, unset_tag_replaced, LinkError,
};
pub use transaction::{is_transaction_trytes, ParsedTransaction, MAX_TIMESTAMP_VALUE};
