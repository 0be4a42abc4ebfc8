//! Linking a bundle: each transaction is chained to the one before it, handed
//! to the nonce search, and the completed chain is published tail first.

use crate::engine::{refs_are_trytes, PowEngine};
use crate::job::PowRequest;
use crate::transaction::{
    branch_field, decode_transaction, error_message, has_nine_section, is_transaction_trytes,
    is_transaction_trytes_spec, now_millis, obsolete_tag_field, tag_field, transaction_hash,
    trunk_field, int_trits, is_trytes_of_len, is_tryte, max_timestamp_reads_back, timestamps_fit, trits_of_trytes,
    trits_value, ParsedTransaction, MAX_TIMESTAMP_VALUE,
};
use vstd::prelude::*;

verus! {

/// Why a bundle could not be linked.
#[derive(Debug, Clone, PartialEq, Eq)]
pub enum LinkError {
    /// The transaction at this index is not a well-formed tryte string.
    MalformedTrytes(usize),
    /// The search returned a buffer for the transaction at this index that
    /// does not decode to a transaction.
    MalformedResult(usize),
    /// The codec refused a transaction, with its message.
    Codec(String),
    /// The nonce search failed, with its message.
    Search(String),
    /// The clock gave no time to stamp on the transaction at this index.
    Clock(usize),
}

/// The tag value that marks a tag as unset: 27 nines.
pub open spec fn unset_tag() -> Seq<char> {
    Seq::new(27, |i: int| '9')
}

/// A tag that is empty or unset gives way to the obsolete tag.
pub open spec fn needs_obsolete_tag_spec(tag: Seq<char>) -> bool {
    tag.len() == 0 || tag == unset_tag()
}

/// The tag that a transaction carries once linked.
pub open spec fn linked_tag(tag: Seq<char>, obsolete_tag: Seq<char>) -> Seq<char> {
    if needs_obsolete_tag_spec(tag) {
        obsolete_tag
    } else {
        tag
    }
}

/// `t` is the transaction decoded from `source`, linked after the transaction
/// whose hash is `previous` (or first in its bundle when `previous` is `None`).
pub open spec fn is_linked(
    t: ParsedTransaction,
    source: Seq<char>,
    previous: Option<Seq<char>>,
    trunk: Seq<char>,
    branch: Seq<char>,
) -> bool {
    &&& t.trunk_transaction@ == (match previous {
        Some(h) => h,
        None => trunk,
    })
    &&& t.branch_transaction@ == (if previous is Some {
        trunk
    } else {
        branch
    })
    &&& t.tag@ == linked_tag(tag_field(source), obsolete_tag_field(source))
    &&& t.attachment_timestamp_lower_bound == 0
    &&& t.attachment_timestamp_upper_bound == MAX_TIMESTAMP_VALUE
}

/// Whether a tag is unset, so that the obsolete tag takes its place.
pub fn needs_obsolete_tag(tag: &String) -> (r: bool)
    ensures
        r == needs_obsolete_tag_spec(tag@),
{
    let s = tag.as_str();
    let len = s.unicode_len();
    if len == 0 {
        return true;
    }
    if len != 27 {
        assert(tag@.len() != unset_tag().len());
        return false;
    }
    let mut i: usize = 0;
    while i < 27
        invariant
            s@ == tag@,
            s@.len() == 27,
            i <= 27,
            forall|j: int| 0 <= j < i ==> #[trigger] s@[j] == '9',
        decreases 27 - i,
    {
        if s.get_char(i) != '9' {
            assert(tag@[i as int] != unset_tag()[i as int]);
            return false;
        }
        i = i + 1;
    }
    assert(tag@ =~= unset_tag());
    true
}

/// Sets the references, tag and attachment timestamps of one transaction of
/// a bundle. The first transaction takes the job's trunk and branch; every
/// later one takes the hash of its predecessor as trunk and the job's trunk
/// as branch.
pub fn link_transaction(
    tx: &mut ParsedTransaction,
    previous: &Option<String>,
    trunk: &String,
    branch: &String,
    timestamp: i64,
)
    ensures
        final(tx).trunk_transaction@ == (match previous {
            Some(h) => h@,
            None => trunk@,
        }),
        final(tx).branch_transaction@ == (if previous is Some {
            trunk@
        } else {
            branch@
        }),
        final(tx).tag@ == linked_tag(old(tx).tag@, old(tx).obsolete_tag@),
        final(tx).attachment_timestamp == timestamp,
        final(tx).attachment_timestamp_lower_bound == 0,
        final(tx).attachment_timestamp_upper_bound == MAX_TIMESTAMP_VALUE,
        final(tx).obsolete_tag == old(tx).obsolete_tag,
        final(tx).hash == old(tx).hash,
        final(tx).fields == old(tx).fields,
{
    match previous {
        Some(h) => {
            tx.trunk_transaction = h.clone();
            tx.branch_transaction = trunk.clone();
        },
        None => {
            tx.trunk_transaction = trunk.clone();
            tx.branch_transaction = branch.clone();
        },
    }
    if needs_obsolete_tag(&tx.tag) {
        tx.tag = tx.obsolete_tag.clone();
    }
    tx.attachment_timestamp = timestamp;
    tx.attachment_timestamp_lower_bound = 0;
    tx.attachment_timestamp_upper_bound = MAX_TIMESTAMP_VALUE;
}

/// What linking a bundle leaves behind: every transaction handed to the search
/// since `s0` is linked after the result that the search completed before it.
pub open spec fn chain_linked(
    submitted: Seq<ParsedTransaction>,
    completed: Seq<Seq<char>>,
    s0: int,
    c0: int,
    request: PowRequest,
) -> bool {
    forall|i: int|
        0 <= i < submitted.len() - s0 ==> is_linked(
            #[trigger] submitted[s0 + i],
            request.trytes@[i]@,
            if i == 0 {
                None
            } else {
                Some(transaction_hash(completed[c0 + i - 1]))
            },
            request.trunk_transaction@,
            request.branch_transaction@,
        )
}

/// The references that each completed string carries, when the job's trunk
/// and branch are 81 trytes each: the first carries the job's trunk and
/// branch; every later one carries the hash of the string completed before it
/// as trunk and the job's trunk as branch; each carries the tag that linking
/// gave its transaction.
pub open spec fn results_linked(completed: Seq<Seq<char>>, c0: int, request: PowRequest) -> bool {
    is_trytes_of_len(request.trunk_transaction@, 81) && is_trytes_of_len(
        request.branch_transaction@,
        81,
    ) ==> forall|i: int|
        0 <= i < completed.len() - c0 ==> {
            &&& trunk_field(#[trigger] completed[c0 + i]) == if i == 0 {
                request.trunk_transaction@
            } else {
                transaction_hash(completed[c0 + i - 1])
            }
            &&& branch_field(completed[c0 + i]) == if i == 0 {
                request.branch_transaction@
            } else {
                request.trunk_transaction@
            }
            &&& tag_field(completed[c0 + i]) == linked_tag(
                tag_field(request.trytes@[i]@),
                obsolete_tag_field(request.trytes@[i]@),
            )
        }
}

/// When the job's references are 81 trytes each, every completed string whose
/// attachment timestamp fit in 27 trits holds, at trits 7911 to 7938, the
/// trits of the largest attachment timestamp as its upper bound.
pub open spec fn results_bounded(
    completed: Seq<Seq<char>>,
    c0: int,
    submitted: Seq<ParsedTransaction>,
    s0: int,
    request: PowRequest,
) -> bool {
    is_trytes_of_len(request.trunk_transaction@, 81) && is_trytes_of_len(
        request.branch_transaction@,
        81,
    ) ==> forall|i: int|
        0 <= i < completed.len() - c0 && -MAX_TIMESTAMP_VALUE <= (#[trigger] submitted[s0
            + i]).attachment_timestamp <= MAX_TIMESTAMP_VALUE ==> trits_of_trytes(completed[c0 + i]).subrange(7911, 7938)
            == int_trits(MAX_TIMESTAMP_VALUE as int, 27)
}

/// The codec refuses to encode a linked transaction only when its attachment
/// timestamp, read from the clock, does not fit in 27 trits; the run then
/// stops on that error, before any further search.
pub open spec fn refused_at_failure(
    r: Result<Vec<String>, LinkError>,
    old_refused: Seq<ParsedTransaction>,
    refused: Seq<ParsedTransaction>,
    done: int,
    handed: int,
) -> bool {
    ||| refused == old_refused
    ||| (handed == done && refused.len() == old_refused.len() + 1 && refused.subrange(
        0,
        old_refused.len() as int,
    ) == old_refused && !timestamps_fit(refused.last()) && r matches Err(LinkError::Codec(_)))
}

/// Every search that linking ran was given the job's difficulty.
pub open spec fn steps_taken(
    request: PowRequest,
    old_difficulties: Seq<usize>,
    difficulties: Seq<usize>,
    s0: int,
    submitted: Seq<ParsedTransaction>,
) -> bool {
    &&& difficulties.len() - old_difficulties.len() == submitted.len() - s0
    &&& difficulties.subrange(0, old_difficulties.len() as int) == old_difficulties
    &&& forall|k: int|
        old_difficulties.len() <= k < difficulties.len() ==> #[trigger] difficulties[k]
            == request.min_weight_magnitude
}

/// A string of the tryte alphabet and length that decodes.
pub open spec fn decodes(s: Seq<char>) -> bool {
    is_transaction_trytes_spec(s) && has_nine_section(s)
}

/// How a run of linking that stopped early ended: each error comes on the
/// first step that fails (a malformed or undecodable transaction, no time from
/// the clock, a refused encoding, a failed search, a malformed or undecodable
/// result), and nothing runs after it.
pub open spec fn stopped_at_failure(
    r: Result<Vec<String>, LinkError>,
    refused_grew: bool,
    request: PowRequest,
    c0: int,
    completed: Seq<Seq<char>>,
    s0: int,
    submitted: Seq<ParsedTransaction>,
) -> bool {
    let done = completed.len() - c0;
    let handed = submitted.len() - s0;
    let prior_ok = done == 0 || decodes(completed[c0 + done - 1]);
    let next_ok = done < request.trytes@.len() && prior_ok && decodes(request.trytes@[done]@);
    &&& forall|k: int| 0 <= k < done ==> decodes(#[trigger] request.trytes@[k]@)
    &&& forall|k: int| 0 <= k < done - 1 ==> decodes(#[trigger] completed[c0 + k])
    &&& r is Ok ==> forall|k: int| 0 <= k < done ==> decodes(#[trigger] completed[c0 + k])
    &&& r is Err ==> {
        ||| (handed == done + 1 && next_ok && r matches Err(LinkError::Search(_)))
        ||| (handed == done && next_ok && refused_grew && r matches Err(LinkError::Codec(_)))
        ||| (handed == done && next_ok && r == Err::<Vec<String>, LinkError>(
            LinkError::Clock(done as usize),
        ))
        ||| (handed == done && done > 0 && !is_transaction_trytes_spec(completed[c0 + done - 1])
            && r == Err::<Vec<String>, LinkError>(LinkError::MalformedResult((done - 1) as usize)))
        ||| (handed == done && done > 0 && is_transaction_trytes_spec(completed[c0 + done - 1])
            && !has_nine_section(completed[c0 + done - 1]) && r matches Err(LinkError::Codec(_)))
        ||| (handed == done && prior_ok && done < request.trytes@.len()
            && !is_transaction_trytes_spec(request.trytes@[done]@)
            && r == Err::<Vec<String>, LinkError>(LinkError::MalformedTrytes(done as usize)))
        ||| (handed == done && prior_ok && done < request.trytes@.len()
            && is_transaction_trytes_spec(request.trytes@[done]@)
            && !has_nine_section(request.trytes@[done]@) && r matches Err(LinkError::Codec(_)))
    }
}

/// The only ways a job whose transactions all decode, whose references are
/// 81 trytes each and whose difficulty is at most 243 can fail: the clock gave
/// no time, or a time that does not fit the 27 trits of a timestamp, so that
/// the codec refused the transaction or the search its buffer.
pub open spec fn failed_on_clock(
    r: Result<Vec<String>, LinkError>,
    old_refused: Seq<ParsedTransaction>,
    refused: Seq<ParsedTransaction>,
    submitted: Seq<ParsedTransaction>,
    s0: int,
) -> bool {
    ||| r matches Err(LinkError::Clock(_))
    ||| (refused.len() > old_refused.len() && !timestamps_fit(refused.last()))
    ||| (submitted.len() > s0 && !timestamps_fit(submitted.last()))
}

/// Links the bundle of `request` and runs the nonce search on each of its
/// transactions, in order, each one chained to the result of the one before.
/// The completed chain is returned tail first.
pub fn process_request(engine: &mut PowEngine, request: PowRequest)
    -> (r: Result<Vec<String>, LinkError>)
    ensures
        ({
            let n = request.trytes@.len();
            let s0 = old(engine).submitted().len();
            let c0 = old(engine).completed().len();
            let submitted = final(engine).submitted();
            let completed = final(engine).completed();
            let old_refused = old(engine).refused();
            let refused = final(engine).refused();
            &&& s0 <= submitted.len() <= s0 + n
            &&& submitted.subrange(0, s0 as int) == old(engine).submitted()
            &&& c0 <= completed.len() <= c0 + n
            &&& completed.subrange(0, c0 as int) == old(engine).completed()
            &&& chain_linked(submitted, completed, s0 as int, c0 as int, request)
            &&& r is Ok ==> submitted.len() == s0 + n && completed.len() == c0 + n
            &&& r matches Ok(out) ==> (out@.len() == n && forall|k: int|
                0 <= k < n ==> #[trigger] out@[k]@ == completed[c0 + n - 1 - k])
            &&& n == 0 ==> r is Ok && submitted == old(engine).submitted()
            &&& r matches Err(LinkError::MalformedTrytes(i)) ==> i < n
                && !is_transaction_trytes_spec(request.trytes@[i as int]@)
                && submitted.len() == s0 + i
            &&& (n > 0 && !is_transaction_trytes_spec(request.trytes@[0]@)) ==> r == Err::<
                Vec<String>,
                LinkError,
            >(LinkError::MalformedTrytes(0)) && submitted == old(engine).submitted()
            &&& steps_taken(
                request,
                old(engine).difficulties(),
                final(engine).difficulties(),
                s0 as int,
                submitted,
            )
            &&& stopped_at_failure(
                r,
                refused.len() > old_refused.len(),
                request,
                c0 as int,
                completed,
                s0 as int,
                submitted,
            )
            &&& refused_at_failure(
                r,
                old_refused,
                refused,
                completed.len() - c0,
                submitted.len() - s0,
            )
            &&& results_linked(completed, c0 as int, request)
            &&& results_bounded(completed, c0 as int, submitted, s0 as int, request)
            &&& forall|k: int|
                0 <= k < submitted.len() - s0 ==> (#[trigger] submitted[s0 + k]).attachment_timestamp
                    != i64::MIN
            &&& ((forall|k: int| 0 <= k < n ==> decodes(#[trigger] request.trytes@[k]@))
                && is_trytes_of_len(request.trunk_transaction@, 81) && is_trytes_of_len(
                request.branch_transaction@,
                81,
            ) && request.min_weight_magnitude <= 243) ==> (r is Ok || failed_on_clock(
                r,
                old_refused,
                refused,
                submitted,
                s0 as int,
            ))
        }),
{
    let ghost s0 = engine.submitted().len();
    let ghost c0 = engine.completed().len();
    let n = request.trytes.len();
    let mut chain: Vec<String> = Vec::new();
    let mut previous: Option<String> = None;
    let mut i: usize = 0;
    assert(engine.submitted().subrange(0, s0 as int) =~= engine.submitted());
    assert(engine.completed().subrange(0, c0 as int) =~= engine.completed());
    let ghost d0 = engine.difficulties().len();
    assert(engine.difficulties().subrange(0, d0 as int) =~= engine.difficulties());
    while i < n
        invariant
            n == request.trytes@.len(),
            i <= n,
            chain@.len() == i,
            engine.submitted().len() == s0 + i,
            engine.completed().len() == c0 + i,
            engine.submitted().subrange(0, s0 as int) == old(engine).submitted(),
            engine.completed().subrange(0, c0 as int) == old(engine).completed(),
            forall|k: int| 0 <= k < i ==> #[trigger] chain@[k]@ == engine.completed()[c0 + k],
            i == 0 ==> previous is None,
            i > 0 ==> is_transaction_trytes_spec(request.trytes@[0]@),
            forall|k: int| 0 <= k < i ==> decodes(#[trigger] request.trytes@[k]@),
            forall|k: int| 0 <= k < i ==> decodes(#[trigger] engine.completed()[c0 + k]),
            steps_taken(
                request,
                old(engine).difficulties(),
                engine.difficulties(),
                s0 as int,
                engine.submitted(),
            ),
            d0 == old(engine).difficulties().len(),
            engine.refused() == old(engine).refused(),
            i > 0 ==> is_trytes_of_len(transaction_hash(engine.completed()[c0 + i - 1]), 81),
            results_linked(engine.completed(), c0 as int, request),
            results_bounded(engine.completed(), c0 as int, engine.submitted(), s0 as int, request),
            forall|k: int|
                0 <= k < engine.submitted().len() - s0 ==> (#[trigger] engine.submitted()[s0
                    + k]).attachment_timestamp != i64::MIN,
            i > 0 ==> (previous matches Some(h) && h@ == transaction_hash(
                engine.completed()[c0 + i - 1],
            )),
            chain_linked(engine.submitted(), engine.completed(), s0 as int, c0 as int, request),
        decreases n - i,
    {
        let source = request.trytes[i].as_str();
        assert(i == 0 || decodes(engine.completed()[c0 + (i - 1)]));
        if !is_transaction_trytes(source) {
            if i == 0 {
                assert(engine.submitted() =~= engine.submitted().subrange(0, s0 as int));
            }
            return Err(LinkError::MalformedTrytes(i));
        }
        let mut tx = match decode_transaction(source) {
            Ok(t) => t,
            Err(e) => {
                return Err(LinkError::Codec(error_message(&e)));
            },
        };
        assert(decodes(request.trytes@[i as int]@));
        let timestamp = match now_millis() {
            Some(t) => t,
            None => {
                return Err(LinkError::Clock(i));
            },
        };
        link_transaction(
            &mut tx,
            &previous,
            &request.trunk_transaction,
            &request.branch_transaction,
            timestamp,
        );
        let ghost before = engine.submitted();
        let ghost before_completed = engine.completed();
        let ghost before_difficulties = engine.difficulties();
        proof {
            assert forall|k: int| 0 <= k < 27 implies is_tryte(#[trigger] tx.tag@[k]) by {
                if needs_obsolete_tag_spec(tag_field(source@)) {
                    assert(tx.tag@[k] == source@[2295 + k]);
                } else {
                    assert(tx.tag@[k] == source@[2592 + k]);
                }
            }
            assert(is_trytes_of_len(tx.tag@, 27));
        }
        let attached = engine.attach(&tx, request.min_weight_magnitude);
        proof {
            assert(engine.submitted().subrange(0, s0 as int) =~= before.subrange(0, s0 as int));
            assert(engine.completed().subrange(0, c0 as int) =~= before_completed.subrange(0, c0 as int));
            assert(engine.difficulties().subrange(0, d0 as int) =~= before_difficulties.subrange(0, d0 as int));
            assert forall|k: int| d0 <= k < engine.difficulties().len() implies #[trigger] engine.difficulties()[k]
                == request.min_weight_magnitude by {
                if k < before_difficulties.len() {
                    assert(engine.difficulties()[k] == before_difficulties[k]);
                }
            }
            assert forall|k: int| 0 <= k < engine.submitted().len() - s0 implies is_linked(
                #[trigger] engine.submitted()[s0 + k],
                request.trytes@[k]@,
                if k == 0 {
                    None
                } else {
                    Some(transaction_hash(engine.completed()[c0 + k - 1]))
                },
                request.trunk_transaction@,
                request.branch_transaction@,
            ) by {
                if k < i {
                    assert(engine.submitted()[s0 + k] == before[s0 + k]);
                    if k > 0 {
                        assert(engine.completed()[c0 + k - 1] == before_completed[c0 + k - 1]);
                    }
                }
            }
        }
        let done = match attached {
            Ok(s) => {
                proof {
                    assert(refs_are_trytes(tx) || !(is_trytes_of_len(request.trunk_transaction@, 81)
                        && is_trytes_of_len(request.branch_transaction@, 81)));
                    assert forall|k: int| 0 <= k < i implies #[trigger] engine.completed()[c0 + k]
                        == before_completed[c0 + k] by {}
                    assert(engine.submitted()[s0 + i] == tx);
                }
                s
            },
            Err(e) => {
                assert(i == 0 || decodes(engine.completed()[c0 + (i - 1)]));
                proof {
                    if engine.refused().len() > old(engine).refused().len() {
                        assert(engine.refused().subrange(0, old(engine).refused().len() as int)
                            =~= old(engine).refused());
                        assert(engine.refused().last() == tx);
                    }
                }
                return Err(e);
            },
        };
        if !is_transaction_trytes(done.as_str()) {
            return Err(LinkError::MalformedResult(i));
        }
        let completed_tx = match decode_transaction(done.as_str()) {
            Ok(t) => t,
            Err(e) => {
                return Err(LinkError::Codec(error_message(&e)));
            },
        };
        previous = Some(completed_tx.hash);
        chain.push(done);
        i = i + 1;
    }
    let mut out: Vec<String> = Vec::new();
    while chain.len() > 0
        invariant
            n == request.trytes@.len(),
            n > 0 ==> is_transaction_trytes_spec(request.trytes@[0]@),
            forall|k: int| 0 <= k < n ==> decodes(#[trigger] request.trytes@[k]@),
            forall|k: int| 0 <= k < n ==> decodes(#[trigger] engine.completed()[c0 + k]),
            steps_taken(
                request,
                old(engine).difficulties(),
                engine.difficulties(),
                s0 as int,
                engine.submitted(),
            ),
            results_linked(engine.completed(), c0 as int, request),
            results_bounded(engine.completed(), c0 as int, engine.submitted(), s0 as int, request),
            engine.refused() == old(engine).refused(),
            forall|k: int|
                0 <= k < engine.submitted().len() - s0 ==> (#[trigger] engine.submitted()[s0
                    + k]).attachment_timestamp != i64::MIN,
            chain@.len() + out@.len() == n,
            engine.submitted().len() == s0 + n,
            engine.completed().len() == c0 + n,
            engine.submitted().subrange(0, s0 as int) == old(engine).submitted(),
            engine.completed().subrange(0, c0 as int) == old(engine).completed(),
            chain_linked(engine.submitted(), engine.completed(), s0 as int, c0 as int, request),
            forall|k: int| 0 <= k < chain@.len() ==> #[trigger] chain@[k]@ == engine.completed()[c0 + k],
            forall|k: int| 0 <= k < out@.len() ==> #[trigger] out@[k]@ == engine.completed()[c0 + n - 1 - k],
        decreases chain@.len(),
    {
        let last = chain.pop().unwrap();
        out.push(last);
    }
    if n == 0 {
        assert(engine.submitted() =~= engine.submitted().subrange(0, s0 as int));
    }
    Ok(out)
}

/// Decodes one transaction's tryte string, refusing one that does not have
/// the length and alphabet of a transaction.
pub fn decode(s: &String) -> (r: Result<ParsedTransaction, LinkError>)
    ensures
        !is_transaction_trytes_spec(s@) ==> r == Err::<ParsedTransaction, LinkError>(
            LinkError::MalformedTrytes(0),
        ),
        is_transaction_trytes_spec(s@) && !has_nine_section(s@) ==> r matches Err(
            LinkError::Codec(_),
        ),
        decodes(s@) ==> r is Ok,
        r matches Ok(t) ==> {
            &&& t.hash@ == transaction_hash(s@)
            &&& t.trunk_transaction@ == trunk_field(s@)
            &&& t.branch_transaction@ == branch_field(s@)
            &&& t.tag@ == tag_field(s@)
            &&& t.obsolete_tag@ == obsolete_tag_field(s@)
        },
{
    if !is_transaction_trytes(s.as_str()) {
        return Err(LinkError::MalformedTrytes(0));
    }
    match decode_transaction(s.as_str()) {
        Ok(t) => Ok(t),
        Err(e) => Err(LinkError::Codec(error_message(&e))),
    }
}

/// Of the transactions that linking hands to the search: every one after the
/// first branches back to the job's own trunk reference, not to its
/// predecessor.
pub proof fn later_branch_is_job_trunk(
    submitted: Seq<ParsedTransaction>,
    completed: Seq<Seq<char>>,
    s0: int,
    c0: int,
    request: PowRequest,
    i: int,
)
    requires
        chain_linked(submitted, completed, s0, c0, request),
        0 < i < submitted.len() - s0,
    ensures
        submitted[s0 + i].branch_transaction@ == request.trunk_transaction@,
{
    assert(is_linked(
        submitted[s0 + i],
        request.trytes@[i]@,
        Some(transaction_hash(completed[c0 + i - 1])),
        request.trunk_transaction@,
        request.branch_transaction@,
    ));
}

/// Of the transactions that linking hands to the search: the first takes the
/// job's trunk and branch references exactly.
pub proof fn first_takes_job_references(
    submitted: Seq<ParsedTransaction>,
    completed: Seq<Seq<char>>,
    s0: int,
    c0: int,
    request: PowRequest,
)
    requires
        chain_linked(submitted, completed, s0, c0, request),
        s0 < submitted.len(),
    ensures
        submitted[s0].trunk_transaction@ == request.trunk_transaction@,
        submitted[s0].branch_transaction@ == request.branch_transaction@,
{
    assert(is_linked(
        submitted[s0 + 0],
        request.trytes@[0]@,
        None,
        request.trunk_transaction@,
        request.branch_transaction@,
    ));
}

/// Of the transactions that linking hands to the search: every one carries
/// the largest attachment timestamp as its upper bound, and zero as its lower
/// bound.
pub proof fn timestamp_bounds_fixed(
    submitted: Seq<ParsedTransaction>,
    completed: Seq<Seq<char>>,
    s0: int,
    c0: int,
    request: PowRequest,
    i: int,
)
    requires
        chain_linked(submitted, completed, s0, c0, request),
        0 <= i < submitted.len() - s0,
    ensures
        submitted[s0 + i].attachment_timestamp_upper_bound == MAX_TIMESTAMP_VALUE,
        submitted[s0 + i].attachment_timestamp_lower_bound == 0,
{
    assert(is_linked(
        submitted[s0 + i],
        request.trytes@[i]@,
        if i == 0 {
            None
        } else {
            Some(transaction_hash(completed[c0 + i - 1]))
        },
        request.trunk_transaction@,
        request.branch_transaction@,
    ));
}

/// The tag that linking gives a transaction before the search: an empty tag
/// or one of 27 nines is replaced by the obsolete tag; any other tag is kept.
pub proof fn unset_tag_replaced(tag: Seq<char>, obsolete_tag: Seq<char>)
    ensures
        (tag.len() == 0 || tag == unset_tag()) ==> linked_tag(tag, obsolete_tag) == obsolete_tag,
        !(tag.len() == 0 || tag == unset_tag()) ==> linked_tag(tag, obsolete_tag) == tag,
{
}

/// Of the completed strings, when the job's references are 81 trytes each:
/// the first carries the job's trunk and branch exactly, and every later one
/// branches back to the job's trunk and has the hash of its predecessor as
/// trunk.
pub proof fn results_carry_links(
    completed: Seq<Seq<char>>,
    c0: int,
    request: PowRequest,
    i: int,
)
    requires
        results_linked(completed, c0, request),
        is_trytes_of_len(request.trunk_transaction@, 81),
        is_trytes_of_len(request.branch_transaction@, 81),
        0 <= i < completed.len() - c0,
    ensures
        i == 0 ==> trunk_field(completed[c0]) == request.trunk_transaction@ && branch_field(
            completed[c0],
        ) == request.branch_transaction@,
        i > 0 ==> branch_field(completed[c0 + i]) == request.trunk_transaction@ && trunk_field(
            completed[c0 + i],
        ) == transaction_hash(completed[c0 + i - 1]),
{
    assert(branch_field(completed[c0 + i]) == if i == 0 {
        request.branch_transaction@
    } else {
        request.trunk_transaction@
    });
}

/// Of the completed strings, when the job's references are 81 trytes each:
/// a transaction whose tag is empty or 27 nines carries its obsolete tag, and
/// any other keeps its own tag.
pub proof fn results_carry_tags(
    completed: Seq<Seq<char>>,
    c0: int,
    request: PowRequest,
    i: int,
)
    requires
        results_linked(completed, c0, request),
        is_trytes_of_len(request.trunk_transaction@, 81),
        is_trytes_of_len(request.branch_transaction@, 81),
        0 <= i < completed.len() - c0,
    ensures
        needs_obsolete_tag_spec(tag_field(request.trytes@[i]@)) ==> tag_field(completed[c0 + i])
            == obsolete_tag_field(request.trytes@[i]@),
        !needs_obsolete_tag_spec(tag_field(request.trytes@[i]@)) ==> tag_field(completed[c0 + i])
            == tag_field(request.trytes@[i]@),
{
    assert(tag_field(completed[c0 + i]) == linked_tag(
        tag_field(request.trytes@[i]@),
        obsolete_tag_field(request.trytes@[i]@),
    ));
}

/// Of the completed strings, when the job's references are 81 trytes each and
/// the transaction's attachment timestamp fit in 27 trits: the upper
/// timestamp bound that decoding reads from it is `(3^27 - 1) / 2`.
pub proof fn results_carry_upper_bound(
    completed: Seq<Seq<char>>,
    c0: int,
    submitted: Seq<ParsedTransaction>,
    s0: int,
    request: PowRequest,
    i: int,
)
    requires
        results_bounded(completed, c0, submitted, s0, request),
        is_trytes_of_len(request.trunk_transaction@, 81),
        is_trytes_of_len(request.branch_transaction@, 81),
        0 <= i < completed.len() - c0,
        -MAX_TIMESTAMP_VALUE <= submitted[s0 + i].attachment_timestamp <= MAX_TIMESTAMP_VALUE,
    ensures
        trits_value(trits_of_trytes(completed[c0 + i]).subrange(7911, 7938)) == MAX_TIMESTAMP_VALUE,
{
    assert(trits_of_trytes(completed[c0 + i]).subrange(7911, 7938) == int_trits(
        MAX_TIMESTAMP_VALUE as int,
        27,
    ));
    max_timestamp_reads_back();
}

} // verus!
