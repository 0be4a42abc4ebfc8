//! The nonce search, owned by the single worker, and the record of every
//! transaction handed to it.

use crate::linker::{decodes, LinkError};
use crate::transaction::{
    are_trits, branch_field, decode_trits, encode_transaction, error_message, is_tryte,
    int_trits, is_trytes_of_len, tag_field, timestamps_fit, trits_of_trytes, trunk_field, tryte_trits, tryte_trits_injective,
    ParsedTransaction,
};
use vstd::prelude::*;

verus! {

#[verifier::external_type_specification]
#[verifier::external_body]
pub struct ExPearlDiver(iota_lib_rs::iota_pow::PearlDiver);

/// Relies on iota-pow's `PearlDiver::new`: a search engine that has not started.
#[verifier::external_body]
fn new_pearl_diver() -> (r: iota_lib_rs::iota_pow::PearlDiver) {
    iota_lib_rs::iota_pow::PearlDiver::new()
}

/// Relies on iota-pow's `PearlDiver::search`: it refuses a buffer that is not
/// 8019 trits long or a difficulty above 243 (and a search that was cancelled,
/// which nothing here does), and otherwise returns a copy of
/// the buffer whose last 243 trits it has filled in, each with -1, 0 or 1,
/// from its search state.
/// That state holds the buffer's own trits at its first 162 places, which
/// the search never changes, so a buffer of trits in -1..=1 keeps its first
/// 7938 trits.
#[verifier::external_body]
fn pearl_search(
    diver: &mut iota_lib_rs::iota_pow::PearlDiver,
    trits: Vec<i8>,
    min_weight_magnitude: usize,
) -> (r: Result<Vec<i8>, failure::Error>)
    ensures
        trits@.len() != 8019 ==> r is Err,
        min_weight_magnitude > 243 ==> r is Err,
        trits@.len() == 8019 && min_weight_magnitude <= 243 ==> r is Ok,
        r matches Ok(out) ==> (are_trits(trits@) ==> are_trits(out@)),
        r matches Ok(out) ==> out@.len() == 8019
            && out@.subrange(0, 7776) == trits@.subrange(0, 7776),
        r matches Ok(out) ==> (are_trits(trits@) ==> out@.subrange(0, 7938) == trits@.subrange(
            0,
            7938,
        )),
{
    let options = iota_lib_rs::iota_pow::PowOptions {
        min_weight_magnitude,
        ..iota_lib_rs::iota_pow::PowOptions::default()
    };
    diver.search(trits, options)
}

/// Trunk and branch references of 81 trytes each.
pub open spec fn refs_are_trytes(tx: ParsedTransaction) -> bool {
    is_trytes_of_len(tx.trunk_transaction@, 81) && is_trytes_of_len(tx.branch_transaction@, 81)
}

/// A field of `len` trytes that starts at tryte `at` of the encoded buffer
/// reads back from the searched buffer unchanged, when the search kept the
/// buffer's first 7938 trits.
proof fn carried_through(
    encoded: Seq<i8>,
    out: Seq<i8>,
    s: Seq<char>,
    field: Seq<char>,
    at: int,
    len: int,
)
    requires
        is_trytes_of_len(field, len as nat),
        0 <= at,
        0 <= len,
        3 * (at + len) <= 7938,
        encoded.len() >= 7938,
        encoded.subrange(3 * at, 3 * (at + len)) == trits_of_trytes(field),
        out.len() == 8019,
        out.subrange(0, 7938) == encoded.subrange(0, 7938),
        s.len() == 2673,
        forall|i: int|
            0 <= i < s.len() && are_trits(out.subrange(3 * i, 3 * i + 3)) ==> is_tryte(
                #[trigger] s[i],
            ) && tryte_trits(s[i]) == out.subrange(3 * i, 3 * i + 3),
    ensures
        s.subrange(at, at + len) == field,
{
    assert forall|k: int| 0 <= k < len implies #[trigger] s[at + k] == field[k] by {
        let i = at + k;
        let chunk = out.subrange(3 * i, 3 * i + 3);
        assert forall|j: int| 0 <= j < 3 implies chunk[j] == tryte_trits(field[k])[j] by {
            assert(chunk[j] == out[3 * i + j]);
            assert(out[3 * i + j] == out.subrange(0, 7938)[3 * i + j]);
            assert(encoded[3 * i + j] == encoded.subrange(3 * at, 3 * (at + len))[3 * k + j]);
            assert(trits_of_trytes(field)[3 * k + j] == tryte_trits(field[(3 * k + j) / 3])[(3 * k
                + j) % 3]);
            assert((3 * k + j) / 3 == k && (3 * k + j) % 3 == j);
        }
        assert(chunk =~= tryte_trits(field[k]));
        assert(are_trits(chunk));
        tryte_trits_injective(s[i], field[k]);
    }
    assert forall|k: int| 0 <= k < len implies s.subrange(at, at + len)[k] == field[k] by {
        assert(s[at + k] == field[k]);
    }
    assert(s.subrange(at, at + len) =~= field);
}

/// Trits `from..to` of the searched buffer, in whole trytes below 7938,
/// are the trits of the trytes decoded from it.
proof fn trits_read_back(encoded: Seq<i8>, out: Seq<i8>, s: Seq<char>, from: int, to: int)
    requires
        are_trits(encoded),
        encoded.len() >= 7938,
        out.len() == 8019,
        out.subrange(0, 7938) == encoded.subrange(0, 7938),
        s.len() == 2673,
        0 <= from <= to <= 7938,
        from % 3 == 0,
        forall|i: int|
            0 <= i < s.len() && are_trits(out.subrange(3 * i, 3 * i + 3)) ==> is_tryte(
                #[trigger] s[i],
            ) && tryte_trits(s[i]) == out.subrange(3 * i, 3 * i + 3),
    ensures
        trits_of_trytes(s).subrange(from, to) == out.subrange(from, to),
{
    assert forall|j: int| from <= j < to implies #[trigger] trits_of_trytes(s)[j] == out[j] by {
        let i = j / 3;
        let chunk = out.subrange(3 * i, 3 * i + 3);
        assert forall|m: int| 0 <= m < 3 implies -1 <= #[trigger] chunk[m] <= 1 by {
            assert(chunk[m] == out[3 * i + m]);
            assert(out[3 * i + m] == out.subrange(0, 7938)[3 * i + m]);
            assert(encoded[3 * i + m] == encoded.subrange(0, 7938)[3 * i + m]);
        }
        assert(are_trits(chunk));
        assert(tryte_trits(s[i]) == chunk);
        assert(chunk[j % 3] == out[3 * i + j % 3]);
    }
    assert(trits_of_trytes(s).subrange(from, to) =~= out.subrange(from, to));
}

/// The string decoded from a completed search is a transaction's tryte
/// string whose nine section, carried from the encoded buffer, is intact.
proof fn decoded_result_decodes(encoded: Seq<i8>, out: Seq<i8>, s: Seq<char>)
    requires
        are_trits(out),
        encoded.len() == 8019,
        encoded.subrange(6837, 6885) == Seq::new(48, |j: int| 0i8),
        out.len() == 8019,
        out.subrange(0, 7776) == encoded.subrange(0, 7776),
        s.len() == 2673,
        forall|i: int|
            0 <= i < s.len() && are_trits(out.subrange(3 * i, 3 * i + 3)) ==> is_tryte(
                #[trigger] s[i],
            ) && tryte_trits(s[i]) == out.subrange(3 * i, 3 * i + 3),
    ensures
        decodes(s),
{
    assert forall|i: int| 0 <= i < s.len() implies is_tryte(#[trigger] s[i]) by {
        let chunk = out.subrange(3 * i, 3 * i + 3);
        assert forall|m: int| 0 <= m < 3 implies -1 <= #[trigger] chunk[m] <= 1 by {
            assert(chunk[m] == out[3 * i + m]);
        }
    }
    assert forall|i: int| 2279 <= i < 2295 implies #[trigger] s[i] == '9' by {
        let chunk = out.subrange(3 * i, 3 * i + 3);
        assert forall|m: int| 0 <= m < 3 implies #[trigger] chunk[m] == 0 by {
            assert(chunk[m] == out[3 * i + m]);
            assert(out[3 * i + m] == out.subrange(0, 7776)[3 * i + m]);
            assert(encoded[3 * i + m] == encoded.subrange(6837, 6885)[3 * i + m - 6837]);
            assert(Seq::new(48, |j: int| 0i8)[3 * i + m - 6837] == 0);
        }
        assert(are_trits(chunk));
        assert(chunk =~= tryte_trits('9'));
        tryte_trits_injective(s[i], '9');
    }
}

/// The proof-of-work engine of one worker, with ghost records of what it was
/// handed and what it returned; only its own methods extend them.
pub struct PowEngine {
    diver: iota_lib_rs::iota_pow::PearlDiver,
    submitted: Ghost<Seq<ParsedTransaction>>,
    completed: Ghost<Seq<Seq<char>>>,
    difficulties: Ghost<Seq<usize>>,
    refused: Ghost<Seq<ParsedTransaction>>,
}

impl PowEngine {
    /// Every transaction handed to the search, in order.
    pub closed spec fn submitted(&self) -> Seq<ParsedTransaction> {
        self.submitted@
    }

    /// The tryte string of every search that succeeded, in order.
    pub closed spec fn completed(&self) -> Seq<Seq<char>> {
        self.completed@
    }

    /// The difficulty of every search, beside `submitted`.
    pub closed spec fn difficulties(&self) -> Seq<usize> {
        self.difficulties@
    }

    /// Every transaction that the codec would not encode.
    pub closed spec fn refused(&self) -> Seq<ParsedTransaction> {
        self.refused@
    }

    pub fn new() -> (r: PowEngine)
        ensures
            r.submitted() == Seq::<ParsedTransaction>::empty(),
            r.completed() == Seq::<Seq<char>>::empty(),
            r.difficulties() == Seq::<usize>::empty(),
            r.refused() == Seq::<ParsedTransaction>::empty(),
    {
        PowEngine {
            diver: new_pearl_diver(),
            submitted: Ghost(Seq::empty()),
            completed: Ghost(Seq::empty()),
            difficulties: Ghost(Seq::empty()),
            refused: Ghost(Seq::empty()),
        }
    }

    /// Encodes `tx`, runs the nonce search on it and decodes the completed
    /// buffer. Each call hands at most one transaction to the search, and one
    /// that succeeds hands exactly one.
    pub fn attach(&mut self, tx: &ParsedTransaction, min_weight_magnitude: usize)
        -> (r: Result<String, LinkError>)
        requires
            tx.attachment_timestamp != i64::MIN,
            tx.attachment_timestamp_lower_bound != i64::MIN,
            tx.attachment_timestamp_upper_bound != i64::MIN,
        ensures
            final(self).submitted().len() == old(self).submitted().len()
                ==> final(self).difficulties() == old(self).difficulties(),
            final(self).submitted().len() != old(self).submitted().len()
                ==> final(self).difficulties() == old(self).difficulties().push(min_weight_magnitude),
            (r is Err && final(self).submitted().len() != old(self).submitted().len())
                ==> r matches Err(LinkError::Search(_)),
            (r is Err && final(self).submitted().len() == old(self).submitted().len())
                ==> (r matches Err(LinkError::Codec(_)) && !timestamps_fit(*tx)
                && final(self).refused() == old(self).refused().push(*tx)),
            (r is Ok || final(self).submitted().len() != old(self).submitted().len())
                ==> final(self).refused() == old(self).refused(),
            r is Ok ==> final(self).submitted() == old(self).submitted().push(*tx),
            r is Err ==> final(self).submitted() == old(self).submitted()
                || final(self).submitted() == old(self).submitted().push(*tx),
            r matches Ok(s) ==> final(self).completed() == old(self).completed().push(s@),
            r matches Ok(s) ==> decodes(s@),
            refs_are_trytes(*tx) && is_trytes_of_len(tx.tag@, 27) && timestamps_fit(*tx)
                && min_weight_magnitude <= 243 ==> r is Ok,
            r matches Ok(s) ==> (refs_are_trytes(*tx) ==> trunk_field(s@) == tx.trunk_transaction@
                && branch_field(s@) == tx.branch_transaction@),
            r matches Ok(s) ==> (refs_are_trytes(*tx) && is_trytes_of_len(tx.tag@, 27)
                ==> tag_field(s@) == tx.tag@),
            r matches Ok(s) ==> (refs_are_trytes(*tx) && is_trytes_of_len(tx.tag@, 27)
                && timestamps_fit(*tx) ==> s@.len() == 2673 && trits_of_trytes(s@).subrange(
                7911,
                7938,
            ) == int_trits(tx.attachment_timestamp_upper_bound as int, 27)),
            r is Err ==> final(self).completed() == old(self).completed(),
            r matches Err(e) ==> e is Codec || e is Search,
    {
        let trits = match encode_transaction(tx) {
            Ok(t) => t,
            Err(e) => {
                self.refused = Ghost(self.refused@.push(*tx));
                return Err(LinkError::Codec(error_message(&e)));
            },
        };
        let ghost encoded = trits@;
        let found = pearl_search(&mut self.diver, trits, min_weight_magnitude);
        self.submitted = Ghost(self.submitted@.push(*tx));
        self.difficulties = Ghost(self.difficulties@.push(min_weight_magnitude));
        match found {
            Err(e) => Err(LinkError::Search(error_message(&e))),
            Ok(out) => match decode_trits(&out) {
                Ok(s) => {
                    proof {
                        decoded_result_decodes(encoded, out@, s@);
                        if refs_are_trytes(*tx) {
                            assert(encoded.len() >= 7938);
                            carried_through(encoded, out@, s@, tx.trunk_transaction@, 2430, 81);
                            carried_through(encoded, out@, s@, tx.branch_transaction@, 2511, 81);
                            if is_trytes_of_len(tx.tag@, 27) {
                                carried_through(encoded, out@, s@, tx.tag@, 2592, 27);
                                assert(tag_field(s@) =~= tx.tag@);
                                if timestamps_fit(*tx) {
                                    trits_read_back(encoded, out@, s@, 7911, 7938);
                                    assert forall|k: int| 7911 <= k < 7938 implies encoded[k]
                                        == #[trigger] out@[k] by {
                                        assert(out@[k] == out@.subrange(0, 7938)[k]);
                                        assert(encoded[k] == encoded.subrange(0, 7938)[k]);
                                    }
                                    assert(encoded.subrange(7911, 7938) =~= out@.subrange(7911, 7938));
                                }
                            }
                            assert(trunk_field(s@) =~= tx.trunk_transaction@);
                            assert(branch_field(s@) =~= tx.branch_transaction@);
                        }
                    }
                    self.completed = Ghost(self.completed@.push(s@));
                    Ok(s)
                },
                Err(e) => Err(LinkError::Codec(error_message(&e))),
            },
        }
    }
}

} // verus!
