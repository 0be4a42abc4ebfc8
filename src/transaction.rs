//! The structured view of one transaction, and the codec calls that turn a
//! tryte string into it and back.

use iota_lib_rs::iota_conversion::Trinary;
use vstd::prelude::*;

verus! {

/// Number of trytes in the string form of a transaction.
pub const TRANSACTION_TRYTES: usize = 2673;

/// Largest attachment timestamp that fits in 27 balanced trits: `(3^27 - 1) / 2`.
pub const MAX_TIMESTAMP_VALUE: i64 = 3812798742493;

/// The obsolete tag: trytes 2295 to 2322 of the string form.
pub open spec fn obsolete_tag_field(s: Seq<char>) -> Seq<char> {
    s.subrange(2295, 2322)
}

/// The trunk reference: trytes 2430 to 2511.
pub open spec fn trunk_field(s: Seq<char>) -> Seq<char> {
    s.subrange(2430, 2511)
}

/// The branch reference: trytes 2511 to 2592.
pub open spec fn branch_field(s: Seq<char>) -> Seq<char> {
    s.subrange(2511, 2592)
}

/// The tag: trytes 2592 to 2619.
pub open spec fn tag_field(s: Seq<char>) -> Seq<char> {
    s.subrange(2592, 2619)
}

/// A character of the tryte alphabet: `9` and the capital letters.
pub open spec fn is_tryte(c: char) -> bool {
    c == '9' || ('A' <= c && c <= 'Z')
}

/// A string the codec can decode without running off its fixed layout.
pub open spec fn is_transaction_trytes_spec(s: Seq<char>) -> bool {
    s.len() == TRANSACTION_TRYTES && forall|i: int| 0 <= i < s.len() ==> is_tryte(#[trigger] s[i])
}

/// The sixteen trytes that a well-formed transaction keeps at nine.
pub open spec fn has_nine_section(s: Seq<char>) -> bool {
    forall|i: int| 2279 <= i < 2295 ==> #[trigger] s[i] == '9'
}

/// The hash that the codec computes for a transaction's tryte string.
pub uninterp spec fn transaction_hash(s: Seq<char>) -> Seq<char>;

#[verifier::external_type_specification]
#[verifier::external_body]
pub struct ExIotaTransaction(iota_lib_rs::iota_model::Transaction);

#[verifier::external_type_specification]
#[verifier::external_body]
pub struct ExFailureError(failure::Error);

/// The fields of a decoded transaction that linking leaves alone, as the
/// codec holds them. Only decoding makes one, so its numeric fields are
/// those read from the 27 or 33 trits of a tryte string.
#[derive(Debug)]
pub struct CodecFields {
    inner: iota_lib_rs::iota_model::Transaction,
}

/// A decoded transaction. The fields that linking reads or rewrites are plain
/// values; the remaining fields travel unchanged in `fields`.
#[derive(Debug)]
pub struct ParsedTransaction {
    pub hash: String,
    pub trunk_transaction: String,
    pub branch_transaction: String,
    pub tag: String,
    pub obsolete_tag: String,
    pub attachment_timestamp: i64,
    pub attachment_timestamp_lower_bound: i64,
    pub attachment_timestamp_upper_bound: i64,
    /// The remaining fields. When the transaction is encoded, the references,
    /// the tag and the attachment timestamps above replace their copies in it;
    /// `hash` and `obsolete_tag` are only read.
    pub fields: CodecFields,
}

/// Position of a tryte in the alphabet `9ABC..Z`.
pub open spec fn tryte_index(c: char) -> int {
    if c == '9' {
        0
    } else {
        (c as u32) as int - ('A' as u32) as int + 1
    }
}

/// The balanced value of a tryte, from -13 to 13.
pub open spec fn tryte_value(c: char) -> int {
    if tryte_index(c) <= 13 {
        tryte_index(c)
    } else {
        tryte_index(c) - 27
    }
}

/// The least significant balanced trit of `v`.
pub open spec fn low_trit(v: int) -> i8 {
    if v % 3 == 2 {
        -1i8
    } else {
        (v % 3) as i8
    }
}

/// The three trits of a tryte, least significant first.
pub open spec fn tryte_trits(c: char) -> Seq<i8> {
    let v = tryte_value(c);
    let v1 = (v - low_trit(v)) / 3;
    let v2 = (v1 - low_trit(v1)) / 3;
    seq![low_trit(v), low_trit(v1), low_trit(v2)]
}

/// The trits of a tryte string, three per tryte.
pub open spec fn trits_of_trytes(s: Seq<char>) -> Seq<i8> {
    Seq::new(3 * s.len(), |j: int| tryte_trits(s[j / 3])[j % 3])
}

/// Trits that each lie in -1..=1.
pub open spec fn are_trits(t: Seq<i8>) -> bool {
    forall|j: int| 0 <= j < t.len() ==> -1 <= #[trigger] t[j] <= 1
}

/// Tryte strings of the given length.
pub open spec fn is_trytes_of_len(s: Seq<char>, n: nat) -> bool {
    s.len() == n && forall|i: int| 0 <= i < s.len() ==> is_tryte(#[trigger] s[i])
}

/// Two trytes with the same trits are the same tryte.
pub proof fn tryte_trits_injective(a: char, b: char)
    requires
        is_tryte(a),
        is_tryte(b),
        tryte_trits(a) == tryte_trits(b),
    ensures
        a == b,
{
    let ta = tryte_trits(a);
    let tb = tryte_trits(b);
    assert(ta[0] == tb[0] && ta[1] == tb[1] && ta[2] == tb[2]);
    assert(tryte_value(a) == tryte_value(b));
    assert((a as u32) == (b as u32));
}

/// The value of balanced trits, least significant first.
pub open spec fn trits_value(t: Seq<i8>) -> int
    decreases t.len(),
{
    if t.len() == 0 {
        0
    } else {
        t[0] + 3 * trits_value(t.drop_first())
    }
}

/// The first `n` balanced trits of `v`, least significant first.
pub open spec fn int_trits(v: int, n: nat) -> Seq<i8>
    decreases n,
{
    if n == 0 {
        Seq::empty()
    } else {
        seq![low_trit(v)] + int_trits((v - low_trit(v)) / 3, (n - 1) as nat)
    }
}

/// `(3^n - 1) / 2`: the largest value of `n` balanced trits.
pub open spec fn max_of_trits(n: nat) -> int
    decreases n,
{
    if n == 0 {
        0
    } else {
        1 + 3 * max_of_trits((n - 1) as nat)
    }
}

proof fn max_trits_read_back(n: nat)
    ensures
        trits_value(int_trits(max_of_trits(n), n)) == max_of_trits(n),
    decreases n,
{
    if n > 0 {
        let m = max_of_trits((n - 1) as nat);
        assert((1 + 3 * m) % 3 == 1);
        assert((1 + 3 * m - 1) / 3 == m);
        max_trits_read_back((n - 1) as nat);
        assert(int_trits(max_of_trits(n), n).drop_first() =~= int_trits(m, (n - 1) as nat));
    }
}

/// The 27 trits that encode the largest attachment timestamp read back as it.
pub proof fn max_timestamp_reads_back()
    ensures
        trits_value(int_trits(MAX_TIMESTAMP_VALUE as int, 27)) == MAX_TIMESTAMP_VALUE,
{
    reveal_with_fuel(max_of_trits, 28);
    assert(max_of_trits(27) == MAX_TIMESTAMP_VALUE);
    max_trits_read_back(27);
}

/// Checks that `s` has the length and alphabet of a transaction's tryte string.
pub fn is_transaction_trytes(s: &str) -> (r: bool)
    ensures
        r == is_transaction_trytes_spec(s@),
{
    if s.unicode_len() != TRANSACTION_TRYTES {
        return false;
    }
    let mut i: usize = 0;
    while i < TRANSACTION_TRYTES
        invariant
            s@.len() == TRANSACTION_TRYTES,
            i <= TRANSACTION_TRYTES,
            forall|j: int| 0 <= j < i ==> is_tryte(#[trigger] s@[j]),
        decreases TRANSACTION_TRYTES - i,
    {
        let c = s.get_char(i);
        if !(c == '9' || ('A' <= c && c <= 'Z')) {
            return false;
        }
        i = i + 1;
    }
    true
}

/// Relies on iota-model's `Transaction::from_str`: on a non-empty string it
/// fails exactly when the nine section is missing, slices the reference and tag fields out of the tryte
/// string, and hashes the string with Curl.
#[verifier::external_body]
pub(crate) fn decode_transaction(s: &str) -> (r: Result<ParsedTransaction, failure::Error>)
    requires
        is_transaction_trytes_spec(s@),
    ensures
        r is Ok <==> has_nine_section(s@),
        r matches Ok(t) ==> {
            &&& t.hash@ == transaction_hash(s@)
            &&& is_trytes_of_len(t.hash@, 81)
            &&& t.attachment_timestamp_upper_bound == trits_value(
                trits_of_trytes(s@).subrange(7911, 7938),
            )
            &&& t.trunk_transaction@ == trunk_field(s@)
            &&& t.branch_transaction@ == branch_field(s@)
            &&& t.tag@ == tag_field(s@)
            &&& t.obsolete_tag@ == obsolete_tag_field(s@)
        },
{
    let t: iota_lib_rs::iota_model::Transaction = s.parse()?;
    Ok(ParsedTransaction {
        hash: t.hash.clone(),
        trunk_transaction: t.trunk_transaction.clone(),
        branch_transaction: t.branch_transaction.clone(),
        tag: t.tag.clone(),
        obsolete_tag: t.obsolete_tag.clone(),
        attachment_timestamp: t.attachment_timestamp,
        attachment_timestamp_lower_bound: t.attachment_timestamp_lower_bound,
        attachment_timestamp_upper_bound: t.attachment_timestamp_upper_bound,
        fields: CodecFields { inner: t },
    })
}

/// The three attachment timestamps fit in 27 trits each, so each fills its
/// 9 trytes exactly.
pub open spec fn timestamps_fit(tx: ParsedTransaction) -> bool {
    &&& -MAX_TIMESTAMP_VALUE <= tx.attachment_timestamp <= MAX_TIMESTAMP_VALUE
    &&& -MAX_TIMESTAMP_VALUE <= tx.attachment_timestamp_lower_bound <= MAX_TIMESTAMP_VALUE
    &&& -MAX_TIMESTAMP_VALUE <= tx.attachment_timestamp_upper_bound <= MAX_TIMESTAMP_VALUE
}

/// Relies on iota-model's `TryInto<String>` for a transaction and
/// iota-conversion's `Trinary::trits`: the transaction's trit buffer. The
/// fields before the trunk reference fill the first 2430 trytes, each tryte
/// becomes three trits, every trit lies in -1..=1, an `i64` padded to 27
/// trits fills 9 trytes when it fits there (the conversion fails only where
/// one does not: the numbers decoded into `fields` all fit), the value, read
/// from 33 trits, leaves the last 48 of its 81 trits at zero, and the conversion of an `i64` takes its absolute
/// value, so none may be `i64::MIN`.
#[verifier::external_body]
pub(crate) fn encode_transaction(tx: &ParsedTransaction) -> (r: Result<Vec<i8>, failure::Error>)
    requires
        tx.attachment_timestamp != i64::MIN,
        tx.attachment_timestamp_lower_bound != i64::MIN,
        tx.attachment_timestamp_upper_bound != i64::MIN,
    ensures
        timestamps_fit(*tx) ==> r is Ok,
        r matches Ok(t) ==> t@.len() >= 6885 && t@.subrange(6837, 6885) == Seq::new(
            48,
            |j: int| 0i8,
        ),
        r matches Ok(t) ==> (is_trytes_of_len(tx.trunk_transaction@, 81) && is_trytes_of_len(
            tx.branch_transaction@,
            81,
        ) && is_trytes_of_len(tx.tag@, 27) && timestamps_fit(*tx) ==> t@.len() == 8019),
        r matches Ok(t) ==> are_trits(t@),
        r matches Ok(t) ==> (is_trytes_of_len(tx.trunk_transaction@, 81) && is_trytes_of_len(
            tx.branch_transaction@,
            81,
        ) ==> t@.len() >= 7776 && t@.subrange(7290, 7533) == trits_of_trytes(
            tx.trunk_transaction@,
        ) && t@.subrange(7533, 7776) == trits_of_trytes(tx.branch_transaction@)),
        r matches Ok(t) ==> (is_trytes_of_len(tx.trunk_transaction@, 81) && is_trytes_of_len(
            tx.branch_transaction@,
            81,
        ) && is_trytes_of_len(tx.tag@, 27) ==> t@.len() >= 7857 && t@.subrange(7776, 7857)
            == trits_of_trytes(tx.tag@)),
        r matches Ok(t) ==> (is_trytes_of_len(tx.trunk_transaction@, 81) && is_trytes_of_len(
            tx.branch_transaction@,
            81,
        ) && is_trytes_of_len(tx.tag@, 27) && timestamps_fit(*tx) ==> t@.len() >= 7938 && t@.subrange(7911, 7938)
            == int_trits(tx.attachment_timestamp_upper_bound as int, 27)),
{
    let mut t = tx.fields.inner.clone();
    t.trunk_transaction = tx.trunk_transaction.clone();
    t.branch_transaction = tx.branch_transaction.clone();
    t.tag = tx.tag.clone();
    t.attachment_timestamp = tx.attachment_timestamp;
    t.attachment_timestamp_lower_bound = tx.attachment_timestamp_lower_bound;
    t.attachment_timestamp_upper_bound = tx.attachment_timestamp_upper_bound;
    let s: String = std::convert::TryInto::try_into(&t)?;
    Ok(s.trits())
}

/// Relies on iota-conversion's `Trinary::trytes` for a trit vector: it fails
/// unless the length is a multiple of three, and gives one tryte per three
/// trits: the tryte whose trits they are, where each lies in -1..=1.
#[verifier::external_body]
pub(crate) fn decode_trits(trits: &Vec<i8>) -> (r: Result<String, failure::Error>)
    ensures
        r is Ok <==> trits@.len() % 3 == 0,
        r matches Ok(s) ==> s@.len() == trits@.len() / 3,
        r matches Ok(s) ==> forall|i: int|
            0 <= i < s@.len() && are_trits(trits@.subrange(3 * i, 3 * i + 3)) ==> is_tryte(
                #[trigger] s@[i],
            ) && tryte_trits(s@[i]) == trits@.subrange(3 * i, 3 * i + 3),
{
    trits.trytes()
}

/// Relies on failure's `Display` for `Error`: the message of a codec or search error.
#[verifier::external_body]
pub(crate) fn error_message(e: &failure::Error) -> (r: String) {
    e.to_string()
}

/// Relies on std's `SystemTime::now` and chrono's `DateTime::from_timestamp`:
/// the wall-clock time in milliseconds since 1970, or `None` where the clock
/// reads before 1970 or past chrono's range of days. Within that range the
/// milliseconds stay far from `i64::MIN`.
#[verifier::external_body]
pub(crate) fn now_millis() -> (r: Option<i64>)
    ensures
        r matches Some(t) ==> t != i64::MIN,
{
    let since = std::time::SystemTime::now().duration_since(std::time::UNIX_EPOCH).ok()?;
    let now = chrono::DateTime::from_timestamp(since.as_secs() as i64, since.subsec_nanos())?;
    Some(now.timestamp_millis())
}

} // verus!
