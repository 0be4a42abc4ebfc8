use remote_pow::{
    assign_id, decode, with_id, is_transaction_trytes, link_transaction, needs_obsolete_tag, outcome_of,
    process_request, status_of, JobOutcome, LinkError, PowEngine, PowRequest, QueryResult,
    MAX_TIMESTAMP_VALUE,
};

const LEN: usize = 2673;

fn trytes_with(fields: &[(usize, &str)]) -> String {
    let mut chars: Vec<char> = vec!['9'; LEN];
    for (start, text) in fields {
        for (k, c) in text.chars().enumerate() {
            chars[start + k] = c;
        }
    }
    chars.into_iter().collect()
}

fn repeat(c: char, n: usize) -> String {
    std::iter::repeat(c).take(n).collect()
}

fn request(trytes: Vec<String>, mwm: usize) -> PowRequest {
    PowRequest {
        id: "job".to_string(),
        trunk_transaction: repeat('T', 81),
        branch_transaction: repeat('B', 81),
        min_weight_magnitude: mwm,
        trytes,
    }
}

#[test]
fn empty_tag_needs_obsolete_tag() {
    assert!(needs_obsolete_tag(&String::new()));
}

#[test]
fn all_nines_tag_needs_obsolete_tag() {
    assert!(needs_obsolete_tag(&repeat('9', 27)));
}

#[test]
fn other_tags_are_kept() {
    assert!(!needs_obsolete_tag(&repeat('9', 26)));
    assert!(!needs_obsolete_tag(&repeat('9', 28)));
    assert!(!needs_obsolete_tag(&"ABC".to_string()));
    let mut almost = repeat('9', 26);
    almost.push('A');
    assert!(!needs_obsolete_tag(&almost));
}

#[test]
fn transaction_trytes_shape() {
    assert!(is_transaction_trytes(&repeat('9', LEN)));
    assert!(is_transaction_trytes(&repeat('Z', LEN)));
    assert!(!is_transaction_trytes(&repeat('9', LEN - 1)));
    assert!(!is_transaction_trytes(&repeat('9', LEN + 1)));
    assert!(!is_transaction_trytes(&trytes_with(&[(10, "a")])));
    assert!(!is_transaction_trytes(""));
}

#[test]
fn decode_reads_fields() {
    let s = trytes_with(&[(2295, "OBS"), (2430, "TRUNK"), (2511, "BRANCH"), (2592, "TAG")]);
    let t = decode(&s).unwrap();
    assert_eq!(t.obsolete_tag, format!("OBS{}", repeat('9', 24)));
    assert_eq!(t.trunk_transaction, format!("TRUNK{}", repeat('9', 76)));
    assert_eq!(t.branch_transaction, format!("BRANCH{}", repeat('9', 75)));
    assert_eq!(t.tag, format!("TAG{}", repeat('9', 24)));
    assert_eq!(t.hash.len(), 81);
}

#[test]
fn decode_refuses_malformed_trytes() {
    assert_eq!(decode(&repeat('9', 100)).unwrap_err(), LinkError::MalformedTrytes(0));
}

#[test]
fn decode_refuses_missing_nine_section() {
    let s = trytes_with(&[(2280, "A")]);
    assert!(matches!(decode(&s), Err(LinkError::Codec(_))));
}

#[test]
fn first_transaction_takes_job_references() {
    let mut t = decode(&trytes_with(&[(2592, "KEEP")])).unwrap();
    let trunk = repeat('T', 81);
    let branch = repeat('B', 81);
    link_transaction(&mut t, &None, &trunk, &branch, 1234);
    assert_eq!(t.trunk_transaction, trunk);
    assert_eq!(t.branch_transaction, branch);
    assert_eq!(t.tag, format!("KEEP{}", repeat('9', 23)));
    assert_eq!(t.attachment_timestamp, 1234);
    assert_eq!(t.attachment_timestamp_lower_bound, 0);
    assert_eq!(t.attachment_timestamp_upper_bound, MAX_TIMESTAMP_VALUE);
}

#[test]
fn later_transaction_branches_to_job_trunk() {
    let mut t = decode(&trytes_with(&[(2295, "OLD")])).unwrap();
    let previous = repeat('P', 81);
    let trunk = repeat('T', 81);
    let branch = repeat('B', 81);
    link_transaction(&mut t, &Some(previous.clone()), &trunk, &branch, 5);
    assert_eq!(t.trunk_transaction, previous);
    assert_eq!(t.branch_transaction, trunk);
    assert_eq!(t.tag, format!("OLD{}", repeat('9', 24)));
    assert_eq!(t.attachment_timestamp_upper_bound, MAX_TIMESTAMP_VALUE);
}

#[test]
fn max_timestamp_value() {
    assert_eq!(MAX_TIMESTAMP_VALUE, (3_i64.pow(27) - 1) / 2);
    assert_eq!(MAX_TIMESTAMP_VALUE, 3812798742493);
}

#[test]
fn empty_bundle_gives_empty_result() {
    let mut engine = PowEngine::new();
    let r = process_request(&mut engine, request(vec![], 1));
    assert_eq!(r, Ok(vec![]));
}

#[test]
fn malformed_bundle_fails() {
    let mut engine = PowEngine::new();
    let r = process_request(&mut engine, request(vec![repeat('9', 5)], 1));
    assert_eq!(r, Err(LinkError::MalformedTrytes(0)));
}

#[test]
fn failed_search_fails_the_job() {
    let mut engine = PowEngine::new();
    let r = process_request(&mut engine, request(vec![repeat('9', LEN)], 300));
    assert!(matches!(r, Err(LinkError::Search(_))));
    let outcome = outcome_of("job".to_string(), r);
    assert!(matches!(outcome, JobOutcome::Failed { ref id, .. } if id == "job"));
}

#[test]
fn failure_on_second_transaction_fails_the_job() {
    let mut engine = PowEngine::new();
    let r = process_request(&mut engine, request(vec![repeat('9', LEN), repeat('9', 3)], 1));
    assert_eq!(r, Err(LinkError::MalformedTrytes(1)));
    let outcome = outcome_of("job".to_string(), r);
    assert_eq!(
        outcome,
        JobOutcome::Failed { id: "job".to_string(), message: "malformed transaction trytes".to_string() }
    );
    assert!(!matches!(status_of(Some(outcome)), QueryResult::Completed(_)));
}

#[test]
fn two_transaction_bundle_is_chained_and_reversed() {
    let mut engine = PowEngine::new();
    let a = trytes_with(&[(0, "AAAA")]);
    let b = trytes_with(&[(0, "BBBB")]);
    let out = process_request(&mut engine, request(vec![a, b], 1)).unwrap();
    assert_eq!(out.len(), 2);
    let first = decode(&out[1]).unwrap();
    let second = decode(&out[0]).unwrap();
    assert_eq!(first.trunk_transaction, repeat('T', 81));
    assert_eq!(first.branch_transaction, repeat('B', 81));
    assert_eq!(second.trunk_transaction, first.hash);
    assert_eq!(second.branch_transaction, repeat('T', 81));
    assert_eq!(first.attachment_timestamp_upper_bound, MAX_TIMESTAMP_VALUE);
    assert_eq!(second.attachment_timestamp_upper_bound, MAX_TIMESTAMP_VALUE);
    assert!(out[1].starts_with("AAAA"));
    assert!(out[0].starts_with("BBBB"));
}

#[test]
fn completed_outcome_and_status() {
    let outcome = outcome_of("x".to_string(), Ok(vec!["A".to_string(), "B".to_string()]));
    assert_eq!(outcome, JobOutcome::Completed(vec!["A".to_string(), "B".to_string()]));
    let first = status_of(Some(outcome.clone()));
    let again = status_of(Some(outcome));
    assert_eq!(first, QueryResult::Completed(vec!["A".to_string(), "B".to_string()]));
    assert_eq!(first, again);
}

#[test]
fn failed_status_carries_message() {
    let outcome = outcome_of("x".to_string(), Err(LinkError::Search("exhausted".to_string())));
    assert_eq!(status_of(Some(outcome.clone())), QueryResult::Failed("exhausted".to_string()));
    assert_eq!(status_of(Some(outcome.clone())), status_of(Some(outcome)));
}

#[test]
fn unknown_id_is_not_ready() {
    assert_eq!(status_of(None), QueryResult::NotReady);
}

#[test]
fn error_messages() {
    assert_eq!(LinkError::MalformedResult(2).message(), "malformed proof-of-work result");
    assert_eq!(LinkError::Codec("bad".to_string()).message(), "bad");
    assert_eq!(LinkError::Clock(0).message(), "the clock gave no time");
}

#[test]
fn assigned_ids_are_fresh() {
    let a = assign_id(request(vec![repeat('9', LEN)], 9));
    let b = assign_id(request(vec![], 9));
    assert_eq!(a.id.len(), 32);
    assert_eq!(b.id.len(), 32);
    assert_ne!(a.id, b.id);
    assert_ne!(a.id, "job");
    assert!(a.id.chars().all(|c| c.is_ascii_digit() || ('a'..='f').contains(&c)));
    assert_eq!(a.trunk_transaction, repeat('T', 81));
    assert_eq!(a.min_weight_magnitude, 9);
    assert_eq!(a.trytes, vec![repeat('9', LEN)]);
}

#[test]
fn with_id_replaces_the_id() {
    let r = with_id(request(vec![repeat('9', LEN)], 7), "fresh".to_string());
    assert_eq!(r.id, "fresh");
    assert_eq!(r.branch_transaction, repeat('B', 81));
    assert_eq!(r.min_weight_magnitude, 7);
    assert_eq!(r.trytes, vec![repeat('9', LEN)]);
}

#[test]
fn well_formed_trytes_decode() {
    let t = decode(&repeat('9', LEN)).unwrap();
    assert_eq!(t.trunk_transaction, repeat('9', 81));
    assert_eq!(t.hash.len(), 81);
    assert!(t.hash.chars().all(|c| c == '9' || c.is_ascii_uppercase()));
}

#[test]
fn engine_reports_trunk_and_branch_in_result() {
    let mut engine = PowEngine::new();
    let mut t = decode(&repeat('9', LEN)).unwrap();
    link_transaction(&mut t, &None, &repeat('T', 81), &repeat('B', 81), 1);
    let s = engine.attach(&t, 1).unwrap();
    assert_eq!(s.len(), LEN);
    assert_eq!(&s[2430..2511], repeat('T', 81));
    assert_eq!(&s[2511..2592], repeat('B', 81));
}

#[test]
fn result_carries_replaced_tag() {
    let mut engine = PowEngine::new();
    let a = trytes_with(&[(2295, "OBSOLETE")]);
    let b = trytes_with(&[(2592, "OWNTAG")]);
    let out = process_request(&mut engine, request(vec![a, b], 1)).unwrap();
    assert_eq!(&out[1][2592..2619], format!("OBSOLETE{}", repeat('9', 19)));
    assert_eq!(&out[0][2592..2619], format!("OWNTAG{}", repeat('9', 21)));
}

#[test]
fn results_carry_upper_bound_and_timestamps() {
    let mut engine = PowEngine::new();
    let out = process_request(&mut engine, request(vec![repeat('9', LEN), repeat('9', LEN)], 1)).unwrap();
    for s in &out {
        let t = decode(s).unwrap();
        assert_eq!(t.attachment_timestamp_upper_bound, MAX_TIMESTAMP_VALUE);
        assert_eq!(t.attachment_timestamp_lower_bound, 0);
        assert!(t.attachment_timestamp > 0);
    }
}
