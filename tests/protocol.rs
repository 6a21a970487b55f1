use pendersen::arith::{pow, pow_mod};
use pendersen::error::AuthError;
use pendersen::num::Num;
use pendersen::params::{GroupParameters, Parameters};
use pendersen::parse::{parse_signed, parse_unsigned};
use pendersen::protocol::{compute_response, derive_commitments, derive_ephemeral};
use pendersen::service::{AuthService, Verdict};

fn n(v: u64) -> Num {
    Num::from_u64(v)
}

fn small_group() -> GroupParameters {
    GroupParameters::new(n(23), n(11), n(2), n(4)).unwrap()
}

fn service() -> AuthService {
    AuthService::new(n(2), n(4), n(23), n(11))
}

fn service_with_session(y1: u64, y2: u64, r1: u64, r2: u64, c: u64) -> (AuthService, String) {
    let mut service = service();
    service.register("alice".to_string(), n(y1), n(y2));
    let id = "session-1".to_string();
    service.open_session(id.clone(), "alice".to_string(), n(r1), n(r2), n(c)).unwrap();
    (service, id)
}

#[test]
fn modular_power_of_small_values() {
    assert_eq!(pow(&n(2), &n(6), &n(23)), n(18));
    assert_eq!(pow(&n(4), &n(6), &n(23)), n(2));
    assert_eq!(pow(&n(2), &n(3), &n(23)), n(8));
    assert_eq!(pow(&n(4), &n(3), &n(23)), n(18));
    assert_eq!(pow(&n(5), &n(0), &n(7)), n(1));
    assert_eq!(pow(&n(5), &n(3), &n(1)), n(0));
    assert_eq!(pow(&n(u64::MAX), &n(2), &n(u64::MAX - 1)), n(1));
}

#[test]
fn modular_power_beyond_machine_words() {
    // 2^64 + 13 as a modulus, and 2^70 as an exponent
    let p = parse_unsigned("18446744073709551629").unwrap();
    let e = parse_unsigned("1180591620717411303424").unwrap();
    let r = pow(&n(3), &e, &p);
    assert!(r.le(&p) && !r.eq(&p));
    assert_eq!(pow(&n(7), &n(1), &p), n(7));
    let big = n(u64::MAX).mul(&n(u64::MAX));
    assert_eq!(big.rem(&n(u64::MAX)), n(0));
    assert_eq!(big.limbs().len(), 4);
}

#[test]
fn recomputed_commitment() {
    assert_eq!(pow_mod(&n(2), &n(6), &n(18), &n(5), &n(23)), n(8));
    assert_eq!(pow_mod(&n(4), &n(6), &n(2), &n(5), &n(23)), n(18));
}

#[test]
fn response_stays_in_range() {
    assert_eq!(compute_response(&n(3), &n(5), &n(6), &n(11)), n(6));
    assert_eq!(compute_response(&n(0), &n(u64::MAX), &n(u64::MAX), &n(11)), n(6));
    assert_eq!(compute_response(&n(u64::MAX), &n(0), &n(0), &n(11)), n(4));
    assert_eq!(compute_response(&n(0), &n(1), &n(11), &n(11)), n(0));
    for k in 0..20u64 {
        let s = compute_response(&n(k), &n(9999), &n(123456), &n(11));
        assert!(s.le(&n(10)));
    }
}

#[test]
fn commitments_of_secret() {
    let group = small_group();
    assert_eq!(derive_commitments(&n(6), &group), (n(18), n(2)));
    let (k, r1, r2) = derive_ephemeral(&group);
    assert!(k.le(&n(10)));
    assert_eq!(r1, pow(&n(2), &k, &n(23)));
    assert_eq!(r2, pow(&n(4), &k, &n(23)));
}

#[test]
fn end_to_end_small_group() {
    let group = small_group();
    assert!(group.is_valid_group());
    let (y1, y2) = derive_commitments(&n(6), &group);
    assert_eq!((y1.clone(), y2.clone()), (n(18), n(2)));
    let (r1, r2) = derive_commitments(&n(3), &group);
    assert_eq!((r1, r2), (n(8), n(18)));
    let s = compute_response(&n(3), &n(5), &n(6), &group.q);
    assert_eq!(s, n(6));
    let (mut service, id) = service_with_session(18, 2, 8, 18, 5);
    assert_eq!(service.check_response(&id, &s), Ok(true));
}

#[test]
fn tampered_responses_fail() {
    for s in 0..11u64 {
        if s == 6 {
            continue;
        }
        let (mut service, id) = service_with_session(18, 2, 8, 18, 5);
        assert_eq!(service.check_response(&id, &n(s)), Ok(false));
    }
    let (mut service, id) = service_with_session(18, 2, 8, 18, 5);
    assert_eq!(service.check_response(&id, &n(17)), Ok(true));
}

#[test]
fn honest_proofs_verify_for_every_challenge() {
    let group = small_group();
    for x in 0..15u64 {
        for c in 0..25u64 {
            let (y1, y2) = derive_commitments(&n(x), &group);
            let (r1, r2) = derive_commitments(&n(7), &group);
            let s = compute_response(&n(7), &n(c), &n(x), &group.q);
            let mut service = service();
            service.register("alice".to_string(), y1, y2);
            let id = "s".to_string();
            service.open_session(id.clone(), "alice".to_string(), r1, r2, n(c)).unwrap();
            assert_eq!(service.check_response(&id, &s), Ok(true));
        }
    }
}

#[test]
fn negative_response_is_invalid() {
    let (mut service, id) = service_with_session(18, 2, 8, 18, 5);
    assert!(matches!(service.answer_request(&id, "-1"), Err(AuthError::InvalidArgument)));
    assert_eq!(service.check_response(&id, &n(6)), Ok(true));
}

#[test]
fn unknown_session_is_not_found() {
    let (mut service, _) = service_with_session(18, 2, 8, 18, 5);
    assert_eq!(
        service.check_response(&"other".to_string(), &n(6)),
        Err(AuthError::SessionNotFound)
    );
}

#[test]
fn session_of_unknown_user_is_not_found() {
    let mut service = service();
    let id = "s".to_string();
    service.open_session(id.clone(), "nobody".to_string(), n(8), n(18), n(5)).unwrap();
    assert_eq!(service.check_response(&id, &n(6)), Err(AuthError::UserNotFound));
    assert_eq!(service.check_response(&id, &n(6)), Err(AuthError::SessionNotFound));
}

#[test]
fn session_serves_one_verification() {
    let (mut service, id) = service_with_session(18, 2, 8, 18, 5);
    assert_eq!(service.check_response(&id, &n(6)), Ok(true));
    assert_eq!(service.check_response(&id, &n(6)), Err(AuthError::SessionNotFound));
}

#[test]
fn duplicate_session_id_is_refused() {
    let (mut service, id) = service_with_session(18, 2, 8, 18, 5);
    assert_eq!(
        service.open_session(id.clone(), "alice".to_string(), n(1), n(1), n(1)),
        Err(AuthError::DuplicateSession)
    );
    assert_eq!(service.check_response(&id, &n(6)), Ok(true));
}

#[test]
fn reregistration_replaces_commitments() {
    let group = small_group();
    let mut service = service();
    let (old1, old2) = derive_commitments(&n(6), &group);
    service.register("alice".to_string(), old1, old2);
    let (new1, new2) = derive_commitments(&n(9), &group);
    service.register("alice".to_string(), new1.clone(), new2.clone());
    let keys = service.lookup_user(&"alice".to_string()).unwrap();
    assert_eq!((keys.y1.clone(), keys.y2.clone()), (new1, new2));

    let (r1, r2) = derive_commitments(&n(3), &group);
    let id = "a".to_string();
    service.open_session(id.clone(), "alice".to_string(), r1.clone(), r2.clone(), n(5)).unwrap();
    let stale = compute_response(&n(3), &n(5), &n(6), &n(11));
    assert_eq!(service.check_response(&id, &stale), Ok(false));
    let id = "b".to_string();
    service.open_session(id.clone(), "alice".to_string(), r1, r2, n(5)).unwrap();
    let fresh = compute_response(&n(3), &n(5), &n(9), &n(11));
    assert_eq!(service.check_response(&id, &fresh), Ok(true));
}

#[test]
fn challenge_is_below_order_with_fresh_id() {
    let mut service = AuthService::new(n(2), n(3), n(17), n(19));
    service.register_request("test_user".to_string(), "123", "456").unwrap();
    let (id1, c1) = service.challenge_request("test_user".to_string(), "789", "101112").unwrap();
    let (id2, c2) = service.create_authentication_challenge("test_user".to_string(), n(8), n(18)).unwrap();
    assert!(c1.le(&n(18)) && c2.le(&n(18)));
    assert_eq!(id1.len(), 32);
    assert_ne!(id1, id2);
}

#[test]
fn full_round_trip_accepts() {
    let group = small_group();
    let mut service =
        AuthService::new(group.g.clone(), group.h.clone(), group.p.clone(), group.q.clone());
    let (y1, y2) = derive_commitments(&n(6), &group);
    service.register("alice".to_string(), y1, y2);
    let (k, r1, r2) = derive_ephemeral(&group);
    let (id, c) = service.create_authentication_challenge("alice".to_string(), r1, r2).unwrap();
    let s = compute_response(&k, &c, &n(6), &group.q);
    match service.verify_authentication(&id, &s) {
        Ok(Verdict::Accepted(token)) => assert_eq!(token.len(), 32),
        _ => panic!("honest proof rejected"),
    }
}

#[test]
fn wrong_password_is_rejected() {
    let group = small_group();
    let mut service = service();
    let (y1, y2) = derive_commitments(&n(6), &group);
    service.register("alice".to_string(), y1, y2);
    let (r1, r2) = derive_commitments(&n(3), &group);
    let id = "x".to_string();
    service.open_session(id.clone(), "alice".to_string(), r1, r2, n(5)).unwrap();
    let s = compute_response(&n(3), &n(5), &n(7), &group.q);
    assert!(matches!(service.verify_authentication(&id, &s), Ok(Verdict::Rejected)));
}

#[test]
fn requests_read_decimal_fields() {
    let mut service = service();
    assert_eq!(service.register_request("alice".to_string(), "18", "2"), Ok(()));
    assert_eq!(
        service.register_request("bob".to_string(), "12x", "2"),
        Err(AuthError::MalformedInput)
    );
    assert!(service.lookup_user(&"bob".to_string()).is_none());
    let (id, _c) = service.challenge_request("alice".to_string(), "8", "18").unwrap();
    assert!(matches!(
        service.challenge_request("alice".to_string(), "8", ""),
        Err(AuthError::MalformedInput)
    ));
    assert!(matches!(service.answer_request(&id, "abc"), Err(AuthError::MalformedInput)));
    assert!(matches!(service.answer_request(&id, "-3"), Err(AuthError::InvalidArgument)));
    assert!(matches!(
        service.answer_request(&id, "1"),
        Ok(Verdict::Accepted(_)) | Ok(Verdict::Rejected)
    ));
    assert!(matches!(service.answer_request(&id, "1"), Err(AuthError::SessionNotFound)));
}

#[test]
fn decimal_parsing() {
    assert_eq!(parse_unsigned("123"), Ok(n(123)));
    assert_eq!(parse_unsigned("101112"), Ok(n(101112)));
    assert_eq!(parse_unsigned("+7"), Ok(n(7)));
    assert_eq!(parse_unsigned("1_000"), Ok(n(1000)));
    assert_eq!(parse_unsigned("18446744073709551615"), Ok(n(u64::MAX)));
    assert_eq!(parse_unsigned("18446744073709551616"), Ok(n(u64::MAX).add(&n(1))));
    assert_eq!(parse_unsigned("-5"), Err(AuthError::MalformedInput));
    assert_eq!(parse_unsigned("abc"), Err(AuthError::MalformedInput));
    assert_eq!(parse_unsigned(""), Err(AuthError::MalformedInput));
    assert_eq!(parse_unsigned("_1"), Err(AuthError::MalformedInput));
    assert_eq!(parse_unsigned("++1"), Err(AuthError::MalformedInput));
    assert_eq!(parse_signed("-27"), Ok((true, n(27))));
    assert_eq!(parse_signed("54321"), Ok((false, n(54321))));
    assert_eq!(parse_signed("-+1"), Err(AuthError::MalformedInput));
}

#[test]
fn parameters_from_configuration() {
    let params = Parameters {
        p: "23".to_string(),
        q: "11".to_string(),
        g: "2".to_string(),
        h: "4".to_string(),
    };
    assert_eq!(GroupParameters::from_parameters(&params), Ok(small_group()));
    let wide = Parameters {
        p: "18446744073709551629".to_string(),
        q: "11".to_string(),
        g: "2".to_string(),
        h: "4".to_string(),
    };
    let group = GroupParameters::from_parameters(&wide).unwrap();
    assert_eq!(group.p, parse_unsigned("18446744073709551629").unwrap());
    let bad = Parameters {
        p: "23".to_string(),
        q: "eleven".to_string(),
        g: "2".to_string(),
        h: "4".to_string(),
    };
    assert_eq!(GroupParameters::from_parameters(&bad), Err(AuthError::MalformedInput));
    let zero_order = Parameters {
        p: "23".to_string(),
        q: "0".to_string(),
        g: "2".to_string(),
        h: "4".to_string(),
    };
    assert_eq!(GroupParameters::from_parameters(&zero_order), Err(AuthError::MalformedInput));
}

#[test]
fn group_conditions() {
    assert!(small_group().is_valid_group());
    assert!(!GroupParameters::new(n(17), n(19), n(2), n(3)).unwrap().is_valid_group());
    assert!(GroupParameters::new(n(1), n(11), n(2), n(4)).is_none());
    assert!(GroupParameters::new(n(23), n(0), n(2), n(4)).is_none());
}
