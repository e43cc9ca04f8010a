use babyjubjub_rs::PrivateKey;
use grapevine_core::credential::parse;
use grapevine_core::grapevine::Grapevine;
use grapevine_core::model::GrapevineError;
use num_bigint::{BigInt, Sign};

fn key(seed: u8) -> PrivateKey {
    PrivateKey::import(vec![seed; 32]).unwrap()
}

fn sign(k: &PrivateKey, name: &str) -> [u8; 64] {
    k.sign(BigInt::from_bytes_le(Sign::Plus, name.as_bytes()))
        .unwrap()
        .compress()
}

fn with_alice() -> (Grapevine, PrivateKey) {
    let mut g = Grapevine::new();
    let a = key(1);
    g.create_user("alice", a.public().compress(), sign(&a, "alice"))
        .unwrap();
    (g, a)
}

#[test]
fn nonce_used_once() {
    let (mut g, _) = with_alice();
    let token = g.authenticate("alice-0").unwrap();
    assert_eq!(token.user_id(), 0);
    assert_eq!(g.identity(0).unwrap().nonce, 1);
    assert_eq!(
        g.authenticate("alice-0").unwrap_err(),
        GrapevineError::NonceMismatch { expected: 1, received: 0 }
    );
    assert_eq!(g.identity(0).unwrap().nonce, 1);
    assert!(g.authenticate("alice-1").is_ok());
    assert_eq!(g.identity(0).unwrap().nonce, 2);
}

#[test]
fn nonce_ahead_refused() {
    let (mut g, _) = with_alice();
    assert_eq!(
        g.authenticate("alice-5").unwrap_err(),
        GrapevineError::NonceMismatch { expected: 0, received: 5 }
    );
    assert_eq!(g.identity(0).unwrap().nonce, 0);
}

#[test]
fn malformed_credentials() {
    let (mut g, _) = with_alice();
    for c in ["Missing_delimeter", "alice-", "alice-x", "alice-1a", "alice-18446744073709551616", ""] {
        assert_eq!(
            g.authenticate(c).unwrap_err(),
            GrapevineError::MalformedCredential,
            "{}",
            c
        );
    }
    assert_eq!(g.identity(0).unwrap().nonce, 0);
}

#[test]
fn largest_nonce_parses() {
    let (mut g, _) = with_alice();
    assert_eq!(
        g.authenticate("alice-18446744073709551615").unwrap_err(),
        GrapevineError::NonceMismatch { expected: 0, received: u64::MAX }
    );
}

#[test]
fn unknown_identity() {
    let (mut g, _) = with_alice();
    assert_eq!(
        g.authenticate("charlie-0").unwrap_err(),
        GrapevineError::IdentityNotFound
    );
}

#[test]
fn credential_splits_at_last_dash() {
    assert_eq!(parse("charlie-0"), Some((String::from("charlie"), 0)));
    assert_eq!(parse("a-b-42"), Some((String::from("a-b"), 42)));
    assert_eq!(parse("-7"), Some((String::new(), 7)));
    assert_eq!(parse("007-0012"), Some((String::from("007"), 12)));
    assert_eq!(parse("nodash"), None);
}

#[test]
fn dashed_username_authenticates() {
    let mut g = Grapevine::new();
    let a = key(7);
    g.create_user("mr-x", a.public().compress(), sign(&a, "mr-x"))
        .unwrap();
    assert!(g.authenticate("mr-x-0").is_ok());
    assert_eq!(g.identity(0).unwrap().nonce, 1);
}

#[test]
fn signed_guard() {
    let (mut g, a) = with_alice();
    let b = key(2);
    assert_eq!(
        g.authenticate_signed("alice-0", sign(&b, "alice")).unwrap_err(),
        GrapevineError::InvalidSignature
    );
    assert_eq!(g.identity(0).unwrap().nonce, 0);
    assert_eq!(
        g.authenticate_signed("alice-3", sign(&a, "alice")).unwrap_err(),
        GrapevineError::NonceMismatch { expected: 0, received: 3 }
    );
    assert_eq!(g.authenticate_signed("alice-0", sign(&a, "alice")).unwrap().user_id(), 0);
    assert_eq!(g.identity(0).unwrap().nonce, 1);
    assert_eq!(
        g.authenticate_signed("bob-0", sign(&a, "bob")).unwrap_err(),
        GrapevineError::IdentityNotFound
    );
    assert_eq!(
        g.authenticate_signed("alice", sign(&a, "alice")).unwrap_err(),
        GrapevineError::MalformedCredential
    );
}
