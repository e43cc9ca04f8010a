use babyjubjub_rs::PrivateKey;
use grapevine_core::grapevine::{required_step_count, AuthenticatedIdentity, Grapevine};
use grapevine_core::model::{GrapevineError, Verification};
use num_bigint::{BigInt, Sign};

fn key(seed: u8) -> PrivateKey {
    PrivateKey::import(vec![seed; 32]).unwrap()
}

fn sign(k: &PrivateKey, name: &str) -> [u8; 64] {
    k.sign(BigInt::from_bytes_le(Sign::Plus, name.as_bytes()))
        .unwrap()
        .compress()
}

fn register(g: &mut Grapevine, name: &str, seed: u8) -> usize {
    let k = key(seed);
    g.create_user(name, k.public().compress(), sign(&k, name))
        .unwrap()
}

fn login(g: &mut Grapevine, name: &str) -> AuthenticatedIdentity {
    let nonce = g.get_user(name).unwrap().nonce;
    g.authenticate(&format!("{}-{}", name, nonce)).unwrap()
}

const PHRASE: [u8; 32] = [7; 32];
const AUTH1: [u8; 32] = [1; 32];
const AUTH2: [u8; 32] = [2; 32];

fn verified(degree: u64, phrase: [u8; 32], auth: [u8; 32]) -> Verification {
    Verification {
        step_count: degree * 2,
        outputs: Some(vec![[0; 32], phrase, auth]),
    }
}

/// alice (0) trusts bob (1); bob trusts carol (2); alice holds an origin proof.
fn three_users() -> (Grapevine, usize) {
    let mut g = Grapevine::new();
    register(&mut g, "alice", 1);
    register(&mut g, "bob", 2);
    register(&mut g, "carol", 3);
    let alice = login(&mut g, "alice");
    g.add_relationship(&alice, "bob", [9; 32], vec![1, 2, 3]).unwrap();
    let bob = login(&mut g, "bob");
    g.add_relationship(&bob, "carol", [8; 32], vec![4, 5]).unwrap();
    let alice = login(&mut g, "alice");
    let origin = g
        .create_phrase(&alice, PHRASE, AUTH1, vec![0xaa], &verified(1, PHRASE, AUTH1))
        .unwrap();
    (g, origin)
}

#[test]
fn scenario_alice_bob_frontier() {
    let mut g = Grapevine::new();
    let a = key(1);
    let b = key(2);
    assert_eq!(g.create_user("alice", a.public().compress(), sign(&a, "alice")), Ok(0));
    assert_eq!(
        g.create_user("alice", b.public().compress(), sign(&b, "alice")),
        Err(GrapevineError::UsernameExists)
    );
    let alice = g.authenticate("alice-0").unwrap();
    assert_eq!(g.identity(0).unwrap().nonce, 1);
    assert_eq!(
        g.authenticate("alice-0").unwrap_err(),
        GrapevineError::NonceMismatch { expected: 1, received: 0 }
    );
    assert_eq!(g.create_user("bob", b.public().compress(), sign(&b, "bob")), Ok(1));
    assert_eq!(g.add_relationship(&alice, "bob", [9; 32], vec![1, 2, 3]), Ok(0));
    assert!(g.get_available_proofs(1).is_empty());
    let origin = g
        .create_phrase(&alice, PHRASE, AUTH1, vec![0xaa], &verified(1, PHRASE, AUTH1))
        .unwrap();
    assert_eq!(g.get_available_proofs(1), vec![origin]);
}

#[test]
fn relationship_errors_and_secret() {
    let mut g = Grapevine::new();
    register(&mut g, "alice", 1);
    register(&mut g, "bob", 2);
    let alice = login(&mut g, "alice");
    assert_eq!(
        g.add_relationship(&alice, "alice", [9; 32], vec![1]),
        Err(GrapevineError::SenderIsRecipient)
    );
    assert_eq!(
        g.add_relationship(&alice, "zed", [9; 32], vec![1]),
        Err(GrapevineError::RecipientNotFound)
    );
    assert_eq!(g.add_relationship(&alice, "bob", [9; 32], vec![1, 2]), Ok(0));
    assert_eq!(g.add_relationship(&alice, "bob", [6; 32], vec![3]), Ok(1));
    assert_eq!(g.identity(0).unwrap().relationship_ids, vec![0, 1]);
    assert_eq!(g.identity(1).unwrap().relationship_ids, vec![0, 1]);
    let e = g.edge(0).unwrap();
    assert_eq!((e.sender_id, e.recipient_id), (0, 1));
    assert_eq!(g.secret_for(1, 0), Ok(([9; 32], vec![1, 2])));
    assert_eq!(g.secret_for(1, 1), Ok(([6; 32], vec![3])));
    assert_eq!(g.secret_for(0, 0), Err(GrapevineError::NotFound));
    assert_eq!(g.secret_for(1, 2), Err(GrapevineError::NotFound));
}

#[test]
fn unknown_user_token() {
    let mut other = Grapevine::new();
    register(&mut other, "x", 5);
    register(&mut other, "y", 6);
    let y = login(&mut other, "y");
    let mut g = Grapevine::new();
    register(&mut g, "alice", 1);
    assert_eq!(
        g.add_relationship(&y, "alice", [0; 32], vec![]),
        Err(GrapevineError::UserNotFound)
    );
    assert_eq!(
        g.create_phrase(&y, PHRASE, AUTH1, vec![], &verified(1, PHRASE, AUTH1)),
        Err(GrapevineError::UserNotFound)
    );
    assert_eq!(
        g.degree_proof(&y, PHRASE, AUTH2, 2, vec![], 0, &verified(2, PHRASE, AUTH2)),
        Err(GrapevineError::UserNotFound)
    );
}

#[test]
fn origin_checks() {
    let mut g = Grapevine::new();
    register(&mut g, "alice", 1);
    let alice = login(&mut g, "alice");
    let wrong_steps = Verification { step_count: 4, outputs: Some(vec![[0; 32], PHRASE, AUTH1]) };
    assert_eq!(
        g.create_phrase(&alice, PHRASE, AUTH1, vec![], &wrong_steps),
        Err(GrapevineError::ProofInvalid)
    );
    let failed = Verification { step_count: 2, outputs: None };
    assert_eq!(
        g.create_phrase(&alice, PHRASE, AUTH1, vec![], &failed),
        Err(GrapevineError::ProofInvalid)
    );
    let short = Verification { step_count: 2, outputs: Some(vec![[0; 32], PHRASE]) };
    assert_eq!(
        g.create_phrase(&alice, PHRASE, AUTH1, vec![], &short),
        Err(GrapevineError::ProofInvalid)
    );
    assert_eq!(
        g.create_phrase(&alice, PHRASE, AUTH2, vec![], &verified(1, PHRASE, AUTH1)),
        Err(GrapevineError::ProofInvalid)
    );
    assert_eq!(g.proof_count(), 0);
    assert_eq!(
        g.create_phrase(&alice, PHRASE, AUTH1, vec![5], &verified(1, PHRASE, AUTH1)),
        Ok(0)
    );
    let p = g.proof_at(0).unwrap();
    assert_eq!((p.degree, p.user_id, p.preceding_id), (1, 0, None));
    assert_eq!(g.identity(0).unwrap().degree_proof_ids, vec![0]);
    assert_eq!(
        g.create_phrase(&alice, PHRASE, AUTH2, vec![5], &verified(1, PHRASE, AUTH2)),
        Err(GrapevineError::PhraseAlreadyHeld)
    );
}

#[test]
fn extend_links_dag_and_leaves_frontier() {
    let (mut g, origin) = three_users();
    assert_eq!(g.get_available_proofs(1), vec![origin]);
    assert!(g.get_available_proofs(2).is_empty());
    let bob = login(&mut g, "bob");
    let child = g
        .degree_proof(&bob, PHRASE, AUTH2, 2, vec![0xbb], origin, &verified(2, PHRASE, AUTH2))
        .unwrap();
    assert_eq!(child, 1);
    let c = g.proof_at(child).unwrap();
    assert_eq!((c.degree, c.user_id, c.preceding_id), (2, 1, Some(origin)));
    assert_eq!(g.proof_at(origin).unwrap().proceeding_ids, vec![child]);
    assert!(g.get_available_proofs(1).is_empty());
    assert_eq!(g.get_available_proofs(2), vec![child]);
    assert_eq!(g.identity(1).unwrap().degree_proof_ids, vec![child]);
}

#[test]
fn extend_errors() {
    let (mut g, origin) = three_users();
    let bob = login(&mut g, "bob");
    assert_eq!(
        g.degree_proof(&bob, PHRASE, AUTH2, 2, vec![], 9, &verified(2, PHRASE, AUTH2)),
        Err(GrapevineError::PrecedingNotFound)
    );
    assert_eq!(
        g.degree_proof(&bob, PHRASE, AUTH2, 2, vec![], origin, &verified(1, PHRASE, AUTH2)),
        Err(GrapevineError::ProofInvalid)
    );
    assert_eq!(
        g.degree_proof(&bob, PHRASE, AUTH2, 2, vec![], origin, &verified(2, PHRASE, AUTH1)),
        Err(GrapevineError::ProofInvalid)
    );
    assert_eq!(
        g.degree_proof(&bob, [3; 32], AUTH2, 2, vec![], origin, &verified(2, PHRASE, AUTH2)),
        Err(GrapevineError::ProofInvalid)
    );
    assert_eq!(
        g.degree_proof(&bob, PHRASE, AUTH2, 3, vec![], origin, &verified(3, PHRASE, AUTH2)),
        Err(GrapevineError::DegreeMismatch)
    );
    assert_eq!(
        g.degree_proof(&bob, [3; 32], AUTH2, 2, vec![], origin, &verified(2, [3; 32], AUTH2)),
        Err(GrapevineError::PhraseMismatch)
    );
    let carol = login(&mut g, "carol");
    assert_eq!(
        g.degree_proof(&carol, PHRASE, AUTH2, 2, vec![], origin, &verified(2, PHRASE, AUTH2)),
        Err(GrapevineError::NoRelationship)
    );
    assert_eq!(g.proof_count(), 1);
    g.degree_proof(&bob, PHRASE, AUTH2, 2, vec![], origin, &verified(2, PHRASE, AUTH2))
        .unwrap();
    assert_eq!(
        g.degree_proof(&bob, PHRASE, [4; 32], 2, vec![], origin, &verified(2, PHRASE, [4; 32])),
        Err(GrapevineError::PhraseAlreadyHeld)
    );
    assert_eq!(
        g.degree_proof(&bob, PHRASE, AUTH2, u64::MAX, vec![], origin, &verified(1, PHRASE, AUTH2)),
        Err(GrapevineError::ProofInvalid)
    );
}

#[test]
fn own_phrase_not_offered() {
    let (mut g, _origin) = three_users();
    let bob = login(&mut g, "bob");
    g.create_phrase(&bob, PHRASE, AUTH2, vec![], &verified(1, PHRASE, AUTH2))
        .unwrap();
    assert!(g.get_available_proofs(1).is_empty());
}

#[test]
fn bundle_and_degrees() {
    let (mut g, origin) = three_users();
    let b = g.get_proof_with_params(1, origin).unwrap();
    assert_eq!(b.degree, 1);
    assert_eq!(b.proof_bytes, vec![0xaa]);
    assert_eq!(b.owner_username, "alice");
    assert_eq!(b.ephemeral_public_key, [9; 32]);
    assert_eq!(b.ciphertext, vec![1, 2, 3]);
    assert_eq!(g.get_proof_with_params(2, origin).unwrap_err(), GrapevineError::NotFound);
    assert_eq!(g.get_proof_with_params(1, 5).unwrap_err(), GrapevineError::NotFound);
    let bob = login(&mut g, "bob");
    let child = g
        .degree_proof(&bob, PHRASE, AUTH2, 2, vec![0xbb], origin, &verified(2, PHRASE, AUTH2))
        .unwrap();
    let other = g
        .create_phrase(&bob, [5; 32], AUTH1, vec![], &verified(1, [5; 32], AUTH1))
        .unwrap();
    let d = g.get_all_degrees(1);
    assert_eq!(d.len(), 2);
    assert_eq!((d[0].proof_id, d[0].degree, d[0].phrase_hash), (child, 2, PHRASE));
    assert_eq!((d[1].proof_id, d[1].degree, d[1].phrase_hash), (other, 1, [5; 32]));
    assert_eq!(g.get_all_degrees(2).len(), 0);
    let cb = g.get_proof_with_params(2, child).unwrap();
    assert_eq!((cb.degree, cb.owner_username.as_str()), (2, "bob"));
    assert_eq!((cb.ephemeral_public_key, cb.ciphertext), ([8; 32], vec![4, 5]));
}

#[test]
fn step_counts() {
    assert_eq!(required_step_count(1), Some(2));
    assert_eq!(required_step_count(3), Some(6));
    assert_eq!(required_step_count(u64::MAX / 2), Some(u64::MAX - 1));
    assert_eq!(required_step_count(u64::MAX / 2 + 1), None);
}
