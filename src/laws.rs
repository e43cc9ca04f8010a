//! Properties that relate several operations or hold of every reachable
//! state, proved over the outcomes the operations' contracts state.

use crate::credential::parse_credential;
use crate::crypto::{signs_username, MAX_USERNAME_CHARS};
use crate::grapevine::{
    authentication_outcome, extension_outcome, is_fresh_identity, registration_outcome,
};
use crate::model::{GrapevineError, GrapevineView, Verification, verification_accepts};
use vstd::prelude::*;
use vstd::string::StringSliceAdditionalSpecFns;

verus! {

/// A nonce is good for exactly one authentication: presenting an identity's
/// current nonce `n` succeeds and moves it to `n + 1`, after which the same
/// credential fails with a mismatch that expects `n + 1` and names `n`.
pub proof fn lemma_nonce_single_use(v: GrapevineView, credential: Seq<char>)
    requires
        v.wf(),
        parse_credential(credential).is_some(),
        v.has_username(parse_credential(credential).unwrap().0),
        v.identities[v.username_index(parse_credential(credential).unwrap().0)].nonce
            == parse_credential(credential).unwrap().1,
        parse_credential(credential).unwrap().1 < u64::MAX,
    ensures
        ({
            let (name, n) = parse_credential(credential).unwrap();
            let i = v.username_index(name);
            &&& authentication_outcome(v, credential) == Ok::<usize, GrapevineError>(i as usize)
            &&& authentication_outcome(v.with_nonce(i, (n + 1) as u64), credential) == Err::<
                usize,
                GrapevineError,
            >(GrapevineError::NonceMismatch { expected: (n + 1) as u64, received: n })
        }),
{
    let (name, n) = parse_credential(credential).unwrap();
    let i = v.username_index(name);
    let w = v.with_nonce(i, (n + 1) as u64);
    assert(w.identities[i].username@ == name);
    assert(w.has_username(name));
    let j = w.username_index(name);
    assert(w.identities[j].username@ == v.identities[j].username@);
    if i != j {
        if i < j {
            assert(v.identities[i].username@ != v.identities[j].username@);
        } else {
            assert(v.identities[j].username@ != v.identities[i].username@);
        }
    }
}

/// Once `username` is registered under `public_key`, no registration of that
/// name or that key succeeds again: a request whose name and key are both
/// taken by it is told so, and one that reuses only the name, or only the key,
/// gets the matching conflict.
pub proof fn lemma_registration_unique(
    v: GrapevineView,
    next: GrapevineView,
    username: &str,
    public_key: [u8; 32],
    other: &str,
    other_key: [u8; 32],
    other_signature: [u8; 64],
)
    requires
        next.identities.len() == v.identities.len() + 1,
        next.identities.drop_last() == v.identities,
        is_fresh_identity(next.identities.last(), username@, public_key),
        other.spec_bytes().len() <= MAX_USERNAME_CHARS,
        other.is_ascii(),
        signs_username(other_key, other_signature, other@),
    ensures
        registration_outcome(next, other, other_key, other_signature).is_ok() ==> other@
            != username@ && other_key@ != public_key@,
        other@ == username@ && other_key@ == public_key@ ==> registration_outcome(
            next,
            other,
            other_key,
            other_signature,
        ) == Err::<(), GrapevineError>(GrapevineError::UsernameAndPubkeyExist),
        other@ == username@ && !next.has_public_key(other_key@) ==> registration_outcome(
            next,
            other,
            other_key,
            other_signature,
        ) == Err::<(), GrapevineError>(GrapevineError::UsernameExists),
        other_key@ == public_key@ && !next.has_username(other@) ==> registration_outcome(
            next,
            other,
            other_key,
            other_signature,
        ) == Err::<(), GrapevineError>(GrapevineError::PubkeyExists),
{
    let last = v.identities.len() as int;
    assert(next.identities[last] == next.identities.last());
    if other@ == username@ {
        assert(next.has_username(other@));
    }
    if other_key@ == public_key@ {
        assert(next.has_public_key(other_key@));
    }
}

/// A well-formed name that is free and a key that is free register exactly
/// when the signature signs the name under that key; no registration ever
/// succeeds without such a signature.
pub proof fn lemma_signature_binding(
    v: GrapevineView,
    username: &str,
    public_key: [u8; 32],
    signature: [u8; 64],
)
    ensures
        registration_outcome(v, username, public_key, signature).is_ok() ==> signs_username(
            public_key,
            signature,
            username@,
        ),
        username.spec_bytes().len() <= MAX_USERNAME_CHARS && username.is_ascii()
            && !v.has_username(username@) && !v.has_public_key(public_key@) ==> (
        registration_outcome(v, username, public_key, signature).is_ok() <==> signs_username(
            public_key,
            signature,
            username@,
        )),
{
}

/// An extension is admitted only if the verifier ran with twice the declared
/// degree and reported the declared phrase and auth hashes; for a known user
/// and predecessor, any other report is refused as an invalid proof.
pub proof fn lemma_extension_needs_verification(
    v: GrapevineView,
    user: usize,
    phrase_hash: [u8; 32],
    auth_hash: [u8; 32],
    degree: u64,
    preceding: usize,
    verification: Verification,
)
    ensures
        extension_outcome(v, user, phrase_hash, auth_hash, degree, preceding, verification).is_ok()
            ==> verification.step_count as int == 2 * degree as int && verification_accepts(
            verification,
            degree,
            phrase_hash,
            auth_hash,
        ),
        user < v.identities.len() && preceding < v.proofs.len() && !verification_accepts(
            verification,
            degree,
            phrase_hash,
            auth_hash,
        ) ==> extension_outcome(v, user, phrase_hash, auth_hash, degree, preceding, verification)
            == Err::<(), GrapevineError>(GrapevineError::ProofInvalid),
{
}

/// In every well-formed state (and every operation keeps the state so), each
/// proof above degree 1 has a predecessor of one degree less that lists it
/// among its successors, and each degree-1 proof has none.
pub proof fn lemma_dag_integrity(v: GrapevineView, p: int)
    requires
        v.wf(),
        0 <= p < v.proofs.len(),
    ensures
        v.proofs[p].degree >= 1,
        v.proofs[p].degree == 1 <==> v.proofs[p].preceding_id.is_none(),
        v.proofs[p].degree > 1 ==> {
            let q = v.proofs[p].preceding_id.unwrap() as int;
            &&& 0 <= q < v.proofs.len()
            &&& v.proofs[q].degree == v.proofs[p].degree - 1
            &&& v.proofs[q].proceeding_ids@.contains(p as usize)
        },
{
    assert(v.proof_wf(p));
    if let Some(q) = v.proofs[p].preceding_id {
        assert(v.proofs[q as int].degree >= 1) by {
            assert(v.proof_wf(q as int));
        }
    }
}

/// In every well-formed state a user owns at most one proof per phrase.
pub proof fn lemma_one_proof_per_phrase(v: GrapevineView, p: int, q: int)
    requires
        v.wf(),
        0 <= p < v.proofs.len(),
        0 <= q < v.proofs.len(),
        p != q,
        v.proofs[p].user_id == v.proofs[q].user_id,
    ensures
        v.proofs[p].phrase_hash@ != v.proofs[q].phrase_hash@,
{
    if p > q {
        assert(v.proofs[q].user_id == v.proofs[p].user_id);
    }
}

/// Once `user` adds a proof on the phrase of an available proof `q` (by
/// extending from it or otherwise), `q` is no longer available to `user`.
pub proof fn lemma_extended_leaves_frontier(
    v: GrapevineView,
    next: GrapevineView,
    user: usize,
    phrase_hash: [u8; 32],
    auth_hash: [u8; 32],
    degree: u64,
    proof_bytes: Seq<u8>,
    preceding: Option<usize>,
    q: int,
)
    requires
        v.proof_added(next, user, phrase_hash, auth_hash, degree, proof_bytes, preceding),
        0 <= q < v.proofs.len(),
        v.proofs[q].phrase_hash@ == phrase_hash@,
    ensures
        !next.is_available(user as int, q),
{
    let id = v.proofs.len() as int;
    assert(next.proofs[id].user_id == user);
    assert(next.holds_phrase(user as int, phrase_hash@));
    match preceding {
        Some(r) if r as int == q => {
            assert(next.proofs[q].phrase_hash == v.proofs[q].phrase_hash);
        },
        _ => {
            assert(next.proofs[q] == v.proofs[q]);
        },
    }
    assert(next.proofs[q].phrase_hash@ == phrase_hash@);
}

} // verus!
