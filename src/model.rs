//! The records the server keeps, the errors it reports, and the mathematical
//! view of the whole state with its well-formedness.

use crate::crypto::MAX_USERNAME_CHARS;
use vstd::prelude::*;
use vstd::utf8::is_ascii_chars;

verus! {

/// A registered user. The id of an identity is its position in the registry.
#[derive(Debug, Clone)]
pub struct Identity {
    pub username: String,
    pub public_key: [u8; 32],
    /// The next nonce this identity must present; only ever incremented.
    pub nonce: u64,
    /// Ids of the trust edges this identity sends or receives.
    pub relationship_ids: Vec<usize>,
    /// Ids of the degree proofs this identity owns.
    pub degree_proof_ids: Vec<usize>,
}

/// A sender's consent for the recipient to extend proof chains through it.
/// `ciphertext` holds the sender's auth secret, encrypted under a key that the
/// recipient derives from `ephemeral_public_key` and its own private key.
#[derive(Debug, Clone)]
pub struct RelationshipEdge {
    pub sender_id: usize,
    pub recipient_id: usize,
    pub ephemeral_public_key: [u8; 32],
    pub ciphertext: Vec<u8>,
}

/// One hop of a proof chain: a folded proof that `user_id` stands `degree`
/// relationships away from the author of the phrase behind `phrase_hash`.
#[derive(Debug, Clone)]
pub struct DegreeProof {
    pub phrase_hash: [u8; 32],
    pub auth_hash: [u8; 32],
    pub user_id: usize,
    pub degree: u64,
    pub proof_bytes: Vec<u8>,
    /// The proof of degree `degree - 1` this one was folded from; none at degree 1.
    pub preceding_id: Option<usize>,
    /// The proofs later folded from this one.
    pub proceeding_ids: Vec<usize>,
}

/// What the proof verifier reported for a proof: the step count it was run
/// with and, where the proof verified, its public outputs (slot 1 the phrase
/// hash, slot 2 the auth hash).
#[derive(Debug, Clone)]
pub struct Verification {
    pub step_count: u64,
    pub outputs: Option<Vec<[u8; 32]>>,
}

/// Everything a user needs to fold the next hop from a proof.
#[derive(Debug, Clone)]
pub struct ProofBundle {
    pub degree: u64,
    pub proof_bytes: Vec<u8>,
    pub owner_username: String,
    pub ephemeral_public_key: [u8; 32],
    pub ciphertext: Vec<u8>,
}

/// A summary of one proof owned by a user.
#[derive(Debug, Clone, Copy, PartialEq, Eq)]
pub struct DegreeData {
    pub proof_id: usize,
    pub degree: u64,
    pub phrase_hash: [u8; 32],
}

#[derive(Debug, Clone, Copy, PartialEq, Eq, Structural)]
pub enum GrapevineError {
    UsernameTooLong,
    UsernameNotAscii,
    InvalidSignature,
    UsernameExists,
    PubkeyExists,
    UsernameAndPubkeyExist,
    MalformedCredential,
    IdentityNotFound,
    NonceMismatch { expected: u64, received: u64 },
    NonceExhausted,
    SenderIsRecipient,
    RecipientNotFound,
    UserNotFound,
    PrecedingNotFound,
    ProofInvalid,
    DegreeMismatch,
    PhraseMismatch,
    NoRelationship,
    PhraseAlreadyHeld,
    NotFound,
}

/// `after` is `before` with `edge` appended to its relationship ids.
pub open spec fn gains_relationship(before: Identity, after: Identity, edge: usize) -> bool {
    &&& after.username == before.username
    &&& after.public_key == before.public_key
    &&& after.nonce == before.nonce
    &&& after.relationship_ids@ == before.relationship_ids@.push(edge)
    &&& after.degree_proof_ids == before.degree_proof_ids
}

/// `after` is `before` with `proof` appended to its degree proof ids.
pub open spec fn gains_proof(before: Identity, after: Identity, proof: usize) -> bool {
    &&& after.username == before.username
    &&& after.public_key == before.public_key
    &&& after.nonce == before.nonce
    &&& after.relationship_ids == before.relationship_ids
    &&& after.degree_proof_ids@ == before.degree_proof_ids@.push(proof)
}

/// The verifier ran with the step count owed to `degree` (twice the degree),
/// the proof verified, and its public outputs carry `phrase_hash` in slot 1
/// and `auth_hash` in slot 2.
pub open spec fn verification_accepts(
    v: Verification,
    degree: u64,
    phrase_hash: [u8; 32],
    auth_hash: [u8; 32],
) -> bool {
    &&& v.step_count as int == 2 * degree as int
    &&& v.outputs.is_some()
    &&& v.outputs.unwrap()@.len() >= 3
    &&& v.outputs.unwrap()@[1]@ == phrase_hash@
    &&& v.outputs.unwrap()@[2]@ == auth_hash@
}

/// `p` is a freshly admitted proof with the given fields and no successors.
pub open spec fn is_new_proof(
    p: DegreeProof,
    user: usize,
    phrase_hash: [u8; 32],
    auth_hash: [u8; 32],
    degree: u64,
    proof_bytes: Seq<u8>,
    preceding: Option<usize>,
) -> bool {
    &&& p.phrase_hash == phrase_hash
    &&& p.auth_hash == auth_hash
    &&& p.user_id == user
    &&& p.degree == degree
    &&& p.proof_bytes@ == proof_bytes
    &&& p.preceding_id == preceding
    &&& p.proceeding_ids@.len() == 0
}

/// `after` is `before` with `child` appended to its successors.
pub open spec fn gains_successor(before: DegreeProof, after: DegreeProof, child: usize) -> bool {
    &&& after.phrase_hash == before.phrase_hash
    &&& after.auth_hash == before.auth_hash
    &&& after.user_id == before.user_id
    &&& after.degree == before.degree
    &&& after.proof_bytes == before.proof_bytes
    &&& after.preceding_id == before.preceding_id
    &&& after.proceeding_ids@ == before.proceeding_ids@.push(child)
}

/// The mathematical view of the server state: three append-only tables whose
/// positions are the ids of their records.
pub struct GrapevineView {
    pub identities: Seq<Identity>,
    pub edges: Seq<RelationshipEdge>,
    pub proofs: Seq<DegreeProof>,
}

impl GrapevineView {
    pub open spec fn has_username(self, name: Seq<char>) -> bool {
        exists|i: int| 0 <= i < self.identities.len() && #[trigger] self.identities[i].username@ == name
    }

    pub open spec fn has_public_key(self, key: Seq<u8>) -> bool {
        exists|i: int| 0 <= i < self.identities.len() && #[trigger] self.identities[i].public_key@ == key
    }

    /// The id of the identity named `name`, where there is one.
    pub open spec fn username_index(self, name: Seq<char>) -> int {
        choose|i: int| 0 <= i < self.identities.len() && #[trigger] self.identities[i].username@ == name
    }

    /// This state with identity `i`'s nonce set to `nonce`.
    pub open spec fn with_nonce(self, i: int, nonce: u64) -> GrapevineView {
        GrapevineView {
            identities: self.identities.update(i, Identity { nonce, ..self.identities[i] }),
            ..self
        }
    }

    /// Some edge runs from `sender` to `recipient`.
    pub open spec fn has_edge(self, sender: int, recipient: int) -> bool {
        exists|e: int|
            0 <= e < self.edges.len() && #[trigger] self.edges[e].sender_id == sender
                && self.edges[e].recipient_id == recipient
    }

    /// `user` owns a proof on the phrase `phrase`.
    pub open spec fn holds_phrase(self, user: int, phrase: Seq<u8>) -> bool {
        exists|p: int|
            0 <= p < self.proofs.len() && #[trigger] self.proofs[p].user_id == user
                && self.proofs[p].phrase_hash@ == phrase
    }

    /// Edge `e` is the first that runs from `sender` to `recipient`.
    pub open spec fn is_first_edge(self, e: int, sender: int, recipient: int) -> bool {
        &&& 0 <= e < self.edges.len()
        &&& self.edges[e].sender_id == sender
        &&& self.edges[e].recipient_id == recipient
        &&& forall|w: int|
            0 <= w < e ==> !(#[trigger] self.edges[w].sender_id == sender
                && self.edges[w].recipient_id == recipient)
    }

    /// Proof `p` is one that `user` may extend: its owner trusts `user`, and
    /// `user` holds no proof on its phrase yet.
    pub open spec fn is_available(self, user: int, p: int) -> bool {
        &&& 0 <= p < self.proofs.len()
        &&& self.has_edge(self.proofs[p].user_id as int, user)
        &&& !self.holds_phrase(user, self.proofs[p].phrase_hash@)
    }

    pub open spec fn identities_wf(self) -> bool {
        &&& forall|i: int|
            0 <= i < self.identities.len() ==> is_ascii_chars(#[trigger] self.identities[i].username@)
                && self.identities[i].username@.len() <= MAX_USERNAME_CHARS
        &&& forall|i: int, j: int|
            0 <= i < j < self.identities.len() ==> #[trigger] self.identities[i].username@
                != #[trigger] self.identities[j].username@
        &&& forall|i: int, j: int|
            0 <= i < j < self.identities.len() ==> #[trigger] self.identities[i].public_key@
                != #[trigger] self.identities[j].public_key@
        &&& forall|i: int, k: int|
            0 <= i < self.identities.len() && 0 <= k < self.identities[i].relationship_ids.len()
                ==> {
                let e = #[trigger] self.identities[i].relationship_ids@[k] as int;
                0 <= e < self.edges.len() && (self.edges[e].sender_id == i
                    || self.edges[e].recipient_id == i)
            }
        &&& forall|i: int, k: int|
            0 <= i < self.identities.len() && 0 <= k < self.identities[i].degree_proof_ids.len()
                ==> {
                let p = #[trigger] self.identities[i].degree_proof_ids@[k] as int;
                0 <= p < self.proofs.len() && self.proofs[p].user_id == i
            }
    }

    pub open spec fn edge_wf(self, e: int) -> bool {
        let edge = self.edges[e];
        &&& edge.sender_id < self.identities.len()
        &&& edge.recipient_id < self.identities.len()
        &&& edge.sender_id != edge.recipient_id
    }

    /// Proof `p` is linked into the DAG: a degree-1 proof has no predecessor;
    /// any other has an earlier predecessor of one degree less on the same
    /// phrase, owned by a user who trusts its owner, that lists `p` among its
    /// successors; and each successor it lists points back to it.
    pub open spec fn proof_wf(self, p: int) -> bool {
        let this = self.proofs[p];
        &&& this.user_id < self.identities.len()
        &&& this.degree >= 1
        &&& match this.preceding_id {
            None => this.degree == 1,
            Some(q) => {
                &&& q < p
                &&& self.proofs[q as int].degree + 1 == this.degree
                &&& self.proofs[q as int].phrase_hash@ == this.phrase_hash@
                &&& self.proofs[q as int].proceeding_ids@.contains(p as usize)
                &&& self.has_edge(self.proofs[q as int].user_id as int, this.user_id as int)
            },
        }
        &&& forall|k: int|
            0 <= k < this.proceeding_ids.len() ==> {
                let c = #[trigger] this.proceeding_ids@[k] as int;
                p < c < self.proofs.len() && self.proofs[c].preceding_id == Some(p as usize)
            }
    }

    /// `next` is this state with one proof appended: the new proof as given,
    /// listed by its owner and by its predecessor; nothing else changes.
    pub open spec fn proof_added(
        self,
        next: GrapevineView,
        user: usize,
        phrase_hash: [u8; 32],
        auth_hash: [u8; 32],
        degree: u64,
        proof_bytes: Seq<u8>,
        preceding: Option<usize>,
    ) -> bool {
        let id = self.proofs.len();
        &&& next.proofs.len() == id + 1
        &&& is_new_proof(
            next.proofs[id as int],
            user,
            phrase_hash,
            auth_hash,
            degree,
            proof_bytes,
            preceding,
        )
        &&& forall|q: int|
            0 <= q < id && (preceding.is_none() || preceding.unwrap() as int != q)
                ==> #[trigger] next.proofs[q]
                == self.proofs[q]
        &&& match preceding {
            None => true,
            Some(q) => gains_successor(self.proofs[q as int], next.proofs[q as int], id as usize),
        }
        &&& next.edges == self.edges
        &&& next.identities.len() == self.identities.len()
        &&& forall|j: int|
            0 <= j < self.identities.len() && j != user ==> #[trigger] next.identities[j]
                == self.identities[j]
        &&& gains_proof(self.identities[user as int], next.identities[user as int], id as usize)
    }

    pub open spec fn wf(self) -> bool {
        &&& self.identities_wf()
        &&& forall|e: int| 0 <= e < self.edges.len() ==> #[trigger] self.edge_wf(e)
        &&& forall|p: int| 0 <= p < self.proofs.len() ==> #[trigger] self.proof_wf(p)
        &&& forall|p: int, q: int|
            0 <= p < q < self.proofs.len() && #[trigger] self.proofs[p].user_id
                == #[trigger] self.proofs[q].user_id ==> self.proofs[p].phrase_hash@
                != self.proofs[q].phrase_hash@
    }
}

} // verus!
