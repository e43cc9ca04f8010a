//! The server state and every operation on it: registration, nonce
//! authentication, trust edges, and the degree-proof DAG.

use crate::crypto::{
    hex_of, signs_username, to_hex, verify_username_signature, MAX_USERNAME_CHARS,
};
use crate::credential::{parse, parse_credential};
use crate::model::{
    gains_proof, gains_relationship, verification_accepts, DegreeData, DegreeProof,
    GrapevineError, GrapevineView, Identity, ProofBundle, RelationshipEdge, Verification,
};
use vstd::prelude::*;
use vstd::string::StringSliceAdditionalSpecFns;
use vstd::utf8::is_ascii_chars;

verus! {

/// The outcome that registering `username` with `public_key` and `signature`
/// must have in state `v`.
pub open spec fn registration_outcome(
    v: GrapevineView,
    username: &str,
    public_key: [u8; 32],
    signature: [u8; 64],
) -> Result<(), GrapevineError> {
    if username.spec_bytes().len() > MAX_USERNAME_CHARS {
        Err(GrapevineError::UsernameTooLong)
    } else if !username.is_ascii() {
        Err(GrapevineError::UsernameNotAscii)
    } else if !signs_username(public_key, signature, username@) {
        Err(GrapevineError::InvalidSignature)
    } else if v.has_username(username@) && v.has_public_key(public_key@) {
        Err(GrapevineError::UsernameAndPubkeyExist)
    } else if v.has_username(username@) {
        Err(GrapevineError::UsernameExists)
    } else if v.has_public_key(public_key@) {
        Err(GrapevineError::PubkeyExists)
    } else {
        Ok(())
    }
}

/// `id` is a freshly registered identity for `username` and `public_key`.
pub open spec fn is_fresh_identity(id: Identity, username: Seq<char>, public_key: [u8; 32]) -> bool {
    &&& id.username@ == username
    &&& id.public_key@ == public_key@
    &&& id.nonce == 0
    &&& id.relationship_ids@.len() == 0
    &&& id.degree_proof_ids@.len() == 0
}

/// The outcome that presenting a credential must have in state `v`: the id
/// of the identity it authenticates, or the error.
pub open spec fn authentication_outcome(v: GrapevineView, credential: Seq<char>) -> Result<
    usize,
    GrapevineError,
> {
    match parse_credential(credential) {
        None => Err(GrapevineError::MalformedCredential),
        Some((name, nonce)) => if !v.has_username(name) {
            Err(GrapevineError::IdentityNotFound)
        } else {
            let i = v.username_index(name);
            let stored = v.identities[i].nonce;
            if stored != nonce {
                Err(GrapevineError::NonceMismatch { expected: stored, received: nonce })
            } else if stored == u64::MAX {
                Err(GrapevineError::NonceExhausted)
            } else {
                Ok(i as usize)
            }
        },
    }
}

/// The outcome that `sender` adding an edge to the identity named
/// `recipient` must have in state `v`: the recipient's id, or the error.
pub open spec fn relationship_outcome(v: GrapevineView, sender: usize, recipient: Seq<char>) -> Result<
    usize,
    GrapevineError,
> {
    if sender >= v.identities.len() {
        Err(GrapevineError::UserNotFound)
    } else if v.identities[sender as int].username@ == recipient {
        Err(GrapevineError::SenderIsRecipient)
    } else if !v.has_username(recipient) {
        Err(GrapevineError::RecipientNotFound)
    } else {
        Ok(v.username_index(recipient) as usize)
    }
}

/// The outcome that admitting a degree-1 proof must have in state `v`.
pub open spec fn origin_outcome(
    v: GrapevineView,
    user: usize,
    phrase_hash: [u8; 32],
    auth_hash: [u8; 32],
    verification: Verification,
) -> Result<(), GrapevineError> {
    if user >= v.identities.len() {
        Err(GrapevineError::UserNotFound)
    } else if !verification_accepts(verification, 1, phrase_hash, auth_hash) {
        Err(GrapevineError::ProofInvalid)
    } else if v.holds_phrase(user as int, phrase_hash@) {
        Err(GrapevineError::PhraseAlreadyHeld)
    } else {
        Ok(())
    }
}

/// The outcome that admitting a proof of `degree` folded from proof
/// `preceding` must have in state `v`.
pub open spec fn extension_outcome(
    v: GrapevineView,
    user: usize,
    phrase_hash: [u8; 32],
    auth_hash: [u8; 32],
    degree: u64,
    preceding: usize,
    verification: Verification,
) -> Result<(), GrapevineError> {
    if user >= v.identities.len() {
        Err(GrapevineError::UserNotFound)
    } else if preceding >= v.proofs.len() {
        Err(GrapevineError::PrecedingNotFound)
    } else if !verification_accepts(verification, degree, phrase_hash, auth_hash) {
        Err(GrapevineError::ProofInvalid)
    } else if v.proofs[preceding as int].degree + 1 != degree {
        Err(GrapevineError::DegreeMismatch)
    } else if v.proofs[preceding as int].phrase_hash@ != phrase_hash@ {
        Err(GrapevineError::PhraseMismatch)
    } else if !v.has_edge(v.proofs[preceding as int].user_id as int, user as int) {
        Err(GrapevineError::NoRelationship)
    } else if v.holds_phrase(user as int, phrase_hash@) {
        Err(GrapevineError::PhraseAlreadyHeld)
    } else {
        Ok(())
    }
}

/// The step count the verifier must be run with for a proof of `degree`:
/// twice the degree, where that fits in 64 bits.
pub fn required_step_count(degree: u64) -> (r: Option<u64>)
    ensures
        match r {
            Some(n) => n == 2 * degree,
            None => 2 * degree > u64::MAX,
        },
{
    if degree > u64::MAX / 2 {
        None
    } else {
        Some(degree * 2)
    }
}

fn accepts(verification: &Verification, degree: u64, phrase_hash: &[u8; 32], auth_hash: &[u8; 32]) -> (r:
    bool)
    ensures
        r == verification_accepts(*verification, degree, *phrase_hash, *auth_hash),
{
    match required_step_count(degree) {
        None => return false,
        Some(n) => if verification.step_count != n {
            return false;
        },
    }
    match &verification.outputs {
        None => false,
        Some(o) => o.len() >= 3 && bytes32_eq(&o[1], phrase_hash) && bytes32_eq(&o[2], auth_hash),
    }
}

/// The outcome that presenting a credential with a signature must have in
/// state `v`: as for the credential alone, except that the signature must
/// sign the named identity's username under its public key.
pub open spec fn signed_authentication_outcome(
    v: GrapevineView,
    credential: Seq<char>,
    signature: [u8; 64],
) -> Result<usize, GrapevineError> {
    match parse_credential(credential) {
        None => Err(GrapevineError::MalformedCredential),
        Some((name, nonce)) => if !v.has_username(name) {
            Err(GrapevineError::IdentityNotFound)
        } else if !signs_username(
            v.identities[v.username_index(name)].public_key,
            signature,
            name,
        ) {
            Err(GrapevineError::InvalidSignature)
        } else {
            authentication_outcome(v, credential)
        },
    }
}

/// Proof that a request presented the current nonce of an identity. Only
/// authentication makes one.
#[derive(Debug)]
pub struct AuthenticatedIdentity {
    user_id: usize,
}

impl AuthenticatedIdentity {
    /// The id of the authenticated identity.
    pub closed spec fn id(&self) -> usize {
        self.user_id
    }

    pub fn user_id(&self) -> (r: usize)
        ensures
            r == self.id(),
    {
        self.user_id
    }
}

/// The server state. Records are never removed, so ids stay valid.
pub struct Grapevine {
    identities: Vec<Identity>,
    edges: Vec<RelationshipEdge>,
    proofs: Vec<DegreeProof>,
}

impl View for Grapevine {
    type V = GrapevineView;

    closed spec fn view(&self) -> GrapevineView {
        GrapevineView { identities: self.identities@, edges: self.edges@, proofs: self.proofs@ }
    }
}

fn copy_bytes(v: &Vec<u8>) -> (r: Vec<u8>)
    ensures
        r@ == v@,
{
    let r = v.clone();
    assert(r@ =~= v@);
    r
}

fn bytes32_eq(a: &[u8; 32], b: &[u8; 32]) -> (r: bool)
    ensures
        r == (a@ == b@),
{
    let mut i: usize = 0;
    while i < 32
        invariant
            0 <= i <= 32,
            a@.len() == 32,
            b@.len() == 32,
            forall|j: int| 0 <= j < i ==> a@[j] == b@[j],
        decreases 32 - i,
    {
        if a[i] != b[i] {
            return false;
        }
        i = i + 1;
    }
    assert(a@ =~= b@);
    true
}

impl Grapevine {
    /// An empty server.
    pub fn new() -> (r: Grapevine)
        ensures
            r@.identities.len() == 0,
            r@.edges.len() == 0,
            r@.proofs.len() == 0,
            r@.wf(),
    {
        Grapevine { identities: Vec::new(), edges: Vec::new(), proofs: Vec::new() }
    }

    /// The id of the identity named `username`, if any.
    pub fn find_username(&self, username: &str) -> (r: Option<usize>)
        requires
            self@.wf(),
        ensures
            match r {
                Some(i) => i < self@.identities.len() && self@.identities[i as int].username@
                    == username@,
                None => !self@.has_username(username@),
            },
    {
        let name = username.to_owned();
        let mut i: usize = 0;
        while i < self.identities.len()
            invariant
                0 <= i <= self.identities@.len(),
                name@ == username@,
                forall|j: int| 0 <= j < i ==> self.identities@[j].username@ != username@,
            decreases self.identities@.len() - i,
        {
            if self.identities[i].username == name {
                return Some(i);
            }
            i = i + 1;
        }
        None
    }

    fn has_public_key(&self, public_key: &[u8; 32]) -> (r: bool)
        ensures
            r == self@.has_public_key(public_key@),
    {
        let mut i: usize = 0;
        while i < self.identities.len()
            invariant
                0 <= i <= self.identities@.len(),
                forall|j: int| 0 <= j < i ==> self.identities@[j].public_key@ != public_key@,
            decreases self.identities@.len() - i,
        {
            if bytes32_eq(&self.identities[i].public_key, public_key) {
                assert(self@.identities[i as int].public_key@ == public_key@);
                return true;
            }
            i = i + 1;
        }
        false
    }

    /// Registers `username` under `public_key`, given a signature by that key
    /// over the username's canonical encoding. On success the new identity's id
    /// is returned; it starts at nonce 0 with no edges and no proofs.
    pub fn create_user(&mut self, username: &str, public_key: [u8; 32], signature: [u8; 64]) -> (r:
        Result<usize, GrapevineError>)
        requires
            old(self)@.wf(),
        ensures
            final(self)@.wf(),
            match registration_outcome(old(self)@, username, public_key, signature) {
                Ok(()) => {
                    &&& r == Ok::<usize, GrapevineError>(old(self)@.identities.len() as usize)
                    &&& final(self)@.identities.len() == old(self)@.identities.len() + 1
                    &&& final(self)@.identities.drop_last() == old(self)@.identities
                    &&& is_fresh_identity(final(self)@.identities.last(), username@, public_key)
                    &&& final(self)@.edges == old(self)@.edges
                    &&& final(self)@.proofs == old(self)@.proofs
                },
                Err(e) => r == Err::<usize, GrapevineError>(e) && final(self)@ == old(self)@,
            },
    {
        if username.as_bytes().len() > MAX_USERNAME_CHARS {
            return Err(GrapevineError::UsernameTooLong);
        }
        if !username.is_ascii() {
            return Err(GrapevineError::UsernameNotAscii);
        }
        if !verify_username_signature(public_key, &signature, username) {
            return Err(GrapevineError::InvalidSignature);
        }
        let name_taken = self.find_username(username).is_some();
        let key_taken = self.has_public_key(&public_key);
        if name_taken && key_taken {
            return Err(GrapevineError::UsernameAndPubkeyExist);
        }
        if name_taken {
            return Err(GrapevineError::UsernameExists);
        }
        if key_taken {
            return Err(GrapevineError::PubkeyExists);
        }
        let id = self.identities.len();
        let identity = Identity {
            username: username.to_owned(),
            public_key,
            nonce: 0,
            relationship_ids: Vec::new(),
            degree_proof_ids: Vec::new(),
        };
        self.identities.push(identity);
        proof {
            let v = self@;
            assert(v.identities.drop_last() =~= old(self)@.identities);
            assert forall|i: int, j: int| 0 <= i < j < v.identities.len() implies #[trigger] v.identities[i].username@
                != #[trigger] v.identities[j].username@ by {
                if j == id as int {
                    assert(old(self)@.identities[i].username@ == v.identities[i].username@);
                }
            }
            assert forall|i: int, j: int| 0 <= i < j < v.identities.len() implies #[trigger] v.identities[i].public_key@
                != #[trigger] v.identities[j].public_key@ by {
                if j == id as int {
                    assert(old(self)@.identities[i].public_key@ == v.identities[i].public_key@);
                }
            }
            assert forall|p: int| 0 <= p < v.proofs.len() implies #[trigger] v.proof_wf(p) by {
                assert(old(self)@.proof_wf(p));
                if let Some(q) = v.proofs[p].preceding_id {
                    assert(old(self)@.has_edge(v.proofs[q as int].user_id as int, v.proofs[p].user_id as int));
                }
            }
            assert forall|e: int| 0 <= e < v.edges.len() implies #[trigger] v.edge_wf(e) by {
                assert(old(self)@.edge_wf(e));
            }
        }
        Ok(id)
    }

    /// Checks a credential `<username>-<nonce>` against the stored nonce of
    /// that identity. On success the nonce advances by exactly one and nothing
    /// else changes; on failure nothing changes.
    pub fn authenticate(&mut self, credential: &str) -> (r: Result<
        AuthenticatedIdentity,
        GrapevineError,
    >)
        requires
            old(self)@.wf(),
        ensures
            final(self)@.wf(),
            match authentication_outcome(old(self)@, credential@) {
                Ok(i) => {
                    &&& r.is_ok()
                    &&& r.unwrap().id() == i
                    &&& final(self)@ == old(self)@.with_nonce(
                        i as int,
                        (old(self)@.identities[i as int].nonce + 1) as u64,
                    )
                },
                Err(e) => r.is_err() && r.unwrap_err() == e && final(self)@ == old(self)@,
            },
    {
        let (name, nonce) = match parse(credential) {
            None => return Err(GrapevineError::MalformedCredential),
            Some(p) => p,
        };
        let i = match self.find_username(name.as_str()) {
            None => return Err(GrapevineError::IdentityNotFound),
            Some(i) => i,
        };
        proof {
            self.lemma_username_index(i, name@);
        }
        let stored = self.identities[i].nonce;
        if stored != nonce {
            return Err(GrapevineError::NonceMismatch { expected: stored, received: nonce });
        }
        if stored == u64::MAX {
            return Err(GrapevineError::NonceExhausted);
        }
        let ghost before = self@;
        self.identities[i].nonce = stored + 1;
        proof {
            let v = self@;
            assert(v.identities =~= before.identities.update(
                i as int,
                Identity { nonce: (stored + 1) as u64, ..before.identities[i as int] },
            ));
            assert(v =~= before.with_nonce(i as int, (stored + 1) as u64));
            assert forall|x: int| 0 <= x < v.identities.len() implies v.identities[x].username@
                == before.identities[x].username@ && v.identities[x].public_key@
                == before.identities[x].public_key@ && v.identities[x].degree_proof_ids
                == before.identities[x].degree_proof_ids && v.identities[x].relationship_ids
                == before.identities[x].relationship_ids by {}
            assert(v.identities_wf());
            assert forall|p: int| 0 <= p < v.proofs.len() implies #[trigger] v.proof_wf(p) by {
                assert(before.proof_wf(p));
                if let Some(q) = v.proofs[p].preceding_id {
                    assert(before.has_edge(v.proofs[q as int].user_id as int, v.proofs[p].user_id as int));
                }
            }
            assert forall|e: int| 0 <= e < v.edges.len() implies #[trigger] v.edge_wf(e) by {
                assert(before.edge_wf(e));
            }
        }
        Ok(AuthenticatedIdentity { user_id: i })
    }

    proof fn lemma_username_index(&self, i: usize, name: Seq<char>)
        requires
            self@.wf(),
            i < self@.identities.len(),
            self@.identities[i as int].username@ == name,
        ensures
            self@.has_username(name),
            self@.username_index(name) == i,
    {
        let v = self@;
        let j = v.username_index(name);
        assert(v.identities[i as int].username@ == name);
        assert(0 <= j < v.identities.len() && v.identities[j].username@ == name);
        if i as int != j {
            if i < j {
                assert(v.identities[i as int].username@ != v.identities[j].username@);
            } else {
                assert(v.identities[j].username@ != v.identities[i as int].username@);
            }
        }
    }

    /// Records that the authenticated `sender` trusts the identity named
    /// `recipient`, handing it `ciphertext`, the sender's auth secret encrypted
    /// for the recipient under `ephemeral_public_key`. Returns the new edge's
    /// id, which both identities list among their relationships. Repeated
    /// edges between the same pair are kept side by side.
    pub fn add_relationship(
        &mut self,
        sender: &AuthenticatedIdentity,
        recipient: &str,
        ephemeral_public_key: [u8; 32],
        ciphertext: Vec<u8>,
    ) -> (r: Result<usize, GrapevineError>)
        requires
            old(self)@.wf(),
        ensures
            final(self)@.wf(),
            match relationship_outcome(old(self)@, sender.id(), recipient@) {
                Ok(to) => {
                    let from = sender.id() as int;
                    let e = old(self)@.edges.len();
                    let edge = final(self)@.edges.last();
                    &&& r == Ok::<usize, GrapevineError>(e as usize)
                    &&& final(self)@.edges.len() == e + 1
                    &&& final(self)@.edges.drop_last() == old(self)@.edges
                    &&& edge.sender_id == from && edge.recipient_id == to
                    &&& edge.ephemeral_public_key == ephemeral_public_key
                    &&& edge.ciphertext@ == ciphertext@
                    &&& final(self)@.identities.len() == old(self)@.identities.len()
                    &&& forall|j: int|
                        0 <= j < old(self)@.identities.len() && j != from && j != to ==> (
                        #[trigger] final(self)@.identities[j]) == old(self)@.identities[j]
                    &&& gains_relationship(
                        old(self)@.identities[from],
                        final(self)@.identities[from],
                        e as usize,
                    )
                    &&& gains_relationship(
                        old(self)@.identities[to as int],
                        final(self)@.identities[to as int],
                        e as usize,
                    )
                    &&& final(self)@.proofs == old(self)@.proofs
                },
                Err(err) => r == Err::<usize, GrapevineError>(err) && final(self)@ == old(self)@,
            },
    {
        let from = sender.user_id();
        if from >= self.identities.len() {
            return Err(GrapevineError::UserNotFound);
        }
        let own = self.identities[from].username.as_str().to_owned();
        let target = recipient.to_owned();
        if own == target {
            return Err(GrapevineError::SenderIsRecipient);
        }
        let to = match self.find_username(recipient) {
            None => return Err(GrapevineError::RecipientNotFound),
            Some(to) => to,
        };
        proof {
            self.lemma_username_index(to, recipient@);
        }
        let ghost before = self@;
        let e = self.edges.len();
        self.edges.push(
            RelationshipEdge {
                sender_id: from,
                recipient_id: to,
                ephemeral_public_key,
                ciphertext,
            },
        );
        self.identities[from].relationship_ids.push(e);
        self.identities[to].relationship_ids.push(e);
        proof {
            let v = self@;
            assert(v.edges.drop_last() =~= before.edges);
            assert(v.edges[e as int].sender_id == from);
            assert forall|a: int, b: int| before.has_edge(a, b) implies v.has_edge(a, b) by {
                let w = choose|w: int|
                    0 <= w < before.edges.len() && #[trigger] before.edges[w].sender_id == a
                        && before.edges[w].recipient_id == b;
                assert(v.edges[w] == before.edges[w]);
            }
            assert forall|x: int| 0 <= x < v.identities.len() implies v.identities[x].username@
                == before.identities[x].username@ && v.identities[x].public_key@
                == before.identities[x].public_key@ && v.identities[x].degree_proof_ids
                == before.identities[x].degree_proof_ids by {}
            assert forall|i: int, k: int|
                0 <= i < v.identities.len() && 0 <= k < v.identities[i].relationship_ids.len()
                    implies {
                let w = #[trigger] v.identities[i].relationship_ids@[k] as int;
                0 <= w < v.edges.len() && (v.edges[w].sender_id == i || v.edges[w].recipient_id
                    == i)
            } by {
                if k < before.identities[i].relationship_ids.len() {
                    assert(v.identities[i].relationship_ids@[k]
                        == before.identities[i].relationship_ids@[k]);
                }
            }
            assert forall|i: int, j: int|
                0 <= i < j < v.identities.len() implies #[trigger] v.identities[i].username@
                != #[trigger] v.identities[j].username@ by {}
            assert forall|i: int, j: int|
                0 <= i < j < v.identities.len() implies #[trigger] v.identities[i].public_key@
                != #[trigger] v.identities[j].public_key@ by {}
            assert forall|i: int, k: int|
                0 <= i < v.identities.len() && 0 <= k < v.identities[i].degree_proof_ids.len()
                    implies {
                let p = #[trigger] v.identities[i].degree_proof_ids@[k] as int;
                0 <= p < v.proofs.len() && v.proofs[p].user_id == i
            } by {
                assert(v.identities[i].degree_proof_ids == before.identities[i].degree_proof_ids);
            }
            assert forall|p: int| 0 <= p < v.proofs.len() implies #[trigger] v.proof_wf(p) by {
                assert(before.proof_wf(p));
                if let Some(q) = v.proofs[p].preceding_id {
                    assert(before.has_edge(v.proofs[q as int].user_id as int, v.proofs[p].user_id as int));
                }
            }
            assert forall|x: int| 0 <= x < v.edges.len() implies #[trigger] v.edge_wf(x) by {
                if x < e {
                    assert(before.edge_wf(x));
                }
            }
        }
        Ok(e)
    }

    /// The key-agreement material of edge `edge_id`, for its recipient
    /// `recipient_id` to recover the sender's auth secret locally.
    pub fn secret_for(&self, recipient_id: usize, edge_id: usize) -> (r: Result<
        ([u8; 32], Vec<u8>),
        GrapevineError,
    >)
        ensures
            if edge_id < self@.edges.len() && self@.edges[edge_id as int].recipient_id
                == recipient_id {
                &&& r.is_ok()
                &&& r.unwrap().0 == self@.edges[edge_id as int].ephemeral_public_key
                &&& r.unwrap().1@ == self@.edges[edge_id as int].ciphertext@
            } else {
                r == Err::<([u8; 32], Vec<u8>), GrapevineError>(GrapevineError::NotFound)
            },
    {
        if edge_id >= self.edges.len() || self.edges[edge_id].recipient_id != recipient_id {
            return Err(GrapevineError::NotFound);
        }
        let edge = &self.edges[edge_id];
        Ok((edge.ephemeral_public_key, copy_bytes(&edge.ciphertext)))
    }

    fn has_edge(&self, sender: usize, recipient: usize) -> (r: bool)
        ensures
            r == self@.has_edge(sender as int, recipient as int),
    {
        let mut e: usize = 0;
        while e < self.edges.len()
            invariant
                0 <= e <= self.edges@.len(),
                forall|w: int|
                    0 <= w < e ==> !(#[trigger] self@.edges[w].sender_id == sender
                        && self@.edges[w].recipient_id == recipient),
            decreases self.edges@.len() - e,
        {
            if self.edges[e].sender_id == sender && self.edges[e].recipient_id == recipient {
                assert(self@.edges[e as int].sender_id == sender);
                return true;
            }
            e = e + 1;
        }
        false
    }

    fn holds_phrase(&self, user: usize, phrase_hash: &[u8; 32]) -> (r: bool)
        ensures
            r == self@.holds_phrase(user as int, phrase_hash@),
    {
        let mut p: usize = 0;
        while p < self.proofs.len()
            invariant
                0 <= p <= self.proofs@.len(),
                forall|w: int|
                    0 <= w < p ==> !(#[trigger] self@.proofs[w].user_id == user
                        && self@.proofs[w].phrase_hash@ == phrase_hash@),
            decreases self.proofs@.len() - p,
        {
            if self.proofs[p].user_id == user && bytes32_eq(&self.proofs[p].phrase_hash, phrase_hash) {
                assert(self@.proofs[p as int].user_id == user);
                return true;
            }
            p = p + 1;
        }
        false
    }

    /// Appends a proof whose links have been checked, and records it with its
    /// owner and its predecessor.
    fn push_proof(
        &mut self,
        user: usize,
        phrase_hash: [u8; 32],
        auth_hash: [u8; 32],
        degree: u64,
        proof_bytes: Vec<u8>,
        preceding: Option<usize>,
    ) -> (r: usize)
        requires
            old(self)@.wf(),
            user < old(self)@.identities.len(),
            degree >= 1,
            !old(self)@.holds_phrase(user as int, phrase_hash@),
            match preceding {
                None => degree == 1,
                Some(q) => {
                    &&& q < old(self)@.proofs.len()
                    &&& old(self)@.proofs[q as int].degree + 1 == degree
                    &&& old(self)@.proofs[q as int].phrase_hash@ == phrase_hash@
                    &&& old(self)@.has_edge(
                        old(self)@.proofs[q as int].user_id as int,
                        user as int,
                    )
                },
            },
        ensures
            final(self)@.wf(),
            r == old(self)@.proofs.len(),
            old(self)@.proof_added(
                final(self)@,
                user,
                phrase_hash,
                auth_hash,
                degree,
                proof_bytes@,
                preceding,
            ),
    {
        let ghost before = self@;
        let ghost bytes = proof_bytes@;
        let id = self.proofs.len();
        self.proofs.push(
            DegreeProof {
                phrase_hash,
                auth_hash,
                user_id: user,
                degree,
                proof_bytes,
                preceding_id: preceding,
                proceeding_ids: Vec::new(),
            },
        );
        match preceding {
            None => {},
            Some(q) => {
                self.proofs[q].proceeding_ids.push(id);
            },
        }
        self.identities[user].degree_proof_ids.push(id);
        proof {
            let v = self@;
            assert(before.proof_added(v, user, phrase_hash, auth_hash, degree, bytes, preceding));
            assert forall|x: int| 0 <= x < id implies #[trigger] v.proofs[x].user_id
                == before.proofs[x].user_id && v.proofs[x].phrase_hash == before.proofs[x].phrase_hash
                && v.proofs[x].degree == before.proofs[x].degree && v.proofs[x].preceding_id
                == before.proofs[x].preceding_id by {}
            assert forall|x: int| 0 <= x < v.identities.len() implies v.identities[x].username@
                == before.identities[x].username@ && v.identities[x].public_key@
                == before.identities[x].public_key@ && v.identities[x].relationship_ids
                == before.identities[x].relationship_ids by {}
            assert forall|i: int, j: int|
                0 <= i < j < v.identities.len() implies #[trigger] v.identities[i].username@
                != #[trigger] v.identities[j].username@ by {}
            assert forall|i: int, j: int|
                0 <= i < j < v.identities.len() implies #[trigger] v.identities[i].public_key@
                != #[trigger] v.identities[j].public_key@ by {}
            assert forall|i: int, k: int|
                0 <= i < v.identities.len() && 0 <= k < v.identities[i].relationship_ids.len()
                    implies {
                let w = #[trigger] v.identities[i].relationship_ids@[k] as int;
                0 <= w < v.edges.len() && (v.edges[w].sender_id == i || v.edges[w].recipient_id
                    == i)
            } by {
                assert(v.identities[i].relationship_ids@[k]
                    == before.identities[i].relationship_ids@[k]);
            }
            assert forall|i: int, k: int|
                0 <= i < v.identities.len() && 0 <= k < v.identities[i].degree_proof_ids.len()
                    implies {
                let p = #[trigger] v.identities[i].degree_proof_ids@[k] as int;
                0 <= p < v.proofs.len() && v.proofs[p].user_id == i
            } by {
                if k < before.identities[i].degree_proof_ids.len() {
                    assert(v.identities[i].degree_proof_ids@[k]
                        == before.identities[i].degree_proof_ids@[k]);
                }
            }
            assert(v.identities_wf());
            assert forall|x: int| 0 <= x < v.edges.len() implies #[trigger] v.edge_wf(x) by {
                assert(before.edge_wf(x));
            }
            assert forall|p: int| 0 <= p < v.proofs.len() implies #[trigger] v.proof_wf(p) by {
                if p < id {
                    assert(before.proof_wf(p));
                    let this = v.proofs[p];
                    if let Some(q) = this.preceding_id {
                        if preceding == Some(q) {
                            assert(v.proofs[q as int].proceeding_ids@ =~= before.proofs[q as int].proceeding_ids@.push(id));
                            assert(before.proofs[q as int].proceeding_ids@.contains(p as usize));
                            let k = choose|k: int| 0 <= k < before.proofs[q as int].proceeding_ids@.len() && before.proofs[q as int].proceeding_ids@[k] == p as usize;
                            assert(v.proofs[q as int].proceeding_ids@[k] == p as usize);
                        } else {
                            assert(v.proofs[q as int] == before.proofs[q as int]);
                        }
                    }
                    assert forall|k: int| 0 <= k < this.proceeding_ids.len() implies {
                        let c = #[trigger] this.proceeding_ids@[k] as int;
                        p < c < v.proofs.len() && v.proofs[c].preceding_id == Some(p as usize)
                    } by {
                        if preceding == Some(p as usize) {
                            if k < before.proofs[p].proceeding_ids.len() {
                                assert(this.proceeding_ids@[k] == before.proofs[p].proceeding_ids@[k]);
                            }
                        } else {
                            assert(this == before.proofs[p]);
                        }
                    }
                } else {
                    if let Some(q) = preceding {
                        assert(v.proofs[q as int].proceeding_ids@[before.proofs[q as int].proceeding_ids.len() as int] == id);
                    }
                }
            }
            assert forall|p: int, q: int|
                0 <= p < q < v.proofs.len() && #[trigger] v.proofs[p].user_id
                    == #[trigger] v.proofs[q].user_id implies v.proofs[p].phrase_hash@
                != v.proofs[q].phrase_hash@ by {
                if q == id {
                    if v.proofs[p].phrase_hash@ == phrase_hash@ {
                        assert(before.proofs[p].user_id == user);
                        assert(before.holds_phrase(user as int, phrase_hash@));
                    }
                }
            }
        }
        id
    }

    /// Admits the degree-1 proof of a new phrase by the authenticated `user`,
    /// given what the verifier reported for it (see `required_step_count`).
    /// Returns the new proof's id. A user holds at most one proof per phrase:
    /// a second one is refused rather than replacing the first, so no proof
    /// ever has to be detached from the DAG.
    pub fn create_phrase(
        &mut self,
        user: &AuthenticatedIdentity,
        phrase_hash: [u8; 32],
        auth_hash: [u8; 32],
        proof_bytes: Vec<u8>,
        verification: &Verification,
    ) -> (r: Result<usize, GrapevineError>)
        requires
            old(self)@.wf(),
        ensures
            final(self)@.wf(),
            match origin_outcome(old(self)@, user.id(), phrase_hash, auth_hash, *verification) {
                Ok(()) => r == Ok::<usize, GrapevineError>(old(self)@.proofs.len() as usize)
                    && old(self)@.proof_added(
                    final(self)@,
                    user.id(),
                    phrase_hash,
                    auth_hash,
                    1,
                    proof_bytes@,
                    None,
                ),
                Err(e) => r == Err::<usize, GrapevineError>(e) && final(self)@ == old(self)@,
            },
    {
        let id = user.user_id();
        if id >= self.identities.len() {
            return Err(GrapevineError::UserNotFound);
        }
        if !accepts(verification, 1, &phrase_hash, &auth_hash) {
            return Err(GrapevineError::ProofInvalid);
        }
        if self.holds_phrase(id, &phrase_hash) {
            return Err(GrapevineError::PhraseAlreadyHeld);
        }
        Ok(self.push_proof(id, phrase_hash, auth_hash, 1, proof_bytes, None))
    }

    /// Admits the authenticated `user`'s proof of `degree`, folded from proof
    /// `preceding_id`, given what the verifier reported for it (see
    /// `required_step_count`). Returns the new proof's id.
    pub fn degree_proof(
        &mut self,
        user: &AuthenticatedIdentity,
        phrase_hash: [u8; 32],
        auth_hash: [u8; 32],
        degree: u64,
        proof_bytes: Vec<u8>,
        preceding_id: usize,
        verification: &Verification,
    ) -> (r: Result<usize, GrapevineError>)
        requires
            old(self)@.wf(),
        ensures
            final(self)@.wf(),
            match extension_outcome(
                old(self)@,
                user.id(),
                phrase_hash,
                auth_hash,
                degree,
                preceding_id,
                *verification,
            ) {
                Ok(()) => r == Ok::<usize, GrapevineError>(old(self)@.proofs.len() as usize)
                    && old(self)@.proof_added(
                    final(self)@,
                    user.id(),
                    phrase_hash,
                    auth_hash,
                    degree,
                    proof_bytes@,
                    Some(preceding_id),
                ),
                Err(e) => r == Err::<usize, GrapevineError>(e) && final(self)@ == old(self)@,
            },
    {
        let id = user.user_id();
        if id >= self.identities.len() {
            return Err(GrapevineError::UserNotFound);
        }
        if preceding_id >= self.proofs.len() {
            return Err(GrapevineError::PrecedingNotFound);
        }
        if !accepts(verification, degree, &phrase_hash, &auth_hash) {
            return Err(GrapevineError::ProofInvalid);
        }
        if degree == 0 || self.proofs[preceding_id].degree != degree - 1 {
            return Err(GrapevineError::DegreeMismatch);
        }
        if !bytes32_eq(&self.proofs[preceding_id].phrase_hash, &phrase_hash) {
            return Err(GrapevineError::PhraseMismatch);
        }
        if !self.has_edge(self.proofs[preceding_id].user_id, id) {
            return Err(GrapevineError::NoRelationship);
        }
        if self.holds_phrase(id, &phrase_hash) {
            return Err(GrapevineError::PhraseAlreadyHeld);
        }
        Ok(self.push_proof(id, phrase_hash, auth_hash, degree, proof_bytes, Some(preceding_id)))
    }

    /// The number of registered identities; their ids run below it.
    pub fn identity_count(&self) -> (r: usize)
        ensures
            r == self@.identities.len(),
    {
        self.identities.len()
    }

    /// The number of admitted proofs; their ids run below it.
    pub fn proof_count(&self) -> (r: usize)
        ensures
            r == self@.proofs.len(),
    {
        self.proofs.len()
    }

    /// The identity with id `id`.
    pub fn identity(&self, id: usize) -> (r: Option<&Identity>)
        ensures
            match r {
                Some(i) => id < self@.identities.len() && *i == self@.identities[id as int],
                None => id >= self@.identities.len(),
            },
    {
        if id < self.identities.len() {
            Some(&self.identities[id])
        } else {
            None
        }
    }

    /// The proof with id `id`.
    pub fn proof_at(&self, id: usize) -> (r: Option<&DegreeProof>)
        ensures
            match r {
                Some(p) => id < self@.proofs.len() && *p == self@.proofs[id as int],
                None => id >= self@.proofs.len(),
            },
    {
        if id < self.proofs.len() {
            Some(&self.proofs[id])
        } else {
            None
        }
    }

    /// The edge with id `id`.
    pub fn edge(&self, id: usize) -> (r: Option<&RelationshipEdge>)
        ensures
            match r {
                Some(e) => id < self@.edges.len() && *e == self@.edges[id as int],
                None => id >= self@.edges.len(),
            },
    {
        if id < self.edges.len() {
            Some(&self.edges[id])
        } else {
            None
        }
    }

    /// The id of the identity named `username`.
    pub fn lookup(&self, username: &str) -> (r: Result<usize, GrapevineError>)
        requires
            self@.wf(),
        ensures
            match r {
                Ok(i) => {
                    &&& self@.has_username(username@)
                    &&& i as int == self@.username_index(username@)
                    &&& i < self@.identities.len()
                },
                Err(e) => !self@.has_username(username@) && e == GrapevineError::NotFound,
            },
    {
        match self.find_username(username) {
            None => Err(GrapevineError::NotFound),
            Some(i) => {
                proof {
                    self.lemma_username_index(i, username@);
                }
                Ok(i)
            },
        }
    }

    /// The identity named `username`.
    pub fn get_user(&self, username: &str) -> (r: Result<&Identity, GrapevineError>)
        requires
            self@.wf(),
        ensures
            match r {
                Ok(i) => self@.has_username(username@) && *i == self@.identities[self@.username_index(
                    username@,
                )],
                Err(e) => !self@.has_username(username@) && e == GrapevineError::NotFound,
            },
    {
        match self.lookup(username) {
            Err(e) => Err(e),
            Ok(i) => Ok(&self.identities[i]),
        }
    }

    /// The public key of the identity named `username`.
    pub fn lookup_public_key(&self, username: &str) -> (r: Result<[u8; 32], GrapevineError>)
        requires
            self@.wf(),
        ensures
            if self@.has_username(username@) {
                r == Ok::<[u8; 32], GrapevineError>(
                    self@.identities[self@.username_index(username@)].public_key,
                )
            } else {
                r == Err::<[u8; 32], GrapevineError>(GrapevineError::NotFound)
            },
    {
        match self.lookup(username) {
            Err(e) => Err(e),
            Ok(i) => Ok(self.identities[i].public_key),
        }
    }

    /// The public key of the identity named `username`, in lower-case hex.
    pub fn get_pubkey(&self, username: &str) -> (r: Result<String, GrapevineError>)
        requires
            self@.wf(),
        ensures
            if self@.has_username(username@) {
                r.is_ok() && r.unwrap()@ == hex_of(
                    self@.identities[self@.username_index(username@)].public_key@,
                )
            } else {
                r == Err::<String, GrapevineError>(GrapevineError::NotFound)
            },
    {
        match self.lookup_public_key(username) {
            Err(e) => Err(e),
            Ok(key) => Ok(to_hex(&key)),
        }
    }

    /// Discloses the current nonce and the public key of the identity named
    /// `username` to the holder of its key, who proves it with a signature
    /// over the username.
    pub fn get_nonce(&self, username: &str, signature: [u8; 64]) -> (r: Result<
        (u64, [u8; 32]),
        GrapevineError,
    >)
        requires
            self@.wf(),
        ensures
            if !self@.has_username(username@) {
                r == Err::<(u64, [u8; 32]), GrapevineError>(GrapevineError::NotFound)
            } else {
                let id = self@.identities[self@.username_index(username@)];
                if signs_username(id.public_key, signature, username@) {
                    r == Ok::<(u64, [u8; 32]), GrapevineError>((id.nonce, id.public_key))
                } else {
                    r == Err::<(u64, [u8; 32]), GrapevineError>(GrapevineError::InvalidSignature)
                }
            },
    {
        let i = match self.lookup(username) {
            Err(e) => return Err(e),
            Ok(i) => i,
        };
        let key = self.identities[i].public_key;
        proof {
            assert(is_ascii_chars(self@.identities[i as int].username@));
            vstd::string::is_ascii_spec_bytes(username);
        }
        if !verify_username_signature(key, &signature, username) {
            return Err(GrapevineError::InvalidSignature);
        }
        Ok((self.identities[i].nonce, key))
    }

    /// The proofs that `user` may extend now: those owned by an identity with
    /// an edge to `user`, on a phrase `user` holds no proof of yet. Ids come in
    /// increasing order, each once.
    pub fn get_available_proofs(&self, user: usize) -> (r: Vec<usize>)
        ensures
            forall|k: int| 0 <= k < r@.len() ==> self@.is_available(user as int, #[trigger] r@[k] as int),
            forall|p: int| #[trigger] self@.is_available(user as int, p) ==> r@.contains(p as usize),
            forall|a: int, b: int| 0 <= a < b < r@.len() ==> #[trigger] r@[a] < #[trigger] r@[b],
    {
        let mut r: Vec<usize> = Vec::new();
        let mut p: usize = 0;
        while p < self.proofs.len()
            invariant
                0 <= p <= self.proofs@.len(),
                forall|k: int| 0 <= k < r@.len() ==> #[trigger] r@[k] < p && self@.is_available(user as int, r@[k] as int),
                forall|q: int| 0 <= q < p && #[trigger] self@.is_available(user as int, q) ==> r@.contains(q as usize),
                forall|a: int, b: int| 0 <= a < b < r@.len() ==> #[trigger] r@[a] < #[trigger] r@[b],
            decreases self.proofs@.len() - p,
        {
            let held = &self.proofs[p];
            if self.has_edge(held.user_id, user) && !self.holds_phrase(user, &held.phrase_hash) {
                let ghost before = r@;
                r.push(p);
                proof {
                    assert forall|q: int| 0 <= q <= p && #[trigger] self@.is_available(user as int, q) implies r@.contains(q as usize) by {
                        if q < p {
                            let k = choose|k: int| 0 <= k < before.len() && before[k] == q as usize;
                            assert(r@[k] == q as usize);
                        } else {
                            assert(r@[before.len() as int] == p);
                        }
                    }
                }
            }
            p = p + 1;
        }
        r
    }

    /// What `requester` needs to fold the next hop from proof `proof_id`: the
    /// proof itself, its owner's name, and the key-agreement material of the
    /// first edge from that owner to `requester`.
    pub fn get_proof_with_params(&self, requester: usize, proof_id: usize) -> (r: Result<
        ProofBundle,
        GrapevineError,
    >)
        requires
            self@.wf(),
        ensures
            if proof_id < self@.proofs.len() && self@.has_edge(
                self@.proofs[proof_id as int].user_id as int,
                requester as int,
            ) {
                let held = self@.proofs[proof_id as int];
                &&& r.is_ok()
                &&& r.unwrap().degree == held.degree
                &&& r.unwrap().proof_bytes@ == held.proof_bytes@
                &&& r.unwrap().owner_username@ == self@.identities[held.user_id as int].username@
                &&& exists|e: int|
                    #[trigger] self@.is_first_edge(e, held.user_id as int, requester as int)
                        && r.unwrap().ephemeral_public_key == self@.edges[e].ephemeral_public_key
                        && r.unwrap().ciphertext@ == self@.edges[e].ciphertext@
            } else {
                r.is_err() && r.unwrap_err() == GrapevineError::NotFound
            },
    {
        if proof_id >= self.proofs.len() {
            return Err(GrapevineError::NotFound);
        }
        let held = &self.proofs[proof_id];
        let owner = held.user_id;
        let mut e: usize = 0;
        while e < self.edges.len()
            invariant
                0 <= e <= self.edges@.len(),
                self@.wf(),
                proof_id < self@.proofs.len(),
                owner == self@.proofs[proof_id as int].user_id,
                *held == self@.proofs[proof_id as int],
                forall|w: int|
                    0 <= w < e ==> !(#[trigger] self@.edges[w].sender_id == owner
                        && self@.edges[w].recipient_id == requester),
            decreases self.edges@.len() - e,
        {
            let edge = &self.edges[e];
            if edge.sender_id == owner && edge.recipient_id == requester {
                assert(self@.is_first_edge(e as int, owner as int, requester as int));
                assert(self@.proof_wf(proof_id as int));
                let bundle = ProofBundle {
                    degree: held.degree,
                    proof_bytes: copy_bytes(&held.proof_bytes),
                    owner_username: self.identities[owner].username.clone(),
                    ephemeral_public_key: edge.ephemeral_public_key,
                    ciphertext: copy_bytes(&edge.ciphertext),
                };
                assert(bundle.degree == self@.proofs[proof_id as int].degree);
                assert(bundle.proof_bytes@ == self@.proofs[proof_id as int].proof_bytes@);
                assert(bundle.owner_username@ == self@.identities[owner as int].username@);
                assert(bundle.ciphertext@ == self@.edges[e as int].ciphertext@);
                return Ok(bundle);
            }
            e = e + 1;
        }
        Err(GrapevineError::NotFound)
    }

    /// A summary of every proof that `user` owns, in increasing id order.
    pub fn get_all_degrees(&self, user: usize) -> (r: Vec<DegreeData>)
        ensures
            forall|k: int|
                0 <= k < r@.len() ==> {
                    let d = #[trigger] r@[k];
                    &&& d.proof_id < self@.proofs.len()
                    &&& self@.proofs[d.proof_id as int].user_id == user
                    &&& d.degree == self@.proofs[d.proof_id as int].degree
                    &&& d.phrase_hash == self@.proofs[d.proof_id as int].phrase_hash
                },
            forall|p: int|
                0 <= p < self@.proofs.len() && #[trigger] self@.proofs[p].user_id == user
                    ==> exists|k: int| 0 <= k < r@.len() && #[trigger] r@[k].proof_id == p,
            forall|a: int, b: int|
                0 <= a < b < r@.len() ==> #[trigger] r@[a].proof_id < #[trigger] r@[b].proof_id,
    {
        let mut r: Vec<DegreeData> = Vec::new();
        let mut p: usize = 0;
        while p < self.proofs.len()
            invariant
                0 <= p <= self.proofs@.len(),
                forall|k: int|
                    0 <= k < r@.len() ==> {
                        let d = #[trigger] r@[k];
                        &&& d.proof_id < p
                        &&& self@.proofs[d.proof_id as int].user_id == user
                        &&& d.degree == self@.proofs[d.proof_id as int].degree
                        &&& d.phrase_hash == self@.proofs[d.proof_id as int].phrase_hash
                    },
                forall|q: int|
                    0 <= q < p && #[trigger] self@.proofs[q].user_id == user ==> exists|k: int|
                        0 <= k < r@.len() && #[trigger] r@[k].proof_id == q,
                forall|a: int, b: int|
                    0 <= a < b < r@.len() ==> #[trigger] r@[a].proof_id < #[trigger] r@[b].proof_id,
            decreases self.proofs@.len() - p,
        {
            let held = &self.proofs[p];
            if held.user_id == user {
                let ghost before = r@;
                r.push(DegreeData { proof_id: p, degree: held.degree, phrase_hash: held.phrase_hash });
                proof {
                    assert forall|q: int|
                        0 <= q <= p && #[trigger] self@.proofs[q].user_id == user implies exists|k: int|
                            0 <= k < r@.len() && #[trigger] r@[k].proof_id == q by {
                        if q < p {
                            let k = choose|k: int| 0 <= k < before.len() && #[trigger] before[k].proof_id == q;
                            assert(r@[k] == before[k]);
                        } else {
                            assert(r@[before.len() as int].proof_id == p);
                        }
                    }
                }
            }
            p = p + 1;
        }
        r
    }

    /// The stronger guard: checks a credential as `authenticate` does, and
    /// first that `signature` signs the named identity's username under its
    /// public key. Nothing changes unless both hold.
    pub fn authenticate_signed(&mut self, credential: &str, signature: [u8; 64]) -> (r: Result<
        AuthenticatedIdentity,
        GrapevineError,
    >)
        requires
            old(self)@.wf(),
        ensures
            final(self)@.wf(),
            match signed_authentication_outcome(old(self)@, credential@, signature) {
                Ok(i) => {
                    &&& r.is_ok()
                    &&& r.unwrap().id() == i
                    &&& final(self)@ == old(self)@.with_nonce(
                        i as int,
                        (old(self)@.identities[i as int].nonce + 1) as u64,
                    )
                },
                Err(e) => r.is_err() && r.unwrap_err() == e && final(self)@ == old(self)@,
            },
    {
        let name = match parse(credential) {
            None => return Err(GrapevineError::MalformedCredential),
            Some(p) => p.0,
        };
        let i = match self.lookup(name.as_str()) {
            Err(_) => return Err(GrapevineError::IdentityNotFound),
            Ok(i) => i,
        };
        let name_str = name.as_str();
        proof {
            assert(is_ascii_chars(self@.identities[i as int].username@));
            vstd::string::is_ascii_spec_bytes(name_str);
        }
        if !verify_username_signature(self.identities[i].public_key, &signature, name_str) {
            return Err(GrapevineError::InvalidSignature);
        }
        self.authenticate(credential)
    }
}

} // verus!
