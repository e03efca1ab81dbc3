//! The multi-authority coordination layer: authority instances, the
//! committee that aggregates them, and the end-user sender and receiver
//! workflows.
//!
//! A receiver session binds to the first ciphertext any contributing
//! authority hands it; a contribution carrying a different ciphertext is
//! rejected observably, and the session keeps one decryption share per
//! authority index, the last write winning.

use vstd::prelude::*;
use vstd::string::StringSliceAdditionalSpecFns;
use crate::cipher::{Ciphertext, DecryptionShare, ct_valid, share_matches};
use crate::interp::{eval_points, has_dup, sample_models};
use crate::keys::{GParameter, PkgPublicKey, PkgPublicKeyShare, SecretKeyShare};
use crate::keyset::{threshold_plaintext, PkgPublicKeySet, SecretKeySet};
use crate::poly::poly_eval;

verus! {

/// Some entry of the sequence carries the key.
pub open spec fn has_key(s: Seq<(u64, DecryptionShare)>, key: u64) -> bool {
    exists|k: int| 0 <= k < s.len() && (#[trigger] s[k]).0 == key
}

/// The share value stored under the key, where the keys are unique.
pub open spec fn lookup(s: Seq<(u64, DecryptionShare)>, key: u64) -> nat {
    s[choose|k: int| 0 <= k < s.len() && (#[trigger] s[k]).0 == key].1@
}

/// No two entries of the sequence carry the same key.
pub open spec fn keys_unique(s: Seq<(u64, DecryptionShare)>) -> bool {
    forall|i: int, j: int| 0 <= i < j < s.len() ==> (#[trigger] s[i]).0 != (#[trigger] s[j]).0
}

/// With unique keys, the stored value under a key is the value of any entry
/// that carries it.
proof fn lemma_lookup(s: Seq<(u64, DecryptionShare)>, k: int)
    requires
        keys_unique(s),
        0 <= k < s.len(),
    ensures
        has_key(s, s[k].0),
        lookup(s, s[k].0) == s[k].1@,
{
    let key = s[k].0;
    assert(has_key(s, key));
    let j = choose|j: int| 0 <= j < s.len() && (#[trigger] s[j]).0 == key;
    if j != k {
        if j < k {
            assert(s[j].0 != s[k].0);
        } else {
            assert(s[k].0 != s[j].0);
        }
    }
}

/// One committee member: an immutable id, its secret key share, the
/// matching public key share, and a single-slot inbox for a pending
/// ciphertext used by the cooperative decryption workflow.
pub struct SubPKG {
    /// The authority's index; stable for its lifetime.
    pub id: u64,
    /// The authority's secret key share; zeroed on release.
    pub pkg_sk_share: SecretKeyShare,
    /// The authority's public key share.
    pub pkg_pk_share: PkgPublicKeyShare,
    /// A pending ciphertext awaiting this authority's contribution.
    pub msg_inbox: Option<Ciphertext>,
}

impl SubPKG {
    /// All held material is well formed.
    pub open spec fn wf(self) -> bool {
        &&& self.pkg_sk_share.wf()
        &&& self.pkg_pk_share.wf()
        &&& (self.msg_inbox matches Some(ct) ==> ct.wf())
    }

    /// Configures one authority from the key sets: its secret share is the
    /// polynomial's value at `id + 1` and its public share the
    /// commitment's.
    pub fn new(id: u64, secret_key_set: &SecretKeySet, public_key_set: &PkgPublicKeySet) -> (r:
        SubPKG)
        requires
            secret_key_set.wf(),
            public_key_set.wf(),
        ensures
            r.wf(),
            r.id == id,
            r.pkg_sk_share@ == poly_eval(secret_key_set@, (id + 1) as nat),
            r.pkg_pk_share@ == poly_eval(public_key_set@, (id + 1) as nat),
            r.msg_inbox is None,
    {
        let pkg_sk_share = secret_key_set.secret_key_share(id);
        let pkg_pk_share = public_key_set.public_key_share(id);
        SubPKG { id, pkg_sk_share, pkg_pk_share, msg_inbox: None }
    }

    /// The authority's public key share.
    pub fn get_pkg_pk_share(&self) -> (r: PkgPublicKeyShare)
        requires
            self.wf(),
        ensures
            r.wf(),
            r@ == self.pkg_pk_share@,
    {
        self.pkg_pk_share.dup()
    }
}

/// The committee: the fixed list of authorities sharing one public key
/// set.  A registry that delegates; it performs no cryptographic operation
/// itself.
pub struct SubPKGManager {
    /// The member authorities, indexed by position.
    pub sub_pkg: Vec<SubPKG>,
    /// The shared public key set.
    pub pkg_pk_set: PkgPublicKeySet,
}

impl SubPKGManager {
    /// Every member and the shared key set are well formed.
    pub open spec fn wf(self) -> bool {
        &&& self.pkg_pk_set.wf()
        &&& forall|i: int| 0 <= i < self.sub_pkg@.len() ==> (#[trigger] self.sub_pkg@[i]).wf()
    }

    /// Builds the committee from its members and the shared key set.
    pub fn new(sub_pkg: Vec<SubPKG>, pkg_pk_set: PkgPublicKeySet) -> (r: SubPKGManager)
        ensures
            r.sub_pkg@ == sub_pkg@,
            r.pkg_pk_set == pkg_pk_set,
    {
        SubPKGManager { sub_pkg, pkg_pk_set }
    }

    /// Draws a fresh secret key set with threshold one.
    pub fn setup(&self) -> (r: SecretKeySet)
        ensures
            r.wf(),
            r@.len() == 2,
    {
        SecretKeySet::random(1)
    }

    /// The master public key of the shared key set.
    pub fn publish_public_key(&self) -> (r: PkgPublicKey)
        requires
            self.wf(),
        ensures
            r.wf(),
            r@ == self.pkg_pk_set@[0],
    {
        self.pkg_pk_set.public_key()
    }

    /// The member authority with the given position.  The position must
    /// exist; a missing position is a caller bug and fails loudly.
    pub fn get_sub_pkg(&mut self, id: usize) -> (r: &mut SubPKG)
        requires
            id < old(self).sub_pkg@.len(),
        ensures
            *r == old(self).sub_pkg@[id as int],
            final(self).sub_pkg@ == old(self).sub_pkg@.update(id as int, *final(r)),
            final(self).pkg_pk_set == old(self).pkg_pk_set,
    {
        &mut self.sub_pkg[id]
    }

    /// Starts a new decryption meeting: a fresh receiver session bound to
    /// no ciphertext, holding no share, over the shared public key set.
    pub fn start_decryption_meeting(&self) -> (r: Receiver)
        requires
            self.wf(),
        ensures
            r.wf(),
            r.pk_set@ == self.pkg_pk_set@,
            r.ciphertext is None,
            r.partial_private_key@.len() == 0,
    {
        Receiver {
            pk_set: PkgPublicKeySet::from_commitment(self.pkg_pk_set.commit.dup()),
            ciphertext: None,
            partial_private_key: Vec::new(),
        }
    }
}

/// One decryption attempt: the session binds to the first ciphertext it is
/// given and accumulates decryption shares keyed by authority index.
pub struct Receiver {
    /// The public key set the session decrypts under.
    pub pk_set: PkgPublicKeySet,
    /// The ciphertext the session is bound to, set by the first
    /// contributor.
    pub ciphertext: Option<Ciphertext>,
    /// The collected shares, keyed by authority index; at most one per
    /// index.
    pub partial_private_key: Vec<(u64, DecryptionShare)>,
}

impl Receiver {
    /// The key set and every held value are well formed, and at most one
    /// share is held per authority index.
    pub open spec fn wf(self) -> bool {
        &&& self.pk_set.wf()
        &&& (self.ciphertext matches Some(ct) ==> ct.wf())
        &&& forall|i: int| 0 <= i < self.partial_private_key@.len() ==> (
            #[trigger] self.partial_private_key@[i]).1.wf()
        &&& keys_unique(self.partial_private_key@)
    }

    /// A fresh session over the given key set, bound to no ciphertext and
    /// holding no share.
    pub fn new(pk_set: PkgPublicKeySet) -> (r: Receiver)
        requires
            pk_set.wf(),
        ensures
            r.wf(),
            r.pk_set@ == pk_set@,
            r.ciphertext is None,
            r.partial_private_key@.len() == 0,
    {
        Receiver { pk_set, ciphertext: None, partial_private_key: Vec::new() }
    }

    /// Requests one authority's partial private key for the identity.  The
    /// session itself is unchanged.
    pub fn obtain_user_partial_private_key(&mut self, sub_pkg: &SubPKG, id: &str) -> (r:
        DecryptionShare)
        requires
            sub_pkg.wf(),
        ensures
            *final(self) == *old(self),
            r.wf(),
            share_matches(id.spec_bytes(), r@, sub_pkg.pkg_sk_share@),
    {
        match sub_pkg.pkg_sk_share.obtain_partial_private_key(id) {
            Some(share) => share,
            None => {
                proof {
                    assert(false);
                }
                DecryptionShare(crate::group::g1_zero())
            },
        }
    }

    /// Decrypts the ciphertext with the given key set and share map,
    /// reporting only whether decryption succeeded.
    pub fn decrypt_ciphertext(
        &self,
        pk_set: &PkgPublicKeySet,
        partial_private_key_map: &Vec<(u64, DecryptionShare)>,
        ciphertext: &Ciphertext,
    ) -> (r: Result<Vec<u8>, ()>)
        requires
            pk_set.wf(),
            ciphertext.wf(),
            forall|k: int| 0 <= k < partial_private_key_map@.len() ==> (
                #[trigger] partial_private_key_map@[k]).1.wf(),
        ensures
            ({
                let t = pk_set@.len() - 1;
                let elems = partial_private_key_map@.map_values(
                    |p: (u64, DecryptionShare)| (p.0, p.1.0));
                let xs = eval_points(elems, t);
                let ms = sample_models(elems, t);
                &&& (r is Ok <==> ct_valid(ciphertext@) && partial_private_key_map@.len() > t
                    && !has_dup(xs))
                &&& (r is Ok ==> r.unwrap()@ == threshold_plaintext(t, xs, ms, ciphertext@))
                &&& (r is Ok ==> forall|q: int| 0 <= q < t + 1 ==> crate::interp::inv_mod(
                    #[trigger] crate::interp::denom(xs, q)) < crate::field::fr_order() && (
                    crate::interp::denom(xs, q) * crate::interp::inv_mod(
                    crate::interp::denom(xs, q))) % crate::field::fr_order() == 1)
            }),
    {
        match pk_set.decrypt(partial_private_key_map, ciphertext) {
            Ok(m) => Ok(m),
            Err(_) => Err(()),
        }
    }

    /// An authority contributes its decryption share to the meeting.  The
    /// first contributor's ciphertext binds the session; a contribution
    /// carrying a different ciphertext is rejected, observably, and changes
    /// nothing but the authority's emptied inbox.  Otherwise the share is
    /// stored under the authority's index, a resubmission overwriting the
    /// earlier share.
    pub fn obtain_partial_private_key_with_verification(
        &mut self,
        sub_pkg: &mut SubPKG,
        g_parameter: &GParameter,
        id: &str,
    ) -> (r: bool)
        requires
            old(self).wf(),
            old(sub_pkg).wf(),
            old(sub_pkg).msg_inbox is Some,
        ensures
            final(self).wf(),
            final(sub_pkg).wf(),
            final(sub_pkg).id == old(sub_pkg).id,
            final(sub_pkg).pkg_sk_share == old(sub_pkg).pkg_sk_share,
            final(sub_pkg).pkg_pk_share == old(sub_pkg).pkg_pk_share,
            final(sub_pkg).msg_inbox is None,
            final(self).pk_set == old(self).pk_set,
            ({
                let ct = old(sub_pkg).msg_inbox.unwrap();
                if old(self).ciphertext matches Some(bound) && bound@ != ct@ {
                    // mismatched contribution: rejected, session unchanged
                    &&& r == false
                    &&& final(self).ciphertext == old(self).ciphertext
                    &&& final(self).partial_private_key == old(self).partial_private_key
                } else {
                    // accepted: the session is bound and the share stored
                    &&& r == true
                    &&& (final(self).ciphertext matches Some(c) && c@ == ct@)
                    &&& has_key(final(self).partial_private_key@, old(sub_pkg).id)
                    &&& lookup(final(self).partial_private_key@, old(sub_pkg).id)
                        == (crate::hashing::hash_g1_spec(id.spec_bytes())
                            * old(sub_pkg).pkg_sk_share@) % crate::field::fr_order()
                    &&& forall|key: u64| key != old(sub_pkg).id ==> (has_key(
                        final(self).partial_private_key@, key) == has_key(
                        old(self).partial_private_key@, key)) && (has_key(
                        old(self).partial_private_key@, key) ==> lookup(
                        final(self).partial_private_key@, key) == lookup(
                        old(self).partial_private_key@, key))
                }
            }),
    {
        let ciphertext = match sub_pkg.msg_inbox.take() {
            Some(ct) => ct,
            None => {
                proof {
                    assert(false);
                }
                return false;
            },
        };
        // The first actor to arrive at the meeting sets the meeting's
        // ciphertext; a later actor carrying a different one is turned
        // away.
        let bound_differs: bool = match &self.ciphertext {
            Some(bound) => !bound.same_as(&ciphertext),
            None => false,
        };
        if bound_differs {
            return false;
        }
        if self.ciphertext.is_none() {
            self.ciphertext = Some(ciphertext);
        }
        let partial_private_key = sub_pkg.pkg_sk_share.decrypt_share_no_verify_new(id);
        let ghost before = self.partial_private_key@;
        let key = sub_pkg.id;
        let mut idx: usize = 0;
        let mut found: bool = false;
        while idx < self.partial_private_key.len() && !found
            invariant
                0 <= idx <= self.partial_private_key@.len(),
                self.partial_private_key@ == before,
                !found ==> forall|q: int| 0 <= q < idx ==> (
                    #[trigger] before[q]).0 != key,
                found ==> idx < before.len() && before[idx as int].0 == key,
            decreases self.partial_private_key@.len() - idx + (if found {
                0int
            } else {
                1int
            }),
        {
            if self.partial_private_key[idx].0 == key {
                found = true;
            } else {
                idx += 1;
            }
        }
        if found {
            self.partial_private_key[idx] = (key, partial_private_key);
            proof {
                lemma_update_keeps(before, self.partial_private_key@, idx as int, key);
            }
        } else {
            self.partial_private_key.push((key, partial_private_key));
            proof {
                lemma_push_keeps(before, self.partial_private_key@, key);
            }
        }
        true
    }

    /// Tries to decrypt the session's bound ciphertext using the collected
    /// shares.  A session must be bound before decryption is attempted.
    pub fn decrypt_message(&self) -> (r: Result<Vec<u8>, ()>)
        requires
            self.wf(),
            self.ciphertext is Some,
        ensures
            ({
                let ct = self.ciphertext.unwrap();
                let t = self.pk_set@.len() - 1;
                let elems = self.partial_private_key@.map_values(
                    |p: (u64, DecryptionShare)| (p.0, p.1.0));
                let xs = eval_points(elems, t);
                let ms = sample_models(elems, t);
                &&& (r is Ok <==> ct_valid(ct@) && self.partial_private_key@.len() > t
                    && !has_dup(xs))
                &&& (r is Ok ==> r.unwrap()@ == threshold_plaintext(t, xs, ms, ct@))
                &&& (r is Ok ==> forall|q: int| 0 <= q < t + 1 ==> crate::interp::inv_mod(
                    #[trigger] crate::interp::denom(xs, q)) < crate::field::fr_order() && (
                    crate::interp::denom(xs, q) * crate::interp::inv_mod(
                    crate::interp::denom(xs, q))) % crate::field::fr_order() == 1)
            }),
    {
        let ct = match &self.ciphertext {
            Some(ct) => ct.dup(),
            None => {
                proof {
                    assert(false);
                }
                return Err(());
            },
        };
        self.decrypt_ciphertext(&self.pk_set, &self.partial_private_key, &ct)
    }
}

/// Updating the entry that carries a key keeps every other key's share and
/// the uniqueness of keys.
proof fn lemma_update_keeps(
    before: Seq<(u64, DecryptionShare)>,
    after: Seq<(u64, DecryptionShare)>,
    idx: int,
    key: u64,
)
    requires
        keys_unique(before),
        0 <= idx < before.len(),
        before[idx].0 == key,
        after == before.update(idx, (key, after[idx].1)),
        after.len() == before.len(),
    ensures
        keys_unique(after),
        has_key(after, key),
        lookup(after, key) == after[idx].1@,
        forall|other: u64| other != key ==> (has_key(after, other) == has_key(before, other))
            && (has_key(before, other) ==> lookup(after, other) == lookup(before, other)),
{
    assert(keys_unique(after));
    lemma_lookup(after, idx);
    assert forall|other: u64| other != key implies (has_key(after, other) == has_key(
        before, other)) && (has_key(before, other) ==> lookup(after, other) == lookup(
        before, other)) by {
        if has_key(before, other) {
            let k = choose|k: int| 0 <= k < before.len() && (#[trigger] before[k]).0 == other;
            assert(after[k].0 == other);
            lemma_lookup(after, k);
            lemma_lookup(before, k);
        }
        if has_key(after, other) {
            let k = choose|k: int| 0 <= k < after.len() && (#[trigger] after[k]).0 == other;
            assert(before[k].0 == other);
            assert(has_key(before, other));
        }
    }
}

/// Appending an entry under a fresh key keeps every other key's share and
/// the uniqueness of keys.
proof fn lemma_push_keeps(
    before: Seq<(u64, DecryptionShare)>,
    after: Seq<(u64, DecryptionShare)>,
    key: u64,
)
    requires
        keys_unique(before),
        forall|q: int| 0 <= q < before.len() ==> (#[trigger] before[q]).0 != key,
        after.len() == before.len() + 1,
        after == before.push(after[before.len() as int]),
        after[before.len() as int].0 == key,
    ensures
        keys_unique(after),
        has_key(after, key),
        lookup(after, key) == after[before.len() as int].1@,
        forall|other: u64| other != key ==> (has_key(after, other) == has_key(before, other))
            && (has_key(before, other) ==> lookup(after, other) == lookup(before, other)),
{
    assert(keys_unique(after));
    lemma_lookup(after, before.len() as int);
    assert forall|other: u64| other != key implies (has_key(after, other) == has_key(
        before, other)) && (has_key(before, other) ==> lookup(after, other) == lookup(
        before, other)) by {
        if has_key(before, other) {
            let k = choose|k: int| 0 <= k < before.len() && (#[trigger] before[k]).0 == other;
            assert(after[k].0 == other);
            lemma_lookup(after, k);
            lemma_lookup(before, k);
        }
        if has_key(after, other) {
            let k = choose|k: int| 0 <= k < after.len() && (#[trigger] after[k]).0 == other;
            assert(k < before.len());
            assert(before[k].0 == other);
            assert(has_key(before, other));
        }
    }
}

/// The sender workflow: encrypts to identities under the master public
/// key.
pub struct Sender {
    /// The master public key.
    pub ppk: PkgPublicKey,
}

impl Sender {
    /// The held key is well formed.
    pub open spec fn wf(self) -> bool {
        self.ppk.wf()
    }

    /// A sender holding the master public key.
    pub fn new(ppk: PkgPublicKey) -> (r: Sender)
        ensures
            r.ppk@ == ppk@,
            r.wf() == ppk.wf(),
    {
        Sender { ppk }
    }

    /// Encrypts the message to the identity under the held master public
    /// key.
    pub fn encrypt_new(&self, msg: &[u8], id: &str) -> (r: Ciphertext)
        requires
            self.wf(),
        ensures
            r.wf(),
            ct_valid(r@),
            r@.1.len() == msg@.len(),
            exists|rr: nat|
                rr < crate::field::fr_order() && r@ == crate::cipher::encrypt_view(
                    self.ppk@, id.spec_bytes(), msg@, rr),
    {
        self.ppk.encrypt_new(msg, id)
    }
}

/// The immutable system configuration: the group parameters, constructed
/// once at process start and passed by reference to every component that
/// needs them.
pub struct SystemSetting {
    /// The fixed group parameters.
    pub g_parameter: GParameter,
}

impl SystemSetting {
    /// The held parameters are well formed.
    pub open spec fn wf(self) -> bool {
        self.g_parameter.wf()
    }

    /// Wraps the group parameters as the system configuration.
    pub fn new(g_parameter: GParameter) -> (r: SystemSetting)
        ensures
            r.wf() == g_parameter.wf(),
    {
        SystemSetting { g_parameter }
    }

    /// The held group parameters.
    pub fn get_g_parameter(&self) -> (r: GParameter)
        requires
            self.wf(),
        ensures
            r.wf(),
    {
        self.g_parameter.dup()
    }

    /// Draws the master secret key set with threshold one.
    pub fn setup_secret_key_set(&self) -> (r: SecretKeySet)
        ensures
            r.wf(),
            r@.len() == 2,
    {
        SecretKeySet::random(1)
    }

    /// Derives the public key set from a secret key set.
    pub fn setup_public_key_set(&self, secret_key_set: &SecretKeySet) -> (r: PkgPublicKeySet)
        requires
            secret_key_set.wf(),
        ensures
            r.wf(),
            r@ =~= secret_key_set@,
    {
        secret_key_set.public_keys()
    }
}

} // verus!
