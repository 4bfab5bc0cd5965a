use vstd::prelude::*;

use k256::ecdsa::signature::Verifier;
use sha2::Digest;
use subtle::ConstantTimeEq;

verus! {

/// The SHA-256 digest of a byte sequence, as sha2 computes it: a function
/// of the input bytes alone.
pub uninterp spec fn sha256_of(data: Seq<u8>) -> Seq<u8>;

/// Whether `sig` is a valid ECDSA/secp256k1 signature over `msg` by the
/// public key encoded in SEC1 form as `pk`, as k256 decides it: a function
/// of the three byte strings alone. Bytes that decode to no key or no
/// signature validate nothing.
pub uninterp spec fn ecdsa_valid(pk: Seq<u8>, msg: Seq<u8>, sig: Seq<u8>) -> bool;

/// Relies on subtle's `ConstantTimeEq` for byte slices: `ct_eq` returns
/// whether the slices are equal, comparing equal-length contents in time
/// independent of where they first differ.
#[verifier::external_body]
fn ct_eq_bytes(a: &[u8], b: &[u8]) -> (r: bool)
    requires
        a@.len() == b@.len(),
    ensures
        r == (a@ == b@),
{
    a.ct_eq(b).into()
}

/// One account's registered SEC1-encoded public key.
#[derive(Clone, Debug)]
pub struct KeyEntry {
    pub account: u64,
    pub key: Vec<u8>,
}

/// The key registered for `a`, if any.
pub open spec fn key_in(entries: Seq<KeyEntry>, a: u64) -> Option<Seq<u8>>
    decreases entries.len(),
{
    if entries.len() == 0 {
        None
    } else if entries[0].account == a {
        Some(entries[0].key@)
    } else {
        key_in(entries.drop_first(), a)
    }
}

/// Signature-based authorization: a persisted registry of public keys,
/// supplied at account setup, against which submitted signatures are
/// verified. No signing key ever lives in the module.
#[derive(Debug)]
pub struct SecurityModule {
    pub keys: Vec<KeyEntry>,
}

/// Whether the registry accepts `sig` as `signer`'s signature over `msg`:
/// a signer with no registered key authorizes nothing.
pub open spec fn signature_ok(m: SecurityModule, signer: u64, msg: Seq<u8>, sig: Seq<u8>) -> bool {
    match key_in(m.keys@, signer) {
        Some(k) => ecdsa_valid(k, msg, sig),
        None => false,
    }
}

impl SecurityModule {
    /// Each account has at most one registered key.
    pub open spec fn wf(self) -> bool {
        forall|i: int, j: int|
            0 <= i < j < self.keys@.len() ==> self.keys@[i].account != self.keys@[j].account
    }

    /// The key registered for `a`.
    pub open spec fn key_of(self, a: u64) -> Option<Seq<u8>> {
        key_in(self.keys@, a)
    }

    /// A registry with no keys.
    pub fn new() -> (r: SecurityModule)
        ensures
            r.wf(),
            forall|a: u64| r.key_of(a) is None,
    {
        SecurityModule { keys: Vec::new() }
    }

    fn find(&self, a: u64) -> (r: Option<usize>)
        ensures
            match r {
                Some(i) => i < self.keys@.len() && self.keys@[i as int].account == a && forall|
                    j: int,
                |
                    0 <= j < i ==> self.keys@[j].account != a,
                None => forall|j: int| 0 <= j < self.keys@.len() ==> self.keys@[j].account != a,
            },
    {
        let mut k: usize = 0;
        while k < self.keys.len()
            invariant
                k <= self.keys@.len(),
                forall|j: int| 0 <= j < k ==> self.keys@[j].account != a,
            decreases self.keys@.len() - k,
        {
            if self.keys[k].account == a {
                return Some(k);
            }
            k += 1;
        }
        None
    }

    /// Registers (or replaces) the public key of `account`, leaving every
    /// other account's key unchanged.
    pub fn register_key(&mut self, account: u64, key: Vec<u8>)
        requires
            old(self).wf(),
        ensures
            final(self).wf(),
            final(self).key_of(account) == Some(key@),
            forall|b: u64| b != account ==> final(self).key_of(b) == old(self).key_of(b),
    {
        match self.find(account) {
            Some(i) => {
                let ghost pre = self.keys@;
                self.keys[i] = KeyEntry { account, key };
                proof {
                    lemma_key_in_first_match(self.keys@, account, i as int);
                    assert forall|b: u64| b != account implies key_in(self.keys@, b) == key_in(
                        pre,
                        b,
                    ) by {
                        lemma_key_in_agree(pre, self.keys@, b);
                    }
                }
            },
            None => {
                let ghost pre = self.keys@;
                self.keys.push(KeyEntry { account, key });
                proof {
                    assert(self.keys@ =~= pre.push(self.keys@.last()));
                    lemma_key_in_push(pre, self.keys@.last(), account);
                    assert forall|b: u64| b != account implies key_in(self.keys@, b) == key_in(
                        pre,
                        b,
                    ) by {
                        lemma_key_in_push(pre, self.keys@.last(), b);
                        if !(exists|j: int|
                            0 <= j < pre.len() && (#[trigger] pre[j]).account == b) {
                            lemma_key_in_absent(pre, b);
                        }
                    }
                }
            },
        }
    }

    /// Whether `sig` is `signer`'s valid signature over `msg`, checked
    /// against the signer's registered public key.
    pub fn verify_signature(&self, signer: u64, msg: &[u8], sig: &[u8]) -> (r: bool)
        requires
            self.wf(),
        ensures
            r == signature_ok(*self, signer, msg@, sig@),
    {
        match self.find(signer) {
            None => {
                proof {
                    lemma_key_in_absent(self.keys@, signer);
                }
                false
            },
            Some(i) => {
                proof {
                    lemma_key_in_first_match(self.keys@, signer, i as int);
                }
                Self::ecdsa_verify(self.keys[i].key.as_slice(), msg, sig)
            },
        }
    }

    /// Relies on k256's ECDSA/secp256k1 verification: decoding the key
    /// (`VerifyingKey::from_sec1_bytes`) and signature
    /// (`Signature::from_slice`) and checking it (`Verifier::verify`) is
    /// deterministic in the three byte strings; undecodable input verifies
    /// as false.
    #[verifier::external_body]
    fn ecdsa_verify(pk: &[u8], msg: &[u8], sig: &[u8]) -> (r: bool)
        ensures
            r == ecdsa_valid(pk@, msg@, sig@),
    {
        match k256::ecdsa::VerifyingKey::from_sec1_bytes(pk) {
            Ok(vk) => match k256::ecdsa::Signature::from_slice(sig) {
                Ok(s) => vk.verify(msg, &s).is_ok(),
                Err(_) => false,
            },
            Err(_) => false,
        }
    }

    /// Relies on sha2's SHA-256 (`Digest::digest`): the digest is a
    /// function of the input bytes alone and is always 32 bytes long.
    #[verifier::external_body]
    pub fn secure_hash(data: &[u8]) -> (r: Vec<u8>)
        ensures
            r@ == sha256_of(data@),
            r@.len() == 32,
    {
        sha2::Sha256::digest(data).to_vec()
    }

    /// Whether two byte strings are equal, without leaking through timing
    /// where equal-length contents first differ. A length mismatch
    /// short-circuits.
    pub fn constant_time_compare(a: &[u8], b: &[u8]) -> (r: bool)
        ensures
            r == (a@ == b@),
    {
        if a.len() != b.len() {
            return false;
        }
        ct_eq_bytes(a, b)
    }
}

proof fn lemma_key_in_first_match(entries: Seq<KeyEntry>, a: u64, i: int)
    requires
        0 <= i < entries.len(),
        entries[i].account == a,
        forall|j: int| 0 <= j < i ==> entries[j].account != a,
    ensures
        key_in(entries, a) == Some(entries[i].key@),
    decreases entries.len(),
{
    if i > 0 {
        lemma_key_in_first_match(entries.drop_first(), a, i - 1);
    }
}

proof fn lemma_key_in_absent(entries: Seq<KeyEntry>, a: u64)
    requires
        forall|j: int| 0 <= j < entries.len() ==> entries[j].account != a,
    ensures
        key_in(entries, a) is None,
    decreases entries.len(),
{
    if entries.len() > 0 {
        lemma_key_in_absent(entries.drop_first(), a);
    }
}

proof fn lemma_key_in_agree(e1: Seq<KeyEntry>, e2: Seq<KeyEntry>, b: u64)
    requires
        e1.len() == e2.len(),
        forall|j: int| 0 <= j < e1.len() ==> e1[j].account == e2[j].account,
        forall|j: int| 0 <= j < e1.len() && e1[j].account == b ==> e1[j].key@ == e2[j].key@,
    ensures
        key_in(e1, b) == key_in(e2, b),
    decreases e1.len(),
{
    if e1.len() > 0 && e1[0].account != b {
        lemma_key_in_agree(e1.drop_first(), e2.drop_first(), b);
    }
}

proof fn lemma_key_in_push(entries: Seq<KeyEntry>, e: KeyEntry, x: u64)
    ensures
        key_in(entries.push(e), x) == if exists|j: int|
            0 <= j < entries.len() && (#[trigger] entries[j]).account == x {
            key_in(entries, x)
        } else if e.account == x {
            Some(e.key@)
        } else {
            None::<Seq<u8>>
        },
    decreases entries.len(),
{
    if entries.len() == 0 {
        assert(entries.push(e)[0] == e);
        assert(entries.push(e).drop_first() =~= Seq::<KeyEntry>::empty());
        if e.account != x {
            assert(key_in(Seq::<KeyEntry>::empty(), x) is None);
        }
    } else {
        assert(entries.push(e)[0] == entries[0]);
        if entries[0].account == x {
            assert(exists|j: int| 0 <= j < entries.len() && (#[trigger] entries[j]).account == x);
        } else {
            assert(entries.push(e).drop_first() =~= entries.drop_first().push(e));
            lemma_key_in_push(entries.drop_first(), e, x);
            if exists|j: int| 0 <= j < entries.len() && (#[trigger] entries[j]).account == x {
                let j = choose|j: int|
                    0 <= j < entries.len() && (#[trigger] entries[j]).account == x;
                assert(entries.drop_first()[j - 1].account == x);
            } else {
                assert forall|j2: int| 0 <= j2 < entries.drop_first().len() implies (
                #[trigger] entries.drop_first()[j2]).account != x by {
                    assert(entries.drop_first()[j2] == entries[j2 + 1]);
                }
            }
        }
    }
}

} // verus!
