//! Fixed-size byte values: account keys, chain hashes and signatures.

use vstd::prelude::*;

verus! {

/// Number of bytes in a public key.
pub const PUBKEY_BYTES: usize = 32;

/// Number of bytes in a hash.
pub const HASH_BYTES: usize = 32;

/// Number of bytes in a signature.
pub const SIGNATURE_BYTES: usize = 64;

/// Compares two byte slices element by element.
pub fn bytes_equal(a: &[u8], b: &[u8]) -> (same: bool)
    ensures
        same == (a@ == b@),
{
    if a.len() != b.len() {
        return false;
    }
    let mut i: usize = 0;
    while i < a.len()
        invariant
            a@.len() == b@.len(),
            i <= a@.len(),
            forall|k: int| 0 <= k < i ==> a@[k] == b@[k],
        decreases a@.len() - i,
    {
        if a[i] != b[i] {
            return false;
        }
        i += 1;
    }
    assert(a@ =~= b@);
    true
}

/// The address of an account.
#[derive(Clone, Copy, Debug, PartialEq, Eq, Hash)]
pub struct Pubkey {
    pub bytes: [u8; 32],
}

/// The identifier of an entry in the chain.
#[derive(Clone, Copy, Debug, PartialEq, Eq, Hash)]
pub struct Hash {
    pub bytes: [u8; 32],
}

/// An Ed25519 signature.
#[derive(Clone, Copy, Debug, PartialEq, Eq, Hash)]
pub struct Signature {
    pub bytes: [u8; 64],
}

impl View for Pubkey {
    type V = Seq<u8>;

    open spec fn view(&self) -> Seq<u8> {
        self.bytes@
    }
}

impl View for Hash {
    type V = Seq<u8>;

    open spec fn view(&self) -> Seq<u8> {
        self.bytes@
    }
}

impl View for Signature {
    type V = Seq<u8>;

    open spec fn view(&self) -> Seq<u8> {
        self.bytes@
    }
}

/// The key that 32 bytes spell.
pub open spec fn pubkey_of(bytes: Seq<u8>) -> Pubkey {
    choose|key: Pubkey| key@ == bytes
}

/// The signature that 64 bytes spell.
pub open spec fn signature_of(bytes: Seq<u8>) -> Signature {
    choose|signature: Signature| signature@ == bytes
}

/// Two keys with the same bytes are the same key.
pub proof fn lemma_pubkey_ext(a: Pubkey, b: Pubkey)
    ensures
        (a@ == b@) == (a == b),
        a@.len() == 32,
{
    broadcast use vstd::array::group_array_axioms;

    if a@ == b@ {
        assert(a.bytes =~= b.bytes);
    }
}

/// Two hashes with the same bytes are the same hash.
pub proof fn lemma_hash_ext(a: Hash, b: Hash)
    ensures
        (a@ == b@) == (a == b),
        a@.len() == 32,
{
    broadcast use vstd::array::group_array_axioms;

    if a@ == b@ {
        assert(a.bytes =~= b.bytes);
    }
}

/// Two signatures with the same bytes are the same signature.
pub proof fn lemma_signature_ext(a: Signature, b: Signature)
    ensures
        (a@ == b@) == (a == b),
        a@.len() == 64,
{
    broadcast use vstd::array::group_array_axioms;

    if a@ == b@ {
        assert(a.bytes =~= b.bytes);
    }
}

impl Pubkey {
    /// Builds a key from exactly 32 bytes.
    pub fn new(bytes: &[u8]) -> (key: Pubkey)
        requires
            bytes@.len() == 32,
        ensures
            key@ == bytes@,
            key == pubkey_of(bytes@),
    {
        let mut out = [0u8; 32];
        let mut i: usize = 0;
        while i < 32
            invariant
                i <= 32,
                bytes@.len() == 32,
                forall|k: int| 0 <= k < i ==> out@[k] == bytes@[k],
            decreases 32 - i,
        {
            out[i] = bytes[i];
            i += 1;
        }
        assert(out@ =~= bytes@);
        let key = Pubkey { bytes: out };
        proof {
            lemma_pubkey_ext(key, pubkey_of(bytes@));
        }
        key
    }

    /// Whether both keys hold the same bytes.
    pub fn equals(&self, other: &Pubkey) -> (same: bool)
        ensures
            same == (self@ == other@),
            same == (*self == *other),
    {
        proof {
            lemma_pubkey_ext(*self, *other);
        }
        bytes_equal(self.bytes.as_slice(), other.bytes.as_slice())
    }
}

impl Hash {
    /// Builds a hash from exactly 32 bytes.
    pub fn new(bytes: &[u8]) -> (hash: Hash)
        requires
            bytes@.len() == 32,
        ensures
            hash@ == bytes@,
    {
        let mut out = [0u8; 32];
        let mut i: usize = 0;
        while i < 32
            invariant
                i <= 32,
                bytes@.len() == 32,
                forall|k: int| 0 <= k < i ==> out@[k] == bytes@[k],
            decreases 32 - i,
        {
            out[i] = bytes[i];
            i += 1;
        }
        assert(out@ =~= bytes@);
        Hash { bytes: out }
    }

    /// Whether both hashes hold the same bytes.
    pub fn equals(&self, other: &Hash) -> (same: bool)
        ensures
            same == (self@ == other@),
            same == (*self == *other),
    {
        proof {
            lemma_hash_ext(*self, *other);
        }
        bytes_equal(self.bytes.as_slice(), other.bytes.as_slice())
    }
}

impl Signature {
    /// Builds a signature from exactly 64 bytes.
    pub fn new(bytes: &[u8]) -> (signature: Signature)
        requires
            bytes@.len() == 64,
        ensures
            signature@ == bytes@,
            signature == signature_of(bytes@),
    {
        let mut out = [0u8; 64];
        let mut i: usize = 0;
        while i < 64
            invariant
                i <= 64,
                bytes@.len() == 64,
                forall|k: int| 0 <= k < i ==> out@[k] == bytes@[k],
            decreases 64 - i,
        {
            out[i] = bytes[i];
            i += 1;
        }
        assert(out@ =~= bytes@);
        let signature = Signature { bytes: out };
        proof {
            lemma_signature_ext(signature, signature_of(bytes@));
        }
        signature
    }

    /// Whether both signatures hold the same bytes.
    pub fn equals(&self, other: &Signature) -> (same: bool)
        ensures
            same == (self@ == other@),
            same == (*self == *other),
    {
        proof {
            lemma_signature_ext(*self, *other);
        }
        bytes_equal(self.bytes.as_slice(), other.bytes.as_slice())
    }
}

} // verus!
