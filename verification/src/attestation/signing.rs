//! Signatures over signing roots: a SHA-256 MAC under a shared key.

use vstd::prelude::*;

use crate::byte_order::{append, arrays_equal, to_vec};
use crate::crypto::merkle::Hash256;
use crate::crypto::sha256::{sha256, sha256_digest};

verus! {

/// A key that signs and verifies.
pub type SecretKey = [u8; 32];

/// A signature.
pub type Signature = [u8; 32];

/// The signature of a root under a key.
pub open spec fn root_signature(key: Seq<u8>, root: Seq<u8>) -> Seq<u8> {
    sha256_digest(key + root)
}

/// Signs a root.
pub fn sign_root(key: &SecretKey, root: &Hash256) -> (r: Signature)
    ensures
        r@ == root_signature(key@, root@),
{
    let mut buf: Vec<u8> = to_vec(key.as_slice());
    append(&mut buf, root.as_slice());
    sha256(buf.as_slice())
}

/// Whether a signature is that of a root under a key.
pub fn verify_root(key: &SecretKey, root: &Hash256, signature: &Signature) -> (r: bool)
    ensures
        r == (signature@ == root_signature(key@, root@)),
{
    arrays_equal(&sign_root(key, root), signature)
}

/// A root is signed by the digest of the key followed by the root, and of nothing else.
pub proof fn law_signature_covers_key_and_root(key: SecretKey, root: Hash256, input: Seq<u8>)
    requires
        input.len() == 64,
        forall|i: int| 0 <= i < 32 ==> #[trigger] input[i] == key@[i],
        forall|i: int| 32 <= i < 64 ==> #[trigger] input[i] == root@[i - 32],
    ensures
        root_signature(key@, root@) == sha256_digest(input),
{
    assert(input =~= key@ + root@);
}

} // verus!
