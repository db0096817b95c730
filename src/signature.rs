//! Authentication of signed messages: a recoverable secp256k1 signature over
//! the Keccak-256 digest of an Ethereum-style prefixed message, checked
//! against a 20-byte address.
use vstd::prelude::*;
use crate::text::{decimal_bytes, push_decimal_bytes};

verus! {

/// The Keccak-256 digest of a byte string.
pub uninterp spec fn keccak256_of(b: Seq<u8>) -> Seq<u8>;

/// The serialised (65-byte, uncompressed) public key that secp256k1 recovery
/// yields for a digest, the 64 bytes `r || s` and an RPC recovery id; `None`
/// where the inputs do not parse or no key is recovered.
pub uninterp spec fn recovered_key_of(hash: Seq<u8>, rs: Seq<u8>, v: u8) -> Option<Seq<u8>>;

/// `"\x19Ethereum Signed Message:\n"` as bytes.
pub open spec fn message_prefix() -> Seq<u8> {
    seq![
        25u8, 69u8, 116u8, 104u8, 101u8, 114u8, 101u8, 117u8, 109u8, 32u8, 83u8, 105u8, 103u8,
        110u8, 101u8, 100u8, 32u8, 77u8, 101u8, 115u8, 115u8, 97u8, 103u8, 101u8, 58u8, 10u8,
    ]
}

/// The bytes that are hashed and signed for a message `m`: the prefix, the
/// length of `m` in decimal, then `m`.
pub open spec fn prefixed_message(m: Seq<u8>) -> Seq<u8> {
    message_prefix() + decimal_bytes(m.len()) + m
}

/// The address of a serialised public key: the low 20 bytes of the
/// Keccak-256 digest of the key without its leading format byte.
pub open spec fn address_of_key(key: Seq<u8>) -> Seq<u8> {
    keccak256_of(key.subrange(1, key.len() as int)).subrange(12, 32)
}

/// Whether `signature` is a valid signature of `data` by the holder of `address`.
pub open spec fn signature_valid(address: Seq<u8>, data: Seq<u8>, signature: Seq<u8>) -> bool {
    &&& signature.len() == 65
    &&& match recovered_key_of(
        keccak256_of(prefixed_message(data)),
        signature.subrange(0, 64),
        signature[64],
    ) {
        Some(key) => address_of_key(key) == address,
        None => false,
    }
}

/// A message with the address of its author and a 65-byte signature
/// `r || s || v` (`v` is the recovery id in RPC encoding, 27 to 30).
/// `data` holds the canonical serialisation of the signed value.
pub struct SignedMessage {
    pub address: Vec<u8>,
    pub data: Vec<u8>,
    pub signature: Vec<u8>,
}

/// Relies on tiny_keccak's `Keccak::v256` (`update`, then `finalize`):
/// the 32-byte Keccak-256 digest of `bytes`.
#[verifier::external_body]
fn keccak256(bytes: &[u8]) -> (r: Vec<u8>)
    ensures
        r@ == keccak256_of(bytes@),
        r@.len() == 32,
{
    let mut output = [0u8; 32];
    let mut hasher = tiny_keccak::Keccak::v256();
    tiny_keccak::Hasher::update(&mut hasher, bytes);
    tiny_keccak::Hasher::finalize(hasher, &mut output);
    output.to_vec()
}

/// Relies on libsecp256k1: `Message::parse_slice` on the digest,
/// `Signature::parse_overflowing_slice` on `r || s`, `RecoveryId::parse_rpc`
/// on `v` (which refuses all but 27 to 30), then `recover` and
/// `PublicKey::serialize`, whose 65 bytes start with the tag 0x04.
#[verifier::external_body]
fn recover_public_key(hash: &[u8], rs: &[u8], v: u8) -> (r: Option<Vec<u8>>)
    requires
        hash@.len() == 32,
        rs@.len() == 64,
    ensures
        match r {
            Some(key) => recovered_key_of(hash@, rs@, v) == Some(key@) && key@.len() == 65
                && key@[0] == 4u8,
            None => recovered_key_of(hash@, rs@, v) is None,
        },
        !(27 <= v && v < 31) ==> r is None,
{
    let msg = libsecp256k1::Message::parse_slice(hash).ok()?;
    let sig = libsecp256k1::Signature::parse_overflowing_slice(rs).ok()?;
    let rec_id = libsecp256k1::RecoveryId::parse_rpc(v).ok()?;
    match libsecp256k1::recover(&msg, &sig, &rec_id) {
        Ok(key) => Some(key.serialize().to_vec()),
        Err(_) => None,
    }
}

/// The bytes `prefix || decimal(len(m)) || m` for a message `m`.
pub fn prefix_message(m: &Vec<u8>) -> (r: Vec<u8>)
    ensures
        r@ == prefixed_message(m@),
{
    let mut r: Vec<u8> = vec![
        25u8, 69u8, 116u8, 104u8, 101u8, 114u8, 101u8, 117u8, 109u8, 32u8, 83u8, 105u8, 103u8,
        110u8, 101u8, 100u8, 32u8, 77u8, 101u8, 115u8, 115u8, 97u8, 103u8, 101u8, 58u8, 10u8,
    ];
    assert(r@ =~= message_prefix());
    push_decimal_bytes(&mut r, m.len() as u64);
    let ghost head = r@;
    let mut i: usize = 0;
    while i < m.len()
        invariant
            i <= m@.len(),
            r@ == head + m@.subrange(0, i as int),
        decreases m@.len() - i,
    {
        r.push(m[i]);
        i = i + 1;
        assert(r@ =~= head + m@.subrange(0, i as int));
    }
    assert(m@.subrange(0, m@.len() as int) =~= m@);
    r
}

/// Copies `b[start..end]`.
fn copy_range(b: &Vec<u8>, start: usize, end: usize) -> (r: Vec<u8>)
    requires
        start <= end <= b@.len(),
    ensures
        r@ == b@.subrange(start as int, end as int),
{
    let mut r: Vec<u8> = Vec::new();
    let mut i: usize = start;
    while i < end
        invariant
            start <= i <= end,
            end <= b@.len(),
            r@ == b@.subrange(start as int, i as int),
        decreases end - i,
    {
        r.push(b[i]);
        i = i + 1;
        assert(r@ =~= b@.subrange(start as int, i as int));
    }
    r
}

/// Whether two byte strings are equal.
fn bytes_equal(a: &Vec<u8>, b: &Vec<u8>) -> (r: bool)
    ensures
        r == (a@ == b@),
{
    if a.len() != b.len() {
        return false;
    }
    let mut i: usize = 0;
    while i < a.len()
        invariant
            a@.len() == b@.len(),
            i <= a@.len(),
            forall|j: int| 0 <= j < i ==> a@[j] == b@[j],
        decreases a@.len() - i,
    {
        if a[i] != b[i] {
            return false;
        }
        i = i + 1;
    }
    assert(a@ =~= b@);
    true
}

impl SignedMessage {
    /// Whether the signature was made over `data` by the key whose address
    /// is `address`. A signature that is not 65 bytes long, carries an
    /// invalid recovery id or yields no key fails.
    pub fn verify(&self) -> (r: bool)
        ensures
            r == signature_valid(self.address@, self.data@, self.signature@),
            self.signature@.len() == 65 && !(27 <= self.signature@[64] && self.signature@[64] < 31) ==> !r,
    {
        if self.signature.len() != 65 {
            return false;
        }
        let message = prefix_message(&self.data);
        let hash = keccak256(message.as_slice());
        let rs = copy_range(&self.signature, 0, 64);
        let key = match recover_public_key(hash.as_slice(), rs.as_slice(), self.signature[64]) {
            Some(key) => key,
            None => return false,
        };
        let bare = copy_range(&key, 1, 65);
        let digest = keccak256(bare.as_slice());
        let address = copy_range(&digest, 12, 32);
        bytes_equal(&address, &self.address)
    }
}

/// A signature from which recovery, over the digest of the prefixed
/// message, yields a key whose address is the message's address verifies.
pub proof fn lemma_recovered_signer_verifies(address: Seq<u8>, data: Seq<u8>, signature: Seq<u8>, key: Seq<u8>)
    requires
        signature.len() == 65,
        recovered_key_of(keccak256_of(prefixed_message(data)), signature.subrange(0, 64), signature[64]) == Some(key),
        address == address_of_key(key),
    ensures
        signature_valid(address, data, signature),
{
}

} // verus!
