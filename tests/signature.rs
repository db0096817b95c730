use tiny_keccak::{Hasher, Keccak};
use video_engine::signature::{prefix_message, SignedMessage};

fn keccak(bytes: &[u8]) -> Vec<u8> {
    let mut out = [0u8; 32];
    let mut h = Keccak::v256();
    h.update(bytes);
    h.finalize(&mut out);
    out.to_vec()
}

fn signed(data: &[u8], secret: [u8; 32]) -> SignedMessage {
    let sk = libsecp256k1::SecretKey::parse(&secret).unwrap();
    let pk = libsecp256k1::PublicKey::from_secret_key(&sk);
    let address = keccak(&pk.serialize()[1..])[12..].to_vec();
    let data = data.to_vec();
    let hash = keccak(&prefix_message(&data));
    let msg = libsecp256k1::Message::parse_slice(&hash).unwrap();
    let (sig, rec) = libsecp256k1::sign(&msg, &sk);
    let mut signature = sig.serialize().to_vec();
    signature.push(rec.serialize() + 27);
    SignedMessage { address, data, signature }
}

#[test]
fn prefix_has_length_in_decimal() {
    let m = b"{\"n\":1}".to_vec();
    assert_eq!(prefix_message(&m), b"\x19Ethereum Signed Message:\n7{\"n\":1}".to_vec());
    let long = vec![b'a'; 1234];
    let mut expected = b"\x19Ethereum Signed Message:\n1234".to_vec();
    expected.extend_from_slice(&long);
    assert_eq!(prefix_message(&long), expected);
    assert_eq!(prefix_message(&Vec::new()), b"\x19Ethereum Signed Message:\n0".to_vec());
}

#[test]
fn golden_signature_verifies() {
    let m = signed(b"{\"n\":1}", [0x11; 32]);
    assert_eq!(m.signature.len(), 65);
    assert!(m.verify());
}

#[test]
fn flipped_signature_bit_fails() {
    let mut m = signed(b"{\"n\":1}", [0x11; 32]);
    m.signature[10] ^= 0x01;
    assert!(!m.verify());
}

#[test]
fn other_data_or_address_fails() {
    let mut m = signed(b"{\"n\":1}", [0x22; 32]);
    m.data = b"{\"n\":2}".to_vec();
    assert!(!m.verify());
    let mut m = signed(b"{\"n\":1}", [0x22; 32]);
    m.address[0] ^= 0xff;
    assert!(!m.verify());
}

#[test]
fn signature_of_wrong_length_fails() {
    let mut m = signed(b"{\"n\":1}", [0x33; 32]);
    m.signature.pop();
    assert!(!m.verify());
    let mut m = signed(b"{\"n\":1}", [0x33; 32]);
    m.signature.push(0);
    assert!(!m.verify());
}

#[test]
fn recovery_id_outside_rpc_range_fails() {
    let mut m = signed(b"{\"n\":1}", [0x44; 32]);
    m.signature[64] -= 27;
    assert!(!m.verify());
}

#[test]
fn signatures_round_trip_for_several_keys() {
    for k in 1u8..6 {
        let m = signed(b"{\"a\":[1,2,3]}", [k; 32]);
        assert!(m.verify());
    }
}
