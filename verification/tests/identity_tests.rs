use civium::identity::{Cid, CiviumKeypair};
use civium::error::CiviumError;

#[test]
fn cid_is_civ1_prefix_of_full() {
    let k = CiviumKeypair::generate().unwrap();
    let cid = k.cid();
    assert!(cid.full().starts_with("civ1"));
    assert!(cid.full().starts_with(cid.short()));
    assert_eq!(cid.short().chars().count(), 12);
    assert_eq!(cid.to_display_string(), cid.short());
}

#[test]
fn cid_matches_blake3_and_base58_of_public_key() {
    let k = CiviumKeypair::generate().unwrap();
    let pk = *k.public_key_bytes();
    let digest = blake3::hash(&pk);
    let expected = format!("civ1{}", bs58::encode(digest.as_bytes()).into_string());
    let cid = Cid::from_public_key_bytes(&pk);
    assert_eq!(cid.full(), expected);
    assert_eq!(cid.raw_bytes(), digest.as_bytes());
    assert_eq!(cid.short(), &expected[..12]);
}

#[test]
fn public_key_matches_libp2p() {
    let secret = [7u8; 32];
    let k = CiviumKeypair::from_secret_bytes(secret).unwrap();
    let sk = libp2p::identity::ed25519::SecretKey::try_from_bytes([7u8; 32]).unwrap();
    let expected = libp2p::identity::ed25519::Keypair::from(sk).public().to_bytes();
    assert_eq!(*k.public_key_bytes(), expected);
    assert_eq!(*k.secret_bytes(), secret);
}

#[test]
fn restore_from_exported_secret_gives_same_identity() {
    let k = CiviumKeypair::generate().unwrap();
    let exported = k.secret_b58();
    let k2 = CiviumKeypair::from_secret_b58(&exported).unwrap();
    assert_eq!(k2.public_key_bytes(), k.public_key_bytes());
    assert_eq!(k2.cid().full(), k.cid().full());
    assert_eq!(bs58::decode(&exported).into_vec().unwrap(), k.secret_bytes().to_vec());
}

#[test]
fn secret_b58_rejects_invalid_text() {
    match CiviumKeypair::from_secret_b58("0OIl") {
        Err(CiviumError::Identity(_)) => {}
        _ => panic!("expected an identity error"),
    }
}

#[test]
fn secret_b58_rejects_wrong_length() {
    let short = bs58::encode([1u8; 31]).into_string();
    match CiviumKeypair::from_secret_b58(&short) {
        Err(CiviumError::Identity(_)) => {}
        _ => panic!("expected an identity error"),
    }
}

#[test]
fn cid_from_full_round_trip() {
    let k = CiviumKeypair::generate().unwrap();
    let cid = k.cid();
    let parsed = Cid::from_full(cid.full()).unwrap();
    assert_eq!(parsed.full(), cid.full());
    assert_eq!(parsed.short(), cid.short());
    assert_eq!(parsed.raw_bytes(), cid.raw_bytes());
}

#[test]
fn cid_from_full_rejects_bad_text() {
    assert!(matches!(Cid::from_full("xyz"), Err(CiviumError::Identity(_))));
    assert!(matches!(Cid::from_full("civ1abc"), Err(CiviumError::Identity(_))));
}

#[test]
fn signature_verifies_with_libp2p() {
    let k = CiviumKeypair::generate().unwrap();
    let sig = k.sign(b"hello");
    let pk = libp2p::identity::ed25519::PublicKey::try_from_bytes(k.public_key_bytes()).unwrap();
    assert!(pk.verify(b"hello", &sig));
    assert!(!pk.verify(b"hellO", &sig));
}

#[test]
fn public_key_b58_decodes_to_public_key() {
    let k = CiviumKeypair::generate().unwrap();
    let b = bs58::decode(k.pub_key_b58()).into_vec().unwrap();
    assert_eq!(b, k.public_key_bytes().to_vec());
}
