use chacha20poly1305::aead::{Aead, KeyInit};
use civium::crypto::{GroupKey, PairKey};
use civium::error::CiviumError;
use civium::identity::CiviumKeypair;
use civium::messaging::{Mailbox, Message, MessageKind};

fn key() -> GroupKey {
    GroupKey::from_bytes([5u8; 32])
}

#[test]
fn group_key_round_trip() {
    let k = GroupKey::generate();
    let (n, c) = k.encrypt(b"bonjour").unwrap();
    assert_ne!(c, bs58::encode(b"bonjour").into_string());
    assert_eq!(k.decrypt(&n, &c).unwrap(), b"bonjour".to_vec());
    let other = GroupKey::generate();
    assert!(matches!(other.decrypt(&n, &c), Err(CiviumError::Crypto(_))));
}

#[test]
fn group_key_matches_chacha20poly1305() {
    let k = key();
    let (n, c) = k.encrypt_with_nonce(b"abc", &[1u8; 12]).unwrap();
    let cipher = chacha20poly1305::ChaCha20Poly1305::new(chacha20poly1305::Key::from_slice(&[5u8; 32]));
    let expected = cipher.encrypt(chacha20poly1305::Nonce::from_slice(&[1u8; 12]), b"abc".as_ref()).unwrap();
    assert_eq!(bs58::decode(&c).into_vec().unwrap(), expected);
    assert_eq!(bs58::decode(&n).into_vec().unwrap(), vec![1u8; 12]);
}

#[test]
fn group_key_b58_parsing() {
    let k = key();
    let text = k.to_b58();
    assert_eq!(GroupKey::from_b58(&text).unwrap().to_b58(), text);
    assert!(matches!(GroupKey::from_b58(""), Err(CiviumError::Crypto(_))));
    assert!(matches!(GroupKey::from_b58("0"), Err(CiviumError::Crypto(_))));
    assert!(matches!(GroupKey::from_b58(&bs58::encode([1u8; 16]).into_string()), Err(CiviumError::Crypto(_))));
}

#[test]
fn checked_decrypt_refuses_bad_nonce() {
    let k = key();
    let (_, c) = k.encrypt(b"x").unwrap();
    let bad = bs58::encode([0u8; 5]).into_string();
    assert!(matches!(k.decrypt_checked(&bad, &c), Err(CiviumError::Crypto(_))));
}

#[test]
fn pair_keys_agree() {
    let a = CiviumKeypair::generate().unwrap();
    let b = CiviumKeypair::generate().unwrap();
    let ab = PairKey::derive(a.secret_bytes(), b.public_key_bytes()).unwrap();
    let ba = PairKey::derive(b.secret_bytes(), a.public_key_bytes()).unwrap();
    let (n, c) = ab.encrypt(b"secret").unwrap();
    assert_eq!(ba.decrypt(&n, &c).unwrap(), b"secret".to_vec());
    let eve = CiviumKeypair::generate().unwrap();
    let ae = PairKey::derive(a.secret_bytes(), eve.public_key_bytes()).unwrap();
    assert!(matches!(ae.decrypt(&n, &c), Err(CiviumError::Crypto(_))));
}

#[test]
fn post_and_read_back() {
    let mut mb = Mailbox::new();
    let k = key();
    let id = mb.post_at("civ1a".to_string(), MessageKind::Thread, "salut", &k, 100, &[2u8; 12]).unwrap().id.clone();
    assert_eq!(id, bs58::encode([2u8; 12]).into_string());
    let msg = &mb.messages[0];
    assert_eq!(msg.nonce_b58, id);
    assert_eq!(msg.sent_at, 100);
    assert_eq!(mb.decrypt_body(msg, &k).unwrap(), "salut");
    assert!(matches!(mb.decrypt_body(msg, &GroupKey::from_bytes([6u8; 32])), Err(CiviumError::Crypto(_))));
}

#[test]
fn non_utf8_body_is_refused() {
    let mb = Mailbox::new();
    let k = key();
    let (n, c) = k.encrypt(&[0xff, 0xfe]).unwrap();
    let msg = Message { id: n.clone(), author_cid_short: "a".to_string(), kind: MessageKind::Thread, nonce_b58: n, ciphertext_b58: c, sent_at: 0, reply_to_id: None };
    assert!(matches!(mb.decrypt_body(&msg, &k), Err(CiviumError::Messaging(_))));
}

#[test]
fn rate_limit_sixty_per_minute() {
    let mut mb = Mailbox::new();
    for i in 0..60u64 {
        assert!(mb.check_rate_limit("civ1a", 1_000 + i / 2).is_ok());
    }
    assert!(matches!(mb.check_rate_limit("civ1a", 1_030), Err(CiviumError::RateLimited(_))));
    assert!(mb.check_rate_limit("civ1b", 1_030).is_ok());
    assert!(mb.check_rate_limit("civ1a", 1_060).is_ok());
}

fn msg(id: &str, sent_at: u64) -> Message {
    Message { id: id.to_string(), author_cid_short: "a".to_string(), kind: MessageKind::Thread, nonce_b58: String::new(), ciphertext_b58: String::new(), sent_at, reply_to_id: None }
}

#[test]
fn merge_is_a_union_sorted_by_time() {
    let mut mine = Mailbox::new();
    mine.messages = vec![msg("x", 30), msg("y", 10)];
    let mut theirs = Mailbox::new();
    theirs.messages = vec![msg("y", 10), msg("z", 20), msg("w", 10)];
    mine.merge(&theirs);
    let ids: Vec<String> = mine.messages.iter().map(|m| m.id.clone()).collect();
    assert_eq!(ids, vec!["y", "w", "z", "x"]);
    let snapshot = Mailbox { messages: mine.messages.iter().map(|m| m.copy()).collect(), outbox: Vec::new(), rate_buckets: civium::messaging::RateLimiter::new() };
    mine.merge(&snapshot);
    let again: Vec<String> = mine.messages.iter().map(|m| m.id.clone()).collect();
    assert_eq!(again, ids);
}

#[test]
fn thread_and_direct_views() {
    let mut mb = Mailbox::new();
    let mut d1 = msg("d1", 1);
    d1.author_cid_short = "alice".to_string();
    d1.kind = MessageKind::Direct { to_cid_short: "bob".to_string() };
    let mut d2 = msg("d2", 2);
    d2.author_cid_short = "bob".to_string();
    d2.kind = MessageKind::Direct { to_cid_short: "alice".to_string() };
    let mut d3 = msg("d3", 3);
    d3.author_cid_short = "carol".to_string();
    d3.kind = MessageKind::Direct { to_cid_short: "alice".to_string() };
    mb.messages = vec![msg("t1", 0), d1, d2, d3, msg("t2", 4)];
    let t: Vec<&str> = mb.thread_messages().iter().map(|m| m.id.as_str()).collect();
    assert_eq!(t, vec!["t1", "t2"]);
    let d: Vec<&str> = mb.direct_messages("alice", "bob").iter().map(|m| m.id.as_str()).collect();
    assert_eq!(d, vec!["d1", "d2"]);
}

#[test]
fn file_round_trip() {
    let mut mb = Mailbox::new();
    let k = key();
    let data: Vec<u8> = (0..1_000u32).map(|i| (i % 251) as u8).collect();
    mb.post_file_at("civ1a".to_string(), "f.bin".to_string(), "application/octet-stream".to_string(), &data, &k, 7).unwrap();
    let m = &mb.messages[0];
    match &m.kind {
        MessageKind::File { chunks, size_bytes, filename, .. } => {
            assert_eq!(chunks.len(), 1);
            assert_eq!(chunks[0].index, 0);
            assert_eq!(*size_bytes, 1_000);
            assert_eq!(filename, "f.bin");
        }
        _ => panic!("expected a file"),
    }
    assert!(m.nonce_b58.is_empty() && m.ciphertext_b58.is_empty());
    assert_eq!(mb.decrypt_file(m, &k).unwrap(), data);
    assert!(matches!(mb.decrypt_file(&msg("t", 0), &k), Err(CiviumError::Messaging(_))));
}

#[test]
fn empty_file_has_no_chunks() {
    let mut mb = Mailbox::new();
    let k = key();
    mb.post_file_at("a".to_string(), "f".to_string(), "m".to_string(), &[], &k, 0).unwrap();
    assert_eq!(mb.decrypt_file(&mb.messages[0], &k).unwrap(), Vec::<u8>::new());
}

#[test]
fn oversized_file_is_refused() {
    let mut mb = Mailbox::new();
    let k = key();
    let data = vec![0u8; 52_428_801];
    assert!(matches!(mb.post_file_at("a".to_string(), "f".to_string(), "m".to_string(), &data, &k, 0), Err(CiviumError::Messaging(_))));
    assert!(mb.messages.is_empty());
}

#[test]
fn file_chunks_are_joined_by_index() {
    let mb = Mailbox::new();
    let k = key();
    let (n0, c0) = k.encrypt(b"abc").unwrap();
    let (n1, c1) = k.encrypt(b"def").unwrap();
    let chunks = vec![
        civium::messaging::EncryptedChunk { index: 1, nonce_b58: n1, ciphertext_b58: c1 },
        civium::messaging::EncryptedChunk { index: 0, nonce_b58: n0, ciphertext_b58: c0 },
    ];
    let mut m = msg("f", 0);
    m.kind = MessageKind::File { filename: "f".to_string(), mime_type: "m".to_string(), size_bytes: 6, chunks };
    assert_eq!(mb.decrypt_file(&m, &k).unwrap(), b"abcdef".to_vec());
}
