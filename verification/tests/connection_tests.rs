use civium::connection::{ConnectionRecord, ConnectionState, ConnectionStore, ShareAgreement, ShareTerms};
use civium::error::CiviumError;
use civium::identity::CiviumKeypair;

fn terms(dir: bool) -> ShareTerms {
    ShareTerms { expose_member_directory: dir, privacy: false }
}

fn record(peer: &CiviumKeypair, state: ConnectionState) -> ConnectionRecord {
    ConnectionRecord {
        peer_cid_full: peer.cid().full().to_string(),
        peer_cid_short: peer.cid().short().to_string(),
        peer_name: "peer".to_string(),
        peer_pubkey_b58: peer.pub_key_b58(),
        state,
        initiated_at: 1,
        updated_at: 1,
        our_terms: ShareTerms::default_terms(),
        their_terms: None,
        incoming_request: None,
        apc: None,
    }
}

#[test]
fn agreement_round_trip() {
    let a = CiviumKeypair::generate().unwrap();
    let b = CiviumKeypair::generate().unwrap();
    let req = ShareAgreement::build_request(&a, "A", terms(true), b.cid().full()).unwrap();
    assert_eq!(req.payload.from_cid_full, a.cid().full());
    let apc = ShareAgreement::build_from_acceptance(&req, &b, "B", terms(false)).unwrap();
    assert_eq!(apc.acceptance.request_nonce_b58, req.payload.nonce_b58);
    assert!(apc.verify().is_ok());
}

#[test]
fn request_json_layout() {
    let a = CiviumKeypair::generate().unwrap();
    let req = ShareAgreement::build_request_at(&a, "A", terms(true), "civ1B", 42, &[3u8; 16]).unwrap();
    let expected = format!(
        "{{\"v\":1,\"nonce_b58\":\"{}\",\"from_cid_full\":\"{}\",\"from_pubkey_b58\":\"{}\",\"from_name\":\"A\",\"from_terms\":{{\"expose_member_directory\":true,\"privacy\":false}},\"to_cid_full\":\"civ1B\",\"created_at\":42}}",
        bs58::encode([3u8; 16]).into_string(),
        a.cid().full(),
        a.pub_key_b58()
    );
    assert_eq!(req.payload.to_json(), expected);
}

#[test]
fn forged_request_is_not_countersigned() {
    let a = CiviumKeypair::generate().unwrap();
    let b = CiviumKeypair::generate().unwrap();
    let mut req = ShareAgreement::build_request(&a, "A", terms(true), b.cid().full()).unwrap();
    req.payload.from_name = "Mallory".to_string();
    assert!(matches!(ShareAgreement::build_from_acceptance(&req, &b, "B", terms(true)), Err(CiviumError::Network(_))));
}

#[test]
fn nonce_mismatch_fails_verification() {
    let a = CiviumKeypair::generate().unwrap();
    let b = CiviumKeypair::generate().unwrap();
    let req = ShareAgreement::build_request(&a, "A", terms(true), b.cid().full()).unwrap();
    let mut apc = ShareAgreement::build_from_acceptance(&req, &b, "B", terms(true)).unwrap();
    apc.request.nonce_b58 = "other".to_string();
    assert!(matches!(apc.verify(), Err(CiviumError::Network(_))));
}

#[test]
fn connection_lifecycle() {
    let a = CiviumKeypair::generate().unwrap();
    let b = CiviumKeypair::generate().unwrap();
    let mut a_store = ConnectionStore::new();
    let mut b_store = ConnectionStore::new();
    a_store.add_request(record(&b, ConnectionState::Requested)).unwrap();
    assert!(matches!(a_store.add_request(record(&b, ConnectionState::Requested)), Err(CiviumError::Network(_))));
    let req = ShareAgreement::build_request(&a, "A", terms(true), b.cid().full()).unwrap();
    let mut incoming = record(&a, ConnectionState::Validating);
    incoming.their_terms = Some(req.payload.from_terms);
    incoming.incoming_request = Some(req);
    b_store.add_incoming(incoming);

    let apc = b_store.accept_at(a.cid().full(), &b, "B", terms(false), 50).unwrap();
    let rec = &b_store.connections[0];
    assert_eq!(rec.state, ConnectionState::Active);
    assert!(rec.incoming_request.is_none());
    assert!(rec.apc.is_some());
    assert_eq!(rec.updated_at, 50);
    assert!(rec.exposes_directory());

    a_store.confirm_accepted(b.cid().full(), terms(false), apc, 51).unwrap();
    assert_eq!(a_store.connections[0].state, ConnectionState::Active);
    assert!(!a_store.connections[0].exposes_directory());

    assert!(matches!(b_store.accept_at(a.cid().full(), &b, "B", terms(false), 52), Err(CiviumError::Network(_))));

    b_store.revoke(a.cid().full(), 60).unwrap();
    assert_eq!(b_store.connections[0].state, ConnectionState::Revoked);
    assert!(b_store.connections[0].apc.is_none());
    assert!(a_store.mark_revoked(b.cid().full(), 60));
    assert!(matches!(b_store.revoke(a.cid().full(), 61), Err(CiviumError::Network(_))));
}

#[test]
fn refuse_and_block() {
    let a = CiviumKeypair::generate().unwrap();
    let b = CiviumKeypair::generate().unwrap();
    let mut store = ConnectionStore::new();
    store.add_incoming(record(&a, ConnectionState::Validating));
    store.refuse(a.cid().full(), Some("non".to_string()), 5).unwrap();
    assert_eq!(store.connections[0].state, ConnectionState::Refused { reason: Some("non".to_string()) });
    store.block(a.cid().full(), 6).unwrap();
    assert_eq!(store.connections[0].state, ConnectionState::Blocked);
    assert_eq!(store.connections[0].state.to_string(), "Blocked");
    assert!(matches!(store.block(b.cid().full(), 7), Err(CiviumError::Network(_))));
    assert!(!store.mark_refused(b.cid().full(), None, 7));
    let mut other = ConnectionStore::new();
    other.add_request(record(&b, ConnectionState::Requested)).unwrap();
    assert!(other.mark_refused(b.cid().full(), None, 8));
    assert_eq!(other.connections[0].state, ConnectionState::Refused { reason: None });
}

#[test]
fn accept_needs_validating_state() {
    let a = CiviumKeypair::generate().unwrap();
    let b = CiviumKeypair::generate().unwrap();
    let mut store = ConnectionStore::new();
    store.add_incoming(record(&a, ConnectionState::Requested));
    assert!(matches!(store.accept_at(a.cid().full(), &b, "B", terms(true), 1), Err(CiviumError::Network(_))));
    assert!(matches!(store.accept_at("civ1none", &b, "B", terms(true), 1), Err(CiviumError::Network(_))));
}

#[test]
fn find_by_prefix_matches_short_or_full() {
    let a = CiviumKeypair::generate().unwrap();
    let mut store = ConnectionStore::new();
    store.add_incoming(record(&a, ConnectionState::Validating));
    assert_eq!(store.find_by_prefix(&a.cid().short()[..6]), Some(0));
    assert_eq!(store.find_by_prefix(a.cid().full()), Some(0));
    assert_eq!(store.find_by_prefix("zzz"), None);
}
