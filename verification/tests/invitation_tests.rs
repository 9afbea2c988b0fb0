use civium::error::CiviumError;
use civium::identity::CiviumKeypair;
use civium::invitation::{InvitePayload, Invitation};

#[test]
fn created_invitation_verifies_until_expiry() {
    let net = CiviumKeypair::generate().unwrap();
    let inviter = CiviumKeypair::generate().unwrap();
    let inv = Invitation::create_at(&net, "Quartier", &inviter.cid(), 2, 1_000, &[9u8; 16]).unwrap();
    assert_eq!(inv.payload.v, 1);
    assert_eq!(inv.payload.created_at, 1_000);
    assert_eq!(inv.payload.expires_at, 1_000 + 2 * 3600);
    assert_eq!(inv.network_cid_full(), net.cid().full());
    assert_eq!(inv.network_name(), "Quartier");
    assert_eq!(inv.payload.inviter_cid_short, inviter.cid().short());
    assert_eq!(inv.nonce_b58(), bs58::encode([9u8; 16]).into_string());
    assert!(inv.verify_at(1_000 + 7200).is_ok());
    assert!(matches!(inv.verify_at(1_000 + 7201), Err(CiviumError::Invitation(_))));
}

#[test]
fn invitation_without_expiry() {
    let net = CiviumKeypair::generate().unwrap();
    let inv = Invitation::create_at(&net, "N", &net.cid(), 0, 5, &[1u8; 16]).unwrap();
    assert_eq!(inv.payload.expires_at, 0);
    assert!(inv.verify_at(u64::MAX).is_ok());
}

#[test]
fn tampered_invitation_fails() {
    let net = CiviumKeypair::generate().unwrap();
    let mut inv = Invitation::create(&net, "N", &net.cid(), 0).unwrap();
    inv.payload.network_name = "M".to_string();
    assert!(matches!(inv.verify(), Err(CiviumError::Invitation(_))));
}

#[test]
fn bad_public_key_fails() {
    let net = CiviumKeypair::generate().unwrap();
    let mut inv = Invitation::create(&net, "N", &net.cid(), 0).unwrap();
    inv.payload.network_pubkey_b58 = bs58::encode([1u8; 31]).into_string();
    assert!(matches!(inv.verify(), Err(CiviumError::Invitation(_))));
    inv.payload.network_pubkey_b58 = "0".to_string();
    assert!(matches!(inv.verify(), Err(CiviumError::Invitation(_))));
}

#[test]
fn payload_json_matches_serde_layout() {
    let p = InvitePayload {
        v: 1,
        network_cid_full: "civ1X".to_string(),
        network_pubkey_b58: "pk".to_string(),
        network_name: "Quar\"tier\n\u{1}".to_string(),
        inviter_cid_short: "civ1Y".to_string(),
        created_at: 10,
        expires_at: 0,
        nonce_b58: "n".to_string(),
    };
    let name_json = serde_json::to_string("Quar\"tier\n\u{1}").unwrap();
    let expected = format!(
        "{{\"v\":1,\"network_cid_full\":\"civ1X\",\"network_pubkey_b58\":\"pk\",\"network_name\":{},\"inviter_cid_short\":\"civ1Y\",\"created_at\":10,\"expires_at\":0,\"nonce_b58\":\"n\"}}",
        name_json
    );
    assert_eq!(p.to_json(), expected);
}

#[test]
fn link_carries_the_invitation_json() {
    let net = CiviumKeypair::generate().unwrap();
    let inv = Invitation::create(&net, "Quartier", &net.cid(), 1).unwrap();
    let link = inv.to_link().unwrap();
    assert!(link.starts_with("civium-invite:"));
    let bytes = Invitation::link_json_bytes(&link).unwrap();
    assert_eq!(String::from_utf8(bytes).unwrap(), inv.to_json());
    let v: serde_json::Value = serde_json::from_str(&inv.to_json()).unwrap();
    assert_eq!(v["payload"]["network_name"], "Quartier");
    assert_eq!(v["sig_b58"], inv.sig_b58.as_str());
}

#[test]
fn bad_links_are_refused() {
    assert!(matches!(Invitation::link_json_bytes("http://x"), Err(CiviumError::Invitation(_))));
    assert!(matches!(Invitation::link_json_bytes("civium-invite:0OIl"), Err(CiviumError::Invitation(_))));
}

#[test]
fn expiry_out_of_range_is_refused() {
    let net = CiviumKeypair::generate().unwrap();
    assert!(matches!(Invitation::create(&net, "N", &net.cid(), u64::MAX), Err(CiviumError::Invitation(_))));
}
