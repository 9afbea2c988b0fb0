use civium::error::CiviumError;
use civium::identity::CiviumKeypair;
use civium::invitation::Invitation;
use civium::member::{MemberRole, TrustCircle};
use civium::network::{Network, NetworkAddress, NetworkKind};

fn admin_network() -> (CiviumKeypair, Network) {
    let admin = CiviumKeypair::generate().unwrap();
    let net = Network::create("Quartier".to_string(), &admin.cid(), "Alice".to_string(), None, false, None).unwrap();
    (admin, net)
}

#[test]
fn create_adds_founder_as_admin() {
    let (admin, net) = admin_network();
    assert_eq!(net.name(), "Quartier");
    assert_eq!(net.data.members.len(), 1);
    assert_eq!(net.data.members[0].cid_full, admin.cid().full());
    assert_eq!(net.data.members[0].circle, TrustCircle::Confiance);
    assert_eq!(net.data.members[0].role, MemberRole::Admin);
    assert!(net.data.pending.is_empty());
    assert_eq!(net.data.kind, NetworkKind::Standard);
    assert_eq!(net.cid_full(), net.keypair().cid().full());
    assert_eq!(bs58::decode(&net.data.group_key_b58).into_vec().unwrap().len(), 32);
}

#[test]
fn from_data_restores_keypair() {
    let (_, net) = admin_network();
    let full = net.cid_full().to_string();
    let restored = Network::from_data(net.data).unwrap();
    assert_eq!(restored.keypair().cid().full(), full);
}

#[test]
fn from_data_rejects_bad_secret() {
    let (_, mut net) = admin_network();
    net.data.network_secret_b58 = "abc".to_string();
    assert!(matches!(Network::from_data(net.data), Err(CiviumError::Identity(_))));
}

#[test]
fn join_then_admit() {
    let (admin, mut net) = admin_network();
    let inv = Invitation::create(net.keypair(), net.name(), &admin.cid(), 24).unwrap();
    let bob = CiviumKeypair::generate().unwrap();
    net.submit_join_request(&bob.cid(), "Bob".to_string(), &inv, None).unwrap();
    assert_eq!(net.data.pending.len(), 1);
    assert_eq!(net.data.pending[0].invite_nonce_b58, inv.nonce_b58());
    let rec = net.admit_member(bob.cid().short(), TrustCircle::Connaissance, MemberRole::Member).unwrap();
    assert_eq!(rec.display_name, "Bob");
    assert_eq!(rec.circle, TrustCircle::Connaissance);
    assert!(!rec.is_minor);
    assert_eq!(net.data.members.len(), 2);
    assert!(net.data.pending.is_empty());
}

#[test]
fn duplicate_pending_request_is_refused() {
    let (admin, mut net) = admin_network();
    let inv = Invitation::create(net.keypair(), net.name(), &admin.cid(), 0).unwrap();
    let bob = CiviumKeypair::generate().unwrap();
    net.submit_join_request(&bob.cid(), "Bob".to_string(), &inv, None).unwrap();
    let r = net.submit_join_request(&bob.cid(), "Bobby".to_string(), &inv, None);
    assert!(matches!(r, Err(CiviumError::Network(_))));
    assert_eq!(net.data.pending.len(), 1);
}

#[test]
fn existing_member_cannot_join_again() {
    let (admin, mut net) = admin_network();
    let inv = Invitation::create(net.keypair(), net.name(), &admin.cid(), 0).unwrap();
    let r = net.submit_join_request(&admin.cid(), "Alice2".to_string(), &inv, None);
    assert!(matches!(r, Err(CiviumError::Network(_))));
}

#[test]
fn taken_display_name_is_refused_at_join() {
    let (admin, mut net) = admin_network();
    let inv = Invitation::create(net.keypair(), net.name(), &admin.cid(), 0).unwrap();
    let bob = CiviumKeypair::generate().unwrap();
    let r = net.submit_join_request(&bob.cid(), "Alice".to_string(), &inv, None);
    assert!(matches!(r, Err(CiviumError::Network(_))));
    assert!(net.data.pending.is_empty());
}

#[test]
fn invitation_of_another_network_is_refused() {
    let (admin, mut net) = admin_network();
    let (_, other) = admin_network();
    let inv = Invitation::create(other.keypair(), other.name(), &admin.cid(), 0).unwrap();
    let bob = CiviumKeypair::generate().unwrap();
    let r = net.submit_join_request(&bob.cid(), "Bob".to_string(), &inv, None);
    assert!(matches!(r, Err(CiviumError::Network(_))));
}

#[test]
fn expired_invitation_is_refused_at_join() {
    let (admin, mut net) = admin_network();
    let mut inv = Invitation::create(net.keypair(), net.name(), &admin.cid(), 1).unwrap();
    inv.payload.expires_at = 1;
    let bob = CiviumKeypair::generate().unwrap();
    let r = net.submit_join_request(&bob.cid(), "Bob".to_string(), &inv, None);
    assert!(matches!(r, Err(CiviumError::Invitation(_))));
}

#[test]
fn admit_with_taken_name_drops_the_request() {
    let (admin, mut net) = admin_network();
    let inv = Invitation::create(net.keypair(), net.name(), &admin.cid(), 0).unwrap();
    let inv2 = Invitation::create(net.keypair(), net.name(), &admin.cid(), 0).unwrap();
    let bob = CiviumKeypair::generate().unwrap();
    let carol = CiviumKeypair::generate().unwrap();
    net.submit_join_request(&bob.cid(), "Bob".to_string(), &inv, None).unwrap();
    net.submit_join_request(&carol.cid(), "Bob".to_string(), &inv2, None).unwrap();
    net.admit_member(bob.cid().short(), TrustCircle::Annuaire, MemberRole::Member).unwrap();
    let r = net.admit_member(carol.cid().short(), TrustCircle::Annuaire, MemberRole::Member);
    assert!(matches!(r, Err(CiviumError::Network(_))));
    assert!(net.data.pending.is_empty());
    assert_eq!(net.data.members.len(), 2);
}

#[test]
fn admit_unknown_member_fails() {
    let (_, mut net) = admin_network();
    assert!(matches!(net.admit_member("civ1nobody", TrustCircle::Annuaire, MemberRole::Member), Err(CiviumError::Network(_))));
}

#[test]
fn reject_removes_pending() {
    let (admin, mut net) = admin_network();
    let inv = Invitation::create(net.keypair(), net.name(), &admin.cid(), 0).unwrap();
    let bob = CiviumKeypair::generate().unwrap();
    net.submit_join_request(&bob.cid(), "Bob".to_string(), &inv, None).unwrap();
    net.reject(bob.cid().short()).unwrap();
    assert!(net.data.pending.is_empty());
    assert!(matches!(net.reject(bob.cid().short()), Err(CiviumError::Network(_))));
}

#[test]
fn role_minor_and_removal() {
    let (admin, mut net) = admin_network();
    let short = admin.cid().short().to_string();
    net.set_member_role(&short, MemberRole::Member).unwrap();
    assert_eq!(net.data.members[0].role, MemberRole::Member);
    net.data.set_member_minor(&short, true).unwrap();
    assert!(net.data.members[0].is_minor);
    net.remove_member(&short).unwrap();
    assert!(net.data.members.is_empty());
    assert!(matches!(net.remove_member(&short), Err(CiviumError::Network(_))));
    assert!(matches!(net.set_member_role(&short, MemberRole::Admin), Err(CiviumError::Network(_))));
}

#[test]
fn address_display() {
    let a = NetworkAddress { member_short: "civ1aaaa".to_string(), network_short: "civ1bbbb".to_string() };
    assert_eq!(a.to_string(), "civ1aaaa@civ1bbbb");
    let (admin, net) = admin_network();
    let addr = net.address_for(&admin.cid());
    assert_eq!(addr.to_string(), format!("{}@{}", admin.cid().short(), net.cid_short()));
}

#[test]
fn accept_join_admits_as_connaissance_member() {
    let (admin, mut net) = admin_network();
    let inv = Invitation::create(net.keypair(), net.name(), &admin.cid(), 0).unwrap();
    let bob = CiviumKeypair::generate().unwrap();
    let m = net.accept_join_at(&bob.cid(), "Bob".to_string(), &inv, 1_000).unwrap();
    assert_eq!(m.circle, TrustCircle::Connaissance);
    assert_eq!(m.role, MemberRole::Member);
    assert_eq!(m.joined_at, 1_000);
    assert_eq!(net.data.members.len(), 2);
}

#[test]
fn trust_circle_and_role_parsing() {
    assert_eq!(TrustCircle::from_u8(2), Some(TrustCircle::Confiance));
    assert_eq!(TrustCircle::from_u8(3), None);
    assert_eq!(TrustCircle::from_str("annuaire"), Ok(TrustCircle::Annuaire));
    assert_eq!(TrustCircle::from_str("1"), Ok(TrustCircle::Connaissance));
    assert!(TrustCircle::from_str("4").is_err());
    assert_eq!(TrustCircle::Confiance.label(), "Confiance (2)");
    assert_eq!(TrustCircle::Annuaire.to_string(), "Annuaire (0)");
    assert_eq!(MemberRole::from_str("admin"), Ok(MemberRole::Admin));
    assert!(MemberRole::from_str("Admin").is_err());
    assert_eq!(MemberRole::Member.to_string(), "member");
}

#[test]
fn reused_invitation_is_refused() {
    let (admin, mut net) = admin_network();
    let inv = Invitation::create(net.keypair(), net.name(), &admin.cid(), 0).unwrap();
    let bob = CiviumKeypair::generate().unwrap();
    let carol = CiviumKeypair::generate().unwrap();
    net.submit_join_request(&bob.cid(), "Bob".to_string(), &inv, None).unwrap();
    let before = net.data.pending.len();
    let r = net.submit_join_request(&carol.cid(), "Carol".to_string(), &inv, None);
    assert!(matches!(r, Err(CiviumError::Network(_))));
    assert_eq!(net.data.pending.len(), before);
}

#[test]
fn invitation_without_expiry_always_links() {
    let (admin, net) = admin_network();
    let link = net.create_invitation(&admin.cid(), 0).unwrap();
    assert!(link.starts_with("civium-invite:"));
    assert!(net.create_invitation(&admin.cid(), u64::MAX / 3600 + 1).is_err());
}
