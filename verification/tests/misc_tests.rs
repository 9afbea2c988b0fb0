use civium::activity::{ActivityEvent, ActivityKind, AgendaEvent, Notification};
use civium::bootstrap::root_configured;
use civium::cli::{fmt_ts, identity_path, mailbox_path, network_path, resolve_network_prefix};
use civium::error::CiviumError;
use civium::identity::CiviumKeypair;
use civium::minor::{MinorRestrictions, check_minor_interaction};
use civium::mobile::proposal_to_info;
use civium::governance::Proposal;
use civium::node::{CiviumRequest, CiviumResponse, InboundRoute, NodeConfig, PeerRateLimiter, RequestClass, route_inbound, sync_data};
use civium::member::{MemberRecord, MemberRole, TrustCircle};
use civium::pairing::{PairedDevice, complete_pairing, complete_pairing_at, init_pairing, init_pairing_with};
use civium::plugin::{CilAction, CilGate, PluginManifest, PluginPermission, PluginRecord, PluginState, check_cil, cil_gate, preinstalled_plugins, read_str, required_permission, response_code, unpack_response};
use civium::rcc::{FraudAlert, RccPayload, verify_rcc_alert};
use civium::revocation::RevocationRecord;
use civium::sdk::{ClientConfig, IdentityInfo};
use civium::text::{comma_items, index_with_prefix};

#[test]
fn pairing_round_trip() {
    let p = init_pairing("5Kd3NBUAdUnhyzenEwVLy9pBKxSwXvE9FMPyR4UKZvpe6E3AgLr").unwrap();
    assert!(p.link.starts_with("civium://pair/"));
    assert_eq!(complete_pairing(&p.link).unwrap(), "5Kd3NBUAdUnhyzenEwVLy9pBKxSwXvE9FMPyR4UKZvpe6E3AgLr");
}

#[test]
fn pairing_expires_after_ten_minutes() {
    let p = init_pairing_with("abc", &[1u8; 16], &[2u8; 12], 1_000).unwrap();
    assert_eq!(p.expires_at, 1_600);
    let body = &p.link["civium://pair/".len()..];
    let (payload_text, exp_text) = body.split_once("?exp=").unwrap();
    let payload = bs58::decode(payload_text).into_vec().unwrap();
    assert_eq!(&payload[..16], &[1u8; 16]);
    assert_eq!(&payload[16..28], &[2u8; 12]);
    assert_eq!(payload.len(), 16 + 12 + 3 + 16);
    assert_eq!(bs58::decode(exp_text).into_vec().unwrap(), 1_600u64.to_be_bytes().to_vec());
    assert_eq!(complete_pairing_at(&p.link, 1_000).unwrap(), "abc");
    assert_eq!(complete_pairing_at(&p.link, 1_600).unwrap(), "abc");
    assert!(complete_pairing_at(&p.link, 1_601).is_err());
}

#[test]
fn pairing_link_without_expiry_is_accepted() {
    let p = init_pairing_with("abc", &[1u8; 16], &[2u8; 12], 0).unwrap();
    let plain = p.link.split_once("?exp=").unwrap().0.to_string();
    assert_eq!(complete_pairing_at(&plain, u64::MAX).unwrap(), "abc");
    assert_eq!(complete_pairing(&plain).unwrap(), "abc");
    assert!(complete_pairing_at(&format!("{plain}?exp=zz0"), 0).is_err());
    assert!(complete_pairing_at(&format!("{plain}?x"), 0).is_err());
}

#[test]
fn pairing_errors() {
    assert!(complete_pairing("https://x").is_err());
    assert!(complete_pairing("civium://pair/0OIl").is_err());
    assert!(complete_pairing(&format!("civium://pair/{}", bs58::encode([1u8; 44]).into_string())).is_err());
    let empty = init_pairing_with("", &[1u8; 16], &[2u8; 12], 0).unwrap();
    assert!(complete_pairing_at(&empty.link, 0).is_err());
    let p = init_pairing_with("abc", &[1u8; 16], &[2u8; 12], 0).unwrap();
    assert!(complete_pairing(&p.link).is_err());
    let (text, exp) = p.link["civium://pair/".len()..].split_once("?exp=").unwrap();
    let mut payload = bs58::decode(text).into_vec().unwrap();
    payload[0] ^= 1;
    assert!(complete_pairing_at(&format!("civium://pair/{}?exp={}", bs58::encode(&payload).into_string(), exp), 0).is_err());
}

#[test]
fn paired_device_revocation() {
    let mut d = PairedDevice::new("téléphone".to_string());
    assert!(!d.revoked);
    d.revoke_at(42);
    assert!(d.revoked);
    assert_eq!(d.revoked_at, Some(42));
}

#[test]
fn rcc_canonical_texts() {
    let a = FraudAlert { alert_type: "fraud".to_string(), description: "d".to_string(), network_cids: vec!["c1".to_string(), "c2".to_string()], emitted_at: 7, emitted_by: "root".to_string() };
    assert_eq!(a.canonical_bytes(), b"fraud|d|c1,c2|7".to_vec());
    let p = RccPayload::new("n".to_string(), "N".to_string(), "a".to_string(), "k".to_string(), "e@x".to_string(), 3);
    assert_eq!(p.canonical_bytes(), b"n|N|a|k|e@x|3".to_vec());
    match verify_rcc_alert(a, "sig") {
        Err(CiviumError::Crypto(m)) => assert_eq!(m, "RCC public key not configured"),
        _ => panic!("expected a Crypto error"),
    }
}

#[test]
fn revocation_verifies_only_when_genuine() {
    let k = CiviumKeypair::generate().unwrap();
    let payload = RevocationRecord::signing_payload(k.cid().full(), 99);
    assert_eq!(payload, format!("civium-revoke:{}:99", k.cid().full()).into_bytes());
    let sig = bs58::encode(k.sign(&payload)).into_string();
    let mut r = RevocationRecord { cid_full: k.cid().full().to_string(), pub_key_b58: k.pub_key_b58(), reason: "perdu".to_string(), revoked_at: 99, signature_b58: sig };
    assert!(r.verify());
    r.revoked_at = 100;
    assert!(!r.verify());
    r.revoked_at = 99;
    r.cid_full = CiviumKeypair::generate().unwrap().cid().full().to_string();
    assert!(!r.verify());
}

fn manifest(perms: Vec<PluginPermission>, system: bool) -> PluginManifest {
    PluginManifest { id: "p".to_string(), name: "P".to_string(), version: "1".to_string(), description: String::new(), author: "me".to_string(), permissions: perms, is_system: system }
}

#[test]
fn plugins_and_integration_checks() {
    let list = preinstalled_plugins();
    assert_eq!(list.len(), 5);
    assert_eq!(list[0].0.id, "civium.gouvernance");
    assert!(list.iter().all(|(_, on)| *on));
    assert_eq!(PluginRecord::new(manifest(vec![], true)).state, PluginState::Enabled);
    assert_eq!(PluginRecord::new(manifest(vec![], false)).state, PluginState::Disabled);
    let rec = PluginRecord::new_enabled(manifest(vec![PluginPermission::ReadMembers], false));
    assert!(check_cil(&rec, &CilAction::QueryMembers).is_ok());
    assert!(check_cil(&rec, &CilAction::PostMessage).is_err());
    let off = PluginRecord::new(manifest(vec![PluginPermission::ReadMembers], false));
    assert!(check_cil(&off, &CilAction::QueryMembers).is_err());
    assert_eq!(required_permission("cast_vote"), Some(PluginPermission::WriteGovernance));
    assert_eq!(required_permission("drop_tables"), None);
    assert_eq!(PluginPermission::ReadAgenda.to_string(), "read:agenda");
    assert_eq!(PluginState::from_str("enabled"), Ok(PluginState::Enabled));
}

#[test]
fn sandbox_gate_codes() {
    let mut mem = b"query_members{}post_message".to_vec();
    mem.push(0xff);
    let perms = vec![PluginPermission::ReadMembers];
    match cil_gate(&mem, 0, 13, 13, 2, &perms) {
        CilGate::Allowed { action, param } => {
            assert_eq!(action, "query_members");
            assert_eq!(param, "{}");
        }
        _ => panic!("expected allowed"),
    }
    assert!(matches!(cil_gate(&mem, 15, 12, 13, 2, &perms), CilGate::Refused(-10)));
    assert!(matches!(cil_gate(&mem, 100, 1, 13, 2, &perms), CilGate::Refused(-2)));
    assert!(matches!(cil_gate(&mem, 0, 13, 27, 1, &perms), CilGate::Refused(-3)));
    assert_eq!(read_str(&mem, 13, 2), Ok("{}".to_string()));
    assert!(read_str(&mem, 27, 1).is_err());
    assert_eq!(response_code(10, 9), -20);
    assert_eq!(response_code(9, 9), 9);
    assert_eq!(unpack_response((5i64 << 32) | 7), (5, 7));
    assert_eq!(unpack_response(-1), (0xFFFF_FFFF, 0xFFFF_FFFF));
}

#[test]
fn node_rate_limit() {
    let mut rl = PeerRateLimiter::new();
    for _ in 0..30 {
        assert!(rl.check("peer", 10));
    }
    assert!(!rl.check("peer", 10));
    assert!(rl.check("other", 10));
    assert!(rl.check("peer", 11));
    for _ in 0..29 {
        assert!(rl.check("peer", 11));
    }
    assert!(!rl.check("peer", 11));
    assert!(rl.check("peer", 400));
}

#[test]
fn node_routing() {
    assert_eq!(route_inbound(RequestClass::Other, false, true, 0), InboundRoute::RateLimited);
    assert_eq!(route_inbound(RequestClass::Alert, true, false, 999), InboundRoute::VerifyAlert);
    assert_eq!(route_inbound(RequestClass::Connect, true, true, 999), InboundRoute::AutoAccept);
    assert_eq!(route_inbound(RequestClass::Connect, true, false, 500), InboundRoute::Busy);
    assert_eq!(route_inbound(RequestClass::Other, true, false, 499), InboundRoute::Forward);
    assert_eq!(CiviumRequest::Ping.class(), RequestClass::Other);
    let cfg = NodeConfig::default_config();
    assert_eq!(cfg.listen_tcp, "/ip4/0.0.0.0/tcp/0");
    assert!(!cfg.auto_accept_connections);
}

fn member(joined: u64) -> MemberRecord {
    MemberRecord { cid_short: "s".to_string(), cid_full: "f".to_string(), display_name: format!("m{joined}"), circle: TrustCircle::Annuaire, role: MemberRole::Member, joined_at: joined, is_minor: false, pub_key_b58: None }
}

#[test]
fn sync_keeps_recent_items() {
    match sync_data("net".to_string(), vec![member(1), member(5), member(9)], Vec::new(), 5) {
        CiviumResponse::SyncData { members, messages, .. } => {
            assert_eq!(members.len(), 1);
            assert_eq!(members[0].joined_at, 9);
            assert!(messages.is_empty());
        }
        _ => panic!("expected sync data"),
    }
}

#[test]
fn timestamps_and_prefixes() {
    assert_eq!(fmt_ts(0), "1970-01-01 00:00");
    assert_eq!(fmt_ts(86_400 * 365 + 3_600 * 5 + 60 * 7), "1971-01-01 05:07");
    assert_eq!(fmt_ts(86_400 * 364), "1970-12-05 00:00");
    let cids = vec!["civ1abc".to_string(), "civ1abd".to_string(), "civ1x".to_string()];
    assert_eq!(resolve_network_prefix(&cids, "civ1x").unwrap(), "civ1x");
    assert!(matches!(resolve_network_prefix(&cids, "civ1ab"), Err(CiviumError::Network(_))));
    assert!(matches!(resolve_network_prefix(&cids, "zz"), Err(CiviumError::Network(_))));
    assert_eq!(index_with_prefix(&cids, "civ1abd"), Some(1));
    assert_eq!(comma_items(" a , b,"), vec!["a".to_string(), "b".to_string(), String::new()]);
    assert!(comma_items("").is_empty());
}

#[test]
fn store_paths() {
    let base = std::path::Path::new("/data");
    assert_eq!(identity_path("/data"), base.join("identity.json").to_string_lossy());
    assert_eq!(network_path("/data", "civ1a"), base.join("networks").join("civ1a").join("network.json").to_string_lossy());
    assert_eq!(mailbox_path("/data", "civ1a"), base.join("networks").join("civ1a").join("mailbox.json").to_string_lossy());
}

#[test]
fn minor_restrictions() {
    let r = MinorRestrictions::new("n".to_string(), "m".to_string(), 7, vec!["ami".to_string()], "g".to_string());
    assert_eq!(r.max_circle, 2);
    let r = MinorRestrictions::new("n".to_string(), "m".to_string(), 0, vec!["ami".to_string()], "g".to_string());
    assert!(r.allows("x", 0));
    assert!(!r.allows("x", 1));
    assert!(r.allows("ami", 2));
}

#[test]
fn activity_records() {
    let e = ActivityEvent::new("n".to_string(), ActivityKind::VoteCast, "a".to_string(), "s".to_string());
    assert_eq!(e.kind.to_string(), "vote_cast");
    let n = Notification::new("n".to_string(), e.id.clone(), "t".to_string());
    assert!(!n.read);
    let ev = AgendaEvent::new("n".to_string(), "Réunion".to_string(), String::new(), 10, Some(20), None, "a".to_string());
    assert!(ev.recurrence.is_none());
    assert_eq!(ev.end_at, Some(20));
}

#[test]
fn errors_and_records() {
    assert_eq!(CiviumError::Crypto("x".to_string()).to_string(), "crypto error: x");
    assert_eq!(CiviumError::Identity("y".to_string()).to_string(), "identity error: y");
    assert!(!root_configured());
    let p = Proposal::new("n".to_string(), "T".to_string(), "D".to_string(), vec!["a".to_string(), "b".to_string()], "c".to_string(), 1, 2, 0);
    let info = proposal_to_info(p);
    assert_eq!(info.status, "open");
    assert_eq!(info.options.len(), 2);
    let cfg = ClientConfig::builder().data_dir("/tmp/civium").build();
    assert_eq!(cfg.data_dir(), "/tmp/civium");
    assert!(ClientConfig::builder().try_build().is_none());
    let k = CiviumKeypair::generate().unwrap();
    let id = IdentityInfo::from_keypair(&k);
    assert_eq!(id.cid_full, k.cid().short());
}

#[test]
fn minor_interactions_are_checked() {
    let r = MinorRestrictions::new("n".to_string(), "m".to_string(), 0, vec!["ami".to_string()], "g".to_string());
    let all = vec![r];
    assert!(check_minor_interaction(&all, "n", "m", "x", 0).is_ok());
    assert!(matches!(check_minor_interaction(&all, "n", "m", "x", 1), Err(CiviumError::Network(_))));
    assert!(check_minor_interaction(&all, "n", "m", "ami", 2).is_ok());
    assert!(check_minor_interaction(&all, "n", "adulte", "x", 2).is_ok());
    assert!(check_minor_interaction(&all, "autre", "m", "x", 2).is_ok());
}

#[test]
fn short_cid_has_twelve_characters() {
    let k = CiviumKeypair::generate().unwrap();
    let c = k.cid();
    assert_eq!(c.short().chars().count(), 12);
    assert_eq!(c.short(), &c.full()[..12]);
}

#[test]
fn unicode_white_space_is_trimmed() {
    assert_eq!(comma_items("\u{3000}a\u{85}, b\u{2028}"), vec!["a".to_string(), "b".to_string()]);
    assert_eq!(comma_items("\u{200b}a"), vec!["\u{200b}a".to_string()]);
}
