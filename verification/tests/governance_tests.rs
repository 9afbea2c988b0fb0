use civium::error::CiviumError;
use civium::governance::{
    AdminAction, AdminActionKind, AdminActionStatus, ContestOutcome, Proposal, ProposalStatus, Vote, VoteDelegation, add_contest,
    check_vote, closes_at, contest_action, count_votes, delegate_vote, parse_options, plurality_winner, quorum_reached,
    record_delegation, record_vote, revoke_delegation, vote_winner,
};
use civium::identity::CiviumKeypair;
use civium::member::{MemberRecord, MemberRole, TrustCircle};

fn admitted(name: &str) -> AdminActionKind {
    AdminActionKind::MemberAdmitted { member_cid_short: "civ1bob".to_string(), display_name: name.to_string() }
}

fn action(window: u64) -> AdminAction {
    AdminAction::new("civ1net".to_string(), admitted("Bob"), "civ1adm".to_string(), 1_000, window)
}

#[test]
fn action_defaults_and_id() {
    let a = action(0);
    assert_eq!(a.contest_window_secs, 86_400);
    assert_eq!(a.status, AdminActionStatus::Active);
    assert!(a.contests.is_empty());
    let raw = "civ1net:civ1adm:1000:Admission de Bob (civ1bob)";
    let expected = bs58::encode(blake3::hash(raw.as_bytes()).as_bytes()).into_string()[..12].to_string();
    assert_eq!(a.id, expected);
    assert_eq!(action(60).contest_window_secs, 60);
}

#[test]
fn action_kind_texts() {
    assert_eq!(admitted("Bob").to_string(), "Admission de Bob (civ1bob)");
    assert_eq!(AdminActionKind::MemberRejected { member_cid_short: "x".to_string() }.to_string(), "Rejet de x");
    assert_eq!(AdminActionKind::MemberBanned { member_cid_short: "y".to_string() }.to_string(), "Bannissement de y");
    assert_eq!(AdminActionStatus::Suspended { proposal_id: "p".to_string() }.to_string(), "suspended");
}

#[test]
fn contest_window_bounds() {
    let a = action(60);
    assert!(a.is_window_open(1_059));
    assert!(!a.is_window_open(1_060));
}

#[test]
fn majority_is_strict() {
    let mut a = action(0);
    assert!(!a.majority_contested(0));
    a.contests = vec!["a".to_string(), "b".to_string()];
    assert!(!a.majority_contested(4));
    assert!(a.majority_contested(3));
    a.contests.push("c".to_string());
    assert!(a.majority_contested(5));
}

#[test]
fn repeated_contest_counts_once() {
    let mut a = action(0);
    assert!(!add_contest(&mut a, "a", 3));
    assert!(!add_contest(&mut a, "a", 3));
    assert_eq!(a.contests.len(), 1);
    assert!(add_contest(&mut a, "b", 3));
    assert_eq!(a.contests, vec!["a".to_string(), "b".to_string()]);
}

#[test]
fn contest_flow_suspends_on_majority() {
    let mut a = action(0);
    match contest_action(&mut a, "m1", 3, "civ1net", 2_000) {
        ContestOutcome::Recorded => {}
        _ => panic!("expected Recorded"),
    }
    match contest_action(&mut a, "m2", 3, "civ1net", 2_001) {
        ContestOutcome::Suspended(p) => {
            assert_eq!(p.title, "Garde-fou : Admission de Bob (civ1bob)");
            assert_eq!(p.options, vec!["Maintenir l'action".to_string(), "Annuler l'action".to_string()]);
            assert_eq!(p.closes_at, 2_001 + 72 * 3600);
            assert_eq!(p.quorum_percent, 0);
            assert_eq!(p.created_by, "système");
            assert_eq!(a.status, AdminActionStatus::Suspended { proposal_id: p.id.clone() });
        }
        _ => panic!("expected Suspended"),
    }
    match contest_action(&mut a, "m3", 3, "civ1net", 2_002) {
        ContestOutcome::NotContestable => {}
        _ => panic!("expected NotContestable"),
    }
}

#[test]
fn contest_after_window_confirms() {
    let mut a = action(60);
    match contest_action(&mut a, "m1", 3, "civ1net", 1_060) {
        ContestOutcome::WindowClosed => {}
        _ => panic!("expected WindowClosed"),
    }
    assert_eq!(a.status, AdminActionStatus::Confirmed);
    assert!(a.contests.is_empty());
}

fn proposal(closes: u64) -> Proposal {
    Proposal::new("civ1net".to_string(), "Budget".to_string(), "d".to_string(), vec!["oui".to_string(), "non".to_string()], "civ1a".to_string(), 100, closes, 50)
}

#[test]
fn proposal_id_and_expiry() {
    let p = proposal(200);
    let expected = bs58::encode(blake3::hash(b"civ1net:Budget:100").as_bytes()).into_string()[..12].to_string();
    assert_eq!(p.id, expected);
    assert_eq!(p.status, ProposalStatus::Open);
    assert!(!p.is_expired(199));
    assert!(p.is_expired(200));
    assert!(!proposal(0).is_expired(u64::MAX));
    assert_eq!(ProposalStatus::Cancelled.to_string(), "cancelled");
}

fn vote(choice: usize) -> Vote {
    Vote { proposal_id: "p".to_string(), voter_cid_short: "v".to_string(), choice_index: choice, cast_at: 0 }
}

#[test]
fn counting_and_winner() {
    let votes = vec![vote(0), vote(1), vote(1), vote(7)];
    let counts = count_votes(2, &votes);
    assert_eq!(counts, vec![1, 2]);
    assert_eq!(plurality_winner(&counts), Some(1));
    assert_eq!(plurality_winner(&vec![2, 2]), None);
    assert_eq!(plurality_winner(&vec![]), None);
    assert_eq!(vote_winner(false, 4, &counts), None);
    assert_eq!(vote_winner(true, 0, &vec![0, 0]), None);
    assert_eq!(vote_winner(true, 4, &counts), Some(1));
}

#[test]
fn options_parsing() {
    assert_eq!(parse_options(" oui , non,, peut-être ").unwrap(), vec!["oui".to_string(), "non".to_string(), "peut-être".to_string()]);
    assert!(matches!(parse_options("seul, "), Err(CiviumError::Network(_))));
}

#[test]
fn closing_time() {
    assert_eq!(closes_at(10, 0), Some(0));
    assert_eq!(closes_at(10, 2), Some(7_210));
    assert_eq!(closes_at(u64::MAX - 10, 1), None);
}

#[test]
fn vote_checks() {
    let p = proposal(200);
    assert!(check_vote(&p, 1, 150).is_ok());
    assert!(matches!(check_vote(&p, 2, 150), Err(CiviumError::Network(_))));
    assert!(matches!(check_vote(&p, 0, 200), Err(CiviumError::Network(_))));
    let mut closed = proposal(0);
    closed.status = ProposalStatus::Closed;
    assert!(matches!(check_vote(&closed, 0, 1), Err(CiviumError::Network(_))));
}

#[test]
fn majority_is_reported_only_when_just_reached() {
    let mut a = action(0);
    assert!(!add_contest(&mut a, "a", 3));
    assert!(add_contest(&mut a, "b", 3));
    assert!(!add_contest(&mut a, "c", 3));
    assert_eq!(a.contests.len(), 3);
}

fn ballot(proposal: &str, voter: &str, choice: usize) -> Vote {
    Vote { proposal_id: proposal.to_string(), voter_cid_short: voter.to_string(), choice_index: choice, cast_at: 1 }
}

#[test]
fn a_second_vote_replaces_the_first() {
    let mut votes = vec![ballot("p1", "a", 0), ballot("p1", "b", 1), ballot("p2", "a", 1)];
    record_vote(&mut votes, ballot("p1", "a", 1));
    let seen: Vec<(String, String, usize)> = votes.iter().map(|v| (v.proposal_id.clone(), v.voter_cid_short.clone(), v.choice_index)).collect();
    assert_eq!(
        seen,
        vec![
            ("p1".to_string(), "b".to_string(), 1),
            ("p2".to_string(), "a".to_string(), 1),
            ("p1".to_string(), "a".to_string(), 1),
        ]
    );
}

fn member_of(k: &CiviumKeypair, name: &str) -> MemberRecord {
    let c = k.cid();
    MemberRecord {
        cid_short: c.short().to_string(),
        cid_full: c.full().to_string(),
        display_name: name.to_string(),
        circle: TrustCircle::Confiance,
        role: MemberRole::Member,
        joined_at: 0,
        is_minor: false,
        pub_key_b58: None,
    }
}

#[test]
fn delegation_rules() {
    let dan = CiviumKeypair::generate().unwrap();
    let sophie = CiviumKeypair::generate().unwrap();
    let outsider = CiviumKeypair::generate().unwrap();
    let members = vec![member_of(&dan, "Daniel"), member_of(&sophie, "Sophie")];
    let s_short = sophie.cid().short().to_string();
    let d = delegate_vote(&members, &dan.cid(), &s_short[..8], "civ1net", None, 42).unwrap();
    assert_eq!(d.delegate_cid_short, s_short);
    assert_eq!(d.delegator_cid_short, dan.cid().short());
    assert_eq!(d.created_at, 42);
    assert!(matches!(delegate_vote(&members, &outsider.cid(), &s_short, "civ1net", None, 42), Err(CiviumError::Network(_))));
    assert!(matches!(delegate_vote(&members, &dan.cid(), dan.cid().short(), "civ1net", None, 42), Err(CiviumError::Network(_))));
    assert!(matches!(delegate_vote(&members, &dan.cid(), "zzz", "civ1net", None, 42), Err(CiviumError::Network(_))));

    let mut all: Vec<VoteDelegation> = Vec::new();
    record_delegation(&mut all, d);
    let p = delegate_vote(&members, &dan.cid(), &s_short, "civ1net", Some("p1".to_string()), 43).unwrap();
    record_delegation(&mut all, p);
    let again = delegate_vote(&members, &dan.cid(), &s_short, "civ1net", None, 44).unwrap();
    record_delegation(&mut all, again);
    assert_eq!(all.len(), 2);
    assert_eq!(all[1].created_at, 44);
    revoke_delegation(&mut all, "civ1net", dan.cid().short(), None);
    assert_eq!(all.len(), 1);
    assert_eq!(all[0].proposal_id, Some("p1".to_string()));
    revoke_delegation(&mut all, "civ1net", dan.cid().short(), Some("p1"));
    assert!(all.is_empty());
}

#[test]
fn quorum_is_exact() {
    assert!(quorum_reached(0, 0, 0));
    assert!(!quorum_reached(5, 0, 10));
    assert!(quorum_reached(29, 100, 29));
    assert!(!quorum_reached(28, 100, 29));
    assert!(quorum_reached(1, 3, 33));
    assert!(!quorum_reached(1, 3, 34));
}
