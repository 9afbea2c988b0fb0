use civium::directory::{DirectoryEntry, EntryKind, RrmEntry, TrustedRrm, check_rrm_warnings, search_directory_entries, search_rrm_entries};

fn entry(name: &str, tags: &[&str]) -> DirectoryEntry {
    DirectoryEntry::new_at(
        format!("id-{name}"),
        "civ1dir".to_string(),
        EntryKind::Network,
        "civ1subj".to_string(),
        name.to_string(),
        "Jardins partagés".to_string(),
        None,
        "civ1pub".to_string(),
        tags.iter().map(|t| t.to_string()).collect(),
        5,
    )
}

fn report(rrm: &str, net: &str) -> RrmEntry {
    RrmEntry::new_at(format!("{rrm}-{net}"), rrm.to_string(), net.to_string(), "Arnaque".to_string(), "Phishing massif".to_string(), None, "civ1r".to_string(), 9)
}

#[test]
fn entry_matching_is_case_insensitive() {
    let e = entry("Quartier Nord", &["Écologie"]);
    assert!(e.matches("quartier"));
    assert!(e.matches("JARDINS"));
    assert!(e.matches("écologie"));
    assert!(e.matches("SUBJ"));
    assert!(e.matches("civ1sub"));
    assert!(!e.matches("sud"));
}

#[test]
fn directory_search_keeps_order() {
    let r = search_directory_entries(vec![entry("Alpha", &[]), entry("Beta", &["alpha"]), entry("Gamma", &[])], "ALPHA");
    let names: Vec<&str> = r.iter().map(|e| e.subject_name.as_str()).collect();
    assert_eq!(names, vec!["Alpha", "Beta"]);
}

#[test]
fn rrm_matching_and_search() {
    let r = report("civ1rrm", "civ1bad");
    assert!(r.matches("arnaque"));
    assert!(r.matches("phishing"));
    assert!(r.matches("BAD"));
    assert!(!r.matches("good"));
    assert_eq!(search_rrm_entries(vec![report("a", "x"), report("b", "y")], "zzz").len(), 0);
}

#[test]
fn warnings_take_first_report_per_registry() {
    let t1 = TrustedRrm::new_at("t1".to_string(), "civ1net".to_string(), "rrm1".to_string(), "R1".to_string(), "a".to_string(), 1);
    let t2 = TrustedRrm::new_at("t2".to_string(), "civ1net".to_string(), "rrm2".to_string(), "R2".to_string(), "a".to_string(), 1);
    let reports = vec![vec![report("rrm1", "other"), report("rrm1", "peer"), report("rrm1", "peer")], vec![report("rrm2", "other")]];
    let w = check_rrm_warnings(&vec![t1, t2], &reports, "peer");
    assert_eq!(w.len(), 1);
    assert_eq!(w[0].0.rrm_name, "R1");
    assert_eq!(w[0].1.id, "rrm1-peer");
}

#[test]
fn entry_kind_parsing() {
    assert_eq!(EntryKind::from_str("member"), Ok(EntryKind::Member));
    assert!(EntryKind::from_str("Member").is_err());
    assert_eq!(EntryKind::Network.to_string(), "network");
}

#[test]
fn entry_is_found_by_its_mixed_case_cid() {
    let e = DirectoryEntry::new_at(
        "id".to_string(),
        "civ1dir".to_string(),
        EntryKind::Network,
        "civ1AbCd".to_string(),
        "Nom".to_string(),
        "desc".to_string(),
        None,
        "civ1pub".to_string(),
        Vec::new(),
        5,
    );
    assert!(e.matches("civ1AbCd"));
    assert!(!e.matches("civ1abcd"));
    let r = RrmEntry::new_at("x".to_string(), "rrm".to_string(), "civ1XyZ".to_string(), "N".to_string(), "r".to_string(), None, "b".to_string(), 1);
    assert!(!r.matches("civ1XyZ"));
    assert!(!r.matches("xyz"));
    assert!(r.matches(""));
}
