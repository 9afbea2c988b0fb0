use civium::document::Document;

fn doc(id: &str, clock: u64) -> Document {
    let mut d = Document::new_at(id.to_string(), "net".to_string(), "t".to_string(), "n".to_string(), "c".to_string(), "civ1a".to_string(), 10);
    d.lamport_clock = clock;
    d
}

#[test]
fn new_document_starts_at_one() {
    let d = Document::new("net".to_string(), "Titre".to_string(), "n".to_string(), "c".to_string(), "civ1a".to_string());
    assert_eq!(d.lamport_clock, 1);
    assert_eq!(d.version, 1);
    assert_eq!(d.created_by, d.last_edited_by);
    assert_eq!(d.created_at, d.updated_at);
    assert_eq!(d.id.len(), 36);
}

#[test]
fn higher_clock_wins() {
    assert_eq!(doc("b", 3).merge(doc("a", 2)).id, "b");
    assert_eq!(doc("a", 2).merge(doc("b", 3)).id, "b");
}

#[test]
fn equal_clock_smaller_id_wins() {
    assert_eq!(doc("b", 2).merge(doc("a", 2)).id, "a");
    assert_eq!(doc("a", 2).merge(doc("b", 2)).id, "a");
    assert_eq!(doc("ab", 2).merge(doc("a", 2)).id, "a");
    assert_eq!(doc("é", 2).merge(doc("z", 2)).id, "z");
}

#[test]
fn merge_is_idempotent_commutative_associative() {
    let (a, b, c) = (doc("a", 1), doc("b", 5), doc("c", 5));
    assert_eq!(doc("a", 1).merge(doc("a", 1)).id, "a");
    assert_eq!(a.merge(doc("b", 5)).id, doc("b", 5).merge(doc("a", 1)).id);
    let left = doc("a", 1).merge(doc("b", 5)).merge(doc("c", 5)).id;
    let right = doc("a", 1).merge(b.merge(c)).id;
    assert_eq!(left, right);
}

#[test]
fn update_advances_the_clock() {
    let d = doc("a", 4);
    let u = d.update_at("t2".to_string(), "n2".to_string(), "c2".to_string(), "civ1b".to_string(), 9, 20);
    assert_eq!(u.lamport_clock, 10);
    assert_eq!(u.version, 2);
    assert_eq!(u.last_edited_by, "civ1b");
    assert_eq!(u.created_by, "civ1a");
    assert_eq!(u.updated_at, 20);
    let v = d.update("t3".to_string(), "n".to_string(), "c".to_string(), "x".to_string(), 1);
    assert_eq!(v.lamport_clock, 5);
    assert_eq!(v.created_by, "civ1a");
    assert_eq!(v.created_at, 10);
    assert_eq!(v.merge(doc("a", 4)).title, "t3");
}
