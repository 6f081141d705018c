use lorecore::order::sort_records;
use lorecore::types::{EntityRelationship, HistoryItem};

fn rel(parent: &str, child: &str, role: Option<&str>) -> EntityRelationship {
    EntityRelationship::new(
        parent.to_string(),
        child.to_string(),
        role.map(|r| r.to_string()),
    )
}

#[test]
fn identical_batches_sort_identically() {
    // the same records, duplicates included, in two different arrival orders
    let first = vec![
        rel("testparent1", "testchild1", Some("testrole1")),
        rel("testparent2", "testchild2", None),
        rel("testparent1", "testchild1", Some("testrole2")),
        rel("testparent1", "testchild2", None),
        rel("testparent1", "testchild1", Some("testrole1")),
    ];
    let second = vec![
        rel("testparent1", "testchild1", Some("testrole1")),
        rel("testparent1", "testchild1", Some("testrole1")),
        rel("testparent1", "testchild1", Some("testrole2")),
        rel("testparent2", "testchild2", None),
        rel("testparent1", "testchild2", None),
    ];
    let sorted_first = sort_records(first);
    let sorted_second = sort_records(second);
    assert!(sorted_first == sorted_second);
}

#[test]
fn relationships_sort_lexicographically() {
    let batch = vec![
        rel("b", "a", None),
        rel("a", "b", Some("guardian")),
        rel("a", "a", None),
        rel("a", "b", None),
    ];
    let sorted = sort_records(batch);
    let expected = vec![
        rel("a", "a", None),
        rel("a", "b", None),
        rel("a", "b", Some("guardian")),
        rel("b", "a", None),
    ];
    assert!(sorted == expected);
}

#[test]
fn history_items_sort_by_fields_in_declaration_order() {
    let item = |label: &str, year: i32, day: Option<i32>| {
        HistoryItem::new(
            label.to_string(),
            "content".to_string(),
            false,
            false,
            year,
            day,
            None,
        )
    };
    let batch = vec![
        item("b", 1, None),
        item("a", 2, None),
        item("a", 1, Some(3)),
        item("a", 1, None),
    ];
    let sorted = sort_records(batch);
    let expected = vec![
        item("a", 1, None),
        item("a", 1, Some(3)),
        item("a", 2, None),
        item("b", 1, None),
    ];
    assert!(sorted == expected);
}

#[test]
fn strings_sort_by_code_point() {
    let batch = vec![
        "b".to_string(),
        "".to_string(),
        "ab".to_string(),
        "a".to_string(),
        "a".to_string(),
    ];
    let sorted = sort_records(batch);
    let expected = vec![
        "".to_string(),
        "a".to_string(),
        "a".to_string(),
        "ab".to_string(),
        "b".to_string(),
    ];
    assert_eq!(sorted, expected);
}
