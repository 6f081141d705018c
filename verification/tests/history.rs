use lorecore::api::{to_c_history_item, to_history_item, CHistoryItem};
use lorecore::foreign::ForeignText;
use lorecore::sql_types::{SqlEntityRelationship, SqlHistoryItem};
use lorecore::timestamp::current_timestamp;
use lorecore::types::{EntityRelationship, HistoryItem};

#[test]
fn history_day_zero_round_trips_as_absent() {
    // a foreign caller writes an item whose day field carries the zero sentinel
    let c_item = CHistoryItem {
        label: ForeignText::Text("battle of the ford".to_string()),
        content: ForeignText::Text("the ford was lost".to_string()),
        is_concerns_others: 0,
        is_secret: 0,
        year: 300,
        day: 0,
        originator: ForeignText::Text(String::new()),
    };
    let item = to_history_item(&c_item).unwrap();
    assert_eq!(item.day, None);

    // the item goes to the storage layer and comes back
    let row = item.to_sql_history_item();
    assert_eq!(row.day, 0);
    let read_back = row.to_history_item();
    assert_eq!(read_back.day, None);
    assert_eq!(read_back, item);

    // and is handed back out over the boundary with the same sentinel
    let c_out = to_c_history_item(&read_back).unwrap();
    assert_eq!(c_out.day, 0);
}

#[test]
fn history_row_round_trips_every_field() {
    let item = HistoryItem::new(
        "coronation".to_string(),
        "a long ceremony".to_string(),
        true,
        true,
        -13,
        Some(14),
        Some("the herald".to_string()),
    );
    let row = item.to_sql_history_item();
    let back = row.to_history_item();
    assert_eq!(back, item);
}

#[test]
fn history_row_negative_day_reads_as_absent() {
    let row = SqlHistoryItem {
        label: "l".to_string(),
        content: "c".to_string(),
        is_concerns_others: false,
        is_secret: false,
        year: 1,
        day: -5,
        originator: String::new(),
    };
    let item = row.to_history_item();
    assert_eq!(item.day, None);
    assert_eq!(item.originator, None);
}

#[test]
fn relationship_role_normalized_on_write_and_lookup() {
    let with_empty = EntityRelationship::new(
        "testparent".to_string(),
        "testchild".to_string(),
        Some(String::new()),
    );
    let with_none = EntityRelationship::new(
        "testparent".to_string(),
        "testchild".to_string(),
        None,
    );
    // the two spellings of "no role" are one value, so a delete keyed on one
    // finds a row written with the other
    assert_eq!(with_empty, with_none);
    let row = with_empty.to_sql_entity_relationship();
    assert_eq!(row.role, "");
    assert_eq!(row.to_relationship(), with_none);
}

#[test]
fn relationship_row_round_trips() {
    let rel = EntityRelationship::new(
        "testparent".to_string(),
        "testchild".to_string(),
        Some("testrole".to_string()),
    );
    let written = rel.to_sql_entity_relationship();
    assert_eq!(written.parent, "testparent");
    assert_eq!(written.child, "testchild");
    assert_eq!(written.role, "testrole");
    let row = SqlEntityRelationship {
        parent: rel.parent.clone(),
        child: rel.child.clone(),
        role: "testrole".to_string(),
    };
    assert_eq!(row.to_relationship(), rel);
}

#[test]
fn timestamps_are_produced() {
    // nothing is promised of the clock; the call must simply return
    let _t: i64 = current_timestamp();
}
