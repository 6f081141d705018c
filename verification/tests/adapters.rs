use lorecore::api::{
    to_c_entity_column, to_c_entity_relationship, to_c_history_item, to_entity_column,
    to_history_item, to_relationship, CEntityColumn, CEntityRelationship, CHistoryItem,
};
use lorecore::errors::LoreCoreError;
use lorecore::foreign::ForeignText;
use lorecore::types::{EntityColumn, EntityRelationship, HistoryItem};

#[test]
fn history_item_roundtrips() {
    let years = vec![-13, 2021];
    let days = vec![None, Some(14)];
    let contents = vec!["", "Test content", "\\_\"'%$&!{[]}"];
    let originators = vec![
        None,
        Some("{\"is_secret\":true}".to_string()),
        Some("{\"additional_concerns\":[\"\\entityref{some_label}\"]}".to_string()),
    ];
    for year in &years {
        for day in &days {
            for content in &contents {
                for originator in &originators {
                    let item_before = HistoryItem::new(
                        "13".to_string(),
                        content.to_string(),
                        false,
                        true,
                        *year,
                        *day,
                        originator.clone(),
                    );
                    let c_item = to_c_history_item(&item_before).unwrap();
                    let item_after = to_history_item(&c_item).unwrap();
                    assert_eq!(item_before, item_after);
                }
            }
        }
    }
}

#[test]
fn entity_column_roundtrips() {
    let descriptions = vec![
        None,
        Some("a description".to_string()),
        Some("\\\"%&ü".to_string()),
    ];
    for description in descriptions {
        let column = EntityColumn::new(
            "".to_string(),
            "descriptor".to_string(),
            description,
        );
        let c_column = to_c_entity_column(&column).unwrap();
        let column_after = to_entity_column(&c_column).unwrap();
        assert_eq!(column, column_after);
    }
}

#[test]
fn entity_column_empty_description_normalized() {
    let with_empty = EntityColumn::new("l".to_string(), "d".to_string(), Some(String::new()));
    let with_none = EntityColumn::new("l".to_string(), "d".to_string(), None);
    assert_eq!(with_empty, with_none);
    let c_column = to_c_entity_column(&with_empty).unwrap();
    let back = to_entity_column(&c_column).unwrap();
    assert_eq!(back.description, None);
}

#[test]
fn relationship_roundtrips() {
    let roles = vec![None, Some("guardian".to_string()), Some("\\\"%&ü".to_string())];
    for role in roles {
        let rel = EntityRelationship::new("parent".to_string(), "child".to_string(), role);
        let c_rel = to_c_entity_relationship(&rel).unwrap();
        let rel_after = to_relationship(&c_rel).unwrap();
        assert_eq!(rel, rel_after);
    }
}

#[test]
fn relationship_empty_role_comes_back_absent() {
    let rel = EntityRelationship::new(
        "parent".to_string(),
        "child".to_string(),
        Some(String::new()),
    );
    let c_rel = to_c_entity_relationship(&rel).unwrap();
    let rel_after = to_relationship(&c_rel).unwrap();
    assert_eq!(rel_after.role, None);
}

#[test]
fn null_label_in_column_rejected() {
    let c_column = CEntityColumn {
        label: ForeignText::Null,
        descriptor: ForeignText::Text("d".to_string()),
        description: ForeignText::Text(String::new()),
    };
    let result = to_entity_column(&c_column);
    assert!(matches!(result, Err(LoreCoreError::InputError(_))));
}

#[test]
fn null_role_in_relationship_rejected() {
    let c_rel = CEntityRelationship {
        parent: ForeignText::Text("p".to_string()),
        child: ForeignText::Text("c".to_string()),
        role: ForeignText::Null,
    };
    let result = to_relationship(&c_rel);
    assert!(matches!(result, Err(LoreCoreError::InputError(_))));
}

#[test]
fn invalid_content_in_history_item_rejected() {
    let c_item = CHistoryItem {
        label: ForeignText::Text("l".to_string()),
        content: ForeignText::Invalid,
        is_concerns_others: 0,
        is_secret: 0,
        year: 1,
        day: 0,
        originator: ForeignText::Text(String::new()),
    };
    let result = to_history_item(&c_item);
    assert!(matches!(result, Err(LoreCoreError::InputError(_))));
}

#[test]
fn history_item_with_terminator_not_encodable() {
    let item = HistoryItem::new(
        "label".to_string(),
        "broken\0content".to_string(),
        false,
        false,
        1,
        None,
        None,
    );
    let result = to_c_history_item(&item);
    assert!(matches!(result, Err(LoreCoreError::EncodingError(_))));
}

#[test]
fn inbound_day_sentinel_decodes() {
    for (wire, expected) in vec![(-5, None), (0, None), (1, Some(1)), (14, Some(14))] {
        let c_item = CHistoryItem {
            label: ForeignText::Text("l".to_string()),
            content: ForeignText::Text("c".to_string()),
            is_concerns_others: 1,
            is_secret: 0,
            year: 100,
            day: wire,
            originator: ForeignText::Text(String::new()),
        };
        let item = to_history_item(&c_item).unwrap();
        assert_eq!(item.day, expected);
        assert!(item.is_concerns_others);
        assert!(!item.is_secret);
        assert_eq!(item.originator, None);
    }
}
