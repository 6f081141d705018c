use lorecore::search::SearchText;

#[test]
fn partial_pattern_escapes_wildcards() {
    let param = SearchText::partial("100%".to_string());
    assert_eq!(param.to_storage_pattern(), "%100\\%%");
}

#[test]
fn partial_pattern_escapes_every_special_character() {
    let param = SearchText::partial("a_b\\c%d".to_string());
    assert_eq!(param.to_storage_pattern(), "%a\\_b\\\\c\\%d%");
}

#[test]
fn partial_match_takes_wildcard_literally() {
    let param = SearchText::partial("100%".to_string());
    assert!(param.matches("the price is 100% sure"));
    assert!(param.matches("100%"));
    assert!(!param.matches("100234"));
    assert!(!param.matches("100"));
}

#[test]
fn exact_pattern_is_the_literal_value() {
    let param = SearchText::exact("foo%bar".to_string());
    assert_eq!(param.to_storage_pattern(), "foo%bar");
}

#[test]
fn unset_matches_every_record() {
    let param = SearchText::unset();
    assert!(param.matches(""));
    assert!(param.matches("anything at all"));
}

#[test]
fn exact_empty_matches_only_empty() {
    let param = SearchText::exact(String::new());
    assert!(param.matches(""));
    assert!(!param.matches("a"));
    assert!(!param.matches(" "));
}

#[test]
fn exact_matches_only_the_value() {
    let param = SearchText::exact("testparent1".to_string());
    assert!(param.matches("testparent1"));
    assert!(!param.matches("testparent10"));
    assert!(!param.matches("rent"));
}

#[test]
fn partial_matches_substrings() {
    let param = SearchText::partial("rent1".to_string());
    assert!(param.matches("testparent1"));
    assert!(!param.matches("fununu"));
}

#[test]
fn search_state_flags() {
    assert!(!SearchText::unset().is_set());
    assert!(SearchText::exact(String::new()).is_set());
    assert!(SearchText::partial(String::new()).is_set());
    assert!(SearchText::exact("x".to_string()).is_exact_match_required());
    assert!(!SearchText::partial("x".to_string()).is_exact_match_required());
    assert!(!SearchText::unset().is_exact_match_required());
}

use lorecore::order::sort_records;
use lorecore::search::{
    EntityColumnSearchParams, HistoryItemSearchParams, RelationshipSearchParams,
};
use lorecore::types::{EntityColumn, EntityRelationship, HistoryItem};

fn test_batch() -> Vec<EntityRelationship> {
    vec![
        EntityRelationship::new("testparent2".to_string(), "testchild1".to_string(), None),
        EntityRelationship::new("testparent1".to_string(), "testchild2".to_string(), None),
        EntityRelationship::new("testparent1".to_string(), "testchild1".to_string(), None),
    ]
}

fn read_relationships_from(
    batch: &[EntityRelationship],
    params: &RelationshipSearchParams,
) -> Vec<EntityRelationship> {
    let matching: Vec<EntityRelationship> =
        batch.iter().filter(|r| params.matches(r)).cloned().collect();
    sort_records(matching)
}

#[test]
fn relationships_with_parent_filter_fununu_returns_none() {
    let params = RelationshipSearchParams::new(
        SearchText::partial("fununu".to_string()),
        SearchText::unset(),
    );
    assert!(read_relationships_from(&test_batch(), &params).is_empty());
}

#[test]
fn relationships_with_parent_filter_rent1_returns_some() {
    let params = RelationshipSearchParams::new(
        SearchText::partial("rent1".to_string()),
        SearchText::unset(),
    );
    let result = read_relationships_from(&test_batch(), &params);
    assert_eq!(result.len(), 2);
    assert_eq!(result[0].parent, "testparent1");
}

#[test]
fn relationships_with_exact_parent_filter_rent_returns_none() {
    let params = RelationshipSearchParams::new(
        SearchText::exact("rent".to_string()),
        SearchText::unset(),
    );
    assert!(read_relationships_from(&test_batch(), &params).is_empty());
}

#[test]
fn relationships_with_exact_parent_filter_testparent1_returns_some() {
    let params = RelationshipSearchParams::new(
        SearchText::exact("testparent1".to_string()),
        SearchText::unset(),
    );
    assert_eq!(read_relationships_from(&test_batch(), &params).len(), 2);
}

#[test]
fn relationships_without_filter_returns_all() {
    let params = RelationshipSearchParams::new(SearchText::unset(), SearchText::unset());
    assert_eq!(read_relationships_from(&test_batch(), &params).len(), 3);
}

#[test]
fn relationships_with_parent_and_child_filter() {
    let params = RelationshipSearchParams::new(
        SearchText::partial("rent1".to_string()),
        SearchText::partial("ild1".to_string()),
    );
    let result = read_relationships_from(&test_batch(), &params);
    assert_eq!(result.len(), 1);
    assert_eq!(result[0].parent, "testparent1");
    assert_eq!(result[0].child, "testchild1");
}

#[test]
fn filtered_reads_with_identical_filters_agree() {
    let mut shuffled = test_batch();
    shuffled.reverse();
    let params = RelationshipSearchParams::new(
        SearchText::partial("rent".to_string()),
        SearchText::unset(),
    );
    let first = read_relationships_from(&test_batch(), &params);
    let second = read_relationships_from(&shuffled, &params);
    assert!(first == second);
    assert_eq!(first.len(), 3);
}

#[test]
fn column_search_params_filter_both_fields() {
    let column = EntityColumn::new("foo".to_string(), "bar".to_string(), None);
    let matching = EntityColumnSearchParams::new(
        SearchText::exact("foo".to_string()),
        SearchText::partial("a".to_string()),
    );
    assert!(matching.matches(&column));
    let rejecting = EntityColumnSearchParams::new(
        SearchText::exact("foo".to_string()),
        SearchText::exact("".to_string()),
    );
    assert!(!rejecting.matches(&column));
}

#[test]
fn history_search_params_day_filter_uses_wire_encoding() {
    let absent_day = HistoryItem::new(
        "l".to_string(),
        "c".to_string(),
        false,
        false,
        5,
        None,
        None,
    );
    let day_three = HistoryItem::new(
        "l".to_string(),
        "c".to_string(),
        false,
        false,
        5,
        Some(3),
        None,
    );
    let for_absent = HistoryItemSearchParams::new(
        Some(5),
        Some(0),
        SearchText::unset(),
        SearchText::unset(),
    );
    assert!(for_absent.matches(&absent_day));
    assert!(!for_absent.matches(&day_three));
    let for_third = HistoryItemSearchParams::new(
        None,
        Some(3),
        SearchText::unset(),
        SearchText::unset(),
    );
    assert!(for_third.matches(&day_three));
    assert!(!for_third.matches(&absent_day));
}
