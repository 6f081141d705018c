use lorecore::extract::{
    extract_children, extract_descriptors, extract_labels, extract_parents, extract_roles,
};
use lorecore::types::{EntityColumn, EntityRelationship};

#[test]
fn test_extract_labels() {
    let cols = vec![
        EntityColumn {
            label: "qux".to_string(),
            descriptor: "bar".to_string(),
            description: None,
        },
        EntityColumn {
            label: "foo".to_string(),
            descriptor: "bar".to_string(),
            description: None,
        },
        EntityColumn {
            label: "foo".to_string(),
            descriptor: "baz".to_string(),
            description: None,
        },
    ];
    let labels = extract_labels(&cols);
    assert_eq!(labels, vec!["foo".to_string(), "qux".to_string()]);
}

#[test]
fn test_extract_descriptors() {
    let cols = vec![
        EntityColumn {
            label: "foo".to_string(),
            descriptor: "bar".to_string(),
            description: None,
        },
        EntityColumn {
            label: "foo".to_string(),
            descriptor: "baz".to_string(),
            description: None,
        },
        EntityColumn {
            label: "qux".to_string(),
            descriptor: "bar".to_string(),
            description: None,
        },
    ];
    let descriptors = extract_descriptors(&cols);
    assert_eq!(descriptors, vec!["bar".to_string(), "baz".to_string()]);
}

#[test]
fn test_extract_parents() {
    let rels = vec![
        EntityRelationship {
            parent: "b".into(),
            child: "c".into(),
            role: None,
        },
        EntityRelationship {
            parent: "a".into(),
            child: "b".into(),
            role: None,
        },
        EntityRelationship {
            parent: "a".into(),
            child: "c".into(),
            role: None,
        },
    ];
    let parents = extract_parents(&rels);
    assert!(parents == vec!["a".to_string(), "b".to_string()]);
}

#[test]
fn test_extract_children() {
    let rels = vec![
        EntityRelationship {
            parent: "b".into(),
            child: "c".into(),
            role: None,
        },
        EntityRelationship {
            parent: "a".into(),
            child: "b".into(),
            role: None,
        },
        EntityRelationship {
            parent: "a".into(),
            child: "c".into(),
            role: None,
        },
    ];
    let children = extract_children(&rels);
    assert!(children == vec!["b".to_string(), "c".to_string()]);
}

#[test]
fn test_extract_roles() {
    let rels = vec![
        EntityRelationship {
            parent: "b".into(),
            child: "c".into(),
            role: Some("r1".to_string()),
        },
        EntityRelationship {
            parent: "a".into(),
            child: "b".into(),
            role: Some("r2".to_string()),
        },
        EntityRelationship {
            parent: "a".into(),
            child: "c".into(),
            role: Some("r1".to_string()),
        },
    ];
    let roles = extract_roles(&rels);
    assert!(roles == vec!["r1".to_string(), "r2".to_string()]);
}

#[test]
fn extract_roles_skips_absent_roles() {
    let rels = vec![
        EntityRelationship {
            parent: "a".into(),
            child: "b".into(),
            role: None,
        },
        EntityRelationship {
            parent: "a".into(),
            child: "c".into(),
            role: Some("guardian".to_string()),
        },
    ];
    let roles = extract_roles(&rels);
    assert!(roles == vec!["guardian".to_string()]);
}
