use media_catalog::migrate::{has_version, new_migrations};

#[test]
fn has_version_finds_listed_versions_only() {
    let versions = vec![1, 5, 9];
    assert!(has_version(&versions, 5));
    assert!(!has_version(&versions, 2));
    assert!(!has_version(&Vec::new(), 1));
}

#[test]
fn new_migrations_are_those_not_seen_before() {
    let previous = vec![1, 2];
    let applied = vec![
        (1, "create media".to_string()),
        (2, "add alias".to_string()),
        (3, "add index".to_string()),
        (4, "add tags".to_string()),
    ];
    assert_eq!(
        new_migrations(&previous, &applied),
        vec![(3, "add index".to_string()), (4, "add tags".to_string())]
    );
}

#[test]
fn nothing_is_new_when_all_were_seen() {
    let previous = vec![1, 2];
    let applied = vec![(1, "a".to_string()), (2, "b".to_string())];
    assert!(new_migrations(&previous, &applied).is_empty());
}

#[test]
fn everything_is_new_on_first_run() {
    let applied = vec![(1, "a".to_string()), (2, "b".to_string())];
    assert_eq!(new_migrations(&Vec::new(), &applied), applied);
}
