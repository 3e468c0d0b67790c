use media_catalog::crawl::{crawl_for_media, EntryKind, WalkEntry};
use media_catalog::record::Media;
use media_catalog::service::{
    alias_update_outcome, checked_id, get_media, get_media_for_id, parse_file_id, persist_scan,
    scan_dir_for_media, scan_outcome, set_alias, set_alias_for_media, status_code, Request,
};
use media_catalog::store::{Catalog, CatalogError};

const ID_A: &str = "550e8400-e29b-41d4-a716-446655440000";
const ID_B: &str = "67e55044-10b1-426f-9247-bb680e5fe0c8";

fn tree() -> Vec<WalkEntry> {
    vec![
        WalkEntry { path: "root".to_string(), kind: EntryKind::Directory },
        WalkEntry { path: "root/a.txt".to_string(), kind: EntryKind::RegularFile },
        WalkEntry { path: "root/sub".to_string(), kind: EntryKind::Directory },
        WalkEntry { path: "root/sub/b.txt".to_string(), kind: EntryKind::RegularFile },
    ]
}

fn stocked() -> Catalog {
    let mut c = Catalog::new();
    let batch = vec![
        Media::discovered(ID_A.to_string(), "a.txt".to_string(), "root/a.txt".to_string()),
        Media::discovered(ID_B.to_string(), "b.txt".to_string(), "root/sub/b.txt".to_string()),
    ];
    assert_eq!(c.insert_media_collection(&batch), Ok(()));
    c
}

#[test]
fn parse_accepts_hyphenated_identifier() {
    assert_eq!(parse_file_id(ID_A), Ok(ID_A.to_string()));
}

#[test]
fn parse_lowers_upper_case_identifier() {
    assert_eq!(parse_file_id("550E8400-E29B-41D4-A716-446655440000"), Ok(ID_A.to_string()));
}

#[test]
fn parse_hyphenates_simple_identifier() {
    assert_eq!(parse_file_id("550e8400e29b41d4a716446655440000"), Ok(ID_A.to_string()));
}

#[test]
fn parse_rejects_what_is_no_identifier() {
    assert_eq!(parse_file_id("not-an-identifier"), Err(CatalogError::InvalidInput));
    assert_eq!(parse_file_id(""), Err(CatalogError::InvalidInput));
}

#[test]
fn checked_id_judges_both_outcomes() {
    assert_eq!(checked_id(Some("abc".to_string())), Ok("abc".to_string()));
    assert_eq!(checked_id(None), Err(CatalogError::InvalidInput));
}

#[test]
fn scan_of_tree_with_nested_file_counts_two() {
    let mut c = Catalog::new();
    assert_eq!(scan_dir_for_media(&mut c, &tree()), Ok(2));
    assert_eq!(c.len(), 2);
}

#[test]
fn scan_of_empty_directory_counts_zero() {
    let mut c = Catalog::new();
    let entries = vec![WalkEntry { path: "root".to_string(), kind: EntryKind::Directory }];
    assert_eq!(scan_dir_for_media(&mut c, &entries), Ok(0));
    assert_eq!(c.len(), 0);
}

#[test]
fn two_scans_of_same_tree_catalog_files_twice_under_new_identifiers() {
    let mut c = Catalog::new();
    let first = crawl_for_media(&tree());
    assert_eq!(persist_scan(&mut c, &first), Ok(2));
    let second = crawl_for_media(&tree());
    assert_eq!(persist_scan(&mut c, &second), Ok(2));
    assert_eq!(c.len(), 4);
    for a in first.iter() {
        for b in second.iter() {
            assert_ne!(a.id, b.id);
        }
    }
    assert_eq!(first[0].path, second[0].path);
    assert_eq!(first[1].path, second[1].path);
}

#[test]
fn scanned_records_can_be_fetched_by_their_identifier() {
    let mut c = Catalog::new();
    let found = crawl_for_media(&tree());
    assert_eq!(persist_scan(&mut c, &found), Ok(2));
    for m in found.iter() {
        assert_eq!(get_media_for_id(&c, &m.id), Ok(m.duplicate()));
    }
}

#[test]
fn persist_scan_reports_failure_and_keeps_store() {
    let mut c = stocked();
    let batch = vec![
        Media::discovered("fresh".to_string(), "c.txt".to_string(), "root/c.txt".to_string()),
        Media::discovered(ID_A.to_string(), "a.txt".to_string(), "root/a.txt".to_string()),
    ];
    assert_eq!(persist_scan(&mut c, &batch), Err(CatalogError::PersistenceFailure));
    assert_eq!(c.len(), 2);
    assert_eq!(c.get_by_id("fresh"), Err(CatalogError::NotFound));
}

#[test]
fn fetch_finds_record_by_any_spelling_of_its_identifier() {
    let c = stocked();
    let upper = ID_A.to_uppercase();
    let found = get_media_for_id(&c, &upper).unwrap();
    assert_eq!(found.id, ID_A);
    assert_eq!(found.name, "a.txt");
}

#[test]
fn fetch_of_absent_identifier_is_not_found() {
    let c = stocked();
    assert_eq!(
        get_media_for_id(&c, "00000000-0000-0000-0000-000000000000"),
        Err(CatalogError::NotFound)
    );
}

#[test]
fn fetch_with_malformed_identifier_is_invalid_input() {
    let c = stocked();
    assert_eq!(get_media_for_id(&c, "xyz"), Err(CatalogError::InvalidInput));
    assert_eq!(get_media(&c, None), Err(CatalogError::InvalidInput));
}

#[test]
fn relabel_then_fetch_shows_alias() {
    let mut c = stocked();
    assert_eq!(set_alias_for_media(&mut c, ID_B, "x".to_string()), Ok(()));
    assert_eq!(get_media_for_id(&c, ID_B).unwrap().alias, Some("x".to_string()));
    assert_eq!(get_media_for_id(&c, ID_A).unwrap().alias, Some(String::new()));
}

#[test]
fn relabel_of_absent_identifier_is_not_found() {
    let mut c = stocked();
    assert_eq!(
        set_alias_for_media(&mut c, "00000000-0000-0000-0000-000000000000", "x".to_string()),
        Err(CatalogError::NotFound)
    );
    assert_eq!(get_media_for_id(&c, ID_A).unwrap().alias, Some(String::new()));
    assert_eq!(get_media_for_id(&c, ID_B).unwrap().alias, Some(String::new()));
}

#[test]
fn relabel_with_malformed_identifier_is_invalid_input() {
    let mut c = stocked();
    assert_eq!(set_alias_for_media(&mut c, "???", "x".to_string()), Err(CatalogError::InvalidInput));
    assert_eq!(set_alias(&mut c, None, "x".to_string()), Err(CatalogError::InvalidInput));
    assert_eq!(c.len(), 2);
}

#[test]
fn no_row_touched_means_not_found() {
    assert_eq!(alias_update_outcome(0), Err(CatalogError::NotFound));
    assert_eq!(alias_update_outcome(1), Ok(()));
    assert_eq!(alias_update_outcome(7), Ok(()));
}

#[test]
fn scan_outcome_reports_count_only_when_persisted() {
    assert_eq!(scan_outcome(5, true), Ok(5));
    assert_eq!(scan_outcome(5, false), Err(CatalogError::PersistenceFailure));
    assert_eq!(scan_outcome(0, true), Ok(0));
}

#[test]
fn status_codes_of_successes() {
    assert_eq!(status_code(Request::Scan, None), 200);
    assert_eq!(status_code(Request::Fetch, None), 200);
    assert_eq!(status_code(Request::Relabel, None), 204);
}

#[test]
fn status_codes_of_failures() {
    assert_eq!(status_code(Request::Fetch, Some(CatalogError::NotFound)), 404);
    assert_eq!(status_code(Request::Fetch, Some(CatalogError::InvalidInput)), 404);
    assert_eq!(status_code(Request::Relabel, Some(CatalogError::NotFound)), 404);
    assert_eq!(status_code(Request::Relabel, Some(CatalogError::InvalidInput)), 400);
    assert_eq!(status_code(Request::Scan, Some(CatalogError::InvalidInput)), 400);
    assert_eq!(status_code(Request::Scan, Some(CatalogError::PersistenceFailure)), 500);
    assert_eq!(status_code(Request::Relabel, Some(CatalogError::PersistenceFailure)), 500);
}
