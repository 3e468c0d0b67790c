use media_catalog::record::Media;
use media_catalog::store::{Catalog, CatalogError};

fn media(id: &str, name: &str) -> Media {
    Media::discovered(id.to_string(), name.to_string(), format!("root/{}", name))
}

#[test]
fn discovered_record_has_empty_alias() {
    let m = Media::discovered("k".to_string(), "n".to_string(), "p/n".to_string());
    assert_eq!(
        m,
        Media { id: "k".to_string(), name: "n".to_string(), path: "p/n".to_string(), alias: Some(String::new()) }
    );
}

#[test]
fn duplicate_equals_original() {
    let m = media("id-1", "a.txt").with_alias("label".to_string());
    assert_eq!(m.duplicate(), m);
}

#[test]
fn with_alias_changes_only_the_alias() {
    let m = media("id-1", "a.txt");
    let n = m.with_alias("x".to_string());
    assert_eq!(n.id, m.id);
    assert_eq!(n.name, m.name);
    assert_eq!(n.path, m.path);
    assert_eq!(n.alias, Some("x".to_string()));
}

#[test]
fn new_catalog_is_empty() {
    let c = Catalog::new();
    assert_eq!(c.len(), 0);
    assert_eq!(c.get_by_id("anything"), Err(CatalogError::NotFound));
}

#[test]
fn bulk_insert_then_lookup_returns_each_record() {
    let mut c = Catalog::new();
    let batch = vec![media("id-1", "a.txt"), media("id-2", "b.txt"), media("id-3", "c.txt")];
    assert_eq!(c.insert_media_collection(&batch), Ok(()));
    assert_eq!(c.len(), 3);
    for m in batch.iter() {
        let found = c.get_by_id(&m.id).unwrap();
        assert_eq!(&found, m);
        assert_eq!(found.alias, Some(String::new()));
    }
}

#[test]
fn empty_batch_is_accepted_and_changes_nothing() {
    let mut c = Catalog::new();
    assert_eq!(c.insert_media_collection(&vec![media("id-1", "a.txt")]), Ok(()));
    assert_eq!(c.insert_media_collection(&Vec::new()), Ok(()));
    assert_eq!(c.len(), 1);
}

#[test]
fn lookup_of_unknown_id_is_not_found() {
    let mut c = Catalog::new();
    assert_eq!(c.insert_media_collection(&vec![media("id-1", "a.txt")]), Ok(()));
    assert_eq!(c.get_by_id("id-2"), Err(CatalogError::NotFound));
}

#[test]
fn update_alias_then_lookup_shows_alias() {
    let mut c = Catalog::new();
    assert_eq!(c.insert_media_collection(&vec![media("id-1", "a.txt"), media("id-2", "b.txt")]), Ok(()));
    assert_eq!(c.update_alias("id-1", "x".to_string()), Ok(()));
    let found = c.get_by_id("id-1").unwrap();
    assert_eq!(found.alias, Some("x".to_string()));
    assert_eq!(found.name, "a.txt");
    assert_eq!(found.path, "root/a.txt");
    assert_eq!(c.get_by_id("id-2").unwrap(), media("id-2", "b.txt"));
    assert_eq!(c.len(), 2);
}

#[test]
fn update_alias_twice_with_same_value_succeeds() {
    let mut c = Catalog::new();
    assert_eq!(c.insert_media_collection(&vec![media("id-1", "a.txt")]), Ok(()));
    assert_eq!(c.update_alias("id-1", "x".to_string()), Ok(()));
    assert_eq!(c.update_alias("id-1", "x".to_string()), Ok(()));
    assert_eq!(c.get_by_id("id-1").unwrap().alias, Some("x".to_string()));
}

#[test]
fn update_alias_of_unknown_id_is_not_found_and_changes_nothing() {
    let mut c = Catalog::new();
    assert_eq!(c.insert_media_collection(&vec![media("id-1", "a.txt")]), Ok(()));
    assert_eq!(c.update_alias("id-9", "x".to_string()), Err(CatalogError::NotFound));
    assert_eq!(c.len(), 1);
    assert_eq!(c.get_by_id("id-1").unwrap(), media("id-1", "a.txt"));
}

#[test]
fn batch_colliding_with_existing_row_is_refused_whole() {
    let mut c = Catalog::new();
    assert_eq!(c.insert_media_collection(&vec![media("id-1", "a.txt")]), Ok(()));
    let batch = vec![media("id-2", "b.txt"), media("id-1", "other.txt"), media("id-3", "c.txt")];
    assert_eq!(c.insert_media_collection(&batch), Err(CatalogError::PersistenceFailure));
    assert_eq!(c.len(), 1);
    assert_eq!(c.get_by_id("id-1").unwrap(), media("id-1", "a.txt"));
    assert_eq!(c.get_by_id("id-2"), Err(CatalogError::NotFound));
    assert_eq!(c.get_by_id("id-3"), Err(CatalogError::NotFound));
}

#[test]
fn batch_with_identifier_twice_is_refused_whole() {
    let mut c = Catalog::new();
    let batch = vec![media("id-1", "a.txt"), media("id-2", "b.txt"), media("id-1", "c.txt")];
    assert_eq!(c.insert_media_collection(&batch), Err(CatalogError::PersistenceFailure));
    assert_eq!(c.len(), 0);
    assert_eq!(c.get_by_id("id-1"), Err(CatalogError::NotFound));
    assert_eq!(c.get_by_id("id-2"), Err(CatalogError::NotFound));
}

#[test]
fn store_accepts_a_batch_after_a_refused_one() {
    let mut c = Catalog::new();
    let bad = vec![media("id-1", "a.txt"), media("id-1", "b.txt")];
    assert_eq!(c.insert_media_collection(&bad), Err(CatalogError::PersistenceFailure));
    let good = vec![media("id-1", "a.txt"), media("id-2", "b.txt")];
    assert_eq!(c.insert_media_collection(&good), Ok(()));
    assert_eq!(c.len(), 2);
}
