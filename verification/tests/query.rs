use stag::query::{build_search_params, build_search_query};
use stag::store::TagStore;

#[test]
fn test_query_any_mode_no_exclusions() {
    let q = build_search_query(1, 0, true);
    assert_eq!(
        q,
        "SELECT f.path FROM files f JOIN file_tags ft ON ft.file_id = f.id \
         JOIN tags t ON t.id = ft.tag_id WHERE t.name IN (?) \
         GROUP BY f.id HAVING COUNT(DISTINCT t.name) >= 1"
    );
}

#[test]
fn test_query_all_mode_with_exclusions() {
    let q = build_search_query(2, 1, false);
    assert_eq!(
        q,
        "SELECT f.path FROM files f JOIN file_tags ft ON ft.file_id = f.id \
         JOIN tags t ON t.id = ft.tag_id WHERE t.name IN (?,?) \
         AND f.id NOT IN (SELECT ft2.file_id FROM file_tags ft2 \
         JOIN tags t2 ON t2.id = ft2.tag_id WHERE t2.name IN (?)) \
         GROUP BY f.id HAVING COUNT(DISTINCT t.name) = 2"
    );
}

#[test]
fn test_query_threshold_is_decimal() {
    let q = build_search_query(12, 0, false);
    assert!(q.ends_with("HAVING COUNT(DISTINCT t.name) = 12"));
    assert_eq!(q.matches('?').count(), 12);
}

#[test]
fn test_query_placeholder_counts() {
    let q = build_search_query(3, 2, true);
    assert_eq!(q.matches('?').count(), 5);
    assert!(q.contains("IN (?,?,?)"));
    assert!(q.contains("t2.name IN (?,?)"));
    assert!(q.ends_with(">= 1"));
}

#[test]
fn test_params_order() {
    let incl = vec!["a".to_string(), "b".to_string()];
    let exclude = vec!["c".to_string()];
    let params = build_search_params(&incl, &exclude);
    assert_eq!(params, vec!["a".to_string(), "b".to_string(), "c".to_string()]);
}

#[test]
fn test_params_empty() {
    let params = build_search_params(&vec![], &vec![]);
    assert!(params.is_empty());
}

#[test]
fn test_query_agrees_with_search() {
    let dir = tempfile::TempDir::new().unwrap();
    let db = dir.path().join("tags.db");
    let mut store = TagStore::new(&db.to_str().unwrap().to_string()).unwrap();

    let file1 = tempfile::NamedTempFile::new_in(dir.path()).unwrap();
    let file2 = tempfile::NamedTempFile::new_in(dir.path()).unwrap();
    let p1 = file1.path().to_str().unwrap().to_string();
    let p2 = file2.path().to_str().unwrap().to_string();

    for tag in ["a", "b", "c"] {
        store.add_tags_batch(&vec![p1.clone()], &tag.to_string()).unwrap();
    }
    for tag in ["a", "b", "d"] {
        store.add_tags_batch(&vec![p2.clone()], &tag.to_string()).unwrap();
    }

    let incl = vec!["a".to_string(), "b".to_string()];
    let exclude = vec!["c".to_string()];
    let mut verified = store.search_tags(&incl, &exclude, false).unwrap();
    verified.sort();

    // Running the built statement over the persisted rows must agree with
    // the verified in-memory search.
    let text = build_search_query(incl.len(), exclude.len(), false);
    let params = build_search_params(&incl, &exclude);
    let conn = rusqlite::Connection::open(&db).unwrap();
    let mut stmt = conn.prepare(&text).unwrap();
    let mut from_sql: Vec<String> = stmt
        .query_map(rusqlite::params_from_iter(params.iter()), |row| row.get(0))
        .unwrap()
        .collect::<Result<Vec<String>, rusqlite::Error>>()
        .unwrap();
    from_sql.sort();
    assert_eq!(from_sql, verified);
}
