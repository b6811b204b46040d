use stag::TagError;
use stag::store::TagStore;
use tempfile::NamedTempFile;
use tempfile::TempDir;

fn open_store(dir: &TempDir) -> TagStore {
    let db = dir.path().join("tags.db");
    TagStore::new(&db.to_str().unwrap().to_string()).unwrap()
}

fn temp_file(dir: &TempDir) -> (NamedTempFile, String) {
    let file = NamedTempFile::new_in(dir.path()).unwrap();
    let path = file.path().to_str().unwrap().to_string();
    (file, path)
}

fn canonical(path: &str) -> String {
    std::path::Path::new(path).canonicalize().unwrap().to_str().unwrap().to_string()
}

fn s(text: &str) -> String {
    text.to_string()
}

#[test]
fn test_add_and_list_tag() {
    let dir = TempDir::new().unwrap();
    let mut store = open_store(&dir);
    let (_file, path) = temp_file(&dir);

    store.add_tags_batch(&vec![path.clone()], &s("test_tag")).unwrap();
    let paths = store.list_tagged(&s("test_tag")).unwrap();

    assert_eq!(paths.len(), 1);
    assert_eq!(paths[0], canonical(&path));
}

#[test]
fn test_multiple_tags_same_file() {
    let dir = TempDir::new().unwrap();
    let mut store = open_store(&dir);
    let (_file, path) = temp_file(&dir);

    store.add_tags_batch(&vec![path.clone()], &s("tag1")).unwrap();
    store.add_tags_batch(&vec![path.clone()], &s("tag2")).unwrap();

    let paths1 = store.list_tagged(&s("tag1")).unwrap();
    let paths2 = store.list_tagged(&s("tag2")).unwrap();

    assert_eq!(paths1.len(), 1);
    assert_eq!(paths2.len(), 1);
    assert_eq!(paths1[0], paths2[0]);
}

#[test]
fn test_same_tag_multiple_files() {
    let dir = TempDir::new().unwrap();
    let mut store = open_store(&dir);
    let (_file1, path1) = temp_file(&dir);
    let (_file2, path2) = temp_file(&dir);

    store.add_tags_batch(&vec![path1.clone()], &s("shared_tag")).unwrap();
    store.add_tags_batch(&vec![path2.clone()], &s("shared_tag")).unwrap();

    let paths = store.list_tagged(&s("shared_tag")).unwrap();
    assert_eq!(paths.len(), 2);
    assert!(paths.contains(&canonical(&path1)));
    assert!(paths.contains(&canonical(&path2)));
}

#[test]
fn test_remove_tag() {
    let dir = TempDir::new().unwrap();
    let mut store = open_store(&dir);
    let (_file, path) = temp_file(&dir);

    store.add_tags_batch(&vec![path.clone()], &s("test_tag")).unwrap();
    store.remove_tags_batch(&vec![path.clone()], &s("test_tag")).unwrap();

    let paths = store.list_tagged(&s("test_tag")).unwrap();
    assert!(paths.is_empty());
}

#[test]
fn test_remove_nonexistent_tag() {
    let dir = TempDir::new().unwrap();
    let mut store = open_store(&dir);
    let (_file, path) = temp_file(&dir);

    // Removing a tag that was never attached must succeed and change nothing.
    store.remove_tags_batch(&vec![path], &s("nonexistent_tag")).unwrap();
}

#[test]
fn test_invalid_path() {
    let dir = TempDir::new().unwrap();
    let mut store = open_store(&dir);
    let result = store.add_tags_batch(&vec![s("/definitely/not/a/real/path")], &s("tag"));
    assert!(result.is_err());
}

#[test]
fn test_cleanup_after_last_tag_removed() {
    let dir = TempDir::new().unwrap();
    let mut store = open_store(&dir);
    let (_file, path) = temp_file(&dir);

    store.add_tags_batch(&vec![path.clone()], &s("tag1")).unwrap();
    store.add_tags_batch(&vec![path.clone()], &s("tag2")).unwrap();

    store.remove_tags_batch(&vec![path.clone()], &s("tag1")).unwrap();

    // The path still carries tag2, so it is still persisted.
    let paths = store.list_tagged(&s("tag2")).unwrap();
    assert_eq!(paths.len(), 1);

    store.remove_tags_batch(&vec![path.clone()], &s("tag2")).unwrap();

    // The last tag is gone, so the path entity is garbage-collected: it
    // appears in no listing and no search result.
    let paths = store.list_tagged(&s("tag2")).unwrap();
    assert!(paths.is_empty());
    let found = store.search_tags(&vec![s("tag1"), s("tag2")], &vec![], true).unwrap();
    assert!(found.is_empty());
}

#[test]
fn test_batch_operations() {
    let dir = TempDir::new().unwrap();
    let mut store = open_store(&dir);
    let mut handles = Vec::new();
    let mut files: Vec<String> = Vec::new();
    for _ in 0..5 {
        let (file, path) = temp_file(&dir);
        handles.push(file);
        files.push(path);
    }

    store.add_tags_batch(&files, &s("batch_tag")).unwrap();
    let tagged = store.list_tagged(&s("batch_tag")).unwrap();
    assert_eq!(tagged.len(), 5);

    let first_two: Vec<String> = files[0..2].to_vec();
    store.remove_tags_batch(&first_two, &s("batch_tag")).unwrap();
    let remaining = store.list_tagged(&s("batch_tag")).unwrap();
    assert_eq!(remaining.len(), 3);
}

#[test]
fn test_batch_transaction_rollback() {
    let dir = TempDir::new().unwrap();
    let mut store = open_store(&dir);
    let (_file, valid) = temp_file(&dir);

    let paths = vec![valid, s("/nonexistent/path")];

    // The batch holds one bad path, so it must fail as a whole.
    assert!(store.add_tags_batch(&paths, &s("tag")).is_err());

    // Nothing may have been committed, not even for the valid path.
    let tagged = store.list_tagged(&s("tag")).unwrap();
    assert!(tagged.is_empty());
}

#[test]
fn test_search_tags_any() {
    let dir = TempDir::new().unwrap();
    let mut store = open_store(&dir);
    let mut handles = Vec::new();
    let mut files: Vec<String> = Vec::new();
    for _ in 0..3 {
        let (file, path) = temp_file(&dir);
        handles.push(file);
        files.push(path);
    }

    store.add_tags_batch(&vec![files[0].clone()], &s("tag1")).unwrap();
    store.add_tags_batch(&vec![files[1].clone()], &s("tag2")).unwrap();
    store.add_tags_batch(&vec![files[2].clone()], &s("tag3")).unwrap();
    store.add_tags_batch(&files[0..2].to_vec(), &s("common")).unwrap();

    let results = store.search_tags(&vec![s("tag1"), s("tag2")], &vec![], true).unwrap();
    assert_eq!(results.len(), 2);
    assert!(results.contains(&canonical(&files[0])));
    assert!(results.contains(&canonical(&files[1])));
}

#[test]
fn test_search_tags_all() {
    let dir = TempDir::new().unwrap();
    let mut store = open_store(&dir);
    let (_file, path) = temp_file(&dir);

    store.add_tags_batch(&vec![path.clone()], &s("tag1")).unwrap();
    store.add_tags_batch(&vec![path.clone()], &s("tag2")).unwrap();

    let results = store.search_tags(&vec![s("tag1"), s("tag2")], &vec![], false).unwrap();
    assert_eq!(results.len(), 1);
    assert!(results.contains(&canonical(&path)));

    let results = store.search_tags(&vec![s("tag1"), s("nonexistent")], &vec![], false).unwrap();
    assert!(results.is_empty());
}

#[test]
fn test_search_tags_with_exclusions() {
    let dir = TempDir::new().unwrap();
    let mut store = open_store(&dir);
    let (_file0, path0) = temp_file(&dir);
    let (_file1, path1) = temp_file(&dir);

    store.add_tags_batch(&vec![path0.clone(), path1.clone()], &s("keep")).unwrap();
    store.add_tags_batch(&vec![path1.clone()], &s("drop")).unwrap();

    let results = store.search_tags(&vec![s("keep")], &vec![s("drop")], true).unwrap();
    assert_eq!(results.len(), 1);
    assert!(results.contains(&canonical(&path0)));
}

#[test]
fn test_search_tags_empty() {
    let dir = TempDir::new().unwrap();
    let store = open_store(&dir);

    let results = store.search_tags(&vec![], &vec![], true).unwrap();
    assert!(results.is_empty());

    let results = store.search_tags(&vec![], &vec![], false).unwrap();
    assert!(results.is_empty());
}

#[test]
fn test_special_character_tags() {
    let dir = TempDir::new().unwrap();
    let mut store = open_store(&dir);
    let (_file, path) = temp_file(&dir);

    let special_tags = vec!["태그", "标签", "🏷️", "tag with spaces", "@#$%"];
    for tag in special_tags {
        store.add_tags_batch(&vec![path.clone()], &tag.to_string()).unwrap();
        let paths = store.list_tagged(&tag.to_string()).unwrap();
        assert_eq!(paths.len(), 1);
    }
}

#[test]
fn test_large_tag_name() {
    let dir = TempDir::new().unwrap();
    let mut store = open_store(&dir);
    let (_file, path) = temp_file(&dir);

    let large_tag = "a".repeat(10000);
    store.add_tags_batch(&vec![path], &large_tag).unwrap();
}

#[test]
fn test_add_idempotent() {
    let dir = TempDir::new().unwrap();
    let mut store = open_store(&dir);
    let (_file, path) = temp_file(&dir);

    store.add_tags_batch(&vec![path.clone()], &s("tag")).unwrap();
    store.add_tags_batch(&vec![path.clone()], &s("tag")).unwrap();

    let paths = store.list_tagged(&s("tag")).unwrap();
    assert_eq!(paths.len(), 1);
    let tags = store.get_file_tags(&path).unwrap();
    assert_eq!(tags.len(), 1);
}

#[test]
fn test_canonicalization_equivalence() {
    let dir = TempDir::new().unwrap();
    let mut store = open_store(&dir);
    let (_file, path) = temp_file(&dir);

    // The same file spelled two ways: plainly, and with a `.` component.
    let name = std::path::Path::new(&path).file_name().unwrap().to_str().unwrap().to_string();
    let dotted = format!("{}/./{}", dir.path().to_str().unwrap(), name);

    store.add_tags_batch(&vec![dotted], &s("tag")).unwrap();
    store.add_tags_batch(&vec![path.clone()], &s("tag")).unwrap();

    // Both spellings resolve to one canonical path entity, not two.
    let paths = store.list_tagged(&s("tag")).unwrap();
    assert_eq!(paths.len(), 1);
    assert_eq!(paths[0], canonical(&path));
}

#[test]
fn test_all_any_semantics() {
    let dir = TempDir::new().unwrap();
    let mut store = open_store(&dir);
    let (_f1, p1) = temp_file(&dir);
    let (_f2, p2) = temp_file(&dir);

    for tag in ["a", "b", "c"] {
        store.add_tags_batch(&vec![p1.clone()], &tag.to_string()).unwrap();
    }
    for tag in ["a", "b", "d"] {
        store.add_tags_batch(&vec![p2.clone()], &tag.to_string()).unwrap();
    }

    // Both paths carry a and b.
    let all_ab = store.search_tags(&vec![s("a"), s("b")], &vec![], false).unwrap();
    assert_eq!(all_ab.len(), 2);
    assert!(all_ab.contains(&canonical(&p1)));
    assert!(all_ab.contains(&canonical(&p2)));

    // Each path carries one of c and d.
    let any_cd = store.search_tags(&vec![s("c"), s("d")], &vec![], true).unwrap();
    assert_eq!(any_cd.len(), 2);

    // Excluding c drops p1 even though it matches a and b.
    let ab_not_c = store.search_tags(&vec![s("a"), s("b")], &vec![s("c")], false).unwrap();
    assert_eq!(ab_not_c.len(), 1);
    assert!(ab_not_c.contains(&canonical(&p2)));
}

#[test]
fn test_vacuous_search_with_exclusions() {
    let dir = TempDir::new().unwrap();
    let mut store = open_store(&dir);
    let (_file, path) = temp_file(&dir);
    store.add_tags_batch(&vec![path], &s("tag")).unwrap();

    // An empty inclusion set matches nothing, whatever the exclusions.
    let results = store.search_tags(&vec![], &vec![s("tag")], true).unwrap();
    assert!(results.is_empty());
    let results = store.search_tags(&vec![], &vec![s("other")], false).unwrap();
    assert!(results.is_empty());
}

#[test]
fn test_end_to_end_scenario() {
    let dir = TempDir::new().unwrap();
    let mut store = open_store(&dir);
    let (_file, path) = temp_file(&dir);
    let (_other, other_path) = temp_file(&dir);
    store.add_tags_batch(&vec![other_path], &s("unrelated")).unwrap();

    store.add_tags_batch(&vec![path.clone()], &s("rust")).unwrap();
    let listed = store.list_tagged(&s("rust")).unwrap();
    assert_eq!(listed, vec![canonical(&path)]);

    store.remove_tags_batch(&vec![path.clone()], &s("rust")).unwrap();
    assert!(store.list_tagged(&s("rust")).unwrap().is_empty());
    assert!(store.get_file_tags(&path).unwrap().is_empty());
}

#[test]
fn test_get_file_tags() {
    let dir = TempDir::new().unwrap();
    let mut store = open_store(&dir);
    let (_file, path) = temp_file(&dir);

    store.add_tags_batch(&vec![path.clone()], &s("one")).unwrap();
    store.add_tags_batch(&vec![path.clone()], &s("two")).unwrap();

    let mut tags = store.get_file_tags(&path).unwrap();
    tags.sort();
    assert_eq!(tags, vec![s("one"), s("two")]);
}

#[test]
fn test_persistence_across_opens() {
    let dir = TempDir::new().unwrap();
    let (_file, path) = temp_file(&dir);
    {
        let mut store = open_store(&dir);
        store.add_tags_batch(&vec![path.clone()], &s("kept")).unwrap();
    }
    let store = open_store(&dir);
    let paths = store.list_tagged(&s("kept")).unwrap();
    assert_eq!(paths, vec![canonical(&path)]);
}

#[test]
fn test_storage_unavailable() {
    // A database path under a non-directory cannot be opened.
    let result = TagStore::new(&s("/dev/null/nope/tags.db"));
    assert!(matches!(result, Err(TagError::StorageUnavailable)));
}

#[test]
fn test_storage_busy() {
    let dir = TempDir::new().unwrap();
    let db = dir.path().join("tags.db");
    let mut store = TagStore::new(&db.to_str().unwrap().to_string()).unwrap();
    let (_file, path) = temp_file(&dir);

    // A second writer holds the database locked, so the batch must roll
    // back and surface the retryable error, leaving the store unchanged.
    let blocker = rusqlite::Connection::open(&db).unwrap();
    blocker.execute_batch("BEGIN EXCLUSIVE").unwrap();
    let result = store.add_tags_batch(&vec![path.clone()], &s("tag"));
    assert_eq!(result, Err(TagError::StorageBusy));
    blocker.execute_batch("COMMIT").unwrap();
    assert!(store.list_tagged(&s("tag")).unwrap().is_empty());

    // Once the lock is gone the same batch goes through.
    store.add_tags_batch(&vec![path], &s("tag")).unwrap();
    assert_eq!(store.list_tagged(&s("tag")).unwrap().len(), 1);
}

#[test]
fn test_remove_stale_path() {
    let dir = TempDir::new().unwrap();
    let mut store = open_store(&dir);
    let (file, path) = temp_file(&dir);

    store.add_tags_batch(&vec![path.clone()], &s("tag")).unwrap();
    drop(file);

    // The file is gone; removal falls back to the lexical spelling and
    // must not fail, though the canonical entity stays behind.
    store.remove_tags_batch(&vec![path], &s("tag")).unwrap();
}
