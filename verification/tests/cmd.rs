use stag::TagError;
use stag::cmd::{Add, Autotag, CommandInput, Commands, List, Remove, Run, Search, TagGroup};
use stag::store::TagStore;
use tempfile::NamedTempFile;
use tempfile::TempDir;

fn open_store(dir: &TempDir) -> TagStore {
    let db = dir.path().join("tags.db");
    TagStore::new(&db.to_str().unwrap().to_string()).unwrap()
}

fn temp_file(dir: &TempDir) -> (NamedTempFile, String) {
    let file = NamedTempFile::new_in(dir.path()).unwrap();
    let path = file.path().to_str().unwrap().to_string();
    (file, path)
}

fn canonical(path: &str) -> String {
    std::path::Path::new(path).canonicalize().unwrap().to_str().unwrap().to_string()
}

fn s(text: &str) -> String {
    text.to_string()
}

fn add_cmd(tag: &str, paths: Vec<String>) -> Add {
    Add { tag: s(tag), paths, recursive: false, hidden: false }
}

#[test]
fn test_add_and_list() {
    let dir = TempDir::new().unwrap();
    let mut store = open_store(&dir);
    let (_file, path) = temp_file(&dir);

    let add = add_cmd("rust", vec![path.clone()]);
    // Recursion is off, so the resolved candidate list is the input list.
    add.run(&mut store, &add.paths).unwrap();

    let list = List { tag: s("rust"), dirs: false, files: false };
    let shown = list.run(&store).unwrap();
    assert!(shown.contains(&canonical(&path)));
}

#[test]
fn test_tag_combinations() {
    let dir = TempDir::new().unwrap();
    let mut store = open_store(&dir);
    let rust_proj = tempfile::Builder::new().prefix("rust-proj").tempdir_in(dir.path()).unwrap();
    let py_proj = tempfile::Builder::new().prefix("py-proj").tempdir_in(dir.path()).unwrap();
    let rust_path = rust_proj.path().to_str().unwrap().to_string();
    let py_path = py_proj.path().to_str().unwrap().to_string();

    let add_proj = add_cmd("proj", vec![rust_path.clone(), py_path.clone()]);
    add_proj.run(&mut store, &add_proj.paths).unwrap();
    let add_rust = add_cmd("rust", vec![rust_path.clone()]);
    add_rust.run(&mut store, &add_rust.paths).unwrap();

    // All-mode: only the project carrying both tags.
    let both = Search {
        tags: vec![s("proj"), s("rust")],
        any: false,
        dirs: false,
        files: false,
        exclude: vec![],
    };
    let found = both.run(&store).unwrap();
    assert_eq!(found, vec![canonical(&rust_path)]);

    // Any-mode: both projects.
    let either = Search {
        tags: vec![s("proj"), s("rust")],
        any: true,
        dirs: false,
        files: false,
        exclude: vec![],
    };
    let found = either.run(&store).unwrap();
    assert_eq!(found.len(), 2);
    assert!(found.contains(&canonical(&py_path)));
}

#[test]
fn test_tag_removal() {
    let dir = TempDir::new().unwrap();
    let mut store = open_store(&dir);
    let test_dir = tempfile::Builder::new().prefix("test-dir").tempdir_in(dir.path()).unwrap();
    let dir_path = test_dir.path().to_str().unwrap().to_string();

    for tag in ["proj", "rust"] {
        let add = add_cmd(tag, vec![dir_path.clone()]);
        add.run(&mut store, &add.paths).unwrap();
    }

    let remove = Remove { tag: s("rust"), paths: vec![dir_path.clone()], recursive: false, hidden: false };
    remove.run(&mut store, &remove.paths).unwrap();

    let rust_list = List { tag: s("rust"), dirs: false, files: false };
    assert!(rust_list.run(&store).unwrap().is_empty());
    let proj_list = List { tag: s("proj"), dirs: false, files: false };
    assert_eq!(proj_list.run(&store).unwrap(), vec![canonical(&dir_path)]);
}

#[test]
fn test_invalid_flag_combinations() {
    let dir = TempDir::new().unwrap();
    let store = open_store(&dir);

    // Asking for directories only and files only at once is rejected
    // before the store is consulted.
    let list = List { tag: s("test"), dirs: true, files: true };
    assert_eq!(list.run(&store), Err(TagError::FilterConflict));

    let search = Search { tags: vec![s("test")], any: false, dirs: true, files: true, exclude: vec![] };
    assert_eq!(search.run(&store), Err(TagError::FilterConflict));
}

#[test]
fn test_nonexistent_paths() {
    let dir = TempDir::new().unwrap();
    let mut store = open_store(&dir);

    let add = add_cmd("test", vec![s("/path/that/does/not/exist")]);
    let result = add.run(&mut store, &add.paths);
    assert!(matches!(result, Err(TagError::PathNotFound(_))));
}

#[test]
fn test_empty_tag_results() {
    let dir = TempDir::new().unwrap();
    let store = open_store(&dir);

    let list = List { tag: s("nonexistenttag"), dirs: false, files: false };
    assert!(list.run(&store).unwrap().is_empty());
}

#[test]
fn test_complex_search_combinations() {
    let dir = TempDir::new().unwrap();
    let mut store = open_store(&dir);
    let (_f1, p1) = temp_file(&dir);
    let (_f2, p2) = temp_file(&dir);

    for tag in ["work", "urgent"] {
        let add = add_cmd(tag, vec![p1.clone()]);
        add.run(&mut store, &add.paths).unwrap();
    }
    for tag in ["work", "done"] {
        let add = add_cmd(tag, vec![p2.clone()]);
        add.run(&mut store, &add.paths).unwrap();
    }

    // Any of the two, excluding what is done: only the urgent one is left.
    let search = Search {
        tags: vec![s("work"), s("urgent")],
        any: true,
        dirs: false,
        files: false,
        exclude: vec![s("done")],
    };
    let found = search.run(&store).unwrap();
    assert_eq!(found, vec![canonical(&p1)]);
}

#[test]
fn test_autotag_groups() {
    let dir = TempDir::new().unwrap();
    let mut store = open_store(&dir);
    let (_f1, p1) = temp_file(&dir);
    let (_f2, p2) = temp_file(&dir);

    let autotag = Autotag { paths: vec![p1.clone(), p2.clone()], recursive: false, hidden: false };
    let groups = vec![
        TagGroup { tag: s("file"), paths: vec![p1.clone(), p2.clone()] },
        TagGroup { tag: s("small"), paths: vec![p1.clone()] },
    ];
    autotag.run(&mut store, &groups).unwrap();

    assert_eq!(store.list_tagged(&s("file")).unwrap().len(), 2);
    assert_eq!(store.list_tagged(&s("small")).unwrap(), vec![canonical(&p1)]);
}

#[test]
fn test_autotag_partial_failure() {
    let dir = TempDir::new().unwrap();
    let mut store = open_store(&dir);
    let (_f1, p1) = temp_file(&dir);

    let autotag = Autotag { paths: vec![p1.clone()], recursive: false, hidden: false };
    let groups = vec![
        TagGroup { tag: s("file"), paths: vec![p1.clone()] },
        TagGroup { tag: s("broken"), paths: vec![s("/no/such/entry")] },
    ];
    let result = autotag.run(&mut store, &groups);
    assert!(matches!(result, Err(TagError::PathNotFound(_))));

    // The first batch stays committed; the failing one left nothing.
    assert_eq!(store.list_tagged(&s("file")).unwrap().len(), 1);
    assert!(store.list_tagged(&s("broken")).unwrap().is_empty());
}

#[test]
fn test_commands_dispatch() {
    let dir = TempDir::new().unwrap();
    let mut store = open_store(&dir);
    let (_file, path) = temp_file(&dir);

    let add = Commands::Add(add_cmd("via_dispatch", vec![path.clone()]));
    let shown = add.run(&mut store, &CommandInput::Resolved(vec![path.clone()])).unwrap();
    assert!(shown.is_empty());

    let list = Commands::List(List { tag: s("via_dispatch"), dirs: false, files: false });
    let shown = list.run(&mut store, &CommandInput::Resolved(vec![])).unwrap();
    assert_eq!(shown, vec![canonical(&path)]);
}
