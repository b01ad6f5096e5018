use simplecc::lsp::recent::{FileChange, RecentChanges};
use simplecc::strmap::StrMap;
use simplecc::workspace_watcher::{
    collect_changes, is_lsp_workspace_file, merge_event, merge_path, pending_change, FileEvent,
    FileEventKind, CHANGED, CREATED, DELETED,
};

fn event(kind: FileEventKind, paths: &[&str]) -> FileEvent {
    FileEvent { kind, paths: paths.iter().map(|path| path.as_bytes().to_vec()).collect() }
}

#[test]
fn filters_the_same_workspace_files_as_julia_language_server() {
    for path in [
        "src/main.jl",
        "notes/readme.md",
        "Project.toml",
        "Manifest-v1.12.toml",
        ".JuliaLint.toml",
    ] {
        assert!(is_lsp_workspace_file(path.as_bytes()), "{path}");
    }
    for path in ["target/cache.bin", ".git/index", "data/table.csv"] {
        assert!(!is_lsp_workspace_file(path.as_bytes()), "{path}");
    }
}

#[test]
fn filters_other_project_files() {
    for path in ["a/JuliaProject.toml", "b/Manifest.toml", "JuliaManifest-v2.toml", "x.jmd"] {
        assert!(is_lsp_workspace_file(path.as_bytes()), "{path}");
    }
    for path in ["Manifest-v1.12.txt", "xProject.toml", ".jl", "jl", "a.jl/", "", "/"] {
        assert_eq!(
            is_lsp_workspace_file(path.as_bytes()),
            path == "a.jl/",
            "{path}"
        );
    }
}

#[test]
fn maps_create_change_delete_and_atomic_rename() {
    let mut pending = StrMap::new();
    merge_event(&mut pending, &event(FileEventKind::Create, &["new.jl"]));
    merge_event(&mut pending, &event(FileEventKind::Remove, &["old.jl"]));
    merge_event(&mut pending, &event(FileEventKind::RenameBoth, &["temp.jl", "saved.jl"]));

    assert_eq!(pending_change(&pending, b"new.jl"), Some(CREATED));
    assert_eq!(pending_change(&pending, b"old.jl"), Some(DELETED));
    assert_eq!(pending_change(&pending, b"temp.jl"), Some(DELETED));
    assert_eq!(pending_change(&pending, b"saved.jl"), Some(CREATED));
}

#[test]
fn a_write_does_not_hide_a_creation_or_a_deletion() {
    let mut pending = StrMap::new();
    merge_path(&mut pending, b"a.jl", CREATED);
    merge_path(&mut pending, b"a.jl", CHANGED);
    assert_eq!(pending_change(&pending, b"a.jl"), Some(CREATED));
    merge_path(&mut pending, b"a.jl", DELETED);
    merge_path(&mut pending, b"a.jl", CHANGED);
    assert_eq!(pending_change(&pending, b"a.jl"), Some(DELETED));
    merge_path(&mut pending, b"a.jl", CREATED);
    assert_eq!(pending_change(&pending, b"a.jl"), Some(CREATED));
    merge_path(&mut pending, b"b.jl", CHANGED);
    merge_path(&mut pending, b"b.jl", CHANGED);
    assert_eq!(pending_change(&pending, b"b.jl"), Some(CHANGED));
}

#[test]
fn half_renames_and_other_events() {
    let mut pending = StrMap::new();
    merge_event(&mut pending, &event(FileEventKind::RenameFrom, &["gone.jl"]));
    merge_event(&mut pending, &event(FileEventKind::RenameTo, &["here.jl"]));
    merge_event(&mut pending, &event(FileEventKind::RenameBoth, &["one.jl"]));
    merge_event(&mut pending, &event(FileEventKind::Modify, &["x.jl", "y.jl"]));
    merge_event(&mut pending, &event(FileEventKind::Other, &["never.jl"]));
    assert_eq!(pending_change(&pending, b"gone.jl"), Some(DELETED));
    assert_eq!(pending_change(&pending, b"here.jl"), Some(CREATED));
    assert_eq!(pending_change(&pending, b"one.jl"), Some(CHANGED));
    assert_eq!(pending_change(&pending, b"x.jl"), Some(CHANGED));
    assert_eq!(pending_change(&pending, b"y.jl"), Some(CHANGED));
    assert_eq!(pending_change(&pending, b"never.jl"), None);
}

#[test]
fn changes_are_collected_as_uris() {
    let mut pending = StrMap::new();
    merge_path(&mut pending, b"/w/My Project/a.jl", CREATED);
    merge_path(&mut pending, b"/w/table.csv", CHANGED);
    merge_path(&mut pending, b"relative.jl", DELETED);
    let changes = collect_changes(&pending);
    assert_eq!(changes.len(), 1);
    assert_eq!(changes[0].uri, "file:///w/My%20Project/a.jl");
    assert_eq!(changes[0].change_type, CREATED);
}

#[test]
fn one_file_has_one_change_however_its_path_is_written() {
    let mut pending = StrMap::new();
    merge_path(&mut pending, b"/a//b.jl", CREATED);
    merge_path(&mut pending, b"/a/b.jl", CHANGED);
    merge_path(&mut pending, b"/a/./b.jl/", CHANGED);
    assert_eq!(pending_change(&pending, b"/a/b.jl"), Some(CREATED));
    assert_eq!(pending_change(&pending, b"/a/../a/b.jl"), None);
    assert_eq!(pending_change(&pending, b"a/b.jl"), None);
    let changes = collect_changes(&pending);
    assert_eq!(changes.len(), 1);
    assert_eq!(changes[0].uri, "file:///a/b.jl");
    assert_eq!(changes[0].change_type, CREATED);

    merge_path(&mut pending, b"/a/b.jl", DELETED);
    assert_eq!(pending_change(&pending, b"/a//b.jl"), Some(DELETED));
    merge_path(&mut pending, b"./b.jl", CREATED);
    merge_path(&mut pending, b"b.jl", DELETED);
    assert_eq!(pending_change(&pending, b"././b.jl"), Some(CREATED));
    assert_eq!(pending_change(&pending, b"b.jl"), Some(DELETED));
}

#[test]
fn paths_need_not_be_text() {
    assert!(is_lsp_workspace_file(b"/w/\xff.jl"));
    assert!(is_lsp_workspace_file(b"/\xff/Project.toml"));
    assert!(is_lsp_workspace_file("Manifest-vü.toml".as_bytes()));
    assert!(!is_lsp_workspace_file(b"Manifest-v\xff.toml"));
    assert!(!is_lsp_workspace_file(b"/w/a.\xff"));

    let mut pending = StrMap::new();
    merge_path(&mut pending, b"/w/\xff b.jl", CREATED);
    merge_path(&mut pending, b"/w/\xfe b.jl", DELETED);
    assert_eq!(pending_change(&pending, b"/w/\xff b.jl"), Some(CREATED));
    assert_eq!(pending_change(&pending, b"/w/\xfe b.jl"), Some(DELETED));
    let mut uris: Vec<String> =
        collect_changes(&pending).into_iter().map(|change| change.uri).collect();
    uris.sort();
    assert_eq!(uris, ["file:///w/%FE%20b.jl", "file:///w/%FF%20b.jl"]);
}

#[test]
fn recent_changes_are_kept_for_a_while() {
    let mut recent = RecentChanges::new();
    let change = FileChange { uri: "file:///a".to_string(), change_type: 2 };
    let other = FileChange { uri: "file:///a".to_string(), change_type: 1 };
    recent.note(&change, 100);
    assert_eq!(recent.time_of(&change), Some(100));
    assert_eq!(recent.time_of(&other), None);
    recent.note(&change, 250);
    recent.note(&other, 2000);
    assert_eq!(recent.time_of(&change), Some(250));
    recent.keep_within(2249, 2000);
    assert_eq!(recent.time_of(&change), Some(250));
    recent.keep_within(2250, 2000);
    assert_eq!(recent.time_of(&change), None);
    assert_eq!(recent.time_of(&other), Some(2000));
}
