use mdtui::file_ops::{create_dir_target, create_file_target, ensure_within_root, move_target, rename_target};

#[test]
fn create_file_simple_name() {
    let result = create_file_target("/r", "hello.md").unwrap();
    assert!(result.ends_with("hello.md"));
    assert_eq!(result, "/r/hello.md");
}

#[test]
fn create_file_nested_path() {
    let result = create_file_target("/r", "abc/def/ghi.md").unwrap();
    assert!(result.ends_with("abc/def/ghi.md"));
}

#[test]
fn create_file_auto_md_append() {
    let result = create_file_target("/r", "notes").unwrap();
    assert!(result.ends_with("notes.md"));
    assert_eq!(result, "/r/notes.md");
}

#[test]
fn create_file_already_has_md_uppercase() {
    let result = create_file_target("/r", "README.MD").unwrap();
    assert!(result.ends_with("README.MD"));
}

#[test]
fn create_file_other_extension_gets_md() {
    assert_eq!(create_file_target("/r", "todo.txt").unwrap(), "/r/todo.txt.md");
}

#[test]
fn create_file_path_escape_attempt() {
    let err = create_file_target("/r", "../escape.md").unwrap_err();
    assert!(err.contains(".."));
    assert_eq!(err, "path must not contain '..' components: ../escape.md");
}

#[test]
fn create_dir_simple_name() {
    assert_eq!(create_dir_target("/r", "new_dir").unwrap(), "/r/new_dir");
}

#[test]
fn create_dir_nested_path() {
    let result = create_dir_target("/r", "a/b/c").unwrap();
    assert!(result.ends_with("a/b/c"));
}

#[test]
fn create_dir_rejects_dotdot() {
    assert!(create_dir_target("/r", "a/../../b").is_err());
}

#[test]
fn rename_entry_happy_path() {
    let result = rename_target("/r/old.md", "new.md").unwrap();
    assert!(result.ends_with("new.md"));
    assert_eq!(result, "/r/new.md");
}

#[test]
fn rename_entry_without_parent_fails() {
    assert_eq!(rename_target("/", "x.md").unwrap_err(), "path has no parent");
}

#[test]
fn move_entry_happy_path() {
    let (dir, result) = move_target("/r", "/r/readme.md", "docs").unwrap();
    assert_eq!(dir, "/r/docs");
    assert!(result.ends_with("docs/readme.md"));
}

#[test]
fn move_entry_creates_intermediate_dirs() {
    let (dir, result) = move_target("/r", "/r/file.md", "deep/nested/dir").unwrap();
    assert_eq!(dir, "/r/deep/nested/dir");
    assert!(result.ends_with("deep/nested/dir/file.md"));
}

#[test]
fn ensure_within_root_accepts_inside_and_refuses_outside() {
    assert!(ensure_within_root("/r", "/r/a/b").is_ok());
    assert_eq!(
        ensure_within_root("/r", "/other").unwrap_err(),
        "path escapes root directory: /other is not within /r"
    );
}
