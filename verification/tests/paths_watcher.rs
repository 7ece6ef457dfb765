use mdtui::paths::{has_md_extension, reject_dotdot, should_ignore};
use mdtui::watcher::{
    to_fs_event, FsEvent, PendingEvents, PendingKind, RawEvent, RawKind, RenameMode,
};

// ── has_md_extension ─────────────────────────────────────────

#[test]
fn has_md_extension_ascii_lowercase() {
    assert!(has_md_extension("readme.md"));
}

#[test]
fn has_md_extension_ascii_uppercase() {
    assert!(has_md_extension("README.MD"));
}

#[test]
fn has_md_extension_mixed_case() {
    assert!(has_md_extension("Notes.Md"));
}

#[test]
fn has_md_extension_cjk_filename() {
    assert!(has_md_extension("日本語.md"));
}

#[test]
fn has_md_extension_emoji_filename() {
    assert!(has_md_extension("📝notes.md"));
}

#[test]
fn has_md_extension_no_extension() {
    assert!(!has_md_extension("justtext"));
}

#[test]
fn has_md_extension_dot_only() {
    assert!(!has_md_extension(".md"));
}

#[test]
fn has_md_extension_empty_string() {
    assert!(!has_md_extension(""));
}

#[test]
fn has_md_extension_other_extension() {
    assert!(!has_md_extension("file.txt"));
}

#[test]
fn has_md_extension_double_extension() {
    assert!(has_md_extension("archive.tar.md"));
}

#[test]
fn has_md_extension_reads_only_the_file_name() {
    assert!(has_md_extension("docs/guide.md"));
    assert!(!has_md_extension("notes.md/inner"));
    assert!(!has_md_extension("docs/.."));
}

// ── reject_dotdot ────────────────────────────────────────────

#[test]
fn reject_dotdot_refuses_parent_components() {
    let err = reject_dotdot("../escape.md").unwrap_err();
    assert!(err.contains(".."));
    assert_eq!(err, "path must not contain '..' components: ../escape.md");
    assert!(reject_dotdot("a/../b").is_err());
    assert!(reject_dotdot("a/..").is_err());
}

#[test]
fn reject_dotdot_accepts_plain_paths() {
    assert!(reject_dotdot("abc/def/ghi.md").is_ok());
    assert!(reject_dotdot("a..b/c...d").is_ok());
    assert!(reject_dotdot("./x").is_ok());
    assert!(reject_dotdot("").is_ok());
}

// ── should_ignore ────────────────────────────────────────────

#[test]
fn ignore_dotfile() {
    assert!(should_ignore("/tmp/.hidden"));
}

#[test]
fn ignore_backup_tilde() {
    assert!(should_ignore("/tmp/file.md~"));
}

#[test]
fn ignore_swp_case_insensitive() {
    assert!(should_ignore("/tmp/file.SWP"));
    assert!(should_ignore("/tmp/file.swx"));
}

#[test]
fn not_ignore_regular_md() {
    assert!(!should_ignore("/tmp/readme.md"));
}

#[test]
fn ignore_no_filename() {
    assert!(should_ignore(""));
}

#[test]
fn ignore_parent_and_root_paths() {
    assert!(should_ignore("/"));
    assert!(should_ignore("/tmp/.."));
    assert!(!should_ignore("/tmp/dir/"));
}

// ── process_raw_event ────────────────────────────────────────

fn event(kind: RawKind, paths: &[&str]) -> RawEvent {
    RawEvent { kind, paths: paths.iter().map(|p| p.to_string()).collect() }
}

#[test]
fn process_create_file() {
    let mut pending = PendingEvents::new();
    pending.process_raw_event(&event(RawKind::Create { is_folder: false }, &["/tmp/test.md"]), 10);
    let (kind, _) = pending.get("/tmp/test.md").unwrap();
    assert!(matches!(kind, PendingKind::Created { is_dir: false }));
}

#[test]
fn process_create_folder() {
    let mut pending = PendingEvents::new();
    pending.process_raw_event(&event(RawKind::Create { is_folder: true }, &["/tmp/subdir"]), 10);
    let (kind, _) = pending.get("/tmp/subdir").unwrap();
    assert!(matches!(kind, PendingKind::Created { is_dir: true }));
}

#[test]
fn process_modify_no_overwrite_create() {
    let mut pending = PendingEvents::new();
    pending.process_raw_event(&event(RawKind::Create { is_folder: false }, &["/tmp/test.md"]), 10);
    let (_, ts_before) = pending.get("/tmp/test.md").unwrap();
    pending.process_raw_event(&event(RawKind::Modify, &["/tmp/test.md"]), 25);
    let (kind, ts_after) = pending.get("/tmp/test.md").unwrap();
    assert!(matches!(kind, PendingKind::Created { .. }));
    assert!(ts_after >= ts_before);
    assert_eq!(ts_after, 25);
}

#[test]
fn process_remove() {
    let mut pending = PendingEvents::new();
    pending.process_raw_event(&event(RawKind::Remove, &["/tmp/test.md"]), 10);
    let (kind, _) = pending.get("/tmp/test.md").unwrap();
    assert!(matches!(kind, PendingKind::Removed));
}

#[test]
fn process_rename_both() {
    let mut pending = PendingEvents::new();
    pending.process_raw_event(
        &event(RawKind::Rename(RenameMode::Both), &["/tmp/old.md", "/tmp/new.md"]),
        10,
    );
    assert!(pending.get("/tmp/old.md").is_none());
    let (kind, _) = pending.get("/tmp/new.md").unwrap();
    match kind {
        PendingKind::RenamedBoth { from } => assert_eq!(from, "/tmp/old.md"),
        other => panic!("expected RenamedBoth, got {other:?}"),
    }
}

#[test]
fn process_ignores_dotfile() {
    let mut pending = PendingEvents::new();
    pending.process_raw_event(&event(RawKind::Create { is_folder: false }, &["/tmp/.gitignore"]), 10);
    assert_eq!(pending.len(), 0);
}

#[test]
fn process_rename_halves_and_other_modes() {
    let mut pending = PendingEvents::new();
    pending.process_raw_event(&event(RawKind::Rename(RenameMode::From), &["/tmp/a.md"]), 1);
    pending.process_raw_event(&event(RawKind::Rename(RenameMode::To), &["/tmp/b.md"]), 2);
    pending.process_raw_event(&event(RawKind::Rename(RenameMode::Any), &["/tmp/c.md"]), 3);
    pending.process_raw_event(&event(RawKind::Other, &["/tmp/d.md"]), 4);
    assert!(matches!(pending.get("/tmp/a.md").unwrap().0, PendingKind::RenamedFrom));
    assert!(matches!(pending.get("/tmp/b.md").unwrap().0, PendingKind::RenamedTo));
    assert!(matches!(pending.get("/tmp/c.md").unwrap().0, PendingKind::Modified));
    assert!(pending.get("/tmp/d.md").is_none());
    assert_eq!(pending.len(), 3);
}

#[test]
fn take_ready_waits_for_the_debounce_window() {
    let mut pending = PendingEvents::new();
    pending.process_raw_event(&event(RawKind::Modify, &["/tmp/a.md"]), 100);
    pending.process_raw_event(&event(RawKind::Modify, &["/tmp/b.md"]), 300);
    let ready = pending.take_ready(399, 300);
    assert!(ready.is_empty());
    let ready = pending.take_ready(400, 300);
    assert_eq!(ready.len(), 1);
    assert_eq!(ready[0].0, "/tmp/a.md");
    assert!(matches!(ready[0].1, PendingKind::Modified));
    assert_eq!(pending.len(), 1);
    let ready = pending.take_ready(1000, 300);
    assert_eq!(ready.len(), 1);
    assert_eq!(ready[0].0, "/tmp/b.md");
    assert_eq!(pending.len(), 0);
}

// ── to_fs_event ──────────────────────────────────────────────

#[test]
fn to_fs_event_modified() {
    let ev = to_fs_event(String::from("/tmp/test.md"), PendingKind::Modified, false);
    assert!(matches!(ev, FsEvent::FileModified(_)));
}

#[test]
fn to_fs_event_renamed_from_becomes_removed() {
    let ev = to_fs_event(String::from("/tmp/test.md"), PendingKind::RenamedFrom, false);
    assert!(matches!(ev, FsEvent::EntryRemoved(_)));
}

#[test]
fn to_fs_event_other_kinds() {
    match to_fs_event(String::from("/tmp/d"), PendingKind::RenamedTo, true) {
        FsEvent::EntryCreated { path, is_dir } => {
            assert_eq!(path, "/tmp/d");
            assert!(is_dir);
        }
        other => panic!("unexpected {other:?}"),
    }
    match to_fs_event(
        String::from("/tmp/new.md"),
        PendingKind::RenamedBoth { from: String::from("/tmp/old.md") },
        false,
    ) {
        FsEvent::EntryRenamed { from, to } => {
            assert_eq!(from, "/tmp/old.md");
            assert_eq!(to, "/tmp/new.md");
        }
        other => panic!("unexpected {other:?}"),
    }
    assert!(matches!(
        to_fs_event(String::from("/x.md"), PendingKind::Created { is_dir: false }, true),
        FsEvent::EntryCreated { is_dir: false, .. }
    ));
}
