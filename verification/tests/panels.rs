use kaku_sftp::listing::{describe_local_error, list_local, list_remote, Found, LocalError, Meta};
use kaku_sftp::panel::Panel;
use kaku_sftp::paths::{
    base_name, file_name, join_path, local_part, parent_dir, parent_path, push_path, remote_part,
    shorten_path, shorten_path_from,
};
use kaku_sftp::text::is_white;
use kaku_sftp::types::{permission_string, sort_entries, FileEntry, PanelSide};

fn os_error(code: i32) -> LocalError {
    let err = std::io::Error::from_raw_os_error(code);
    LocalError { code: err.raw_os_error(), text: err.to_string() }
}

/// macOS denials arrive as a bare `Operation not permitted`; the panel has
/// to name the fix, because the user sees no prompt.
#[test]
fn permission_denied_names_the_fix() {
    let message = describe_local_error("/Users/me/Documents", &os_error(1));
    assert!(message.contains("System Settings"), "{}", message);
    assert!(message.contains("/Users/me/Documents"), "{}", message);
}

#[test]
fn other_local_errors_keep_the_os_message() {
    let message = describe_local_error("/nope", &os_error(2));
    assert!(message.contains("/nope"), "{}", message);
    assert!(!message.contains("System Settings"), "{}", message);
}

fn entry(name: &str, is_dir: bool) -> FileEntry {
    FileEntry { name: name.to_string(), is_dir, is_symlink: false, size: 1, mode: Some(0o644) }
}

fn names(panel: &Panel) -> Vec<String> {
    panel.entries.iter().map(|e| e.name.clone()).collect()
}

/// The filter narrows the listing without touching the server, so a second
/// filter or a cleared one always sees the full set again.
#[test]
fn filter_narrows_and_restores_the_listing() {
    let mut panel = Panel::new("/tmp".to_string());
    panel.set_entries(vec![
        entry("alpha.txt", false),
        entry("beta.txt", false),
        entry("Gamma.md", false),
        entry("dir", true),
    ]);
    assert_eq!(panel.entries.len(), 4);

    panel.set_filter(Some("eta".to_string()));
    assert_eq!(names(&panel), vec!["beta.txt"]);

    // Case-insensitive, and matching anywhere in the name.
    panel.set_filter(Some("mma".to_string()));
    assert_eq!(names(&panel), vec!["Gamma.md"]);

    panel.set_filter(None);
    assert_eq!(panel.entries.len(), 4);
}

#[test]
fn history_walks_back_and_forward() {
    let mut panel = Panel::new("/a".to_string());
    panel.record_visit("/a");
    panel.record_visit("/a/b");
    panel.record_visit("/a/b/c");

    assert_eq!(panel.back().as_deref(), Some("/a/b"));
    assert_eq!(panel.back().as_deref(), Some("/a"));
    assert_eq!(panel.back(), None);
    assert_eq!(panel.forward().as_deref(), Some("/a/b"));

    // Visiting somewhere new drops the forward branch.
    panel.record_visit("/a/x");
    assert_eq!(panel.forward(), None);
    assert_eq!(panel.back().as_deref(), Some("/a/b"));
}

#[test]
fn join_and_parent_paths_roundtrip() {
    assert_eq!(join_path("/home/u", "file"), "/home/u/file");
    assert_eq!(join_path("/", "file"), "/file");
    assert_eq!(parent_path("/home/u"), "/home");
    assert_eq!(parent_path("/home"), "/");
    assert_eq!(parent_path("/"), "/");
    assert_eq!(parent_path("/home/u/"), "/home");
}

#[test]
fn shorten_path_prefers_tilde_and_tail() {
    let home = dirs_next::home_dir().unwrap().to_string_lossy().to_string();
    let deep = format!("{}/a/b/c/d/e", home);
    let shortened = shorten_path(&deep, 20);
    assert!(shortened.starts_with("~/"));
    assert!(shortened.chars().count() <= 20);
}

#[test]
fn panel_cursor_clamps_within_window() {
    let mut panel = Panel::new("/".into());
    panel.entries = (0..30)
        .map(|i| FileEntry {
            name: format!("f{i}"),
            is_dir: false,
            is_symlink: false,
            size: 0,
            mode: None,
        })
        .collect();
    panel.jump_to(29, 10);
    assert_eq!(panel.cursor, 29);
    assert_eq!(panel.offset, 20);
    panel.jump_to(0, 10);
    assert_eq!(panel.offset, 0);
}

#[test]
fn action_targets_prefers_marks_over_cursor() {
    let mut panel = Panel::new("/".into());
    panel.entries = vec![
        FileEntry { name: "a".into(), is_dir: false, is_symlink: false, size: 1, mode: None },
        FileEntry { name: "b".into(), is_dir: false, is_symlink: false, size: 2, mode: None },
    ];
    panel.cursor = 1;
    assert_eq!(panel.action_targets().len(), 1);
    assert_eq!(panel.action_targets()[0].1.name, "b");
    panel.marked.insert(0);
    assert_eq!(panel.action_targets().len(), 1);
    assert_eq!(panel.action_targets()[0].1.name, "a");
}

#[test]
fn permission_string_renders_classic_modes() {
    assert_eq!(permission_string(0o755, true, false), "drwxr-xr-x");
    assert_eq!(permission_string(0o644, false, false), "-rw-r--r--");
    assert_eq!(permission_string(0o600, false, false), "-rw-------");
    assert_eq!(permission_string(0o777, false, true), "lrwxrwxrwx");
    assert_eq!(permission_string(0, false, false), "----------");
}

#[test]
fn sort_entries_puts_dirs_first_case_insensitive() {
    let mut entries = vec![
        FileEntry { name: "b.txt".into(), is_dir: false, is_symlink: false, size: 1, mode: None },
        FileEntry { name: "Zebra".into(), is_dir: true, is_symlink: false, size: 0, mode: None },
        FileEntry { name: "apple".into(), is_dir: false, is_symlink: false, size: 2, mode: None },
        FileEntry { name: "Alpha".into(), is_dir: true, is_symlink: false, size: 0, mode: None },
    ];
    sort_entries(&mut entries);
    let names: Vec<&str> = entries.iter().map(|e| e.name.as_str()).collect();
    assert_eq!(names, vec!["Alpha", "Zebra", "apple", "b.txt"]);
}

#[test]
fn part_files_sit_next_to_their_destination() {
    assert_eq!(local_part("/tmp/a.bin"), "/tmp/.kaku-part.a.bin");
    assert_eq!(remote_part("/root/a.bin"), "/root/.kaku-part.a.bin");
    // A relative destination with no directory component still gets a
    // sibling part file rather than landing somewhere else.
    assert_eq!(remote_part("a.bin"), ".kaku-part.a.bin");
    // A nested destination keeps the part next to the file, so the publish
    // rename never crosses directories.
    assert_eq!(remote_part("/root/sub/a.bin"), "/root/sub/.kaku-part.a.bin");
    assert_eq!(parent_dir(&local_part("/tmp/sub/a.bin")).as_deref(), Some("/tmp/sub"));
    assert_eq!(parent_dir(&remote_part("/root/sub/a.bin")).as_deref(), Some("/root/sub"));
}

#[test]
fn sorting_keeps_names_that_compare_alike_in_order() {
    let mut entries = vec![entry("B", false), entry("a", false), entry("b", false)];
    sort_entries(&mut entries);
    let names: Vec<&str> = entries.iter().map(|e| e.name.as_str()).collect();
    assert_eq!(names, vec!["a", "B", "b"]);
}

#[test]
fn hidden_entries_show_on_demand() {
    let mut panel = Panel::new("/".into());
    panel.set_entries(vec![entry(".git", true), entry("src", true)]);
    assert_eq!(names(&panel), vec!["src"]);
    panel.toggle_hidden();
    panel.set_entries(vec![entry(".git", true), entry("src", true)]);
    assert_eq!(names(&panel), vec![".git", "src"]);
}

#[test]
fn the_cursor_stops_at_both_ends() {
    let mut panel = Panel::new("/".into());
    panel.move_cursor(1, 10);
    assert_eq!(panel.cursor, 0);
    panel.set_entries(vec![entry("a", false), entry("b", false)]);
    panel.move_cursor(100, 10);
    assert_eq!(panel.cursor, 1);
    panel.move_cursor(-100, 10);
    assert_eq!(panel.cursor, 0);
}

#[test]
fn sides_have_labels_and_opposites() {
    assert_eq!(PanelSide::Local.label(), "Local");
    assert_eq!(PanelSide::Remote.label(), "Remote");
    assert_eq!(PanelSide::Local.other(), PanelSide::Remote);
}

#[test]
fn paths_split_like_path_buffers_do() {
    assert_eq!(file_name("/a/b.txt").as_deref(), Some("b.txt"));
    assert_eq!(file_name("/a/b/").as_deref(), Some("b"));
    assert_eq!(file_name("/a/."). as_deref(), Some("a"));
    assert_eq!(file_name("/a/.."), None);
    assert_eq!(file_name("/"), None);
    assert_eq!(parent_dir("/"), None);
    assert_eq!(parent_dir("a").as_deref(), Some(""));
    for path in ["/a/b.txt", "/a/b/", "/a/.", "a", "./x", "/", ".", "..", "a/..", "//a//b//"] {
        let std_path = std::path::Path::new(path);
        assert_eq!(
            file_name(path),
            std_path.file_name().map(|n| n.to_string_lossy().to_string()),
            "file name of {path:?}"
        );
        assert_eq!(
            parent_dir(path),
            std_path.parent().map(|p| p.to_string_lossy().to_string()),
            "parent of {path:?}"
        );
        let joined = std_path.join("n").to_string_lossy().to_string();
        assert_eq!(push_path(path, "n"), joined, "join to {path:?}");
    }
    assert_eq!(base_name("/remote/photos/").as_deref(), Some("photos"));
}

#[test]
fn short_paths_stay_as_they_are() {
    assert_eq!(shorten_path_from("/home/me", "/etc", 30), "/etc");
    assert_eq!(shorten_path_from("/home/me", "/home/me/x", 30), "/home/me/x");
    assert_eq!(shorten_path_from("/home/me", "/home/me/long/name", 14), "~/long/name");
}

fn meta(is_dir: bool, size: u64, mode: u32) -> Meta {
    Meta { is_dir, size: Some(size), mode: Some(mode) }
}

#[test]
fn listings_follow_links() {
    let link = Found {
        path: "docs".into(),
        is_symlink: true,
        link: meta(false, 7, 0o120777),
        target: Some(meta(true, 4096, 0o40755)),
    };
    let entries = list_local("/x", Ok(vec![link])).unwrap();
    assert!(entries[0].is_dir && entries[0].is_symlink);
    assert_eq!(entries[0].size, 0);
    assert_eq!(entries[0].mode, Some(0o755));

    let file = Found {
        path: "/srv/a.txt".into(),
        is_symlink: false,
        link: meta(false, 12, 0o100644),
        target: None,
    };
    let entries = list_remote("/srv", Ok(vec![file])).unwrap();
    assert_eq!(entries[0].name, "a.txt");
    assert_eq!(entries[0].size, 12);
    assert_eq!(entries[0].mode, Some(0o644));
    assert_eq!(list_remote("/srv", Err("gone".into())).unwrap_err(), "/srv: gone");
    assert_eq!(
        list_local("/x", Err(LocalError { code: Some(13), text: "denied".into() })).unwrap_err(),
        "/x: denied"
    );
}

#[test]
fn white_space_is_that_of_unicode() {
    for n in 0..=0x10ffffu32 {
        if let Some(c) = char::from_u32(n) {
            assert_eq!(is_white(c), c.is_whitespace(), "{n:x}");
        }
    }
}
