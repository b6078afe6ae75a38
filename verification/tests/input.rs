use kaku_sftp::cache::open_cache_path;
use kaku_sftp::input::Handled;
use kaku_sftp::keys::{InputEvent, KeyCode, KeyEvent, MouseEvent, MOD_ALT, MOD_CTRL, MOD_NONE, MOD_SHIFT};
use kaku_sftp::paths::{jump_target, jump_target_from};
use kaku_sftp::queue::{direction_between, folder_prompt, transfer_paths};
use kaku_sftp::state::{
    App, AuthReply, Clipboard, Effect, InputMode, OpRequest, PendingTransfer, ScanRequest,
};
use kaku_sftp::transfer::{Direction, TransferManager};
use kaku_sftp::types::{FileEntry, PanelSide, SftpPalette, SrgbaTuple};

fn color(r: f32, g: f32, b: f32) -> SrgbaTuple {
    SrgbaTuple(r.to_bits(), g.to_bits(), b.to_bits(), 1.0f32.to_bits())
}

fn test_app() -> App {
    let palette = SftpPalette {
        bg: color(0.0, 0.0, 0.0),
        fg: color(1.0, 1.0, 1.0),
        accent: color(0.5, 0.5, 0.5),
        border: color(0.3, 0.3, 0.3),
        header: color(0.4, 0.4, 0.4),
        dir: color(0.2, 0.4, 0.8),
    };
    let mut app = App::new(100, 20, palette, "/tmp".to_string());
    app.focus = PanelSide::Remote;
    let panel = app.panel_mut(PanelSide::Remote);
    panel.path = "/remote".to_string();
    panel.set_entries(vec![FileEntry {
        name: "a.txt".into(),
        is_dir: false,
        is_symlink: false,
        size: 1,
        mode: Some(0o644),
    }]);
    app
}

fn row(x: u16, left: bool) -> MouseEvent {
    MouseEvent { x, y: 1, vert_wheel: false, wheel_positive: false, left }
}

fn press(key: KeyCode) -> KeyEvent {
    KeyEvent { key, modifiers: MOD_NONE }
}

fn letter(c: char) -> KeyEvent {
    press(KeyCode::Char(c))
}

fn ctrl(c: char) -> KeyEvent {
    KeyEvent { key: KeyCode::Char(c), modifiers: MOD_CTRL }
}

fn marked(app: &App) -> Vec<usize> {
    let mut v: Vec<usize> = app.panel(PanelSide::Remote).marked.iter().copied().collect();
    v.sort_unstable();
    v
}

fn entries(names: &[&str]) -> Vec<FileEntry> {
    names
        .iter()
        .map(|name| FileEntry {
            name: (*name).to_string(),
            is_dir: false,
            is_symlink: false,
            size: 8,
            mode: Some(0o644),
        })
        .collect()
}

fn many(app: &mut App, count: usize) {
    let names: Vec<String> = (0..count).map(|i| format!("f{i:02}.txt")).collect();
    app.panel_mut(PanelSide::Remote)
        .set_entries(entries(&names.iter().map(|s| s.as_str()).collect::<Vec<_>>()));
}

/// Queue transfers that all conflict with an existing destination.
fn conflicting(app: &mut App, names: &[&str]) {
    for name in names {
        app.pending.push(PendingTransfer {
            direction: Direction::Download,
            source: format!("/remote/{name}"),
            dest: format!("/tmp/{name}"),
            size: 4096,
            dest_size: Some(2048),
            cut_source: false,
        });
    }
    app.input_mode = Some(InputMode::ConfirmOverwrite);
}

fn folder(root: &str) -> ScanRequest {
    ScanRequest {
        side: PanelSide::Local,
        root: root.to_string(),
        dest: "/remote".to_string(),
        dest_side: PanelSide::Remote,
        cut_source: false,
    }
}

/// One physical click reaches the overlay as a press followed by a release
/// with no button held, so it must only select; opening is reserved for a
/// second press.
#[test]
fn one_click_selects_and_a_second_press_opens() {
    let mut app = test_app();
    app.handle_mouse(row(60, true), 0);
    app.handle_mouse(row(60, false), 1);
    assert!(app.take_requests().is_empty(), "a single click must not open the entry");

    // A drag keeps reporting the held button; it must not open either.
    // Clear the double-click window so each phase stands alone.
    app.last_click = None;
    app.handle_mouse(row(60, true), 2);
    app.handle_mouse(row(60, true), 3);
    app.handle_mouse(row(60, true), 4);
    app.handle_mouse(row(60, false), 5);
    assert!(app.take_requests().is_empty(), "dragging must not open the entry");

    app.last_click = None;
    app.handle_mouse(row(60, true), 6);
    app.handle_mouse(row(60, false), 7);
    app.handle_mouse(row(60, true), 8);
    assert!(
        matches!(app.take_requests().first(), Some(OpRequest::OpenRemote { .. })),
        "a double click must open the entry"
    );
}

/// Confirming a folder walk takes the request off the prompt queue.
/// Otherwise the scan comes back while the old prompt is still up, the
/// same folder is asked for again, and a second `y` queues it twice.
#[test]
fn folder_confirmation_clears_the_prompt() {
    let mut app = test_app();
    app.scan_queue.push(folder("/tmp/photos"));
    app.input_mode = Some(folder_prompt(app.scan_queue.first().unwrap()));
    app.confirm_folder(KeyCode::Char('y'));
    assert!(app.scan_queue.is_empty(), "confirmed folder stayed queued");
    assert!(app.input_mode.is_none(), "prompt survived the answer");
    assert!(matches!(app.take_requests().first(), Some(OpRequest::ScanTree { .. })));

    // Rejecting the next folder also leaves nothing behind.
    app.scan_queue.push(folder("/tmp/other"));
    app.input_mode = Some(folder_prompt(app.scan_queue.first().unwrap()));
    app.confirm_folder(KeyCode::Char('n'));
    assert!(app.scan_queue.is_empty());
    assert!(app.input_mode.is_none());
    assert!(app.take_requests().is_empty(), "a rejected folder was still scanned");
}

/// Ctrl+d/u and Ctrl+b/f move by half and full pages.
#[test]
fn ctrl_keys_move_by_page() {
    let mut app = test_app();
    many(&mut app, 60);
    app.rows = 25; // visible_rows = 20, so half = 10 and page = 20
    let visible = app.visible_rows();
    app.panel_mut(PanelSide::Remote).cursor = 30;

    app.handle_key(ctrl('d')).unwrap();
    assert_eq!(app.panel(PanelSide::Remote).cursor, 30 + visible / 2);
    app.handle_key(ctrl('u')).unwrap();
    assert_eq!(app.panel(PanelSide::Remote).cursor, 30);
    app.handle_key(ctrl('f')).unwrap();
    assert_eq!(app.panel(PanelSide::Remote).cursor, 30 + visible);
    app.handle_key(ctrl('b')).unwrap();
    assert_eq!(app.panel(PanelSide::Remote).cursor, 30);
}

/// Ctrl+r inverts the selection.
#[test]
fn ctrl_r_inverts_the_selection() {
    let mut app = test_app();
    many(&mut app, 3);
    app.panel_mut(PanelSide::Remote).marked.insert(0);

    app.handle_key(ctrl('r')).unwrap();
    assert_eq!(marked(&app), vec![1, 2]);

    app.handle_key(ctrl('r')).unwrap();
    assert_eq!(marked(&app), vec![0]);
}

/// Y and X drop the yank state.
#[test]
fn y_and_x_cancel_the_yank() {
    let mut app = test_app();
    for key in ['Y', 'X'] {
        app.clipboard = Some(Clipboard {
            side: PanelSide::Remote,
            items: vec![("/remote/a.txt".to_string(), false, 1024)],
            cut: true,
        });
        app.handle_key(letter(key)).unwrap();
        assert!(app.clipboard.is_none(), "{} left the yank in place", key);
        assert_eq!(app.message.as_deref(), Some("yank cancelled"));
    }
}

/// Z jumps back to the directory the remote session started in.
#[test]
fn z_returns_to_the_remote_home() {
    let mut app = test_app();
    app.remote_home = Some("/home/admin".to_string());
    app.panel_mut(PanelSide::Remote).path = "/home/admin/deep".to_string();
    app.focus = PanelSide::Local;

    app.handle_key(letter('Z')).unwrap();

    assert_eq!(app.panel(PanelSide::Remote).path, "/home/admin");
    assert_eq!(app.focus, PanelSide::Remote);
    assert!(matches!(
        app.take_requests().first(),
        Some(OpRequest::Ls { side: PanelSide::Remote, path }) if path == "/home/admin"
    ));
}

/// c c copies paths and c f copies names, one per line, for the marks.
#[test]
fn c_copies_paths_or_names() {
    let mut app = test_app();
    app.panel_mut(PanelSide::Remote).set_entries(entries(&["a.txt", "b.txt", "c.txt"]));
    app.panel_mut(PanelSide::Remote).marked.insert(0);
    app.panel_mut(PanelSide::Remote).marked.insert(2);
    app.clipboard_sink = true;

    for (key, expected) in [('c', "/remote/a.txt\n/remote/c.txt"), ('f', "a.txt\nc.txt")] {
        app.handle_key(letter('c')).unwrap();
        app.handle_key(letter(key)).unwrap();
        match app.take_effects().last() {
            Some(Effect::CopyText { text }) => assert_eq!(text, expected),
            other => panic!("nothing was copied: {:?}", other),
        }
        assert!(!app.pending_c);
    }
}

/// Answering the last conflict must hand over to a folder that is still
/// waiting for its confirmation.
#[test]
fn answering_conflicts_hands_over_to_queued_folders() {
    let mut app = test_app();
    conflicting(&mut app, &["only.bin"]);
    app.scan_queue.push(ScanRequest {
        side: PanelSide::Remote,
        root: "/remote/photos".to_string(),
        dest: "/tmp".to_string(),
        dest_side: PanelSide::Local,
        cut_source: false,
    });

    app.decide_overwrite(KeyCode::Char('s'));
    assert!(app.pending.is_empty());
    match &app.input_mode {
        Some(InputMode::ConfirmFolder { name, .. }) => assert_eq!(name, "photos"),
        other => panic!("folder confirmation was not offered: {:?}", other),
    }
}

/// Two files with the same name in different remote directories must not
/// share one local cache file: editing it wrote back to both.
#[test]
fn opened_files_get_distinct_cache_paths() {
    let a = open_cache_path("user@host", "/home/u/a/report.txt");
    let b = open_cache_path("user@host", "/home/u/b/report.txt");
    let other_host = open_cache_path("other@host", "/home/u/a/report.txt");
    assert_ne!(a, b);
    assert_ne!(a, other_host);
    assert!(a.ends_with("report.txt"));
}

/// A local copy never stands where the directory of another has to be.
#[test]
fn opened_files_do_not_block_each_other() {
    let sources = ["/_x", "/x/b", "_x", "x/b", "/x", "/x/-", "/-/x", "/x/-/b", "x", "/"];
    for a in sources {
        for b in sources {
            let first = open_cache_path("h", a);
            let second = open_cache_path("h", b);
            assert!(a == b || first != second, "{a} {b}");
            assert!(!second.starts_with(&format!("{first}/")), "{a} {b}");
        }
    }
}

/// A forced paste overwrites what it pastes over and nothing later.
#[test]
fn a_forced_paste_leaves_no_answer_behind() {
    let mut app = test_app();
    app.handle_key(letter('P')).unwrap();
    assert_eq!(app.message.as_deref(), Some("nothing to paste (y copies, x cuts)"));
    assert!(app.overwrite_all.is_none());

    app.focus = PanelSide::Local;
    app.clipboard = Some(Clipboard {
        side: PanelSide::Local,
        items: vec![("/l/a.txt".to_string(), false, 1)],
        cut: false,
    });
    app.handle_key(letter('P')).unwrap();
    assert!(app.overwrite_all.is_none());
}

/// A half-typed chord does not swallow the next keystroke.
#[test]
fn another_key_drops_the_pending_prefix() {
    let mut app = test_app();
    app.handle_key(letter('c')).unwrap();
    assert!(app.pending_c);
    app.handle_key(letter('j')).unwrap();
    assert!(!app.pending_c);
    assert_eq!(app.panel(PanelSide::Remote).cursor, 0);
}

#[test]
fn chords_do_not_outlive_each_other() {
    let mut app = test_app();
    app.handle_key(letter('c')).unwrap();
    app.handle_key(letter('g')).unwrap();
    assert!(!app.pending_c && app.pending_g);
    app.handle_key(letter('f')).unwrap();
    assert!(!app.pending_g);
    assert!(matches!(app.input_mode, Some(InputMode::JumpToChar)));
    app.input_mode = None;

    app.handle_key(letter('g')).unwrap();
    app.handle_key(letter('c')).unwrap();
    assert!(app.pending_c && !app.pending_g);
}

/// F filters the listing, f jumps to the next name starting with a
/// character.
#[test]
fn f_filters_and_letter_f_jumps() {
    let mut app = test_app();
    app.panel_mut(PanelSide::Remote)
        .set_entries(entries(&["alpha.txt", "beta.txt", "bravo.txt"]));

    app.handle_key(letter('F')).unwrap();
    assert!(matches!(app.input_mode, Some(InputMode::Filter)));
    app.input_mode = None;

    app.panel_mut(PanelSide::Remote).cursor = 0;
    app.handle_key(letter('f')).unwrap();
    assert!(matches!(app.input_mode, Some(InputMode::JumpToChar)));
    app.handle_key(letter('b')).unwrap();
    assert_eq!(app.panel(PanelSide::Remote).cursor, 1);
    assert!(app.input_mode.is_none());
}

fn type_line(app: &mut App, name: &str) {
    for ch in name.chars() {
        app.handle_key(letter(ch)).unwrap();
    }
    app.handle_key(press(KeyCode::Enter)).unwrap();
}

/// `a` creates a file unless the typed name ends with `/`; F7 always
/// creates a directory.
#[test]
fn create_follows_the_trailing_slash() {
    let mut app = test_app();
    app.focus = PanelSide::Remote;

    app.handle_key(letter('a')).unwrap();
    type_line(&mut app, "notes.md");
    assert!(matches!(
        app.take_requests().first(),
        Some(OpRequest::Create { path, is_dir: false, .. }) if path == "/remote/notes.md"
    ));

    app.handle_key(letter('a')).unwrap();
    type_line(&mut app, "docs/");
    assert!(matches!(
        app.take_requests().first(),
        Some(OpRequest::Create { path, is_dir: true, .. }) if path == "/remote/docs"
    ));

    app.handle_key(press(KeyCode::Function(7))).unwrap();
    type_line(&mut app, "plain");
    assert!(matches!(
        app.take_requests().first(),
        Some(OpRequest::Create { path, is_dir: true, .. }) if path == "/remote/plain"
    ));
}

/// Some keyboards and IMEs deliver `?` as a shifted `/`, and a composed `?`
/// arrives as pasted text: all three must reach the key reference.
#[test]
fn question_mark_reaches_the_help_from_every_spelling() {
    for (key, modifiers) in [
        (KeyCode::Char('?'), MOD_NONE),
        (KeyCode::Char('?'), MOD_SHIFT),
        (KeyCode::Char('/'), MOD_SHIFT),
    ] {
        let mut app = test_app();
        app.handle_key(KeyEvent { key, modifiers }).unwrap();
        assert!(app.help, "{:?} with {:?} did not open the help", key, modifiers);
    }

    // A composed `?` arrives as pasted text in the overlay pane.
    let mut app = test_app();
    app.handle_input(&InputEvent::Paste("?".to_string()), 0);
    assert!(app.help, "a composed ? did not open the help");
}

/// Plain `/` still filters, and Shift+/ must not be treated as one.
#[test]
fn plain_slash_still_filters() {
    let mut app = test_app();
    app.handle_key(letter('/')).unwrap();
    assert!(matches!(app.input_mode, Some(InputMode::Filter)));
    assert!(!app.help);
}

/// `?` opens the key reference, and any key closes it again.
#[test]
fn question_mark_opens_the_help() {
    let mut app = test_app();
    app.handle_key(letter('?')).unwrap();
    assert!(app.help, "? did not open the key reference");

    app.handle_key(letter('j')).unwrap();
    assert!(!app.help, "a key press did not close the key reference");
}

/// `u` drops the whole selection; Space is the per-entry toggle.
#[test]
fn u_clears_the_selection() {
    let mut app = test_app();
    let panel = app.panel_mut(PanelSide::Remote);
    panel.set_entries(entries(&["a.txt", "b.txt", "c.txt"]));
    panel.marked.insert(0);
    panel.marked.insert(2);

    app.handle_key(letter('u')).unwrap();

    assert!(app.panel(PanelSide::Remote).marked.is_empty());
    assert_eq!(app.message.as_deref(), Some("selection cleared (2)"));
}

/// The selection belongs to the action it was made for.
#[test]
fn transfer_consumes_the_selection() {
    let mut app = test_app();
    let panel = app.panel_mut(PanelSide::Remote);
    panel.set_entries(entries(&["a.txt", "b.txt", "c.txt"]));
    panel.marked.insert(0);
    panel.marked.insert(1);

    app.transfer_marked();

    assert!(app.panel(PanelSide::Remote).marked.is_empty());
    assert_eq!(app.message.as_deref(), Some("2 files queued"));
}

/// One answer consumes exactly one queued transfer.
#[test]
fn one_answer_consumes_one_queued_transfer() {
    let mut app = test_app();
    conflicting(&mut app, &["a.bin", "b.bin"]);

    app.decide_overwrite(KeyCode::Char('o'));
    assert_eq!(app.pending.len(), 1);
    assert_eq!(app.pending[0].dest, "/tmp/b.bin");
    assert!(matches!(app.input_mode, Some(InputMode::ConfirmOverwrite)));

    app.decide_overwrite(KeyCode::Char('s'));
    assert!(app.pending.is_empty());
    assert!(app.input_mode.is_none());
}

/// The one-item queue is the exact shape that panicked.
#[test]
fn a_single_conflict_answers_without_panicking() {
    let mut app = test_app();
    conflicting(&mut app, &["only.bin"]);

    app.decide_overwrite(KeyCode::Char('o'));
    assert!(app.pending.is_empty());
    assert!(app.input_mode.is_none());
}

/// "overwrite all" has to clear the prompt itself.
#[test]
fn overwrite_all_clears_the_prompt() {
    let mut app = test_app();
    conflicting(&mut app, &["a.bin", "b.bin"]);

    app.decide_overwrite(KeyCode::Char('a'));
    assert!(app.pending.is_empty());
    assert!(app.input_mode.is_none());
    assert!(app.overwrite_all.is_none());
}

/// "skip all" drops the whole queue and the prompt with it.
#[test]
fn skip_all_clears_the_prompt() {
    let mut app = test_app();
    conflicting(&mut app, &["a.bin", "b.bin"]);

    app.decide_overwrite(KeyCode::Char('x'));
    assert!(app.pending.is_empty());
    assert!(app.input_mode.is_none());
}

#[test]
fn paste_direction_follows_the_two_sides() {
    assert_eq!(direction_between(PanelSide::Local, PanelSide::Remote), Direction::Upload);
    assert_eq!(direction_between(PanelSide::Remote, PanelSide::Local), Direction::Download);
    assert_eq!(direction_between(PanelSide::Remote, PanelSide::Remote), Direction::Copy);
    assert_eq!(direction_between(PanelSide::Local, PanelSide::Local), Direction::Copy);
}

#[test]
fn jump_target_resolves_paths() {
    assert_eq!(jump_target("/root/app", "/etc").as_deref(), Some("/etc"));
    assert_eq!(jump_target("/root/app", "sub/dir").as_deref(), Some("/root/app/sub/dir"));
    assert_eq!(jump_target("/root/app", "..").as_deref(), Some("/root"));
    assert_eq!(jump_target("/root/app", ".").as_deref(), Some("/root/app"));
    assert_eq!(jump_target("/root/app", "   "), None);
    let home = jump_target("/root/app", "~").unwrap_or_default();
    assert!(!home.is_empty() && home != "/root/app");
}

/// The engine always wants (remote, local).
#[test]
fn engine_paths_are_remote_then_local() {
    let upload = PendingTransfer {
        direction: Direction::Upload,
        source: "/local/a.bin".into(),
        dest: "/remote/a.bin".into(),
        size: 1,
        dest_size: None,
        cut_source: false,
    };
    assert_eq!(
        transfer_paths(&upload),
        ("/remote/a.bin".to_string(), "/local/a.bin".to_string())
    );

    let download = PendingTransfer {
        direction: Direction::Download,
        source: "/remote/a.bin".into(),
        dest: "/local/a.bin".into(),
        size: 1,
        dest_size: None,
        cut_source: false,
    };
    assert_eq!(
        transfer_paths(&download),
        ("/remote/a.bin".to_string(), "/local/a.bin".to_string())
    );
}

#[test]
fn home_paths_expand_below_a_given_home() {
    let home = Some("/home/me".to_string());
    assert_eq!(jump_target_from(home.clone(), "/x", "~").as_deref(), Some("/home/me"));
    assert_eq!(jump_target_from(home, "/x", "~/a").as_deref(), Some("/home/me/a"));
    assert_eq!(jump_target_from(None, "/x", "/y").as_deref(), Some("/y"));
}

#[test]
fn quit_keys_leave_the_browser() {
    let mut app = test_app();
    assert!(matches!(app.handle_key(letter('q')), Ok(Handled::Quit)));
    let mut app = test_app();
    assert!(matches!(app.handle_key(ctrl('c')), Ok(Handled::Quit)));
    // An unknown chord changes nothing.
    let mut app = test_app();
    let alt = KeyEvent { key: KeyCode::Char('q'), modifiers: MOD_ALT };
    assert!(app.handle_key(alt).is_err());
}

#[test]
fn space_marks_and_moves_on() {
    let mut app = test_app();
    many(&mut app, 3);
    app.handle_key(letter(' ')).unwrap();
    assert_eq!(marked(&app), vec![0]);
    assert_eq!(app.panel(PanelSide::Remote).cursor, 1);
}

#[test]
fn yank_and_paste_across_the_panes_transfers() {
    let mut app = test_app();
    app.session = true;
    app.transfers = Some(TransferManager::new());
    app.handle_key(letter('y')).unwrap();
    assert_eq!(
        app.clipboard.as_ref().map(|c| c.items.clone()),
        Some(vec![("/remote/a.txt".to_string(), false, 1)])
    );
    app.focus = PanelSide::Local;
    app.handle_key(letter('p')).unwrap();
    let manager = app.transfers.as_ref().unwrap();
    let statuses = manager.statuses();
    assert_eq!(statuses.len(), 1);
    assert_eq!(statuses[0].source, "/remote/a.txt");
    assert_eq!(statuses[0].dest, "/tmp/a.txt");
}

#[test]
fn a_local_paste_stays_on_this_machine() {
    let mut app = test_app();
    app.clipboard = Some(Clipboard {
        side: PanelSide::Local,
        items: vec![("/home/a.txt".to_string(), false, 3)],
        cut: true,
    });
    app.focus = PanelSide::Local;
    app.handle_key(letter('p')).unwrap();
    assert!(app.pending.is_empty());
    assert!(app.take_requests().iter().any(|r| matches!(
        r,
        OpRequest::LocalCopy { from, to, cut: true } if from == "/home/a.txt" && to == "/tmp/a.txt"
    )));
}

#[test]
fn a_password_answers_the_handshake() {
    let mut app = test_app();
    app.auth_reply = Some(AuthReply::Password);
    app.input_mode = Some(InputMode::Password {
        username: "u".into(),
        prompt: "Password".into(),
    });
    for ch in "pw".chars() {
        app.handle_key(letter(ch)).unwrap();
    }
    app.handle_key(press(KeyCode::Enter)).unwrap();
    assert!(app.input_mode.is_none());
    assert!(app.auth_reply.is_none());
    match app.take_effects().first() {
        Some(Effect::AnswerPassword { password }) => assert_eq!(password.as_deref(), Some("pw")),
        other => panic!("no answer: {:?}", other),
    }
}

#[test]
fn a_rejected_host_key_answers_no() {
    let mut app = test_app();
    app.auth_reply = Some(AuthReply::HostVerify);
    app.input_mode = Some(InputMode::ConfirmHostKey { message: "who?".into() });
    app.handle_key(press(KeyCode::Escape)).unwrap();
    match app.take_effects().first() {
        Some(Effect::AnswerHostKey { trust }) => assert!(!trust),
        other => panic!("no answer: {:?}", other),
    }
}

#[test]
fn the_wheel_moves_three_rows() {
    let mut app = test_app();
    many(&mut app, 30);
    let wheel = MouseEvent { x: 0, y: 5, vert_wheel: true, wheel_positive: false, left: false };
    assert!(app.handle_mouse(wheel, 0));
    assert_eq!(app.panel(PanelSide::Remote).cursor, 3);
    let wheel = MouseEvent { wheel_positive: true, ..wheel };
    app.handle_mouse(wheel, 1);
    assert_eq!(app.panel(PanelSide::Remote).cursor, 0);
}

/// A double click opens a directory, as a file manager does.
#[test]
fn a_double_click_enters_a_directory() {
    let mut app = test_app();
    app.panel_mut(PanelSide::Remote).entries[0].is_dir = true;
    app.handle_mouse(row(60, true), 0);
    app.handle_mouse(row(60, false), 1);
    app.handle_mouse(row(60, true), 2);
    assert!(matches!(
        app.take_requests().first(),
        Some(OpRequest::Ls { side: PanelSide::Remote, path }) if path == "/remote/a.txt"
    ));
}

#[test]
fn a_slow_second_press_only_selects() {
    let mut app = test_app();
    app.handle_mouse(row(60, true), 0);
    app.handle_mouse(row(60, false), 1);
    app.handle_mouse(row(60, true), 400);
    assert!(app.take_requests().is_empty());
}

#[test]
fn pasted_keys_are_read_one_by_one() {
    let mut app = test_app();
    many(&mut app, 5);
    app.handle_input(&InputEvent::Paste("jj".to_string()), 0);
    assert_eq!(app.panel(PanelSide::Remote).cursor, 2);
}

#[test]
fn resizing_takes_the_new_size() {
    let mut app = test_app();
    app.handle_input(&InputEvent::Resized { cols: 40, rows: 12 }, 0);
    assert_eq!((app.cols, app.rows), (40, 12));
}

#[test]
fn deleting_asks_first() {
    let mut app = test_app();
    app.handle_key(letter('d')).unwrap();
    match &app.input_mode {
        Some(InputMode::ConfirmDelete { names }) => assert_eq!(names, &vec!["a.txt".to_string()]),
        other => panic!("no question: {:?}", other),
    }
    assert!(app.take_requests().is_empty());
}
