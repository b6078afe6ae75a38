use kaku_sftp::display::{border_row, format_entry_line, truncate_visible};
use kaku_sftp::frame::frame_changes;
use kaku_sftp::i18n::load_table;
use kaku_sftp::render::{
    active_transfers, render_input_line, render_transfer_line, status_line, Change, Gauge,
    StatusLine,
};
use kaku_sftp::state::{App, InputMode, PendingTransfer};
use kaku_sftp::transfer::{Direction, TransferManager};
use kaku_sftp::types::{FileEntry, PanelSide, SftpPalette, SrgbaTuple};
use std::sync::Arc;
use termwiz::cell::unicode_column_width;

fn color(r: f32, g: f32, b: f32) -> SrgbaTuple {
    SrgbaTuple(r.to_bits(), g.to_bits(), b.to_bits(), 1.0f32.to_bits())
}

fn test_app() -> App {
    let palette = SftpPalette {
        bg: color(0.0, 0.0, 0.0),
        fg: color(1.0, 1.0, 1.0),
        accent: color(0.5, 0.5, 0.5),
        border: color(0.3, 0.3, 0.3),
        header: color(0.4, 0.4, 0.4),
        dir: color(0.2, 0.4, 0.8),
    };
    App::new(100, 20, palette, "/tmp".to_string())
}

fn frame_text(app: &App) -> String {
    let gauges: Vec<Gauge> = Vec::new();
    frame_changes(app, &gauges)
        .iter()
        .filter_map(|change| match change {
            Change::Text(text) => Some(text.clone()),
            _ => None,
        })
        .collect()
}

fn modes() -> Vec<InputMode> {
    vec![
        InputMode::Create { directory: false },
        InputMode::Create { directory: true },
        InputMode::Rename { original: "a.txt".into() },
        InputMode::ConfirmDelete { names: vec!["a.txt".into()] },
        InputMode::ConfirmDelete { names: vec!["a.txt".into(), "b.txt".into()] },
        InputMode::Password { username: "u".into(), prompt: "Password".into() },
        InputMode::ConfirmHostKey { message: "host".into() },
        InputMode::ConfirmFolder { side: PanelSide::Local, name: "/tmp/dir".into() },
        InputMode::Filter,
        InputMode::JumpTo,
        InputMode::JumpToChar,
    ]
}

/// Every input mode must render.
#[test]
fn every_input_mode_renders() {
    for mode in modes() {
        let mut app = test_app();
        app.input_line = "typed".into();
        let text = render_input_line(&app, &mode, 60);
        assert!(!text.is_empty(), "empty prompt for {:?}", mode);
    }

    // A conflict prompt with an empty queue renders as nothing.
    let mut app = test_app();
    app.input_mode = Some(InputMode::ConfirmOverwrite);
    let text = render_input_line(&app, app.input_mode.as_ref().unwrap(), 60);
    assert!(text.is_empty());
}

/// Every frame has to close its synchronized update.
#[test]
fn every_frame_closes_its_synchronized_update() {
    let plain = frame_text(&test_app());
    assert!(plain.starts_with("\x1b[?2026h"), "frame does not open");
    assert!(plain.ends_with("\x1b[?2026l"), "frame does not close: {:?}", plain);

    let mut app = test_app();
    app.help = true;
    let help = frame_text(&app);
    assert!(help.contains("Kaku SFTP keys"), "help body missing");
    assert!(help.ends_with("\x1b[?2026l"), "help frame does not close: {:?}", help);
}

/// A pending connection has to say so.
#[test]
fn connection_state_is_visible_in_the_status_row() {
    let mut app = test_app();
    assert!(matches!(status_line(&app), StatusLine::Help(_)));

    app.connecting = Some("Connecting to host ...".to_string());
    assert!(matches!(status_line(&app), StatusLine::Connecting(_)));

    // An active prompt outranks the connection text.
    app.input_mode = Some(InputMode::Filter);
    assert!(matches!(status_line(&app), StatusLine::Input));
    app.input_mode = None;

    // A failure outranks a stale message, and both outrank the hints.
    app.connecting = None;
    app.message = Some("older".to_string());
    app.error = Some("boom".to_string());
    assert!(matches!(status_line(&app), StatusLine::Error(_)));
}

#[test]
fn truncate_visible_marks_truncation() {
    assert_eq!(truncate_visible("hello", 10), "hello");
    assert_eq!(truncate_visible("hello world", 8), "hello w…");
}

#[test]
fn entry_line_fits_requested_width() {
    let entry = FileEntry {
        name: "averylongfilename.txt".into(),
        is_dir: false,
        is_symlink: false,
        size: 10 * 1024 * 1024,
        mode: None,
    };
    let line = format_entry_line(&entry, false, 30);
    assert!(unicode_column_width(&line, None) <= 30);
    assert!(line.ends_with("10.0 MB"));
    let dir = FileEntry {
        name: "dir".into(),
        is_dir: true,
        is_symlink: false,
        size: 0,
        mode: None,
    };
    assert!(format_entry_line(&dir, true, 20).starts_with('●'));
    let with_perms = FileEntry { mode: Some(0o644), ..entry.clone() };
    let line = format_entry_line(&with_perms, false, 40);
    assert!(line.starts_with("-rw-r--r--"));
    assert!(line.ends_with("10.0 MB"));
    // Narrow panes drop the permission column instead of the name.
    let narrow = format_entry_line(&with_perms, false, 20);
    assert!(!narrow.starts_with('-'));
}

#[test]
fn border_row_keeps_label_and_width() {
    let row = border_row('┌', '┐', '─', " title ", 20);
    assert_eq!(unicode_column_width(&row, None), 20);
    assert!(row.contains("title"));
}

/// Wide characters count for the columns they take.
#[test]
fn wide_names_are_cut_by_columns() {
    assert_eq!(truncate_visible("终端设置", 8), "终端设置");
    assert_eq!(truncate_visible("终端设置", 6), "终端…");
}

#[test]
fn a_border_without_room_drops_its_label() {
    assert_eq!(border_row('┌', '┐', '─', "too long", 6), "┌────┐");
}

#[test]
fn the_conflict_prompt_names_the_file() {
    let mut app = test_app();
    app.pending.push(PendingTransfer {
        direction: Direction::Download,
        source: "/remote/a.bin".into(),
        dest: "/tmp/a.bin".into(),
        size: 4096,
        dest_size: Some(2048),
        cut_source: false,
    });
    let text = render_input_line(&app, &InputMode::ConfirmOverwrite, 200);
    assert!(text.contains("a.bin"), "{}", text);
}

#[test]
fn a_password_is_not_shown() {
    let mut app = test_app();
    app.input_line = "hunter2".into();
    let mode = InputMode::Password { username: "u".into(), prompt: "Password".into() };
    assert!(!render_input_line(&app, &mode, 80).contains("hunter2"));
}

/// Hints, prompts and messages read as the table says.
#[test]
fn the_panel_speaks_the_language_of_the_run() {
    let user = "\"Not connected · j/k move · Tab switch · q quit\" = \"未连接\"\n\
        \"connected\" = \"已连接\"\n\"New directory: \" = \"新建目录：\"\n";
    let mut app = test_app();
    app.words = Arc::new(load_table("zh", "", Some(user)));
    assert!(matches!(status_line(&app), StatusLine::Help(text) if text == "未连接"));
    app.set_message("connected");
    assert!(matches!(status_line(&app), StatusLine::Message(text) if text == "已连接"));
    app.set_message("no entry for this");
    assert!(matches!(status_line(&app), StatusLine::Message(text) if text == "no entry for this"));
    app.input_line = "x".into();
    let line = render_input_line(&app, &InputMode::Create { directory: true }, 80);
    assert!(line.starts_with("新建目录：x_"), "{}", line);
    app.message = None;
    assert!(frame_text(&app).contains("未连接"));
}

#[test]
fn prompts_start_with_a_capital() {
    let app = test_app();
    let mode = InputMode::Password { username: "u".into(), prompt: "éxit code".into() };
    let text = render_input_line(&app, &mode, 80);
    assert!(text.contains("Éxit code"), "{}", text);
}

#[test]
fn running_transfers_show_their_gauge() {
    let mut app = test_app();
    let mut manager = TransferManager::new();
    let id = manager.upload("/tmp/a.bin", "/remote/a.bin", false, true);
    manager.emit_progress(id, 50, 100);
    app.transfers = Some(manager);
    assert_eq!(active_transfers(&app).len(), 1);
    let gauges = vec![Gauge { percent: 50, speed: Some("1.0 KB/s".to_string()) }];
    let line = render_transfer_line(&app, &gauges, 120);
    assert!(line.contains("50%"), "{}", line);
    assert!(line.contains("1.0 KB/s"), "{}", line);
}
