use kaku_sftp::cache::{open_cache_dir, open_cache_dir_from, open_cache_dir_in, open_cache_path};
use kaku_sftp::drops::{
    queue_dropped, unresolved_notice, upload, upload_dropped, Background, DropKind, Dropped,
};
use kaku_sftp::i18n::Table;
use kaku_sftp::local_copy::{create_checked, create_local, create_remote, CreateAction, LocalAction, LocalCopy, LocalReply};
use kaku_sftp::overlay::{open_overlay, poll_timeout, OpResult, Overlay, SftpOverlayConfig};
use kaku_sftp::registry::Registry;
use kaku_sftp::scan::{relative_to, DirItem, TreeScan, SCAN_MAX_FILES};
use kaku_sftp::single::{Preview, WriteBack};
use kaku_sftp::job::JobAction;
use kaku_sftp::state::{App, Effect, InputMode, OpRequest, ScanFile};
use kaku_sftp::stream::{Reply, Stat};
use kaku_sftp::transfer::{Direction, TransferManager, TransferState, TransferStatus};
use kaku_sftp::types::{FileEntry, PanelSide, SftpPalette, SrgbaTuple};
use kaku_sftp::worker::{
    plan, report_change, report_listing, report_preview, Attempt, Outcome, Work, Worker,
};
use std::collections::BTreeMap;
use std::sync::Arc;

fn palette() -> SftpPalette {
    let c = SrgbaTuple(0, 0, 0, 0);
    SftpPalette { bg: c, fg: c, accent: c, border: c, header: c, dir: c }
}

fn config(session: bool, dial: Option<&str>) -> SftpOverlayConfig {
    SftpOverlayConfig {
        session,
        connect_target: dial.map(|d| d.to_string()),
        reconnect_target: Some("me@h".into()),
        remote_label: "me@h".into(),
        local_path: "/tmp".into(),
        remote_start: None,
        palette: palette(),
        clipboard: false,
    }
}

fn opened() -> (App, Overlay) {
    let (mut app, overlay) = open_overlay(&config(true, None), Arc::new(Table::new()), 100, 20);
    app.take_requests();
    app.take_effects();
    (app, overlay)
}

#[test]
fn a_live_session_lists_both_sides() {
    let (mut app, _) = open_overlay(&config(true, None), Arc::new(Table::new()), 100, 20);
    let requests = app.take_requests();
    assert!(matches!(&requests[0], OpRequest::Ls { side: PanelSide::Local, path } if path == "/tmp"));
    assert!(matches!(&requests[1], OpRequest::Ls { side: PanelSide::Remote, path } if path.is_empty()));
    assert!(app.transfers.is_some());
}

#[test]
fn without_a_session_the_target_is_dialed() {
    let (mut app, mut overlay) = open_overlay(&config(false, Some("me@h")), Arc::new(Table::new()), 100, 20);
    assert_eq!(app.connecting.as_deref(), Some("Connecting to me@h …"));
    assert!(matches!(app.take_effects().last(), Some(Effect::Connect { target }) if target == "me@h"));
    app.take_requests();
    assert_eq!(poll_timeout(&app), 50);

    overlay.handle_result(&mut app, OpResult::Connected { home: "/home/me".into() });
    assert_eq!(app.connecting, None);
    assert_eq!(app.message.as_deref(), Some("connected"));
    assert_eq!(app.panel(PanelSide::Remote).path, "/home/me");
    assert_eq!(app.remote_home.as_deref(), Some("/home/me"));
    assert!(matches!(app.take_requests().last(), Some(OpRequest::Ls { side: PanelSide::Remote, .. })));
    assert_eq!(poll_timeout(&app), 500);
}

#[test]
fn prompts_of_the_handshake_take_the_input_line() {
    let (mut app, mut overlay) = opened();
    app.input_line = "old".into();
    overlay.handle_result(
        &mut app,
        OpResult::NeedsAuth { username: "me".into(), prompt: "Password".into() },
    );
    assert!(matches!(app.input_mode, Some(InputMode::Password { .. })));
    assert!(app.input_line.is_empty());
    overlay.handle_result(&mut app, OpResult::NeedsHostVerify { message: "key".into() });
    assert!(matches!(app.input_mode, Some(InputMode::ConfirmHostKey { .. })));
    assert_eq!(app.connecting.as_deref(), Some("Confirm host key …"));
    overlay.handle_result(&mut app, OpResult::ConnectFailed("refused".into()));
    assert_eq!(app.error.as_deref(), Some("refused"));
    assert_eq!(app.connecting, None);
}

fn file(name: &str) -> FileEntry {
    FileEntry { name: name.into(), is_dir: false, is_symlink: false, size: 1, mode: None }
}

#[test]
fn stale_listings_are_dropped() {
    let (mut app, mut overlay) = opened();
    let listed = |path: &str, name: &str| OpResult::Listed {
        side: PanelSide::Remote,
        path: path.into(),
        entries: Ok(vec![file(name)]),
    };
    overlay.handle_result(&mut app, listed("/a", "x"));
    assert_eq!(app.panel(PanelSide::Remote).entries[0].name, "x");
    overlay.handle_result(&mut app, listed("/b", "y"));
    assert_eq!(app.panel(PanelSide::Remote).path, "/a");
    assert_eq!(app.panel(PanelSide::Remote).entries[0].name, "x");
}

#[test]
fn a_dead_session_is_dialed_again_once() {
    let (mut app, mut overlay) = opened();
    let dead = || OpResult::Listed {
        side: PanelSide::Remote,
        path: String::new(),
        entries: Err("Channel closed".into()),
    };
    overlay.handle_result(&mut app, dead());
    assert!(overlay.session_died);
    overlay.settle(&mut app);
    assert!(!app.session && app.transfers.is_none());
    assert_eq!(app.connecting.as_deref(), Some("Reconnecting to me@h ..."));
    let effects = app.take_effects();
    assert!(effects.iter().any(|e| matches!(e, Effect::Evict { .. })));
    assert!(matches!(effects.last(), Some(Effect::Connect { .. })));

    overlay.handle_result(&mut app, dead());
    overlay.settle(&mut app);
    assert!(!app.take_effects().iter().any(|e| matches!(e, Effect::Connect { .. })));
}

#[test]
fn scanned_files_are_queued_and_started() {
    let (mut app, mut overlay) = opened();
    overlay.handle_result(
        &mut app,
        OpResult::Scanned {
            side: PanelSide::Local,
            root: "/tmp/d".into(),
            dest: "/r/d".into(),
            dest_side: PanelSide::Remote,
            cut_source: false,
            files: Ok(vec![ScanFile { abs: "/tmp/d/a/b".into(), rel: "a/b".into(), size: 3 }]),
        },
    );
    assert_eq!(app.message.as_deref(), Some("queued 1 files from /tmp/d"));
    assert_eq!(app.pending[0].dest, "/r/d/a/b");
    overlay.settle(&mut app);
    assert!(app.pending.is_empty());
    assert_eq!(app.transfers.as_ref().unwrap().statuses()[0].dest, "/r/d/a/b");
    overlay.handle_result(
        &mut app,
        OpResult::Scanned {
            side: PanelSide::Local,
            root: "/tmp/d".into(),
            dest: "/r/d".into(),
            dest_side: PanelSide::Remote,
            cut_source: false,
            files: Err("denied".into()),
        },
    );
    assert_eq!(app.error.as_deref(), Some("scan failed: denied"));
}

fn status(id: u64, direction: Direction, state: TransferState) -> TransferStatus {
    TransferStatus { id, direction, source: "/s/a".into(), dest: "/d/a".into(), state }
}

#[test]
fn a_cut_removes_its_source_after_success_only() {
    for (state, removed) in [
        (TransferState::Done, true),
        (TransferState::Failed("x".into()), false),
        (TransferState::Cancelled, false),
    ] {
        let (mut app, mut overlay) = opened();
        app.cut_pending.push((4, PanelSide::Remote, "/s/a".into(), false));
        overlay.transfer_finished(&mut app, &status(4, Direction::Download, state));
        assert!(app.cut_pending.is_empty());
        let requests = app.take_requests();
        assert_eq!(requests.iter().any(|r| matches!(r, OpRequest::Delete { .. })), removed);
        assert!(matches!(requests.last(), Some(OpRequest::Ls { side: PanelSide::Local, .. })));
    }
}

#[test]
fn a_finished_download_is_revealed() {
    let (mut app, mut overlay) = opened();
    app.pending_reveal = Some((9, "/dl/a".into()));
    overlay.transfer_finished(&mut app, &status(9, Direction::Download, TransferState::Done));
    assert!(app.take_effects().iter().any(|e| matches!(e, Effect::Reveal { path } if path == "/dl/a")));
    app.pending_reveal = Some((10, "/dl/b".into()));
    let failed = TransferState::Failed("session gone".into());
    overlay.transfer_finished(&mut app, &status(10, Direction::Download, failed));
    assert_eq!(app.error.as_deref(), Some("download failed: session gone"));
    assert!(overlay.session_died);
}

#[test]
fn opened_previews_are_watched() {
    let (mut app, mut overlay) = opened();
    overlay.handle_result(
        &mut app,
        OpResult::Opened { source: "/r/a".into(), dest: "/c/a".into(), outcome: Ok(2048), stamp: None },
    );
    let effects = app.take_effects();
    assert!(matches!(&effects[0], Effect::Watch { .. }));
    assert!(matches!(&effects[1], Effect::OpenPreview { .. }));
    overlay.preview_opened(&mut app, "/c/a", 2048, None);
    assert_eq!(app.message.as_deref(), Some("opened /c/a (2.0 KB) - saves sync back"));
    overlay.preview_opened(&mut app, "/c/a", 2048, Some("no app".into()));
    assert_eq!(app.error.as_deref(), Some("open failed: no app"));
}

#[test]
fn changes_are_acknowledged_and_listed() {
    let (mut app, mut overlay) = opened();
    overlay.handle_result(&mut app, OpResult::Mutated { side: PanelSide::Local, outcome: Ok(()) });
    assert_eq!(app.message.as_deref(), Some("done"));
    assert!(matches!(app.take_requests().last(), Some(OpRequest::Ls { side: PanelSide::Local, .. })));
    overlay.handle_result(
        &mut app,
        OpResult::Mutated { side: PanelSide::Local, outcome: Err("no".into()) },
    );
    assert_eq!(app.error.as_deref(), Some("no"));
}

#[test]
fn requests_need_their_session() {
    let remote = OpRequest::Rename { side: PanelSide::Remote, from: "/a".into(), to: "/b".into() };
    assert!(matches!(plan(&remote, false), Work::Refuse));
    assert!(matches!(plan(&remote, true), Work::RenameRemote { .. }));
    let local = OpRequest::Delete { side: PanelSide::Local, path: "/a".into(), is_dir: true };
    assert!(matches!(plan(&local, false), Work::RemoveLocal { is_dir: true, .. }));
    match report_change(PanelSide::Remote, Attempt::NoSession) {
        OpResult::Mutated { outcome, .. } => assert_eq!(outcome, Err("not connected".to_string())),
        other => panic!("{:?}", other),
    }
}

/// One result of its kind per request, in order; what needs a session is
/// refused without one.
#[test]
fn requests_are_answered_in_order() {
    let mut worker = Worker::new();
    worker.ask(OpRequest::Ls { side: PanelSide::Local, path: "/tmp".into() });
    worker.ask(OpRequest::Ls { side: PanelSide::Remote, path: String::new() });
    worker.ask(OpRequest::OpenRemote { source: "/r/a".into(), dest: "/c/a".into() });
    worker.ask(OpRequest::ScanTree {
        side: PanelSide::Remote,
        root: "/r".into(),
        dest: "/l".into(),
        dest_side: PanelSide::Local,
        cut_source: true,
    });
    worker.ask(OpRequest::Delete { side: PanelSide::Remote, path: "/r/a".into(), is_dir: false });
    let gone = "not connected";
    assert!(matches!(worker.next(false), Some(Work::ListLocal { path }) if path == "/tmp"));
    let listed = Outcome::Listing { resolved: None, attempt: Attempt::Ended(Ok(vec![file("a")])) };
    assert!(matches!(
        worker.finish(listed),
        Some(OpResult::Listed { side: PanelSide::Local, path, entries: Ok(v) }) if path == "/tmp" && v.len() == 1
    ));
    assert!(matches!(worker.next(false), Some(Work::Refuse)));
    assert!(matches!(
        worker.refuse(),
        Some(OpResult::Listed { side: PanelSide::Remote, path, entries: Err(e) }) if path.is_empty() && e == gone
    ));
    assert!(matches!(
        worker.refuse(),
        Some(OpResult::Opened { source, dest, outcome: Err(e), stamp: None })
            if source == "/r/a" && dest == "/c/a" && e == gone
    ));
    assert!(matches!(
        worker.refuse(),
        Some(OpResult::Scanned { side: PanelSide::Remote, root, dest, cut_source: true, files: Err(e), .. })
            if root == "/r" && dest == "/l" && e == gone
    ));
    assert!(matches!(
        worker.refuse(),
        Some(OpResult::Mutated { side: PanelSide::Remote, outcome: Err(e) }) if e == gone
    ));
    assert!(worker.next(true).is_none());
    assert!(worker.refuse().is_none());
}

#[test]
fn listings_fall_back_to_the_root() {
    let listed = |path: &str, resolved: Option<&str>, attempt: Attempt<Vec<FileEntry>>| {
        match report_listing(
            PanelSide::Remote,
            path.to_string(),
            resolved.map(|r| r.to_string()),
            attempt,
        ) {
            OpResult::Listed { path, entries, .. } => (path, entries.map(|v| v.len())),
            other => panic!("{:?}", other),
        }
    };
    let ok = || Attempt::Ended(Ok(vec![file("a")]));
    assert_eq!(listed("", Some("/home/me"), ok()), ("/home/me".to_string(), Ok(1)));
    assert_eq!(listed("", None, ok()), ("/".to_string(), Ok(1)));
    assert_eq!(listed("/x", None, ok()), ("/x".to_string(), Ok(1)));
    let late = "connection timed out; session unresponsive".to_string();
    assert_eq!(listed("", None, Attempt::TimedOut), ("/".to_string(), Err(late)));
    let gone = "not connected".to_string();
    assert_eq!(listed("", None, Attempt::NoSession), (String::new(), Err(gone)));
}

#[test]
fn a_preview_is_fetched_into_a_part() {
    let mut p = Preview::new("/r/a.txt".into(), "/c/a.txt".into());
    let mut trace = Vec::new();
    let mut reads = 0;
    while let Some(action) = p.action() {
        let reply = match &action {
            JobAction::Read { .. } => {
                reads += 1;
                Reply::Bytes(if reads == 1 { 5 } else { 0 })
            }
            _ => Reply::Done,
        };
        p.feed(&reply, None, 0);
        trace.push(action);
    }
    assert!(trace.iter().any(|a| matches!(a, JobAction::RenameLocal { from, to } if from == "/c/.kaku-part.a.txt" && to == "/c/a.txt")));
    let result = p.finish().unwrap();
    assert_eq!(result.as_ref().map(|r| r.0), Ok(5));
    match report_preview("/r/a.txt".into(), "/c/a.txt".into(), Attempt::Ended(result)) {
        OpResult::Opened { outcome, .. } => assert_eq!(outcome, Ok(5)),
        other => panic!("{:?}", other),
    }
}

#[test]
fn writing_back_keeps_the_remote_mode() {
    let mut w = WriteBack::new("/r/run.sh".into(), "/c/run.sh".into());
    w.feed(&Reply::Stat(Stat { size: Some(3), mode: Some(0o100755) }), 0);
    w.feed(&Reply::Done, 0);
    assert!(matches!(
        w.action(),
        Some(JobAction::OpenRemoteWrite { path, append: false, mode: 0o755 })
            if path == "/r/.kaku-part.run.sh"
    ));
    w.feed(&Reply::Done, 0);
    w.feed(&Reply::Bytes(3), 0);
    w.feed(&Reply::Done, 0);
    w.feed(&Reply::Bytes(0), 0);
    w.feed(&Reply::Done, 0);
    assert!(matches!(w.action(), Some(JobAction::Close)));
    w.feed(&Reply::Done, 0);
    assert!(matches!(w.action(), Some(JobAction::RenameRemote { .. })));
    w.feed(&Reply::Done, 0);
    assert_eq!(w.finish(), Some(Ok(3)));
}

fn item(path: &str, is_dir: bool, is_symlink: bool) -> DirItem {
    let name = path.rsplit('/').next().unwrap().to_string();
    DirItem { path: path.into(), name, is_dir, is_symlink, size: 1 }
}

#[test]
fn nested_files_are_relative_to_the_folder() {
    for remote in [false, true] {
        let mut scan = TreeScan::new(remote, "/r/d".into());
        assert_eq!(scan.next_dir(), Some("/r/d"));
        scan.feed(Ok(vec![
            item("/r/d/a", false, false),
            item("/r/d/sub", true, false),
            item("/r/d/z", false, false),
        ]));
        assert_eq!(scan.next_dir(), Some("/r/d/sub"));
        scan.feed(Ok(vec![item("/r/d/sub/b", false, false), item("/r/d/sub/link", true, true)]));
        assert_eq!(scan.next_dir(), None);
        let files = scan.finish().unwrap();
        let rels: Vec<&str> = files.iter().map(|f| f.rel.as_str()).collect();
        assert_eq!(rels, vec!["a", "sub/b", "sub/link", "z"]);
    }
    assert_eq!(relative_to("/r/d/", "/r/d/x/y"), "x/y");
    assert_eq!(relative_to("/r/d", "/other"), "/other");
}

#[test]
fn walks_stop_at_their_limits() {
    let mut scan = TreeScan::new(false, "/r".into());
    let many = (0..SCAN_MAX_FILES + 10).map(|i| item(&format!("/r/{i}"), false, false)).collect();
    scan.feed(Ok(many));
    assert_eq!(scan.finish().unwrap().len(), SCAN_MAX_FILES);

    let mut scan = TreeScan::new(true, "/r".into());
    let mut levels = 0;
    while let Some(dir) = scan.next_dir().map(|d| d.to_string()) {
        levels += 1;
        scan.feed(Ok(vec![item(&format!("{dir}/d"), true, false)]));
    }
    assert_eq!(levels, 13);
}

#[test]
fn unreadable_folders_are_named() {
    let mut scan = TreeScan::new(true, "/r".into());
    scan.feed(Err("denied".into()));
    assert_eq!(scan.finish().unwrap_err(), "/r: denied");
    let mut scan = TreeScan::new(false, "/r \"x\"".into());
    scan.feed(Err("denied".into()));
    assert_eq!(scan.finish().unwrap_err(), format!("{:?}: denied", std::path::Path::new("/r \"x\"")));
}

/// A file system in memory: directories hold `None`, files their bytes.
struct Memory(BTreeMap<String, Option<Vec<u8>>>);

impl Memory {
    fn make_dirs(&mut self, path: &str) {
        let mut at = String::new();
        for part in path.split('/').filter(|p| !p.is_empty()) {
            at = format!("{at}/{part}");
            self.0.entry(at.clone()).or_insert(None);
        }
    }

    fn write(&mut self, path: &str, bytes: &[u8]) {
        self.0.insert(path.to_string(), Some(bytes.to_vec()));
    }

    fn copy_local(&mut self, from: &str, to: &str, cut: bool) -> Result<(u64, u64), String> {
        let mut job = LocalCopy::new(from.into(), to.into(), cut);
        loop {
            let reply = match job.action() {
                LocalAction::Finish(r) => return r,
                LocalAction::Kind { path } => match self.0.get(&path) {
                    Some(None) => LocalReply::Yes,
                    Some(Some(_)) => LocalReply::No,
                    None => LocalReply::Failed("no such file".into()),
                },
                LocalAction::MakeDirs { path } => {
                    self.make_dirs(&path);
                    LocalReply::Done
                }
                LocalAction::ReadDir { path } => {
                    let prefix = format!("{path}/");
                    let items = self
                        .0
                        .iter()
                        .filter(|(k, _)| k.starts_with(&prefix) && !k[prefix.len()..].contains('/'))
                        .map(|(k, v)| item(k, v.is_none(), false))
                        .collect();
                    LocalReply::Listing { items, broken: None }
                }
                LocalAction::Resolve { path } => LocalReply::Resolved(path),
                LocalAction::Exists { path } => {
                    if self.0.contains_key(&path) {
                        LocalReply::Yes
                    } else {
                        LocalReply::No
                    }
                }
                LocalAction::Copy { from, to } => {
                    let bytes = self.0.get(&from).cloned().unwrap();
                    self.0.insert(to, bytes);
                    LocalReply::Done
                }
                LocalAction::Remove { path, .. } => {
                    let prefix = format!("{path}/");
                    self.0.retain(|k, _| k != &path && !k.starts_with(&prefix));
                    LocalReply::Done
                }
            };
            job.feed(reply);
        }
    }
}

/// Yank-and-paste inside the local panel has to copy locally, and a paste
/// must never replace a file that is already there.
#[test]
fn local_copy_moves_and_skips_existing_files() {
    let mut fs = Memory(BTreeMap::new());
    fs.make_dirs("/t/src/nested");
    fs.write("/t/src/a.txt", b"a");
    fs.write("/t/src/nested/b.txt", b"b");

    // Directory copy, then a second copy that must skip everything.
    assert_eq!(fs.copy_local("/t/src", "/t/dst", false), Ok((2, 0)));
    assert_eq!(fs.0.get("/t/dst/nested/b.txt").cloned().flatten().as_deref(), Some(&b"b"[..]));
    assert_eq!(fs.copy_local("/t/src", "/t/dst", false).map(|c| c.1), Ok(2));
    assert!(fs.0.contains_key("/t/src/a.txt"), "copy removed the source");

    // Cut moves the tree and leaves nothing behind.
    fs.copy_local("/t/src", "/t/moved", true).unwrap();
    assert!(!fs.0.contains_key("/t/src"), "cut left the source behind");
    assert!(fs.0.contains_key("/t/moved/nested/b.txt"));

    // A single existing destination file is left alone.
    fs.write("/t/single.txt", b"keep");
    assert_eq!(fs.copy_local("/t/single.txt", "/t/single.txt", false), Ok((0, 1)));
    assert_eq!(fs.0.get("/t/single.txt").cloned().flatten().as_deref(), Some(&b"keep"[..]));
    assert_eq!(fs.copy_local("/none", "/t/x", false), Err("/none: no such file".to_string()));
}

/// A cut that skips a file keeps its source, even where both are the same.
#[test]
fn a_cut_never_destroys_a_skipped_file() {
    let mut fs = Memory(BTreeMap::new());
    fs.make_dirs("/t/src");
    fs.make_dirs("/t/dst");
    fs.write("/t/src/a.txt", b"new");
    fs.write("/t/src/b.txt", b"b");
    fs.write("/t/dst/a.txt", b"old");
    assert_eq!(fs.copy_local("/t/src", "/t/dst", true), Ok((1, 1)));
    assert_eq!(fs.0.get("/t/src/a.txt").cloned().flatten().as_deref(), Some(&b"new"[..]));
    assert_eq!(fs.0.get("/t/dst/a.txt").cloned().flatten().as_deref(), Some(&b"old"[..]));
    assert!(fs.0.contains_key("/t/dst/b.txt"));
    assert_eq!(fs.copy_local("/t/src/a.txt", "/t/src/a.txt", true), Ok((0, 1)));
    assert_eq!(fs.0.get("/t/src/a.txt").cloned().flatten().as_deref(), Some(&b"new"[..]));
}

/// Directories are mirrored whether or not they hold files.
#[test]
fn empty_directories_are_mirrored() {
    let mut fs = Memory(BTreeMap::new());
    fs.make_dirs("/t/src/empty/deeper");
    fs.make_dirs("/t/src/other");
    fs.write("/t/src/other/a.txt", b"a");
    assert_eq!(fs.copy_local("/t/src", "/t/dst", true), Ok((1, 0)));
    assert_eq!(fs.0.get("/t/dst/empty/deeper"), Some(&None));
    assert!(fs.0.contains_key("/t/dst/other/a.txt"));
    assert!(!fs.0.contains_key("/t/src"));

    // A folder without files pasted into itself comes to an end.
    fs.make_dirs("/t/self/inner");
    assert_eq!(fs.copy_local("/t/self", "/t/self/self", false), Ok((0, 0)));
    assert_eq!(fs.0.get("/t/self/self/inner"), Some(&None));
}

#[test]
fn creating_never_empties_a_file() {
    assert!(matches!(create_local("/a", false), CreateAction::CreateNewLocal { .. }));
    assert!(matches!(create_local("/a", true), CreateAction::CreateLocalDir { .. }));
    assert!(matches!(create_remote("/a", true), CreateAction::CreateRemoteDir { mode: 0o755, .. }));
    assert!(matches!(create_remote("/a", false), CreateAction::StatRemote { .. }));
    assert!(matches!(create_checked("/a", true), CreateAction::Finish(Err(e)) if e == "/a: already exists"));
    assert!(matches!(create_checked("/a", false), CreateAction::CreateRemote { .. }));
}

fn dropped() -> Vec<Dropped> {
    vec![
        Dropped { path: "/l/a.txt".into(), kind: DropKind::File },
        Dropped {
            path: "/l/dir".into(),
            kind: DropKind::Folder(Ok(vec![ScanFile {
                abs: "/l/dir/x/y".into(),
                rel: "x/y".into(),
                size: 1,
            }])),
        },
        Dropped { path: "/l/bad".into(), kind: DropKind::Folder(Err("denied".into())) },
        Dropped { path: "/l/pipe".into(), kind: DropKind::Other },
        Dropped { path: "/".into(), kind: DropKind::Folder(Ok(Vec::new())) },
    ]
}

#[test]
fn drops_upload_files_and_folders() {
    let mut m = TransferManager::new();
    let outcome = queue_dropped(&mut m, "/r", &dropped());
    assert_eq!(outcome.queued, 2);
    assert_eq!(outcome.notices, vec!["cannot read /l/bad: denied"]);
    let dests: Vec<String> = m.statuses().into_iter().map(|s| s.dest).collect();
    assert_eq!(dests, vec!["/r/a.txt", "/r/dir/x/y"]);

    let mut m = TransferManager::new();
    assert_eq!(upload_dropped(&mut m, "/r", &dropped()), Some((2, "/r".to_string())));
    assert_eq!(upload_dropped(&mut m, "/r", &Vec::new()), None);

    let mut m = TransferManager::new();
    let outcome = upload(&mut m, "me@h", "/r", &dropped());
    assert_eq!(outcome.notices.last().unwrap(), "uploading 2 file(s) to me@h:/r");
    let outcome = upload(&mut m, "me@h", "/r", &Vec::new());
    assert_eq!(outcome.notices, vec!["nothing to upload to me@h"]);
    assert_eq!(unresolved_notice("me@h", "eof"), "upload to me@h failed: eof");
}

#[test]
fn background_transfers_are_announced() {
    let mut b = Background::new(3);
    let done = status(1, Direction::Upload, TransferState::Done);
    assert_eq!(b.finished(&done).as_deref(), Some("uploaded /d/a"));
    let cancelled = status(1, Direction::Copy, TransferState::Cancelled);
    assert_eq!(b.finished(&cancelled).as_deref(), Some("copied /d/a cancelled"));
    let failed = status(1, Direction::Download, TransferState::Failed("x".into()));
    assert_eq!(b.finished(&failed).as_deref(), Some("failed to transfer /s/a: x"));
    assert_eq!(b.remaining, 0);
}

#[test]
fn drops_reach_connected_overlays_only() {
    let mut r = Registry::new();
    assert_eq!(r.drop_target(1), None);
    r.mark_connected(1);
    assert_eq!(r.drop_target(1), None);
    r.register(1);
    r.set_transfers(1, 5);
    r.update_cwd(1, "/srv");
    assert_eq!(r.drop_target(1), None);
    r.mark_connected(1);
    assert_eq!(r.drop_target(1), Some((5, "/srv".to_string())));
    r.mark_disconnected(1);
    assert_eq!(r.drop_target(1), None);
    r.mark_connected(1);
    r.unregister(1);
    assert_eq!(r.drop_target(1), None);
}

#[test]
fn open_cache_dir_is_usable() {
    let dir = open_cache_dir("/tmp");
    assert!(dir.ends_with("sftp-open"));
}

#[test]
fn the_cache_of_the_account_comes_before_the_temporary_one() {
    assert_eq!(
        open_cache_dir_from(Some("/home/me/.cache".into()), "/tmp"),
        "/home/me/.cache/kaku/sftp-open"
    );
    assert_eq!(open_cache_dir_from(None, "/tmp"), "/tmp/kaku/sftp-open");
}

#[test]
fn previews_lie_below_the_cache() {
    assert!(open_cache_dir_in("/home/me/.cache").ends_with("sftp-open"));
    assert!(!open_cache_path("me@h", "/srv/a").starts_with('/'));
}
