use kaku_sftp::connect::{
    build_config_for_target, landing, split_login, ConfigMap, Handshake, HostBlock, SessionEvent,
    Step,
};
use kaku_sftp::sessions::{
    evict, forget_password, get, insert, remember_password, take_password, target_key,
    SessionStore,
};
use kaku_sftp::target::{
    local_panel_path_from, overlay_config, remote_cwd, resolve, ReportedDir,
};
use kaku_sftp::types::{SftpPalette, SrgbaTuple};

#[test]
fn target_key_is_normalized() {
    assert_eq!(target_key("Root@10.10.1.55"), "root@10.10.1.55");
    assert_eq!(target_key(" root@Host "), "root@host");
}

#[test]
fn insert_get_evict_roundtrip() {
    // The pool stores only what callers give it; a missing entry stays
    // missing without a real session to insert.
    let mut store = SessionStore::new();
    evict(&mut store, "nobody@nowhere");
    assert!(get(&store, "nobody@nowhere").is_none());

    insert(&mut store, "Root@Host", 7);
    assert_eq!(get(&store, " root@host "), Some(7));
    evict(&mut store, "root@host");
    assert!(get(&store, "root@host").is_none());
}

/// A dotted host with no ssh config entry resolves to the local username; a
/// target that keeps its `user@` must override it.
#[test]
fn typed_login_overrides_the_local_username() {
    let mut fallback = ConfigMap::new();
    fallback.insert("user", "me");
    let hosts: Vec<HostBlock> = Vec::new();
    let cfg =
        build_config_for_target(&hosts, &fallback, Some("admin"), "kaku-sftp-target.invalid", true);
    assert_eq!(cfg.get("user").map(|s| s.as_str()), Some("admin"));
    assert_eq!(cfg.get("wezterm_ssh_backend").map(|s| s.as_str()), Some("libssh"));
    assert_eq!(cfg.get("serveraliveinterval").map(|s| s.as_str()), Some("15"));
}

fn block(alias: &str, settings: &[(&str, &str)]) -> HostBlock {
    let mut config = ConfigMap::new();
    for (k, v) in settings {
        config.insert(k, v);
    }
    HostBlock { alias: alias.to_string(), config }
}

#[test]
fn host_blocks_are_found_by_their_hostname() {
    let hosts = vec![
        block("box-root", &[("hostname", "10.0.0.5"), ("user", "root"), ("port", "1")]),
        block("box-me", &[("hostname", "10.0.0.5"), ("user", "me"), ("port", "2")]),
        block("Named", &[("port", "3")]),
    ];
    let fallback = ConfigMap::new();
    let port = |user: Option<&str>, host: &str| {
        build_config_for_target(&hosts, &fallback, user, host, false)
            .get("port")
            .cloned()
    };
    assert_eq!(port(Some("me"), "10.0.0.5").as_deref(), Some("2"));
    assert_eq!(port(None, "10.0.0.5").as_deref(), Some("1"));
    // No block names this login: the first one about the host is used.
    assert_eq!(port(Some("other"), "10.0.0.5").as_deref(), Some("1"));
    assert_eq!(port(None, "NAMED").as_deref(), Some("3"));
    assert_eq!(port(None, "elsewhere"), None);
}

#[test]
fn logins_split_at_the_first_sign() {
    assert_eq!(split_login("me@host"), (Some("me".to_string()), "host".to_string()));
    assert_eq!(split_login("host"), (None, "host".to_string()));
    assert_eq!(split_login("a@b@c"), (Some("a".to_string()), "b@c".to_string()));
}

#[test]
fn passwords_are_taken_once() {
    let mut store = SessionStore::new();
    remember_password(&mut store, "Me@Host", "secret");
    assert_eq!(take_password(&mut store, "me@host").as_deref(), Some("secret"));
    assert_eq!(take_password(&mut store, "me@host"), None);
    remember_password(&mut store, "me@host", "");
    assert_eq!(take_password(&mut store, "me@host"), None);
    remember_password(&mut store, "me@host", "x");
    forget_password(&mut store, "me@host");
    assert_eq!(take_password(&mut store, "me@host"), None);
}

fn authenticate(prompts: &[&str]) -> SessionEvent {
    SessionEvent::Authenticate {
        username: "me".into(),
        prompts: prompts.iter().map(|p| p.to_string()).collect(),
    }
}

#[test]
fn a_handshake_asks_and_remembers() {
    let mut store = SessionStore::new();
    let mut h = Handshake::new("me@host".into(), true);
    assert!(matches!(h.feed(&mut store, SessionEvent::Banner), Step::Wait));
    match h.feed(&mut store, authenticate(&["Password:"])) {
        Step::AskPassword { username, prompt } => {
            assert_eq!((username.as_str(), prompt.as_str()), ("me", "Password"))
        }
        other => panic!("{:?}", other),
    }
    assert_eq!(h.password_typed(Some("pw".into()), 1), vec!["pw".to_string()]);
    // Wrong: the next prompt counts the attempts.
    match h.feed(&mut store, authenticate(&["Password:", "Token:"])) {
        Step::AskPassword { prompt, .. } => assert_eq!(prompt, "Password (attempt 2)"),
        other => panic!("{:?}", other),
    }
    assert_eq!(h.password_typed(Some("pw2".into()), 2).len(), 2);
    assert!(matches!(h.feed(&mut store, SessionEvent::Authenticated), Step::Done));
    assert_eq!(take_password(&mut store, "me@host").as_deref(), Some("pw2"));
}

#[test]
fn a_cancelled_prompt_gives_no_answer() {
    let mut h = Handshake::new("me@host".into(), true);
    assert!(h.password_typed(None, 1).is_empty());
}

#[test]
fn a_host_is_trusted_on_an_explicit_yes_alone() {
    let h = Handshake::new("me@host".into(), true);
    assert!(h.trust_typed(Some(true)));
    assert!(!h.trust_typed(Some(false)));
    assert!(!h.trust_typed(None));
}

#[test]
fn handshake_failures_read_well() {
    let mut store = SessionStore::new();
    let fail = |store: &mut SessionStore, interactive: bool, event: SessionEvent| {
        match Handshake::new("me@host".into(), interactive).feed(store, event) {
            Step::Fail(text) => text,
            other => panic!("{:?}", other),
        }
    };
    let changed = || SessionEvent::HostVerificationFailed {
        remote_address: "host:22".into(),
        key: "ABC".into(),
    };
    assert_eq!(
        fail(&mut store, true, changed()),
        "host key verification failed for host:22: ABC"
    );
    assert_eq!(fail(&mut store, false, changed()), "host key verification failed: ABC");
    assert_eq!(fail(&mut store, true, SessionEvent::Error("boom".into())), "ssh error: boom");
    assert_eq!(fail(&mut store, false, SessionEvent::Error("boom".into())), "boom");
    assert_eq!(
        fail(&mut store, true, SessionEvent::TimedOut),
        "timed out connecting to me@host"
    );
    assert_eq!(fail(&mut store, false, SessionEvent::TimedOut), "timed out");
    assert_eq!(fail(&mut store, false, SessionEvent::Closed("eof".into())), "eof");
    assert_eq!(
        fail(&mut store, false, authenticate(&[])),
        "password authentication required"
    );
}

#[test]
fn helpers_reuse_a_typed_password() {
    let mut store = SessionStore::new();
    remember_password(&mut store, "me@host", "pw");
    let mut h = Handshake::new("me@host".into(), false);
    let trust = h.feed(&mut store, SessionEvent::HostVerify { message: "?".into() });
    assert!(matches!(trust, Step::Trust));
    match h.feed(&mut store, authenticate(&[])) {
        Step::Answer(answers) => assert_eq!(answers, vec!["pw".to_string()]),
        other => panic!("{:?}", other),
    }
    // Rejected: the stale value is not tried again.
    assert!(matches!(h.feed(&mut store, authenticate(&[])), Step::Fail(_)));
}

#[test]
fn sessions_land_at_home_or_at_the_root() {
    assert_eq!(landing(Some("/home/me".into())), "/home/me");
    assert_eq!(landing(None), "/");
}

#[test]
fn panes_resolve_in_order() {
    let domain = resolve(Some((1, "dom".into())), Some("me@h".into()), Some(2), None, None).unwrap();
    assert_eq!((domain.session, domain.label.as_str()), (Some(1), "dom"));
    assert_eq!(domain.reconnect_target, None);

    let pooled = resolve(None, Some("me@h".into()), Some(2), Some((3, "x".into())), None).unwrap();
    assert_eq!(pooled.session, Some(2));
    assert_eq!(pooled.reconnect_target.as_deref(), Some("me@h"));

    let live = resolve(None, Some("me@h".into()), None, Some((3, "x".into())), None).unwrap();
    assert_eq!((live.session, live.label.as_str()), (Some(3), "x"));

    let dial = resolve(None, Some("me@h".into()), None, None, Some("/srv".into())).unwrap();
    assert_eq!(dial.session, None);
    assert_eq!(dial.connect_target.as_deref(), Some("me@h"));
    assert_eq!(dial.cwd.as_deref(), Some("/srv"));

    assert!(resolve(None, None, Some(2), None, None).is_none());
}

fn reported(scheme: &str, local: bool) -> Option<ReportedDir> {
    Some(ReportedDir { scheme: scheme.into(), local, path: "/srv/app".into() })
}

#[test]
fn directories_count_on_their_own_machine() {
    assert_eq!(remote_cwd(&reported("file", false)).as_deref(), Some("/srv/app"));
    assert_eq!(remote_cwd(&reported("file", true)), None);
    assert_eq!(remote_cwd(&reported("http", false)), None);
    assert_eq!(remote_cwd(&None), None);
    let home = || Some("/home/me".to_string());
    assert_eq!(local_panel_path_from(&reported("file", true), home()), "/srv/app");
    assert_eq!(local_panel_path_from(&reported("file", false), home()), "/home/me");
    assert_eq!(local_panel_path_from(&None, None), "/");
}

#[test]
fn the_overlay_opens_at_the_remote_home() {
    let c = SrgbaTuple(0, 0, 0, 0);
    let palette = SftpPalette { bg: c, fg: c, accent: c, border: c, header: c, dir: c };
    let target = resolve(None, Some("me@h".into()), Some(2), None, Some("/srv".into())).unwrap();
    let config = overlay_config(target, "/tmp".into(), palette, true);
    assert!(config.session && config.clipboard);
    assert_eq!(config.remote_start, None);
    assert_eq!(config.remote_label, "me@h");
}
