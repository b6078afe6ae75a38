use kaku_sftp::confirm::{
    confirmed_event, event_after, lines, wrap_message, wrap_width, ActiveButton, ConfirmInput,
    Confirmation,
};
use kaku_sftp::i18n::{
    choose_locale, enabled, header_assistant, header_user, is_readable, load_table, tr, user_table_path,
    user_table_path_from, approval_notification_title, task_complete_notification_body,
    task_complete_notification_title,
};
use kaku_sftp::keys::KeyCode;
use kaku_sftp::render::Change;

const BUILTIN: &str = "\"Shell\" = \"终端\"\n\"Edit\" = \"编辑\"\n\"  You\" = \"  你\"\n";

#[test]
fn empty_locale_disables_translation() {
    let table = load_table("", BUILTIN, None);
    assert!(table.is_empty());
}

#[test]
fn unknown_locale_falls_back_to_english() {
    let table = load_table("xx-YY", BUILTIN, None);
    assert!(table.is_empty());
}

/// The user's table changes built-in entries and adds new ones.
#[test]
fn user_table_overrides_and_extends() {
    let user = "\n\"Shell\" = \"我的终端\"\n\"Some New Label\" = \"新词条\"\n";
    let table = load_table("zh-CN", BUILTIN, Some(user));
    assert_eq!(table.get("Shell").map(String::as_str), Some("我的终端"));
    assert_eq!(table.get("Some New Label").map(String::as_str), Some("新词条"));
    assert!(table.contains_key("Edit"));
}

#[test]
fn broken_user_table_is_ignored_not_fatal() {
    let table = load_table("zh-CN", BUILTIN, Some("this is not toml = = ="));
    assert!(table.contains_key("Shell"), "builtin table was lost");
}

#[test]
fn a_repeated_key_spoils_the_whole_file() {
    let twice = "\"Shell\" = \"a\"\n\"Shell\" = \"b\"\n";
    assert!(!is_readable(twice));
    assert!(is_readable(BUILTIN));
    let table = load_table("zh", BUILTIN, Some(twice));
    assert_eq!(table.get("Shell").map(String::as_str), Some("终端"));
    assert_eq!(table.len(), load_table("zh", BUILTIN, None).len());
}

#[test]
fn built_in_tables_answer_to_their_aliases() {
    for locale in ["zh-CN", "zh", "zh-Hans", " zh-CN "] {
        let table = load_table(locale, BUILTIN, None);
        assert_eq!(table.get("Shell").map(String::as_str), Some("终端"), "{locale}");
    }
}

#[test]
fn blank_and_other_values_are_left_out() {
    let user = "\"a\" = \"  \"\n\"b\" = 3\n\"  \" = \"x\"\n\"c\" = \"C\"\n[d]\n\"e\" = \"E\"\n";
    let table = load_table("xx", BUILTIN, Some(user));
    assert_eq!(table.len(), 1);
    assert_eq!(table.get("c").map(String::as_str), Some("C"));
}

#[test]
fn untranslated_text_stays_english() {
    let table = load_table("zh", BUILTIN, None);
    assert!(enabled(&table));
    assert_eq!(tr(&table, "Edit"), "编辑");
    assert_eq!(tr(&table, "Window"), "Window");
    assert_eq!(header_user(&table), "  你");
    assert_eq!(header_assistant(&table), "  AI");
    assert_eq!(approval_notification_title(&table), "Kaku AI needs confirmation");
    assert_eq!(task_complete_notification_title(&table), "Kaku AI task complete");
    assert_eq!(task_complete_notification_body(&table), "The AI has finished responding.");
    assert!(!enabled(&load_table("", BUILTIN, None)));
}

#[test]
fn the_configured_language_comes_first() {
    assert_eq!(choose_locale("zh", Some("ja".into())), "zh");
    assert_eq!(choose_locale("  ", Some("ja".into())), "ja");
    assert_eq!(choose_locale("", None), "");
}

#[test]
fn user_tables_lie_below_the_home() {
    assert_eq!(
        user_table_path_from(Some("/home/me".into()), "zh-CN").as_deref(),
        Some("/home/me/.config/kaku/i18n/zh-CN.toml")
    );
    assert_eq!(user_table_path_from(None, "zh-CN"), None);
    if let Some(path) = user_table_path("zh") {
        assert!(path.ends_with(".config/kaku/i18n/zh.toml"));
    }
}

#[test]
fn lines_end_at_line_feeds() {
    assert_eq!(lines("a\nb"), vec!["a", "b"]);
    assert_eq!(lines("a\r\nb\n"), vec!["a", "b"]);
    assert_eq!(lines("a\n\nb\r"), vec!["a", "", "b\r"]);
    assert_eq!(lines(""), Vec::<String>::new());
    for text in ["", "\n", "\r\n", "a", "a\n", "a\r", "a\nb\r\n\n", "\n\nx"] {
        let expected: Vec<String> = text.lines().map(|l| l.to_string()).collect();
        assert_eq!(lines(text), expected, "{text:?}");
    }
}

#[test]
fn messages_are_wrapped_between_words() {
    assert_eq!(wrap_width(100), 52);
    assert_eq!(wrap_width(30), 18);
    assert_eq!(wrap_width(0), 1);
    let rows = wrap_message("one two three four five six", 10);
    assert!(rows.iter().all(|r| r.len() <= 10), "{:?}", rows);
    assert_eq!(rows.join(" "), "one two three four five six");
    assert_eq!(wrap_message("", 10), vec![""]);
    assert_eq!(wrap_message("a\n\nb", 10), vec!["a", "", "b"]);
}

fn dialog() -> Confirmation {
    Confirmation::open(&load_table("", "", None), "Really?", 80, 24)
}

#[test]
fn keys_answer_the_dialog() {
    for (key, answer) in [
        (KeyCode::Char('y'), Some(true)),
        (KeyCode::Char('Y'), Some(true)),
        (KeyCode::Enter, Some(true)),
        (KeyCode::Char('n'), Some(false)),
        (KeyCode::Char('N'), Some(false)),
        (KeyCode::Escape, Some(false)),
        (KeyCode::Char('z'), None),
        (KeyCode::Tab, None),
    ] {
        assert_eq!(dialog().feed(ConfirmInput::Key(key)), answer, "{key:?}");
    }
    assert_eq!(dialog().feed(ConfirmInput::Other), None);
}

#[test]
fn input_that_ends_undecided_means_no() {
    let mut d = dialog();
    assert_eq!(d.feed(ConfirmInput::Key(KeyCode::Tab)), None);
    assert_eq!(d.feed(ConfirmInput::Ended), Some(false));
}

#[test]
fn the_mouse_answers_on_its_buttons() {
    let d = dialog();
    let row = d.layout.button_row as u16;
    let yes = d.layout.yes_x as u16;
    let no = d.layout.no_x as u16;
    let at = |x: u16, y: u16, down: bool| ConfirmInput::Mouse { x, y, left: down, any: down };

    let mut d = dialog();
    assert_eq!(d.feed(at(yes, row, false)), None);
    assert!(matches!(d.active, ActiveButton::Yes));
    assert!(d.render().iter().any(|c| matches!(c, Change::Reverse)));
    assert_eq!(d.feed(at(yes, row, true)), Some(true));

    let mut d = dialog();
    assert_eq!(d.feed(at(no, row, true)), Some(false));
    let mut d = dialog();
    assert_eq!(d.feed(at(0, 0, false)), None);
    assert!(!d.render().iter().any(|c| matches!(c, Change::Reverse)));
    assert_eq!(d.feed(at(0, 0, true)), Some(false));
}

#[test]
fn the_dialog_stands_in_the_middle() {
    let d = dialog();
    // "[N] Cancel" (10) + 3 + "[Y] Confirm" (11), padded by 6.
    assert_eq!(d.layout.width, 30);
    assert_eq!(d.layout.x, 25);
    assert_eq!(d.layout.height, 6);
    assert_eq!(d.layout.top, 9);
    assert_eq!(d.layout.button_row, 13);
    assert_eq!(d.layout.no_x, 28);
    assert_eq!(d.layout.yes_x, 41);
    let texts: Vec<String> = d
        .render()
        .into_iter()
        .filter_map(|c| match c {
            Change::Text(t) => Some(t),
            _ => None,
        })
        .collect();
    assert!(texts.contains(&"Really?".to_string()));
    assert_eq!(texts[0].chars().count(), 30);
    assert!(texts[0].starts_with('╭') && texts[0].ends_with('╮'));
}

#[test]
fn confirmations_name_their_event() {
    assert_eq!(confirmed_event(Some("ev".into())), Ok("ev".to_string()));
    assert_eq!(
        confirmed_event(None),
        Err("Confirmation requires action to be defined by action_callback".to_string())
    );
    assert_eq!(event_after("ev".into(), Some("no".into()), Some(true)).as_deref(), Some("ev"));
    assert_eq!(event_after("ev".into(), Some("no".into()), Some(false)).as_deref(), Some("no"));
    assert_eq!(event_after("ev".into(), None, Some(false)), None);
    assert_eq!(event_after("ev".into(), Some("no".into()), None), None);
}
