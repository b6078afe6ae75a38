//! Keys, mouse reports and other input of the overlay.

use termwiz::input::InputEvent as RawEvent;
use termwiz::input::KeyCode::{
    Backspace, Char, DownArrow, End, Enter, Escape, Function, Home, LeftArrow, PageDown, PageUp,
    RightArrow, Tab, UpArrow,
};
use vstd::prelude::*;
use vstd::string::*;

verus! {

/// No modifier is held.
pub const MOD_NONE: u16 = 0;

pub const MOD_SHIFT: u16 = 2;

pub const MOD_ALT: u16 = 4;

pub const MOD_CTRL: u16 = 8;

/// Which key is pressed, as far as the overlay tells them apart.
#[derive(Clone, Copy, Debug, PartialEq, Eq, Structural)]
pub enum KeyCode {
    Char(char),
    Function(u8),
    UpArrow,
    DownArrow,
    LeftArrow,
    RightArrow,
    Enter,
    Escape,
    Tab,
    Home,
    End,
    PageUp,
    PageDown,
    Backspace,
    /// A key the overlay has no use for.
    Other,
}

#[derive(Clone, Copy, Debug, PartialEq, Eq, Structural)]
pub struct KeyEvent {
    pub key: KeyCode,
    /// The modifiers that are down, one bit each.
    pub modifiers: u16,
}

/// A mouse report: the cell, and what the buttons do.
#[derive(Clone, Copy, Debug, PartialEq, Eq, Structural)]
pub struct MouseEvent {
    pub x: u16,
    pub y: u16,
    /// The vertical wheel turned.
    pub vert_wheel: bool,
    /// The wheel turned up.
    pub wheel_positive: bool,
    /// The left button is held.
    pub left: bool,
}

#[derive(Debug)]
pub enum InputEvent {
    Key(KeyEvent),
    Mouse(MouseEvent),
    Resized { cols: usize, rows: usize },
    Paste(String),
    /// Something the overlay has no use for.
    Other,
}

/// An input event with its text as characters.
pub enum InputModel {
    Key(KeyEvent),
    Mouse(MouseEvent),
    Resized { cols: int, rows: int },
    Paste(Seq<char>),
    Other,
}

impl View for InputEvent {
    type V = InputModel;

    open spec fn view(&self) -> InputModel {
        match *self {
            InputEvent::Key(k) => InputModel::Key(k),
            InputEvent::Mouse(m) => InputModel::Mouse(m),
            InputEvent::Resized { cols, rows } => InputModel::Resized {
                cols: cols as int,
                rows: rows as int,
            },
            InputEvent::Paste(t) => InputModel::Paste(t@),
            InputEvent::Other => InputModel::Other,
        }
    }
}

/// The events `termwiz::input::InputParser` reads out of a text: each one a
/// key, or something else.
pub uninterp spec fn parsed(text: Seq<char>) -> Seq<Option<KeyEvent>>;

/// `termwiz::input::InputParser::parse_as_vec` of a fresh parser on the
/// bytes of `text`, with nothing to follow.  The parser's tables are fixed,
/// so the events depend on the text alone; each is told apart as a key (with
/// the keys the overlay has no use for taken together) or as something
/// else.
#[verifier::external_body]
pub(crate) fn parse_input(text: &str) -> (r: Vec<Option<KeyEvent>>)
    ensures
        r@ == parsed(text@),
{
    let events = termwiz::input::InputParser::new().parse_as_vec(text.as_bytes(), false);
    events.into_iter().map(|event| match event {
        RawEvent::Key(k) => Some(KeyEvent { modifiers: k.modifiers.bits(), key: match k.key {
            Char(c) => KeyCode::Char(c), Function(n) => KeyCode::Function(n),
            UpArrow => KeyCode::UpArrow, DownArrow => KeyCode::DownArrow,
            LeftArrow => KeyCode::LeftArrow, RightArrow => KeyCode::RightArrow,
            Enter => KeyCode::Enter, Escape => KeyCode::Escape, Tab => KeyCode::Tab,
            Home => KeyCode::Home, End => KeyCode::End, PageUp => KeyCode::PageUp,
            PageDown => KeyCode::PageDown, Backspace => KeyCode::Backspace, _ => KeyCode::Other,
        } }),
        _ => None,
    }).collect()
}

/// The keys among a list of events.
pub open spec fn keys_only(events: Seq<Option<KeyEvent>>) -> Seq<KeyEvent>
    decreases events.len(),
{
    if events.len() == 0 {
        Seq::empty()
    } else {
        let before = keys_only(events.drop_last());
        match events.last() {
            Some(k) => before.push(k),
            None => before,
        }
    }
}

/// The keys among a list of events.
pub fn key_events(events: &Vec<Option<KeyEvent>>) -> (r: Vec<KeyEvent>)
    ensures
        r@ == keys_only(events@),
{
    let mut out: Vec<KeyEvent> = Vec::new();
    let mut i: usize = 0;
    while i < events.len()
        invariant
            i <= events@.len(),
            out@ == keys_only(events@.take(i as int)),
        decreases events@.len() - i,
    {
        proof {
            assert(events@.take(i + 1).drop_last() =~= events@.take(i as int));
        }
        if let Some(k) = &events[i] {
            out.push(*k);
        }
        i += 1;
    }
    proof {
        assert(events@.take(i as int) =~= events@);
    }
    out
}

/// The keystrokes that a text stands for.
pub fn parse_keys(text: &str) -> (r: Vec<KeyEvent>)
    ensures
        r@ == keys_only(parsed(text@)),
{
    let events = parse_input(text);
    key_events(&events)
}

/// No key is lost and none is made up: one more key comes last, and one
/// more event that is no key changes nothing.
pub proof fn every_key_is_kept_in_order(events: Seq<Option<KeyEvent>>, key: KeyEvent)
    ensures
        keys_only(events.push(Some(key))) == keys_only(events).push(key),
        keys_only(events.push(None)) == keys_only(events),
        keys_only(Seq::empty()).len() == 0,
{
    assert(events.push(Some(key)).drop_last() =~= events);
    assert(events.push(None).drop_last() =~= events);
}

} // verus!
