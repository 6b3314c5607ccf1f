use tez::action::{Action, InputAction, ParseActionError, TuiAction};
use tez::bind::{Bind, ParseBindError};
use tez::key::{Key, KeyCode as K, Modifiers as M, ParseKeyError};

fn all_modifiers() -> M {
    M { shift: true, ctrl: true, alt: true }
}

#[test]
fn key_parse() {
    let strings = [
        "",
        "a",
        "escape",
        "f0",
        "f255",
        "f256",
        "shift+a",
        "ctrl+a",
        "alt+a",
        "shift+ctrl+alt+a",
        " shift + ctrl + alt + a ",
        "a+",
        "+a",
        "shift",
        "shift+shift",
        "shif+a",
        "shift+shift+a",
    ];
    let parsed_strings = [
        Err(ParseKeyError::InvalidFormat),
        Ok(Key::new(K::Char('a'), M::none())),
        Ok(Key::new(K::Esc, M::none())),
        Ok(Key::new(K::F(0), M::none())),
        Ok(Key::new(K::F(255), M::none())),
        Err(ParseKeyError::InvalidKey("f256".to_string())),
        Ok(Key::new(K::Char('a'), M::shift())),
        Ok(Key::new(K::Char('a'), M::control())),
        Ok(Key::new(K::Char('a'), M::alt())),
        Ok(Key::new(K::Char('a'), all_modifiers())),
        Ok(Key::new(K::Char('a'), all_modifiers())),
        Err(ParseKeyError::InvalidFormat),
        Err(ParseKeyError::InvalidFormat),
        Err(ParseKeyError::InvalidKey("shift".to_string())),
        Err(ParseKeyError::InvalidKey("shift".to_string())),
        Err(ParseKeyError::InvalidModifier("shif".to_string())),
        Err(ParseKeyError::DuplicateModifier("shift".to_string())),
    ];

    assert_eq!(
        strings.iter().map(|s| s.parse()).collect::<Vec<_>>(),
        parsed_strings
    );
}

#[test]
fn key_names_and_function_keys() {
    let cases = [
        ("backspace", K::Backspace),
        ("enter", K::Enter),
        ("left", K::Left),
        ("right", K::Right),
        ("up", K::Up),
        ("down", K::Down),
        ("home", K::Home),
        ("end", K::End),
        ("page-up", K::PageUp),
        ("page-down", K::PageDown),
        ("tab", K::Tab),
        ("back-tab", K::BackTab),
        ("delete", K::Delete),
        ("insert", K::Insert),
        ("null", K::Null),
        ("f", K::Char('f')),
        ("f12", K::F(12)),
        ("f007", K::F(7)),
        (":", K::Char(':')),
    ];
    for (s, code) in cases {
        assert_eq!(Key::parse(s), Ok(Key::new(code, M::none())), "{s}");
    }
    assert_eq!(Key::parse("f-1"), Err(ParseKeyError::InvalidKey("f-1".to_string())));
    assert_eq!(Key::parse("f1x"), Err(ParseKeyError::InvalidKey("f1x".to_string())));
    assert_eq!(Key::parse("é"), Err(ParseKeyError::InvalidKey("é".to_string())));
    assert_eq!(Key::parse("ctrl+"), Err(ParseKeyError::InvalidFormat));
    assert_eq!(Key::parse("ctrl+ +a"), Err(ParseKeyError::InvalidModifier(String::new())));
    assert_eq!(Key::parse("ctrl+shif"), Err(ParseKeyError::InvalidKey("shif".to_string())));
}

#[test]
fn action_names() {
    assert_eq!(Action::parse("exit"), Ok(Action::Exit));
    assert_eq!(" next ".parse(), Ok(Action::Tui(TuiAction::Next)));
    assert_eq!(Action::parse("previous"), Ok(Action::Tui(TuiAction::Previous)));
    assert_eq!(Action::parse("first"), Ok(Action::Tui(TuiAction::First)));
    assert_eq!(Action::parse("last"), Ok(Action::Tui(TuiAction::Last)));
    assert_eq!(
        Action::parse("move-to-end-of-word"),
        Ok(InputAction::MoveToEndOfWord.into())
    );
    assert_eq!(Action::parse("delete-to-end"), Ok(InputAction::DeleteToEnd.into()));
    assert_eq!(Action::parse("draw"), Err(ParseActionError("draw".to_string())));
    assert_eq!(
        Action::parse(" invalid "),
        Err(ParseActionError("invalid".to_string()))
    );
}

#[test]
fn bind_parse() {
    let strings = [
        ":: exit",
        "alt+::exit",
        " alt + : : exit ",
        ":::exit",
        "al+::exit",
        "alt+alt+::exit",
        "::invalid",
        ": : invalid",
    ];
    let parsed_strings: [Result<Bind, ParseBindError>; 8] = [
        Ok(Bind::new(Key::new(K::Char(':'), M::none()), Action::Exit)),
        Ok(Bind::new(Key::new(K::Char(':'), M::alt()), Action::Exit)),
        Ok(Bind::new(Key::new(K::Char(':'), M::alt()), Action::Exit)),
        Err(ParseKeyError::InvalidKey("::".to_string()).into()),
        Err(ParseKeyError::InvalidModifier("al".to_string()).into()),
        Err(ParseKeyError::DuplicateModifier("alt".to_string()).into()),
        Err(ParseActionError("invalid".to_string()).into()),
        Err(ParseActionError("invalid".to_string()).into()),
    ];

    assert_eq!(strings.map(|s| s.parse()), parsed_strings);
}

#[test]
fn bind_without_colon_is_invalid() {
    assert_eq!("ctrl+c exit".parse::<Bind>(), Err(ParseBindError::InvalidFormat));
    assert_eq!("".parse::<Bind>(), Err(ParseBindError::InvalidFormat));
    assert_eq!(
        "ctrl+c:next".parse::<Bind>(),
        Ok(Bind::new(Key::new(K::Char('c'), M::control()), Action::Tui(TuiAction::Next)))
    );
}
