use std::collections::HashMap;

use tez::action::{Action, InputAction, TuiAction};
use tez::bind::{Bind, Binds};
use tez::key::{Key, KeyCode as K, Modifiers as M};

fn binds_from_toml(text: &str) -> Binds {
    let table: HashMap<String, String> = toml::from_str(text).unwrap();
    let mut binds = Binds::new();
    for (key, action) in table {
        binds.insert(key.parse().unwrap(), action.parse().unwrap());
    }
    binds
}

#[test]
fn binds_deserialize() {
    let parsed = binds_from_toml("'ctrl+c' = 'exit'");
    assert_eq!(
        parsed.action_for_key(&Key::new(K::Char('c'), M::control())),
        Some(Action::Exit)
    );
    assert_eq!(parsed.action_for_key(&Key::new(K::Char('c'), M::none())), None);
}

#[test]
fn insert_defaults() {
    let mut binds = binds_from_toml("'ctrl+c' = 'next'");
    let mut empty_binds = Binds::default();
    binds.insert_defaults();
    empty_binds.insert_defaults();

    assert_eq!(
        binds.action_for_key(&Key::new(K::Char('c'), M::control())),
        Some(TuiAction::Next.into())
    );
    assert_eq!(
        empty_binds.action_for_key(&Key::new(K::Char('c'), M::control())),
        Some(Action::Exit)
    );
}

#[test]
fn defaults_cover_navigation_and_editing() {
    let mut binds = Binds::new();
    binds.insert_defaults();
    assert_eq!(binds.action_for_key(&Key::alt(K::Char('e'))), Some(Action::Tui(TuiAction::Last)));
    assert_eq!(binds.action_for_key(&Key::plain(K::Home)), Some(InputAction::MoveToHead.into()));
    assert_eq!(binds.action_for_key(&Key::ctrl(K::Char('k'))), Some(InputAction::DeleteToEnd.into()));
    assert_eq!(binds.action_for_key(&Key::plain(K::Char('k'))), None);
}

#[test]
fn insert_replaces_and_overwrite_prefers_other() {
    let mut a = Binds::new();
    let ctrl_x = Key::ctrl(K::Char('x'));
    let alt_x = Key::alt(K::Char('x'));
    a.insert(ctrl_x, Action::Exit);
    a.insert(ctrl_x, Action::Draw);
    assert_eq!(a.action_for_key(&ctrl_x), Some(Action::Draw));
    a.insert(alt_x, Action::Exit);

    let mut b = Binds::new();
    b.insert(ctrl_x, Action::Tui(TuiAction::First));
    a.overwrite(&b);
    assert_eq!(a.action_for_key(&ctrl_x), Some(Action::Tui(TuiAction::First)));
    assert_eq!(a.action_for_key(&alt_x), Some(Action::Exit));
}

#[test]
fn later_bind_wins_in_list() {
    let key = Key::ctrl(K::Char('q'));
    let binds = Binds::from_binds(vec![
        Bind::new(key, Action::Exit),
        Bind::new(Key::plain(K::Esc), Action::Exit),
        Bind::new(key, Action::Tui(TuiAction::Next)),
    ]);
    assert_eq!(binds.action_for_key(&key), Some(Action::Tui(TuiAction::Next)));
    assert_eq!(binds.action_for_key(&Key::plain(K::Esc)), Some(Action::Exit));
}
