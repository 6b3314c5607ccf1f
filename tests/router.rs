use tez::action::{Action, InputAction, TuiAction};
use tez::key::{Key, KeyCode, Modifiers};
use tez::router::{Effect, Router, SearchableList};
use tez::searcher::QueryUpdate;

fn router() -> Router {
    Router::new((80, 24), SearchableList::new(|| {}))
}

#[test]
fn exit_stops_the_loop() {
    let mut r = router();
    assert!(r.running());
    assert_eq!(r.handle_action(Action::Exit), Effect::Nothing);
    assert!(!r.running());
    assert_eq!(r.terminal_size(), (80, 24));
}

#[test]
fn navigation_and_draw_force_a_redraw() {
    let mut r = router();
    assert_eq!(r.handle_action(Action::Draw), Effect::Redraw);
    for a in [TuiAction::Next, TuiAction::Previous, TuiAction::First, TuiAction::Last] {
        assert_eq!(r.handle_action(Action::Tui(a)), Effect::Redraw);
    }
    assert!(r.running());
}

#[test]
fn edits_go_to_the_query_box() {
    let mut r = router();
    let key = Key::new(KeyCode::Char('x'), Modifiers::none());
    assert_eq!(
        r.handle_action(InputAction::Key(key).into()),
        Effect::Edit(InputAction::Key(key))
    );
    assert_eq!(
        r.handle_action(Action::Tui(TuiAction::Input(InputAction::Delete))),
        Effect::Edit(InputAction::Delete)
    );
    assert_eq!(r.query_edited("x"), (QueryUpdate::Extension, Effect::Redraw));
    assert_eq!(r.query_edited("x"), (QueryUpdate::Unchanged, Effect::Redraw));
    assert_eq!(r.query_edited(""), (QueryUpdate::Replacement, Effect::Redraw));
}

#[test]
fn forced_draw_skips_one_pass() {
    let mut r = router();
    assert!(r.should_draw());
    r.forced_draw_done();
    assert!(!r.should_draw());
    assert!(r.should_draw());
}

#[test]
fn router_frame_follows_cursor() {
    let mut r = router();
    let injector = r.injector();
    for line in ["one", "two", "three"] {
        injector.push(line.to_string(), |data, columns| {
            columns[0] = data.as_str().into();
        });
    }
    let mut frame = r.frame(5);
    for _ in 0..500 {
        if !frame.running {
            break;
        }
        frame = r.frame(5);
    }
    let frame = r.frame(5);
    assert_eq!(frame.len, 3);
    assert_eq!(frame.selected, None);
    r.handle_action(Action::Tui(TuiAction::Previous));
    let frame = r.frame(5);
    assert_eq!(frame.selected, Some(2));
}

#[test]
fn action_from_conversions() {
    assert_eq!(Action::from(TuiAction::Next), Action::Tui(TuiAction::Next));
    assert_eq!(
        Action::from(InputAction::MoveUp),
        Action::Tui(TuiAction::Input(InputAction::MoveUp))
    );
}
