use tez::cursor::{LazyList, LazyState};

#[test]
fn new_cursor_has_no_selection() {
    let s = LazyState::new();
    assert_eq!(s.position(), None);
    assert_eq!(s.real_position(), None);
    assert_eq!(s.offset(), 0);
}

#[test]
fn next_walks_cyclically() {
    let mut s = LazyState::new();
    s.update(4, 10);
    let mut seen = Vec::new();
    for _ in 0..9 {
        s.next();
        seen.push(s.position().unwrap());
    }
    assert_eq!(seen, vec![0, 1, 2, 3, 0, 1, 2, 3, 0]);
}

#[test]
fn previous_walks_cyclically() {
    let mut s = LazyState::new();
    s.update(3, 10);
    let mut seen = Vec::new();
    for _ in 0..7 {
        s.previous();
        seen.push(s.position().unwrap());
    }
    assert_eq!(seen, vec![2, 1, 0, 2, 1, 0, 2]);
}

#[test]
fn mixed_moves_never_repeat_index() {
    let mut s = LazyState::new();
    s.update(5, 10);
    s.first();
    let mut prev = s.position().unwrap();
    for down in [true, false, false, true, true, true, true, true, false, false] {
        if down {
            s.next();
        } else {
            s.previous();
        }
        let p = s.position().unwrap();
        assert_ne!(p, prev);
        assert!(p < 5);
        prev = p;
    }
}

#[test]
fn single_item_stays_put() {
    let mut s = LazyState::new();
    s.update(1, 10);
    s.next();
    assert_eq!(s.position(), Some(0));
    s.next();
    assert_eq!(s.position(), Some(0));
    s.previous();
    assert_eq!(s.position(), Some(0));
}

#[test]
fn moves_on_empty_list_clear_selection() {
    let mut s = LazyState::new();
    s.first();
    assert_eq!(s.position(), Some(0));
    s.next();
    assert_eq!(s.position(), None);
    s.last();
    s.previous();
    assert_eq!(s.position(), None);
}

#[test]
fn end_anchor_follows_growth() {
    let mut s = LazyState::new();
    s.update(3, 10);
    s.last();
    assert_eq!(s.position(), Some(2));
    s.update(7, 10);
    assert_eq!(s.position(), Some(6));
    s.previous();
    s.update(9, 10);
    assert_eq!(s.position(), Some(7));
}

#[test]
fn shrink_clamps_start_offset() {
    let mut s = LazyState::new();
    s.update(10, 20);
    s.first();
    for _ in 0..8 {
        s.next();
    }
    assert_eq!(s.position(), Some(8));
    s.update(5, 20);
    assert_eq!(s.position(), Some(4));
    s.update(6, 20);
    assert_eq!(s.position(), Some(4));
}

#[test]
fn shrink_clamps_end_offset_keeping_edge() {
    let mut s = LazyState::new();
    s.update(10, 20);
    s.last();
    for _ in 0..6 {
        s.previous();
    }
    assert_eq!(s.position(), Some(3));
    s.update(4, 20);
    assert_eq!(s.position(), Some(0));
    s.update(8, 20);
    assert_eq!(s.position(), Some(4));
}

#[test]
fn shrink_to_zero_unsets() {
    let mut s = LazyState::new();
    s.update(5, 3);
    s.last();
    s.update(0, 3);
    assert_eq!(s.position(), None);
    assert_eq!(s.offset(), 0);
    s.update(4, 3);
    assert_eq!(s.position(), None);
}

#[test]
fn window_keeps_selection_visible() {
    let mut s = LazyState::new();
    s.update(20, 5);
    s.first();
    for i in 0..20 {
        s.update(20, 5);
        let p = s.position().unwrap();
        assert_eq!(p, i);
        assert!(s.offset() <= p && p <= s.offset() + 4);
        assert!(s.offset() <= 15);
        assert_eq!(s.real_position(), Some(p - s.offset()));
        s.next();
    }
}

#[test]
fn window_scrolls_by_minimum() {
    let mut s = LazyState::new();
    s.update(10, 3);
    s.first();
    for _ in 0..4 {
        s.next();
    }
    s.update(10, 3);
    assert_eq!(s.offset(), 2);
    s.previous();
    s.update(10, 3);
    assert_eq!(s.offset(), 2);
    s.previous();
    s.previous();
    s.update(10, 3);
    assert_eq!(s.offset(), 1);
}

#[test]
fn window_pulled_back_from_end() {
    let mut s = LazyState::new();
    s.update(10, 4);
    s.last();
    s.update(10, 4);
    assert_eq!(s.offset(), 6);
    s.update(8, 4);
    assert_eq!(s.offset(), 4);
    assert_eq!(s.real_position(), Some(3));
}

#[test]
fn window_resets_without_selection() {
    let mut s = LazyState::new();
    s.update(10, 4);
    s.last();
    s.update(10, 4);
    assert_eq!(s.offset(), 6);
    s.update(0, 4);
    assert_eq!(s.offset(), 0);
}

#[test]
fn last_stays_visible_while_growing() {
    let mut list = LazyList::new();
    list.last();
    list.update(1, 2);
    assert_eq!(list.offset(), 0);
    assert_eq!(list.position(), Some(0));
    for len in 2..=5usize {
        list.update(len, 2);
        assert_eq!(list.offset(), len - 2);
        assert_eq!(list.position(), Some(len - 1));
        assert_eq!(list.real_position(), Some(1));
    }
}

#[test]
fn zero_height_window() {
    let mut s = LazyState::new();
    s.update(5, 0);
    s.first();
    s.next();
    s.next();
    s.update(5, 0);
    assert_eq!(s.offset(), 2);
}

#[test]
fn default_cursor_is_empty() {
    let s = LazyState::default();
    assert_eq!(s.position(), None);
    assert_eq!(s.offset(), 0);
}

#[test]
fn update_len_clamps_and_unsets() {
    let mut s = LazyState::new();
    s.update(10, 20);
    s.first();
    for _ in 0..7 {
        s.next();
    }
    s.update_len(3);
    assert_eq!(s.position(), Some(2));
    s.update_len(0);
    assert_eq!(s.position(), None);
}

#[test]
fn n_nexts_visit_every_index_and_return() {
    let mut s = LazyState::new();
    s.update(6, 10);
    s.first();
    s.next();
    s.next();
    let start = s.position().unwrap();
    let mut seen = Vec::new();
    for _ in 0..6 {
        s.next();
        seen.push(s.position().unwrap());
    }
    assert_eq!(seen, vec![3, 4, 5, 0, 1, 2]);
    assert_eq!(s.position(), Some(start));
}
