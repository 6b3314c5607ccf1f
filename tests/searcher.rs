use tez::router::{Frame, SearchableList};
use tez::searcher::{classify_query, QueryUpdate, Searcher};

fn push_lines(list: &SearchableList, lines: &[&str]) {
    let injector = list.injector();
    for line in lines {
        injector.push(line.to_string(), |data, columns| {
            columns[0] = data.as_str().into();
        });
    }
}

fn settle(list: &mut SearchableList, height: u16) -> Frame {
    let mut frame = list.refresh(height);
    for _ in 0..500 {
        if !frame.running {
            break;
        }
        frame = list.refresh(height);
    }
    list.refresh(height)
}

#[test]
fn query_extension_detection() {
    let last = Some("abc".to_string());
    assert_eq!(classify_query(&last, "abcd"), QueryUpdate::Extension);
    assert_eq!(classify_query(&last, "abx"), QueryUpdate::Replacement);
    assert_eq!(classify_query(&last, "ab"), QueryUpdate::Replacement);
    assert_eq!(classify_query(&last, "abc"), QueryUpdate::Unchanged);
    assert_eq!(classify_query(&None, "abc"), QueryUpdate::Replacement);
    assert_eq!(classify_query(&Some(String::new()), "x"), QueryUpdate::Extension);
}

#[test]
fn searcher_tags_and_skips_repeats() {
    let mut s = Searcher::new(|| {});
    assert_eq!(s.search(""), QueryUpdate::Unchanged);
    assert_eq!(s.search("abc"), QueryUpdate::Extension);
    assert_eq!(s.search("abcd"), QueryUpdate::Extension);
    assert_eq!(s.search("abcd"), QueryUpdate::Unchanged);
    assert_eq!(s.search("abx"), QueryUpdate::Replacement);
    assert_eq!(s.search("ab"), QueryUpdate::Replacement);
}

#[test]
fn empty_searcher_has_no_results() {
    let mut s = Searcher::new(|| {});
    s.tick();
    assert_eq!(s.result_count(), 0);
    assert!(s.results(0, 10).is_empty());
}

#[test]
fn ingest_navigate_and_narrow() {
    let mut list = SearchableList::new(|| {});
    push_lines(&list, &["apple", "banana", "grape"]);
    let frame = settle(&mut list, 10);
    assert_eq!(frame.len, 3);
    assert_eq!(frame.items, vec!["apple", "banana", "grape"]);

    list.first();
    let frame = list.refresh(10);
    assert_eq!(frame.selected, Some(0));
    assert_eq!(frame.items[0], "apple");

    list.next();
    list.next();
    let frame = list.refresh(10);
    assert_eq!(frame.selected, Some(2));
    assert_eq!(frame.items[2], "grape");

    list.next();
    let frame = list.refresh(10);
    assert_eq!(frame.selected, Some(0));

    assert_eq!(list.search("ap"), QueryUpdate::Extension);
    let frame = settle(&mut list, 10);
    assert_eq!(frame.items, vec!["apple", "grape"]);
    assert_eq!(frame.selected, Some(0));

    assert_eq!(list.search("app"), QueryUpdate::Extension);
    let frame = settle(&mut list, 10);
    assert_eq!(frame.items, vec!["apple"]);
    assert_eq!(frame.len, 1);
    assert_eq!(frame.selected, Some(0));
}

#[test]
fn narrowing_query_keeps_ranked_subset() {
    let mut list = SearchableList::new(|| {});
    push_lines(&list, &["apple", "banana", "grape"]);
    settle(&mut list, 10);
    assert_eq!(list.search("a"), QueryUpdate::Extension);
    let all = settle(&mut list, 10);
    assert_eq!(all.len, 3);
    assert_eq!(list.search("ap"), QueryUpdate::Extension);
    let narrowed = settle(&mut list, 10);
    assert!(narrowed.items.contains(&"apple".to_string()));
    assert!(!narrowed.items.contains(&"banana".to_string()));
    assert!(narrowed.len < all.len);
}

#[test]
fn results_window_is_clamped() {
    let mut list = SearchableList::new(|| {});
    let lines: Vec<String> = (0..10).map(|i| format!("line{i}")).collect();
    let refs: Vec<&str> = lines.iter().map(|s| s.as_str()).collect();
    push_lines(&list, &refs);
    settle(&mut list, 4);
    list.last();
    let frame = list.refresh(4);
    assert_eq!(frame.len, 10);
    assert_eq!(frame.offset, 6);
    assert_eq!(frame.items.len(), 4);
    assert_eq!(frame.selected, Some(3));
    assert_eq!(frame.items[3], "line9");
}

#[test]
fn growth_keeps_last_visible() {
    let mut list = SearchableList::new(|| {});
    list.last();
    for len in 1..=5usize {
        push_lines(&list, &[format!("item{len}").as_str()]);
        let frame = settle(&mut list, 2);
        assert_eq!(frame.len, len);
        assert_eq!(frame.offset, len.saturating_sub(2));
        assert_eq!(frame.items.last().unwrap(), &format!("item{len}"));
    }
}

#[test]
fn results_past_the_end_are_empty() {
    let mut s = Searcher::new(|| {});
    let injector = s.injector();
    for line in ["x1", "x2", "x3"] {
        injector.push(line.to_string(), |data, columns| {
            columns[0] = data.as_str().into();
        });
    }
    for _ in 0..500 {
        if !s.tick() {
            break;
        }
    }
    s.tick();
    assert_eq!(s.result_count(), 3);
    assert!(s.results(5, 3).is_empty());
    assert!(s.results(3, 3).is_empty());
    assert_eq!(s.results(1, 5), vec!["x2", "x3"]);
    assert_eq!(s.results(0, 2), vec!["x1", "x2"]);
}
