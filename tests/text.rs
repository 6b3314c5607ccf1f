use tez::text::{chars_of, StrExt};

#[test]
fn find_last_adjacent() {
    assert_eq!("aa".find_last_adjacent('a'), Some(1));
    assert_eq!("aabaa".find_last_adjacent('a'), Some(1));
    assert_eq!("baa".find_last_adjacent('a'), Some(2));
    assert_eq!("aa aa".find_last_adjacent('a'), Some(4));
}

#[test]
fn find_last_adjacent_absent_or_empty() {
    assert_eq!("".find_last_adjacent('a'), None);
    assert_eq!("bcd".find_last_adjacent('a'), None);
}

#[test]
fn find_last_adjacent_whitespace_kinds() {
    assert_eq!("a\ta\nab".find_last_adjacent('a'), Some(4));
    assert_eq!(" : : exit".find_last_adjacent(':'), Some(3));
    assert_eq!("a b a".find_last_adjacent('a'), Some(0));
}

#[test]
fn chars_of_keeps_characters() {
    assert_eq!(chars_of("añb"), vec!['a', 'ñ', 'b']);
    assert_eq!(chars_of(""), Vec::<char>::new());
}

#[test]
fn find_last_adjacent_counts_bytes() {
    assert_eq!("ñaa".find_last_adjacent('a'), Some(3));
    assert_eq!("€a a".find_last_adjacent('a'), Some(5));
    assert_eq!("aé".find_last_adjacent('é'), Some(1));
    assert_eq!("ü ü x ü".find_last_adjacent('ü'), Some(3));
}

#[test]
fn find_last_adjacent_unicode_whitespace() {
    assert_eq!("a\u{3000}a".find_last_adjacent('a'), Some(4));
    assert_eq!("a\u{A0}\u{2009}a".find_last_adjacent('a'), Some(6));
    assert_eq!("a\u{200B}a".find_last_adjacent('a'), Some(0));
    assert_eq!("a\u{85}a".find_last_adjacent('a'), Some(3));
}
