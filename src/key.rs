//! Keys with modifiers, and their textual form: modifiers and a key name
//! joined by `+`, as in `ctrl+alt+a`.

use vstd::prelude::*;

use crate::text::{chars_of, split, split_on, trim, trimmed, views};

verus! {

/// A key, as the terminal reports it and as binds name it.
#[derive(Clone, Copy, Debug, Hash, PartialEq, Eq, Structural)]
pub enum KeyCode {
    Backspace,
    Enter,
    Left,
    Right,
    Up,
    Down,
    Home,
    End,
    PageUp,
    PageDown,
    Tab,
    BackTab,
    Delete,
    Insert,
    F(u8),
    Char(char),
    Null,
    Esc,
}

/// The modifier keys held with a key.
#[derive(Clone, Copy, Debug, Hash, PartialEq, Eq, Structural)]
pub struct Modifiers {
    pub shift: bool,
    pub ctrl: bool,
    pub alt: bool,
}

impl Modifiers {
    /// No modifier held.
    pub fn none() -> (r: Modifiers)
        ensures
            r == (Modifiers { shift: false, ctrl: false, alt: false }),
    {
        Modifiers { shift: false, ctrl: false, alt: false }
    }

    /// Shift alone.
    pub fn shift() -> (r: Modifiers)
        ensures
            r == (Modifiers { shift: true, ctrl: false, alt: false }),
    {
        Modifiers { shift: true, ctrl: false, alt: false }
    }

    /// Control alone.
    pub fn control() -> (r: Modifiers)
        ensures
            r == (Modifiers { shift: false, ctrl: true, alt: false }),
    {
        Modifiers { shift: false, ctrl: true, alt: false }
    }

    /// Alt alone.
    pub fn alt() -> (r: Modifiers)
        ensures
            r == (Modifiers { shift: false, ctrl: false, alt: true }),
    {
        Modifiers { shift: false, ctrl: false, alt: true }
    }
}

/// A key with its modifiers.
#[derive(Clone, Copy, Debug, Hash, PartialEq, Eq, Structural)]
pub struct Key {
    pub key: KeyCode,
    pub modifiers: Modifiers,
}

impl Key {
    pub fn new(key: KeyCode, modifiers: Modifiers) -> (r: Key)
        ensures
            r == (Key { key, modifiers }),
    {
        Key { key, modifiers }
    }
}

/// Why a key failed to parse, over character sequences.
pub enum KeyErrorView {
    InvalidFormat,
    InvalidKey(Seq<char>),
    InvalidModifier(Seq<char>),
    DuplicateModifier(Seq<char>),
}

/// Why a key failed to parse.
#[derive(Debug, PartialEq, Eq)]
pub enum ParseKeyError {
    /// Empty, or a `+` at either end.
    InvalidFormat,
    /// A key name that names no key.
    InvalidKey(String),
    /// A modifier name that names no modifier.
    InvalidModifier(String),
    /// A modifier given twice.
    DuplicateModifier(String),
}

impl View for ParseKeyError {
    type V = KeyErrorView;

    open spec fn view(&self) -> KeyErrorView {
        match self {
            ParseKeyError::InvalidFormat => KeyErrorView::InvalidFormat,
            ParseKeyError::InvalidKey(s) => KeyErrorView::InvalidKey(s@),
            ParseKeyError::InvalidModifier(s) => KeyErrorView::InvalidModifier(s@),
            ParseKeyError::DuplicateModifier(s) => KeyErrorView::DuplicateModifier(s@),
        }
    }
}

/// Relies on collecting characters into a `String` (`FromIterator<&char>`):
/// the string holds exactly those characters.
#[verifier::external_body]
pub(crate) fn string_of(v: &Vec<char>) -> (r: String)
    ensures
        r@ == v@,
{
    v.iter().collect()
}

/// Whether `v` holds exactly the characters of `lit`.
pub fn same(v: &Vec<char>, lit: &str) -> (r: bool)
    ensures
        r == (v@ == lit@),
{
    let w = chars_of(lit);
    if v.len() != w.len() {
        return false;
    }
    let mut i: usize = 0;
    while i < v.len()
        invariant
            i <= v@.len() == w@.len(),
            w@ == lit@,
            v@.take(i as int) == w@.take(i as int),
        decreases v@.len() - i,
    {
        if v[i] != w[i] {
            assert(v@[i as int] != w@[i as int]);
            return false;
        }
        assert(v@.take(i as int + 1) =~= v@.take(i as int).push(v@[i as int]));
        assert(w@.take(i as int + 1) =~= w@.take(i as int).push(w@[i as int]));
        i += 1;
    }
    assert(v@ =~= v@.take(i as int));
    assert(w@ =~= w@.take(i as int));
    true
}

pub open spec fn is_digit(c: char) -> bool {
    '0' <= c <= '9'
}

/// The value of a sequence of decimal digits.
pub open spec fn digits_value(d: Seq<char>) -> int
    decreases d.len(),
{
    if d.len() == 0 {
        0
    } else {
        digits_value(d.drop_last()) * 10 + (d.last() as int - '0' as int)
    }
}

pub open spec fn all_digits(d: Seq<char>) -> bool {
    forall|i: int| 0 <= i < d.len() ==> is_digit(#[trigger] d[i])
}

/// `s` without one leading `+`.
pub open spec fn unsigned(s: Seq<char>) -> Seq<char> {
    if s.len() > 0 && s[0] == '+' {
        s.drop_first()
    } else {
        s
    }
}

/// A `u8` written in decimal: an optional `+`, then at least one digit,
/// with a value up to 255.
pub open spec fn u8_of(s: Seq<char>) -> Option<u8> {
    let d = unsigned(s);
    if d.len() > 0 && all_digits(d) && digits_value(d) <= 255 {
        Some(digits_value(d) as u8)
    } else {
        None
    }
}

/// Reads a `u8` written in decimal, as `u8::from_str` does.
pub fn parse_u8(v: &Vec<char>, from: usize) -> (r: Option<u8>)
    requires
        from <= v@.len(),
    ensures
        r == u8_of(v@.subrange(from as int, v@.len() as int)),
{
    let ghost s = v@.subrange(from as int, v@.len() as int);
    let start = if from < v.len() && v[from] == '+' {
        from + 1
    } else {
        from
    };
    let ghost d = v@.subrange(start as int, v@.len() as int);
    assert(s.len() > 0 ==> s[0] == v@[from as int]);
    assert(d =~= unsigned(s));
    if start == v.len() {
        return None;
    }
    let mut acc: u32 = 0;
    let mut big = false;
    let mut i: usize = start;
    while i < v.len()
        invariant
            start <= i <= v@.len(),
            s == v@.subrange(from as int, v@.len() as int),
            d == v@.subrange(start as int, v@.len() as int),
            d == unsigned(s),
            d.len() > 0,
            forall|k: int| start <= k < i ==> is_digit(#[trigger] v@[k]),
            !big ==> acc <= 255 && acc == digits_value(v@.subrange(start as int, i as int)),
            big ==> digits_value(v@.subrange(start as int, i as int)) > 255,
        decreases v@.len() - i,
    {
        let c = v[i];
        if !('0' <= c && c <= '9') {
            assert(!is_digit(d[i - start]));
            assert(!all_digits(d));
            return None;
        }
        assert(v@.subrange(start as int, i + 1).drop_last() =~= v@.subrange(start as int, i as int));
        if !big {
            let next = acc * 10 + (c as u32 - '0' as u32);
            if next > 255 {
                big = true;
            } else {
                acc = next;
            }
        }
        i += 1;
    }
    assert(d =~= v@.subrange(start as int, i as int));
    if big {
        None
    } else {
        Some(acc as u8)
    }
}

/// The key that a name denotes: a single ASCII character stands for
/// itself, `f` and a number for a function key, and the rest by name.
pub open spec fn key_code_of(s: Seq<char>) -> Result<KeyCode, KeyErrorView> {
    if s.len() == 0 {
        Err(KeyErrorView::InvalidFormat)
    } else if s.len() == 1 && (s[0] as u32) < 128 {
        Ok(KeyCode::Char(s[0]))
    } else if s[0] == 'f' {
        match u8_of(s.drop_first()) {
            Some(n) => Ok(KeyCode::F(n)),
            None => Err(KeyErrorView::InvalidKey(s)),
        }
    } else if s == "backspace"@ {
        Ok(KeyCode::Backspace)
    } else if s == "enter"@ {
        Ok(KeyCode::Enter)
    } else if s == "left"@ {
        Ok(KeyCode::Left)
    } else if s == "right"@ {
        Ok(KeyCode::Right)
    } else if s == "up"@ {
        Ok(KeyCode::Up)
    } else if s == "down"@ {
        Ok(KeyCode::Down)
    } else if s == "home"@ {
        Ok(KeyCode::Home)
    } else if s == "end"@ {
        Ok(KeyCode::End)
    } else if s == "page-up"@ {
        Ok(KeyCode::PageUp)
    } else if s == "page-down"@ {
        Ok(KeyCode::PageDown)
    } else if s == "tab"@ {
        Ok(KeyCode::Tab)
    } else if s == "back-tab"@ {
        Ok(KeyCode::BackTab)
    } else if s == "delete"@ {
        Ok(KeyCode::Delete)
    } else if s == "insert"@ {
        Ok(KeyCode::Insert)
    } else if s == "null"@ {
        Ok(KeyCode::Null)
    } else if s == "escape"@ {
        Ok(KeyCode::Esc)
    } else {
        Err(KeyErrorView::InvalidKey(s))
    }
}

/// The modifier that a name denotes.
pub open spec fn modifier_of(s: Seq<char>) -> Result<Modifiers, KeyErrorView> {
    if s == "shift"@ {
        Ok(Modifiers { shift: true, ctrl: false, alt: false })
    } else if s == "ctrl"@ {
        Ok(Modifiers { shift: false, ctrl: true, alt: false })
    } else if s == "alt"@ {
        Ok(Modifiers { shift: false, ctrl: false, alt: true })
    } else {
        Err(KeyErrorView::InvalidModifier(s))
    }
}

pub open spec fn overlaps(a: Modifiers, b: Modifiers) -> bool {
    (a.shift && b.shift) || (a.ctrl && b.ctrl) || (a.alt && b.alt)
}

pub open spec fn union(a: Modifiers, b: Modifiers) -> Modifiers {
    Modifiers { shift: a.shift || b.shift, ctrl: a.ctrl || b.ctrl, alt: a.alt || b.alt }
}

/// The modifiers named by `names`, added in order to `acc`: the first
/// unknown or repeated name is the error.
pub open spec fn modifiers_of(names: Seq<Seq<char>>, acc: Modifiers) -> Result<
    Modifiers,
    KeyErrorView,
>
    decreases names.len(),
{
    if names.len() == 0 {
        Ok(acc)
    } else {
        match modifier_of(names[0]) {
            Err(e) => Err(e),
            Ok(m) => if overlaps(acc, m) {
                Err(KeyErrorView::DuplicateModifier(names[0]))
            } else {
                modifiers_of(names.drop_first(), union(acc, m))
            },
        }
    }
}

/// The key that a text denotes: pieces separated by `+`, each trimmed, the
/// last naming the key and the others modifiers. The key name is read
/// before the modifiers.
pub open spec fn key_of(s: Seq<char>) -> Result<Key, KeyErrorView> {
    if s.len() > 0 && (s[0] == '+' || s.last() == '+') {
        Err(KeyErrorView::InvalidFormat)
    } else {
        let pieces = split_on(s, '+').map_values(|p: Seq<char>| trimmed(p));
        match key_code_of(pieces.last()) {
            Err(e) => Err(e),
            Ok(code) => match modifiers_of(
                pieces.drop_last(),
                Modifiers { shift: false, ctrl: false, alt: false },
            ) {
                Err(e) => Err(e),
                Ok(m) => Ok(Key { key: code, modifiers: m }),
            },
        }
    }
}

/// The view of a parse result.
pub open spec fn key_result_view(r: Result<Key, ParseKeyError>) -> Result<Key, KeyErrorView> {
    match r {
        Ok(k) => Ok(k),
        Err(e) => Err(e@),
    }
}

fn parse_key_code(v: &Vec<char>) -> (r: Result<KeyCode, ParseKeyError>)
    ensures
        match r {
            Ok(c) => key_code_of(v@) == Ok::<KeyCode, KeyErrorView>(c),
            Err(e) => key_code_of(v@) == Err::<KeyCode, KeyErrorView>(e@),
        },
{
    if v.len() == 0 {
        return Err(ParseKeyError::InvalidFormat);
    }
    if v.len() == 1 && (v[0] as u32) < 128 {
        return Ok(KeyCode::Char(v[0]));
    }
    if v[0] == 'f' {
        assert(v@.subrange(1, v@.len() as int) =~= v@.drop_first());
        return match parse_u8(v, 1) {
            Some(n) => Ok(KeyCode::F(n)),
            None => Err(ParseKeyError::InvalidKey(string_of(v))),
        };
    }
    if same(v, "backspace") {
        Ok(KeyCode::Backspace)
    } else if same(v, "enter") {
        Ok(KeyCode::Enter)
    } else if same(v, "left") {
        Ok(KeyCode::Left)
    } else if same(v, "right") {
        Ok(KeyCode::Right)
    } else if same(v, "up") {
        Ok(KeyCode::Up)
    } else if same(v, "down") {
        Ok(KeyCode::Down)
    } else if same(v, "home") {
        Ok(KeyCode::Home)
    } else if same(v, "end") {
        Ok(KeyCode::End)
    } else if same(v, "page-up") {
        Ok(KeyCode::PageUp)
    } else if same(v, "page-down") {
        Ok(KeyCode::PageDown)
    } else if same(v, "tab") {
        Ok(KeyCode::Tab)
    } else if same(v, "back-tab") {
        Ok(KeyCode::BackTab)
    } else if same(v, "delete") {
        Ok(KeyCode::Delete)
    } else if same(v, "insert") {
        Ok(KeyCode::Insert)
    } else if same(v, "null") {
        Ok(KeyCode::Null)
    } else if same(v, "escape") {
        Ok(KeyCode::Esc)
    } else {
        Err(ParseKeyError::InvalidKey(string_of(v)))
    }
}

fn parse_modifier(v: &Vec<char>) -> (r: Result<Modifiers, ParseKeyError>)
    ensures
        match r {
            Ok(m) => modifier_of(v@) == Ok::<Modifiers, KeyErrorView>(m),
            Err(e) => modifier_of(v@) == Err::<Modifiers, KeyErrorView>(e@),
        },
{
    if same(v, "shift") {
        Ok(Modifiers::shift())
    } else if same(v, "ctrl") {
        Ok(Modifiers::control())
    } else if same(v, "alt") {
        Ok(Modifiers::alt())
    } else {
        Err(ParseKeyError::InvalidModifier(string_of(v)))
    }
}

impl Key {
    /// Reads a key from its textual form, around which whitespace is
    /// ignored.
    pub fn parse(s: &str) -> (r: Result<Key, ParseKeyError>)
        ensures
            key_result_view(r) == key_of(trimmed(s@)),
    {
        let v = trim(&chars_of(s));
        Key::parse_chars(&v)
    }

    /// Reads a key from characters with no whitespace around them.
    pub fn parse_chars(v: &Vec<char>) -> (r: Result<Key, ParseKeyError>)
        ensures
            key_result_view(r) == key_of(v@),
    {
        let n = v.len();
        if n > 0 && (v[0] == '+' || v[n - 1] == '+') {
            return Err(ParseKeyError::InvalidFormat);
        }
        let raw = split(v, '+');
        let ghost pieces = split_on(v@, '+').map_values(|p: Seq<char>| trimmed(p));
        let mut names: Vec<Vec<char>> = Vec::new();
        let mut i: usize = 0;
        while i < raw.len()
            invariant
                i <= raw@.len(),
                views(raw@) == split_on(v@, '+'),
                pieces == split_on(v@, '+').map_values(|p: Seq<char>| trimmed(p)),
                views(names@) == pieces.take(i as int),
            decreases raw@.len() - i,
        {
            let t = trim(&raw[i]);
            assert(views(raw@)[i as int] == raw@[i as int]@);
            assert(pieces[i as int] == trimmed(raw@[i as int]@));
            let ghost before = names@;
            names.push(t);
            assert(names@ == before.push(t));
            assert(views(names@) =~= views(before).push(t@));
            assert(pieces.take(i as int + 1) =~= pieces.take(i as int).push(pieces[i as int]));
            i += 1;
        }
        assert(views(names@) =~= pieces);
        let last = names.len() - 1;
        let code = match parse_key_code(&names[last]) {
            Ok(c) => c,
            Err(e) => {
                return Err(e);
            },
        };
        let mut modifiers = Modifiers::none();
        let mut j: usize = 0;
        assert(pieces.drop_last().skip(0) =~= pieces.drop_last());
        while j < last
            invariant
                last + 1 == names@.len(),
                j <= last,
                views(names@) == pieces,
                pieces == split_on(v@, '+').map_values(|p: Seq<char>| trimmed(p)),
                !(v@.len() > 0 && (v@[0] == '+' || v@.last() == '+')),
                key_code_of(pieces.last()) == Ok::<KeyCode, KeyErrorView>(code),
                modifiers_of(pieces.drop_last(), Modifiers { shift: false, ctrl: false, alt: false })
                    == modifiers_of(pieces.drop_last().skip(j as int), modifiers),
            decreases last - j,
        {
            let ghost rest = pieces.drop_last().skip(j as int);
            assert(rest.len() > 0);
            assert(rest[0] == names@[j as int]@);
            assert(rest.drop_first() =~= pieces.drop_last().skip(j as int + 1));
            let m = match parse_modifier(&names[j]) {
                Ok(m) => m,
                Err(e) => {
                    return Err(e);
                },
            };
            if (modifiers.shift && m.shift) || (modifiers.ctrl && m.ctrl) || (modifiers.alt
                && m.alt) {
                return Err(ParseKeyError::DuplicateModifier(string_of(&names[j])));
            }
            modifiers = Modifiers {
                shift: modifiers.shift || m.shift,
                ctrl: modifiers.ctrl || m.ctrl,
                alt: modifiers.alt || m.alt,
            };
            j += 1;
        }
        assert(pieces.drop_last().skip(last as int).len() == 0);
        Ok(Key { key: code, modifiers })
    }
}

impl std::str::FromStr for Key {
    type Err = ParseKeyError;

    fn from_str(s: &str) -> Result<Key, ParseKeyError> {
        Key::parse(s)
    }
}

} // verus!
