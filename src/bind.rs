//! Binds of keys to actions: their textual form `<key>:<action>`, and the
//! table that maps each key to its action.

use vstd::prelude::*;

use crate::action::{Action, InputAction, ParseActionError, TuiAction, action_named};
use crate::key::{Key, KeyCode, KeyErrorView, Modifiers, ParseKeyError, key_of, key_result_view};
use crate::text::{chars_of, is_last_adjacent, last_adjacent, slice_of, trim, trimmed};

verus! {

/// A key and the action it is bound to.
#[derive(Clone, Copy, Debug, PartialEq, Eq, Structural)]
pub struct Bind {
    pub key: Key,
    pub action: Action,
}

/// Why a bind failed to parse, over character sequences.
pub enum BindErrorView {
    InvalidFormat,
    Key(KeyErrorView),
    Action(Seq<char>),
}

/// Why a bind failed to parse.
#[derive(Debug, PartialEq, Eq)]
pub enum ParseBindError {
    /// No `:` separates a key from an action.
    InvalidFormat,
    ParseKeyError(ParseKeyError),
    ParseActionError(ParseActionError),
}

impl View for ParseBindError {
    type V = BindErrorView;

    open spec fn view(&self) -> BindErrorView {
        match self {
            ParseBindError::InvalidFormat => BindErrorView::InvalidFormat,
            ParseBindError::ParseKeyError(e) => BindErrorView::Key(e@),
            ParseBindError::ParseActionError(e) => BindErrorView::Action(e.0@),
        }
    }
}

impl From<ParseKeyError> for ParseBindError {
    fn from(value: ParseKeyError) -> (r: ParseBindError)
        ensures
            r == ParseBindError::ParseKeyError(value),
    {
        ParseBindError::ParseKeyError(value)
    }
}

impl vstd::std_specs::convert::FromSpecImpl<ParseKeyError> for ParseBindError {
    open spec fn obeys_from_spec() -> bool {
        true
    }

    open spec fn from_spec(v: ParseKeyError) -> ParseBindError {
        ParseBindError::ParseKeyError(v)
    }
}

impl From<ParseActionError> for ParseBindError {
    fn from(value: ParseActionError) -> (r: ParseBindError)
        ensures
            r == ParseBindError::ParseActionError(value),
    {
        ParseBindError::ParseActionError(value)
    }
}

impl vstd::std_specs::convert::FromSpecImpl<ParseActionError> for ParseBindError {
    open spec fn obeys_from_spec() -> bool {
        true
    }

    open spec fn from_spec(v: ParseActionError) -> ParseBindError {
        ParseBindError::ParseActionError(v)
    }
}

/// The bind written as `t` with its separating colon at `j`: the key is
/// read from the text before it and the action from the text after it,
/// each trimmed, the key first.
pub open spec fn bind_at(t: Seq<char>, j: int) -> Result<Bind, BindErrorView> {
    match key_of(trimmed(t.take(j))) {
        Err(e) => Err(BindErrorView::Key(e)),
        Ok(k) => {
            let name = trimmed(t.skip(j + 1));
            match action_named(name) {
                None => Err(BindErrorView::Action(name)),
                Some(a) => Ok(Bind { key: k, action: a }),
            }
        },
    }
}

/// The view of a parse result.
pub open spec fn bind_result_view(r: Result<Bind, ParseBindError>) -> Result<Bind, BindErrorView> {
    match r {
        Ok(b) => Ok(b),
        Err(e) => Err(e@),
    }
}

impl Bind {
    pub fn new(key: Key, action: Action) -> (r: Bind)
        ensures
            r == (Bind { key, action }),
    {
        Bind { key, action }
    }

    /// Reads a bind `<key>:<action>`, around which whitespace is ignored.
    /// The separating colon is the last of the first run of colons, which
    /// may hold whitespace, so that `:` itself can be bound (`alt+: : exit`).
    pub fn parse(s: &str) -> (r: Result<Bind, ParseBindError>)
        ensures
            !trimmed(s@).contains(':') ==> r == Err::<Bind, ParseBindError>(
                ParseBindError::InvalidFormat,
            ),
            trimmed(s@).contains(':') ==> exists|j: int|
                #![trigger is_last_adjacent(trimmed(s@), ':', j)]
                is_last_adjacent(trimmed(s@), ':', j) && bind_result_view(r) == bind_at(
                    trimmed(s@),
                    j,
                ),
    {
        let t = trim(&chars_of(s));
        let j = match last_adjacent(&t, ':') {
            Some(j) => j,
            None => {
                return Err(ParseBindError::InvalidFormat);
            },
        };
        let key_text = trim(&slice_of(&t, 0, j));
        assert(t@.subrange(0, j as int) =~= t@.take(j as int));
        let action_text = trim(&slice_of(&t, j + 1, t.len()));
        assert(t@.subrange(j + 1, t@.len() as int) =~= t@.skip(j + 1));
        let key = match Key::parse_chars(&key_text) {
            Ok(k) => k,
            Err(e) => {
                assert(bind_result_view(Err(ParseBindError::ParseKeyError(e))) == bind_at(
                    t@,
                    j as int,
                ));
                return Err(ParseBindError::ParseKeyError(e));
            },
        };
        assert(key_result_view(Ok(key)) == key_of(key_text@));
        match Action::parse_chars(&action_text) {
            Ok(action) => Ok(Bind { key, action }),
            Err(e) => Err(ParseBindError::ParseActionError(e)),
        }
    }
}

impl std::str::FromStr for Bind {
    type Err = ParseBindError;

    fn from_str(s: &str) -> Result<Bind, ParseBindError> {
        Bind::parse(s)
    }
}

/// A key with no modifier.
pub open spec fn plain_key(code: KeyCode) -> Key {
    Key { key: code, modifiers: Modifiers { shift: false, ctrl: false, alt: false } }
}

/// A key with control held.
pub open spec fn ctrl_key(code: KeyCode) -> Key {
    Key { key: code, modifiers: Modifiers { shift: false, ctrl: true, alt: false } }
}

/// A key with alt held.
pub open spec fn alt_key(code: KeyCode) -> Key {
    Key { key: code, modifiers: Modifiers { shift: false, ctrl: false, alt: true } }
}

impl Key {
    pub fn plain(code: KeyCode) -> (r: Key)
        ensures
            r == plain_key(code),
    {
        Key { key: code, modifiers: Modifiers::none() }
    }

    pub fn ctrl(code: KeyCode) -> (r: Key)
        ensures
            r == ctrl_key(code),
    {
        Key { key: code, modifiers: Modifiers::control() }
    }

    pub fn alt(code: KeyCode) -> (r: Key)
        ensures
            r == alt_key(code),
    {
        Key { key: code, modifiers: Modifiers::alt() }
    }
}

/// The binds that hold unless a key is bound otherwise, in order.
pub open spec fn default_binds() -> Seq<(Key, Action)> {
    seq![
        (ctrl_key(KeyCode::Char('c')), Action::Exit),
        (ctrl_key(KeyCode::Char('n')), Action::Tui(TuiAction::Next)),
        (ctrl_key(KeyCode::Char('p')), Action::Tui(TuiAction::Previous)),
        (alt_key(KeyCode::Char('a')), Action::Tui(TuiAction::First)),
        (alt_key(KeyCode::Char('e')), Action::Tui(TuiAction::Last)),
        (plain_key(KeyCode::Left), Action::Tui(TuiAction::Input(InputAction::MoveBack))),
        (plain_key(KeyCode::Down), Action::Tui(TuiAction::Input(InputAction::MoveDown))),
        (plain_key(KeyCode::Up), Action::Tui(TuiAction::Input(InputAction::MoveUp))),
        (plain_key(KeyCode::Right), Action::Tui(TuiAction::Input(InputAction::MoveForward))),
        (ctrl_key(KeyCode::Left), Action::Tui(TuiAction::Input(InputAction::MoveBackWord))),
        (ctrl_key(KeyCode::Down), Action::Tui(TuiAction::Input(InputAction::MoveToBottom))),
        (ctrl_key(KeyCode::Up), Action::Tui(TuiAction::Input(InputAction::MoveToTop))),
        (ctrl_key(KeyCode::Right), Action::Tui(TuiAction::Input(InputAction::MoveToEndOfWord))),
        (plain_key(KeyCode::Home), Action::Tui(TuiAction::Input(InputAction::MoveToHead))),
        (plain_key(KeyCode::End), Action::Tui(TuiAction::Input(InputAction::MoveToEnd))),
        (ctrl_key(KeyCode::Char('f')), Action::Tui(TuiAction::Input(InputAction::MoveForward))),
        (ctrl_key(KeyCode::Char('b')), Action::Tui(TuiAction::Input(InputAction::MoveBack))),
        (alt_key(KeyCode::Char('f')), Action::Tui(TuiAction::Input(InputAction::MoveToEndOfWord))),
        (alt_key(KeyCode::Char('b')), Action::Tui(TuiAction::Input(InputAction::MoveBackWord))),
        (ctrl_key(KeyCode::Char('a')), Action::Tui(TuiAction::Input(InputAction::MoveToHead))),
        (ctrl_key(KeyCode::Char('e')), Action::Tui(TuiAction::Input(InputAction::MoveToEnd))),
        (plain_key(KeyCode::Backspace), Action::Tui(TuiAction::Input(InputAction::Delete))),
        (ctrl_key(KeyCode::Backspace), Action::Tui(TuiAction::Input(InputAction::DeleteWord))),
        (plain_key(KeyCode::Delete), Action::Tui(TuiAction::Input(InputAction::DeleteNext))),
        (ctrl_key(KeyCode::Delete), Action::Tui(TuiAction::Input(InputAction::DeleteNextWord))),
        (ctrl_key(KeyCode::Char('d')), Action::Tui(TuiAction::Input(InputAction::DeleteNext))),
        (alt_key(KeyCode::Char('d')), Action::Tui(TuiAction::Input(InputAction::DeleteNextWord))),
        (ctrl_key(KeyCode::Char('w')), Action::Tui(TuiAction::Input(InputAction::DeleteWord))),
        (ctrl_key(KeyCode::Char('u')), Action::Tui(TuiAction::Input(InputAction::DeleteToHead))),
        (ctrl_key(KeyCode::Char('k')), Action::Tui(TuiAction::Input(InputAction::DeleteToEnd))),
    ]
}

fn default_entries() -> (r: Vec<(Key, Action)>)
    ensures
        r@ == default_binds(),
{
    let mut v: Vec<(Key, Action)> = Vec::new();
    v.push((Key::ctrl(KeyCode::Char('c')), Action::Exit));
    v.push((Key::ctrl(KeyCode::Char('n')), Action::Tui(TuiAction::Next)));
    v.push((Key::ctrl(KeyCode::Char('p')), Action::Tui(TuiAction::Previous)));
    v.push((Key::alt(KeyCode::Char('a')), Action::Tui(TuiAction::First)));
    v.push((Key::alt(KeyCode::Char('e')), Action::Tui(TuiAction::Last)));
    v.push((Key::plain(KeyCode::Left), Action::Tui(TuiAction::Input(InputAction::MoveBack))));
    v.push((Key::plain(KeyCode::Down), Action::Tui(TuiAction::Input(InputAction::MoveDown))));
    v.push((Key::plain(KeyCode::Up), Action::Tui(TuiAction::Input(InputAction::MoveUp))));
    v.push((Key::plain(KeyCode::Right), Action::Tui(TuiAction::Input(InputAction::MoveForward))));
    v.push((Key::ctrl(KeyCode::Left), Action::Tui(TuiAction::Input(InputAction::MoveBackWord))));
    v.push((Key::ctrl(KeyCode::Down), Action::Tui(TuiAction::Input(InputAction::MoveToBottom))));
    v.push((Key::ctrl(KeyCode::Up), Action::Tui(TuiAction::Input(InputAction::MoveToTop))));
    v.push((Key::ctrl(KeyCode::Right), Action::Tui(TuiAction::Input(InputAction::MoveToEndOfWord))));
    v.push((Key::plain(KeyCode::Home), Action::Tui(TuiAction::Input(InputAction::MoveToHead))));
    v.push((Key::plain(KeyCode::End), Action::Tui(TuiAction::Input(InputAction::MoveToEnd))));
    v.push((Key::ctrl(KeyCode::Char('f')), Action::Tui(TuiAction::Input(InputAction::MoveForward))));
    v.push((Key::ctrl(KeyCode::Char('b')), Action::Tui(TuiAction::Input(InputAction::MoveBack))));
    v.push((Key::alt(KeyCode::Char('f')), Action::Tui(TuiAction::Input(InputAction::MoveToEndOfWord))));
    v.push((Key::alt(KeyCode::Char('b')), Action::Tui(TuiAction::Input(InputAction::MoveBackWord))));
    v.push((Key::ctrl(KeyCode::Char('a')), Action::Tui(TuiAction::Input(InputAction::MoveToHead))));
    v.push((Key::ctrl(KeyCode::Char('e')), Action::Tui(TuiAction::Input(InputAction::MoveToEnd))));
    v.push((Key::plain(KeyCode::Backspace), Action::Tui(TuiAction::Input(InputAction::Delete))));
    v.push((Key::ctrl(KeyCode::Backspace), Action::Tui(TuiAction::Input(InputAction::DeleteWord))));
    v.push((Key::plain(KeyCode::Delete), Action::Tui(TuiAction::Input(InputAction::DeleteNext))));
    v.push((Key::ctrl(KeyCode::Delete), Action::Tui(TuiAction::Input(InputAction::DeleteNextWord))));
    v.push((Key::ctrl(KeyCode::Char('d')), Action::Tui(TuiAction::Input(InputAction::DeleteNext))));
    v.push((Key::alt(KeyCode::Char('d')), Action::Tui(TuiAction::Input(InputAction::DeleteNextWord))));
    v.push((Key::ctrl(KeyCode::Char('w')), Action::Tui(TuiAction::Input(InputAction::DeleteWord))));
    v.push((Key::ctrl(KeyCode::Char('u')), Action::Tui(TuiAction::Input(InputAction::DeleteToHead))));
    v.push((Key::ctrl(KeyCode::Char('k')), Action::Tui(TuiAction::Input(InputAction::DeleteToEnd))));
    assert(v@ =~= default_binds());
    v
}

/// The map that a list of binds makes, a later bind of a key overriding
/// an earlier one.
pub open spec fn map_of(s: Seq<(Key, Action)>) -> Map<Key, Action>
    decreases s.len(),
{
    if s.len() == 0 {
        Map::empty()
    } else {
        map_of(s.drop_last()).insert(s.last().0, s.last().1)
    }
}

/// `m` with each of `d` added in order where its key is still unbound.
pub open spec fn with_defaults(m: Map<Key, Action>, d: Seq<(Key, Action)>) -> Map<Key, Action>
    decreases d.len(),
{
    if d.len() == 0 {
        m
    } else {
        let next = if m.contains_key(d[0].0) {
            m
        } else {
            m.insert(d[0].0, d[0].1)
        };
        with_defaults(next, d.drop_first())
    }
}

proof fn lemma_map_of_without_suffix(s: Seq<(Key, Action)>, i: int, k: Key)
    requires
        0 <= i <= s.len(),
        forall|j: int| i <= j < s.len() ==> (#[trigger] s[j]).0 != k,
    ensures
        map_of(s).contains_key(k) == map_of(s.take(i)).contains_key(k),
        map_of(s).contains_key(k) ==> map_of(s)[k] == map_of(s.take(i))[k],
    decreases s.len(),
{
    if s.len() > i {
        assert(s.drop_last().take(i) =~= s.take(i));
        lemma_map_of_without_suffix(s.drop_last(), i, k);
    } else {
        assert(s.take(i) =~= s);
    }
}

proof fn lemma_map_of_update(s: Seq<(Key, Action)>, i: int, a: Action)
    requires
        0 <= i < s.len(),
        forall|j: int| i < j < s.len() ==> (#[trigger] s[j]).0 != s[i].0,
    ensures
        map_of(s.update(i, (s[i].0, a))) == map_of(s).insert(s[i].0, a),
    decreases s.len(),
{
    let k = s[i].0;
    let u = s.update(i, (k, a));
    if s.len() == i + 1 {
        assert(u.drop_last() =~= s.drop_last());
        assert(map_of(u) =~= map_of(s).insert(k, a));
    } else {
        assert(u.drop_last() =~= s.drop_last().update(i, (k, a)));
        lemma_map_of_update(s.drop_last(), i, a);
        assert(map_of(u) =~= map_of(s).insert(k, a));
    }
}

/// Keys bound to actions.
pub struct Binds {
    entries: Vec<(Key, Action)>,
}

impl View for Binds {
    type V = Map<Key, Action>;

    closed spec fn view(&self) -> Map<Key, Action> {
        map_of(self.entries@)
    }
}

impl Binds {
    /// No key bound.
    pub fn new() -> (r: Binds)
        ensures
            r@ == Map::<Key, Action>::empty(),
    {
        Binds { entries: Vec::new() }
    }

    /// The binds of a list, a later bind of a key overriding an earlier
    /// one.
    pub fn from_binds(binds: Vec<Bind>) -> (r: Binds)
        ensures
            r@ == map_of(binds@.map_values(|b: Bind| (b.key, b.action))),
    {
        let mut r = Binds::new();
        let ghost pairs = binds@.map_values(|b: Bind| (b.key, b.action));
        let mut i: usize = 0;
        while i < binds.len()
            invariant
                i <= binds@.len(),
                pairs == binds@.map_values(|b: Bind| (b.key, b.action)),
                r@ == map_of(pairs.take(i as int)),
            decreases binds@.len() - i,
        {
            let b = binds[i];
            r.insert(b.key, b.action);
            assert(pairs.take(i as int + 1).drop_last() =~= pairs.take(i as int));
            i += 1;
        }
        assert(pairs.take(binds@.len() as int) =~= pairs);
        r
    }

    /// The index of the last entry for `key`.
    fn find(&self, key: &Key) -> (r: Option<usize>)
        ensures
            match r {
                Some(i) => i < self.entries@.len() && self.entries@[i as int].0 == *key
                    && forall|j: int|
                    i < j < self.entries@.len() ==> (#[trigger] self.entries@[j]).0 != *key,
                None => forall|j: int|
                    0 <= j < self.entries@.len() ==> (#[trigger] self.entries@[j]).0 != *key,
            },
    {
        let mut i: usize = self.entries.len();
        while i > 0
            invariant
                i <= self.entries@.len(),
                forall|j: int| i <= j < self.entries@.len() ==> (#[trigger] self.entries@[j]).0 != *key,
            decreases i,
        {
            if self.entries[i - 1].0 == *key {
                return Some(i - 1);
            }
            i -= 1;
        }
        None
    }

    /// The action bound to `key`.
    pub fn action_for_key(&self, key: &Key) -> (r: Option<Action>)
        ensures
            r == (if self@.contains_key(*key) {
                Some(self@[*key])
            } else {
                None
            }),
    {
        match self.find(key) {
            Some(i) => {
                proof {
                    let s = self.entries@;
                    lemma_map_of_without_suffix(s, i + 1, *key);
                    assert(s.take(i + 1).drop_last() =~= s.take(i as int));
                }
                Some(self.entries[i].1)
            },
            None => {
                proof {
                    lemma_map_of_without_suffix(self.entries@, 0, *key);
                    assert(self.entries@.take(0) =~= Seq::<(Key, Action)>::empty());
                }
                None
            },
        }
    }

    /// Binds `key` to `action`, replacing its former action.
    pub fn insert(&mut self, key: Key, action: Action)
        ensures
            final(self)@ == old(self)@.insert(key, action),
    {
        match self.find(&key) {
            Some(i) => {
                proof {
                    lemma_map_of_update(self.entries@, i as int, action);
                }
                self.entries.set(i, (key, action));
            },
            None => {
                let ghost before = self.entries@;
                self.entries.push((key, action));
                assert(self.entries@.drop_last() =~= before);
            },
        }
    }

    /// Takes every bind of `other`, which wins where both bind a key.
    pub fn overwrite(&mut self, other: &Binds)
        ensures
            final(self)@ == old(self)@.union_prefer_right(other@),
    {
        let ghost start = self@;
        let ghost s = other.entries@;
        let mut i: usize = 0;
        assert(start.union_prefer_right(map_of(s.take(0))) =~= start);
        while i < other.entries.len()
            invariant
                i <= s.len(),
                s == other.entries@,
                self@ == start.union_prefer_right(map_of(s.take(i as int))),
            decreases s.len() - i,
        {
            let (k, a) = other.entries[i];
            self.insert(k, a);
            assert(s.take(i as int + 1).drop_last() =~= s.take(i as int));
            assert(self@ =~= start.union_prefer_right(map_of(s.take(i as int + 1))));
            i += 1;
        }
        assert(s.take(s.len() as int) =~= s);
    }

    /// Binds each default key that is not bound yet to its default action.
    pub fn insert_defaults(&mut self)
        ensures
            final(self)@ == with_defaults(old(self)@, default_binds()),
    {
        let d = default_entries();
        let ghost start = self@;
        let mut i: usize = 0;
        assert(d@.skip(0) =~= d@);
        while i < d.len()
            invariant
                i <= d@.len(),
                d@ == default_binds(),
                with_defaults(start, d@) == with_defaults(self@, d@.skip(i as int)),
            decreases d@.len() - i,
        {
            let (k, a) = d[i];
            assert(d@.skip(i as int).drop_first() =~= d@.skip(i as int + 1));
            if self.action_for_key(&k).is_none() {
                self.insert(k, a);
            }
            i += 1;
        }
    }
}

impl Default for Binds {
    fn default() -> (r: Binds)
        ensures
            r@ == Map::<Key, Action>::empty(),
    {
        Binds::new()
    }
}

/// Defaults never replace a bind: a key bound before keeps its action.
pub proof fn lemma_defaults_keep_binds(m: Map<Key, Action>, d: Seq<(Key, Action)>, k: Key)
    requires
        m.contains_key(k),
    ensures
        with_defaults(m, d).contains_key(k),
        with_defaults(m, d)[k] == m[k],
    decreases d.len(),
{
    if d.len() > 0 {
        let next = if m.contains_key(d[0].0) {
            m
        } else {
            m.insert(d[0].0, d[0].1)
        };
        lemma_defaults_keep_binds(next, d.drop_first(), k);
    }
}

} // verus!
