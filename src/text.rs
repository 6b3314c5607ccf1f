//! Scanning of text by characters.

use vstd::prelude::*;
use vstd::utf8::{char_is_scalar, encode_scalar, encode_utf8};

verus! {

broadcast use vstd::string::axiom_spec_iter, vstd::slice::axiom_spec_len;

/// The characters of `s`, in order.
pub fn chars_of(s: &str) -> (r: Vec<char>)
    ensures
        r@ == s@,
{
    let mut v: Vec<char> = Vec::new();
    for c in it: s.chars()
        invariant
            it.seq() == s@,
            v@ == s@.take(it.index() as int),
    {
        v.push(c);
    }
    assert(v@ =~= s@);
    v
}

/// Whether a character has the Unicode White_Space property, as
/// `char::is_whitespace` tells: tab to carriage return, space, next line,
/// no-break space, ogham space mark, the spaces from en quad to hair space,
/// line and paragraph separators, narrow no-break space, medium
/// mathematical space and ideographic space.
pub open spec fn white_space(c: char) -> bool {
    let u = c as u32;
    ||| 0x09 <= u <= 0x0D
    ||| u == 0x20
    ||| u == 0x85
    ||| u == 0xA0
    ||| u == 0x1680
    ||| 0x2000 <= u <= 0x200A
    ||| u == 0x2028
    ||| u == 0x2029
    ||| u == 0x202F
    ||| u == 0x205F
    ||| u == 0x3000
}

/// Whether `c` is whitespace.
pub fn is_whitespace(c: char) -> (r: bool)
    ensures
        r == white_space(c),
{
    let u = c as u32;
    (0x09 <= u && u <= 0x0D) || u == 0x20 || u == 0x85 || u == 0xA0 || u == 0x1680 || (0x2000
        <= u && u <= 0x200A) || u == 0x2028 || u == 0x2029 || u == 0x202F || u == 0x205F || u
        == 0x3000
}

/// `s` without its leading whitespace.
pub open spec fn trim_start(s: Seq<char>) -> Seq<char>
    decreases s.len(),
{
    if s.len() > 0 && white_space(s[0]) {
        trim_start(s.drop_first())
    } else {
        s
    }
}

/// `s` without its trailing whitespace.
pub open spec fn trim_end(s: Seq<char>) -> Seq<char>
    decreases s.len(),
{
    if s.len() > 0 && white_space(s.last()) {
        trim_end(s.drop_last())
    } else {
        s
    }
}

/// `s` without its leading and trailing whitespace.
pub open spec fn trimmed(s: Seq<char>) -> Seq<char> {
    trim_end(trim_start(s))
}

/// The characters of `v` from `a` to `b`.
pub fn slice_of(v: &Vec<char>, a: usize, b: usize) -> (r: Vec<char>)
    requires
        a <= b <= v@.len(),
    ensures
        r@ == v@.subrange(a as int, b as int),
{
    let mut r: Vec<char> = Vec::new();
    let mut i: usize = a;
    while i < b
        invariant
            a <= i <= b <= v@.len(),
            r@ == v@.subrange(a as int, i as int),
        decreases b - i,
    {
        r.push(v[i]);
        i += 1;
    }
    r
}

/// `v` without its leading and trailing whitespace.
pub fn trim(v: &Vec<char>) -> (r: Vec<char>)
    ensures
        r@ == trimmed(v@),
{
    let mut a: usize = 0;
    assert(v@.subrange(0, v@.len() as int) =~= v@);
    while a < v.len() && is_whitespace(v[a])
        invariant
            a <= v@.len(),
            trim_start(v@) == trim_start(v@.subrange(a as int, v@.len() as int)),
        decreases v@.len() - a,
    {
        assert(v@.subrange(a as int + 1, v@.len() as int) =~= v@.subrange(
            a as int,
            v@.len() as int,
        ).drop_first());
        a += 1;
    }
    let ghost rest = v@.subrange(a as int, v@.len() as int);
    assert(trim_start(rest) == rest);
    let mut b: usize = v.len();
    while b > a && is_whitespace(v[b - 1])
        invariant
            a <= b <= v@.len(),
            trim_end(rest) == trim_end(v@.subrange(a as int, b as int)),
        decreases b,
    {
        assert(v@.subrange(a as int, b - 1) =~= v@.subrange(a as int, b as int).drop_last());
        b -= 1;
    }
    assert(trim_end(v@.subrange(a as int, b as int)) == v@.subrange(a as int, b as int));
    slice_of(v, a, b)
}

/// The pieces of `s` between occurrences of `sep`, read from the left:
/// one more piece than there are separators.
pub open spec fn split_on(s: Seq<char>, sep: char) -> Seq<Seq<char>>
    decreases s.len(),
{
    if s.len() == 0 {
        seq![Seq::empty()]
    } else {
        let rest = split_on(s.drop_last(), sep);
        if s.last() == sep {
            rest.push(Seq::empty())
        } else {
            rest.update(rest.len() - 1, rest.last().push(s.last()))
        }
    }
}

/// The views of a vector of character vectors.
pub open spec fn views(v: Seq<Vec<char>>) -> Seq<Seq<char>> {
    v.map_values(|p: Vec<char>| p@)
}

/// Splits `v` at every `sep`.
pub fn split(v: &Vec<char>, sep: char) -> (r: Vec<Vec<char>>)
    ensures
        views(r@) == split_on(v@, sep),
        r@.len() >= 1,
{
    let mut parts: Vec<Vec<char>> = Vec::new();
    let mut cur: Vec<char> = Vec::new();
    let mut i: usize = 0;
    while i < v.len()
        invariant
            i <= v@.len(),
            views(parts@).push(cur@) == split_on(v@.take(i as int), sep),
        decreases v@.len() - i,
    {
        let ghost before = v@.take(i as int);
        assert(v@.take(i as int + 1).drop_last() =~= before);
        let c = v[i];
        if c == sep {
            let done = cur;
            parts.push(done);
            cur = Vec::new();
            assert(views(parts@) =~= views(parts@.drop_last()).push(done@));
            assert(views(parts@).push(cur@) =~= split_on(before, sep).push(Seq::empty()));
        } else {
            let ghost old_parts = views(parts@);
            cur.push(c);
            assert(views(parts@).push(cur@) =~= split_on(before, sep).update(
                split_on(before, sep).len() - 1,
                split_on(before, sep).last().push(c),
            ));
        }
        i += 1;
    }
    assert(v@.take(v@.len() as int) =~= v@);
    parts.push(cur);
    assert(views(parts@) =~= views(parts@.drop_last()).push(cur@));
    parts
}

/// `f` is the index of the first `ch` in `s`.
pub open spec fn is_first(s: Seq<char>, ch: char, f: int) -> bool {
    &&& 0 <= f < s.len()
    &&& s[f] == ch
    &&& forall|k: int| 0 <= k < f ==> s[k] != ch
}

/// `j` is the index of the last `ch` of the first group of `ch`s in `s`,
/// where a group may hold whitespace between its `ch`s: from the first `ch`
/// up to `j` there is only `ch` and whitespace, and every later `ch` comes
/// after some other character.
pub open spec fn is_last_adjacent(s: Seq<char>, ch: char, j: int) -> bool {
    &&& 0 <= j < s.len()
    &&& s[j] == ch
    &&& exists|f: int|
        #![trigger is_first(s, ch, f)]
        is_first(s, ch, f) && f <= j && forall|k: int|
            f <= k <= j ==> #[trigger] s[k] == ch || white_space(s[k])
    &&& forall|k: int|
        j < k < s.len() && #[trigger] s[k] == ch ==> exists|m: int|
            j < m < k && #[trigger] s[m] != ch && !white_space(s[m])
}

/// The last `ch` of the first group of `ch`s in `v`.
pub fn last_adjacent(v: &Vec<char>, ch: char) -> (r: Option<usize>)
    ensures
        r is None <==> !v@.contains(ch),
        r matches Some(j) ==> is_last_adjacent(v@, ch, j as int),
{
    let n = v.len();
    let mut last: Option<usize> = None;
    let ghost mut first: int = 0;
    let mut done = false;
    let mut i: usize = 0;
    while i < n && !done
        invariant
            n == v@.len(),
            i <= n,
            last is None ==> !done && forall|k: int| 0 <= k < i ==> v@[k] != ch,
            last matches Some(j) ==> {
                &&& j < i
                &&& v@[j as int] == ch
                &&& is_first(v@, ch, first)
                &&& first <= j
                &&& forall|k: int| first <= k < i ==> #[trigger] v@[k] == ch || white_space(v@[k])
                &&& forall|k: int| j < k < i ==> #[trigger] v@[k] != ch
            },
            done ==> last is Some && i < n && v@[i as int] != ch && !white_space(v@[i as int]),
        decreases n - i + if done { 0int } else { 1int },
    {
        let c = v[i];
        if c == ch {
            proof {
                if last is None {
                    first = i as int;
                }
            }
            last = Some(i);
            i += 1;
        } else if !is_whitespace(c) && last.is_some() {
            done = true;
        } else {
            i += 1;
        }
    }
    match last {
        None => {
            assert(!v@.contains(ch));
        },
        Some(j) => {
            assert(v@.contains(ch));
            if done {
                assert forall|k: int|
                    j < k < v@.len() && #[trigger] v@[k] == ch implies exists|m: int|
                    j < m < k && #[trigger] v@[m] != ch && !white_space(v@[m]) by {
                    assert(v@[i as int] != ch);
                }
            }
            assert(is_first(v@, ch, first));
        },
    }
    last
}

proof fn lemma_encode_utf8_concat(a: Seq<char>, b: Seq<char>)
    ensures
        encode_utf8(a + b).len() == encode_utf8(a).len() + encode_utf8(b).len(),
    decreases a.len(),
{
    if a.len() > 0 {
        assert((a + b).drop_first() =~= a.drop_first() + b);
        assert((a + b)[0] == a[0]);
        lemma_encode_utf8_concat(a.drop_first(), b);
    } else {
        assert(a + b =~= b);
    }
}

/// The number of bytes that `c` takes in UTF-8.
pub fn utf8_width(c: char) -> (r: usize)
    ensures
        r == encode_scalar(c as u32).len(),
        1 <= r <= 4,
{
    proof {
        char_is_scalar(c);
    }
    let u = c as u32;
    if u <= 0x7F {
        1
    } else if u <= 0x7FF {
        2
    } else if u <= 0xFFFF {
        3
    } else {
        4
    }
}

/// The number of bytes that the first `j` characters of `v` take in
/// UTF-8, where all of `v` takes `total` bytes.
pub fn utf8_offset(v: &Vec<char>, j: usize, total: usize) -> (r: usize)
    requires
        j <= v@.len(),
        total == encode_utf8(v@).len(),
    ensures
        r == encode_utf8(v@.take(j as int)).len(),
{
    let mut acc: usize = 0;
    let mut i: usize = 0;
    assert(v@.take(0) =~= Seq::<char>::empty());
    while i < j
        invariant
            i <= j <= v@.len(),
            total == encode_utf8(v@).len(),
            acc == encode_utf8(v@.take(i as int)).len(),
        decreases j - i,
    {
        proof {
            let next = v@.take(i as int + 1);
            assert(next =~= v@.take(i as int) + seq![v@[i as int]]);
            lemma_encode_utf8_concat(v@.take(i as int), seq![v@[i as int]]);
            let one = seq![v@[i as int]];
            assert(one.drop_first() =~= Seq::<char>::empty());
            assert(encode_utf8(one.drop_first()).len() == 0);
            assert(encode_utf8(one).len() == encode_scalar(one[0] as u32).len() + encode_utf8(
                one.drop_first(),
            ).len());
            assert(v@ =~= next + v@.skip(i as int + 1));
            lemma_encode_utf8_concat(next, v@.skip(i as int + 1));
        }
        acc = acc + utf8_width(v[i]);
        i += 1;
    }
    acc
}

/// Searching text for groups of a character.
pub trait StrExt {
    /// Finds the last occurrence of a char within the first group, where a
    /// group is multiple of the same char, optionally separated by
    /// whitespace. The result is a byte offset into the UTF-8 text.
    fn find_last_adjacent(&self, ch: char) -> (r: Option<usize>)
        ensures
            r is None <==> !self.chars_view().contains(ch),
            r matches Some(b) ==> exists|j: int|
                #![trigger is_last_adjacent(self.chars_view(), ch, j)]
                is_last_adjacent(self.chars_view(), ch, j) && b == encode_utf8(
                    self.chars_view().take(j),
                ).len();

    spec fn chars_view(&self) -> Seq<char>;
}

impl StrExt for str {
    open spec fn chars_view(&self) -> Seq<char> {
        self@
    }

    fn find_last_adjacent(&self, ch: char) -> (r: Option<usize>) {
        let v = chars_of(self);
        let bytes = self.as_bytes();
        let total = bytes.len();
        assert(total == encode_utf8(self@).len());
        match last_adjacent(&v, ch) {
            None => None,
            Some(j) => {
                let b = utf8_offset(&v, j, total);
                assert(is_last_adjacent(self@, ch, j as int));
                Some(b)
            },
        }
    }
}

} // verus!
