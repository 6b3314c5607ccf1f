//! A list cursor whose selection is anchored to the edge that the user last
//! approached, so that it stays put while more items stream in, and a window
//! offset that keeps the selection on screen.

use vstd::prelude::*;

verus! {

/// The selected position: none, an offset from the first item, or an offset
/// from the last item.
#[derive(Clone, Copy, Debug, PartialEq, Eq, Structural)]
pub enum LazyPos {
    Unset,
    FromStart(usize),
    FromEnd(usize),
}

/// `n - m`, or zero where `m` exceeds `n`.
pub open spec fn sat_sub(n: int, m: int) -> int {
    if m <= n {
        n - m
    } else {
        0
    }
}

/// The mathematical state of a cursor: the current result count, the
/// selected position and the index of the first visible item.
pub struct LazyView {
    pub len: usize,
    pub pos: LazyPos,
    pub offset: usize,
}

impl LazyView {
    /// A selected offset lies below the length; with no items, only the
    /// zero offset that `first` and `last` set is possible.
    pub open spec fn wf(self) -> bool {
        match self.pos {
            LazyPos::Unset => true,
            LazyPos::FromStart(k) => if self.len == 0 {
                k == 0
            } else {
                k < self.len
            },
            LazyPos::FromEnd(k) => if self.len == 0 {
                k == 0
            } else {
                k < self.len
            },
        }
    }

    /// The absolute index of the selection.
    pub open spec fn position(self) -> Option<int> {
        match self.pos {
            LazyPos::Unset => None,
            LazyPos::FromStart(k) => Some(k as int),
            LazyPos::FromEnd(k) => Some(sat_sub(self.len as int, k + 1)),
        }
    }

    /// The position after moving one item down, wrapping to the first item.
    pub open spec fn pos_after_next(self) -> LazyPos {
        if self.len == 0 {
            LazyPos::Unset
        } else {
            match self.pos {
                LazyPos::FromStart(k) => if k + 1 < self.len {
                    LazyPos::FromStart((k + 1) as usize)
                } else {
                    LazyPos::FromStart(0)
                },
                LazyPos::FromEnd(k) => if k > 0 {
                    LazyPos::FromEnd((k - 1) as usize)
                } else {
                    LazyPos::FromStart(0)
                },
                LazyPos::Unset => LazyPos::FromStart(0),
            }
        }
    }

    /// The position after moving one item up, wrapping to the last item.
    pub open spec fn pos_after_previous(self) -> LazyPos {
        if self.len == 0 {
            LazyPos::Unset
        } else {
            match self.pos {
                LazyPos::FromEnd(k) => if k + 1 < self.len {
                    LazyPos::FromEnd((k + 1) as usize)
                } else {
                    LazyPos::FromEnd(0)
                },
                LazyPos::FromStart(k) => if k > 0 {
                    LazyPos::FromStart((k - 1) as usize)
                } else {
                    LazyPos::FromEnd(0)
                },
                LazyPos::Unset => LazyPos::FromEnd(0),
            }
        }
    }

    pub open spec fn after_next(self) -> LazyView {
        LazyView { pos: self.pos_after_next(), ..self }
    }

    pub open spec fn after_previous(self) -> LazyView {
        LazyView { pos: self.pos_after_previous(), ..self }
    }

    /// The position once the length becomes `len`: an offset past the new
    /// end is pulled back to the last item, keeping its edge, and an empty
    /// list has no selection.
    pub open spec fn pos_for_len(self, len: usize) -> LazyPos {
        if len == 0 {
            LazyPos::Unset
        } else {
            match self.pos {
                LazyPos::FromStart(k) => if k >= len {
                    LazyPos::FromStart((len - 1) as usize)
                } else {
                    self.pos
                },
                LazyPos::FromEnd(k) => if k >= len {
                    LazyPos::FromEnd((len - 1) as usize)
                } else {
                    self.pos
                },
                LazyPos::Unset => LazyPos::Unset,
            }
        }
    }

    pub open spec fn with_len(self, len: usize) -> LazyView {
        LazyView { len, pos: self.pos_for_len(len), offset: self.offset }
    }

    /// The offset for a viewport of `height` rows: the old offset moved just
    /// enough to show the selection, then pulled back so that no rows stay
    /// empty past the last item. With no selection it is zero.
    pub open spec fn window_offset(self, height: int) -> int {
        match self.position() {
            None => 0,
            Some(p) => {
                let lo = sat_sub(p, sat_sub(height, 1));
                let kept = if self.offset < lo {
                    lo
                } else if self.offset > p {
                    p
                } else {
                    self.offset as int
                };
                let hi = sat_sub(self.len as int, height);
                if kept < hi {
                    kept
                } else {
                    hi
                }
            },
        }
    }

    pub open spec fn with_height(self, height: int) -> LazyView {
        LazyView { offset: self.window_offset(height) as usize, ..self }
    }

    /// The state after a render with `len` results and `height` rows.
    pub open spec fn updated(self, len: usize, height: int) -> LazyView {
        self.with_len(len).with_height(height)
    }
}

/// An edge-anchored cursor with its window offset.
pub struct LazyState {
    len: usize,
    pos: LazyPos,
    offset: usize,
}

impl View for LazyState {
    type V = LazyView;

    closed spec fn view(&self) -> LazyView {
        LazyView { len: self.len, pos: self.pos, offset: self.offset }
    }
}

impl LazyState {
    /// An empty list with nothing selected.
    pub fn new() -> (r: Self)
        ensures
            r@ == (LazyView { len: 0, pos: LazyPos::Unset, offset: 0 }),
            r@.wf(),
    {
        LazyState { len: 0, pos: LazyPos::Unset, offset: 0 }
    }

    /// Takes the new result count and viewport height of a render.
    pub fn update(&mut self, len: usize, height: u16)
        requires
            old(self)@.wf(),
        ensures
            final(self)@ == old(self)@.updated(len, height as int),
            final(self)@.wf(),
    {
        self.update_len(len);
        self.update_height(height);
    }

    /// Takes a new result count: an offset past the new end is pulled back
    /// to the last item, and an empty list has no selection.
    pub fn update_len(&mut self, len: usize)
        requires
            old(self)@.wf(),
        ensures
            final(self)@ == old(self)@.with_len(len),
            final(self)@.wf(),
    {
        self.len = len;
        if len == 0 {
            self.pos = LazyPos::Unset;
        } else {
            match self.pos {
                LazyPos::FromStart(k) => {
                    if k >= len {
                        self.pos = LazyPos::FromStart(len - 1);
                    }
                },
                LazyPos::FromEnd(k) => {
                    if k >= len {
                        self.pos = LazyPos::FromEnd(len - 1);
                    }
                },
                LazyPos::Unset => {},
            }
        }
    }

    /// Moves the window offset so that the selection shows in a viewport
    /// of `height` rows.
    pub fn update_height(&mut self, height: u16)
        requires
            old(self)@.wf(),
        ensures
            final(self)@ == old(self)@.with_height(height as int),
            final(self)@.wf(),
    {
        match self.position() {
            Some(pos) => {
                let h = height as usize;
                let below = if h >= 1 {
                    h - 1
                } else {
                    0
                };
                let lo = if pos >= below {
                    pos - below
                } else {
                    0
                };
                let kept = if self.offset < lo {
                    lo
                } else if self.offset > pos {
                    pos
                } else {
                    self.offset
                };
                let hi = if self.len >= h {
                    self.len - h
                } else {
                    0
                };
                self.offset = if kept < hi {
                    kept
                } else {
                    hi
                };
            },
            None => {
                self.offset = 0;
            },
        }
    }

    /// Moves the selection one item down, wrapping past the last item.
    pub fn next(&mut self)
        requires
            old(self)@.wf(),
        ensures
            final(self)@ == old(self)@.after_next(),
            final(self)@.wf(),
    {
        self.pos = if self.len == 0 {
            LazyPos::Unset
        } else {
            match self.pos {
                LazyPos::FromStart(k) => if k < self.len - 1 {
                    LazyPos::FromStart(k + 1)
                } else {
                    LazyPos::FromStart(0)
                },
                LazyPos::FromEnd(k) => if k > 0 {
                    LazyPos::FromEnd(k - 1)
                } else {
                    LazyPos::FromStart(0)
                },
                LazyPos::Unset => LazyPos::FromStart(0),
            }
        };
    }

    /// Moves the selection one item up, wrapping past the first item.
    pub fn previous(&mut self)
        requires
            old(self)@.wf(),
        ensures
            final(self)@ == old(self)@.after_previous(),
            final(self)@.wf(),
    {
        self.pos = if self.len == 0 {
            LazyPos::Unset
        } else {
            match self.pos {
                LazyPos::FromEnd(k) => if k < self.len - 1 {
                    LazyPos::FromEnd(k + 1)
                } else {
                    LazyPos::FromEnd(0)
                },
                LazyPos::FromStart(k) => if k > 0 {
                    LazyPos::FromStart(k - 1)
                } else {
                    LazyPos::FromEnd(0)
                },
                LazyPos::Unset => LazyPos::FromEnd(0),
            }
        };
    }

    /// Selects the first item.
    pub fn first(&mut self)
        requires
            old(self)@.wf(),
        ensures
            final(self)@ == (LazyView { pos: LazyPos::FromStart(0), ..old(self)@ }),
            final(self)@.wf(),
    {
        self.pos = LazyPos::FromStart(0);
    }

    /// Selects the last item.
    pub fn last(&mut self)
        requires
            old(self)@.wf(),
        ensures
            final(self)@ == (LazyView { pos: LazyPos::FromEnd(0), ..old(self)@ }),
            final(self)@.wf(),
    {
        self.pos = LazyPos::FromEnd(0);
    }

    /// The index of the first visible item.
    pub fn offset(&self) -> (r: usize)
        ensures
            r == self@.offset,
    {
        self.offset
    }

    /// The absolute index of the selection.
    pub fn position(&self) -> (r: Option<usize>)
        ensures
            r matches Some(p) ==> self@.position() == Some(p as int),
            r is None <==> self@.position() is None,
    {
        match self.pos {
            LazyPos::Unset => None,
            LazyPos::FromStart(k) => Some(k),
            LazyPos::FromEnd(k) => if k < self.len {
                Some(self.len - 1 - k)
            } else {
                Some(0)
            },
        }
    }

    /// The index of the selection within the visible window.
    pub fn real_position(&self) -> (r: Option<usize>)
        ensures
            r matches Some(p) ==> self@.position() matches Some(q) && p == sat_sub(
                q,
                self@.offset as int,
            ),
            r is None <==> self@.position() is None,
    {
        match self.position() {
            Some(p) => if p >= self.offset {
                Some(p - self.offset)
            } else {
                Some(0)
            },
            None => None,
        }
    }
}

impl Default for LazyState {
    fn default() -> (r: Self)
        ensures
            r@ == (LazyView { len: 0, pos: LazyPos::Unset, offset: 0 }),
    {
        LazyState::new()
    }
}

/// A virtualized list: the cursor of a list whose items are fetched for
/// the visible window only, at each render.
pub struct LazyList {
    state: LazyState,
}

impl View for LazyList {
    type V = LazyView;

    closed spec fn view(&self) -> LazyView {
        self.state@
    }
}

impl LazyList {
    pub fn new() -> (r: Self)
        ensures
            r@ == (LazyView { len: 0, pos: LazyPos::Unset, offset: 0 }),
            r@.wf(),
    {
        LazyList { state: LazyState::new() }
    }

    pub fn next(&mut self)
        requires
            old(self)@.wf(),
        ensures
            final(self)@ == old(self)@.after_next(),
            final(self)@.wf(),
    {
        self.state.next();
    }

    pub fn previous(&mut self)
        requires
            old(self)@.wf(),
        ensures
            final(self)@ == old(self)@.after_previous(),
            final(self)@.wf(),
    {
        self.state.previous();
    }

    pub fn first(&mut self)
        requires
            old(self)@.wf(),
        ensures
            final(self)@ == (LazyView { pos: LazyPos::FromStart(0), ..old(self)@ }),
            final(self)@.wf(),
    {
        self.state.first();
    }

    pub fn last(&mut self)
        requires
            old(self)@.wf(),
        ensures
            final(self)@ == (LazyView { pos: LazyPos::FromEnd(0), ..old(self)@ }),
            final(self)@.wf(),
    {
        self.state.last();
    }

    /// Takes the result count and viewport height of a render.
    pub fn update(&mut self, len: usize, height: u16)
        requires
            old(self)@.wf(),
        ensures
            final(self)@ == old(self)@.updated(len, height as int),
            final(self)@.wf(),
    {
        self.state.update(len, height);
    }

    pub fn offset(&self) -> (r: usize)
        ensures
            r == self@.offset,
    {
        self.state.offset()
    }

    /// The absolute index of the selection.
    pub fn position(&self) -> (r: Option<usize>)
        ensures
            r matches Some(p) ==> self@.position() == Some(p as int),
            r is None <==> self@.position() is None,
    {
        self.state.position()
    }

    /// The index of the selection within the visible window.
    pub fn real_position(&self) -> (r: Option<usize>)
        ensures
            r matches Some(p) ==> self@.position() matches Some(q) && p == sat_sub(
                q,
                self@.offset as int,
            ),
            r is None <==> self@.position() is None,
    {
        self.state.real_position()
    }
}

/// One move of the cursor: down for `true`, up for `false`.
pub open spec fn step(v: LazyView, down: bool) -> LazyView {
    if down {
        v.after_next()
    } else {
        v.after_previous()
    }
}

/// The state after a sequence of moves, the last move applied last.
pub open spec fn walk(v: LazyView, moves: Seq<bool>) -> LazyView
    decreases moves.len(),
{
    if moves.len() == 0 {
        v
    } else {
        step(walk(v, moves.drop_last()), moves.last())
    }
}

/// The index that a move leads to in a cyclic list of `n` items; with no
/// selection, moving down starts at the first item and moving up at the last.
pub open spec fn cyclic_successor(p: Option<int>, down: bool, n: int) -> int {
    match p {
        None => if down {
            0
        } else {
            n - 1
        },
        Some(i) => if down {
            if i + 1 < n {
                i + 1
            } else {
                0
            }
        } else {
            if i > 0 {
                i - 1
            } else {
                n - 1
            }
        },
    }
}

proof fn lemma_step(v: LazyView, down: bool)
    requires
        v.wf(),
        v.len > 0,
    ensures
        step(v, down).wf(),
        step(v, down).len == v.len,
        step(v, down).position() == Some(cyclic_successor(v.position(), down, v.len as int)),
{
}

proof fn lemma_walk_keeps_len(v: LazyView, moves: Seq<bool>)
    requires
        v.wf(),
        v.len > 0,
    ensures
        walk(v, moves).wf(),
        walk(v, moves).len == v.len,
    decreases moves.len(),
{
    if moves.len() > 0 {
        lemma_walk_keeps_len(v, moves.drop_last());
        lemma_step(walk(v, moves.drop_last()), moves.last());
    }
}

/// With a fixed non-zero length, every `next` or `previous` selects the
/// cyclic successor or predecessor of the selected index, which stays among
/// the items, and no move keeps the same index unless there is one item.
pub proof fn lemma_cyclic_walk(v: LazyView, moves: Seq<bool>)
    requires
        v.wf(),
        v.len > 0,
    ensures
        forall|i: int|
            0 <= i < moves.len() ==> {
                let before = #[trigger] walk(v, moves.take(i));
                let after = walk(v, moves.take(i + 1));
                &&& after.len == v.len
                &&& after.position() == Some(
                    cyclic_successor(before.position(), moves[i], v.len as int),
                )
                &&& 0 <= after.position()->0 < v.len
                &&& (v.len > 1 ==> after.position() != before.position())
            },
{
    assert forall|i: int| 0 <= i < moves.len() implies {
        let before = #[trigger] walk(v, moves.take(i));
        let after = walk(v, moves.take(i + 1));
        &&& after.len == v.len
        &&& after.position() == Some(
            cyclic_successor(before.position(), moves[i], v.len as int),
        )
        &&& 0 <= after.position()->0 < v.len
        &&& (v.len > 1 ==> after.position() != before.position())
    } by {
        assert(moves.take(i + 1).drop_last() =~= moves.take(i));
        assert(moves.take(i + 1).last() == moves[i]);
        lemma_walk_keeps_len(v, moves.take(i));
        lemma_step(walk(v, moves.take(i)), moves[i]);
    }
}

/// The state after `k` calls of `next`.
pub open spec fn nexts(v: LazyView, k: nat) -> LazyView
    decreases k,
{
    if k == 0 {
        v
    } else {
        nexts(v, (k - 1) as nat).after_next()
    }
}

/// `p + k` taken around a cycle of `n`, for `p < n` and `k <= n`.
pub open spec fn around(p: int, k: int, n: int) -> int {
    if p + k < n {
        p + k
    } else {
        p + k - n
    }
}

proof fn lemma_nexts(v: LazyView, k: nat)
    requires
        v.wf(),
        v.len > 0,
        v.position() is Some,
        k <= v.len,
    ensures
        nexts(v, k).wf(),
        nexts(v, k).len == v.len,
        nexts(v, k).position() == Some(around(v.position()->0, k as int, v.len as int)),
    decreases k,
{
    if k > 0 {
        lemma_nexts(v, (k - 1) as nat);
        lemma_step(nexts(v, (k - 1) as nat), true);
    }
}

/// Some call among the first `len` calls of `next` selects `i`.
pub open spec fn visited(v: LazyView, i: int) -> bool {
    exists|k: nat| 1 <= k <= v.len && #[trigger] nexts(v, k).position() == Some(i)
}

/// With a fixed non-zero length and a selection at `p`, `k` calls of
/// `next` select `(p + k) mod len` for every `k` up to `len`: the first
/// `len` calls select every index once, and the last returns to `p`.
pub proof fn lemma_next_visits_all(v: LazyView)
    requires
        v.wf(),
        v.len > 0,
        v.position() is Some,
    ensures
        forall|k: nat|
            k <= v.len ==> #[trigger] nexts(v, k).position() == Some(
                around(v.position()->0, k as int, v.len as int),
            ),
        forall|k: nat, l: nat|
            1 <= k < l <= v.len ==> #[trigger] nexts(v, k).position() != #[trigger] nexts(
                v,
                l,
            ).position(),
        forall|i: int| 0 <= i < v.len ==> #[trigger] visited(v, i),
        nexts(v, v.len as nat).position() == v.position(),
{
    let p = v.position()->0;
    let n = v.len as int;
    assert forall|k: nat| k <= v.len implies #[trigger] nexts(v, k).position() == Some(
        around(p, k as int, n),
    ) by {
        lemma_nexts(v, k);
    }
    assert forall|i: int| 0 <= i < v.len implies #[trigger] visited(v, i) by {
        let k: nat = if i > p {
            (i - p) as nat
        } else {
            (i - p + n) as nat
        };
        lemma_nexts(v, k);
    }
    lemma_nexts(v, v.len as nat);
}

/// When the length shrinks, a tracked offset at or past the new length is
/// pulled back to the new length minus one, keeping its edge; an offset
/// below it is kept; with no items left the selection is cleared.
pub proof fn lemma_shrink_clamps_offset(v: LazyView, len: usize)
    requires
        v.wf(),
        len < v.len,
    ensures
        len == 0 ==> v.with_len(len).pos == LazyPos::Unset,
        len > 0 ==> match v.pos {
            LazyPos::FromStart(k) => v.with_len(len).pos == LazyPos::FromStart(
                if k >= len {
                    (len - 1) as usize
                } else {
                    k
                },
            ),
            LazyPos::FromEnd(k) => v.with_len(len).pos == LazyPos::FromEnd(
                if k >= len {
                    (len - 1) as usize
                } else {
                    k
                },
            ),
            LazyPos::Unset => v.with_len(len).pos == LazyPos::Unset,
        },
        v.with_len(len).wf(),
{
}

/// When the length shrinks under a selection counted from the start, or
/// under the last item, an absolute index at or past the new length becomes
/// the new length minus one.
pub proof fn lemma_shrink_clamps_index(v: LazyView, len: usize)
    requires
        v.wf(),
        len < v.len,
        !(v.pos matches LazyPos::FromEnd(k) && k > 0),
    ensures
        len == 0 ==> v.with_len(len).position() is None,
        len > 0 && v.position() is Some && v.position()->0 >= len ==> v.with_len(len).position()
            == Some(len - 1),
        len > 0 && v.position() is Some && v.position()->0 < len ==> v.with_len(len).position()
            == v.position(),
{
}

/// After a render with `height >= 1` rows and at least `height` results, a
/// selected item lies in the visible window, and the window does not reach
/// past the last item.
pub proof fn lemma_window_shows_selection(v: LazyView, len: usize, height: int)
    requires
        v.wf(),
        1 <= height <= len,
        v.updated(len, height).position() is Some,
    ensures
        ({
            let w = v.updated(len, height);
            let p = w.position()->0;
            &&& w.offset <= p <= w.offset + height - 1
            &&& w.offset <= len - height
        }),
{
}

} // verus!
