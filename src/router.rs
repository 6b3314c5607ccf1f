//! The searchable result list and the action router: the single owner of
//! the query, the cursor and the loop flags, which turns each action into a
//! change of that state and an effect for the caller to carry out.

use vstd::prelude::*;

use crate::action::{Action, InputAction, TuiAction};
use crate::cursor::{LazyList, LazyPos, LazyView, sat_sub};
use crate::searcher::{QueryUpdate, Searcher, pattern_parse, query_update, visible_range};
use nucleo::pattern::Pattern;
use crate::state::{State, StateView};

verus! {

/// What a render shows: the visible lines, the selected row within them,
/// and the counts behind them.
pub struct Frame {
    /// The matched lines in the window, in rank order.
    pub items: Vec<String>,
    /// The row of the selection within `items`.
    pub selected: Option<usize>,
    /// The rank of the first line in `items`.
    pub offset: usize,
    /// The number of matched lines.
    pub len: usize,
    /// Whether matching is still in progress.
    pub running: bool,
}

/// The window row of the selection of a cursor, if any.
pub open spec fn selected_row(v: LazyView) -> Option<int> {
    match v.position() {
        Some(p) => Some(sat_sub(p, v.offset as int)),
        None => None,
    }
}

/// A list of fuzzy-matched lines with a cursor over it.
pub struct SearchableList {
    searcher: Searcher,
    list: LazyList,
}

impl SearchableList {
    pub closed spec fn cursor(&self) -> LazyView {
        self.list@
    }

    pub closed spec fn query(&self) -> Option<Seq<char>> {
        self.searcher.last_pattern()
    }

    pub closed spec fn matches(&self) -> Seq<Seq<char>> {
        self.searcher.matches()
    }

    pub closed spec fn wf(&self) -> bool {
        self.searcher.wf() && self.list@.wf()
    }

    /// Whether the next refresh matches every line again.
    pub closed spec fn rescan_pending(&self) -> bool {
        self.searcher.rescan_pending()
    }

    /// The pattern that lines are matched against.
    pub closed spec fn engine_pattern(&self) -> Pattern {
        self.searcher.engine_pattern()
    }

    /// Whether an extension of the query can keep earlier non-matches.
    pub closed spec fn can_extend(&self) -> bool {
        self.searcher.can_extend()
    }

    /// An empty list under the empty query; `notify` is called whenever
    /// matching makes progress.
    pub fn new<F: Fn() + Sync + Send + 'static>(notify: F) -> (r: Self)
        ensures
            r.wf(),
            r.cursor() == (LazyView { len: 0, pos: LazyPos::Unset, offset: 0 }),
            r.query() == Some(Seq::<char>::empty()),
            r.matches().len() == 0,
            r.rescan_pending(),
    {
        SearchableList { searcher: Searcher::new(notify), list: LazyList::new() }
    }

    pub fn next(&mut self)
        requires
            old(self).wf(),
        ensures
            final(self).wf(),
            final(self).cursor() == old(self).cursor().after_next(),
            final(self).query() == old(self).query(),
            final(self).matches() == old(self).matches(),
            final(self).rescan_pending() == old(self).rescan_pending(),
    {
        self.list.next();
    }

    pub fn previous(&mut self)
        requires
            old(self).wf(),
        ensures
            final(self).wf(),
            final(self).cursor() == old(self).cursor().after_previous(),
            final(self).query() == old(self).query(),
            final(self).matches() == old(self).matches(),
            final(self).rescan_pending() == old(self).rescan_pending(),
    {
        self.list.previous();
    }

    pub fn first(&mut self)
        requires
            old(self).wf(),
        ensures
            final(self).wf(),
            final(self).cursor() == (LazyView {
                pos: LazyPos::FromStart(0),
                ..old(self).cursor()
            }),
            final(self).query() == old(self).query(),
            final(self).matches() == old(self).matches(),
            final(self).rescan_pending() == old(self).rescan_pending(),
    {
        self.list.first();
    }

    pub fn last(&mut self)
        requires
            old(self).wf(),
        ensures
            final(self).wf(),
            final(self).cursor() == (LazyView { pos: LazyPos::FromEnd(0), ..old(self).cursor() }),
            final(self).query() == old(self).query(),
            final(self).matches() == old(self).matches(),
            final(self).rescan_pending() == old(self).rescan_pending(),
    {
        self.list.last();
    }

    /// Submits `s` as the query, tagged against the previous one.
    pub fn search(&mut self, s: &str) -> (r: QueryUpdate)
        requires
            old(self).wf(),
        ensures
            final(self).wf(),
            r == query_update(old(self).query(), s@),
            final(self).query() == Some(s@),
            final(self).cursor() == old(self).cursor(),
            final(self).matches() == old(self).matches(),
            r == QueryUpdate::Unchanged ==> *final(self) == *old(self),
            final(self).engine_pattern() == pattern_parse(s@),
            r == QueryUpdate::Replacement ==> final(self).rescan_pending(),
            r == QueryUpdate::Extension ==> (final(self).rescan_pending() <==> !old(
                self,
            ).can_extend()),
            old(self).rescan_pending() ==> final(self).rescan_pending(),
    {
        self.searcher.search(s)
    }

    /// Lines are added to the searched set through this handle.
    pub fn injector(&self) -> nucleo::Injector<String> {
        self.searcher.injector()
    }

    /// Advances matching one step, fits the cursor to the new result count
    /// and a viewport of `height` rows, and reads the visible lines.
    pub fn refresh(&mut self, height: u16) -> (r: Frame)
        requires
            old(self).wf(),
        ensures
            final(self).wf(),
            final(self).query() == old(self).query(),
            final(self).engine_pattern() == old(self).engine_pattern(),
            !final(self).rescan_pending(),
            final(self).cursor() == old(self).cursor().updated(
                final(self).matches().len() as usize,
                height as int,
            ),
            r.len == final(self).matches().len(),
            r.offset == final(self).cursor().offset,
            ({
                let (start, end) = visible_range(
                    r.offset as int,
                    height as int,
                    r.len as int,
                );
                &&& start == r.offset as int
                &&& r.items@.len() == end - start
                &&& forall|j: int|
                    0 <= j < r.items@.len() ==> #[trigger] r.items@[j]@ == final(self).matches()[start + j]
            }),
            r.selected matches Some(row) ==> selected_row(final(self).cursor()) == Some(
                row as int,
            ),
            r.selected is None <==> selected_row(final(self).cursor()) is None,
    {
        let running = self.searcher.tick();
        let len = self.searcher.result_count();
        self.list.update(len, height);
        let offset = self.list.offset();
        let items = self.searcher.results(offset, height);
        let selected = self.list.real_position();
        Frame { items, selected, offset, len, running }
    }
}

/// What the caller does after an action.
#[derive(Clone, Copy, Debug, PartialEq, Eq, Structural)]
pub enum Effect {
    /// Nothing beyond what the next pass of the loop does.
    Nothing,
    /// Render now, whatever the debouncer's rate.
    Redraw,
    /// Hand the edit to the query box, then pass its text to
    /// `Router::query_edited` if it changed.
    Edit(InputAction),
}

/// The effect of an action.
pub open spec fn effect_of(action: Action) -> Effect {
    match action {
        Action::Exit => Effect::Nothing,
        Action::Draw => Effect::Redraw,
        Action::Tui(TuiAction::Input(a)) => Effect::Edit(a),
        Action::Tui(_) => Effect::Redraw,
    }
}

/// The cursor after an action.
pub open spec fn cursor_after(v: LazyView, action: Action) -> LazyView {
    match action {
        Action::Tui(TuiAction::Next) => v.after_next(),
        Action::Tui(TuiAction::Previous) => v.after_previous(),
        Action::Tui(TuiAction::First) => LazyView { pos: LazyPos::FromStart(0), ..v },
        Action::Tui(TuiAction::Last) => LazyView { pos: LazyPos::FromEnd(0), ..v },
        _ => v,
    }
}

/// The loop flags after an action.
pub open spec fn state_after(s: StateView, action: Action) -> StateView {
    match action {
        Action::Exit => StateView { running: false, ..s },
        _ => s,
    }
}

/// Whether an edit of the query box can have changed the query: a key or a
/// deletion did so when the box reports a change, a move to the head or end
/// of the line never does, and other moves may select another line.
pub open spec fn edit_changes_query_spec(action: InputAction, changed: bool) -> bool {
    match action {
        InputAction::Key(_) => changed,
        InputAction::Delete => changed,
        InputAction::DeleteNext => changed,
        InputAction::DeleteWord => changed,
        InputAction::DeleteNextWord => changed,
        InputAction::DeleteToHead => changed,
        InputAction::DeleteToEnd => changed,
        InputAction::MoveToHead => false,
        InputAction::MoveToEnd => false,
        _ => true,
    }
}

/// Decides whether the query box's text is submitted after an edit, given
/// whether the box reported a change of its text.
pub fn edit_changes_query(action: InputAction, changed: bool) -> (r: bool)
    ensures
        r == edit_changes_query_spec(action, changed),
{
    match action {
        InputAction::Key(_) => changed,
        InputAction::Delete => changed,
        InputAction::DeleteNext => changed,
        InputAction::DeleteWord => changed,
        InputAction::DeleteNextWord => changed,
        InputAction::DeleteToHead => changed,
        InputAction::DeleteToEnd => changed,
        InputAction::MoveToHead => false,
        InputAction::MoveToEnd => false,
        _ => true,
    }
}

/// The owner of all mutable state of the event loop.
pub struct Router {
    state: State,
    list: SearchableList,
}

impl Router {
    pub closed spec fn state(&self) -> StateView {
        self.state@
    }

    pub closed spec fn cursor(&self) -> LazyView {
        self.list.cursor()
    }

    pub closed spec fn query(&self) -> Option<Seq<char>> {
        self.list.query()
    }

    pub closed spec fn matches(&self) -> Seq<Seq<char>> {
        self.list.matches()
    }

    pub closed spec fn wf(&self) -> bool {
        self.list.wf()
    }

    /// Whether the next frame matches every line again.
    pub closed spec fn rescan_pending(&self) -> bool {
        self.list.rescan_pending()
    }

    /// The pattern that lines are matched against.
    pub closed spec fn engine_pattern(&self) -> Pattern {
        self.list.engine_pattern()
    }

    /// Whether an extension of the query can keep earlier non-matches.
    pub closed spec fn can_extend(&self) -> bool {
        self.list.can_extend()
    }

    /// A running loop over `list` for a terminal of `terminal_size`.
    pub fn new(terminal_size: (u16, u16), list: SearchableList) -> (r: Self)
        requires
            list.wf(),
        ensures
            r.wf(),
            r.state() == (StateView { terminal_size, running: true, skip_frame: false }),
            r.cursor() == list.cursor(),
            r.query() == list.query(),
            r.matches() == list.matches(),
            r.rescan_pending() == list.rescan_pending(),
    {
        Router { state: State::new(terminal_size), list }
    }

    /// Applies an action: exit stops the loop, navigation moves the cursor,
    /// and the returned effect says what the caller does next.
    pub fn handle_action(&mut self, action: Action) -> (r: Effect)
        requires
            old(self).wf(),
        ensures
            final(self).wf(),
            r == effect_of(action),
            final(self).state() == state_after(old(self).state(), action),
            final(self).cursor() == cursor_after(old(self).cursor(), action),
            final(self).query() == old(self).query(),
            final(self).matches() == old(self).matches(),
            final(self).rescan_pending() == old(self).rescan_pending(),
    {
        match action {
            Action::Exit => {
                self.state.exit();
                Effect::Nothing
            },
            Action::Draw => Effect::Redraw,
            Action::Tui(TuiAction::Next) => {
                self.list.next();
                Effect::Redraw
            },
            Action::Tui(TuiAction::Previous) => {
                self.list.previous();
                Effect::Redraw
            },
            Action::Tui(TuiAction::First) => {
                self.list.first();
                Effect::Redraw
            },
            Action::Tui(TuiAction::Last) => {
                self.list.last();
                Effect::Redraw
            },
            Action::Tui(TuiAction::Input(a)) => Effect::Edit(a),
        }
    }

    /// Takes the new text of the query box: submits it as the query and
    /// asks for a redraw.
    pub fn query_edited(&mut self, text: &str) -> (r: (QueryUpdate, Effect))
        requires
            old(self).wf(),
        ensures
            final(self).wf(),
            r.0 == query_update(old(self).query(), text@),
            r.1 == Effect::Redraw,
            final(self).query() == Some(text@),
            final(self).engine_pattern() == pattern_parse(text@),
            r.0 == QueryUpdate::Replacement ==> final(self).rescan_pending(),
            r.0 == QueryUpdate::Extension ==> (final(self).rescan_pending() <==> !old(
                self,
            ).can_extend()),
            old(self).rescan_pending() ==> final(self).rescan_pending(),
            final(self).state() == old(self).state(),
            final(self).cursor() == old(self).cursor(),
            final(self).matches() == old(self).matches(),
    {
        let update = self.list.search(text);
        (update, Effect::Redraw)
    }

    /// Whether the loop goes on.
    pub fn running(&self) -> (r: bool)
        ensures
            r == self.state().running,
    {
        self.state.running()
    }

    /// The terminal's size when the loop started.
    pub fn terminal_size(&self) -> (r: (u16, u16))
        ensures
            r == self.state().terminal_size,
    {
        self.state.terminal_size()
    }

    /// Whether this pass of the loop draws: not right after a forced draw.
    pub fn should_draw(&mut self) -> (r: bool)
        requires
            old(self).wf(),
        ensures
            final(self).wf(),
            r == !old(self).state().skip_frame,
            final(self).state() == (StateView { skip_frame: false, ..old(self).state() }),
            final(self).cursor() == old(self).cursor(),
            final(self).query() == old(self).query(),
            final(self).matches() == old(self).matches(),
            final(self).rescan_pending() == old(self).rescan_pending(),
    {
        self.state.should_draw()
    }

    /// Records a forced draw, so that the next pass does not draw again.
    pub fn forced_draw_done(&mut self)
        requires
            old(self).wf(),
        ensures
            final(self).wf(),
            final(self).state() == (StateView { skip_frame: true, ..old(self).state() }),
            final(self).cursor() == old(self).cursor(),
            final(self).query() == old(self).query(),
            final(self).matches() == old(self).matches(),
            final(self).rescan_pending() == old(self).rescan_pending(),
    {
        self.state.skip_frame();
    }

    /// The data of a render with `height` rows for the list.
    pub fn frame(&mut self, height: u16) -> (r: Frame)
        requires
            old(self).wf(),
        ensures
            final(self).wf(),
            final(self).state() == old(self).state(),
            final(self).query() == old(self).query(),
            final(self).engine_pattern() == old(self).engine_pattern(),
            !final(self).rescan_pending(),
            final(self).cursor() == old(self).cursor().updated(
                final(self).matches().len() as usize,
                height as int,
            ),
            r.len == final(self).matches().len(),
            r.offset == final(self).cursor().offset,
            ({
                let (start, end) = visible_range(
                    r.offset as int,
                    height as int,
                    r.len as int,
                );
                &&& start == r.offset as int
                &&& r.items@.len() == end - start
                &&& forall|j: int|
                    0 <= j < r.items@.len() ==> #[trigger] r.items@[j]@ == final(self).matches()[start + j]
            }),
            r.selected matches Some(row) ==> selected_row(final(self).cursor()) == Some(
                row as int,
            ),
            r.selected is None <==> selected_row(final(self).cursor()) is None,
    {
        self.list.refresh(height)
    }

    /// A handle through which lines are added to the searched set.
    pub fn injector(&self) -> nucleo::Injector<String> {
        self.list.injector()
    }
}

} // verus!
