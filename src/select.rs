//! Cursor and choice state of the single-select and multi-select widgets.
use vstd::prelude::*;

use crate::frame::{Row, RowKind};
use crate::keys::{select_event_of, Key, SelectEvent};

verus! {

/// Why a prompt could not start.
#[derive(Debug, Clone, Copy, PartialEq, Eq, Structural)]
pub enum PromptError {
    /// The option list is empty, so there is no row for the cursor.
    NoOptions,
}

/// Cursor after moving up: one row up, stopping at the first row.
pub open spec fn move_up(c: int) -> int {
    if c > 0 {
        c - 1
    } else {
        0
    }
}

/// Cursor after moving down among `n` visible rows: one row down, stopping at
/// the last row; with no rows it stays where it is.
pub open spec fn move_down(c: int, n: int) -> int {
    if n <= 0 {
        c
    } else if c + 1 <= n - 1 {
        c + 1
    } else {
        n - 1
    }
}

/// The abstract state of a single-select prompt.
pub struct SelectView {
    pub cursor: int,
    pub len: int,
}

/// The single-select state reached by a command other than `Enter`
/// (`Enter` confirms and leaves the state as it is).
pub open spec fn select_next(v: SelectView, e: SelectEvent) -> SelectView {
    match e {
        SelectEvent::Up => SelectView { cursor: move_up(v.cursor), len: v.len },
        SelectEvent::Down => SelectView { cursor: move_down(v.cursor, v.len), len: v.len },
        _ => v,
    }
}

/// The single-select state after a run of commands.
pub open spec fn select_after(v: SelectView, evs: Seq<SelectEvent>) -> SelectView
    decreases evs.len(),
{
    if evs.len() == 0 {
        v
    } else {
        select_after(select_next(v, evs[0]), evs.drop_first())
    }
}

/// The rows of a single-select frame: every option, the cursor's row active.
pub open spec fn select_frame(v: SelectView) -> Seq<Row> {
    Seq::new(
        v.len as nat,
        |i: int| Row { option: i as usize, active: i == v.cursor, kind: RowKind::Single },
    )
}

/// State of a single-select prompt over a fixed number of options.
pub struct SelectState {
    cursor: usize,
    len: usize,
}

impl View for SelectState {
    type V = SelectView;

    closed spec fn view(&self) -> SelectView {
        SelectView { cursor: self.cursor as int, len: self.len as int }
    }
}

impl SelectState {
    /// At least one option, and the cursor on one of them.
    pub open spec fn wf(&self) -> bool {
        1 <= self@.len && 0 <= self@.cursor < self@.len
    }

    /// A prompt over `len` options, cursor on the first; an empty list is refused.
    pub fn new(len: usize) -> (r: Result<SelectState, PromptError>)
        ensures
            len == 0 <==> r == Err::<SelectState, PromptError>(PromptError::NoOptions),
            r matches Ok(s) ==> s.wf() && s@ == (SelectView { cursor: 0, len: len as int }),
    {
        if len == 0 {
            Err(PromptError::NoOptions)
        } else {
            Ok(SelectState { cursor: 0, len })
        }
    }

    /// Index of the active option.
    pub fn cursor(&self) -> (r: usize)
        ensures
            r == self@.cursor,
    {
        self.cursor
    }

    /// Number of options.
    pub fn len(&self) -> (r: usize)
        ensures
            r == self@.len,
    {
        self.len
    }

    /// Applies one command. `Enter` confirms: it returns the active index and
    /// leaves the state unchanged. Every other command returns `None` and moves
    /// the cursor as `select_next` says.
    pub fn step(&mut self, e: SelectEvent) -> (r: Option<usize>)
        requires
            old(self).wf(),
        ensures
            final(self).wf(),
            e == SelectEvent::Enter ==> r == Some(old(self)@.cursor as usize) && final(self)@
                == old(self)@,
            e != SelectEvent::Enter ==> r is None && final(self)@ == select_next(old(self)@, e),
    {
        match e {
            SelectEvent::Up => {
                if self.cursor > 0 {
                    self.cursor = self.cursor - 1;
                }
                None
            },
            SelectEvent::Down => {
                if self.cursor + 1 < self.len {
                    self.cursor = self.cursor + 1;
                }
                None
            },
            SelectEvent::Enter => Some(self.cursor),
            _ => None,
        }
    }

    /// The rows of the next frame, one per option.
    pub fn render(&self) -> (r: Vec<Row>)
        requires
            self.wf(),
        ensures
            r@ == select_frame(self@),
            r.len() == self@.len,
    {
        let mut r: Vec<Row> = Vec::new();
        let mut i: usize = 0;
        while i < self.len
            invariant
                i <= self.len,
                r@ =~= select_frame(self@).take(i as int),
            decreases self.len - i,
        {
            r.push(Row { option: i, active: i == self.cursor, kind: RowKind::Single });
            i = i + 1;
        }
        r
    }
}

/// Indices of the `true` flags, in increasing order.
pub open spec fn true_indices(flags: Seq<bool>) -> Seq<usize>
    decreases flags.len(),
{
    if flags.len() == 0 {
        seq![]
    } else if flags.last() {
        true_indices(flags.drop_last()).push((flags.len() - 1) as usize)
    } else {
        true_indices(flags.drop_last())
    }
}

/// The abstract state of a multi-select prompt.
pub struct MultiView {
    pub cursor: int,
    pub chosen: Seq<bool>,
}

/// The multi-select state reached by a command other than `Enter`.
pub open spec fn multi_next(v: MultiView, e: SelectEvent) -> MultiView {
    match e {
        SelectEvent::Up => MultiView { cursor: move_up(v.cursor), chosen: v.chosen },
        SelectEvent::Down => MultiView {
            cursor: move_down(v.cursor, v.chosen.len() as int),
            chosen: v.chosen,
        },
        SelectEvent::Select => MultiView {
            cursor: v.cursor,
            chosen: v.chosen.update(v.cursor, !v.chosen[v.cursor]),
        },
        _ => v,
    }
}

/// The multi-select state after a run of commands.
pub open spec fn multi_after(v: MultiView, evs: Seq<SelectEvent>) -> MultiView
    decreases evs.len(),
{
    if evs.len() == 0 {
        v
    } else {
        multi_after(multi_next(v, evs[0]), evs.drop_first())
    }
}

/// The rows of a multi-select frame: every option with its checkbox.
pub open spec fn multi_frame(v: MultiView) -> Seq<Row> {
    Seq::new(
        v.chosen.len(),
        |i: int| Row { option: i as usize, active: i == v.cursor, kind: RowKind::Multi(v.chosen[i]) },
    )
}

/// State of a multi-select prompt: a cursor and one chosen flag per option.
pub struct MultiSelectState {
    cursor: usize,
    chosen: Vec<bool>,
}

impl View for MultiSelectState {
    type V = MultiView;

    closed spec fn view(&self) -> MultiView {
        MultiView { cursor: self.cursor as int, chosen: self.chosen@ }
    }
}

impl MultiSelectState {
    /// At least one option, and the cursor on one of them.
    pub open spec fn wf(&self) -> bool {
        1 <= self@.chosen.len() && 0 <= self@.cursor < self@.chosen.len()
    }

    /// A prompt over `len` options, none chosen, cursor on the first; an empty
    /// list is refused.
    pub fn new(len: usize) -> (r: Result<MultiSelectState, PromptError>)
        ensures
            len == 0 <==> r == Err::<MultiSelectState, PromptError>(PromptError::NoOptions),
            r matches Ok(s) ==> s.wf() && s@.cursor == 0 && s@.chosen == Seq::new(
                len as nat,
                |i: int| false,
            ),
    {
        if len == 0 {
            Err(PromptError::NoOptions)
        } else {
            let chosen = vec![false; len];
            let s = MultiSelectState { cursor: 0, chosen };
            assert(s@.chosen =~= Seq::new(len as nat, |i: int| false));
            Ok(s)
        }
    }

    /// Index of the active option.
    pub fn cursor(&self) -> (r: usize)
        ensures
            r == self@.cursor,
    {
        self.cursor
    }

    /// Number of options.
    pub fn len(&self) -> (r: usize)
        ensures
            r == self@.chosen.len(),
    {
        self.chosen.len()
    }

    /// Whether the option at `i` is chosen.
    pub fn is_chosen(&self, i: usize) -> (r: bool)
        requires
            i < self@.chosen.len(),
        ensures
            r == self@.chosen[i as int],
    {
        self.chosen[i]
    }

    /// Indices of the chosen options, in list order.
    pub fn chosen_indices(&self) -> (r: Vec<usize>)
        ensures
            r@ == true_indices(self@.chosen),
    {
        let mut r: Vec<usize> = Vec::new();
        let mut i: usize = 0;
        while i < self.chosen.len()
            invariant
                i <= self.chosen@.len(),
                r@ == true_indices(self.chosen@.take(i as int)),
            decreases self.chosen@.len() - i,
        {
            assert(self.chosen@.take(i as int + 1).drop_last() =~= self.chosen@.take(i as int));
            if self.chosen[i] {
                r.push(i);
            }
            i = i + 1;
        }
        assert(self.chosen@.take(i as int) =~= self.chosen@);
        r
    }

    /// Applies one command. `Enter` confirms: it returns the chosen indices in
    /// list order and leaves the state unchanged. Every other command returns
    /// `None` and changes the state as `multi_next` says.
    pub fn step(&mut self, e: SelectEvent) -> (r: Option<Vec<usize>>)
        requires
            old(self).wf(),
        ensures
            final(self).wf(),
            e == SelectEvent::Enter ==> (r matches Some(v) && v@ == true_indices(
                old(self)@.chosen,
            )) && final(self)@ == old(self)@,
            e != SelectEvent::Enter ==> r is None && final(self)@ == multi_next(old(self)@, e),
    {
        match e {
            SelectEvent::Up => {
                if self.cursor > 0 {
                    self.cursor = self.cursor - 1;
                }
                None
            },
            SelectEvent::Down => {
                if self.cursor < self.chosen.len() - 1 {
                    self.cursor = self.cursor + 1;
                }
                None
            },
            SelectEvent::Select => {
                let c = self.cursor;
                let flag = self.chosen[c];
                self.chosen.set(c, !flag);
                None
            },
            SelectEvent::Enter => Some(self.chosen_indices()),
            SelectEvent::Noop => None,
        }
    }

    /// The rows of the next frame, one per option.
    pub fn render(&self) -> (r: Vec<Row>)
        requires
            self.wf(),
        ensures
            r@ == multi_frame(self@),
            r.len() == self@.chosen.len(),
    {
        let mut r: Vec<Row> = Vec::new();
        let mut i: usize = 0;
        while i < self.chosen.len()
            invariant
                i <= self.chosen@.len(),
                r@ =~= multi_frame(self@).take(i as int),
            decreases self.chosen@.len() - i,
        {
            r.push(Row { option: i, active: i == self.cursor, kind: RowKind::Multi(self.chosen[i]) });
            i = i + 1;
        }
        r
    }
}

/// Moving down any number of times from a valid cursor never passes the last
/// option: after `k` moves the cursor is `min(cursor + k, len - 1)`.
pub proof fn lemma_move_down_stays_on_list(v: SelectView, evs: Seq<SelectEvent>)
    requires
        1 <= v.len,
        0 <= v.cursor < v.len,
        forall|i: int| 0 <= i < evs.len() ==> #[trigger] evs[i] == SelectEvent::Down,
    ensures
        select_after(v, evs).len == v.len,
        select_after(v, evs).cursor == if v.cursor + evs.len() <= v.len - 1 {
            v.cursor + evs.len()
        } else {
            v.len - 1
        },
        select_after(v, evs).cursor <= v.len - 1,
    decreases evs.len(),
{
    if evs.len() > 0 {
        let rest = evs.drop_first();
        assert(evs[0] == SelectEvent::Down);
        assert forall|i: int| 0 <= i < rest.len() implies #[trigger] rest[i] == SelectEvent::Down by {
            assert(rest[i] == evs[i + 1]);
        }
        lemma_move_down_stays_on_list(select_next(v, evs[0]), rest);
    }
}

/// Moving up from the first option, any number of times, stays on the first
/// option.
pub proof fn lemma_move_up_at_top(v: SelectView, evs: Seq<SelectEvent>)
    requires
        v.cursor == 0,
        forall|i: int| 0 <= i < evs.len() ==> #[trigger] evs[i] == SelectEvent::Up,
    ensures
        select_after(v, evs) == v,
    decreases evs.len(),
{
    if evs.len() > 0 {
        let rest = evs.drop_first();
        assert(evs[0] == SelectEvent::Up);
        assert forall|i: int| 0 <= i < rest.len() implies #[trigger] rest[i] == SelectEvent::Up by {
            assert(rest[i] == evs[i + 1]);
        }
        assert(select_next(v, evs[0]) == v);
        lemma_move_up_at_top(v, rest);
    }
}

/// Toggling the option under the cursor twice gives back the original state.
pub proof fn lemma_toggle_twice(v: MultiView)
    requires
        0 <= v.cursor < v.chosen.len(),
    ensures
        multi_next(multi_next(v, SelectEvent::Select), SelectEvent::Select) == v,
{
    let once = multi_next(v, SelectEvent::Select);
    assert(multi_next(once, SelectEvent::Select).chosen =~= v.chosen);
}

/// No option is chosen when no flag is set.
pub proof fn lemma_none_set_none_chosen(flags: Seq<bool>)
    requires
        forall|i: int| 0 <= i < flags.len() ==> !#[trigger] flags[i],
    ensures
        true_indices(flags) == Seq::<usize>::empty(),
    decreases flags.len(),
{
    if flags.len() > 0 {
        let prev = flags.drop_last();
        assert forall|i: int| 0 <= i < prev.len() implies !#[trigger] prev[i] by {
            assert(prev[i] == flags[i]);
        }
        lemma_none_set_none_chosen(prev);
    }
}

/// Starting with nothing chosen, commands without a toggle leave nothing
/// chosen, so confirming yields no options.
pub proof fn lemma_no_toggle_nothing_chosen(v: MultiView, evs: Seq<SelectEvent>)
    requires
        forall|i: int| 0 <= i < v.chosen.len() ==> !#[trigger] v.chosen[i],
        forall|i: int| 0 <= i < evs.len() ==> #[trigger] evs[i] != SelectEvent::Select,
    ensures
        multi_after(v, evs).chosen == v.chosen,
        true_indices(multi_after(v, evs).chosen) == Seq::<usize>::empty(),
    decreases evs.len(),
{
    if evs.len() > 0 {
        let rest = evs.drop_first();
        assert(evs[0] != SelectEvent::Select);
        assert forall|i: int| 0 <= i < rest.len() implies #[trigger] rest[i]
            != SelectEvent::Select by {
            assert(rest[i] == evs[i + 1]);
        }
        lemma_no_toggle_nothing_chosen(multi_next(v, evs[0]), rest);
    } else {
        lemma_none_set_none_chosen(v.chosen);
    }
}

/// A key that classifies as no command, or a space in single-select, leaves
/// the single-select frame exactly as it was.
pub proof fn lemma_ignored_key_same_select_frame(v: SelectView, k: Key)
    requires
        select_event_of(k) == SelectEvent::Noop || select_event_of(k) == SelectEvent::Select,
    ensures
        select_frame(select_next(v, select_event_of(k))) == select_frame(v),
{
}

/// A key that classifies as no command leaves the multi-select frame exactly
/// as it was.
pub proof fn lemma_ignored_key_same_multi_frame(v: MultiView, k: Key)
    requires
        select_event_of(k) == SelectEvent::Noop,
    ensures
        multi_frame(multi_next(v, select_event_of(k))) == multi_frame(v),
{
}

} // verus!
