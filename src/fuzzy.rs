//! The fuzzy-filter widget: options filtered by case-insensitive substring
//! match against a typed filter, a cursor over the matches, and a frame
//! capped to the terminal's height.
use vstd::prelude::*;

use crate::frame::{Row, RowKind};
use crate::keys::{fuzzy_event_of, FuzzyEvent, KeyPress};
use crate::select::{move_down, move_up};

verus! {

/// What `str::to_lowercase` makes of a text.
pub uninterp spec fn lower_of(s: Seq<char>) -> Seq<char>;

/// Relies on `str::to_lowercase`: the lowercase form of the text, which
/// depends on the characters alone.
#[verifier::external_body]
fn lowercase(s: &Vec<char>) -> (r: Vec<char>)
    ensures
        r@ == lower_of(s@),
{
    s.iter().collect::<String>().to_lowercase().chars().collect()
}

/// `pat` occurs in `text` as a contiguous run.
pub open spec fn contains_sub(text: Seq<char>, pat: Seq<char>) -> bool {
    exists|i: int|
        0 <= i && i + pat.len() <= text.len() && #[trigger] text.subrange(i, i + pat.len()) == pat
}

/// Indices of the texts that contain `pat`, in increasing order.
pub open spec fn matching(texts: Seq<Seq<char>>, pat: Seq<char>) -> Seq<usize>
    decreases texts.len(),
{
    if texts.len() == 0 {
        seq![]
    } else if contains_sub(texts.last(), pat) {
        matching(texts.drop_last(), pat).push((texts.len() - 1) as usize)
    } else {
        matching(texts.drop_last(), pat)
    }
}

/// The texts held by a list of character vectors.
pub open spec fn texts_of(v: Seq<Vec<char>>) -> Seq<Seq<char>> {
    v.map_values(|t: Vec<char>| t@)
}

/// The lowercase forms of a list of texts.
pub open spec fn lowered_all(v: Seq<Vec<char>>) -> Seq<Seq<char>> {
    v.map_values(|t: Vec<char>| lower_of(t@))
}

/// Whether `pat` equals the run of `text` that starts at `i`.
fn occurs_at(text: &Vec<char>, pat: &Vec<char>, i: usize) -> (r: bool)
    requires
        i + pat@.len() <= text@.len(),
    ensures
        r == (text@.subrange(i as int, i + pat@.len()) == pat@),
{
    let n: usize = text.len();
    let mut k: usize = 0;
    while k < pat.len()
        invariant
            n == text@.len(),
            i + pat@.len() <= text@.len(),
            k <= pat@.len(),
            forall|j: int| 0 <= j < k ==> text@[i + j] == pat@[j],
        decreases pat@.len() - k,
    {
        if text[i + k] != pat[k] {
            assert(text@.subrange(i as int, i + pat@.len())[k as int] != pat@[k as int]);
            return false;
        }
        k = k + 1;
    }
    assert(text@.subrange(i as int, i + pat@.len()) =~= pat@);
    true
}

/// Whether `pat` occurs in `text`.
pub fn contains_chars(text: &Vec<char>, pat: &Vec<char>) -> (r: bool)
    ensures
        r == contains_sub(text@, pat@),
{
    if pat.len() > text.len() {
        return false;
    }
    let last: usize = text.len() - pat.len();
    let mut i: usize = 0;
    loop
        invariant
            last + pat@.len() == text@.len(),
            i <= last,
            forall|j: int| 0 <= j < i ==> #[trigger] text@.subrange(j, j + pat@.len()) != pat@,
        decreases last - i,
    {
        if occurs_at(text, pat, i) {
            return true;
        }
        if i == last {
            return false;
        }
        i = i + 1;
    }
}

/// Indices of the texts in `texts` that contain `pat`, in list order. The
/// texts and `pat` are compared as given, with no case folding.
pub fn matching_indices(texts: &Vec<Vec<char>>, pat: &Vec<char>) -> (r: Vec<usize>)
    ensures
        r@ == matching(texts_of(texts@), pat@),
{
    let mut r: Vec<usize> = Vec::new();
    let mut i: usize = 0;
    while i < texts.len()
        invariant
            i <= texts@.len(),
            r@ == matching(texts_of(texts@).take(i as int), pat@),
        decreases texts@.len() - i,
    {
        let ghost all = texts_of(texts@);
        assert(all.take(i as int + 1).drop_last() =~= all.take(i as int));
        assert(all.take(i as int + 1).last() == texts@[i as int]@);
        if contains_chars(&texts[i], pat) {
            r.push(i);
        }
        i = i + 1;
    }
    assert(texts_of(texts@).take(i as int) =~= texts_of(texts@));
    r
}

/// Indices of the options that contain `filter`, ignoring case, in list order.
pub fn filter_input(options: &Vec<Vec<char>>, filter: &Vec<char>) -> (r: Vec<usize>)
    ensures
        r@ == matching(lowered_all(options@), lower_of(filter@)),
{
    let lowered = lower_options(options);
    let pat = lowercase(filter);
    matching_indices(&lowered, &pat)
}

/// The lowercase form of every option.
fn lower_options(options: &Vec<Vec<char>>) -> (r: Vec<Vec<char>>)
    ensures
        texts_of(r@) == lowered_all(options@),
{
    let mut r: Vec<Vec<char>> = Vec::new();
    let mut i: usize = 0;
    while i < options.len()
        invariant
            i <= options@.len(),
            r@.len() == i,
            forall|k: int| 0 <= k < i ==> #[trigger] r@[k]@ == lower_of(options@[k]@),
        decreases options@.len() - i,
    {
        let l = lowercase(&options[i]);
        r.push(l);
        i = i + 1;
    }
    assert(texts_of(r@) =~= lowered_all(options@));
    r
}

/// Every index that `matching` yields names one of the texts.
pub proof fn lemma_matching_in_range(texts: Seq<Seq<char>>, pat: Seq<char>)
    requires
        texts.len() <= usize::MAX,
    ensures
        forall|k: int|
            0 <= k < matching(texts, pat).len() ==> #[trigger] matching(texts, pat)[k] < texts.len(),
    decreases texts.len(),
{
    if texts.len() > 0 {
        let prev = texts.drop_last();
        lemma_matching_in_range(prev, pat);
        assert forall|k: int| 0 <= k < matching(texts, pat).len() implies #[trigger] matching(
            texts,
            pat,
        )[k] < texts.len() by {
            if k < matching(prev, pat).len() {
                assert(matching(texts, pat)[k] == matching(prev, pat)[k]);
            }
        }
    }
}

/// The abstract state of a fuzzy-filter prompt: the lowercase options, the
/// typed filter, the indices of the options that match it, and a cursor
/// into those matches.
pub struct FuzzyView {
    pub lowered: Seq<Seq<char>>,
    pub filter: Seq<char>,
    pub filtered: Seq<usize>,
    pub cursor: int,
}

/// The state after the filter becomes `f`: matches recomputed, cursor reset.
pub open spec fn refilter(v: FuzzyView, f: Seq<char>) -> FuzzyView {
    FuzzyView {
        lowered: v.lowered,
        filter: f,
        filtered: matching(v.lowered, lower_of(f)),
        cursor: 0,
    }
}

/// The fuzzy-filter state reached by a command other than `Enter`.
pub open spec fn fuzzy_next(v: FuzzyView, e: FuzzyEvent) -> FuzzyView {
    match e {
        FuzzyEvent::Up => FuzzyView { cursor: move_up(v.cursor), ..v },
        FuzzyEvent::Down => FuzzyView { cursor: move_down(v.cursor, v.filtered.len() as int), ..v },
        FuzzyEvent::FilterChar(c) => refilter(v, v.filter.push(c)),
        FuzzyEvent::Backspace => refilter(
            v,
            if v.filter.len() > 0 {
                v.filter.drop_last()
            } else {
                v.filter
            },
        ),
        _ => v,
    }
}

/// First match shown in a viewport of `cap` rows, so that the cursor's row is
/// the last one shown once the cursor has moved past the first page.
pub open spec fn window_start(c: int, cap: int) -> int {
    if c >= cap {
        c - cap + 1
    } else {
        0
    }
}

/// The rows of a fuzzy frame on a terminal `height` lines high: the matches
/// that fit above the filter line, the cursor's row among them.
pub open spec fn fuzzy_frame(v: FuzzyView, height: int) -> Seq<Row> {
    let cap = height - 1;
    if cap <= 0 {
        seq![]
    } else {
        let s = window_start(v.cursor, cap);
        let n = if v.filtered.len() - s < cap {
            v.filtered.len() - s
        } else {
            cap
        };
        Seq::new(
            n as nat,
            |k: int| Row { option: v.filtered[s + k], active: s + k == v.cursor, kind: RowKind::Fuzzy },
        )
    }
}

/// State of a fuzzy-filter prompt.
pub struct FuzzyState {
    lowered: Vec<Vec<char>>,
    filter: Vec<char>,
    filtered: Vec<usize>,
    cursor: usize,
}

impl View for FuzzyState {
    type V = FuzzyView;

    closed spec fn view(&self) -> FuzzyView {
        FuzzyView {
            lowered: texts_of(self.lowered@),
            filter: self.filter@,
            filtered: self.filtered@,
            cursor: self.cursor as int,
        }
    }
}

impl FuzzyState {
    /// The matches are those of the current filter, and the cursor is on one
    /// of them (or at 0 when there are none).
    pub open spec fn wf(&self) -> bool {
        &&& self@.filtered == matching(self@.lowered, lower_of(self@.filter))
        &&& self@.filtered.len() == 0 ==> self@.cursor == 0
        &&& self@.filtered.len() > 0 ==> 0 <= self@.cursor < self@.filtered.len()
    }

    /// A prompt over `options` with an empty filter and the cursor on the
    /// first match.
    pub fn new(options: &Vec<Vec<char>>) -> (r: FuzzyState)
        ensures
            r.wf(),
            r@.lowered == lowered_all(options@),
            r@.filter == Seq::<char>::empty(),
            r@.cursor == 0,
    {
        let lowered = lower_options(options);
        let filter: Vec<char> = Vec::new();
        let pat = lowercase(&filter);
        let filtered = matching_indices(&lowered, &pat);
        FuzzyState { lowered, filter, filtered, cursor: 0 }
    }

    /// Index, into the matches, of the active row.
    pub fn cursor(&self) -> (r: usize)
        ensures
            r == self@.cursor,
    {
        self.cursor
    }

    /// The typed filter.
    pub fn filter(&self) -> (r: &Vec<char>)
        ensures
            r@ == self@.filter,
    {
        &self.filter
    }

    /// Indices of the options that match the filter, in list order.
    pub fn filtered(&self) -> (r: &Vec<usize>)
        ensures
            r@ == self@.filtered,
    {
        &self.filtered
    }

    fn recompute(&mut self)
        ensures
            final(self)@ == refilter(old(self)@, old(self)@.filter),
            final(self).wf(),
    {
        let pat = lowercase(&self.filter);
        self.filtered = matching_indices(&self.lowered, &pat);
        self.cursor = 0;
    }

    /// Applies one command. `Enter` confirms the option under the cursor when
    /// there is a match, and is ignored when there is none; either way the
    /// state is unchanged. Every other command returns `None` and changes the
    /// state as `fuzzy_next` says.
    pub fn step(&mut self, e: FuzzyEvent) -> (r: Option<usize>)
        requires
            old(self).wf(),
        ensures
            final(self).wf(),
            e == FuzzyEvent::Enter ==> final(self)@ == old(self)@ && r == (if old(
                self,
            )@.filtered.len() > 0 {
                Some(old(self)@.filtered[old(self)@.cursor])
            } else {
                None
            }),
            e != FuzzyEvent::Enter ==> r is None && final(self)@ == fuzzy_next(old(self)@, e),
    {
        match e {
            FuzzyEvent::Up => {
                if self.cursor > 0 {
                    self.cursor = self.cursor - 1;
                }
                None
            },
            FuzzyEvent::Down => {
                if self.filtered.len() > 0 && self.cursor < self.filtered.len() - 1 {
                    self.cursor = self.cursor + 1;
                }
                None
            },
            FuzzyEvent::FilterChar(c) => {
                self.filter.push(c);
                self.recompute();
                None
            },
            FuzzyEvent::Backspace => {
                self.filter.pop();
                self.recompute();
                None
            },
            FuzzyEvent::Enter => {
                if self.filtered.len() > 0 {
                    Some(self.filtered[self.cursor])
                } else {
                    None
                }
            },
            FuzzyEvent::Noop => None,
        }
    }

    /// The rows of the next frame on a terminal `height` lines high: at most
    /// `height - 1` matches, leaving the last line for the filter.
    pub fn render(&self, height: usize) -> (r: Vec<Row>)
        requires
            self.wf(),
        ensures
            r@ == fuzzy_frame(self@, height as int),
            r.len() < height || r.len() == 0,
            forall|k: int| 0 <= k < r.len() ==> #[trigger] r@[k].option < self@.lowered.len(),
    {
        let n_options: usize = self.lowered.len();
        proof {
            assert(self@.lowered.len() == n_options);
            lemma_matching_in_range(self@.lowered, lower_of(self@.filter));
        }
        let mut r: Vec<Row> = Vec::new();
        if height <= 1 {
            return r;
        }
        let cap: usize = height - 1;
        let start: usize = if self.cursor >= cap {
            self.cursor - cap + 1
        } else {
            0
        };
        let len: usize = self.filtered.len();
        let n: usize = if len - start < cap {
            len - start
        } else {
            cap
        };
        let ghost frame = fuzzy_frame(self@, height as int);
        assert(frame.len() == n);
        assert(forall|j: int|
            0 <= j < n ==> #[trigger] frame[j] == (Row {
                option: self@.filtered[start + j],
                active: start + j == self@.cursor,
                kind: RowKind::Fuzzy,
            }));
        let mut k: usize = 0;
        while k < n
            invariant
                n == frame.len(),
                start + n <= len,
                len == self@.filtered.len(),
                start == window_start(self@.cursor, cap as int),
                cap == height - 1,
                height > 1,
                k <= n,
                r@ =~= frame.take(k as int),
                forall|j: int|
                    0 <= j < n ==> #[trigger] frame[j] == (Row {
                        option: self@.filtered[start + j],
                        active: start + j == self@.cursor,
                        kind: RowKind::Fuzzy,
                    }),
            decreases n - k,
        {
            r.push(
                Row {
                    option: self.filtered[start + k],
                    active: start + k == self.cursor,
                    kind: RowKind::Fuzzy,
                },
            );
            k = k + 1;
        }
        r
    }

    /// The line below the rows: `> ` and the typed filter.
    pub fn filter_line(&self) -> (r: Vec<char>)
        ensures
            r@ == seq!['>', ' '] + self@.filter,
    {
        let mut r: Vec<char> = Vec::new();
        r.push('>');
        r.push(' ');
        let mut i: usize = 0;
        while i < self.filter.len()
            invariant
                i <= self.filter@.len(),
                r@ =~= seq!['>', ' '] + self.filter@.take(i as int),
            decreases self.filter@.len() - i,
        {
            r.push(self.filter[i]);
            i = i + 1;
        }
        r
    }
}

/// Typing a character or erasing one recomputes the matches from the new
/// filter and puts the cursor back on the first match.
pub proof fn lemma_filter_edit_resets_cursor(v: FuzzyView, c: char)
    ensures
        fuzzy_next(v, FuzzyEvent::FilterChar(c)).cursor == 0,
        fuzzy_next(v, FuzzyEvent::FilterChar(c)).filter == v.filter.push(c),
        fuzzy_next(v, FuzzyEvent::FilterChar(c)).filtered == matching(
            v.lowered,
            lower_of(v.filter.push(c)),
        ),
        fuzzy_next(v, FuzzyEvent::Backspace).cursor == 0,
        fuzzy_next(v, FuzzyEvent::Backspace).filtered == matching(
            v.lowered,
            lower_of(fuzzy_next(v, FuzzyEvent::Backspace).filter),
        ),
{
}

/// A key press that classifies as no command leaves the fuzzy frame and its
/// filter line exactly as they were.
pub proof fn lemma_ignored_key_same_fuzzy_frame(v: FuzzyView, e: KeyPress, height: int)
    requires
        fuzzy_event_of(e) == FuzzyEvent::Noop,
    ensures
        fuzzy_frame(fuzzy_next(v, fuzzy_event_of(e)), height) == fuzzy_frame(v, height),
        fuzzy_next(v, fuzzy_event_of(e)).filter == v.filter,
{
}

} // verus!
