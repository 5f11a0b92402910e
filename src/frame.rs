//! The rows of one drawn frame: which option each row shows, whether it is the
//! active row, and the marker text printed before the option.
use vstd::prelude::*;

verus! {

/// How a row is decorated, by widget.
#[derive(Debug, Clone, Copy, PartialEq, Eq, Structural)]
pub enum RowKind {
    /// A row of the single-select widget.
    Single,
    /// A row of the multi-select widget, with its checkbox state.
    Multi(bool),
    /// A row of the fuzzy-filter widget.
    Fuzzy,
}

/// One drawn line: the option at index `option`, emphasised when `active`.
#[derive(Debug, Clone, Copy, PartialEq, Eq, Structural)]
pub struct Row {
    pub option: usize,
    pub active: bool,
    pub kind: RowKind,
}

/// The marker of a row: `>` on the active row, a blank otherwise.
pub open spec fn marker(active: bool) -> char {
    if active {
        '>'
    } else {
        ' '
    }
}

/// The text printed before the option's own text on a row.
pub open spec fn prefix_text(r: Row) -> Seq<char> {
    match r.kind {
        RowKind::Single => seq!['\t', marker(r.active), ' '],
        RowKind::Multi(checked) => seq![
            '\t',
            marker(r.active),
            ' ',
            '[',
            if checked {
                'x'
            } else {
                ' '
            },
            ']',
            ' ',
        ],
        RowKind::Fuzzy => seq![marker(r.active), ' '],
    }
}

fn marker_char(active: bool) -> (c: char)
    ensures
        c == marker(active),
{
    if active {
        '>'
    } else {
        ' '
    }
}

impl Row {
    /// The marker text of this row, printed before the option.
    pub fn prefix(&self) -> (r: Vec<char>)
        ensures
            r@ == prefix_text(*self),
    {
        let mut r: Vec<char> = Vec::new();
        match self.kind {
            RowKind::Single => {
                r.push('\t');
                r.push(marker_char(self.active));
                r.push(' ');
            },
            RowKind::Multi(checked) => {
                r.push('\t');
                r.push(marker_char(self.active));
                r.push(' ');
                r.push('[');
                r.push(
                    if checked {
                        'x'
                    } else {
                        ' '
                    },
                );
                r.push(']');
                r.push(' ');
            },
            RowKind::Fuzzy => {
                r.push(marker_char(self.active));
                r.push(' ');
            },
        }
        assert(r@ =~= prefix_text(*self));
        r
    }
}

} // verus!
