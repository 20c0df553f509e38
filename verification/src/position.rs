//! Source spans: an inclusive range of lines and caret columns, tagged on
//! every token, instruction and error.

use vstd::prelude::*;

use crate::decimal::usize_to_string;
use vstd::string::StringExecFns;

verus! {

/// An inclusive source range: from `caret_from` on `line_from` to `caret_to`
/// on `line_to`.
#[derive(Debug, Clone, Copy, PartialEq, Eq, Structural)]
pub struct Position {
    pub line_from: usize,
    pub line_to: usize,
    pub caret_from: usize,
    pub caret_to: usize,
}

/// The smallest span that contains both `a` and `b`: the earlier start
/// (line-aware) and the later end.
pub open spec fn spec_merge(a: Position, b: Position) -> Position {
    let (line_from, caret_from) = if a.line_from < b.line_from {
        (a.line_from, a.caret_from)
    } else if a.line_from > b.line_from {
        (b.line_from, b.caret_from)
    } else {
        (a.line_from, if a.caret_from <= b.caret_from { a.caret_from } else { b.caret_from })
    };
    let (line_to, caret_to) = if a.line_to > b.line_to {
        (a.line_to, a.caret_to)
    } else if a.line_to < b.line_to {
        (b.line_to, b.caret_to)
    } else {
        (a.line_to, if a.caret_to >= b.caret_to { a.caret_to } else { b.caret_to })
    };
    Position { line_from, line_to, caret_from, caret_to }
}

/// The rendering of a span for error reports.
pub open spec fn spec_position_text(p: Position) -> Seq<char> {
    if p.line_from == p.line_to {
        "Error line "@ + crate::decimal::spec_digits(p.line_to as nat) + " ["@ + crate::decimal::spec_digits(
            p.caret_from as nat,
        ) + ","@ + crate::decimal::spec_digits(p.caret_to as nat) + "]"@
    } else {
        "Error from line "@ + crate::decimal::spec_digits(p.line_from as nat) + " ["@
            + crate::decimal::spec_digits(p.caret_from as nat) + "] to line "@
            + crate::decimal::spec_digits(p.line_to as nat) + " ["@ + crate::decimal::spec_digits(
            p.caret_to as nat,
        ) + "]"@
    }
}

impl Position {
    /// A one-line span on `line` from caret `from` to caret `to`.
    pub fn new(line: usize, from: usize, to: usize) -> (r: Position)
        ensures
            r == (Position { line_from: line, line_to: line, caret_from: from, caret_to: to }),
    {
        Position { line_from: line, line_to: line, caret_from: from, caret_to: to }
    }

    /// The smallest span containing both `self` and `position`.
    pub fn merge(&self, position: &Position) -> (r: Position)
        ensures
            r == spec_merge(*self, *position),
    {
        let (line_from, caret_from) = if self.line_from < position.line_from {
            (self.line_from, self.caret_from)
        } else if self.line_from > position.line_from {
            (position.line_from, position.caret_from)
        } else {
            (
                self.line_from,
                if self.caret_from <= position.caret_from {
                    self.caret_from
                } else {
                    position.caret_from
                },
            )
        };
        let (line_to, caret_to) = if self.line_to > position.line_to {
            (self.line_to, self.caret_to)
        } else if self.line_to < position.line_to {
            (position.line_to, position.caret_to)
        } else {
            (
                self.line_to,
                if self.caret_to >= position.caret_to {
                    self.caret_to
                } else {
                    position.caret_to
                },
            )
        };
        Position { line_from, line_to, caret_from, caret_to }
    }

    /// Renders the span for an error report.
    pub fn to_str(&self) -> (r: String)
        ensures
            r@ == spec_position_text(*self),
    {
        if self.line_from == self.line_to {
            let mut out = String::new();
            out.append("Error line ");
            let n1 = usize_to_string(self.line_to);
            out.append(n1.as_str());
            out.append(" [");
            let n2 = usize_to_string(self.caret_from);
            out.append(n2.as_str());
            out.append(",");
            let n3 = usize_to_string(self.caret_to);
            out.append(n3.as_str());
            out.append("]");
            out
        } else {
            let mut out = String::new();
            out.append("Error from line ");
            let n1 = usize_to_string(self.line_from);
            out.append(n1.as_str());
            out.append(" [");
            let n2 = usize_to_string(self.caret_from);
            out.append(n2.as_str());
            out.append("] to line ");
            let n3 = usize_to_string(self.line_to);
            out.append(n3.as_str());
            out.append(" [");
            let n4 = usize_to_string(self.caret_to);
            out.append(n4.as_str());
            out.append("]");
            out
        }
    }
}

} // verus!
