//! The line lexer: splits one source line into literals, brackets,
//! parentheses and `=` marks, each with its span. A `#` token comments out
//! the rest of the line.

use vstd::prelude::*;

use crate::position::Position;
use crate::strutil::chars_vec;
use vstd::string::StrSliceExecFns;

verus! {

/// One lexed token of a source line.
#[derive(Debug)]
pub enum Stage1Token {
    Literal(Position, String),
    OpenParenthesis(Position),
    CloseParenthesis(Position),
    OpenBrackets(Position),
    CloseBrackets(Position),
    Equals(Position),
}

/// The mathematical image of a [`Stage1Token`].
#[verifier::ext_equal]
pub ghost enum Stage1View {
    Literal(Position, Seq<char>),
    OpenParenthesis(Position),
    CloseParenthesis(Position),
    OpenBrackets(Position),
    CloseBrackets(Position),
    Equals(Position),
}

impl View for Stage1Token {
    type V = Stage1View;

    open spec fn view(&self) -> Stage1View {
        match self {
            Stage1Token::Literal(p, s) => Stage1View::Literal(*p, s@),
            Stage1Token::OpenParenthesis(p) => Stage1View::OpenParenthesis(*p),
            Stage1Token::CloseParenthesis(p) => Stage1View::CloseParenthesis(*p),
            Stage1Token::OpenBrackets(p) => Stage1View::OpenBrackets(*p),
            Stage1Token::CloseBrackets(p) => Stage1View::CloseBrackets(*p),
            Stage1Token::Equals(p) => Stage1View::Equals(*p),
        }
    }
}

impl DeepView for Stage1Token {
    type V = Stage1View;

    open spec fn deep_view(&self) -> Stage1View {
        self.view()
    }
}

/// The characters that end a run and stand as tokens of their own.
pub open spec fn line_sep(c: char) -> bool {
    c == '(' || c == ')' || c == '{' || c == '}' || c == ' '
}

/// Unicode whitespace (the White_Space set): a run of nothing else is
/// dropped.
pub open spec fn is_space_char(c: char) -> bool {
    c == ' ' || c == '\t' || c == '\n' || c == '\u{b}' || c == '\u{c}' || c == '\r' || c
        == '\u{85}' || c == '\u{a0}' || c == '\u{1680}' || c == '\u{2000}' || c == '\u{2001}'
        || c == '\u{2002}' || c == '\u{2003}' || c == '\u{2004}' || c == '\u{2005}' || c
        == '\u{2006}' || c == '\u{2007}' || c == '\u{2008}' || c == '\u{2009}' || c
        == '\u{200a}' || c == '\u{2028}' || c == '\u{2029}' || c == '\u{202f}' || c
        == '\u{205f}' || c == '\u{3000}'
}

/// Whether `c` is whitespace.
pub fn is_space_char_exec(c: char) -> (r: bool)
    ensures
        r == is_space_char(c),
{
    match c {
        ' ' | '\t' | '\n' | '\u{b}' | '\u{c}' | '\r' | '\u{85}' | '\u{a0}' | '\u{1680}'
        | '\u{2000}' | '\u{2001}' | '\u{2002}' | '\u{2003}' | '\u{2004}' | '\u{2005}'
        | '\u{2006}' | '\u{2007}' | '\u{2008}' | '\u{2009}' | '\u{200a}' | '\u{2028}'
        | '\u{2029}' | '\u{202f}' | '\u{205f}' | '\u{3000}' => true,
        _ => false,
    }
}

/// Whether a run holds only whitespace.
pub open spec fn all_space(t: Seq<char>) -> bool {
    forall|i: int| 0 <= i < t.len() ==> is_space_char(t[i])
}

/// The token a completed run denotes, if any: a lone `=` is an assignment
/// mark, a blank run is dropped, anything else is a literal.
pub open spec fn run_tokens(line: Seq<char>, ln: int, start: int, i: int) -> Seq<Stage1View> {
    if start >= i {
        Seq::empty()
    } else {
        let t = line.subrange(start, i);
        let pos = Position {
            line_from: ln as usize,
            line_to: ln as usize,
            caret_from: start as usize,
            caret_to: i as usize,
        };
        if all_space(t) {
            Seq::empty()
        } else if t == seq!['='] {
            seq![Stage1View::Equals(pos)]
        } else {
            seq![Stage1View::Literal(pos, t)]
        }
    }
}

/// The token a separator character denotes; a space is dropped.
pub open spec fn sep_token(c: char, ln: int, i: int) -> Seq<Stage1View> {
    let pos = Position {
        line_from: ln as usize,
        line_to: ln as usize,
        caret_from: i as usize,
        caret_to: (i + 1) as usize,
    };
    if c == '(' {
        seq![Stage1View::OpenParenthesis(pos)]
    } else if c == ')' {
        seq![Stage1View::CloseParenthesis(pos)]
    } else if c == '{' {
        seq![Stage1View::OpenBrackets(pos)]
    } else if c == '}' {
        seq![Stage1View::CloseBrackets(pos)]
    } else {
        Seq::empty()
    }
}

/// The tokens of `line` from scan position `i` on, with the current run
/// starting at `start`: a run of exactly `#` ends the line.
pub open spec fn stage1_scan(line: Seq<char>, ln: int, i: int, start: int) -> Seq<Stage1View>
    decreases line.len() - i,
{
    if i < 0 || start < 0 || start > i {
        Seq::empty()
    } else if i >= line.len() {
        if line.subrange(start, i) == seq!['#'] && start < i {
            Seq::empty()
        } else {
            run_tokens(line, ln, start, i)
        }
    } else if line_sep(line[i]) {
        if line.subrange(start, i) == seq!['#'] && start < i {
            Seq::empty()
        } else {
            run_tokens(line, ln, start, i) + sep_token(line[i], ln, i) + stage1_scan(
                line,
                ln,
                i + 1,
                i + 1,
            )
        }
    } else {
        stage1_scan(line, ln, i + 1, start)
    }
}

/// The tokens of one source line.
pub open spec fn spec_stage1(line: Seq<char>, ln: int) -> Seq<Stage1View> {
    stage1_scan(line, ln, 0, 0)
}

/// Lexes one source line, numbered `line_number`, into tokens: the result
/// promised by [`spec_stage1`].
pub fn compile(line: &str, line_number: usize) -> (r: Vec<Stage1Token>)
    ensures
        r.deep_view() == spec_stage1(line@, line_number as int),
{
    let cs = chars_vec(line);
    let n = cs.len();
    let mut out: Vec<Stage1Token> = Vec::new();
    let mut start: usize = 0;
    let mut i: usize = 0;
    proof {
        assert(out.deep_view() =~= Seq::<Stage1View>::empty());
    }
    while i < n
        invariant
            start <= i <= n,
            n == line@.len(),
            cs@ == line@,
            out.deep_view() + stage1_scan(line@, line_number as int, i as int, start as int)
                == spec_stage1(line@, line_number as int),
        decreases n - i,
    {
        let c = cs[i];
        if c == '(' || c == ')' || c == '{' || c == '}' || c == ' ' {
            if run_break(line, cs.as_slice(), start, i, line_number, &mut out) {
                return out;
            }
            let ghost dv1 = out.deep_view();
            if c == '(' {
                out.push(Stage1Token::OpenParenthesis(Position::new(line_number, i, i + 1)));
            } else if c == ')' {
                out.push(Stage1Token::CloseParenthesis(Position::new(line_number, i, i + 1)));
            } else if c == '{' {
                out.push(Stage1Token::OpenBrackets(Position::new(line_number, i, i + 1)));
            } else if c == '}' {
                out.push(Stage1Token::CloseBrackets(Position::new(line_number, i, i + 1)));
            }
            proof {
                assert(out.deep_view() =~= dv1 + sep_token(
                    line@[i as int],
                    line_number as int,
                    i as int,
                ));
            }
            start = i + 1;
        }
        i = i + 1;
    }
    if run_break(line, cs.as_slice(), start, n, line_number, &mut out) {
        return out;
    }
    proof {
        assert(out.deep_view() =~= spec_stage1(line@, line_number as int));
    }
    out
}

/// Flushes the run `[start, i)` into `out`; true means the run was a `#`
/// comment mark and the line ends here.
fn run_break(
    line: &str,
    cs: &[char],
    start: usize,
    i: usize,
    line_number: usize,
    out: &mut Vec<Stage1Token>,
) -> (stop: bool)
    requires
        start <= i <= line@.len(),
        cs@ == line@,
    ensures
        stop ==> line@.subrange(start as int, i as int) == seq!['#'] && start < i
            && final(out).deep_view() == old(out).deep_view(),
        !stop ==> !(line@.subrange(start as int, i as int) == seq!['#'] && start < i) && final(out).deep_view() == old(out).deep_view() + run_tokens(
            line@,
            line_number as int,
            start as int,
            i as int,
        ),
{
    let ghost t = line@.subrange(start as int, i as int);
    if start >= i {
        proof {
            assert(old(out).deep_view() + run_tokens(
                line@,
                line_number as int,
                start as int,
                i as int,
            ) =~= old(out).deep_view());
        }
        return false;
    }
    if i - start == 1 && cs[start] == '#' {
        proof {
            assert(t.len() == 1 && t[0] == '#');
            assert(t =~= seq!['#']);
        }
        return true;
    }
    proof {
        if t == seq!['#'] {
            assert(t.len() == 1 && t[0] == '#');
            assert(cs@[start as int] == '#');
        }
    }
    let ghost dv0 = out.deep_view();
    // not a comment mark from here on
    let blank = check_all_space_slice(cs, start, i);
    if blank {
        proof {
            assert(out.deep_view() + run_tokens(
                line@,
                line_number as int,
                start as int,
                i as int,
            ) =~= out.deep_view());
        }
        return false;
    }
    let text = line.substring_char(start, i);
    let is_equals = i - start == 1 && cs[start] == '=';
    proof {
        if t == seq!['='] {
            assert(t.len() == 1 && t[0] == '=');
            assert(cs@[start as int] == '=');
        }
        if is_equals {
            assert(t =~= seq!['=']);
        }
    }
    if is_equals {
        out.push(Stage1Token::Equals(Position::new(line_number, start, i)));
        proof {
            assert(out.deep_view() =~= dv0 + run_tokens(
                line@,
                line_number as int,
                start as int,
                i as int,
            ));
        }
        false
    } else {
        out.push(Stage1Token::Literal(Position::new(line_number, start, i), text.to_owned()));
        proof {
            assert(out.deep_view() =~= dv0 + run_tokens(
                line@,
                line_number as int,
                start as int,
                i as int,
            ));
        }
        false
    }
}

/// Whether a slice range holds only whitespace.
pub fn check_all_space_slice(cs: &[char], start: usize, end: usize) -> (r: bool)
    requires
        start <= end <= cs@.len(),
    ensures
        r == all_space(cs@.subrange(start as int, end as int)),
{
    let ghost t = cs@.subrange(start as int, end as int);
    let mut i: usize = start;
    while i < end
        invariant
            start <= i <= end <= cs@.len(),
            t == cs@.subrange(start as int, end as int),
            forall|j: int| 0 <= j < i - start ==> is_space_char(t[j]),
        decreases end - i,
    {
        let c = cs[i];
        let space = is_space_char_exec(c);
        if !space {
            proof {
                assert(t[i - start as int] == cs@[i as int]);
                assert(!is_space_char(t[i - start as int]));
            }
            return false;
        }
        i = i + 1;
    }
    true
}

} // verus!
