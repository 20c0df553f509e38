//! The sub-tokens of the literal-expression mini-language, and the stack
//! entries of its reduction machine.

use vstd::prelude::*;

verus! {

/// A punctuation mark not yet combined with its neighbours.
#[derive(Debug, Clone, Copy, PartialEq, Eq, Structural)]
pub enum Phase1Token {
    /// `~`
    Relative,
    /// `+` or `-`; true means negative.
    NumberSign(bool),
    /// `.`
    Dot,
    /// `?`
    QuestionMark,
}

/// A reduced stack entry of the literal-expression compiler.
#[derive(Debug, Clone)]
pub enum Phase2Token {
    /// A bare identifier.
    Variable(String),
    /// A (possibly signed, combined) number.
    Number(isize),
    /// `'name:` — this slot also declares `name`.
    LabelAssign(String),
    /// `'name` with an accumulated offset.
    Label(String, isize),
    /// `a..` or `a..b`.
    Range(isize, Option<isize>),
    /// `~n`.
    Relative(isize),
    /// An identifier followed by `.`.
    VariableIndexed(String),
    /// `?n` — a default value.
    Or(usize),
    /// `?~n` — a relative default.
    OrRelative(isize),
    /// `?'name` — a label default.
    OrLabel(String, isize),
}

/// Either kind of stack entry.
#[derive(Debug, Clone)]
pub enum CompilationToken {
    Phase1Token(Phase1Token),
    Phase2Token(Phase2Token),
}

/// The mathematical image of a [`Phase2Token`].
#[verifier::ext_equal]
pub ghost enum Phase2View {
    Variable(Seq<char>),
    Number(int),
    LabelAssign(Seq<char>),
    Label(Seq<char>, int),
    Range(int, Option<int>),
    Relative(int),
    VariableIndexed(Seq<char>),
    Or(int),
    OrRelative(int),
    OrLabel(Seq<char>, int),
}

/// The mathematical image of a [`CompilationToken`].
#[verifier::ext_equal]
pub ghost enum CompilationTokenView {
    Phase1(Phase1Token),
    Phase2(Phase2View),
}

impl View for Phase2Token {
    type V = Phase2View;

    open spec fn view(&self) -> Phase2View {
        match self {
            Phase2Token::Variable(s) => Phase2View::Variable(s@),
            Phase2Token::Number(n) => Phase2View::Number(*n as int),
            Phase2Token::LabelAssign(s) => Phase2View::LabelAssign(s@),
            Phase2Token::Label(s, n) => Phase2View::Label(s@, *n as int),
            Phase2Token::Range(a, b) => Phase2View::Range(
                *a as int,
                match b {
                    Some(x) => Some(*x as int),
                    None => None,
                },
            ),
            Phase2Token::Relative(n) => Phase2View::Relative(*n as int),
            Phase2Token::VariableIndexed(s) => Phase2View::VariableIndexed(s@),
            Phase2Token::Or(n) => Phase2View::Or(*n as int),
            Phase2Token::OrRelative(n) => Phase2View::OrRelative(*n as int),
            Phase2Token::OrLabel(s, n) => Phase2View::OrLabel(s@, *n as int),
        }
    }
}

impl DeepView for Phase2Token {
    type V = Phase2View;

    open spec fn deep_view(&self) -> Phase2View {
        self.view()
    }
}

impl View for CompilationToken {
    type V = CompilationTokenView;

    open spec fn view(&self) -> CompilationTokenView {
        match self {
            CompilationToken::Phase1Token(t) => CompilationTokenView::Phase1(*t),
            CompilationToken::Phase2Token(t) => CompilationTokenView::Phase2(t@),
        }
    }
}

impl DeepView for CompilationToken {
    type V = CompilationTokenView;

    open spec fn deep_view(&self) -> CompilationTokenView {
        self.view()
    }
}

} // verus!
