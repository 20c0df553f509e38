//! The literal-expression compiler: splits a literal's text into
//! punctuation-sensitive sub-tokens and reduces them left-to-right on a
//! single stack, each incoming token combining with the entries below it.

use vstd::prelude::*;

use crate::decimal::{parse_usize, token_number};
use crate::errors::{ErrorView, Errors};
use crate::machine::to_signed;
use crate::position::Position;
use crate::strutil::{chars_vec, str_eq};
use crate::tokens::{CompilationToken, CompilationTokenView, Phase1Token, Phase2Token, Phase2View};
use vstd::string::StrSliceExecFns;

verus! {

/// The punctuation that separates sub-tokens of a literal expression.
pub open spec fn expr_sep(c: char) -> bool {
    c == ':' || c == '.' || c == '?' || c == '+' || c == '-' || c == '~'
}

/// The sub-tokens of `s[start..]`, scanning from position `i` with the
/// current run beginning at `start`: each separator is its own token, and
/// maximal runs between separators are tokens.
pub open spec fn split_expr_from(s: Seq<char>, i: int, start: int) -> Seq<Seq<char>>
    decreases s.len() - i,
{
    if i < 0 || start < 0 || start > i {
        Seq::empty()
    } else if i >= s.len() {
        if start < i {
            seq![s.subrange(start, i)]
        } else {
            Seq::empty()
        }
    } else if expr_sep(s[i]) {
        let run = if start < i {
            seq![s.subrange(start, i)]
        } else {
            Seq::empty()
        };
        run + seq![s.subrange(i, i + 1)] + split_expr_from(s, i + 1, i + 1)
    } else {
        split_expr_from(s, i + 1, start)
    }
}

/// The sub-tokens of a whole literal.
pub open spec fn spec_split_expr(s: Seq<char>) -> Seq<Seq<char>> {
    split_expr_from(s, 0, 0)
}

/// Splits a literal's text into sub-tokens.
pub fn split_expr(s: &str) -> (r: Vec<String>)
    ensures
        r.deep_view() == spec_split_expr(s@),
{
    let cs = chars_vec(s);
    let n = cs.len();
    let mut out: Vec<String> = Vec::new();
    let mut start: usize = 0;
    let mut i: usize = 0;
    while i < n
        invariant
            start <= i <= n,
            n == s@.len(),
            cs@ == s@,
            out.deep_view() + split_expr_from(s@, i as int, start as int) == spec_split_expr(s@),
        decreases n - i,
    {
        let c = cs[i];
        if c == ':' || c == '.' || c == '?' || c == '+' || c == '-' || c == '~' {
            let ghost dv0 = out.deep_view();
            if start < i {
                let run = s.substring_char(start, i).to_owned();
                out.push(run);
            }
            let sep = s.substring_char(i, i + 1).to_owned();
            out.push(sep);
            proof {
                if start < i {
                    assert(out.deep_view() =~= dv0 + seq![s@.subrange(start as int, i as int)]
                        + seq![s@.subrange(i as int, i + 1)]);
                    assert(out.deep_view() + split_expr_from(s@, i + 1, i + 1) =~= dv0
                        + split_expr_from(s@, i as int, start as int));
                } else {
                    assert(out.deep_view() =~= dv0 + seq![s@.subrange(i as int, i + 1)]);
                    assert(out.deep_view() + split_expr_from(s@, i + 1, i + 1) =~= dv0
                        + split_expr_from(s@, i as int, start as int));
                }
            }
            start = i + 1;
        }
        i = i + 1;
    }
    if start < n {
        let ghost dv0 = out.deep_view();
        let run = s.substring_char(start, n).to_owned();
        out.push(run);
        proof {
            assert(out.deep_view() =~= dv0 + seq![s@.subrange(start as int, n as int)]);
            assert(out.deep_view() =~= spec_split_expr(s@));
        }
    } else {
        proof {
            assert(out.deep_view() =~= spec_split_expr(s@));
        }
    }
    out
}

/// How a reduction can fail: a range missing its starting number, or a token
/// arriving over a stack it cannot combine with.
pub ghost enum LexFail {
    MissingNumber,
    Cannot,
}

/// One reduction step of the literal-expression compiler: how the incoming
/// sub-token `t` combines with the top of the stack.
pub open spec fn lex_step(stack: Seq<CompilationTokenView>, t: Seq<char>) -> Result<
    Seq<CompilationTokenView>,
    LexFail,
> {
    if t == seq!['.'] {
        if stack.len() > 0 && stack.last() == CompilationTokenView::Phase1(Phase1Token::Dot) {
            let s1 = stack.drop_last();
            if s1.len() > 0 {
                match s1.last() {
                    CompilationTokenView::Phase2(Phase2View::Number(n)) => Ok(
                        s1.drop_last().push(
                            CompilationTokenView::Phase2(Phase2View::Range(n, None)),
                        ),
                    ),
                    _ => Err(LexFail::MissingNumber),
                }
            } else {
                Err(LexFail::MissingNumber)
            }
        } else if stack.len() > 0 {
            match stack.last() {
                CompilationTokenView::Phase2(Phase2View::Variable(v)) => Ok(
                    stack.drop_last().push(
                        CompilationTokenView::Phase2(Phase2View::VariableIndexed(v)),
                    ),
                ),
                _ => Ok(stack.push(CompilationTokenView::Phase1(Phase1Token::Dot))),
            }
        } else {
            Ok(stack.push(CompilationTokenView::Phase1(Phase1Token::Dot)))
        }
    } else if t == seq![':'] {
        if stack.len() > 0 {
            match stack.last() {
                CompilationTokenView::Phase2(Phase2View::Label(l, _added)) => Ok(
                    stack.drop_last().push(
                        CompilationTokenView::Phase2(Phase2View::LabelAssign(l)),
                    ),
                ),
                _ => Err(LexFail::Cannot),
            }
        } else {
            Err(LexFail::Cannot)
        }
    } else if t == seq!['~'] {
        Ok(stack.push(CompilationTokenView::Phase1(Phase1Token::Relative)))
    } else if t == seq!['+'] {
        Ok(stack.push(CompilationTokenView::Phase1(Phase1Token::NumberSign(false))))
    } else if t == seq!['-'] {
        Ok(stack.push(CompilationTokenView::Phase1(Phase1Token::NumberSign(true))))
    } else if t == seq!['?'] {
        Ok(stack.push(CompilationTokenView::Phase1(Phase1Token::QuestionMark)))
    } else {
        match token_number(t) {
            Some(n) => lex_step_number(stack, n),
            None => {
                if t.len() > 0 && t[0] == '\'' {
                    let name = t.drop_first();
                    if stack.len() > 0 && stack.last() == CompilationTokenView::Phase1(
                        Phase1Token::QuestionMark,
                    ) {
                        Ok(
                            stack.drop_last().push(
                                CompilationTokenView::Phase2(Phase2View::OrLabel(name, 0)),
                            ),
                        )
                    } else {
                        Ok(stack.push(CompilationTokenView::Phase2(Phase2View::Label(name, 0))))
                    }
                } else {
                    Ok(stack.push(CompilationTokenView::Phase2(Phase2View::Variable(t))))
                }
            },
        }
    }
}

/// How an unsigned number combines with the stack: it may close a default,
/// extend a range, or apply a waiting sign to the entry below it.
pub open spec fn lex_step_number(stack: Seq<CompilationTokenView>, n: int) -> Result<
    Seq<CompilationTokenView>,
    LexFail,
> {
    if stack.len() == 0 {
        Ok(stack.push(CompilationTokenView::Phase2(Phase2View::Number(to_signed(n)))))
    } else {
        match stack.last() {
            CompilationTokenView::Phase1(Phase1Token::QuestionMark) => Ok(
                stack.drop_last().push(CompilationTokenView::Phase2(Phase2View::Or(n))),
            ),
            CompilationTokenView::Phase2(Phase2View::Range(start, _end)) => Ok(
                stack.drop_last().push(
                    CompilationTokenView::Phase2(Phase2View::Range(start, Some(to_signed(n)))),
                ),
            ),
            CompilationTokenView::Phase1(Phase1Token::NumberSign(sign)) => lex_step_signed(
                stack.drop_last(),
                n,
                sign,
            ),
            CompilationTokenView::Phase2(Phase2View::VariableIndexed(_)) => Ok(
                stack.push(CompilationTokenView::Phase2(Phase2View::Number(to_signed(n)))),
            ),
            CompilationTokenView::Phase2(Phase2View::LabelAssign(_)) => Ok(
                stack.push(CompilationTokenView::Phase2(Phase2View::Number(to_signed(n)))),
            ),
            _ => Err(LexFail::Cannot),
        }
    }
}

/// How a signed number combines with the entry below the consumed sign.
pub open spec fn lex_step_signed(stack: Seq<CompilationTokenView>, n: int, sign: bool) -> Result<
    Seq<CompilationTokenView>,
    LexFail,
> {
    if stack.len() == 0 {
        Err(LexFail::Cannot)
    } else {
        match stack.last() {
            CompilationTokenView::Phase2(Phase2View::OrRelative(added)) => Ok(
                stack.drop_last().push(
                    CompilationTokenView::Phase2(
                        Phase2View::OrRelative(signed_combine(added, n, sign)),
                    ),
                ),
            ),
            CompilationTokenView::Phase1(Phase1Token::Relative) => {
                let s1 = stack.drop_last();
                let v = if sign {
                    to_signed(-to_signed(n))
                } else {
                    to_signed(n)
                };
                if s1.len() > 0 && s1.last() == CompilationTokenView::Phase1(
                    Phase1Token::QuestionMark,
                ) {
                    Ok(s1.drop_last().push(CompilationTokenView::Phase2(Phase2View::OrRelative(v))))
                } else {
                    Ok(s1.push(CompilationTokenView::Phase2(Phase2View::Relative(v))))
                }
            },
            CompilationTokenView::Phase2(Phase2View::Label(l, added)) => Ok(
                stack.drop_last().push(
                    CompilationTokenView::Phase2(
                        Phase2View::Label(l, signed_combine(added, n, sign)),
                    ),
                ),
            ),
            CompilationTokenView::Phase2(Phase2View::OrLabel(l, added)) => Ok(
                stack.drop_last().push(
                    CompilationTokenView::Phase2(
                        Phase2View::OrLabel(l, signed_combine(added, n, sign)),
                    ),
                ),
            ),
            CompilationTokenView::Phase2(Phase2View::Number(m)) => Ok(
                stack.drop_last().push(
                    CompilationTokenView::Phase2(Phase2View::Number(to_signed(to_signed(n) + m))),
                ),
            ),
            CompilationTokenView::Phase2(Phase2View::Range(start, end)) => {
                let base = match end {
                    Some(e) => e,
                    None => 0,
                };
                Ok(
                    stack.drop_last().push(
                        CompilationTokenView::Phase2(
                            Phase2View::Range(start, Some(to_signed(base + to_signed(n)))),
                        ),
                    ),
                )
            },
            _ => Err(LexFail::Cannot),
        }
    }
}

/// The wrapped sum or difference of an accumulated offset and a number.
pub open spec fn signed_combine(added: int, n: int, sign: bool) -> int {
    if sign {
        to_signed(added - to_signed(n))
    } else {
        to_signed(added + to_signed(n))
    }
}

/// The reduction machine run over a whole token list.
pub open spec fn lex_tokens(stack: Seq<CompilationTokenView>, tokens: Seq<Seq<char>>) -> Result<
    Seq<CompilationTokenView>,
    LexFail,
>
    decreases tokens.len(),
{
    if tokens.len() == 0 {
        Ok(stack)
    } else {
        match lex_step(stack, tokens[0]) {
            Ok(s) => lex_tokens(s, tokens.drop_first()),
            Err(f) => Err(f),
        }
    }
}

/// The stack the literal's text reduces to, or how the reduction fails.
pub open spec fn spec_compile_tokens(s: Seq<char>) -> Result<Seq<CompilationTokenView>, LexFail> {
    lex_tokens(Seq::empty(), spec_split_expr(s))
}

/// The error reported for a failed reduction of `literal`.
pub open spec fn lex_fail_error(f: LexFail, literal: Seq<char>, position: Position) -> ErrorView {
    match f {
        LexFail::MissingNumber => ErrorView::SelfExpressionMissingNumber {
            expression: literal,
            position,
        },
        LexFail::Cannot => ErrorView::ExpressionCompilingError { expression: literal, position },
    }
}

/// Compiles a literal's text to its reduced stack: the result promised by
/// [`spec_compile_tokens`].
pub fn compile(literal: &str, position: &Position) -> (r: Result<Vec<CompilationToken>, Errors>)
    ensures
        match r {
            Ok(v) => spec_compile_tokens(literal@) == Ok::<Seq<CompilationTokenView>, LexFail>(
                v.deep_view(),
            ),
            Err(e) => spec_compile_tokens(literal@) matches Err(f) && e@ == lex_fail_error(
                f,
                literal@,
                *position,
            ),
        },
{
    let tokens = split_expr(literal);
    let ghost all = tokens.deep_view();
    let mut output: Vec<CompilationToken> = Vec::new();
    let mut ti: usize = 0;
    proof {
        assert(all.skip(0) =~= all);
        assert(output.deep_view() =~= Seq::<CompilationTokenView>::empty());
    }
    while ti < tokens.len()
        invariant
            ti <= tokens@.len(),
            all == tokens.deep_view(),
            all.len() == tokens@.len(),
            spec_compile_tokens(literal@) == lex_tokens(output.deep_view(), all.skip(ti as int)),
        decreases tokens@.len() - ti,
    {
        proof {
            assert(all.skip(ti as int)[0] == all[ti as int]);
            assert(all.skip(ti as int).drop_first() =~= all.skip(ti + 1));
        }
        let t = &tokens[ti];
        match lex_exec_step(&mut output, t) {
            Ok(()) => {},
            Err(f) => {
                return Err(
                    match f {
                        LexFailKind::MissingNumber => Errors::SelfExpressionMissingNumber {
                            expression: literal.to_owned(),
                            position: *position,
                        },
                        LexFailKind::Cannot => Errors::ExpressionCompilingError {
                            expression: literal.to_owned(),
                            position: *position,
                        },
                    },
                );
            },
        }
        ti = ti + 1;
    }
    proof {
        assert(all.skip(ti as int).len() == 0);
    }
    Ok(output)
}

/// The runtime tag for a failed reduction.
pub enum LexFailKind {
    MissingNumber,
    Cannot,
}

impl View for LexFailKind {
    type V = LexFail;

    open spec fn view(&self) -> LexFail {
        match self {
            LexFailKind::MissingNumber => LexFail::MissingNumber,
            LexFailKind::Cannot => LexFail::Cannot,
        }
    }
}

/// Applies one reduction step to the live stack. On failure the stack is
/// abandoned by the caller.
fn lex_exec_step(stack: &mut Vec<CompilationToken>, t: &String) -> (r: Result<(), LexFailKind>)
    ensures
        match r {
            Ok(()) => lex_step(old(stack).deep_view(), t@) == Ok::<
                Seq<CompilationTokenView>,
                LexFail,
            >(final(stack).deep_view()),
            Err(f) => lex_step(old(stack).deep_view(), t@) == Err::<
                Seq<CompilationTokenView>,
                LexFail,
            >(f@),
        },
{
    proof {
        reveal_strlit(".");
        reveal_strlit(":");
        reveal_strlit("~");
        reveal_strlit("+");
        reveal_strlit("-");
        reveal_strlit("?");
        assert("."@ =~= seq!['.']);
        assert(":"@ =~= seq![':']);
        assert("~"@ =~= seq!['~']);
        assert("+"@ =~= seq!['+']);
        assert("-"@ =~= seq!['-']);
        assert("?"@ =~= seq!['?']);
    }
    let ghost s0 = stack.deep_view();
    if str_eq(t.as_str(), ".") {
        lex_exec_dot(stack)
    } else if str_eq(t.as_str(), ":") {
        lex_exec_colon(stack)
    } else if str_eq(t.as_str(), "~") {
        stack.push(CompilationToken::Phase1Token(Phase1Token::Relative));
        proof {
            assert(stack.deep_view() =~= s0.push(
                CompilationTokenView::Phase1(Phase1Token::Relative),
            ));
        }
        Ok(())
    } else if str_eq(t.as_str(), "+") {
        stack.push(CompilationToken::Phase1Token(Phase1Token::NumberSign(false)));
        proof {
            assert(stack.deep_view() =~= s0.push(
                CompilationTokenView::Phase1(Phase1Token::NumberSign(false)),
            ));
        }
        Ok(())
    } else if str_eq(t.as_str(), "-") {
        stack.push(CompilationToken::Phase1Token(Phase1Token::NumberSign(true)));
        proof {
            assert(stack.deep_view() =~= s0.push(
                CompilationTokenView::Phase1(Phase1Token::NumberSign(true)),
            ));
        }
        Ok(())
    } else if str_eq(t.as_str(), "?") {
        stack.push(CompilationToken::Phase1Token(Phase1Token::QuestionMark));
        proof {
            assert(stack.deep_view() =~= s0.push(
                CompilationTokenView::Phase1(Phase1Token::QuestionMark),
            ));
        }
        Ok(())
    } else {
        let cs = chars_vec(t.as_str());
        match parse_usize(&cs) {
            Some(n) => lex_exec_number(stack, n),
            None => {
                let quoted = cs.len() > 0 && cs[0] == '\'';
                if quoted {
                    let name = t.as_str().substring_char(1, cs.len()).to_owned();
                    proof {
                        assert(name@ =~= t@.drop_first());
                        assert(seq!['\''] + name@ =~= t@);
                    }
                    lex_exec_quote(stack, name)
                } else {
                    stack.push(CompilationToken::Phase2Token(Phase2Token::Variable(t.clone())));
                    proof {
                        assert(stack.deep_view() =~= s0.push(
                            CompilationTokenView::Phase2(Phase2View::Variable(t@)),
                        ));
                    }
                    Ok(())
                }
            },
        }
    }
}

/// Reduces an incoming `.`: closes `n..`, marks an indexed variable, or
/// waits on the stack.
fn lex_exec_dot(stack: &mut Vec<CompilationToken>) -> (r: Result<(), LexFailKind>)
    ensures
        match r {
            Ok(()) => lex_step(old(stack).deep_view(), seq!['.']) == Ok::<
                Seq<CompilationTokenView>,
                LexFail,
            >(final(stack).deep_view()),
            Err(f) => lex_step(old(stack).deep_view(), seq!['.']) == Err::<
                Seq<CompilationTokenView>,
                LexFail,
            >(f@),
        },
{
    let ghost s0 = stack.deep_view();
    match stack.pop() {
        Some(CompilationToken::Phase1Token(Phase1Token::Dot)) => {
            proof {
                assert(stack.deep_view() =~= s0.drop_last());
            }
            let ghost s1 = stack.deep_view();
            match stack.pop() {
                Some(CompilationToken::Phase2Token(Phase2Token::Number(num))) => {
                    proof {
                        assert(stack.deep_view() =~= s1.drop_last());
                    }
                    let ghost s2 = stack.deep_view();
                    stack.push(CompilationToken::Phase2Token(Phase2Token::Range(num, None)));
                    proof {
                        assert(stack.deep_view() =~= s2.push(
                            CompilationTokenView::Phase2(Phase2View::Range(num as int, None)),
                        ));
                    }
                    Ok(())
                },
                Some(_) => Err(LexFailKind::MissingNumber),
                None => Err(LexFailKind::MissingNumber),
            }
        },
        Some(CompilationToken::Phase2Token(Phase2Token::Variable(v))) => {
            proof {
                assert(stack.deep_view() =~= s0.drop_last());
            }
            let ghost s1 = stack.deep_view();
            let ghost vv = v@;
            stack.push(CompilationToken::Phase2Token(Phase2Token::VariableIndexed(v)));
            proof {
                assert(stack.deep_view() =~= s1.push(
                    CompilationTokenView::Phase2(Phase2View::VariableIndexed(vv)),
                ));
            }
            Ok(())
        },
        Some(other) => {
            proof {
                assert(stack.deep_view() =~= s0.drop_last());
            }
            let ghost ov = other.deep_view();
            stack.push(other);
            stack.push(CompilationToken::Phase1Token(Phase1Token::Dot));
            proof {
                assert(stack.deep_view() =~= s0.drop_last().push(ov).push(
                    CompilationTokenView::Phase1(Phase1Token::Dot),
                ));
                assert(s0.drop_last().push(ov) =~= s0);
                assert(stack.deep_view() =~= s0.push(
                    CompilationTokenView::Phase1(Phase1Token::Dot),
                ));
            }
            Ok(())
        },
        None => {
            stack.push(CompilationToken::Phase1Token(Phase1Token::Dot));
            proof {
                assert(stack.deep_view() =~= s0.push(
                    CompilationTokenView::Phase1(Phase1Token::Dot),
                ));
            }
            Ok(())
        },
    }
}

/// Reduces an incoming `:`: turns a label reference into a declaration.
fn lex_exec_colon(stack: &mut Vec<CompilationToken>) -> (r: Result<(), LexFailKind>)
    ensures
        match r {
            Ok(()) => lex_step(old(stack).deep_view(), seq![':']) == Ok::<
                Seq<CompilationTokenView>,
                LexFail,
            >(final(stack).deep_view()),
            Err(f) => lex_step(old(stack).deep_view(), seq![':']) == Err::<
                Seq<CompilationTokenView>,
                LexFail,
            >(f@),
        },
{
    proof {
        assert(seq![':'][0] == ':');
        assert(seq!['.'][0] == '.');
        assert(seq![':'] != seq!['.']) by {
            if seq![':'] == seq!['.'] {
                assert(seq![':'][0] == seq!['.'][0]);
            }
        }
    }
    let ghost s0 = stack.deep_view();
    match stack.pop() {
        Some(CompilationToken::Phase2Token(Phase2Token::Label(l, _added))) => {
            proof {
                assert(stack.deep_view() =~= s0.drop_last());
            }
            let ghost s1 = stack.deep_view();
            let ghost lv = l@;
            stack.push(CompilationToken::Phase2Token(Phase2Token::LabelAssign(l)));
            proof {
                assert(stack.deep_view() =~= s1.push(
                    CompilationTokenView::Phase2(Phase2View::LabelAssign(lv)),
                ));
            }
            Ok(())
        },
        Some(_) => Err(LexFailKind::Cannot),
        None => Err(LexFailKind::Cannot),
    }
}

/// Reduces an incoming unsigned number against the stack.
fn lex_exec_number(stack: &mut Vec<CompilationToken>, n: usize) -> (r: Result<(), LexFailKind>)
    ensures
        match r {
            Ok(()) => lex_step_number(old(stack).deep_view(), n as int) == Ok::<
                Seq<CompilationTokenView>,
                LexFail,
            >(final(stack).deep_view()),
            Err(f) => lex_step_number(old(stack).deep_view(), n as int) == Err::<
                Seq<CompilationTokenView>,
                LexFail,
            >(f@),
        },
{
    let ghost s0 = stack.deep_view();
    match stack.pop() {
        None => {
            let v = crate::machine::usize_as_isize(n);
            stack.push(CompilationToken::Phase2Token(Phase2Token::Number(v)));
            proof {
                assert(stack.deep_view() =~= s0.push(
                    CompilationTokenView::Phase2(Phase2View::Number(to_signed(n as int))),
                ));
            }
            Ok(())
        },
        Some(top) => {
            proof {
                assert(stack.deep_view() =~= s0.drop_last());
            }
            let ghost s1 = stack.deep_view();
            match top {
                CompilationToken::Phase1Token(Phase1Token::QuestionMark) => {
                    stack.push(CompilationToken::Phase2Token(Phase2Token::Or(n)));
                    proof {
                        assert(stack.deep_view() =~= s1.push(
                            CompilationTokenView::Phase2(Phase2View::Or(n as int)),
                        ));
                    }
                    Ok(())
                },
                CompilationToken::Phase2Token(Phase2Token::Range(start, _end)) => {
                    let v = crate::machine::usize_as_isize(n);
                    stack.push(
                        CompilationToken::Phase2Token(Phase2Token::Range(start, Some(v))),
                    );
                    proof {
                        assert(stack.deep_view() =~= s1.push(
                            CompilationTokenView::Phase2(
                                Phase2View::Range(start as int, Some(to_signed(n as int))),
                            ),
                        ));
                    }
                    Ok(())
                },
                CompilationToken::Phase1Token(Phase1Token::NumberSign(sign)) => {
                    lex_exec_signed(stack, n, sign)
                },
                CompilationToken::Phase2Token(Phase2Token::VariableIndexed(vi)) => {
                    let v = crate::machine::usize_as_isize(n);
                    let ghost viv = vi@;
                    stack.push(CompilationToken::Phase2Token(Phase2Token::VariableIndexed(vi)));
                    stack.push(CompilationToken::Phase2Token(Phase2Token::Number(v)));
                    proof {
                        assert(s1.push(CompilationTokenView::Phase2(Phase2View::VariableIndexed(viv)))
                            =~= s0);
                        assert(stack.deep_view() =~= s0.push(
                            CompilationTokenView::Phase2(Phase2View::Number(to_signed(n as int))),
                        ));
                    }
                    Ok(())
                },
                CompilationToken::Phase2Token(Phase2Token::LabelAssign(la)) => {
                    let v = crate::machine::usize_as_isize(n);
                    let ghost lav = la@;
                    stack.push(CompilationToken::Phase2Token(Phase2Token::LabelAssign(la)));
                    stack.push(CompilationToken::Phase2Token(Phase2Token::Number(v)));
                    proof {
                        assert(s1.push(CompilationTokenView::Phase2(Phase2View::LabelAssign(lav)))
                            =~= s0);
                        assert(stack.deep_view() =~= s0.push(
                            CompilationTokenView::Phase2(Phase2View::Number(to_signed(n as int))),
                        ));
                    }
                    Ok(())
                },
                _ => Err(LexFailKind::Cannot),
            }
        },
    }
}

/// Reduces a signed number against the entry below the consumed sign.
fn lex_exec_signed(stack: &mut Vec<CompilationToken>, n: usize, sign: bool) -> (r: Result<
    (),
    LexFailKind,
>)
    ensures
        match r {
            Ok(()) => lex_step_signed(old(stack).deep_view(), n as int, sign) == Ok::<
                Seq<CompilationTokenView>,
                LexFail,
            >(final(stack).deep_view()),
            Err(f) => lex_step_signed(old(stack).deep_view(), n as int, sign) == Err::<
                Seq<CompilationTokenView>,
                LexFail,
            >(f@),
        },
{
    let ghost s0 = stack.deep_view();
    match stack.pop() {
        None => Err(LexFailKind::Cannot),
        Some(top) => {
            proof {
                assert(stack.deep_view() =~= s0.drop_last());
            }
            let ghost s1 = stack.deep_view();
            match top {
                CompilationToken::Phase2Token(Phase2Token::OrRelative(added)) => {
                    let v = combine_signed(added, n, sign);
                    stack.push(CompilationToken::Phase2Token(Phase2Token::OrRelative(v)));
                    proof {
                        assert(stack.deep_view() =~= s1.push(
                            CompilationTokenView::Phase2(
                                Phase2View::OrRelative(signed_combine(added as int, n as int, sign)),
                            ),
                        ));
                    }
                    Ok(())
                },
                CompilationToken::Phase1Token(Phase1Token::Relative) => {
                    let u = crate::machine::usize_as_isize(n);
                    let v = if sign {
                        crate::machine::wrap_neg(u)
                    } else {
                        u
                    };
                    let ghost vv = if sign {
                        to_signed(-to_signed(n as int))
                    } else {
                        to_signed(n as int)
                    };
                    proof {
                        assert(v as int == vv);
                    }
                    let mut top_is_question = false;
                    if stack.len() > 0 {
                        match &stack[stack.len() - 1] {
                            CompilationToken::Phase1Token(Phase1Token::QuestionMark) => {
                                top_is_question = true;
                            },
                            _ => {},
                        }
                    }
                    if top_is_question {
                        stack.pop();
                        proof {
                            assert(stack.deep_view() =~= s1.drop_last());
                        }
                        let ghost s2 = stack.deep_view();
                        stack.push(CompilationToken::Phase2Token(Phase2Token::OrRelative(v)));
                        proof {
                            assert(stack.deep_view() =~= s2.push(
                                CompilationTokenView::Phase2(Phase2View::OrRelative(vv)),
                            ));
                        }
                        Ok(())
                    } else {
                        stack.push(CompilationToken::Phase2Token(Phase2Token::Relative(v)));
                        proof {
                            assert(stack.deep_view() =~= s1.push(
                                CompilationTokenView::Phase2(Phase2View::Relative(vv)),
                            ));
                        }
                        Ok(())
                    }
                },
                CompilationToken::Phase2Token(Phase2Token::Label(l, added)) => {
                    let v = combine_signed(added, n, sign);
                    let ghost lv = l@;
                    stack.push(CompilationToken::Phase2Token(Phase2Token::Label(l, v)));
                    proof {
                        assert(stack.deep_view() =~= s1.push(
                            CompilationTokenView::Phase2(
                                Phase2View::Label(lv, signed_combine(added as int, n as int, sign)),
                            ),
                        ));
                    }
                    Ok(())
                },
                CompilationToken::Phase2Token(Phase2Token::OrLabel(l, added)) => {
                    let v = combine_signed(added, n, sign);
                    let ghost lv = l@;
                    stack.push(CompilationToken::Phase2Token(Phase2Token::OrLabel(l, v)));
                    proof {
                        assert(stack.deep_view() =~= s1.push(
                            CompilationTokenView::Phase2(
                                Phase2View::OrLabel(lv, signed_combine(added as int, n as int, sign)),
                            ),
                        ));
                    }
                    Ok(())
                },
                CompilationToken::Phase2Token(Phase2Token::Number(m)) => {
                    let u = crate::machine::usize_as_isize(n);
                    let v = crate::machine::wrap_add(u, m);
                    stack.push(CompilationToken::Phase2Token(Phase2Token::Number(v)));
                    proof {
                        assert(stack.deep_view() =~= s1.push(
                            CompilationTokenView::Phase2(
                                Phase2View::Number(to_signed(to_signed(n as int) + m as int)),
                            ),
                        ));
                    }
                    Ok(())
                },
                CompilationToken::Phase2Token(Phase2Token::Range(start, end)) => {
                    let base: isize = match end {
                        Some(e) => e,
                        None => 0,
                    };
                    let u = crate::machine::usize_as_isize(n);
                    let v = crate::machine::wrap_add(base, u);
                    stack.push(
                        CompilationToken::Phase2Token(Phase2Token::Range(start, Some(v))),
                    );
                    proof {
                        assert(stack.deep_view() =~= s1.push(
                            CompilationTokenView::Phase2(
                                Phase2View::Range(
                                    start as int,
                                    Some(to_signed(base + to_signed(n as int))),
                                ),
                            ),
                        ));
                    }
                    Ok(())
                },
                _ => Err(LexFailKind::Cannot),
            }
        },
    }
}

/// The wrapped sum or difference of an accumulated offset and an unsigned
/// number, as the reduction machine combines them.
fn combine_signed(added: isize, n: usize, sign: bool) -> (r: isize)
    ensures
        r as int == signed_combine(added as int, n as int, sign),
{
    let u = crate::machine::usize_as_isize(n);
    if sign {
        crate::machine::wrap_sub(added, u)
    } else {
        crate::machine::wrap_add(added, u)
    }
}

/// Reduces an incoming label token `'name`: a default after `?`, a reference
/// otherwise.
fn lex_exec_quote(stack: &mut Vec<CompilationToken>, name: String) -> (r: Result<(), LexFailKind>)
    ensures
        r is Ok && lex_step(old(stack).deep_view(), seq!['\''] + name@) == Ok::<
            Seq<CompilationTokenView>,
            LexFail,
        >(final(stack).deep_view()),
{
    let ghost s0 = stack.deep_view();
    let ghost t = seq!['\''] + name@;
    proof {
        assert(t.len() > 0 && t[0] == '\'');
        assert(t.drop_first() =~= name@);
        assert(!(t == seq!['.']) && !(t == seq![':']) && !(t == seq!['~']) && !(t == seq!['+']) && !(
        t == seq!['-']) && !(t == seq!['?']));
        assert(!crate::decimal::is_digit(t[0]));
        assert(token_number(t) is None);
    }
    let top_is_question = if stack.len() > 0 {
        match &stack[stack.len() - 1] {
            CompilationToken::Phase1Token(Phase1Token::QuestionMark) => true,
            _ => false,
        }
    } else {
        false
    };
    let ghost nv = name@;
    if top_is_question {
        stack.pop();
        proof {
            assert(stack.deep_view() =~= s0.drop_last());
        }
        let ghost s1 = stack.deep_view();
        stack.push(CompilationToken::Phase2Token(Phase2Token::OrLabel(name, 0)));
        proof {
            assert(stack.deep_view() =~= s1.push(
                CompilationTokenView::Phase2(Phase2View::OrLabel(nv, 0)),
            ));
        }
    } else {
        stack.push(CompilationToken::Phase2Token(Phase2Token::Label(name, 0)));
        proof {
            assert(stack.deep_view() =~= s0.push(
                CompilationTokenView::Phase2(Phase2View::Label(nv, 0)),
            ));
        }
    }
    Ok(())
}

} // verus!
