//! The grouping stage: matches parentheses and brackets at depth zero,
//! recursively grouping what they enclose, and attaches a lone `=` to the
//! literal before it.

use vstd::prelude::*;

use crate::errors::{ErrorView, Errors};
use crate::position::{spec_merge, Position};
use crate::stage1::{all_space, Stage1Token, Stage1View};

verus! {

/// One grouped token: a tree over the lexed tokens.
#[derive(Debug)]
pub enum Stage2Token {
    Block(Position, Vec<Stage2Token>),
    Parenthesis(Position, Vec<Stage2Token>),
    Literal(Position, String),
    Assignement(Position, String),
}

/// The mathematical image of a [`Stage2Token`].
#[verifier::ext_equal]
pub ghost enum Stage2View {
    Block(Position, Seq<Stage2View>),
    Parenthesis(Position, Seq<Stage2View>),
    Literal(Position, Seq<char>),
    Assignement(Position, Seq<char>),
}

/// The image of a grouped token.
pub open spec fn s2_view(t: Stage2Token) -> Stage2View
    decreases t, 0int,
{
    match t {
        Stage2Token::Block(p, children) => Stage2View::Block(p, s2_views_from(children@, 0)),
        Stage2Token::Parenthesis(p, children) => Stage2View::Parenthesis(
            p,
            s2_views_from(children@, 0),
        ),
        Stage2Token::Literal(p, s) => Stage2View::Literal(p, s@),
        Stage2Token::Assignement(p, s) => Stage2View::Assignement(p, s@),
    }
}

/// The images of the grouped tokens of `s`, from position `i` on.
pub open spec fn s2_views_from(s: Seq<Stage2Token>, i: int) -> Seq<Stage2View>
    decreases s, s.len() - i,
{
    if i < 0 || i >= s.len() {
        Seq::empty()
    } else {
        seq![s2_view(s[i])] + s2_views_from(s, i + 1)
    }
}

impl View for Stage2Token {
    type V = Stage2View;

    open spec fn view(&self) -> Stage2View {
        s2_view(*self)
    }
}

impl DeepView for Stage2Token {
    type V = Stage2View;

    open spec fn deep_view(&self) -> Stage2View {
        s2_view(*self)
    }
}

/// The recursive image list agrees with the element-wise deep view.
pub proof fn lemma_s2_views_from(s: Seq<Stage2Token>, i: int)
    requires
        0 <= i <= s.len(),
    ensures
        s2_views_from(s, i).len() == s.len() - i,
        forall|j: int|
            0 <= j < s.len() - i ==> s2_views_from(s, i)[j] == s2_view(s[i + j]),
    decreases s.len() - i,
{
    if i < s.len() {
        lemma_s2_views_from(s, i + 1);
        assert forall|j: int|
            0 <= j < s.len() - i implies s2_views_from(s, i)[j] == s2_view(s[i + j]) by {
            if j > 0 {
                assert(s2_views_from(s, i)[j] == s2_views_from(s, i + 1)[j - 1]);
            }
        }
    }
}

/// The deep view of a grouped token vector is its recursive image list.
pub proof fn lemma_s2_deep_view(v: Seq<Stage2Token>)
    ensures
        v.map(|i: int, t: Stage2Token| t.deep_view()) =~= s2_views_from(v, 0),
        Seq::new(v.len(), |i: int| v[i].deep_view()) =~= s2_views_from(v, 0),
{
    lemma_s2_views_from(v, 0);
}

/// The grouping machine's state: the finished tokens, the parenthesis and
/// bracket depths, the tokens buffered inside the open group, and the span
/// of the group's opener.
#[verifier::ext_equal]
pub ghost struct GroupState {
    pub v: Seq<Stage2View>,
    pub in_p: int,
    pub in_b: int,
    pub p: Seq<Stage1View>,
    pub caret: Option<Position>,
}

/// The machine's starting state.
pub open spec fn group_init() -> GroupState {
    GroupState { v: Seq::empty(), in_p: 0, in_b: 0, p: Seq::empty(), caret: None }
}

/// The span recorded for the current group's opener, or `fallback`.
pub open spec fn caret_or(caret: Option<Position>, fallback: Position) -> Position {
    match caret {
        Some(c) => c,
        None => fallback,
    }
}

/// The grouping machine: one step per lexed token. Tokens inside an open
/// group are buffered and grouped recursively when it closes; a `=` at depth
/// zero replaces the literal before it by an assignment mark.
pub open spec fn stage2_scan(tokens: Seq<Stage1View>, st: GroupState) -> Result<
    Seq<Stage2View>,
    ErrorView,
>
    decreases tokens.len() + st.p.len(), tokens.len(),
{
    if tokens.len() <= 0 {
        Ok(st.v)
    } else {
        let rest = tokens.drop_first();
        match tokens[0] {
            Stage1View::OpenParenthesis(pos) => if st.in_b == 0 {
                if st.in_p + 1 != 1 {
                    stage2_scan(
                        rest,
                        GroupState { in_p: st.in_p + 1, p: st.p.push(tokens[0]), ..st },
                    )
                } else {
                    stage2_scan(rest, GroupState { in_p: st.in_p + 1, caret: Some(pos), ..st })
                }
            } else {
                stage2_scan(rest, GroupState { p: st.p.push(tokens[0]), ..st })
            },
            Stage1View::CloseParenthesis(pos) => if st.in_b == 0 {
                if st.in_p - 1 == 0 {
                    match stage2_scan(st.p, group_init()) {
                        Err(e) => Err(e),
                        Ok(children) => stage2_scan(
                            rest,
                            GroupState {
                                in_p: st.in_p - 1,
                                v: st.v.push(
                                    Stage2View::Parenthesis(
                                        spec_merge(caret_or(st.caret, pos), pos),
                                        children,
                                    ),
                                ),
                                p: Seq::empty(),
                                ..st
                            },
                        ),
                    }
                } else {
                    stage2_scan(
                        rest,
                        GroupState { in_p: st.in_p - 1, p: st.p.push(tokens[0]), ..st },
                    )
                }
            } else {
                stage2_scan(rest, GroupState { p: st.p.push(tokens[0]), ..st })
            },
            Stage1View::Literal(pos, text) => if all_space(text) {
                stage2_scan(rest, st)
            } else if st.in_p == 0 && st.in_b == 0 {
                stage2_scan(
                    rest,
                    GroupState { v: st.v.push(Stage2View::Literal(pos, text)), ..st },
                )
            } else {
                stage2_scan(rest, GroupState { p: st.p.push(tokens[0]), ..st })
            },
            Stage1View::OpenBrackets(pos) => if st.in_p == 0 {
                if st.in_b + 1 != 1 {
                    stage2_scan(
                        rest,
                        GroupState { in_b: st.in_b + 1, p: st.p.push(tokens[0]), ..st },
                    )
                } else {
                    stage2_scan(rest, GroupState { in_b: st.in_b + 1, caret: Some(pos), ..st })
                }
            } else {
                stage2_scan(rest, GroupState { p: st.p.push(tokens[0]), ..st })
            },
            Stage1View::CloseBrackets(pos) => if st.in_p == 0 {
                if st.in_b - 1 == 0 {
                    match stage2_scan(st.p, group_init()) {
                        Err(e) => Err(e),
                        Ok(children) => stage2_scan(
                            rest,
                            GroupState {
                                in_b: st.in_b - 1,
                                v: st.v.push(
                                    Stage2View::Block(
                                        spec_merge(caret_or(st.caret, pos), pos),
                                        children,
                                    ),
                                ),
                                p: Seq::empty(),
                                ..st
                            },
                        ),
                    }
                } else {
                    stage2_scan(
                        rest,
                        GroupState { in_b: st.in_b - 1, p: st.p.push(tokens[0]), ..st },
                    )
                }
            } else {
                stage2_scan(rest, GroupState { p: st.p.push(tokens[0]), ..st })
            },
            Stage1View::Equals(pos) => if st.in_p == 0 && st.in_b == 0 {
                if st.v.len() > 0 && st.v.last() is Literal {
                    let lit_pos = st.v.last()->Literal_0;
                    let text = st.v.last()->Literal_1;
                    stage2_scan(
                        rest,
                        GroupState {
                            v: st.v.drop_last().push(
                                Stage2View::Assignement(spec_merge(pos, lit_pos), text),
                            ),
                            ..st
                        },
                    )
                } else {
                    Err(ErrorView::EqualNotPrecededByLitteral { position: pos })
                }
            } else {
                stage2_scan(rest, GroupState { p: st.p.push(tokens[0]), ..st })
            },
        }
    }
}

/// The grouped tree of a lexed token list.
pub open spec fn spec_stage2(tokens: Seq<Stage1View>) -> Result<Seq<Stage2View>, ErrorView> {
    stage2_scan(tokens, group_init())
}

impl Stage1Token {
    /// A fresh copy of this token.
    pub fn duplicate(&self) -> (r: Stage1Token)
        ensures
            r@ == self@,
    {
        match self {
            Stage1Token::Literal(p, s) => Stage1Token::Literal(*p, s.clone()),
            Stage1Token::OpenParenthesis(p) => Stage1Token::OpenParenthesis(*p),
            Stage1Token::CloseParenthesis(p) => Stage1Token::CloseParenthesis(*p),
            Stage1Token::OpenBrackets(p) => Stage1Token::OpenBrackets(*p),
            Stage1Token::CloseBrackets(p) => Stage1Token::CloseBrackets(*p),
            Stage1Token::Equals(p) => Stage1Token::Equals(*p),
        }
    }
}

/// Groups a lexed token list into a tree: the result promised by
/// [`spec_stage2`].
#[verifier::rlimit(100)]
pub fn compile(token: &[Stage1Token]) -> (r: Result<Vec<Stage2Token>, Errors>)
    ensures
        match r {
            Ok(v) => spec_stage2(token.deep_view()) == Ok::<Seq<Stage2View>, ErrorView>(
                v.deep_view(),
            ),
            Err(e) => spec_stage2(token.deep_view()) == Err::<Seq<Stage2View>, ErrorView>(e@),
        },
    decreases token@.len(),
{
    let ghost all = token.deep_view();
    let mut v: Vec<Stage2Token> = Vec::new();
    let mut in_p: i128 = 0;
    let mut in_b: i128 = 0;
    let mut p: Vec<Stage1Token> = Vec::new();
    let mut caret: Option<Position> = None;
    let mut i: usize = 0;
    proof {
        assert(all.skip(0) =~= all);
        assert(v.deep_view() =~= Seq::<Stage2View>::empty());
        assert(p.deep_view() =~= Seq::<Stage1View>::empty());
        assert(exec_state(&v, in_p, in_b, &p, &caret) =~= group_init());
    }
    while i < token.len()
        invariant
            i <= token@.len(),
            all == token.deep_view(),
            all.len() == token@.len(),
            p@.len() <= i,
            -(i as int) <= in_p <= i as int,
            -(i as int) <= in_b <= i as int,
            spec_stage2(all) == stage2_scan(
                all.skip(i as int),
                exec_state(&v, in_p, in_b, &p, &caret),
            ),
        decreases token@.len() - i,
    {
        proof {
            assert(all.skip(i as int)[0] == all[i as int]);
            assert(all.skip(i as int).drop_first() =~= all.skip(i + 1));
        }
        let ghost st0 = exec_state(&v, in_p, in_b, &p, &caret);
        let t = &token[i];
        match t {
            Stage1Token::OpenParenthesis(position) => {
                let ghost pdv = p.deep_view();
                if in_b == 0 {
                    in_p = in_p + 1;
                    if in_p != 1 {
                        p.push(t.duplicate());
                        proof {
                            assert(p.deep_view() =~= pdv.push(all[i as int]));
                        }
                    } else {
                        caret = Some(*position);
                    }
                } else {
                    p.push(t.duplicate());
                    proof {
                        assert(p.deep_view() =~= pdv.push(all[i as int]));
                    }
                }
            },
            Stage1Token::CloseParenthesis(position) => {
                let ghost pdv = p.deep_view();
                if in_b == 0 {
                    in_p = in_p - 1;
                    if in_p == 0 {
                        let children = match compile(p.as_slice()) {
                            Ok(c) => c,
                            Err(e) => {
                                return Err(e);
                            },
                        };
                        let base = match &caret {
                            Some(c) => *c,
                            None => *position,
                        };
                        let ghost vdv = v.deep_view();
                        let ghost cv = children.deep_view();
                        let ghost cseq = children@;
                        let merged = base.merge(position);
                        v.push(Stage2Token::Parenthesis(merged, children));
                        proof {
                            lemma_s2_deep_view(cseq);
                            assert(cv =~= s2_views_from(cseq, 0));
                            assert(s2_view(v@[vdv.len() as int]) =~~= Stage2View::Parenthesis(
                                spec_merge(caret_or(st0.caret, *position), *position),
                                cv,
                            ));
                            assert(v.deep_view() =~= vdv.push(
                                Stage2View::Parenthesis(
                                    spec_merge(caret_or(st0.caret, *position), *position),
                                    cv,
                                ),
                            ));
                        }
                        p = Vec::new();
                        proof {
                            assert(p.deep_view() =~= Seq::<Stage1View>::empty());
                        }
                    } else {
                        p.push(t.duplicate());
                        proof {
                            assert(p.deep_view() =~= pdv.push(all[i as int]));
                        }
                    }
                } else {
                    p.push(t.duplicate());
                    proof {
                        assert(p.deep_view() =~= pdv.push(all[i as int]));
                    }
                }
            },
            Stage1Token::Literal(position, e) => {
                let ghost pdv = p.deep_view();
                let blank = {
                    let cs = crate::strutil::chars_vec(e.as_str());
                    crate::stage1::check_all_space_slice(cs.as_slice(), 0, cs.len())
                };
                proof {
                    assert(e@.subrange(0, e@.len() as int) =~= e@);
                }
                if !blank {
                    if in_p == 0 && in_b == 0 {
                        let ghost vdv = v.deep_view();
                        v.push(Stage2Token::Literal(*position, e.clone()));
                        proof {
                            assert(v.deep_view() =~= vdv.push(
                                Stage2View::Literal(*position, e@),
                            ));
                        }
                    } else {
                        p.push(t.duplicate());
                        proof {
                            assert(p.deep_view() =~= pdv.push(all[i as int]));
                        }
                    }
                }
            },
            Stage1Token::OpenBrackets(position) => {
                let ghost pdv = p.deep_view();
                if in_p == 0 {
                    in_b = in_b + 1;
                    if in_b != 1 {
                        p.push(t.duplicate());
                        proof {
                            assert(p.deep_view() =~= pdv.push(all[i as int]));
                        }
                    } else {
                        caret = Some(*position);
                    }
                } else {
                    p.push(t.duplicate());
                    proof {
                        assert(p.deep_view() =~= pdv.push(all[i as int]));
                    }
                }
            },
            Stage1Token::CloseBrackets(position) => {
                let ghost pdv = p.deep_view();
                if in_p == 0 {
                    in_b = in_b - 1;
                    if in_b == 0 {
                        let children = match compile(p.as_slice()) {
                            Ok(c) => c,
                            Err(e) => {
                                return Err(e);
                            },
                        };
                        let base = match &caret {
                            Some(c) => *c,
                            None => *position,
                        };
                        let ghost vdv = v.deep_view();
                        let ghost cv = children.deep_view();
                        let ghost cseq = children@;
                        let merged = base.merge(position);
                        v.push(Stage2Token::Block(merged, children));
                        proof {
                            lemma_s2_deep_view(cseq);
                            assert(cv =~= s2_views_from(cseq, 0));
                            assert(s2_view(v@[vdv.len() as int]) =~~= Stage2View::Block(
                                spec_merge(caret_or(st0.caret, *position), *position),
                                cv,
                            ));
                            assert(v.deep_view() =~= vdv.push(
                                Stage2View::Block(
                                    spec_merge(caret_or(st0.caret, *position), *position),
                                    cv,
                                ),
                            ));
                        }
                        p = Vec::new();
                        proof {
                            assert(p.deep_view() =~= Seq::<Stage1View>::empty());
                        }
                    } else {
                        p.push(t.duplicate());
                        proof {
                            assert(p.deep_view() =~= pdv.push(all[i as int]));
                        }
                    }
                } else {
                    p.push(t.duplicate());
                    proof {
                        assert(p.deep_view() =~= pdv.push(all[i as int]));
                    }
                }
            },
            Stage1Token::Equals(position) => {
                let ghost pdv = p.deep_view();
                if in_p == 0 && in_b == 0 {
                    let ghost vdv = v.deep_view();
                    let tmp = v.pop();
                    match tmp {
                        Some(Stage2Token::Literal(position1, e)) => {
                            proof {
                                assert(v.deep_view() =~= vdv.drop_last());
                            }
                            let ghost vdv1 = v.deep_view();
                            v.push(
                                Stage2Token::Assignement(position.merge(&position1), e),
                            );
                            proof {
                                assert(v.deep_view() =~= vdv1.push(
                                    Stage2View::Assignement(
                                        spec_merge(*position, position1),
                                        vdv.last()->Literal_1,
                                    ),
                                ));
                            }
                        },
                        _ => {
                            return Err(
                                Errors::EqualNotPrecededByLitteral { position: *position },
                            );
                        },
                    }
                } else {
                    p.push(t.duplicate());
                    proof {
                        assert(p.deep_view() =~= pdv.push(all[i as int]));
                    }
                }
            },
        }
        i = i + 1;
    }
    proof {
        assert(all.skip(i as int).len() == 0);
    }
    Ok(v)
}

/// The machine state the live loop variables denote.
pub open spec fn exec_state(
    v: &Vec<Stage2Token>,
    in_p: i128,
    in_b: i128,
    p: &Vec<Stage1Token>,
    caret: &Option<Position>,
) -> GroupState {
    GroupState {
        v: v.deep_view(),
        in_p: in_p as int,
        in_b: in_b as int,
        p: p.deep_view(),
        caret: match caret {
            Some(c) => Some(*c),
            None => None,
        },
    }
}

} // verus!
