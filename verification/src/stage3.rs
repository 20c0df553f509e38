//! The instruction builder: turns the grouped token tree into instructions —
//! executables, macro definitions, macro calls and variable definitions —
//! recursively for nested groups.

use vstd::prelude::*;

use crate::errors::{ErrorView, Errors};
use crate::expression::{spec_from_string, Expression, ExpressionView};
use crate::position::{spec_merge, Position};
use crate::stage1::all_space;
use crate::stage2::{Stage2Token, Stage2View};

verus! {

/// One instruction of the program tree.
#[derive(Debug)]
pub enum Stage3Token {
    /// A literal expression standing for one (or, through a variable,
    /// several) future machine cells.
    Executable(Position, Expression),
    /// A call of a named macro on argument instructions.
    FunctionExecution(Position, String, Vec<Stage3Token>),
    /// A macro definition: a name bound to a body of instructions.
    FunctionCreation(Position, String, Vec<Stage3Token>),
    /// A variable definition: a name bound to the cells its arguments
    /// expand to.
    VariableDefinition(Position, String, Vec<Stage3Token>),
}

/// The mathematical image of a [`Stage3Token`].
#[verifier::ext_equal]
pub ghost enum Stage3View {
    Executable(Position, ExpressionView),
    FunctionExecution(Position, Seq<char>, Seq<Stage3View>),
    FunctionCreation(Position, Seq<char>, Seq<Stage3View>),
    VariableDefinition(Position, Seq<char>, Seq<Stage3View>),
}

/// The image of one instruction.
pub open spec fn s3_view(t: Stage3Token) -> Stage3View
    decreases t, 0int,
{
    match t {
        Stage3Token::Executable(p, e) => Stage3View::Executable(p, e@),
        Stage3Token::FunctionExecution(p, name, c) => Stage3View::FunctionExecution(
            p,
            name@,
            s3_views_from(c@, 0),
        ),
        Stage3Token::FunctionCreation(p, name, c) => Stage3View::FunctionCreation(
            p,
            name@,
            s3_views_from(c@, 0),
        ),
        Stage3Token::VariableDefinition(p, name, c) => Stage3View::VariableDefinition(
            p,
            name@,
            s3_views_from(c@, 0),
        ),
    }
}

/// The images of the instructions of `s`, from position `i` on.
pub open spec fn s3_views_from(s: Seq<Stage3Token>, i: int) -> Seq<Stage3View>
    decreases s, s.len() - i,
{
    if i < 0 || i >= s.len() {
        Seq::empty()
    } else {
        seq![s3_view(s[i])] + s3_views_from(s, i + 1)
    }
}

impl View for Stage3Token {
    type V = Stage3View;

    open spec fn view(&self) -> Stage3View {
        s3_view(*self)
    }
}

impl DeepView for Stage3Token {
    type V = Stage3View;

    open spec fn deep_view(&self) -> Stage3View {
        s3_view(*self)
    }
}

/// The recursive image list agrees with the element-wise deep view.
pub proof fn lemma_s3_views_from(s: Seq<Stage3Token>, i: int)
    requires
        0 <= i <= s.len(),
    ensures
        s3_views_from(s, i).len() == s.len() - i,
        forall|j: int| 0 <= j < s.len() - i ==> s3_views_from(s, i)[j] == s3_view(s[i + j]),
    decreases s.len() - i,
{
    if i < s.len() {
        lemma_s3_views_from(s, i + 1);
        assert forall|j: int|
            0 <= j < s.len() - i implies s3_views_from(s, i)[j] == s3_view(s[i + j]) by {
            if j > 0 {
                assert(s3_views_from(s, i)[j] == s3_views_from(s, i + 1)[j - 1]);
            }
        }
    }
}

/// The deep view of an instruction vector is its recursive image list.
pub proof fn lemma_s3_deep_view(v: Seq<Stage3Token>)
    ensures
        Seq::new(v.len(), |i: int| v[i].deep_view()) =~= s3_views_from(v, 0),
{
    lemma_s3_views_from(v, 0);
}

/// The span of the pending literal merged with `merge`, or `merge` alone
/// when none is pending.
pub open spec fn spec_compile_caret(caret: Option<Position>, merge: Position) -> Position {
    match caret {
        Some(e) => spec_merge(e, merge),
        None => merge,
    }
}

/// Merges the pending span into `merge` when one is recorded.
pub fn compile_caret(caret: &Option<Position>, merge: &Position) -> (r: Position)
    ensures
        r == spec_compile_caret(*caret, *merge),
{
    if let Some(e) = caret {
        e.merge(merge)
    } else {
        *merge
    }
}

/// The span a pending literal was recorded at, or an empty span when none
/// was (which no reachable state produces).
pub open spec fn pending_pos(caret: Option<Position>) -> Position {
    match caret {
        Some(c) => c,
        None => Position { line_from: 0, line_to: 0, caret_from: 0, caret_to: 0 },
    }
}

/// The builder's state: the instructions built so far, whether a literal or
/// an assignment mark is pending, its text, and its span.
#[verifier::ext_equal]
pub ghost struct BuildState {
    pub out: Seq<Stage3View>,
    pub was_lit: bool,
    pub was_assign: bool,
    pub lit: Seq<char>,
    pub caret: Option<Position>,
}

/// The builder's starting state.
pub open spec fn build_init() -> BuildState {
    BuildState {
        out: Seq::empty(),
        was_lit: false,
        was_assign: false,
        lit: Seq::empty(),
        caret: None,
    }
}

/// The builder: a pending literal followed by a block is a macro
/// definition, followed by parentheses a call; a pending assignment followed
/// by parentheses is a variable definition; a literal still pending when the
/// next literal or the end arrives flushes as an executable.
pub open spec fn stage3_scan(tokens: Seq<Stage2View>, i: int, st: BuildState) -> Result<
    Seq<Stage3View>,
    ErrorView,
>
    decreases tokens, tokens.len() - i, 1int,
{
    if i < 0 {
        Ok(st.out)
    } else if i >= tokens.len() {
        if st.was_lit {
            match spec_from_string(st.lit, pending_pos(st.caret)) {
                Err(e) => Err(e),
                Ok(expr) => Ok(
                    st.out.push(Stage3View::Executable(pending_pos(st.caret), expr)),
                ),
            }
        } else {
            Ok(st.out)
        }
    } else {
        match tokens[i] {
            Stage2View::Literal(pos, e) => if all_space(e) {
                stage3_scan(tokens, i + 1, st)
            } else if st.was_assign {
                Err(
                    ErrorView::LiteralAfterAssignement {
                        position: spec_merge(pending_pos(st.caret), pos),
                        literal: e,
                        assignement: st.lit,
                    },
                )
            } else if st.was_lit {
                match spec_from_string(st.lit, pending_pos(st.caret)) {
                    Err(err) => Err(err),
                    Ok(expr) => stage3_scan(
                        tokens,
                        i + 1,
                        BuildState {
                            out: st.out.push(
                                Stage3View::Executable(pending_pos(st.caret), expr),
                            ),
                            was_lit: true,
                            lit: e,
                            caret: Some(pos),
                            ..st
                        },
                    ),
                }
            } else {
                stage3_scan(
                    tokens,
                    i + 1,
                    BuildState { was_lit: true, lit: e, caret: Some(pos), ..st },
                )
            },
            Stage2View::Block(pos, children) => if st.was_assign {
                Err(
                    ErrorView::BlockAfterAssignement {
                        position: spec_compile_caret(st.caret, pos),
                        assignement: st.lit,
                    },
                )
            } else if st.was_lit {
                match stage3_scan(children, 0, build_init()) {
                    Err(e) => Err(e),
                    Ok(body) => stage3_scan(
                        tokens,
                        i + 1,
                        BuildState {
                            out: st.out.push(
                                Stage3View::FunctionCreation(
                                    spec_compile_caret(st.caret, pos),
                                    st.lit,
                                    body,
                                ),
                            ),
                            was_lit: false,
                            lit: Seq::empty(),
                            ..st
                        },
                    ),
                }
            } else {
                Err(ErrorView::BlockMustBePrecededByLiteral { position: pos })
            },
            Stage2View::Parenthesis(pos, children) => if st.was_lit {
                match stage3_scan(children, 0, build_init()) {
                    Err(e) => Err(e),
                    Ok(args) => stage3_scan(
                        tokens,
                        i + 1,
                        BuildState {
                            out: st.out.push(
                                Stage3View::FunctionExecution(
                                    spec_compile_caret(st.caret, pos),
                                    st.lit,
                                    args,
                                ),
                            ),
                            was_lit: false,
                            lit: Seq::empty(),
                            ..st
                        },
                    ),
                }
            } else if st.was_assign {
                match stage3_scan(children, 0, build_init()) {
                    Err(e) => Err(e),
                    Ok(args) => stage3_scan(
                        tokens,
                        i + 1,
                        BuildState {
                            out: st.out.push(
                                Stage3View::VariableDefinition(
                                    spec_compile_caret(st.caret, pos),
                                    st.lit,
                                    args,
                                ),
                            ),
                            was_assign: false,
                            lit: Seq::empty(),
                            ..st
                        },
                    ),
                }
            } else {
                Err(ErrorView::ParenthesisNotInAssignementOrFunctionCall { position: pos })
            },
            Stage2View::Assignement(pos, e) => if st.was_assign {
                Err(
                    ErrorView::AssignementFollowedByAnotherAssignement {
                        position: spec_compile_caret(st.caret, pos),
                        assignement1: st.lit,
                        assignement2: e,
                    },
                )
            } else if st.was_lit {
                match spec_from_string(st.lit, pending_pos(st.caret)) {
                    Err(err) => Err(err),
                    Ok(expr) => stage3_scan(
                        tokens,
                        i + 1,
                        BuildState {
                            out: st.out.push(
                                Stage3View::Executable(pending_pos(st.caret), expr),
                            ),
                            was_lit: false,
                            was_assign: true,
                            lit: e,
                            caret: Some(pos),
                            ..st
                        },
                    ),
                }
            } else {
                stage3_scan(
                    tokens,
                    i + 1,
                    BuildState { was_assign: true, lit: e, caret: Some(pos), ..st },
                )
            },
        }
    }
}

/// The instruction list a grouped token list builds to.
pub open spec fn spec_stage3(tokens: Seq<Stage2View>) -> Result<Seq<Stage3View>, ErrorView> {
    stage3_scan(tokens, 0, build_init())
}

/// The live builder state the loop variables denote.
pub open spec fn build_state(
    out: &Vec<Stage3Token>,
    was_lit: bool,
    was_assign: bool,
    lit: &String,
    caret: &Option<Position>,
) -> BuildState {
    BuildState {
        out: out.deep_view(),
        was_lit,
        was_assign,
        lit: lit@,
        caret: match caret {
            Some(c) => Some(*c),
            None => None,
        },
    }
}

/// Builds the instruction list of a grouped token list: the result promised
/// by [`spec_stage3`].
#[verifier::rlimit(100)]
pub fn compile(expr: &[Stage2Token]) -> (r: Result<Vec<Stage3Token>, Errors>)
    ensures
        match r {
            Ok(v) => spec_stage3(expr.deep_view()) == Ok::<Seq<Stage3View>, ErrorView>(
                v.deep_view(),
            ),
            Err(e) => spec_stage3(expr.deep_view()) == Err::<Seq<Stage3View>, ErrorView>(e@),
        },
    decreases expr.deep_view(),
{
    let ghost all = expr.deep_view();
    let mut output: Vec<Stage3Token> = Vec::new();
    let mut was_litteral = false;
    let mut was_assignement = false;
    let mut litteral = String::new();
    let mut literal_caret: Option<Position> = None;
    let mut i: usize = 0;
    proof {
        assert(output.deep_view() =~= Seq::<Stage3View>::empty());
        assert(build_state(&output, was_litteral, was_assignement, &litteral, &literal_caret)
            =~= build_init());
    }
    while i < expr.len()
        invariant
            i <= expr@.len(),
            all == expr.deep_view(),
            all.len() == expr@.len(),
            spec_stage3(all) == stage3_scan(
                all,
                i as int,
                build_state(&output, was_litteral, was_assignement, &litteral, &literal_caret),
            ),
        decreases expr@.len() - i,
    {
        let ghost st0 = build_state(
            &output,
            was_litteral,
            was_assignement,
            &litteral,
            &literal_caret,
        );
        proof {
            assert(all[i as int] == expr@[i as int].deep_view());
        }
        match &expr[i] {
            Stage2Token::Literal(position, e) => {
                let blank = {
                    let cs = crate::strutil::chars_vec(e.as_str());
                    crate::stage1::check_all_space_slice(cs.as_slice(), 0, cs.len())
                };
                proof {
                    assert(e@.subrange(0, e@.len() as int) =~= e@);
                }
                if !blank {
                    if was_assignement {
                        let base = pending_position(&literal_caret);
                        return Err(
                            Errors::LiteralAfterAssignement {
                                position: base.merge(position),
                                literal: e.clone(),
                                assignement: litteral,
                            },
                        );
                    }
                    if was_litteral {
                        let base = pending_position(&literal_caret);
                        let exprc = match Expression::from_string(litteral.as_str(), &base) {
                            Ok(x) => x,
                            Err(err) => {
                                return Err(err);
                            },
                        };
                        let ghost odv = output.deep_view();
                        let ghost exv = exprc@;
                        output.push(Stage3Token::Executable(base, exprc));
                        proof {
                            assert(output.deep_view() =~= odv.push(
                                Stage3View::Executable(pending_pos(st0.caret), exv),
                            ));
                        }
                    }
                    was_litteral = true;
                    litteral = e.clone();
                    literal_caret = Some(*position);
                }
            },
            Stage2Token::Block(position, children) => {
                if was_assignement {
                    return Err(
                        Errors::BlockAfterAssignement {
                            position: compile_caret(&literal_caret, position),
                            assignement: litteral,
                        },
                    );
                }
                if was_litteral {
                    proof {
                        assert(decreases_to!(all => all[i as int]));
                        crate::stage2::lemma_s2_deep_view(children@);
                        assert(decreases_to!(all[i as int] => all[i as int]->Block_1));
                    }
                    let child_slice = children.as_slice();
                    proof {
                        assert(child_slice.deep_view() =~= all[i as int]->Block_1);
                    }
                    let body = match compile(child_slice) {
                        Ok(b) => b,
                        Err(e) => {
                            return Err(e);
                        },
                    };
                    let ghost bdv = body.deep_view();
                    let ghost cdv = children.deep_view();
                    let ghost odv = output.deep_view();
                    let ghost litv = litteral@;
                    let name = litteral;
                    output.push(
                        Stage3Token::FunctionCreation(
                            compile_caret(&literal_caret, position),
                            name,
                            body,
                        ),
                    );
                    proof {
                        crate::stage2::lemma_s2_deep_view(children@);
                        lemma_s3_deep_view(output@[odv.len() as int]->FunctionCreation_2@);
                        assert(output.deep_view() =~= odv.push(
                            Stage3View::FunctionCreation(
                                spec_compile_caret(st0.caret, *position),
                                litv,
                                bdv,
                            ),
                        ));
                    }
                    litteral = String::new();
                    was_litteral = false;
                    proof {
                        assert(litteral@ =~= Seq::<char>::empty());
                    }
                } else {
                    return Err(
                        Errors::BlockMustBePrecededByLiteral { position: *position },
                    );
                }
            },
            Stage2Token::Parenthesis(position, children) => {
                if was_litteral {
                    proof {
                        assert(decreases_to!(all => all[i as int]));
                        crate::stage2::lemma_s2_deep_view(children@);
                        assert(decreases_to!(all[i as int] => all[i as int]->Parenthesis_1));
                    }
                    let child_slice = children.as_slice();
                    proof {
                        assert(child_slice.deep_view() =~= all[i as int]->Parenthesis_1);
                    }
                    let args = match compile(child_slice) {
                        Ok(b) => b,
                        Err(e) => {
                            return Err(e);
                        },
                    };
                    let ghost bdv = args.deep_view();
                    let ghost odv = output.deep_view();
                    let ghost litv = litteral@;
                    let name = litteral;
                    output.push(
                        Stage3Token::FunctionExecution(
                            compile_caret(&literal_caret, position),
                            name,
                            args,
                        ),
                    );
                    proof {
                        lemma_s3_deep_view(output@[odv.len() as int]->FunctionExecution_2@);
                        assert(output.deep_view() =~= odv.push(
                            Stage3View::FunctionExecution(
                                spec_compile_caret(st0.caret, *position),
                                litv,
                                bdv,
                            ),
                        ));
                    }
                    litteral = String::new();
                    was_litteral = false;
                    proof {
                        assert(litteral@ =~= Seq::<char>::empty());
                    }
                } else if was_assignement {
                    proof {
                        assert(decreases_to!(all => all[i as int]));
                        crate::stage2::lemma_s2_deep_view(children@);
                        assert(decreases_to!(all[i as int] => all[i as int]->Parenthesis_1));
                    }
                    let child_slice = children.as_slice();
                    proof {
                        assert(child_slice.deep_view() =~= all[i as int]->Parenthesis_1);
                    }
                    let args = match compile(child_slice) {
                        Ok(b) => b,
                        Err(e) => {
                            return Err(e);
                        },
                    };
                    let ghost bdv = args.deep_view();
                    let ghost odv = output.deep_view();
                    let ghost litv = litteral@;
                    let name = litteral;
                    output.push(
                        Stage3Token::VariableDefinition(
                            compile_caret(&literal_caret, position),
                            name,
                            args,
                        ),
                    );
                    proof {
                        lemma_s3_deep_view(output@[odv.len() as int]->VariableDefinition_2@);
                        assert(output.deep_view() =~= odv.push(
                            Stage3View::VariableDefinition(
                                spec_compile_caret(st0.caret, *position),
                                litv,
                                bdv,
                            ),
                        ));
                    }
                    litteral = String::new();
                    was_assignement = false;
                    proof {
                        assert(litteral@ =~= Seq::<char>::empty());
                    }
                } else {
                    return Err(
                        Errors::ParenthesisNotInAssignementOrFunctionCall {
                            position: *position,
                        },
                    );
                }
            },
            Stage2Token::Assignement(position, e) => {
                if was_assignement {
                    return Err(
                        Errors::AssignementFollowedByAnotherAssignement {
                            position: compile_caret(&literal_caret, position),
                            assignement1: litteral,
                            assignement2: e.clone(),
                        },
                    );
                }
                if was_litteral {
                    let base = pending_position(&literal_caret);
                    let exprc = match Expression::from_string(litteral.as_str(), &base) {
                        Ok(x) => x,
                        Err(err) => {
                            return Err(err);
                        },
                    };
                    let ghost odv = output.deep_view();
                    let ghost exv = exprc@;
                    output.push(Stage3Token::Executable(base, exprc));
                    proof {
                        assert(output.deep_view() =~= odv.push(
                            Stage3View::Executable(pending_pos(st0.caret), exv),
                        ));
                    }
                    was_litteral = false;
                }
                literal_caret = Some(*position);
                was_assignement = true;
                litteral = e.clone();
            },
        }
        i = i + 1;
    }
    if was_litteral {
        let ghost stf = build_state(
            &output,
            was_litteral,
            was_assignement,
            &litteral,
            &literal_caret,
        );
        let base = pending_position(&literal_caret);
        let exprc = match Expression::from_string(litteral.as_str(), &base) {
            Ok(x) => x,
            Err(err) => {
                return Err(err);
            },
        };
        let ghost odv = output.deep_view();
        let ghost exv = exprc@;
        output.push(Stage3Token::Executable(base, exprc));
        proof {
            assert(output.deep_view() =~= odv.push(
                Stage3View::Executable(pending_pos(stf.caret), exv),
            ));
        }
    }
    Ok(output)
}

/// The recorded pending span, or an empty span when none was recorded.
fn pending_position(caret: &Option<Position>) -> (r: Position)
    ensures
        r == pending_pos(
            match caret {
                Some(c) => Some(*c),
                None => None,
            },
        ),
{
    match caret {
        Some(c) => *c,
        None => Position::new(0, 0, 0),
    }
}

impl Stage3Token {
    /// A fresh copy of this instruction tree.
    pub fn duplicate(&self) -> (r: Stage3Token)
        ensures
            r@ == self@,
        decreases *self,
    {
        match self {
            Stage3Token::Executable(p, e) => Stage3Token::Executable(*p, e.duplicate()),
            Stage3Token::FunctionExecution(p, name, c) => {
                let nc = dup_vec(c);
                let ghost ncs = nc@;
                let r = Stage3Token::FunctionExecution(*p, name.clone(), nc);
                proof {
                    lemma_s3_deep_view(c@);
                    lemma_s3_deep_view(ncs);
                    assert(s3_views_from(ncs, 0) =~= s3_views_from(c@, 0));
                    assert(r@ =~~= self@);
                }
                r
            },
            Stage3Token::FunctionCreation(p, name, c) => {
                let nc = dup_vec(c);
                let ghost ncs = nc@;
                let r = Stage3Token::FunctionCreation(*p, name.clone(), nc);
                proof {
                    lemma_s3_deep_view(c@);
                    lemma_s3_deep_view(ncs);
                    assert(s3_views_from(ncs, 0) =~= s3_views_from(c@, 0));
                    assert(r@ =~~= self@);
                }
                r
            },
            Stage3Token::VariableDefinition(p, name, c) => {
                let nc = dup_vec(c);
                let ghost ncs = nc@;
                let r = Stage3Token::VariableDefinition(*p, name.clone(), nc);
                proof {
                    lemma_s3_deep_view(c@);
                    lemma_s3_deep_view(ncs);
                    assert(s3_views_from(ncs, 0) =~= s3_views_from(c@, 0));
                    assert(r@ =~~= self@);
                }
                r
            },
        }
    }
}

/// A fresh copy of an instruction vector.
pub fn dup_vec(v: &Vec<Stage3Token>) -> (r: Vec<Stage3Token>)
    ensures
        r.deep_view() == v.deep_view(),
        r@.len() == v@.len(),
    decreases v@,
{
    let mut out: Vec<Stage3Token> = Vec::new();
    let mut i: usize = 0;
    while i < v.len()
        invariant
            i <= v@.len(),
            out@.len() == i,
            forall|j: int| 0 <= j < i ==> out.deep_view()[j] == v.deep_view()[j],
        decreases v@.len() - i,
    {
        let ghost dv0 = out.deep_view();
        proof {
            assert(decreases_to!(v@ => v@[i as int]));
        }
        out.push(v[i].duplicate());
        proof {
            assert(out.deep_view() =~= dv0.push(v@[i as int].deep_view()));
        }
        i = i + 1;
    }
    proof {
        assert(out.deep_view() =~= v.deep_view());
    }
    out
}

impl Expression {
    /// A fresh copy of this compiled literal.
    pub fn duplicate(&self) -> (r: Expression)
        ensures
            r@ == self@,
    {
        let r = Expression {
            labels: crate::strutil::clone_strings(&self.labels),
            instruction: self.instruction.duplicate(),
            position: self.position,
            expression: self.expression.clone(),
        };
        proof {
            assert(r@ =~~= self@);
        }
        r
    }
}

impl crate::expression::LiteralInstruction {
    /// A fresh copy of this instruction.
    pub fn duplicate(&self) -> (r: crate::expression::LiteralInstruction)
        ensures
            r@ == self@,
    {
        match self {
            crate::expression::LiteralInstruction::Variable(s, r) => {
                crate::expression::LiteralInstruction::Variable(
                    s.clone(),
                    match r {
                        Some(range) => Some(range.duplicate()),
                        None => None,
                    },
                )
            },
            crate::expression::LiteralInstruction::Label(s, n) => {
                crate::expression::LiteralInstruction::Label(s.clone(), *n)
            },
            crate::expression::LiteralInstruction::Value(n) => {
                crate::expression::LiteralInstruction::Value(*n)
            },
            crate::expression::LiteralInstruction::Relative(n) => {
                crate::expression::LiteralInstruction::Relative(*n)
            },
        }
    }
}

} // verus!
