//! Literal expressions: the typed instruction a literal's text compiles to,
//! and its evaluation against the variable table and the current call
//! arguments.

use vstd::prelude::*;

use crate::errors::{ErrorView, Errors};
use crate::expression_compiler::{compile, lex_fail_error, spec_compile_tokens};
use crate::machine::{isize_as_usize, mask_addr, wrap_add};
use crate::position::Position;
use crate::range::{spec_generate, DefaultValue, DefaultValueView, Range, RangeView};
use crate::strutil::{names_contain, str_eq};
use crate::tokens::{CompilationToken, CompilationTokenView, Phase2Token, Phase2View};
use crate::value::{vars_keys, vars_lookup, Value, ValueView, VarMap};
use vstd::string::StringExecFns;

verus! {

/// The typed instruction a literal expression denotes.
#[derive(Debug)]
pub enum LiteralInstruction {
    /// Substitute a variable's (or `self`'s) cell list, optionally sliced.
    Variable(String, Option<Range>),
    /// The address of a label, plus an offset.
    Label(String, isize),
    /// A literal absolute integer.
    Value(usize),
    /// The cell's own output index, plus an offset.
    Relative(isize),
}

/// The mathematical image of a [`LiteralInstruction`].
#[verifier::ext_equal]
pub ghost enum LiteralInstructionView {
    Variable(Seq<char>, Option<RangeView>),
    Label(Seq<char>, int),
    Value(int),
    Relative(int),
}

impl View for LiteralInstruction {
    type V = LiteralInstructionView;

    open spec fn view(&self) -> LiteralInstructionView {
        match self {
            LiteralInstruction::Variable(s, r) => LiteralInstructionView::Variable(
                s@,
                match r {
                    Some(range) => Some(range@),
                    None => None,
                },
            ),
            LiteralInstruction::Label(s, n) => LiteralInstructionView::Label(s@, *n as int),
            LiteralInstruction::Value(n) => LiteralInstructionView::Value(*n as int),
            LiteralInstruction::Relative(n) => LiteralInstructionView::Relative(*n as int),
        }
    }
}

/// A compiled literal: the labels this slot declares, the instruction it
/// denotes, and the source text and span it came from.
#[derive(Debug)]
pub struct Expression {
    pub labels: Vec<String>,
    pub instruction: LiteralInstruction,
    pub position: Position,
    pub expression: String,
}

/// The mathematical image of an [`Expression`].
#[verifier::ext_equal]
pub ghost struct ExpressionView {
    pub labels: Seq<Seq<char>>,
    pub instruction: LiteralInstructionView,
    pub position: Position,
    pub expression: Seq<char>,
}

impl View for Expression {
    type V = ExpressionView;

    open spec fn view(&self) -> ExpressionView {
        ExpressionView {
            labels: self.labels.deep_view(),
            instruction: self.instruction@,
            position: self.position,
            expression: self.expression@,
        }
    }
}

/// The reduced entries with every stray punctuation mark rejected: a literal
/// whose reduction leaves an uncombined mark cannot be compiled.
pub open spec fn phase2_only(tokens: Seq<CompilationTokenView>) -> Result<Seq<Phase2View>, ()>
    decreases tokens.len(),
{
    if tokens.len() == 0 {
        Ok(Seq::empty())
    } else {
        match tokens[0] {
            CompilationTokenView::Phase2(p) => match phase2_only(tokens.drop_first()) {
                Ok(rest) => Ok(seq![p] + rest),
                Err(()) => Err(()),
            },
            CompilationTokenView::Phase1(_) => Err(()),
        }
    }
}

/// The distinct names declared by `'name:` marks, in first-appearance order.
pub open spec fn assign_labels(tokens: Seq<Phase2View>) -> Seq<Seq<char>> {
    assign_labels_acc(tokens, 0, Seq::empty())
}

/// Accumulates declared names from position `i` on.
pub open spec fn assign_labels_acc(tokens: Seq<Phase2View>, i: int, acc: Seq<Seq<char>>) -> Seq<
    Seq<char>,
>
    decreases tokens.len() - i,
{
    if i < 0 || i >= tokens.len() {
        acc
    } else {
        let acc1 = match tokens[i] {
            Phase2View::LabelAssign(name) => if acc.contains(name) {
                acc
            } else {
                acc.push(name)
            },
            _ => acc,
        };
        assign_labels_acc(tokens, i + 1, acc1)
    }
}

/// The tokens with the declaration marks dropped: what the instruction is
/// read from.
pub open spec fn drop_assigns(tokens: Seq<Phase2View>) -> Seq<Phase2View>
    decreases tokens.len(),
{
    if tokens.len() == 0 {
        Seq::empty()
    } else {
        match tokens[0] {
            Phase2View::LabelAssign(_) => drop_assigns(tokens.drop_first()),
            _ => seq![tokens[0]] + drop_assigns(tokens.drop_first()),
        }
    }
}

/// The degenerate one-element range an un-indexed variable's default applies
/// to.
pub open spec fn unit_range(d: DefaultValueView) -> RangeView {
    RangeView { start: 0, end: Some(1), or: Some(d) }
}

/// The instruction the reduced entries denote: the first entry decides the
/// kind, an optional following entry supplies a range or a default, and a
/// range may carry one further default. Anything else cannot be compiled.
pub open spec fn spec_from_stage2(tokens: Seq<Phase2View>) -> Result<LiteralInstructionView, ()> {
    let rest = drop_assigns(tokens);
    if rest.len() == 0 {
        Err(())
    } else {
        match rest[0] {
            Phase2View::Label(name, added) => Ok(LiteralInstructionView::Label(name, added)),
            Phase2View::Number(n) => Ok(LiteralInstructionView::Value(mask_addr(n))),
            Phase2View::Relative(n) => Ok(LiteralInstructionView::Relative(n)),
            Phase2View::Variable(v) => if rest.len() == 1 {
                Ok(LiteralInstructionView::Variable(v, None))
            } else {
                match rest[1] {
                    Phase2View::Or(n) => Ok(
                        LiteralInstructionView::Variable(
                            v,
                            Some(unit_range(DefaultValueView::Value(n))),
                        ),
                    ),
                    Phase2View::OrLabel(l, a) => Ok(
                        LiteralInstructionView::Variable(
                            v,
                            Some(unit_range(DefaultValueView::Label(l, a))),
                        ),
                    ),
                    Phase2View::OrRelative(a) => Ok(
                        LiteralInstructionView::Variable(
                            v,
                            Some(unit_range(DefaultValueView::Relative(a))),
                        ),
                    ),
                    _ => Err(()),
                }
            },
            Phase2View::VariableIndexed(v) => if rest.len() == 1 {
                Err(())
            } else {
                match rest[1] {
                    Phase2View::Range(start, end) => spec_indexed(
                        v,
                        mask_addr(start),
                        match end {
                            Some(e) => Some(mask_addr(e)),
                            None => None,
                        },
                        rest,
                    ),
                    Phase2View::Number(start) => spec_indexed(
                        v,
                        mask_addr(start),
                        Some(mask_addr(start + 1)),
                        rest,
                    ),
                    _ => Err(()),
                }
            },
            _ => Err(()),
        }
    }
}

/// The instruction for an indexed variable: the optional third entry is its
/// padding default.
pub open spec fn spec_indexed(
    v: Seq<char>,
    start: int,
    end: Option<int>,
    rest: Seq<Phase2View>,
) -> Result<LiteralInstructionView, ()> {
    if rest.len() == 2 {
        Ok(LiteralInstructionView::Variable(v, Some(RangeView { start, end, or: None })))
    } else {
        match rest[2] {
            Phase2View::Or(n) => Ok(
                LiteralInstructionView::Variable(
                    v,
                    Some(RangeView { start, end, or: Some(DefaultValueView::Value(n)) }),
                ),
            ),
            Phase2View::OrLabel(l, a) => Ok(
                LiteralInstructionView::Variable(
                    v,
                    Some(RangeView { start, end, or: Some(DefaultValueView::Label(l, a)) }),
                ),
            ),
            Phase2View::OrRelative(a) => Ok(
                LiteralInstructionView::Variable(
                    v,
                    Some(RangeView { start, end, or: Some(DefaultValueView::Relative(a)) }),
                ),
            ),
            _ => Err(()),
        }
    }
}

/// What a literal's text compiles to: its reduced entries must all be
/// combined, the declaration marks become the slot's labels, and the rest
/// must denote one instruction.
pub open spec fn spec_from_string(s: Seq<char>, position: Position) -> Result<
    ExpressionView,
    ErrorView,
> {
    match spec_compile_tokens(s) {
        Err(f) => Err(lex_fail_error(f, s, position)),
        Ok(ctoks) => match phase2_only(ctoks) {
            Err(()) => Err(ErrorView::ExpressionCompilingError { expression: s, position }),
            Ok(p2) => match spec_from_stage2(p2) {
                Err(()) => Err(ErrorView::ExpressionCompilingError { expression: s, position }),
                Ok(instruction) => Ok(
                    ExpressionView {
                        labels: assign_labels(p2),
                        instruction,
                        position,
                        expression: s,
                    },
                ),
            },
        },
    }
}

impl Expression {
    /// Compiles a literal's text: the result promised by
    /// [`spec_from_string`].
    pub fn from_string(string: &str, position: &Position) -> (r: Result<Expression, Errors>)
        ensures
            match r {
                Ok(e) => spec_from_string(string@, *position) == Ok::<ExpressionView, ErrorView>(
                    e@,
                ),
                Err(e) => spec_from_string(string@, *position) == Err::<ExpressionView, ErrorView>(
                    e@,
                ),
            },
    {
        let ctoks = match compile(string, position) {
            Ok(v) => v,
            Err(e) => {
                return Err(e);
            },
        };
        let ghost call = ctoks.deep_view();
        let mut p2: Vec<Phase2Token> = Vec::new();
        let mut i: usize = 0;
        proof {
            assert(call.skip(0) =~= call);
            assert(phase2_only(call) == map_phase2_prefix(p2.deep_view(), call, 0));
        }
        while i < ctoks.len()
            invariant
                i <= ctoks@.len(),
                call == ctoks.deep_view(),
                call.len() == ctoks@.len(),
                phase2_only(call) == map_phase2_prefix(p2.deep_view(), call, i as int),
            decreases ctoks@.len() - i,
        {
            let ghost dv0 = p2.deep_view();
            match &ctoks[i] {
                CompilationToken::Phase2Token(t) => {
                    p2.push(t.duplicate());
                    proof {
                        assert(p2.deep_view() =~= dv0.push(call[i as int]->Phase2_0));
                        lemma_map_phase2_step(dv0, call, i as int);
                    }
                },
                CompilationToken::Phase1Token(_) => {
                    proof {
                        lemma_map_phase2_err(dv0, call, i as int);
                    }
                    return Err(
                        Errors::ExpressionCompilingError {
                            expression: string.to_owned(),
                            position: *position,
                        },
                    );
                },
            }
            i = i + 1;
        }
        proof {
            lemma_map_phase2_done(p2.deep_view(), call, i as int);
        }
        let instruction = match Self::instruction_from_stage2(&p2) {
            Some(ins) => ins,
            None => {
                return Err(
                    Errors::ExpressionCompilingError {
                        expression: string.to_owned(),
                        position: *position,
                    },
                );
            },
        };
        let labels = Self::labels_from_stage2(&p2);
        Ok(
            Expression {
                labels,
                instruction,
                position: *position,
                expression: string.to_owned(),
            },
        )
    }

    /// Collects the distinct declared names, in first-appearance order.
    fn labels_from_stage2(tokens: &Vec<Phase2Token>) -> (r: Vec<String>)
        ensures
            r.deep_view() == assign_labels(tokens.deep_view()),
    {
        let ghost all = tokens.deep_view();
        let mut out: Vec<String> = Vec::new();
        let mut i: usize = 0;
        proof {
            assert(out.deep_view() =~= Seq::<Seq<char>>::empty());
        }
        while i < tokens.len()
            invariant
                i <= tokens@.len(),
                all == tokens.deep_view(),
                all.len() == tokens@.len(),
                assign_labels_acc(all, 0, Seq::empty()) == assign_labels_acc(
                    all,
                    i as int,
                    out.deep_view(),
                ),
            decreases tokens@.len() - i,
        {
            let ghost dv0 = out.deep_view();
            match &tokens[i] {
                Phase2Token::LabelAssign(name) => {
                    if !names_contain(&out, name.as_str()) {
                        out.push(name.clone());
                        proof {
                            assert(out.deep_view() =~= dv0.push(name@));
                        }
                    }
                },
                _ => {},
            }
            i = i + 1;
        }
        out
    }

    /// Reads the instruction from the reduced entries.
    fn instruction_from_stage2(tokens: &Vec<Phase2Token>) -> (r: Option<LiteralInstruction>)
        ensures
            match r {
                Some(ins) => spec_from_stage2(tokens.deep_view()) == Ok::<
                    LiteralInstructionView,
                    (),
                >(ins@),
                None => spec_from_stage2(tokens.deep_view()) == Err::<LiteralInstructionView, ()>(
                    (),
                ),
            },
    {
        let ghost all = tokens.deep_view();
        let mut rest: Vec<Phase2Token> = Vec::new();
        let mut i: usize = 0;
        proof {
            assert(all.skip(0) =~= all);
            assert(drop_assigns(all) =~= rest.deep_view() + drop_assigns(all.skip(0)));
        }
        while i < tokens.len()
            invariant
                i <= tokens@.len(),
                all == tokens.deep_view(),
                all.len() == tokens@.len(),
                drop_assigns(all) == rest.deep_view() + drop_assigns(all.skip(i as int)),
            decreases tokens@.len() - i,
        {
            proof {
                assert(all.skip(i as int)[0] == all[i as int]);
                assert(all.skip(i as int).drop_first() =~= all.skip(i + 1));
            }
            let ghost dv0 = rest.deep_view();
            match &tokens[i] {
                Phase2Token::LabelAssign(_) => {},
                t => {
                    rest.push(t.duplicate());
                    proof {
                        assert(rest.deep_view() =~= dv0.push(all[i as int]));
                        assert(dv0.push(all[i as int]) + drop_assigns(all.skip(i + 1)) =~= dv0 + (
                        seq![all[i as int]] + drop_assigns(all.skip(i + 1))));
                    }
                },
            }
            i = i + 1;
        }
        proof {
            assert(all.skip(i as int).len() == 0);
            assert(drop_assigns(all) =~= rest.deep_view());
        }
        if rest.len() == 0 {
            return None;
        }
        let first = &rest[0];
        match first {
            Phase2Token::Label(name, added) => Some(
                LiteralInstruction::Label(name.clone(), *added),
            ),
            Phase2Token::Number(n) => Some(LiteralInstruction::Value(isize_as_usize(*n))),
            Phase2Token::Relative(n) => Some(LiteralInstruction::Relative(*n)),
            Phase2Token::Variable(v) => {
                if rest.len() == 1 {
                    Some(LiteralInstruction::Variable(v.clone(), None))
                } else {
                    let d = match &rest[1] {
                        Phase2Token::Or(n) => DefaultValue::Value(*n),
                        Phase2Token::OrLabel(l, a) => DefaultValue::Label(l.clone(), *a),
                        Phase2Token::OrRelative(a) => DefaultValue::Relative(*a),
                        _ => {
                            return None;
                        },
                    };
                    Some(
                        LiteralInstruction::Variable(
                            v.clone(),
                            Some(Range { start: 0, end: Some(1), or: Some(d) }),
                        ),
                    )
                }
            },
            Phase2Token::VariableIndexed(v) => {
                if rest.len() == 1 {
                    return None;
                }
                let (start, end) = match &rest[1] {
                    Phase2Token::Range(start, end) => {
                        let s = isize_as_usize(*start);
                        let e = match end {
                            Some(e) => Some(isize_as_usize(*e)),
                            None => None,
                        };
                        (s, e)
                    },
                    Phase2Token::Number(start) => {
                        let s = isize_as_usize(*start);
                        let e = isize_as_usize(wrap_add(*start, 1));
                        proof {
                            crate::machine::lemma_mask_of_signed(*start as int + 1);
                        }
                        (s, Some(e))
                    },
                    _ => {
                        return None;
                    },
                };
                if rest.len() == 2 {
                    Some(
                        LiteralInstruction::Variable(
                            v.clone(),
                            Some(Range { start, end, or: None }),
                        ),
                    )
                } else {
                    let d = match &rest[2] {
                        Phase2Token::Or(n) => DefaultValue::Value(*n),
                        Phase2Token::OrLabel(l, a) => DefaultValue::Label(l.clone(), *a),
                        Phase2Token::OrRelative(a) => DefaultValue::Relative(*a),
                        _ => {
                            return None;
                        },
                    };
                    Some(
                        LiteralInstruction::Variable(
                            v.clone(),
                            Some(Range { start, end, or: Some(d) }),
                        ),
                    )
                }
            },
            _ => None,
        }
    }

    /// Evaluates the compiled literal against the variable table and the
    /// current call arguments: the result promised by [`spec_execute`].
    pub fn execute(self, vars: &VarMap, function_data: &Vec<Value>) -> (r: Result<
        Vec<Value>,
        Errors,
    >)
        ensures
            match r {
                Ok(out) => spec_execute(self@, vars@, function_data.deep_view()) == Ok::<
                    Seq<ValueView>,
                    ErrorView,
                >(out.deep_view()),
                Err(e) => spec_execute(self@, vars@, function_data.deep_view()) == Err::<
                    Seq<ValueView>,
                    ErrorView,
                >(e@),
            },
    {
        let ghost ev = self@;
        match self.instruction {
            LiteralInstruction::Label(name, added) => {
                let out: Vec<Value> = vec![Value::Label(self.labels, name, added, self.position)];
                proof {
                    assert(out.deep_view() =~= seq![out@[0]@]);
                }
                Ok(out)
            },
            LiteralInstruction::Relative(added) => {
                let out: Vec<Value> = vec![Value::Relative(self.labels, added, self.position)];
                proof {
                    assert(out.deep_view() =~= seq![out@[0]@]);
                }
                Ok(out)
            },
            LiteralInstruction::Value(value) => {
                let out: Vec<Value> = vec![Value::Absolute(self.labels, value, self.position)];
                proof {
                    assert(out.deep_view() =~= seq![out@[0]@]);
                }
                Ok(out)
            },
            LiteralInstruction::Variable(name, range) => {
                let variable: &Vec<Value> = if str_eq(name.as_str(), "self") {
                    function_data
                } else {
                    match vars.get(name.as_str()) {
                        Some(list) => list,
                        None => {
                            return Err(
                                Errors::VariableNotFound {
                                    variable_name: name,
                                    variable_names: vars.key_strings(),
                                    position: self.position,
                                },
                            );
                        },
                    }
                };
                match range {
                    Some(e) => {
                        let mut out = match e.generate(variable, &self.position) {
                            Ok(v) => v,
                            Err(err) => {
                                return Err(err);
                            },
                        };
                        let ghost dv0 = out.deep_view();
                        if out.len() > 0 {
                            let mut head = out.remove(0);
                            head.add_labels(self.labels);
                            out.insert(0, head);
                            proof {
                                assert(out.deep_view() =~= dv0.update(
                                    0,
                                    dv0[0].with_labels(ev.labels),
                                ));
                            }
                        }
                        Ok(out)
                    },
                    None => {
                        if variable.len() == 0 {
                            return Err(
                                Errors::EmptyVariable { varname: name, position: self.position },
                            );
                        }
                        let mut out: Vec<Value> = Vec::new();
                        let mut i: usize = 0;
                        let ghost src = variable.deep_view();
                        while i < variable.len()
                            invariant
                                i <= variable@.len(),
                                src == variable.deep_view(),
                                src.len() == variable@.len(),
                                out@.len() == i,
                                out.deep_view() == src.subrange(0, i as int),
                            decreases variable@.len() - i,
                        {
                            let ghost dv0 = out.deep_view();
                            out.push(variable[i].duplicate());
                            proof {
                                assert(out.deep_view() =~= dv0.push(src[i as int]));
                                assert(out.deep_view() =~= src.subrange(0, i + 1));
                            }
                            i = i + 1;
                        }
                        proof {
                            assert(out.deep_view() =~= src);
                        }
                        let ghost dv0 = out.deep_view();
                        let mut head = out.remove(0);
                        head.add_labels(self.labels);
                        out.insert(0, head);
                        proof {
                            assert(out.deep_view() =~= dv0.update(
                                0,
                                dv0[0].with_labels(ev.labels),
                            ));
                        }
                        Ok(out)
                    },
                }
            },
        }
    }
}

/// What evaluating a literal yields: a label, relative or absolute
/// instruction is one cell of the matching kind carrying the slot's labels; a
/// variable instruction resolves the name — `self` stands for the call
/// arguments directly, any other name is looked up in the table — and
/// substitutes its cell list, sliced and padded when a range is given, the
/// slot's labels attached to the first produced cell. An unknown name, or an
/// un-ranged substitution of an empty list, is an error.
pub open spec fn spec_execute(
    e: ExpressionView,
    vars: Seq<(Seq<char>, Seq<ValueView>)>,
    args: Seq<ValueView>,
) -> Result<Seq<ValueView>, ErrorView> {
    match e.instruction {
        LiteralInstructionView::Label(name, added) => Ok(
            seq![
                ValueView::Label {
                    labels: e.labels,
                    name,
                    delta: added,
                    position: e.position,
                },
            ],
        ),
        LiteralInstructionView::Relative(added) => Ok(
            seq![ValueView::Relative { labels: e.labels, delta: added, position: e.position }],
        ),
        LiteralInstructionView::Value(value) => Ok(
            seq![ValueView::Absolute { labels: e.labels, value, position: e.position }],
        ),
        LiteralInstructionView::Variable(name, range) => {
            let looked = if name == "self"@ {
                Some(args)
            } else {
                vars_lookup(vars, name)
            };
            if looked is None {
                Err(
                    ErrorView::VariableNotFound {
                        variable_name: name,
                        variable_names: vars_keys(vars),
                        position: e.position,
                    },
                )
            } else {
                let variable = looked->0;
                match range {
                    Some(r) => match spec_generate(r, variable, e.position) {
                        Err(err) => Err(err),
                        Ok(out) => if out.len() > 0 {
                            Ok(out.update(0, out[0].with_labels(e.labels)))
                        } else {
                            Ok(out)
                        },
                    },
                    None => if variable.len() == 0 {
                        Err(ErrorView::EmptyVariable { varname: name, position: e.position })
                    } else {
                        Ok(variable.update(0, variable[0].with_labels(e.labels)))
                    },
                }
            }
        },
    }
}

/// The already-kept entries followed by what remains to keep: how the
/// filtering loop relates to [`phase2_only`].
pub open spec fn map_phase2_prefix(
    done: Seq<Phase2View>,
    all: Seq<CompilationTokenView>,
    i: int,
) -> Result<Seq<Phase2View>, ()> {
    match phase2_only(all.skip(i)) {
        Ok(rest) => Ok(done + rest),
        Err(()) => Err(()),
    }
}

/// Keeping a reduced entry advances the filtering loop.
proof fn lemma_map_phase2_step(done: Seq<Phase2View>, all: Seq<CompilationTokenView>, i: int)
    requires
        0 <= i < all.len(),
        all[i] is Phase2,
    ensures
        map_phase2_prefix(done, all, i) == map_phase2_prefix(
            done.push(all[i]->Phase2_0),
            all,
            i + 1,
        ),
{
    assert(all.skip(i)[0] == all[i]);
    assert(all.skip(i).drop_first() =~= all.skip(i + 1));
    match phase2_only(all.skip(i + 1)) {
        Ok(rest) => {
            assert(done + (seq![all[i]->Phase2_0] + rest) =~= done.push(all[i]->Phase2_0) + rest);
        },
        Err(()) => {},
    }
}

/// A stray punctuation mark fails the filtering loop.
proof fn lemma_map_phase2_err(done: Seq<Phase2View>, all: Seq<CompilationTokenView>, i: int)
    requires
        0 <= i < all.len(),
        all[i] is Phase1,
    ensures
        map_phase2_prefix(done, all, i) == Err::<Seq<Phase2View>, ()>(()),
{
    assert(all.skip(i)[0] == all[i]);
}

/// An exhausted input ends the filtering loop with what was kept.
proof fn lemma_map_phase2_done(done: Seq<Phase2View>, all: Seq<CompilationTokenView>, i: int)
    requires
        i == all.len(),
    ensures
        map_phase2_prefix(done, all, i) == Ok::<Seq<Phase2View>, ()>(done),
{
    assert(all.skip(i).len() == 0);
    assert(done + Seq::<Phase2View>::empty() =~= done);
}

impl Phase2Token {
    /// A fresh copy of this entry.
    pub fn duplicate(&self) -> (r: Phase2Token)
        ensures
            r@ == self@,
    {
        match self {
            Phase2Token::Variable(s) => Phase2Token::Variable(s.clone()),
            Phase2Token::Number(n) => Phase2Token::Number(*n),
            Phase2Token::LabelAssign(s) => Phase2Token::LabelAssign(s.clone()),
            Phase2Token::Label(s, n) => Phase2Token::Label(s.clone(), *n),
            Phase2Token::Range(a, b) => Phase2Token::Range(
                *a,
                match b {
                    Some(x) => Some(*x),
                    None => None,
                },
            ),
            Phase2Token::Relative(n) => Phase2Token::Relative(*n),
            Phase2Token::VariableIndexed(s) => Phase2Token::VariableIndexed(s.clone()),
            Phase2Token::Or(n) => Phase2Token::Or(*n),
            Phase2Token::OrRelative(n) => Phase2Token::OrRelative(*n),
            Phase2Token::OrLabel(s, n) => Phase2Token::OrLabel(s.clone(), *n),
        }
    }
}

} // verus!
