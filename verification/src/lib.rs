//! Compiler for the Cythan macro-assembly language.
//!
//! Source text is lexed into tokens, grouped into a bracket tree, built into
//! an instruction tree, expanded by a hygienic macro engine into a flat list
//! of cells, and finally resolved into a single array of machine integers.

#![verifier::loop_isolation(false)]

use vstd::prelude::*;

pub mod decimal;
pub mod distance;
pub mod errors;
pub mod executor;
pub mod expression;
pub mod expression_compiler;
pub mod machine;
pub mod position;
pub mod quick_fix;
pub mod range;
pub mod stage1;
pub mod stage2;
pub mod stage3;
pub mod strutil;
pub mod tokens;
pub mod value;

use crate::errors::{ErrorView, Errors};
use crate::executor::{
    find_char, find_char_exec, lemma_find_char, spec_compute_tokens, Context, CtxView,
};
use crate::stage1::{spec_stage1, Stage1Token, Stage1View};
use crate::stage2::{spec_stage2, Stage2Token, Stage2View};
use crate::stage3::{spec_stage3, Stage3Token, Stage3View};
use crate::strutil::chars_vec;
use vstd::string::StrSliceExecFns;

verus! {

/// A line with one trailing carriage return removed.
pub open spec fn strip_cr(t: Seq<char>) -> Seq<char> {
    if t.len() > 0 && t.last() == '\r' {
        t.drop_last()
    } else {
        t
    }
}

/// The lines of the source from position `start` on: split at every newline,
/// each line stripped of one trailing carriage return, with no final empty
/// line after a trailing newline.
pub open spec fn lines_from(s: Seq<char>, start: int) -> Seq<Seq<char>>
    decreases s.len() - start,
    via lines_from_decreases
{
    if start < 0 || start >= s.len() {
        Seq::empty()
    } else {
        let k = find_char(s, '\n', start);
        if k >= s.len() {
            seq![strip_cr(s.subrange(start, s.len() as int))]
        } else {
            seq![strip_cr(s.subrange(start, k))] + lines_from(s, k + 1)
        }
    }
}

#[via_fn]
proof fn lines_from_decreases(s: Seq<char>, start: int) {
    if 0 <= start < s.len() {
        lemma_find_char(s, '\n', start);
    }
}

/// The lines of the whole source.
pub open spec fn spec_lines(s: Seq<char>) -> Seq<Seq<char>> {
    lines_from(s, 0)
}

/// Splits the source into lines.
fn lines_vec(s: &str) -> (r: Vec<String>)
    ensures
        r.deep_view() == spec_lines(s@),
        r@.len() <= s@.len(),
{
    let cs = chars_vec(s);
    let n = cs.len();
    let mut out: Vec<String> = Vec::new();
    let mut start: usize = 0;
    proof {
        assert(out.deep_view() =~= Seq::<Seq<char>>::empty());
    }
    while start < n
        invariant
            start <= n,
            n == s@.len(),
            cs@ == s@,
            out@.len() <= start,
            out.deep_view() + lines_from(s@, start as int) == spec_lines(s@),
        decreases n - start,
    {
        let k = find_char_exec(&cs, '\n', start);
        proof {
            lemma_find_char(s@, '\n', start as int);
        }
        let mut e: usize = k;
        if e > start && cs[e - 1] == '\r' {
            e = e - 1;
        }
        let line = s.substring_char(start, e).to_owned();
        let ghost dv0 = out.deep_view();
        out.push(line);
        proof {
            if k < n {
                assert(line@ =~= strip_cr(s@.subrange(start as int, k as int)));
                assert(out.deep_view() =~= dv0 + seq![
                    strip_cr(s@.subrange(start as int, k as int)),
                ]);
            } else {
                assert(line@ =~= strip_cr(s@.subrange(start as int, s@.len() as int)));
                assert(out.deep_view() =~= dv0 + seq![
                    strip_cr(s@.subrange(start as int, s@.len() as int)),
                ]);
                assert(lines_from(s@, k + 1) =~= Seq::<Seq<char>>::empty());
            }
        }
        if k < n {
            start = k + 1;
        } else {
            start = n;
        }
    }
    out
}

/// The lexed tokens of every line in order, lines numbered from one.
pub open spec fn all_line_tokens(lines: Seq<Seq<char>>, i: int) -> Seq<Stage1View>
    decreases lines.len() - i,
{
    if i < 0 || i >= lines.len() {
        Seq::empty()
    } else {
        spec_stage1(lines[i], i + 1) + all_line_tokens(lines, i + 1)
    }
}

/// The grouped token tree of the whole source.
pub open spec fn spec_generate_tokens_stage2(s: Seq<char>) -> Result<Seq<Stage2View>, ErrorView> {
    spec_stage2(all_line_tokens(spec_lines(s), 0))
}

/// The instruction tree of the whole source.
pub open spec fn spec_generate_tokens(s: Seq<char>) -> Result<Seq<Stage3View>, ErrorView> {
    match spec_generate_tokens_stage2(s) {
        Err(e) => Err(e),
        Ok(s2) => spec_stage3(s2),
    }
}

/// The machine image of the whole source, or its first error.
pub open spec fn spec_compile(s: Seq<char>) -> Result<Seq<int>, ErrorView> {
    match spec_generate_tokens(s) {
        Err(e) => Err(e),
        Ok(ast) => spec_compute_tokens(
            CtxView { functions: Seq::empty(), variables: Seq::empty() },
            ast,
        ),
    }
}

/// Lexes every line of the source, lines numbered from one.
fn lex_lines(string: &str) -> (r: Vec<Stage1Token>)
    ensures
        r.deep_view() == all_line_tokens(spec_lines(string@), 0),
{
    let lines = lines_vec(string);
    let ghost lv = lines.deep_view();
    let mut out: Vec<Stage1Token> = Vec::new();
    let mut i: usize = 0;
    proof {
        assert(out.deep_view() =~= Seq::<Stage1View>::empty());
        assert(out.deep_view() + all_line_tokens(lv, 0) =~= all_line_tokens(lv, 0));
    }
    while i < lines.len()
        invariant
            i <= lines@.len(),
            lv == lines.deep_view(),
            lv.len() == lines@.len(),
            lines@.len() <= string@.len(),
            out.deep_view() + all_line_tokens(lv, i as int) == all_line_tokens(lv, 0),
        decreases lines@.len() - i,
    {
        let mut toks = crate::stage1::compile(lines[i].as_str(), i + 1);
        let ghost dv0 = out.deep_view();
        let ghost tv = toks.deep_view();
        out.append(&mut toks);
        proof {
            assert(out.deep_view() =~= dv0 + tv);
            assert(out.deep_view() + all_line_tokens(lv, i + 1) =~= dv0 + all_line_tokens(
                lv,
                i as int,
            ));
        }
        i = i + 1;
    }
    proof {
        assert(all_line_tokens(lv, i as int).len() == 0);
        assert(out.deep_view() =~= out.deep_view() + all_line_tokens(lv, i as int));
    }
    out
}

/// Compiles the whole source to its machine image: the result promised by
/// [`spec_compile`].
pub fn compile(input: &str) -> (r: Result<Vec<usize>, Errors>)
    ensures
        match r {
            Ok(out) => spec_compile(input@) == Ok::<Seq<int>, ErrorView>(
                Seq::new(out@.len(), |i: int| out@[i] as int),
            ),
            Err(e) => spec_compile(input@) == Err::<Seq<int>, ErrorView>(e@),
        },
{
    let tokens = match generate_tokens(input) {
        Ok(t) => t,
        Err(e) => {
            return Err(e);
        },
    };
    let mut context = Context::default();
    proof {
        assert(context@ =~= CtxView { functions: Seq::empty(), variables: Seq::empty() });
    }
    context.compute(&tokens)
}

/// Builds the instruction tree of the whole source: the result promised by
/// [`spec_generate_tokens`].
pub fn generate_tokens(string: &str) -> (r: Result<Vec<Stage3Token>, Errors>)
    ensures
        match r {
            Ok(v) => spec_generate_tokens(string@) == Ok::<Seq<Stage3View>, ErrorView>(
                v.deep_view(),
            ),
            Err(e) => spec_generate_tokens(string@) == Err::<Seq<Stage3View>, ErrorView>(e@),
        },
{
    let grouped = match generate_tokens_stage2(string) {
        Ok(v) => v,
        Err(e) => {
            return Err(e);
        },
    };
    proof {
        crate::stage2::lemma_s2_deep_view(grouped@);
    }
    crate::stage3::compile(grouped.as_slice())
}

/// Groups the whole source's tokens into a tree: the result promised by
/// [`spec_generate_tokens_stage2`].
pub fn generate_tokens_stage2(string: &str) -> (r: Result<Vec<Stage2Token>, Errors>)
    ensures
        match r {
            Ok(v) => spec_generate_tokens_stage2(string@) == Ok::<Seq<Stage2View>, ErrorView>(
                v.deep_view(),
            ),
            Err(e) => spec_generate_tokens_stage2(string@) == Err::<Seq<Stage2View>, ErrorView>(
                e@,
            ),
        },
{
    let toks = lex_lines(string);
    crate::stage2::compile(toks.as_slice())
}

} // verus!
