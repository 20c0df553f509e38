//! The macro-expansion engine: holds the function and variable tables,
//! evaluates instruction trees into flat cell lists, hygienically renames
//! the labels a macro expansion declares, and resolves the result into the
//! machine image.

use vstd::prelude::*;

use crate::errors::{ErrorView, Errors};
use crate::expression::spec_execute;
use crate::machine::wrap_inc;
use crate::stage3::{dup_vec, lemma_s3_deep_view, Stage3Token, Stage3View};
use crate::strutil::str_eq;
use crate::value::{
    spec_resolve, vars_insert, vars_keys, vars_lookup, Value, ValueView, VarMap,
};
use vstd::string::{StrSliceExecFns, StringExecFns};

verus! {

/// How many nested macro calls one compilation may expand. Without a bound,
/// a self-calling macro would recurse until the stack ran out; a fixed
/// budget keeps every run terminating, and no realistic program approaches
/// it.
pub const RECURSION_LIMIT: u64 = 1024;

/// The function table: each macro name bound to its body, one entry per
/// name, a later definition replacing the earlier in place.
pub struct FnMap {
    pub entries: Vec<(String, Vec<Stage3Token>)>,
}

impl View for FnMap {
    type V = Seq<(Seq<char>, Seq<Stage3View>)>;

    /// The table as a sequence of (name, body) pairs.
    open spec fn view(&self) -> Seq<(Seq<char>, Seq<Stage3View>)> {
        Seq::new(
            self.entries@.len(),
            |i: int| (self.entries@[i].0@, self.entries@[i].1.deep_view()),
        )
    }
}

/// The body bound to `name`: the first entry with that key.
pub open spec fn fns_lookup(m: Seq<(Seq<char>, Seq<Stage3View>)>, name: Seq<char>) -> Option<
    Seq<Stage3View>,
>
    decreases m.len(),
{
    if m.len() == 0 {
        None
    } else if m[0].0 == name {
        Some(m[0].1)
    } else {
        fns_lookup(m.drop_first(), name)
    }
}

/// Binding `name`: updates the entry holding it, or appends a new entry.
pub open spec fn fns_insert(
    m: Seq<(Seq<char>, Seq<Stage3View>)>,
    name: Seq<char>,
    body: Seq<Stage3View>,
) -> Seq<(Seq<char>, Seq<Stage3View>)>
    decreases m.len(),
{
    if m.len() == 0 {
        seq![(name, body)]
    } else if m[0].0 == name {
        seq![(name, body)] + m.drop_first()
    } else {
        seq![m[0]] + fns_insert(m.drop_first(), name, body)
    }
}

/// The names bound by the table, in order.
pub open spec fn fns_keys(m: Seq<(Seq<char>, Seq<Stage3View>)>) -> Seq<Seq<char>> {
    Seq::new(m.len(), |i: int| m[i].0)
}

/// When the first `i` keys differ from `name` and entry `i` holds it,
/// inserting updates entry `i` in place.
proof fn lemma_fns_insert_at(
    m: Seq<(Seq<char>, Seq<Stage3View>)>,
    name: Seq<char>,
    body: Seq<Stage3View>,
    i: int,
)
    requires
        0 <= i < m.len(),
        forall|j: int| 0 <= j < i ==> m[j].0 != name,
        m[i].0 == name,
    ensures
        fns_insert(m, name, body) == m.update(i, (name, body)),
    decreases i,
{
    if i == 0 {
        assert(fns_insert(m, name, body) =~= m.update(0, (name, body)));
    } else {
        lemma_fns_insert_at(m.drop_first(), name, body, i - 1);
        assert(fns_insert(m, name, body) =~= m.update(i, (name, body)));
    }
}

/// Inserting a name no entry holds appends a new entry.
proof fn lemma_fns_insert_absent(
    m: Seq<(Seq<char>, Seq<Stage3View>)>,
    name: Seq<char>,
    body: Seq<Stage3View>,
)
    requires
        forall|j: int| 0 <= j < m.len() ==> m[j].0 != name,
    ensures
        fns_insert(m, name, body) == m.push((name, body)),
    decreases m.len(),
{
    if m.len() == 0 {
        assert(fns_insert(m, name, body) =~= m.push((name, body)));
    } else {
        lemma_fns_insert_absent(m.drop_first(), name, body);
        assert(fns_insert(m, name, body) =~= m.push((name, body)));
    }
}

impl FnMap {
    /// An empty table.
    pub fn new() -> (r: FnMap)
        ensures
            r@ == Seq::<(Seq<char>, Seq<Stage3View>)>::empty(),
    {
        let r = FnMap { entries: Vec::new() };
        proof {
            assert(r@ =~= Seq::<(Seq<char>, Seq<Stage3View>)>::empty());
        }
        r
    }

    /// The body bound to `name`, if any.
    pub fn get(&self, name: &str) -> (r: Option<&Vec<Stage3Token>>)
        ensures
            match r {
                Some(body) => fns_lookup(self@, name@) == Some(body.deep_view()),
                None => fns_lookup(self@, name@) == Option::<Seq<Stage3View>>::None,
            },
    {
        proof {
            assert(self@.skip(0) =~= self@);
        }
        let mut i: usize = 0;
        while i < self.entries.len()
            invariant
                i <= self.entries@.len(),
                fns_lookup(self@, name@) == fns_lookup(self@.skip(i as int), name@),
            decreases self.entries@.len() - i,
        {
            proof {
                assert(self@.skip(i as int)[0] == self@[i as int]);
                assert(self@.skip(i as int).drop_first() =~= self@.skip(i + 1));
            }
            if str_eq(self.entries[i].0.as_str(), name) {
                return Some(&self.entries[i].1);
            }
            i = i + 1;
        }
        proof {
            assert(self@.skip(i as int).len() == 0);
        }
        None
    }

    /// Binds `name` to `body`, replacing any previous binding.
    pub fn insert(&mut self, name: &str, body: Vec<Stage3Token>)
        ensures
            final(self)@ == fns_insert(old(self)@, name@, body.deep_view()),
    {
        let ghost bv = body.deep_view();
        let mut i: usize = 0;
        while i < self.entries.len()
            invariant
                i <= self.entries@.len(),
                self@ == old(self)@,
                forall|j: int| 0 <= j < i ==> self@[j].0 != name@,
            decreases self.entries@.len() - i,
        {
            if str_eq(self.entries[i].0.as_str(), name) {
                self.entries.set(i, (name.to_owned(), body));
                proof {
                    lemma_fns_insert_at(old(self)@, name@, bv, i as int);
                    assert(self@ =~= old(self)@.update(i as int, (name@, bv)));
                }
                return ;
            }
            i = i + 1;
        }
        self.entries.push((name.to_owned(), body));
        proof {
            lemma_fns_insert_absent(old(self)@, name@, bv);
            assert(self@ =~= old(self)@.push((name@, bv)));
        }
    }

    /// The names bound, in first-definition order.
    pub fn key_strings(&self) -> (r: Vec<String>)
        ensures
            r.deep_view() == fns_keys(self@),
    {
        let mut out: Vec<String> = Vec::new();
        let mut i: usize = 0;
        while i < self.entries.len()
            invariant
                i <= self.entries@.len(),
                out@.len() == i,
                forall|j: int| 0 <= j < i ==> out.deep_view()[j] == self@[j].0,
            decreases self.entries@.len() - i,
        {
            let ghost dv0 = out.deep_view();
            out.push(self.entries[i].0.clone());
            proof {
                assert forall|j: int| 0 <= j < i + 1 implies out.deep_view()[j] == self@[j].0 by {
                    if j < i {
                        assert(out.deep_view()[j] == dv0[j]);
                    } else {
                        assert(out@[j as int]@ == self.entries@[i as int].0@);
                    }
                }
            }
            i = i + 1;
        }
        proof {
            assert(out.deep_view() =~= fns_keys(self@));
        }
        out
    }
}

/// The index of the first `c` at or after `from` in `s`, or the length when
/// there is none.
pub open spec fn find_char(s: Seq<char>, c: char, from: int) -> int
    decreases s.len() - from,
{
    if from < 0 || from >= s.len() {
        s.len() as int
    } else if s[from] == c {
        from
    } else {
        find_char(s, c, from + 1)
    }
}

/// Whether `s` holds `c` anywhere.
pub open spec fn has_char(s: Seq<char>, c: char) -> bool {
    exists|i: int| 0 <= i < s.len() && s[i] == c
}

/// `find_char` finds exactly the first occurrence.
pub proof fn lemma_find_char(s: Seq<char>, c: char, from: int)
    requires
        0 <= from <= s.len(),
    ensures
        from <= find_char(s, c, from) <= s.len(),
        find_char(s, c, from) < s.len() ==> s[find_char(s, c, from)] == c,
        forall|j: int| from <= j < find_char(s, c, from) ==> s[j] != c,
    decreases s.len() - from,
{
    if from < s.len() && s[from] != c {
        lemma_find_char(s, c, from + 1);
    }
}

/// Finds the first `c` at or after `from`, or the length when none.
pub fn find_char_exec(cs: &Vec<char>, c: char, from: usize) -> (r: usize)
    requires
        from <= cs@.len(),
    ensures
        r as int == find_char(cs@, c, from as int),
        r <= cs@.len(),
    decreases cs@.len() - from,
{
    let mut i: usize = from;
    while i < cs.len()
        invariant
            from <= i <= cs@.len(),
            find_char(cs@, c, from as int) == find_char(cs@, c, i as int),
        decreases cs@.len() - i,
    {
        if cs[i] == c {
            return i;
        }
        i = i + 1;
    }
    i
}

/// Whether `cs` holds `c` anywhere.
pub fn has_char_exec(cs: &Vec<char>, c: char) -> (r: bool)
    ensures
        r == has_char(cs@, c),
{
    let mut i: usize = 0;
    while i < cs.len()
        invariant
            i <= cs@.len(),
            forall|j: int| 0 <= j < i ==> cs@[j] != c,
        decreases cs@.len() - i,
    {
        if cs[i] == c {
            return true;
        }
        i = i + 1;
    }
    false
}

/// The rename table of one expansion as (original, renamed) pairs.
pub open spec fn rt_view(rt: &Vec<(String, String)>) -> Seq<(Seq<char>, Seq<char>)> {
    Seq::new(rt@.len(), |i: int| (rt@[i].0@, rt@[i].1@))
}

/// The renamed form recorded for `name`: the first entry with that key.
pub open spec fn rt_lookup(rt: Seq<(Seq<char>, Seq<char>)>, name: Seq<char>) -> Option<Seq<char>>
    decreases rt.len(),
{
    if rt.len() == 0 {
        None
    } else if rt[0].0 == name {
        Some(rt[0].1)
    } else {
        rt_lookup(rt.drop_first(), name)
    }
}

/// The counter's wrap-around increment.
pub open spec fn wrap64(x: int) -> int {
    x % (u64::MAX as int + 1)
}

/// The fresh name minted for `name` under counter value `c`.
pub open spec fn fresh_label(c: int, name: Seq<char>) -> Seq<char> {
    "label"@ + crate::decimal::spec_digits(c as nat) + seq!['_'] + name
}

/// Renames `name` through the table: the recorded form when one exists,
/// else a fresh name under the incremented counter, recorded for reuse.
pub open spec fn rename_core(name: Seq<char>, rt: Seq<(Seq<char>, Seq<char>)>, c: int) -> (
    Seq<char>,
    Seq<(Seq<char>, Seq<char>)>,
    int,
) {
    match rt_lookup(rt, name) {
        Some(n) => (n, rt, c),
        None => {
            let c1 = wrap64(c + 1);
            let f = fresh_label(c1, name);
            (f, rt.push((name, f)), c1)
        },
    }
}

/// How one name — a declared label or a label reference — is renamed: a
/// name beginning with `#` is shared and passes through unchanged.
pub open spec fn spec_try_rename(
    name: Seq<char>,
    rt: Seq<(Seq<char>, Seq<char>)>,
    c: int,
) -> (Seq<char>, Seq<(Seq<char>, Seq<char>)>, int) {
    if name.len() > 0 && name[0] == '#' {
        (name, rt, c)
    } else {
        rename_core(name, rt, c)
    }
}

/// Renames a whole declared-label list, threading the table and counter.
pub open spec fn spec_remap(
    names: Seq<Seq<char>>,
    i: int,
    acc: Seq<Seq<char>>,
    rt: Seq<(Seq<char>, Seq<char>)>,
    c: int,
) -> (Seq<Seq<char>>, Seq<(Seq<char>, Seq<char>)>, int)
    decreases names.len() - i,
{
    if i < 0 || i >= names.len() {
        (acc, rt, c)
    } else {
        let (n1, rt1, c1) = spec_try_rename(names[i], rt, c);
        spec_remap(names, i + 1, acc.push(n1), rt1, c1)
    }
}

/// Whether any cell of the expansion declares `name`.
pub open spec fn batch_declares(code: Seq<ValueView>, name: Seq<char>) -> bool {
    exists|j: int| 0 <= j < code.len() && code[j].declares(name)
}

/// How one cell of an expansion is renamed: a label reference to a name the
/// expansion itself declares goes through the table, and every declared name
/// is renamed independently.
pub open spec fn spec_rename_value(
    v: ValueView,
    code: Seq<ValueView>,
    rt: Seq<(Seq<char>, Seq<char>)>,
    c: int,
) -> (ValueView, Seq<(Seq<char>, Seq<char>)>, int) {
    match v {
        ValueView::Label { labels, name, delta, position } => {
            let (name1, rt1, c1) = if batch_declares(code, name) {
                spec_try_rename(name, rt, c)
            } else {
                (name, rt, c)
            };
            let (labels1, rt2, c2) = spec_remap(labels, 0, Seq::empty(), rt1, c1);
            (ValueView::Label { labels: labels1, name: name1, delta, position }, rt2, c2)
        },
        ValueView::Absolute { labels, value, position } => {
            let (labels1, rt1, c1) = spec_remap(labels, 0, Seq::empty(), rt, c);
            (ValueView::Absolute { labels: labels1, value, position }, rt1, c1)
        },
        ValueView::Relative { labels, delta, position } => {
            let (labels1, rt1, c1) = spec_remap(labels, 0, Seq::empty(), rt, c);
            (ValueView::Relative { labels: labels1, delta, position }, rt1, c1)
        },
    }
}

/// Renames an expansion's cells in order, threading the table and counter.
pub open spec fn spec_rename_list(
    code: Seq<ValueView>,
    i: int,
    acc: Seq<ValueView>,
    rt: Seq<(Seq<char>, Seq<char>)>,
    c: int,
) -> (Seq<ValueView>, Seq<(Seq<char>, Seq<char>)>, int)
    decreases code.len() - i,
{
    if i < 0 || i >= code.len() {
        (acc, rt, c)
    } else {
        let (v1, rt1, c1) = spec_rename_value(code[i], code, rt, c);
        spec_rename_list(code, i + 1, acc.push(v1), rt1, c1)
    }
}

/// The hygienic renaming of one macro expansion: a fresh, empty table, every
/// internally declared label renamed, `#`-marked names shared through.
pub open spec fn spec_rename(code: Seq<ValueView>, c: int) -> (Seq<ValueView>, int) {
    let (out, rt, c1) = spec_rename_list(code, 0, Seq::empty(), Seq::empty(), c);
    (out, c1)
}

/// Hygiene, first half: fresh names minted under distinct counter values
/// never collide, whatever source names they embed — each fresh name carries
/// its counter's decimal rendering between a fixed prefix and an underscore,
/// and no decimal digit is an underscore. Two expansions therefore cannot
/// clash as long as the counter values they consume differ.
pub proof fn lemma_fresh_names_distinct(c1: int, c2: int, n1: Seq<char>, n2: Seq<char>)
    requires
        0 <= c1,
        0 <= c2,
        c1 != c2,
    ensures
        fresh_label(c1, n1) != fresh_label(c2, n2),
{
    let d1 = crate::decimal::spec_digits(c1 as nat);
    let d2 = crate::decimal::spec_digits(c2 as nat);
    crate::decimal::lemma_digits_injective(c1 as nat, c2 as nat);
    crate::decimal::lemma_digits_no_underscore(c1 as nat);
    crate::decimal::lemma_digits_no_underscore(c2 as nat);
    reveal_strlit("label");
    let p = "label"@;
    let s1 = fresh_label(c1, n1);
    let s2 = fresh_label(c2, n2);
    if s1 == s2 {
        if d1.len() < d2.len() {
            assert(s1[p.len() as int + d1.len() as int] == '_');
            assert(s2[p.len() as int + d1.len() as int] == d2[d1.len() as int]);
            assert(false);
        } else if d2.len() < d1.len() {
            assert(s2[p.len() as int + d2.len() as int] == '_');
            assert(s1[p.len() as int + d2.len() as int] == d1[d2.len() as int]);
            assert(false);
        } else {
            assert forall|k: int| 0 <= k < d1.len() implies d1[k] == d2[k] by {
                assert(s1[p.len() as int + k] == d1[k]);
                assert(s2[p.len() as int + k] == d2[k]);
            }
            assert(d1 =~= d2);
            assert(false);
        }
    }
}

/// Hygiene, second half: names beginning with `#` are exempt from renaming.
/// Renaming an expansion keeps every such declared label, and every such
/// label reference, exactly where and as it was — so every invocation of a
/// macro resolves its shared labels against the same names.
pub proof fn lemma_rename_preserves_shared_labels(code: Seq<ValueView>, c: int)
    ensures
        ({
            let (out, c1) = spec_rename(code, c);
            out.len() == code.len() && (forall|k: int|
                0 <= k < code.len() ==> shared_parts_kept(code[k], #[trigger] out[k]))
        }),
{
    lemma_rename_list_shared(code, 0, Seq::empty(), Seq::empty(), c);
}

/// What renaming may never change about a cell: its `#`-led declared
/// labels, position by position, and a `#`-led label reference.
pub open spec fn shared_parts_kept(before: ValueView, after: ValueView) -> bool {
    &&& after.labels().len() == before.labels().len()
    &&& (forall|m: int|
        0 <= m < before.labels().len() && (#[trigger] before.labels()[m]).len() > 0
            && before.labels()[m][0] == '#' ==> after.labels()[m] == before.labels()[m])
    &&& (before is Label && before->Label_name.len() > 0 && before->Label_name[0] == '#'
        ==> after is Label && after->Label_name == before->Label_name)
}

/// The renamed declared-label list keeps its length and its `#`-led
/// entries.
proof fn lemma_remap_shared(
    names: Seq<Seq<char>>,
    i: int,
    acc: Seq<Seq<char>>,
    rt: Seq<(Seq<char>, Seq<char>)>,
    c: int,
)
    requires
        0 <= i <= names.len(),
    ensures
        ({
            let (out, rt1, c1) = spec_remap(names, i, acc, rt, c);
            out.len() == acc.len() + (names.len() - i) && (forall|k: int|
                0 <= k < acc.len() ==> out[k] == acc[k]) && (forall|k: int|
                i <= k < names.len() && (#[trigger] names[k]).len() > 0 && names[k][0] == '#'
                    ==> out[acc.len() + (k - i)] == names[k])
        }),
    decreases names.len() - i,
{
    if i < names.len() {
        let (n1, rt1, c1) = spec_try_rename(names[i], rt, c);
        lemma_remap_shared(names, i + 1, acc.push(n1), rt1, c1);
    }
}

/// Renaming a cell list keeps its length and every cell's shared parts.
proof fn lemma_rename_list_shared(
    code: Seq<ValueView>,
    i: int,
    acc: Seq<ValueView>,
    rt: Seq<(Seq<char>, Seq<char>)>,
    c: int,
)
    requires
        0 <= i <= code.len(),
        acc.len() == i,
        forall|k: int| 0 <= k < i ==> shared_parts_kept(code[k], #[trigger] acc[k]),
    ensures
        ({
            let (out, rt1, c1) = spec_rename_list(code, i, acc, rt, c);
            out.len() == code.len() && (forall|k: int|
                0 <= k < code.len() ==> shared_parts_kept(code[k], #[trigger] out[k]))
        }),
    decreases code.len() - i,
{
    if i < code.len() {
        let (v1, rt1, c1) = spec_rename_value(code[i], code, rt, c);
        match code[i] {
            ValueView::Label { labels, name, delta, position } => {
                let (name1, rta, ca) = if batch_declares(code, name) {
                    spec_try_rename(name, rt, c)
                } else {
                    (name, rt, c)
                };
                lemma_remap_shared(labels, 0, Seq::empty(), rta, ca);
            },
            ValueView::Absolute { labels, value, position } => {
                lemma_remap_shared(labels, 0, Seq::empty(), rt, c);
            },
            ValueView::Relative { labels, delta, position } => {
                lemma_remap_shared(labels, 0, Seq::empty(), rt, c);
            },
        }
        assert(shared_parts_kept(code[i], v1));
        lemma_rename_list_shared(code, i + 1, acc.push(v1), rt1, c1);
    }
}

/// Whether `n` is a name minted under a counter value in `(lo, hi]`.
pub open spec fn minted_in(n: Seq<char>, lo: int, hi: int) -> bool {
    exists|k: int, orig: Seq<char>| lo < k <= hi && n == fresh_label(k, orig)
}

/// Whether every renamed form the table records was minted in `(lo, hi]`.
pub open spec fn rt_minted(rt: Seq<(Seq<char>, Seq<char>)>, lo: int, hi: int) -> bool {
    forall|j: int| 0 <= j < rt.len() ==> minted_in(#[trigger] rt[j].1, lo, hi)
}

/// How many names one cell carries: its declared labels, and its reference.
pub open spec fn cell_name_count(v: ValueView) -> int {
    1 + v.labels().len() as int
}

/// How many names the cells of `code` from `i` on carry in all.
pub open spec fn total_cell_names(code: Seq<ValueView>, i: int) -> int
    decreases code.len() - i,
{
    if i < 0 || i >= code.len() {
        0
    } else {
        cell_name_count(code[i]) + total_cell_names(code, i + 1)
    }
}

/// Name counts are nonnegative.
proof fn lemma_total_cell_names_nonneg(code: Seq<ValueView>, i: int)
    ensures
        total_cell_names(code, i) >= 0,
    decreases code.len() - i,
{
    if 0 <= i < code.len() {
        lemma_total_cell_names_nonneg(code, i + 1);
    }
}

/// A successful table lookup returns one of the recorded renamed forms.
proof fn lemma_rt_lookup_some(rt: Seq<(Seq<char>, Seq<char>)>, name: Seq<char>)
    requires
        rt_lookup(rt, name) is Some,
    ensures
        exists|j: int| 0 <= j < rt.len() && rt[j].1 == rt_lookup(rt, name)->0,
    decreases rt.len(),
{
    if rt.len() > 0 && rt[0].0 != name {
        lemma_rt_lookup_some(rt.drop_first(), name);
        let j = choose|j: int|
            0 <= j < rt.drop_first().len() && rt.drop_first()[j].1 == rt_lookup(
                rt.drop_first(),
                name,
            )->0;
        assert(rt[j + 1].1 == rt_lookup(rt, name)->0);
    }
}

/// A minted name stays minted as the interval grows.
proof fn lemma_minted_monotone(n: Seq<char>, lo: int, h1: int, h2: int)
    requires
        minted_in(n, lo, h1),
        h1 <= h2,
    ensures
        minted_in(n, lo, h2),
{
    let (k, orig) = choose|k: int, orig: Seq<char>| lo < k <= h1 && n == fresh_label(k, orig);
    assert(lo < k <= h2 && n == fresh_label(k, orig));
}

/// The core renaming step answers with a name minted in `(lo, c1]` and keeps
/// the table's names minted, advancing the counter at most one.
proof fn lemma_core_minted(name: Seq<char>, rt: Seq<(Seq<char>, Seq<char>)>, c: int, lo: int)
    requires
        0 <= lo <= c,
        c < u64::MAX as int,
        rt_minted(rt, lo, c),
    ensures
        ({
            let (n1, rt1, c1) = rename_core(name, rt, c);
            c <= c1 <= c + 1 && rt_minted(rt1, lo, c1) && minted_in(n1, lo, c1)
        }),
{
    match rt_lookup(rt, name) {
        Some(n) => {
            lemma_rt_lookup_some(rt, name);
        },
        None => {
            vstd::arithmetic::div_mod::lemma_small_mod((c + 1) as nat, (u64::MAX + 1) as nat);
            let c1 = wrap64(c + 1);
            assert(c1 == c + 1);
            assert(fresh_label(c1, name) == fresh_label(c1, name));
            assert(minted_in(fresh_label(c1, name), lo, c1));
            assert forall|j: int|
                0 <= j < rt.push((name, fresh_label(c1, name))).len() implies minted_in(
                #[trigger] rt.push((name, fresh_label(c1, name)))[j].1,
                lo,
                c1,
            ) by {
                if j < rt.len() {
                    lemma_minted_monotone(rt[j].1, lo, c, c1);
                }
            }
        },
    }
}

/// Renaming a declared-label list keeps each entry either exactly as it was
/// or minted in the batch's counter interval.
proof fn lemma_remap_minted(
    names: Seq<Seq<char>>,
    i: int,
    acc: Seq<Seq<char>>,
    rt: Seq<(Seq<char>, Seq<char>)>,
    c: int,
    lo: int,
)
    requires
        0 <= i <= names.len(),
        0 <= lo <= c,
        c + (names.len() - i) <= u64::MAX as int,
        rt_minted(rt, lo, c),
    ensures
        ({
            let (out, rt1, c1) = spec_remap(names, i, acc, rt, c);
            c <= c1 <= c + (names.len() - i) && rt_minted(rt1, lo, c1) && out.len() == acc.len()
                + (names.len() - i) && (forall|j: int| 0 <= j < acc.len() ==> out[j] == acc[j])
                && (forall|k: int|
                i <= k < names.len() ==> out[acc.len() + (k - i)] == names[k] || minted_in(
                    #[trigger] out[acc.len() + (k - i)],
                    lo,
                    c1,
                ))
        }),
    decreases names.len() - i,
{
    if i < names.len() {
        let (n1, rta, ca) = spec_try_rename(names[i], rt, c);
        let shared = names[i].len() > 0 && names[i][0] == '#';
        if !shared {
            lemma_core_minted(names[i], rt, c, lo);
        }
        lemma_remap_minted(names, i + 1, acc.push(n1), rta, ca, lo);
        let (out, rt1, c1) = spec_remap(names, i, acc, rt, c);
        if !shared {
            lemma_minted_monotone(n1, lo, ca, c1);
        }
        let acc1 = acc.push(n1);
        assert forall|k: int|
            i <= k < names.len() implies out[acc.len() + (k - i)] == names[k] || minted_in(
            #[trigger] out[acc.len() + (k - i)],
            lo,
            c1,
        ) by {
            if k == i {
                assert(out[acc.len() as int] == acc1[acc.len() as int]);
            } else {
                assert(out[acc1.len() as int + (k - (i + 1))] == names[k] || minted_in(
                    out[acc1.len() as int + (k - (i + 1))],
                    lo,
                    c1,
                ));
                assert(acc1.len() as int + (k - (i + 1)) == acc.len() + (k - i));
            }
        }
    }
}

/// Renaming one cell keeps each of its names either as it was or minted.
proof fn lemma_rename_value_minted(
    v: ValueView,
    code: Seq<ValueView>,
    rt: Seq<(Seq<char>, Seq<char>)>,
    c: int,
    lo: int,
)
    requires
        0 <= lo <= c,
        c + cell_name_count(v) <= u64::MAX as int,
        rt_minted(rt, lo, c),
    ensures
        ({
            let (v1, rt1, c1) = spec_rename_value(v, code, rt, c);
            c <= c1 <= c + cell_name_count(v) && rt_minted(rt1, lo, c1) && v1.labels().len()
                == v.labels().len() && (forall|m: int|
                0 <= m < v.labels().len() ==> v1.labels()[m] == v.labels()[m] || minted_in(
                    #[trigger] v1.labels()[m],
                    lo,
                    c1,
                )) && (v1 is Label ==> v is Label && (v1->Label_name == v->Label_name || minted_in(
                v1->Label_name,
                lo,
                c1,
            )))
        }),
{
    match v {
        ValueView::Label { labels, name, delta, position } => {
            let (name1, rta, ca) = if batch_declares(code, name) {
                spec_try_rename(name, rt, c)
            } else {
                (name, rt, c)
            };
            if batch_declares(code, name) && !(name.len() > 0 && name[0] == '#') {
                lemma_core_minted(name, rt, c, lo);
            }
            lemma_remap_minted(labels, 0, Seq::empty(), rta, ca, lo);
            let (v1, rt1, c1) = spec_rename_value(v, code, rt, c);
            if name1 != name {
                lemma_minted_monotone(name1, lo, ca, c1);
            }
            assert forall|m: int|
                0 <= m < v.labels().len() implies v1.labels()[m] == v.labels()[m] || minted_in(
                #[trigger] v1.labels()[m],
                lo,
                c1,
            ) by {
                assert(v1.labels()[Seq::<Seq<char>>::empty().len() as int + (m - 0)] == labels[m]
                    || minted_in(
                    v1.labels()[Seq::<Seq<char>>::empty().len() as int + (m - 0)],
                    lo,
                    c1,
                ));
            }
        },
        ValueView::Absolute { labels, value, position } => {
            lemma_remap_minted(labels, 0, Seq::empty(), rt, c, lo);
            let (v1, rt1, c1) = spec_rename_value(v, code, rt, c);
            assert forall|m: int|
                0 <= m < v.labels().len() implies v1.labels()[m] == v.labels()[m] || minted_in(
                #[trigger] v1.labels()[m],
                lo,
                c1,
            ) by {
                assert(v1.labels()[Seq::<Seq<char>>::empty().len() as int + (m - 0)] == labels[m]
                    || minted_in(
                    v1.labels()[Seq::<Seq<char>>::empty().len() as int + (m - 0)],
                    lo,
                    c1,
                ));
            }
        },
        ValueView::Relative { labels, delta, position } => {
            lemma_remap_minted(labels, 0, Seq::empty(), rt, c, lo);
            let (v1, rt1, c1) = spec_rename_value(v, code, rt, c);
            assert forall|m: int|
                0 <= m < v.labels().len() implies v1.labels()[m] == v.labels()[m] || minted_in(
                #[trigger] v1.labels()[m],
                lo,
                c1,
            ) by {
                assert(v1.labels()[Seq::<Seq<char>>::empty().len() as int + (m - 0)] == labels[m]
                    || minted_in(
                    v1.labels()[Seq::<Seq<char>>::empty().len() as int + (m - 0)],
                    lo,
                    c1,
                ));
            }
        },
    }
}

/// Renaming a cell list keeps every name either as it was or minted in the
/// batch's counter interval, and advances the counter by at most one per
/// name.
proof fn lemma_rename_list_minted(
    code: Seq<ValueView>,
    i: int,
    acc: Seq<ValueView>,
    rt: Seq<(Seq<char>, Seq<char>)>,
    c: int,
    lo: int,
)
    requires
        0 <= i <= code.len(),
        0 <= lo <= c,
        c + total_cell_names(code, i) <= u64::MAX as int,
        rt_minted(rt, lo, c),
        acc.len() == i,
    ensures
        ({
            let (out, rt1, c1) = spec_rename_list(code, i, acc, rt, c);
            c <= c1 <= c + total_cell_names(code, i) && out.len() == code.len() && (forall|j: int|
                0 <= j < acc.len() ==> out[j] == acc[j]) && (forall|k: int|
                i <= k < code.len() ==> cell_names_kept_or_minted(
                    code[k],
                    #[trigger] out[k],
                    lo,
                    c1,
                ))
        }),
    decreases code.len() - i,
{
    lemma_total_cell_names_nonneg(code, i);
    if i < code.len() {
        lemma_total_cell_names_nonneg(code, i + 1);
        let (v1, rt1, c1) = spec_rename_value(code[i], code, rt, c);
        lemma_rename_value_minted(code[i], code, rt, c, lo);
        lemma_rename_list_minted(code, i + 1, acc.push(v1), rt1, c1, lo);
        let (out, rtf, cf) = spec_rename_list(code, i, acc, rt, c);
        assert(cell_names_kept_or_minted(code[i], v1, lo, c1));
        lemma_cell_names_monotone(code[i], v1, lo, c1, cf);
        assert(out[acc.len() as int] == v1);
    }
}

/// What renaming may do to one cell's names: keep each exactly as it was, or
/// replace it by a name minted in `(lo, hi]`.
pub open spec fn cell_names_kept_or_minted(
    before: ValueView,
    after: ValueView,
    lo: int,
    hi: int,
) -> bool {
    &&& after.labels().len() == before.labels().len()
    &&& (forall|m: int|
        0 <= m < before.labels().len() ==> after.labels()[m] == before.labels()[m] || minted_in(
            #[trigger] after.labels()[m],
            lo,
            hi,
        ))
    &&& (after is Label ==> before is Label && (after->Label_name == before->Label_name
        || minted_in(after->Label_name, lo, hi)))
}

/// Kept-or-minted survives widening the interval.
proof fn lemma_cell_names_monotone(
    before: ValueView,
    after: ValueView,
    lo: int,
    h1: int,
    h2: int,
)
    requires
        cell_names_kept_or_minted(before, after, lo, h1),
        h1 <= h2,
    ensures
        cell_names_kept_or_minted(before, after, lo, h2),
{
    assert forall|m: int|
        0 <= m < before.labels().len() implies after.labels()[m] == before.labels()[m]
        || minted_in(#[trigger] after.labels()[m], lo, h2) by {
        if after.labels()[m] != before.labels()[m] {
            lemma_minted_monotone(after.labels()[m], lo, h1, h2);
        }
    }
    if after is Label && after->Label_name != before->Label_name {
        lemma_minted_monotone(after->Label_name, lo, h1, h2);
    }
}

/// Hygiene, the whole story: one expansion only replaces names by names
/// minted in its own counter interval, and two successive expansions mint in
/// disjoint intervals — so, as long as the counter has room, the fresh names
/// of two calls of the same macro can never collide, while every name the
/// renaming left alone (`#`-shared or externally declared) passes through
/// exactly as written.
pub proof fn lemma_two_expansions_mint_disjoint_names(
    code1: Seq<ValueView>,
    code2: Seq<ValueView>,
    c0: int,
)
    requires
        0 <= c0,
        c0 + total_cell_names(code1, 0) + total_cell_names(code2, 0) <= u64::MAX as int,
    ensures
        ({
            let (out1, c1) = spec_rename(code1, c0);
            let (out2, c2) = spec_rename(code2, c1);
            &&& c0 <= c1 <= c2
            &&& (forall|k: int|
                0 <= k < code1.len() ==> cell_names_kept_or_minted(
                    code1[k],
                    #[trigger] out1[k],
                    c0,
                    c1,
                ))
            &&& (forall|k: int|
                0 <= k < code2.len() ==> cell_names_kept_or_minted(
                    code2[k],
                    #[trigger] out2[k],
                    c1,
                    c2,
                ))
            &&& (forall|n1: Seq<char>, n2: Seq<char>|
                minted_in(n1, c0, c1) && minted_in(n2, c1, c2) ==> n1 != n2)
        }),
{
    lemma_total_cell_names_nonneg(code1, 0);
    lemma_total_cell_names_nonneg(code2, 0);
    let (out1, c1) = spec_rename(code1, c0);
    lemma_rename_list_minted(code1, 0, Seq::empty(), Seq::empty(), c0, c0);
    let (out2, c2) = spec_rename(code2, c1);
    lemma_rename_list_minted(code2, 0, Seq::empty(), Seq::empty(), c1, c1);
    assert forall|n1: Seq<char>, n2: Seq<char>|
        minted_in(n1, c0, c1) && minted_in(n2, c1, c2) implies n1 != n2 by {
        let (k1, o1) = choose|k: int, orig: Seq<char>| c0 < k <= c1 && n1 == fresh_label(k, orig);
        let (k2, o2) = choose|k: int, orig: Seq<char>| c1 < k <= c2 && n2 == fresh_label(k, orig);
        lemma_fresh_names_distinct(k1, k2, o1, o2);
    }
}

/// Looks up a recorded renaming.
fn rt_get(rt: &Vec<(String, String)>, name: &str) -> (r: Option<String>)
    ensures
        match r {
            Some(n) => rt_lookup(rt_view(rt), name@) == Some(n@),
            None => rt_lookup(rt_view(rt), name@) == Option::<Seq<char>>::None,
        },
{
    proof {
        assert(rt_view(rt).skip(0) =~= rt_view(rt));
    }
    let mut i: usize = 0;
    while i < rt.len()
        invariant
            i <= rt@.len(),
            rt_lookup(rt_view(rt), name@) == rt_lookup(rt_view(rt).skip(i as int), name@),
        decreases rt@.len() - i,
    {
        proof {
            assert(rt_view(rt).skip(i as int)[0] == rt_view(rt)[i as int]);
            assert(rt_view(rt).skip(i as int).drop_first() =~= rt_view(rt).skip(i + 1));
        }
        if str_eq(rt[i].0.as_str(), name) {
            return Some(rt[i].1.clone());
        }
        i = i + 1;
    }
    proof {
        assert(rt_view(rt).skip(i as int).len() == 0);
    }
    None
}

/// Mints the fresh name for `name` under counter value `c`.
fn fresh_label_exec(c: u64, name: &str) -> (r: String)
    ensures
        r@ == fresh_label(c as int, name@),
{
    let mut out = String::new();
    out.append("label");
    let digits = crate::decimal::u64_to_string(c);
    out.append(digits.as_str());
    out.append("_");
    out.append(name);
    proof {
        reveal_strlit("_");
        assert("_"@ =~= seq!['_']);
        assert(out@ =~= fresh_label(c as int, name@));
    }
    out
}

/// Renames `name` through the live table, minting and recording a fresh name
/// when it is not yet known.
fn rename_core_exec(name: &str, current_int: &mut u64, labels: &mut Vec<(String, String)>) -> (r:
    String)
    ensures
        ({
            let (n1, rt1, c1) = rename_core(name@, rt_view(old(labels)), *old(current_int) as int);
            r@ == n1 && rt_view(final(labels)) == rt1 && *final(current_int) as int == c1
        }),
{
    match rt_get(labels, name) {
        Some(e) => e,
        None => {
            let c1 = wrap_inc(*current_int);
            *current_int = c1;
            let fresh = fresh_label_exec(c1, name);
            let ghost rt0 = rt_view(labels);
            labels.push((name.to_owned(), fresh.clone()));
            proof {
                assert(rt_view(labels) =~= rt0.push((name@, fresh@)));
            }
            fresh
        },
    }
}

/// Renames a label reference in place: `#`-led names are shared and kept.
pub fn try_rename_string(
    reference: &mut String,
    current_int: &mut u64,
    labels: &mut Vec<(String, String)>,
)
    ensures
        ({
            let (n1, rt1, c1) = spec_try_rename(
                old(reference)@,
                rt_view(old(labels)),
                *old(current_int) as int,
            );
            final(reference)@ == n1 && rt_view(final(labels)) == rt1 && *final(current_int) as int
                == c1
        }),
{
    let is_shared = reference.as_str().unicode_len() > 0 && {
        let c = reference.as_str().get_char(0);
        c == '#'
    };
    if is_shared {
        return ;
    }
    let renamed = rename_core_exec(reference.as_str(), current_int, labels);
    *reference = renamed;
}

/// Renames a declared-label list: names beginning with `#` are shared and
/// kept.
pub fn remap_labels(
    set: &Vec<String>,
    current_int: &mut u64,
    labels: &mut Vec<(String, String)>,
) -> (r: Vec<String>)
    ensures
        ({
            let (names1, rt1, c1) = spec_remap(
                set.deep_view(),
                0,
                Seq::empty(),
                rt_view(old(labels)),
                *old(current_int) as int,
            );
            r.deep_view() == names1 && rt_view(final(labels)) == rt1 && *final(current_int) as int
                == c1
        }),
{
    let ghost all = set.deep_view();
    let mut out: Vec<String> = Vec::new();
    let mut i: usize = 0;
    proof {
        assert(out.deep_view() =~= Seq::<Seq<char>>::empty());
    }
    while i < set.len()
        invariant
            i <= set@.len(),
            all == set.deep_view(),
            all.len() == set@.len(),
            spec_remap(all, 0, Seq::empty(), rt_view(old(labels)), *old(current_int) as int)
                == spec_remap(
                all,
                i as int,
                out.deep_view(),
                rt_view(labels),
                *current_int as int,
            ),
        decreases set@.len() - i,
    {
        let name = &set[i];
        let ghost dv0 = out.deep_view();
        let ghost rt_i = rt_view(labels);

        let ghost c_i = *current_int as int;
        let shared = name.as_str().unicode_len() > 0 && {
            let c = name.as_str().get_char(0);
            c == '#'
        };
        if shared {
            out.push(name.clone());
            proof {
                assert(out.deep_view() =~= dv0.push(all[i as int]));
            }
        } else {
            let renamed = rename_core_exec(name.as_str(), current_int, labels);
            out.push(renamed);
            proof {
                assert(out.deep_view() =~= dv0.push(rename_core(all[i as int], rt_i, c_i).0));
            }
        }
        i = i + 1;
    }
    out
}


/// Whether any cell of `code` declares `name`.
fn batch_declares_exec(code: &Vec<Value>, name: &str) -> (r: bool)
    ensures
        r == batch_declares(code.deep_view(), name@),
{
    let mut i: usize = 0;
    while i < code.len()
        invariant
            i <= code@.len(),
            forall|j: int| 0 <= j < i ==> !code.deep_view()[j].declares(name@),
        decreases code@.len() - i,
    {
        if code[i].does_define_label(name) {
            proof {
                assert(code.deep_view()[i as int].declares(name@));
            }
            return true;
        }
        i = i + 1;
    }
    false
}

/// Hygienically renames one macro expansion: every label the expansion
/// itself declares is given a fresh name through a fresh table, shared
/// `#`-names pass through, and the counter is threaded on.
pub fn rename_labels(code: Vec<Value>, current_int: &mut u64) -> (r: Vec<Value>)
    ensures
        ({
            let (out, c1) = spec_rename(code.deep_view(), *old(current_int) as int);
            r.deep_view() == out && *final(current_int) as int == c1
        }),
{
    let ghost all = code.deep_view();
    let ghost c0 = *old(current_int) as int;
    let mut rt: Vec<(String, String)> = Vec::new();
    let mut out: Vec<Value> = Vec::new();
    let mut i: usize = 0;
    proof {
        assert(out.deep_view() =~= Seq::<ValueView>::empty());
        assert(rt_view(&rt) =~= Seq::<(Seq<char>, Seq<char>)>::empty());
    }
    while i < code.len()
        invariant
            i <= code@.len(),
            all == code.deep_view(),
            all.len() == code@.len(),
            spec_rename_list(all, 0, Seq::empty(), Seq::empty(), c0) == spec_rename_list(
                all,
                i as int,
                out.deep_view(),
                rt_view(&rt),
                *current_int as int,
            ),
        decreases code@.len() - i,
    {
        let ghost dv0 = out.deep_view();
        let ghost rt_i = rt_view(&rt);
        let ghost c_i = *current_int as int;
        match &code[i] {
            Value::Label(lbls, label, d, p) => {
                let mut name1 = label.clone();
                if batch_declares_exec(&code, label.as_str()) {
                    try_rename_string(&mut name1, current_int, &mut rt);
                }
                let lbls1 = remap_labels(lbls, current_int, &mut rt);
                out.push(Value::Label(lbls1, name1, *d, *p));
                proof {
                    assert(out.deep_view() =~= dv0.push(
                        spec_rename_value(all[i as int], all, rt_i, c_i).0,
                    ));
                }
            },
            Value::Absolute(lbls, v, p) => {
                let lbls1 = remap_labels(lbls, current_int, &mut rt);
                out.push(Value::Absolute(lbls1, *v, *p));
                proof {
                    assert(out.deep_view() =~= dv0.push(
                        spec_rename_value(all[i as int], all, rt_i, c_i).0,
                    ));
                }
            },
            Value::Relative(lbls, d, p) => {
                let lbls1 = remap_labels(lbls, current_int, &mut rt);
                out.push(Value::Relative(lbls1, *d, *p));
                proof {
                    assert(out.deep_view() =~= dv0.push(
                        spec_rename_value(all[i as int], all, rt_i, c_i).0,
                    ));
                }
            },
        }
        i = i + 1;
    }
    out
}

/// The engine state: the function and variable tables of one compilation.
pub struct Context {
    pub functions: FnMap,
    pub variables: VarMap,
}

/// The mathematical image of a [`Context`].
#[verifier::ext_equal]
pub ghost struct CtxView {
    pub functions: Seq<(Seq<char>, Seq<Stage3View>)>,
    pub variables: Seq<(Seq<char>, Seq<ValueView>)>,
}

impl View for Context {
    type V = CtxView;

    open spec fn view(&self) -> CtxView {
        CtxView { functions: self.functions@, variables: self.variables@ }
    }
}

impl Default for Context {
    /// A context with empty tables.
    fn default() -> (r: Context)
        ensures
            r@.functions.len() == 0,
            r@.variables.len() == 0,
    {
        Context { functions: FnMap::new(), variables: VarMap::new() }
    }
}

/// Whether a call name carries a `'label:` prefix.
pub open spec fn has_label_prefix(name: Seq<char>) -> bool {
    name.len() > 0 && name[0] == '\'' && has_char(name, ':')
}

/// The macro name a call refers to: with a `'label:` prefix, the segment
/// between the first and second colon; otherwise the whole name.
pub open spec fn call_fn_name(name: Seq<char>) -> Seq<char> {
    if has_label_prefix(name) {
        let k1 = find_char(name, ':', 0);
        let k2 = find_char(name, ':', k1 + 1);
        name.subrange(k1 + 1, k2)
    } else {
        name
    }
}

/// The label a call's prefix attaches to the expansion's first cell, if any.
pub open spec fn call_label(name: Seq<char>) -> Option<Seq<char>> {
    if has_label_prefix(name) {
        Some(name.subrange(1, find_char(name, ':', 0)))
    } else {
        None
    }
}

/// One evaluation step: a definition updates a table and yields no cells, an
/// executable yields its literal's cells, and a call evaluates its arguments
/// in the caller's scope, expands the callee's body against them, renames
/// the expansion hygienically, and attaches the call's label, if any, to the
/// first produced cell. A call deeper than the recursion budget is an error.
pub open spec fn spec_exec_token(
    ctx: CtxView,
    token: Stage3View,
    args: Seq<ValueView>,
    counter: int,
    fuel: nat,
) -> Result<(CtxView, int, Seq<ValueView>), ErrorView>
    decreases fuel, token, 0int,
{
    match token {
        Stage3View::FunctionCreation(pos, name, code) => Ok(
            (
                CtxView { functions: fns_insert(ctx.functions, name, code), ..ctx },
                counter,
                Seq::empty(),
            ),
        ),
        Stage3View::VariableDefinition(pos, name, toks) => match spec_exec_tokens(
            ctx,
            toks,
            0,
            args,
            counter,
            Seq::empty(),
            fuel,
        ) {
            Err(e) => Err(e),
            Ok((ctx1, c1, vals)) => Ok(
                (
                    CtxView { variables: vars_insert(ctx1.variables, name, vals), ..ctx1 },
                    c1,
                    Seq::empty(),
                ),
            ),
        },
        Stage3View::Executable(pos, expr) => match spec_execute(expr, ctx.variables, args) {
            Err(e) => Err(e),
            Ok(vals) => Ok((ctx, counter, vals)),
        },
        Stage3View::FunctionExecution(pos, name, argtoks) => {
            let fnname = call_fn_name(name);
            match fns_lookup(ctx.functions, fnname) {
                None => Err(
                    ErrorView::FunctionNotFound {
                        function_name: fnname,
                        function_names: fns_keys(ctx.functions),
                        position: pos,
                    },
                ),
                Some(code) => if fuel <= 0 {
                    Err(ErrorView::RecursionLimit { position: pos })
                } else {
                    match spec_exec_tokens(ctx, argtoks, 0, args, counter, Seq::empty(), fuel) {
                        Err(e) => Err(e),
                        Ok((ctx1, c1, cargs)) => match spec_exec_tokens(
                            ctx1,
                            code,
                            0,
                            cargs,
                            c1,
                            Seq::empty(),
                            (fuel - 1) as nat,
                        ) {
                            Err(e) => Err(e),
                            Ok((ctx2, c2, body_out)) => {
                                let (renamed, c3) = spec_rename(body_out, c2);
                                let out = match call_label(name) {
                                    Some(l) => if renamed.len() > 0 {
                                        renamed.update(0, renamed[0].with_labels(seq![l]))
                                    } else {
                                        renamed
                                    },
                                    None => renamed,
                                };
                                Ok((ctx2, c3, out))
                            },
                        },
                    }
                },
            }
        },
    }
}

/// Evaluates a list of instructions in order, threading the tables and the
/// counter and concatenating the produced cells.
pub open spec fn spec_exec_tokens(
    ctx: CtxView,
    toks: Seq<Stage3View>,
    i: int,
    args: Seq<ValueView>,
    counter: int,
    acc: Seq<ValueView>,
    fuel: nat,
) -> Result<(CtxView, int, Seq<ValueView>), ErrorView>
    decreases fuel, toks, toks.len() - i,
{
    if i < 0 || i >= toks.len() {
        Ok((ctx, counter, acc))
    } else {
        match spec_exec_token(ctx, toks[i], args, counter, fuel) {
            Err(e) => Err(e),
            Ok((ctx1, c1, vals)) => spec_exec_tokens(ctx1, toks, i + 1, args, c1, acc + vals, fuel),
        }
    }
}

/// What one whole program evaluates and resolves to, from empty tables.
pub open spec fn spec_compute_tokens(ctx: CtxView, tokens: Seq<Stage3View>) -> Result<
    Seq<int>,
    ErrorView,
> {
    match spec_exec_tokens(ctx, tokens, 0, Seq::empty(), 0, Seq::empty(), RECURSION_LIMIT as nat) {
        Err(e) => Err(e),
        Ok((_ctx, _c, vals)) => spec_resolve(vals),
    }
}

impl Context {
    /// Evaluates one instruction: the result promised by
    /// [`spec_exec_token`], at the full recursion budget.
    pub fn execute(
        &mut self,
        token: &Stage3Token,
        function_data: &Vec<Value>,
        current_int: &mut u64,
    ) -> (r: Result<Vec<Value>, Errors>)
        ensures
            match r {
                Ok(out) => spec_exec_token(
                    old(self)@,
                    token@,
                    function_data.deep_view(),
                    *old(current_int) as int,
                    RECURSION_LIMIT as nat,
                ) == Ok::<(CtxView, int, Seq<ValueView>), ErrorView>(
                    (final(self)@, *final(current_int) as int, out.deep_view()),
                ),
                Err(e) => spec_exec_token(
                    old(self)@,
                    token@,
                    function_data.deep_view(),
                    *old(current_int) as int,
                    RECURSION_LIMIT as nat,
                ) == Err::<(CtxView, int, Seq<ValueView>), ErrorView>(e@),
            },
    {
        self.execute_with_fuel(token, function_data, current_int, RECURSION_LIMIT)
    }

    /// Evaluates one instruction within a recursion budget.
    fn execute_with_fuel(
        &mut self,
        token: &Stage3Token,
        function_data: &Vec<Value>,
        current_int: &mut u64,
        fuel: u64,
    ) -> (r: Result<Vec<Value>, Errors>)
        ensures
            match r {
                Ok(out) => spec_exec_token(
                    old(self)@,
                    token@,
                    function_data.deep_view(),
                    *old(current_int) as int,
                    fuel as nat,
                ) == Ok::<(CtxView, int, Seq<ValueView>), ErrorView>(
                    (final(self)@, *final(current_int) as int, out.deep_view()),
                ),
                Err(e) => spec_exec_token(
                    old(self)@,
                    token@,
                    function_data.deep_view(),
                    *old(current_int) as int,
                    fuel as nat,
                ) == Err::<(CtxView, int, Seq<ValueView>), ErrorView>(e@),
            },
        decreases fuel, token@, 0int,
    {
        match token {
            Stage3Token::FunctionCreation(_position, name, code) => {
                self.functions.insert(name.as_str(), dup_vec(code));
                let out: Vec<Value> = Vec::new();
                proof {
                    lemma_s3_deep_view(code@);
                    assert(out.deep_view() =~= Seq::<ValueView>::empty());
                }
                Ok(out)
            },
            Stage3Token::VariableDefinition(_position, name, value) => {
                proof {
                    lemma_s3_deep_view(value@);
                    assert(decreases_to!(token@ => token@->VariableDefinition_2));
                    assert(value.deep_view() =~= token@->VariableDefinition_2);
                }
                let result = match self.execute_tokens(value, function_data, current_int, fuel) {
                    Ok(vals) => vals,
                    Err(e) => {
                        return Err(e);
                    },
                };
                self.variables.insert(name.as_str(), result);
                let out: Vec<Value> = Vec::new();
                proof {
                    assert(out.deep_view() =~= Seq::<ValueView>::empty());
                }
                Ok(out)
            },
            Stage3Token::Executable(_position, name) => {
                name.duplicate().execute(&self.variables, function_data)
            },
            Stage3Token::FunctionExecution(position, name, args) => {
                let (fnname, label) = split_call_name(name);
                let code = match self.functions.get(fnname.as_str()) {
                    Some(e) => dup_vec(e),
                    None => {
                        return Err(
                            Errors::FunctionNotFound {
                                position: *position,
                                function_names: self.functions.key_strings(),
                                function_name: fnname,
                            },
                        );
                    },
                };
                if fuel == 0 {
                    return Err(Errors::RecursionLimit { position: *position });
                }
                proof {
                    lemma_s3_deep_view(args@);
                    assert(decreases_to!(token@ => token@->FunctionExecution_2));
                    assert(args.deep_view() =~= token@->FunctionExecution_2);
                }
                let cargs = match self.execute_tokens(args, function_data, current_int, fuel) {
                    Ok(vals) => vals,
                    Err(e) => {
                        return Err(e);
                    },
                };
                let body_out = match self.execute_tokens(&code, &cargs, current_int, fuel - 1) {
                    Ok(vals) => vals,
                    Err(e) => {
                        return Err(e);
                    },
                };
                let mut out = rename_labels(body_out, current_int);
                match label {
                    Some(l) => {
                        if out.len() > 0 {
                            let ghost dv0 = out.deep_view();
                            let ghost lv = l@;
                            let mut head = out.remove(0);
                            let mut one: Vec<String> = Vec::new();
                            one.push(l);
                            proof {
                                assert(one.deep_view() =~= seq![lv]);
                            }
                            head.add_labels(one);
                            out.insert(0, head);
                            proof {
                                assert(out.deep_view() =~= dv0.update(
                                    0,
                                    dv0[0].with_labels(seq![lv]),
                                ));
                            }
                        }
                        Ok(out)
                    },
                    None => Ok(out),
                }
            },
        }
    }

    /// Evaluates a list of instructions in order, concatenating the cells.
    fn execute_tokens(
        &mut self,
        tokens: &Vec<Stage3Token>,
        function_data: &Vec<Value>,
        current_int: &mut u64,
        fuel: u64,
    ) -> (r: Result<Vec<Value>, Errors>)
        ensures
            match r {
                Ok(out) => spec_exec_tokens(
                    old(self)@,
                    tokens.deep_view(),
                    0,
                    function_data.deep_view(),
                    *old(current_int) as int,
                    Seq::empty(),
                    fuel as nat,
                ) == Ok::<(CtxView, int, Seq<ValueView>), ErrorView>(
                    (final(self)@, *final(current_int) as int, out.deep_view()),
                ),
                Err(e) => spec_exec_tokens(
                    old(self)@,
                    tokens.deep_view(),
                    0,
                    function_data.deep_view(),
                    *old(current_int) as int,
                    Seq::empty(),
                    fuel as nat,
                ) == Err::<(CtxView, int, Seq<ValueView>), ErrorView>(e@),
            },
        decreases fuel, tokens.deep_view(), tokens@.len() + 1,
    {
        let ghost all = tokens.deep_view();
        let ghost args = function_data.deep_view();
        let mut out: Vec<Value> = Vec::new();
        let mut i: usize = 0;
        proof {
            assert(out.deep_view() =~= Seq::<ValueView>::empty());
        }
        while i < tokens.len()
            invariant
                i <= tokens@.len(),
                all == tokens.deep_view(),
                all.len() == tokens@.len(),
                args == function_data.deep_view(),
                spec_exec_tokens(
                    old(self)@,
                    all,
                    0,
                    args,
                    *old(current_int) as int,
                    Seq::empty(),
                    fuel as nat,
                ) == spec_exec_tokens(
                    self@,
                    all,
                    i as int,
                    args,
                    *current_int as int,
                    out.deep_view(),
                    fuel as nat,
                ),
            decreases tokens@.len() - i,
        {
            proof {
                assert(decreases_to!(all => all[i as int]));
                assert(all[i as int] == tokens@[i as int]@);
            }
            let vals = match self.execute_with_fuel(
                &tokens[i],
                function_data,
                current_int,
                fuel,
            ) {
                Ok(vals) => vals,
                Err(e) => {
                    return Err(e);
                },
            };
            let ghost dv0 = out.deep_view();
            let mut vals = vals;
            let ghost vv = vals.deep_view();
            out.append(&mut vals);
            proof {
                assert(out.deep_view() =~= dv0 + vv);
            }
            i = i + 1;
        }
        Ok(out)
    }

    /// Evaluates a whole program from this context and resolves the cells
    /// into the machine image: the result promised by
    /// [`spec_compute_tokens`].
    pub fn compute(&mut self, tokens: &Vec<Stage3Token>) -> (r: Result<Vec<usize>, Errors>)
        ensures
            match r {
                Ok(out) => spec_compute_tokens(old(self)@, tokens.deep_view()) == Ok::<
                    Seq<int>,
                    ErrorView,
                >(Seq::new(out@.len(), |i: int| out@[i] as int)),
                Err(e) => spec_compute_tokens(old(self)@, tokens.deep_view()) == Err::<
                    Seq<int>,
                    ErrorView,
                >(e@),
            },
    {
        let p: Vec<Value> = Vec::new();
        let mut integer: u64 = 0;
        proof {
            assert(p.deep_view() =~= Seq::<ValueView>::empty());
        }
        let list = match self.execute_tokens(tokens, &p, &mut integer, RECURSION_LIMIT) {
            Ok(vals) => vals,
            Err(e) => {
                return Err(e);
            },
        };
        crate::value::resolve(&list)
    }
}

/// Splits a call name: a `'label:real` name yields the real macro name and
/// the label; a plain name stands alone.
fn split_call_name(name: &String) -> (r: (String, Option<String>))
    ensures
        r.0@ == call_fn_name(name@),
        match r.1 {
            Some(l) => call_label(name@) == Some(l@),
            None => call_label(name@) == Option::<Seq<char>>::None,
        },
{
    let cs = crate::strutil::chars_vec(name.as_str());
    let quoted = cs.len() > 0 && cs[0] == '\'';
    let has_colon = has_char_exec(&cs, ':');
    if quoted && has_colon {
        let k1 = find_char_exec(&cs, ':', 0);
        proof {
            lemma_find_char(name@, ':', 0);
            let w = choose|w: int| 0 <= w < name@.len() && name@[w] == ':';
            assert(name@[w] == ':');
            assert(k1 as int <= w);
            assert(name@[0] == '\'');
            assert(k1 >= 1);
            lemma_find_char(name@, ':', k1 as int + 1);
        }
        let k2 = find_char_exec(&cs, ':', k1 + 1);
        let fnname = name.as_str().substring_char(k1 + 1, k2).to_owned();
        let label = name.as_str().substring_char(1, k1).to_owned();
        (fnname, Some(label))
    } else {
        (name.clone(), None)
    }
}

} // verus!
