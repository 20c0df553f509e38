//! The intermediate value model: the not-yet-resolved cells produced by
//! macro expansion, and the final label-resolution step that turns each cell
//! into a concrete machine integer.

use vstd::prelude::*;

use crate::errors::{ErrorView, Errors};
use crate::machine::mask_addr;
use crate::position::Position;
use crate::strutil::{clone_strings, names_contain, str_eq};

verus! {

/// One future machine cell. The first field of every variant is the set of
/// label names this cell *declares* at its output index.
#[derive(Debug)]
pub enum Value {
    /// Resolves to its own output index plus the offset.
    Relative(Vec<String>, isize, Position),
    /// Resolves to the stored integer itself.
    Absolute(Vec<String>, usize, Position),
    /// Resolves to the address of the named label, plus the offset.
    Label(Vec<String>, String, isize, Position),
}

/// The mathematical image of a [`Value`].
#[verifier::ext_equal]
pub ghost enum ValueView {
    Relative { labels: Seq<Seq<char>>, delta: int, position: Position },
    Absolute { labels: Seq<Seq<char>>, value: int, position: Position },
    Label { labels: Seq<Seq<char>>, name: Seq<char>, delta: int, position: Position },
}

impl View for Value {
    type V = ValueView;

    open spec fn view(&self) -> ValueView {
        match self {
            Value::Relative(labels, delta, position) => ValueView::Relative {
                labels: labels.deep_view(),
                delta: *delta as int,
                position: *position,
            },
            Value::Absolute(labels, value, position) => ValueView::Absolute {
                labels: labels.deep_view(),
                value: *value as int,
                position: *position,
            },
            Value::Label(labels, name, delta, position) => ValueView::Label {
                labels: labels.deep_view(),
                name: name@,
                delta: *delta as int,
                position: *position,
            },
        }
    }
}

impl DeepView for Value {
    type V = ValueView;

    open spec fn deep_view(&self) -> ValueView {
        self.view()
    }
}

impl ValueView {
    /// The label names declared by this cell.
    pub open spec fn labels(self) -> Seq<Seq<char>> {
        match self {
            ValueView::Relative { labels, .. } => labels,
            ValueView::Absolute { labels, .. } => labels,
            ValueView::Label { labels, .. } => labels,
        }
    }

    /// Whether this cell declares the label `name`.
    pub open spec fn declares(self, name: Seq<char>) -> bool {
        self.labels().contains(name)
    }

    /// The source span of this cell.
    pub open spec fn position(self) -> Position {
        match self {
            ValueView::Relative { position, .. } => position,
            ValueView::Absolute { position, .. } => position,
            ValueView::Label { position, .. } => position,
        }
    }

    /// The same cell with more declared labels.
    pub open spec fn with_labels(self, more: Seq<Seq<char>>) -> ValueView {
        match self {
            ValueView::Relative { labels, delta, position } => ValueView::Relative {
                labels: labels + more,
                delta,
                position,
            },
            ValueView::Absolute { labels, value, position } => ValueView::Absolute {
                labels: labels + more,
                value,
                position,
            },
            ValueView::Label { labels, name, delta, position } => ValueView::Label {
                labels: labels + more,
                name,
                delta,
                position,
            },
        }
    }
}

/// The index of the last cell before `k` that declares `name`, if any.
pub open spec fn last_decl_before(values: Seq<ValueView>, name: Seq<char>, k: int) -> Option<int>
    decreases k,
{
    if k <= 0 {
        None
    } else if values[k - 1].declares(name) {
        Some(k - 1)
    } else {
        last_decl_before(values, name, k - 1)
    }
}

/// The index of the first cell at or after `k` that declares `name`, if any.
pub open spec fn first_decl_from(values: Seq<ValueView>, name: Seq<char>, k: int) -> Option<int>
    decreases values.len() - k,
{
    if k < 0 || k >= values.len() {
        None
    } else if values[k].declares(name) {
        Some(k)
    } else {
        first_decl_from(values, name, k + 1)
    }
}

/// The distinct label names declared by `values[0..k]`, in first-declaration
/// order: the keys known to the resolver when it reaches index `k`.
pub open spec fn decl_names_before(values: Seq<ValueView>, k: int) -> Seq<Seq<char>>
    decreases k,
{
    if k <= 0 {
        Seq::empty()
    } else {
        push_new_names(decl_names_before(values, k - 1), values[k - 1].labels())
    }
}

/// Appends to `acc` the names of `more` it does not hold yet, in order.
pub open spec fn push_new_names(acc: Seq<Seq<char>>, more: Seq<Seq<char>>) -> Seq<Seq<char>>
    decreases more.len(),
{
    if more.len() == 0 {
        acc
    } else {
        let acc1 = if acc.contains(more[0]) {
            acc
        } else {
            acc.push(more[0])
        };
        push_new_names(acc1, more.drop_first())
    }
}

/// What the cell at index `k` resolves to: an absolute cell is its integer, a
/// relative cell is its index plus its offset, and a label cell is the
/// address of the label's declaration — the last declaration before `k` when
/// one exists (the offset is not applied), and otherwise the first
/// declaration at or after `k`, plus the offset. A label declared nowhere is
/// an error carrying every name known at `k`.
pub open spec fn spec_resolve_at(values: Seq<ValueView>, k: int) -> Result<int, ErrorView> {
    match values[k] {
        ValueView::Absolute { value, .. } => Ok(value),
        ValueView::Relative { delta, .. } => Ok(mask_addr(k + delta)),
        ValueView::Label { name, delta, position, .. } => match last_decl_before(values, name, k) {
            Some(j) => Ok(j),
            None => match first_decl_from(values, name, k) {
                Some(j) => Ok(mask_addr(j + delta)),
                None => Err(
                    ErrorView::LabelNotFound {
                        label_name: name,
                        label_names: decl_names_before(values, k),
                        position: position,
                    },
                ),
            },
        },
    }
}

/// The machine image of a fully expanded cell list: every cell resolved, or
/// the first resolution error.
pub open spec fn spec_resolve(values: Seq<ValueView>) -> Result<Seq<int>, ErrorView>
    decreases values.len(),
{
    spec_resolve_prefix(values, values.len() as int)
}

/// The resolutions of `values[0..k]`, or the first error among them.
pub open spec fn spec_resolve_prefix(values: Seq<ValueView>, k: int) -> Result<Seq<int>, ErrorView>
    decreases k,
{
    if k <= 0 {
        Ok(Seq::empty())
    } else {
        match spec_resolve_prefix(values, k - 1) {
            Err(e) => Err(e),
            Ok(done) => match spec_resolve_at(values, k - 1) {
                Ok(v) => Ok(done.push(v)),
                Err(e) => Err(e),
            },
        }
    }
}

/// An entry list mapping label names to output indices, with one entry per
/// name: a later insertion of a known name updates its entry in place.
pub struct LabelMap {
    pub entries: Vec<(String, usize)>,
}

impl View for LabelMap {
    type V = Seq<(Seq<char>, int)>;

    /// The entry list as a sequence of (name, index) pairs.
    open spec fn view(&self) -> Seq<(Seq<char>, int)> {
        Seq::new(self.entries@.len(), |i: int| (self.entries@[i].0@, self.entries@[i].1 as int))
    }
}

impl LabelMap {
    /// An empty map.
    pub fn new() -> (r: LabelMap)
        ensures
            r@ == Seq::<(Seq<char>, int)>::empty(),
    {
        let r = LabelMap { entries: Vec::new() };
        proof {
            assert(r@ =~= Seq::<(Seq<char>, int)>::empty());
        }
        r
    }

    /// The index bound to `name`, if any.
    pub fn get(&self, name: &str) -> (r: Option<usize>)
        ensures
            match r {
                Some(i) => map_lookup(self@, name@) == Some(i as int),
                None => map_lookup(self@, name@) == Option::<int>::None,
            },
    {
        proof {
            assert(self@.skip(0) =~= self@);
        }
        let mut i: usize = 0;
        while i < self.entries.len()
            invariant
                i <= self.entries@.len(),
                forall|j: int| 0 <= j < i ==> self@[j].0 != name@,
                map_lookup(self@, name@) == map_lookup(self@.skip(i as int), name@),
            decreases self.entries@.len() - i,
        {
            proof {
                assert(self@.skip(i as int)[0] == self@[i as int]);
                assert(self@.skip(i as int).drop_first() =~= self@.skip(i + 1));
            }
            if str_eq(self.entries[i].0.as_str(), name) {
                return Some(self.entries[i].1);
            }
            i = i + 1;
        }
        proof {
            assert(self@.skip(i as int).len() == 0);
        }
        None
    }

    /// Binds `name` to `index`, replacing any previous binding.
    pub fn insert(&mut self, name: &str, index: usize)
        ensures
            final(self)@ == map_insert(old(self)@, name@, index as int),
    {
        let ghost m0 = self@;
        let mut i: usize = 0;
        while i < self.entries.len()
            invariant
                i <= self.entries@.len(),
                self@ == m0,
                forall|j: int| 0 <= j < i ==> self@[j].0 != name@,
            decreases self.entries@.len() - i,
        {
            if str_eq(self.entries[i].0.as_str(), name) {
                self.entries.set(i, (name.to_owned(), index));
                proof {
                    lemma_map_insert_at(m0, name@, index as int, i as int);
                    assert(self@ =~= m0.update(i as int, (name@, index as int)));
                }
                return ;
            }
            i = i + 1;
        }
        self.entries.push((name.to_owned(), index));
        proof {
            lemma_map_insert_absent(m0, name@, index as int);
            assert(self@ =~= m0.push((name@, index as int)));
        }
    }

    /// The names bound, in first-insertion order.
    pub fn key_strings(&self) -> (r: Vec<String>)
        ensures
            r.deep_view() == map_keys(self@),
    {
        let mut out: Vec<String> = Vec::new();
        let mut i: usize = 0;
        while i < self.entries.len()
            invariant
                i <= self.entries@.len(),
                out@.len() == i,
                forall|j: int| 0 <= j < i ==> out.deep_view()[j] == self@[j].0,
            decreases self.entries@.len() - i,
        {
            let ghost dv0 = out.deep_view();
            out.push(self.entries[i].0.clone());
            proof {
                assert forall|j: int| 0 <= j < i + 1 implies out.deep_view()[j] == self@[j].0 by {
                    if j < i {
                        assert(out.deep_view()[j] == dv0[j]);
                    } else {
                        assert(out@[j as int]@ == self.entries@[i as int].0@);
                    }
                }
            }
            i = i + 1;
        }
        proof {
            assert(out.deep_view() =~= map_keys(self@));
        }
        out
    }
}

/// The variable table: each name bound to the list of cells its definition
/// expanded to, with one entry per name, a later definition replacing the
/// earlier in place.
pub struct VarMap {
    pub entries: Vec<(String, Vec<Value>)>,
}

impl View for VarMap {
    type V = Seq<(Seq<char>, Seq<ValueView>)>;

    /// The table as a sequence of (name, cell list) pairs.
    open spec fn view(&self) -> Seq<(Seq<char>, Seq<ValueView>)> {
        Seq::new(
            self.entries@.len(),
            |i: int| (self.entries@[i].0@, self.entries@[i].1.deep_view()),
        )
    }
}

/// The cell list bound to `name`: the first entry with that key.
pub open spec fn vars_lookup(m: Seq<(Seq<char>, Seq<ValueView>)>, name: Seq<char>) -> Option<
    Seq<ValueView>,
>
    decreases m.len(),
{
    if m.len() == 0 {
        None
    } else if m[0].0 == name {
        Some(m[0].1)
    } else {
        vars_lookup(m.drop_first(), name)
    }
}

/// Binding `name`: updates the entry holding it, or appends a new entry.
pub open spec fn vars_insert(
    m: Seq<(Seq<char>, Seq<ValueView>)>,
    name: Seq<char>,
    list: Seq<ValueView>,
) -> Seq<(Seq<char>, Seq<ValueView>)>
    decreases m.len(),
{
    if m.len() == 0 {
        seq![(name, list)]
    } else if m[0].0 == name {
        seq![(name, list)] + m.drop_first()
    } else {
        seq![m[0]] + vars_insert(m.drop_first(), name, list)
    }
}

/// The names bound by the table, in order.
pub open spec fn vars_keys(m: Seq<(Seq<char>, Seq<ValueView>)>) -> Seq<Seq<char>> {
    Seq::new(m.len(), |i: int| m[i].0)
}

/// When the first `i` keys differ from `name` and entry `i` holds it,
/// inserting updates entry `i` in place.
proof fn lemma_vars_insert_at(
    m: Seq<(Seq<char>, Seq<ValueView>)>,
    name: Seq<char>,
    list: Seq<ValueView>,
    i: int,
)
    requires
        0 <= i < m.len(),
        forall|j: int| 0 <= j < i ==> m[j].0 != name,
        m[i].0 == name,
    ensures
        vars_insert(m, name, list) == m.update(i, (name, list)),
    decreases i,
{
    if i == 0 {
        assert(vars_insert(m, name, list) =~= m.update(0, (name, list)));
    } else {
        lemma_vars_insert_at(m.drop_first(), name, list, i - 1);
        assert(vars_insert(m, name, list) =~= m.update(i, (name, list)));
    }
}

/// Inserting a name no entry holds appends a new entry.
proof fn lemma_vars_insert_absent(
    m: Seq<(Seq<char>, Seq<ValueView>)>,
    name: Seq<char>,
    list: Seq<ValueView>,
)
    requires
        forall|j: int| 0 <= j < m.len() ==> m[j].0 != name,
    ensures
        vars_insert(m, name, list) == m.push((name, list)),
    decreases m.len(),
{
    if m.len() == 0 {
        assert(vars_insert(m, name, list) =~= m.push((name, list)));
    } else {
        lemma_vars_insert_absent(m.drop_first(), name, list);
        assert(vars_insert(m, name, list) =~= m.push((name, list)));
    }
}

impl VarMap {
    /// An empty table.
    pub fn new() -> (r: VarMap)
        ensures
            r@ == Seq::<(Seq<char>, Seq<ValueView>)>::empty(),
    {
        let r = VarMap { entries: Vec::new() };
        proof {
            assert(r@ =~= Seq::<(Seq<char>, Seq<ValueView>)>::empty());
        }
        r
    }

    /// The cell list bound to `name`, if any.
    pub fn get(&self, name: &str) -> (r: Option<&Vec<Value>>)
        ensures
            match r {
                Some(list) => vars_lookup(self@, name@) == Some(list.deep_view()),
                None => vars_lookup(self@, name@) == Option::<Seq<ValueView>>::None,
            },
    {
        proof {
            assert(self@.skip(0) =~= self@);
        }
        let mut i: usize = 0;
        while i < self.entries.len()
            invariant
                i <= self.entries@.len(),
                vars_lookup(self@, name@) == vars_lookup(self@.skip(i as int), name@),
            decreases self.entries@.len() - i,
        {
            proof {
                assert(self@.skip(i as int)[0] == self@[i as int]);
                assert(self@.skip(i as int).drop_first() =~= self@.skip(i + 1));
            }
            if str_eq(self.entries[i].0.as_str(), name) {
                return Some(&self.entries[i].1);
            }
            i = i + 1;
        }
        proof {
            assert(self@.skip(i as int).len() == 0);
        }
        None
    }

    /// Binds `name` to `list`, replacing any previous binding.
    pub fn insert(&mut self, name: &str, list: Vec<Value>)
        ensures
            final(self)@ == vars_insert(old(self)@, name@, list.deep_view()),
    {
        let ghost lv = list.deep_view();
        let mut i: usize = 0;
        while i < self.entries.len()
            invariant
                i <= self.entries@.len(),
                self@ == old(self)@,
                forall|j: int| 0 <= j < i ==> self@[j].0 != name@,
            decreases self.entries@.len() - i,
        {
            if str_eq(self.entries[i].0.as_str(), name) {
                self.entries.set(i, (name.to_owned(), list));
                proof {
                    lemma_vars_insert_at(old(self)@, name@, lv, i as int);
                    assert(self@ =~= old(self)@.update(i as int, (name@, lv)));
                }
                return ;
            }
            i = i + 1;
        }
        self.entries.push((name.to_owned(), list));
        proof {
            lemma_vars_insert_absent(old(self)@, name@, lv);
            assert(self@ =~= old(self)@.push((name@, lv)));
        }
    }

    /// The names bound, in first-definition order.
    pub fn key_strings(&self) -> (r: Vec<String>)
        ensures
            r.deep_view() == vars_keys(self@),
    {
        let mut out: Vec<String> = Vec::new();
        let mut i: usize = 0;
        while i < self.entries.len()
            invariant
                i <= self.entries@.len(),
                out@.len() == i,
                forall|j: int| 0 <= j < i ==> out.deep_view()[j] == self@[j].0,
            decreases self.entries@.len() - i,
        {
            let ghost dv0 = out.deep_view();
            out.push(self.entries[i].0.clone());
            proof {
                assert forall|j: int| 0 <= j < i + 1 implies out.deep_view()[j] == self@[j].0 by {
                    if j < i {
                        assert(out.deep_view()[j] == dv0[j]);
                    } else {
                        assert(out@[j as int]@ == self.entries@[i as int].0@);
                    }
                }
            }
            i = i + 1;
        }
        proof {
            assert(out.deep_view() =~= vars_keys(self@));
        }
        out
    }
}

/// The value bound to `name`: the first entry with that key.
pub open spec fn map_lookup(m: Seq<(Seq<char>, int)>, name: Seq<char>) -> Option<int>
    decreases m.len(),
{
    if m.len() == 0 {
        None
    } else if m[0].0 == name {
        Some(m[0].1)
    } else {
        map_lookup(m.drop_first(), name)
    }
}

/// Binding `name`: updates the entry holding it, or appends a new entry.
pub open spec fn map_insert(m: Seq<(Seq<char>, int)>, name: Seq<char>, index: int) -> Seq<
    (Seq<char>, int),
>
    decreases m.len(),
{
    if m.len() == 0 {
        seq![(name, index)]
    } else if m[0].0 == name {
        seq![(name, index)] + m.drop_first()
    } else {
        seq![m[0]] + map_insert(m.drop_first(), name, index)
    }
}

/// The keys of the entry list, in order.
pub open spec fn map_keys(m: Seq<(Seq<char>, int)>) -> Seq<Seq<char>> {
    Seq::new(m.len(), |i: int| m[i].0)
}

/// When the first `i` keys differ from `name` and entry `i` holds it,
/// inserting `name` updates entry `i` in place.
proof fn lemma_map_insert_at(m: Seq<(Seq<char>, int)>, name: Seq<char>, index: int, i: int)
    requires
        0 <= i < m.len(),
        forall|j: int| 0 <= j < i ==> m[j].0 != name,
        m[i].0 == name,
    ensures
        map_insert(m, name, index) == m.update(i, (name, index)),
    decreases i,
{
    if i == 0 {
        assert(map_insert(m, name, index) =~= m.update(0, (name, index)));
    } else {
        lemma_map_insert_at(m.drop_first(), name, index, i - 1);
        assert(map_insert(m, name, index) =~= m.update(i, (name, index)));
    }
}

/// Inserting a name no entry holds appends a new entry.
proof fn lemma_map_insert_absent(m: Seq<(Seq<char>, int)>, name: Seq<char>, index: int)
    requires
        forall|j: int| 0 <= j < m.len() ==> m[j].0 != name,
    ensures
        map_insert(m, name, index) == m.push((name, index)),
    decreases m.len(),
{
    if m.len() == 0 {
        assert(map_insert(m, name, index) =~= m.push((name, index)));
    } else {
        lemma_map_insert_absent(m.drop_first(), name, index);
        assert(map_insert(m, name, index) =~= m.push((name, index)));
    }
}

impl Value {
    /// The labels this cell declares.
    pub fn get_labels(&self) -> (r: &Vec<String>)
        ensures
            r.deep_view() == self@.labels(),
    {
        match self {
            Value::Relative(a, _, _) => a,
            Value::Absolute(a, _, _) => a,
            Value::Label(a, _, _, _) => a,
        }
    }

    /// Declares every name of `labels` on this cell as well.
    pub fn add_labels(&mut self, labels: Vec<String>)
        ensures
            final(self)@ == old(self)@.with_labels(labels.deep_view()),
    {
        let ghost lv = labels.deep_view();
        let mut more = labels;
        match self {
            Value::Relative(a, _, _) => a.append(&mut more),
            Value::Absolute(a, _, _) => a.append(&mut more),
            Value::Label(a, _, _, _) => a.append(&mut more),
        }
        proof {
            assert(self@.labels() =~= old(self)@.labels() + lv);
            assert(self@ =~= old(self)@.with_labels(lv));
        }
    }

    /// A fresh copy of this cell.
    pub fn duplicate(&self) -> (r: Value)
        ensures
            r@ == self@,
    {
        match self {
            Value::Relative(a, d, p) => Value::Relative(clone_strings(a), *d, *p),
            Value::Absolute(a, v, p) => Value::Absolute(clone_strings(a), *v, *p),
            Value::Label(a, n, d, p) => Value::Label(clone_strings(a), n.clone(), *d, *p),
        }
    }

    /// Whether this cell declares the label `label`.
    pub fn does_define_label(&self, label: &str) -> (r: bool)
        ensures
            r == self@.declares(label@),
    {
        names_contain(self.get_labels(), label)
    }

    /// Registers every label this cell declares at index `current`.
    pub fn update_labels(&self, current: usize, labels: &mut LabelMap)
        ensures
            final(labels)@ == map_insert_all(old(labels)@, self@.labels(), current as int),
    {
        let names = self.get_labels();
        let ghost all = names.deep_view();
        proof {
            assert(all.skip(0) =~= all);
        }
        let mut i: usize = 0;
        while i < names.len()
            invariant
                i <= names@.len(),
                all == names.deep_view(),
                map_insert_all(old(labels)@, all, current as int) == map_insert_all(
                    labels@,
                    all.skip(i as int),
                    current as int,
                ),
            decreases names@.len() - i,
        {
            proof {
                assert(all.skip(i as int)[0] == all[i as int]);
                assert(all.skip(i as int).drop_first() =~= all.skip(i + 1));
            }
            labels.insert(names[i].as_str(), current);
            i = i + 1;
        }
        proof {
            assert(all.skip(i as int).len() == 0);
        }
    }

    /// Resolves this cell, standing at index `current_index` of
    /// `other_values`, against the already accumulated label map: the result
    /// promised by [`spec_compute_value`].
    pub fn compute_value(
        &self,
        current_index: usize,
        labels: &LabelMap,
        other_values: &Vec<Value>,
    ) -> (r: Result<usize, Errors>)
        ensures
            match r {
                Ok(v) => spec_compute_value(
                    self@,
                    current_index as int,
                    labels@,
                    other_values.deep_view(),
                ) == Ok::<int, ErrorView>(v as int),
                Err(e) => spec_compute_value(
                    self@,
                    current_index as int,
                    labels@,
                    other_values.deep_view(),
                ) == Err::<int, ErrorView>(e@),
            },
    {
        match self {
            Value::Relative(_, a, _) => {
                proof {
                    lemma_wrapping_is_mask(current_index, *a);
                }
                Ok(current_index.wrapping_add_signed(*a))
            },
            Value::Absolute(_, a, _) => Ok(*a),
            Value::Label(_, a, i, pos) => {
                match labels.get(a.as_str()) {
                    Some(e) => Ok(e),
                    None => {
                        let ghost vals = other_values.deep_view();
                        let mut j: usize = current_index;
                        while j < other_values.len()
                            invariant
                                current_index <= j,
                                vals == other_values.deep_view(),
                                vals.len() == other_values@.len(),
                                first_decl_from(vals, a@, current_index as int) == first_decl_from(
                                    vals,
                                    a@,
                                    j as int,
                                ),
                            decreases other_values@.len() - j,
                        {
                            if other_values[j].does_define_label(a.as_str()) {
                                proof {
                                    lemma_wrapping_is_mask(j, *i);
                                }
                                return Ok(j.wrapping_add_signed(*i));
                            }
                            j = j + 1;
                        }
                        Err(
                            Errors::LabelNotFound {
                                label_name: a.clone(),
                                label_names: labels.key_strings(),
                                position: *pos,
                            },
                        )
                    },
                }
            },
        }
    }
}

/// Folds [`map_insert`] over a list of names, binding each to `index`.
pub open spec fn map_insert_all(
    m: Seq<(Seq<char>, int)>,
    names: Seq<Seq<char>>,
    index: int,
) -> Seq<(Seq<char>, int)>
    decreases names.len(),
{
    if names.len() == 0 {
        m
    } else {
        map_insert_all(map_insert(m, names[0], index), names.drop_first(), index)
    }
}

/// What [`Value::compute_value`] returns for a cell `v` at index `k`, given
/// an arbitrary label map `m`: an absolute cell is its integer; a relative
/// cell is `k` plus its offset; a label cell is the map's binding when one
/// exists (the offset is not applied), and otherwise the index of the first
/// declaration at or after `k`, plus the offset; with no declaration at all,
/// the error carrying the map's keys.
pub open spec fn spec_compute_value(
    v: ValueView,
    k: int,
    m: Seq<(Seq<char>, int)>,
    values: Seq<ValueView>,
) -> Result<int, ErrorView> {
    match v {
        ValueView::Absolute { value, .. } => Ok(value),
        ValueView::Relative { delta, .. } => Ok(mask_addr(k + delta)),
        ValueView::Label { name, delta, position, .. } => match map_lookup(m, name) {
            Some(j) => Ok(j),
            None => match first_decl_from(values, name, k) {
                Some(j) => Ok(mask_addr(j + delta)),
                None => Err(
                    ErrorView::LabelNotFound {
                        label_name: name,
                        label_names: map_keys(m),
                        position: position,
                    },
                ),
            },
        },
    }
}

/// The label map the resolver has accumulated when it reaches index `k`:
/// every label declared by `values[0..k]`, bound to the index of its latest
/// declaration.
pub open spec fn spec_label_map(values: Seq<ValueView>, k: int) -> Seq<(Seq<char>, int)>
    decreases k,
{
    if k <= 0 {
        Seq::empty()
    } else {
        map_insert_all(spec_label_map(values, k - 1), values[k - 1].labels(), k - 1)
    }
}

/// Looking a name up after a batch insertion: the batch index when the batch
/// holds the name, the old binding otherwise.
proof fn lemma_lookup_insert(m: Seq<(Seq<char>, int)>, a: Seq<char>, i: int, n: Seq<char>)
    ensures
        map_lookup(map_insert(m, a, i), n) == if n == a {
            Some(i)
        } else {
            map_lookup(m, n)
        },
    decreases m.len(),
{
    reveal_with_fuel(map_lookup, 3);
    if m.len() == 0 {
        assert(map_insert(m, a, i)[0] == (a, i));
        assert(map_insert(m, a, i).drop_first() =~= Seq::<(Seq<char>, int)>::empty());
    } else if m[0].0 == a {
        assert(map_insert(m, a, i)[0] == (a, i));
        assert(map_insert(m, a, i).drop_first() =~= m.drop_first());
    } else {
        lemma_lookup_insert(m.drop_first(), a, i, n);
        assert(map_insert(m, a, i)[0] == m[0]);
        assert(map_insert(m, a, i).drop_first() =~= map_insert(m.drop_first(), a, i));
    }
}

/// Looking a name up after inserting a whole batch of names at one index.
proof fn lemma_lookup_insert_all(
    m: Seq<(Seq<char>, int)>,
    names: Seq<Seq<char>>,
    i: int,
    n: Seq<char>,
)
    ensures
        map_lookup(map_insert_all(m, names, i), n) == if names.contains(n) {
            Some(i)
        } else {
            map_lookup(m, n)
        },
    decreases names.len(),
{
    if names.len() == 0 {
    } else {
        lemma_lookup_insert_all(map_insert(m, names[0], i), names.drop_first(), i, n);
        lemma_lookup_insert(m, names[0], i, n);
        if names.contains(n) && !names.drop_first().contains(n) {
            let w = choose|w: int| 0 <= w < names.len() && names[w] == n;
            if w > 0 {
                assert(names.drop_first()[w - 1] == n);
            }
            assert(n == names[0]);
        }
        if names.drop_first().contains(n) {
            let w = choose|w: int|
                0 <= w < names.drop_first().len() && names.drop_first()[w] == n;
            assert(names[w + 1] == n);
            assert(names.contains(n));
        }
    }
}

/// The keys after one insertion: unchanged when the name is known, extended
/// by it otherwise.
proof fn lemma_keys_insert(m: Seq<(Seq<char>, int)>, a: Seq<char>, i: int)
    ensures
        map_keys(map_insert(m, a, i)) == if map_lookup(m, a) is Some {
            map_keys(m)
        } else {
            map_keys(m).push(a)
        },
    decreases m.len(),
{
    reveal_with_fuel(map_lookup, 3);
    reveal_with_fuel(map_insert, 3);
    if m.len() == 0 {
        assert(map_keys(map_insert(m, a, i)) =~= map_keys(m).push(a));
    } else if m[0].0 == a {
        assert(map_keys(map_insert(m, a, i)) =~= map_keys(m));
    } else {
        lemma_keys_insert(m.drop_first(), a, i);
        assert(map_keys(m.drop_first()) =~= map_keys(m).drop_first());
        assert(map_insert(m, a, i) == seq![m[0]] + map_insert(m.drop_first(), a, i));
        if map_lookup(m.drop_first(), a) is Some {
            assert forall|j: int|
                0 <= j < map_keys(map_insert(m, a, i)).len() implies map_keys(
                map_insert(m, a, i),
            )[j] == map_keys(m)[j] by {
                if j == 0 {
                    assert(map_insert(m, a, i)[0] == m[0]);
                } else {
                    assert(map_insert(m, a, i)[j] == map_insert(m.drop_first(), a, i)[j - 1]);
                    assert(map_keys(map_insert(m.drop_first(), a, i))[j - 1] == map_keys(
                        m.drop_first(),
                    )[j - 1]);
                }
            }
            assert(map_keys(map_insert(m, a, i)) =~= map_keys(m));
        } else {
            assert(map_keys(map_insert(m.drop_first(), a, i)) == map_keys(m.drop_first()).push(a));
            assert forall|j: int|
                0 <= j < map_keys(map_insert(m, a, i)).len() implies map_keys(
                map_insert(m, a, i),
            )[j] == map_keys(m).push(a)[j] by {
                if j == 0 {
                    assert(map_insert(m, a, i)[0] == m[0]);
                } else if j <= m.len() - 1 {
                    assert(map_insert(m, a, i)[j] == map_insert(m.drop_first(), a, i)[j - 1]);
                    assert(map_keys(map_insert(m.drop_first(), a, i))[j - 1] == map_keys(
                        m.drop_first(),
                    ).push(a)[j - 1]);
                    assert(map_keys(m.drop_first()).push(a)[j - 1] == m.drop_first()[j - 1].0);
                    assert(map_keys(m).push(a)[j] == m[j].0);
                } else {
                    assert(map_insert(m, a, i)[j] == map_insert(m.drop_first(), a, i)[j - 1]);
                    assert(map_keys(map_insert(m.drop_first(), a, i))[j - 1] == map_keys(
                        m.drop_first(),
                    ).push(a)[j - 1]);
                    assert(map_keys(m.drop_first()).push(a)[j - 1] == a);
                    assert(map_keys(m).push(a)[j] == a);
                }
            }
            assert(map_keys(map_insert(m, a, i)) =~= map_keys(m).push(a));
        }
    }
}

/// A name has a binding exactly when it is among the keys.
proof fn lemma_lookup_iff_key(m: Seq<(Seq<char>, int)>, n: Seq<char>)
    ensures
        (map_lookup(m, n) is Some) <==> map_keys(m).contains(n),
    decreases m.len(),
{
    if m.len() == 0 {
    } else if m[0].0 == n {
        assert(map_keys(m)[0] == n);
    } else {
        lemma_lookup_iff_key(m.drop_first(), n);
        assert(map_keys(m.drop_first()) =~= map_keys(m).drop_first());
        if map_keys(m).contains(n) {
            let w = choose|w: int| 0 <= w < map_keys(m).len() && map_keys(m)[w] == n;
            assert(map_keys(m).drop_first()[w - 1] == n);
        }
        if map_keys(m).drop_first().contains(n) {
            let w = choose|w: int|
                0 <= w < map_keys(m).drop_first().len() && map_keys(m).drop_first()[w] == n;
            assert(map_keys(m)[w + 1] == n);
        }
    }
}

/// The keys after a batch insertion: the old keys, followed by the batch's
/// new names in order.
proof fn lemma_keys_insert_all(m: Seq<(Seq<char>, int)>, names: Seq<Seq<char>>, i: int)
    ensures
        map_keys(map_insert_all(m, names, i)) == push_new_names(map_keys(m), names),
    decreases names.len(),
{
    if names.len() == 0 {
    } else {
        lemma_keys_insert_all(map_insert(m, names[0], i), names.drop_first(), i);
        lemma_keys_insert(m, names[0], i);
        lemma_lookup_iff_key(m, names[0]);
    }
}

/// The resolver's accumulated map answers lookups exactly as "the latest
/// declaration before the current index".
proof fn lemma_label_map_lookup(values: Seq<ValueView>, k: int, n: Seq<char>)
    ensures
        map_lookup(spec_label_map(values, k), n) == last_decl_before(values, n, k),
    decreases k,
{
    if k <= 0 {
    } else {
        lemma_label_map_lookup(values, k - 1, n);
        lemma_lookup_insert_all(spec_label_map(values, k - 1), values[k - 1].labels(), k - 1, n);
    }
}

/// The resolver's accumulated keys are exactly the names declared so far, in
/// first-declaration order.
proof fn lemma_label_map_keys(values: Seq<ValueView>, k: int)
    ensures
        map_keys(spec_label_map(values, k)) == decl_names_before(values, k),
    decreases k,
{
    if k <= 0 {
        assert(map_keys(spec_label_map(values, k)) =~= decl_names_before(values, k));
    } else {
        lemma_label_map_keys(values, k - 1);
        lemma_keys_insert_all(spec_label_map(values, k - 1), values[k - 1].labels(), k - 1);
    }
}

/// Resolving against the accumulated map is resolving against the
/// declarations seen so far.
proof fn lemma_resolve_at_is_compute(values: Seq<ValueView>, k: int)
    requires
        0 <= k < values.len(),
    ensures
        spec_compute_value(values[k], k, spec_label_map(values, k), values) == spec_resolve_at(
            values,
            k,
        ),
{
    match values[k] {
        ValueView::Label { name, .. } => {
            lemma_label_map_lookup(values, k, name);
            lemma_label_map_keys(values, k);
        },
        _ => {},
    }
}

/// Resolves a fully expanded cell list into the machine image: the result
/// promised by [`spec_resolve`].
pub fn resolve(values: &Vec<Value>) -> (r: Result<Vec<usize>, Errors>)
    ensures
        match r {
            Ok(out) => spec_resolve(values.deep_view()) == Ok::<Seq<int>, ErrorView>(
                Seq::new(out@.len(), |i: int| out@[i] as int),
            ),
            Err(e) => spec_resolve(values.deep_view()) == Err::<Seq<int>, ErrorView>(e@),
        },
{
    let ghost vals = values.deep_view();
    let mut labels = LabelMap::new();
    let mut out: Vec<usize> = Vec::new();
    let mut k: usize = 0;
    proof {
        assert(labels@ =~= spec_label_map(vals, 0));
        assert(Seq::new(out@.len(), |i: int| out@[i] as int) =~= Seq::<int>::empty());
    }
    while k < values.len()
        invariant
            k <= values@.len(),
            vals == values.deep_view(),
            vals.len() == values@.len(),
            labels@ == spec_label_map(vals, k as int),
            out@.len() == k,
            spec_resolve_prefix(vals, k as int) == Ok::<Seq<int>, ErrorView>(
                Seq::new(out@.len(), |i: int| out@[i] as int),
            ),
        decreases values@.len() - k,
    {
        let v = &values[k];
        let o = v.compute_value(k, &labels, values);
        proof {
            lemma_resolve_at_is_compute(vals, k as int);
        }
        match o {
            Ok(n) => {
                let ghost prev = Seq::new(out@.len(), |i: int| out@[i] as int);
                out.push(n);
                proof {
                    assert(Seq::new(out@.len(), |i: int| out@[i] as int) =~= prev.push(n as int));
                }
            },
            Err(e) => {
                proof {
                    lemma_prefix_error_propagates(vals, k + 1, vals.len() as int);
                }
                return Err(e);
            },
        }
        v.update_labels(k, &mut labels);
        k = k + 1;
    }
    Ok(out)
}

/// Once a prefix fails to resolve, every longer prefix fails the same way.
proof fn lemma_prefix_error_propagates(values: Seq<ValueView>, k: int, m: int)
    requires
        k <= m,
        spec_resolve_prefix(values, k) is Err,
    ensures
        spec_resolve_prefix(values, m) == spec_resolve_prefix(values, k),
    decreases m - k,
{
    if k < m {
        lemma_prefix_error_propagates(values, k + 1, m);
    }
}

/// A label reference that follows a declaration of its name resolves to the
/// index of the latest such declaration: the count of cells emitted before
/// that declaration. The reference's offset is not applied on this path.
pub proof fn lemma_backward_reference_resolves(
    values: Seq<ValueView>,
    k: int,
    j: int,
    name: Seq<char>,
)
    requires
        0 <= j < k < values.len(),
        values[k] is Label,
        values[k]->Label_name == name,
        values[j].declares(name),
        forall|m: int| j < m < k ==> !values[m].declares(name),
    ensures
        spec_resolve_at(values, k) == Ok::<int, ErrorView>(j),
{
    lemma_last_decl_found(values, name, k, j);
}

/// A label reference whose name is declared only later in the list resolves
/// to the index of the first such declaration, plus the reference's offset.
pub proof fn lemma_forward_reference_resolves(
    values: Seq<ValueView>,
    k: int,
    j: int,
    name: Seq<char>,
)
    requires
        0 <= k <= j < values.len(),
        values[k] is Label,
        values[k]->Label_name == name,
        values[j].declares(name),
        forall|m: int| 0 <= m < j ==> !values[m].declares(name),
    ensures
        spec_resolve_at(values, k) == Ok::<int, ErrorView>(
            mask_addr(j + values[k]->Label_delta),
        ),
{
    lemma_last_decl_none(values, name, k);
    lemma_first_decl_found(values, name, k, j);
}

/// The latest declaration before `k` is `j` when `j` declares the name and
/// nothing between `j` and `k` does.
proof fn lemma_last_decl_found(values: Seq<ValueView>, name: Seq<char>, k: int, j: int)
    requires
        0 <= j < k,
        values[j].declares(name),
        forall|m: int| j < m < k ==> !values[m].declares(name),
    ensures
        last_decl_before(values, name, k) == Some(j),
    decreases k,
{
    if k - 1 > j {
        lemma_last_decl_found(values, name, k - 1, j);
    }
}

/// No declaration before `k` means no latest declaration.
proof fn lemma_last_decl_none(values: Seq<ValueView>, name: Seq<char>, k: int)
    requires
        forall|m: int| 0 <= m < k ==> !values[m].declares(name),
    ensures
        last_decl_before(values, name, k) == Option::<int>::None,
    decreases k,
{
    if k > 0 {
        lemma_last_decl_none(values, name, k - 1);
    }
}

/// The first declaration at or after `k` is `j` when `j` declares the name
/// and nothing from `k` up to `j` does.
proof fn lemma_first_decl_found(values: Seq<ValueView>, name: Seq<char>, k: int, j: int)
    requires
        0 <= k <= j < values.len(),
        values[j].declares(name),
        forall|m: int| k <= m < j ==> !values[m].declares(name),
    ensures
        first_decl_from(values, name, k) == Some(j),
    decreases j - k,
{
    if k < j {
        lemma_first_decl_found(values, name, k + 1, j);
    }
}

/// Wrapping addition of a signed offset is exactly address masking.
proof fn lemma_wrapping_is_mask(x: usize, y: isize)
    ensures
        vstd::wrapping::usize_specs::wrapping_add_signed(x, y) as int == mask_addr(x + y),
{
    crate::machine::lemma_mask_window(x + y);
}

} // verus!
