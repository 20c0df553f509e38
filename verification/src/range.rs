//! Range slices of a variable's cell list, and the default values that pad a
//! slice when the source list is shorter than requested.

use vstd::prelude::*;

use crate::errors::{ErrorView, Errors};
use crate::position::Position;
use crate::value::{Value, ValueView};

verus! {

/// A fallback cell used to pad a short slice.
#[derive(Debug)]
pub enum DefaultValue {
    /// An absolute integer.
    Value(usize),
    /// A label reference with an offset.
    Label(String, isize),
    /// A relative cell.
    Relative(isize),
}

/// The mathematical image of a [`DefaultValue`].
#[verifier::ext_equal]
pub ghost enum DefaultValueView {
    Value(int),
    Label(Seq<char>, int),
    Relative(int),
}

impl View for DefaultValue {
    type V = DefaultValueView;

    open spec fn view(&self) -> DefaultValueView {
        match self {
            DefaultValue::Value(n) => DefaultValueView::Value(*n as int),
            DefaultValue::Label(s, n) => DefaultValueView::Label(s@, *n as int),
            DefaultValue::Relative(n) => DefaultValueView::Relative(*n as int),
        }
    }
}

impl DeepView for DefaultValue {
    type V = DefaultValueView;

    open spec fn deep_view(&self) -> DefaultValueView {
        self.view()
    }
}

/// The cell a default materialises into at `position`, declaring no labels.
pub open spec fn spec_to_value(d: DefaultValueView, position: Position) -> ValueView {
    match d {
        DefaultValueView::Value(n) => ValueView::Absolute {
            labels: Seq::empty(),
            value: n,
            position,
        },
        DefaultValueView::Label(name, delta) => ValueView::Label {
            labels: Seq::empty(),
            name,
            delta,
            position,
        },
        DefaultValueView::Relative(delta) => ValueView::Relative {
            labels: Seq::empty(),
            delta,
            position,
        },
    }
}

impl DefaultValue {
    /// Materialises the default into a cell at `position`.
    pub fn to_value(&self, position: Position) -> (r: Value)
        ensures
            r@ == spec_to_value(self@, position),
    {
        let no_labels: Vec<String> = Vec::new();
        proof {
            assert(no_labels.deep_view() =~= Seq::<Seq<char>>::empty());
        }
        let r = match self {
            DefaultValue::Value(value) => Value::Absolute(no_labels, *value, position),
            DefaultValue::Label(label, added) => Value::Label(
                no_labels,
                label.clone(),
                *added,
                position,
            ),
            DefaultValue::Relative(value) => Value::Relative(no_labels, *value, position),
        };
        proof {
            assert(r@ =~= spec_to_value(self@, position));
        }
        r
    }

    /// A fresh copy of this default.
    pub fn duplicate(&self) -> (r: DefaultValue)
        ensures
            r@ == self@,
    {
        match self {
            DefaultValue::Value(n) => DefaultValue::Value(*n),
            DefaultValue::Label(s, n) => DefaultValue::Label(s.clone(), *n),
            DefaultValue::Relative(n) => DefaultValue::Relative(*n),
        }
    }
}

/// A slice `start..end` of a variable's cell list, with an optional default
/// for padding. `end == None` means "to the end of the source".
#[derive(Debug)]
pub struct Range {
    pub start: usize,
    pub end: Option<usize>,
    pub or: Option<DefaultValue>,
}

/// The mathematical image of a [`Range`].
#[verifier::ext_equal]
pub ghost struct RangeView {
    pub start: int,
    pub end: Option<int>,
    pub or: Option<DefaultValueView>,
}

impl View for Range {
    type V = RangeView;

    open spec fn view(&self) -> RangeView {
        RangeView {
            start: self.start as int,
            end: match self.end {
                Some(e) => Some(e as int),
                None => None,
            },
            or: match &self.or {
                Some(d) => Some(d@),
                None => None,
            },
        }
    }
}

/// The smaller of two mathematical integers.
pub open spec fn min_int(a: int, b: int) -> int {
    if a <= b {
        a
    } else {
        b
    }
}

/// What a range selects from `variable`: with an end, the cells from `start`
/// up to `end` (empty-clipped to the available length), padded with the
/// default up to the full requested length when one is given; without an
/// end, everything from `start` on. A range whose start is not below its end
/// is malformed.
pub open spec fn spec_generate(r: RangeView, variable: Seq<ValueView>, position: Position) -> Result<
    Seq<ValueView>,
    ErrorView,
> {
    let len = variable.len() as int;
    match r.end {
        Some(end) => if r.start >= end {
            Err(ErrorView::MalformedRange { position })
        } else {
            let taken = variable.subrange(min_int(r.start, len), min_int(end, len));
            match r.or {
                Some(d) => Ok(
                    taken + Seq::new(
                        ((end - r.start) - taken.len()) as nat,
                        |i: int| spec_to_value(d, position),
                    ),
                ),
                None => Ok(taken),
            }
        },
        None => Ok(variable.skip(min_int(r.start, len))),
    }
}

/// A bounded range with a default always yields exactly the requested
/// number of cells: the source's cells from `start` first, the materialised
/// default padding whatever the source could not supply.
pub proof fn lemma_range_padding(r: RangeView, variable: Seq<ValueView>, position: Position)
    requires
        r.end is Some,
        r.start < r.end->0,
        0 <= r.start,
        r.or is Some,
    ensures
        spec_generate(r, variable, position) is Ok,
        spec_generate(r, variable, position)->Ok_0.len() == r.end->0 - r.start,
        forall|i: int|
            0 <= i < variable.len() - r.start && i < r.end->0 - r.start ==> spec_generate(
                r,
                variable,
                position,
            )->Ok_0[i] == variable[r.start + i],
        forall|i: int|
            0 <= i < r.end->0 - r.start && variable.len() - r.start <= i ==> spec_generate(
                r,
                variable,
                position,
            )->Ok_0[i] == spec_to_value(r.or->0, position),
{
    let end = r.end->0;
    let len = variable.len() as int;
    let taken = variable.subrange(min_int(r.start, len), min_int(end, len));
    let out = spec_generate(r, variable, position)->Ok_0;
    let pad = Seq::new(((end - r.start) - taken.len()) as nat, |q: int| spec_to_value(
        r.or->0,
        position,
    ));
    assert(out.len() == end - r.start);
    assert forall|i: int|
        0 <= i < end - r.start && len - r.start <= i implies out[i] == spec_to_value(
        r.or->0,
        position,
    ) by {
        assert(taken.len() <= i);
        assert(out[i] == pad[i - taken.len()]);
    }
}

/// A bounded range without a default stops short when the source runs out:
/// it yields only what the source holds between `start` and `end`.
pub proof fn lemma_range_no_default(r: RangeView, variable: Seq<ValueView>, position: Position)
    requires
        r.end is Some,
        r.start < r.end->0,
        0 <= r.start,
        r.or is None,
    ensures
        spec_generate(r, variable, position) is Ok,
        spec_generate(r, variable, position)->Ok_0.len() == min_int(
            r.end->0,
            variable.len() as int,
        ) - min_int(r.start, variable.len() as int),
        forall|i: int|
            0 <= i < spec_generate(r, variable, position)->Ok_0.len() ==> spec_generate(
                r,
                variable,
                position,
            )->Ok_0[i] == variable[min_int(r.start, variable.len() as int) + i],
{
}

impl Range {
    /// Selects this range's slice of `variable`, padding with the default
    /// where the source runs short: the result promised by
    /// [`spec_generate`].
    pub fn generate(&self, variable: &Vec<Value>, position: &Position) -> (r: Result<
        Vec<Value>,
        Errors,
    >)
        ensures
            match r {
                Ok(out) => spec_generate(self@, variable.deep_view(), *position) == Ok::<
                    Seq<ValueView>,
                    ErrorView,
                >(out.deep_view()),
                Err(e) => spec_generate(self@, variable.deep_view(), *position) == Err::<
                    Seq<ValueView>,
                    ErrorView,
                >(e@),
            },
    {
        let ghost vals = variable.deep_view();
        match self.end {
            Some(end) => {
                if self.start >= end {
                    return Err(Errors::MalformedRange { position: *position });
                }
                let hi = if end <= variable.len() {
                    end
                } else {
                    variable.len()
                };
                let lo = if self.start <= variable.len() {
                    self.start
                } else {
                    variable.len()
                };
                let mut out: Vec<Value> = Vec::new();
                let mut i: usize = lo;
                proof {
                    assert(out.deep_view() =~= vals.subrange(lo as int, lo as int));
                }
                while i < hi
                    invariant
                        lo <= i <= hi,
                        hi <= vals.len(),
                        vals == variable.deep_view(),
                        vals.len() == variable@.len(),
                        out@.len() == i - lo,
                        out.deep_view() == vals.subrange(lo as int, i as int),
                    decreases hi - i,
                {
                    let ghost dv0 = out.deep_view();
                    out.push(variable[i].duplicate());
                    proof {
                        assert(out.deep_view() =~= dv0.push(vals[i as int]));
                        assert(out.deep_view() =~= vals.subrange(lo as int, i + 1));
                    }
                    i = i + 1;
                }
                match &self.or {
                    Some(d) => {
                        let want = end - self.start;
                        let ghost taken = out.deep_view();
                        let ghost pad_len = (want - taken.len()) as nat;
                        let mut k: usize = out.len();
                        while k < want
                            invariant
                                taken.len() <= k <= want,
                                out@.len() == k,
                                vals == variable.deep_view(),
                                out.deep_view() == taken + Seq::new(
                                    (k - taken.len()) as nat,
                                    |i: int| spec_to_value(d@, *position),
                                ),
                            decreases want - k,
                        {
                            let ghost dv0 = out.deep_view();
                            out.push(d.to_value(*position));
                            proof {
                                assert(out.deep_view() =~= dv0.push(
                                    spec_to_value(d@, *position),
                                ));
                                assert(out.deep_view() =~= taken + Seq::new(
                                    (k + 1 - taken.len()) as nat,
                                    |i: int| spec_to_value(d@, *position),
                                ));
                            }
                            k = k + 1;
                        }
                        proof {
                            assert(out.deep_view() =~= taken + Seq::new(
                                ((end - self.start) - taken.len()) as nat,
                                |i: int| spec_to_value(d@, *position),
                            ));
                        }
                        Ok(out)
                    },
                    None => {
                        proof {
                            assert(out.deep_view() =~= vals.subrange(
                                min_int(self.start as int, vals.len() as int),
                                min_int(end as int, vals.len() as int),
                            ));
                        }
                        Ok(out)
                    },
                }
            },
            None => {
                let lo = if self.start <= variable.len() {
                    self.start
                } else {
                    variable.len()
                };
                let mut out: Vec<Value> = Vec::new();
                let mut i: usize = lo;
                proof {
                    assert(out.deep_view() =~= vals.subrange(lo as int, lo as int));
                }
                while i < variable.len()
                    invariant
                        lo <= i <= vals.len(),
                        vals == variable.deep_view(),
                        vals.len() == variable@.len(),
                        out@.len() == i - lo,
                        out.deep_view() == vals.subrange(lo as int, i as int),
                    decreases vals.len() - i,
                {
                    let ghost dv0 = out.deep_view();
                    out.push(variable[i].duplicate());
                    proof {
                        assert(out.deep_view() =~= dv0.push(vals[i as int]));
                        assert(out.deep_view() =~= vals.subrange(lo as int, i + 1));
                    }
                    i = i + 1;
                }
                proof {
                    assert(out.deep_view() =~= vals.skip(min_int(self.start as int, vals.len() as int)));
                }
                Ok(out)
            },
        }
    }

    /// A fresh copy of this range.
    pub fn duplicate(&self) -> (r: Range)
        ensures
            r@ == self@,
    {
        Range {
            start: self.start,
            end: match self.end {
                Some(e) => Some(e),
                None => None,
            },
            or: match &self.or {
                Some(d) => Some(d.duplicate()),
                None => None,
            },
        }
    }
}

} // verus!
