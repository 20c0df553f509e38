//! The edit distance behind the compiler's name suggestions: a full
//! Damerau-Levenshtein dynamic program over a flat cost matrix, specified
//! cell by cell.

use vstd::prelude::*;

use crate::strutil::chars_vec;
use vstd::arithmetic::mul::lemma_mul_inequality;

verus! {

/// The flat position of column `i`, row `j` in a matrix of width `w`.
pub open spec fn mat_idx(i: int, j: int, w: int) -> int {
    j * w + i
}

/// The integer image of the live cost matrix.
pub open spec fn to_int(mv: Seq<u128>) -> Seq<int> {
    Seq::new(mv.len(), |k: int| mv[k] as int)
}

/// The smaller of two costs.
pub open spec fn min2(a: int, b: int) -> int {
    if a <= b {
        a
    } else {
        b
    }
}

/// The last row at which `c` was seen, or zero.
pub open spec fn es_lookup(es: Seq<(char, int)>, c: char) -> int
    decreases es.len(),
{
    if es.len() == 0 {
        0
    } else if es[0].0 == c {
        es[0].1
    } else {
        es_lookup(es.drop_first(), c)
    }
}

/// Recording that `c` was last seen at row `i`.
pub open spec fn es_insert(es: Seq<(char, int)>, c: char, i: int) -> Seq<(char, int)>
    decreases es.len(),
{
    if es.len() == 0 {
        seq![(c, i)]
    } else if es[0].0 == c {
        seq![(c, i)] + es.drop_first()
    } else {
        seq![es[0]] + es_insert(es.drop_first(), c, i)
    }
}

/// The matrix with the border rows written: the sentinel and index column
/// for each source row.
pub open spec fn dl_init_rows(m: Seq<int>, a: int, b: int, i: int) -> Seq<int>
    decreases a + 1 - i,
{
    if i < 0 || i > a {
        m
    } else {
        dl_init_rows(
            m.update(mat_idx(i + 1, 0, a + 2), a + b).update(mat_idx(i + 1, 1, a + 2), i),
            a,
            b,
            i + 1,
        )
    }
}

/// The matrix with the border columns written: the sentinel and index row
/// for each target row.
pub open spec fn dl_init_cols(m: Seq<int>, a: int, b: int, j: int) -> Seq<int>
    decreases b + 1 - j,
{
    if j < 0 || j > b {
        m
    } else {
        dl_init_cols(
            m.update(mat_idx(0, j + 1, a + 2), a + b).update(mat_idx(1, j + 1, a + 2), j),
            a,
            b,
            j + 1,
        )
    }
}

/// The fully initialised cost matrix before the main recurrence.
pub open spec fn dl_init(a: int, b: int) -> Seq<int> {
    let base = Seq::new(((a + 2) * (b + 2)) as nat, |k: int| 0int).update(0, a + b);
    dl_init_cols(dl_init_rows(base, a, b, 0), a, b, 0)
}

/// One inner sweep: fills the cells of source row `i` against every target
/// position from `j` on, tracking the last match column `db`.
pub open spec fn dl_inner(
    m: Seq<int>,
    es: Seq<(char, int)>,
    a: Seq<char>,
    b: Seq<char>,
    i: int,
    j: int,
    db: int,
) -> (Seq<int>, int)
    decreases b.len() + 1 - j,
{
    if j < 1 || j > b.len() {
        (m, db)
    } else {
        let w = a.len() as int + 2;
        let k = es_lookup(es, b[j - 1]);
        let ins = m[mat_idx(i, j + 1, w)] + 1;
        let del = m[mat_idx(i + 1, j, w)] + 1;
        let trans = m[mat_idx(k, db, w)] + (i - k - 1) + 1 + (j - db - 1);
        let eq = a[i - 1] == b[j - 1];
        let db1 = if eq {
            j
        } else {
            db
        };
        let sub = m[mat_idx(i, j, w)] + if eq {
            0int
        } else {
            1int
        };
        let cell = min2(sub, min2(ins, min2(del, trans)));
        dl_inner(m.update(mat_idx(i + 1, j + 1, w), cell), es, a, b, i, j + 1, db1)
    }
}

/// The outer sweep over the source rows, recording each character's last
/// row after its sweep.
pub open spec fn dl_outer(
    m: Seq<int>,
    es: Seq<(char, int)>,
    a: Seq<char>,
    b: Seq<char>,
    i: int,
) -> Seq<int>
    decreases a.len() + 1 - i,
{
    if i < 1 || i > a.len() {
        m
    } else {
        let (m1, db) = dl_inner(m, es, a, b, i, 1, 0);
        dl_outer(m1, es_insert(es, a[i - 1], i), a, b, i + 1)
    }
}

/// The Damerau-Levenshtein distance between two character sequences: an
/// empty side costs the other's length, and otherwise the bottom-right cell
/// of the completed cost matrix.
pub open spec fn spec_distance(a: Seq<char>, b: Seq<char>) -> int {
    if a.len() == 0 {
        b.len() as int
    } else if b.len() == 0 {
        a.len() as int
    } else {
        let m = dl_outer(dl_init(a.len() as int, b.len() as int), Seq::empty(), a, b, 1);
        m[mat_idx(a.len() as int + 1, b.len() as int + 1, a.len() as int + 2)]
    }
}

/// The live last-seen table as (character, row) pairs.
pub open spec fn es_view(es: &Vec<(char, usize)>) -> Seq<(char, int)> {
    Seq::new(es@.len(), |k: int| (es@[k].0, es@[k].1 as int))
}

/// When the first `i` keys differ from `c` and entry `i` holds it, recording
/// updates entry `i` in place.
proof fn lemma_es_insert_at(es: Seq<(char, int)>, c: char, v: int, i: int)
    requires
        0 <= i < es.len(),
        forall|j: int| 0 <= j < i ==> es[j].0 != c,
        es[i].0 == c,
    ensures
        es_insert(es, c, v) == es.update(i, (c, v)),
    decreases i,
{
    if i == 0 {
        assert(es_insert(es, c, v) =~= es.update(0, (c, v)));
    } else {
        lemma_es_insert_at(es.drop_first(), c, v, i - 1);
        assert(es_insert(es, c, v) =~= es.update(i, (c, v)));
    }
}

/// Recording a character no entry holds appends a new entry.
proof fn lemma_es_insert_absent(es: Seq<(char, int)>, c: char, v: int)
    requires
        forall|j: int| 0 <= j < es.len() ==> es[j].0 != c,
    ensures
        es_insert(es, c, v) == es.push((c, v)),
    decreases es.len(),
{
    if es.len() == 0 {
        assert(es_insert(es, c, v) =~= es.push((c, v)));
    } else {
        lemma_es_insert_absent(es.drop_first(), c, v);
        assert(es_insert(es, c, v) =~= es.push((c, v)));
    }
}

/// Looks up the last row `c` was seen at, or zero.
fn es_get(es: &Vec<(char, usize)>, c: char) -> (r: usize)
    ensures
        r as int == es_lookup(es_view(es), c),
{
    proof {
        assert(es_view(es).skip(0) =~= es_view(es));
    }
    let mut i: usize = 0;
    while i < es.len()
        invariant
            i <= es@.len(),
            es_lookup(es_view(es), c) == es_lookup(es_view(es).skip(i as int), c),
        decreases es@.len() - i,
    {
        proof {
            assert(es_view(es).skip(i as int)[0] == es_view(es)[i as int]);
            assert(es_view(es).skip(i as int).drop_first() =~= es_view(es).skip(i + 1));
        }
        if es[i].0 == c {
            return es[i].1;
        }
        i = i + 1;
    }
    proof {
        assert(es_view(es).skip(i as int).len() == 0);
    }
    0
}

/// Records that `c` was last seen at row `v`.
fn es_put(es: &mut Vec<(char, usize)>, c: char, v: usize)
    ensures
        es_view(final(es)) == es_insert(es_view(old(es)), c, v as int),
        final(es)@.len() <= old(es)@.len() + 1,
        (forall|j: int| 0 <= j < old(es)@.len() ==> #[trigger] old(es)@[j].1 <= v) ==> (forall|
            j: int,
        |
            0 <= j < final(es)@.len() ==> #[trigger] final(es)@[j].1 <= v),
{
    let mut i: usize = 0;
    while i < es.len()
        invariant
            i <= es@.len(),
            es@ == old(es)@,
            forall|j: int| 0 <= j < i ==> es_view(old(es))[j].0 != c,
        decreases es@.len() - i,
    {
        if es[i].0 == c {
            es.set(i, (c, v));
            proof {
                lemma_es_insert_at(es_view(old(es)), c, v as int, i as int);
                assert(es_view(es) =~= es_view(old(es)).update(i as int, (c, v as int)));
            }
            return ;
        }
        i = i + 1;
    }
    es.push((c, v));
    proof {
        lemma_es_insert_absent(es_view(old(es)), c, v as int);
        assert(es_view(es) =~= es_view(old(es)).push((c, v as int)));
    }
}

/// A recorded last-seen value never exceeds the rows recorded so far.
proof fn lemma_es_lookup_bound(es: Seq<(char, int)>, c: char, bound: int)
    requires
        bound >= 0,
        forall|j: int| 0 <= j < es.len() ==> 0 <= #[trigger] es[j].1 <= bound,
    ensures
        0 <= es_lookup(es, c) <= bound,
    decreases es.len(),
{
    if es.len() > 0 && es[0].0 != c {
        assert(forall|j: int|
            0 <= j < es.drop_first().len() ==> 0 <= #[trigger] es.drop_first()[j].1 <= bound);
        lemma_es_lookup_bound(es.drop_first(), c, bound);
    }
}

/// Computes the Damerau-Levenshtein edit distance between two strings,
/// counting insertions, deletions, substitutions and transpositions: the
/// value promised by [`spec_distance`] (clipped to the machine word, which
/// no strings that fit in memory can reach).
pub fn generic_damerau_levenshtein(a_elems: &str, b_elems: &str) -> (r: usize)
    requires
        (a_elems@.len() + 2) * (b_elems@.len() + 2) <= usize::MAX,
    ensures
        spec_distance(a_elems@, b_elems@) <= usize::MAX as int ==> r as int == spec_distance(
            a_elems@,
            b_elems@,
        ),
        spec_distance(a_elems@, b_elems@) > usize::MAX as int ==> r == usize::MAX,
{
    let av = chars_vec(a_elems);
    let bv = chars_vec(b_elems);
    let a_len = av.len();
    let b_len = bv.len();
    if a_len == 0 {
        return b_len;
    }
    if b_len == 0 {
        return a_len;
    }
    let ghost aa = a_len as int;
    let ghost bb = b_len as int;
    proof {
        lemma_mul_inequality(2, bb + 2, aa + 2);
        vstd::arithmetic::mul::lemma_mul_is_commutative(aa + 2, bb + 2);
        lemma_mul_inequality(2, aa + 2, bb + 2);
        assert(a_len + b_len <= usize::MAX && a_len + 2 <= usize::MAX && b_len + 2 <= usize::MAX)
            by (nonlinear_arith)
            requires
                (aa + 2) * (bb + 2) <= usize::MAX,
                1 <= aa,
                1 <= bb,
                aa == a_len as int,
                bb == b_len as int,
        ;
    }
    let width = a_len + 2;
    let height = b_len + 2;
    let total = width * height;
    let max_distance = a_len + b_len;
    let mut m = zero_matrix(total);
    m.set(0, max_distance as u128);
    let ghost base = to_int(m@);
    proof {
        assert(base =~= Seq::new(((aa + 2) * (bb + 2)) as nat, |k: int| 0int).update(0, aa + bb));
    }
    // border rows
    let mut i: usize = 0;
    while i < a_len + 1
        invariant
            i <= a_len + 1,
            m@.len() == total,
            total == width * height,
            width == a_len + 2,
            height == b_len + 2,
            max_distance == a_len + b_len,
            dl_init_rows(to_int(m@), aa, bb, i as int) == dl_init_rows(base, aa, bb, 0),
            forall|k: int| 0 <= k < m@.len() ==> #[trigger] m@[k] as int <= aa + bb,
        decreases a_len + 1 - i,
    {
        let ghost m0 = to_int(m@);
        mat_set(&mut m, width, height, i + 1, 0, max_distance as u128);
        mat_set(&mut m, width, height, i + 1, 1, i as u128);
        proof {
            assert(to_int(m@) =~= m0.update(mat_idx(i as int + 1, 0, aa + 2), aa + bb).update(
                mat_idx(i as int + 1, 1, aa + 2),
                i as int,
            ));
        }
        i = i + 1;
    }
    // border columns
    let mut j: usize = 0;
    let ghost after_rows = to_int(m@);
    while j < b_len + 1
        invariant
            j <= b_len + 1,
            m@.len() == total,
            total == width * height,
            width == a_len + 2,
            height == b_len + 2,
            max_distance == a_len + b_len,
            dl_init_cols(to_int(m@), aa, bb, j as int) == dl_init_cols(after_rows, aa, bb, 0),
            forall|k: int| 0 <= k < m@.len() ==> #[trigger] m@[k] as int <= aa + bb,
        decreases b_len + 1 - j,
    {
        let ghost m0 = to_int(m@);
        mat_set(&mut m, width, height, 0, j + 1, max_distance as u128);
        mat_set(&mut m, width, height, 1, j + 1, j as u128);
        proof {
            lemma_mul_inequality(j as int + 2, bb + 2, aa + 2);
            vstd::arithmetic::mul::lemma_mul_is_commutative(bb + 2, aa + 2);
            assert((j as int + 1) * (aa + 2) + (aa + 2) == (j as int + 2) * (aa + 2))
                by (nonlinear_arith);
            assert(to_int(m@) =~= m0.update(mat_idx(0, j as int + 1, aa + 2), aa + bb).update(
                mat_idx(1, j as int + 1, aa + 2),
                j as int,
            ));
        }
        j = j + 1;
    }
    proof {
        assert(to_int(m@) == dl_init(aa, bb));
    }
    let ghost minit = to_int(m@);
    // the main recurrence
    let mut elems: Vec<(char, usize)> = Vec::new();
    let mut i: usize = 1;
    proof {
        assert(es_view(&elems) =~= Seq::<(char, int)>::empty());
        lemma_mul_inequality(0, aa, bb);
    }
    while i < a_len + 1
        invariant
            1 <= i <= a_len + 1,
            m@.len() == total,
            total == width * height,
            width == a_len + 2,
            height == b_len + 2,
            av@ == a_elems@,
            bv@ == b_elems@,
            aa == a_len as int,
            bb == b_len as int,
            dl_outer(to_int(m@), es_view(&elems), av@, bv@, i as int) == dl_outer(
                minit,
                Seq::empty(),
                av@,
                bv@,
                1,
            ),
            forall|k: int|
                0 <= k < m@.len() ==> #[trigger] m@[k] as int <= (aa + bb) + (i - 1) * bb,
            forall|j: int|
                0 <= j < elems@.len() ==> 0 <= #[trigger] elems@[j].1 <= i - 1,
        decreases a_len + 1 - i,
    {
        let ghost row_m = to_int(m@);
        let ghost esv = es_view(&elems);
        let ghost row_result = dl_inner(row_m, esv, av@, bv@, i as int, 1, 0);
        let mut db: usize = 0;
        let mut j: usize = 1;
        while j < b_len + 1
            invariant
                1 <= j <= b_len + 1,
                1 <= i <= a_len,
                db <= j - 1,
                m@.len() == total,
                total == width * height,
                width == a_len + 2,
                height == b_len + 2,
                av@ == a_elems@,
                bv@ == b_elems@,
                aa == a_len as int,
                bb == b_len as int,
                esv == es_view(&elems),
                row_result == dl_inner(row_m, esv, av@, bv@, i as int, 1, 0),
                dl_inner(to_int(m@), esv, av@, bv@, i as int, j as int, db as int) == row_result,
                forall|k: int|
                    0 <= k < m@.len() ==> #[trigger] m@[k] as int <= (aa + bb) + (i - 1) * bb + (j
                        - 1),
                forall|jj: int|
                    0 <= jj < elems@.len() ==> 0 <= #[trigger] elems@[jj].1 <= i - 1,
            decreases b_len + 1 - j,
        {
            let ghost m0 = to_int(m@);
            let c = bv[j - 1];
            let k = es_get(&elems, c);
            proof {
                lemma_es_lookup_bound(esv, c, i as int - 1);
                lemma_mul_inequality(i as int - 1, aa, bb);
                assert(aa * bb <= (aa + 2) * (bb + 2)) by (nonlinear_arith)
                    requires
                        0 <= aa && 0 <= bb,
                ;
                lemma_mul_inequality(j as int + 2, bb + 2, aa + 2);
                vstd::arithmetic::mul::lemma_mul_is_commutative(bb + 2, aa + 2);
                assert((j as int + 1) * (aa + 2) + (aa + 2) == (j as int + 2) * (aa + 2))
                    by (nonlinear_arith);
            }
            let ins = mat_get(&m, width, height, i, j + 1) + 1;
            let del = mat_get(&m, width, height, i + 1, j) + 1;
            let trans_base = mat_get(&m, width, height, k, db);
            let trans = trans_base + ((i - k - 1) as u128) + 1 + ((j - db - 1) as u128);
            let eq = av[i - 1] == bv[j - 1];
            let mut substitution = mat_get(&m, width, height, i, j) + 1;
            let mut db1 = db;
            if eq {
                db1 = j;
                substitution = substitution - 1;
            }
            let mut cell = substitution;
            if ins < cell {
                cell = ins;
            }
            if del < cell {
                cell = del;
            }
            if trans < cell {
                cell = trans;
            }
            mat_set(&mut m, width, height, i + 1, j + 1, cell);
            proof {
                assert(to_int(m@) =~= m0.update(
                    mat_idx(i as int + 1, j as int + 1, aa + 2),
                    cell as int,
                ));
            }
            db = db1;
            j = j + 1;
        }
        proof {
            assert(dl_inner(to_int(m@), esv, av@, bv@, i as int, j as int, db as int) == (
            to_int(m@),
            db as int,
            ));
            assert(row_result.0 == to_int(m@));
            lemma_mul_inequality(i as int - 1, aa, bb);
            assert((i as int) * bb == (i as int - 1) * bb + bb) by (nonlinear_arith);
            lemma_mul_inequality(i as int, aa, bb);
        }
        es_put(&mut elems, av[i - 1], i);
        i = i + 1;
    }
    proof {
        assert(dl_outer(to_int(m@), es_view(&elems), av@, bv@, i as int) == to_int(m@));
    }
    let d = mat_get(&m, width, height, a_len + 1, b_len + 1);
    proof {
        assert(spec_distance(a_elems@, b_elems@) == d as int);
    }
    if d <= (usize::MAX as u128) {
        d as usize
    } else {
        usize::MAX
    }
}

/// A zeroed cost vector of the given length.
fn zero_matrix(n: usize) -> (r: Vec<u128>)
    ensures
        r@.len() == n,
        forall|k: int| 0 <= k < n ==> r@[k] == 0u128,
{
    let mut out: Vec<u128> = Vec::new();
    let mut i: usize = 0;
    while i < n
        invariant
            i <= n,
            out@.len() == i,
            forall|k: int| 0 <= k < i ==> out@[k] == 0u128,
        decreases n - i,
    {
        out.push(0);
        i = i + 1;
    }
    out
}

/// Reads the cell at column `i`, row `j`.
fn mat_get(m: &Vec<u128>, width: usize, height: usize, i: usize, j: usize) -> (r: u128)
    requires
        i < width,
        j < height,
        m@.len() == width * height,
    ensures
        r == m@[mat_idx(i as int, j as int, width as int)],
        0 <= mat_idx(i as int, j as int, width as int) < m@.len(),
{
    let total = m.len();
    proof {
        lemma_mul_inequality(j as int + 1, height as int, width as int);
        vstd::arithmetic::mul::lemma_mul_is_commutative(height as int, width as int);
        assert((j + 1) * width == j * width + width) by (nonlinear_arith);
        assert(j * width + i < width * height);
        assert(width * height == total as int);
    }
    m[j * width + i]
}

/// Writes the cell at column `i`, row `j`.
fn mat_set(m: &mut Vec<u128>, width: usize, height: usize, i: usize, j: usize, v: u128)
    requires
        i < width,
        j < height,
        old(m)@.len() == width * height,
    ensures
        final(m)@ == old(m)@.update(mat_idx(i as int, j as int, width as int), v),
        final(m)@.len() == old(m)@.len(),
        0 <= mat_idx(i as int, j as int, width as int) < old(m)@.len(),
{
    let total = m.len();
    proof {
        lemma_mul_inequality(j as int + 1, height as int, width as int);
        vstd::arithmetic::mul::lemma_mul_is_commutative(height as int, width as int);
        assert((j + 1) * width == j * width + width) by (nonlinear_arith);
        assert(j * width + i < width * height);
        assert(width * height == total as int);
    }
    m.set(j * width + i, v);
}

} // verus!
