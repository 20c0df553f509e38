//! Decimal rendering of unsigned integers, used for error reports and for
//! the fresh names minted by the macro engine's hygienic renaming.

use vstd::prelude::*;

use vstd::string::StrSliceExecFns;
use vstd::string::StringExecFns;

verus! {

/// The character for one decimal digit value.
pub open spec fn digit_char(d: nat) -> char {
    if d == 0 {
        '0'
    } else if d == 1 {
        '1'
    } else if d == 2 {
        '2'
    } else if d == 3 {
        '3'
    } else if d == 4 {
        '4'
    } else if d == 5 {
        '5'
    } else if d == 6 {
        '6'
    } else if d == 7 {
        '7'
    } else if d == 8 {
        '8'
    } else {
        '9'
    }
}

/// The decimal rendering of `n`, most significant digit first, with no sign
/// and no leading zero except for `n == 0` itself.
pub open spec fn spec_digits(n: nat) -> Seq<char>
    decreases n,
{
    if n < 10 {
        seq![digit_char(n)]
    } else {
        spec_digits(n / 10).push(digit_char(n % 10))
    }
}

/// Appends the decimal rendering of `n` to `out`.
fn push_digits(out: &mut String, n: u64)
    ensures
        final(out)@ == old(out)@ + spec_digits(n as nat),
    decreases n,
{
    if n >= 10 {
        push_digits(out, n / 10);
    }
    let d: usize = (n % 10) as usize;
    let digits = "0123456789";
    proof {
        reveal_strlit("0123456789");
    }
    let s = digits.substring_ascii(d, d + 1);
    proof {
        assert(s@ =~= seq![digit_char(d as nat)]);
    }
    out.append(s);
    proof {
        if n >= 10 {
            assert(final(out)@ =~= old(out)@ + spec_digits(n as nat));
        } else {
            assert(final(out)@ =~= old(out)@ + spec_digits(n as nat));
        }
    }
}

/// The decimal rendering of `n` as a fresh string.
pub fn u64_to_string(n: u64) -> (r: String)
    ensures
        r@ == spec_digits(n as nat),
{
    let mut out = String::new();
    push_digits(&mut out, n);
    proof {
        assert(out@ =~= spec_digits(n as nat));
    }
    out
}

/// The decimal rendering of `n` as a fresh string.
pub fn usize_to_string(n: usize) -> (r: String)
    ensures
        r@ == spec_digits(n as nat),
{
    u64_to_string(n as u64)
}

/// Distinct numbers render as distinct digit strings.
pub proof fn lemma_digits_injective(a: nat, b: nat)
    requires
        a != b,
    ensures
        spec_digits(a) != spec_digits(b),
    decreases a + b,
{
    if a < 10 && b < 10 {
        assert(spec_digits(a)[0] == digit_char(a));
        assert(spec_digits(b)[0] == digit_char(b));
    } else if a < 10 && b >= 10 {
        lemma_digits_len(b);
        assert(spec_digits(a).len() == 1);
    } else if a >= 10 && b < 10 {
        lemma_digits_len(a);
        assert(spec_digits(b).len() == 1);
    } else {
        if a / 10 != b / 10 {
            lemma_digits_injective(a / 10, b / 10);
            if spec_digits(a) == spec_digits(b) {
                assert(spec_digits(a).drop_last() =~= spec_digits(a / 10));
                assert(spec_digits(b).drop_last() =~= spec_digits(b / 10));
            }
        } else {
            assert(a % 10 != b % 10);
            assert(spec_digits(a).last() == digit_char((a % 10) as nat));
            assert(spec_digits(b).last() == digit_char((b % 10) as nat));
        }
    }
}

/// A number of ten or more renders with at least two digits.
proof fn lemma_digits_len(n: nat)
    requires
        n >= 10,
    ensures
        spec_digits(n).len() >= 2,
{
    assert(spec_digits(n) == spec_digits(n / 10).push(digit_char(n % 10)));
    assert(spec_digits(n / 10).len() >= 1) by {
        lemma_digits_nonempty(n / 10);
    }
}

/// Every rendering has at least one digit.
proof fn lemma_digits_nonempty(n: nat)
    ensures
        spec_digits(n).len() >= 1,
    decreases n,
{
    if n >= 10 {
        lemma_digits_nonempty(n / 10);
    }
}

/// Whether `c` is an ASCII decimal digit.
pub open spec fn is_digit(c: char) -> bool {
    '0' as int <= c as int <= '9' as int
}

/// The numeric value of a digit character.
pub open spec fn digit_val(c: char) -> int {
    c as int - '0' as int
}

/// Whether every character of `t` is a decimal digit.
pub open spec fn all_digits(t: Seq<char>) -> bool {
    forall|i: int| 0 <= i < t.len() ==> is_digit(t[i])
}

/// The number a digit string denotes, most significant digit first.
pub open spec fn digits_val(t: Seq<char>) -> int
    decreases t.len(),
{
    if t.len() == 0 {
        0
    } else {
        digits_val(t.drop_last()) * 10 + digit_val(t.last())
    }
}

/// The number a token denotes, when it is a nonempty all-digit run whose
/// value fits a machine word — exactly the tokens that parse as an unsigned
/// machine integer.
pub open spec fn token_number(t: Seq<char>) -> Option<int> {
    if t.len() > 0 && all_digits(t) && digits_val(t) <= usize::MAX as int {
        Some(digits_val(t))
    } else {
        None
    }
}

/// The value of an all-digit string is nonnegative and no smaller than the
/// value of any of its prefixes.
proof fn lemma_digits_val_prefix(t: Seq<char>, i: int)
    requires
        all_digits(t),
        0 <= i <= t.len(),
    ensures
        0 <= digits_val(t.take(i)) <= digits_val(t),
    decreases t.len(),
{
    if t.len() == 0 {
        assert(t.take(i) =~= t);
    } else if i == t.len() {
        assert(t.take(i) =~= t);
        lemma_digits_val_prefix(t.drop_last(), t.len() - 1);
        assert(t.drop_last().take(t.len() - 1) =~= t.drop_last());
    } else {
        assert(t.take(i) =~= t.drop_last().take(i));
        lemma_digits_val_prefix(t.drop_last(), i);
        assert(is_digit(t.last()));
    }
}

/// Parses a token as an unsigned machine integer: `Some` exactly when the
/// token is a nonempty digit run whose value fits.
pub fn parse_usize(t: &Vec<char>) -> (r: Option<usize>)
    ensures
        match r {
            Some(v) => token_number(t@) == Some(v as int),
            None => token_number(t@) == Option::<int>::None,
        },
{
    if t.len() == 0 {
        return None;
    }
    let mut acc: usize = 0;
    let mut i: usize = 0;
    proof {
        assert(t@.take(0) =~= Seq::<char>::empty());
    }
    while i < t.len()
        invariant
            i <= t@.len(),
            t@.len() > 0,
            all_digits(t@.take(i as int)),
            acc as int == digits_val(t@.take(i as int)),
        decreases t@.len() - i,
    {
        let c = t[i];
        let d: usize = match c {
            '0' => 0,
            '1' => 1,
            '2' => 2,
            '3' => 3,
            '4' => 4,
            '5' => 5,
            '6' => 6,
            '7' => 7,
            '8' => 8,
            '9' => 9,
            _ => {
                proof {
                    assert(!is_digit(t@[i as int]));
                }
                return None;
            },
        };
        proof {
            assert(is_digit(t@[i as int]));
            assert(d as int == digit_val(t@[i as int]));
            assert(t@.take(i + 1).drop_last() =~= t@.take(i as int));
            assert(t@.take(i + 1).last() == t@[i as int]);
            assert(all_digits(t@.take(i + 1))) by {
                assert forall|j: int| 0 <= j < i + 1 implies #[trigger] is_digit(
                    t@.take(i + 1)[j],
                ) by {
                    if j < i {
                        assert(t@.take(i + 1)[j] == t@.take(i as int)[j]);
                    } else {
                        assert(t@.take(i + 1)[j] == t@[i as int]);
                    }
                }
            }
            assert(digits_val(t@.take(i + 1)) == digits_val(t@.take(i as int)) * 10 + d as int);
        }
        proof {
            vstd::arithmetic::div_mod::lemma_fundamental_div_mod((usize::MAX - d) as int, 10);
            vstd::arithmetic::div_mod::lemma_mod_bound((usize::MAX - d) as int, 10);
        }
        if acc > (usize::MAX - d) / 10 {
            proof {
                assert(acc as int * 10 + d as int > usize::MAX as int);
                assert(digits_val(t@.take(i + 1)) == acc as int * 10 + d as int);
                if all_digits(t@) {
                    lemma_digits_val_prefix(t@, i + 1);
                    assert(digits_val(t@) > usize::MAX as int);
                }
            }
            return None;
        }
        proof {
            assert(acc as int * 10 + d as int <= usize::MAX as int);
        }
        acc = acc * 10 + d;
        i = i + 1;
    }
    proof {
        assert(t@.take(t@.len() as int) =~= t@);
    }
    Some(acc)
}

/// No digit is an underscore, so a rendering never contains one.
pub proof fn lemma_digits_no_underscore(n: nat)
    ensures
        forall|i: int| 0 <= i < spec_digits(n).len() ==> spec_digits(n)[i] != '_',
    decreases n,
{
    if n >= 10 {
        lemma_digits_no_underscore(n / 10);
        assert forall|i: int| 0 <= i < spec_digits(n).len() implies spec_digits(n)[i] != '_' by {
            if i < spec_digits(n / 10).len() {
                assert(spec_digits(n)[i] == spec_digits(n / 10)[i]);
            } else {
                assert(spec_digits(n)[i] == digit_char(n % 10));
            }
        }
    }
}

} // verus!
