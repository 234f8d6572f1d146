use vstd::prelude::*;
use vstd::string::StrSliceExecFns;

verus! {

/// Decimal digit characters.
pub open spec fn is_digit(c: char) -> bool {
    48 <= c as u32 && c as u32 <= 57
}

/// The value of a decimal digit character.
pub open spec fn digit_val(c: char) -> nat
    recommends
        is_digit(c),
{
    (c as u32 - 48) as nat
}

/// Length of the sign prefix of a decimal literal: one for a leading '+' or
/// '-', zero otherwise.
pub open spec fn sign_len(s: Seq<char>) -> int {
    if s.len() > 0 && (s[0] == '-' || s[0] == '+') {
        1
    } else {
        0
    }
}

/// Whether the literal carries a leading minus sign.
pub open spec fn is_neg(s: Seq<char>) -> bool {
    s.len() > 0 && s[0] == '-'
}

/// The literal without its sign prefix.
pub open spec fn num_body(s: Seq<char>) -> Seq<char> {
    s.skip(sign_len(s))
}

/// Position of the first '.' in `b`, or `b.len()` when there is none.
pub open spec fn dot_index(b: Seq<char>) -> int
    decreases b.len(),
{
    if b.len() == 0 {
        0
    } else if b[0] == '.' {
        0
    } else {
        1 + dot_index(b.skip(1))
    }
}

/// The digits before the decimal point (possibly none).
pub open spec fn int_part(s: Seq<char>) -> Seq<char> {
    num_body(s).take(dot_index(num_body(s)))
}

/// The digits after the decimal point (none when there is no point).
pub open spec fn frac_part(s: Seq<char>) -> Seq<char> {
    let b = num_body(s);
    if dot_index(b) < b.len() {
        b.skip(dot_index(b) + 1)
    } else {
        Seq::empty()
    }
}

pub open spec fn all_digits(d: Seq<char>) -> bool {
    forall|i: int| 0 <= i < d.len() ==> is_digit(d[i])
}

/// A decimal literal: an optional sign, then digits with at most one decimal
/// point among them, with at least one digit in all.
pub open spec fn is_number(s: Seq<char>) -> bool {
    all_digits(int_part(s)) && all_digits(frac_part(s)) && int_part(s).len() + frac_part(s).len()
        > 0
}

/// The value of a digit string read as a decimal integer.
pub open spec fn digits_val(d: Seq<char>) -> nat
    decreases d.len(),
{
    if d.len() == 0 {
        0
    } else {
        digits_val(d.drop_last()) * 10 + digit_val(d.last())
    }
}

/// The integer part of the literal's value.
pub open spec fn int_val(s: Seq<char>) -> nat {
    digits_val(int_part(s))
}

/// Whether any digit after the decimal point is non-zero, i.e. whether the
/// value has a fractional remainder.
pub open spec fn frac_nonzero(s: Seq<char>) -> bool {
    exists|i: int| 0 <= i < frac_part(s).len() && frac_part(s)[i] != '0'
}

/// The integer part of the literal's value, saturated to the largest value a
/// signed 64-bit magnitude can show.
pub open spec fn sat_mag(s: Seq<char>) -> nat {
    if int_val(s) > 0x7fff_ffff_ffff_ffff {
        0x7fff_ffff_ffff_ffff as nat
    } else {
        int_val(s)
    }
}

/// Whether the literal's exact value lies in the closed interval [18, 100].
pub open spec fn age_in_range(s: Seq<char>) -> bool {
    &&& is_number(s)
    &&& !is_neg(s)
    &&& 18 <= int_val(s)
    &&& (int_val(s) <= 99 || (int_val(s) == 100 && !frac_nonzero(s)))
}

/// What the validator keeps of a parsed decimal literal: its sign, its
/// integer part saturated to the signed 64-bit range, and whether any
/// fractional digit is non-zero.
pub struct ParsedNumber {
    pub neg: bool,
    pub int_sat: u64,
    pub frac_nonzero: bool,
}

proof fn lemma_dot_index_bounds(b: Seq<char>)
    ensures
        0 <= dot_index(b) <= b.len(),
    decreases b.len(),
{
    if b.len() > 0 && b[0] != '.' {
        lemma_dot_index_bounds(b.skip(1));
    }
}

/// The first '.' of `b` stands at `p` exactly when no earlier character is a
/// '.' and `p` is a '.' or the end.
proof fn lemma_dot_index_char(b: Seq<char>, p: int)
    requires
        0 <= p <= b.len(),
        forall|k: int| 0 <= k < p ==> b[k] != '.',
        p < b.len() ==> b[p] == '.',
    ensures
        dot_index(b) == p,
    decreases b.len(),
{
    if b.len() == 0 {
    } else if b[0] == '.' {
        assert(p == 0);
    } else {
        assert(p >= 1);
        let t = b.skip(1);
        assert forall|k: int| 0 <= k < p - 1 implies t[k] != '.' by {
            assert(t[k] == b[k + 1]);
        }
        lemma_dot_index_char(t, p - 1);
    }
}

proof fn lemma_digits_val_push(d: Seq<char>, c: char)
    ensures
        digits_val(d.push(c)) == digits_val(d) * 10 + digit_val(c),
{
    assert(d.push(c).drop_last() =~= d);
    assert(d.push(c).last() == c);
}

/// One saturating step of the decimal accumulator: given the saturated value
/// of a digit prefix, produces the saturated value of the prefix extended by
/// the digit `d`.
fn sat_step(acc: u64, d: u64, Ghost(exact): Ghost<nat>) -> (r: u64)
    requires
        d < 10,
        acc as nat == (if exact > 0x7fff_ffff_ffff_ffff {
            0x7fff_ffff_ffff_ffff as nat
        } else {
            exact
        }),
    ensures
        r as nat == (if exact * 10 + d as nat > 0x7fff_ffff_ffff_ffff {
            0x7fff_ffff_ffff_ffff as nat
        } else {
            exact * 10 + d as nat
        }),
{
    if acc < 922337203685477580 || (acc == 922337203685477580 && d <= 7) {
        proof {
            assert(exact == acc as nat);
        }
        acc * 10 + d
    } else {
        proof {
            if acc as nat == exact {
                assert(exact * 10 + d as nat > 0x7fff_ffff_ffff_ffff);
            } else {
                assert(exact > 0x7fff_ffff_ffff_ffff);
                assert(exact * 10 >= exact) by (nonlinear_arith)
                    requires
                        exact > 0,
                ;
            }
        }
        0x7fff_ffff_ffff_ffff
    }
}

/// Parses a decimal literal with an optional sign, digits, and at most one
/// decimal point, exactly as `is_number` describes; anything else is
/// rejected.
#[verifier::loop_isolation(false)]
pub fn parse_decimal(s: &str) -> (r: Option<ParsedNumber>)
    ensures
        r is Some <==> is_number(s@),
        r matches Some(p) ==> {
            &&& p.neg == is_neg(s@)
            &&& p.int_sat as nat == sat_mag(s@)
            &&& p.frac_nonzero == frac_nonzero(s@)
        },
{
    let n = s.unicode_len();
    let mut start: usize = 0;
    let mut neg = false;
    if n > 0 {
        let c0 = s.get_char(0);
        if c0 == '-' {
            neg = true;
            start = 1;
        } else if c0 == '+' {
            start = 1;
        }
    }
    let ghost b = num_body(s@);
    proof {
        assert(start as int == sign_len(s@));
        assert(neg == is_neg(s@));
    }
    // Integer part: digits until a '.' or the end.
    let mut j = start;
    let mut acc: u64 = 0;
    let mut saw_dot = false;
    while j < n && !saw_dot
        invariant
            start <= j <= n,
            forall|k: int| start <= k < j ==> s@[k] != '.' && is_digit(s@[k]),
            acc as nat == (if digits_val(s@.subrange(start as int, j as int))
                > 0x7fff_ffff_ffff_ffff {
                0x7fff_ffff_ffff_ffff as nat
            } else {
                digits_val(s@.subrange(start as int, j as int))
            }),
            saw_dot ==> j < n && s@[j as int] == '.',
        decreases n - j, (if saw_dot { 0int } else { 1int }),
    {
        let c = s.get_char(j);
        if c == '.' {
            saw_dot = true;
        } else {
            let u = c as u32;
            if !(48 <= u && u <= 57) {
                proof {
                    lemma_not_number_at(s@, j as int);
                }
                return None;
            }
            let ghost prefix = s@.subrange(start as int, j as int);
            acc = sat_step(acc, (u - 48) as u64, Ghost(digits_val(prefix)));
            proof {
                lemma_digits_val_push(prefix, s@[j as int]);
                assert(s@.subrange(start as int, j + 1) =~= prefix.push(s@[j as int]));
                assert(digit_val(s@[j as int]) == (u - 48) as nat);
            }
            j = j + 1;
        }
    }
    // Here either j == n (no decimal point) or s@[j] == '.'.
    proof {
        assert forall|k: int| 0 <= k < j - start implies b[k] != '.' by {
            assert(b[k] == s@[k + start]);
        }
        if j < n {
            assert(b[j - start] == s@[j as int]);
        }
        lemma_dot_index_char(b, j - start);
        assert(int_part(s@) =~= s@.subrange(start as int, j as int));
    }
    if !saw_dot {
        // No decimal point: the literal is valid when it has any digit.
        proof {
            assert(frac_part(s@) =~= Seq::<char>::empty());
        }
        if j == start {
            return None;
        }
        proof {
            assert(is_number(s@));
            assert(!frac_nonzero(s@));
        }
        return Some(ParsedNumber { neg, int_sat: acc, frac_nonzero: false });
    }
    // Fractional part: digits until the end.
    let mut k = j + 1;
    let mut fnz = false;
    proof {
        assert(frac_part(s@) =~= s@.subrange(j + 1, n as int));
    }
    while k < n
        invariant
            n == s@.len(),
            j + 1 <= k <= n,
            frac_part(s@) =~= s@.subrange(j + 1, n as int),
            forall|m: int| j + 1 <= m < k ==> is_digit(s@[m]),
            fnz == exists|m: int| j + 1 <= m < k && s@[m] != '0',
        decreases n - k,
    {
        let c = s.get_char(k);
        let u = c as u32;
        if !(48 <= u && u <= 57) {
            proof {
                lemma_not_number_frac(s@, j as int, k as int);
            }
            return None;
        }
        if u != 48 {
            fnz = true;
        }
        k = k + 1;
    }
    if j == start && n == j + 1 {
        // A bare "." (after the sign) has no digit at all.
        proof {
            assert(!is_number(s@));
        }
        return None;
    }
    proof {
        assert(is_number(s@));
        assert(frac_nonzero(s@) == fnz) by {
            if fnz {
                let m = choose|m: int| j + 1 <= m < n && s@[m] != '0';
                assert(frac_part(s@)[m - j - 1] != '0');
            }
            if frac_nonzero(s@) {
                let i = choose|i: int|
                    0 <= i < frac_part(s@).len() && frac_part(s@)[i] != '0';
                assert(s@[i + j + 1] != '0');
            }
        }
    }
    Some(ParsedNumber { neg, int_sat: acc, frac_nonzero: fnz })
}

/// A non-digit, non-point character before any decimal point makes the
/// literal invalid.
proof fn lemma_not_number_at(s: Seq<char>, j: int)
    requires
        sign_len(s) <= j < s.len(),
        forall|k: int| sign_len(s) <= k < j ==> s[k] != '.',
        s[j] != '.',
        !is_digit(s[j]),
    ensures
        !is_number(s),
{
    let b = num_body(s);
    let q = j - sign_len(s);
    assert forall|k: int| 0 <= k < q + 1 implies b[k] != '.' by {
        assert(b[k] == s[k + sign_len(s)]);
    }
    lemma_dot_index_bounds(b.skip(q + 1));
    lemma_dot_index_skip(b, q + 1);
    assert(dot_index(b) > q);
    assert(int_part(s)[q] == s[j]);
}

/// `dot_index` ignores a dotless prefix.
proof fn lemma_dot_index_skip(b: Seq<char>, p: int)
    requires
        0 <= p <= b.len(),
        forall|k: int| 0 <= k < p ==> b[k] != '.',
    ensures
        dot_index(b) == p + dot_index(b.skip(p)),
    decreases p,
{
    if p > 0 {
        let t = b.skip(1);
        assert forall|k: int| 0 <= k < p - 1 implies t[k] != '.' by {
            assert(t[k] == b[k + 1]);
        }
        lemma_dot_index_skip(t, p - 1);
        assert(t.skip(p - 1) =~= b.skip(p));
    } else {
        assert(b.skip(0) =~= b);
    }
}

/// A non-digit character after the decimal point makes the literal invalid.
proof fn lemma_not_number_frac(s: Seq<char>, j: int, k: int)
    requires
        sign_len(s) <= j < s.len(),
        forall|m: int| sign_len(s) <= m < j ==> s[m] != '.',
        s[j] == '.',
        j < k < s.len(),
        !is_digit(s[k]),
    ensures
        !is_number(s),
{
    let b = num_body(s);
    assert forall|m: int| 0 <= m < j - sign_len(s) implies b[m] != '.' by {
        assert(b[m] == s[m + sign_len(s)]);
    }
    assert(b[j - sign_len(s)] == s[j]);
    lemma_dot_index_char(b, j - sign_len(s));
    assert(frac_part(s)[k - j - 1] == s[k]);
}

} // verus!
