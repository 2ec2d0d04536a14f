//! Small verified text utilities shared by the lexer, the printer and the
//! parser: string equality, decimal rendering of integers, and decimal
//! parsing of integer and boolean literals.

use vstd::prelude::*;

use crate::lexer::is_digit_char;

verus! {

/// Equality of two string slices, decided through owned copies so that the
/// result is pinned to the views.
pub fn str_eq(a: &str, b: &str) -> (r: bool)
    ensures
        r == (a@ == b@),
{
    let sa: String = a.to_owned();
    let sb: String = b.to_owned();
    sa.eq(&sb)
}

/// The character of a single decimal digit.
pub open spec fn dec_digit_char(d: nat) -> char {
    if d == 0 {
        '0'
    } else if d == 1 {
        '1'
    } else if d == 2 {
        '2'
    } else if d == 3 {
        '3'
    } else if d == 4 {
        '4'
    } else if d == 5 {
        '5'
    } else if d == 6 {
        '6'
    } else if d == 7 {
        '7'
    } else if d == 8 {
        '8'
    } else {
        '9'
    }
}

/// The decimal rendering of a nonnegative integer, without sign and without
/// leading zeros (a lone `0` for zero).
pub open spec fn u64_dec_str(n: nat) -> Seq<char>
    decreases n,
{
    if n < 10 {
        seq![dec_digit_char(n)]
    } else {
        u64_dec_str(n / 10) + seq![dec_digit_char(n % 10)]
    }
}

/// The decimal rendering of a signed integer: a `-` sign for negative
/// values, then the digits.
pub open spec fn i64_dec_str(v: int) -> Seq<char> {
    if v < 0 {
        seq!['-'] + u64_dec_str((-v) as nat)
    } else {
        u64_dec_str(v as nat)
    }
}

/// A one-character string slice holding the given decimal digit.
fn digit_str(d: u64) -> (r: &'static str)
    requires
        d < 10,
    ensures
        r@ == seq![dec_digit_char(d as nat)],
{
    proof {
        reveal_strlit("0");
        reveal_strlit("1");
        reveal_strlit("2");
        reveal_strlit("3");
        reveal_strlit("4");
        reveal_strlit("5");
        reveal_strlit("6");
        reveal_strlit("7");
        reveal_strlit("8");
        reveal_strlit("9");
    }
    let r = if d == 0 {
        "0"
    } else if d == 1 {
        "1"
    } else if d == 2 {
        "2"
    } else if d == 3 {
        "3"
    } else if d == 4 {
        "4"
    } else if d == 5 {
        "5"
    } else if d == 6 {
        "6"
    } else if d == 7 {
        "7"
    } else if d == 8 {
        "8"
    } else {
        "9"
    };
    proof {
        assert(r@ =~= seq![dec_digit_char(d as nat)]);
    }
    r
}

/// Renders a nonnegative integer in decimal.
pub fn u64_to_string(n: u64) -> (r: String)
    ensures
        r@ == u64_dec_str(n as nat),
    decreases n,
{
    if n < 10 {
        digit_str(n).to_owned()
    } else {
        let mut s = u64_to_string(n / 10);
        s.append(digit_str(n % 10));
        proof {
            assert(s@ =~= u64_dec_str(n as nat));
        }
        s
    }
}

/// Renders a signed integer in decimal, with a `-` sign when negative.
pub fn i64_to_string(v: i64) -> (r: String)
    ensures
        r@ == i64_dec_str(v as int),
{
    if v >= 0 {
        u64_to_string(v as u64)
    } else {
        let m: u64 = if v == i64::MIN {
            9223372036854775808u64
        } else {
            (-v) as u64
        };
        let mut s = "-".to_owned();
        let digits = u64_to_string(m);
        s.append(digits.as_str());
        proof {
            reveal_strlit("-");
            assert(s@ =~= i64_dec_str(v as int));
        }
        s
    }
}

/// The words of the two boolean values.
pub open spec fn bool_str(b: bool) -> Seq<char> {
    if b {
        "true"@
    } else {
        "false"@
    }
}

/// Renders a boolean as `true` or `false`.
pub fn bool_to_string(b: bool) -> (r: String)
    ensures
        r@ == bool_str(b),
{
    if b {
        "true".to_owned()
    } else {
        "false".to_owned()
    }
}

/// The value of a digit string read in decimal.
pub open spec fn dec_val(s: Seq<char>) -> int
    decreases s.len(),
{
    if s.len() == 0 {
        0
    } else {
        dec_val(s.subrange(0, s.len() - 1)) * 10 + (s[s.len() - 1] as u32 - '0' as u32)
    }
}

/// What parsing an integer literal yields: the decimal value of a nonempty
/// all-digit string when it fits in an `i64`, nothing otherwise.
pub open spec fn spec_parse_i64(s: Seq<char>) -> Option<int> {
    if s.len() > 0 && (forall|k: int| 0 <= k < s.len() ==> is_digit_char(#[trigger] s[k]))
        && dec_val(s) <= i64::MAX {
        Some(dec_val(s))
    } else {
        None
    }
}

pub proof fn lemma_dec_val_nonneg(s: Seq<char>)
    requires
        forall|k: int| 0 <= k < s.len() ==> is_digit_char(#[trigger] s[k]),
    ensures
        dec_val(s) >= 0,
    decreases s.len(),
{
    if s.len() > 0 {
        let p = s.subrange(0, s.len() - 1);
        lemma_dec_val_nonneg(p);
        assert(is_digit_char(s[s.len() - 1]));
        assert(dec_val(p) * 10 >= 0) by (nonlinear_arith)
            requires
                dec_val(p) >= 0,
        ;
    }
}

/// Reading further digits never shrinks the value.
pub proof fn lemma_dec_val_prefix_le(s: Seq<char>, k: int, j: int)
    requires
        0 <= k <= j <= s.len(),
        forall|i: int| 0 <= i < s.len() ==> is_digit_char(#[trigger] s[i]),
    ensures
        dec_val(s.subrange(0, k)) <= dec_val(s.subrange(0, j)),
    decreases j - k,
{
    if k < j {
        let p = s.subrange(0, j - 1);
        let q = s.subrange(0, j);
        assert(q.subrange(0, q.len() - 1) =~= p);
        lemma_dec_val_nonneg(p);
        assert(dec_val(q) == dec_val(p) * 10 + (q[j - 1] as u32 - '0' as u32));
        assert(is_digit_char(s[j - 1]));
        assert(dec_val(p) <= dec_val(p) * 10) by (nonlinear_arith)
            requires
                dec_val(p) >= 0,
        ;
        lemma_dec_val_prefix_le(s, k, j - 1);
    } else {
        assert(s.subrange(0, k) =~= s.subrange(0, j));
    }
}

/// Parses a nonempty all-digit string as an `i64`; yields nothing on an
/// empty string, a non-digit character, or overflow.
pub fn parse_i64(s: &str) -> (r: Option<i64>)
    ensures
        match r {
            Some(v) => spec_parse_i64(s@) == Some(v as int),
            None => spec_parse_i64(s@) is None,
        },
{
    let n = s.unicode_len();
    if n == 0 {
        return None;
    }
    let mut acc: u64 = 0;
    let mut k: usize = 0;
    let max: u64 = 9223372036854775807u64;
    loop
        invariant
            max == 9223372036854775807u64,
            0 <= k <= n,
            n as nat == s@.len(),
            acc <= max,
            acc as int == dec_val(s@.subrange(0, k as int)),
            forall|i: int| 0 <= i < k ==> is_digit_char(#[trigger] s@[i]),
        ensures
            k == n,
            acc as int == dec_val(s@),
            acc <= max,
            forall|i: int| 0 <= i < s@.len() ==> is_digit_char(#[trigger] s@[i]),
        decreases n - k,
    {
        if k >= n {
            proof {
                assert(s@.subrange(0, n as int) =~= s@);
            }
            break ;
        }
        let c = s.get_char(k);
        let cv = c as u32;
        if cv < '0' as u32 || cv > '9' as u32 {
            proof {
                assert(!is_digit_char(s@[k as int]));
            }
            return None;
        }
        let d: u64 = (cv - '0' as u32) as u64;
        assert(d <= 9);
        if acc > (max - d) / 10 {
            proof {
                let pref = s@.subrange(0, k as int + 1);
                assert(pref.subrange(0, pref.len() - 1) =~= s@.subrange(0, k as int));
                assert(dec_val(pref) == acc as int * 10 + d);
                assert(acc as int * 10 + d > max as int) by (nonlinear_arith)
                    requires
                        acc as int > (max as int - d) / 10,
                        0 <= d < 10,
                        acc >= 0,
                ;
                if forall|i: int| 0 <= i < s@.len() ==> is_digit_char(#[trigger] s@[i]) {
                    lemma_dec_val_prefix_le(s@, k as int + 1, s@.len() as int);
                    assert(s@.subrange(0, s@.len() as int) =~= s@);
                    assert(dec_val(s@) > i64::MAX);
                }
            }
            return None;
        }
        proof {
            let pref = s@.subrange(0, k as int + 1);
            assert(pref.subrange(0, pref.len() - 1) =~= s@.subrange(0, k as int));
            assert(dec_val(pref) == acc as int * 10 + d);
            assert(acc as int * 10 + d <= max as int) by (nonlinear_arith)
                requires
                    acc as int <= (max as int - d) / 10,
                    0 <= d < 10,
                    acc >= 0,
            ;
        }
        acc = acc * 10 + d;
        k = k + 1;
    }
    Some(acc as i64)
}

/// Printing a nonnegative integer in decimal and reading the digits back
/// yields the value again: the literal layer of the pretty-print round
/// trip.
pub proof fn lemma_dec_round_trip(n: nat)
    ensures
        dec_val(u64_dec_str(n)) == n,
        u64_dec_str(n).len() >= 1,
        forall|k: int| 0 <= k < u64_dec_str(n).len() ==> is_digit_char(#[trigger] u64_dec_str(n)[k]),
        n <= i64::MAX ==> spec_parse_i64(u64_dec_str(n)) == Some(n as int),
    decreases n,
{
    let s = u64_dec_str(n);
    if n < 10 {
        assert(s == seq![dec_digit_char(n)]);
        assert(s.subrange(0, 0) =~= Seq::<char>::empty());
        assert(is_digit_char(dec_digit_char(n)));
        assert(dec_val(s) == dec_val(s.subrange(0, 0)) * 10 + (s[0] as u32 - '0' as u32));
        assert(dec_digit_char(n) as u32 - '0' as u32 == n);
    } else {
        lemma_dec_round_trip(n / 10);
        let p = u64_dec_str(n / 10);
        assert(s == p + seq![dec_digit_char(n % 10)]);
        assert(s.subrange(0, s.len() - 1) =~= p);
        assert(s[s.len() - 1] == dec_digit_char(n % 10));
        assert(is_digit_char(dec_digit_char(n % 10)));
        assert(dec_digit_char(n % 10) as u32 - '0' as u32 == n % 10);
        assert(dec_val(s) == dec_val(p) * 10 + n % 10);
        assert((n / 10) * 10 + n % 10 == n) by (nonlinear_arith);
        assert(forall|k: int| 0 <= k < s.len() ==> is_digit_char(#[trigger] s[k])) by {
            assert(forall|k: int| 0 <= k < p.len() ==> s[k] == p[k]);
        }
    }
}

/// What parsing a boolean literal yields: exactly the two keyword spellings
/// are accepted.
pub open spec fn spec_parse_bool(s: Seq<char>) -> Option<bool> {
    if s == "true"@ {
        Some(true)
    } else if s == "false"@ {
        Some(false)
    } else {
        None
    }
}

/// Parses `true` or `false`; yields nothing on any other string.
pub fn parse_bool(s: &str) -> (r: Option<bool>)
    ensures
        r == spec_parse_bool(s@),
{
    if str_eq(s, "true") {
        Some(true)
    } else if str_eq(s, "false") {
        Some(false)
    } else {
        None
    }
}

} // verus!
