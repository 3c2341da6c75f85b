//! Validation of numeric literal texts.
//!
//! A literal is kept as text and folded into a number by the host, so the
//! evaluator must decide up front whether the text is a well-formed number.
//! The grammar is the one the standard library documents for parsing
//! double-precision numbers:
//!
//! ```text
//! Float  ::= Sign? ( 'inf' | 'infinity' | 'nan' | Number )
//! Number ::= ( Digit+ | Digit+ '.' Digit* | Digit* '.' Digit+ ) Exp?
//! Exp    ::= ('e' | 'E') Sign? Digit+
//! ```
//!
//! with the three special words matched case-insensitively.

use vstd::prelude::*;

verus! {

/// Whether a character is a decimal digit.
pub open spec fn is_digit(c: char) -> bool {
    48 <= c as u32 && c as u32 <= 57
}

/// Whether every character of a sequence is a decimal digit.
pub open spec fn all_digits(s: Seq<char>) -> bool {
    forall|i: int| 0 <= i < s.len() ==> is_digit(#[trigger] s[i])
}

/// Whether a character is a sign.
pub open spec fn is_sign(c: char) -> bool {
    c == '+' || c == '-'
}

/// The sequence with a single leading sign removed, if one is present.
pub open spec fn strip_sign(s: Seq<char>) -> Seq<char> {
    if s.len() > 0 && is_sign(s[0]) {
        s.subrange(1, s.len() as int)
    } else {
        s
    }
}

/// Whether a character matches a lowercase letter, ignoring case.
pub open spec fn char_eq_ci(c: char, l: char) -> bool {
    c == l || (c as u32) + 32 == l as u32
}

/// Whether a sequence matches a lowercase word, ignoring case.
pub open spec fn eq_ci(s: Seq<char>, lit: Seq<char>) -> bool {
    s.len() == lit.len() && forall|i: int| 0 <= i < s.len() ==> char_eq_ci(#[trigger] s[i], lit[i])
}

/// Whether a (sign-stripped) literal is one of the special words.
pub open spec fn is_special(t: Seq<char>) -> bool {
    eq_ci(t, "inf"@) || eq_ci(t, "infinity"@) || eq_ci(t, "nan"@)
}

/// Whether a sequence is a decimal mantissa: digits with at most one point
/// and at least one digit.
pub open spec fn is_decimal(m: Seq<char>) -> bool {
    (m.len() > 0 && all_digits(m)) || (m.len() > 1 && exists|d: int|
        0 <= d < m.len() && #[trigger] m[d] == '.' && all_digits(m.subrange(0, d)) && all_digits(
            m.subrange(d + 1, m.len() as int),
        ))
}

/// Whether a sequence is an exponent body: an optional sign, then digits.
pub open spec fn is_exponent(x: Seq<char>) -> bool {
    strip_sign(x).len() > 0 && all_digits(strip_sign(x))
}

/// Whether a (sign-stripped) literal is a number: a decimal mantissa with an
/// optional exponent part.
pub open spec fn is_number(t: Seq<char>) -> bool {
    is_decimal(t) || (exists|k: int|
        0 <= k < t.len() && ((#[trigger] t[k]) == 'e' || t[k] == 'E') && is_decimal(
            t.subrange(0, k),
        ) && is_exponent(t.subrange(k + 1, t.len() as int)))
}

/// Whether a literal's text is a well-formed number.
pub open spec fn is_valid_literal(s: Seq<char>) -> bool {
    is_special(strip_sign(s)) || is_number(strip_sign(s))
}

/// Every character of a decimal mantissa is a digit or the point.
proof fn lemma_decimal_chars(m: Seq<char>, j: int)
    requires
        is_decimal(m),
        0 <= j < m.len(),
    ensures
        is_digit(m[j]) || m[j] == '.',
{
    if !(m.len() > 0 && all_digits(m)) {
        let d = choose|d: int|
            0 <= d < m.len() && #[trigger] m[d] == '.' && all_digits(m.subrange(0, d)) && all_digits(
                m.subrange(d + 1, m.len() as int),
            );
        if j < d {
            assert(is_digit(m.subrange(0, d)[j]));
        } else if j > d {
            assert(is_digit(m.subrange(d + 1, m.len() as int)[j - d - 1]));
        }
    }
}

/// Whether the characters of a string from an index onward match a lowercase
/// word, ignoring case.
fn region_eq_ci(s: &str, start: usize, n: usize, lit: &str) -> (r: bool)
    requires
        start <= n,
        n == s@.len(),
    ensures
        r == eq_ci(s@.subrange(start as int, n as int), lit@),
{
    let m = lit.unicode_len();
    if n - start != m {
        return false;
    }
    let ghost t = s@.subrange(start as int, n as int);
    let mut i: usize = 0;
    while i < m
        invariant
            start + m <= n,
            n == s@.len(),
            m == lit@.len(),
            i <= m,
            t == s@.subrange(start as int, n as int),
            forall|j: int| 0 <= j < i ==> char_eq_ci(#[trigger] t[j], lit@[j]),
        decreases m - i,
    {
        let c = s.get_char(start + i);
        let l = lit.get_char(i);
        if !(c == l || (c as u32) + 32 == l as u32) {
            assert(!char_eq_ci(t[i as int], lit@[i as int]));
            return false;
        }
        i += 1;
    }
    true
}

/// Whether the characters of a string between two indices form a decimal
/// mantissa.
fn check_decimal(s: &str, lo: usize, hi: usize) -> (r: bool)
    requires
        lo <= hi,
        hi <= s@.len(),
    ensures
        r == is_decimal(s@.subrange(lo as int, hi as int)),
{
    let ghost m = s@.subrange(lo as int, hi as int);
    let mut dot: Option<usize> = None;
    let mut i: usize = lo;
    while i < hi
        invariant
            lo <= i <= hi,
            hi <= s@.len(),
            m == s@.subrange(lo as int, hi as int),
            match dot {
                Some(d) => lo <= d < i && m[d - lo] == '.' && forall|j: int|
                    0 <= j < i - lo && j != d - lo ==> is_digit(#[trigger] m[j]),
                None => forall|j: int| 0 <= j < i - lo ==> is_digit(#[trigger] m[j]),
            },
        decreases hi - i,
    {
        let c = s.get_char(i);
        let u = c as u32;
        if 48 <= u && u <= 57 {
        } else if c == '.' {
            if dot.is_some() {
                proof {
                    let d0 = dot.unwrap() - lo;
                    if is_decimal(m) {
                        lemma_decimal_chars(m, d0 as int);
                        if !(m.len() > 0 && all_digits(m)) {
                            let d = choose|d: int|
                                0 <= d < m.len() && #[trigger] m[d] == '.' && all_digits(
                                    m.subrange(0, d),
                                ) && all_digits(m.subrange(d + 1, m.len() as int));
                            if d0 < d {
                                assert(is_digit(m.subrange(0, d)[d0 as int]));
                            } else if d0 > d {
                                assert(is_digit(m.subrange(d + 1, m.len() as int)[d0 - d - 1]));
                            } else {
                                let i0 = i - lo;
                                if i0 < d {
                                    assert(is_digit(m.subrange(0, d)[i0 as int]));
                                } else {
                                    assert(is_digit(m.subrange(d + 1, m.len() as int)[i0 - d - 1]));
                                }
                            }
                        }
                    }
                }
                return false;
            }
            dot = Some(i);
        } else {
            proof {
                if is_decimal(m) {
                    lemma_decimal_chars(m, (i - lo) as int);
                }
            }
            return false;
        }
        i += 1;
    }
    match dot {
        Some(d) => {
            if hi - lo >= 2 {
                proof {
                    let dr = d - lo;
                    assert(m[dr as int] == '.');
                    assert(all_digits(m.subrange(0, dr as int)));
                    assert(all_digits(m.subrange(dr + 1, m.len() as int)));
                }
                true
            } else {
                proof {
                    if is_decimal(m) {
                        assert(m.len() == 1);
                        if m.len() > 0 && all_digits(m) {
                            assert(is_digit(m[0]));
                        }
                    }
                }
                false
            }
        },
        None => {
            if hi - lo >= 1 {
                true
            } else {
                proof {
                    if is_decimal(m) {
                        assert(m.len() > 1);
                    }
                }
                false
            }
        },
    }
}

/// Whether the characters of a string between two indices form an exponent
/// body.
fn check_exponent(s: &str, lo: usize, hi: usize) -> (r: bool)
    requires
        lo <= hi,
        hi <= s@.len(),
    ensures
        r == is_exponent(s@.subrange(lo as int, hi as int)),
{
    let ghost x = s@.subrange(lo as int, hi as int);
    let mut at: usize = lo;
    if lo < hi {
        let c0 = s.get_char(lo);
        if c0 == '+' || c0 == '-' {
            at = lo + 1;
        }
    }
    proof {
        assert(strip_sign(x) =~= s@.subrange(at as int, hi as int));
    }
    if at == hi {
        return false;
    }
    let mut i: usize = at;
    let ghost digits = s@.subrange(at as int, hi as int);
    while i < hi
        invariant
            at <= i <= hi,
            hi <= s@.len(),
            digits == s@.subrange(at as int, hi as int),
            strip_sign(x) == digits,
            x == s@.subrange(lo as int, hi as int),
            forall|j: int| 0 <= j < i - at ==> is_digit(#[trigger] digits[j]),
        decreases hi - i,
    {
        let c = s.get_char(i);
        let u = c as u32;
        if !(48 <= u && u <= 57) {
            assert(!is_digit(digits[i - at]));
            return false;
        }
        i += 1;
    }
    true
}

/// Whether the characters of a string from an index onward form a number.
fn check_number(s: &str, start: usize, n: usize) -> (r: bool)
    requires
        start <= n,
        n == s@.len(),
    ensures
        r == is_number(s@.subrange(start as int, n as int)),
{
    let ghost t = s@.subrange(start as int, n as int);
    // find the first exponent marker, if any
    let mut marker: Option<usize> = None;
    let mut i: usize = start;
    while i < n && marker.is_none()
        invariant
            start <= i <= n,
            n == s@.len(),
            t == s@.subrange(start as int, n as int),
            forall|j: int| 0 <= j < i - start ==> !(#[trigger] t[j] == 'e' || t[j] == 'E'),
            match marker {
                Some(k) => k == i && start <= k < n && (t[k - start] == 'e' || t[k - start] == 'E'),
                None => true,
            },
        decreases n - i + (if marker.is_none() { 1int } else { 0int }),
    {
        let c = s.get_char(i);
        if c == 'e' || c == 'E' {
            marker = Some(i);
        } else {
            i += 1;
        }
    }
    match marker {
        None => {
            let r = check_decimal(s, start, n);
            proof {
                if !r && is_number(t) {
                    let k = choose|k: int|
                        0 <= k < t.len() && ((#[trigger] t[k]) == 'e' || t[k] == 'E') && is_decimal(
                            t.subrange(0, k),
                        ) && is_exponent(t.subrange(k + 1, t.len() as int));
                    assert(t[k] == 'e' || t[k] == 'E');
                }
            }
            r
        },
        Some(k) => {
            let r = check_decimal(s, start, k) && check_exponent(s, k + 1, n);
            proof {
                let kr = k - start;
                if r {
                    assert(t.subrange(0, kr as int) =~= s@.subrange(start as int, k as int));
                    assert(t.subrange(kr + 1, t.len() as int) =~= s@.subrange(
                        (k + 1) as int,
                        n as int,
                    ));
                    assert(is_number(t));
                } else {
                    if is_number(t) {
                        assert(t[kr as int] == 'e' || t[kr as int] == 'E');
                        if is_decimal(t) {
                            lemma_decimal_chars(t, kr as int);
                            assert(false);
                        }
                        let k2 = choose|k2: int|
                            0 <= k2 < t.len() && ((#[trigger] t[k2]) == 'e' || t[k2] == 'E')
                                && is_decimal(t.subrange(0, k2)) && is_exponent(
                                t.subrange(k2 + 1, t.len() as int),
                            );
                        if k2 < kr {
                            assert(!(t[k2] == 'e' || t[k2] == 'E'));
                        } else if k2 > kr {
                            lemma_decimal_chars(t.subrange(0, k2), kr as int);
                            assert(false);
                        } else {
                            assert(t.subrange(0, k2) =~= s@.subrange(start as int, k as int));
                            assert(t.subrange(k2 + 1, t.len() as int) =~= s@.subrange(
                                (k + 1) as int,
                                n as int,
                            ));
                            assert(false);
                        }
                    }
                }
            }
            r
        },
    }
}

/// Whether a literal's text is a well-formed number.
pub fn check_literal(s: &String) -> (r: bool)
    ensures
        r == is_valid_literal(s@),
{
    let sr: &str = s.as_str();
    let n = sr.unicode_len();
    let mut start: usize = 0;
    if n > 0 {
        let c0 = sr.get_char(0);
        if c0 == '+' || c0 == '-' {
            start = 1;
        }
    }
    proof {
        assert(strip_sign(s@) =~= sr@.subrange(start as int, n as int));
    }
    if region_eq_ci(sr, start, n, "inf") || region_eq_ci(sr, start, n, "infinity") || region_eq_ci(
        sr,
        start,
        n,
        "nan",
    ) {
        return true;
    }
    check_number(sr, start, n)
}

} // verus!
