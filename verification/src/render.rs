//! Canonical text rendering of a polynomial.
//!
//! The renderer works on `Term` values: what it reads of each coefficient
//! is its sign class (zero, negative, absolute value one) and its formatted
//! text, which the caller supplies. Everything else — which terms are
//! skipped, the sign tokens, the degree-dependent shapes `c`, `c*X` and
//! `c*X^n`, the joining with single spaces and the stripping of a leading
//! plus — is specified and proved here, character for character.

use vstd::prelude::*;
use crate::polynomial::Polynome;

verus! {

/// What the renderer reads of one coefficient.
#[derive(Debug, PartialEq)]
pub struct Term {
    /// The coefficient is exactly zero: the term is skipped.
    pub zero: bool,
    /// The coefficient is negative: its sign token is `"- "`.
    pub negative: bool,
    /// The absolute value is exactly one: the multiplier text is elided
    /// for terms of degree one and above.
    pub unit: bool,
    /// The coefficient itself, formatted; used for the degree-zero term.
    pub signed_text: String,
    /// The absolute value, formatted; used for terms of degree one and up.
    pub magnitude_text: String,
}

/// The decimal digit character for `d` in `[0, 10)`.
pub open spec fn spec_digit(d: int) -> char {
    if d == 0 {
        '0'
    } else if d == 1 {
        '1'
    } else if d == 2 {
        '2'
    } else if d == 3 {
        '3'
    } else if d == 4 {
        '4'
    } else if d == 5 {
        '5'
    } else if d == 6 {
        '6'
    } else if d == 7 {
        '7'
    } else if d == 8 {
        '8'
    } else {
        '9'
    }
}

/// The decimal rendering of a non-negative integer, most significant digit
/// first, without a sign and without leading zeros (except for zero itself).
pub open spec fn spec_decimal(n: int) -> Seq<char>
    decreases n,
{
    if n < 10 {
        seq![spec_digit(n)]
    } else {
        spec_decimal(n / 10).push(spec_digit(n % 10))
    }
}

/// The sign token that precedes a term of degree one or more.
pub open spec fn spec_sign(negative: bool) -> Seq<char> {
    if negative {
        seq!['-', ' ']
    } else {
        seq!['+', ' ']
    }
}

/// The text of a term of degree `i >= 1`, after its sign token.
pub open spec fn spec_term_body(t: Term, i: int) -> Seq<char> {
    if i == 1 {
        if t.unit {
            seq!['X']
        } else {
            t.magnitude_text@ + seq!['*', 'X']
        }
    } else if t.unit {
        seq!['X', '^'] + spec_decimal(i)
    } else {
        t.magnitude_text@ + seq!['*', 'X', '^'] + spec_decimal(i)
    }
}

/// The full text of the term of degree `i`: the degree-zero term is the
/// signed coefficient text alone, every other term carries its sign token.
pub open spec fn spec_term_text(t: Term, i: int) -> Seq<char> {
    if i == 0 {
        t.signed_text@
    } else {
        spec_sign(t.negative) + spec_term_body(t, i)
    }
}

/// The texts of the surviving (non-zero) terms among the first `n`
/// coefficients, lowest degree first.
pub open spec fn spec_parts(terms: Seq<Term>, n: int) -> Seq<Seq<char>>
    decreases n,
{
    if n <= 0 {
        Seq::empty()
    } else if terms[n - 1].zero {
        spec_parts(terms, n - 1)
    } else {
        spec_parts(terms, n - 1).push(spec_term_text(terms[n - 1], n - 1))
    }
}

/// Texts joined with one space between neighbours.
pub open spec fn spec_join(parts: Seq<Seq<char>>) -> Seq<char>
    decreases parts.len(),
{
    if parts.len() == 0 {
        Seq::empty()
    } else if parts.len() == 1 {
        parts[0]
    } else {
        spec_join(parts.drop_last()) + seq![' '] + parts.last()
    }
}

/// Drop every leading space.
pub open spec fn spec_strip_spaces(s: Seq<char>) -> Seq<char>
    decreases s.len(),
{
    if s.len() > 0 && s[0] == ' ' {
        spec_strip_spaces(s.subrange(1, s.len() as int))
    } else {
        s
    }
}

/// If the text begins with a plus, drop it and the spaces that follow it.
pub open spec fn spec_strip_plus(s: Seq<char>) -> Seq<char> {
    if s.len() > 0 && s[0] == '+' {
        spec_strip_spaces(s.subrange(1, s.len() as int))
    } else {
        s
    }
}

/// The canonical rendering: the surviving terms joined with single spaces,
/// a leading plus stripped, and the literal `"0"` when no term survives.
pub open spec fn spec_render(terms: Seq<Term>) -> Seq<char> {
    let parts = spec_parts(terms, terms.len() as int);
    if parts.len() == 0 {
        seq!['0']
    } else {
        spec_strip_plus(spec_join(parts))
    }
}

/// The decimal digit of `d` as a string slice.
fn digit_str(d: usize) -> (s: &'static str)
    requires
        d < 10,
    ensures
        s@ == seq![spec_digit(d as int)],
{
    proof {
        reveal_strlit("0");
        reveal_strlit("1");
        reveal_strlit("2");
        reveal_strlit("3");
        reveal_strlit("4");
        reveal_strlit("5");
        reveal_strlit("6");
        reveal_strlit("7");
        reveal_strlit("8");
        reveal_strlit("9");
    }
    let s = if d == 0 {
        "0"
    } else if d == 1 {
        "1"
    } else if d == 2 {
        "2"
    } else if d == 3 {
        "3"
    } else if d == 4 {
        "4"
    } else if d == 5 {
        "5"
    } else if d == 6 {
        "6"
    } else if d == 7 {
        "7"
    } else if d == 8 {
        "8"
    } else {
        "9"
    };
    proof {
        assert(s@ =~= seq![spec_digit(d as int)]);
    }
    s
}

/// The decimal rendering of `n`, as `spec_decimal` describes it.
pub fn decimal_string(n: usize) -> (s: String)
    ensures
        s@ == spec_decimal(n as int),
    decreases n,
{
    if n < 10 {
        String::from_str(digit_str(n))
    } else {
        let mut s = decimal_string(n / 10);
        s.append(digit_str(n % 10));
        proof {
            assert(s@ =~= spec_decimal(n as int));
        }
        s
    }
}

/// Joining after appending one more part: the new part arrives at the end,
/// preceded by a separating space unless it is the first.
proof fn lemma_join_push(parts: Seq<Seq<char>>, x: Seq<char>)
    ensures
        parts.len() == 0 ==> spec_join(parts.push(x)) == x,
        parts.len() > 0 ==> spec_join(parts.push(x)) == spec_join(parts) + seq![' '] + x,
{
    if parts.len() == 0 {
        assert(parts.push(x)[0] == x);
    } else {
        assert(parts.push(x).drop_last() =~= parts);
        assert(parts.push(x).last() == x);
    }
}

/// When the first `k` characters are spaces and the next one (if any) is
/// not, stripping the leading spaces leaves exactly the suffix from `k`.
proof fn lemma_strip_spaces(s: Seq<char>, k: int)
    requires
        0 <= k <= s.len(),
        forall|j: int| 0 <= j < k ==> s[j] == ' ',
        k == s.len() || s[k] != ' ',
    ensures
        spec_strip_spaces(s) == s.subrange(k, s.len() as int),
    decreases k,
{
    if k == 0 {
        assert(s =~= s.subrange(0, s.len() as int));
    } else {
        let tail = s.subrange(1, s.len() as int);
        assert(forall|j: int| 0 <= j < k - 1 ==> tail[j] == ' ');
        lemma_strip_spaces(tail, k - 1);
        assert(tail.subrange(k - 1, tail.len() as int) =~= s.subrange(k, s.len() as int));
    }
}

impl Polynome<Term> {
    /// The canonical text form of the polynomial, exactly as `spec_render`
    /// states it over the coefficient descriptions.
    #[verifier::rlimit(50)]
    pub fn render(&self) -> (s: String)
        ensures
            s@ == spec_render(self@),
    {
        let mut joined = String::new();
        let mut count: usize = 0;
        let mut i: usize = 0;
        while i < self.coefs.len()
            invariant
                i <= self@.len(),
                count <= i,
                count == spec_parts(self@, i as int).len(),
                joined@ == spec_join(spec_parts(self@, i as int)),
            decreases self@.len() - i,
        {
            let t = &self.coefs[i];
            if !t.zero {
                let ghost parts_before = spec_parts(self@, i as int);
                let ghost text = spec_term_text(self@[i as int], i as int);
                if count > 0 {
                    joined.append(" ");
                }
                if i == 0 {
                    joined.append(t.signed_text.as_str());
                } else {
                    if t.negative {
                        joined.append("- ");
                    } else {
                        joined.append("+ ");
                    }
                    if i == 1 {
                        if t.unit {
                            joined.append("X");
                        } else {
                            joined.append(t.magnitude_text.as_str());
                            joined.append("*X");
                        }
                    } else {
                        if t.unit {
                            joined.append("X^");
                        } else {
                            joined.append(t.magnitude_text.as_str());
                            joined.append("*X^");
                        }
                        let d = decimal_string(i);
                        joined.append(d.as_str());
                    }
                }
                count = count + 1;
                proof {
                    reveal_strlit(" ");
                    reveal_strlit("- ");
                    reveal_strlit("+ ");
                    reveal_strlit("X");
                    reveal_strlit("*X");
                    reveal_strlit("X^");
                    reveal_strlit("*X^");
                    lemma_join_push(parts_before, text);
                    assert(spec_parts(self@, (i + 1) as int) == parts_before.push(text));
                    if parts_before.len() == 0 {
                        assert(joined@ =~= text);
                    } else {
                        assert(joined@ =~= spec_join(parts_before) + seq![' '] + text);
                    }
                }
            }
            i = i + 1;
        }
        if count == 0 {
            let s = String::from_str("0");
            proof {
                reveal_strlit("0");
                assert(s@ =~= seq!['0']);
            }
            return s;
        }
        let n = joined.as_str().unicode_len();
        if n == 0 {
            return joined;
        }
        if joined.as_str().get_char(0) == '+' {
            let mut start: usize = 1;
            while start < n && joined.as_str().get_char(start) == ' '
                invariant
                    1 <= start <= n,
                    n == joined@.len(),
                    forall|j: int| 1 <= j < start ==> joined@[j] == ' ',
                decreases n - start,
            {
                start = start + 1;
            }
            let stripped = String::from_str(joined.as_str().substring_char(start, n));
            proof {
                let tail = joined@.subrange(1, n as int);
                assert(forall|j: int| 0 <= j < start - 1 ==> tail[j] == ' ');
                lemma_strip_spaces(tail, start - 1);
                assert(tail.subrange(start - 1, tail.len() as int) =~= joined@.subrange(
                    start as int,
                    n as int,
                ));
            }
            return stripped;
        }
        joined
    }
}

} // verus!
