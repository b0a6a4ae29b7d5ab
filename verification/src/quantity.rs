//! Numeric field values.
//!
//! A device's physical quantities (voltage, current, temperature) arrive and
//! leave as decimal text.  The library keeps each one as the exact text that
//! was validated, under the grammar of a finite signed decimal number with an
//! optional fraction and an optional exponent — the shape a numeric field of
//! an instruction dictionary must have.  A value that fails the grammar is
//! the update protocol's parse error.

use vstd::prelude::*;

verus! {

pub open spec fn is_digit(c: char) -> bool {
    '0' <= c && c <= '9'
}

pub open spec fn all_digits(s: Seq<char>) -> bool {
    forall|i: int| 0 <= i < s.len() ==> is_digit(#[trigger] s[i])
}

/// The string with one leading `+` or `-` removed, if present.
pub open spec fn strip_sign(s: Seq<char>) -> Seq<char> {
    if s.len() > 0 && (s[0] == '+' || s[0] == '-') {
        s.drop_first()
    } else {
        s
    }
}

/// An integer part with an optional fraction: only digits and at most one
/// dot, with at least one digit somewhere.
pub open spec fn mantissa_ok(m: Seq<char>) -> bool {
    &&& forall|i: int| 0 <= i < m.len() ==> (is_digit(#[trigger] m[i]) || m[i] == '.')
    &&& exists|i: int| 0 <= i < m.len() && is_digit(#[trigger] m[i])
    &&& forall|i: int, j: int|
        0 <= i < j < m.len() ==> !(#[trigger] m[i] == '.' && #[trigger] m[j] == '.')
}

/// An exponent body: an optional sign followed by one or more digits.
pub open spec fn exp_ok(x: Seq<char>) -> bool {
    strip_sign(x).len() > 0 && all_digits(strip_sign(x))
}

/// The grammar of a numeric field value: an optional sign, then either a
/// plain mantissa, or a mantissa followed by `e` or `E` and an exponent.
pub open spec fn is_real_text(s: Seq<char>) -> bool {
    let t = strip_sign(s);
    ||| mantissa_ok(t)
    ||| exists|k: int|
        0 <= k < t.len() && (#[trigger] t[k] == 'e' || t[k] == 'E') && mantissa_ok(t.take(k))
            && exp_ok(t.skip(k + 1))
}

/// Does `s` satisfy the numeric grammar?
#[verifier::rlimit(100)]
#[verifier::loop_isolation(false)]
pub fn check_real(s: &str) -> (r: bool)
    ensures
        r == is_real_text(s@),
{
    let n = s.unicode_len();
    let ghost t = strip_sign(s@);
    let mut i: usize = 0;
    if n > 0 {
        let c = s.get_char(0);
        if c == '+' || c == '-' {
            i = 1;
        }
    }
    let start = i;
    proof {
        assert(t =~= s@.skip(start as int));
    }
    let mut seen_digit = false;
    let mut seen_dot = false;
    let mut stop = false;
    while i < n && !stop
        invariant
            start <= i <= n,
            n == s@.len(),
            t == s@.skip(start as int),
            forall|j: int|
                start <= j < i ==> (is_digit(#[trigger] s@[j]) || s@[j] == '.'),
            seen_digit == exists|j: int| start <= j < i && is_digit(#[trigger] s@[j]),
            seen_dot == exists|j: int| start <= j < i && #[trigger] s@[j] == '.',
            forall|j: int, k: int|
                start <= j < k < i ==> !(#[trigger] s@[j] == '.' && #[trigger] s@[k] == '.'),
            stop ==> i < n && !is_digit(s@[i as int]) && s@[i as int] != '.',
        decreases n - i + if stop { 0int } else { 1int },
    {
        let c = s.get_char(i);
        if '0' <= c && c <= '9' {
            seen_digit = true;
            i += 1;
        } else if c == '.' {
            if seen_dot {
                // A second dot: every admissible mantissa contains both.
                proof {
                    let j = choose|j: int| start <= j < i && s@[j] == '.';
                    assert(t[j - start] == s@[j]);
                    assert(t[i - start] == s@[i as int]);
                    assert(!mantissa_ok(t)) by {
                        assert(t[j - start] == '.' && t[i - start] == '.');
                    }
                    assert forall|k: int|
                        0 <= k < t.len() && (#[trigger] t[k] == 'e' || t[k] == 'E') implies !(
                    mantissa_ok(t.take(k)) && exp_ok(t.skip(k + 1))) by {
                        if k + start <= i {
                            assert(s@[k + start] == t[k]);
                        } else {
                            assert(t.take(k)[j - start] == t[j - start]);
                            assert(t.take(k)[i - start] == t[i - start]);
                        }
                    }
                }
                return false;
            }
            seen_dot = true;
            i += 1;
        } else {
            stop = true;
        }
    }
    // i is now the first position after the sign whose character is neither a
    // digit nor a dot, or n if there is none.
    if i == n {
        proof {
            assert forall|k: int| 0 <= k < t.len() implies !(#[trigger] t[k] == 'e' || t[k]
                == 'E') by {
                assert(s@[k + start] == t[k]);
            }
            if seen_digit && !(exists|j: int| 0 <= j < t.len() && is_digit(#[trigger] t[j])) {
                let j = choose|j: int| start <= j < i && is_digit(s@[j]);
                assert(t[j - start] == s@[j]);
            }
            if !seen_digit && (exists|j: int| 0 <= j < t.len() && is_digit(#[trigger] t[j])) {
                let j = choose|j: int| 0 <= j < t.len() && is_digit(t[j]);
                assert(s@[j + start] == t[j]);
            }
            if seen_digit {
                assert forall|j: int, k: int| 0 <= j < k < t.len() implies !(#[trigger] t[j] == '.'
                    && #[trigger] t[k] == '.') by {
                    assert(s@[j + start] == t[j]);
                    assert(s@[k + start] == t[k]);
                }
            }
        }
        return seen_digit;
    }
    let c = s.get_char(i);
    proof {
        // No admissible split can lie strictly before or after i.
        assert(t[i - start] == s@[i as int]);
        assert forall|k: int|
            0 <= k < t.len() && (#[trigger] t[k] == 'e' || t[k] == 'E') && k != i - start implies !(
        mantissa_ok(t.take(k)) && exp_ok(t.skip(k + 1))) by {
            if k < i - start {
                assert(s@[k + start] == t[k]);
            } else {
                assert(t.take(k)[i - start] == s@[i as int]);
            }
        }
        assert(!mantissa_ok(t)) by {
            assert(t[i - start] == s@[i as int]);
        }
    }
    if !(c == 'e' || c == 'E') {
        return false;
    }
    if !seen_digit {
        proof {
            assert forall|j: int| 0 <= j < i - start implies !is_digit(#[trigger] t.take(
                i - start,
            )[j]) by {
                assert(t.take(i - start)[j] == s@[j + start]);
            }
        }
        return false;
    }
    proof {
        assert(mantissa_ok(t.take(i - start))) by {
            let j = choose|j: int| start <= j < i && is_digit(s@[j]);
            assert(t.take(i - start)[j - start] == s@[j]);
            assert forall|j: int|
                0 <= j < i - start implies (is_digit(#[trigger] t.take(i - start)[j]) || t.take(
                i - start,
            )[j] == '.') by {
                assert(t.take(i - start)[j] == s@[j + start]);
            }
            assert forall|j: int, k: int| 0 <= j < k < i - start implies !(#[trigger] t.take(
                i - start,
            )[j] == '.' && #[trigger] t.take(i - start)[k] == '.') by {
                assert(t.take(i - start)[j] == s@[j + start]);
                assert(t.take(i - start)[k] == s@[k + start]);
            }
        }
    }
    // Scan the exponent: an optional sign, then one or more digits.
    let ghost x = t.skip(i + 1 - start);
    let mut j = i + 1;
    if j < n {
        let c2 = s.get_char(j);
        if c2 == '+' || c2 == '-' {
            j += 1;
        }
    }
    proof {
        assert(x =~= s@.skip(i + 1));
        assert(strip_sign(x) =~= s@.skip(j as int));
    }
    if j == n {
        proof {
            assert(strip_sign(x).len() == 0);
            assert(!exp_ok(x));
            assert(t.skip(i - start + 1) =~= x);
        }
        return false;
    }
    let ghost d = s@.skip(j as int);
    let exp_start = j;
    while j < n
        invariant
            exp_start <= j <= n,
            n == s@.len(),
            exp_start < n,
            d == s@.skip(exp_start as int),
            forall|k: int| exp_start <= k < j ==> is_digit(#[trigger] s@[k]),
        decreases n - j,
    {
        let c2 = s.get_char(j);
        if !('0' <= c2 && c2 <= '9') {
            proof {
                assert(d[j - exp_start] == s@[j as int]);
                assert(!all_digits(d));
                assert(!exp_ok(x));
                assert(t.skip(i - start + 1) =~= x);
            }
            return false;
        }
        j += 1;
    }
    proof {
        assert(all_digits(d)) by {
            assert forall|k: int| 0 <= k < d.len() implies is_digit(#[trigger] d[k]) by {
                assert(d[k] == s@[k + exp_start]);
            }
        }
        assert(d.len() > 0);
        assert(exp_ok(x));
        assert(t[i - start] == 'e' || t[i - start] == 'E');
        assert(t.skip(i - start + 1) =~= x);
        assert(is_real_text(s@)) by {
            let k = i - start;
            assert(0 <= k < t.len() && (t[k] == 'e' || t[k] == 'E') && mantissa_ok(t.take(k))
                && exp_ok(t.skip(k + 1)));
        }
    }
    true
}

/// A validated numeric field value: the exact text that passed the grammar.
/// It stands in for the device's physical quantity.
pub struct Real {
    text: String,
}

impl View for Real {
    type V = Seq<char>;

    closed spec fn view(&self) -> Seq<char> {
        self.text@
    }
}

impl Real {
    /// Every `Real` holds text in the numeric grammar.
    #[verifier::type_invariant]
    pub open spec fn wf(self) -> bool {
        is_real_text(self@)
    }

    /// Validate `s` and take it as a numeric value; `None` when it fails
    /// the grammar.
    pub fn from_text(s: &str) -> (r: Option<Real>)
        ensures
            r is Some <==> is_real_text(s@),
            r is Some ==> r->0@ == s@,
    {
        if check_real(s) {
            Some(Real { text: s.to_owned() })
        } else {
            None
        }
    }

    /// The value as text, exactly as validated.
    pub fn as_text(&self) -> (r: &String)
        ensures
            r@ == self@,
    {
        &self.text
    }

}

impl Clone for Real {
    fn clone(&self) -> (r: Self)
        ensures
            r@ == self@,
    {
        proof {
            use_type_invariant(self);
        }
        Real { text: self.text.clone() }
    }
}

} // verus!
