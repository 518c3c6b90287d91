//! The text of a decimal number, as `f64`'s `FromStr` accepts it: an
//! optional sign, then `inf`, `infinity` or `nan` in any case, or digits
//! with at most one decimal point and at least one digit, followed by an
//! optional exponent (`e` or `E`, an optional sign, at least one digit).
use vstd::prelude::*;

verus! {

pub open spec fn is_digit(c: char) -> bool {
    '0' <= c && c <= '9'
}

pub open spec fn is_sign(c: char) -> bool {
    c == '+' || c == '-'
}

pub open spec fn is_exp_mark(c: char) -> bool {
    c == 'e' || c == 'E'
}

/// `s` without one leading sign.
pub open spec fn strip_sign(s: Seq<char>) -> Seq<char> {
    if s.len() > 0 && is_sign(s[0]) {
        s.drop_first()
    } else {
        s
    }
}

pub open spec fn all_digits(s: Seq<char>) -> bool {
    forall|i: int| 0 <= i < s.len() ==> is_digit(#[trigger] s[i])
}

/// `s` spells the word whose lower-case letters are `lower` and whose
/// upper-case letters are `upper`, each letter in either case.
pub open spec fn spells(s: Seq<char>, lower: Seq<char>, upper: Seq<char>) -> bool {
    &&& s.len() == lower.len()
    &&& forall|i: int| 0 <= i < s.len() ==> (#[trigger] s[i] == lower[i] || s[i] == upper[i])
}

/// `inf`, `infinity` or `nan`, in any case.
pub open spec fn is_special_word(s: Seq<char>) -> bool {
    ||| spells(s, seq!['i', 'n', 'f'], seq!['I', 'N', 'F'])
    ||| spells(
        s,
        seq!['i', 'n', 'f', 'i', 'n', 'i', 't', 'y'],
        seq!['I', 'N', 'F', 'I', 'N', 'I', 'T', 'Y'],
    )
    ||| spells(s, seq!['n', 'a', 'n'], seq!['N', 'A', 'N'])
}

/// Position of the first exponent mark in `s`; the length where there is none.
pub open spec fn first_exp_mark(s: Seq<char>) -> int
    decreases s.len(),
{
    if s.len() == 0 {
        0
    } else if is_exp_mark(s[0]) {
        0
    } else {
        1 + first_exp_mark(s.drop_first())
    }
}

/// Digits with at most one decimal point, and at least one digit.
pub open spec fn is_mantissa(m: Seq<char>) -> bool {
    let d = crate::text::first_index(m, '.');
    &&& all_digits(m.take(d))
    &&& d < m.len() ==> all_digits(m.skip(d + 1))
    &&& (if d < m.len() { m.len() >= 2 } else { m.len() >= 1 })
}

/// An optional sign followed by at least one digit.
pub open spec fn is_exponent(x: Seq<char>) -> bool {
    strip_sign(x).len() > 0 && all_digits(strip_sign(x))
}

pub open spec fn is_number(b: Seq<char>) -> bool {
    let k = first_exp_mark(b);
    is_mantissa(b.take(k)) && (k < b.len() ==> is_exponent(b.skip(k + 1)))
}

/// Whether `s` is the text of an `f64`.
pub open spec fn is_float_text(s: Seq<char>) -> bool {
    is_special_word(strip_sign(s)) || is_number(strip_sign(s))
}

pub proof fn lemma_first_exp_mark(s: Seq<char>)
    ensures
        0 <= first_exp_mark(s) <= s.len(),
        forall|j: int| 0 <= j < first_exp_mark(s) ==> !is_exp_mark(s[j]),
        first_exp_mark(s) < s.len() ==> is_exp_mark(s[first_exp_mark(s)]),
    decreases s.len(),
{
    if s.len() > 0 && !is_exp_mark(s[0]) {
        lemma_first_exp_mark(s.drop_first());
        assert forall|j: int| 0 <= j < first_exp_mark(s) implies !is_exp_mark(s[j]) by {
            if j > 0 {
                assert(s[j] == s.drop_first()[j - 1]);
            }
        }
        if first_exp_mark(s) < s.len() {
            assert(s[first_exp_mark(s)] == s.drop_first()[first_exp_mark(s.drop_first())]);
        }
    }
}

pub proof fn lemma_first_exp_mark_at(s: Seq<char>, k: int)
    requires
        0 <= k <= s.len(),
        forall|j: int| 0 <= j < k ==> !is_exp_mark(s[j]),
        k < s.len() ==> is_exp_mark(s[k]),
    ensures
        first_exp_mark(s) == k,
{
    lemma_first_exp_mark(s);
    let f = first_exp_mark(s);
    if f < k {
        assert(!is_exp_mark(s[f]));
    } else if k < f {
        assert(is_exp_mark(s[k]));
    }
}

/// Whether the characters of `s` at `from..to` are all digits.
fn digits_between(s: &str, from: usize, to: usize) -> (r: bool)
    requires
        from <= to <= s@.len(),
    ensures
        r == all_digits(s@.subrange(from as int, to as int)),
{
    let mut i = from;
    while i < to
        invariant
            from <= i <= to <= s@.len(),
            forall|j: int| from <= j < i ==> is_digit(s@[j]),
        decreases to - i,
    {
        let c = s.get_char(i);
        if !('0' <= c && c <= '9') {
            proof {
                assert(s@.subrange(from as int, to as int)[i - from] == c);
            }
            return false;
        }
        i = i + 1;
    }
    proof {
        assert forall|j: int| 0 <= j < to - from implies is_digit(
            #[trigger] s@.subrange(from as int, to as int)[j],
        ) by {
            assert(s@.subrange(from as int, to as int)[j] == s@[from + j]);
        }
    }
    true
}

/// Whether the characters of `s` at `from..` spell the word `lower`/`upper`.
fn spells_from(s: &str, from: usize, lower: &[char], upper: &[char]) -> (r: bool)
    requires
        from <= s@.len(),
        lower@.len() == upper@.len(),
    ensures
        r == spells(s@.skip(from as int), lower@, upper@),
{
    let len = s.unicode_len();
    let n = lower.len();
    if len - from != n {
        return false;
    }
    let mut i: usize = 0;
    while i < n
        invariant
            len == s@.len(),
            n == lower@.len(),
            n == upper@.len(),
            len - from == n,
            i <= n,
            forall|j: int| 0 <= j < i ==> (s@[from + j] == lower@[j] || s@[from + j] == upper@[j]),
        decreases n - i,
    {
        let c = s.get_char(from + i);
        if c != lower[i] && c != upper[i] {
            proof {
                assert(s@.skip(from as int)[i as int] == c);
            }
            return false;
        }
        i = i + 1;
    }
    proof {
        assert forall|j: int| 0 <= j < s@.skip(from as int).len() implies (
        #[trigger] s@.skip(from as int)[j] == lower@[j] || s@.skip(from as int)[j] == upper@[j]) by {
            assert(s@.skip(from as int)[j] == s@[from + j]);
        }
    }
    true
}

/// Whether the characters of `s` at `from..to` form a mantissa.
fn mantissa_between(s: &str, from: usize, to: usize) -> (r: bool)
    requires
        from <= to <= s@.len(),
    ensures
        r == is_mantissa(s@.subrange(from as int, to as int)),
{
    let ghost m = s@.subrange(from as int, to as int);
    let mut d = from;
    while d < to && s.get_char(d) != '.'
        invariant
            from <= d <= to <= s@.len(),
            forall|j: int| from <= j < d ==> s@[j] != '.',
        decreases to - d,
    {
        d = d + 1;
    }
    proof {
        assert forall|j: int| 0 <= j < d - from implies m[j] != '.' by {
            assert(m[j] == s@[from + j]);
        }
        if d < to {
            assert(m[d - from] == s@[d as int]);
        }
        crate::text::lemma_first_index(m, '.');
        let f = crate::text::first_index(m, '.');
        if f < d - from {
            assert(m[f] == '.');
        } else if d - from < f {
            assert(m[d - from] != '.');
        }
        assert(m.take(d - from) =~= s@.subrange(from as int, d as int));
        if d < to {
            assert(m.skip(d - from + 1) =~= s@.subrange(d + 1, to as int));
        }
    }
    if !digits_between(s, from, d) {
        return false;
    }
    if d < to {
        digits_between(s, d + 1, to) && to - from >= 2
    } else {
        to - from >= 1
    }
}

/// Whether `s` is the text of an `f64`.
pub fn float_text(s: &str) -> (r: bool)
    ensures
        r == is_float_text(s@),
{
    let len = s.unicode_len();
    let mut p: usize = 0;
    if len > 0 {
        let c = s.get_char(0);
        if c == '+' || c == '-' {
            p = 1;
        }
    }
    let ghost b = strip_sign(s@);
    proof {
        assert(b =~= s@.skip(p as int));
    }
    let special = spells_from(s, p, &['i', 'n', 'f'], &['I', 'N', 'F']) || spells_from(
        s,
        p,
        &['i', 'n', 'f', 'i', 'n', 'i', 't', 'y'],
        &['I', 'N', 'F', 'I', 'N', 'I', 'T', 'Y'],
    ) || spells_from(s, p, &['n', 'a', 'n'], &['N', 'A', 'N']);
    proof {
        assert(seq!['i', 'n', 'f'] =~= ['i', 'n', 'f']@);
    }
    if special {
        return true;
    }
    let mut k = p;
    while k < len && s.get_char(k) != 'e' && s.get_char(k) != 'E'
        invariant
            len == s@.len(),
            p <= k <= len,
            forall|j: int| p <= j < k ==> !is_exp_mark(s@[j]),
        decreases len - k,
    {
        k = k + 1;
    }
    proof {
        assert forall|j: int| 0 <= j < k - p implies !is_exp_mark(b[j]) by {
            assert(b[j] == s@[p + j]);
        }
        if k < len {
            assert(b[k - p] == s@[k as int]);
        }
        lemma_first_exp_mark_at(b, k - p);
        assert(b.take(k - p) =~= s@.subrange(p as int, k as int));
    }
    if !mantissa_between(s, p, k) {
        return false;
    }
    if k == len {
        return true;
    }
    let ghost x = b.skip(k - p + 1);
    proof {
        assert(x =~= s@.skip(k + 1));
    }
    let mut q = k + 1;
    if q < len {
        let c = s.get_char(q);
        if c == '+' || c == '-' {
            q = q + 1;
        }
    }
    proof {
        assert(strip_sign(x) =~= s@.subrange(q as int, len as int));
    }
    q < len && digits_between(s, q, len)
}

} // verus!
