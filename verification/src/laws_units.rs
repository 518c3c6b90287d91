//! What the units of a report and the text of a checked number are, stated
//! over all inputs.
use vstd::prelude::*;
use crate::measure::{
    CmpOp, Order, cmp_op_of, Conversion, memory_conversion_of, memory_unit_bits, time_conversion_of, time_unit_ms,
};
use crate::number::{
    all_digits, first_exp_mark, is_digit, is_exp_mark, is_float_text, is_mantissa, is_number,
    is_sign, is_special_word, lemma_first_exp_mark, lemma_first_exp_mark_at, strip_sign,
};
use crate::text::{first_index, lemma_first_index, lemma_first_index_at};

verus! {

/// The factor by which a conversion multiplies.
pub open spec fn factor_up(c: Conversion) -> int {
    match c {
        Conversion::Same => 1,
        Conversion::Scale { numerator, .. } => numerator as int,
    }
}

/// The factor by which a conversion divides.
pub open spec fn factor_down(c: Conversion) -> int {
    match c {
        Conversion::Same => 1,
        Conversion::Scale { denominator, .. } => denominator as int,
    }
}

/// A second is 1000 milliseconds, a minute 60 seconds, an hour 60 minutes.
pub proof fn law_time_unit_steps()
    ensures
        factor_up(time_conversion_of("s"@, "ms"@)) == 1000 * factor_down(
            time_conversion_of("s"@, "ms"@),
        ),
        factor_up(time_conversion_of("m"@, "s"@)) == 60 * factor_down(
            time_conversion_of("m"@, "s"@),
        ),
        factor_up(time_conversion_of("h"@, "m"@)) == 60 * factor_down(
            time_conversion_of("h"@, "m"@),
        ),
{
    reveal_strlit("ms");
    reveal_strlit("s");
    reveal_strlit("m");
    reveal_strlit("h");
    assert("s"@.len() == 1 && "ms"@.len() == 2);
    assert("m"@[0] == 'm' && "s"@[0] == 's' && "h"@[0] == 'h');
    assert("s"@ != "ms"@);
    assert("m"@ != "s"@);
    assert("h"@ != "m"@);
}

/// A byte is 8 bits; a kilobyte 1024 bytes, a megabyte 1024 kilobytes, a
/// gigabyte 1024 megabytes.
pub proof fn law_memory_unit_steps()
    ensures
        factor_up(memory_conversion_of("b"@, "bit"@)) == 8 * factor_down(
            memory_conversion_of("b"@, "bit"@),
        ),
        factor_up(memory_conversion_of("kb"@, "b"@)) == 1024 * factor_down(
            memory_conversion_of("kb"@, "b"@),
        ),
        factor_up(memory_conversion_of("mb"@, "kb"@)) == 1024 * factor_down(
            memory_conversion_of("mb"@, "kb"@),
        ),
        factor_up(memory_conversion_of("gb"@, "mb"@)) == 1024 * factor_down(
            memory_conversion_of("gb"@, "mb"@),
        ),
{
    reveal_strlit("bit");
    reveal_strlit("b");
    reveal_strlit("kb");
    reveal_strlit("mb");
    reveal_strlit("gb");
    assert("b"@.len() == 1 && "bit"@.len() == 3 && "kb"@.len() == 2);
    assert("mb"@[0] == 'm' && "kb"@[0] == 'k' && "gb"@[0] == 'g');
    assert("b"@ != "bit"@);
    assert("kb"@ != "b"@);
    assert("mb"@ != "kb"@);
    assert("gb"@ != "mb"@);
}

/// Carrying a time from `a` to `b` and on to `c` scales it as carrying it
/// from `a` to `c` straight away, and every factor is positive.
pub proof fn law_time_conversion_composes(a: Seq<char>, b: Seq<char>, c: Seq<char>)
    requires
        time_unit_ms(a) is Some,
        time_unit_ms(b) is Some,
        time_unit_ms(c) is Some,
    ensures
        factor_down(time_conversion_of(a, b)) > 0,
        factor_up(time_conversion_of(a, b)) > 0,
        factor_up(time_conversion_of(a, b)) * factor_up(time_conversion_of(b, c)) * factor_down(
            time_conversion_of(a, c),
        ) == factor_up(time_conversion_of(a, c)) * factor_down(time_conversion_of(a, b))
            * factor_down(time_conversion_of(b, c)),
{
    let fa = time_unit_ms(a).unwrap() as int;
    let fb = time_unit_ms(b).unwrap() as int;
    let fc = time_unit_ms(c).unwrap() as int;
    assert(factor_up(time_conversion_of(a, b)) * fb == fa * factor_down(time_conversion_of(a, b)));
    assert(factor_up(time_conversion_of(b, c)) * fc == fb * factor_down(time_conversion_of(b, c)));
    assert(factor_up(time_conversion_of(a, c)) * fc == fa * factor_down(time_conversion_of(a, c)));
    assert(fa > 0 && fb > 0 && fc > 0);
    lemma_ratio_chain(
        factor_up(time_conversion_of(a, b)),
        factor_down(time_conversion_of(a, b)),
        factor_up(time_conversion_of(b, c)),
        factor_down(time_conversion_of(b, c)),
        factor_up(time_conversion_of(a, c)),
        factor_down(time_conversion_of(a, c)),
        fa,
        fb,
        fc,
    );
}

/// Carrying an amount of memory from `a` to `b` and on to `c` scales it as
/// carrying it from `a` to `c` straight away, and every factor is positive.
pub proof fn law_memory_conversion_composes(a: Seq<char>, b: Seq<char>, c: Seq<char>)
    requires
        memory_unit_bits(a) is Some,
        memory_unit_bits(b) is Some,
        memory_unit_bits(c) is Some,
    ensures
        factor_down(memory_conversion_of(a, b)) > 0,
        factor_up(memory_conversion_of(a, b)) > 0,
        factor_up(memory_conversion_of(a, b)) * factor_up(memory_conversion_of(b, c))
            * factor_down(memory_conversion_of(a, c)) == factor_up(memory_conversion_of(a, c))
            * factor_down(memory_conversion_of(a, b)) * factor_down(memory_conversion_of(b, c)),
{
    let fa = memory_unit_bits(a).unwrap() as int;
    let fb = memory_unit_bits(b).unwrap() as int;
    let fc = memory_unit_bits(c).unwrap() as int;
    assert(factor_up(memory_conversion_of(a, b)) * fb == fa * factor_down(
        memory_conversion_of(a, b),
    ));
    assert(factor_up(memory_conversion_of(b, c)) * fc == fb * factor_down(
        memory_conversion_of(b, c),
    ));
    assert(factor_up(memory_conversion_of(a, c)) * fc == fa * factor_down(
        memory_conversion_of(a, c),
    ));
    assert(fa > 0 && fb > 0 && fc > 0);
    lemma_ratio_chain(
        factor_up(memory_conversion_of(a, b)),
        factor_down(memory_conversion_of(a, b)),
        factor_up(memory_conversion_of(b, c)),
        factor_down(memory_conversion_of(b, c)),
        factor_up(memory_conversion_of(a, c)),
        factor_down(memory_conversion_of(a, c)),
        fa,
        fb,
        fc,
    );
}

proof fn lemma_ratio_chain(
    u1: int,
    d1: int,
    u2: int,
    d2: int,
    u3: int,
    d3: int,
    fa: int,
    fb: int,
    fc: int,
)
    requires
        u1 * fb == fa * d1,
        u2 * fc == fb * d2,
        u3 * fc == fa * d3,
        fa > 0,
        fb > 0,
        fc > 0,
    ensures
        u1 * u2 * d3 == u3 * d1 * d2,
{
    assert((u1 * u2 * d3) * (fb * fc) == (u1 * fb) * (u2 * fc) * d3) by (nonlinear_arith);
    assert((u1 * fb) * (u2 * fc) * d3 == (fa * d1) * (fb * d2) * d3) by (nonlinear_arith)
        requires
            u1 * fb == fa * d1,
            u2 * fc == fb * d2,
    ;
    assert((u3 * d1 * d2) * (fb * fc) == (u3 * fc) * d1 * d2 * fb) by (nonlinear_arith);
    assert((u3 * fc) * d1 * d2 * fb == (fa * d3) * d1 * d2 * fb) by (nonlinear_arith)
        requires
            u3 * fc == fa * d3,
    ;
    assert((fa * d1) * (fb * d2) * d3 == (fa * d3) * d1 * d2 * fb) by (nonlinear_arith);
    assert(fb * fc > 0) by (nonlinear_arith)
        requires
            fb > 0,
            fc > 0,
    ;
    assert(u1 * u2 * d3 == u3 * d1 * d2) by (nonlinear_arith)
        requires
            (u1 * u2 * d3) * (fb * fc) == (u3 * d1 * d2) * (fb * fc),
            fb * fc > 0,
    ;
}

/// An optional sign, the digits `int_part`, where `dot` a decimal point and
/// the digits `frac`, and where `exp` the mark `mark`, an optional sign and
/// the digits `power`.
pub open spec fn decimal_text(
    sign: Seq<char>,
    int_part: Seq<char>,
    dot: bool,
    frac: Seq<char>,
    exp: bool,
    mark: char,
    exp_sign: Seq<char>,
    power: Seq<char>,
) -> Seq<char> {
    sign + int_part + (if dot {
        seq!['.'] + frac
    } else {
        Seq::empty()
    }) + (if exp {
        seq![mark] + exp_sign + power
    } else {
        Seq::empty()
    })
}

/// Every decimal number is the text of a number: digits with at most one
/// decimal point and at least one digit in all, any number of them on each
/// side, after an optional sign and before an optional exponent (`e` or `E`,
/// an optional sign, at least one digit).
pub proof fn law_decimal_numbers_accepted(
    sign: Seq<char>,
    int_part: Seq<char>,
    dot: bool,
    frac: Seq<char>,
    exp: bool,
    mark: char,
    exp_sign: Seq<char>,
    power: Seq<char>,
)
    requires
        sign.len() == 0 || (sign.len() == 1 && is_sign(sign[0])),
        all_digits(int_part),
        all_digits(frac),
        !dot ==> frac.len() == 0,
        int_part.len() + frac.len() >= 1,
        exp ==> is_exp_mark(mark),
        exp ==> exp_sign.len() == 0 || (exp_sign.len() == 1 && is_sign(exp_sign[0])),
        exp ==> power.len() >= 1 && all_digits(power),
    ensures
        is_float_text(decimal_text(sign, int_part, dot, frac, exp, mark, exp_sign, power)),
{
    let m = mantissa_text(int_part, dot, frac);
    lemma_mantissa_text(int_part, dot, frac);
    let ex = if exp {
        seq![mark] + exp_sign + power
    } else {
        Seq::<char>::empty()
    };
    let s = decimal_text(sign, int_part, dot, frac, exp, mark, exp_sign, power);
    let b = m + ex;
    assert(s =~= sign + b);
    assert(b[0] == m[0]);
    assert(strip_sign(s) =~= b);
    assert forall|j: int| 0 <= j < m.len() implies !is_exp_mark(b[j]) by {
        assert(b[j] == m[j]);
    }
    if exp {
        assert(b[m.len() as int] == mark);
    }
    lemma_first_exp_mark_at(b, m.len() as int);
    assert(b.take(m.len() as int) =~= m);
    if exp {
        let x = b.skip(m.len() as int + 1);
        assert(x =~= exp_sign + power);
        if exp_sign.len() == 0 {
            assert(x[0] == power[0]);
            assert(is_digit(power[0]));
        }
        assert(strip_sign(x) =~= power);
    }
    assert(is_number(b));
}

/// Digits, and where `dot` a decimal point and more digits.
pub open spec fn mantissa_text(int_part: Seq<char>, dot: bool, frac: Seq<char>) -> Seq<char> {
    int_part + (if dot {
        seq!['.'] + frac
    } else {
        Seq::<char>::empty()
    })
}

proof fn lemma_mantissa_text(int_part: Seq<char>, dot: bool, frac: Seq<char>)
    requires
        all_digits(int_part),
        all_digits(frac),
        !dot ==> frac.len() == 0,
        int_part.len() + frac.len() >= 1,
    ensures
        is_mantissa(mantissa_text(int_part, dot, frac)),
        mantissa_text(int_part, dot, frac).len() >= 1,
        forall|j: int|
            0 <= j < mantissa_text(int_part, dot, frac).len() ==> !is_exp_mark(
                #[trigger] mantissa_text(int_part, dot, frac)[j],
            ) && !is_sign(mantissa_text(int_part, dot, frac)[j]),
{
    let m = mantissa_text(int_part, dot, frac);
    assert forall|j: int| 0 <= j < m.len() implies !is_exp_mark(#[trigger] m[j]) && !is_sign(
        m[j],
    ) by {
        if j < int_part.len() {
            assert(m[j] == int_part[j]);
            assert(is_digit(int_part[j]));
        } else if j > int_part.len() {
            assert(m[j] == frac[j - int_part.len() - 1]);
            assert(is_digit(frac[j - int_part.len() - 1]));
        }
    }
    let d = if dot {
        int_part.len() as int
    } else {
        m.len() as int
    };
    assert forall|j: int| 0 <= j < d implies m[j] != '.' by {
        assert(m[j] == int_part[j]);
        assert(is_digit(int_part[j]));
    }
    if dot {
        assert(m[d] == '.');
    }
    lemma_first_index_at(m, '.', d);
    assert(m.take(d) =~= int_part);
    if dot {
        assert(m.skip(d + 1) =~= frac);
    }
}

/// A text of a number that is not `inf`, `infinity` or `nan` holds only
/// digits, signs, decimal points and exponent marks, and at least one digit.
pub proof fn law_number_characters(s: Seq<char>)
    requires
        is_float_text(s),
        !is_special_word(strip_sign(s)),
    ensures
        forall|i: int|
            0 <= i < s.len() ==> is_digit(#[trigger] s[i]) || is_sign(s[i]) || s[i] == '.'
                || is_exp_mark(s[i]),
        exists|i: int| 0 <= i < s.len() && is_digit(#[trigger] s[i]),
        forall|i: int, j: int|
            0 <= i < j < s.len() && #[trigger] s[i] == '.' ==> #[trigger] s[j] != '.',
        forall|i: int, j: int|
            0 <= i < j < s.len() && is_exp_mark(#[trigger] s[i]) ==> !is_exp_mark(#[trigger] s[j])
                && s[j] != '.',
{
    let b = strip_sign(s);
    let off: int = s.len() - b.len();
    assert(forall|i: int| 0 <= i < b.len() ==> b[i] == s[i + off]);
    assert(is_number(b));
    lemma_first_exp_mark(b);
    let k = first_exp_mark(b);
    let m = b.take(k);
    lemma_first_index(m, '.');
    let d = first_index(m, '.');
    // Every character of the mantissa is a digit or the decimal point.
    assert forall|j: int| 0 <= j < k implies is_digit(b[j]) || b[j] == '.' by {
        assert(b[j] == m[j]);
        if j < d {
            assert(m.take(d)[j] == m[j]);
        } else if j > d {
            assert(m.skip(d + 1)[j - d - 1] == m[j]);
        }
    }
    // The only decimal point is at `d`, the only exponent mark at `k`.
    assert forall|j: int| 0 <= j < k && b[j] == '.' implies j == d by {
        assert(b[j] == m[j]);
        if j < d {
            assert(m.take(d)[j] == m[j]);
        } else if j > d {
            assert(m.skip(d + 1)[j - d - 1] == m[j]);
        }
    }
    // The rest is an exponent mark, an optional sign and digits.
    if k < b.len() {
        let x = b.skip(k + 1);
        assert forall|j: int| k < j < b.len() implies is_digit(b[j]) || is_sign(b[j]) by {
            assert(x[j - k - 1] == b[j]);
            if strip_sign(x).len() < x.len() {
                if j - k - 1 > 0 {
                    assert(strip_sign(x)[j - k - 2] == x[j - k - 1]);
                }
            } else {
                assert(strip_sign(x)[j - k - 1] == x[j - k - 1]);
            }
        }
    }
    assert forall|i: int| 0 <= i < s.len() implies is_digit(#[trigger] s[i]) || is_sign(s[i])
        || s[i] == '.' || is_exp_mark(s[i]) by {
        if i >= off {
            assert(b[i - off] == s[i]);
        }
    }
    assert(off == 0 || is_sign(s[0]));
    assert forall|i: int, j: int| 0 <= i < j < s.len() && #[trigger] s[i] == '.' implies
        #[trigger] s[j] != '.' by {
        assert(b[i - off] == s[i]);
        assert(b[j - off] == s[j]);
    }
    assert forall|i: int, j: int|
        0 <= i < j < s.len() && is_exp_mark(#[trigger] s[i]) implies !is_exp_mark(#[trigger] s[j])
        && s[j] != '.' by {
        assert(b[i - off] == s[i]);
        assert(b[j - off] == s[j]);
    }
    // A digit: the mantissa has one beside its decimal point.
    if d > 0 {
        assert(m.take(d)[0] == m[0]);
        assert(s[off] == b[0]);
    } else if d < m.len() {
        assert(m.len() >= 2);
        assert(m.skip(d + 1)[0] == m[1]);
        assert(s[off + 1] == b[1]);
    } else {
        assert(m.take(d)[0] == m[0]);
        assert(s[off] == b[0]);
    }
}

/// `inf`, `infinity` and `nan`, in any mix of cases and after an optional
/// sign, are texts of numbers.
pub proof fn law_special_numbers(sign: Seq<char>, w: Seq<char>)
    requires
        sign.len() == 0 || (sign.len() == 1 && is_sign(sign[0])),
        w.len() > 0,
        ({
            let lower = if w.len() == 3 && (w[0] == 'n' || w[0] == 'N') {
                seq!['n', 'a', 'n']
            } else if w.len() == 3 {
                seq!['i', 'n', 'f']
            } else {
                seq!['i', 'n', 'f', 'i', 'n', 'i', 't', 'y']
            };
            let upper = if w.len() == 3 && (w[0] == 'n' || w[0] == 'N') {
                seq!['N', 'A', 'N']
            } else if w.len() == 3 {
                seq!['I', 'N', 'F']
            } else {
                seq!['I', 'N', 'F', 'I', 'N', 'I', 'T', 'Y']
            };
            &&& w.len() == lower.len()
            &&& forall|i: int| 0 <= i < w.len() ==> w[i] == lower[i] || w[i] == upper[i]
        }),
    ensures
        is_float_text(sign + w),
{
    assert(w[0] != '+' && w[0] != '-');
    assert(strip_sign(sign + w) =~= w);
}

/// The units of time are exactly `ms`, `s`, `m` and `h`; those of memory
/// exactly `bit`, `b`, `kb`, `mb` and `gb`.
pub proof fn law_known_units(u: Seq<char>)
    ensures
        time_unit_ms(u) is Some <==> (u == "ms"@ || u == "s"@ || u == "m"@ || u == "h"@),
        memory_unit_bits(u) is Some <==> (u == "bit"@ || u == "b"@ || u == "kb"@ || u == "mb"@
            || u == "gb"@),
{
}

/// The comparisons as written: `<`, `<=`, `>`, `>=`, `==` and `!=`; any
/// other text compares with `==`. Each passes on the orders its sign names:
/// `<` on less, `>` on greater, `==` on equal, `!=` on anything but equal.
pub proof fn law_comparison_texts(op: Seq<char>, o: Order)
    ensures
        op == "<"@ ==> cmp_op_of(op) == CmpOp::Lt,
        op == "<="@ ==> cmp_op_of(op) == CmpOp::Le,
        op == ">"@ ==> cmp_op_of(op) == CmpOp::Gt,
        op == ">="@ ==> cmp_op_of(op) == CmpOp::Ge,
        op == "=="@ ==> cmp_op_of(op) == CmpOp::Eq,
        op == "!="@ ==> cmp_op_of(op) == CmpOp::Ne,
        op != "<"@ && op != "<="@ && op != ">"@ && op != ">="@ && op != "!="@ ==> cmp_op_of(op)
            == CmpOp::Eq,
        CmpOp::Lt.accepts(o) <==> o == Order::Less,
        CmpOp::Gt.accepts(o) <==> o == Order::Greater,
        CmpOp::Eq.accepts(o) <==> o == Order::Equal,
        CmpOp::Ne.accepts(o) <==> o != Order::Equal,
{
    reveal_strlit("<");
    reveal_strlit("<=");
    reveal_strlit(">");
    reveal_strlit(">=");
    reveal_strlit("==");
    reveal_strlit("!=");
    assert("<"@.len() == 1 && ">"@.len() == 1);
    assert("<="@.len() == 2 && ">="@.len() == 2 && "=="@.len() == 2 && "!="@.len() == 2);
    assert("<"@[0] == '<' && ">"@[0] == '>');
    assert("<="@[0] == '<' && ">="@[0] == '>' && "=="@[0] == '=' && "!="@[0] == '!');
}

} // verus!
