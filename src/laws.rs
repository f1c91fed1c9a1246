//! Properties of the conversion that relate several results, or hold of
//! every input of a kind.
use crate::convert::{converts, ulong_error};
use crate::decimal::{
    finite_or_error, finite_or_nothing,
    abs, be_signed, char_digit, digit, digits, digits_value, gcd, rational_denom, rational_numer, scaled_text,
};
use crate::value::{Decimal, Field, FromParquetOpts, Span, Value};
use vstd::arithmetic::div_mod::{lemma_fundamental_div_mod, lemma_mod_multiples_basic};
use vstd::arithmetic::power::{lemma_pow_adds, lemma_pow_positive, pow};
use vstd::prelude::*;

verus! {

/// The integer that an integer field of a signed-representable kind holds.
pub open spec fn field_integer(f: Field) -> int {
    match f {
        Field::Short(x) => x as int,
        Field::UShort(x) => x as int,
        Field::Int(x) => x as int,
        Field::UInt(x) => x as int,
        Field::Long(x) => x as int,
        _ => 0,
    }
}

/// Every integer kind whose values all fit in 64 signed bits converts to an
/// integer value equal to the source, with no loss.
pub proof fn lemma_integers_exact(f: Field, span: Span, opts: FromParquetOpts, v: Value)
    requires
        f is Short || f is UShort || f is Int || f is UInt || f is Long,
        converts(f, span, opts, v),
    ensures
        v matches Value::Int { val, span: sp } && val as int == field_integer(f) && sp == span,
{
}

/// An unsigned 64-bit field becomes its integer when it is at most
/// `i64::MAX`, and a conversion error otherwise.
pub proof fn lemma_ulong_narrowing(x: u64, span: Span, opts: FromParquetOpts, v: Value)
    requires
        converts(Field::ULong(x), span, opts, v),
    ensures
        x <= i64::MAX ==> v == (Value::Int { val: x as i64, span }),
        x > i64::MAX ==> ulong_error(span, v),
{
}

/// Euclid's gcd of two numbers, not both zero, is positive and divides both.
pub proof fn lemma_gcd_divides(a: nat, b: nat)
    requires
        a > 0 || b > 0,
    ensures
        gcd(a, b) > 0,
        a % gcd(a, b) == 0,
        b % gcd(a, b) == 0,
    decreases b,
{
    if b == 0 {
        lemma_mod_multiples_basic(1, a as int);
        lemma_mod_multiples_basic(0, a as int);
    } else {
        let r = a % b;
        lemma_gcd_divides(b, r);
        let g = gcd(b, r) as int;
        lemma_fundamental_div_mod(b as int, g);
        lemma_fundamental_div_mod(r as int, g);
        lemma_fundamental_div_mod(a as int, b as int);
        let kb = b as int / g;
        let kr = r as int / g;
        let q = a as int / b as int;
        assert(a as int == ((kb * q + kr) * g)) by (nonlinear_arith)
            requires
                b as int == g * kb,
                r as int == g * kr,
                a as int == b as int * q + r as int,
        ;
        lemma_mod_multiples_basic(kb * q + kr, g);
    }
}

/// An integer that a positive number divides is that number times the quotient.
proof fn lemma_exact_division(x: int, g: int)
    requires
        g > 0,
        (abs(x) as int) % g == 0,
    ensures
        x == g * (x / g),
{
    lemma_fundamental_div_mod(abs(x) as int, g);
    let k = abs(x) as int / g;
    if x < 0 {
        assert(x == (-k) * g) by (nonlinear_arith)
            requires
                x == -(abs(x) as int),
                abs(x) as int == g * k,
        ;
        lemma_mod_multiples_basic(-k, g);
    } else {
        assert(x == k * g) by (nonlinear_arith)
            requires
                x == abs(x) as int,
                abs(x) as int == g * k,
        ;
        lemma_mod_multiples_basic(k, g);
    }
    lemma_fundamental_div_mod(x, g);
}

/// The digits of a number write that number.
pub proof fn lemma_digits_value(n: nat)
    ensures
        digits_value(digits(n)) == n,
    decreases n,
{
    assert(digits_value(Seq::<char>::empty()) == 0);
    if n >= 10 {
        lemma_digits_value(n / 10);
        assert(digits(n).drop_last() =~= digits(n / 10));
        assert(char_digit(digit(n % 10)) == n % 10);
    } else {
        assert(digits(n).drop_last() =~= Seq::<char>::empty());
        assert(char_digit(digit(n)) == n);
    }
}

/// Digits written after others shift those by their own length.
pub proof fn lemma_digits_value_append(a: Seq<char>, b: Seq<char>)
    ensures
        digits_value(a + b) == digits_value(a) * pow(10, b.len()) + digits_value(b),
    decreases b.len(),
{
    if b.len() == 0 {
        assert(a + b =~= a);
        assert(pow(10, 0) == 1) by {
            reveal(pow);
        }
    } else {
        lemma_digits_value_append(a, b.drop_last());
        assert((a + b).drop_last() =~= a + b.drop_last());
        let k = (b.len() - 1) as nat;
        assert(pow(10, b.len()) == 10 * pow(10, k)) by {
            reveal(pow);
        }
        let va = digits_value(a) as int;
        let vb = digits_value(b.drop_last()) as int;
        let p = pow(10, k);
        assert((va * p + vb) * 10 == va * (10 * p) + vb * 10) by (nonlinear_arith);
    }
}

/// A run of zeros writes zero.
proof fn lemma_zeros_value(m: nat)
    ensures
        digits_value(Seq::new(m, |i: int| '0')) == 0,
    decreases m,
{
    if m > 0 {
        assert(Seq::new(m, |i: int| '0').drop_last() =~= Seq::new((m - 1) as nat, |i: int| '0'));
        lemma_zeros_value((m - 1) as nat);
    }
}

/// The scaled text of `u * 10^-s` is a sign, whole digits and, when `s` is
/// positive, a point and exactly `s` fraction digits, and those digits
/// together write `|u|`: the text names `u / 10^s`.
pub proof fn lemma_scaled_text_value(u: int, s: nat) -> (parts: (Seq<char>, Seq<char>))
    ensures
        parts.1.len() == s,
        scaled_text(u, s) == (if u < 0 { seq!['-'] } else { Seq::<char>::empty() }) + parts.0 + (
        if s == 0 {
            Seq::<char>::empty()
        } else {
            seq!['.'] + parts.1
        }),
        digits_value(parts.0) * pow(10, s) + digits_value(parts.1) == abs(u),
{
    let d = digits(abs(u));
    lemma_digits_value(abs(u));
    let sign = if u < 0 { seq!['-'] } else { Seq::<char>::empty() };
    assert(digits_value(Seq::<char>::empty()) == 0);
    if s == 0 {
        assert(pow(10, 0) == 1) by {
            reveal(pow);
        }
        assert(scaled_text(u, s) =~= sign + d + Seq::<char>::empty());
        assert(digits_value(d) * pow(10, s) + digits_value(Seq::<char>::empty()) == abs(u));
        (d, Seq::<char>::empty())
    } else if s >= d.len() {
        let zeros = Seq::new((s - d.len()) as nat, |i: int| '0');
        let whole = seq!['0'];
        assert(whole.drop_last() =~= Seq::<char>::empty());
        assert(digits_value(whole) == 0);
        lemma_zeros_value((s - d.len()) as nat);
        lemma_digits_value_append(zeros, d);
        assert(digits_value(zeros) == 0);
        assert(digits_value(zeros) * pow(10, d.len()) == 0);
        assert(digits_value(d) == abs(u));
        assert(scaled_text(u, s) =~= sign + whole + (seq!['.'] + (zeros + d)));
        assert(digits_value(zeros + d) == abs(u));
        assert(digits_value(whole) * pow(10, s) == 0);
        (whole, zeros + d)
    } else {
        let whole = d.subrange(0, d.len() - s);
        let frac = d.subrange(d.len() - s, d.len() as int);
        assert(d =~= whole + frac);
        lemma_digits_value_append(whole, frac);
        assert(scaled_text(u, s) =~= sign + whole + (seq!['.'] + frac));
        assert(frac.len() == s);
        assert(digits_value(whole) * pow(10, s) + digits_value(frac) == abs(u));
        (whole, frac)
    }
}

/// The two decimal forms write the same number. The scaled text is a sign,
/// whole digits and `scale` fraction digits that together write
/// `|unscaled|`, so it names `unscaled / 10^scale`; the rational text writes
/// a numerator and a positive denominator whose quotient is that number too.
pub proof fn lemma_decimal_modes_agree(data: Seq<u8>, scale: nat)
    ensures
        exists|whole: Seq<char>, frac: Seq<char>|
            #![trigger digits_value(whole), digits_value(frac)]
            frac.len() == scale && scaled_text(be_signed(data), scale) == (if be_signed(data) < 0 {
                seq!['-']
            } else {
                Seq::<char>::empty()
            }) + whole + (if scale == 0 {
                Seq::<char>::empty()
            } else {
                seq!['.'] + frac
            }) && digits_value(whole) * pow(10, scale) + digits_value(frac) == abs(be_signed(data)),
        digits_value(digits(abs(rational_numer(be_signed(data), scale)))) == abs(
            rational_numer(be_signed(data), scale),
        ),
        digits_value(digits(abs(rational_denom(be_signed(data), scale)))) == abs(
            rational_denom(be_signed(data), scale),
        ),
        rational_denom(be_signed(data), scale) > 0,
        rational_numer(be_signed(data), scale) * pow(10, scale) == be_signed(data) * rational_denom(
            be_signed(data),
            scale,
        ),
{
    let u = be_signed(data);
    let p = pow(10, scale);
    let parts = lemma_scaled_text_value(u, scale);
    assert(digits_value(parts.0) * pow(10, scale) + digits_value(parts.1) == abs(u));
    lemma_digits_value(abs(rational_numer(u, scale)));
    lemma_digits_value(abs(rational_denom(u, scale)));
    lemma_pow_positive(10, scale);
    lemma_gcd_divides(abs(u), p as nat);
    let g = gcd(abs(u), p as nat) as int;
    lemma_exact_division(u, g);
    lemma_exact_division(p, g);
    let n = u / g;
    let d = p / g;
    assert(d > 0) by (nonlinear_arith)
        requires
            p == g * d,
            p > 0,
            g > 0,
    ;
    assert(n * p == u * d) by (nonlinear_arith)
        requires
            u == g * n,
            p == g * d,
    ;
}

/// In rational mode without the extended form, converting the same decimal
/// twice gives the same float, or the same error, both times.
pub proof fn lemma_rational_float_deterministic(
    d: Decimal,
    span: Span,
    opts: FromParquetOpts,
    v1: Value,
    v2: Value,
)
    requires
        opts.rational,
        !opts.extended_decimal,
        converts(Field::Decimal(d), span, opts, v1),
        converts(Field::Decimal(d), span, opts, v2),
    ensures
        v1 is Float ==> v1 == v2,
        v1 matches Value::Error { from_type: f1, to_type: t1, help: h1, span: s1 }
            ==> v2 matches Value::Error { from_type: f2, to_type: t2, help: h2, span: s2 } && f1@
            == f2@ && t1@ == t2@ && h1@ == h2@ && s1 == s2,
        v1 is Float || v1 is Error,
{
}

/// Without the extended form, a decimal becomes a finite float or the
/// decimal-to-float error, in either mode; with it, the record's value slot
/// holds a finite float or no value.
pub proof fn lemma_decimal_float_finite(d: Decimal, span: Span, opts: FromParquetOpts, v: Value)
    requires
        converts(Field::Decimal(d), span, opts, v),
    ensures
        !opts.extended_decimal ==> finite_or_error(span, v),
        opts.extended_decimal ==> (v matches Value::Record { vals, .. } && vals.len() >= 2
            && finite_or_nothing(span, vals@[0])),
{
}

/// Groups, lists and maps keep the number of their elements, and each
/// element converts by the same rule, so this holds at every depth.
pub proof fn lemma_cardinality(f: Field, span: Span, opts: FromParquetOpts, v: Value)
    requires
        converts(f, span, opts, v),
    ensures
        f matches Field::Group(row) ==> v matches Value::Record { cols, vals, span: _ }
            && cols.len() == row.fields.len() && vals.len() == row.fields.len() && forall|i: int|
            0 <= i < row.fields.len() ==> converts(row.fields@[i].1, span, opts, #[trigger] vals@[i]),
        f matches Field::ListInternal(elems) ==> v matches Value::List { vals, span: _ } && vals.len()
            == elems.len() && forall|i: int|
            0 <= i < elems.len() ==> converts(elems@[i], span, opts, #[trigger] vals@[i]),
        f matches Field::MapInternal(entries) ==> v matches Value::List { vals, span: _ } && vals.len()
            == entries.len() && forall|i: int|
            0 <= i < entries.len() ==> (#[trigger] vals@[i] matches Value::List { vals: pair, span: _ }
                && pair.len() == 2 && converts(entries@[i].0, span, opts, pair@[0]) && converts(
                entries@[i].1,
                span,
                opts,
                pair@[1],
            )),
{
}

} // verus!
