//! Decimal normalisation: a scaled big integer rendered as a float, or as a
//! record that keeps its exact value as text.
use crate::value::{str_views, Decimal, FromParquetOpts, Span, Value};
use bigdecimal::{BigDecimal, ToPrimitive};
use num_bigint::BigInt;
use num_rational::BigRational;
use vstd::arithmetic::power::pow;
use vstd::prelude::*;
use vstd::string::StringExecFns;

verus! {

/// The value of a big-endian unsigned integer.
pub open spec fn be_unsigned(s: Seq<u8>) -> nat
    decreases s.len(),
{
    if s.len() == 0 {
        0
    } else {
        be_unsigned(s.drop_last()) * 256 + s.last() as nat
    }
}

/// The value of a big-endian two's-complement integer; empty bytes are zero.
pub open spec fn be_signed(s: Seq<u8>) -> int {
    if s.len() > 0 && s[0] >= 128 {
        be_unsigned(s) - pow(256, s.len())
    } else {
        be_unsigned(s) as int
    }
}

pub open spec fn abs(x: int) -> nat {
    if x < 0 {
        (-x) as nat
    } else {
        x as nat
    }
}

/// Greatest common divisor, by Euclid.
pub open spec fn gcd(a: nat, b: nat) -> nat
    decreases b,
{
    if b == 0 {
        a
    } else {
        gcd(b, a % b)
    }
}

/// Numerator of `u / 10^s` in lowest terms, with a positive denominator.
pub open spec fn rational_numer(u: int, s: nat) -> int {
    u / (gcd(abs(u), pow(10, s) as nat) as int)
}

/// Denominator of `u / 10^s` in lowest terms; it is positive.
pub open spec fn rational_denom(u: int, s: nat) -> int {
    pow(10, s) / (gcd(abs(u), pow(10, s) as nat) as int)
}

/// The character of a decimal digit.
pub open spec fn digit(n: nat) -> char {
    if n == 0 {
        '0'
    } else if n == 1 {
        '1'
    } else if n == 2 {
        '2'
    } else if n == 3 {
        '3'
    } else if n == 4 {
        '4'
    } else if n == 5 {
        '5'
    } else if n == 6 {
        '6'
    } else if n == 7 {
        '7'
    } else if n == 8 {
        '8'
    } else {
        '9'
    }
}

/// The number that a digit character writes.
pub open spec fn char_digit(c: char) -> nat {
    if c == '1' {
        1
    } else if c == '2' {
        2
    } else if c == '3' {
        3
    } else if c == '4' {
        4
    } else if c == '5' {
        5
    } else if c == '6' {
        6
    } else if c == '7' {
        7
    } else if c == '8' {
        8
    } else if c == '9' {
        9
    } else {
        0
    }
}

/// The number that a string of decimal digits writes.
pub open spec fn digits_value(t: Seq<char>) -> nat
    decreases t.len(),
{
    if t.len() == 0 {
        0
    } else {
        digits_value(t.drop_last()) * 10 + char_digit(t.last())
    }
}

/// The decimal digits of a natural number, without leading zeros.
pub open spec fn digits(n: nat) -> Seq<char>
    decreases n,
{
    if n < 10 {
        seq![digit(n)]
    } else {
        digits(n / 10).push(digit(n % 10))
    }
}

/// An integer in decimal, with a leading `-` when negative.
pub open spec fn int_text(x: int) -> Seq<char> {
    if x < 0 {
        seq!['-'] + digits(abs(x))
    } else {
        digits(abs(x))
    }
}

/// `u * 10^-s` in positional decimal notation, keeping exactly `s` digits
/// after the point (none, and no point, when `s` is zero).
pub open spec fn scaled_text(u: int, s: nat) -> Seq<char> {
    let d = digits(abs(u));
    let body = if s == 0 {
        d
    } else if s >= d.len() {
        seq!['0', '.'] + Seq::new((s - d.len()) as nat, |i: int| '0') + d
    } else {
        d.subrange(0, d.len() - s) + seq!['.'] + d.subrange(d.len() - s, d.len() as int)
    };
    if u < 0 {
        seq!['-'] + body
    } else {
        body
    }
}

/// The double that the rational library gives for `unscaled / 10^scale`
/// (bit pattern), if it gave one.
pub uninterp spec fn rational_float(data: Seq<u8>, scale: nat) -> Option<u64>;

/// Relies on `BigInt::from_signed_bytes_be`, `BigDecimal::new` and
/// `BigDecimal::to_f64`: a float approximation of the decimal (bit pattern).
/// It is computed with `f64::powi`, whose precision std leaves unspecified, so
/// nothing is stated of the bits.
#[verifier::external_body]
fn decimal_to_f64_bits(data: &Vec<u8>, scale: u32) -> (r: Option<u64>)
{
    let d = BigDecimal::new(BigInt::from_signed_bytes_be(data), scale as i64);
    d.to_f64().map(|f| f.to_bits())
}

/// Relies on `BigInt::from_signed_bytes_be`, `BigDecimal::new` and
/// `BigDecimal`'s `Display`: the sign, the digits of the unscaled integer, and
/// a point `scale` digits from the right, padded with zeros.
#[verifier::external_body]
fn decimal_to_text(data: &Vec<u8>, scale: u32) -> (r: String)
    ensures
        r@ == scaled_text(be_signed(data@), scale as nat),
{
    BigDecimal::new(BigInt::from_signed_bytes_be(data), scale as i64).to_string()
}

/// Relies on `BigInt::from_signed_bytes_be`, `BigInt::pow`, `BigRational::new`
/// and `BigRational::to_f64`: the float approximation of the rational.
#[verifier::external_body]
fn rational_to_f64_bits(data: &Vec<u8>, scale: u32) -> (r: Option<u64>)
    ensures
        r == rational_float(data@, scale as nat),
{
    let r = BigRational::new(BigInt::from_signed_bytes_be(data), BigInt::from(10).pow(scale));
    r.to_f64().map(|f| f.to_bits())
}

/// Relies on `BigRational::new`, which reduces to lowest terms with a positive
/// denominator, and on `BigInt::to_i64`, which succeeds exactly in range.
#[verifier::external_body]
fn rational_parts_i64(data: &Vec<u8>, scale: u32) -> (r: (Option<i64>, Option<i64>))
    ensures
        r.0 == narrow_i64(rational_numer(be_signed(data@), scale as nat)),
        r.1 == narrow_i64(rational_denom(be_signed(data@), scale as nat)),
{
    let r = BigRational::new(BigInt::from_signed_bytes_be(data), BigInt::from(10).pow(scale));
    (r.numer().to_i64(), r.denom().to_i64())
}

/// Relies on `BigRational::new`, which reduces to lowest terms with a positive
/// denominator, and on `BigInt`'s `Display`, which writes an integer in decimal.
#[verifier::external_body]
fn rational_parts_text(data: &Vec<u8>, scale: u32) -> (r: (String, String))
    ensures
        r.0@ == int_text(rational_numer(be_signed(data@), scale as nat)),
        r.1@ == int_text(rational_denom(be_signed(data@), scale as nat)),
{
    let r = BigRational::new(BigInt::from_signed_bytes_be(data), BigInt::from(10).pow(scale));
    (r.numer().to_string(), r.denom().to_string())
}

/// The bit pattern of a finite double: its exponent bits are not all ones.
pub open spec fn finite_bits(b: u64) -> bool {
    (b >> 52u64) & 0x7ffu64 != 0x7ffu64
}

/// A finite approximation as a float value, and no value otherwise.
pub open spec fn float_or_nothing(f: Option<u64>, span: Span, v: Value) -> bool {
    if f is Some && finite_bits(f->0) {
        v == Value::Float { bits: f->0, span }
    } else {
        v == Value::Nothing { span }
    }
}

/// An integer narrowed to 64 bits, if it fits.
pub open spec fn narrow_i64(x: int) -> Option<i64> {
    if i64::MIN <= x <= i64::MAX {
        Some(x as i64)
    } else {
        None
    }
}

pub open spec fn opt_int(x: Option<i64>, span: Span, v: Value) -> bool {
    match x {
        Some(i) => v == Value::Int { val: i, span },
        None => v == Value::Nothing { span },
    }
}

/// An integer if it fits in 64 bits, else nothing.
pub open spec fn int_or_nothing(x: int, span: Span, v: Value) -> bool {
    opt_int(narrow_i64(x), span, v)
}

/// A finite float, or no value.
pub open spec fn finite_or_nothing(span: Span, v: Value) -> bool {
    (v matches Value::Float { bits, span: sp } && sp == span && finite_bits(bits)) || v == (
    Value::Nothing { span })
}

pub open spec fn is_string(v: Value, t: Seq<char>, span: Span) -> bool {
    v matches Value::String { val, span: sp } && val@ == t && sp == span
}

/// The error that a decimal without a finite float approximation gives.
pub open spec fn decimal_error(span: Span, v: Value) -> bool {
    v matches Value::Error { from_type, to_type, help, span: sp } && from_type@ == "decimal"@
        && to_type@ == "float"@ && help@ == "cannot convert decimal to float."@ && sp == span
}

/// A finite approximation as a float value, and the decimal error otherwise.
pub open spec fn float_or_error(f: Option<u64>, span: Span, v: Value) -> bool {
    if f is Some && finite_bits(f->0) {
        v == Value::Float { bits: f->0, span }
    } else {
        decimal_error(span, v)
    }
}

/// A finite float, or the decimal error.
pub open spec fn finite_or_error(span: Span, v: Value) -> bool {
    (v matches Value::Float { bits, span: sp } && sp == span && finite_bits(bits))
        || decimal_error(span, v)
}

/// The exact text of a decimal in rational form: `numerator/denominator`.
pub open spec fn rational_text(u: int, s: nat) -> Seq<char> {
    int_text(rational_numer(u, s)) + seq!['/'] + int_text(rational_denom(u, s))
}

/// What a decimal field becomes under the given options.
pub open spec fn decimal_value(d: Decimal, span: Span, opts: FromParquetOpts, v: Value) -> bool {
    let u = be_signed(d.data@);
    let s = d.scale as nat;
    if opts.rational {
        if opts.extended_decimal {
            v matches Value::Record { cols, vals, span: sp } && sp == span && str_views(cols@)
                == seq!["value"@, "numerator"@, "denominator"@, "text"@] && vals.len() == 4
                && float_or_nothing(rational_float(d.data@, s), span, vals@[0]) && int_or_nothing(
                rational_numer(u, s),
                span,
                vals@[1],
            ) && int_or_nothing(rational_denom(u, s), span, vals@[2]) && is_string(
                vals@[3],
                rational_text(u, s),
                span,
            )
        } else {
            float_or_error(rational_float(d.data@, s), span, v)
        }
    } else {
        if opts.extended_decimal {
            v matches Value::Record { cols, vals, span: sp } && sp == span && str_views(cols@)
                == seq!["value"@, "text"@] && vals.len() == 2 && finite_or_nothing(span, vals@[0])
                && is_string(vals@[1], scaled_text(u, s), span)
        } else {
            finite_or_error(span, v)
        }
    }
}

/// The value slot of an extended decimal record, from the float
/// approximation that the number library gave.
pub fn float_value(f: Option<u64>, span: Span) -> (r: Value)
    ensures
        float_or_nothing(f, span, r),
{
    match f {
        Some(b) => {
            if (b >> 52u64) & 0x7ffu64 != 0x7ffu64 {
                Value::Float { bits: b, span }
            } else {
                Value::Nothing { span }
            }
        },
        None => Value::Nothing { span },
    }
}

fn int_value(x: Option<i64>, span: Span) -> (r: Value)
    ensures
        opt_int(x, span, r),
{
    match x {
        Some(i) => Value::Int { val: i, span },
        None => Value::Nothing { span },
    }
}

/// A decimal rendered as a lone float, from the float approximation that the
/// number library gave: the error when there is no finite one.
pub fn float_or_conversion_error(f: Option<u64>, span: Span) -> (r: Value)
    ensures
        float_or_error(f, span, r),
{
    match f {
        Some(b) => {
            if (b >> 52u64) & 0x7ffu64 != 0x7ffu64 {
                return Value::Float { bits: b, span };
            }
        },
        None => {},
    }
    Value::Error {
        from_type: String::from_str("decimal"),
        to_type: String::from_str("float"),
        help: String::from_str("cannot convert decimal to float."),
        span,
    }
}

/// Converts a decimal field under the given options.
pub fn parquet_decimal_to_value(decimal: &Decimal, span: Span, opts: &FromParquetOpts) -> (r:
    Value)
    ensures
        decimal_value(*decimal, span, *opts, r),
{
    if opts.rational {
        let f = rational_to_f64_bits(&decimal.data, decimal.scale);
        if opts.extended_decimal {
            let (n, d) = rational_parts_i64(&decimal.data, decimal.scale);
            let (n_text, d_text) = rational_parts_text(&decimal.data, decimal.scale);
            let text = n_text.concat("/").concat(d_text.as_str());
            proof {
                reveal_strlit("/");
            }
            let mut cols: Vec<String> = Vec::new();
            cols.push(String::from_str("value"));
            cols.push(String::from_str("numerator"));
            cols.push(String::from_str("denominator"));
            cols.push(String::from_str("text"));
            let mut vals: Vec<Value> = Vec::new();
            vals.push(float_value(f, span));
            vals.push(int_value(n, span));
            vals.push(int_value(d, span));
            vals.push(Value::String { val: text, span });
            assert(str_views(cols@) =~= seq!["value"@, "numerator"@, "denominator"@, "text"@]);
            assert(text@ == rational_text(be_signed(decimal.data@), decimal.scale as nat));
            Value::Record { cols, vals, span }
        } else {
            float_or_conversion_error(f, span)
        }
    } else {
        let f = decimal_to_f64_bits(&decimal.data, decimal.scale);
        if opts.extended_decimal {
            let text = decimal_to_text(&decimal.data, decimal.scale);
            let mut cols: Vec<String> = Vec::new();
            cols.push(String::from_str("value"));
            cols.push(String::from_str("text"));
            let mut vals: Vec<Value> = Vec::new();
            vals.push(float_value(f, span));
            vals.push(Value::String { val: text, span });
            assert(str_views(cols@) =~= seq!["value"@, "text"@]);
            Value::Record { cols, vals, span }
        } else {
            float_or_conversion_error(f, span)
        }
    }
}

} // verus!
