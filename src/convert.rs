//! The conversion of typed fields, rows and whole documents into values.
use crate::decimal::{decimal_value, is_string, parquet_decimal_to_value};
use crate::value::{Field, FromParquetOpts, Row, Span, Value};
use vstd::prelude::*;
use vstd::string::StringExecFns;

verus! {

broadcast use vstd::std_specs::vec::group_vec_axioms;

pub const MICROS_PER_DAY: i128 = 86_400_000_000;

pub const MICROS_PER_MILLI: i128 = 1000;

/// The error that an unsigned 64-bit integer above `i64::MAX` gives.
pub open spec fn ulong_error(span: Span, v: Value) -> bool {
    v matches Value::Error { from_type, to_type, help, span: sp } && from_type@ == "u64"@
        && to_type@ == "i64"@ && help@ == "out of range integral type conversion attempted"@ && sp
        == span
}

/// `v` is what field `f` becomes: every value carries `span`, and nested
/// groups, lists and maps are converted element by element, in order.
pub open spec fn converts(f: Field, span: Span, opts: FromParquetOpts, v: Value) -> bool
    decreases f,
{
    match f {
        Field::Null => v == Value::Nothing { span },
        Field::Bool(b) => v == Value::Bool { val: b, span },
        Field::Byte(b) => v matches Value::Binary { val, span: sp } && sp == span && val@ == seq![
            #[verifier::truncate] (b as u8),
        ],
        Field::UByte(b) => v matches Value::Binary { val, span: sp } && sp == span && val@ == seq![
            b,
        ],
        Field::Short(x) => v == Value::Int { val: x as i64, span },
        Field::UShort(x) => v == Value::Int { val: x as i64, span },
        Field::Int(x) => v == Value::Int { val: x as i64, span },
        Field::UInt(x) => v == Value::Int { val: x as i64, span },
        Field::Long(x) => v == Value::Int { val: x, span },
        Field::ULong(x) => if x <= i64::MAX {
            v == Value::Int { val: x as i64, span }
        } else {
            ulong_error(span, v)
        },
        Field::Float(b) => v == Value::Float { bits: b, span },
        Field::Double(b) => v == Value::Float { bits: b, span },
        Field::Str(s) => is_string(v, s@, span),
        Field::Bytes(b) => v matches Value::Binary { val, span: sp } && sp == span && val@ == b@,
        Field::Date(d) => v == Value::Date { micros: (d * MICROS_PER_DAY) as i128, span },
        Field::TimestampMillis(m) => v == Value::Date {
            micros: (m * MICROS_PER_MILLI) as i128,
            span,
        },
        Field::TimestampMicros(m) => v == Value::Date { micros: m as i128, span },
        Field::Decimal(d) => decimal_value(d, span, opts, v),
        Field::Group(row) => v matches Value::Record { cols, vals, span: sp } && sp == span
            && cols.len() == row.fields.len() && vals.len() == row.fields.len() && forall|i: int|
            0 <= i < row.fields.len() ==> cols@[i]@ == row.fields@[i].0@ && converts(
                row.fields@[i].1,
                span,
                opts,
                vals@[i],
            ),
        Field::ListInternal(elems) => v matches Value::List { vals, span: sp } && sp == span
            && vals.len() == elems.len() && forall|i: int|
            0 <= i < elems.len() ==> converts(elems@[i], span, opts, vals@[i]),
        Field::MapInternal(entries) => v matches Value::List { vals, span: sp } && sp == span
            && vals.len() == entries.len() && forall|i: int|
            #![trigger vals@[i]]
            0 <= i < entries.len() ==> (vals@[i] matches Value::List { vals: pair, span: ps } && ps
                == span && pair.len() == 2 && converts(entries@[i].0, span, opts, pair@[0])
                && converts(entries@[i].1, span, opts, pair@[1])),
    }
}

/// `v` is what row `row` becomes: a record of its columns, in order.
pub open spec fn row_converts(row: Row, span: Span, opts: FromParquetOpts, v: Value) -> bool {
    converts(Field::Group(row), span, opts, v)
}

/// Converts one field, recursing into groups, lists and maps.
#[verifier::loop_isolation(false)]
pub fn convert_to_nu(field: &Field, span: Span, opts: &FromParquetOpts) -> (r: Value)
    ensures
        converts(*field, span, *opts, r),
    decreases field,
{
    match field {
        Field::Null => Value::Nothing { span },
        Field::Bool(b) => Value::Bool { val: *b, span },
        Field::Byte(b) => {
            let mut val: Vec<u8> = Vec::new();
            val.push(#[verifier::truncate] (*b as u8));
            assert(val@ =~= seq![#[verifier::truncate] (*b as u8)]);
            Value::Binary { val, span }
        },
        Field::UByte(b) => {
            let mut val: Vec<u8> = Vec::new();
            val.push(*b);
            assert(val@ =~= seq![*b]);
            Value::Binary { val, span }
        },
        Field::Short(x) => Value::Int { val: *x as i64, span },
        Field::UShort(x) => Value::Int { val: *x as i64, span },
        Field::Int(x) => Value::Int { val: *x as i64, span },
        Field::UInt(x) => Value::Int { val: *x as i64, span },
        Field::Long(x) => Value::Int { val: *x, span },
        Field::ULong(x) => {
            if *x <= i64::MAX as u64 {
                Value::Int { val: *x as i64, span }
            } else {
                Value::Error {
                    from_type: String::from_str("u64"),
                    to_type: String::from_str("i64"),
                    help: String::from_str("out of range integral type conversion attempted"),
                    span,
                }
            }
        },
        Field::Float(b) => Value::Float { bits: *b, span },
        Field::Double(b) => Value::Float { bits: *b, span },
        Field::Str(s) => Value::String { val: s.clone(), span },
        Field::Bytes(b) => Value::Binary { val: b.clone(), span },
        Field::Date(d) => Value::Date { micros: (*d as i128) * MICROS_PER_DAY, span },
        Field::TimestampMillis(m) => Value::Date { micros: (*m as i128) * MICROS_PER_MILLI, span },
        Field::TimestampMicros(m) => Value::Date { micros: *m as i128, span },
        Field::Decimal(d) => parquet_decimal_to_value(d, span, opts),
        Field::Group(row) => convert_parquet_row(row, span, opts),
        Field::ListInternal(elems) => {
            let mut vals: Vec<Value> = Vec::new();
            let mut i: usize = 0;
            while i < elems.len()
                invariant
                    0 <= i <= elems.len(),
                    vals.len() == i,
                    forall|j: int| 0 <= j < i ==> converts(elems@[j], span, *opts, #[trigger] vals@[j]),
                decreases elems.len() - i,
            {
                proof {
                    vstd::std_specs::vec::axiom_vec_index_decreases(*elems, i as int);
                }
                let v = convert_to_nu(&elems[i], span, opts);
                vals.push(v);
                i = i + 1;
            }
            Value::List { vals, span }
        },
        Field::MapInternal(entries) => {
            let mut vals: Vec<Value> = Vec::new();
            let mut i: usize = 0;
            while i < entries.len()
                invariant
                    0 <= i <= entries.len(),
                    vals.len() == i,
                    forall|j: int|
                        #![trigger vals@[j]]
                        0 <= j < i ==> (vals@[j] matches Value::List { vals: pair, span: ps } && ps
                            == span && pair.len() == 2 && converts(entries@[j].0, span, *opts, pair@[0])
                            && converts(entries@[j].1, span, *opts, pair@[1])),
                decreases entries.len() - i,
            {
                proof {
                    vstd::std_specs::vec::axiom_vec_index_decreases(*entries, i as int);
                }
                let k = convert_to_nu(&entries[i].0, span, opts);
                let v = convert_to_nu(&entries[i].1, span, opts);
                let mut pair: Vec<Value> = Vec::new();
                pair.push(k);
                pair.push(v);
                vals.push(Value::List { vals: pair, span });
                i = i + 1;
            }
            Value::List { vals, span }
        },
    }
}

/// Converts a row or group into a record of its columns, in order.
#[verifier::loop_isolation(false)]
pub fn convert_parquet_row(row: &Row, span: Span, opts: &FromParquetOpts) -> (r: Value)
    ensures
        row_converts(*row, span, *opts, r),
    decreases row,
{
    let mut cols: Vec<String> = Vec::new();
    let mut vals: Vec<Value> = Vec::new();
    let mut i: usize = 0;
    while i < row.fields.len()
        invariant
            0 <= i <= row.fields.len(),
            cols.len() == i,
            vals.len() == i,
            forall|j: int| 0 <= j < i ==> (#[trigger] cols@[j])@ == row.fields@[j].0@,
            forall|j: int| 0 <= j < i ==> converts(row.fields@[j].1, span, *opts, #[trigger] vals@[j]),
        decreases row.fields.len() - i,
    {
        proof {
            vstd::std_specs::vec::axiom_vec_index_decreases(row.fields, i as int);
        }
        cols.push(row.fields[i].0.clone());
        vals.push(convert_to_nu(&row.fields[i].1, span, opts));
        i = i + 1;
    }
    Value::Record { cols, vals, span }
}

/// Converts every row of a document, in order, into one list of records.
pub fn convert_rows(rows: &Vec<Row>, span: Span, opts: &FromParquetOpts) -> (r: Value)
    ensures
        r matches Value::List { vals, span: sp } && sp == span && vals.len() == rows.len() && forall|
            i: int,
        | 0 <= i < rows.len() ==> row_converts(rows@[i], span, *opts, #[trigger] vals@[i]),
{
    let mut vals: Vec<Value> = Vec::new();
    let mut i: usize = 0;
    while i < rows.len()
        invariant
            0 <= i <= rows.len(),
            vals.len() == i,
            forall|j: int| 0 <= j < i ==> row_converts(rows@[j], span, *opts, #[trigger] vals@[j]),
        decreases rows.len() - i,
    {
        vals.push(convert_parquet_row(&rows[i], span, opts));
        i = i + 1;
    }
    Value::List { vals, span }
}

} // verus!
