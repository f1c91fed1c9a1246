use from_parquet::convert::{convert_parquet_row, convert_rows, convert_to_nu};
use from_parquet::decimal::{float_or_conversion_error, float_value, parquet_decimal_to_value};
use from_parquet::value::{Decimal, Field, FromParquet, FromParquetOpts, Row, Span, Value};

fn span() -> Span {
    Span { start: 3, end: 9 }
}

fn default_opts() -> FromParquetOpts {
    FromParquetOpts { extended_decimal: false, rational: false }
}

fn opts(extended_decimal: bool, rational: bool) -> FromParquetOpts {
    FromParquetOpts { extended_decimal, rational }
}

fn dec(unscaled: i64, scale: u32) -> Decimal {
    let bytes = unscaled.to_be_bytes();
    Decimal { data: bytes.to_vec(), scale }
}

fn as_int(v: &Value) -> i64 {
    match v {
        Value::Int { val, span: s } => {
            assert_eq!(*s, span());
            *val
        }
        other => panic!("expected an integer, got {:?}", other),
    }
}

fn as_float(v: &Value) -> f64 {
    match v {
        Value::Float { bits, span: s } => {
            assert_eq!(*s, span());
            f64::from_bits(*bits)
        }
        other => panic!("expected a float, got {:?}", other),
    }
}

fn as_str(v: &Value) -> String {
    match v {
        Value::String { val, span: s } => {
            assert_eq!(*s, span());
            val.clone()
        }
        other => panic!("expected a string, got {:?}", other),
    }
}

fn record(v: &Value) -> (&Vec<String>, &Vec<Value>) {
    match v {
        Value::Record { cols, vals, span: s } => {
            assert_eq!(*s, span());
            (cols, vals)
        }
        other => panic!("expected a record, got {:?}", other),
    }
}

fn list(v: &Value) -> &Vec<Value> {
    match v {
        Value::List { vals, span: s } => {
            assert_eq!(*s, span());
            vals
        }
        other => panic!("expected a list, got {:?}", other),
    }
}

#[test]
fn row_with_int_and_null() {
    let row = Row {
        fields: vec![("a".to_string(), Field::Int(5)), ("b".to_string(), Field::Null)],
    };
    let v = convert_parquet_row(&row, span(), &default_opts());
    let (cols, vals) = record(&v);
    assert_eq!(cols, &vec!["a".to_string(), "b".to_string()]);
    assert_eq!(as_int(&vals[0]), 5);
    assert!(matches!(vals[1], Value::Nothing { span: s } if s == span()));
}

#[test]
fn decimal_default_is_float() {
    let v = parquet_decimal_to_value(&dec(100, 2), span(), &default_opts());
    assert_eq!(as_float(&v), 1.0);
}

#[test]
fn decimal_extended_scaled() {
    let v = parquet_decimal_to_value(&dec(100, 2), span(), &opts(true, false));
    let (cols, vals) = record(&v);
    assert_eq!(cols, &vec!["value".to_string(), "text".to_string()]);
    assert_eq!(as_float(&vals[0]), 1.0);
    assert_eq!(as_str(&vals[1]), "1.00");
}

#[test]
fn decimal_extended_rational() {
    let v = parquet_decimal_to_value(&dec(100, 2), span(), &opts(true, true));
    let (cols, vals) = record(&v);
    assert_eq!(
        cols,
        &vec![
            "value".to_string(),
            "numerator".to_string(),
            "denominator".to_string(),
            "text".to_string()
        ]
    );
    assert_eq!(as_float(&vals[0]), 1.0);
    assert_eq!(as_int(&vals[1]), 1);
    assert_eq!(as_int(&vals[2]), 1);
    assert_eq!(as_str(&vals[3]), "1/1");
}

#[test]
fn decimal_texts_agree_in_value() {
    let scaled = parquet_decimal_to_value(&dec(12345, 2), span(), &opts(true, false));
    assert_eq!(as_str(&record(&scaled).1[1]), "123.45");
    let rational = parquet_decimal_to_value(&dec(12345, 2), span(), &opts(true, true));
    let vals = record(&rational).1;
    assert_eq!(as_str(&vals[3]), "2469/20");
    assert_eq!(as_int(&vals[1]), 2469);
    assert_eq!(as_int(&vals[2]), 20);
}

#[test]
fn decimal_negative_and_small() {
    let v = parquet_decimal_to_value(&dec(-5, 3), span(), &opts(true, false));
    assert_eq!(as_str(&record(&v).1[1]), "-0.005");
    let v = parquet_decimal_to_value(&dec(-5, 3), span(), &opts(true, true));
    let vals = record(&v).1;
    assert_eq!(as_str(&vals[3]), "-1/200");
    assert_eq!(as_int(&vals[1]), -1);
    assert_eq!(as_int(&vals[2]), 200);
    let v = parquet_decimal_to_value(&dec(-5, 3), span(), &opts(false, true));
    assert_eq!(as_float(&v), -0.005);
}

#[test]
fn decimal_zero_scale_and_zero_value() {
    let v = parquet_decimal_to_value(&dec(42, 0), span(), &opts(true, false));
    assert_eq!(as_str(&record(&v).1[1]), "42");
    let v = parquet_decimal_to_value(&dec(0, 2), span(), &opts(true, true));
    let vals = record(&v).1;
    assert_eq!(as_str(&vals[3]), "0/1");
    assert_eq!(as_int(&vals[1]), 0);
    assert_eq!(as_int(&vals[2]), 1);
}

#[test]
fn decimal_denominator_too_wide_is_nothing() {
    let v = parquet_decimal_to_value(&dec(1, 30), span(), &opts(true, true));
    let vals = record(&v).1;
    assert_eq!(as_int(&vals[1]), 1);
    assert!(matches!(vals[2], Value::Nothing { .. }));
    let mut expected = "1/1".to_string();
    expected.push_str(&"0".repeat(30));
    assert_eq!(as_str(&vals[3]), expected);
}

#[test]
fn decimal_float_is_repeatable() {
    let a = parquet_decimal_to_value(&dec(987654321, 4), span(), &default_opts());
    let b = parquet_decimal_to_value(&dec(987654321, 4), span(), &default_opts());
    assert_eq!(as_float(&a).to_bits(), as_float(&b).to_bits());
    assert_eq!(as_float(&a), 98765.4321);
}

#[test]
fn list_of_ints() {
    let f = Field::ListInternal(vec![Field::Int(1), Field::Int(2)]);
    let v = convert_to_nu(&f, span(), &default_opts());
    let vals = list(&v);
    assert_eq!(vals.len(), 2);
    assert_eq!(as_int(&vals[0]), 1);
    assert_eq!(as_int(&vals[1]), 2);
}

#[test]
fn map_becomes_list_of_pairs() {
    let f = Field::MapInternal(vec![(Field::Str("k".to_string()), Field::Int(1))]);
    let v = convert_to_nu(&f, span(), &default_opts());
    let vals = list(&v);
    assert_eq!(vals.len(), 1);
    let pair = list(&vals[0]);
    assert_eq!(pair.len(), 2);
    assert_eq!(as_str(&pair[0]), "k");
    assert_eq!(as_int(&pair[1]), 1);
}

#[test]
fn signed_integer_kinds_are_exact() {
    let cases = vec![
        (Field::Short(i16::MIN), i16::MIN as i64),
        (Field::UShort(u16::MAX), u16::MAX as i64),
        (Field::Int(i32::MIN), i32::MIN as i64),
        (Field::UInt(u32::MAX), u32::MAX as i64),
        (Field::Long(i64::MIN), i64::MIN),
        (Field::Long(i64::MAX), i64::MAX),
    ];
    for (f, expected) in cases {
        assert_eq!(as_int(&convert_to_nu(&f, span(), &default_opts())), expected);
    }
}

#[test]
fn ulong_narrowing() {
    let v = convert_to_nu(&Field::ULong(i64::MAX as u64), span(), &default_opts());
    assert_eq!(as_int(&v), i64::MAX);
    let v = convert_to_nu(&Field::ULong(i64::MAX as u64 + 1), span(), &default_opts());
    match v {
        Value::Error { from_type, to_type, help, span: s } => {
            assert_eq!(from_type, "u64");
            assert_eq!(to_type, "i64");
            assert_eq!(help, "out of range integral type conversion attempted");
            assert_eq!(s, span());
        }
        other => panic!("expected an error, got {:?}", other),
    }
}

#[test]
fn bytes_and_strings_are_copied() {
    let v = convert_to_nu(&Field::Byte(-1), span(), &default_opts());
    assert!(matches!(v, Value::Binary { ref val, .. } if val == &vec![255u8]));
    let v = convert_to_nu(&Field::UByte(7), span(), &default_opts());
    assert!(matches!(v, Value::Binary { ref val, .. } if val == &vec![7u8]));
    let v = convert_to_nu(&Field::Bytes(vec![1, 2, 3]), span(), &default_opts());
    assert!(matches!(v, Value::Binary { ref val, .. } if val == &vec![1u8, 2, 3]));
    let v = convert_to_nu(&Field::Bool(true), span(), &default_opts());
    assert!(matches!(v, Value::Bool { val: true, .. }));
}

#[test]
fn floats_keep_their_bits() {
    let v = convert_to_nu(&Field::Double(2.5f64.to_bits()), span(), &default_opts());
    assert_eq!(as_float(&v), 2.5);
    let v = convert_to_nu(&Field::Float((1.5f32 as f64).to_bits()), span(), &default_opts());
    assert_eq!(as_float(&v), 1.5);
}

#[test]
fn dates_count_from_the_epoch() {
    let micros = |f: Field| match convert_to_nu(&f, span(), &default_opts()) {
        Value::Date { micros, .. } => micros,
        other => panic!("expected a date, got {:?}", other),
    };
    assert_eq!(micros(Field::Date(1)), 86_400_000_000);
    assert_eq!(micros(Field::Date(-2)), -172_800_000_000);
    assert_eq!(micros(Field::Date(i32::MAX)), i32::MAX as i128 * 86_400_000_000);
    assert_eq!(micros(Field::TimestampMillis(1500)), 1_500_000);
    assert_eq!(micros(Field::TimestampMicros(-7)), -7);
}

#[test]
fn nested_groups_keep_cardinality() {
    let inner = Row {
        fields: vec![
            ("x".to_string(), Field::Str("s".to_string())),
            ("x".to_string(), Field::ListInternal(vec![])),
            ("z".to_string(), Field::Decimal(dec(100, 2))),
        ],
    };
    let outer = Row { fields: vec![("g".to_string(), Field::Group(inner))] };
    let v = convert_parquet_row(&outer, span(), &default_opts());
    let (cols, vals) = record(&v);
    assert_eq!(cols.len(), 1);
    let (inner_cols, inner_vals) = record(&vals[0]);
    assert_eq!(inner_cols, &vec!["x".to_string(), "x".to_string(), "z".to_string()]);
    assert_eq!(inner_vals.len(), 3);
    assert_eq!(as_str(&inner_vals[0]), "s");
    assert_eq!(list(&inner_vals[1]).len(), 0);
    assert_eq!(as_float(&inner_vals[2]), 1.0);
}

#[test]
fn rows_become_a_list_of_records() {
    let rows = vec![
        Row { fields: vec![("a".to_string(), Field::Long(1))] },
        Row { fields: vec![("a".to_string(), Field::ULong(u64::MAX))] },
        Row { fields: vec![] },
    ];
    let v = convert_rows(&rows, span(), &default_opts());
    let vals = list(&v);
    assert_eq!(vals.len(), 3);
    assert_eq!(as_int(&record(&vals[0]).1[0]), 1);
    assert!(matches!(record(&vals[1]).1[0], Value::Error { .. }));
    assert_eq!(record(&vals[2]).0.len(), 0);
    let empty = convert_rows(&vec![], span(), &default_opts());
    assert_eq!(list(&empty).len(), 0);
}

#[test]
fn command_is_constructible() {
    let _ = FromParquet::new();
}

fn huge_decimal() -> Decimal {
    let mut data = vec![0x7fu8];
    data.extend(std::iter::repeat(0xffu8).take(199));
    Decimal { data, scale: 0 }
}

fn assert_decimal_error(v: &Value) {
    match v {
        Value::Error { from_type, to_type, help, span: s } => {
            assert_eq!(from_type, "decimal");
            assert_eq!(to_type, "float");
            assert_eq!(help, "cannot convert decimal to float.");
            assert_eq!(*s, span());
        }
        other => panic!("expected the decimal error, got {:?}", other),
    }
}

#[test]
fn float_slot_keeps_only_finite_values() {
    assert_eq!(as_float(&float_value(Some(2.0f64.to_bits()), span())), 2.0);
    for f in [None, Some(f64::INFINITY.to_bits()), Some(f64::NEG_INFINITY.to_bits()), Some(f64::NAN.to_bits())] {
        assert!(matches!(float_value(f, span()), Value::Nothing { span: s } if s == span()));
    }
}

#[test]
fn lone_float_or_decimal_error() {
    assert_eq!(as_float(&float_or_conversion_error(Some((-0.5f64).to_bits()), span())), -0.5);
    for f in [None, Some(f64::INFINITY.to_bits()), Some(f64::NAN.to_bits())] {
        assert_decimal_error(&float_or_conversion_error(f, span()));
    }
}

#[test]
fn huge_decimal_has_no_float() {
    assert_decimal_error(&parquet_decimal_to_value(&huge_decimal(), span(), &opts(false, false)));
    assert_decimal_error(&parquet_decimal_to_value(&huge_decimal(), span(), &opts(false, true)));
    let v = parquet_decimal_to_value(&huge_decimal(), span(), &opts(true, false));
    let vals = record(&v).1;
    assert!(matches!(vals[0], Value::Nothing { .. }));
    assert!(as_str(&vals[1]).len() > 400);
    let v = parquet_decimal_to_value(&huge_decimal(), span(), &opts(true, true));
    let vals = record(&v).1;
    assert!(matches!(vals[0], Value::Nothing { .. }));
    assert!(matches!(vals[1], Value::Nothing { .. }));
    assert_eq!(as_int(&vals[2]), 1);
}
