//! The typed fields that a row decoder yields, and the generic values they become.
use vstd::prelude::*;

verus! {

/// A position tag carried by every value; it plays no part in conversion.
#[derive(Clone, Copy, Debug, PartialEq, Eq, Structural)]
pub struct Span {
    pub start: usize,
    pub end: usize,
}

/// How decimal fields are rendered.
#[derive(Clone, Copy, Debug, PartialEq, Eq, Structural)]
pub struct FromParquetOpts {
    /// Render a decimal as a record that keeps its exact text beside a float
    /// approximation, instead of a lone float.
    pub extended_decimal: bool,
    /// Normalise a decimal as an exact rational instead of a scaled decimal.
    pub rational: bool,
}

/// A decimal as stored in the file: a big-endian two's-complement unscaled
/// integer and a scale; its value is `unscaled * 10^-scale`.
#[derive(Clone, Debug)]
pub struct Decimal {
    pub data: Vec<u8>,
    pub scale: u32,
}

/// A decoded row or group: its columns in order, each with its name.
#[derive(Debug)]
pub struct Row {
    pub fields: Vec<(String, Field)>,
}

/// One decoded field. Floating-point fields are held as the bit pattern of
/// their double-precision value (a single-precision value widened exactly).
#[derive(Debug)]
pub enum Field {
    Null,
    Bool(bool),
    Byte(i8),
    UByte(u8),
    Short(i16),
    UShort(u16),
    Int(i32),
    UInt(u32),
    Long(i64),
    ULong(u64),
    Float(u64),
    Double(u64),
    Str(String),
    Bytes(Vec<u8>),
    /// Days since 1970-01-01.
    Date(i32),
    /// Milliseconds since 1970-01-01T00:00:00Z.
    TimestampMillis(i64),
    /// Microseconds since 1970-01-01T00:00:00Z.
    TimestampMicros(i64),
    Decimal(Decimal),
    Group(Row),
    ListInternal(Vec<Field>),
    MapInternal(Vec<(Field, Field)>),
}

/// A generic value. Floats are held as the bit pattern of an IEEE-754
/// double; a date as the microseconds since 1970-01-01T00:00:00Z, UTC.
#[derive(Debug)]
pub enum Value {
    Nothing { span: Span },
    Bool { val: bool, span: Span },
    Int { val: i64, span: Span },
    Float { bits: u64, span: Span },
    String { val: String, span: Span },
    Binary { val: Vec<u8>, span: Span },
    Date { micros: i128, span: Span },
    Record { cols: Vec<String>, vals: Vec<Value>, span: Span },
    List { vals: Vec<Value>, span: Span },
    /// A value that could not be converted: its source type, the type it was
    /// meant to become, and a diagnostic message.
    Error { from_type: String, to_type: String, help: String, span: Span },
}

/// The conversion command itself; it holds no state.
pub struct FromParquet {}

impl FromParquet {
    pub fn new() -> (r: Self)
        ensures
            r == (FromParquet {  }),
    {
        FromParquet {  }
    }
}

/// The views of a list of strings.
pub open spec fn str_views(v: Seq<String>) -> Seq<Seq<char>> {
    v.map_values(|s: String| s@)
}

} // verus!
