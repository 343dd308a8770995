//! Schemas: the logical types as plain values, fields and their order.

use vstd::prelude::*;
use crate::text::{
    debug_string, debug_text, decimal_string, decimal_text, lowercase_string, lowercase_text,
};
use crate::util::KeyValueMetadata;
pub use crate::dtypes::{DateUnit, IntervalUnit, Precision, TimeUnit};

verus! {

/// A logical type as a value that a schema can hold.
#[derive(Debug, Eq, PartialEq, Hash)]
pub enum DataType {
    NA,
    Bool,
    Int8,
    Int16,
    Int32,
    Int64,
    UInt8,
    UInt16,
    UInt32,
    UInt64,
    HalfFloat,
    Float,
    Double,
    String,
    Binary,
    /// Binary values of one width, given in bytes.
    FixedSizedBinary(i32),
    Time32(TimeUnit),
    Time64(TimeUnit),
    Date32(TimeUnit),
    Date64(TimeUnit),
    Timestamp { unit: TimeUnit, timezone: String },
    Interval(IntervalUnit),
    Decimal { precision: i32, scale: i32 },
    List(Box<DataType>),
    Struct,
    Union,
    Dictionary,
    /// Maps from keys to values. Its name is `map`.
    MapType,
}

impl Clone for DataType {
    fn clone(&self) -> (copy: DataType)
        ensures
            copy == *self,
        decreases self,
    {
        match self {
            DataType::NA => DataType::NA,
            DataType::Bool => DataType::Bool,
            DataType::Int8 => DataType::Int8,
            DataType::Int16 => DataType::Int16,
            DataType::Int32 => DataType::Int32,
            DataType::Int64 => DataType::Int64,
            DataType::UInt8 => DataType::UInt8,
            DataType::UInt16 => DataType::UInt16,
            DataType::UInt32 => DataType::UInt32,
            DataType::UInt64 => DataType::UInt64,
            DataType::HalfFloat => DataType::HalfFloat,
            DataType::Float => DataType::Float,
            DataType::Double => DataType::Double,
            DataType::String => DataType::String,
            DataType::Binary => DataType::Binary,
            DataType::FixedSizedBinary(bytes) => DataType::FixedSizedBinary(*bytes),
            DataType::Time32(unit) => DataType::Time32(*unit),
            DataType::Time64(unit) => DataType::Time64(*unit),
            DataType::Date32(unit) => DataType::Date32(*unit),
            DataType::Date64(unit) => DataType::Date64(*unit),
            DataType::Timestamp { unit, timezone } => DataType::Timestamp {
                unit: *unit,
                timezone: timezone.clone(),
            },
            DataType::Interval(unit) => DataType::Interval(*unit),
            DataType::Decimal { precision, scale } => DataType::Decimal {
                precision: *precision,
                scale: *scale,
            },
            DataType::List(item) => {
                let inner: &DataType = item;
                DataType::List(Box::new(inner.clone()))
            },
            DataType::Struct => DataType::Struct,
            DataType::Union => DataType::Union,
            DataType::Dictionary => DataType::Dictionary,
            DataType::MapType => DataType::MapType,
        }
    }
}

/// The name of a unit of time.
pub open spec fn unit_text(unit: TimeUnit) -> Seq<char> {
    match unit {
        TimeUnit::Second => "second"@,
        TimeUnit::Milli => "milli"@,
        TimeUnit::Micro => "micro"@,
        TimeUnit::Nano => "nano"@,
    }
}

/// The name of a unit of intervals.
pub open spec fn interval_text(unit: IntervalUnit) -> Seq<char> {
    match unit {
        IntervalUnit::YearMonth => "yearmonth"@,
        IntervalUnit::DayTime => "daytime"@,
    }
}

/// The name of a timestamp type; `timezone` is the time zone as the name
/// shows it.
pub open spec fn timestamp_text(unit: TimeUnit, timezone: Seq<char>) -> Seq<char> {
    "timestamp { unit: "@ + unit_text(unit) + ", timezone: "@ + timezone + " }"@
}

fn unit_name(unit: TimeUnit) -> (s: &'static str)
    ensures
        s@ == unit_text(unit),
{
    match unit {
        TimeUnit::Second => "second",
        TimeUnit::Milli => "milli",
        TimeUnit::Micro => "micro",
        TimeUnit::Nano => "nano",
    }
}

fn interval_name(unit: IntervalUnit) -> (s: &'static str)
    ensures
        s@ == interval_text(unit),
{
    match unit {
        IntervalUnit::YearMonth => "yearmonth",
        IntervalUnit::DayTime => "daytime",
    }
}

/// `inner` between `open` and `close`.
fn enclosed(open: &str, inner: &str, close: &str) -> (s: String)
    ensures
        s@ == open@ + inner@ + close@,
{
    let mut s = open.to_owned();
    s.append(inner);
    s.append(close);
    s
}

/// The name of a timestamp type; `timezone` is the time zone as the name
/// shows it: in double quotes and in lower case.
pub fn timestamp_name(unit: TimeUnit, timezone: &str) -> (s: String)
    ensures
        s@ == timestamp_text(unit, timezone@),
{
    let mut s = "timestamp { unit: ".to_owned();
    s.append(unit_name(unit));
    s.append(", timezone: ");
    s.append(timezone);
    s.append(" }");
    s
}

impl DataType {
    /// The width of one value in bits, for a type of fixed width whose
    /// width an `i32` holds.
    pub open spec fn spec_bit_width(&self) -> Option<int> {
        match self {
            DataType::Bool => Some(1),
            DataType::Int8 | DataType::UInt8 => Some(8),
            DataType::Int16 | DataType::UInt16 | DataType::HalfFloat => Some(16),
            DataType::Int32 | DataType::UInt32 | DataType::Float => Some(32),
            DataType::Int64 | DataType::UInt64 | DataType::Double => Some(64),
            DataType::Time32(_) | DataType::Date32(_) => Some(32),
            DataType::Time64(_) | DataType::Date64(_) | DataType::Interval(_) => Some(64),
            DataType::FixedSizedBinary(bytes) => if i32::MIN <= bytes * 8 <= i32::MAX {
                Some(bytes * 8)
            } else {
                None
            },
            _ => None,
        }
    }

    /// The name of the type, in lower case. A type of lists is named
    /// `list`, whatever its items are; a type that holds a width, a unit or
    /// a time zone shows it after its name.
    pub open spec fn name_text(&self) -> Seq<char> {
        match self {
            DataType::NA => "na"@,
            DataType::Bool => "bool"@,
            DataType::Int8 => "int8"@,
            DataType::Int16 => "int16"@,
            DataType::Int32 => "int32"@,
            DataType::Int64 => "int64"@,
            DataType::UInt8 => "uint8"@,
            DataType::UInt16 => "uint16"@,
            DataType::UInt32 => "uint32"@,
            DataType::UInt64 => "uint64"@,
            DataType::HalfFloat => "halffloat"@,
            DataType::Float => "float"@,
            DataType::Double => "double"@,
            DataType::String => "string"@,
            DataType::Binary => "binary"@,
            DataType::FixedSizedBinary(bytes) => "fixedsizedbinary("@ + decimal_text(*bytes as int)
                + ")"@,
            DataType::Time32(unit) => "time32("@ + unit_text(*unit) + ")"@,
            DataType::Time64(unit) => "time64("@ + unit_text(*unit) + ")"@,
            DataType::Date32(unit) => "date32("@ + unit_text(*unit) + ")"@,
            DataType::Date64(unit) => "date64("@ + unit_text(*unit) + ")"@,
            DataType::Timestamp { unit, timezone } => timestamp_text(
                *unit,
                lowercase_text(debug_text(timezone@)),
            ),
            DataType::Interval(unit) => "interval("@ + interval_text(*unit) + ")"@,
            DataType::Decimal { precision, scale } => "decimal { precision: "@ + decimal_text(
                *precision as int,
            ) + ", scale: "@ + decimal_text(*scale as int) + " }"@,
            DataType::List(_) => "list"@,
            DataType::Struct => "struct"@,
            DataType::Union => "union"@,
            DataType::Dictionary => "dictionary"@,
            DataType::MapType => "map"@,
        }
    }

    /// What a schema shows for the type: its name, but for a list, which
    /// shows the name of its items.
    pub open spec fn display_text(&self) -> Seq<char> {
        match self {
            DataType::List(item) => "list<item: "@ + item.name_text() + ">"@,
            _ => self.name_text(),
        }
    }

    /// The width of one value in bits. The type has a fixed width, and an
    /// `i32` holds it.
    pub fn bit_width(&self) -> (w: i32)
        requires
            self.spec_bit_width() is Some,
        ensures
            self.spec_bit_width() == Some(w as int),
    {
        match self {
            DataType::Bool => 1,
            DataType::Int8 | DataType::UInt8 => 8,
            DataType::Int16 | DataType::UInt16 | DataType::HalfFloat => 16,
            DataType::Int32 | DataType::UInt32 | DataType::Float => 32,
            DataType::Int64 | DataType::UInt64 | DataType::Double => 64,
            DataType::Time32(_) | DataType::Date32(_) => 32,
            DataType::Time64(_) | DataType::Date64(_) | DataType::Interval(_) => 64,
            DataType::FixedSizedBinary(bytes) => *bytes * 8,
            _ => 0,
        }
    }

    /// The name of the type, in lower case. A type of lists is named
    /// `list`, whatever its items are; a type that holds a width, a unit or
    /// a time zone shows it after its name.
    pub fn name(&self) -> (s: String)
        ensures
            s@ == self.name_text(),
    {
        match self {
            DataType::NA => "na".to_owned(),
            DataType::Bool => "bool".to_owned(),
            DataType::Int8 => "int8".to_owned(),
            DataType::Int16 => "int16".to_owned(),
            DataType::Int32 => "int32".to_owned(),
            DataType::Int64 => "int64".to_owned(),
            DataType::UInt8 => "uint8".to_owned(),
            DataType::UInt16 => "uint16".to_owned(),
            DataType::UInt32 => "uint32".to_owned(),
            DataType::UInt64 => "uint64".to_owned(),
            DataType::HalfFloat => "halffloat".to_owned(),
            DataType::Float => "float".to_owned(),
            DataType::Double => "double".to_owned(),
            DataType::String => "string".to_owned(),
            DataType::Binary => "binary".to_owned(),
            DataType::FixedSizedBinary(bytes) => enclosed(
                "fixedsizedbinary(",
                decimal_string(*bytes).as_str(),
                ")",
            ),
            DataType::Time32(unit) => enclosed("time32(", unit_name(*unit), ")"),
            DataType::Time64(unit) => enclosed("time64(", unit_name(*unit), ")"),
            DataType::Date32(unit) => enclosed("date32(", unit_name(*unit), ")"),
            DataType::Date64(unit) => enclosed("date64(", unit_name(*unit), ")"),
            DataType::Timestamp { unit, timezone } => {
                let quoted = debug_string(timezone.as_str());
                let lowered = lowercase_string(quoted.as_str());
                timestamp_name(*unit, lowered.as_str())
            },
            DataType::Interval(unit) => enclosed("interval(", interval_name(*unit), ")"),
            DataType::Decimal { precision, scale } => {
                let mut s = "decimal { precision: ".to_owned();
                s.append(decimal_string(*precision).as_str());
                s.append(", scale: ");
                s.append(decimal_string(*scale).as_str());
                s.append(" }");
                s
            },
            DataType::List(_) => "list".to_owned(),
            DataType::Struct => "struct".to_owned(),
            DataType::Union => "union".to_owned(),
            DataType::Dictionary => "dictionary".to_owned(),
            DataType::MapType => "map".to_owned(),
        }
    }

    /// What a schema shows for the type.
    pub fn to_string(&self) -> (s: String)
        ensures
            s@ == self.display_text(),
    {
        match self {
            DataType::List(item) => enclosed("list<item: ", item.name().as_str(), ">"),
            _ => self.name(),
        }
    }
}

/// A named column of a schema.
#[derive(Clone, Debug, Eq, PartialEq, Hash)]
pub struct Field {
    name: String,
    dtype: DataType,
    nullable: bool,
    metadata: Option<KeyValueMetadata>,
}

impl Field {
    /// The name of the field.
    pub closed spec fn spec_name(&self) -> Seq<char> {
        self.name@
    }

    /// The logical type of the field.
    pub closed spec fn spec_dtype(&self) -> DataType {
        self.dtype
    }

    /// Whether the field admits nulls.
    pub closed spec fn spec_nullable(&self) -> bool {
        self.nullable
    }

    /// The metadata, where there is some.
    pub closed spec fn spec_metadata(&self) -> Option<KeyValueMetadata> {
        self.metadata
    }

    /// What a schema shows for the field: its name, its type, and whether
    /// it refuses nulls.
    pub open spec fn text(&self) -> Seq<char> {
        self.spec_name() + ": "@ + self.spec_dtype().display_text() + if self.spec_nullable() {
            ""@
        } else {
            " not null"@
        }
    }

    /// A field without metadata.
    pub fn new(name: &str, dtype: DataType, nullable: bool) -> (f: Field)
        ensures
            f.spec_name() == name@,
            f.spec_dtype() == dtype,
            f.spec_nullable() == nullable,
            f.spec_metadata() is None,
    {
        Field { name: name.to_owned(), dtype: dtype, nullable: nullable, metadata: None }
    }

    /// A field with metadata.
    pub fn with_metadata(
        name: &str,
        dtype: DataType,
        nullable: bool,
        metadata: KeyValueMetadata,
    ) -> (f: Field)
        ensures
            f.spec_name() == name@,
            f.spec_dtype() == dtype,
            f.spec_nullable() == nullable,
            f.spec_metadata() == Some(metadata),
    {
        Field { name: name.to_owned(), dtype: dtype, nullable: nullable, metadata: Some(metadata) }
    }

    /// The name of the field.
    pub fn name(&self) -> (s: &str)
        ensures
            s@ == self.spec_name(),
    {
        self.name.as_str()
    }

    /// The logical type of the field.
    pub fn dtype(&self) -> (t: &DataType)
        ensures
            *t == self.spec_dtype(),
    {
        &self.dtype
    }

    /// Whether the field admits nulls.
    pub fn nullable(&self) -> (b: bool)
        ensures
            b == self.spec_nullable(),
    {
        self.nullable
    }

    /// The metadata of the field, where it has some.
    pub fn metadata(&self) -> (m: &Option<KeyValueMetadata>)
        ensures
            *m == self.spec_metadata(),
    {
        &self.metadata
    }

    /// What a schema shows for the field.
    pub fn to_string(&self) -> (s: String)
        ensures
            s@ == self.text(),
    {
        let mut s = self.name.clone();
        s.append(": ");
        s.append(self.dtype.to_string().as_str());
        if !self.nullable {
            s.append(" not null");
        }
        proof {
            reveal_strlit("");
            assert(s@ =~= self.text());
        }
        s
    }
}

/// The fields of a table, in their order.
#[derive(Clone, Debug, Eq, PartialEq, Hash)]
pub struct Schema {
    fields: Vec<Field>,
    metadata: Option<KeyValueMetadata>,
}

/// The texts of the first `count` fields, each on a line of its own.
pub open spec fn lines(fields: Seq<Field>, count: nat) -> Seq<char>
    decreases count,
{
    if count == 0 {
        Seq::empty()
    } else if count == 1 {
        fields[0].text()
    } else {
        lines(fields, (count - 1) as nat) + "\n "@ + fields[count - 1].text()
    }
}

/// Whether `index` is the first field of that name.
pub open spec fn first_named(fields: Seq<Field>, name: Seq<char>, index: int) -> bool {
    &&& 0 <= index < fields.len()
    &&& fields[index].spec_name() == name
    &&& forall|j: int| 0 <= j < index ==> fields[j].spec_name() != name
}

impl Schema {
    /// The fields, in their order.
    pub closed spec fn fields(&self) -> Seq<Field> {
        self.fields@
    }

    /// The metadata, where there is some.
    pub closed spec fn spec_metadata(&self) -> Option<KeyValueMetadata> {
        self.metadata
    }

    /// What shows for the schema: its fields, each on a line of its own,
    /// in round brackets.
    pub open spec fn text(&self) -> Seq<char> {
        "("@ + lines(self.fields(), self.fields().len()) + ")"@
    }

    /// A schema of the given fields, without metadata.
    pub fn new(fields: Vec<Field>) -> (s: Schema)
        ensures
            s.fields() == fields@,
            s.spec_metadata() is None,
    {
        Schema { fields: fields, metadata: None }
    }

    /// The number of fields.
    pub fn num_fields(&self) -> (n: usize)
        ensures
            n == self.fields().len(),
    {
        self.fields.len()
    }

    /// The field at `index`, or `None` past the last one.
    pub fn field(&self, index: usize) -> (f: Option<&Field>)
        ensures
            match f {
                Some(f) => index < self.fields().len() && *f == self.fields()[index as int],
                None => index >= self.fields().len(),
            },
    {
        if index < self.fields.len() {
            Some(&self.fields[index])
        } else {
            None
        }
    }

    /// The first field of the given name, or `None` where no field has it.
    pub fn get_field_by_name(&self, name: &str) -> (f: Option<&Field>)
        ensures
            match f {
                Some(f) => exists|i: int|
                    first_named(self.fields(), name@, i) && *f == self.fields()[i],
                None => forall|i: int|
                    0 <= i < self.fields().len() ==> self.fields()[i].spec_name() != name@,
            },
    {
        let wanted = name.to_owned();
        let mut i: usize = 0;
        while i < self.fields.len()
            invariant
                i <= self.fields@.len(),
                wanted@ == name@,
                forall|j: int| 0 <= j < i ==> self.fields@[j].spec_name() != name@,
            decreases self.fields@.len() - i,
        {
            if self.fields[i].name == wanted {
                proof {
                    assert(first_named(self.fields(), name@, i as int));
                }
                return Some(&self.fields[i]);
            }
            i = i + 1;
        }
        None
    }

    /// What shows for the schema.
    pub fn to_string(&self) -> (s: String)
        ensures
            s@ == self.text(),
    {
        let mut s = "(".to_owned();
        let mut i: usize = 0;
        while i < self.fields.len()
            invariant
                i <= self.fields@.len(),
                s@ == "("@ + lines(self.fields@, i as nat),
            decreases self.fields@.len() - i,
        {
            if i > 0 {
                s.append("\n ");
            }
            s.append(self.fields[i].to_string().as_str());
            proof {
                assert(s@ =~= "("@ + lines(self.fields@, (i + 1) as nat));
            }
            i = i + 1;
        }
        s.append(")");
        s
    }
}

} // verus!
