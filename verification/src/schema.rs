//! Column types and fields, after the Arrow type system.
use crate::text;
use vstd::prelude::*;

verus! {

/// The unit of a time, timestamp or duration.
#[derive(Clone, Copy, Debug, PartialEq, Eq, Structural)]
pub enum TimeUnit {
    Second,
    Millisecond,
    Microsecond,
    Nanosecond,
}

/// The unit of an interval.
#[derive(Clone, Copy, Debug, PartialEq, Eq, Structural)]
pub enum IntervalUnit {
    YearMonth,
    DayTime,
    MonthDayNano,
}

/// The type of a column.
#[derive(Debug, PartialEq, Eq)]
pub enum DataType {
    Null,
    Boolean,
    Int8,
    Int16,
    Int32,
    Int64,
    UInt8,
    UInt16,
    UInt32,
    UInt64,
    Float16,
    Float32,
    Float64,
    Date32,
    Date64,
    Binary,
    LargeBinary,
    BinaryView,
    Utf8,
    LargeUtf8,
    Utf8View,
    Time32(TimeUnit),
    Time64(TimeUnit),
    Duration(TimeUnit),
    Interval(IntervalUnit),
    FixedSizeBinary(i32),
    Timestamp(TimeUnit, Option<String>),
    Decimal32(u8, i8),
    Decimal64(u8, i8),
    Decimal128(u8, i8),
    Decimal256(u8, i8),
    List(Box<Field>),
    ListView(Box<Field>),
    LargeList(Box<Field>),
    LargeListView(Box<Field>),
    FixedSizeList(Box<Field>, i32),
    Struct(Vec<Field>),
    MapType(Box<Field>, bool),
    RunEndEncoded(Box<Field>, Box<Field>),
    Dictionary(Box<DataType>, Box<DataType>),
    /// A union, known by a number.
    Union(u64),
}

/// A column: its name, its type, and what is said of it beside that.
#[derive(Debug, PartialEq, Eq)]
pub struct Field {
    pub name: String,
    pub data_type: DataType,
    pub nullable: bool,
    /// Keys with their values. Of two entries of one key the first counts.
    pub metadata: Vec<(String, String)>,
}

/// The model of a [`DataType`].
#[verifier::ext_equal]
pub enum DataTypeV {
    Null,
    Boolean,
    Int8,
    Int16,
    Int32,
    Int64,
    UInt8,
    UInt16,
    UInt32,
    UInt64,
    Float16,
    Float32,
    Float64,
    Date32,
    Date64,
    Binary,
    LargeBinary,
    BinaryView,
    Utf8,
    LargeUtf8,
    Utf8View,
    Time32(TimeUnit),
    Time64(TimeUnit),
    Duration(TimeUnit),
    Interval(IntervalUnit),
    FixedSizeBinary(i32),
    Timestamp(TimeUnit, Option<Seq<char>>),
    Decimal32(u8, i8),
    Decimal64(u8, i8),
    Decimal128(u8, i8),
    Decimal256(u8, i8),
    List(Box<FieldV>),
    ListView(Box<FieldV>),
    LargeList(Box<FieldV>),
    LargeListView(Box<FieldV>),
    FixedSizeList(Box<FieldV>, i32),
    Struct(Seq<FieldV>),
    MapType(Box<FieldV>, bool),
    RunEndEncoded(Box<FieldV>, Box<FieldV>),
    Dictionary(Box<DataTypeV>, Box<DataTypeV>),
    /// A union, known by a number.
    Union(u64),
}

/// The model of a [`Field`].
#[verifier::ext_equal]
pub struct FieldV {
    pub name: Seq<char>,
    pub data_type: DataTypeV,
    pub nullable: bool,
    pub metadata: Seq<(Seq<char>, Seq<char>)>,
}

/// The model of an optional text.
pub open spec fn opt_text(o: Option<String>) -> Option<Seq<char>> {
    match o {
        Some(s) => Some(s@),
        None => None,
    }
}

/// A copy of an optional text.
pub fn copy_opt_text(o: &Option<String>) -> (r: Option<String>)
    ensures
        r == *o,
{
    match o {
        Some(s) => Some(s.clone()),
        None => None,
    }
}

/// The model of metadata.
pub open spec fn metadata_view(v: Seq<(String, String)>) -> Seq<(Seq<char>, Seq<char>)> {
    v.map_values(|e: (String, String)| (e.0@, e.1@))
}

impl DataType {
    /// The model of this type.
    pub open spec fn model(self) -> DataTypeV
        decreases self,
    {
        match self {
            DataType::Null => DataTypeV::Null,
            DataType::Boolean => DataTypeV::Boolean,
            DataType::Int8 => DataTypeV::Int8,
            DataType::Int16 => DataTypeV::Int16,
            DataType::Int32 => DataTypeV::Int32,
            DataType::Int64 => DataTypeV::Int64,
            DataType::UInt8 => DataTypeV::UInt8,
            DataType::UInt16 => DataTypeV::UInt16,
            DataType::UInt32 => DataTypeV::UInt32,
            DataType::UInt64 => DataTypeV::UInt64,
            DataType::Float16 => DataTypeV::Float16,
            DataType::Float32 => DataTypeV::Float32,
            DataType::Float64 => DataTypeV::Float64,
            DataType::Date32 => DataTypeV::Date32,
            DataType::Date64 => DataTypeV::Date64,
            DataType::Binary => DataTypeV::Binary,
            DataType::LargeBinary => DataTypeV::LargeBinary,
            DataType::BinaryView => DataTypeV::BinaryView,
            DataType::Utf8 => DataTypeV::Utf8,
            DataType::LargeUtf8 => DataTypeV::LargeUtf8,
            DataType::Utf8View => DataTypeV::Utf8View,
            DataType::Time32(x) => DataTypeV::Time32(x),
            DataType::Time64(x) => DataTypeV::Time64(x),
            DataType::Duration(x) => DataTypeV::Duration(x),
            DataType::Interval(x) => DataTypeV::Interval(x),
            DataType::FixedSizeBinary(x) => DataTypeV::FixedSizeBinary(x),
            DataType::Timestamp(unit, tz) => DataTypeV::Timestamp(unit, opt_text(tz)),
            DataType::Decimal32(p, s) => DataTypeV::Decimal32(p, s),
            DataType::Decimal64(p, s) => DataTypeV::Decimal64(p, s),
            DataType::Decimal128(p, s) => DataTypeV::Decimal128(p, s),
            DataType::Decimal256(p, s) => DataTypeV::Decimal256(p, s),
            DataType::List(f) => DataTypeV::List(Box::new(f.model())),
            DataType::ListView(f) => DataTypeV::ListView(Box::new(f.model())),
            DataType::LargeList(f) => DataTypeV::LargeList(Box::new(f.model())),
            DataType::LargeListView(f) => DataTypeV::LargeListView(Box::new(f.model())),
            DataType::FixedSizeList(f, n) => DataTypeV::FixedSizeList(Box::new(f.model()), n),
            DataType::Struct(fields) => DataTypeV::Struct(
                Seq::new(
                    fields@.len(),
                    |i: int|
                        if 0 <= i < fields@.len() {
                            fields@[i].model()
                        } else {
                            arbitrary()
                        },
                ),
            ),
            DataType::MapType(f, sorted) => DataTypeV::MapType(Box::new(f.model()), sorted),
            DataType::RunEndEncoded(r, v) => DataTypeV::RunEndEncoded(
                Box::new(r.model()),
                Box::new(v.model()),
            ),
            DataType::Dictionary(k, v) => DataTypeV::Dictionary(
                Box::new(k.model()),
                Box::new(v.model()),
            ),
            DataType::Union(x) => DataTypeV::Union(x),
        }
    }
}

impl Field {
    /// The model of this field.
    pub open spec fn model(self) -> FieldV
        decreases self,
    {
        FieldV {
            name: self.name@,
            data_type: self.data_type.model(),
            nullable: self.nullable,
            metadata: metadata_view(self.metadata@),
        }
    }
}

impl View for DataType {
    type V = DataTypeV;

    open spec fn view(&self) -> DataTypeV {
        self.model()
    }
}

impl View for Field {
    type V = FieldV;

    open spec fn view(&self) -> FieldV {
        self.model()
    }
}

/// The models of a list of fields.
pub open spec fn fields_view(v: Seq<Field>) -> Seq<FieldV> {
    v.map_values(|f: Field| f@)
}

/// The model of an optional type.
pub open spec fn opt_type(o: Option<&DataType>) -> Option<DataTypeV> {
    match o {
        Some(t) => Some(t@),
        None => None,
    }
}

/// The model of a struct type is made of the models of its fields.
pub proof fn lemma_struct_model(fields: Vec<Field>)
    ensures
        DataType::Struct(fields)@ == DataTypeV::Struct(fields_view(fields@)),
{
    assert(DataType::Struct(fields).model()->Struct_0 == fields_view(fields@));
}

impl DataType {
    /// A copy of this type.
    pub fn copy(&self) -> (r: DataType)
        ensures
            r@ == self@,
        decreases self,
    {
        match self {
            DataType::Null => DataType::Null,
            DataType::Boolean => DataType::Boolean,
            DataType::Int8 => DataType::Int8,
            DataType::Int16 => DataType::Int16,
            DataType::Int32 => DataType::Int32,
            DataType::Int64 => DataType::Int64,
            DataType::UInt8 => DataType::UInt8,
            DataType::UInt16 => DataType::UInt16,
            DataType::UInt32 => DataType::UInt32,
            DataType::UInt64 => DataType::UInt64,
            DataType::Float16 => DataType::Float16,
            DataType::Float32 => DataType::Float32,
            DataType::Float64 => DataType::Float64,
            DataType::Date32 => DataType::Date32,
            DataType::Date64 => DataType::Date64,
            DataType::Binary => DataType::Binary,
            DataType::LargeBinary => DataType::LargeBinary,
            DataType::BinaryView => DataType::BinaryView,
            DataType::Utf8 => DataType::Utf8,
            DataType::LargeUtf8 => DataType::LargeUtf8,
            DataType::Utf8View => DataType::Utf8View,
            DataType::Time32(x) => DataType::Time32(*x),
            DataType::Time64(x) => DataType::Time64(*x),
            DataType::Duration(x) => DataType::Duration(*x),
            DataType::Interval(x) => DataType::Interval(*x),
            DataType::FixedSizeBinary(x) => DataType::FixedSizeBinary(*x),
            DataType::Timestamp(unit, tz) => DataType::Timestamp(*unit, copy_opt_text(tz)),
            DataType::Decimal32(p, s) => DataType::Decimal32(*p, *s),
            DataType::Decimal64(p, s) => DataType::Decimal64(*p, *s),
            DataType::Decimal128(p, s) => DataType::Decimal128(*p, *s),
            DataType::Decimal256(p, s) => DataType::Decimal256(*p, *s),
            DataType::List(f) => DataType::List(Box::new(f.copy())),
            DataType::ListView(f) => DataType::ListView(Box::new(f.copy())),
            DataType::LargeList(f) => DataType::LargeList(Box::new(f.copy())),
            DataType::LargeListView(f) => DataType::LargeListView(Box::new(f.copy())),
            DataType::FixedSizeList(f, n) => DataType::FixedSizeList(Box::new(f.copy()), *n),
            DataType::Struct(fields) => {
                let mut out: Vec<Field> = Vec::new();
                let mut i: usize = 0;
                while i < fields.len()
                    invariant
                        i <= fields@.len(),
                        *self == DataType::Struct(*fields),
                        out@.len() == i,
                        forall|j: int|
                            0 <= j < i ==> (#[trigger] out@[j]).model() == fields@[j].model(),
                    decreases fields@.len() - i,
                {
                    assert(decreases_to!(self->Struct_0 => fields@[i as int]));
                    assert(decreases_to!(*self => self->Struct_0));
                    let field = fields[i].copy();
                    out.push(field);
                    i += 1;
                }
                let r = DataType::Struct(out);
                proof {
                    assert(r.model()->Struct_0 == self.model()->Struct_0);
                }
                r
            },
            DataType::MapType(f, sorted) => DataType::MapType(Box::new(f.copy()), *sorted),
            DataType::RunEndEncoded(r, v) => DataType::RunEndEncoded(
                Box::new(r.copy()),
                Box::new(v.copy()),
            ),
            DataType::Dictionary(k, v) => DataType::Dictionary(
                Box::new(k.copy()),
                Box::new(v.copy()),
            ),
            DataType::Union(x) => DataType::Union(*x),
        }
    }
}

impl Field {
    /// A field without metadata.
    pub fn new(name: &str, data_type: DataType, nullable: bool) -> (r: Field)
        ensures
            r@ == (FieldV {
                name: name@,
                data_type: data_type@,
                nullable,
                metadata: Seq::empty(),
            }),
    {
        let r = Field { name: name.to_owned(), data_type, nullable, metadata: Vec::new() };
        assert(r@.metadata == Seq::<(Seq<char>, Seq<char>)>::empty());
        r
    }

    /// The field of the items of a list.
    pub fn new_list_field(data_type: DataType, nullable: bool) -> (r: Field)
        ensures
            r@ == list_field(data_type@, nullable),
    {
        Field::new("item", data_type, nullable)
    }

    /// A copy of this field.
    pub fn copy(&self) -> (r: Field)
        ensures
            r@ == self@,
        decreases self,
    {
        let mut metadata: Vec<(String, String)> = Vec::new();
        let mut i: usize = 0;
        while i < self.metadata.len()
            invariant
                i <= self.metadata@.len(),
                metadata@.len() == i,
                forall|j: int|
                    0 <= j < i ==> (#[trigger] metadata@[j]).0@ == self.metadata@[j].0@
                        && metadata@[j].1@ == self.metadata@[j].1@,
            decreases self.metadata@.len() - i,
        {
            let entry = &self.metadata[i];
            metadata.push((entry.0.clone(), entry.1.clone()));
            i += 1;
        }
        let r = Field {
            name: self.name.clone(),
            data_type: self.data_type.copy(),
            nullable: self.nullable,
            metadata,
        };
        assert(metadata_view(r.metadata@) == metadata_view(self.metadata@));
        r
    }

    /// The value of a metadata key.
    pub fn get_metadata(&self, key: &str) -> (r: Option<&str>)
        ensures
            match r {
                Some(value) => lookup(self@.metadata, key@) == Some(value@),
                None => lookup(self@.metadata, key@) is None,
            },
    {
        let ghost all = metadata_view(self.metadata@);
        let mut i: usize = 0;
        assert(all.skip(0) == all);
        while i < self.metadata.len()
            invariant
                i <= self.metadata@.len(),
                all == metadata_view(self.metadata@),
                lookup(all, key@) == lookup(all.skip(i as int), key@),
            decreases self.metadata@.len() - i,
        {
            let entry = &self.metadata[i];
            proof {
                assert(all.skip(i as int)[0] == (entry.0@, entry.1@));
                assert(all.skip(i as int).skip(1) == all.skip(i + 1));
            }
            if text::same(entry.0.as_str(), key) {
                return Some(entry.1.as_str());
            }
            i += 1;
        }
        None
    }
}

/// The field of the items of a list.
pub open spec fn list_field(data_type: DataTypeV, nullable: bool) -> FieldV {
    FieldV { name: "item"@, data_type, nullable, metadata: Seq::empty() }
}

/// The value of a key.
pub open spec fn lookup(metadata: Seq<(Seq<char>, Seq<char>)>, key: Seq<char>) -> Option<Seq<char>>
    decreases metadata.len(),
{
    if metadata.len() == 0 {
        None
    } else if metadata[0].0 == key {
        Some(metadata[0].1)
    } else {
        lookup(metadata.skip(1), key)
    }
}

} // verus!
