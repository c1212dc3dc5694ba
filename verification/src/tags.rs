//! Backend column types and their display tags.
//!
//! A relational backend declares each result column with a wire-level object
//! id. The dispatch table below maps the ids this library knows how to decode
//! to a `ColumnType`, and every `ColumnType` to the coarse display `Tag` that
//! accompanies its encoded value. Unknown ids degrade to `ColumnType::Other`,
//! which is rendered through the best-effort text fallback rather than
//! failing the query.

use vstd::prelude::*;

verus! {

/// The coarse display category attached to every encoded cell.
#[derive(Clone, Copy, Debug, PartialEq, Eq, Structural)]
pub enum Tag {
    Bool,
    Number,
    Str,
    Array,
}

/// A backend column type this library distinguishes; everything else is
/// `Other` and decoded through the text fallback.
#[derive(Clone, Copy, Debug, PartialEq, Eq, Structural)]
pub enum ColumnType {
    Bool,
    Bytea,
    Char,
    Int2,
    Int4,
    Int8,
    Float4,
    Float8,
    Text,
    Json,
    Jsonb,
    Timestamp,
    Timestamptz,
    Date,
    Time,
    Uuid,
    BoolArray,
    Int2Array,
    Int4Array,
    Int8Array,
    Float4Array,
    Float8Array,
    TextArray,
    TimestampArray,
    TimestamptzArray,
    DateArray,
    TimeArray,
    UuidArray,
    JsonArray,
    JsonbArray,
    Other,
}

/// The dispatch table: object id to column type, `Other` for ids with no
/// registered decoder.
pub open spec fn spec_column_type_of_oid(oid: u32) -> ColumnType {
    if oid == 16 {
        ColumnType::Bool
    } else if oid == 17 {
        ColumnType::Bytea
    } else if oid == 18 {
        ColumnType::Char
    } else if oid == 21 {
        ColumnType::Int2
    } else if oid == 23 {
        ColumnType::Int4
    } else if oid == 20 {
        ColumnType::Int8
    } else if oid == 700 {
        ColumnType::Float4
    } else if oid == 701 {
        ColumnType::Float8
    } else if oid == 25 {
        ColumnType::Text
    } else if oid == 114 {
        ColumnType::Json
    } else if oid == 3802 {
        ColumnType::Jsonb
    } else if oid == 1114 {
        ColumnType::Timestamp
    } else if oid == 1184 {
        ColumnType::Timestamptz
    } else if oid == 1082 {
        ColumnType::Date
    } else if oid == 1083 {
        ColumnType::Time
    } else if oid == 2950 {
        ColumnType::Uuid
    } else if oid == 1000 {
        ColumnType::BoolArray
    } else if oid == 1005 {
        ColumnType::Int2Array
    } else if oid == 1007 {
        ColumnType::Int4Array
    } else if oid == 1016 {
        ColumnType::Int8Array
    } else if oid == 1021 {
        ColumnType::Float4Array
    } else if oid == 1022 {
        ColumnType::Float8Array
    } else if oid == 1009 {
        ColumnType::TextArray
    } else if oid == 1115 {
        ColumnType::TimestampArray
    } else if oid == 1185 {
        ColumnType::TimestamptzArray
    } else if oid == 1182 {
        ColumnType::DateArray
    } else if oid == 1183 {
        ColumnType::TimeArray
    } else if oid == 2951 {
        ColumnType::UuidArray
    } else if oid == 199 {
        ColumnType::JsonArray
    } else if oid == 3807 {
        ColumnType::JsonbArray
    } else {
        ColumnType::Other
    }
}

/// Maps a column's wire-level object id to the library's column type.
pub fn column_type_of_oid(oid: u32) -> (r: ColumnType)
    ensures
        r == spec_column_type_of_oid(oid),
{
    match oid {
        16 => ColumnType::Bool,
        17 => ColumnType::Bytea,
        18 => ColumnType::Char,
        21 => ColumnType::Int2,
        23 => ColumnType::Int4,
        20 => ColumnType::Int8,
        700 => ColumnType::Float4,
        701 => ColumnType::Float8,
        25 => ColumnType::Text,
        114 => ColumnType::Json,
        3802 => ColumnType::Jsonb,
        1114 => ColumnType::Timestamp,
        1184 => ColumnType::Timestamptz,
        1082 => ColumnType::Date,
        1083 => ColumnType::Time,
        2950 => ColumnType::Uuid,
        1000 => ColumnType::BoolArray,
        1005 => ColumnType::Int2Array,
        1007 => ColumnType::Int4Array,
        1016 => ColumnType::Int8Array,
        1021 => ColumnType::Float4Array,
        1022 => ColumnType::Float8Array,
        1009 => ColumnType::TextArray,
        1115 => ColumnType::TimestampArray,
        1185 => ColumnType::TimestamptzArray,
        1182 => ColumnType::DateArray,
        1183 => ColumnType::TimeArray,
        2951 => ColumnType::UuidArray,
        199 => ColumnType::JsonArray,
        3807 => ColumnType::JsonbArray,
        _ => ColumnType::Other,
    }
}

/// The display tag of each column type: booleans are `bool`, the integer and
/// floating-point widths are `number`, arrays are `array`, and every other
/// family, the fallback included, is `string`.
pub open spec fn spec_tag_of(ty: ColumnType) -> Tag {
    match ty {
        ColumnType::Bool => Tag::Bool,
        ColumnType::Char => Tag::Number,
        ColumnType::Int2 => Tag::Number,
        ColumnType::Int4 => Tag::Number,
        ColumnType::Int8 => Tag::Number,
        ColumnType::Float4 => Tag::Number,
        ColumnType::Float8 => Tag::Number,
        ColumnType::BoolArray => Tag::Array,
        ColumnType::Int2Array => Tag::Array,
        ColumnType::Int4Array => Tag::Array,
        ColumnType::Int8Array => Tag::Array,
        ColumnType::Float4Array => Tag::Array,
        ColumnType::Float8Array => Tag::Array,
        ColumnType::TextArray => Tag::Array,
        ColumnType::TimestampArray => Tag::Array,
        ColumnType::TimestamptzArray => Tag::Array,
        ColumnType::DateArray => Tag::Array,
        ColumnType::TimeArray => Tag::Array,
        ColumnType::UuidArray => Tag::Array,
        ColumnType::JsonArray => Tag::Array,
        ColumnType::JsonbArray => Tag::Array,
        _ => Tag::Str,
    }
}

/// Computes the display tag of a column type.
pub fn tag_of(ty: ColumnType) -> (r: Tag)
    ensures
        r == spec_tag_of(ty),
{
    match ty {
        ColumnType::Bool => Tag::Bool,
        ColumnType::Char => Tag::Number,
        ColumnType::Int2 => Tag::Number,
        ColumnType::Int4 => Tag::Number,
        ColumnType::Int8 => Tag::Number,
        ColumnType::Float4 => Tag::Number,
        ColumnType::Float8 => Tag::Number,
        ColumnType::BoolArray => Tag::Array,
        ColumnType::Int2Array => Tag::Array,
        ColumnType::Int4Array => Tag::Array,
        ColumnType::Int8Array => Tag::Array,
        ColumnType::Float4Array => Tag::Array,
        ColumnType::Float8Array => Tag::Array,
        ColumnType::TextArray => Tag::Array,
        ColumnType::TimestampArray => Tag::Array,
        ColumnType::TimestamptzArray => Tag::Array,
        ColumnType::DateArray => Tag::Array,
        ColumnType::TimeArray => Tag::Array,
        ColumnType::UuidArray => Tag::Array,
        ColumnType::JsonArray => Tag::Array,
        ColumnType::JsonbArray => Tag::Array,
        _ => Tag::Str,
    }
}

/// The wire text of each tag, as it appears in the encoded triple.
pub open spec fn spec_tag_text(t: Tag) -> Seq<char> {
    match t {
        Tag::Bool => "bool"@,
        Tag::Number => "number"@,
        Tag::Str => "string"@,
        Tag::Array => "array"@,
    }
}

/// Renders a tag as its wire text.
pub fn tag_text(t: Tag) -> (r: String)
    ensures
        r@ == spec_tag_text(t),
{
    match t {
        Tag::Bool => String::from_str("bool"),
        Tag::Number => String::from_str("number"),
        Tag::Str => String::from_str("string"),
        Tag::Array => String::from_str("array"),
    }
}

} // verus!
