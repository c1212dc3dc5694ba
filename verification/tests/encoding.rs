use pgview::encode::{cell_text, encode_cell, encode_row, FetchedCell, FetchedRow, RawCell};
use pgview::executor::render_response;
use pgview::tags::{column_type_of_oid, tag_of, tag_text, ColumnType, Tag};

fn cell(name: &str, oid: u32, raw: RawCell) -> FetchedCell {
    FetchedCell { name: name.to_string(), oid, raw }
}

#[test]
fn oid_dispatch_table() {
    assert_eq!(column_type_of_oid(16), ColumnType::Bool);
    assert_eq!(column_type_of_oid(17), ColumnType::Bytea);
    assert_eq!(column_type_of_oid(18), ColumnType::Char);
    assert_eq!(column_type_of_oid(20), ColumnType::Int8);
    assert_eq!(column_type_of_oid(21), ColumnType::Int2);
    assert_eq!(column_type_of_oid(23), ColumnType::Int4);
    assert_eq!(column_type_of_oid(25), ColumnType::Text);
    assert_eq!(column_type_of_oid(700), ColumnType::Float4);
    assert_eq!(column_type_of_oid(701), ColumnType::Float8);
    assert_eq!(column_type_of_oid(1114), ColumnType::Timestamp);
    assert_eq!(column_type_of_oid(2950), ColumnType::Uuid);
    assert_eq!(column_type_of_oid(1009), ColumnType::TextArray);
    assert_eq!(column_type_of_oid(199), ColumnType::JsonArray);
    // an id with no registered decoder, for example varchar
    assert_eq!(column_type_of_oid(1043), ColumnType::Other);
    assert_eq!(column_type_of_oid(0), ColumnType::Other);
}

#[test]
fn documented_tags() {
    assert_eq!(tag_of(ColumnType::Bool), Tag::Bool);
    assert_eq!(tag_of(ColumnType::Char), Tag::Number);
    assert_eq!(tag_of(ColumnType::Int2), Tag::Number);
    assert_eq!(tag_of(ColumnType::Int4), Tag::Number);
    assert_eq!(tag_of(ColumnType::Int8), Tag::Number);
    assert_eq!(tag_of(ColumnType::Float4), Tag::Number);
    assert_eq!(tag_of(ColumnType::Float8), Tag::Number);
    assert_eq!(tag_of(ColumnType::Bytea), Tag::Str);
    assert_eq!(tag_of(ColumnType::Text), Tag::Str);
    assert_eq!(tag_of(ColumnType::Json), Tag::Str);
    assert_eq!(tag_of(ColumnType::Timestamp), Tag::Str);
    assert_eq!(tag_of(ColumnType::Uuid), Tag::Str);
    assert_eq!(tag_of(ColumnType::BoolArray), Tag::Array);
    assert_eq!(tag_of(ColumnType::TextArray), Tag::Array);
    assert_eq!(tag_of(ColumnType::Other), Tag::Str);
    assert_eq!(tag_text(Tag::Bool), "bool");
    assert_eq!(tag_text(Tag::Number), "number");
    assert_eq!(tag_text(Tag::Str), "string");
    assert_eq!(tag_text(Tag::Array), "array");
}

#[test]
fn bool_value_round_trip() {
    let t = cell_text(&RawCell::Bool(true));
    let f = cell_text(&RawCell::Bool(false));
    assert_eq!(t, "true");
    assert_eq!(f, "false");
    assert_eq!(t.parse::<bool>().unwrap(), true);
    assert_eq!(f.parse::<bool>().unwrap(), false);
}

#[test]
fn integer_value_round_trip() {
    assert_eq!(cell_text(&RawCell::Int(0)), "0");
    assert_eq!(cell_text(&RawCell::Int(42)), "42");
    assert_eq!(cell_text(&RawCell::Int(-7)), "-7");
    assert_eq!(cell_text(&RawCell::Int(i64::MAX)), "9223372036854775807");
    assert_eq!(cell_text(&RawCell::Int(i64::MIN)), "-9223372036854775808");
    for v in [0i64, 1, -1, 10, 99, -100, 123456789, i64::MIN, i64::MAX] {
        assert_eq!(cell_text(&RawCell::Int(v)).parse::<i64>().unwrap(), v);
    }
}

#[test]
fn bytea_value_round_trip() {
    let bytes = vec![0x00u8, 0xff, 0x1a, 0x7b];
    let text = cell_text(&RawCell::Bytes(bytes.clone()));
    assert_eq!(text, "00ff1a7b");
    assert_eq!(hex::decode(&text).unwrap(), bytes);
    assert_eq!(cell_text(&RawCell::Bytes(Vec::new())), "");
}

#[test]
fn text_value_is_itself() {
    assert_eq!(cell_text(&RawCell::Text("hello world".to_string())), "hello world");
    assert_eq!(cell_text(&RawCell::Text(String::new())), "");
}

#[test]
fn null_is_sentinel_for_every_type() {
    for oid in [16u32, 17, 18, 20, 21, 23, 25, 700, 701, 1114, 2950, 1009, 0, 1043] {
        let tv = encode_cell(&cell("c", oid, RawCell::Null));
        assert_eq!(tv.value, "<<null>>");
        assert_eq!(tv.tag, tag_of(column_type_of_oid(oid)));
    }
}

#[test]
fn fallback_is_lossy_text_or_sentinel() {
    // an unknown type id is tagged string
    let tv = encode_cell(&cell("c", 99999, RawCell::Raw(b"plain".to_vec())));
    assert_eq!(tv.tag, Tag::Str);
    assert_eq!(tv.value, "plain");
    // invalid UTF-8 is replaced, not fatal
    let tv = encode_cell(&cell("c", 99999, RawCell::Raw(vec![0x66, 0x6f, 0x80])));
    assert_eq!(tv.value, "fo\u{fffd}");
    // total decode failure falls back to the sentinel
    let tv = encode_cell(&cell("c", 99999, RawCell::Undecodable));
    assert_eq!(tv.tag, Tag::Str);
    assert_eq!(tv.value, "<<unsupported type>>");
}

#[test]
fn array_rendering_lists_elements_in_order() {
    assert_eq!(
        cell_text(&RawCell::BoolArray(vec![Some(true), None, Some(false)])),
        "[Some(true), None, Some(false)]"
    );
    assert_eq!(cell_text(&RawCell::IntArray(vec![Some(-3), Some(12), None])), "[Some(-3), Some(12), None]");
    assert_eq!(cell_text(&RawCell::IntArray(Vec::new())), "[]");
    assert_eq!(
        cell_text(&RawCell::TextArray(vec![Some("a".to_string()), None])),
        "[Some(\"a\"), None]"
    );
    assert_eq!(
        cell_text(&RawCell::PlainArray(vec![Some("2020-01-02".to_string()), None])),
        "[Some(2020-01-02), None]"
    );
}

#[test]
fn text_array_elements_are_escaped() {
    let text = cell_text(&RawCell::TextArray(vec![Some("a\"b\\c\nd".to_string())]));
    assert_eq!(text, "[Some(\"a\\\"b\\\\c\\nd\")]");
}

#[test]
fn integer_widths_are_numbers() {
    for oid in [18u32, 21, 23, 20] {
        let tv = encode_cell(&cell("n", oid, RawCell::Int(-5)));
        assert_eq!(tv.tag, Tag::Number);
        assert_eq!(tv.value, "-5");
    }
}

#[test]
fn floating_point_keeps_its_own_text_form() {
    // the float decoder hands the library the value's own decimal text
    let tv = encode_cell(&cell("x", 700, RawCell::Text(1.5f32.to_string())));
    assert_eq!(tv.tag, Tag::Number);
    assert_eq!(tv.value, "1.5");
    assert_eq!(tv.value.parse::<f32>().unwrap(), 1.5f32);
    let tv = encode_cell(&cell("x", 701, RawCell::Text((-0.25f64).to_string())));
    assert_eq!(tv.tag, Tag::Number);
    assert_eq!(tv.value.parse::<f64>().unwrap(), -0.25f64);
}

#[test]
fn encode_row_keeps_column_order() {
    let row = FetchedRow {
        cells: vec![
            cell("first", 23, RawCell::Int(1)),
            cell("second", 16, RawCell::Bool(false)),
            cell("third", 25, RawCell::Text("x".to_string())),
        ],
    };
    let encoded = encode_row(&row);
    assert_eq!(encoded.len(), 3);
    assert_eq!(encoded[0].name, "first");
    assert_eq!(encoded[0].tag, Tag::Number);
    assert_eq!(encoded[0].value, "1");
    assert_eq!(encoded[1].name, "second");
    assert_eq!(encoded[1].tag, Tag::Bool);
    assert_eq!(encoded[1].value, "false");
    assert_eq!(encoded[2].name, "third");
    assert_eq!(encoded[2].tag, Tag::Str);
    assert_eq!(encoded[2].value, "x");
}

#[test]
fn response_orders_match_backend_orders() {
    let rows = vec![
        FetchedRow {
            cells: vec![cell("a", 23, RawCell::Int(1)), cell("b", 25, RawCell::Text("x".to_string()))],
        },
        FetchedRow {
            cells: vec![cell("a", 23, RawCell::Int(2)), cell("b", 25, RawCell::Null)],
        },
    ];
    let json = render_response(&rows).unwrap();
    assert_eq!(
        json,
        "[[[\"a\",\"number\",\"1\"],[\"b\",\"string\",\"x\"]],[[\"a\",\"number\",\"2\"],[\"b\",\"string\",\"<<null>>\"]]]"
    );
}

#[test]
fn boolean_column_with_null_row_example() {
    let rows = vec![
        FetchedRow { cells: vec![cell("flag", 16, RawCell::Bool(true))] },
        FetchedRow { cells: vec![cell("flag", 16, RawCell::Null)] },
    ];
    let json = render_response(&rows).unwrap();
    assert_eq!(json, "[[[\"flag\",\"bool\",\"true\"]],[[\"flag\",\"bool\",\"<<null>>\"]]]");
}

#[test]
fn empty_result_is_empty_json_array() {
    let json = render_response(&Vec::new()).unwrap();
    assert_eq!(json, "[]");
}

#[test]
fn json_escapes_match_serializer() {
    let rows = vec![FetchedRow {
        cells: vec![cell("c", 25, RawCell::Text("a\"b\\c\nd\te\u{1}".to_string()))],
    }];
    let json = render_response(&rows).unwrap();
    assert_eq!(json, "[[[\"c\",\"string\",\"a\\\"b\\\\c\\nd\\te\\u0001\"]]]");
}
