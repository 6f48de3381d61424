use pgpeek::decode::{decode_cell, kind_of_type, RawCell, TypeKind};
use pgpeek::query::{encode_query_result, make_query_result, ColumnType, QueryResult};
use pgpeek::value::JsonVal;
use pgpeek::{probe_verdict, ConnectOutcome};

fn ct(name: &str, data_type: &str) -> ColumnType {
    ColumnType { name: name.to_string(), data_type: data_type.to_string() }
}

#[test]
fn probe_reports_connected_as_true() {
    assert!(probe_verdict(&ConnectOutcome::Connected));
}

#[test]
fn probe_reports_refused_as_false() {
    assert!(!probe_verdict(&ConnectOutcome::Refused));
}

#[test]
fn kind_dispatch_covers_supported_types() {
    assert!(kind_of_type("int4") == TypeKind::Int4);
    assert!(kind_of_type("int8") == TypeKind::Int8);
    assert!(kind_of_type("float4") == TypeKind::Float);
    assert!(kind_of_type("float8") == TypeKind::Float);
    assert!(kind_of_type("bool") == TypeKind::Bool);
    assert!(kind_of_type("varchar") == TypeKind::Text);
    assert!(kind_of_type("text") == TypeKind::Text);
    assert!(kind_of_type("bytea") == TypeKind::Bytes);
    assert!(kind_of_type("date") == TypeKind::Date);
    assert!(kind_of_type("timestamp") == TypeKind::Timestamp);
    assert!(kind_of_type("timestamptz") == TypeKind::TimestampTz);
    assert!(kind_of_type("time") == TypeKind::Time);
    assert!(kind_of_type("uuid") == TypeKind::Uuid);
    assert!(kind_of_type("json") == TypeKind::Json);
    assert!(kind_of_type("jsonb") == TypeKind::Json);
}

#[test]
fn kind_dispatch_maps_unknown_types_to_unsupported() {
    assert!(kind_of_type("money") == TypeKind::Unsupported);
    assert!(kind_of_type("numeric") == TypeKind::Unsupported);
    assert!(kind_of_type("") == TypeKind::Unsupported);
    assert!(kind_of_type("INT4") == TypeKind::Unsupported);
}

#[test]
fn sql_null_decodes_to_json_null_under_every_kind() {
    for kind in [
        TypeKind::Int4,
        TypeKind::Int8,
        TypeKind::Float,
        TypeKind::Bool,
        TypeKind::Text,
        TypeKind::Bytes,
        TypeKind::Date,
        TypeKind::Timestamp,
        TypeKind::TimestampTz,
        TypeKind::Time,
        TypeKind::Uuid,
        TypeKind::Json,
        TypeKind::Unsupported,
    ] {
        assert!(matches!(decode_cell(kind, RawCell::Absent), JsonVal::Null));
    }
}

#[test]
fn non_null_values_keep_their_shape() {
    assert!(matches!(decode_cell(TypeKind::Int4, RawCell::Int32(7)), JsonVal::Int(7)));
    assert!(matches!(decode_cell(TypeKind::Int8, RawCell::Int64(-9)), JsonVal::Int(-9)));
    assert!(matches!(decode_cell(TypeKind::Bool, RawCell::Truth(true)), JsonVal::Bool(true)));
    let v = decode_cell(TypeKind::Text, RawCell::Chars("Ada".to_string()));
    match v {
        JsonVal::Str(s) => assert_eq!(s, "Ada"),
        _ => panic!("text value lost its shape"),
    }
    let v = decode_cell(TypeKind::Bytes, RawCell::Blob(vec![1, 2, 3]));
    match v {
        JsonVal::Bytes(b) => assert_eq!(b, vec![1, 2, 3]),
        _ => panic!("bytea value lost its shape"),
    }
}

#[test]
fn float_number_token_passes_through() {
    let token = serde_json::Number::from_f64(2.5).unwrap().to_string();
    let v = decode_cell(TypeKind::Float, RawCell::Number(token));
    match v {
        JsonVal::Num(s) => assert_eq!(s, "2.5"),
        _ => panic!("float token lost"),
    }
}

#[test]
fn unsupported_kind_decodes_to_null_regardless_of_content() {
    assert!(matches!(
        decode_cell(TypeKind::Unsupported, RawCell::Int32(41)),
        JsonVal::Null
    ));
    assert!(matches!(
        decode_cell(TypeKind::Unsupported, RawCell::Chars("anything".to_string())),
        JsonVal::Null
    ));
    assert!(matches!(
        decode_cell(TypeKind::Unsupported, RawCell::Truth(true)),
        JsonVal::Null
    ));
}

#[test]
fn single_row_result_matches_wire_text_exactly() {
    let meta = vec![ct("id", "int4"), ct("name", "text")];
    let vals = vec![vec![JsonVal::Int(1), JsonVal::Str("Ada".to_string())]];
    let qr = make_query_result(meta, vals);
    assert_eq!(
        encode_query_result(&qr),
        "{\"columns\":{\"id\":\"int4\",\"name\":\"text\"},\"rows\":[{\"id\":1,\"name\":\"Ada\"}]}"
    );
}

#[test]
fn zero_rows_leave_columns_empty() {
    let meta = vec![ct("id", "int4"), ct("name", "text")];
    let qr = make_query_result(meta, Vec::new());
    assert_eq!(encode_query_result(&qr), "{\"columns\":{},\"rows\":[]}");
}

#[test]
fn every_row_carries_the_column_keys_in_order() {
    let meta = vec![ct("a", "int4"), ct("b", "text")];
    let vals = vec![
        vec![JsonVal::Int(1), JsonVal::Str("x".to_string())],
        vec![JsonVal::Null, JsonVal::Null],
    ];
    let qr = make_query_result(meta, vals);
    assert_eq!(qr.columns.len(), 2);
    for row in &qr.rows {
        assert_eq!(row.len(), qr.columns.len());
        for (f, c) in row.iter().zip(qr.columns.iter()) {
            assert_eq!(f.key, c.name);
        }
    }
    assert_eq!(
        encode_query_result(&qr),
        "{\"columns\":{\"a\":\"int4\",\"b\":\"text\"},\"rows\":[{\"a\":1,\"b\":\"x\"},{\"a\":null,\"b\":null}]}"
    );
}

#[test]
fn repeated_column_name_keeps_first_position_and_last_value() {
    let meta = vec![ct("a", "int4"), ct("a", "text")];
    let vals = vec![vec![JsonVal::Int(1), JsonVal::Str("x".to_string())]];
    let qr = make_query_result(meta, vals);
    assert_eq!(
        encode_query_result(&qr),
        "{\"columns\":{\"a\":\"text\"},\"rows\":[{\"a\":\"x\"}]}"
    );
}

#[test]
fn strings_are_escaped_like_json() {
    let meta = vec![ct("s", "text")];
    let vals = vec![vec![JsonVal::Str("he said \"hi\"\\\n\u{1}".to_string())]];
    let qr = make_query_result(meta, vals);
    assert_eq!(
        encode_query_result(&qr),
        "{\"columns\":{\"s\":\"text\"},\"rows\":[{\"s\":\"he said \\\"hi\\\"\\\\\\n\\u0001\"}]}"
    );
}

#[test]
fn non_ascii_text_passes_through_unescaped() {
    let meta = vec![ct("s", "text")];
    let vals = vec![vec![JsonVal::Str("héllo — ✓".to_string())]];
    let qr = make_query_result(meta, vals);
    assert_eq!(
        encode_query_result(&qr),
        "{\"columns\":{\"s\":\"text\"},\"rows\":[{\"s\":\"héllo — ✓\"}]}"
    );
}

#[test]
fn bytes_render_as_a_number_array() {
    let meta = vec![ct("b", "bytea")];
    let vals = vec![vec![JsonVal::Bytes(vec![0, 255, 16])]];
    let qr = make_query_result(meta, vals);
    assert_eq!(
        encode_query_result(&qr),
        "{\"columns\":{\"b\":\"bytea\"},\"rows\":[{\"b\":[0,255,16]}]}"
    );
}

#[test]
fn integer_extremes_render_exactly() {
    let meta = vec![ct("lo", "int8"), ct("hi", "int8")];
    let vals = vec![vec![JsonVal::Int(i64::MIN), JsonVal::Int(i64::MAX)]];
    let qr = make_query_result(meta, vals);
    assert_eq!(
        encode_query_result(&qr),
        "{\"columns\":{\"lo\":\"int8\",\"hi\":\"int8\"},\"rows\":[{\"lo\":-9223372036854775808,\"hi\":9223372036854775807}]}"
    );
}

#[test]
fn nested_json_passes_through_structurally() {
    let v: serde_json::Value = serde_json::from_str("{\"a\":[1,2],\"b\":null}").unwrap();
    let cell = decode_cell(TypeKind::Json, RawCell::Tree(v));
    let meta = vec![ct("j", "jsonb")];
    let qr = make_query_result(meta, vec![vec![cell]]);
    assert_eq!(
        encode_query_result(&qr),
        "{\"columns\":{\"j\":\"jsonb\"},\"rows\":[{\"j\":{\"a\":[1,2],\"b\":null}}]}"
    );
}

#[test]
fn empty_result_of_empty_metadata_is_the_empty_object() {
    let qr = QueryResult { columns: Vec::new(), rows: Vec::new() };
    assert_eq!(encode_query_result(&qr), "{\"columns\":{},\"rows\":[]}");
}
