use sqlthink::{
    decimal_text, execute_select_query, row_to_json_value, scalar_text, CellProbe, Column, Scalar,
};

fn empty_probe() -> CellProbe {
    CellProbe { text: None, int32: None, int64: None, float_text: None, boolean: None }
}

fn col(name: &str, value: CellProbe) -> Column {
    Column { name: name.to_string(), value }
}

fn int_col(name: &str, n: i32) -> Column {
    col(name, CellProbe { int32: Some(n), int64: Some(n as i64), float_text: Some(format!("{}.0", n)), ..empty_probe() })
}

#[test]
fn select_one_as_x() {
    let sets = vec![vec![], vec![vec![int_col("x", 1)]], vec![]];
    assert_eq!(execute_select_query(&sets), "[{\"x\":1}]");
}

#[test]
fn zero_rows_is_empty_array() {
    let sets: Vec<Vec<Vec<Column>>> = vec![vec![], vec![], vec![]];
    assert_eq!(execute_select_query(&sets), "[]");
    let none: Vec<Vec<Vec<Column>>> = vec![];
    assert_eq!(execute_select_query(&none), "[]");
}

#[test]
fn integer_wins_over_float() {
    let p = CellProbe { int32: Some(5), float_text: Some("5.0".to_string()), ..empty_probe() };
    assert!(matches!(row_to_json_value(&p), Scalar::Int(5)));
}

#[test]
fn probe_order() {
    let p = CellProbe { text: Some("a".to_string()), int32: Some(1), boolean: Some(true), ..empty_probe() };
    assert!(matches!(row_to_json_value(&p), Scalar::Str(ref s) if s == "a"));
    let p = CellProbe { int64: Some(1 << 40), boolean: Some(true), ..empty_probe() };
    assert!(matches!(row_to_json_value(&p), Scalar::Int(n) if n == 1 << 40));
    let p = CellProbe { float_text: Some("2.5".to_string()), boolean: Some(true), ..empty_probe() };
    assert!(matches!(row_to_json_value(&p), Scalar::Float(ref t) if t == "2.5"));
    let p = CellProbe { boolean: Some(false), ..empty_probe() };
    assert!(matches!(row_to_json_value(&p), Scalar::Bool(false)));
    assert!(matches!(row_to_json_value(&empty_probe()), Scalar::Null));
}

#[test]
fn scalar_texts() {
    assert_eq!(scalar_text(&Scalar::Str("a\"b\n".to_string())), "\"a\\\"b\\n\"");
    assert_eq!(scalar_text(&Scalar::Int(-42)), "-42");
    assert_eq!(scalar_text(&Scalar::Float("0.5".to_string())), "0.5");
    assert_eq!(scalar_text(&Scalar::Bool(true)), "true");
    assert_eq!(scalar_text(&Scalar::Bool(false)), "false");
    assert_eq!(scalar_text(&Scalar::Null), "null");
}

#[test]
fn decimal_text_extremes() {
    assert_eq!(decimal_text(0), "0");
    assert_eq!(decimal_text(7), "7");
    assert_eq!(decimal_text(1234567890), "1234567890");
    assert_eq!(decimal_text(i64::MAX), "9223372036854775807");
    assert_eq!(decimal_text(i64::MIN), "-9223372036854775808");
}

#[test]
fn several_rows_and_columns() {
    let row1 = vec![int_col("id", 1), col("name", CellProbe { text: Some("Ann".to_string()), ..empty_probe() }), col("note", empty_probe())];
    let row2 = vec![int_col("id", 2), col("name", CellProbe { text: Some("Bo".to_string()), ..empty_probe() }), col("note", CellProbe { boolean: Some(true), ..empty_probe() })];
    let sets = vec![vec![row1, row2]];
    assert_eq!(
        execute_select_query(&sets),
        "[{\"id\":1,\"name\":\"Ann\",\"note\":null},{\"id\":2,\"name\":\"Bo\",\"note\":true}]"
    );
}

#[test]
fn repeated_column_keeps_first_place_and_last_value() {
    let row = vec![int_col("a", 1), int_col("b", 2), int_col("a", 3)];
    let sets = vec![vec![row]];
    assert_eq!(execute_select_query(&sets), "[{\"a\":3,\"b\":2}]");
}

#[test]
fn first_set_with_rows_is_chosen() {
    let sets = vec![vec![], vec![vec![int_col("x", 1)]], vec![vec![int_col("y", 2)]]];
    assert_eq!(execute_select_query(&sets), "[{\"x\":1}]");
}
