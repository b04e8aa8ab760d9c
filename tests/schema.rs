use liquid_ml::{DataType, LiquidError, Schema};

#[test]
fn test_from_data_types() {
    let mut data_types = vec![];
    let mut s = Schema::from_types(data_types.clone());
    assert_eq!(s.width(), 0);
    data_types = vec![
        DataType::Int,
        DataType::Int,
        DataType::Float,
        DataType::Bool,
        DataType::String,
    ];
    s = Schema::from_types(data_types.clone());
    for (idx, data_type) in data_types.iter().enumerate() {
        assert_eq!(data_type, s.col_type(idx).unwrap());
    }
    assert_eq!(s.width(), data_types.len());
}

#[test]
fn test_from_str() {
    let mut types_str = "";
    let mut s = Schema::from_type_str(types_str).unwrap();
    assert_eq!(s.width(), 0);
    types_str = "IIFBS";
    s = Schema::from_type_str(types_str).unwrap();
    let data_types = vec![
        DataType::Int,
        DataType::Int,
        DataType::Float,
        DataType::Bool,
        DataType::String,
    ];
    for (idx, data_type) in data_types.iter().enumerate() {
        assert_eq!(data_type, s.col_type(idx).unwrap());
    }
    assert_eq!(s.width(), data_types.len());
}

#[test]
fn test_col_getters_setters() {
    let mut s = Schema::new();
    assert_eq!(s.width(), 0);
    s.add_column(DataType::String, None).unwrap();
    assert_eq!(s.width(), 1);
    s.add_column(DataType::Int, Some(String::from("foo"))).unwrap();
    assert_eq!(s.width(), 2);
    assert_eq!(s.col_idx("foo"), Some(1));
    assert_eq!(s.col_name(0).unwrap(), &None);
}

#[test]
fn adding_a_name_twice_keeps_the_first_column() {
    let mut s = Schema::new();
    assert_eq!(s.add_column(DataType::Int, Some(String::from("x"))), Ok(()));
    assert_eq!(
        s.add_column(DataType::Bool, Some(String::from("x"))),
        Err(LiquidError::NameAlreadyExists)
    );
    assert_eq!(s.width(), 1);
    assert_eq!(s.col_type(0), Ok(&DataType::Int));
    assert_eq!(s.col_idx("x"), Some(0));
}

#[test]
fn unnamed_columns_may_repeat() {
    let mut s = Schema::new();
    s.add_column(DataType::Int, None).unwrap();
    s.add_column(DataType::Int, None).unwrap();
    assert_eq!(s.width(), 2);
    assert_eq!(s.col_idx("x"), None);
}

#[test]
fn unknown_type_letter_is_rejected() {
    assert_eq!(Schema::from_type_str("IQ").err(), Some(LiquidError::TypeMismatch));
    assert_eq!(Schema::from_type_str("i").err(), Some(LiquidError::TypeMismatch));
}

#[test]
fn type_letters_map_to_types() {
    assert_eq!(Schema::char_to_data_type(b'B'), Some(DataType::Bool));
    assert_eq!(Schema::char_to_data_type(b'I'), Some(DataType::Int));
    assert_eq!(Schema::char_to_data_type(b'F'), Some(DataType::Float));
    assert_eq!(Schema::char_to_data_type(b'S'), Some(DataType::String));
    assert_eq!(Schema::char_to_data_type(b'X'), None);
}

#[test]
fn out_of_range_column_lookups_fail() {
    let s = Schema::from_type_str("IB").unwrap();
    assert_eq!(s.col_type(2), Err(LiquidError::ColIndexOutOfBounds));
    assert_eq!(s.col_name(7), Err(LiquidError::ColIndexOutOfBounds));
    assert_eq!(s.col_name(1), Ok(&None));
}
