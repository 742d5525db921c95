use cat_registry::cmds::{Cat, Column, RowError};

fn text(value: &str) -> Column {
    Column::Text(value.to_string())
}

#[test]
fn row_in_table_order_is_a_cat() {
    let row = vec![Column::Integer(7), text("Tom"), Column::Integer(4), text("Tabby")];
    assert_eq!(
        Cat::from_row(&row),
        Ok(Cat { id: 7, name: "Tom".to_string(), age: 4, breed: Some("Tabby".to_string()) })
    );
}

#[test]
fn row_without_breed_is_a_cat_without_breed() {
    let row = vec![Column::Integer(1), text(""), Column::Integer(0), Column::Null];
    assert_eq!(Cat::from_row(&row), Ok(Cat { id: 1, name: String::new(), age: 0, breed: None }));
}

#[test]
fn row_with_the_largest_values() {
    let row = vec![Column::Integer(i64::MAX), text("x"), Column::Integer(4294967295), Column::Null];
    assert_eq!(
        Cat::from_row(&row),
        Ok(Cat { id: i64::MAX as u64, name: "x".to_string(), age: u32::MAX, breed: None })
    );
}

#[test]
fn further_columns_are_not_read() {
    let row = vec![Column::Integer(1), text("a"), Column::Integer(2), Column::Null, Column::Blob];
    assert_eq!(Cat::from_row(&row), Ok(Cat { id: 1, name: "a".to_string(), age: 2, breed: None }));
}

#[test]
fn short_row_names_the_first_missing_column() {
    assert_eq!(Cat::from_row(&[]), Err(RowError::InvalidColumnIndex(0)));
    assert_eq!(Cat::from_row(&[Column::Integer(1)]), Err(RowError::InvalidColumnIndex(1)));
    assert_eq!(
        Cat::from_row(&[Column::Integer(1), text("a")]),
        Err(RowError::InvalidColumnIndex(2))
    );
    assert_eq!(
        Cat::from_row(&[Column::Integer(1), text("a"), Column::Integer(2)]),
        Err(RowError::InvalidColumnIndex(3))
    );
}

#[test]
fn column_of_another_kind_is_refused() {
    let good = [Column::Integer(1), text("a"), Column::Integer(2), text("b")];
    for (at, bad) in [
        (0, Column::Null),
        (0, text("1")),
        (0, Column::Real),
        (1, Column::Null),
        (1, Column::Integer(1)),
        (1, Column::Blob),
        (2, text("2")),
        (2, Column::Null),
        (3, Column::Integer(0)),
        (3, Column::Real),
        (3, Column::Blob),
    ] {
        let mut row = good.to_vec();
        row[at] = bad;
        assert_eq!(Cat::from_row(&row), Err(RowError::InvalidColumnType(at)));
    }
}

#[test]
fn integer_outside_the_field_is_refused() {
    let row = vec![Column::Integer(-1), text("a"), Column::Integer(2), Column::Null];
    assert_eq!(Cat::from_row(&row), Err(RowError::IntegralValueOutOfRange(0, -1)));
    let row = vec![Column::Integer(1), text("a"), Column::Integer(4294967296), Column::Null];
    assert_eq!(Cat::from_row(&row), Err(RowError::IntegralValueOutOfRange(2, 4294967296)));
    let row = vec![Column::Integer(1), text("a"), Column::Integer(-5), Column::Null];
    assert_eq!(Cat::from_row(&row), Err(RowError::IntegralValueOutOfRange(2, -5)));
}

#[test]
fn first_bad_column_decides() {
    let row = vec![Column::Integer(-1), Column::Null, text("x"), Column::Real];
    assert_eq!(Cat::from_row(&row), Err(RowError::IntegralValueOutOfRange(0, -1)));
    let row = vec![Column::Integer(1), Column::Null, text("x"), Column::Real];
    assert_eq!(Cat::from_row(&row), Err(RowError::InvalidColumnType(1)));
    let row = vec![Column::Integer(1), text("a"), Column::Integer(-1)];
    assert_eq!(Cat::from_row(&row), Err(RowError::IntegralValueOutOfRange(2, -1)));
}
