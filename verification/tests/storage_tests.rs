use sql_engine::sql_types::{ColumnDefinition, ConstraintError, SqlType};
use sql_engine::storage::{
    DataManager, DropSchemaError, DropStrategy, OperationOnTableError, SchemaId,
};

fn column_definition(name: &str, sql_type: SqlType) -> ColumnDefinition {
    ColumnDefinition::new(name, sql_type)
}

fn create_schema_with_table(
    storage: &mut DataManager,
    schema_name: &str,
    table_name: &str,
    columns: Vec<(&str, SqlType)>,
) {
    storage.create_schema(schema_name).expect("schema created");
    storage
        .create_table(
            schema_name,
            table_name,
            columns
                .into_iter()
                .map(|(n, t)| column_definition(n, t))
                .collect(),
        )
        .expect("table created");
}

fn insert_into(storage: &mut DataManager, schema_name: &str, table_name: &str, values: Vec<&str>) {
    storage
        .insert_into(
            schema_name,
            table_name,
            vec![values.into_iter().map(|v| v.to_owned()).collect()],
        )
        .expect("no system errors")
        .expect("record inserted");
}

fn assignments(pairs: Vec<(&str, &str)>) -> Vec<(String, String)> {
    pairs
        .into_iter()
        .map(|(n, v)| (n.to_owned(), v.to_owned()))
        .collect()
}

#[test]
fn storage_update_all_records() {
    let mut storage = DataManager::new();
    create_schema_with_table(
        &mut storage,
        "schema_name",
        "table_name",
        vec![("column_test", SqlType::SmallInt)],
    );
    insert_into(&mut storage, "schema_name", "table_name", vec!["123"]);
    insert_into(&mut storage, "schema_name", "table_name", vec!["456"]);
    insert_into(&mut storage, "schema_name", "table_name", vec!["789"]);

    assert_eq!(
        storage
            .update_all(
                "schema_name",
                "table_name",
                assignments(vec![("column_test", "567")])
            )
            .expect("no system errors"),
        Ok(3)
    );

    let table_columns: Vec<String> = storage
        .table_columns("schema_name", "table_name")
        .expect("table resolved")
        .into_iter()
        .map(|column_definition| column_definition.name())
        .collect();

    assert_eq!(
        storage
            .select_all_from("schema_name", "table_name", table_columns)
            .expect("no system errors"),
        Ok((
            vec![column_definition("column_test", SqlType::SmallInt)],
            vec![
                vec!["567".to_owned()],
                vec!["567".to_owned()],
                vec!["567".to_owned()]
            ]
        ))
    );
}

#[test]
fn update_not_existed_table() {
    let mut storage = DataManager::new();
    storage.create_schema("schema_name").expect("schema created");

    assert_eq!(
        storage
            .update_all("schema_name", "not_existed", vec![])
            .expect("no system errors"),
        Err(OperationOnTableError::TableDoesNotExist)
    );
}

#[test]
fn update_non_existent_schema() {
    let mut storage = DataManager::new();

    assert_eq!(
        storage
            .update_all("non_existent", "not_existed", vec![])
            .expect("no system errors"),
        Err(OperationOnTableError::SchemaDoesNotExist)
    );
}

fn storage_with_ints_table() -> DataManager {
    let mut storage = DataManager::new();
    create_schema_with_table(
        &mut storage,
        "schema_name",
        "table_name",
        vec![
            ("column_si", SqlType::SmallInt),
            ("column_i", SqlType::Integer),
            ("column_bi", SqlType::BigInt),
        ],
    );
    storage
}

fn storage_with_chars_table() -> DataManager {
    let mut storage = DataManager::new();
    create_schema_with_table(
        &mut storage,
        "schema_name",
        "table_name",
        vec![("column_c", SqlType::Char(10)), ("column_vc", SqlType::VarChar(10))],
    );
    storage
}

#[test]
fn out_of_range_violation() {
    let mut storage = storage_with_ints_table();
    insert_into(&mut storage, "schema_name", "table_name", vec!["100", "100", "100"]);

    assert_eq!(
        storage
            .update_all(
                "schema_name",
                "table_name",
                assignments(vec![
                    ("column_si", "-32769"),
                    ("column_i", "100"),
                    ("column_bi", "100")
                ])
            )
            .expect("no system errors"),
        Err(OperationOnTableError::ConstraintViolations(vec![(
            ConstraintError::OutOfRange,
            column_definition("column_si", SqlType::SmallInt)
        )]))
    );
}

#[test]
fn not_an_int_violation() {
    let mut storage = storage_with_ints_table();
    insert_into(&mut storage, "schema_name", "table_name", vec!["100", "100", "100"]);

    assert_eq!(
        storage
            .update_all(
                "schema_name",
                "table_name",
                assignments(vec![
                    ("column_si", "abc"),
                    ("column_i", "100"),
                    ("column_bi", "100")
                ])
            )
            .expect("no system errors"),
        Err(OperationOnTableError::ConstraintViolations(vec![(
            ConstraintError::TypeMismatch("abc".to_owned()),
            column_definition("column_si", SqlType::SmallInt)
        )]))
    );
}

#[test]
fn value_too_long_violation() {
    let mut storage = storage_with_chars_table();
    insert_into(&mut storage, "schema_name", "table_name", vec!["100", "100"]);

    assert_eq!(
        storage
            .update_all(
                "schema_name",
                "table_name",
                assignments(vec![("column_c", "12345678901"), ("column_vc", "100")])
            )
            .expect("no system errors"),
        Err(OperationOnTableError::ConstraintViolations(vec![(
            ConstraintError::ValueTooLong(10),
            column_definition("column_c", SqlType::Char(10))
        )]))
    );
}

#[test]
fn multiple_columns_violation() {
    let mut storage = storage_with_ints_table();
    insert_into(&mut storage, "schema_name", "table_name", vec!["100", "100", "100"]);

    assert_eq!(
        storage
            .update_all(
                "schema_name",
                "table_name",
                assignments(vec![
                    ("column_si", "-32769"),
                    ("column_i", "-2147483649"),
                    ("column_bi", "100")
                ])
            )
            .expect("no system errors"),
        Err(OperationOnTableError::ConstraintViolations(vec![
            (
                ConstraintError::OutOfRange,
                column_definition("column_si", SqlType::SmallInt)
            ),
            (
                ConstraintError::OutOfRange,
                column_definition("column_i", SqlType::Integer)
            )
        ]))
    );
}

#[test]
fn update_of_empty_table_reports_zero_rows() {
    let mut storage = storage_with_ints_table();

    assert_eq!(
        storage
            .update_all(
                "schema_name",
                "table_name",
                assignments(vec![("column_si", "1")])
            )
            .expect("no system errors"),
        Ok(0)
    );
}

#[test]
fn insert_violations_are_aggregated_and_deduplicated_by_column() {
    let mut storage = storage_with_ints_table();

    // two rows failing at the same column report it once; a second failing
    // column is reported as well
    assert_eq!(
        storage
            .insert_into(
                "schema_name",
                "table_name",
                vec![
                    vec!["-32769".to_owned(), "100".to_owned(), "100".to_owned()],
                    vec!["-32769".to_owned(), "-2147483649".to_owned(), "100".to_owned()],
                ]
            )
            .expect("no system errors"),
        Err(OperationOnTableError::ConstraintViolations(vec![
            (
                ConstraintError::OutOfRange,
                column_definition("column_si", SqlType::SmallInt)
            ),
            (
                ConstraintError::OutOfRange,
                column_definition("column_i", SqlType::Integer)
            )
        ]))
    );

    // nothing was stored
    let table_columns: Vec<String> = storage
        .table_columns("schema_name", "table_name")
        .expect("table resolved")
        .into_iter()
        .map(|c| c.name())
        .collect();
    assert_eq!(
        storage
            .select_all_from("schema_name", "table_name", table_columns)
            .expect("no system errors"),
        Ok((
            vec![
                column_definition("column_si", SqlType::SmallInt),
                column_definition("column_i", SqlType::Integer),
                column_definition("column_bi", SqlType::BigInt),
            ],
            vec![]
        ))
    );
}

#[test]
fn insert_row_of_wrong_arity_is_rejected() {
    let mut storage = storage_with_ints_table();

    assert_eq!(
        storage
            .insert_into(
                "schema_name",
                "table_name",
                vec![vec!["1".to_owned(), "2".to_owned()]]
            )
            .expect("no system errors"),
        Err(OperationOnTableError::ArityMismatch)
    );
}

#[test]
fn select_unknown_columns_are_aggregated() {
    let mut storage = storage_with_ints_table();

    assert_eq!(
        storage
            .select_all_from(
                "schema_name",
                "table_name",
                vec!["ghost_a".to_owned(), "column_si".to_owned(), "ghost_b".to_owned()]
            )
            .expect("no system errors"),
        Err(OperationOnTableError::ColumnDoesNotExist(vec![
            "ghost_a".to_owned(),
            "ghost_b".to_owned()
        ]))
    );
}

#[test]
fn delete_all_from_clears_the_table() {
    let mut storage = storage_with_ints_table();
    insert_into(&mut storage, "schema_name", "table_name", vec!["1", "2", "3"]);
    insert_into(&mut storage, "schema_name", "table_name", vec!["4", "5", "6"]);

    assert_eq!(
        storage
            .delete_all_from("schema_name", "table_name")
            .expect("no system errors"),
        Ok(2)
    );
    let table_columns: Vec<String> = storage
        .table_columns("schema_name", "table_name")
        .expect("table resolved")
        .into_iter()
        .map(|c| c.name())
        .collect();
    assert_eq!(
        storage
            .select_all_from("schema_name", "table_name", table_columns)
            .expect("no system errors")
            .expect("table resolved")
            .1,
        Vec::<Vec<String>>::new()
    );
}

#[test]
fn drop_schema_restrict_refuses_dependents() {
    let mut storage = storage_with_ints_table();
    let id = SchemaId::new("schema_name");

    assert_eq!(
        storage
            .drop_schema(&id, DropStrategy::Restrict)
            .expect("no system errors"),
        Err(DropSchemaError::HasDependentObjects)
    );
    assert!(storage.schema_exists("schema_name").is_some());
}

#[test]
fn drop_schema_cascade_removes_tables() {
    let mut storage = storage_with_ints_table();
    let id = SchemaId::new("schema_name");

    assert_eq!(
        storage
            .drop_schema(&id, DropStrategy::Cascade)
            .expect("no system errors"),
        Ok(())
    );
    assert!(storage.schema_exists("schema_name").is_none());
}

#[test]
fn drop_missing_schema_reports_does_not_exist() {
    let mut storage = DataManager::new();
    let id = SchemaId::new("nothing_here");

    assert_eq!(
        storage
            .drop_schema(&id, DropStrategy::Restrict)
            .expect("no system errors"),
        Err(DropSchemaError::DoesNotExist)
    );
}

#[test]
fn drop_table_removes_only_that_table() {
    let mut storage = DataManager::new();
    storage.create_schema("schema_name").expect("schema created");
    storage
        .create_table(
            "schema_name",
            "first",
            vec![column_definition("a", SqlType::SmallInt)],
        )
        .expect("table created");
    storage
        .create_table(
            "schema_name",
            "second",
            vec![column_definition("b", SqlType::SmallInt)],
        )
        .expect("table created");

    assert_eq!(
        storage.drop_table("schema_name", "first").expect("no system errors"),
        Ok(())
    );
    assert!(storage.table_columns("schema_name", "first").is_err());
    assert!(storage.table_columns("schema_name", "second").is_ok());
}

#[test]
fn create_duplicate_table_is_refused() {
    let mut storage = DataManager::new();
    storage.create_schema("schema_name").expect("schema created");
    storage
        .create_table(
            "schema_name",
            "table_name",
            vec![column_definition("a", SqlType::SmallInt)],
        )
        .expect("table created");

    assert!(storage
        .create_table(
            "schema_name",
            "table_name",
            vec![column_definition("a", SqlType::SmallInt)]
        )
        .is_err());
}

#[test]
fn create_duplicate_schema_is_refused() {
    let mut storage = DataManager::new();
    storage.create_schema("schema_name").expect("schema created");
    assert!(storage.create_schema("schema_name").is_err());
}
