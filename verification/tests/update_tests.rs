use sql_engine::executor::{QueryExecutor, Statement};
use sql_engine::expressions::{BinaryOp, Expr, ScalarValue};
use sql_engine::results::{QueryError, QueryEvent, ResultSink};
use sql_engine::sql_types::{ColumnDefinition, SqlType};

fn num(n: i64) -> Expr {
    Expr::Value(ScalarValue::Number(n))
}

fn txt(s: &str) -> Expr {
    Expr::Value(ScalarValue::Text(s.to_owned()))
}

fn bin(op: BinaryOp, l: Expr, r: Expr) -> Expr {
    Expr::Binary(op, Box::new(l), Box::new(r))
}

fn executor_with_schema() -> (QueryExecutor, ResultSink) {
    let mut engine = QueryExecutor::new();
    let mut sink = ResultSink::new();
    engine
        .execute(
            Statement::CreateSchema { schema_name: "schema_name".to_owned() },
            &mut sink,
        )
        .expect("no system errors");
    (engine, sink)
}

fn create_table(engine: &mut QueryExecutor, sink: &mut ResultSink, columns: Vec<(&str, SqlType)>) {
    engine
        .execute(
            Statement::CreateTable {
                schema_name: "schema_name".to_owned(),
                table_name: "table_name".to_owned(),
                columns: columns
                    .into_iter()
                    .map(|(n, t)| ColumnDefinition::new(n, t))
                    .collect(),
            },
            sink,
        )
        .expect("no system errors");
}

fn insert(engine: &mut QueryExecutor, sink: &mut ResultSink, rows: Vec<Vec<ScalarValue>>) {
    engine
        .execute(
            Statement::Insert {
                schema_name: "schema_name".to_owned(),
                table_name: "table_name".to_owned(),
                rows,
            },
            sink,
        )
        .expect("no system errors");
}

fn update(engine: &mut QueryExecutor, sink: &mut ResultSink, assignments: Vec<(&str, Expr)>) {
    engine
        .execute(
            Statement::Update {
                schema_name: "schema_name".to_owned(),
                table_name: "table_name".to_owned(),
                assignments: assignments
                    .into_iter()
                    .map(|(n, e)| (n.to_owned(), e))
                    .collect(),
            },
            sink,
        )
        .expect("no system errors");
}

fn select(engine: &mut QueryExecutor, sink: &mut ResultSink) {
    engine
        .execute(
            Statement::Select {
                schema_name: "schema_name".to_owned(),
                table_name: "table_name".to_owned(),
            },
            sink,
        )
        .expect("no system errors");
}

fn selected(cols: Vec<(&str, SqlType)>, rows: Vec<Vec<&str>>) -> QueryEvent {
    QueryEvent::RecordsSelected(
        cols.into_iter().map(|(n, t)| (n.to_owned(), t)).collect(),
        rows.into_iter()
            .map(|r| r.into_iter().map(|v| v.to_owned()).collect())
            .collect(),
    )
}

#[test]
fn update_all_records() {
    let (mut engine, mut sink) = executor_with_schema();
    create_table(&mut engine, &mut sink, vec![("column_test", SqlType::SmallInt)]);
    insert(&mut engine, &mut sink, vec![vec![ScalarValue::Number(123)]]);
    insert(&mut engine, &mut sink, vec![vec![ScalarValue::Number(456)]]);
    select(&mut engine, &mut sink);
    update(&mut engine, &mut sink, vec![("column_test", num(789))]);
    select(&mut engine, &mut sink);

    assert_eq!(
        sink.events,
        vec![
            Ok(QueryEvent::SchemaCreated),
            Ok(QueryEvent::QueryComplete),
            Ok(QueryEvent::TableCreated),
            Ok(QueryEvent::QueryComplete),
            Ok(QueryEvent::RecordsInserted(1)),
            Ok(QueryEvent::QueryComplete),
            Ok(QueryEvent::RecordsInserted(1)),
            Ok(QueryEvent::QueryComplete),
            Ok(selected(
                vec![("column_test", SqlType::SmallInt)],
                vec![vec!["123"], vec!["456"]]
            )),
            Ok(QueryEvent::QueryComplete),
            Ok(QueryEvent::RecordsUpdated(2)),
            Ok(QueryEvent::QueryComplete),
            Ok(selected(
                vec![("column_test", SqlType::SmallInt)],
                vec![vec!["789"], vec!["789"]]
            )),
            Ok(QueryEvent::QueryComplete),
        ]
    );
}

#[test]
fn update_single_column_of_all_records() {
    let (mut engine, mut sink) = executor_with_schema();
    create_table(
        &mut engine,
        &mut sink,
        vec![("col1", SqlType::SmallInt), ("col2", SqlType::SmallInt)],
    );
    insert(
        &mut engine,
        &mut sink,
        vec![vec![ScalarValue::Number(123), ScalarValue::Number(789)]],
    );
    insert(
        &mut engine,
        &mut sink,
        vec![vec![ScalarValue::Number(456), ScalarValue::Number(789)]],
    );
    update(&mut engine, &mut sink, vec![("col2", num(357))]);
    select(&mut engine, &mut sink);

    assert_eq!(
        sink.events[8..],
        vec![
            Ok(QueryEvent::RecordsUpdated(2)),
            Ok(QueryEvent::QueryComplete),
            Ok(selected(
                vec![("col1", SqlType::SmallInt), ("col2", SqlType::SmallInt)],
                vec![vec!["123", "357"], vec!["456", "357"]]
            )),
            Ok(QueryEvent::QueryComplete),
        ]
    );
}

#[test]
fn update_multiple_columns_of_all_records() {
    let (mut engine, mut sink) = executor_with_schema();
    create_table(
        &mut engine,
        &mut sink,
        vec![
            ("col1", SqlType::SmallInt),
            ("col2", SqlType::SmallInt),
            ("col3", SqlType::SmallInt),
        ],
    );
    insert(
        &mut engine,
        &mut sink,
        vec![vec![
            ScalarValue::Number(111),
            ScalarValue::Number(222),
            ScalarValue::Number(333),
        ]],
    );
    insert(
        &mut engine,
        &mut sink,
        vec![vec![
            ScalarValue::Number(444),
            ScalarValue::Number(555),
            ScalarValue::Number(666),
        ]],
    );
    update(&mut engine, &mut sink, vec![("col3", num(777)), ("col1", num(999))]);
    select(&mut engine, &mut sink);

    assert_eq!(
        sink.events[8..],
        vec![
            Ok(QueryEvent::RecordsUpdated(2)),
            Ok(QueryEvent::QueryComplete),
            Ok(selected(
                vec![
                    ("col1", SqlType::SmallInt),
                    ("col2", SqlType::SmallInt),
                    ("col3", SqlType::SmallInt)
                ],
                vec![vec!["999", "222", "777"], vec!["999", "555", "777"]]
            )),
            Ok(QueryEvent::QueryComplete),
        ]
    );
}

#[test]
fn update_all_records_in_multiple_columns() {
    let (mut engine, mut sink) = executor_with_schema();
    create_table(
        &mut engine,
        &mut sink,
        vec![
            ("column_1", SqlType::SmallInt),
            ("column_2", SqlType::SmallInt),
            ("column_3", SqlType::SmallInt),
        ],
    );
    insert(
        &mut engine,
        &mut sink,
        vec![
            vec![ScalarValue::Number(1), ScalarValue::Number(2), ScalarValue::Number(3)],
            vec![ScalarValue::Number(4), ScalarValue::Number(5), ScalarValue::Number(6)],
            vec![ScalarValue::Number(7), ScalarValue::Number(8), ScalarValue::Number(9)],
        ],
    );
    update(
        &mut engine,
        &mut sink,
        vec![("column_1", num(10)), ("column_2", num(-20)), ("column_3", num(30))],
    );
    select(&mut engine, &mut sink);

    assert_eq!(
        sink.events[4..],
        vec![
            Ok(QueryEvent::RecordsInserted(3)),
            Ok(QueryEvent::QueryComplete),
            Ok(QueryEvent::RecordsUpdated(3)),
            Ok(QueryEvent::QueryComplete),
            Ok(selected(
                vec![
                    ("column_1", SqlType::SmallInt),
                    ("column_2", SqlType::SmallInt),
                    ("column_3", SqlType::SmallInt)
                ],
                vec![
                    vec!["10", "-20", "30"],
                    vec!["10", "-20", "30"],
                    vec!["10", "-20", "30"]
                ]
            )),
            Ok(QueryEvent::QueryComplete),
        ]
    );
}

#[test]
fn update_records_in_nonexistent_table() {
    let (mut engine, mut sink) = executor_with_schema();
    update(&mut engine, &mut sink, vec![("column_test", num(789))]);

    assert_eq!(
        sink.events,
        vec![
            Ok(QueryEvent::SchemaCreated),
            Ok(QueryEvent::QueryComplete),
            Err(QueryError::TableDoesNotExist("schema_name.table_name".to_owned())),
            Ok(QueryEvent::QueryComplete),
        ]
    );
}

#[test]
fn update_non_existent_columns_of_records() {
    let (mut engine, mut sink) = executor_with_schema();
    create_table(&mut engine, &mut sink, vec![("column_test", SqlType::SmallInt)]);
    insert(&mut engine, &mut sink, vec![vec![ScalarValue::Number(123)]]);
    update(&mut engine, &mut sink, vec![("col1", num(456)), ("col2", num(789))]);

    assert_eq!(
        sink.events[6..],
        vec![
            Err(QueryError::ColumnDoesNotExist(vec![
                "col1".to_owned(),
                "col2".to_owned()
            ])),
            Ok(QueryEvent::QueryComplete),
        ]
    );
}

#[test]
fn addition() {
    let (mut engine, mut sink) = executor_with_schema();
    create_table(&mut engine, &mut sink, vec![("column_si", SqlType::SmallInt)]);
    insert(&mut engine, &mut sink, vec![vec![ScalarValue::Number(2)]]);
    update(&mut engine, &mut sink, vec![("column_si", bin(BinaryOp::Plus, num(1), num(2)))]);
    select(&mut engine, &mut sink);

    assert_eq!(
        sink.events[6..],
        vec![
            Ok(QueryEvent::RecordsUpdated(1)),
            Ok(QueryEvent::QueryComplete),
            Ok(selected(vec![("column_si", SqlType::SmallInt)], vec![vec!["3"]])),
            Ok(QueryEvent::QueryComplete),
        ]
    );
}

#[test]
fn subtraction() {
    let (mut engine, mut sink) = executor_with_schema();
    create_table(&mut engine, &mut sink, vec![("column_si", SqlType::SmallInt)]);
    insert(&mut engine, &mut sink, vec![vec![ScalarValue::Number(2)]]);
    update(&mut engine, &mut sink, vec![("column_si", bin(BinaryOp::Minus, num(1), num(2)))]);
    select(&mut engine, &mut sink);

    assert_eq!(
        sink.events[6..],
        vec![
            Ok(QueryEvent::RecordsUpdated(1)),
            Ok(QueryEvent::QueryComplete),
            Ok(selected(vec![("column_si", SqlType::SmallInt)], vec![vec!["-1"]])),
            Ok(QueryEvent::QueryComplete),
        ]
    );
}

#[test]
fn multiplication() {
    let (mut engine, mut sink) = executor_with_schema();
    create_table(&mut engine, &mut sink, vec![("column_si", SqlType::SmallInt)]);
    insert(&mut engine, &mut sink, vec![vec![ScalarValue::Number(2)]]);
    update(
        &mut engine,
        &mut sink,
        vec![("column_si", bin(BinaryOp::Multiply, num(3), num(2)))],
    );
    select(&mut engine, &mut sink);

    assert_eq!(
        sink.events[6..],
        vec![
            Ok(QueryEvent::RecordsUpdated(1)),
            Ok(QueryEvent::QueryComplete),
            Ok(selected(vec![("column_si", SqlType::SmallInt)], vec![vec!["6"]])),
            Ok(QueryEvent::QueryComplete),
        ]
    );
}

#[test]
fn division() {
    let (mut engine, mut sink) = executor_with_schema();
    create_table(&mut engine, &mut sink, vec![("column_si", SqlType::SmallInt)]);
    insert(&mut engine, &mut sink, vec![vec![ScalarValue::Number(2)]]);
    update(&mut engine, &mut sink, vec![("column_si", bin(BinaryOp::Divide, num(8), num(2)))]);
    select(&mut engine, &mut sink);

    assert_eq!(
        sink.events[6..],
        vec![
            Ok(QueryEvent::RecordsUpdated(1)),
            Ok(QueryEvent::QueryComplete),
            Ok(selected(vec![("column_si", SqlType::SmallInt)], vec![vec!["4"]])),
            Ok(QueryEvent::QueryComplete),
        ]
    );
}

#[test]
fn modulo() {
    let (mut engine, mut sink) = executor_with_schema();
    create_table(&mut engine, &mut sink, vec![("column_si", SqlType::SmallInt)]);
    insert(&mut engine, &mut sink, vec![vec![ScalarValue::Number(2)]]);
    update(&mut engine, &mut sink, vec![("column_si", bin(BinaryOp::Modulus, num(8), num(2)))]);
    select(&mut engine, &mut sink);

    assert_eq!(
        sink.events[6..],
        vec![
            Ok(QueryEvent::RecordsUpdated(1)),
            Ok(QueryEvent::QueryComplete),
            Ok(selected(vec![("column_si", SqlType::SmallInt)], vec![vec!["0"]])),
            Ok(QueryEvent::QueryComplete),
        ]
    );
}

#[test]
fn bitwise_and() {
    let (mut engine, mut sink) = executor_with_schema();
    create_table(&mut engine, &mut sink, vec![("column_si", SqlType::SmallInt)]);
    insert(&mut engine, &mut sink, vec![vec![ScalarValue::Number(2)]]);
    update(
        &mut engine,
        &mut sink,
        vec![("column_si", bin(BinaryOp::BitwiseAnd, num(5), num(1)))],
    );
    select(&mut engine, &mut sink);

    assert_eq!(
        sink.events[6..],
        vec![
            Ok(QueryEvent::RecordsUpdated(1)),
            Ok(QueryEvent::QueryComplete),
            Ok(selected(vec![("column_si", SqlType::SmallInt)], vec![vec!["1"]])),
            Ok(QueryEvent::QueryComplete),
        ]
    );
}

#[test]
fn bitwise_or() {
    let (mut engine, mut sink) = executor_with_schema();
    create_table(&mut engine, &mut sink, vec![("column_si", SqlType::SmallInt)]);
    insert(&mut engine, &mut sink, vec![vec![ScalarValue::Number(2)]]);
    update(
        &mut engine,
        &mut sink,
        vec![("column_si", bin(BinaryOp::BitwiseOr, num(5), num(2)))],
    );
    select(&mut engine, &mut sink);

    assert_eq!(
        sink.events[6..],
        vec![
            Ok(QueryEvent::RecordsUpdated(1)),
            Ok(QueryEvent::QueryComplete),
            Ok(selected(vec![("column_si", SqlType::SmallInt)], vec![vec!["7"]])),
            Ok(QueryEvent::QueryComplete),
        ]
    );
}

#[test]
fn evaluate_many_operations() {
    // 5 & 13 % 10 + 1 * 20 - 40 / 4, under standard precedence
    // (multiplicative, then additive, then bitwise AND), evaluates to 5.
    let (mut engine, mut sink) = executor_with_schema();
    create_table(&mut engine, &mut sink, vec![("column_si", SqlType::SmallInt)]);
    insert(&mut engine, &mut sink, vec![vec![ScalarValue::Number(2)]]);
    let tree = bin(
        BinaryOp::BitwiseAnd,
        num(5),
        bin(
            BinaryOp::Minus,
            bin(
                BinaryOp::Plus,
                bin(BinaryOp::Modulus, num(13), num(10)),
                bin(BinaryOp::Multiply, num(1), num(20)),
            ),
            bin(BinaryOp::Divide, num(40), num(4)),
        ),
    );
    update(&mut engine, &mut sink, vec![("column_si", tree)]);
    select(&mut engine, &mut sink);

    assert_eq!(
        sink.events[6..],
        vec![
            Ok(QueryEvent::RecordsUpdated(1)),
            Ok(QueryEvent::QueryComplete),
            Ok(selected(vec![("column_si", SqlType::SmallInt)], vec![vec!["5"]])),
            Ok(QueryEvent::QueryComplete),
        ]
    );
}

#[test]
fn concatenation() {
    let (mut engine, mut sink) = executor_with_schema();
    create_table(&mut engine, &mut sink, vec![("strings", SqlType::Char(5))]);
    insert(&mut engine, &mut sink, vec![vec![ScalarValue::Text("x".to_owned())]]);
    update(
        &mut engine,
        &mut sink,
        vec![("strings", bin(BinaryOp::StringConcat, txt("123"), txt("45")))],
    );
    select(&mut engine, &mut sink);

    assert_eq!(
        sink.events[6..],
        vec![
            Ok(QueryEvent::RecordsUpdated(1)),
            Ok(QueryEvent::QueryComplete),
            Ok(selected(vec![("strings", SqlType::Char(5))], vec![vec!["12345"]])),
            Ok(QueryEvent::QueryComplete),
        ]
    );
}

#[test]
fn concatenation_with_number() {
    let (mut engine, mut sink) = executor_with_schema();
    create_table(&mut engine, &mut sink, vec![("strings", SqlType::Char(5))]);
    insert(&mut engine, &mut sink, vec![vec![ScalarValue::Text("x".to_owned())]]);
    update(
        &mut engine,
        &mut sink,
        vec![("strings", bin(BinaryOp::StringConcat, num(1), txt("45")))],
    );
    select(&mut engine, &mut sink);
    update(
        &mut engine,
        &mut sink,
        vec![("strings", bin(BinaryOp::StringConcat, txt("45"), num(1)))],
    );
    select(&mut engine, &mut sink);

    assert_eq!(
        sink.events[6..],
        vec![
            Ok(QueryEvent::RecordsUpdated(1)),
            Ok(QueryEvent::QueryComplete),
            Ok(selected(vec![("strings", SqlType::Char(5))], vec![vec!["145"]])),
            Ok(QueryEvent::QueryComplete),
            Ok(QueryEvent::RecordsUpdated(1)),
            Ok(QueryEvent::QueryComplete),
            Ok(selected(vec![("strings", SqlType::Char(5))], vec![vec!["451"]])),
            Ok(QueryEvent::QueryComplete),
        ]
    );
}

#[test]
fn non_string_concatenation_not_supported() {
    let (mut engine, mut sink) = executor_with_schema();
    create_table(&mut engine, &mut sink, vec![("strings", SqlType::Char(5))]);
    insert(&mut engine, &mut sink, vec![vec![ScalarValue::Text("x".to_owned())]]);
    update(
        &mut engine,
        &mut sink,
        vec![("column_si", bin(BinaryOp::StringConcat, num(1), num(2)))],
    );

    assert_eq!(
        sink.events[6..],
        vec![
            Err(QueryError::UndefinedFunction(
                "||".to_owned(),
                "NUMBER".to_owned(),
                "NUMBER".to_owned()
            )),
            Ok(QueryEvent::QueryComplete),
        ]
    );
}
