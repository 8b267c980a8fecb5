use sql_engine::executor::{QueryExecutor, Statement};
use sql_engine::expressions::{eval, BinaryOp, EvalError, Expr, ScalarValue};
use sql_engine::results::{QueryError, QueryEvent, ResultSink};
use sql_engine::sql_types::{validate, ColumnDefinition, ConstraintError, SqlType};
use sql_engine::text::{format_i64, parse_i64, str_eq, IntParse};

fn num(n: i64) -> Expr {
    Expr::Value(ScalarValue::Number(n))
}

fn txt(s: &str) -> Expr {
    Expr::Value(ScalarValue::Text(s.to_owned()))
}

fn bin(op: BinaryOp, l: Expr, r: Expr) -> Expr {
    Expr::Binary(op, Box::new(l), Box::new(r))
}

#[test]
fn arithmetic_formulas_evaluate_exactly() {
    assert_eq!(eval(&bin(BinaryOp::Plus, num(1), num(2))), Ok(ScalarValue::Number(3)));
    assert_eq!(eval(&bin(BinaryOp::Minus, num(1), num(2))), Ok(ScalarValue::Number(-1)));
    assert_eq!(eval(&bin(BinaryOp::Multiply, num(3), num(2))), Ok(ScalarValue::Number(6)));
    assert_eq!(eval(&bin(BinaryOp::Divide, num(8), num(2))), Ok(ScalarValue::Number(4)));
    assert_eq!(eval(&bin(BinaryOp::Modulus, num(8), num(2))), Ok(ScalarValue::Number(0)));
    assert_eq!(eval(&bin(BinaryOp::BitwiseAnd, num(5), num(1))), Ok(ScalarValue::Number(1)));
    assert_eq!(eval(&bin(BinaryOp::BitwiseOr, num(5), num(2))), Ok(ScalarValue::Number(7)));
}

#[test]
fn precedence_regression_formula_evaluates_to_five() {
    let tree = bin(
        BinaryOp::BitwiseAnd,
        num(5),
        bin(
            BinaryOp::Minus,
            bin(
                BinaryOp::Plus,
                bin(BinaryOp::Modulus, num(13), num(10)),
                bin(BinaryOp::Multiply, num(1), num(20)),
            ),
            bin(BinaryOp::Divide, num(40), num(4)),
        ),
    );
    assert_eq!(eval(&tree), Ok(ScalarValue::Number(5)));
}

#[test]
fn concatenation_of_strings_and_numbers() {
    assert_eq!(
        eval(&bin(BinaryOp::StringConcat, txt("123"), txt("45"))),
        Ok(ScalarValue::Text("12345".to_owned()))
    );
    assert_eq!(
        eval(&bin(BinaryOp::StringConcat, num(1), txt("45"))),
        Ok(ScalarValue::Text("145".to_owned()))
    );
    assert_eq!(
        eval(&bin(BinaryOp::StringConcat, txt("45"), num(1))),
        Ok(ScalarValue::Text("451".to_owned()))
    );
    assert_eq!(
        eval(&bin(BinaryOp::StringConcat, num(1), num(2))),
        Err(EvalError::UndefinedFunction(
            "||".to_owned(),
            "NUMBER".to_owned(),
            "NUMBER".to_owned()
        ))
    );
}

#[test]
fn arithmetic_on_strings_is_undefined() {
    assert_eq!(
        eval(&bin(BinaryOp::Plus, txt("1"), num(2))),
        Err(EvalError::UndefinedFunction(
            "+".to_owned(),
            "STRING".to_owned(),
            "NUMBER".to_owned()
        ))
    );
}

#[test]
fn division_by_zero_is_an_error() {
    assert_eq!(eval(&bin(BinaryOp::Divide, num(8), num(0))), Err(EvalError::DivisionByZero));
    assert_eq!(eval(&bin(BinaryOp::Modulus, num(8), num(0))), Err(EvalError::DivisionByZero));
}

#[test]
fn arithmetic_overflow_is_an_error() {
    assert_eq!(
        eval(&bin(BinaryOp::Plus, num(i64::MAX), num(1))),
        Err(EvalError::NumericValueOutOfRange)
    );
    assert_eq!(
        eval(&bin(BinaryOp::Multiply, num(i64::MAX), num(2))),
        Err(EvalError::NumericValueOutOfRange)
    );
}

#[test]
fn shifts_are_unsupported_operators() {
    assert_eq!(
        eval(&bin(BinaryOp::ShiftLeft, num(1), num(4))),
        Err(EvalError::UnsupportedOperator("<<".to_owned()))
    );
    assert_eq!(
        eval(&bin(BinaryOp::ShiftRight, num(8), num(2))),
        Err(EvalError::UnsupportedOperator(">>".to_owned()))
    );
}

#[test]
fn left_operand_error_wins() {
    assert_eq!(
        eval(&bin(
            BinaryOp::Plus,
            bin(BinaryOp::Divide, num(1), num(0)),
            bin(BinaryOp::ShiftLeft, num(1), num(1)),
        )),
        Err(EvalError::DivisionByZero)
    );
}

#[test]
fn parse_classifies_decimal_strings() {
    assert_eq!(parse_i64("123"), IntParse::Value(123));
    assert_eq!(parse_i64("-32769"), IntParse::Value(-32769));
    assert_eq!(parse_i64("+7"), IntParse::Value(7));
    assert_eq!(parse_i64("007"), IntParse::Value(7));
    assert_eq!(parse_i64(""), IntParse::NotNumeric);
    assert_eq!(parse_i64("-"), IntParse::NotNumeric);
    assert_eq!(parse_i64("12a"), IntParse::NotNumeric);
    assert_eq!(parse_i64("9223372036854775807"), IntParse::Value(i64::MAX));
    assert_eq!(parse_i64("-9223372036854775808"), IntParse::Value(i64::MIN));
    assert_eq!(parse_i64("9223372036854775808"), IntParse::OutOfBounds);
    assert_eq!(parse_i64("99999999999999999999999999"), IntParse::OutOfBounds);
}

#[test]
fn format_renders_decimal() {
    assert!(str_eq(format_i64(0).as_str(), "0"));
    assert!(str_eq(format_i64(-1).as_str(), "-1"));
    assert!(str_eq(format_i64(1234567).as_str(), "1234567"));
    assert!(str_eq(format_i64(i64::MIN).as_str(), "-9223372036854775808"));
    assert!(str_eq(format_i64(i64::MAX).as_str(), "9223372036854775807"));
}

#[test]
fn validate_enforces_ranges_and_lengths() {
    assert!(validate("32767", SqlType::SmallInt).is_ok());
    assert_eq!(validate("32768", SqlType::SmallInt), Err(ConstraintError::OutOfRange));
    assert_eq!(validate("-32769", SqlType::SmallInt), Err(ConstraintError::OutOfRange));
    assert_eq!(
        validate("abc", SqlType::Integer),
        Err(ConstraintError::TypeMismatch("abc".to_owned()))
    );
    assert!(validate("-2147483648", SqlType::Integer).is_ok());
    assert_eq!(validate("-2147483649", SqlType::Integer), Err(ConstraintError::OutOfRange));
    assert!(validate("9223372036854775807", SqlType::BigInt).is_ok());
    assert_eq!(
        validate("9223372036854775808", SqlType::BigInt),
        Err(ConstraintError::OutOfRange)
    );
    assert!(validate("abcde", SqlType::Char(5)).is_ok());
    assert_eq!(validate("abcdef", SqlType::Char(5)), Err(ConstraintError::ValueTooLong(5)));
    assert_eq!(
        validate("12345678901", SqlType::VarChar(10)),
        Err(ConstraintError::ValueTooLong(10))
    );
}

#[test]
fn drop_nonexistent_schema_reports_error() {
    let mut engine = QueryExecutor::new();
    let mut sink = ResultSink::new();
    engine
        .execute(
            Statement::DropSchema { schema_name: "missing".to_owned(), cascade: false },
            &mut sink,
        )
        .expect("no system errors");

    assert_eq!(
        sink.events,
        vec![
            Err(QueryError::SchemaDoesNotExist("missing".to_owned())),
            Ok(QueryEvent::QueryComplete),
        ]
    );
}

#[test]
fn drop_schema_with_tables_requires_cascade() {
    let mut engine = QueryExecutor::new();
    let mut sink = ResultSink::new();
    engine
        .execute(Statement::CreateSchema { schema_name: "schema_name".to_owned() }, &mut sink)
        .expect("no system errors");
    engine
        .execute(
            Statement::CreateTable {
                schema_name: "schema_name".to_owned(),
                table_name: "table_name".to_owned(),
                columns: vec![ColumnDefinition::new("a", SqlType::SmallInt)],
            },
            &mut sink,
        )
        .expect("no system errors");
    engine
        .execute(
            Statement::DropSchema { schema_name: "schema_name".to_owned(), cascade: false },
            &mut sink,
        )
        .expect("no system errors");
    // refused under Restrict: the schema is still queryable
    engine
        .execute(
            Statement::Select {
                schema_name: "schema_name".to_owned(),
                table_name: "table_name".to_owned(),
            },
            &mut sink,
        )
        .expect("no system errors");
    engine
        .execute(
            Statement::DropSchema { schema_name: "schema_name".to_owned(), cascade: true },
            &mut sink,
        )
        .expect("no system errors");
    // removed under Cascade, together with its tables
    engine
        .execute(
            Statement::Select {
                schema_name: "schema_name".to_owned(),
                table_name: "table_name".to_owned(),
            },
            &mut sink,
        )
        .expect("no system errors");

    assert_eq!(
        sink.events[4..],
        vec![
            Err(QueryError::SchemaHasDependentObjects("schema_name".to_owned())),
            Ok(QueryEvent::QueryComplete),
            Ok(QueryEvent::RecordsSelected(
                vec![("a".to_owned(), SqlType::SmallInt)],
                vec![]
            )),
            Ok(QueryEvent::QueryComplete),
            Ok(QueryEvent::SchemaDropped),
            Ok(QueryEvent::QueryComplete),
            Err(QueryError::SchemaDoesNotExist("schema_name".to_owned())),
            Ok(QueryEvent::QueryComplete),
        ]
    );
}

#[test]
fn failed_update_leaves_prior_values_visible() {
    let mut engine = QueryExecutor::new();
    let mut sink = ResultSink::new();
    engine
        .execute(Statement::CreateSchema { schema_name: "schema_name".to_owned() }, &mut sink)
        .expect("no system errors");
    engine
        .execute(
            Statement::CreateTable {
                schema_name: "schema_name".to_owned(),
                table_name: "table_name".to_owned(),
                columns: vec![ColumnDefinition::new("column_si", SqlType::SmallInt)],
            },
            &mut sink,
        )
        .expect("no system errors");
    engine
        .execute(
            Statement::Insert {
                schema_name: "schema_name".to_owned(),
                table_name: "table_name".to_owned(),
                rows: vec![vec![ScalarValue::Number(42)]],
            },
            &mut sink,
        )
        .expect("no system errors");
    // out of range for a smallint: the whole statement is rejected
    engine
        .execute(
            Statement::Update {
                schema_name: "schema_name".to_owned(),
                table_name: "table_name".to_owned(),
                assignments: vec![("column_si".to_owned(), num(32768))],
            },
            &mut sink,
        )
        .expect("no system errors");
    engine
        .execute(
            Statement::Select {
                schema_name: "schema_name".to_owned(),
                table_name: "table_name".to_owned(),
            },
            &mut sink,
        )
        .expect("no system errors");

    assert_eq!(
        sink.events[6..],
        vec![
            Err(QueryError::ConstraintViolations(vec![(
                ConstraintError::OutOfRange,
                ColumnDefinition::new("column_si", SqlType::SmallInt)
            )])),
            Ok(QueryEvent::QueryComplete),
            Ok(QueryEvent::RecordsSelected(
                vec![("column_si".to_owned(), SqlType::SmallInt)],
                vec![vec!["42".to_owned()]]
            )),
            Ok(QueryEvent::QueryComplete),
        ]
    );
}

#[test]
fn delete_reports_removed_row_count() {
    let mut engine = QueryExecutor::new();
    let mut sink = ResultSink::new();
    engine
        .execute(Statement::CreateSchema { schema_name: "schema_name".to_owned() }, &mut sink)
        .expect("no system errors");
    engine
        .execute(
            Statement::CreateTable {
                schema_name: "schema_name".to_owned(),
                table_name: "table_name".to_owned(),
                columns: vec![ColumnDefinition::new("a", SqlType::SmallInt)],
            },
            &mut sink,
        )
        .expect("no system errors");
    engine
        .execute(
            Statement::Insert {
                schema_name: "schema_name".to_owned(),
                table_name: "table_name".to_owned(),
                rows: vec![vec![ScalarValue::Number(1)], vec![ScalarValue::Number(2)]],
            },
            &mut sink,
        )
        .expect("no system errors");
    engine
        .execute(
            Statement::Delete {
                schema_name: "schema_name".to_owned(),
                table_name: "table_name".to_owned(),
            },
            &mut sink,
        )
        .expect("no system errors");

    assert_eq!(
        sink.events[6..],
        vec![Ok(QueryEvent::RecordsDeleted(2)), Ok(QueryEvent::QueryComplete),]
    );
}

#[test]
fn create_existing_schema_reports_error() {
    let mut engine = QueryExecutor::new();
    let mut sink = ResultSink::new();
    engine
        .execute(Statement::CreateSchema { schema_name: "schema_name".to_owned() }, &mut sink)
        .expect("no system errors");
    engine
        .execute(Statement::CreateSchema { schema_name: "schema_name".to_owned() }, &mut sink)
        .expect("no system errors");

    assert_eq!(
        sink.events[2..],
        vec![
            Err(QueryError::SchemaAlreadyExists("schema_name".to_owned())),
            Ok(QueryEvent::QueryComplete),
        ]
    );
}
