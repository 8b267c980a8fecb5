//! Record manipulation commands: INSERT, UPDATE, SELECT, DELETE.
//!
//! Each command wraps one parsed statement, evaluates its value expressions,
//! delegates to the storage manager, and delivers exactly one event or domain
//! error to the result sink.  The `*_outcome` functions are the commands'
//! full specifications.

use vstd::prelude::*;

use crate::expressions::{eval, eval_spec, scalar_text, scalar_to_text, EvalError, EvalErrorView, Expr, ScalarValue};
use crate::sql_types::SqlType;
use crate::results::{
    full_table_name, qualified_name, ErrorView, EventView, QueryError, QueryEvent, ResultSink,
};
use crate::storage::{
    assignment_names, catalog_wf, find_name, insert_violations, schema_names, table_names,
    unresolved_columns, update_violations, updated_records, with_table_records, DataManager,
    OperationOnTableError, SchemaView, SystemError,
};

verus! {

/// An evaluation failure, as the client sees it.
pub open spec fn eval_error_as_query_error(e: EvalErrorView) -> ErrorView {
    match e {
        EvalErrorView::UndefinedFunction(op, l, r) => ErrorView::UndefinedFunction(op, l, r),
        EvalErrorView::UnsupportedOperator(op) => ErrorView::UnsupportedOperator(op),
        EvalErrorView::NumericValueOutOfRange => ErrorView::NumericValueOutOfRange,
        EvalErrorView::DivisionByZero => ErrorView::DivisionByZero,
    }
}

fn eval_error_to_query_error(e: EvalError) -> (q: QueryError)
    ensures
        q@ == eval_error_as_query_error(e@),
{
    match e {
        EvalError::UndefinedFunction(op, l, r) => QueryError::UndefinedFunction(op, l, r),
        EvalError::UnsupportedOperator(op) => QueryError::UnsupportedOperator(op),
        EvalError::NumericValueOutOfRange => QueryError::NumericValueOutOfRange,
        EvalError::DivisionByZero => QueryError::DivisionByZero,
    }
}

/// What evaluating an assignment list yields: the (column name, stored text)
/// pairs in statement order, or the first expression's evaluation error.
pub open spec fn assignments_values(asg: Seq<(String, Expr)>) -> Result<
    Seq<(Seq<char>, Seq<char>)>,
    EvalErrorView,
>
    decreases asg.len(),
{
    if asg.len() == 0 {
        Ok(Seq::empty())
    } else {
        match assignments_values(asg.drop_last()) {
            Err(e) => Err(e),
            Ok(prev) => match eval_spec(asg.last().1) {
                Err(e) => Err(e),
                Ok(v) => Ok(prev.push((asg.last().0@, scalar_text(v)))),
            },
        }
    }
}

/// Once one assignment's expression fails, every longer prefix fails with
/// that same (first) error.
proof fn lemma_assignments_values_err(asg: Seq<(String, Expr)>, k: int, m: int, e: EvalErrorView)
    requires
        0 <= k < m <= asg.len(),
        assignments_values(asg.take(k)) is Ok,
        eval_spec(asg[k].1) == Err::<crate::expressions::ScalarView, EvalErrorView>(e),
    ensures
        assignments_values(asg.take(m)) == Err::<Seq<(Seq<char>, Seq<char>)>, EvalErrorView>(e),
    decreases m,
{
    assert(asg.take(m).drop_last() =~= asg.take(m - 1));
    assert(asg.take(m).last() == asg[m - 1]);
    if m - 1 == k {
        assert(assignments_values(asg.take(m - 1)) is Ok);
    } else {
        lemma_assignments_values_err(asg, k, m - 1, e);
    }
}

/// What a full-table UPDATE does: the catalog afterwards and the item
/// delivered.  Expressions are evaluated first (the first failure is the
/// statement's error); then the target is resolved; then all assignment
/// names; then, if the table has records, every assigned value is validated;
/// only a statement with no failure of any kind mutates the records, and it
/// updates every one of them.
pub open spec fn update_outcome(
    ss: Seq<SchemaView>,
    schema_name: Seq<char>,
    table_name: Seq<char>,
    asg: Seq<(String, Expr)>,
) -> (Seq<SchemaView>, Result<EventView, ErrorView>) {
    match assignments_values(asg) {
        Err(e) => (ss, Err(eval_error_as_query_error(e))),
        Ok(pairs) => {
            let si = find_name(schema_names(ss), schema_name);
            if si < 0 {
                (ss, Err(ErrorView::SchemaDoesNotExist(schema_name)))
            } else {
                let ti = find_name(table_names(ss[si].tables), table_name);
                if ti < 0 {
                    (ss, Err(ErrorView::TableDoesNotExist(qualified_name(schema_name, table_name))))
                } else {
                    let t = ss[si].tables[ti];
                    let unres = unresolved_columns(t.columns, assignment_names(pairs));
                    if unres.len() > 0 {
                        (ss, Err(ErrorView::ColumnDoesNotExist(unres)))
                    } else if t.records.len() > 0 && update_violations(t.columns, pairs).len()
                        > 0 {
                        (ss, Err(ErrorView::ConstraintViolations(update_violations(t.columns, pairs))))
                    } else {
                        (
                            with_table_records(ss, si, ti, updated_records(t, pairs)),
                            Ok(EventView::RecordsUpdated(t.records.len() as int)),
                        )
                    }
                }
            }
        },
    }
}

/// Applies the same evaluated assignment values to every record of a table.
pub struct UpdateCommand {
    pub schema_name: String,
    pub table_name: String,
    pub assignments: Vec<(String, Expr)>,
}

impl UpdateCommand {
    pub fn new(schema_name: String, table_name: String, assignments: Vec<(String, Expr)>) -> (c:
        UpdateCommand)
        ensures
            c.schema_name == schema_name,
            c.table_name == table_name,
            c.assignments == assignments,
    {
        UpdateCommand { schema_name, table_name, assignments }
    }

    #[verifier::loop_isolation(false)]
    pub fn execute(&self, storage: &mut DataManager, sender: &mut ResultSink) -> (r: Result<
        (),
        SystemError,
    >)
        requires
            catalog_wf(old(storage)@),
        ensures
            r is Ok,
            catalog_wf(final(storage)@),
            final(storage)@ == update_outcome(
                old(storage)@,
                self.schema_name@,
                self.table_name@,
                self.assignments@,
            ).0,
            final(sender)@ == old(sender)@.push(
                update_outcome(
                    old(storage)@,
                    self.schema_name@,
                    self.table_name@,
                    self.assignments@,
                ).1,
            ),
    {
        let ghost asg = self.assignments@;
        let mut pairs: Vec<(String, String)> = Vec::new();
        proof {
            assert(asg.take(0) =~= Seq::<(String, Expr)>::empty());
            assert(pairs.deep_view() =~= Seq::<(Seq<char>, Seq<char>)>::empty());
        }
        let mut k: usize = 0;
        while k < self.assignments.len()
            invariant
                0 <= k <= self.assignments.len(),
                sender@ == old(sender)@,
                assignments_values(asg.take(k as int)) == Ok::<
                    Seq<(Seq<char>, Seq<char>)>,
                    EvalErrorView,
                >(pairs.deep_view()),
            decreases self.assignments.len() - k,
        {
            proof {
                assert(asg.take(k + 1).drop_last() =~= asg.take(k as int));
                assert(asg.take(k + 1).last() == asg[k as int]);
            }
            let entry = &self.assignments[k];
            match eval(&entry.1) {
                Err(e) => {
                    proof {
                        lemma_assignments_values_err(asg, k as int, asg.len() as int, e@);
                        assert(asg.take(asg.len() as int) =~= asg);
                    }
                    sender.send(Err(eval_error_to_query_error(e)));
                    return Ok(());
                },
                Ok(v) => {
                    let text = scalar_to_text(&v);
                    pairs.push((entry.0.clone(), text));
                    proof {
                        assert(pairs.deep_view() =~= assignments_values(
                            asg.take(k as int),
                        )->Ok_0.push((asg[k as int].0@, scalar_text(v@))));
                    }
                },
            }
            k = k + 1;
        }
        proof {
            assert(asg.take(asg.len() as int) =~= asg);
        }
        let ghost pairsv = pairs.deep_view();
        match storage.update_all(self.schema_name.as_str(), self.table_name.as_str(), pairs) {
            Err(error) => Err(error),
            Ok(Ok(n)) => {
                sender.send(Ok(QueryEvent::RecordsUpdated(n)));
                Ok(())
            },
            Ok(Err(OperationOnTableError::SchemaDoesNotExist)) => {
                sender.send(Err(QueryError::SchemaDoesNotExist(self.schema_name.clone())));
                Ok(())
            },
            Ok(Err(OperationOnTableError::TableDoesNotExist)) => {
                let full = full_table_name(self.schema_name.as_str(), self.table_name.as_str());
                sender.send(Err(QueryError::TableDoesNotExist(full)));
                Ok(())
            },
            Ok(Err(OperationOnTableError::ColumnDoesNotExist(names))) => {
                sender.send(Err(QueryError::ColumnDoesNotExist(names)));
                Ok(())
            },
            Ok(Err(OperationOnTableError::ConstraintViolations(vs))) => {
                sender.send(Err(QueryError::ConstraintViolations(vs)));
                Ok(())
            },
            Ok(Err(OperationOnTableError::ArityMismatch)) => {
                // update_all never reports an arity mismatch
                Ok(())
            },
        }
    }
}

/// The texts one row of literal values is stored as.
pub open spec fn row_texts(row: Seq<ScalarValue>) -> Seq<Seq<char>> {
    row.map_values(|v: ScalarValue| scalar_text(v@))
}

/// The texts a whole list of rows is stored as.
pub open spec fn rows_texts(rows: Seq<Vec<ScalarValue>>) -> Seq<Seq<Seq<char>>> {
    rows.map_values(|r: Vec<ScalarValue>| row_texts(r@))
}

/// What an INSERT does: the catalog afterwards and the item delivered.
pub open spec fn insert_outcome(
    ss: Seq<SchemaView>,
    schema_name: Seq<char>,
    table_name: Seq<char>,
    rows: Seq<Vec<ScalarValue>>,
) -> (Seq<SchemaView>, Result<EventView, ErrorView>) {
    let si = find_name(schema_names(ss), schema_name);
    if si < 0 {
        (ss, Err(ErrorView::SchemaDoesNotExist(schema_name)))
    } else {
        let ti = find_name(table_names(ss[si].tables), table_name);
        if ti < 0 {
            (ss, Err(ErrorView::TableDoesNotExist(qualified_name(schema_name, table_name))))
        } else {
            let t = ss[si].tables[ti];
            let texts = rows_texts(rows);
            if !(forall|k: int| 0 <= k < texts.len() ==> (#[trigger] texts[k]).len()
                == t.columns.len()) {
                (ss, Err(ErrorView::ArityMismatch(qualified_name(schema_name, table_name))))
            } else if insert_violations(t.columns, texts).len() > 0 {
                (ss, Err(ErrorView::ConstraintViolations(insert_violations(t.columns, texts))))
            } else {
                (
                    with_table_records(ss, si, ti, t.records + texts),
                    Ok(EventView::RecordsInserted(rows.len() as int)),
                )
            }
        }
    }
}

/// Validates and appends rows of literal values to a table.
pub struct InsertCommand {
    pub schema_name: String,
    pub table_name: String,
    pub rows: Vec<Vec<ScalarValue>>,
}

impl InsertCommand {
    pub fn new(schema_name: String, table_name: String, rows: Vec<Vec<ScalarValue>>) -> (c:
        InsertCommand)
        ensures
            c.schema_name == schema_name,
            c.table_name == table_name,
            c.rows == rows,
    {
        InsertCommand { schema_name, table_name, rows }
    }

    #[verifier::loop_isolation(false)]
    pub fn execute(&self, storage: &mut DataManager, sender: &mut ResultSink) -> (r: Result<
        (),
        SystemError,
    >)
        requires
            catalog_wf(old(storage)@),
        ensures
            r is Ok,
            catalog_wf(final(storage)@),
            final(storage)@ == insert_outcome(
                old(storage)@,
                self.schema_name@,
                self.table_name@,
                self.rows@,
            ).0,
            final(sender)@ == old(sender)@.push(
                insert_outcome(old(storage)@, self.schema_name@, self.table_name@, self.rows@).1,
            ),
    {
        let ghost rowsv = self.rows@;
        let mut text_rows: Vec<Vec<String>> = Vec::new();
        proof {
            assert(text_rows.deep_view() =~= rows_texts(rowsv.take(0)));
        }
        let mut ri: usize = 0;
        while ri < self.rows.len()
            invariant
                0 <= ri <= self.rows.len(),
                text_rows.deep_view() == rows_texts(rowsv.take(ri as int)),
            decreases self.rows.len() - ri,
        {
            let source = &self.rows[ri];
            let mut row: Vec<String> = Vec::new();
            proof {
                assert(row.deep_view() =~= row_texts(source@.take(0)));
            }
            let mut j: usize = 0;
            while j < source.len()
                invariant
                    0 <= j <= source.len(),
                    ri < self.rows.len(),
                    source == &self.rows@[ri as int],
                    row.deep_view() == row_texts(source@.take(j as int)),
                decreases source.len() - j,
            {
                row.push(scalar_to_text(&source[j]));
                proof {
                    let target = row_texts(source@.take(j + 1));
                    assert forall|m: int| 0 <= m < target.len() implies row.deep_view()[m]
                        == target[m] by {
                        assert(source@.take(j + 1)[m] == source@[m]);
                        if m < j {
                            assert(row.deep_view()[m] == row_texts(source@.take(j as int))[m]);
                            assert(source@.take(j as int)[m] == source@[m]);
                        }
                    }
                    assert(row.deep_view() =~= target);
                }
                j = j + 1;
            }
            proof {
                assert(source@.take(source@.len() as int) =~= source@);
            }
            text_rows.push(row);
            proof {
                let target = rows_texts(rowsv.take(ri + 1));
                assert forall|m: int| 0 <= m < target.len() implies text_rows.deep_view()[m]
                    == target[m] by {
                    assert(target[m] == row_texts(rowsv.take(ri + 1)[m]@));
                    assert(rowsv.take(ri + 1)[m] == rowsv[m]);
                    if m < ri {
                        assert(text_rows.deep_view()[m] == rows_texts(rowsv.take(ri as int))[m]);
                        assert(rowsv.take(ri as int)[m] == rowsv[m]);
                    }
                }
                assert(text_rows.deep_view() =~= target);
            }
            ri = ri + 1;
        }
        proof {
            assert(rowsv.take(rowsv.len() as int) =~= rowsv);
        }
        match storage.insert_into(self.schema_name.as_str(), self.table_name.as_str(), text_rows) {
            Err(error) => Err(error),
            Ok(Ok(n)) => {
                sender.send(Ok(QueryEvent::RecordsInserted(n)));
                Ok(())
            },
            Ok(Err(OperationOnTableError::SchemaDoesNotExist)) => {
                sender.send(Err(QueryError::SchemaDoesNotExist(self.schema_name.clone())));
                Ok(())
            },
            Ok(Err(OperationOnTableError::TableDoesNotExist)) => {
                let full = full_table_name(self.schema_name.as_str(), self.table_name.as_str());
                sender.send(Err(QueryError::TableDoesNotExist(full)));
                Ok(())
            },
            Ok(Err(OperationOnTableError::ArityMismatch)) => {
                let full = full_table_name(self.schema_name.as_str(), self.table_name.as_str());
                sender.send(Err(QueryError::ArityMismatch(full)));
                Ok(())
            },
            Ok(Err(OperationOnTableError::ConstraintViolations(vs))) => {
                sender.send(Err(QueryError::ConstraintViolations(vs)));
                Ok(())
            },
            Ok(Err(OperationOnTableError::ColumnDoesNotExist(_))) => {
                // insert_into resolves no column names
                Ok(())
            },
        }
    }
}

/// The column name and declared type pairs a SELECT reports.
pub open spec fn column_pairs(cols: Seq<crate::sql_types::ColumnView>) -> Seq<(Seq<char>, crate::sql_types::SqlType)> {
    cols.map_values(|c: crate::sql_types::ColumnView| (c.name, c.ty))
}

/// What a SELECT of every column delivers: the table's columns (name and
/// type, in ordinal order) and a snapshot of its records in insertion order.
/// A SELECT never mutates the catalog.
pub open spec fn select_outcome(
    ss: Seq<SchemaView>,
    schema_name: Seq<char>,
    table_name: Seq<char>,
) -> Result<EventView, ErrorView> {
    let si = find_name(schema_names(ss), schema_name);
    if si < 0 {
        Err(ErrorView::SchemaDoesNotExist(schema_name))
    } else {
        let ti = find_name(table_names(ss[si].tables), table_name);
        if ti < 0 {
            Err(ErrorView::TableDoesNotExist(qualified_name(schema_name, table_name)))
        } else {
            let t = ss[si].tables[ti];
            Ok(
                EventView::RecordsSelected(
                    column_pairs(t.columns),
                    t.records.map_values(
                        |rec: Seq<Seq<char>>| crate::storage::project_record(
                            rec,
                            t.columns,
                            crate::storage::column_names(t.columns),
                        ),
                    ),
                ),
            )
        }
    }
}

/// Every name drawn from the column list itself resolves, so nothing is
/// unresolved.
proof fn lemma_own_columns_resolve(cols: Seq<crate::sql_types::ColumnView>, names: Seq<Seq<char>>)
    requires
        forall|j: int| 0 <= j < names.len() ==> find_name(
            crate::storage::column_names(cols),
            #[trigger] names[j],
        ) >= 0,
    ensures
        unresolved_columns(cols, names).len() == 0,
    decreases names.len(),
{
    if names.len() > 0 {
        assert forall|j: int| 0 <= j < names.drop_last().len() implies find_name(
            crate::storage::column_names(cols),
            #[trigger] names.drop_last()[j],
        ) >= 0 by {
            assert(names.drop_last()[j] == names[j]);
        }
        lemma_own_columns_resolve(cols, names.drop_last());
        assert(names.last() == names[names.len() - 1]);
    }
}

/// Reports a full snapshot of a table.
pub struct SelectCommand {
    pub schema_name: String,
    pub table_name: String,
}

impl SelectCommand {
    pub fn new(schema_name: String, table_name: String) -> (c: SelectCommand)
        ensures
            c.schema_name == schema_name,
            c.table_name == table_name,
    {
        SelectCommand { schema_name, table_name }
    }

    #[verifier::loop_isolation(false)]
    pub fn execute(&self, storage: &mut DataManager, sender: &mut ResultSink) -> (r: Result<
        (),
        SystemError,
    >)
        requires
            catalog_wf(old(storage)@),
        ensures
            r is Ok,
            catalog_wf(final(storage)@),
            final(storage)@ == old(storage)@,
            final(sender)@ == old(sender)@.push(
                select_outcome(old(storage)@, self.schema_name@, self.table_name@),
            ),
    {
        let cols = match storage.table_columns(self.schema_name.as_str(), self.table_name.as_str())
        {
            Err(OperationOnTableError::SchemaDoesNotExist) => {
                sender.send(Err(QueryError::SchemaDoesNotExist(self.schema_name.clone())));
                return Ok(());
            },
            Err(OperationOnTableError::TableDoesNotExist) => {
                let full = full_table_name(self.schema_name.as_str(), self.table_name.as_str());
                sender.send(Err(QueryError::TableDoesNotExist(full)));
                return Ok(());
            },
            Err(_) => {
                // table_columns reports no other error
                return Ok(());
            },
            Ok(cols) => cols,
        };
        let ghost si = find_name(schema_names(old(storage)@), self.schema_name@);
        let ghost ti = find_name(table_names(old(storage)@[si].tables), self.table_name@);
        let ghost t = old(storage)@[si].tables[ti];
        proof {
            assert(cols.deep_view() == t.columns);
        }
        let mut names: Vec<String> = Vec::new();
        proof {
            assert(names.deep_view() =~= crate::storage::column_names(t.columns).take(0));
        }
        let mut i: usize = 0;
        while i < cols.len()
            invariant
                0 <= i <= cols.len(),
                names.deep_view() == crate::storage::column_names(t.columns).take(i as int),
            decreases cols.len() - i,
        {
            names.push(cols[i].name());
            proof {
                let target = crate::storage::column_names(t.columns).take(i + 1);
                assert forall|m: int| 0 <= m < target.len() implies names.deep_view()[m]
                    == target[m] by {
                    assert(target[m] == crate::storage::column_names(t.columns)[m]);
                    if m < i {
                        assert(names.deep_view()[m] == crate::storage::column_names(
                            t.columns,
                        ).take(i as int)[m]);
                    }
                }
                assert(names.deep_view() =~= target);
            }
            i = i + 1;
        }
        proof {
            let cn = crate::storage::column_names(t.columns);
            assert(cn.take(cn.len() as int) =~= cn);
            assert forall|j: int| 0 <= j < cn.len() implies find_name(cn, #[trigger] cn[j]) >= 0 by {
                crate::storage::lemma_find_name(cn, cn[j]);
            }
            lemma_own_columns_resolve(t.columns, cn);
        }
        match storage.select_all_from(self.schema_name.as_str(), self.table_name.as_str(), names) {
            Err(_) => {
                // the in-memory manager has no system failures
                Ok(())
            },
            Ok(Ok((_, rows))) => {
                let mut pairs: Vec<(String, SqlType)> = Vec::new();
                proof {
                    assert(pairs.deep_view() =~= column_pairs(t.columns).take(0));
                }
                let mut i: usize = 0;
                while i < cols.len()
                    invariant
                        0 <= i <= cols.len(),
                        pairs.deep_view() == column_pairs(t.columns).take(i as int),
                    decreases cols.len() - i,
                {
                    let pair = (cols[i].name(), cols[i].sql_type());
                    pairs.push(pair);
                    proof {
                        let target = column_pairs(t.columns).take(i + 1);
                        assert forall|m: int| 0 <= m < target.len() implies pairs.deep_view()[m]
                            == target[m] by {
                            assert(target[m] == column_pairs(t.columns)[m]);
                            if m < i {
                                assert(pairs.deep_view()[m] == column_pairs(t.columns).take(
                                    i as int,
                                )[m]);
                            }
                        }
                        assert(pairs.deep_view() =~= target);
                    }
                    i = i + 1;
                }
                proof {
                    assert(column_pairs(t.columns).take(column_pairs(t.columns).len() as int)
                        =~= column_pairs(t.columns));
                }
                sender.send(Ok(QueryEvent::RecordsSelected(pairs, rows)));
                Ok(())
            },
            Ok(Err(_)) => {
                // every requested name resolves, so selection cannot fail
                Ok(())
            },
        }
    }
}

/// What a DELETE of every record does.
pub open spec fn delete_outcome(
    ss: Seq<SchemaView>,
    schema_name: Seq<char>,
    table_name: Seq<char>,
) -> (Seq<SchemaView>, Result<EventView, ErrorView>) {
    let si = find_name(schema_names(ss), schema_name);
    if si < 0 {
        (ss, Err(ErrorView::SchemaDoesNotExist(schema_name)))
    } else {
        let ti = find_name(table_names(ss[si].tables), table_name);
        if ti < 0 {
            (ss, Err(ErrorView::TableDoesNotExist(qualified_name(schema_name, table_name))))
        } else {
            (
                with_table_records(ss, si, ti, Seq::empty()),
                Ok(EventView::RecordsDeleted(ss[si].tables[ti].records.len() as int)),
            )
        }
    }
}

/// Removes every record of a table.
pub struct DeleteCommand {
    pub schema_name: String,
    pub table_name: String,
}

impl DeleteCommand {
    pub fn new(schema_name: String, table_name: String) -> (c: DeleteCommand)
        ensures
            c.schema_name == schema_name,
            c.table_name == table_name,
    {
        DeleteCommand { schema_name, table_name }
    }

    pub fn execute(&self, storage: &mut DataManager, sender: &mut ResultSink) -> (r: Result<
        (),
        SystemError,
    >)
        requires
            catalog_wf(old(storage)@),
        ensures
            r is Ok,
            catalog_wf(final(storage)@),
            final(storage)@ == delete_outcome(
                old(storage)@,
                self.schema_name@,
                self.table_name@,
            ).0,
            final(sender)@ == old(sender)@.push(
                delete_outcome(old(storage)@, self.schema_name@, self.table_name@).1,
            ),
    {
        match storage.delete_all_from(self.schema_name.as_str(), self.table_name.as_str()) {
            Err(error) => Err(error),
            Ok(Ok(n)) => {
                sender.send(Ok(QueryEvent::RecordsDeleted(n)));
                Ok(())
            },
            Ok(Err(OperationOnTableError::SchemaDoesNotExist)) => {
                sender.send(Err(QueryError::SchemaDoesNotExist(self.schema_name.clone())));
                Ok(())
            },
            Ok(Err(OperationOnTableError::TableDoesNotExist)) => {
                let full = full_table_name(self.schema_name.as_str(), self.table_name.as_str());
                sender.send(Err(QueryError::TableDoesNotExist(full)));
                Ok(())
            },
            Ok(Err(_)) => {
                // delete_all_from reports no other domain error
                Ok(())
            },
        }
    }
}

} // verus!
