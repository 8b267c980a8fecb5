//! Engine-wide laws.
//!
//! Each proof function here states, over the outcome specifications, a
//! property that holds of every input the engine accepts — aggregation of
//! errors, all-or-nothing mutation, and the full-table reach of UPDATE.

use vstd::prelude::*;

use crate::dml::{assignments_values, select_outcome, update_outcome};
use crate::expressions::{apply_binary, scalar_text, BinaryOp, EvalErrorView, Expr, ScalarView};
use crate::ddl::drop_schema_outcome;
use crate::results::{qualified_name, ErrorView, EventView};
use crate::sql_types::{check_value, ColumnView, ConstraintErrorView, SqlType};
use crate::storage::{
    apply_assignments, assignment_names, catalog_wf, column_names, find_name, lemma_find_name,
    lemma_find_name_none, schema_names, schema_wf, table_names, table_wf, unresolved_columns,
    update_target, update_violations, updated_records, with_table_records, SchemaView,
};

verus! {

/// A name that resolves to no column appears in the unresolved list.
proof fn lemma_unresolved_contains(cols: Seq<ColumnView>, names: Seq<Seq<char>>, k: int)
    requires
        0 <= k < names.len(),
        find_name(column_names(cols), names[k]) < 0,
    ensures
        unresolved_columns(cols, names).contains(names[k]),
    decreases names.len(),
{
    if k == names.len() - 1 {
        let u = unresolved_columns(cols, names);
        assert(u.last() == names[k]);
        assert(u[u.len() - 1] == names[k]);
    } else {
        assert(names.drop_last()[k] == names[k]);
        lemma_unresolved_contains(cols, names.drop_last(), k);
        let rest = unresolved_columns(cols, names.drop_last());
        let i = choose|i: int| 0 <= i < rest.len() && rest[i] == names[k];
        let u = unresolved_columns(cols, names);
        assert(u[i] == names[k]);
    }
}

/// An assignment whose value fails its resolved column's rules appears in
/// the aggregated violation list.
proof fn lemma_update_violations_contains(
    cols: Seq<ColumnView>,
    asg: Seq<(Seq<char>, Seq<char>)>,
    k: int,
    e: ConstraintErrorView,
)
    requires
        0 <= k < asg.len(),
        find_name(column_names(cols), asg[k].0) >= 0,
        check_value(asg[k].1, cols[find_name(column_names(cols), asg[k].0)].ty) == Some(e),
    ensures
        update_violations(cols, asg).contains(
            (e, cols[find_name(column_names(cols), asg[k].0)]),
        ),
    decreases asg.len(),
{
    let entry = (e, cols[find_name(column_names(cols), asg[k].0)]);
    if k == asg.len() - 1 {
        let v = update_violations(cols, asg);
        assert(v.last() == entry);
        assert(v[v.len() - 1] == entry);
    } else {
        assert(asg.drop_last()[k] == asg[k]);
        lemma_update_violations_contains(cols, asg.drop_last(), k, e);
        let rest = update_violations(cols, asg.drop_last());
        let i = choose|i: int| 0 <= i < rest.len() && rest[i] == entry;
        let v = update_violations(cols, asg);
        assert(v[i] == entry);
    }
}

/// If the unresolved list is empty, every name resolves.
proof fn lemma_all_resolve(cols: Seq<ColumnView>, names: Seq<Seq<char>>, k: int)
    requires
        unresolved_columns(cols, names).len() == 0,
        0 <= k < names.len(),
    ensures
        find_name(column_names(cols), names[k]) >= 0,
{
    if find_name(column_names(cols), names[k]) < 0 {
        lemma_unresolved_contains(cols, names, k);
    }
}

/// The cell an assignment targets holds that assignment's value, when no
/// later assignment targets the same column — independently of the record
/// it is applied to.
proof fn lemma_apply_assignments_cell(
    rec: Seq<Seq<char>>,
    cols: Seq<ColumnView>,
    asg: Seq<(Seq<char>, Seq<char>)>,
    k: int,
)
    requires
        rec.len() == cols.len(),
        0 <= k < asg.len(),
        find_name(column_names(cols), asg[k].0) >= 0,
        forall|m: int|
            k < m < asg.len() ==> find_name(column_names(cols), (#[trigger] asg[m]).0)
                != find_name(column_names(cols), asg[k].0),
    ensures
        apply_assignments(rec, cols, asg)[find_name(column_names(cols), asg[k].0)] == asg[k].1,
    decreases asg.len(),
{
    let ci = find_name(column_names(cols), asg[k].0);
    lemma_find_name(column_names(cols), asg[k].0);
    assert(ci < cols.len());
    crate::storage::lemma_apply_assignments_len(rec, cols, asg.drop_last());
    let prev = apply_assignments(rec, cols, asg.drop_last());
    assert(prev.len() == rec.len());
    assert(asg.last() == asg[asg.len() - 1]);
    if k == asg.len() - 1 {
        assert(apply_assignments(rec, cols, asg) == prev.update(ci, asg[k].1));
        assert(prev.update(ci, asg[k].1)[ci] == asg[k].1);
    } else {
        assert(asg.drop_last()[k] == asg[k]);
        assert forall|m: int|
            k < m < asg.drop_last().len() implies find_name(
            column_names(cols),
            (#[trigger] asg.drop_last()[m]).0,
        ) != find_name(column_names(cols), asg.drop_last()[k].0) by {
            assert(asg.drop_last()[m] == asg[m]);
        }
        lemma_apply_assignments_cell(rec, cols, asg.drop_last(), k);
        assert(prev[ci] == asg[k].1);
        let cj = find_name(column_names(cols), asg.last().0);
        lemma_find_name(column_names(cols), asg.last().0);
        assert(cj != ci);
        if cj >= 0 {
            assert(cj < cols.len());
            assert(apply_assignments(rec, cols, asg) == prev.update(cj, asg.last().1));
            assert(prev.update(cj, asg.last().1)[ci] == prev[ci]);
        } else {
            assert(apply_assignments(rec, cols, asg) == prev);
        }
    }
}

/// Replacing one table's records changes no schema or table name, so every
/// lookup resolves as before.
proof fn lemma_with_table_records_preserves_names(
    ss: Seq<SchemaView>,
    si: int,
    ti: int,
    recs: Seq<Seq<Seq<char>>>,
)
    requires
        0 <= si < ss.len(),
        0 <= ti < ss[si].tables.len(),
    ensures
        schema_names(with_table_records(ss, si, ti, recs)) == schema_names(ss),
        table_names(with_table_records(ss, si, ti, recs)[si].tables) == table_names(
            ss[si].tables,
        ),
{
    assert(schema_names(with_table_records(ss, si, ti, recs)) =~= schema_names(ss));
    assert(table_names(with_table_records(ss, si, ti, recs)[si].tables) =~= table_names(
        ss[si].tables,
    ));
}

/// A filterless UPDATE reaches every stored row: on success it reports the
/// table's prior row count, keeps that count, and writes the same assigned
/// value into the targeted column of every record.
pub proof fn update_applies_same_values_to_all_rows(
    ss: Seq<SchemaView>,
    schema_name: Seq<char>,
    table_name: Seq<char>,
    asg: Seq<(String, Expr)>,
    j: int,
    k: int,
)
    requires
        catalog_wf(ss),
        update_target(ss, schema_name, table_name) is Some,
        update_outcome(ss, schema_name, table_name, asg).1 is Ok,
        0 <= j < update_target(ss, schema_name, table_name)->Some_0.records.len(),
        assignments_values(asg) is Ok,
        0 <= k < assignments_values(asg)->Ok_0.len(),
        forall|m: int|
            k < m < assignments_values(asg)->Ok_0.len() ==> find_name(
                column_names(update_target(ss, schema_name, table_name)->Some_0.columns),
                (#[trigger] assignments_values(asg)->Ok_0[m]).0,
            ) != find_name(
                column_names(update_target(ss, schema_name, table_name)->Some_0.columns),
                assignments_values(asg)->Ok_0[k].0,
            ),
    ensures
        update_outcome(ss, schema_name, table_name, asg).1 == Ok::<EventView, ErrorView>(
            EventView::RecordsUpdated(
                update_target(ss, schema_name, table_name)->Some_0.records.len() as int,
            ),
        ),
        update_target(update_outcome(ss, schema_name, table_name, asg).0, schema_name, table_name)
            is Some,
        update_target(
            update_outcome(ss, schema_name, table_name, asg).0,
            schema_name,
            table_name,
        )->Some_0.records.len() == update_target(
            ss,
            schema_name,
            table_name,
        )->Some_0.records.len(),
        update_target(
            update_outcome(ss, schema_name, table_name, asg).0,
            schema_name,
            table_name,
        )->Some_0.records[j][find_name(
            column_names(update_target(ss, schema_name, table_name)->Some_0.columns),
            assignments_values(asg)->Ok_0[k].0,
        )] == assignments_values(asg)->Ok_0[k].1,
{
    let pairs = assignments_values(asg)->Ok_0;
    let si = find_name(schema_names(ss), schema_name);
    let ti = find_name(table_names(ss[si].tables), table_name);
    let t = ss[si].tables[ti];
    lemma_find_name(schema_names(ss), schema_name);
    lemma_find_name(table_names(ss[si].tables), table_name);
    let names = assignment_names(pairs);
    assert(names[k] == pairs[k].0);
    lemma_all_resolve(t.columns, names, k);
    let ss2 = update_outcome(ss, schema_name, table_name, asg).0;
    lemma_with_table_records_preserves_names(ss, si, ti, updated_records(t, pairs));
    assert(ss2[si].tables[ti].records == updated_records(t, pairs));
    assert(schema_wf(ss[si]));
    assert(table_wf(t));
    assert(t.records[j].len() == t.columns.len());
    assert(updated_records(t, pairs)[j] == apply_assignments(t.records[j], t.columns, pairs));
    lemma_apply_assignments_cell(t.records[j], t.columns, pairs, k);
}

/// An UPDATE against a missing table reports `table_does_not_exist` under
/// the fully qualified name and leaves every stored row of every table
/// untouched.
pub proof fn update_of_missing_table_changes_nothing(
    ss: Seq<SchemaView>,
    schema_name: Seq<char>,
    table_name: Seq<char>,
    asg: Seq<(String, Expr)>,
)
    requires
        assignments_values(asg) is Ok,
        find_name(schema_names(ss), schema_name) >= 0,
        find_name(
            table_names(ss[find_name(schema_names(ss), schema_name)].tables),
            table_name,
        ) < 0,
    ensures
        update_outcome(ss, schema_name, table_name, asg).1 == Err::<EventView, ErrorView>(
            ErrorView::TableDoesNotExist(qualified_name(schema_name, table_name)),
        ),
        update_outcome(ss, schema_name, table_name, asg).0 == ss,
{
}

/// An UPDATE naming unresolved columns reports one aggregated
/// `column_does_not_exist` error, and every unresolved name is in it.
pub proof fn update_aggregates_unresolved_columns(
    ss: Seq<SchemaView>,
    schema_name: Seq<char>,
    table_name: Seq<char>,
    asg: Seq<(String, Expr)>,
    k: int,
)
    requires
        update_target(ss, schema_name, table_name) is Some,
        assignments_values(asg) is Ok,
        0 <= k < assignments_values(asg)->Ok_0.len(),
        find_name(
            column_names(update_target(ss, schema_name, table_name)->Some_0.columns),
            assignments_values(asg)->Ok_0[k].0,
        ) < 0,
    ensures
        update_outcome(ss, schema_name, table_name, asg).1 == Err::<EventView, ErrorView>(
            ErrorView::ColumnDoesNotExist(
                unresolved_columns(
                    update_target(ss, schema_name, table_name)->Some_0.columns,
                    assignment_names(assignments_values(asg)->Ok_0),
                ),
            ),
        ),
        unresolved_columns(
            update_target(ss, schema_name, table_name)->Some_0.columns,
            assignment_names(assignments_values(asg)->Ok_0),
        ).contains(assignments_values(asg)->Ok_0[k].0),
        update_outcome(ss, schema_name, table_name, asg).0 == ss,
{
    let pairs = assignments_values(asg)->Ok_0;
    let t = update_target(ss, schema_name, table_name)->Some_0;
    let names = assignment_names(pairs);
    assert(names[k] == pairs[k].0);
    lemma_unresolved_contains(t.columns, names, k);
    let u = unresolved_columns(t.columns, names);
    let i = choose|i: int| 0 <= i < u.len() && u[i] == names[k];
    assert(u.len() > 0);
}

/// Constraint violations of a multi-column UPDATE are aggregated: every
/// failing assignment contributes its (error, column) entry to the one
/// reported list.
pub proof fn update_aggregates_constraint_violations(
    ss: Seq<SchemaView>,
    schema_name: Seq<char>,
    table_name: Seq<char>,
    asg: Seq<(String, Expr)>,
    k: int,
    e: ConstraintErrorView,
)
    requires
        update_target(ss, schema_name, table_name) is Some,
        update_target(ss, schema_name, table_name)->Some_0.records.len() > 0,
        assignments_values(asg) is Ok,
        unresolved_columns(
            update_target(ss, schema_name, table_name)->Some_0.columns,
            assignment_names(assignments_values(asg)->Ok_0),
        ).len() == 0,
        0 <= k < assignments_values(asg)->Ok_0.len(),
        check_value(
            assignments_values(asg)->Ok_0[k].1,
            update_target(ss, schema_name, table_name)->Some_0.columns[find_name(
                column_names(update_target(ss, schema_name, table_name)->Some_0.columns),
                assignments_values(asg)->Ok_0[k].0,
            )].ty,
        ) == Some(e),
    ensures
        update_outcome(ss, schema_name, table_name, asg).1 == Err::<EventView, ErrorView>(
            ErrorView::ConstraintViolations(
                update_violations(
                    update_target(ss, schema_name, table_name)->Some_0.columns,
                    assignments_values(asg)->Ok_0,
                ),
            ),
        ),
        update_violations(
            update_target(ss, schema_name, table_name)->Some_0.columns,
            assignments_values(asg)->Ok_0,
        ).contains(
            (
                e,
                update_target(ss, schema_name, table_name)->Some_0.columns[find_name(
                    column_names(update_target(ss, schema_name, table_name)->Some_0.columns),
                    assignments_values(asg)->Ok_0[k].0,
                )],
            ),
        ),
        update_outcome(ss, schema_name, table_name, asg).0 == ss,
{
    let pairs = assignments_values(asg)->Ok_0;
    let t = update_target(ss, schema_name, table_name)->Some_0;
    let names = assignment_names(pairs);
    assert(names[k] == pairs[k].0);
    lemma_all_resolve(t.columns, names, k);
    lemma_update_violations_contains(t.columns, pairs, k, e);
    let v = update_violations(t.columns, pairs);
    let entry = (e, t.columns[find_name(column_names(t.columns), pairs[k].0)]);
    let i = choose|i: int| 0 <= i < v.len() && v[i] == entry;
    assert(v.len() > 0);
}

/// Concatenation of two numbers is an undefined function, reported with the
/// operator symbol and both operand type names.
pub proof fn concat_of_two_numbers_is_undefined(a: i64, b: i64)
    ensures
        apply_binary(BinaryOp::StringConcat, ScalarView::Number(a), ScalarView::Number(b))
            == Err::<ScalarView, EvalErrorView>(
            EvalErrorView::UndefinedFunction("||"@, "NUMBER"@, "NUMBER"@),
        ),
{
}

/// A restricted drop of a schema that still owns tables refuses, and the
/// schema remains queryable; a cascading drop removes the schema — and with
/// it all its tables — so the name no longer resolves.
pub proof fn drop_schema_restrict_and_cascade(ss: Seq<SchemaView>, name: Seq<char>)
    requires
        catalog_wf(ss),
        find_name(schema_names(ss), name) >= 0,
        ss[find_name(schema_names(ss), name)].tables.len() > 0,
    ensures
        drop_schema_outcome(ss, name, false) == (
            ss,
            Err::<EventView, ErrorView>(ErrorView::SchemaHasDependentObjects(name)),
        ),
        find_name(schema_names(drop_schema_outcome(ss, name, false).0), name) >= 0,
        drop_schema_outcome(ss, name, true).1 == Ok::<EventView, ErrorView>(
            EventView::SchemaDropped,
        ),
        find_name(schema_names(drop_schema_outcome(ss, name, true).0), name) == -1,
{
    let si = find_name(schema_names(ss), name);
    lemma_find_name(schema_names(ss), name);
    let ss2 = drop_schema_outcome(ss, name, true).0;
    assert(ss2 =~= ss.remove(si));
    assert forall|j: int| 0 <= j < schema_names(ss2).len() implies schema_names(ss2)[j]
        != name by {
        let j0 = if j < si {
            j
        } else {
            j + 1
        };
        assert(ss2[j] == ss[j0]);
        assert(ss[j0].name != ss[si].name);
    }
    lemma_find_name_none(schema_names(ss2), name);
}

/// A numeric value within its column's declared range, rendered to the text
/// the engine stores, always validates: assigning an in-range number never
/// raises a constraint violation.
pub proof fn rendered_number_validates(n: i64, ty: SqlType)
    requires
        ty == SqlType::SmallInt || ty == SqlType::Integer || ty == SqlType::BigInt,
        ty.min_value() <= n as int <= ty.max_value(),
    ensures
        check_value(scalar_text(ScalarView::Number(n)), ty) == None::<ConstraintErrorView>,
{
    crate::text::lemma_dec_string_int_literal(n as int);
}

/// A failed UPDATE — any domain error — leaves every row's prior values
/// unchanged: the catalog is identical, so a subsequent SELECT of any table
/// returns the pre-update snapshot.
pub proof fn failed_update_preserves_select(
    ss: Seq<SchemaView>,
    schema_name: Seq<char>,
    table_name: Seq<char>,
    asg: Seq<(String, Expr)>,
    queried_schema: Seq<char>,
    queried_table: Seq<char>,
)
    requires
        update_outcome(ss, schema_name, table_name, asg).1 is Err,
    ensures
        update_outcome(ss, schema_name, table_name, asg).0 == ss,
        select_outcome(
            update_outcome(ss, schema_name, table_name, asg).0,
            queried_schema,
            queried_table,
        ) == select_outcome(ss, queried_schema, queried_table),
{
}

} // verus!
