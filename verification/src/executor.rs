//! The query executor.
//!
//! Given one parsed statement, it selects the matching command, runs it, and
//! guarantees a two-part result: exactly one domain event or error, followed
//! by a completion marker.  `statement_outcome` is the whole engine's
//! specification in one function.

use vstd::prelude::*;

use crate::ddl::{
    create_schema_outcome, create_table_outcome, drop_schema_outcome, drop_table_outcome,
    CreateSchemaCommand, CreateTableCommand, DropSchemaCommand, DropTableCommand,
};
use crate::dml::{
    delete_outcome, insert_outcome, select_outcome, update_outcome, DeleteCommand, InsertCommand,
    SelectCommand, UpdateCommand,
};
use crate::expressions::{Expr, ScalarValue};
use crate::results::{ErrorView, EventView, QueryEvent, ResultSink};
use crate::sql_types::ColumnDefinition;
use crate::storage::{catalog_wf, DataManager, SchemaId, SchemaView, SystemError};

verus! {

/// One parsed statement, as the upstream parser hands it over.
#[derive(Debug, PartialEq, Eq)]
pub enum Statement {
    CreateSchema { schema_name: String },
    DropSchema { schema_name: String, cascade: bool },
    CreateTable { schema_name: String, table_name: String, columns: Vec<ColumnDefinition> },
    DropTable { schema_name: String, table_name: String },
    Insert { schema_name: String, table_name: String, rows: Vec<Vec<ScalarValue>> },
    Update { schema_name: String, table_name: String, assignments: Vec<(String, Expr)> },
    Select { schema_name: String, table_name: String },
    Delete { schema_name: String, table_name: String },
}

/// What one statement does: the catalog afterwards and the one item
/// delivered before the completion marker.
pub open spec fn statement_outcome(ss: Seq<SchemaView>, statement: Statement) -> (
    Seq<SchemaView>,
    Result<EventView, ErrorView>,
) {
    match statement {
        Statement::CreateSchema { schema_name } => create_schema_outcome(ss, schema_name@),
        Statement::DropSchema { schema_name, cascade } => drop_schema_outcome(
            ss,
            schema_name@,
            cascade,
        ),
        Statement::CreateTable { schema_name, table_name, columns } => create_table_outcome(
            ss,
            schema_name@,
            table_name@,
            columns.deep_view(),
        ),
        Statement::DropTable { schema_name, table_name } => drop_table_outcome(
            ss,
            schema_name@,
            table_name@,
        ),
        Statement::Insert { schema_name, table_name, rows } => insert_outcome(
            ss,
            schema_name@,
            table_name@,
            rows@,
        ),
        Statement::Update { schema_name, table_name, assignments } => update_outcome(
            ss,
            schema_name@,
            table_name@,
            assignments@,
        ),
        Statement::Select { schema_name, table_name } => (
            ss,
            select_outcome(ss, schema_name@, table_name@),
        ),
        Statement::Delete { schema_name, table_name } => delete_outcome(
            ss,
            schema_name@,
            table_name@,
        ),
    }
}

/// Runs statements against a catalog, one at a time.
pub struct QueryExecutor {
    pub storage: DataManager,
}

impl QueryExecutor {
    /// An executor over an empty catalog.
    pub fn new() -> (e: QueryExecutor)
        ensures
            e.storage@.len() == 0,
            catalog_wf(e.storage@),
    {
        QueryExecutor { storage: DataManager::new() }
    }

    /// Executes one statement: delivers exactly one event or domain error,
    /// then the completion marker.
    pub fn execute(&mut self, statement: Statement, sender: &mut ResultSink) -> (r: Result<
        (),
        SystemError,
    >)
        requires
            catalog_wf(old(self).storage@),
        ensures
            r is Ok,
            catalog_wf(final(self).storage@),
            final(self).storage@ == statement_outcome(old(self).storage@, statement).0,
            final(sender)@ == old(sender)@.push(
                statement_outcome(old(self).storage@, statement).1,
            ).push(Ok(EventView::QueryComplete)),
    {
        let result = match statement {
            Statement::CreateSchema { schema_name } => {
                let command = CreateSchemaCommand::new(SchemaId::new(schema_name.as_str()));
                command.execute(&mut self.storage, sender)
            },
            Statement::DropSchema { schema_name, cascade } => {
                let command = DropSchemaCommand::new(SchemaId::new(schema_name.as_str()), cascade);
                command.execute(&mut self.storage, sender)
            },
            Statement::CreateTable { schema_name, table_name, columns } => {
                let command = CreateTableCommand::new(schema_name, table_name, columns);
                command.execute(&mut self.storage, sender)
            },
            Statement::DropTable { schema_name, table_name } => {
                let command = DropTableCommand::new(schema_name, table_name);
                command.execute(&mut self.storage, sender)
            },
            Statement::Insert { schema_name, table_name, rows } => {
                let command = InsertCommand::new(schema_name, table_name, rows);
                command.execute(&mut self.storage, sender)
            },
            Statement::Update { schema_name, table_name, assignments } => {
                let command = UpdateCommand::new(schema_name, table_name, assignments);
                command.execute(&mut self.storage, sender)
            },
            Statement::Select { schema_name, table_name } => {
                let command = SelectCommand::new(schema_name, table_name);
                command.execute(&mut self.storage, sender)
            },
            Statement::Delete { schema_name, table_name } => {
                let command = DeleteCommand::new(schema_name, table_name);
                command.execute(&mut self.storage, sender)
            },
        };
        match result {
            Ok(()) => {
                sender.send(Ok(QueryEvent::QueryComplete));
                Ok(())
            },
            Err(error) => Err(error),
        }
    }
}

} // verus!
