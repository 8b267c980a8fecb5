//! Schema and table definition commands.
//!
//! Each command wraps one parsed DDL statement and delivers exactly one event
//! or domain error to the result sink; an `Err` return is reserved for
//! unrecoverable system failures and never accompanies a delivered event.
//! The `*_outcome` functions are the commands' full specifications: the
//! catalog afterwards, and the one item delivered.

use vstd::prelude::*;

use crate::results::{
    full_table_name, qualified_name, ErrorView, EventView, QueryError, QueryEvent, ResultSink,
};
use crate::sql_types::{clone_columns, ColumnDefinition, ColumnView};
use crate::storage::{
    catalog_wf, find_name, schema_names, table_names, with_tables, CreateSchemaError,
    CreateTableError, DataManager, DropSchemaError, DropStrategy, OperationOnTableError, SchemaId,
    SchemaView, SystemError, TableView,
};

verus! {

/// What creating a schema does: the catalog afterwards and the item
/// delivered.
pub open spec fn create_schema_outcome(ss: Seq<SchemaView>, name: Seq<char>) -> (
    Seq<SchemaView>,
    Result<EventView, ErrorView>,
) {
    if find_name(schema_names(ss), name) >= 0 {
        (ss, Err(ErrorView::SchemaAlreadyExists(name)))
    } else {
        (
            ss.push(SchemaView { name, tables: Seq::empty() }),
            Ok(EventView::SchemaCreated),
        )
    }
}

/// What dropping a schema does.  A missing schema and a restricted drop of a
/// schema that still owns tables are domain errors; otherwise the schema and
/// (under cascade) all its tables are removed.
pub open spec fn drop_schema_outcome(ss: Seq<SchemaView>, name: Seq<char>, cascade: bool) -> (
    Seq<SchemaView>,
    Result<EventView, ErrorView>,
) {
    let si = find_name(schema_names(ss), name);
    if si < 0 {
        (ss, Err(ErrorView::SchemaDoesNotExist(name)))
    } else if !cascade && ss[si].tables.len() > 0 {
        (ss, Err(ErrorView::SchemaHasDependentObjects(name)))
    } else {
        (ss.remove(si), Ok(EventView::SchemaDropped))
    }
}

/// What creating a table does.
pub open spec fn create_table_outcome(
    ss: Seq<SchemaView>,
    schema_name: Seq<char>,
    table_name: Seq<char>,
    cols: Seq<ColumnView>,
) -> (Seq<SchemaView>, Result<EventView, ErrorView>) {
    let si = find_name(schema_names(ss), schema_name);
    if si < 0 {
        (ss, Err(ErrorView::SchemaDoesNotExist(schema_name)))
    } else if find_name(table_names(ss[si].tables), table_name) >= 0 {
        (ss, Err(ErrorView::TableAlreadyExists(qualified_name(schema_name, table_name))))
    } else {
        (
            with_tables(
                ss,
                si,
                ss[si].tables.push(
                    TableView { name: table_name, columns: cols, records: Seq::empty() },
                ),
            ),
            Ok(EventView::TableCreated),
        )
    }
}

/// What dropping a table does.
pub open spec fn drop_table_outcome(
    ss: Seq<SchemaView>,
    schema_name: Seq<char>,
    table_name: Seq<char>,
) -> (Seq<SchemaView>, Result<EventView, ErrorView>) {
    let si = find_name(schema_names(ss), schema_name);
    if si < 0 {
        (ss, Err(ErrorView::SchemaDoesNotExist(schema_name)))
    } else {
        let ti = find_name(table_names(ss[si].tables), table_name);
        if ti < 0 {
            (ss, Err(ErrorView::TableDoesNotExist(qualified_name(schema_name, table_name))))
        } else {
            (with_tables(ss, si, ss[si].tables.remove(ti)), Ok(EventView::TableDropped))
        }
    }
}

/// Creates a schema and reports the outcome.
pub struct CreateSchemaCommand {
    pub name: SchemaId,
}

impl CreateSchemaCommand {
    pub fn new(name: SchemaId) -> (c: CreateSchemaCommand)
        ensures
            c.name == name,
    {
        CreateSchemaCommand { name }
    }

    pub fn execute(&self, storage: &mut DataManager, sender: &mut ResultSink) -> (r: Result<
        (),
        SystemError,
    >)
        requires
            catalog_wf(old(storage)@),
        ensures
            r is Ok,
            catalog_wf(final(storage)@),
            final(storage)@ == create_schema_outcome(old(storage)@, self.name@).0,
            final(sender)@ == old(sender)@.push(create_schema_outcome(old(storage)@, self.name@).1),
    {
        match storage.create_schema(self.name.name()) {
            Ok(_) => {
                sender.send(Ok(QueryEvent::SchemaCreated));
            },
            Err(CreateSchemaError::SchemaAlreadyExists) => {
                sender.send(Err(QueryError::SchemaAlreadyExists(self.name.name().to_owned())));
            },
        }
        Ok(())
    }
}

/// Drops a schema, restricted or cascading, and reports the outcome.
pub struct DropSchemaCommand {
    pub name: SchemaId,
    pub cascade: bool,
}

impl DropSchemaCommand {
    pub fn new(name: SchemaId, cascade: bool) -> (c: DropSchemaCommand)
        ensures
            c.name == name,
            c.cascade == cascade,
    {
        DropSchemaCommand { name, cascade }
    }

    pub fn execute(&self, storage: &mut DataManager, sender: &mut ResultSink) -> (r: Result<
        (),
        SystemError,
    >)
        requires
            catalog_wf(old(storage)@),
        ensures
            r is Ok,
            catalog_wf(final(storage)@),
            final(storage)@ == drop_schema_outcome(old(storage)@, self.name@, self.cascade).0,
            final(sender)@ == old(sender)@.push(
                drop_schema_outcome(old(storage)@, self.name@, self.cascade).1,
            ),
    {
        let schema_name = self.name.name();
        let strategy = if self.cascade {
            DropStrategy::Cascade
        } else {
            DropStrategy::Restrict
        };
        match storage.schema_exists(schema_name) {
            None => {
                sender.send(Err(QueryError::SchemaDoesNotExist(schema_name.to_owned())));
                Ok(())
            },
            Some(schema_id) => {
                match storage.drop_schema(&schema_id, strategy) {
                    Err(error) => Err(error),
                    Ok(Err(DropSchemaError::CatalogDoesNotExist)) => {
                        // catalogs are not modeled; never produced
                        Ok(())
                    },
                    Ok(Err(DropSchemaError::HasDependentObjects)) => {
                        sender.send(
                            Err(QueryError::SchemaHasDependentObjects(schema_name.to_owned())),
                        );
                        Ok(())
                    },
                    Ok(Err(DropSchemaError::DoesNotExist)) => {
                        sender.send(Err(QueryError::SchemaDoesNotExist(schema_name.to_owned())));
                        Ok(())
                    },
                    Ok(Ok(())) => {
                        sender.send(Ok(QueryEvent::SchemaDropped));
                        Ok(())
                    },
                }
            },
        }
    }
}

/// Creates a table inside an existing schema and reports the outcome.
pub struct CreateTableCommand {
    pub schema_name: String,
    pub table_name: String,
    pub columns: Vec<ColumnDefinition>,
}

impl CreateTableCommand {
    pub fn new(schema_name: String, table_name: String, columns: Vec<ColumnDefinition>) -> (c:
        CreateTableCommand)
        ensures
            c.schema_name == schema_name,
            c.table_name == table_name,
            c.columns == columns,
    {
        CreateTableCommand { schema_name, table_name, columns }
    }

    pub fn execute(&self, storage: &mut DataManager, sender: &mut ResultSink) -> (r: Result<
        (),
        SystemError,
    >)
        requires
            catalog_wf(old(storage)@),
        ensures
            r is Ok,
            catalog_wf(final(storage)@),
            final(storage)@ == create_table_outcome(
                old(storage)@,
                self.schema_name@,
                self.table_name@,
                self.columns.deep_view(),
            ).0,
            final(sender)@ == old(sender)@.push(
                create_table_outcome(
                    old(storage)@,
                    self.schema_name@,
                    self.table_name@,
                    self.columns.deep_view(),
                ).1,
            ),
    {
        let columns = clone_columns(&self.columns);
        proof {
            assert(columns.deep_view() =~= self.columns.deep_view());
        }
        match storage.create_table(self.schema_name.as_str(), self.table_name.as_str(), columns) {
            Ok(()) => {
                sender.send(Ok(QueryEvent::TableCreated));
            },
            Err(CreateTableError::SchemaDoesNotExist) => {
                sender.send(Err(QueryError::SchemaDoesNotExist(self.schema_name.clone())));
            },
            Err(CreateTableError::TableAlreadyExists) => {
                let full = full_table_name(self.schema_name.as_str(), self.table_name.as_str());
                sender.send(Err(QueryError::TableAlreadyExists(full)));
            },
        }
        Ok(())
    }
}

/// Drops a table and reports the outcome.
pub struct DropTableCommand {
    pub schema_name: String,
    pub table_name: String,
}

impl DropTableCommand {
    pub fn new(schema_name: String, table_name: String) -> (c: DropTableCommand)
        ensures
            c.schema_name == schema_name,
            c.table_name == table_name,
    {
        DropTableCommand { schema_name, table_name }
    }

    pub fn execute(&self, storage: &mut DataManager, sender: &mut ResultSink) -> (r: Result<
        (),
        SystemError,
    >)
        requires
            catalog_wf(old(storage)@),
        ensures
            r is Ok,
            catalog_wf(final(storage)@),
            final(storage)@ == drop_table_outcome(
                old(storage)@,
                self.schema_name@,
                self.table_name@,
            ).0,
            final(sender)@ == old(sender)@.push(
                drop_table_outcome(old(storage)@, self.schema_name@, self.table_name@).1,
            ),
    {
        match storage.drop_table(self.schema_name.as_str(), self.table_name.as_str()) {
            Err(error) => Err(error),
            Ok(Err(OperationOnTableError::SchemaDoesNotExist)) => {
                sender.send(Err(QueryError::SchemaDoesNotExist(self.schema_name.clone())));
                Ok(())
            },
            Ok(Err(OperationOnTableError::TableDoesNotExist)) => {
                let full = full_table_name(self.schema_name.as_str(), self.table_name.as_str());
                sender.send(Err(QueryError::TableDoesNotExist(full)));
                Ok(())
            },
            Ok(Err(_)) => {
                // drop_table reports no other domain error
                Ok(())
            },
            Ok(Ok(())) => {
                sender.send(Ok(QueryEvent::TableDropped));
                Ok(())
            },
        }
    }
}

} // verus!
