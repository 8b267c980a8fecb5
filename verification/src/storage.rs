//! The storage manager.
//!
//! A `DataManager` owns the catalog: schemas, each owning tables, each owning
//! an ordered column list and its records.  All record-level operations
//! validate before they mutate: a statement either applies to every targeted
//! row or leaves the catalog untouched and reports a complete list of
//! failures.
//!
//! Lookups resolve a name to the first entry carrying it; well-formedness
//! (`catalog_wf`) keeps names unique, so "first" is "the" entry.  Cascade
//! drops remove a schema's tables in their creation order (no observable
//! ordering is promised).

use vstd::pervasive::VecAdditionalExecFns;
use vstd::prelude::*;

use crate::sql_types::{
    check_value, clone_column, clone_columns, validate, ColumnDefinition, ColumnView,
    ConstraintError, ConstraintErrorView,
};
use crate::text::str_eq;

verus! {

// ------------------------------------------------------------------
// Views: the mathematical catalog.
// ------------------------------------------------------------------

/// The mathematical form of a table: its name, its columns in ordinal order,
/// and its records in insertion order; a record is a sequence of textual
/// values, one per column, in column order.
#[verifier::ext_equal]
pub struct TableView {
    pub name: Seq<char>,
    pub columns: Seq<ColumnView>,
    pub records: Seq<Seq<Seq<char>>>,
}

/// The mathematical form of a schema: its name and its tables in creation
/// order.
#[verifier::ext_equal]
pub struct SchemaView {
    pub name: Seq<char>,
    pub tables: Seq<TableView>,
}

/// Every record has exactly one value per column.
pub open spec fn table_wf(t: TableView) -> bool {
    forall|i: int| 0 <= i < t.records.len() ==> (#[trigger] t.records[i]).len()
        == t.columns.len()
}

/// Table names are unique within the schema and every table is well-formed.
pub open spec fn schema_wf(s: SchemaView) -> bool {
    &&& forall|i: int| 0 <= i < s.tables.len() ==> table_wf(#[trigger] s.tables[i])
    &&& forall|i: int, j: int|
        #![trigger s.tables[i].name, s.tables[j].name]
        0 <= i < j < s.tables.len() ==> s.tables[i].name != s.tables[j].name
}

/// Schema names are unique within the catalog and every schema is
/// well-formed.
pub open spec fn catalog_wf(ss: Seq<SchemaView>) -> bool {
    &&& forall|i: int| 0 <= i < ss.len() ==> schema_wf(#[trigger] ss[i])
    &&& forall|i: int, j: int|
        #![trigger ss[i].name, ss[j].name]
        0 <= i < j < ss.len() ==> ss[i].name != ss[j].name
}

// ------------------------------------------------------------------
// Name lookup.
// ------------------------------------------------------------------

/// The index of the first occurrence of `name`, or `-1` when there is none.
pub open spec fn find_name(names: Seq<Seq<char>>, name: Seq<char>) -> int
    decreases names.len(),
{
    if names.len() == 0 {
        -1
    } else if names[0] == name {
        0
    } else {
        let r = find_name(names.skip(1), name);
        if r < 0 {
            -1
        } else {
            r + 1
        }
    }
}

pub proof fn lemma_find_name(names: Seq<Seq<char>>, name: Seq<char>)
    ensures
        find_name(names, name) == -1 || 0 <= find_name(names, name) < names.len(),
        find_name(names, name) >= 0 ==> names[find_name(names, name)] == name,
        forall|j: int|
            0 <= j < names.len() && (find_name(names, name) == -1 || j < find_name(names, name))
                ==> names[j] != name,
    decreases names.len(),
{
    if names.len() > 0 && names[0] != name {
        lemma_find_name(names.skip(1), name);
        assert forall|j: int|
            0 <= j < names.len() && (find_name(names, name) == -1 || j < find_name(names, name))
                implies names[j] != name by {
            if j > 0 {
                assert(names.skip(1)[j - 1] == names[j]);
            }
        }
    }
}

proof fn lemma_find_name_at(names: Seq<Seq<char>>, name: Seq<char>, i: int)
    requires
        0 <= i < names.len(),
        names[i] == name,
        forall|j: int| 0 <= j < i ==> names[j] != name,
    ensures
        find_name(names, name) == i,
    decreases i,
{
    if i > 0 {
        assert(names[0] != name);
        assert forall|j: int| 0 <= j < i - 1 implies names.skip(1)[j] != name by {
            assert(names.skip(1)[j] == names[j + 1]);
        }
        assert(names.skip(1)[i - 1] == names[i]);
        lemma_find_name_at(names.skip(1), name, i - 1);
    }
}

pub proof fn lemma_find_name_none(names: Seq<Seq<char>>, name: Seq<char>)
    requires
        forall|j: int| 0 <= j < names.len() ==> names[j] != name,
    ensures
        find_name(names, name) == -1,
    decreases names.len(),
{
    if names.len() > 0 {
        assert forall|j: int| 0 <= j < names.len() - 1 implies names.skip(1)[j] != name by {
            assert(names.skip(1)[j] == names[j + 1]);
        }
        lemma_find_name_none(names.skip(1), name);
    }
}

pub open spec fn schema_names(ss: Seq<SchemaView>) -> Seq<Seq<char>> {
    ss.map_values(|s: SchemaView| s.name)
}

pub open spec fn table_names(ts: Seq<TableView>) -> Seq<Seq<char>> {
    ts.map_values(|t: TableView| t.name)
}

pub open spec fn column_names(cs: Seq<ColumnView>) -> Seq<Seq<char>> {
    cs.map_values(|c: ColumnView| c.name)
}

// ------------------------------------------------------------------
// The catalog.
// ------------------------------------------------------------------

/// A table: a named, ordered column list and the stored records.
pub struct Table {
    pub name: String,
    pub columns: Vec<ColumnDefinition>,
    pub records: Vec<Vec<String>>,
}

impl View for Table {
    type V = TableView;

    open spec fn view(&self) -> TableView {
        TableView {
            name: self.name@,
            columns: self.columns.deep_view(),
            records: self.records.deep_view(),
        }
    }
}

impl DeepView for Table {
    type V = TableView;

    open spec fn deep_view(&self) -> TableView {
        self.view()
    }
}

/// A schema: a name and the tables it owns.
pub struct Schema {
    pub name: String,
    pub tables: Vec<Table>,
}

impl View for Schema {
    type V = SchemaView;

    open spec fn view(&self) -> SchemaView {
        SchemaView { name: self.name@, tables: self.tables.deep_view() }
    }
}

impl DeepView for Schema {
    type V = SchemaView;

    open spec fn deep_view(&self) -> SchemaView {
        self.view()
    }
}

/// The opaque identifier of a schema, assigned on creation and stable for
/// the schema's lifetime.
#[derive(Clone, Debug, PartialEq, Eq)]
pub struct SchemaId {
    pub name: String,
}

impl View for SchemaId {
    type V = Seq<char>;

    open spec fn view(&self) -> Seq<char> {
        self.name@
    }
}

impl SchemaId {
    pub fn new(name: &str) -> (r: SchemaId)
        ensures
            r@ == name@,
    {
        SchemaId { name: name.to_owned() }
    }

    pub fn name(&self) -> (r: &str)
        ensures
            r@ == self@,
    {
        self.name.as_str()
    }
}

/// An unrecoverable storage failure.  The in-memory manager never produces
/// one; the type keeps the two-tier error shape of the storage interface, so
/// that domain errors are never conflated with system failures.
#[derive(Clone, Copy, Debug, PartialEq, Eq, Structural)]
pub struct SystemError {}

/// Whether a drop refuses objects that still have dependents (`Restrict`) or
/// removes the dependents transitively (`Cascade`).
#[derive(Clone, Copy, Debug, PartialEq, Eq, Structural)]
pub enum DropStrategy {
    Restrict,
    Cascade,
}

/// A domain-level refusal of `create_schema`.
#[derive(Clone, Copy, Debug, PartialEq, Eq, Structural)]
pub enum CreateSchemaError {
    SchemaAlreadyExists,
}

/// A domain-level refusal of `create_table`.
#[derive(Clone, Copy, Debug, PartialEq, Eq, Structural)]
pub enum CreateTableError {
    SchemaDoesNotExist,
    TableAlreadyExists,
}

/// A domain-level refusal of `drop_schema`.
#[derive(Clone, Copy, Debug, PartialEq, Eq, Structural)]
pub enum DropSchemaError {
    /// Reserved for multi-catalog support; never produced here.
    CatalogDoesNotExist,
    DoesNotExist,
    HasDependentObjects,
}

/// A domain-level refusal of a record operation on a table.
#[derive(Clone, Debug, PartialEq, Eq)]
pub enum OperationOnTableError {
    SchemaDoesNotExist,
    TableDoesNotExist,
    /// Every unresolved column name, in statement order.
    ColumnDoesNotExist(Vec<String>),
    /// Every constraint violation of the statement, deduplicated by column.
    ConstraintViolations(Vec<(ConstraintError, ColumnDefinition)>),
    /// A row does not have exactly one value per column.
    ArityMismatch,
}

/// The mathematical form of an `OperationOnTableError`.
#[verifier::ext_equal]
pub enum OpTableErrorView {
    SchemaDoesNotExist,
    TableDoesNotExist,
    ColumnDoesNotExist(Seq<Seq<char>>),
    ConstraintViolations(Seq<(ConstraintErrorView, ColumnView)>),
    ArityMismatch,
}

impl View for OperationOnTableError {
    type V = OpTableErrorView;

    open spec fn view(&self) -> OpTableErrorView {
        match self {
            OperationOnTableError::SchemaDoesNotExist => OpTableErrorView::SchemaDoesNotExist,
            OperationOnTableError::TableDoesNotExist => OpTableErrorView::TableDoesNotExist,
            OperationOnTableError::ColumnDoesNotExist(names) => OpTableErrorView::ColumnDoesNotExist(
                names.deep_view(),
            ),
            OperationOnTableError::ConstraintViolations(vs) => OpTableErrorView::ConstraintViolations(
                vs.deep_view(),
            ),
            OperationOnTableError::ArityMismatch => OpTableErrorView::ArityMismatch,
        }
    }
}

/// The catalog owner: all storage operations go through it.
pub struct DataManager {
    pub schemas: Vec<Schema>,
}

impl View for DataManager {
    type V = Seq<SchemaView>;

    open spec fn view(&self) -> Seq<SchemaView> {
        self.schemas.deep_view()
    }
}

// ------------------------------------------------------------------
// Executable lookups.
// ------------------------------------------------------------------

fn find_schema_idx(schemas: &Vec<Schema>, name: &str) -> (r: Option<usize>)
    ensures
        r matches Some(i) ==> find_name(schema_names(schemas.deep_view()), name@) == i,
        r is None ==> find_name(schema_names(schemas.deep_view()), name@) == -1,
{
    let ghost names = schema_names(schemas.deep_view());
    let mut i: usize = 0;
    while i < schemas.len()
        invariant
            0 <= i <= schemas.len(),
            names == schema_names(schemas.deep_view()),
            names.len() == schemas.len(),
            forall|j: int| 0 <= j < i ==> names[j] != name@,
        decreases schemas.len() - i,
    {
        if str_eq(schemas[i].name.as_str(), name) {
            proof {
                lemma_find_name_at(names, name@, i as int);
            }
            return Some(i);
        }
        i = i + 1;
    }
    proof {
        lemma_find_name_none(names, name@);
    }
    None
}

fn find_table_idx(tables: &Vec<Table>, name: &str) -> (r: Option<usize>)
    ensures
        r matches Some(i) ==> find_name(table_names(tables.deep_view()), name@) == i,
        r is None ==> find_name(table_names(tables.deep_view()), name@) == -1,
{
    let ghost names = table_names(tables.deep_view());
    let mut i: usize = 0;
    while i < tables.len()
        invariant
            0 <= i <= tables.len(),
            names == table_names(tables.deep_view()),
            names.len() == tables.len(),
            forall|j: int| 0 <= j < i ==> names[j] != name@,
        decreases tables.len() - i,
    {
        if str_eq(tables[i].name.as_str(), name) {
            proof {
                lemma_find_name_at(names, name@, i as int);
            }
            return Some(i);
        }
        i = i + 1;
    }
    proof {
        lemma_find_name_none(names, name@);
    }
    None
}

fn find_column_idx(columns: &Vec<ColumnDefinition>, name: &str) -> (r: Option<usize>)
    ensures
        r matches Some(i) ==> find_name(column_names(columns.deep_view()), name@) == i,
        r is None ==> find_name(column_names(columns.deep_view()), name@) == -1,
{
    let ghost names = column_names(columns.deep_view());
    let mut i: usize = 0;
    while i < columns.len()
        invariant
            0 <= i <= columns.len(),
            names == column_names(columns.deep_view()),
            names.len() == columns.len(),
            forall|j: int| 0 <= j < i ==> names[j] != name@,
        decreases columns.len() - i,
    {
        if str_eq(columns[i].name.as_str(), name) {
            proof {
                lemma_find_name_at(names, name@, i as int);
            }
            return Some(i);
        }
        i = i + 1;
    }
    proof {
        lemma_find_name_none(names, name@);
    }
    None
}

/// A copy of a record.
fn clone_row(r: &Vec<String>) -> (c: Vec<String>)
    ensures
        c@ == r@,
{
    let mut c: Vec<String> = Vec::new();
    let mut i: usize = 0;
    while i < r.len()
        invariant
            0 <= i <= r.len(),
            c@ == r@.take(i as int),
        decreases r.len() - i,
    {
        c.push(r[i].clone());
        proof {
            assert(r@.take(i + 1) =~= r@.take(i as int).push(r@[i as int]));
        }
        i = i + 1;
    }
    proof {
        assert(r@.take(r@.len() as int) =~= r@);
    }
    c
}

// ------------------------------------------------------------------
// Catalog operations.
// ------------------------------------------------------------------

impl DataManager {
    /// An empty catalog.
    pub fn new() -> (d: DataManager)
        ensures
            d@.len() == 0,
            catalog_wf(d@),
    {
        DataManager { schemas: Vec::new() }
    }

    /// Looks a schema up by name; no side effect.
    pub fn schema_exists(&self, schema_name: &str) -> (r: Option<SchemaId>)
        ensures
            r is Some <==> find_name(schema_names(self@), schema_name@) >= 0,
            r matches Some(id) ==> id@ == schema_name@,
    {
        match find_schema_idx(&self.schemas, schema_name) {
            Some(_) => Some(SchemaId::new(schema_name)),
            None => None,
        }
    }

    /// Creates an empty schema; refuses a name already in use.
    pub fn create_schema(&mut self, schema_name: &str) -> (r: Result<SchemaId, CreateSchemaError>)
        requires
            catalog_wf(old(self)@),
        ensures
            catalog_wf(final(self)@),
            find_name(schema_names(old(self)@), schema_name@) >= 0 ==> r
                == Err::<SchemaId, CreateSchemaError>(CreateSchemaError::SchemaAlreadyExists)
                && final(self)@ == old(self)@,
            find_name(schema_names(old(self)@), schema_name@) < 0 ==> (r matches Ok(id) && id@
                == schema_name@) && final(self)@ == old(self)@.push(
                SchemaView { name: schema_name@, tables: Seq::empty() },
            ),
    {
        match find_schema_idx(&self.schemas, schema_name) {
            Some(_) => Err(CreateSchemaError::SchemaAlreadyExists),
            None => {
                let schema = Schema { name: schema_name.to_owned(), tables: Vec::new() };
                self.schemas.push(schema);
                proof {
                    lemma_find_name(schema_names(old(self)@), schema_name@);
                    assert(self@ =~~= old(self)@.push(
                        SchemaView { name: schema_name@, tables: Seq::empty() },
                    ));
                    assert forall|i: int| 0 <= i < self@.len() implies schema_wf(
                        #[trigger] self@[i],
                    ) by {
                        if i < old(self)@.len() {
                            assert(self@[i] == old(self)@[i]);
                        } else {
                            assert(self@[i] == SchemaView {
                                name: schema_name@,
                                tables: Seq::empty(),
                            });
                        }
                    }
                    assert forall|i: int, j: int|
                        #![trigger self@[i].name, self@[j].name]
                        0 <= i < j < self@.len() implies self@[i].name != self@[j].name by {
                        assert(self@[i] == old(self)@[i]);
                        if j < old(self)@.len() {
                            assert(self@[j] == old(self)@[j]);
                        } else {
                            assert(schema_names(old(self)@)[i] == old(self)@[i].name);
                        }
                    }
                }
                Ok(SchemaId::new(schema_name))
            },
        }
    }

    /// Drops a schema.  Under `Restrict` a schema that still owns tables is
    /// refused; under `Cascade` its tables are removed with it, in creation
    /// order.
    pub fn drop_schema(&mut self, schema_id: &SchemaId, strategy: DropStrategy) -> (r: Result<
        Result<(), DropSchemaError>,
        SystemError,
    >)
        requires
            catalog_wf(old(self)@),
        ensures
            catalog_wf(final(self)@),
            r is Ok,
            find_name(schema_names(old(self)@), schema_id@) < 0 ==> r == Ok::<
                Result<(), DropSchemaError>,
                SystemError,
            >(Err(DropSchemaError::DoesNotExist)) && final(self)@ == old(self)@,
            (find_name(schema_names(old(self)@), schema_id@) >= 0 && strategy
                == DropStrategy::Restrict && old(self)@[find_name(
                schema_names(old(self)@),
                schema_id@,
            )].tables.len() > 0) ==> r == Ok::<Result<(), DropSchemaError>, SystemError>(
                Err(DropSchemaError::HasDependentObjects),
            ) && final(self)@ == old(self)@,
            (find_name(schema_names(old(self)@), schema_id@) >= 0 && (strategy
                == DropStrategy::Cascade || old(self)@[find_name(
                schema_names(old(self)@),
                schema_id@,
            )].tables.len() == 0)) ==> r == Ok::<Result<(), DropSchemaError>, SystemError>(Ok(()))
                && final(self)@ == old(self)@.remove(
                find_name(schema_names(old(self)@), schema_id@),
            ),
    {
        proof {
            lemma_find_name(schema_names(old(self)@), schema_id@);
        }
        match find_schema_idx(&self.schemas, schema_id.name()) {
            None => Ok(Err(DropSchemaError::DoesNotExist)),
            Some(i) => {
                let has_tables = self.schemas[i].tables.len() > 0;
                match strategy {
                    DropStrategy::Restrict if has_tables => Ok(
                        Err(DropSchemaError::HasDependentObjects),
                    ),
                    _ => {
                        self.schemas.remove(i);
                        proof {
                            assert(self@ =~~= old(self)@.remove(i as int));
                            assert forall|k: int| 0 <= k < self@.len() implies schema_wf(
                                #[trigger] self@[k],
                            ) by {
                                if k < i {
                                    assert(self@[k] == old(self)@[k]);
                                } else {
                                    assert(self@[k] == old(self)@[k + 1]);
                                }
                            }
                            assert forall|k: int, l: int|
                                0 <= k < l < self@.len() implies self@[k].name
                                != self@[l].name by {
                                let k0 = if k < i {
                                    k
                                } else {
                                    k + 1
                                };
                                let l0 = if l < i {
                                    l
                                } else {
                                    l + 1
                                };
                                assert(self@[k] == old(self)@[k0]);
                                assert(self@[l] == old(self)@[l0]);
                            }
                        }
                        Ok(Ok(()))
                    },
                }
            },
        }
    }

    /// Creates a table with the given columns inside an existing schema;
    /// refuses a table name already in use there.
    pub fn create_table(
        &mut self,
        schema_name: &str,
        table_name: &str,
        columns: Vec<ColumnDefinition>,
    ) -> (r: Result<(), CreateTableError>)
        requires
            catalog_wf(old(self)@),
        ensures
            catalog_wf(final(self)@),
            find_name(schema_names(old(self)@), schema_name@) < 0 ==> r == Err::<
                (),
                CreateTableError,
            >(CreateTableError::SchemaDoesNotExist) && final(self)@ == old(self)@,
            (find_name(schema_names(old(self)@), schema_name@) >= 0 && find_name(
                table_names(
                    old(self)@[find_name(schema_names(old(self)@), schema_name@)].tables,
                ),
                table_name@,
            ) >= 0) ==> r == Err::<(), CreateTableError>(CreateTableError::TableAlreadyExists)
                && final(self)@ == old(self)@,
            (find_name(schema_names(old(self)@), schema_name@) >= 0 && find_name(
                table_names(
                    old(self)@[find_name(schema_names(old(self)@), schema_name@)].tables,
                ),
                table_name@,
            ) < 0) ==> r == Ok::<(), CreateTableError>(()) && final(self)@ == with_tables(
                old(self)@,
                find_name(schema_names(old(self)@), schema_name@),
                old(self)@[find_name(schema_names(old(self)@), schema_name@)].tables.push(
                    TableView {
                        name: table_name@,
                        columns: columns.deep_view(),
                        records: Seq::empty(),
                    },
                ),
            ),
    {
        proof {
            lemma_find_name(schema_names(old(self)@), schema_name@);
        }
        let si = match find_schema_idx(&self.schemas, schema_name) {
            None => {
                return Err(CreateTableError::SchemaDoesNotExist);
            },
            Some(i) => i,
        };
        let ghost old_tables = old(self)@[si as int].tables;
        proof {
            lemma_find_name(table_names(old_tables), table_name@);
        }
        match find_table_idx(&self.schemas[si].tables, table_name) {
            Some(_) => Err(CreateTableError::TableAlreadyExists),
            None => {
                let table = Table {
                    name: table_name.to_owned(),
                    columns,
                    records: Vec::new(),
                };
                let ghost tv = TableView {
                    name: table_name@,
                    columns: table.columns.deep_view(),
                    records: Seq::empty(),
                };
                let schema = &mut self.schemas[si];
                schema.tables.push(table);
                proof {
                    assert(self@ =~~= with_tables(
                        old(self)@,
                        si as int,
                        old_tables.push(tv),
                    ));
                    assert forall|i: int| 0 <= i < self@.len() implies schema_wf(
                        #[trigger] self@[i],
                    ) by {
                        if i != si {
                            assert(self@[i] == old(self)@[i]);
                        } else {
                            let s = self@[i];
                            assert(s.tables == old_tables.push(tv));
                            assert forall|k: int| 0 <= k < s.tables.len() implies table_wf(
                                #[trigger] s.tables[k],
                            ) by {
                                if k < old_tables.len() {
                                    assert(s.tables[k] == old_tables[k]);
                                } else {
                                    assert(s.tables[k] == tv);
                                }
                            }
                            assert forall|k: int, l: int|
                                #![trigger s.tables[k].name, s.tables[l].name]
                                0 <= k < l < s.tables.len() implies s.tables[k].name
                                != s.tables[l].name by {
                                assert(s.tables[k] == old_tables[k]);
                                if l < old_tables.len() {
                                    assert(s.tables[l] == old_tables[l]);
                                } else {
                                    assert(table_names(old_tables)[k] == old_tables[k].name);
                                }
                            }
                        }
                    }
                    assert forall|i: int, j: int|
                        #![trigger self@[i].name, self@[j].name]
                        0 <= i < j < self@.len() implies self@[i].name != self@[j].name by {
                        assert(self@[i].name == old(self)@[i].name);
                        assert(self@[j].name == old(self)@[j].name);
                    }
                }
                Ok(())
            },
        }
    }

    /// Drops a table from a schema.
    pub fn drop_table(&mut self, schema_name: &str, table_name: &str) -> (r: Result<
        Result<(), OperationOnTableError>,
        SystemError,
    >)
        requires
            catalog_wf(old(self)@),
        ensures
            catalog_wf(final(self)@),
            r is Ok,
            find_name(schema_names(old(self)@), schema_name@) < 0 ==> r == Ok::<
                Result<(), OperationOnTableError>,
                SystemError,
            >(Err(OperationOnTableError::SchemaDoesNotExist)) && final(self)@ == old(self)@,
            (find_name(schema_names(old(self)@), schema_name@) >= 0 && find_name(
                table_names(
                    old(self)@[find_name(schema_names(old(self)@), schema_name@)].tables,
                ),
                table_name@,
            ) < 0) ==> r == Ok::<Result<(), OperationOnTableError>, SystemError>(
                Err(OperationOnTableError::TableDoesNotExist),
            ) && final(self)@ == old(self)@,
            (find_name(schema_names(old(self)@), schema_name@) >= 0 && find_name(
                table_names(
                    old(self)@[find_name(schema_names(old(self)@), schema_name@)].tables,
                ),
                table_name@,
            ) >= 0) ==> r == Ok::<Result<(), OperationOnTableError>, SystemError>(Ok(()))
                && final(self)@ == with_tables(
                old(self)@,
                find_name(schema_names(old(self)@), schema_name@),
                old(self)@[find_name(schema_names(old(self)@), schema_name@)].tables.remove(
                    find_name(
                        table_names(
                            old(self)@[find_name(schema_names(old(self)@), schema_name@)].tables,
                        ),
                        table_name@,
                    ),
                ),
            ),
    {
        proof {
            lemma_find_name(schema_names(old(self)@), schema_name@);
        }
        let si = match find_schema_idx(&self.schemas, schema_name) {
            None => {
                return Ok(Err(OperationOnTableError::SchemaDoesNotExist));
            },
            Some(i) => i,
        };
        let ghost old_tables = old(self)@[si as int].tables;
        proof {
            lemma_find_name(table_names(old_tables), table_name@);
        }
        let ti = match find_table_idx(&self.schemas[si].tables, table_name) {
            None => {
                return Ok(Err(OperationOnTableError::TableDoesNotExist));
            },
            Some(i) => i,
        };
        let schema = &mut self.schemas[si];
        schema.tables.remove(ti);
        proof {
            assert(self@ =~~= with_tables(old(self)@, si as int, old_tables.remove(ti as int)));
            assert forall|i: int| 0 <= i < self@.len() implies schema_wf(#[trigger] self@[i]) by {
                if i != si {
                    assert(self@[i] == old(self)@[i]);
                } else {
                    let s = self@[i];
                    assert forall|k: int| 0 <= k < s.tables.len() implies table_wf(
                        #[trigger] s.tables[k],
                    ) by {
                        if k < ti {
                            assert(s.tables[k] == old_tables[k]);
                        } else {
                            assert(s.tables[k] == old_tables[k + 1]);
                        }
                    }
                    assert forall|k: int, l: int|
                        #![trigger s.tables[k].name, s.tables[l].name]
                        0 <= k < l < s.tables.len() implies s.tables[k].name != s.tables[l].name by {
                        let k0 = if k < ti {
                            k
                        } else {
                            k + 1
                        };
                        let l0 = if l < ti {
                            l
                        } else {
                            l + 1
                        };
                        assert(s.tables[k] == old_tables[k0]);
                        assert(s.tables[l] == old_tables[l0]);
                    }
                }
            }
            assert forall|i: int, j: int|
                #![trigger self@[i].name, self@[j].name]
                0 <= i < j < self@.len() implies self@[i].name != self@[j].name by {
                assert(self@[i].name == old(self)@[i].name);
                assert(self@[j].name == old(self)@[j].name);
            }
        }
        Ok(Ok(()))
    }

    /// The column definitions of a table, in ordinal order.
    pub fn table_columns(&self, schema_name: &str, table_name: &str) -> (r: Result<
        Vec<ColumnDefinition>,
        OperationOnTableError,
    >)
        ensures
            find_name(schema_names(self@), schema_name@) < 0 ==> (r matches Err(e) && e
                == OperationOnTableError::SchemaDoesNotExist),
            (find_name(schema_names(self@), schema_name@) >= 0 && find_name(
                table_names(self@[find_name(schema_names(self@), schema_name@)].tables),
                table_name@,
            ) < 0) ==> (r matches Err(e) && e == OperationOnTableError::TableDoesNotExist),
            (find_name(schema_names(self@), schema_name@) >= 0 && find_name(
                table_names(self@[find_name(schema_names(self@), schema_name@)].tables),
                table_name@,
            ) >= 0) ==> (r matches Ok(cols) && cols.deep_view() == self@[find_name(
                schema_names(self@),
                schema_name@,
            )].tables[find_name(
                table_names(self@[find_name(schema_names(self@), schema_name@)].tables),
                table_name@,
            )].columns),
    {
        proof {
            lemma_find_name(schema_names(self@), schema_name@);
        }
        let si = match find_schema_idx(&self.schemas, schema_name) {
            None => {
                return Err(OperationOnTableError::SchemaDoesNotExist);
            },
            Some(i) => i,
        };
        proof {
            lemma_find_name(table_names(self@[si as int].tables), table_name@);
        }
        let ti = match find_table_idx(&self.schemas[si].tables, table_name) {
            None => {
                return Err(OperationOnTableError::TableDoesNotExist);
            },
            Some(i) => i,
        };
        let cols = clone_columns(&self.schemas[si].tables[ti].columns);
        Ok(cols)
    }

    /// Removes every record of a table; returns how many were removed.
    pub fn delete_all_from(&mut self, schema_name: &str, table_name: &str) -> (r: Result<
        Result<usize, OperationOnTableError>,
        SystemError,
    >)
        requires
            catalog_wf(old(self)@),
        ensures
            catalog_wf(final(self)@),
            r is Ok,
            find_name(schema_names(old(self)@), schema_name@) < 0 ==> r == Ok::<
                Result<usize, OperationOnTableError>,
                SystemError,
            >(Err(OperationOnTableError::SchemaDoesNotExist)) && final(self)@ == old(self)@,
            (find_name(schema_names(old(self)@), schema_name@) >= 0 && find_name(
                table_names(
                    old(self)@[find_name(schema_names(old(self)@), schema_name@)].tables,
                ),
                table_name@,
            ) < 0) ==> r == Ok::<Result<usize, OperationOnTableError>, SystemError>(
                Err(OperationOnTableError::TableDoesNotExist),
            ) && final(self)@ == old(self)@,
            (find_name(schema_names(old(self)@), schema_name@) >= 0 && find_name(
                table_names(
                    old(self)@[find_name(schema_names(old(self)@), schema_name@)].tables,
                ),
                table_name@,
            ) >= 0) ==> (r matches Ok(ir) && ir matches Ok(n) && n == old(self)@[find_name(
                schema_names(old(self)@),
                schema_name@,
            )].tables[find_name(
                table_names(
                    old(self)@[find_name(schema_names(old(self)@), schema_name@)].tables,
                ),
                table_name@,
            )].records.len()) && final(self)@ == with_table_records(
                old(self)@,
                find_name(schema_names(old(self)@), schema_name@),
                find_name(
                    table_names(
                        old(self)@[find_name(schema_names(old(self)@), schema_name@)].tables,
                    ),
                    table_name@,
                ),
                Seq::empty(),
            ),
    {
        proof {
            lemma_find_name(schema_names(old(self)@), schema_name@);
        }
        let si = match find_schema_idx(&self.schemas, schema_name) {
            None => {
                return Ok(Err(OperationOnTableError::SchemaDoesNotExist));
            },
            Some(i) => i,
        };
        proof {
            lemma_find_name(table_names(old(self)@[si as int].tables), table_name@);
        }
        let ti = match find_table_idx(&self.schemas[si].tables, table_name) {
            None => {
                return Ok(Err(OperationOnTableError::TableDoesNotExist));
            },
            Some(i) => i,
        };
        let schema = &mut self.schemas[si];
        let table = &mut schema.tables[ti];
        let n = table.records.len();
        table.records = Vec::new();
        proof {
            assert(self@ =~~= with_table_records(
                old(self)@,
                si as int,
                ti as int,
                Seq::empty(),
            ));
            lemma_with_table_records_wf(old(self)@, si as int, ti as int, Seq::empty());
        }
        Ok(Ok(n))
    }
}

// ------------------------------------------------------------------
// Update and projection semantics.
// ------------------------------------------------------------------

/// The names of an assignment list, in statement order.
pub open spec fn assignment_names(asg: Seq<(Seq<char>, Seq<char>)>) -> Seq<Seq<char>> {
    asg.map_values(|p: (Seq<char>, Seq<char>)| p.0)
}

/// The names among `names` that resolve to no column, in statement order.
pub open spec fn unresolved_columns(cols: Seq<ColumnView>, names: Seq<Seq<char>>) -> Seq<
    Seq<char>,
>
    decreases names.len(),
{
    if names.len() == 0 {
        Seq::empty()
    } else {
        let rest = unresolved_columns(cols, names.drop_last());
        if find_name(column_names(cols), names.last()) < 0 {
            rest.push(names.last())
        } else {
            rest
        }
    }
}

/// The constraint violations of an assignment list: one entry per assignment
/// whose value fails its resolved column's type rules, in statement order.
pub open spec fn update_violations(
    cols: Seq<ColumnView>,
    asg: Seq<(Seq<char>, Seq<char>)>,
) -> Seq<(ConstraintErrorView, ColumnView)>
    decreases asg.len(),
{
    if asg.len() == 0 {
        Seq::empty()
    } else {
        let rest = update_violations(cols, asg.drop_last());
        let ci = find_name(column_names(cols), asg.last().0);
        if ci >= 0 {
            match check_value(asg.last().1, cols[ci].ty) {
                Some(e) => rest.push((e, cols[ci])),
                None => rest,
            }
        } else {
            rest
        }
    }
}

/// One record after an assignment list is applied to it, in statement order
/// (a later assignment to the same column wins).
pub open spec fn apply_assignments(
    rec: Seq<Seq<char>>,
    cols: Seq<ColumnView>,
    asg: Seq<(Seq<char>, Seq<char>)>,
) -> Seq<Seq<char>>
    decreases asg.len(),
{
    if asg.len() == 0 {
        rec
    } else {
        let prev = apply_assignments(rec, cols, asg.drop_last());
        let ci = find_name(column_names(cols), asg.last().0);
        if ci >= 0 {
            prev.update(ci, asg.last().1)
        } else {
            prev
        }
    }
}

pub proof fn lemma_apply_assignments_len(
    rec: Seq<Seq<char>>,
    cols: Seq<ColumnView>,
    asg: Seq<(Seq<char>, Seq<char>)>,
)
    requires
        rec.len() == cols.len(),
    ensures
        apply_assignments(rec, cols, asg).len() == rec.len(),
    decreases asg.len(),
{
    if asg.len() > 0 {
        lemma_apply_assignments_len(rec, cols, asg.drop_last());
        lemma_find_name(column_names(cols), asg.last().0);
    }
}

/// A table's records after a full-table update.
pub open spec fn updated_records(t: TableView, asg: Seq<(Seq<char>, Seq<char>)>) -> Seq<
    Seq<Seq<char>>,
> {
    t.records.map_values(|rec: Seq<Seq<char>>| apply_assignments(rec, t.columns, asg))
}

/// One record projected onto a list of resolved column names.
pub open spec fn project_record(
    rec: Seq<Seq<char>>,
    cols: Seq<ColumnView>,
    names: Seq<Seq<char>>,
) -> Seq<Seq<char>> {
    names.map_values(|n: Seq<char>| rec[find_name(column_names(cols), n)])
}

/// The column definitions a list of resolved names selects.
pub open spec fn selected_columns(cols: Seq<ColumnView>, names: Seq<Seq<char>>) -> Seq<
    ColumnView,
> {
    names.map_values(|n: Seq<char>| cols[find_name(column_names(cols), n)])
}

impl DataManager {
    /// Applies every assignment to every stored record of a table.  All
    /// assignment names must resolve (unresolved names are reported together)
    /// and, when the table has records, every assigned value must satisfy its
    /// column's type rules (violations are reported together); only then are
    /// the records replaced.  Returns how many records were updated.
    #[verifier::loop_isolation(false)]
    pub fn update_all(
        &mut self,
        schema_name: &str,
        table_name: &str,
        assignments: Vec<(String, String)>,
    ) -> (r: Result<Result<usize, OperationOnTableError>, SystemError>)
        requires
            catalog_wf(old(self)@),
        ensures
            catalog_wf(final(self)@),
            r is Ok,
            find_name(schema_names(old(self)@), schema_name@) < 0 ==> r == Ok::<
                Result<usize, OperationOnTableError>,
                SystemError,
            >(Err(OperationOnTableError::SchemaDoesNotExist)) && final(self)@ == old(self)@,
            (find_name(schema_names(old(self)@), schema_name@) >= 0 && find_name(
                table_names(
                    old(self)@[find_name(schema_names(old(self)@), schema_name@)].tables,
                ),
                table_name@,
            ) < 0) ==> r == Ok::<Result<usize, OperationOnTableError>, SystemError>(
                Err(OperationOnTableError::TableDoesNotExist),
            ) && final(self)@ == old(self)@,
            update_target(old(self)@, schema_name@, table_name@) matches Some(t) ==> (
            unresolved_columns(t.columns, assignment_names(assignments.deep_view())).len() > 0
                ==> ((r matches Ok(ir) && ir matches Err(e) && e@
                == OpTableErrorView::ColumnDoesNotExist(
                unresolved_columns(t.columns, assignment_names(assignments.deep_view())),
            )) && final(self)@ == old(self)@)),
            update_target(old(self)@, schema_name@, table_name@) matches Some(t) ==> ((
            unresolved_columns(t.columns, assignment_names(assignments.deep_view())).len() == 0
                && t.records.len() > 0 && update_violations(
                t.columns,
                assignments.deep_view(),
            ).len() > 0) ==> ((r matches Ok(ir) && ir matches Err(e) && e@
                == OpTableErrorView::ConstraintViolations(
                update_violations(t.columns, assignments.deep_view()),
            )) && final(self)@ == old(self)@)),
            update_target(old(self)@, schema_name@, table_name@) matches Some(t) ==> ((
            unresolved_columns(t.columns, assignment_names(assignments.deep_view())).len() == 0
                && (t.records.len() == 0 || update_violations(
                t.columns,
                assignments.deep_view(),
            ).len() == 0)) ==> ((r matches Ok(ir) && ir matches Ok(n) && n == t.records.len())
                && final(self)@ == with_table_records(
                old(self)@,
                find_name(schema_names(old(self)@), schema_name@),
                find_name(
                    table_names(
                        old(self)@[find_name(schema_names(old(self)@), schema_name@)].tables,
                    ),
                    table_name@,
                ),
                updated_records(t, assignments.deep_view()),
            ))),
    {
        proof {
            lemma_find_name(schema_names(old(self)@), schema_name@);
        }
        let si = match find_schema_idx(&self.schemas, schema_name) {
            None => {
                return Ok(Err(OperationOnTableError::SchemaDoesNotExist));
            },
            Some(i) => i,
        };
        proof {
            lemma_find_name(table_names(old(self)@[si as int].tables), table_name@);
        }
        let ti = match find_table_idx(&self.schemas[si].tables, table_name) {
            None => {
                return Ok(Err(OperationOnTableError::TableDoesNotExist));
            },
            Some(i) => i,
        };
        let ghost t = old(self)@[si as int].tables[ti as int];
        let ghost cols = t.columns;
        let ghost asgv = assignments.deep_view();
        let ghost names = assignment_names(asgv);

        let table = &self.schemas[si].tables[ti];

        // Resolve every assignment name; collect the unresolved ones.
        let mut missing: Vec<String> = Vec::new();
        let mut idxs: Vec<usize> = Vec::new();
        let mut k: usize = 0;
        while k < assignments.len()
            invariant
                0 <= k <= assignments.len(),
                missing.deep_view() == unresolved_columns(cols, names.take(k as int)),
                missing@.len() == 0 ==> idxs@.len() == k,
                missing@.len() == 0 ==> forall|j: int|
                    0 <= j < k ==> idxs@[j] == find_name(column_names(cols), asgv[j].0) && 0 <= (
                    #[trigger] idxs@[j]) < cols.len(),
            decreases assignments.len() - k,
        {
            proof {
                assert(asgv[k as int] == (assignments@[k as int].0@, assignments@[k as int].1@));
                assert(names[k as int] == asgv[k as int].0);
                assert(names.take(k + 1).drop_last() =~= names.take(k as int));
                assert(names.take(k + 1).last() == names[k as int]);
                lemma_find_name(column_names(cols), names[k as int]);
            }
            match find_column_idx(&table.columns, assignments[k].0.as_str()) {
                Some(ci) => {
                    idxs.push(ci);
                },
                None => {
                    missing.push(assignments[k].0.clone());
                    proof {
                        assert(missing.deep_view() =~= unresolved_columns(
                            cols,
                            names.take(k as int),
                        ).push(names[k as int]));
                    }
                },
            }
            k = k + 1;
        }
        proof {
            assert(names.take(assignments@.len() as int) =~= names);
        }
        if missing.len() > 0 {
            return Ok(Err(OperationOnTableError::ColumnDoesNotExist(missing)));
        }

        // Validate every assigned value against its column's declared type.
        let mut viols: Vec<(ConstraintError, ColumnDefinition)> = Vec::new();
        let mut k: usize = 0;
        while k < assignments.len()
            invariant
                0 <= k <= assignments.len(),
                viols.deep_view() == update_violations(cols, asgv.take(k as int)),
            decreases assignments.len() - k,
        {
            proof {
                assert(asgv[k as int] == (assignments@[k as int].0@, assignments@[k as int].1@));
                assert(asgv.take(k + 1).drop_last() =~= asgv.take(k as int));
                assert(asgv.take(k + 1).last() == asgv[k as int]);
            }
            let ci = idxs[k];
            let column = &table.columns[ci];
            proof {
                assert(column@ == cols[ci as int]);
            }
            match validate(assignments[k].1.as_str(), column.sql_type) {
                Ok(_) => {},
                Err(e) => {
                    let pair = (e, clone_column(column));
                    viols.push(pair);
                    proof {
                        assert(viols.deep_view() =~= update_violations(
                            cols,
                            asgv.take(k as int),
                        ).push((pair.0@, cols[ci as int])));
                    }
                },
            }
            k = k + 1;
        }
        proof {
            assert(asgv.take(assignments@.len() as int) =~= asgv);
        }
        let row_count = table.records.len();
        if row_count > 0 && viols.len() > 0 {
            return Ok(Err(OperationOnTableError::ConstraintViolations(viols)));
        }

        // All checks passed: apply every assignment to every record.
        let mut new_records: Vec<Vec<String>> = Vec::new();
        let mut ri: usize = 0;
        while ri < table.records.len()
            invariant
                0 <= ri <= table.records.len(),
                new_records.deep_view() == t.records.take(ri as int).map_values(
                    |rec: Seq<Seq<char>>| apply_assignments(rec, cols, asgv),
                ),
            decreases table.records.len() - ri,
        {
            let mut row = clone_row(&table.records[ri]);
            proof {
                assert(row.deep_view() == t.records[ri as int]);
                assert(row.deep_view() == apply_assignments(
                    t.records[ri as int],
                    cols,
                    asgv.take(0),
                ));
            }
            let mut k: usize = 0;
            while k < assignments.len()
                invariant
                    0 <= k <= assignments.len(),
                    row.deep_view() == apply_assignments(
                        t.records[ri as int],
                        cols,
                        asgv.take(k as int),
                    ),
                    ri < table.records.len(),
                decreases assignments.len() - k,
            {
                proof {
                    assert(asgv[k as int] == (
                        assignments@[k as int].0@,
                        assignments@[k as int].1@,
                    ));
                    assert(asgv.take(k + 1).drop_last() =~= asgv.take(k as int));
                    assert(asgv.take(k + 1).last() == asgv[k as int]);
                    lemma_apply_assignments_len(t.records[ri as int], cols, asgv.take(k as int));
                    assert(table_wf(t));
                    assert(t.records[ri as int].len() == cols.len());
                }
                let ci = idxs[k];
                row.set(ci, assignments[k].1.clone());
                proof {
                    assert(row.deep_view() =~= apply_assignments(
                        t.records[ri as int],
                        cols,
                        asgv.take(k as int),
                    ).update(ci as int, asgv[k as int].1));
                }
                k = k + 1;
            }
            proof {
                assert(asgv.take(assignments@.len() as int) =~= asgv);
            }
            new_records.push(row);
            proof {
                let f = |rec: Seq<Seq<char>>| apply_assignments(rec, cols, asgv);
                let target = t.records.take(ri + 1).map_values(f);
                assert forall|j: int| 0 <= j < target.len() implies new_records.deep_view()[j]
                    == target[j] by {
                    assert(target[j] == f(t.records.take(ri + 1)[j]));
                    assert(t.records.take(ri + 1)[j] == t.records[j]);
                    if j < ri {
                        assert(new_records.deep_view()[j] == t.records.take(ri as int).map_values(
                            f,
                        )[j]);
                        assert(t.records.take(ri as int)[j] == t.records[j]);
                    } else {
                        assert(new_records.deep_view()[j] == row.deep_view());
                    }
                }
                assert(new_records.deep_view() =~= target);
            }
            ri = ri + 1;
        }
        proof {
            assert(t.records.take(t.records.len() as int) =~= t.records);
        }
        let schema = &mut self.schemas[si];
        let tbl = &mut schema.tables[ti];
        tbl.records = new_records;
        proof {
            assert(self@ =~~= with_table_records(
                old(self)@,
                si as int,
                ti as int,
                updated_records(t, asgv),
            ));
            assert forall|j: int| 0 <= j < updated_records(t, asgv).len() implies (
            #[trigger] updated_records(t, asgv)[j]).len() == cols.len() by {
                lemma_apply_assignments_len(t.records[j], cols, asgv);
                assert(t.records[j].len() == cols.len());
            }
            lemma_with_table_records_wf(
                old(self)@,
                si as int,
                ti as int,
                updated_records(t, asgv),
            );
        }
        Ok(Ok(row_count))
    }
}

/// Whether an earlier row of the statement already failed at column `j`.
pub open spec fn column_failed_before(
    cols: Seq<ColumnView>,
    rows: Seq<Seq<Seq<char>>>,
    r: int,
    j: int,
) -> bool {
    exists|r2: int| 0 <= r2 < r && check_value((#[trigger] rows[r2])[j], cols[j].ty) is Some
}

/// The violations row `r` contributes among its first `j` columns: one entry
/// per failing column that no earlier row already failed at.
pub open spec fn row_violations_upto(
    cols: Seq<ColumnView>,
    rows: Seq<Seq<Seq<char>>>,
    r: int,
    j: int,
) -> Seq<(ConstraintErrorView, ColumnView)>
    decreases j,
{
    if j <= 0 {
        Seq::empty()
    } else {
        let rest = row_violations_upto(cols, rows, r, j - 1);
        match check_value(rows[r][j - 1], cols[j - 1].ty) {
            Some(e) => if !column_failed_before(cols, rows, r, j - 1) {
                rest.push((e, cols[j - 1]))
            } else {
                rest
            },
            None => rest,
        }
    }
}

/// The violations of the first `r` rows of an insert statement.
pub open spec fn insert_violations_upto(
    cols: Seq<ColumnView>,
    rows: Seq<Seq<Seq<char>>>,
    r: int,
) -> Seq<(ConstraintErrorView, ColumnView)>
    decreases r,
{
    if r <= 0 {
        Seq::empty()
    } else {
        insert_violations_upto(cols, rows, r - 1) + row_violations_upto(
            cols,
            rows,
            r - 1,
            cols.len() as int,
        )
    }
}

/// The constraint violations of a whole insert statement: the full row by
/// column cross product is validated, deduplicated by column (the first
/// failing row reports a column), in discovery order.
pub open spec fn insert_violations(
    cols: Seq<ColumnView>,
    rows: Seq<Seq<Seq<char>>>,
) -> Seq<(ConstraintErrorView, ColumnView)> {
    insert_violations_upto(cols, rows, rows.len() as int)
}

impl DataManager {
    /// A deterministic, insertion-order snapshot of a table, projected onto
    /// the requested column names (unresolved names are reported together).
    #[verifier::loop_isolation(false)]
    pub fn select_all_from(
        &self,
        schema_name: &str,
        table_name: &str,
        columns: Vec<String>,
    ) -> (r: Result<
        Result<(Vec<ColumnDefinition>, Vec<Vec<String>>), OperationOnTableError>,
        SystemError,
    >)
        requires
            catalog_wf(self@),
        ensures
            r is Ok,
            find_name(schema_names(self@), schema_name@) < 0 ==> (r matches Ok(ir)
                && ir matches Err(e) && e == OperationOnTableError::SchemaDoesNotExist),
            (find_name(schema_names(self@), schema_name@) >= 0 && find_name(
                table_names(self@[find_name(schema_names(self@), schema_name@)].tables),
                table_name@,
            ) < 0) ==> (r matches Ok(ir) && ir matches Err(e) && e
                == OperationOnTableError::TableDoesNotExist),
            update_target(self@, schema_name@, table_name@) matches Some(t) ==> (
            unresolved_columns(t.columns, columns.deep_view()).len() > 0 ==> (r matches Ok(ir)
                && ir matches Err(e) && e@ == OpTableErrorView::ColumnDoesNotExist(
                unresolved_columns(t.columns, columns.deep_view()),
            ))),
            update_target(self@, schema_name@, table_name@) matches Some(t) ==> (
            unresolved_columns(t.columns, columns.deep_view()).len() == 0 ==> (r matches Ok(ir)
                && ir matches Ok(pair) && pair.0.deep_view() == selected_columns(
                t.columns,
                columns.deep_view(),
            ) && pair.1.deep_view() == t.records.map_values(
                |rec: Seq<Seq<char>>| project_record(rec, t.columns, columns.deep_view()),
            ))),
    {
        proof {
            lemma_find_name(schema_names(self@), schema_name@);
        }
        let si = match find_schema_idx(&self.schemas, schema_name) {
            None => {
                return Ok(Err(OperationOnTableError::SchemaDoesNotExist));
            },
            Some(i) => i,
        };
        proof {
            lemma_find_name(table_names(self@[si as int].tables), table_name@);
        }
        let ti = match find_table_idx(&self.schemas[si].tables, table_name) {
            None => {
                return Ok(Err(OperationOnTableError::TableDoesNotExist));
            },
            Some(i) => i,
        };
        let ghost t = self@[si as int].tables[ti as int];
        let ghost cols = t.columns;
        let ghost names = columns.deep_view();
        let table = &self.schemas[si].tables[ti];

        // Resolve every requested name; collect the unresolved ones.
        let mut missing: Vec<String> = Vec::new();
        let mut idxs: Vec<usize> = Vec::new();
        let mut k: usize = 0;
        while k < columns.len()
            invariant
                0 <= k <= columns.len(),
                missing.deep_view() == unresolved_columns(cols, names.take(k as int)),
                missing@.len() == 0 ==> idxs@.len() == k,
                missing@.len() == 0 ==> forall|j: int|
                    0 <= j < k ==> idxs@[j] == find_name(column_names(cols), names[j]) && 0 <= (
                    #[trigger] idxs@[j]) < cols.len(),
            decreases columns.len() - k,
        {
            proof {
                assert(names[k as int] == columns@[k as int]@);
                assert(names.take(k + 1).drop_last() =~= names.take(k as int));
                assert(names.take(k + 1).last() == names[k as int]);
                lemma_find_name(column_names(cols), names[k as int]);
            }
            match find_column_idx(&table.columns, columns[k].as_str()) {
                Some(ci) => {
                    idxs.push(ci);
                },
                None => {
                    missing.push(columns[k].clone());
                    proof {
                        assert(missing.deep_view() =~= unresolved_columns(
                            cols,
                            names.take(k as int),
                        ).push(names[k as int]));
                    }
                },
            }
            k = k + 1;
        }
        proof {
            assert(names.take(columns@.len() as int) =~= names);
        }
        if missing.len() > 0 {
            return Ok(Err(OperationOnTableError::ColumnDoesNotExist(missing)));
        }

        // Project the column definitions in request order.
        let mut out_cols: Vec<ColumnDefinition> = Vec::new();
        let mut k: usize = 0;
        while k < columns.len()
            invariant
                0 <= k <= columns.len(),
                out_cols.deep_view() == selected_columns(cols, names.take(k as int)),
            decreases columns.len() - k,
        {
            out_cols.push(clone_column(&table.columns[idxs[k]]));
            proof {
                let target = selected_columns(cols, names.take(k + 1));
                assert forall|j: int| 0 <= j < target.len() implies out_cols.deep_view()[j]
                    == target[j] by {
                    assert(names.take(k + 1)[j] == names[j]);
                    if j < k {
                        assert(out_cols.deep_view()[j] == selected_columns(
                            cols,
                            names.take(k as int),
                        )[j]);
                        assert(names.take(k as int)[j] == names[j]);
                    }
                }
                assert(out_cols.deep_view() =~= target);
            }
            k = k + 1;
        }

        // Project every record in insertion order.
        let mut out_rows: Vec<Vec<String>> = Vec::new();
        let mut ri: usize = 0;
        while ri < table.records.len()
            invariant
                0 <= ri <= table.records.len(),
                out_rows.deep_view() == t.records.take(ri as int).map_values(
                    |rec: Seq<Seq<char>>| project_record(rec, cols, names),
                ),
            decreases table.records.len() - ri,
        {
            let record = &table.records[ri];
            proof {
                assert(table_wf(t));
                assert(record.deep_view() == t.records[ri as int]);
            }
            let mut row: Vec<String> = Vec::new();
            let mut k: usize = 0;
            while k < columns.len()
                invariant
                    0 <= k <= columns.len(),
                    row.deep_view() == project_record(t.records[ri as int], cols, names.take(
                        k as int,
                    )),
                    ri < table.records.len(),
                    record == &table.records@[ri as int],
                decreases columns.len() - k,
            {
                row.push(record[idxs[k]].clone());
                proof {
                    let target = project_record(t.records[ri as int], cols, names.take(k + 1));
                    assert forall|j: int| 0 <= j < target.len() implies row.deep_view()[j]
                        == target[j] by {
                        assert(names.take(k + 1)[j] == names[j]);
                        if j < k {
                            assert(row.deep_view()[j] == project_record(
                                t.records[ri as int],
                                cols,
                                names.take(k as int),
                            )[j]);
                            assert(names.take(k as int)[j] == names[j]);
                        }
                    }
                    assert(row.deep_view() =~= target);
                }
                k = k + 1;
            }
            proof {
                assert(names.take(columns@.len() as int) =~= names);
            }
            out_rows.push(row);
            proof {
                let f = |rec: Seq<Seq<char>>| project_record(rec, cols, names);
                let target = t.records.take(ri + 1).map_values(f);
                assert forall|j: int| 0 <= j < target.len() implies out_rows.deep_view()[j]
                    == target[j] by {
                    assert(target[j] == f(t.records.take(ri + 1)[j]));
                    assert(t.records.take(ri + 1)[j] == t.records[j]);
                    if j < ri {
                        assert(out_rows.deep_view()[j] == t.records.take(ri as int).map_values(
                            f,
                        )[j]);
                        assert(t.records.take(ri as int)[j] == t.records[j]);
                    }
                }
                assert(out_rows.deep_view() =~= target);
            }
            ri = ri + 1;
        }
        proof {
            assert(t.records.take(t.records.len() as int) =~= t.records);
        }
        Ok(Ok((out_cols, out_rows)))
    }

    /// Validates and appends whole records to a table.  Every row must have
    /// exactly one value per column; the full row by column cross product is
    /// validated (violations reported together, deduplicated by column)
    /// before anything is stored.  Returns how many records were inserted.
    #[verifier::loop_isolation(false)]
    pub fn insert_into(
        &mut self,
        schema_name: &str,
        table_name: &str,
        rows: Vec<Vec<String>>,
    ) -> (r: Result<Result<usize, OperationOnTableError>, SystemError>)
        requires
            catalog_wf(old(self)@),
        ensures
            catalog_wf(final(self)@),
            r is Ok,
            find_name(schema_names(old(self)@), schema_name@) < 0 ==> r == Ok::<
                Result<usize, OperationOnTableError>,
                SystemError,
            >(Err(OperationOnTableError::SchemaDoesNotExist)) && final(self)@ == old(self)@,
            (find_name(schema_names(old(self)@), schema_name@) >= 0 && find_name(
                table_names(
                    old(self)@[find_name(schema_names(old(self)@), schema_name@)].tables,
                ),
                table_name@,
            ) < 0) ==> r == Ok::<Result<usize, OperationOnTableError>, SystemError>(
                Err(OperationOnTableError::TableDoesNotExist),
            ) && final(self)@ == old(self)@,
            update_target(old(self)@, schema_name@, table_name@) matches Some(t) ==> (!(
            forall|k: int| 0 <= k < rows.deep_view().len() ==> (#[trigger] rows.deep_view()[k]).len()
                == t.columns.len()) ==> r == Ok::<Result<usize, OperationOnTableError>, SystemError>(
                Err(OperationOnTableError::ArityMismatch),
            ) && final(self)@ == old(self)@),
            update_target(old(self)@, schema_name@, table_name@) matches Some(t) ==> ((
            (forall|k: int| 0 <= k < rows.deep_view().len() ==> (#[trigger] rows.deep_view()[k]).len()
                == t.columns.len()) && insert_violations(t.columns, rows.deep_view()).len() > 0)
                ==> ((r matches Ok(ir) && ir matches Err(e) && e@
                == OpTableErrorView::ConstraintViolations(
                insert_violations(t.columns, rows.deep_view()),
            )) && final(self)@ == old(self)@)),
            update_target(old(self)@, schema_name@, table_name@) matches Some(t) ==> ((
            (forall|k: int| 0 <= k < rows.deep_view().len() ==> (#[trigger] rows.deep_view()[k]).len()
                == t.columns.len()) && insert_violations(t.columns, rows.deep_view()).len() == 0)
                ==> ((r matches Ok(ir) && ir matches Ok(n) && n == rows.deep_view().len())
                && final(self)@ == with_table_records(
                old(self)@,
                find_name(schema_names(old(self)@), schema_name@),
                find_name(
                    table_names(
                        old(self)@[find_name(schema_names(old(self)@), schema_name@)].tables,
                    ),
                    table_name@,
                ),
                t.records + rows.deep_view(),
            ))),
    {
        proof {
            lemma_find_name(schema_names(old(self)@), schema_name@);
        }
        let si = match find_schema_idx(&self.schemas, schema_name) {
            None => {
                return Ok(Err(OperationOnTableError::SchemaDoesNotExist));
            },
            Some(i) => i,
        };
        proof {
            lemma_find_name(table_names(old(self)@[si as int].tables), table_name@);
        }
        let ti = match find_table_idx(&self.schemas[si].tables, table_name) {
            None => {
                return Ok(Err(OperationOnTableError::TableDoesNotExist));
            },
            Some(i) => i,
        };
        let ghost t = old(self)@[si as int].tables[ti as int];
        let ghost cols = t.columns;
        let ghost rowsv = rows.deep_view();
        let table = &self.schemas[si].tables[ti];
        let ncols = table.columns.len();

        // Every row must have exactly one value per column.
        let mut k: usize = 0;
        while k < rows.len()
            invariant
                0 <= k <= rows.len(),
                forall|j: int| 0 <= j < k ==> (#[trigger] rowsv[j]).len() == cols.len(),
            decreases rows.len() - k,
        {
            proof {
                assert(rowsv[k as int] == rows@[k as int].deep_view());
            }
            if rows[k].len() != ncols {
                return Ok(Err(OperationOnTableError::ArityMismatch));
            }
            k = k + 1;
        }

        // Validate the full row x column cross product, deduplicating by
        // column: the first failing row reports a column.
        let mut seen: Vec<bool> = Vec::new();
        while seen.len() < ncols
            invariant
                seen@.len() <= ncols,
                forall|j: int| 0 <= j < seen@.len() ==> seen@[j] == false,
            decreases ncols - seen@.len(),
        {
            seen.push(false);
        }
        let mut viols: Vec<(ConstraintError, ColumnDefinition)> = Vec::new();
        let mut ri: usize = 0;
        while ri < rows.len()
            invariant
                0 <= ri <= rows.len(),
                viols.deep_view() == insert_violations_upto(cols, rowsv, ri as int),
                seen@.len() == cols.len(),
                forall|j: int| 0 <= j < cols.len() ==> seen@[j] == column_failed_before(
                    cols,
                    rowsv,
                    ri as int,
                    j,
                ),
            decreases rows.len() - ri,
        {
            let record = &rows[ri];
            proof {
                assert(rowsv[ri as int] == rows@[ri as int].deep_view());
            }
            let mut j: usize = 0;
            while j < ncols
                invariant
                    0 <= j <= ncols,
                    ri < rows.len(),
                    record == &rows@[ri as int],
                    viols.deep_view() == insert_violations_upto(cols, rowsv, ri as int)
                        + row_violations_upto(cols, rowsv, ri as int, j as int),
                    seen@.len() == cols.len(),
                    forall|j2: int| j <= j2 < cols.len() ==> seen@[j2] == column_failed_before(
                        cols,
                        rowsv,
                        ri as int,
                        j2,
                    ),
                    forall|j2: int| 0 <= j2 < j ==> seen@[j2] == (column_failed_before(
                        cols,
                        rowsv,
                        ri as int,
                        j2,
                    ) || check_value(rowsv[ri as int][j2], cols[j2].ty) is Some),
                decreases ncols - j,
            {
                proof {
                    assert(rowsv[ri as int][j as int] == record@[j as int]@);
                    assert(cols[j as int] == table.columns@[j as int]@);
                }
                match validate(record[j].as_str(), table.columns[j].sql_type) {
                    Ok(_) => {},
                    Err(e) => {
                        if !seen[j] {
                            let pair = (e, clone_column(&table.columns[j]));
                            viols.push(pair);
                            proof {
                                assert(viols.deep_view() =~= (insert_violations_upto(
                                    cols,
                                    rowsv,
                                    ri as int,
                                ) + row_violations_upto(cols, rowsv, ri as int, j as int)).push(
                                    (pair.0@, cols[j as int]),
                                ));
                                assert(viols.deep_view() =~= insert_violations_upto(
                                    cols,
                                    rowsv,
                                    ri as int,
                                ) + row_violations_upto(cols, rowsv, ri as int, j as int).push(
                                    (pair.0@, cols[j as int]),
                                ));
                            }
                        }
                        seen.set(j, true);
                    },
                }
                j = j + 1;
            }
            proof {
                assert forall|j2: int| 0 <= j2 < cols.len() implies seen@[j2]
                    == column_failed_before(cols, rowsv, ri + 1, j2) by {
                    if check_value(rowsv[ri as int][j2], cols[j2].ty) is Some {
                        assert(0 <= ri < ri + 1 && check_value(
                            (rowsv[ri as int])[j2],
                            cols[j2].ty,
                        ) is Some);
                        assert(column_failed_before(cols, rowsv, ri + 1, j2));
                    } else {
                        if column_failed_before(cols, rowsv, ri + 1, j2) {
                            let r2 = choose|r2: int|
                                0 <= r2 < ri + 1 && check_value(
                                    (#[trigger] rowsv[r2])[j2],
                                    cols[j2].ty,
                                ) is Some;
                            assert(r2 < ri);
                            assert(column_failed_before(cols, rowsv, ri as int, j2));
                        }
                    }
                }
            }
            ri = ri + 1;
        }
        if viols.len() > 0 {
            return Ok(Err(OperationOnTableError::ConstraintViolations(viols)));
        }

        // All rows are valid: append them in statement order.
        let n = rows.len();
        let mut incoming = rows;
        let schema = &mut self.schemas[si];
        let tbl = &mut schema.tables[ti];
        tbl.records.append(&mut incoming);
        proof {
            assert(self@ =~~= with_table_records(
                old(self)@,
                si as int,
                ti as int,
                t.records + rowsv,
            ));
            assert forall|m: int| 0 <= m < (t.records + rowsv).len() implies (#[trigger] (t.records
                + rowsv)[m]).len() == cols.len() by {
                if m < t.records.len() {
                    assert(table_wf(t));
                    assert((t.records + rowsv)[m] == t.records[m]);
                } else {
                    assert((t.records + rowsv)[m] == rowsv[m - t.records.len()]);
                }
            }
            lemma_with_table_records_wf(old(self)@, si as int, ti as int, t.records + rowsv);
        }
        Ok(Ok(n))
    }
}

/// The table an update or selection targets, when both names resolve.
pub open spec fn update_target(
    ss: Seq<SchemaView>,
    schema_name: Seq<char>,
    table_name: Seq<char>,
) -> Option<TableView> {
    let si = find_name(schema_names(ss), schema_name);
    if si < 0 {
        None
    } else {
        let ti = find_name(table_names(ss[si].tables), table_name);
        if ti < 0 {
            None
        } else {
            Some(ss[si].tables[ti])
        }
    }
}

/// The catalog with one schema's table list replaced.
pub open spec fn with_tables(
    ss: Seq<SchemaView>,
    si: int,
    ts: Seq<TableView>,
) -> Seq<SchemaView> {
    ss.update(si, SchemaView { name: ss[si].name, tables: ts })
}

/// The catalog with one table's records replaced.
pub open spec fn with_table_records(
    ss: Seq<SchemaView>,
    si: int,
    ti: int,
    recs: Seq<Seq<Seq<char>>>,
) -> Seq<SchemaView> {
    with_tables(
        ss,
        si,
        ss[si].tables.update(
            ti,
            TableView {
                name: ss[si].tables[ti].name,
                columns: ss[si].tables[ti].columns,
                records: recs,
            },
        ),
    )
}

/// Replacing a table's records with records of the right arity preserves
/// catalog well-formedness.
proof fn lemma_with_table_records_wf(
    ss: Seq<SchemaView>,
    si: int,
    ti: int,
    recs: Seq<Seq<Seq<char>>>,
)
    requires
        catalog_wf(ss),
        0 <= si < ss.len(),
        0 <= ti < ss[si].tables.len(),
        forall|k: int| 0 <= k < recs.len() ==> (#[trigger] recs[k]).len()
            == ss[si].tables[ti].columns.len(),
    ensures
        catalog_wf(with_table_records(ss, si, ti, recs)),
{
    let ss2 = with_table_records(ss, si, ti, recs);
    assert forall|i: int| 0 <= i < ss2.len() implies schema_wf(#[trigger] ss2[i]) by {
        if i != si {
            assert(ss2[i] == ss[i]);
        } else {
            let s = ss2[i];
            assert forall|k: int| 0 <= k < s.tables.len() implies table_wf(
                #[trigger] s.tables[k],
            ) by {
                if k != ti {
                    assert(s.tables[k] == ss[si].tables[k]);
                } else {
                    assert(table_wf(ss[si].tables[ti]));
                }
            }
            assert forall|k: int, l: int|
                #![trigger s.tables[k].name, s.tables[l].name]
                0 <= k < l < s.tables.len() implies s.tables[k].name != s.tables[l].name by {
                assert(s.tables[k].name == ss[si].tables[k].name);
                assert(s.tables[l].name == ss[si].tables[l].name);
            }
        }
    }
    assert forall|i: int, j: int|
        #![trigger ss2[i].name, ss2[j].name]
        0 <= i < j < ss2.len() implies ss2[i].name != ss2[j].name by {
        assert(ss2[i].name == ss[i].name);
        assert(ss2[j].name == ss[j].name);
    }
}

} // verus!
