//! Typed results delivered to the result sink.
//!
//! Every statement produces exactly one item — a success event or a domain
//! error — followed by a completion marker.  The sink records the ordered
//! stream; its view is the sequence of item views, so a command's contract
//! can say exactly what was delivered.

use vstd::prelude::*;

use crate::sql_types::{ColumnDefinition, ColumnView, ConstraintError, ConstraintErrorView, SqlType};

verus! {

/// A success event, tagged with the statement kind and its payload.
#[derive(Clone, Debug, PartialEq, Eq)]
pub enum QueryEvent {
    SchemaCreated,
    SchemaDropped,
    TableCreated,
    TableDropped,
    RecordsInserted(usize),
    RecordsUpdated(usize),
    RecordsDeleted(usize),
    /// The selected columns (name and type, in request order) and the rows of
    /// stringified values (in insertion order).
    RecordsSelected(Vec<(String, SqlType)>, Vec<Vec<String>>),
    QueryComplete,
}

/// The mathematical form of a success event.
#[verifier::ext_equal]
pub enum EventView {
    SchemaCreated,
    SchemaDropped,
    TableCreated,
    TableDropped,
    RecordsInserted(int),
    RecordsUpdated(int),
    RecordsDeleted(int),
    RecordsSelected(Seq<(Seq<char>, SqlType)>, Seq<Seq<Seq<char>>>),
    QueryComplete,
}

impl View for QueryEvent {
    type V = EventView;

    open spec fn view(&self) -> EventView {
        match self {
            QueryEvent::SchemaCreated => EventView::SchemaCreated,
            QueryEvent::SchemaDropped => EventView::SchemaDropped,
            QueryEvent::TableCreated => EventView::TableCreated,
            QueryEvent::TableDropped => EventView::TableDropped,
            QueryEvent::RecordsInserted(n) => EventView::RecordsInserted(*n as int),
            QueryEvent::RecordsUpdated(n) => EventView::RecordsUpdated(*n as int),
            QueryEvent::RecordsDeleted(n) => EventView::RecordsDeleted(*n as int),
            QueryEvent::RecordsSelected(cols, rows) => EventView::RecordsSelected(
                cols.deep_view(),
                rows.deep_view(),
            ),
            QueryEvent::QueryComplete => EventView::QueryComplete,
        }
    }
}

/// A client-visible domain error.  Object errors carry the object's name
/// (table errors the fully qualified `schema.table` name); resolution and
/// constraint errors carry their aggregated lists.
#[derive(Clone, Debug, PartialEq, Eq)]
pub enum QueryError {
    SchemaAlreadyExists(String),
    SchemaDoesNotExist(String),
    SchemaHasDependentObjects(String),
    TableAlreadyExists(String),
    TableDoesNotExist(String),
    ColumnDoesNotExist(Vec<String>),
    ConstraintViolations(Vec<(ConstraintError, ColumnDefinition)>),
    ArityMismatch(String),
    UndefinedFunction(String, String, String),
    UnsupportedOperator(String),
    NumericValueOutOfRange,
    DivisionByZero,
}

/// The mathematical form of a domain error.
#[verifier::ext_equal]
pub enum ErrorView {
    SchemaAlreadyExists(Seq<char>),
    SchemaDoesNotExist(Seq<char>),
    SchemaHasDependentObjects(Seq<char>),
    TableAlreadyExists(Seq<char>),
    TableDoesNotExist(Seq<char>),
    ColumnDoesNotExist(Seq<Seq<char>>),
    ConstraintViolations(Seq<(ConstraintErrorView, ColumnView)>),
    ArityMismatch(Seq<char>),
    UndefinedFunction(Seq<char>, Seq<char>, Seq<char>),
    UnsupportedOperator(Seq<char>),
    NumericValueOutOfRange,
    DivisionByZero,
}

impl View for QueryError {
    type V = ErrorView;

    open spec fn view(&self) -> ErrorView {
        match self {
            QueryError::SchemaAlreadyExists(n) => ErrorView::SchemaAlreadyExists(n@),
            QueryError::SchemaDoesNotExist(n) => ErrorView::SchemaDoesNotExist(n@),
            QueryError::SchemaHasDependentObjects(n) => ErrorView::SchemaHasDependentObjects(n@),
            QueryError::TableAlreadyExists(n) => ErrorView::TableAlreadyExists(n@),
            QueryError::TableDoesNotExist(n) => ErrorView::TableDoesNotExist(n@),
            QueryError::ColumnDoesNotExist(ns) => ErrorView::ColumnDoesNotExist(ns.deep_view()),
            QueryError::ConstraintViolations(vs) => ErrorView::ConstraintViolations(
                vs.deep_view(),
            ),
            QueryError::ArityMismatch(n) => ErrorView::ArityMismatch(n@),
            QueryError::UndefinedFunction(op, l, r) => ErrorView::UndefinedFunction(op@, l@, r@),
            QueryError::UnsupportedOperator(op) => ErrorView::UnsupportedOperator(op@),
            QueryError::NumericValueOutOfRange => ErrorView::NumericValueOutOfRange,
            QueryError::DivisionByZero => ErrorView::DivisionByZero,
        }
    }
}

/// The fully qualified name of a table, as object errors report it.
pub open spec fn qualified_name(schema: Seq<char>, table: Seq<char>) -> Seq<char> {
    schema + "."@ + table
}

/// Renders the fully qualified `schema.table` name.
pub fn full_table_name(schema: &str, table: &str) -> (r: String)
    ensures
        r@ == qualified_name(schema@, table@),
{
    let mut s = schema.to_owned();
    s.push_str(".");
    s.push_str(table);
    s
}

/// The view of one delivered item.
pub open spec fn item_view(m: Result<QueryEvent, QueryError>) -> Result<EventView, ErrorView> {
    match m {
        Ok(e) => Ok(e@),
        Err(e) => Err(e@),
    }
}

/// The result sink: records the ordered stream of delivered items.
pub struct ResultSink {
    pub events: Vec<Result<QueryEvent, QueryError>>,
}

impl View for ResultSink {
    type V = Seq<Result<EventView, ErrorView>>;

    open spec fn view(&self) -> Seq<Result<EventView, ErrorView>> {
        self.events@.map_values(|m: Result<QueryEvent, QueryError>| item_view(m))
    }
}

impl ResultSink {
    /// An empty sink.
    pub fn new() -> (s: ResultSink)
        ensures
            s@ == Seq::<Result<EventView, ErrorView>>::empty(),
    {
        let s = ResultSink { events: Vec::new() };
        proof {
            assert(s@ =~= Seq::<Result<EventView, ErrorView>>::empty());
        }
        s
    }

    /// Delivers one item; the in-memory sink cannot fail to deliver.
    pub fn send(&mut self, message: Result<QueryEvent, QueryError>)
        ensures
            final(self)@ == old(self)@.push(item_view(message)),
    {
        let ghost m = message;
        self.events.push(message);
        proof {
            assert(self@ =~= old(self)@.push(item_view(m)));
        }
    }

    /// The items delivered so far.
    pub fn events(&self) -> (r: &Vec<Result<QueryEvent, QueryError>>)
        ensures
            r@.map_values(|m: Result<QueryEvent, QueryError>| item_view(m)) == self@,
    {
        &self.events
    }
}

} // verus!
