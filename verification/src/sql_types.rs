//! The type and constraint model.
//!
//! A column declares one of the recognized SQL types; a candidate value
//! (always carried as text) is validated against the declared type: numeric
//! types require an integer literal within the type's range, character types
//! bound the length.  `check_value` is the specification of the whole rule;
//! `validate` is its executable form.

use vstd::prelude::*;
use vstd::string::StrSliceExecFns;

use crate::text::{int_literal_val, is_int_literal, parse_i64, IntParse};

verus! {

/// A recognized SQL column type.  Character types carry their declared
/// maximum length.
#[derive(Clone, Copy, Debug, PartialEq, Eq, Structural)]
pub enum SqlType {
    SmallInt,
    Integer,
    BigInt,
    Char(u64),
    VarChar(u64),
}

impl DeepView for SqlType {
    type V = SqlType;

    open spec fn deep_view(&self) -> SqlType {
        *self
    }
}

impl SqlType {
    /// The smallest value admitted by a numeric type.
    pub open spec fn min_value(self) -> int {
        match self {
            SqlType::SmallInt => -32768,
            SqlType::Integer => -2147483648,
            SqlType::BigInt => i64::MIN as int,
            _ => 0,
        }
    }

    /// The largest value admitted by a numeric type.
    pub open spec fn max_value(self) -> int {
        match self {
            SqlType::SmallInt => 32767,
            SqlType::Integer => 2147483647,
            SqlType::BigInt => i64::MAX as int,
            _ => 0,
        }
    }
}

/// A value's failure to satisfy its target column's type rules.
#[derive(Clone, Debug, PartialEq, Eq)]
pub enum ConstraintError {
    /// A numeric value exceeds the type's range.
    OutOfRange,
    /// The value cannot be parsed as the target numeric type; carries the
    /// original text.
    TypeMismatch(String),
    /// A string exceeds the declared length; carries that length.
    ValueTooLong(u64),
}

/// The mathematical form of a `ConstraintError`.
#[verifier::ext_equal]
pub enum ConstraintErrorView {
    OutOfRange,
    TypeMismatch(Seq<char>),
    ValueTooLong(u64),
}

impl View for ConstraintError {
    type V = ConstraintErrorView;

    open spec fn view(&self) -> ConstraintErrorView {
        match self {
            ConstraintError::OutOfRange => ConstraintErrorView::OutOfRange,
            ConstraintError::TypeMismatch(s) => ConstraintErrorView::TypeMismatch(s@),
            ConstraintError::ValueTooLong(l) => ConstraintErrorView::ValueTooLong(*l),
        }
    }
}

impl DeepView for ConstraintError {
    type V = ConstraintErrorView;

    open spec fn deep_view(&self) -> ConstraintErrorView {
        self.view()
    }
}

/// A column: its name, its declared type, and (by its position in the
/// table's column list) its ordinal.
#[derive(Clone, Debug, PartialEq, Eq)]
pub struct ColumnDefinition {
    pub name: String,
    pub sql_type: SqlType,
}

/// The mathematical form of a column definition.
#[verifier::ext_equal]
pub struct ColumnView {
    pub name: Seq<char>,
    pub ty: SqlType,
}

impl View for ColumnDefinition {
    type V = ColumnView;

    open spec fn view(&self) -> ColumnView {
        ColumnView { name: self.name@, ty: self.sql_type }
    }
}

impl DeepView for ColumnDefinition {
    type V = ColumnView;

    open spec fn deep_view(&self) -> ColumnView {
        self.view()
    }
}

/// A copy of a column definition.
pub fn clone_column(c: &ColumnDefinition) -> (r: ColumnDefinition)
    ensures
        r == *c,
{
    ColumnDefinition { name: c.name.clone(), sql_type: c.sql_type }
}

/// A copy of a column list.
pub fn clone_columns(cs: &Vec<ColumnDefinition>) -> (r: Vec<ColumnDefinition>)
    ensures
        r@ == cs@,
{
    let mut r: Vec<ColumnDefinition> = Vec::new();
    let mut i: usize = 0;
    while i < cs.len()
        invariant
            0 <= i <= cs.len(),
            r@ == cs@.take(i as int),
        decreases cs.len() - i,
    {
        r.push(clone_column(&cs[i]));
        proof {
            assert(cs@.take(i + 1) =~= cs@.take(i as int).push(cs@[i as int]));
        }
        i = i + 1;
    }
    proof {
        assert(cs@.take(cs@.len() as int) =~= cs@);
    }
    r
}

impl ColumnDefinition {
    pub fn new(name: &str, sql_type: SqlType) -> (c: ColumnDefinition)
        ensures
            c@.name == name@,
            c@.ty == sql_type,
    {
        ColumnDefinition { name: name.to_owned(), sql_type }
    }

    pub fn name(&self) -> (r: String)
        ensures
            r@ == self@.name,
    {
        self.name.clone()
    }

    pub fn sql_type(&self) -> (t: SqlType)
        ensures
            t == self@.ty,
    {
        self.sql_type
    }
}

/// What validating `v` against a column of type `ty` yields: `None` when the
/// value satisfies the type's rules, otherwise the constraint error.
pub open spec fn check_value(v: Seq<char>, ty: SqlType) -> Option<ConstraintErrorView> {
    match ty {
        SqlType::Char(len) => if v.len() > len {
            Some(ConstraintErrorView::ValueTooLong(len))
        } else {
            None
        },
        SqlType::VarChar(len) => if v.len() > len {
            Some(ConstraintErrorView::ValueTooLong(len))
        } else {
            None
        },
        _ => if !is_int_literal(v) {
            Some(ConstraintErrorView::TypeMismatch(v))
        } else if int_literal_val(v) < ty.min_value() || int_literal_val(v) > ty.max_value() {
            Some(ConstraintErrorView::OutOfRange)
        } else {
            None
        },
    }
}

fn validate_int(value: &str, lo: i64, hi: i64) -> (r: Result<String, ConstraintError>)
    ensures
        r matches Ok(s) ==> is_int_literal(value@) && lo <= int_literal_val(value@) <= hi && s@
            == value@,
        r matches Err(e) ==> (e@ matches ConstraintErrorView::TypeMismatch(t) && t == value@
            && !is_int_literal(value@)) || (e@ is OutOfRange && is_int_literal(value@) && (
        int_literal_val(value@) < lo || int_literal_val(value@) > hi)),
{
    match parse_i64(value) {
        IntParse::Value(v) => {
            if v < lo || v > hi {
                Err(ConstraintError::OutOfRange)
            } else {
                Ok(value.to_owned())
            }
        },
        IntParse::NotNumeric => Err(ConstraintError::TypeMismatch(value.to_owned())),
        IntParse::OutOfBounds => Err(ConstraintError::OutOfRange),
    }
}

/// Validates a candidate value against a column type; `Ok` returns the value
/// itself (values are stored as the text that was validated).
pub fn validate(value: &str, ty: SqlType) -> (r: Result<String, ConstraintError>)
    ensures
        r matches Ok(s) ==> check_value(value@, ty) is None && s@ == value@,
        r matches Err(e) ==> check_value(value@, ty) == Some(e@),
{
    match ty {
        SqlType::SmallInt => validate_int(value, -32768, 32767),
        SqlType::Integer => validate_int(value, -2147483648, 2147483647),
        SqlType::BigInt => validate_int(value, i64::MIN, i64::MAX),
        SqlType::Char(len) => {
            if str_len_exceeds(value, len) {
                Err(ConstraintError::ValueTooLong(len))
            } else {
                Ok(value.to_owned())
            }
        },
        SqlType::VarChar(len) => {
            if str_len_exceeds(value, len) {
                Err(ConstraintError::ValueTooLong(len))
            } else {
                Ok(value.to_owned())
            }
        },
    }
}

/// Whether the character length of `value` exceeds `len`.
fn str_len_exceeds(value: &str, len: u64) -> (r: bool)
    ensures
        r == (value@.len() > len),
{
    let n = value.unicode_len();
    n as u64 > len
}

} // verus!
