//! What a key-value store behind a service is asked and what its answers
//! mean: the categories of data with the column that each is kept in, and the
//! outcome of each operation for each answer of the store.

use vstd::prelude::*;
use vstd::string::*;

verus! {

/// A category of stored data.
#[derive(Clone, Copy, Debug, PartialEq, Eq, Structural)]
pub enum DataCategory {
    Block,
    Transaction,
    Receipt,
    State,
    TransactionPool,
    TransactionPosition,
}

/// Why an operation on the store failed.
#[derive(Debug)]
pub enum DatabaseError {
    NotFound,
    InvalidData,
    /// The store itself failed; holds its report.
    Internal(String),
}

/// The mathematical value of a `DatabaseError`.
pub enum DatabaseErrorView {
    NotFound,
    InvalidData,
    Internal(Seq<char>),
}

impl View for DatabaseError {
    type V = DatabaseErrorView;

    open spec fn view(&self) -> DatabaseErrorView {
        match self {
            DatabaseError::NotFound => DatabaseErrorView::NotFound,
            DatabaseError::InvalidData => DatabaseErrorView::InvalidData,
            DatabaseError::Internal(report) => DatabaseErrorView::Internal(report@),
        }
    }
}

/// The column of blocks.
pub const C_BLOCK: &'static str = "c1";

/// The column of transactions.
pub const C_TRANSACTION: &'static str = "c2";

/// The column of receipts.
pub const C_RECEIPT: &'static str = "c3";

/// The column of state.
pub const C_STATE: &'static str = "c4";

/// The column of the transaction pool.
pub const C_TRANSACTION_POOL: &'static str = "c5";

/// The column of transaction positions.
pub const C_TRANSACTION_POSITION: &'static str = "c6";

/// The name of the column that a category is kept in.
pub open spec fn column_name(category: DataCategory) -> Seq<char> {
    match category {
        DataCategory::Block => C_BLOCK@,
        DataCategory::Transaction => C_TRANSACTION@,
        DataCategory::Receipt => C_RECEIPT@,
        DataCategory::State => C_STATE@,
        DataCategory::TransactionPool => C_TRANSACTION_POOL@,
        DataCategory::TransactionPosition => C_TRANSACTION_POSITION@,
    }
}

/// The name of the column that a category is kept in.
pub fn map_data_category(category: DataCategory) -> (r: &'static str)
    ensures
        r@ == column_name(category),
{
    match category {
        DataCategory::Block => C_BLOCK,
        DataCategory::Transaction => C_TRANSACTION,
        DataCategory::Receipt => C_RECEIPT,
        DataCategory::State => C_STATE,
        DataCategory::TransactionPool => C_TRANSACTION_POOL,
        DataCategory::TransactionPosition => C_TRANSACTION_POSITION,
    }
}

/// No two categories are kept in the same column.
pub proof fn lemma_columns_differ(a: DataCategory, b: DataCategory)
    requires
        a != b,
    ensures
        column_name(a) != column_name(b),
{
    reveal_strlit("c1");
    reveal_strlit("c2");
    reveal_strlit("c3");
    reveal_strlit("c4");
    reveal_strlit("c5");
    reveal_strlit("c6");
    assert(column_name(a).len() == 2 && column_name(b).len() == 2);
    assert(column_name(a)[1] != column_name(b)[1]);
}

/// The names of all columns, in the order of the categories.
pub fn column_names() -> (r: Vec<&'static str>)
    ensures
        r@.len() == 6,
        r@[0]@ == column_name(DataCategory::Block),
        r@[1]@ == column_name(DataCategory::Transaction),
        r@[2]@ == column_name(DataCategory::Receipt),
        r@[3]@ == column_name(DataCategory::State),
        r@[4]@ == column_name(DataCategory::TransactionPool),
        r@[5]@ == column_name(DataCategory::TransactionPosition),
{
    let mut names: Vec<&'static str> = Vec::new();
    names.push(map_data_category(DataCategory::Block));
    names.push(map_data_category(DataCategory::Transaction));
    names.push(map_data_category(DataCategory::Receipt));
    names.push(map_data_category(DataCategory::State));
    names.push(map_data_category(DataCategory::TransactionPool));
    names.push(map_data_category(DataCategory::TransactionPosition));
    names
}

/// The error for a failure of the store with the given report.
pub fn map_db_err(report: String) -> (r: DatabaseError)
    ensures
        r@ == DatabaseErrorView::Internal(report@),
{
    DatabaseError::Internal(report)
}

/// What the store found for a key: a value, nothing, or its own failure with
/// a report.
pub type Found = Result<Option<Vec<u8>>, String>;

/// The outcome of `get`: the value, `NotFound` where there is none, and the
/// failure of the store as it is.
pub fn get_outcome(found: Found) -> (r: Result<Vec<u8>, DatabaseError>)
    ensures
        match found {
            Ok(Some(value)) => r == Ok::<Vec<u8>, DatabaseError>(value),
            Ok(None) => r matches Err(e) && e@ == DatabaseErrorView::NotFound,
            Err(report) => r matches Err(e) && e@ == DatabaseErrorView::Internal(report@),
        },
{
    match found {
        Ok(Some(value)) => Ok(value),
        Ok(None) => Err(DatabaseError::NotFound),
        Err(report) => Err(map_db_err(report)),
    }
}

/// The outcome for one key of `get_batch`: the value where the store found
/// one, and nothing where it found none or failed.
pub fn get_batch_outcome(found: Found) -> (r: Option<Vec<u8>>)
    ensures
        r == match found {
            Ok(value) => value,
            Err(_) => None,
        },
{
    match found {
        Ok(value) => value,
        Err(_) => None,
    }
}

/// The outcome of `contains`: whether the store found a value, and the
/// failure of the store as it is.
pub fn contains_outcome(found: Found) -> (r: Result<bool, DatabaseError>)
    ensures
        match found {
            Ok(value) => r == Ok::<bool, DatabaseError>(value is Some),
            Err(report) => r matches Err(e) && e@ == DatabaseErrorView::Internal(report@),
        },
{
    match found {
        Ok(value) => Ok(value.is_some()),
        Err(report) => Err(map_db_err(report)),
    }
}

/// The outcome of a write or a removal: done, or the failure of the store.
pub fn write_outcome(done: Result<(), String>) -> (r: Result<(), DatabaseError>)
    ensures
        match done {
            Ok(()) => r is Ok,
            Err(report) => r matches Err(e) && e@ == DatabaseErrorView::Internal(report@),
        },
{
    match done {
        Ok(()) => Ok(()),
        Err(report) => Err(map_db_err(report)),
    }
}

/// Whether a batch of keys and values can be written: there must be as many
/// values as keys.
pub fn check_batch(keys: &[Vec<u8>], values: &[Vec<u8>]) -> (r: Result<(), DatabaseError>)
    ensures
        match r {
            Ok(()) => keys@.len() == values@.len(),
            Err(e) => keys@.len() != values@.len() && e@ == DatabaseErrorView::InvalidData,
        },
{
    if keys.len() != values.len() {
        return Err(DatabaseError::InvalidData);
    }
    Ok(())
}

/// The outcome of looking up the column of a category: the handle that the
/// store has for it, or `NotFound` where it has none.
pub fn column_outcome<C>(handle: Option<C>) -> (r: Result<C, DatabaseError>)
    ensures
        match handle {
            Some(column) => r == Ok::<C, DatabaseError>(column),
            None => r matches Err(e) && e@ == DatabaseErrorView::NotFound,
        },
{
    match handle {
        Some(column) => Ok(column),
        None => Err(DatabaseError::NotFound),
    }
}

} // verus!
