//! The storage gateway as this crate sees it: what the store replied to a
//! query, and what that reply means for the request.

use vstd::prelude::*;

use crate::data::Order;
use crate::errors::OrderApiError;

verus! {

/// Why the store gave no reply, with the text of the underlying error.
#[derive(Debug, PartialEq, Eq)]
pub enum StorageFailure {
    /// No connection could be had from the pool.
    Pool(String),
    /// The query failed.
    Query(String),
}

/// A row of the order table: the identifier column, and the body column as
/// it decoded, either into an order or into the decoder's complaint.
#[derive(Debug, PartialEq, Eq)]
pub struct OrderRow {
    pub order_uid: String,
    pub body: Result<Order, String>,
}

impl StorageFailure {
    /// The failure of the request that a failure of the store amounts to.
    pub open spec fn error(self) -> OrderApiError {
        match self {
            StorageFailure::Pool(cause) => OrderApiError::DBPoolError(cause),
            StorageFailure::Query(cause) => OrderApiError::DBQueryError(cause),
        }
    }

    /// The failure of the request that this failure of the store amounts to.
    pub fn into_error(self) -> (error: OrderApiError)
        ensures
            error == self.error(),
    {
        match self {
            StorageFailure::Pool(cause) => OrderApiError::DBPoolError(cause),
            StorageFailure::Query(cause) => OrderApiError::DBQueryError(cause),
        }
    }
}

/// What a point lookup yields, given the store's reply. A failure of the
/// store is passed on; no row means that the order does not exist; a body
/// that did not decode is a decoding failure. Otherwise the row's document
/// is yielded, stamped with the identifier of the row's own column.
pub open spec fn lookup_outcome(reply: Result<Option<OrderRow>, StorageFailure>) -> Result<
    Order,
    OrderApiError,
> {
    match reply {
        Err(failure) => Err(failure.error()),
        Ok(None) => Err(OrderApiError::NotFound),
        Ok(Some(row)) => match row.body {
            Err(complaint) => Err(OrderApiError::SerDeError(complaint)),
            Ok(order) => Ok(Order { order_uid: row.order_uid, payload: order.payload }),
        },
    }
}

/// Reads the store's reply to the lookup of an order.
pub fn get_order(reply: Result<Option<OrderRow>, StorageFailure>) -> (outcome: Result<
    Order,
    OrderApiError,
>)
    ensures
        outcome == lookup_outcome(reply),
{
    match reply {
        Err(failure) => Err(failure.into_error()),
        Ok(None) => Err(OrderApiError::NotFound),
        Ok(Some(row)) => {
            let OrderRow { order_uid, body } = row;
            match body {
                Err(complaint) => Err(OrderApiError::SerDeError(complaint)),
                Ok(order) => Ok(order.stamped(order_uid)),
            }
        },
    }
}

/// What an insert yields, given the store's reply: the identifier that the
/// store returned with the new row, or the store's failure.
pub open spec fn insert_outcome(reply: Result<String, StorageFailure>) -> Result<
    String,
    OrderApiError,
> {
    match reply {
        Err(failure) => Err(failure.error()),
        Ok(order_uid) => Ok(order_uid),
    }
}

/// Reads the store's reply to the insert of an order.
pub fn create_order(reply: Result<String, StorageFailure>) -> (outcome: Result<
    String,
    OrderApiError,
>)
    ensures
        outcome == insert_outcome(reply),
{
    match reply {
        Err(failure) => Err(failure.into_error()),
        Ok(order_uid) => Ok(order_uid),
    }
}

} // verus!
