//! Domain values: the order document and the read request.

use vstd::prelude::*;

verus! {

/// An order document: the identifier it is stamped with, and the rest of its
/// content, which this crate carries through without reading it.
#[derive(Debug, PartialEq, Eq)]
pub struct Order {
    pub order_uid: String,
    pub payload: String,
}

impl View for Order {
    type V = (Seq<char>, Seq<char>);

    /// The pair of the identifier's and the payload's characters.
    open spec fn view(&self) -> (Seq<char>, Seq<char>) {
        (self.order_uid@, self.payload@)
    }
}

impl Clone for Order {
    fn clone(&self) -> (res: Self)
        ensures
            res@ == self@,
    {
        Order { order_uid: self.order_uid.clone(), payload: self.payload.clone() }
    }
}

impl Order {
    /// The document with its identifier overwritten by `order_uid`; the
    /// payload is kept.
    pub fn stamped(self, order_uid: String) -> (res: Order)
        ensures
            res == (Order { order_uid, payload: self.payload }),
    {
        Order { order_uid, payload: self.payload }
    }
}

/// The query of a read: the identifier of the order that is asked for.
#[derive(Debug, PartialEq, Eq)]
pub struct OrderRequest {
    pub order_uid: String,
}

} // verus!
