//! The successful answers of the service and the response that each one is
//! sent as.

use vstd::prelude::*;

use crate::data::Order;

verus! {

/// Status of a response that carries what was asked for.
pub const OK: u16 = 200;

/// Status of a response to a request that created something.
pub const CREATED: u16 = 201;

/// A successful answer, which tells where a document came from.
#[derive(Debug, PartialEq, Eq)]
pub enum OrderApiResponse {
    /// A document read from the store.
    Data(Order),
    /// A document served from the cache.
    DataFromCache(Order),
    /// The identifier under which the store has kept a new order.
    Created(String),
}

/// The body of a successful response.
#[derive(Debug, PartialEq, Eq)]
pub enum ResponseBody {
    Document(Order),
    Identifier(String),
}

/// What a successful answer is sent as: a status and a body.
#[derive(Debug, PartialEq, Eq)]
pub struct Response {
    pub status: u16,
    pub body: ResponseBody,
}

impl OrderApiResponse {
    /// The response that an answer is sent as: 201 with the identifier for a
    /// creation, 200 with the document for a read, whatever its source.
    pub open spec fn response(self) -> Response {
        match self {
            OrderApiResponse::Data(data) => Response {
                status: OK,
                body: ResponseBody::Document(data),
            },
            OrderApiResponse::Created(order_uid) => Response {
                status: CREATED,
                body: ResponseBody::Identifier(order_uid),
            },
            OrderApiResponse::DataFromCache(data) => Response {
                status: OK,
                body: ResponseBody::Document(data),
            },
        }
    }

    /// The response that the answer is sent as.
    pub fn into_response(self) -> (response: Response)
        ensures
            response == self.response(),
    {
        match self {
            OrderApiResponse::Data(data) => Response {
                status: OK,
                body: ResponseBody::Document(data),
            },
            OrderApiResponse::Created(order_uid) => Response {
                status: CREATED,
                body: ResponseBody::Identifier(order_uid),
            },
            OrderApiResponse::DataFromCache(data) => Response {
                status: OK,
                body: ResponseBody::Document(data),
            },
        }
    }
}

} // verus!
