//! What the library reads of an HTTP exchange.
use crate::error::Error;
use vstd::prelude::*;

verus! {

/// The answer to a GET request, as far as the library looks at it: the
/// status code and the body.
#[derive(Debug, PartialEq, Eq)]
pub struct Reply<B> {
    pub status: u16,
    pub body: B,
}

/// A status from 200 to 299.
pub open spec fn is_success(status: u16) -> bool {
    200 <= status <= 299
}

/// Hands out the body of a reply that reports success. Any other reply is an
/// error that carries the status.
pub fn get_http<B>(reply: Reply<B>) -> (answer: Result<B, Error>)
    ensures
        is_success(reply.status) ==> answer == Ok::<B, Error>(reply.body),
        !is_success(reply.status) ==> answer == Err::<B, Error>(
            Error::HttpStatus { status: reply.status },
        ),
{
    if 200 <= reply.status && reply.status <= 299 {
        Ok(reply.body)
    } else {
        Err(Error::HttpStatus { status: reply.status })
    }
}

} // verus!
