//! Messages of the publish/subscribe protocol.

use vstd::prelude::*;

use super::ResponseError;

verus! {

/// This is the struct that we serialize and send to the server serialized to request a new
/// subscription
#[derive(Debug)]
pub struct SubscriptionRequest {
    pub handler_type: String,
    pub handler_id: String,
}

/// Item that is streamed serialized from the server to the client
#[derive(Debug)]
pub struct SubscriptionResponse {
    pub body: Result<Vec<u8>, ResponseError>,
}

impl Clone for SubscriptionResponse {
    /// A copy of the response: the same bytes, or an error (a copy of the
    /// error by its derived `Clone`).
    fn clone(&self) -> (r: Self)
        ensures
            match self.body {
                Ok(b) => r.body matches Ok(c) && c@ == b@,
                Err(_) => r.body is Err,
            },
    {
        match &self.body {
            Ok(b) => SubscriptionResponse { body: Ok(b.clone()) },
            Err(e) => SubscriptionResponse { body: Err(e.clone()) },
        }
    }
}

impl SubscriptionResponse {
    /// New `Ok` variant
    pub fn new(body: Vec<u8>) -> (r: Self)
        ensures
            r.body == Ok::<Vec<u8>, ResponseError>(body),
    {
        SubscriptionResponse { body: Ok(body) }
    }

    /// New `Err` Variant
    pub fn err(error: ResponseError) -> (r: Self)
        ensures
            r.body == Err::<Vec<u8>, ResponseError>(error),
    {
        SubscriptionResponse { body: Err(error) }
    }
}

} // verus!
