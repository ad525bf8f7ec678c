use vstd::prelude::*;
use http::Error as HttpError;
use async_tungstenite::tungstenite::Error as WsError;

verus! {

#[verifier::external_type_specification]
#[verifier::external_body]
pub struct ExHttpError(HttpError);

#[verifier::external_type_specification]
#[verifier::external_body]
pub struct ExWsError(WsError);

/// a generic error type to represent all possible errors from httpz
#[derive(Debug)]
pub enum Error {
    /// an error that occurred in the HTTP library
    HTTPError(HttpError),
    /// UTF coding error.
    Utf8,
    /// an error of the websocket connection
    TungsteniteError(WsError),
}

} // verus!
