//! The client-side classification of server replies.

use vstd::prelude::*;

verus! {

/// What can go wrong talking to the ranking service.
#[derive(Clone, Debug, PartialEq)]
pub enum ApiError {
    Network(String),
    Server { status: u16, message: String },
    Parse(String),
    Build(String),
    Conflict(String),
}

/// Classify a submit reply: 201 and the other success codes mean the
/// score was stored, 409 carries the server's rejection text, anything
/// else is a server error with its status.
pub fn classify_submit_status(status: u16, message: String) -> (r: Result<(), ApiError>)
    ensures
        status == 201 || (200 <= status < 300) ==> r is Ok,
        status == 409 ==> (r matches Err(e) && e == ApiError::Conflict(message)),
        !(200 <= status < 300) && status != 409 ==> (r matches Err(e) && e == (ApiError::Server {
            status,
            message,
        })),
{
    if status == 201 {
        Ok(())
    } else if status == 409 {
        Err(ApiError::Conflict(message))
    } else if 200 <= status && status < 300 {
        Ok(())
    } else {
        Err(ApiError::Server { status, message })
    }
}

/// Classify a fetch reply: the 2xx range succeeds, anything else is a
/// server error with its status and body.
pub fn classify_fetch_status(status: u16, message: String) -> (r: Result<(), ApiError>)
    ensures
        (200 <= status < 300) <==> r is Ok,
        !(200 <= status < 300) ==> (r matches Err(e) && e == (ApiError::Server {
            status,
            message,
        })),
{
    if 200 <= status && status < 300 {
        Ok(())
    } else {
        Err(ApiError::Server { status, message })
    }
}

} // verus!
