//! Configuration from the configuration authority.
//!
//! The library says what is asked of the authority and judges what came back.
//! The caller sends the request, and decodes the body of a reply into a record
//! where it can.

use vstd::prelude::*;
use crate::conf::{Conf, ReqConfStruct};
use crate::error::ConfigError;

verus! {

/// The status with which the authority hands out a configuration.
pub const STATUS_OK: u16 = 200;

/// An HTTP request with a JSON payload.
#[derive(PartialEq, Debug, Clone)]
pub struct Request {
    pub method: String,
    pub url: String,
    /// The name of the one header.
    pub header_name: String,
    /// The value of the one header.
    pub header_value: String,
    /// What the body holds, to be written as a JSON object.
    pub payload: ReqConfStruct,
}

/// What came of sending the request.
#[derive(PartialEq, Debug, Clone)]
pub enum Reply {
    /// No answer came: the connection failed or timed out.
    Unreachable,
    /// An answer came. `body` is the record that the body holds, or `None`
    /// where the body is no record.
    Answer { status: u16, body: Option<Conf> },
}

/// The one request that asks the authority for an application's
/// configuration: a POST to the authority's address, marked as JSON, that
/// carries the application's name as it was given.
pub open spec fn is_fetch_request(request: Request, app_name: Seq<char>) -> bool {
    &&& request.method@ == "POST"@
    &&& request.url@ == "http://127.0.0.1:20200/conf"@
    &&& request.header_name@ == "content-type"@
    &&& request.header_value@ == "application/json"@
    &&& request.payload.app_name@ == app_name
}

/// Builds the request for an application's configuration.
pub fn fetch_request(app_name: String) -> (request: Request)
    ensures
        is_fetch_request(request, app_name@),
{
    Request {
        method: "POST".to_owned(),
        url: "http://127.0.0.1:20200/conf".to_owned(),
        header_name: "content-type".to_owned(),
        header_value: "application/json".to_owned(),
        payload: ReqConfStruct { app_name },
    }
}

/// What a reply amounts to: the record of an answer with status 200 whose
/// body holds one, whole and unchanged; a transport error where no answer
/// came or the status is another; a decode error for a body that is no
/// record.
pub open spec fn judged(reply: Reply) -> Result<Conf, ConfigError> {
    match reply {
        Reply::Unreachable => Err(ConfigError::TransportError),
        Reply::Answer { status, body } => if status != STATUS_OK {
            Err(ConfigError::TransportError)
        } else {
            match body {
                Some(conf) => Ok(conf),
                None => Err(ConfigError::DecodeError),
            }
        },
    }
}

/// Judges the reply of the authority.
pub fn fetch_outcome(reply: Reply) -> (outcome: Result<Conf, ConfigError>)
    ensures
        outcome == judged(reply),
{
    match reply {
        Reply::Unreachable => Err(ConfigError::TransportError),
        Reply::Answer { status, body } => {
            if status != STATUS_OK {
                Err(ConfigError::TransportError)
            } else {
                match body {
                    Some(conf) => Ok(conf),
                    None => Err(ConfigError::DecodeError),
                }
            }
        },
    }
}

} // verus!
