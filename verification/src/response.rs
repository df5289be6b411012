//! Response interpretation: from an HTTP status code and body text to a
//! typed record, a record list, or a typed error.
//!
//! A 200 body is decoded; its records carry exactly the fields the JSON
//! held.  Any other status short-circuits into a status error carrying the
//! code and the raw body text.  A 200 body that does not decode gives a
//! decode error, distinct from a status error.

use vstd::prelude::*;
use crate::conf::{spec_decode_conf, spec_decode_confs, confs_view, decode_conf, decode_confs, Conf};
use crate::error::CFPError;

verus! {

/// Interprets the response of a by-id operation (`get CFP by id`,
/// `get conference by id`): one record on a decodable 200 body.
pub fn conf_response(status: u16, body: &str) -> (r: Result<Conf, CFPError>)
    ensures
        status != 200 ==> (r matches Err(e) && (e matches CFPError::Status {
            status_code,
            body: b,
        } && status_code == status && b@ == body@)),
        status == 200 ==> (match spec_decode_conf(body@) {
            Some(c) => r matches Ok(conf) && conf@ == c,
            None => r matches Err(e) && e is Decode,
        }),
{
    if status != 200 {
        return Err(CFPError::Status { status_code: status, body: String::from_str(body) });
    }
    match decode_conf(body) {
        Some(conf) => Ok(conf),
        None => Err(
            CFPError::Decode {
                message: String::from_str("response body is not a Conference record"),
            },
        ),
    }
}

/// Interprets the response of a list operation (`list CFPs`,
/// `list conferences`, `list upcoming`): a record list on a decodable 200
/// body, in the order the server sent.
pub fn confs_response(status: u16, body: &str) -> (r: Result<Vec<Conf>, CFPError>)
    ensures
        status != 200 ==> (r matches Err(e) && (e matches CFPError::Status {
            status_code,
            body: b,
        } && status_code == status && b@ == body@)),
        status == 200 ==> (match spec_decode_confs(body@) {
            Some(cs) => r matches Ok(confs) && confs_view(confs@) == cs,
            None => r matches Err(e) && e is Decode,
        }),
{
    if status != 200 {
        return Err(CFPError::Status { status_code: status, body: String::from_str(body) });
    }
    match decode_confs(body) {
        Some(confs) => Ok(confs),
        None => Err(
            CFPError::Decode {
                message: String::from_str("response body is not a list of Conference records"),
            },
        ),
    }
}

} // verus!
