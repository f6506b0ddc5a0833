//! The error payloads the process-wide catchers serve: a numeric code,
//! a short error label and a human-readable description.

use vstd::prelude::*;

verus! {

#[derive(Debug)]
pub struct Error {
    pub code: u16,
    pub error: String,
    pub description: String,
}

impl Error {
    /// The payload behind every not-found response the catchers serve.
    pub fn not_found() -> (r: Self)
        ensures
            r.code == 404,
            r.error@ == "Not Found"@,
            r.description@
                == "The resource you requested could not be found, please check your request and try again."@,
    {
        Error {
            code: 404,
            error: "Not Found".to_owned(),
            description: "The resource you requested could not be found, please check your request and try again.".to_owned(),
        }
    }

    /// The payload served when a request fails schema validation.
    pub fn unprocessable() -> (r: Self)
        ensures
            r.code == 422,
            r.error@ == "Unprocessable Entity"@,
            r.description@
                == "The request you submitted could not be processed according to the required schema. Please check your request and try again."@,
    {
        Error {
            code: 422,
            error: "Unprocessable Entity".to_owned(),
            description: "The request you submitted could not be processed according to the required schema. Please check your request and try again.".to_owned(),
        }
    }

    /// The payload served when the server itself failed.
    pub fn internal() -> (r: Self)
        ensures
            r.code == 500,
            r.error@ == "Internal Server Error"@,
            r.description@
                == "The server encountered an error while processing your request, it has been reported and will be looked into."@,
    {
        Error {
            code: 500,
            error: "Internal Server Error".to_owned(),
            description: "The server encountered an error while processing your request, it has been reported and will be looked into.".to_owned(),
        }
    }
}

} // verus!
