//! The answers of the agent's HTTP endpoints, decided from the request and
//! the printer's result.
use vstd::prelude::*;
use crate::printer::{printer_error_text, PrinterError};

verus! {

/// The answer to a `POST /print` request.
pub enum PrintReply {
    /// The job was printed: 204 No Content.
    Printed,
    /// The request had no body: 400 Bad Request.
    EmptyBody,
    /// Printing failed, for the reason given: 500 Internal Server Error.
    Failed(String),
}

/// The answer that a print result gets.
pub open spec fn reply_is(res: Result<(), PrinterError>, reply: PrintReply) -> bool {
    match res {
        Ok(()) => reply is Printed,
        Err(e) => reply matches PrintReply::Failed(m) && printer_error_text(e, m@),
    }
}

impl PrintReply {
    /// The HTTP status code of the answer.
    pub fn status_code(&self) -> (r: u16)
        ensures
            self is Printed ==> r == 204,
            self is EmptyBody ==> r == 400,
            self is Failed ==> r == 500,
    {
        match self {
            PrintReply::Printed => 204,
            PrintReply::EmptyBody => 400,
            PrintReply::Failed(_) => 500,
        }
    }

    /// The error text that the answer carries, if it is an error.
    pub fn error_text(&self) -> (r: Option<String>)
        ensures
            self is Printed ==> r is None,
            self is EmptyBody ==> (r matches Some(m) && m@ == "empty body"@),
            self matches PrintReply::Failed(e) ==> (r matches Some(m) && m@ == e@),
    {
        match self {
            PrintReply::Printed => None,
            PrintReply::EmptyBody => Some(String::from_str("empty body")),
            PrintReply::Failed(e) => Some(e.clone()),
        }
    }
}

/// The answer for the result of printing a job.
pub fn reply_for(res: &Result<(), PrinterError>) -> (r: PrintReply)
    ensures
        reply_is(*res, r),
{
    match res {
        Ok(()) => PrintReply::Printed,
        Err(e) => PrintReply::Failed(e.message()),
    }
}

/// Answers a print request: a job with no bytes is refused without printing,
/// any other is handed to `print`, and the answer follows its result.
pub fn handle_print<P: Fn(&[u8]) -> Result<(), PrinterError>>(body: &[u8], print: P) -> (r:
    PrintReply)
    requires
        forall|b: &[u8]| call_requires(print, (b,)),
    ensures
        body@.len() == 0 ==> r is EmptyBody,
        body@.len() > 0 ==> exists|res: Result<(), PrinterError>|
            #[trigger] call_ensures(print, (body,), res) && reply_is(res, r),
{
    if body.len() == 0 {
        return PrintReply::EmptyBody;
    }
    let res = print(body);
    reply_for(&res)
}

} // verus!
