//! The errors a request can end in, and the page that reports them.

use vstd::prelude::*;

use crate::html::{html_escape, push_escaped};
use crate::text::{decimal, push_digits, push_str};

verus! {

/// Why a request failed. `Internal` carries a description for the log only;
/// the visitor sees a generic message.
#[derive(Debug)]
pub enum AppError {
    NotFound,
    BadRequest(String),
    Unauthorized,
    Forbidden,
    Internal(String),
}

/// The HTTP status of an error.
pub open spec fn status_spec(e: AppError) -> u16 {
    match e {
        AppError::NotFound => 404,
        AppError::BadRequest(_) => 400,
        AppError::Unauthorized => 401,
        AppError::Forbidden => 403,
        AppError::Internal(_) => 500,
    }
}

/// The message an error shows to the visitor.
pub open spec fn message_spec(e: AppError) -> Seq<char> {
    match e {
        AppError::NotFound => "Not found."@,
        AppError::BadRequest(m) => m@,
        AppError::Unauthorized => "Please log in."@,
        AppError::Forbidden => "Forbidden."@,
        AppError::Internal(_) => "Internal server error."@,
    }
}

/// The page that reports an error: the status as its title, the message
/// (escaped) as its only paragraph.
pub open spec fn error_page_spec(status: u16, message: Seq<char>) -> Seq<char> {
    "<!DOCTYPE html>"@ + "<html><head><meta charset=\"utf-8\"><title>"@ + decimal(status as int)
        + "</title></head><body><p>"@ + html_escape(message) + "</p></body></html>"@
}

impl AppError {
    /// The HTTP status code of this error.
    pub fn status(&self) -> (s: u16)
        ensures
            s == status_spec(*self),
    {
        match self {
            AppError::NotFound => 404,
            AppError::BadRequest(_) => 400,
            AppError::Unauthorized => 401,
            AppError::Forbidden => 403,
            AppError::Internal(_) => 500,
        }
    }

    /// The message shown to the visitor; internal details stay hidden.
    pub fn message(&self) -> (m: String)
        ensures
            m@ == message_spec(*self),
    {
        match self {
            AppError::NotFound => "Not found.".to_owned(),
            AppError::BadRequest(msg) => msg.clone(),
            AppError::Unauthorized => "Please log in.".to_owned(),
            AppError::Forbidden => "Forbidden.".to_owned(),
            AppError::Internal(_) => "Internal server error.".to_owned(),
        }
    }

    /// The HTML page sent with this error's status.
    pub fn page(&self) -> (html: String)
        ensures
            html@ == error_page_spec(status_spec(*self), message_spec(*self)),
    {
        let status = self.status();
        let message = self.message();
        let mut out = String::new();
        push_str(&mut out, "<!DOCTYPE html>");
        push_str(&mut out, "<html><head><meta charset=\"utf-8\"><title>");
        push_digits(&mut out, status as u64);
        push_str(&mut out, "</title></head><body><p>");
        push_escaped(&mut out, message.as_str());
        push_str(&mut out, "</p></body></html>");
        assert(out@ =~= error_page_spec(status_spec(*self), message_spec(*self)));
        out
    }
}

} // verus!
