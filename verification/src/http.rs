//! What is sent over HTTP and what comes back, as plain values.
use crate::json::member_views;
use crate::text::opt_view;
use vstd::prelude::*;

verus! {

#[derive(Debug, PartialEq, Eq, Clone, Copy)]
pub enum Method {
    Get,
    Post,
    Put,
    Propfind,
}

/// A request to send.
#[derive(Debug, PartialEq, Eq)]
pub struct Request {
    pub method: Method,
    pub url: String,
    pub headers: Vec<(String, String)>,
    pub body: Option<String>,
}

pub struct RequestView {
    pub method: Method,
    pub url: Seq<char>,
    pub headers: Seq<(Seq<char>, Seq<char>)>,
    pub body: Option<Seq<char>>,
}

impl View for Request {
    type V = RequestView;

    open spec fn view(&self) -> RequestView {
        RequestView {
            method: self.method,
            url: self.url@,
            headers: member_views(self.headers@),
            body: opt_view(self.body),
        }
    }
}

/// Why a request failed.
#[derive(Debug, PartialEq, Eq)]
pub enum Failure {
    /// The server answered with an error status; the text is the body of its answer.
    Status(u16, String),
    /// No answer came; the text says why.
    Transport(String),
}

/// What came of a request.
#[derive(Debug, PartialEq, Eq)]
pub enum Reply {
    Failed(Failure),
    /// An answer with this status, and its body or the reason why it could not be read.
    Answer(u16, Result<String, String>),
}

/// One header.
pub(crate) fn header(name: &str, value: String) -> (r: (String, String))
    ensures
        r.0@ == name@,
        r.1@ == value@,
{
    (name.to_owned(), value)
}

} // verus!
