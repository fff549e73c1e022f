//! The HTTP request: fully loaded into memory, parsed from a byte
//! buffer, with body, cookie and parameter accessors.

use vstd::prelude::*;

use crate::bytes::sub_vec;
use crate::error::RequestError;
use crate::head::{spec_content_length, spec_head, spec_head_cookies, Cookies, Head, HeadView};
use crate::json::{json_accepts, parse_json};
use crate::params::{Params, ToParameter};

verus! {

/// The mathematical model of a request: its head, its body bytes, its
/// cookies, and the router's path parameters once they are attached.
pub ghost struct RequestView {
    pub head: HeadView,
    pub body: Seq<u8>,
    pub cookies: Seq<(Seq<u8>, Seq<u8>)>,
    pub params: Option<Seq<Seq<u8>>>,
}

/// What `String::from_utf8_lossy` decodes the bytes `b` to: a function
/// of the bytes alone.
pub uninterp spec fn utf8_lossy(b: Seq<u8>) -> Seq<char>;

/// Relies on `String::from_utf8_lossy`: the decoding is a function of
/// the bytes alone; incompatible bytes are replaced.
#[verifier::external_body]
fn utf8_lossy_string(b: &Vec<u8>) -> (r: String)
    ensures
        r@ == utf8_lossy(b@),
{
    String::from_utf8_lossy(b).to_string()
}

/// The body length a well-formed head declares: its readable content
/// length, or zero when it declares none.
pub open spec fn spec_body_len(h: HeadView) -> int {
    match spec_content_length(h) {
        Some(n) => n as int,
        None => 0,
    }
}

/// An HTTP request, fully loaded into memory: head, body and cookies,
/// plus the path parameters once a router has attached them.
pub struct Request {
    head: Head,
    body: Vec<u8>,
    cookies: Cookies,
    params: Option<Params>,
}

impl View for Request {
    type V = RequestView;

    closed spec fn view(&self) -> RequestView {
        RequestView {
            head: self.head@,
            body: self.body@,
            cookies: self.cookies@,
            params: match self.params {
                Some(p) => Some(p.values@.map_values(|v: Vec<u8>| v@)),
                None => None,
            },
        }
    }
}

impl Request {
    /// Read a request in its entirety from a byte buffer: a well-formed
    /// head followed by at least as many bytes as the head's declared
    /// content length; exactly that many become the body. The request
    /// carries no path parameters until a router attaches them.
    pub fn parse(buf: &Vec<u8>) -> (r: Result<Request, RequestError>)
        ensures
            r is Ok <==> (spec_head(buf@) matches Some(p) && p.1 + spec_body_len(p.0)
                <= buf@.len()),
            r matches Ok(req) ==> (spec_head(buf@) matches Some(p) && req@.head == p.0
                && req@.body == buf@.subrange(p.1, p.1 + spec_body_len(p.0)) && req@.cookies
                == spec_head_cookies(p.0) && req@.params is None),
            r is Err ==> r == Err::<Request, RequestError>(RequestError::MalformedRequest),
    {
        let (head, body_start) = match Head::parse(buf) {
            Ok(p) => p,
            Err(_) => {
                return Err(RequestError::MalformedRequest);
            },
        };
        let n = match head.content_length() {
            Some(n) => n,
            None => 0,
        };
        if buf.len() - body_start < n {
            return Err(RequestError::MalformedRequest);
        }
        let body = sub_vec(buf, body_start, body_start + n);
        let cookies = head.cookies();
        Ok(Request { head, body, cookies, params: None })
    }

    /// Attach the router's path parameters; everything else is left as
    /// it was.
    pub fn with_params(self, params: Params) -> (r: Request)
        ensures
            r@.head == self@.head,
            r@.body == self@.body,
            r@.cookies == self@.cookies,
            r@.params == Some(params.values@.map_values(|v: Vec<u8>| v@)),
    {
        Request { head: self.head, body: self.body, cookies: self.cookies, params: Some(params) }
    }

    /// Extract a parameter from the provided path position, converted to
    /// `T`: `Ok(None)` when no parameters are attached or the position
    /// is past them, otherwise the converter's verdict on the raw value.
    pub fn parameter<T: ToParameter>(&self, index: usize) -> (r: Result<Option<T>, RequestError>)
        ensures
            self@.params is None ==> (r matches Ok(o) && o is None),
            (self@.params matches Some(ps) && index >= ps.len()) ==> (r matches Ok(o)
                && o is None),
            (self@.params matches Some(ps) && index < ps.len()) ==> ((r matches Ok(o)
                && o is Some) || r is Err),
    {
        match &self.params {
            None => Ok(None),
            Some(params) => match params.parameter(index) {
                None => Ok(None),
                Some(raw) => match T::to_parameter(raw) {
                    Ok(v) => Ok(Some(v)),
                    Err(e) => Err(e),
                },
            },
        }
    }

    /// The request's body as bytes; the caller handles any encoding.
    pub fn body(&self) -> (r: &Vec<u8>)
        ensures
            r@ == self@.body,
    {
        &self.body
    }

    /// The request's body as a JSON value: succeeds exactly when the
    /// body is one valid JSON document.
    pub fn json_raw(&self) -> (r: Result<serde_json::Value, serde_json::Error>)
        ensures
            r is Ok <==> json_accepts(self@.body),
    {
        parse_json(&self.body)
    }

    /// The request's body as text. UTF-8 encoding is assumed, and all
    /// incompatible characters are replaced.
    pub fn html(&self) -> (r: String)
        ensures
            r@ == utf8_lossy(self@.body),
    {
        utf8_lossy_string(&self.body)
    }

    /// The request's cookies.
    pub fn cookies(&self) -> (r: &Cookies)
        ensures
            r@ == self@.cookies,
    {
        &self.cookies
    }

    /// The request's head.
    pub fn head(&self) -> (r: &Head)
        ensures
            r@ == self@.head,
    {
        &self.head
    }
}

} // verus!
