//! The shape of a request before it is sent.
//!
//! Every request of this client carries the bearer credential in its
//! `Authorization` header and a fixed content type. A request is formed here
//! as a plain value; sending it is the caller's part.

use vstd::prelude::*;
use vstd::utf8::encode_utf8;

verus! {

/// The HTTP method of a request.
#[derive(Debug, Clone, Copy, PartialEq, Eq)]
pub enum Method {
    Get,
    Patch,
}

/// A request ready to be sent.
#[derive(Debug, Clone, PartialEq, Eq)]
pub struct HttpRequest {
    pub method: Method,
    pub url: String,
    /// The value of the `Authorization` header.
    pub authorization: String,
    /// The value of the `Content-Type` header.
    pub content_type: String,
    /// The body, for a request that has one.
    pub body: Option<String>,
}

/// An [`HttpRequest`] as a mathematical value.
pub struct RequestModel {
    pub method: Method,
    pub url: Seq<char>,
    pub authorization: Seq<char>,
    pub content_type: Seq<char>,
    pub body: Option<Seq<char>>,
}

impl View for HttpRequest {
    type V = RequestModel;

    open spec fn view(&self) -> RequestModel {
        RequestModel {
            method: self.method,
            url: self.url@,
            authorization: self.authorization@,
            content_type: self.content_type@,
            body: match self.body {
                Some(b) => Some(b@),
                None => None,
            },
        }
    }
}

/// The content type of every request.
pub const CONTENT_TYPE: &'static str = "application/json";

/// The query that a mutating request appends: the mask of the fields that the
/// server is to apply.
pub const UPDATE_MASK: &'static str = "?updateMask=title";

/// What the `Authorization` header holds for a credential.
pub open spec fn bearer(access_token: Seq<char>) -> Seq<char> {
    "Bearer "@ + access_token
}

/// A byte that may stand in a header value: a tab, or anything from the
/// space upwards but the delete character.
pub open spec fn is_header_byte(b: u8) -> bool {
    b >= 32 && b != 127 || b == 9
}

/// A text that may stand as a header value: each byte of its UTF-8 form may.
pub open spec fn is_header_value(text: Seq<char>) -> bool {
    forall|i: int| 0 <= i < encode_utf8(text).len() ==> is_header_byte(#[trigger] encode_utf8(text)[i])
}

/// Says whether a text may stand as a header value.
pub fn header_value_is_valid(text: &str) -> (ok: bool)
    ensures
        ok == is_header_value(text@),
{
    let bytes = text.as_bytes();
    let mut i: usize = 0;
    while i < bytes.len()
        invariant
            i <= bytes.len(),
            bytes@ == encode_utf8(text@),
            forall|j: int| 0 <= j < i ==> is_header_byte(#[trigger] bytes@[j]),
        decreases bytes.len() - i,
    {
        let b = bytes[i];
        if !(b >= 32 && b != 127 || b == 9) {
            return false;
        }
        i += 1;
    }
    true
}

/// Forms the value of the `Authorization` header for a credential.
pub fn bearer_header(access_token: &str) -> (header: String)
    ensures
        header@ == bearer(access_token@),
{
    let mut header = "Bearer ".to_owned();
    header.append(access_token);
    header
}

/// Forms the URL of a mutating request from the URL of the resource.
pub fn update_url(resource_url: &str) -> (url: String)
    ensures
        url@ == resource_url@ + UPDATE_MASK@,
{
    let mut url = resource_url.to_owned();
    url.append(UPDATE_MASK);
    url
}

} // verus!
