//! Inbound HTTP parsing.
//!
//! The session consumes only the method, the path and the byte count of the
//! request head; the parser itself is the `httparse` crate, trusted to be a
//! pure function of the bytes it is given.

use vstd::prelude::*;

verus! {

/// Outcome of parsing a request head.
pub enum HttpParse {
    /// More bytes are needed.
    Partial,
    /// The bytes are not a valid request head.
    Error,
    /// A whole head: how many bytes it took, and its method and path.
    Complete { consumed: usize, method: Vec<u8>, path: Vec<u8> },
}

pub ghost enum HttpParseV {
    Partial,
    Error,
    Complete { consumed: int, method: Seq<u8>, path: Seq<u8> },
}

impl View for HttpParse {
    type V = HttpParseV;

    open spec fn view(&self) -> HttpParseV {
        match self {
            HttpParse::Partial => HttpParseV::Partial,
            HttpParse::Error => HttpParseV::Error,
            HttpParse::Complete { consumed, method, path } => HttpParseV::Complete {
                consumed: *consumed as int,
                method: method@,
                path: path@,
            },
        }
    }
}

/// What parsing a byte string yields; a pure function of the bytes alone.
pub uninterp spec fn http_parse(buf: Seq<u8>) -> HttpParseV;

/// Relies on httparse's `Request::parse`: it distinguishes a partial head,
/// an invalid head and a complete one, returns the byte offset of the body
/// (never more than the buffer holds), and fills in the request's method
/// and path, which are present on a complete request head.
#[verifier::external_body]
pub fn parse_request(buf: &[u8]) -> (r: HttpParse)
    ensures
        r@ == http_parse(buf@),
        r@ matches HttpParseV::Complete { consumed, .. } ==> 0 <= consumed <= buf@.len(),
{
    let mut headers = [httparse::EMPTY_HEADER; 16];
    let mut req = httparse::Request::new(&mut headers);
    match req.parse(buf) {
        Err(_) => HttpParse::Error,
        Ok(httparse::Status::Partial) => HttpParse::Partial,
        Ok(httparse::Status::Complete(n)) => HttpParse::Complete {
            consumed: n,
            method: req.method.unwrap_or("").as_bytes().to_vec(),
            path: req.path.unwrap_or("").as_bytes().to_vec(),
        },
    }
}

} // verus!
