//! The library's own view of a response: status, protocol version, header
//! pairs and a byte body.  The surrounding server converts it into its
//! response type after a chain has dispatched.

use vstd::prelude::*;
use vstd::utf8::encode_utf8;
use crate::request::model::HttpVersion;

verus! {

/// The abstract value of a [`ResponseData`]: each textual component as
/// its byte string.
#[verifier::ext_equal]
pub ghost struct ResponseModel {
    pub status: u16,
    pub version: HttpVersion,
    pub headers: Seq<(Seq<u8>, Seq<u8>)>,
    pub body: Seq<u8>,
}

/// A response as the handlers build it: status code, protocol version,
/// header pairs in order, and the body bytes.
#[derive(Debug)]
pub struct ResponseData {
    pub status: u16,
    pub version: HttpVersion,
    pub headers: Vec<(String, String)>,
    pub body: Vec<u8>,
}

impl View for ResponseData {
    type V = ResponseModel;

    open spec fn view(&self) -> ResponseModel {
        ResponseModel {
            status: self.status,
            version: self.version,
            headers: Seq::new(
                self.headers@.len(),
                |i: int| (encode_utf8(self.headers@[i].0@), encode_utf8(self.headers@[i].1@)),
            ),
            body: self.body@,
        }
    }
}

/// An empty response carrying only a status code, at the model level.
pub open spec fn spec_status_response(status: u16, version: HttpVersion) -> ResponseModel {
    ResponseModel { status, version, headers: Seq::empty(), body: Seq::empty() }
}

impl ResponseData {
    /// An otherwise-empty response with the given status code.
    pub fn from_status(status: u16) -> (r: ResponseData)
        ensures
            r@ == spec_status_response(status, HttpVersion::Http11),
    {
        let r = ResponseData {
            status,
            version: HttpVersion::Http11,
            headers: Vec::new(),
            body: Vec::new(),
        };
        proof {
            assert(r@ =~~= spec_status_response(status, HttpVersion::Http11));
        }
        r
    }

    /// The decision behind turning a failed handler into a response: the
    /// status a failure carries, or 500; as body the failure's message,
    /// or else the caller's fallback text (the status's canonical
    /// reason), or else nothing.
    pub fn from_error_parts(status: Option<u16>, message: Option<String>, fallback: Option<
        String,
    >) -> (r: ResponseData)
        ensures
            r@.status == (match status {
                Some(s) => s,
                None => 500u16,
            }),
            r@.version == HttpVersion::Http11,
            r@.headers.len() == 0,
            r@.body == (match message {
                Some(m) => encode_utf8(m@),
                None => match fallback {
                    Some(f) => encode_utf8(f@),
                    None => Seq::<u8>::empty(),
                },
            }),
    {
        let code: u16 = match status {
            Some(s) => s,
            None => 500,
        };
        let text: Vec<u8> = match message {
            Some(m) => m.as_str().as_bytes_vec(),
            None => match fallback {
                Some(f) => f.as_str().as_bytes_vec(),
                None => Vec::new(),
            },
        };
        ResponseData { status: code, version: HttpVersion::Http11, headers: Vec::new(), body: text }
    }
}

} // verus!
