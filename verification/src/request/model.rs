//! The library's own view of an already-parsed request: every component
//! the filters read, as a plain value.  The surrounding server converts
//! its request type into this one once, before a chain runs.

use vstd::prelude::*;
use vstd::utf8::encode_utf8;
use crate::text::{spec_split, split_bytes};

verus! {

/// The protocol version of a request; responses mirror it back.
#[derive(Clone, Copy, Debug, PartialEq, Eq, Structural)]
pub enum HttpVersion {
    Http09,
    Http10,
    Http11,
    Http2,
    Http3,
}

/// The abstract value of a [`RequestData`]: each textual component as its
/// byte string.
pub ghost struct RequestModel {
    pub method: Seq<u8>,
    pub scheme: Option<Seq<u8>>,
    pub port: Option<u16>,
    pub path: Seq<u8>,
    pub query: Option<Seq<u8>>,
    pub headers: Seq<(Seq<u8>, Seq<u8>)>,
    pub version: HttpVersion,
}

/// An already-parsed request, read-only for the lifetime of one filter
/// chain: method, URI components, raw query string, and the header pairs
/// in order.
#[derive(Debug)]
pub struct RequestData {
    pub method: String,
    pub scheme: Option<String>,
    pub port: Option<u16>,
    pub path: String,
    pub query: Option<String>,
    pub headers: Vec<(String, String)>,
    pub version: HttpVersion,
}

impl View for RequestData {
    type V = RequestModel;

    open spec fn view(&self) -> RequestModel {
        RequestModel {
            method: encode_utf8(self.method@),
            scheme: match self.scheme {
                Some(s) => Some(encode_utf8(s@)),
                None => None,
            },
            port: self.port,
            path: encode_utf8(self.path@),
            query: match self.query {
                Some(q) => Some(encode_utf8(q@)),
                None => None,
            },
            headers: Seq::new(
                self.headers@.len(),
                |i: int| (encode_utf8(self.headers@[i].0@), encode_utf8(self.headers@[i].1@)),
            ),
            version: self.version,
        }
    }
}

impl RequestData {
    /// A minimal request: `GET` for the root path, no scheme, port,
    /// query or headers.
    pub fn new() -> (r: RequestData)
        ensures
            r.method@ == "GET"@,
            r.scheme is None,
            r.port is None,
            r.path@ == "/"@,
            r.query is None,
            r.headers@.len() == 0,
            r.version == HttpVersion::Http11,
    {
        RequestData {
            method: "GET".to_owned(),
            scheme: None,
            port: None,
            path: "/".to_owned(),
            query: None,
            headers: Vec::new(),
            version: HttpVersion::Http11,
        }
    }

    /// The path segment at position `index`, counting from the first
    /// segment after the leading slash, as its bytes.
    pub fn get_path_var(&self, index: usize) -> (r: Option<Vec<u8>>)
        ensures
            ({
                let segs = spec_split(self@.path, 47);
                if index + 1 < segs.len() {
                    r matches Some(v) && v@ == segs[index + 1]
                } else {
                    r is None
                }
            }),
    {
        let segs = split_bytes(self.path.as_str().as_bytes(), 47);
        proof {
            crate::text::lemma_split_len(self@.path, 47);
            assert(segs@.len() == segs.deep_view().len());
        }
        if index < segs.len() - 1 {
            let v = vstd::slice::slice_to_vec(segs[index + 1].as_slice());
            proof {
                assert(segs.deep_view()[index + 1] =~= segs@[index + 1]@);
            }
            Some(v)
        } else {
            None
        }
    }
}

} // verus!
