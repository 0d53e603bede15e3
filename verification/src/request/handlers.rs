//! Handlers a dispatched chain can invoke, and the canonical error
//! response used when no custom handler is installed.

use vstd::prelude::*;
use vstd::utf8::encode_utf8;
use crate::request::filter_status::FilterError;
use crate::request::model::{HttpVersion, RequestData, RequestModel};
use crate::response::model::{ResponseData, ResponseModel};

verus! {

/// Why a handler itself failed to produce a response; surfaced to the
/// caller of a terminal dispatch as a hard failure, never interpreted as
/// a filter failure.
#[derive(Debug)]
pub struct HandlerFailure {
    /// A status code the failure suggests for an error response, if any.
    pub status: Option<u16>,
    /// A human-readable description of the failure.
    pub message: String,
}

/// The abstract value of a [`HandlerFailure`].
#[verifier::ext_equal]
pub ghost struct FailureModel {
    pub status: Option<u16>,
    pub message: Seq<u8>,
}

impl View for HandlerFailure {
    type V = FailureModel;

    open spec fn view(&self) -> FailureModel {
        FailureModel { status: self.status, message: encode_utf8(self.message@) }
    }
}

/// What a handler returns: a response, or its own failure.
pub type HandlerResult = Result<ResponseData, HandlerFailure>;

/// The abstract value of a handler's result.
pub open spec fn spec_result_model(r: HandlerResult) -> Result<ResponseModel, FailureModel> {
    match r {
        Ok(d) => Ok(d@),
        Err(f) => Err(f@),
    }
}

/// The canonical response for a failure kind: 404 for a path mismatch,
/// 405 for a method mismatch, 400 for every other kind; an empty body, a
/// `Content-Length: 0` header, and the request's protocol version.
pub open spec fn spec_default_response(version: HttpVersion, err: FilterError) -> ResponseModel {
    ResponseModel {
        status: if err == FilterError::FailFilterPath {
            404u16
        } else if err == FilterError::FailFilterMethod {
            405u16
        } else {
            400u16
        },
        version,
        headers: seq![(encode_utf8("Content-Length"@), encode_utf8("0"@))],
        body: Seq::<u8>::empty(),
    }
}

/// Builds the canonical failure response for `err`, mirroring `version`.
pub fn default_response(version: HttpVersion, err: FilterError) -> (r: ResponseData)
    ensures
        r@ == spec_default_response(version, err),
{
    let mut headers: Vec<(String, String)> = Vec::new();
    headers.push(("Content-Length".to_owned(), "0".to_owned()));
    let status: u16 = match err {
        FilterError::FailFilterPath => 404,
        FilterError::FailFilterMethod => 405,
        _ => 400,
    };
    let r = ResponseData { status, version, headers, body: Vec::new() };
    proof {
        assert(r@ =~~= spec_default_response(version, err));
    }
    r
}

/// An error handler a chain can install: it turns the request and the
/// recorded failure kind into a response.  Implementations fix the
/// response they compute through `spec_handle`.
pub trait Handlers: Sized {
    /// The response this handler computes, at the model level.
    spec fn spec_handle(&self, request: RequestModel, status: FilterError) -> Result<
        ResponseModel,
        FailureModel,
    >;

    /// Produces the response for a failed, committed chain.
    fn handle(&self, request: &RequestData, status: FilterError) -> (r: HandlerResult)
        ensures
            spec_result_model(r) == self.spec_handle(request@, status),
    ;
}

/// The handler used when none is installed: the canonical error
/// response of `spec_default_response`.
pub struct DefaultHandlers();

impl Handlers for DefaultHandlers {
    open spec fn spec_handle(&self, request: RequestModel, status: FilterError) -> Result<
        ResponseModel,
        FailureModel,
    > {
        Ok(spec_default_response(request.version, status))
    }

    fn handle(&self, request: &RequestData, status: FilterError) -> (r: HandlerResult) {
        Ok(default_response(request.version, status))
    }
}

/// A canned response used as a handler: it answers every failure with a
/// fresh copy of itself, whatever the request and the failure kind.
impl Handlers for ResponseData {
    open spec fn spec_handle(&self, request: RequestModel, status: FilterError) -> Result<
        ResponseModel,
        FailureModel,
    > {
        Ok(self@)
    }

    fn handle(&self, request: &RequestData, status: FilterError) -> (r: HandlerResult) {
        let mut headers: Vec<(String, String)> = Vec::new();
        let mut i: usize = 0;
        while i < self.headers.len()
            invariant
                i <= self.headers@.len(),
                headers@.len() == i,
                forall|t: int| 0 <= t < i ==> headers@[t] == self.headers@[t],
            decreases self.headers@.len() - i,
        {
            let pair = &self.headers[i];
            headers.push((pair.0.clone(), pair.1.clone()));
            i = i + 1;
        }
        let body = vstd::slice::slice_to_vec(self.body.as_slice());
        let copy = ResponseData { status: self.status, version: self.version, headers, body };
        proof {
            assert(copy@ =~~= self@);
        }
        Ok(copy)
    }
}

/// A handler that answers one failure kind with a canned response and
/// every other kind with the canonical error response.
#[derive(Debug)]
pub struct KindHandler {
    /// The failure kind this handler answers specially.
    pub kind: FilterError,
    /// The response it answers that kind with.
    pub response: ResponseData,
}

impl Handlers for KindHandler {
    open spec fn spec_handle(&self, request: RequestModel, status: FilterError) -> Result<
        ResponseModel,
        FailureModel,
    > {
        if status == self.kind {
            Ok(self.response@)
        } else {
            Ok(spec_default_response(request.version, status))
        }
    }

    fn handle(&self, request: &RequestData, status: FilterError) -> (r: HandlerResult) {
        if status == self.kind {
            self.response.handle(request, status)
        } else {
            Ok(default_response(request.version, status))
        }
    }
}

} // verus!
