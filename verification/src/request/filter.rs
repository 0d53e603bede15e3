//! The filter state machine: a chainable value threading one request
//! through successive filter calls, with short-circuiting, pass-through
//! counting, commit semantics, and terminal dispatch.

use vstd::prelude::*;
use vstd::string::StringSliceAdditionalSpecFns;
use crate::interface::container::{pattern_contains, spec_pattern_contains};
use crate::request::filter_status::FilterError;
use crate::request::handlers::{
    default_response, spec_default_response, spec_result_model, FailureModel, HandlerResult,
    Handlers,
};
use crate::request::model::{RequestData, RequestModel};
use crate::request::path::{path_matches, spec_path_matches};
use crate::request::query::{
    query_passes, spec_effective_key, spec_optional_key, spec_query_passes,
};
use crate::response::model::ResponseModel;
use crate::text::{bytes_equal, bytes_equal_ignore_ascii_case, spec_eq_ignore_ascii_case};

verus! {

/// Whether some header pair carries the key `key`; header keys are
/// case-insensitive, so keys are compared up to ASCII letter case.
pub open spec fn spec_header_present(headers: Seq<(Seq<u8>, Seq<u8>)>, key: Seq<u8>) -> bool {
    exists|i: int| 0 <= i < headers.len() && spec_eq_ignore_ascii_case(headers[i].0, key)
}

/// The header check: some pair stored under the looked-up key (compared
/// case-insensitively) must carry a value the pattern `value` accepts
/// (`{}`, an alternation, or the literal value); when the key is absent,
/// only an optional key (leading `?`) passes.
pub open spec fn spec_header_passes(m: RequestModel, key: Seq<u8>, value: Seq<u8>) -> bool {
    let k = spec_effective_key(key);
    if spec_header_present(m.headers, k) {
        exists|i: int|
            0 <= i < m.headers.len() && spec_eq_ignore_ascii_case(m.headers[i].0, k)
                && spec_pattern_contains(value, m.headers[i].1)
    } else {
        spec_optional_key(key)
    }
}

/// Whether the request's headers hold `key` with a value accepted by the
/// pattern `value`.
pub fn header_passes(request: &RequestData, key: &str, value: &str) -> (r: bool)
    ensures
        r == spec_header_passes(request@, key.spec_bytes(), value.spec_bytes()),
{
    let kb_full = key.as_bytes();
    let optional = kb_full.len() > 0 && kb_full[0] == 63;
    let kb: &[u8] = if optional {
        vstd::slice::slice_subrange(kb_full, 1, kb_full.len())
    } else {
        kb_full
    };
    proof {
        if optional {
            assert(kb@ =~= key.spec_bytes().drop_first());
        }
        assert(kb@ == spec_effective_key(key.spec_bytes()));
    }
    let vb = value.as_bytes();
    let mut i: usize = 0;
    let mut present = false;
    let mut matched = false;
    while i < request.headers.len()
        invariant
            i <= request.headers@.len(),
            kb@ == spec_effective_key(key.spec_bytes()),
            vb@ == value.spec_bytes(),
            present == (exists|t: int|
                0 <= t < i && spec_eq_ignore_ascii_case(request@.headers[t].0, kb@)),
            matched == (exists|t: int|
                0 <= t < i && spec_eq_ignore_ascii_case(request@.headers[t].0, kb@)
                    && spec_pattern_contains(vb@, request@.headers[t].1)),
        decreases request.headers@.len() - i,
    {
        proof {
            assert(request@.headers[i as int] == (
                vstd::utf8::encode_utf8(request.headers@[i as int].0@),
                vstd::utf8::encode_utf8(request.headers@[i as int].1@),
            ));
        }
        let pair = &request.headers[i];
        if bytes_equal_ignore_ascii_case(pair.0.as_str().as_bytes(), kb) {
            present = true;
            if pattern_contains(vb, pair.1.as_str().as_bytes()) {
                matched = true;
            }
        }
        i = i + 1;
    }
    if present {
        matched
    } else {
        optional
    }
}

/// The filter state machine.  It borrows the request, records the first
/// failure, whether the chain has committed to answering, the installed
/// error handler, and how many filter calls have been skipped since the
/// failure (so `on_fail` can tell a fresh failure from an old one).
pub struct Filter<'a, H: Handlers> {
    /// The request every filter call reads.
    pub request: &'a RequestData,
    /// The installed error handler, if any.
    pub error_handler: Option<H>,
    /// Filter calls skipped since the status last became failing without
    /// an intervening `on_fail`.
    pub pass_throughs: u8,
    /// Whether a failure now owes a concrete response.
    pub committed: bool,
    /// The first failure, if any; `None` while the chain is passing.
    pub error: Option<FilterError>,
}

/// How a consumed chain resolves, at the model level.
pub ghost enum ResolutionModel {
    /// The chain passed: the success handler is to run.
    RunHandler,
    /// The chain failed after committing: this response answers it.
    Resolved(Result<ResponseModel, FailureModel>),
    /// The chain failed before committing: the route does not apply.
    Unhandled(FilterError),
}

/// One filter call on machine `f` whose predicate evaluated to
/// `outcome` (`None` for a pass): a failing machine only counts the call
/// as a pass-through, a passing machine records the outcome.
pub open spec fn spec_step<'a, H: Handlers>(
    f: Filter<'a, H>,
    outcome: Option<FilterError>,
) -> Filter<'a, H> {
    if f.error is Some {
        Filter {
            pass_throughs: if f.pass_throughs == 255 {
                255u8
            } else {
                (f.pass_throughs + 1) as u8
            },
            ..f
        }
    } else {
        Filter { error: outcome, ..f }
    }
}

/// `commit` marks a passing machine as owing a response; on a failing
/// machine it does nothing.
pub open spec fn spec_commit<'a, H: Handlers>(f: Filter<'a, H>) -> Filter<'a, H> {
    if f.error is None {
        Filter { committed: true, ..f }
    } else {
        f
    }
}

/// `on_fail` binds `handler` only when the immediately preceding call
/// caused the current failure: the machine must be failing with no
/// pass-through counted yet.  Binding also commits, and counts one
/// pass-through so a later `on_fail` does not bind to the same failure.
pub open spec fn spec_on_fail<'a, H: Handlers>(f: Filter<'a, H>, handler: H) -> Filter<'a, H> {
    if f.pass_throughs == 0 && f.error is Some {
        Filter { error_handler: Some(handler), committed: true, pass_throughs: 1u8, ..f }
    } else {
        f
    }
}

/// `set_error_handler` installs `handler` only when none is installed
/// yet: first write wins, independent of commit and pass-throughs.
pub open spec fn spec_set_error_handler<'a, H: Handlers>(
    f: Filter<'a, H>,
    handler: H,
) -> Filter<'a, H> {
    if f.error_handler is Some {
        f
    } else {
        Filter { error_handler: Some(handler), ..f }
    }
}

/// How a consumed machine resolves: a passing chain runs the success
/// handler; a committed failing chain is answered by the installed error
/// handler, or by the canonical error response; an uncommitted failing
/// chain is unhandled.
pub open spec fn spec_resolution<'a, H: Handlers>(f: Filter<'a, H>) -> ResolutionModel {
    match f.error {
        None => ResolutionModel::RunHandler,
        Some(e) => {
            if f.committed {
                match f.error_handler {
                    Some(h) => ResolutionModel::Resolved(h.spec_handle(f.request@, e)),
                    None => ResolutionModel::Resolved(
                        Ok(spec_default_response(f.request@.version, e)),
                    ),
                }
            } else {
                ResolutionModel::Unhandled(e)
            }
        },
    }
}

/// How a consumed chain resolves, as the dispatcher sees it.
pub enum Resolution<'a> {
    /// The chain passed: run the success handler on this request.
    RunHandler(&'a RequestData),
    /// The chain failed after committing: this result answers it.
    Resolved(HandlerResult),
    /// The chain failed before committing: try the next route.
    Unhandled(FilterError),
}

impl<'a, H: Handlers> Filter<'a, H> {
    /// While the chain is passing, no pass-through has been counted.
    pub open spec fn wf(self) -> bool {
        self.error is None ==> self.pass_throughs == 0
    }

    /// A fresh machine for `request`: passing, uncommitted, no handler.
    pub fn new(request: &'a RequestData) -> (r: Filter<'a, H>)
        ensures
            r.request == request,
            r.error_handler is None,
            r.pass_throughs == 0,
            !r.committed,
            r.error is None,
    {
        Filter { request, error_handler: None, pass_throughs: 0, committed: false, error: None }
    }

    /// The shared transition of every filter method.
    fn step(self, outcome: Option<FilterError>) -> (r: Self)
        ensures
            r == spec_step(self, outcome),
    {
        match self.error {
            Some(_) => {
                let pt: u8 = if self.pass_throughs == 255 {
                    255
                } else {
                    self.pass_throughs + 1
                };
                Filter { pass_throughs: pt, ..self }
            },
            None => Filter { error: outcome, ..self },
        }
    }

    /// Whether the chain has passed every filter so far.
    pub fn valid(&self) -> (r: bool)
        ensures
            r == (self.error is None),
    {
        self.error.is_none()
    }

    /// Commits the chain: once everything up to here has passed, a later
    /// failure is answered with a concrete response instead of being
    /// handed on to the next route.
    pub fn commit(self) -> (r: Self)
        ensures
            r == spec_commit(self),
    {
        if self.error.is_none() {
            Filter { committed: true, ..self }
        } else {
            self
        }
    }

    /// Installs `handler` for the failure the immediately preceding
    /// filter call caused; a pass, or an older failure, leaves the
    /// machine unchanged.
    pub fn on_fail(self, handler: H) -> (r: Self)
        ensures
            r == spec_on_fail(self, handler),
    {
        if self.pass_throughs == 0 && self.error.is_some() {
            Filter { error_handler: Some(handler), committed: true, pass_throughs: 1, ..self }
        } else {
            self
        }
    }

    /// Installs `handler` as the chain-wide error handler unless one is
    /// already installed: first write wins.
    pub fn set_error_handler(self, handler: H) -> (r: Self)
        ensures
            r == spec_set_error_handler(self, handler),
    {
        if self.error_handler.is_some() {
            self
        } else {
            Filter { error_handler: Some(handler), ..self }
        }
    }

    /// The canonical error response for `err`, mirroring the request's
    /// protocol version; available for building custom handlers that
    /// fall back to it.
    pub fn default_error_handler(req: &RequestData, err: FilterError) -> (r: HandlerResult)
        ensures
            spec_result_model(r) == Ok::<ResponseModel, FailureModel>(
                spec_default_response(req@.version, err),
            ),
    {
        Ok(default_response(req.version, err))
    }

    /// Checks that the path pattern accepts the request path.
    pub fn filter_path(self, pattern: &str) -> (r: Self)
        ensures
            r == spec_step(
                self,
                if spec_path_matches(pattern.spec_bytes(), self.request@.path) {
                    None
                } else {
                    Some(FilterError::FailFilterPath)
                },
            ),
    {
        if self.error.is_some() {
            return self.step(None);
        }
        if path_matches(pattern, self.request.path.as_str()) {
            self.step(None)
        } else {
            self.step(Some(FilterError::FailFilterPath))
        }
    }

    /// Checks that the request has the given method, compared verbatim
    /// (an upper-case name).
    pub fn filter_method(self, method: &str) -> (r: Self)
        ensures
            r == spec_step(
                self,
                if self.request@.method == method.spec_bytes() {
                    None
                } else {
                    Some(FilterError::FailFilterMethod)
                },
            ),
    {
        if self.error.is_some() {
            return self.step(None);
        }
        if bytes_equal(self.request.method.as_str().as_bytes(), method.as_bytes()) {
            self.step(None)
        } else {
            self.step(Some(FilterError::FailFilterMethod))
        }
    }

    /// Checks that the request has the given scheme; a request without a
    /// scheme fails.
    pub fn filter_scheme(self, scheme: &str) -> (r: Self)
        ensures
            r == spec_step(
                self,
                if self.request@.scheme matches Some(s) && s == scheme.spec_bytes() {
                    None
                } else {
                    Some(FilterError::FailFilterScheme)
                },
            ),
    {
        if self.error.is_some() {
            return self.step(None);
        }
        let ok = match &self.request.scheme {
            Some(s) => bytes_equal(s.as_str().as_bytes(), scheme.as_bytes()),
            None => false,
        };
        if ok {
            self.step(None)
        } else {
            self.step(Some(FilterError::FailFilterScheme))
        }
    }

    /// Checks that the request has the given port; a request without a
    /// port fails.
    pub fn filter_port(self, port: u16) -> (r: Self)
        ensures
            r == spec_step(
                self,
                if self.request@.port matches Some(p) && p == port {
                    None
                } else {
                    Some(FilterError::FailFilterPort)
                },
            ),
    {
        if self.error.is_some() {
            return self.step(None);
        }
        let ok = match self.request.port {
            Some(p) => p == port,
            None => false,
        };
        if ok {
            self.step(None)
        } else {
            self.step(Some(FilterError::FailFilterPort))
        }
    }

    /// Checks that a header under `key` (compared case-insensitively)
    /// carries a value the pattern `value` accepts; a leading `?` on
    /// `key` lets an absent key pass.
    pub fn filter_header(self, key: &str, value: &str) -> (r: Self)
        ensures
            r == spec_step(
                self,
                if spec_header_passes(self.request@, key.spec_bytes(), value.spec_bytes()) {
                    None
                } else {
                    Some(FilterError::FailFilterHeader)
                },
            ),
    {
        if self.error.is_some() {
            return self.step(None);
        }
        if header_passes(self.request, key, value) {
            self.step(None)
        } else {
            self.step(Some(FilterError::FailFilterHeader))
        }
    }

    /// Checks that the query string holds `key` with `value`, by
    /// percent-aware equality; a leading `?` on `key` lets an absent key
    /// pass.
    pub fn filter_query(self, key: &str, value: &str) -> (r: Self)
        ensures
            r == spec_step(
                self,
                if spec_query_passes(self.request@, key.spec_bytes(), value.spec_bytes()) {
                    None
                } else {
                    Some(FilterError::FailFilterQuery)
                },
            ),
    {
        if self.error.is_some() {
            return self.step(None);
        }
        if query_passes(self.request, key, value) {
            self.step(None)
        } else {
            self.step(Some(FilterError::FailFilterQuery))
        }
    }

    /// Checks the request against a custom predicate.  The predicate is
    /// evaluated only while the chain is passing.
    pub fn filter_custom<F: Fn(&'a RequestData) -> bool>(self, func: F) -> (r: Self)
        requires
            self.error is None ==> call_requires(func, (self.request,)),
        ensures
            self.error is Some ==> r == spec_step(self, None),
            self.error is None ==> exists|b: bool|
                {
                    &&& #[trigger] call_ensures(func, (self.request,), b)
                    &&& r == spec_step(
                        self,
                        if b {
                            None
                        } else {
                            Some(FilterError::FailFilterCustom)
                        },
                    )
                },
    {
        if self.error.is_some() {
            return self.step(None);
        }
        if func(self.request) {
            self.step(None)
        } else {
            self.step(Some(FilterError::FailFilterCustom))
        }
    }

    /// Consumes the machine and reports how the chain resolves: run the
    /// success handler, answer with the given result, or hand the
    /// request on.
    pub fn resolve(self) -> (r: Resolution<'a>)
        ensures
            spec_resolution(self) is RunHandler ==> (r matches Resolution::RunHandler(req)
                && req == self.request),
            spec_resolution(self) matches ResolutionModel::Resolved(m) ==> (r matches
                Resolution::Resolved(hr) && spec_result_model(hr) == m),
            spec_resolution(self) matches ResolutionModel::Unhandled(e) ==> (r matches
                Resolution::Unhandled(e2) && e2 == e),
    {
        match self.error {
            None => Resolution::RunHandler(self.request),
            Some(e) => {
                if self.committed {
                    match self.error_handler {
                        Some(h) => Resolution::Resolved(h.handle(self.request, e)),
                        None => Resolution::Resolved(
                            Ok(default_response(self.request.version, e)),
                        ),
                    }
                } else {
                    Resolution::Unhandled(e)
                }
            },
        }
    }

    /// Terminal dispatch.  A passing chain runs `handler` and returns its
    /// result; a committed failing chain returns the installed error
    /// handler's response, or the canonical error response; an
    /// uncommitted failing chain returns the failure itself, so that a
    /// multiplexer can try the next route.
    pub fn handle<F: Fn(&'a RequestData) -> HandlerResult>(self, handler: F) -> (r: Result<
        HandlerResult,
        FilterError,
    >)
        requires
            self.error is None ==> call_requires(handler, (self.request,)),
        ensures
            self.error is None ==> (r matches Ok(hr) && call_ensures(
                handler,
                (self.request,),
                hr,
            )),
            self.error matches Some(e) ==> self.committed ==> (self.error_handler matches Some(h)
                ==> (r matches Ok(hr) && spec_result_model(hr) == h.spec_handle(
                self.request@,
                e,
            ))),
            self.error matches Some(e) ==> self.committed ==> (self.error_handler is None ==> (
            r matches Ok(hr) && spec_result_model(hr) == Ok::<ResponseModel, FailureModel>(
                spec_default_response(self.request@.version, e),
            ))),
            self.error matches Some(e) ==> !self.committed ==> (r matches Err(e2) && e2 == e),
    {
        match self.resolve() {
            Resolution::RunHandler(req) => Ok(handler(req)),
            Resolution::Resolved(hr) => Ok(hr),
            Resolution::Unhandled(e) => Err(e),
        }
    }
}

impl RequestData {
    /// Begins a filter chain over this request.  The type parameter
    /// names the error-handler type the chain may install; a chain that
    /// installs none can use [`crate::request::handlers::DefaultHandlers`].
    pub fn filter_http<H: Handlers>(&self) -> (r: Filter<'_, H>)
        ensures
            r.request == self,
            r.error_handler is None,
            r.pass_throughs == 0,
            !r.committed,
            r.error is None,
    {
        Filter::new(self)
    }
}

/// A chain that fails before committing is never answered: whatever the
/// failure kind, the machine resolves to "unhandled", so a multiplexer
/// falls through to the next route.
pub proof fn lemma_uncommitted_failure_unhandled<'a, H: Handlers>(f: Filter<'a, H>)
    requires
        f.error is Some,
        !f.committed,
    ensures
        spec_resolution(f) == ResolutionModel::Unhandled(f.error->0),
{
}

/// A chain that commits while passing and then fails, with no handler
/// installed, is answered by the canonical error response for the
/// failure kind: 404 for a path mismatch, 405 for a method mismatch,
/// 400 otherwise.
pub proof fn lemma_commit_then_fail_defaults<'a, H: Handlers>(f: Filter<'a, H>, kind: FilterError)
    requires
        f.error is None,
        f.error_handler is None,
    ensures
        spec_resolution(spec_step(spec_commit(f), Some(kind))) == ResolutionModel::Resolved(
            Ok(spec_default_response(f.request@.version, kind)),
        ),
        spec_default_response(f.request@.version, kind).status == (
        if kind == FilterError::FailFilterPath {
            404u16
        } else if kind == FilterError::FailFilterMethod {
            405u16
        } else {
            400u16
        }),
{
}

/// `on_fail` binds to the immediately preceding failure only: in the
/// chain "fail A, `on_fail(h1)`, fail B, `on_fail(h2)`", the machine
/// keeps `h1`, records failure A, and resolves to `h1`'s response for A;
/// `h2` never binds.
pub proof fn lemma_on_fail_binds_first<'a, H: Handlers>(
    f: Filter<'a, H>,
    kind_a: FilterError,
    h1: H,
    kind_b: FilterError,
    h2: H,
)
    requires
        f.wf(),
        f.error is None,
    ensures
        ({
            let f4 = spec_on_fail(
                spec_step(spec_on_fail(spec_step(f, Some(kind_a)), h1), Some(kind_b)),
                h2,
            );
            &&& f4.error_handler == Some(h1)
            &&& f4.error == Some(kind_a)
            &&& f4.committed
            &&& spec_resolution(f4) == ResolutionModel::Resolved(
                h1.spec_handle(f.request@, kind_a),
            )
        }),
{
}

/// Every transition keeps the machine well formed: a passing machine
/// never carries a pass-through count.
pub proof fn lemma_transitions_preserve_wf<'a, H: Handlers>(
    f: Filter<'a, H>,
    outcome: Option<FilterError>,
    handler: H,
)
    requires
        f.wf(),
    ensures
        spec_step(f, outcome).wf(),
        spec_commit(f).wf(),
        spec_on_fail(f, handler).wf(),
        spec_set_error_handler(f, handler).wf(),
{
}

/// One call of a filter chain, at the model level: what the chain author
/// did, with the predicate's outcome where one was evaluated.
pub ghost enum ChainEvent<H: Handlers> {
    /// A filter method call whose predicate gave this outcome.
    FilterCall(Option<FilterError>),
    /// A `commit` call.
    Commit,
    /// An `on_fail` call installing this handler.
    OnFail(H),
    /// A `set_error_handler` call installing this handler.
    SetErrorHandler(H),
}

/// The machine a sequence of chain calls leads to.
pub open spec fn spec_run<'a, H: Handlers>(
    f: Filter<'a, H>,
    events: Seq<ChainEvent<H>>,
) -> Filter<'a, H>
    decreases events.len(),
{
    if events.len() == 0 {
        f
    } else {
        let g = match events[0] {
            ChainEvent::FilterCall(outcome) => spec_step(f, outcome),
            ChainEvent::Commit => spec_commit(f),
            ChainEvent::OnFail(h) => spec_on_fail(f, h),
            ChainEvent::SetErrorHandler(h) => spec_set_error_handler(f, h),
        };
        spec_run(g, events.drop_first())
    }
}

/// Chain evaluation is deterministic: from equal machines — in
/// particular, two fresh machines over the same request — the same
/// sequence of calls leads to the same machine and the same resolution.
/// A consumed machine cannot be dispatched again: the terminal methods
/// take it by value, so re-evaluating a completed chain is ruled out by
/// ownership.
pub proof fn lemma_chain_deterministic<'a, H: Handlers>(
    f1: Filter<'a, H>,
    f2: Filter<'a, H>,
    events: Seq<ChainEvent<H>>,
)
    requires
        f1 == f2,
    ensures
        spec_run(f1, events) == spec_run(f2, events),
        spec_resolution(spec_run(f1, events)) == spec_resolution(spec_run(f2, events)),
{
}

} // verus!
