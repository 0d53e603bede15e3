//! Filters over responses: chainable checks on an `Option<&ResponseData>`
//! where `Some` means the response has passed every check so far and
//! `None` means some check rejected it.

use vstd::prelude::*;
use vstd::string::StringSliceAdditionalSpecFns;
use crate::interface::container::spec_wildcard;
use crate::response::model::ResponseData;
use crate::text::{
    bytes_equal, bytes_equal_ignore_ascii_case, spec_eq_ignore_ascii_case,
};

verus! {

/// The first value stored under `key`, if any; keys are compared up to
/// ASCII letter case, as header names are case-insensitive.
pub open spec fn spec_first_header_value(
    headers: Seq<(Seq<u8>, Seq<u8>)>,
    key: Seq<u8>,
) -> Option<Seq<u8>>
    decreases headers.len(),
{
    if headers.len() == 0 {
        None
    } else if spec_eq_ignore_ascii_case(headers[0].0, key) {
        Some(headers[0].1)
    } else {
        spec_first_header_value(headers.drop_first(), key)
    }
}

/// The response header check.  A `{}` key accepts any header: with a
/// `{}` value any non-empty header map passes, otherwise some header
/// value must equal `value`.  A literal key consults the first value
/// stored under it (the key compared case-insensitively), which must
/// equal `value` or `value` must be `{}`.
pub open spec fn spec_response_header_passes(
    m: crate::response::model::ResponseModel,
    key: Seq<u8>,
    value: Seq<u8>,
) -> bool {
    if key == spec_wildcard() {
        ||| (value == spec_wildcard() && m.headers.len() > 0)
        ||| exists|i: int| 0 <= i < m.headers.len() && m.headers[i].1 == value
    } else {
        match spec_first_header_value(m.headers, key) {
            Some(v) => v == value || value == spec_wildcard(),
            None => false,
        }
    }
}

/// Whether the response's headers satisfy `key` and `value` under the
/// wildcard-aware response header check.
pub fn response_header_passes(response: &ResponseData, key: &str, value: &str) -> (r: bool)
    ensures
        r == spec_response_header_passes(response@, key.spec_bytes(), value.spec_bytes()),
{
    let kb = key.as_bytes();
    let vb = value.as_bytes();
    let key_wild = kb.len() == 2 && kb[0] == 123 && kb[1] == 125;
    let value_wild = vb.len() == 2 && vb[0] == 123 && vb[1] == 125;
    proof {
        if key_wild {
            assert(kb@ =~= spec_wildcard());
        } else {
            assert(kb@ != spec_wildcard());
        }
        if value_wild {
            assert(vb@ =~= spec_wildcard());
        } else {
            assert(vb@ != spec_wildcard());
        }
    }
    if key_wild {
        if value_wild && response.headers.len() > 0 {
            return true;
        }
        let mut i: usize = 0;
        let mut found = false;
        while i < response.headers.len()
            invariant
                i <= response.headers@.len(),
                vb@ == value.spec_bytes(),
                key.spec_bytes() == spec_wildcard(),
                value_wild == (value.spec_bytes() == spec_wildcard()),
                !(value_wild && response.headers@.len() > 0),
                found == (exists|t: int| 0 <= t < i && response@.headers[t].1 == vb@),
            decreases response.headers@.len() - i,
        {
            proof {
                assert(response@.headers[i as int] == (
                    vstd::utf8::encode_utf8(response.headers@[i as int].0@),
                    vstd::utf8::encode_utf8(response.headers@[i as int].1@),
                ));
            }
            if bytes_equal(response.headers[i].1.as_str().as_bytes(), vb) {
                found = true;
            }
            i = i + 1;
        }
        return found;
    }
    let mut i: usize = 0;
    let ghost all = response@.headers;
    proof {
        assert(all.skip(0) =~= all);
    }
    while i < response.headers.len()
        invariant
            i <= response.headers@.len(),
            kb@ == key.spec_bytes(),
            vb@ == value.spec_bytes(),
            key.spec_bytes() != spec_wildcard(),
            value_wild == (value.spec_bytes() == spec_wildcard()),
            all == response@.headers,
            spec_first_header_value(all.skip(i as int), kb@) == spec_first_header_value(
                all,
                kb@,
            ),
        decreases response.headers@.len() - i,
    {
        proof {
            assert(response@.headers[i as int] == (
                vstd::utf8::encode_utf8(response.headers@[i as int].0@),
                vstd::utf8::encode_utf8(response.headers@[i as int].1@),
            ));
            assert(all.skip(i as int)[0] == all[i as int]);
            assert(all.skip(i as int).drop_first() =~= all.skip(i as int + 1));
        }
        let pair = &response.headers[i];
        if bytes_equal_ignore_ascii_case(pair.0.as_str().as_bytes(), kb) {
            proof {
                assert(spec_eq_ignore_ascii_case(all[i as int].0, kb@));
                assert(spec_first_header_value(all.skip(i as int), kb@) == Some(
                    all[i as int].1,
                ));
            }
            if value_wild {
                return true;
            }
            return bytes_equal(pair.1.as_str().as_bytes(), vb);
        }
        i = i + 1;
    }
    proof {
        assert(all.skip(i as int) =~= Seq::<(Seq<u8>, Seq<u8>)>::empty());
    }
    false
}

impl ResponseData {
    /// Begins a response filter chain: an `Option` that later checks can
    /// narrow to `None`.
    pub fn filter_http(&self) -> (r: Option<&ResponseData>)
        ensures
            r == Some(self),
    {
        Some(self)
    }
}

/// Chainable checks over an optional response reference: each one keeps
/// `Some` only when its check accepts the response inside.
pub trait Filter<'a>: Sized {
    /// The response still passing, if any.
    spec fn spec_inner(self) -> Option<&'a ResponseData>;

    /// Keeps the response when its headers satisfy `key` and `value`;
    /// `{}` serves as a wildcard for either side.
    fn filter_header(self, key: &str, value: &str) -> (r: Self)
        ensures
            r.spec_inner() == (match self.spec_inner() {
                Some(resp) => if spec_response_header_passes(
                    resp@,
                    key.spec_bytes(),
                    value.spec_bytes(),
                ) {
                    Some(resp)
                } else {
                    None::<&'a ResponseData>
                },
                None => None::<&'a ResponseData>,
            }),
    ;

    /// Keeps the response exactly when the custom predicate accepts it.
    /// The predicate runs only on a response that is still passing.
    fn filter_custom<F: Fn(&'a ResponseData) -> bool>(self, func: F) -> (r: Self)
        requires
            self.spec_inner() matches Some(resp) ==> call_requires(func, (resp,)),
        ensures
            self.spec_inner() is None ==> r.spec_inner() is None,
            self.spec_inner() matches Some(resp) ==> exists|b: bool|
                {
                    &&& #[trigger] call_ensures(func, (resp,), b)
                    &&& r.spec_inner() == (if b {
                        Some(resp)
                    } else {
                        None::<&'a ResponseData>
                    })
                },
    ;

    /// Keeps the response when its status code equals `status`.
    fn filter_status(self, status: u16) -> (r: Self)
        ensures
            r.spec_inner() == (match self.spec_inner() {
                Some(resp) => if resp@.status == status {
                    Some(resp)
                } else {
                    None::<&'a ResponseData>
                },
                None => None::<&'a ResponseData>,
            }),
    ;
}

impl<'a> Filter<'a> for Option<&'a ResponseData> {
    open spec fn spec_inner(self) -> Option<&'a ResponseData> {
        self
    }

    fn filter_header(self, key: &str, value: &str) -> (r: Self) {
        match self {
            Some(response) => {
                if response_header_passes(response, key, value) {
                    self
                } else {
                    None
                }
            },
            None => None,
        }
    }

    fn filter_custom<F: Fn(&'a ResponseData) -> bool>(self, func: F) -> (r: Self) {
        match self {
            Some(response) => {
                if func(response) {
                    self
                } else {
                    None
                }
            },
            None => None,
        }
    }

    fn filter_status(self, status: u16) -> (r: Self) {
        match self {
            Some(response) => {
                if response.status == status {
                    self
                } else {
                    None
                }
            },
            None => None,
        }
    }
}

} // verus!
