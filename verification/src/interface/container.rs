//! Containers that filters can match candidate values against: plain
//! collections, numeric ranges, and the inline textual pattern syntax
//! `{}` (universal wildcard) and `{a|b|c}` (alternation).

use vstd::prelude::*;
use vstd::string::StringSliceAdditionalSpecFns;
use vstd::utf8::encode_utf8;
use crate::encoding::percent::{spec_token_matches, PercentEncodedStr};
use crate::text::{bytes_equal, spec_split, split_bytes};

verus! {

/// The bytes of the universal wildcard pattern `{}`.
pub open spec fn spec_wildcard() -> Seq<u8> {
    seq![123u8, 125u8]
}

/// Whether `pat` is wrapped in braces, the shape of an alternation.
pub open spec fn spec_is_brace_pattern(pat: Seq<u8>) -> bool {
    pat.len() >= 2 && pat[0] == 123 && pat[pat.len() - 1] == 125
}

/// The alternatives listed between the braces of `pat`, split on `|`.
pub open spec fn spec_alternatives(pat: Seq<u8>) -> Seq<Seq<u8>> {
    spec_split(pat.subrange(1, pat.len() - 1), 124)
}

/// A brace pattern is well formed when none of its alternatives is empty;
/// an empty alternative marks the pattern as malformed, and a malformed
/// pattern matches only as a literal.
pub open spec fn spec_alternatives_wellformed(pat: Seq<u8>) -> bool {
    forall|k: int| 0 <= k < spec_alternatives(pat).len() ==> spec_alternatives(pat)[k].len() > 0
}

/// Whether the textual pattern `pat` accepts the plain value `item`:
/// either `pat` is the universal wildcard `{}`, or `item` spells `pat`
/// verbatim, or `pat` is a well-formed alternation one of whose
/// alternatives equals `item`.
pub open spec fn spec_pattern_contains(pat: Seq<u8>, item: Seq<u8>) -> bool {
    ||| pat == spec_wildcard()
    ||| item == pat
    ||| {
        &&& spec_is_brace_pattern(pat)
        &&& spec_alternatives_wellformed(pat)
        &&& exists|k: int|
            0 <= k < spec_alternatives(pat).len() && spec_alternatives(pat)[k] == item
    }
}

/// Like `spec_pattern_contains`, for a candidate in percent-encoded form:
/// the candidate is compared to the pattern and to each alternative by
/// percent-aware equality.
pub open spec fn spec_pattern_contains_token(pat: Seq<u8>, raw: Seq<u8>) -> bool {
    ||| pat == spec_wildcard()
    ||| spec_token_matches(raw, pat)
    ||| {
        &&& spec_is_brace_pattern(pat)
        &&& spec_alternatives_wellformed(pat)
        &&& exists|k: int|
            0 <= k < spec_alternatives(pat).len() && spec_token_matches(
                raw,
                spec_alternatives(pat)[k],
            )
    }
}

/// Whether the textual pattern `pat` accepts the plain byte string `item`.
pub fn pattern_contains(pat: &[u8], item: &[u8]) -> (r: bool)
    ensures
        r == spec_pattern_contains(pat@, item@),
{
    if pat.len() == 2 && pat[0] == 123 && pat[1] == 125 {
        proof {
            assert(pat@ =~= spec_wildcard());
        }
        return true;
    }
    proof {
        assert(pat@ != spec_wildcard());
    }
    if bytes_equal(item, pat) {
        return true;
    }
    if pat.len() >= 2 && pat[0] == 123 && pat[pat.len() - 1] == 125 {
        let interior = vstd::slice::slice_to_vec(
            vstd::slice::slice_subrange(pat, 1, pat.len() - 1),
        );
        let alts = split_bytes(interior.as_slice(), 124);
        let mut k: usize = 0;
        let mut all_nonempty = true;
        let mut any = false;
        while k < alts.len()
            invariant
                k <= alts@.len(),
                alts.deep_view() == spec_alternatives(pat@),
                all_nonempty == (forall|t: int|
                    0 <= t < k ==> alts.deep_view()[t].len() > 0),
                any == (exists|t: int| 0 <= t < k && alts.deep_view()[t] == item@),
            decreases alts@.len() - k,
        {
            proof {
                assert(alts.deep_view()[k as int] =~= alts@[k as int]@);
            }
            let a = &alts[k];
            if a.len() == 0 {
                all_nonempty = false;
            }
            if bytes_equal(a.as_slice(), item) {
                any = true;
            }
            k = k + 1;
        }
        return all_nonempty && any;
    }
    false
}

/// Whether the textual pattern `pat` accepts the percent-encoded candidate
/// `raw`.
pub fn pattern_contains_token(pat: &[u8], raw: &[u8]) -> (r: bool)
    ensures
        r == spec_pattern_contains_token(pat@, raw@),
{
    if pat.len() == 2 && pat[0] == 123 && pat[1] == 125 {
        proof {
            assert(pat@ =~= spec_wildcard());
        }
        return true;
    }
    proof {
        assert(pat@ != spec_wildcard());
    }
    if crate::encoding::percent::token_equals_bytes(raw, pat) {
        return true;
    }
    if pat.len() >= 2 && pat[0] == 123 && pat[pat.len() - 1] == 125 {
        let interior = vstd::slice::slice_to_vec(
            vstd::slice::slice_subrange(pat, 1, pat.len() - 1),
        );
        let alts = split_bytes(interior.as_slice(), 124);
        let mut k: usize = 0;
        let mut all_nonempty = true;
        let mut any = false;
        while k < alts.len()
            invariant
                k <= alts@.len(),
                alts.deep_view() == spec_alternatives(pat@),
                all_nonempty == (forall|t: int|
                    0 <= t < k ==> alts.deep_view()[t].len() > 0),
                any == (exists|t: int|
                    0 <= t < k && spec_token_matches(raw@, alts.deep_view()[t])),
            decreases alts@.len() - k,
        {
            proof {
                assert(alts.deep_view()[k as int] =~= alts@[k as int]@);
            }
            let a = &alts[k];
            if a.len() == 0 {
                all_nonempty = false;
            }
            if crate::encoding::percent::token_equals_bytes(raw, a.as_slice()) {
                any = true;
            }
            k = k + 1;
        }
        return all_nonempty && any;
    }
    false
}

/// Containers of candidate values that filters can consult, all answering
/// the one question "does this candidate belong here?".
pub trait HttpToolsContainer<T> {
    /// The membership relation the container answers.
    spec fn spec_contains(&self, item: &T) -> bool;

    /// Whether `item` belongs to this container.
    fn http_tools_contains(&self, item: &T) -> (r: bool)
        ensures
            r == self.spec_contains(item),
    ;
}

impl HttpToolsContainer<String> for Vec<String> {
    open spec fn spec_contains(&self, item: &String) -> bool {
        exists|k: int| 0 <= k < self@.len() && self@[k]@ == item@
    }

    fn http_tools_contains(&self, item: &String) -> (r: bool)
        ensures
            r == self.spec_contains(item),
    {
        let mut k: usize = 0;
        let mut found = false;
        while k < self.len()
            invariant
                k <= self@.len(),
                found == (exists|t: int| 0 <= t < k && self@[t]@ == item@),
            decreases self@.len() - k,
        {
            if self[k].eq(item) {
                found = true;
            }
            k = k + 1;
        }
        found
    }
}

impl HttpToolsContainer<u16> for Vec<u16> {
    open spec fn spec_contains(&self, item: &u16) -> bool {
        exists|k: int| 0 <= k < self@.len() && self@[k] == *item
    }

    fn http_tools_contains(&self, item: &u16) -> (r: bool)
        ensures
            r == self.spec_contains(item),
    {
        let mut k: usize = 0;
        let mut found = false;
        while k < self.len()
            invariant
                k <= self@.len(),
                found == (exists|t: int| 0 <= t < k && self@[t] == *item),
            decreases self@.len() - k,
        {
            if self[k] == *item {
                found = true;
            }
            k = k + 1;
        }
        found
    }
}

impl HttpToolsContainer<u16> for core::ops::Range<u16> {
    open spec fn spec_contains(&self, item: &u16) -> bool {
        self.start <= *item && *item < self.end
    }

    fn http_tools_contains(&self, item: &u16) -> (r: bool)
        ensures
            r == self.spec_contains(item),
    {
        self.start <= *item && *item < self.end
    }
}

impl<'s> HttpToolsContainer<String> for &'s str {
    open spec fn spec_contains(&self, item: &String) -> bool {
        spec_pattern_contains(self.spec_bytes(), encode_utf8(item@))
    }

    fn http_tools_contains(&self, item: &String) -> (r: bool)
        ensures
            r == self.spec_contains(item),
    {
        pattern_contains(self.as_bytes(), item.as_str().as_bytes())
    }
}

impl<'s, 'a> HttpToolsContainer<PercentEncodedStr<'a>> for &'s str {
    open spec fn spec_contains(&self, item: &PercentEncodedStr<'a>) -> bool {
        spec_pattern_contains_token(self.spec_bytes(), item@)
    }

    fn http_tools_contains(&self, item: &PercentEncodedStr<'a>) -> (r: bool)
        ensures
            r == self.spec_contains(item),
    {
        pattern_contains_token(self.as_bytes(), item.inner().as_bytes())
    }
}

} // verus!
