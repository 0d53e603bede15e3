//! A borrowed percent-encoded string and its equality against plain text.
//!
//! Equality never decodes into a fresh allocation: the raw side is scanned
//! in lock step with the plain side, interpreting `%XY` triplets and `+`
//! on the raw side only.

use vstd::prelude::*;
use vstd::string::StringSliceAdditionalSpecFns;
use crate::text::bytes_equal;

verus! {

/// Whether `b` is the byte of an ASCII hexadecimal digit.
pub open spec fn spec_is_hex_digit(b: u8) -> bool {
    (48 <= b && b <= 57) || (65 <= b && b <= 70) || (97 <= b && b <= 102)
}

/// The numeric value of the ASCII hexadecimal digit byte `b`.
pub open spec fn spec_hex_value(b: u8) -> u8 {
    if 48 <= b && b <= 57 {
        (b - 48) as u8
    } else if 65 <= b && b <= 70 {
        (b - 55) as u8
    } else {
        (b - 87) as u8
    }
}

/// The value of the ASCII hexadecimal digit byte `hex`, or `None` for any
/// other byte.
pub fn hex_to_byte(hex: u8) -> (r: Option<u8>)
    ensures
        r == if spec_is_hex_digit(hex) {
            Some(spec_hex_value(hex))
        } else {
            Option::<u8>::None
        },
{
    if 48 <= hex && hex <= 57 {
        Some(hex - 48)
    } else if 65 <= hex && hex <= 70 {
        Some(hex - 55)
    } else if 97 <= hex && hex <= 102 {
        Some(hex - 87)
    } else {
        None
    }
}

/// Lock-step comparison of a raw percent-encoded tail with a plain tail.
///
/// A `%` on the raw side must start a valid `%XY` triplet whose byte value
/// equals the next plain byte; a truncated or non-hexadecimal triplet makes
/// the comparison false.  A raw `+` matches itself or a plain space.  The
/// comparison is true only when both sides run out together.
pub open spec fn spec_token_eq_from(raw: Seq<u8>, decoded: Seq<u8>) -> bool
    decreases raw.len() + decoded.len(),
{
    if raw.len() == 0 && decoded.len() == 0 {
        true
    } else if raw.len() > 0 && decoded.len() > 0 {
        let e = raw[0];
        let u = decoded[0];
        if e == 37 {
            &&& raw.len() >= 3
            &&& spec_is_hex_digit(raw[1])
            &&& spec_is_hex_digit(raw[2])
            &&& u == spec_hex_value(raw[1]) * 16 + spec_hex_value(raw[2])
            &&& spec_token_eq_from(raw.skip(3), decoded.drop_first())
        } else if e == u {
            spec_token_eq_from(raw.drop_first(), decoded.drop_first())
        } else if e == 43 && u == 32 {
            spec_token_eq_from(raw.drop_first(), decoded.drop_first())
        } else {
            false
        }
    } else {
        false
    }
}

/// Raw `raw` equals plain `decoded`: either verbatim, or byte-wise with
/// `%XY` and `+` interpreted on the raw side.
pub open spec fn spec_token_matches(raw: Seq<u8>, decoded: Seq<u8>) -> bool {
    raw == decoded || spec_token_eq_from(raw, decoded)
}

/// Compares a raw percent-encoded byte string against a plain byte string.
pub fn token_equals_bytes(raw: &[u8], decoded: &[u8]) -> (r: bool)
    ensures
        r == spec_token_matches(raw@, decoded@),
{
    if bytes_equal(raw, decoded) {
        return true;
    }
    let mut i: usize = 0;
    let mut j: usize = 0;
    proof {
        assert(raw@.skip(0) =~= raw@);
        assert(decoded@.skip(0) =~= decoded@);
    }
    loop
        invariant
            i <= raw@.len(),
            j <= decoded@.len(),
            raw@ != decoded@,
            spec_token_eq_from(raw@.skip(i as int), decoded@.skip(j as int))
                == spec_token_eq_from(raw@, decoded@),
        decreases raw@.len() - i + decoded@.len() - j,
    {
        proof {
            if i == raw@.len() {
                assert(raw@.skip(i as int) =~= Seq::<u8>::empty());
            }
            if j == decoded@.len() {
                assert(decoded@.skip(j as int) =~= Seq::<u8>::empty());
            }
        }
        if i == raw.len() && j == decoded.len() {
            return true;
        }
        if i == raw.len() || j == decoded.len() {
            return false;
        }
        let e = raw[i];
        let u = decoded[j];
        proof {
            assert(raw@.skip(i as int)[0] == raw@[i as int]);
            assert(decoded@.skip(j as int)[0] == decoded@[j as int]);
            assert(decoded@.skip(j as int).drop_first() =~= decoded@.skip(j as int + 1));
            assert(raw@.skip(i as int).drop_first() =~= raw@.skip(i as int + 1));
        }
        if e == 37 {
            if raw.len() - i < 3 {
                return false;
            }
            proof {
                assert(raw@.skip(i as int)[1] == raw@[i as int + 1]);
                assert(raw@.skip(i as int)[2] == raw@[i as int + 2]);
                assert(raw@.skip(i as int).skip(3) =~= raw@.skip(i as int + 3));
            }
            let fb = hex_to_byte(raw[i + 1]);
            let sb = hex_to_byte(raw[i + 2]);
            match (fb, sb) {
                (Some(f), Some(s2)) => {
                    assert(f <= 15 && s2 <= 15);
                    if u == f * 16 + s2 {
                        i = i + 3;
                        j = j + 1;
                    } else {
                        return false;
                    }
                },
                _ => {
                    return false;
                },
            }
        } else if e == u {
            i = i + 1;
            j = j + 1;
        } else if e == 43 && u == 32 {
            i = i + 1;
            j = j + 1;
        } else {
            return false;
        }
    }
}

/// When the lock-step comparison succeeds, every `%` in the raw string
/// starts a valid `%XY` triplet: the scan consumes the whole raw string,
/// interprets each `%` it meets as the start of a triplet, and the two
/// bytes inside a triplet are hexadecimal digits, never `%`.
pub proof fn lemma_token_eq_valid_triplets(raw: Seq<u8>, decoded: Seq<u8>, p: int)
    requires
        spec_token_eq_from(raw, decoded),
        0 <= p < raw.len(),
        raw[p] == 37,
    ensures
        p + 3 <= raw.len(),
        spec_is_hex_digit(raw[p + 1]),
        spec_is_hex_digit(raw[p + 2]),
    decreases raw.len(),
{
    assert(decoded.len() > 0);
    if raw[0] == 37 {
        assert(raw.len() >= 3);
        assert(!spec_is_hex_digit(37));
        if p == 0 {
        } else {
            assert(p >= 3);
            lemma_token_eq_valid_triplets(raw.skip(3), decoded.drop_first(), p - 3);
            assert(raw.skip(3)[p - 3] == raw[p]);
            assert(raw.skip(3)[p - 2] == raw[p + 1]);
            assert(raw.skip(3)[p - 1] == raw[p + 2]);
        }
    } else {
        assert(p >= 1);
        lemma_token_eq_valid_triplets(raw.drop_first(), decoded.drop_first(), p - 1);
        assert(raw.drop_first()[p - 1] == raw[p]);
        assert(raw.drop_first()[p] == raw[p + 1]);
        assert(raw.drop_first()[p + 1] == raw[p + 2]);
    }
}

/// A raw string holding a `%` that does not start a valid triplet —
/// truncated, or followed by a byte that is no hexadecimal digit —
/// equals a plain string only by spelling it verbatim, never through
/// decoding.
pub proof fn lemma_invalid_triplet_only_verbatim(raw: Seq<u8>, decoded: Seq<u8>, p: int)
    requires
        0 <= p < raw.len(),
        raw[p] == 37,
        p + 3 > raw.len() || !spec_is_hex_digit(raw[p + 1]) || !spec_is_hex_digit(raw[p + 2]),
    ensures
        spec_token_matches(raw, decoded) <==> raw == decoded,
{
    if spec_token_eq_from(raw, decoded) {
        lemma_token_eq_valid_triplets(raw, decoded, p);
        assert(false);
    }
}

/// A borrowed string in percent-encoded form, such as a URI component.
///
/// Comparing it against a plain string interprets `%XY` triplets and `+`
/// in the wrapped string only, without allocating; a wrapped string also
/// equals the plain string that spells it verbatim.
#[derive(Debug)]
pub struct PercentEncodedStr<'a>(&'a str);

impl<'a> View for PercentEncodedStr<'a> {
    type V = Seq<u8>;

    closed spec fn view(&self) -> Seq<u8> {
        self.0.spec_bytes()
    }
}

impl<'a> PercentEncodedStr<'a> {
    /// Wraps a percent-encoded string.
    pub fn new(s: &'a str) -> (r: Self)
        ensures
            r@ == s.spec_bytes(),
    {
        PercentEncodedStr(s)
    }

    /// The wrapped string, unchanged.
    pub fn inner(&self) -> (r: &'a str)
        ensures
            r.spec_bytes() == self@,
    {
        self.0
    }

    /// Whether the wrapped raw string equals the plain string `rhs`.
    pub fn equals(&self, rhs: &str) -> (r: bool)
        ensures
            r == spec_token_matches(self@, rhs.spec_bytes()),
    {
        token_equals_bytes(self.0.as_bytes(), rhs.as_bytes())
    }
}

impl<'a> PartialEq<&str> for PercentEncodedStr<'a> {
    fn eq(&self, other: &&str) -> (r: bool) {
        self.equals(*other)
    }
}

impl<'a> vstd::std_specs::cmp::PartialEqSpecImpl<&str> for PercentEncodedStr<'a> {
    open spec fn obeys_eq_spec() -> bool {
        true
    }

    open spec fn eq_spec(&self, other: &&str) -> bool {
        spec_token_matches(self@, other.spec_bytes())
    }
}

} // verus!
