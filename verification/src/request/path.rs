//! The path pattern matcher: segment-wise comparison with exact-length
//! matching by default, `{}` and `{a|b|c}` per segment, and a terminal
//! `*` that accepts all remaining segments.

use vstd::prelude::*;
use vstd::string::StringSliceAdditionalSpecFns;
use crate::interface::container::{
    pattern_contains, spec_is_brace_pattern, spec_pattern_contains, spec_wildcard,
};
use crate::text::{lemma_join_split, spec_split, split_bytes};

verus! {

/// The bytes of the terminal wildcard segment `*`.
pub open spec fn spec_star() -> Seq<u8> {
    seq![42u8]
}

/// Segment-wise matching: a `*` pattern segment accepts everything that
/// remains; otherwise both lists must advance together, each pattern
/// segment accepting the path segment beside it, and run out together.
pub open spec fn spec_segments_match(pats: Seq<Seq<u8>>, segs: Seq<Seq<u8>>) -> bool
    decreases pats.len(),
{
    if pats.len() > 0 && pats[0] == spec_star() {
        true
    } else if pats.len() > 0 && segs.len() > 0 && spec_pattern_contains(pats[0], segs[0]) {
        spec_segments_match(pats.drop_first(), segs.drop_first())
    } else {
        pats.len() == 0 && segs.len() == 0
    }
}

/// Whether the path pattern accepts the path, both split on `/`.
pub open spec fn spec_path_matches(pattern: Seq<u8>, path: Seq<u8>) -> bool {
    spec_segments_match(spec_split(pattern, 47), spec_split(path, 47))
}

/// Whether the path pattern `pattern` accepts the request path `path`.
pub fn path_matches(pattern: &str, path: &str) -> (r: bool)
    ensures
        r == spec_path_matches(pattern.spec_bytes(), path.spec_bytes()),
{
    let pats = split_bytes(pattern.as_bytes(), 47);
    let segs = split_bytes(path.as_bytes(), 47);
    let mut k: usize = 0;
    proof {
        assert(pats.deep_view().skip(0) =~= pats.deep_view());
        assert(segs.deep_view().skip(0) =~= segs.deep_view());
    }
    loop
        invariant
            k <= pats@.len(),
            k <= segs@.len(),
            pats.deep_view() == spec_split(pattern.spec_bytes(), 47),
            segs.deep_view() == spec_split(path.spec_bytes(), 47),
            spec_segments_match(
                pats.deep_view().skip(k as int),
                segs.deep_view().skip(k as int),
            ) == spec_path_matches(pattern.spec_bytes(), path.spec_bytes()),
        decreases pats@.len() - k,
    {
        if k < pats.len() {
            let p = &pats[k];
            proof {
                assert(pats.deep_view().skip(k as int)[0] =~= pats@[k as int]@);
            }
            if p.len() == 1 && p[0] == 42 {
                proof {
                    assert(pats@[k as int]@ =~= spec_star());
                }
                return true;
            }
            proof {
                assert(pats@[k as int]@ != spec_star());
            }
            if k < segs.len() {
                proof {
                    assert(segs.deep_view().skip(k as int)[0] =~= segs@[k as int]@);
                }
                if pattern_contains(p.as_slice(), segs[k].as_slice()) {
                    proof {
                        assert(pats.deep_view().skip(k as int).drop_first() =~= pats.deep_view()
                            .skip(k as int + 1));
                        assert(segs.deep_view().skip(k as int).drop_first() =~= segs.deep_view()
                            .skip(k as int + 1));
                    }
                    k = k + 1;
                } else {
                    return false;
                }
            } else {
                proof {
                    assert(segs.deep_view().skip(k as int) =~= Seq::<Seq<u8>>::empty());
                }
                return false;
            }
        } else {
            proof {
                assert(pats.deep_view().skip(k as int) =~= Seq::<Seq<u8>>::empty());
                if k == segs.len() {
                    assert(segs.deep_view().skip(k as int) =~= Seq::<Seq<u8>>::empty());
                }
            }
            return k == segs.len();
        }
    }
}

/// Whether every segment of a split pattern is a plain literal: neither
/// the terminal wildcard `*` nor brace-shaped (`{}` or an alternation).
pub open spec fn spec_literal_segments(pats: Seq<Seq<u8>>) -> bool {
    forall|k: int|
        0 <= k < pats.len() ==> pats[k] != spec_star() && !spec_is_brace_pattern(pats[k])
}

/// Whether the path pattern holds no wildcard token at all.
pub open spec fn spec_literal_pattern(pattern: Seq<u8>) -> bool {
    spec_literal_segments(spec_split(pattern, 47))
}

proof fn lemma_segments_match_refl(segs: Seq<Seq<u8>>)
    ensures
        spec_segments_match(segs, segs),
    decreases segs.len(),
{
    if segs.len() > 0 && segs[0] != spec_star() {
        lemma_segments_match_refl(segs.drop_first());
    }
}

proof fn lemma_literal_segments_exact(pats: Seq<Seq<u8>>, segs: Seq<Seq<u8>>)
    requires
        spec_literal_segments(pats),
    ensures
        spec_segments_match(pats, segs) <==> pats == segs,
    decreases pats.len(),
{
    if pats.len() == 0 {
        if segs.len() == 0 {
            assert(pats =~= segs);
        } else {
            assert(pats != segs);
        }
    } else {
        assert(pats[0] != spec_star());
        assert(!spec_is_brace_pattern(pats[0]));
        assert(spec_is_brace_pattern(spec_wildcard()));
        assert(spec_literal_segments(pats.drop_first()));
        if segs.len() > 0 {
            lemma_literal_segments_exact(pats.drop_first(), segs.drop_first());
        }
        if spec_segments_match(pats, segs) {
            assert(segs.len() > 0 && spec_pattern_contains(pats[0], segs[0]));
            assert(segs[0] == pats[0]);
            assert(pats.drop_first() == segs.drop_first());
            assert(forall|i: int| 1 <= i < pats.len() ==> pats[i] == pats.drop_first()[i - 1]);
            assert(forall|i: int| 1 <= i < segs.len() ==> segs[i] == segs.drop_first()[i - 1]);
            assert(pats =~= segs);
        }
        if pats == segs {
            lemma_segments_match_refl(pats);
        }
    }
}

/// A path pattern free of wildcard tokens accepts exactly one path: the
/// pattern itself, byte for byte.
pub proof fn lemma_literal_pattern_exact(pattern: Seq<u8>, path: Seq<u8>)
    requires
        spec_literal_pattern(pattern),
    ensures
        spec_path_matches(pattern, path) <==> pattern == path,
{
    lemma_literal_segments_exact(spec_split(pattern, 47), spec_split(path, 47));
    if spec_path_matches(pattern, path) {
        lemma_join_split(pattern, 47);
        lemma_join_split(path, 47);
    }
}

} // verus!
