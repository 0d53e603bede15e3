//! Lazy extraction of key/value pairs from a raw query string, and the
//! check behind the query filter.
//!
//! The raw string is split on `&`; each piece is split on its first `=`
//! into a key and a value (a piece without `=` is dropped without
//! error), so a value may itself contain `=`.  Keys and values stay in
//! their raw percent-encoded form and are compared with the
//! percent-aware token equality.

use vstd::prelude::*;
use vstd::string::StringSliceAdditionalSpecFns;
use vstd::utf8::encode_utf8;
use crate::encoding::percent::{spec_token_matches, token_equals_bytes};
use crate::interface::container::spec_wildcard;
use crate::request::model::{RequestData, RequestModel};
use crate::text::{
    lemma_join_split, lemma_split_first_piece, lemma_split_len, spec_join, spec_split,
    split_bytes,
};

verus! {

/// The raw query string of a request, or the empty string when absent.
pub open spec fn spec_raw_query(m: RequestModel) -> Seq<u8> {
    match m.query {
        Some(q) => q,
        None => Seq::<u8>::empty(),
    }
}

/// The key/value pairs contributed by the `&`-separated pieces: a piece
/// holding `=` splits at its first one — the key is the text before it,
/// the value everything after it — and a piece without `=` is dropped.
pub open spec fn spec_query_pairs_of(pieces: Seq<Seq<u8>>) -> Seq<(Seq<u8>, Seq<u8>)>
    decreases pieces.len(),
{
    if pieces.len() == 0 {
        Seq::<(Seq<u8>, Seq<u8>)>::empty()
    } else {
        let parts = spec_split(pieces[0], 61);
        let rest = spec_query_pairs_of(pieces.drop_first());
        if parts.len() >= 2 {
            seq![(parts[0], spec_join(parts.drop_first(), 61))] + rest
        } else {
            rest
        }
    }
}

/// The key/value pairs of the raw query string `q`.
pub open spec fn spec_query_pairs(q: Seq<u8>) -> Seq<(Seq<u8>, Seq<u8>)> {
    spec_query_pairs_of(spec_split(q, 38))
}

/// The key/value pairs of the request's query string, in order, each in
/// its raw percent-encoded form.  Re-derived from the raw string on
/// every call; nothing is cached across filter calls.
pub fn query_iter(request: &RequestData) -> (r: Vec<(Vec<u8>, Vec<u8>)>)
    ensures
        r.deep_view() == spec_query_pairs(spec_raw_query(request@)),
{
    let raw: &str = match &request.query {
        Some(q) => q.as_str(),
        None => "",
    };
    proof {
        if request.query is None {
            reveal_strlit("");
            assert(""@ =~= Seq::<char>::empty());
            assert(encode_utf8(Seq::<char>::empty()) =~= Seq::<u8>::empty());
        }
        assert(raw.spec_bytes() == spec_raw_query(request@));
    }
    let pieces = split_bytes(raw.as_bytes(), 38);
    let mut out: Vec<(Vec<u8>, Vec<u8>)> = Vec::new();
    let mut i: usize = 0;
    proof {
        assert(pieces.deep_view().skip(0) =~= pieces.deep_view());
        assert(out.deep_view() + spec_query_pairs_of(pieces.deep_view()) =~= spec_query_pairs_of(
            pieces.deep_view(),
        ));
    }
    while i < pieces.len()
        invariant
            i <= pieces@.len(),
            pieces.deep_view() == spec_split(spec_raw_query(request@), 38),
            out.deep_view() + spec_query_pairs_of(pieces.deep_view().skip(i as int))
                == spec_query_pairs(spec_raw_query(request@)),
        decreases pieces@.len() - i,
    {
        proof {
            assert(pieces.deep_view().skip(i as int)[0] =~= pieces@[i as int]@);
            assert(pieces.deep_view().skip(i as int).drop_first() =~= pieces.deep_view().skip(
                i as int + 1,
            ));
        }
        let piece = &pieces[i];
        let mut j: usize = 0;
        let mut found = false;
        while j < piece.len() && !found
            invariant
                j <= piece@.len(),
                forall|k: int| 0 <= k < j ==> piece@[k] != 61,
                found ==> j < piece@.len() && piece@[j as int] == 61,
            decreases piece@.len() - j + (if found {
                0int
            } else {
                1int
            }),
        {
            if piece[j] == 61 {
                found = true;
            } else {
                j += 1;
            }
        }
        if found {
            proof {
                lemma_split_first_piece(piece@, 61, j as int);
                lemma_split_len(piece@.skip(j as int + 1), 61);
                lemma_join_split(piece@.skip(j as int + 1), 61);
            }
            let key = vstd::slice::slice_to_vec(
                vstd::slice::slice_subrange(piece.as_slice(), 0, j),
            );
            let value = vstd::slice::slice_to_vec(
                vstd::slice::slice_subrange(piece.as_slice(), j + 1, piece.len()),
            );
            let ghost prev = out.deep_view();
            proof {
                assert(key@ =~= piece@.take(j as int));
                assert(value@ =~= piece@.skip(j as int + 1));
            }
            out.push((key, value));
            proof {
                let piece_s = pieces.deep_view().skip(i as int)[0];
                let parts_spec = spec_split(piece_s, 61);
                assert(piece_s == piece@);
                assert(parts_spec == seq![piece@.take(j as int)] + spec_split(
                    piece@.skip(j as int + 1),
                    61,
                ));
                assert(parts_spec.len() >= 2);
                assert(parts_spec[0] == piece@.take(j as int));
                assert(parts_spec.drop_first() =~= spec_split(piece@.skip(j as int + 1), 61));
                assert(spec_join(parts_spec.drop_first(), 61) == piece@.skip(j as int + 1));
                let pair = (parts_spec[0], spec_join(parts_spec.drop_first(), 61));
                assert(out.deep_view() =~~= prev.push(pair));
                assert(prev.push(pair) + spec_query_pairs_of(
                    pieces.deep_view().skip(i as int + 1),
                ) =~~= prev + (seq![pair] + spec_query_pairs_of(
                    pieces.deep_view().skip(i as int + 1),
                )));
            }
        } else {
            proof {
                lemma_split_first_piece(piece@, 61, j as int);
                assert(spec_split(pieces.deep_view().skip(i as int)[0], 61).len() < 2);
            }
        }
        i = i + 1;
    }
    proof {
        assert(pieces.deep_view().skip(i as int) =~= Seq::<Seq<u8>>::empty());
        assert(out.deep_view() + spec_query_pairs_of(Seq::<Seq<u8>>::empty()) =~= out.deep_view());
    }
    out
}

/// Whether `key` names an optional lookup: a leading `?` means that the
/// key's absence counts as a pass.
pub open spec fn spec_optional_key(key: Seq<u8>) -> bool {
    key.len() > 0 && key[0] == 63
}

/// The key to look up: `key` without its optional-marker, if it has one.
pub open spec fn spec_effective_key(key: Seq<u8>) -> Seq<u8> {
    if spec_optional_key(key) {
        key.drop_first()
    } else {
        key
    }
}

/// The query check against the pairs in order: the first pair whose raw
/// key equals `key` decides, by its raw value equalling `value` (or
/// `value` being the universal wildcard); when no key matches, the check
/// passes only for an optional key.
pub open spec fn spec_query_check(
    pairs: Seq<(Seq<u8>, Seq<u8>)>,
    key: Seq<u8>,
    value: Seq<u8>,
    optional: bool,
) -> bool
    decreases pairs.len(),
{
    if pairs.len() == 0 {
        optional
    } else if spec_token_matches(pairs[0].0, key) {
        value == spec_wildcard() || spec_token_matches(pairs[0].1, value)
    } else {
        spec_query_check(pairs.drop_first(), key, value, optional)
    }
}

/// Whether the query filter passes for `key` and `value` on request `m`.
pub open spec fn spec_query_passes(m: RequestModel, key: Seq<u8>, value: Seq<u8>) -> bool {
    spec_query_check(
        spec_query_pairs(spec_raw_query(m)),
        spec_effective_key(key),
        value,
        spec_optional_key(key),
    )
}

/// Whether the request's query string holds `key` with `value`.
pub fn query_passes(request: &RequestData, key: &str, value: &str) -> (r: bool)
    ensures
        r == spec_query_passes(request@, key.spec_bytes(), value.spec_bytes()),
{
    let kb_full = key.as_bytes();
    let optional = kb_full.len() > 0 && kb_full[0] == 63;
    let kb: &[u8] = if optional {
        vstd::slice::slice_subrange(kb_full, 1, kb_full.len())
    } else {
        kb_full
    };
    proof {
        if optional {
            assert(kb@ =~= key.spec_bytes().drop_first());
        }
        assert(kb@ == spec_effective_key(key.spec_bytes()));
    }
    let vb = value.as_bytes();
    let value_wild = vb.len() == 2 && vb[0] == 123 && vb[1] == 125;
    proof {
        if value_wild {
            assert(vb@ =~= spec_wildcard());
        } else {
            assert(vb@ != spec_wildcard());
        }
    }
    let pairs = query_iter(request);
    let ghost all = spec_query_pairs(spec_raw_query(request@));
    let mut i: usize = 0;
    proof {
        assert(pairs.deep_view().skip(0) =~= pairs.deep_view());
    }
    while i < pairs.len()
        invariant
            i <= pairs@.len(),
            pairs.deep_view() == all,
            kb@ == spec_effective_key(key.spec_bytes()),
            vb@ == value.spec_bytes(),
            value_wild == (value.spec_bytes() == spec_wildcard()),
            optional == spec_optional_key(key.spec_bytes()),
            spec_query_check(pairs.deep_view().skip(i as int), kb@, vb@, optional)
                == spec_query_passes(request@, key.spec_bytes(), value.spec_bytes()),
        decreases pairs@.len() - i,
    {
        proof {
            assert(pairs.deep_view().skip(i as int)[0] == pairs.deep_view()[i as int]);
            assert(pairs.deep_view()[i as int].0 =~= pairs@[i as int].0@);
            assert(pairs.deep_view()[i as int].1 =~= pairs@[i as int].1@);
            assert(pairs.deep_view().skip(i as int).drop_first() =~= pairs.deep_view().skip(
                i as int + 1,
            ));
        }
        if token_equals_bytes(pairs[i].0.as_slice(), kb) {
            if value_wild {
                return true;
            }
            return token_equals_bytes(pairs[i].1.as_slice(), vb);
        }
        i = i + 1;
    }
    proof {
        assert(pairs.deep_view().skip(i as int) =~= Seq::<(Seq<u8>, Seq<u8>)>::empty());
    }
    optional
}

} // verus!
