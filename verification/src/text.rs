//! Byte-string helpers shared by the pattern, path and query machinery:
//! splitting a byte string on a separator byte, joining the pieces back,
//! and plain byte-wise comparison.

use vstd::prelude::*;

verus! {

/// The pieces of `s` between occurrences of `sep`, in order.  An empty
/// string yields one empty piece, and every separator starts a new piece,
/// so the result always holds at least one piece.
pub open spec fn spec_split(s: Seq<u8>, sep: u8) -> Seq<Seq<u8>>
    decreases s.len(),
{
    if s.len() == 0 {
        seq![Seq::<u8>::empty()]
    } else if s[0] == sep {
        seq![Seq::<u8>::empty()] + spec_split(s.drop_first(), sep)
    } else {
        let rest = spec_split(s.drop_first(), sep);
        rest.update(0, seq![s[0]] + rest[0])
    }
}

/// The pieces interleaved with the separator again; inverse of `spec_split`.
pub open spec fn spec_join(pieces: Seq<Seq<u8>>, sep: u8) -> Seq<u8>
    decreases pieces.len(),
{
    if pieces.len() == 0 {
        Seq::<u8>::empty()
    } else if pieces.len() == 1 {
        pieces[0]
    } else {
        pieces[0] + seq![sep] + spec_join(pieces.drop_first(), sep)
    }
}

pub proof fn lemma_split_len(s: Seq<u8>, sep: u8)
    ensures
        spec_split(s, sep).len() >= 1,
    decreases s.len(),
{
    if s.len() == 0 {
    } else if s[0] == sep {
    } else {
        lemma_split_len(s.drop_first(), sep);
    }
}

/// Splitting loses nothing: joining the pieces of `s` with the
/// separator gives `s` back.  In particular two strings with
/// equal pieces are equal.
pub proof fn lemma_join_split(s: Seq<u8>, sep: u8)
    ensures
        spec_join(spec_split(s, sep), sep) == s,
    decreases s.len(),
{
    if s.len() == 0 {
        assert(spec_join(spec_split(s, sep), sep) =~= s);
    } else if s[0] == sep {
        lemma_join_split(s.drop_first(), sep);
        lemma_split_len(s.drop_first(), sep);
        let pieces = seq![Seq::<u8>::empty()] + spec_split(s.drop_first(), sep);
        assert(pieces.len() >= 2);
        assert(pieces.drop_first() =~= spec_split(s.drop_first(), sep));
        assert(pieces[0] =~= Seq::<u8>::empty());
        assert(spec_join(pieces, sep) == pieces[0] + seq![sep] + spec_join(
            spec_split(s.drop_first(), sep),
            sep,
        ));
        assert(pieces[0] + seq![sep] + s.drop_first() =~= s);
    } else {
        lemma_join_split(s.drop_first(), sep);
        lemma_split_len(s.drop_first(), sep);
        let rest = spec_split(s.drop_first(), sep);
        let whole = rest.update(0, seq![s[0]] + rest[0]);
        if rest.len() == 1 {
            assert(spec_join(rest, sep) == rest[0]);
            assert(spec_join(whole, sep) == seq![s[0]] + rest[0]);
            assert(seq![s[0]] + s.drop_first() =~= s);
        } else {
            assert(whole.drop_first() =~= rest.drop_first());
            let tail = spec_join(rest.drop_first(), sep);
            assert(spec_join(whole, sep) == (seq![s[0]] + rest[0]) + seq![sep] + tail);
            assert(spec_join(rest, sep) == rest[0] + seq![sep] + tail);
            assert((seq![s[0]] + rest[0]) + seq![sep] + tail =~= seq![s[0]] + (rest[0] + seq![sep]
                + tail));
            assert(seq![s[0]] + s.drop_first() =~= s);
        }
    }
}

/// How `spec_split` consumes a separator-free prefix: if the first `p`
/// bytes of `t` are free of `sep` and byte `p` (if any) is `sep`, the
/// first piece is exactly that prefix.
pub proof fn lemma_split_first_piece(t: Seq<u8>, sep: u8, p: int)
    requires
        0 <= p <= t.len(),
        forall|k: int| 0 <= k < p ==> t[k] != sep,
        p == t.len() || t[p] == sep,
    ensures
        p == t.len() ==> spec_split(t, sep) == seq![t],
        p < t.len() ==> spec_split(t, sep) == seq![t.take(p)] + spec_split(
            t.skip(p + 1),
            sep,
        ),
    decreases p,
{
    if p == 0 {
        if p == t.len() {
            assert(spec_split(t, sep) =~~= seq![t]);
        } else {
            assert(t[0] == sep);
            assert(t.drop_first() =~= t.skip(1));
            assert(spec_split(t, sep) =~~= seq![t.take(0)] + spec_split(t.skip(1), sep));
        }
    } else {
        assert(t[0] != sep);
        let u = t.drop_first();
        lemma_split_first_piece(u, sep, p - 1);
        let rest = spec_split(u, sep);
        lemma_split_len(u, sep);
        if p == t.len() {
            assert(rest == seq![u]);
            assert(seq![t[0]] + rest[0] =~= t);
            assert(spec_split(t, sep) =~~= seq![t]);
        } else {
            assert(u[p - 1] == sep);
            assert(rest == seq![u.take(p - 1)] + spec_split(u.skip(p), sep));
            lemma_split_len(u.skip(p), sep);
            assert(seq![t[0]] + rest[0] =~= t.take(p));
            assert(u.skip(p) =~= t.skip(p + 1));
            assert(spec_split(t, sep) =~~= seq![t.take(p)] + spec_split(t.skip(p + 1), sep));
        }
    }
}

/// Byte-wise equality of two byte slices.
pub fn bytes_equal(a: &[u8], b: &[u8]) -> (r: bool)
    ensures
        r == (a@ == b@),
{
    if a.len() != b.len() {
        assert(a@.len() != b@.len());
        return false;
    }
    let mut i: usize = 0;
    while i < a.len()
        invariant
            i <= a.len(),
            a@.len() == b@.len(),
            forall|k: int| 0 <= k < i ==> a@[k] == b@[k],
        decreases a.len() - i,
    {
        if a[i] != b[i] {
            return false;
        }
        i += 1;
    }
    proof {
        assert(a@ =~= b@);
    }
    true
}

/// The byte `b` with an ASCII upper-case letter folded to lower case.
pub open spec fn spec_ascii_lower(b: u8) -> u8 {
    if 65 <= b && b <= 90 {
        (b + 32) as u8
    } else {
        b
    }
}

/// Byte-wise equality up to ASCII letter case.
pub open spec fn spec_eq_ignore_ascii_case(a: Seq<u8>, b: Seq<u8>) -> bool {
    a.len() == b.len() && forall|k: int|
        0 <= k < a.len() ==> spec_ascii_lower(a[k]) == spec_ascii_lower(b[k])
}

/// Whether two byte slices are equal up to ASCII letter case.
pub fn bytes_equal_ignore_ascii_case(a: &[u8], b: &[u8]) -> (r: bool)
    ensures
        r == spec_eq_ignore_ascii_case(a@, b@),
{
    if a.len() != b.len() {
        assert(a@.len() != b@.len());
        return false;
    }
    let mut i: usize = 0;
    while i < a.len()
        invariant
            i <= a.len(),
            a@.len() == b@.len(),
            forall|k: int| 0 <= k < i ==> spec_ascii_lower(a@[k]) == spec_ascii_lower(b@[k]),
        decreases a.len() - i,
    {
        let x = a[i];
        let y = b[i];
        let xl: u8 = if 65 <= x && x <= 90 {
            x + 32
        } else {
            x
        };
        let yl: u8 = if 65 <= y && y <= 90 {
            y + 32
        } else {
            y
        };
        if xl != yl {
            return false;
        }
        i += 1;
    }
    true
}

/// The pieces of `s` between occurrences of `sep`, as fresh vectors.
pub fn split_bytes(s: &[u8], sep: u8) -> (r: Vec<Vec<u8>>)
    ensures
        r.deep_view() == spec_split(s@, sep),
{
    let mut out: Vec<Vec<u8>> = Vec::new();
    let mut start: usize = 0;
    let mut i: usize = 0;
    proof {
        assert(s@.skip(0) =~= s@);
        assert(out.deep_view() + spec_split(s@, sep) =~~= spec_split(s@, sep));
    }
    while i < s.len()
        invariant
            0 <= start <= i <= s@.len(),
            forall|k: int| start <= k < i ==> s@[k] != sep,
            spec_split(s@, sep) == out.deep_view() + spec_split(s@.skip(start as int), sep),
        decreases s.len() - i,
    {
        if s[i] == sep {
            let piece = vstd::slice::slice_to_vec(vstd::slice::slice_subrange(s, start, i));
            let ghost prev = out.deep_view();
            proof {
                lemma_split_first_piece(s@.skip(start as int), sep, i - start);
                assert(s@.skip(start as int).take(i - start) =~= s@.subrange(
                    start as int,
                    i as int,
                ));
                assert(s@.skip(start as int).skip(i - start + 1) =~= s@.skip(i + 1));
            }
            out.push(piece);
            start = i + 1;
            proof {
                assert(out.deep_view() =~~= prev.push(piece@));
                assert(prev.push(piece@) + spec_split(s@.skip(start as int), sep) =~~= prev + (
                seq![piece@] + spec_split(s@.skip(start as int), sep)));
            }
        }
        i += 1;
    }
    let piece = vstd::slice::slice_to_vec(vstd::slice::slice_subrange(s, start, i));
    let ghost prev = out.deep_view();
    proof {
        lemma_split_first_piece(s@.skip(start as int), sep, i - start);
        assert(s@.skip(start as int).take(i - start) =~= s@.subrange(start as int, i as int));
        assert(s@.skip(start as int) =~= s@.subrange(start as int, i as int));
    }
    out.push(piece);
    proof {
        assert(out.deep_view() =~~= prev.push(piece@));
        assert(prev.push(piece@) =~~= prev + seq![piece@]);
    }
    out
}

} // verus!
