//! Annex-B framing as mathematics: where the units of a byte stream begin
//! and end, which units are complete, and which bytes are still waiting for
//! the start code that closes them.
//!
//! A unit keeps the start code that opens it. Everything in this file is a
//! statement about byte sequences; the scanner is held to it.

use vstd::prelude::*;

verus! {

/// Length of the run of zero bytes that ends `s`.
pub open spec fn zero_run(s: Seq<u8>) -> nat
    decreases s.len(),
{
    if s.len() > 0 && s.last() == 0 {
        1 + zero_run(s.drop_last())
    } else {
        0
    }
}

/// A start code stands at `at`: `00 00 01`, or `00 00 00 01`.
pub open spec fn code_at(s: Seq<u8>, at: int) -> bool {
    ||| at + 2 < s.len() && s[at] == 0 && s[at + 1] == 0 && s[at + 2] == 1
    ||| at + 3 < s.len() && s[at] == 0 && s[at + 1] == 0 && s[at + 2] == 0 && s[at + 3] == 1
}

/// One unit ends and the next begins at `at`: a start code stands there and
/// the byte before it is not zero, so the code's zero run is two or three
/// bytes long and no longer. The head of the stream is no boundary: what
/// stands there opens the first unit.
pub open spec fn boundary(s: Seq<u8>, at: int) -> bool {
    &&& 1 <= at
    &&& s[at - 1] != 0
    &&& code_at(s, at)
}

/// The last boundary below `end`, and 0 where there is none.
pub open spec fn last_boundary(s: Seq<u8>, end: int) -> int
    decreases end,
{
    if end <= 1 {
        0
    } else if boundary(s, end - 1) {
        end - 1
    } else {
        last_boundary(s, end - 1)
    }
}

/// The units that a boundary at or below `end` closes, in stream order. Each
/// reaches from the boundary before it, or from the head of the stream, up to
/// the boundary that closes it.
pub open spec fn units_upto(s: Seq<u8>, end: int) -> Seq<Seq<u8>>
    decreases end,
{
    if end <= 0 {
        Seq::empty()
    } else if boundary(s, end) {
        units_upto(s, end - 1).push(s.subrange(last_boundary(s, end), end))
    } else {
        units_upto(s, end - 1)
    }
}

/// The complete units of the stream `s`.
pub open spec fn complete_units(s: Seq<u8>) -> Seq<Seq<u8>> {
    units_upto(s, s.len() as int)
}

/// The bytes of `s` behind its last boundary: the unit that no start code has
/// closed yet.
pub open spec fn remainder(s: Seq<u8>) -> Seq<u8> {
    s.subrange(last_boundary(s, s.len() as int), s.len() as int)
}

/// The byte `b`, arriving behind the unclosed bytes `pending`, completes a
/// start code that closes a unit.
pub open spec fn closes_unit(pending: Seq<u8>, b: u8) -> bool {
    &&& b == 1
    &&& 2 <= zero_run(pending) <= 3
    &&& zero_run(pending) < pending.len()
}

/// What feeding chunk after chunk yields: the units that each chunk
/// completes, given the bytes that the chunks before it left unclosed, and
/// the bytes left unclosed at the end.
pub open spec fn feed_chunks(pending: Seq<u8>, chunks: Seq<Seq<u8>>) -> (Seq<Seq<u8>>, Seq<u8>)
    decreases chunks.len(),
{
    if chunks.len() == 0 {
        (Seq::empty(), pending)
    } else {
        let (units, rest) = feed_chunks(pending, chunks.drop_last());
        (units + complete_units(rest + chunks.last()), remainder(rest + chunks.last()))
    }
}

/// The zero run that ends `s` is made of zero bytes, lies inside `s`, and the
/// byte before it is not zero.
pub proof fn lemma_zero_run(s: Seq<u8>)
    ensures
        zero_run(s) <= s.len(),
        forall|j: int| s.len() - zero_run(s) <= j < s.len() ==> s[j] == 0,
        zero_run(s) < s.len() ==> s[s.len() - zero_run(s) - 1] != 0,
    decreases s.len(),
{
    if s.len() > 0 && s.last() == 0 {
        let t = s.drop_last();
        lemma_zero_run(t);
        assert forall|j: int| s.len() - zero_run(s) <= j < s.len() implies s[j] == 0 by {
            if j < t.len() {
                assert(t[j] == s[j]);
            }
        }
    }
}

/// A run of `k` zero bytes at the end of `s` with no zero byte before it is
/// the zero run of `s`.
proof fn lemma_zero_run_is(s: Seq<u8>, k: int)
    requires
        0 <= k <= s.len(),
        forall|j: int| s.len() - k <= j < s.len() ==> s[j] == 0,
        k < s.len() ==> s[s.len() - k - 1] != 0,
    ensures
        zero_run(s) == k,
{
    lemma_zero_run(s);
}

/// The last boundary below `end` is a boundary of `s` unless it is 0, and no
/// boundary lies between it and `end`.
pub proof fn lemma_last_boundary(s: Seq<u8>, end: int)
    ensures
        0 <= last_boundary(s, end),
        end >= 1 ==> last_boundary(s, end) < end,
        last_boundary(s, end) != 0 ==> boundary(s, last_boundary(s, end)),
        forall|j: int| last_boundary(s, end) < j < end ==> !boundary(s, j),
    decreases end,
{
    if end > 1 && !boundary(s, end - 1) {
        lemma_last_boundary(s, end - 1);
    }
}

/// Where no boundary lies in `[from, to)`, the last boundary below `to` is
/// the one below `from`.
proof fn lemma_gap_last_boundary(s: Seq<u8>, from: int, to: int)
    requires
        1 <= from <= to,
        forall|j: int| from <= j < to ==> !boundary(s, j),
    ensures
        last_boundary(s, to) == last_boundary(s, from),
    decreases to - from,
{
    if from < to {
        lemma_gap_last_boundary(s, from, to - 1);
    }
}

/// Where no boundary lies in `(from, to]`, no unit is closed there.
proof fn lemma_gap_units(s: Seq<u8>, from: int, to: int)
    requires
        0 <= from <= to,
        forall|j: int| from < j <= to ==> !boundary(s, j),
    ensures
        units_upto(s, to) == units_upto(s, from),
    decreases to - from,
{
    if from < to {
        lemma_gap_units(s, from, to - 1);
    }
}

/// Two streams with the same boundaries below `end` have the same last
/// boundary below `end`.
proof fn lemma_same_last_boundary(p: Seq<u8>, q: Seq<u8>, end: int)
    requires
        forall|j: int| 1 <= j < end ==> boundary(p, j) == boundary(q, j),
    ensures
        last_boundary(p, end) == last_boundary(q, end),
    decreases end,
{
    if end > 1 {
        lemma_same_last_boundary(p, q, end - 1);
    }
}

/// Two streams with the same bytes below `end` and the same boundaries up to
/// `end` have the same units up to `end`.
proof fn lemma_same_units(p: Seq<u8>, q: Seq<u8>, end: int)
    requires
        end <= p.len(),
        end <= q.len(),
        forall|j: int| 0 <= j < end ==> p[j] == q[j],
        forall|j: int| 1 <= j <= end ==> boundary(p, j) == boundary(q, j),
    ensures
        units_upto(p, end) == units_upto(q, end),
    decreases end,
{
    if end > 0 {
        lemma_same_units(p, q, end - 1);
        if boundary(p, end) {
            lemma_same_last_boundary(p, q, end);
            lemma_last_boundary(p, end);
            let from = last_boundary(p, end);
            assert(p.subrange(from, end) =~= q.subrange(from, end));
        }
    }
}

/// The boundaries of a stream that grows by one byte: those it had, and one
/// more where the byte is 0x01 and the stream ended in a zero run of two or
/// three bytes that does not begin at its head. The new boundary stands
/// where that zero run begins.
pub proof fn lemma_boundary_push(p: Seq<u8>, b: u8, at: int)
    ensures
        boundary(p.push(b), at) <==> (boundary(p, at) || (b == 1 && 2 <= zero_run(p) <= 3
            && at == p.len() - zero_run(p) && at >= 1)),
{
    lemma_zero_run(p);
    let q = p.push(b);
    let n = p.len() as int;
    if 1 <= at && q[at - 1] != 0 && q[at] == 0 && q[at + 1] == 0 {
        // a code that ends at the new byte has the zero run of `p` for its zeros
        if at + 3 == n && q[at + 2] == 0 && b == 1 {
            lemma_zero_run_is(p, 3);
        }
        if at + 2 == n && b == 1 {
            lemma_zero_run_is(p, 2);
        }
    }
}

/// The unclosed bytes of a stream end in the same zero run as the stream.
pub proof fn lemma_remainder_zero_run(p: Seq<u8>)
    ensures
        zero_run(remainder(p)) == zero_run(p),
        last_boundary(p, p.len() as int) != 0 ==> zero_run(p) < remainder(p).len(),
{
    let n = p.len() as int;
    let from = last_boundary(p, n);
    let r = remainder(p);
    lemma_last_boundary(p, n);
    lemma_zero_run(p);
    if from == 0 {
        assert(r =~= p);
    } else {
        let z = zero_run(p) as int;
        // the start code at `from` holds 0x01, which the zero run cannot reach
        assert(z < n - from);
        lemma_zero_run_is(r, z);
    }
}

/// One more byte. Where it completes a start code that closes a unit, the
/// unclosed bytes up to that start code become the next complete unit and
/// the start code opens the new unclosed bytes; any other byte joins the
/// unclosed bytes. Which of the two depends on the unclosed bytes and the
/// byte alone.
pub proof fn lemma_push_byte(p: Seq<u8>, b: u8)
    ensures
        zero_run(remainder(p)) == zero_run(p),
        closes_unit(remainder(p), b) ==> {
            let r = remainder(p);
            let k = r.len() - zero_run(r);
            &&& complete_units(p.push(b)) == complete_units(p).push(r.subrange(0, k))
            &&& remainder(p.push(b)) == r.subrange(k, r.len() as int).push(b)
        },
        !closes_unit(remainder(p), b) ==> {
            &&& complete_units(p.push(b)) == complete_units(p)
            &&& remainder(p.push(b)) == remainder(p).push(b)
        },
{
    let q = p.push(b);
    let n = p.len() as int;
    let z = zero_run(p) as int;
    let from = last_boundary(p, n);
    let r = remainder(p);
    lemma_remainder_zero_run(p);
    lemma_last_boundary(p, n);
    lemma_zero_run(p);
    assert forall|j: int|
        boundary(q, j) <==> (boundary(p, j) || (b == 1 && 2 <= z <= 3 && j == n - z && j >= 1)) by {
        lemma_boundary_push(p, b, j);
    }
    if closes_unit(r, b) {
        // the new boundary stands where the zero run of `p` begins
        let c = n - z;
        // no start code of `p` begins inside the zero run: it would need a 0x01 there
        assert forall|j: int| c <= j <= n implies !boundary(p, j) by {}
        // and none of `q` begins behind the first byte of the run, where a zero precedes it
        assert forall|j: int| c < j <= n + 1 implies !boundary(q, j) by {}
        lemma_gap_last_boundary(p, c, n);
        lemma_same_last_boundary(p, q, c);
        lemma_gap_last_boundary(q, c + 1, n + 1);
        lemma_gap_units(p, c - 1, n);
        lemma_gap_units(q, c, n + 1);
        lemma_same_units(p, q, c - 1);
        let k = r.len() - zero_run(r);
        assert(q.subrange(from, c) =~= r.subrange(0, k));
    } else {
        lemma_same_last_boundary(p, q, n + 1);
        lemma_same_units(p, q, n);
    }
}

/// A stream without a boundary has no complete unit: all of it is unclosed.
pub proof fn lemma_unclosed_stream(s: Seq<u8>)
    requires
        last_boundary(s, s.len() as int) == 0,
    ensures
        complete_units(s) == Seq::<Seq<u8>>::empty(),
        remainder(s) == s,
{
    let n = s.len() as int;
    lemma_last_boundary(s, n);
    lemma_gap_units(s, 0, n);
}

/// The unclosed bytes of a stream hold no boundary: taken as a stream of
/// their own they have no complete unit and are their own unclosed bytes.
pub proof fn lemma_remainder_is_unclosed(s: Seq<u8>)
    ensures
        last_boundary(remainder(s), remainder(s).len() as int) == 0,
        complete_units(remainder(s)) == Seq::<Seq<u8>>::empty(),
        remainder(remainder(s)) == remainder(s),
{
    let n = s.len() as int;
    let from = last_boundary(s, n);
    let r = remainder(s);
    let m = r.len() as int;
    lemma_last_boundary(s, n);
    assert forall|j: int| 1 <= j <= m implies !boundary(r, j) by {
        if boundary(r, j) {
            // it would be a boundary of `s` behind the last one
            assert(boundary(s, from + j));
        }
    }
    if m >= 1 {
        lemma_gap_last_boundary(r, 1, m);
    }
    lemma_gap_units(r, 0, m);
}

/// A stream may be cut in two anywhere. The complete units of the whole are
/// those of the first part, followed by those that the second part completes
/// behind the unclosed bytes of the first; the unclosed bytes agree as well.
/// A start code that the cut runs through is found once, with all its bytes.
pub proof fn lemma_cut_anywhere(x: Seq<u8>, y: Seq<u8>)
    ensures
        complete_units(x + y) == complete_units(x) + complete_units(remainder(x) + y),
        remainder(x + y) == remainder(remainder(x) + y),
    decreases y.len(),
{
    let r = remainder(x);
    if y.len() == 0 {
        lemma_remainder_is_unclosed(x);
    } else {
        let head = y.drop_last();
        let b = y.last();
        lemma_cut_anywhere(x, head);
        assert(x + y =~= (x + head).push(b));
        assert(r + y =~= (r + head).push(b));
        lemma_push_byte(x + head, b);
        lemma_push_byte(r + head, b);
        let rest = remainder(x + head);
        if closes_unit(rest, b) {
            let unit = rest.subrange(0, rest.len() - zero_run(rest));
            assert((complete_units(x) + complete_units(r + head)).push(unit) =~= complete_units(x)
                + complete_units(r + head).push(unit));
        }
    }
}

/// Chunk boundaries do not matter: however a stream is dealt out in chunks,
/// of whatever sizes, feeding the chunks in turn yields the complete units
/// of the stream taken whole, in the same order, and leaves the same bytes
/// unclosed.
pub proof fn lemma_chunking_is_immaterial(chunks: Seq<Seq<u8>>)
    ensures
        feed_chunks(Seq::empty(), chunks) == (
            complete_units(chunks.flatten()),
            remainder(chunks.flatten()),
        ),
    decreases chunks.len(),
{
    if chunks.len() > 0 {
        let head = chunks.drop_last();
        let last = chunks.last();
        lemma_chunking_is_immaterial(head);
        assert(chunks =~= head.push(last));
        head.lemma_flatten_push(last);
        lemma_cut_anywhere(head.flatten(), last);
    }
}

/// No byte is lost and none is written twice: the complete units of a
/// stream, laid end to end and followed by its unclosed bytes, are the
/// stream.
pub proof fn lemma_units_cover_stream(s: Seq<u8>)
    ensures
        complete_units(s).flatten() + remainder(s) == s,
    decreases s.len(),
{
    if s.len() > 0 {
        let p = s.drop_last();
        let b = s.last();
        assert(s =~= p.push(b));
        lemma_units_cover_stream(p);
        lemma_push_byte(p, b);
        lemma_zero_run(remainder(p));
        let r = remainder(p);
        if closes_unit(r, b) {
            let k = r.len() - zero_run(r);
            let unit = r.subrange(0, k);
            complete_units(p).lemma_flatten_push(unit);
            assert(complete_units(p).flatten() + unit + r.subrange(k, r.len() as int).push(b)
                =~= (complete_units(p).flatten() + r).push(b));
        } else {
            assert(complete_units(p).flatten() + r.push(b) =~= (complete_units(p).flatten()
                + r).push(b));
        }
    }
}

/// Where no unit is closed up to `end`, no boundary lies there.
proof fn lemma_no_units_no_boundary(s: Seq<u8>, end: int)
    requires
        units_upto(s, end).len() == 0,
    ensures
        forall|j: int| 1 <= j <= end ==> !boundary(s, j),
    decreases end,
{
    if end > 0 {
        lemma_no_units_no_boundary(s, end - 1);
    }
}

/// The shape of a complete unit. It is not empty. The first one begins at
/// the head of the stream; every later one opens with the start code that
/// closed the unit before it.
pub proof fn lemma_unit_shape(s: Seq<u8>, k: int)
    requires
        0 <= k < complete_units(s).len(),
    ensures
        complete_units(s)[k].len() > 0,
        k == 0 ==> complete_units(s)[k] == s.subrange(0, complete_units(s)[k].len() as int),
        k > 0 ==> code_at(complete_units(s)[k], 0),
    decreases s.len(),
{
    if s.len() > 0 {
        let p = s.drop_last();
        let b = s.last();
        assert(s =~= p.push(b));
        lemma_push_byte(p, b);
        let n = p.len() as int;
        let r = remainder(p);
        let count = complete_units(p).len() as int;
        if k < count {
            lemma_unit_shape(p, k);
            if k == 0 {
                lemma_unit_fits(p, k);
            }
        } else {
            // the unit that `b` closes: the unclosed bytes of `p` without their zero run
            lemma_zero_run(r);
            lemma_zero_run(p);
            lemma_last_boundary(p, n);
            let from = last_boundary(p, n);
            let cut = r.len() - zero_run(r);
            if k == 0 {
                // no unit was closed before, so these bytes begin at the head of the stream
                lemma_no_units_no_boundary(p, n);
            } else {
                // a unit was closed before, so these bytes begin at a boundary of `p`,
                // and the 0x01 of its start code is no part of the zero run
                if from == 0 {
                    lemma_unclosed_stream(p);
                }
                if p[from + 2] == 1 {
                    assert(2 < cut);
                } else {
                    assert(3 < cut);
                }
            }
        }
    }
}

/// A complete unit is no longer than the stream it comes from.
proof fn lemma_unit_fits(s: Seq<u8>, k: int)
    requires
        0 <= k < complete_units(s).len(),
    ensures
        complete_units(s)[k].len() <= s.len(),
    decreases s.len(),
{
    if s.len() > 0 {
        let p = s.drop_last();
        let b = s.last();
        assert(s =~= p.push(b));
        lemma_push_byte(p, b);
        if k < complete_units(p).len() {
            lemma_unit_fits(p, k);
        } else {
            lemma_last_boundary(p, p.len() as int);
        }
    }
}

} // verus!
