//! Consistent-overhead byte stuffing: the framing layer of the serial link.
//!
//! A frame is the stuffed payload followed by a single `0` sentinel; the
//! stuffed bytes themselves never contain `0`.
use vstd::prelude::*;

verus! {

/// Index of the first `0` in `s`, or `s.len()` when there is none.
pub open spec fn first_zero(s: Seq<u8>) -> int
    decreases s.len(),
{
    if s.len() == 0 {
        0
    } else if s[0] == 0 {
        0
    } else {
        1 + first_zero(s.skip(1))
    }
}

/// `s` holds no `0` byte.
pub open spec fn zero_free(s: Seq<u8>) -> bool {
    forall|i: int| 0 <= i < s.len() ==> s[i] != 0
}

/// Stuffed form of a payload shorter than 254 bytes: every group of
/// non-zero bytes is preceded by its length plus one, and each `0` of the
/// payload becomes a group boundary.
pub open spec fn stuff(p: Seq<u8>) -> Seq<u8>
    decreases p.len(),
{
    let k = first_zero(p);
    if 0 <= k < p.len() {
        seq![(k + 1) as u8] + p.take(k) + stuff(p.skip(k + 1))
    } else {
        seq![(p.len() + 1) as u8] + p
    }
}

/// The complete frame for a payload: stuffed bytes and the `0` sentinel.
pub open spec fn frame_of(p: Seq<u8>) -> Seq<u8> {
    stuff(p) + seq![0u8]
}

/// Unstuffs a run of zero-free bytes group by group, exactly as the decoder
/// of the link does: a code byte `c` is followed by `c - 1` data bytes, and
/// an implied `0` follows every group that is not the last and whose code
/// is not `255`.
pub open spec fn unstuff(b: Seq<u8>) -> Option<Seq<u8>>
    decreases b.len(),
{
    if b.len() == 0 {
        Some(Seq::<u8>::empty())
    } else {
        let code = b[0] as int;
        if code == 0 || code > b.len() {
            None
        } else {
            let rest = b.skip(code);
            match unstuff(rest) {
                None => None,
                Some(t) => Some(
                    b.subrange(1, code) + (if code != 255 && rest.len() > 0 {
                        seq![0u8]
                    } else {
                        Seq::<u8>::empty()
                    }) + t,
                ),
            }
        }
    }
}

/// Decodes a received frame: everything up to the first `0` (or the whole
/// input when there is none) is unstuffed; an empty input is rejected.
pub open spec fn unframe(f: Seq<u8>) -> Option<Seq<u8>> {
    if f.len() == 0 {
        None
    } else {
        unstuff(f.take(first_zero(f)))
    }
}

/// The bytes the decoder has produced when it stops: those of every group
/// before the first malformed one (of all groups when none is).
pub open spec fn unstuff_written(b: Seq<u8>) -> Seq<u8>
    decreases b.len(),
{
    if b.len() == 0 {
        Seq::<u8>::empty()
    } else {
        let code = b[0] as int;
        if code == 0 || code > b.len() {
            Seq::<u8>::empty()
        } else {
            let rest = b.skip(code);
            b.subrange(1, code) + (if code != 255 && rest.len() > 0 {
                seq![0u8]
            } else {
                Seq::<u8>::empty()
            }) + unstuff_written(rest)
        }
    }
}

/// A received frame after it has been decoded in place: the decoded bytes,
/// as far as decoding went, are written over its start and the rest is left
/// as it was. An empty input is left as it is.
pub open spec fn unframed_in_place(f: Seq<u8>) -> Seq<u8> {
    if f.len() == 0 {
        f
    } else {
        let w = unstuff_written(f.take(first_zero(f)));
        w + f.skip(w.len() as int)
    }
}

/// Index in the frame of the code byte of the group that is open after the
/// first `k` payload bytes have been stuffed.
pub open spec fn code_index(p: Seq<u8>, k: int) -> int
    decreases k,
{
    if k <= 0 {
        0
    } else if p[k - 1] == 0 {
        k
    } else {
        code_index(p, k - 1)
    }
}

/// What the streaming encoder leaves in a buffer of `n` bytes that is too
/// short for the frame of `p`. It writes the frame byte by byte and fills a
/// group's code byte only when the group closes, keeping a `0` there until
/// then. So the buffer holds the first `n` bytes of the frame, except when
/// the payload byte that found no room was not `0`: then the code byte of the
/// group still open is `0`.
pub open spec fn frame_cut(p: Seq<u8>, n: int) -> Seq<u8> {
    if 1 <= n <= p.len() && p[n - 1] != 0 {
        frame_of(p).take(n).update(code_index(p, n - 1), 0)
    } else {
        frame_of(p).take(n)
    }
}

/// The decoder never writes more bytes than it reads, and when the whole
/// input is well formed it writes exactly the unstuffed bytes.
pub proof fn lemma_unstuff_written(b: Seq<u8>)
    ensures
        unstuff_written(b).len() <= b.len(),
        unstuff(b) matches Some(t) ==> unstuff_written(b) == t,
    decreases b.len(),
{
    if b.len() > 0 {
        let code = b[0] as int;
        if code != 0 && code <= b.len() {
            lemma_unstuff_written(b.skip(code));
        }
    }
}

pub proof fn lemma_first_zero(s: Seq<u8>)
    ensures
        0 <= first_zero(s) <= s.len(),
        first_zero(s) < s.len() ==> s[first_zero(s)] == 0,
        forall|i: int| 0 <= i < first_zero(s) ==> s[i] != 0,
    decreases s.len(),
{
    if s.len() > 0 && s[0] != 0 {
        lemma_first_zero(s.skip(1));
        assert forall|i: int| 0 <= i < first_zero(s) implies s[i] != 0 by {
            if i > 0 {
                assert(s[i] == s.skip(1)[i - 1]);
            }
        }
    }
}

pub proof fn lemma_first_zero_of_zero_free(s: Seq<u8>, t: Seq<u8>)
    requires
        zero_free(s),
    ensures
        first_zero(s + t) == s.len() + first_zero(t),
    decreases s.len(),
{
    if s.len() > 0 {
        assert((s + t).skip(1) =~= s.skip(1) + t);
        lemma_first_zero_of_zero_free(s.skip(1), t);
    } else {
        assert(s + t =~= t);
    }
}

/// The stuffed form is one byte longer than the payload and holds no `0`.
pub proof fn lemma_stuff_shape(p: Seq<u8>)
    requires
        p.len() < 254,
    ensures
        stuff(p).len() == p.len() + 1,
        zero_free(stuff(p)),
    decreases p.len(),
{
    lemma_first_zero(p);
    let k = first_zero(p);
    if k < p.len() {
        lemma_stuff_shape(p.skip(k + 1));
        let s = stuff(p);
        assert(s =~= seq![(k + 1) as u8] + p.take(k) + stuff(p.skip(k + 1)));
        assert forall|i: int| 0 <= i < s.len() implies s[i] != 0 by {
            if i == 0 {
            } else if i <= k {
                assert(s[i] == p[i - 1]);
            } else {
                assert(s[i] == stuff(p.skip(k + 1))[i - 1 - k]);
            }
        }
    } else {
        let s = stuff(p);
        assert forall|i: int| 0 <= i < s.len() implies s[i] != 0 by {
            if i > 0 {
                assert(s[i] == p[i - 1]);
            }
        }
    }
}

/// Unstuffing undoes stuffing.
pub proof fn lemma_unstuff_stuff(p: Seq<u8>)
    requires
        p.len() < 254,
    ensures
        unstuff(stuff(p)) == Some(p),
    decreases p.len(),
{
    lemma_first_zero(p);
    lemma_stuff_shape(p);
    let k = first_zero(p);
    let s = stuff(p);
    if k < p.len() {
        let q = p.skip(k + 1);
        lemma_unstuff_stuff(q);
        lemma_stuff_shape(q);
        assert(s[0] as int == k + 1);
        assert(s.skip(k + 1) =~= stuff(q));
        assert(s.subrange(1, k + 1) =~= p.take(k));
        assert(p =~= p.take(k) + seq![0u8] + q);
        assert(unstuff(s) == Some(p.take(k) + seq![0u8] + q));
        assert(unstuff(s) == Some(p));
    } else {
        assert(s[0] as int == k + 1);
        assert(s.skip(k + 1) =~= Seq::<u8>::empty());
        assert(s.subrange(1, k + 1) =~= p);
        let e = Seq::<u8>::empty();
        assert(unstuff(s.skip(k + 1)) == Some(e));
        assert(p.take(k) + e + e =~= p);
        assert(unstuff(s) == Some(s.subrange(1, k + 1) + e + e));
    }
}

/// A frame built from a payload decodes back to that payload.
pub proof fn lemma_unframe_frame(p: Seq<u8>)
    requires
        p.len() < 254,
    ensures
        unframe(frame_of(p)) == Some(p),
        frame_of(p).len() == p.len() + 2,
        frame_of(p).last() == 0,
        zero_free(frame_of(p).drop_last()),
{
    lemma_stuff_shape(p);
    lemma_unstuff_stuff(p);
    let f = frame_of(p);
    lemma_first_zero_of_zero_free(stuff(p), seq![0u8]);
    assert(first_zero(seq![0u8]) == 0);
    assert(f.take(stuff(p).len() as int) =~= stuff(p));
    assert(f.drop_last() =~= stuff(p));
}


pub proof fn lemma_first_zero_at(s: Seq<u8>, k: int)
    requires
        0 <= k <= s.len(),
        forall|i: int| 0 <= i < k ==> s[i] != 0,
        k == s.len() || s[k] == 0,
    ensures
        first_zero(s) == k,
{
    lemma_first_zero(s);
    let z = first_zero(s);
    if z < k {
        assert(s[z] == 0);
    } else if k < z {
        assert(s[k] != 0);
    }
}

/// Stuffs a payload shorter than 254 bytes (without the sentinel).
pub(crate) fn stuff_bytes(p: &[u8]) -> (r: Vec<u8>)
    requires
        p@.len() < 254,
    ensures
        r@ == stuff(p@),
{
    let len = p.len();
    let mut out: Vec<u8> = Vec::new();
    let mut pos: usize = 0;
    assert(p@.skip(0) =~= p@);
    loop
        invariant
            len == p@.len(),
            len < 254,
            pos <= len,
            stuff(p@) == out@ + stuff(p@.skip(pos as int)),
        decreases len - pos,
    {
        let ghost q = p@.skip(pos as int);
        let mut j: usize = pos;
        while j < len && p[j] != 0
            invariant
                len == p@.len(),
                pos <= j <= len,
                forall|i: int| pos <= i < j ==> p@[i] != 0,
            decreases len - j,
        {
            j = j + 1;
        }
        proof {
            assert forall|i: int| 0 <= i < j - pos implies q[i] != 0 by {
                assert(q[i] == p@[pos + i]);
            }
            if j < len {
                assert(q[j - pos] == p@[j as int]);
            }
            lemma_first_zero_at(q, j - pos);
        }
        let ghost before = out@;
        out.push((j - pos + 1) as u8);
        let mut i: usize = pos;
        while i < j
            invariant
                len == p@.len(),
                pos <= i <= j <= len,
                out@ == before + seq![(j - pos + 1) as u8] + p@.subrange(pos as int, i as int),
            decreases j - i,
        {
            out.push(p[i]);
            assert(p@.subrange(pos as int, i + 1) =~= p@.subrange(pos as int, i as int).push(p@[i as int]));
            i = i + 1;
        }
        assert(q.take(j - pos) =~= p@.subrange(pos as int, j as int));
        if j < len {
            assert(q.skip(j - pos + 1) =~= p@.skip(j + 1));
            assert(stuff(q) == seq![(j - pos + 1) as u8] + q.take(j - pos) + stuff(q.skip(j - pos + 1)));
            assert(out@ + stuff(p@.skip(j + 1)) =~= before + stuff(q));
            pos = j + 1;
        } else {
            assert(stuff(q) == seq![(q.len() + 1) as u8] + q);
            assert(q =~= p@.subrange(pos as int, j as int));
            assert(out@ =~= before + stuff(q));
            return out;
        }
    }
}

/// Index of the code byte of the group open after the first `k` bytes of
/// `p`.
pub(crate) fn code_index_of(p: &[u8], k: usize) -> (c: usize)
    requires
        k <= p@.len(),
    ensures
        c == code_index(p@, k as int),
        c <= k,
    decreases k,
{
    if k == 0 {
        0
    } else if p[k - 1] == 0 {
        k
    } else {
        code_index_of(p, k - 1)
    }
}

/// Decodes a received frame as far as it is well formed: the bytes produced
/// and whether the whole frame was well formed.
fn unframe_written(f: &[u8]) -> (r: (Vec<u8>, bool))
    ensures
        f@.len() == 0 ==> r.0@ == Seq::<u8>::empty(),
        f@.len() > 0 ==> r.0@ == unstuff_written(f@.take(first_zero(f@))),
        r.1 == (unframe(f@) is Some),
        r.1 ==> unframe(f@) == Some(r.0@),
{
    let len = f.len();
    if len == 0 {
        return (Vec::new(), false);
    }
    let mut end: usize = 0;
    while end < len && f[end] != 0
        invariant
            len == f@.len(),
            end <= len,
            forall|i: int| 0 <= i < end ==> f@[i] != 0,
        decreases len - end,
    {
        end = end + 1;
    }
    proof {
        lemma_first_zero_at(f@, end as int);
    }
    let ghost body = f@.take(end as int);
    let mut out: Vec<u8> = Vec::new();
    let mut pos: usize = 0;
    assert(body.skip(0) =~= body);
    while pos < end
        invariant
            len == f@.len(),
            end <= len,
            pos <= end,
            body == f@.take(end as int),
            len > 0,
            first_zero(f@) == end,
            forall|i: int| 0 <= i < end ==> f@[i] != 0,
            match unstuff(body.skip(pos as int)) {
                Some(t) => unstuff(body) == Some(out@ + t),
                None => unstuff(body) is None,
            },
            unstuff_written(body) == out@ + unstuff_written(body.skip(pos as int)),
        decreases end - pos,
    {
        let ghost b = body.skip(pos as int);
        let code = f[pos];
        assert(b[0] == code);
        assert(code != 0);
        if code as usize > end - pos {
            assert(b.len() == end - pos);
            assert(unstuff(b) is None);
            assert(unstuff_written(b) == Seq::<u8>::empty());
            assert(out@ + Seq::<u8>::empty() =~= out@);
            assert(unframe(f@) == unstuff(body));
            return (out, false);
        }
        let next = pos + code as usize;
        let ghost before = out@;
        let mut i: usize = pos + 1;
        while i < next
            invariant
                len == f@.len(),
                pos < i <= next <= end <= len,
                out@ == before + f@.subrange(pos + 1, i as int),
            decreases next - i,
        {
            out.push(f[i]);
            assert(f@.subrange(pos + 1, i + 1) =~= f@.subrange(pos + 1, i as int).push(f@[i as int]));
            i = i + 1;
        }
        assert(b.subrange(1, code as int) =~= f@.subrange(pos + 1, next as int));
        assert(b.skip(code as int) =~= body.skip(next as int));
        let ghost mid = out@;
        if code != 255 && next < end {
            out.push(0);
        }
        proof {
            let sep = if code != 255 && b.skip(code as int).len() > 0 {
                seq![0u8]
            } else {
                Seq::<u8>::empty()
            };
            assert(out@ =~= mid + sep);
            assert(unstuff_written(b) == b.subrange(1, code as int) + sep + unstuff_written(
                body.skip(next as int),
            ));
            assert(out@ + unstuff_written(body.skip(next as int)) =~= before + (b.subrange(
                1,
                code as int,
            ) + sep + unstuff_written(body.skip(next as int))));
            match unstuff(body.skip(next as int)) {
                Some(t) => {
                    assert(unstuff(b) == Some(b.subrange(1, code as int) + sep + t));
                    assert(out@ + t =~= before + (b.subrange(1, code as int) + sep + t));
                },
                None => {},
            }
        }
        pos = next;
    }
    assert(body.skip(end as int) =~= Seq::<u8>::empty());
    assert(out@ + Seq::<u8>::empty() =~= out@);
    assert(unframe(f@) == unstuff(body));
    (out, true)
}

/// Decodes a received frame; `None` exactly when the frame is malformed.
pub fn unframe_bytes(f: &[u8]) -> (r: Option<Vec<u8>>)
    ensures
        match r {
            Some(v) => unframe(f@) == Some(v@),
            None => unframe(f@) is None,
        },
{
    let (w, ok) = unframe_written(f);
    if ok {
        Some(w)
    } else {
        None
    }
}

/// Decodes a received frame in place: the decoded bytes, as far as decoding
/// went, are written over the start of the buffer. Returns how many bytes
/// the payload has, or `None` when the frame is malformed.
pub fn unframe_in_place(f: &mut [u8]) -> (r: Option<usize>)
    ensures
        final(f)@ == unframed_in_place(old(f)@),
        final(f)@.len() == old(f)@.len(),
        r is Some <==> unframe(old(f)@) is Some,
        r matches Some(n) ==> n <= final(f)@.len() && unframe(old(f)@) == Some(
            final(f)@.take(n as int),
        ),
{
    let ghost start = f@;
    let (w, ok) = unframe_written(f);
    proof {
        if start.len() > 0 {
            lemma_first_zero(start);
            lemma_unstuff_written(start.take(first_zero(start)));
        }
    }
    let n = w.len();
    let mut i: usize = 0;
    while i < n
        invariant
            n == w@.len(),
            n <= start.len(),
            f@.len() == start.len(),
            i <= n,
            forall|j: int| 0 <= j < i ==> f@[j] == w@[j],
            forall|j: int| i <= j < f@.len() ==> f@[j] == start[j],
        decreases n - i,
    {
        f[i] = w[i];
        i = i + 1;
    }
    assert(f@ =~= w@ + start.skip(n as int));
    assert(f@.take(n as int) =~= w@);
    if ok {
        Some(n)
    } else {
        None
    }
}

} // verus!
