//! Incremental decoding of a streamed chat-completion response body.
//!
//! The body arrives as arbitrary byte chunks. A carry-over buffer joins
//! chunks; complete lines (terminated by a newline) are peeled off and
//! decoded: a line is trimmed, empty lines and the `data: [DONE]` sentinel
//! are skipped, a `data: ` line is decoded as a delta frame, and a line
//! that fails to decode is skipped. Every delta with non-empty content is
//! emitted, in order, and the accumulated content is their concatenation.
use vstd::prelude::*;
use crate::json::{ws_end, is_ws_byte, LF, skip_ws};
use crate::protocol::{frame_choices, parse_frame_choices, bytes_eq, vecs_view, opt_view};

verus! {

/// The bytes of `data: `.
pub open spec fn data_prefix() -> Seq<u8> {
    seq![100u8, 97u8, 116u8, 97u8, 58u8, 32u8]
}

/// The bytes of the stream-termination sentinel line `data: [DONE]`.
pub open spec fn done_line() -> Seq<u8> {
    seq![100u8, 97u8, 116u8, 97u8, 58u8, 32u8, 91u8, 68u8, 79u8, 78u8, 69u8, 93u8]
}

pub fn data_prefix_vec() -> (r: Vec<u8>)
    ensures
        r@ == data_prefix(),
{
    let mut v: Vec<u8> = Vec::new();
    v.push(100);
    v.push(97);
    v.push(116);
    v.push(97);
    v.push(58);
    v.push(32);
    assert(v@ =~= data_prefix());
    v
}

pub fn done_line_vec() -> (r: Vec<u8>)
    ensures
        r@ == done_line(),
{
    let mut v: Vec<u8> = Vec::new();
    v.push(100);
    v.push(97);
    v.push(116);
    v.push(97);
    v.push(58);
    v.push(32);
    v.push(91);
    v.push(68);
    v.push(79);
    v.push(78);
    v.push(69);
    v.push(93);
    assert(v@ =~= done_line());
    v
}

/// First index `<= j` such that every byte from it up to `j` is ASCII
/// whitespace.
pub open spec fn ws_rstart(s: Seq<u8>, j: int) -> int
    decreases j,
{
    if 0 < j <= s.len() && is_ws_byte(s[j - 1]) {
        ws_rstart(s, j - 1)
    } else {
        j
    }
}

/// The line with leading and trailing ASCII whitespace removed.
pub open spec fn trim(s: Seq<u8>) -> Seq<u8> {
    let lo = ws_end(s, 0);
    let hi = ws_rstart(s, s.len() as int);
    if 0 <= lo <= hi <= s.len() {
        s.subrange(lo, hi)
    } else {
        seq![]
    }
}

/// Trim a line of the stream.
pub fn trim_exec(s: &[u8]) -> (r: Vec<u8>)
    ensures
        r@ == trim(s@),
{
    let lo = skip_ws(s, 0);
    let mut hi = s.len();
    while hi > 0 && is_ws_byte_exec(s[hi - 1])
        invariant
            hi <= s@.len(),
            ws_rstart(s@, s@.len() as int) == ws_rstart(s@, hi as int),
        decreases hi,
    {
        hi = hi - 1;
    }
    if lo <= hi {
        let r = vstd::slice::slice_to_vec(vstd::slice::slice_subrange(s, lo, hi));
        assert(r@ =~= trim(s@));
        r
    } else {
        let r: Vec<u8> = Vec::new();
        assert(r@ =~= trim(s@));
        r
    }
}

fn is_ws_byte_exec(b: u8) -> (r: bool)
    ensures
        r == is_ws_byte(b),
{
    b == 32 || b == 9 || b == 10 || b == 13
}

/// The delta contents present and non-empty among the decoded choices, in
/// order.
pub open spec fn present_nonempty(cs: Seq<Option<Seq<u8>>>) -> Seq<Seq<u8>>
    decreases cs.len(),
{
    if cs.len() == 0 {
        seq![]
    } else {
        let rest = present_nonempty(cs.drop_last());
        match cs.last() {
            Some(x) => if x.len() > 0 {
                rest.push(x)
            } else {
                rest
            },
            None => rest,
        }
    }
}

/// The delta payloads contributed by one complete line of the stream.
#[verifier::opaque]
pub open spec fn line_deltas(line: Seq<u8>) -> Seq<Seq<u8>> {
    let t = trim(line);
    if t.len() == 0 {
        seq![]
    } else if t == done_line() {
        seq![]
    } else if t.len() >= 6 && t.subrange(0, 6) == data_prefix() {
        match frame_choices(t.skip(6)) {
            None => seq![],
            Some(cs) => present_nonempty(cs),
        }
    } else {
        seq![]
    }
}

/// Decode one line of the stream into the delta payloads it contributes.
pub fn line_deltas_exec(line: &[u8]) -> (r: Vec<Vec<u8>>)
    ensures
        vecs_view(r@) == line_deltas(line@),
{
    proof {
        reveal(line_deltas);
    }
    let t = trim_exec(line);
    if t.len() == 0 {
        let r: Vec<Vec<u8>> = Vec::new();
        assert(vecs_view(r@) =~= line_deltas(line@));
        return r;
    }
    if bytes_eq(t.as_slice(), done_line_vec().as_slice()) {
        let r: Vec<Vec<u8>> = Vec::new();
        assert(vecs_view(r@) =~= line_deltas(line@));
        return r;
    }
    if t.len() >= 6 && bytes_eq(
        vstd::slice::slice_subrange(t.as_slice(), 0, 6),
        data_prefix_vec().as_slice(),
    ) {
        let payload = vstd::slice::slice_subrange(t.as_slice(), 6, t.len());
        assert(payload@ =~= t@.skip(6));
        match parse_frame_choices(payload) {
            None => {
                let r: Vec<Vec<u8>> = Vec::new();
                assert(vecs_view(r@) =~= line_deltas(line@));
                r
            },
            Some(cs) => {
                let mut out: Vec<Vec<u8>> = Vec::new();
                let mut i: usize = 0;
                proof {
                    assert(vecs_view(out@) =~= present_nonempty(crate::protocol::opts_view(cs@).take(0)));
                }
                while i < cs.len()
                    invariant
                        i <= cs@.len(),
                        vecs_view(out@) == present_nonempty(
                            crate::protocol::opts_view(cs@).take(i as int),
                        ),
                    decreases cs@.len() - i,
                {
                    let ghost pre = crate::protocol::opts_view(cs@).take(i as int);
                    proof {
                        assert(crate::protocol::opts_view(cs@).take(i + 1).drop_last() =~= pre);
                        assert(crate::protocol::opts_view(cs@).take(i + 1).last() == opt_view(
                            cs@[i as int],
                        ));
                    }
                    match &cs[i] {
                        Some(x) => {
                            if x.len() > 0 {
                                let ghost xv = x@;
                                out.push(x.clone());
                                assert(vecs_view(out@) =~= present_nonempty(pre).push(xv));
                            }
                        },
                        None => {},
                    }
                    i = i + 1;
                }
                proof {
                    assert(crate::protocol::opts_view(cs@).take(cs@.len() as int) =~= crate::protocol::opts_view(cs@));
                }
                out
            },
        }
    } else {
        let r: Vec<Vec<u8>> = Vec::new();
        assert(vecs_view(r@) =~= line_deltas(line@));
        r
    }
}

/// True when `l` contains no newline byte.
pub open spec fn no_lf(l: Seq<u8>) -> bool {
    forall|j: int| 0 <= j < l.len() ==> l[j] != LF
}

/// Split a byte stream into its complete lines (newline-terminated, given
/// without the newline) and the unterminated remainder.
pub open spec fn split_stream(b: Seq<u8>) -> (Seq<Seq<u8>>, Seq<u8>)
    decreases b.len(),
{
    if b.len() == 0 {
        (seq![], seq![])
    } else if b.first() == LF {
        let r = split_stream(b.drop_first());
        (seq![seq![]] + r.0, r.1)
    } else {
        let r = split_stream(b.drop_first());
        if r.0.len() > 0 {
            (seq![seq![b.first()] + r.0.first()] + r.0.drop_first(), r.1)
        } else {
            (r.0, seq![b.first()] + r.1)
        }
    }
}

/// A stream without a newline holds no complete line.
pub proof fn lemma_split_no_lf(b: Seq<u8>)
    requires
        no_lf(b),
    ensures
        split_stream(b).0 == Seq::<Seq<u8>>::empty(),
        split_stream(b).1 == b,
    decreases b.len(),
{
    if b.len() == 0 {
        assert(split_stream(b).0 =~= Seq::<Seq<u8>>::empty());
        assert(split_stream(b).1 =~= b);
    } else {
        assert(b.first() != LF);
        lemma_split_no_lf(b.drop_first());
        assert(split_stream(b).1 =~= seq![b.first()] + b.drop_first());
        assert(seq![b.first()] + b.drop_first() =~= b);
    }
}

/// Peeling one complete line off the front of a stream.
pub proof fn lemma_split_peel(l: Seq<u8>, rest: Seq<u8>)
    requires
        no_lf(l),
    ensures
        split_stream(l + seq![LF] + rest).0 == seq![l] + split_stream(rest).0,
        split_stream(l + seq![LF] + rest).1 == split_stream(rest).1,
    decreases l.len(),
{
    let b = l + seq![LF] + rest;
    if l.len() == 0 {
        assert(b.first() == LF);
        assert(b.drop_first() =~= rest);
        assert(l =~= Seq::<u8>::empty());
        assert(seq![seq![]] + split_stream(rest).0 =~= seq![l] + split_stream(rest).0);
    } else {
        let x = l.first();
        assert(b.first() == x);
        assert(x != LF);
        assert(b.drop_first() =~= l.drop_first() + seq![LF] + rest);
        lemma_split_peel(l.drop_first(), rest);
        let r = split_stream(b.drop_first());
        assert(r.0 == seq![l.drop_first()] + split_stream(rest).0);
        assert(r.0.len() > 0);
        assert(r.0.first() == l.drop_first());
        assert(seq![x] + r.0.first() =~= l);
        assert(r.0.drop_first() =~= split_stream(rest).0);
        assert(split_stream(b).0 =~= seq![l] + split_stream(rest).0);
    }
}

/// Appending bytes to a stream: the earlier complete lines stay, and the
/// new material is split against the carried-over remainder.
pub proof fn lemma_split_append(a: Seq<u8>, c: Seq<u8>)
    ensures
        split_stream(a + c).0 == split_stream(a).0 + split_stream(split_stream(a).1 + c).0,
        split_stream(a + c).1 == split_stream(split_stream(a).1 + c).1,
    decreases a.len(),
{
    if a.len() == 0 {
        assert(a + c =~= c);
        assert(split_stream(a).0 =~= Seq::<Seq<u8>>::empty());
        assert(split_stream(a).1 =~= Seq::<u8>::empty());
        assert(split_stream(a).1 + c =~= c);
        assert(split_stream(a).0 + split_stream(c).0 =~= split_stream(c).0);
    } else {
        let x = a.first();
        let a1 = a.drop_first();
        lemma_split_append(a1, c);
        let ra = split_stream(a1);
        let s2 = split_stream(ra.1 + c);
        if x == LF {
            assert((a + c).first() == LF);
            assert((a + c).drop_first() =~= a1 + c);
            assert(split_stream(a).0 =~= seq![seq![]] + ra.0);
            assert(split_stream(a + c).0 =~= seq![seq![]] + split_stream(a1 + c).0);
            assert(seq![seq![]] + (ra.0 + s2.0) =~= (seq![seq![]] + ra.0) + s2.0);
        } else {
            assert((a + c).first() == x);
            assert((a + c).drop_first() =~= a1 + c);
            let r1 = split_stream(a1 + c);
            assert(r1.0 == ra.0 + s2.0);
            assert(r1.1 == s2.1);
            if ra.0.len() > 0 {
                assert(r1.0.len() > 0);
                assert(r1.0.first() == ra.0.first());
                assert(split_stream(a).0 =~= seq![seq![x] + ra.0.first()] + ra.0.drop_first());
                assert(split_stream(a).1 == ra.1);
                assert(r1.0.drop_first() =~= ra.0.drop_first() + s2.0);
                assert(split_stream(a + c).0 =~= seq![seq![x] + r1.0.first()] + r1.0.drop_first());
                assert(seq![seq![x] + ra.0.first()] + (ra.0.drop_first() + s2.0) =~= (seq![
                    seq![x] + ra.0.first(),
                ] + ra.0.drop_first()) + s2.0);
            } else {
                assert(split_stream(a).0 =~= Seq::<Seq<u8>>::empty());
                assert(split_stream(a).1 == seq![x] + ra.1);
                assert(r1.0 =~= s2.0);
                let b3 = split_stream(a).1 + c;
                assert(b3 =~= seq![x] + (ra.1 + c));
                assert(b3.first() == x);
                assert(b3.drop_first() =~= ra.1 + c);
                let s3 = split_stream(b3);
                if s2.0.len() > 0 {
                    assert(s3.0 =~= seq![seq![x] + s2.0.first()] + s2.0.drop_first());
                    assert(split_stream(a + c).0 =~= seq![seq![x] + r1.0.first()]
                        + r1.0.drop_first());
                    assert(split_stream(a + c).0 =~= s3.0);
                    assert(split_stream(a).0 + s3.0 =~= s3.0);
                } else {
                    assert(split_stream(a + c).0 =~= s3.0);
                    assert(split_stream(a).0 + s3.0 =~= s3.0);
                    assert(split_stream(a + c).1 == seq![x] + r1.1);
                    assert(s3.1 == seq![x] + s2.1);
                }
            }
        }
    }
}

/// The delta payloads contributed by a sequence of complete lines, in order.
pub open spec fn lines_deltas(ls: Seq<Seq<u8>>) -> Seq<Seq<u8>>
    decreases ls.len(),
{
    if ls.len() == 0 {
        seq![]
    } else {
        line_deltas(ls.first()) + lines_deltas(ls.drop_first())
    }
}

pub proof fn lemma_lines_deltas_cons(l: Seq<u8>, ls: Seq<Seq<u8>>)
    ensures
        lines_deltas(seq![l] + ls) == line_deltas(l) + lines_deltas(ls),
{
    assert((seq![l] + ls).first() == l);
    assert((seq![l] + ls).drop_first() =~= ls);
}

pub proof fn lemma_lines_deltas_append(a: Seq<Seq<u8>>, b: Seq<Seq<u8>>)
    ensures
        lines_deltas(a + b) == lines_deltas(a) + lines_deltas(b),
    decreases a.len(),
{
    if a.len() == 0 {
        assert(a + b =~= b);
        assert(lines_deltas(a) + lines_deltas(b) =~= lines_deltas(b));
    } else {
        assert((a + b).first() == a.first());
        assert((a + b).drop_first() =~= a.drop_first() + b);
        lemma_lines_deltas_append(a.drop_first(), b);
        assert(line_deltas(a.first()) + (lines_deltas(a.drop_first()) + lines_deltas(b)) =~= (
        line_deltas(a.first()) + lines_deltas(a.drop_first())) + lines_deltas(b));
    }
}

/// Every delta payload contributed by a byte stream so far, in order.
pub open spec fn stream_deltas(b: Seq<u8>) -> Seq<Seq<u8>> {
    lines_deltas(split_stream(b).0)
}

/// The concatenation of a sequence of payloads.
pub open spec fn concat_of(ds: Seq<Seq<u8>>) -> Seq<u8>
    decreases ds.len(),
{
    if ds.len() == 0 {
        seq![]
    } else {
        concat_of(ds.drop_last()) + ds.last()
    }
}

pub proof fn lemma_concat_of_append(a: Seq<Seq<u8>>, b: Seq<Seq<u8>>)
    ensures
        concat_of(a + b) == concat_of(a) + concat_of(b),
    decreases b.len(),
{
    if b.len() == 0 {
        assert(a + b =~= a);
        assert(concat_of(b) =~= Seq::<u8>::empty());
        assert(concat_of(a) + concat_of(b) =~= concat_of(a));
    } else {
        assert((a + b).drop_last() =~= a + b.drop_last());
        assert((a + b).last() == b.last());
        lemma_concat_of_append(a, b.drop_last());
        assert((concat_of(a) + concat_of(b.drop_last())) + b.last() =~= concat_of(a) + (concat_of(
            b.drop_last(),
        ) + b.last()));
    }
}

/// Append the bytes of `src` to `dst`.
pub fn append_bytes(dst: &mut Vec<u8>, src: &[u8])
    ensures
        final(dst)@ == old(dst)@ + src@,
{
    let mut i: usize = 0;
    while i < src.len()
        invariant
            i <= src@.len(),
            dst@ == old(dst)@ + src@.take(i as int),
        decreases src@.len() - i,
    {
        dst.push(src[i]);
        proof {
            assert(old(dst)@ + src@.take(i as int + 1) =~= (old(dst)@ + src@.take(i as int)).push(
                src@[i as int],
            ));
        }
        i = i + 1;
    }
    proof {
        assert(src@.take(src@.len() as int) =~= src@);
    }
}

/// Index of the first newline byte, if any.
fn find_first_lf(s: &[u8]) -> (r: Option<usize>)
    ensures
        r is None ==> no_lf(s@),
        r matches Some(k) ==> k < s@.len() && s@[k as int] == LF && no_lf(s@.take(k as int)),
{
    let mut i: usize = 0;
    while i < s.len()
        invariant
            i <= s@.len(),
            forall|j: int| 0 <= j < i ==> s@[j] != LF,
        decreases s@.len() - i,
    {
        if s[i] == LF {
            assert(s@.take(i as int) =~= s@.subrange(0, i as int));
            return Some(i);
        }
        i = i + 1;
    }
    None
}

/// Incremental decoder for a streamed response body.
///
/// Feeding the decoder the chunks of a stream, in order, emits exactly the
/// delta payloads of the stream's complete lines so far — independent of
/// how the stream was cut into chunks — and `content` always equals the
/// concatenation, in order, of every payload emitted so far.
pub struct StreamDecoder {
    pub buf: Vec<u8>,
    pub content: Vec<u8>,
    pub fed: Ghost<Seq<u8>>,
}

impl StreamDecoder {
    /// All bytes fed so far.
    pub open spec fn fed_bytes(&self) -> Seq<u8> {
        self.fed@
    }

    /// All delta payloads emitted so far.
    pub open spec fn emitted(&self) -> Seq<Seq<u8>> {
        stream_deltas(self.fed@)
    }

    /// The accumulated content.
    pub open spec fn content_bytes(&self) -> Seq<u8> {
        self.content@
    }

    pub open spec fn wf(&self) -> bool {
        &&& self.buf@ == split_stream(self.fed@).1
        &&& self.content@ == concat_of(stream_deltas(self.fed@))
    }

    pub fn new() -> (r: StreamDecoder)
        ensures
            r.wf(),
            r.fed_bytes() == Seq::<u8>::empty(),
            r.content_bytes() == Seq::<u8>::empty(),
    {
        let r = StreamDecoder { buf: Vec::new(), content: Vec::new(), fed: Ghost(Seq::empty()) };
        proof {
            assert(split_stream(r.fed@).1 =~= Seq::<u8>::empty());
            assert(split_stream(r.fed@).0 =~= Seq::<Seq<u8>>::empty());
            assert(r.content@ =~= concat_of(stream_deltas(r.fed@)));
        }
        r
    }

    /// A copy of the accumulated content.
    pub fn content(&self) -> (r: Vec<u8>)
        ensures
            r@ == self.content_bytes(),
    {
        let r = self.content.clone();
        assert(r@ =~= self.content@);
        r
    }

    /// Feed one chunk of the response body; returns the delta payloads the
    /// chunk completes, in order.
    #[verifier::rlimit(100)]
    pub fn feed(&mut self, chunk: &[u8]) -> (out: Vec<Vec<u8>>)
        requires
            old(self).wf(),
        ensures
            final(self).wf(),
            final(self).fed_bytes() == old(self).fed_bytes() + chunk@,
            final(self).emitted() == old(self).emitted() + vecs_view(out@),
            final(self).content_bytes() == old(self).content_bytes() + concat_of(vecs_view(out@)),
    {
        let ghost fed0 = self.fed@;
        let ghost total = fed0 + chunk@;
        proof {
            self.fed@ = total;
        }
        append_bytes(&mut self.buf, chunk);
        proof {
            lemma_split_append(fed0, chunk@);
            lemma_lines_deltas_append(
                split_stream(fed0).0,
                split_stream(split_stream(fed0).1 + chunk@).0,
            );
        }
        let mut out: Vec<Vec<u8>> = Vec::new();
        proof {
            assert(vecs_view(out@) =~= Seq::<Seq<u8>>::empty());
            assert(stream_deltas(fed0) + vecs_view(out@) =~= stream_deltas(fed0));
            assert(stream_deltas(total) =~= stream_deltas(fed0) + vecs_view(out@) + lines_deltas(
                split_stream(self.buf@).0,
            ));
        }
        let mut nl = find_first_lf(self.buf.as_slice());
        while nl.is_some()
            invariant
                self.fed@ == total,
                self.content@ == concat_of(stream_deltas(fed0) + vecs_view(out@)),
                stream_deltas(total) == stream_deltas(fed0) + vecs_view(out@) + lines_deltas(
                    split_stream(self.buf@).0,
                ),
                split_stream(total).1 == split_stream(self.buf@).1,
                match nl {
                    Some(k) => k < self.buf@.len() && self.buf@[k as int] == LF && no_lf(
                        self.buf@.take(k as int),
                    ),
                    None => no_lf(self.buf@),
                },
            decreases self.buf@.len(),
        {
            let k = match nl {
                Some(k) => k,
                None => 0,
            };
            let blen = self.buf.len();
            assert(k < blen);
            let line = vstd::slice::slice_to_vec(
                vstd::slice::slice_subrange(self.buf.as_slice(), 0, k),
            );
            let rest = vstd::slice::slice_to_vec(
                vstd::slice::slice_subrange(self.buf.as_slice(), k + 1, blen),
            );
            proof {
                assert(line@ =~= self.buf@.take(k as int));
                assert(self.buf@ =~= line@ + seq![LF] + rest@);
                lemma_split_peel(line@, rest@);
            }
            let ghost buf_lines = split_stream(self.buf@).0;
            self.buf = rest;
            proof {
                assert(buf_lines =~= seq![line@] + split_stream(self.buf@).0);
                lemma_lines_deltas_cons(line@, split_stream(self.buf@).0);
            }
            let ds = line_deltas_exec(line.as_slice());
            let ghost out0v = vecs_view(out@);
            let ghost dsv = vecs_view(ds@);
            let mut di: usize = 0;
            proof {
                assert(out0v + dsv.take(0) =~= out0v);
            }
            let ghost buf_after = self.buf@;
            while di < ds.len()
                invariant
                    di <= ds@.len(),
                    dsv == vecs_view(ds@),
                    vecs_view(out@) == out0v + dsv.take(di as int),
                    self.content@ == concat_of(stream_deltas(fed0) + vecs_view(out@)),
                    self.buf@ == buf_after,
                    self.fed@ == total,
                decreases ds@.len() - di,
            {
                let ghost vpre = stream_deltas(fed0) + vecs_view(out@);
                let d = ds[di].clone();
                append_bytes(&mut self.content, d.as_slice());
                out.push(d);
                proof {
                    assert(vecs_view(out@) =~= (out0v + dsv.take(di as int)).push(
                        dsv[di as int],
                    ));
                    assert(out0v + dsv.take(di as int + 1) =~= (out0v + dsv.take(
                        di as int,
                    )).push(dsv[di as int]));
                    let v2 = stream_deltas(fed0) + vecs_view(out@);
                    assert(v2 =~= vpre.push(dsv[di as int]));
                    assert(v2.drop_last() =~= vpre);
                    assert(self.content@ == concat_of(vpre) + dsv[di as int]);
                    assert(self.content@ == concat_of(v2));
                }
                di = di + 1;
            }
            proof {
                assert(dsv.take(ds@.len() as int) =~= dsv);
                assert(vecs_view(out@) == out0v + dsv);
                assert(stream_deltas(fed0) + vecs_view(out@) + lines_deltas(
                    split_stream(self.buf@).0,
                ) =~= stream_deltas(fed0) + out0v + lines_deltas(buf_lines));
            }
            nl = find_first_lf(self.buf.as_slice());
        }
        proof {
            lemma_split_no_lf(self.buf@);
            assert(lines_deltas(split_stream(self.buf@).0) =~= Seq::<Seq<u8>>::empty());
            assert(stream_deltas(total) =~= stream_deltas(fed0) + vecs_view(out@));
            lemma_concat_of_append(stream_deltas(fed0), vecs_view(out@));
        }
        out
    }
}

/// The content a well-formed decoder holds is exactly the ordered
/// concatenation of every delta payload it has emitted, with no gaps and
/// no reordering.
pub proof fn lemma_content_is_concat(d: &StreamDecoder)
    requires
        d.wf(),
    ensures
        d.content_bytes() == concat_of(d.emitted()),
{
}

/// Extending a stream never changes the deltas already emitted: however
/// the bytes are cut into chunks, the emitted deltas form a stable prefix,
/// and the new material is decoded against the carried-over remainder.
/// In particular a frame split across two reads is decoded once, whole.
pub proof fn lemma_stream_deltas_prefix(a: Seq<u8>, b: Seq<u8>)
    ensures
        stream_deltas(a + b) == stream_deltas(a) + lines_deltas(
            split_stream(split_stream(a).1 + b).0,
        ),
{
    lemma_split_append(a, b);
    lemma_lines_deltas_append(split_stream(a).0, split_stream(split_stream(a).1 + b).0);
}

/// A line that yields no deltas — in particular a malformed frame line —
/// is skipped: the surrounding lines contribute exactly what they would
/// have contributed without it.
pub proof fn lemma_malformed_line_skipped(pre: Seq<Seq<u8>>, bad: Seq<u8>, post: Seq<Seq<u8>>)
    requires
        line_deltas(bad) == Seq::<Seq<u8>>::empty(),
    ensures
        lines_deltas(pre + seq![bad] + post) == lines_deltas(pre + post),
{
    lemma_lines_deltas_append(pre + seq![bad], post);
    lemma_lines_deltas_append(pre, seq![bad]);
    lemma_lines_deltas_append(pre, post);
    assert(seq![bad].drop_first() =~= Seq::<Seq<u8>>::empty());
    assert(lines_deltas(Seq::<Seq<u8>>::empty()) =~= Seq::<Seq<u8>>::empty());
    assert(lines_deltas(seq![bad]) =~= Seq::<Seq<u8>>::empty());
    assert(lines_deltas(pre) + lines_deltas(seq![bad]) =~= lines_deltas(pre));
    assert((pre + seq![bad]) + post =~= pre + seq![bad] + post);
}

/// A trimmed `data: ` line whose payload is not one well-formed delta
/// frame contributes no deltas.
pub proof fn lemma_bad_frame_no_deltas(line: Seq<u8>)
    requires
        trim(line).len() >= 6,
        trim(line).subrange(0, 6) == data_prefix(),
        trim(line) != done_line(),
        frame_choices(trim(line).skip(6)) is None,
    ensures
        line_deltas(line) == Seq::<Seq<u8>>::empty(),
{
    reveal(line_deltas);
}

} // verus!
