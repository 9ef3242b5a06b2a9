use vstd::prelude::*;
use vstd::slice::slice_subrange;

use crate::error::Error;
use crate::packet::{Reply, PACKET_MAX_LEN, REPLY_MIN_LEN, TERMINATOR};

verus! {

/// Splits a byte stream into the complete frames it holds, in order, and
/// the unterminated bytes after the last of them.
pub open spec fn split_frames(s: Seq<u8>) -> (Seq<Seq<u8>>, Seq<u8>)
    decreases s.len(),
{
    if s.len() == 0 {
        (seq![], seq![])
    } else {
        let (frames, tail) = split_frames(s.drop_last());
        if s.last() == TERMINATOR {
            (frames.push(tail.push(s.last())), seq![])
        } else {
            (frames, tail.push(s.last()))
        }
    }
}

/// Whether `s` holds no terminator.
pub open spec fn unterminated(s: Seq<u8>) -> bool {
    forall|j: int| 0 <= j < s.len() ==> s[j] != TERMINATOR
}

/// `p` is the index of the first terminator in `s`.
pub open spec fn first_terminator_at(s: Seq<u8>, p: int) -> bool {
    &&& 0 <= p < s.len()
    &&& s[p] == TERMINATOR
    &&& unterminated(s.subrange(0, p))
}

/// The index of the first terminator in `s`, where `s` holds one.
pub open spec fn first_terminator(s: Seq<u8>) -> int {
    choose|p: int| first_terminator_at(s, p)
}

/// Only one index can be that of the first terminator.
pub proof fn lemma_first_terminator(s: Seq<u8>, p: int)
    requires
        first_terminator_at(s, p),
    ensures
        first_terminator(s) == p,
{
    let q = first_terminator(s);
    assert(first_terminator_at(s, q));
    if p < q {
        assert(s.subrange(0, q)[p] == s[p]);
    } else if q < p {
        assert(s.subrange(0, p)[q] == s[q]);
    }
}

/// Relies on `memchr::memchr`: the index of the first occurrence of
/// `needle` in `haystack`, or `None` where there is none.
#[verifier::external_body]
fn find_byte(needle: u8, haystack: &[u8]) -> (r: Option<usize>)
    ensures
        r matches Some(i) ==> (i < haystack@.len() && haystack@[i as int] == needle && forall|
            j: int|
            0 <= j < i ==> haystack@[j] != needle),
        r is None ==> forall|j: int| 0 <= j < haystack@.len() ==> haystack@[j] != needle,
{
    memchr::memchr(needle, haystack)
}

/// A stream without a terminator is all tail.
pub proof fn lemma_split_unterminated(s: Seq<u8>)
    requires
        unterminated(s),
    ensures
        split_frames(s) == (Seq::<Seq<u8>>::empty(), s),
    decreases s.len(),
{
    if s.len() > 0 {
        lemma_split_unterminated(s.drop_last());
        assert(s.drop_last().push(s.last()) =~= s);
    }
}

/// Frame extraction does not depend on how the stream was cut: the frames
/// of `x + y` are those of `x` followed by those of the tail of `x` joined
/// with `y`, and both ways end with the same tail.
pub proof fn lemma_split_concat(x: Seq<u8>, y: Seq<u8>)
    ensures
        split_frames(x + y) == (
            split_frames(x).0 + split_frames(split_frames(x).1 + y).0,
            split_frames(split_frames(x).1 + y).1,
        ),
    decreases y.len(),
{
    let t = split_frames(x).1;
    if y.len() == 0 {
        assert(x + y =~= x);
        assert(t + y =~= t);
        lemma_split_tail_unterminated(x);
        lemma_split_unterminated(t);
        assert(split_frames(x).0 + Seq::<Seq<u8>>::empty() =~= split_frames(x).0);
    } else {
        let y0 = y.drop_last();
        lemma_split_concat(x, y0);
        assert((x + y).drop_last() =~= x + y0);
        assert((t + y).drop_last() =~= t + y0);
        assert((x + y).last() == y.last());
        assert((t + y).last() == y.last());
        let (f1, t1) = split_frames(t + y0);
        if y.last() == TERMINATOR {
            assert(split_frames(x).0 + f1.push(t1.push(y.last())) =~= (split_frames(x).0
                + f1).push(t1.push(y.last())));
        }
    }
}

/// The tail that `split_frames` leaves holds no terminator.
pub proof fn lemma_split_tail_unterminated(s: Seq<u8>)
    ensures
        unterminated(split_frames(s).1),
        split_frames(s).1.len() <= s.len(),
    decreases s.len(),
{
    if s.len() > 0 {
        lemma_split_tail_unterminated(s.drop_last());
        let t = split_frames(s.drop_last()).1;
        if s.last() != TERMINATOR {
            assert forall|j: int| 0 <= j < t.push(s.last()).len() implies t.push(s.last())[j]
                != TERMINATOR by {
                if j < t.len() {
                    assert(t.push(s.last())[j] == t[j]);
                }
            }
        }
    }
}

/// The bytes up to and including the first terminator form the first frame.
pub proof fn lemma_split_first(s: Seq<u8>, p: int)
    requires
        first_terminator_at(s, p),
    ensures
        split_frames(s) == (
            seq![s.subrange(0, p + 1)] + split_frames(s.subrange(p + 1, s.len() as int)).0,
            split_frames(s.subrange(p + 1, s.len() as int)).1,
        ),
{
    let x = s.subrange(0, p + 1);
    let y = s.subrange(p + 1, s.len() as int);
    assert(x + y =~= s);
    lemma_split_concat(x, y);
    assert(x.drop_last() =~= s.subrange(0, p));
    lemma_split_unterminated(s.subrange(0, p));
    assert(x.last() == TERMINATOR);
    assert(s.subrange(0, p).push(TERMINATOR) =~= x);
    assert(Seq::<u8>::empty() + y =~= y);
}

/// What one look at the receive buffer gives.
pub enum ReadStep {
    /// A whole frame was taken from the buffer.
    Frame(Reply),
    /// No whole frame is held yet and there is room for more bytes.
    NeedBytes,
    /// A frame was taken but is not a reply, or the buffer is full with no
    /// terminator in it.
    Failed(Error),
}

/// Rebuilds frames from a byte stream that arrives in pieces of any size,
/// keeping what follows a frame for the next one.
pub struct StreamReader {
    buf: Vec<u8>,
    len: usize,
}

impl View for StreamReader {
    type V = Seq<u8>;

    /// The bytes received and not yet handed out.
    closed spec fn view(&self) -> Seq<u8> {
        self.buf@.subrange(0, self.len as int)
    }
}

impl StreamReader {
    pub closed spec fn wf(&self) -> bool {
        &&& self.buf@.len() == PACKET_MAX_LEN
        &&& self.len <= PACKET_MAX_LEN
    }

    pub fn new() -> (r: StreamReader)
        ensures
            r.wf(),
            r@ == Seq::<u8>::empty(),
    {
        let r = StreamReader { buf: vec![0u8; PACKET_MAX_LEN], len: 0 };
        assert(r@ =~= Seq::<u8>::empty());
        r
    }

    /// How many more bytes the buffer takes.
    pub fn free_space(&self) -> (r: usize)
        requires
            self.wf(),
        ensures
            r == PACKET_MAX_LEN - self@.len(),
    {
        PACKET_MAX_LEN - self.len
    }

    /// Appends bytes read from the channel.
    pub fn receive(&mut self, data: &[u8])
        requires
            old(self).wf(),
            old(self)@.len() + data@.len() <= PACKET_MAX_LEN,
        ensures
            final(self).wf(),
            final(self)@ == old(self)@ + data@,
    {
        let ghost held = self@;
        let n = data.len();
        let mut i: usize = 0;
        while i < n
            invariant
                i <= n,
                n == data@.len(),
                self.len + n <= PACKET_MAX_LEN,
                self.buf@.len() == PACKET_MAX_LEN,
                held == self.buf@.subrange(0, self.len as int),
                forall|j: int| 0 <= j < i ==> self.buf@[self.len + j] == data@[j],
            decreases n - i,
        {
            self.buf.set(self.len + i, data[i]);
            i += 1;
        }
        self.len = self.len + n;
        assert(self@ =~= held + data@);
    }

    /// Takes the first frame out of the buffer, if a terminator is held,
    /// and moves the bytes after it to the front.
    fn extract_frame(&mut self) -> (r: Option<Vec<u8>>)
        requires
            old(self).wf(),
        ensures
            final(self).wf(),
            r is None ==> unterminated(old(self)@) && final(self)@ == old(self)@,
            r matches Some(f) ==> ({
                let p = first_terminator(old(self)@);
                &&& first_terminator_at(old(self)@, p)
                &&& f@ == old(self)@.subrange(0, p + 1)
                &&& final(self)@ == old(self)@.subrange(p + 1, old(self)@.len() as int)
            }),
    {
        let ghost held = self@;
        let held_slice = slice_subrange(self.buf.as_slice(), 0, self.len);
        match find_byte(TERMINATOR, held_slice) {
            None => None,
            Some(pos) => {
                let end = pos + 1;
                let mut frame: Vec<u8> = Vec::with_capacity(end);
                let mut i: usize = 0;
                while i < end
                    invariant
                        i <= end,
                        end <= self.len,
                        self.len <= PACKET_MAX_LEN,
                        self.buf@.len() == PACKET_MAX_LEN,
                        frame@ == self.buf@.subrange(0, i as int),
                    decreases end - i,
                {
                    frame.push(self.buf[i]);
                    i += 1;
                }
                let remaining = self.len - end;
                let ghost before = self.buf@;
                let mut k: usize = 0;
                while k < remaining
                    invariant
                        k <= remaining,
                        remaining + end <= PACKET_MAX_LEN,
                        end >= 1,
                        before.len() == PACKET_MAX_LEN,
                        self.buf@.len() == PACKET_MAX_LEN,
                        forall|j: int| 0 <= j < k ==> self.buf@[j] == before[end + j],
                        forall|j: int| k <= j < PACKET_MAX_LEN ==> self.buf@[j] == before[j],
                    decreases remaining - k,
                {
                    let b = self.buf[end + k];
                    self.buf.set(k, b);
                    k += 1;
                }
                self.len = remaining;
                proof {
                    assert(first_terminator_at(held, pos as int)) by {
                        assert forall|j: int| 0 <= j < pos implies held.subrange(0, pos as int)[j]
                            != TERMINATOR by {
                            assert(held_slice@[j] != TERMINATOR);
                        }
                    }
                    lemma_first_terminator(held, pos as int);
                    assert(frame@ =~= held.subrange(0, pos + 1));
                    assert(self@ =~= held.subrange(pos + 1, held.len() as int));
                }
                Some(frame)
            },
        }
    }

    /// Hands out the next frame if one is held; otherwise says whether
    /// more bytes can be taken.
    pub fn poll(&mut self) -> (r: ReadStep)
        requires
            old(self).wf(),
        ensures
            final(self).wf(),
            old(self)@.len() <= PACKET_MAX_LEN,
            split_frames(old(self)@).1 == split_frames(final(self)@).1,
            unterminated(old(self)@) ==> final(self)@ == old(self)@,
            r is NeedBytes <==> unterminated(old(self)@) && old(self)@.len() < PACKET_MAX_LEN,
            r is Frame ==> !unterminated(old(self)@),
            unterminated(old(self)@) && old(self)@.len() == PACKET_MAX_LEN ==> r
                == ReadStep::Failed(Error::ReadBufferFull),
            !unterminated(old(self)@) ==> ({
                    let p = first_terminator(old(self)@);
                    &&& first_terminator_at(old(self)@, p)
                    &&& final(self)@ == old(self)@.subrange(p + 1, old(self)@.len() as int)
                    &&& split_frames(old(self)@).0 == seq![old(self)@.subrange(0, p + 1)]
                        + split_frames(final(self)@).0
                    &&& p + 1 < REPLY_MIN_LEN ==> r == ReadStep::Failed(Error::InvalidReply)
                    &&& p + 1 >= REPLY_MIN_LEN ==> (r matches ReadStep::Frame(reply) && reply@
                        == old(self)@.subrange(0, p + 1))
                }),
    {
        let ghost held = self@;
        match self.extract_frame() {
            Some(frame) => {
                let ghost p = first_terminator(held);
                proof {
                    lemma_split_first(held, p);
                }
                match Reply::parse(frame.as_slice()) {
                    Ok(reply) => ReadStep::Frame(reply),
                    Err(e) => ReadStep::Failed(e),
                }
            },
            None => {
                proof {
                    lemma_split_unterminated(held);
                }
                assert(unterminated(held));
                if self.len == PACKET_MAX_LEN {
                    ReadStep::Failed(Error::ReadBufferFull)
                } else {
                    ReadStep::NeedBytes
                }
            },
        }
    }
}

} // verus!
