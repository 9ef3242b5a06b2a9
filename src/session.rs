use vstd::prelude::*;

use crate::error::Error;
use crate::packet::{classify, Message, Reply, ReplyKind, Request, PACKET_MAX_LEN, REPLY_MIN_LEN};
use crate::reader::{
    first_terminator, first_terminator_at, lemma_first_terminator, unterminated, ReadStep,
    StreamReader,
};

verus! {

/// Where the request in flight stands.
#[derive(Clone, Copy, Debug, PartialEq, Eq, Structural)]
pub enum Phase {
    /// No reply has come yet.
    AwaitingFirst,
    /// The device acknowledged the command; its completion is still due.
    AwaitingSecond,
}

/// What a reply means for the request in flight, as a mathematical value.
pub enum Progress {
    /// The device acknowledged; one more reply is due.
    ReadAnother,
    /// The request completed with this reply frame.
    Completed(Seq<u8>),
    /// The request failed.
    Failed(Error),
}

/// How a reply frame, read in the given phase, moves the request on: an
/// acknowledgement is welcome only as the first reply.
pub open spec fn progress(phase: Phase, frame: Seq<u8>) -> Progress {
    match classify(frame) {
        ReplyKind::Ack => if phase == Phase::AwaitingFirst {
            Progress::ReadAnother
        } else {
            Progress::Failed(Error::InvalidReply)
        },
        ReplyKind::Completion(_) => Progress::Completed(frame),
        ReplyKind::Error(k) => Progress::Failed(Error::Camera(k)),
        ReplyKind::Unrecognized => Progress::Failed(Error::InvalidReply),
    }
}

/// The first frame held in `held` and the bytes after it, if a terminator is held.
pub open spec fn next_frame(held: Seq<u8>) -> Option<(Seq<u8>, Seq<u8>)> {
    if unterminated(held) {
        None
    } else {
        let p = first_terminator(held);
        Some((held.subrange(0, p + 1), held.subrange(p + 1, held.len() as int)))
    }
}

/// Where the session stands after looking at what it holds.
pub enum Settled {
    /// Bytes must be read before anything more can be said.
    NeedBytes,
    /// The first reply was an acknowledgement.
    Acked,
    /// The request completed with this reply frame.
    Completed(Seq<u8>),
    /// The request failed.
    Failed(Error),
}

/// One look at the held bytes in the given phase: the result and the bytes
/// left held.
pub open spec fn settle_once(phase: Phase, held: Seq<u8>) -> (Settled, Seq<u8>) {
    match next_frame(held) {
        None => if held.len() >= PACKET_MAX_LEN {
            (Settled::Failed(Error::ReadBufferFull), held)
        } else {
            (Settled::NeedBytes, held)
        },
        Some((frame, rest)) => if frame.len() < REPLY_MIN_LEN {
            (Settled::Failed(Error::InvalidReply), rest)
        } else {
            (
                match progress(phase, frame) {
                    Progress::ReadAnother => Settled::Acked,
                    Progress::Completed(f) => Settled::Completed(f),
                    Progress::Failed(e) => Settled::Failed(e),
                },
                rest,
            )
        },
    }
}

/// What the session makes of the bytes it holds: the result, the phase
/// after it and the bytes still held. An acknowledgement is taken in and
/// the next frame looked at.
pub open spec fn settle(phase: Phase, held: Seq<u8>) -> (Settled, Phase, Seq<u8>) {
    let (first, rest) = settle_once(phase, held);
    if first is Acked {
        let (second, rest2) = settle_once(Phase::AwaitingSecond, rest);
        (second, Phase::AwaitingSecond, rest2)
    } else {
        (first, phase, rest)
    }
}

/// What the session asks of the channel.
pub enum Action {
    /// Read at most this many bytes and hand them to `receive`.
    Read(usize),
    /// The request is over: its completion reply, or the error.
    Finished(Result<Reply, Error>),
}

/// The reply side of a request/reply exchange. It keeps the bytes that
/// follow a frame for the next request.
pub struct Session {
    reader: StreamReader,
    phase: Phase,
}

impl Session {
    pub closed spec fn wf(&self) -> bool {
        self.reader.wf()
    }

    /// The bytes received and not yet taken as frames.
    pub closed spec fn held(&self) -> Seq<u8> {
        self.reader@
    }

    pub closed spec fn phase(&self) -> Phase {
        self.phase
    }

    pub fn new() -> (r: Session)
        ensures
            r.wf(),
            r.held() == Seq::<u8>::empty(),
            r.phase() == Phase::AwaitingFirst,
    {
        Session { reader: StreamReader::new(), phase: Phase::AwaitingFirst }
    }

    /// Marks the start of a request: the bytes to write to the channel, in
    /// full, before any reply is looked for.
    pub fn begin<'a>(&mut self, req: &'a Request) -> (r: &'a [u8])
        requires
            old(self).wf(),
        ensures
            final(self).wf(),
            final(self).held() == old(self).held(),
            final(self).phase() == Phase::AwaitingFirst,
            r@ == req@,
    {
        self.phase = Phase::AwaitingFirst;
        req.as_bytes()
    }

    /// Appends bytes read from the channel.
    pub fn receive(&mut self, data: &[u8])
        requires
            old(self).wf(),
            old(self).held().len() + data@.len() <= PACKET_MAX_LEN,
        ensures
            final(self).wf(),
            final(self).held() == old(self).held() + data@,
            final(self).phase() == old(self).phase(),
    {
        self.reader.receive(data);
    }

    /// One look at the held bytes: takes at most one frame. `None` means
    /// the frame was the acknowledgement and the next one is due.
    fn settle_once(&mut self) -> (r: Option<Action>)
        requires
            old(self).wf(),
        ensures
            final(self).wf(),
            final(self).phase() == if r is None {
                Phase::AwaitingSecond
            } else {
                old(self).phase()
            },
            ({
                let (s, rest) = settle_once(old(self).phase(), old(self).held());
                &&& final(self).held() == rest
                &&& s is Acked <==> r is None
                &&& s is NeedBytes ==> r == Some(
                    Action::Read((PACKET_MAX_LEN - rest.len()) as usize),
                )
                &&& s matches Settled::Completed(f) ==> (r matches Some(
                    Action::Finished(Ok(reply)),
                ) && reply@ == f)
                &&& s matches Settled::Failed(e) ==> (r matches Some(Action::Finished(Err(e2)))
                    && e2 == e)
            }),
    {
        match self.reader.poll() {
            ReadStep::NeedBytes => Some(Action::Read(self.reader.free_space())),
            ReadStep::Failed(e) => Some(Action::Finished(Err(e))),
            ReadStep::Frame(reply) => {
                if !reply.is_recognized() {
                    return Some(Action::Finished(Err(Error::InvalidReply)));
                }
                match reply.message() {
                    Message::Ack => {
                        if self.phase == Phase::AwaitingFirst {
                            self.phase = Phase::AwaitingSecond;
                            None
                        } else {
                            Some(Action::Finished(Err(Error::InvalidReply)))
                        }
                    },
                    Message::Completion(_) => Some(Action::Finished(Ok(reply))),
                    Message::Error(k) => Some(Action::Finished(Err(Error::Camera(k)))),
                }
            },
        }
    }

    /// Moves the request on as far as the held bytes allow: either it is
    /// over, or more bytes must be read.
    pub fn advance(&mut self) -> (r: Action)
        requires
            old(self).wf(),
        ensures
            final(self).wf(),
            ({
                let (s, phase, rest) = settle(old(self).phase(), old(self).held());
                &&& final(self).held() == rest
                &&& final(self).phase() == phase
                &&& !(s is Acked)
                &&& s is NeedBytes ==> r == Action::Read((PACKET_MAX_LEN - rest.len()) as usize)
                &&& s matches Settled::Completed(f) ==> (r matches Action::Finished(Ok(reply))
                    && reply@ == f)
                &&& s matches Settled::Failed(e) ==> (r matches Action::Finished(Err(e2)) && e2
                    == e)
            }),
    {
        match self.settle_once() {
            Some(a) => a,
            None => match self.settle_once() {
                Some(a) => a,
                None => {
                    proof {
                        assert(false);
                    }
                    Action::Read(0)
                },
            },
        }
    }
}

/// One whole frame: 3 to 16 bytes, ending in the only terminator it holds.
pub open spec fn is_frame(f: Seq<u8>) -> bool {
    &&& REPLY_MIN_LEN <= f.len() <= PACKET_MAX_LEN
    &&& f.last() == crate::packet::TERMINATOR
    &&& unterminated(f.drop_last())
}

/// Bytes that begin with a whole frame hand out that frame first.
pub proof fn lemma_next_frame(f: Seq<u8>, more: Seq<u8>)
    requires
        is_frame(f),
    ensures
        next_frame(f + more) == Some((f, more)),
{
    let s = f + more;
    let p = f.len() - 1;
    assert(s.subrange(0, p) =~= f.drop_last());
    assert(first_terminator_at(s, p));
    lemma_first_terminator(s, p);
    assert(s.subrange(0, p + 1) =~= f);
    assert(s.subrange(p + 1, s.len() as int) =~= more);
}

/// A request resolves the same way whether or not the device acknowledges
/// it first. An acknowledgement alone leaves the session waiting for more
/// bytes; the completion then ends the request, as it does when it comes
/// in the same read or comes alone. An error ends the request with its
/// code, first or after the acknowledgement, and the bytes after it are
/// left unread.
pub proof fn lemma_ack_completion_sequencing(
    ack: Seq<u8>,
    done: Seq<u8>,
    err: Seq<u8>,
    more: Seq<u8>,
)
    requires
        is_frame(ack),
        is_frame(done),
        is_frame(err),
        classify(ack) is Ack,
        classify(done) is Completion,
        classify(err) is Error,
    ensures
        settle(Phase::AwaitingFirst, ack) == (
            Settled::NeedBytes,
            Phase::AwaitingSecond,
            Seq::<u8>::empty(),
        ),
        settle(Phase::AwaitingSecond, done + more) == (
            Settled::Completed(done),
            Phase::AwaitingSecond,
            more,
        ),
        settle(Phase::AwaitingFirst, ack + done + more) == (
            Settled::Completed(done),
            Phase::AwaitingSecond,
            more,
        ),
        settle(Phase::AwaitingFirst, done + more) == (
            Settled::Completed(done),
            Phase::AwaitingFirst,
            more,
        ),
        settle(Phase::AwaitingFirst, err + more) == (
            Settled::Failed(Error::Camera(classify(err)->Error_0)),
            Phase::AwaitingFirst,
            more,
        ),
        settle(Phase::AwaitingSecond, err + more) == (
            Settled::Failed(Error::Camera(classify(err)->Error_0)),
            Phase::AwaitingSecond,
            more,
        ),
        settle(Phase::AwaitingFirst, ack + err + more) == (
            Settled::Failed(Error::Camera(classify(err)->Error_0)),
            Phase::AwaitingSecond,
            more,
        ),
{
    let empty = Seq::<u8>::empty();
    lemma_next_frame(ack, empty);
    assert(ack + empty =~= ack);
    assert(unterminated(empty));
    lemma_next_frame(done, more);
    lemma_next_frame(err, more);
    lemma_next_frame(ack, done + more);
    assert(ack + done + more =~= ack + (done + more));
    lemma_next_frame(ack, err + more);
    assert(ack + err + more =~= ack + (err + more));
}

} // verus!
