//! Pull-side delivery of a streamed response body: chunks arrive on the reply
//! channel and are copied out into buffers that the host supplies.

use vstd::prelude::*;

use crate::foreign::receive;
use crate::message::RespMsg;

verus! {

/// What one pull reports.
pub enum PullOutcome {
    /// `n` bytes were written; more may follow.
    More(usize),
    /// `n` bytes were written and the body is complete.
    End(usize),
    /// The body could not be completed.
    Failed,
}

/// The body bytes carried by a sequence of messages, in order.
pub open spec fn chunks_of(log: Seq<RespMsg>) -> Seq<u8>
    decreases log.len(),
{
    if log.len() == 0 {
        Seq::empty()
    } else {
        chunks_of(log.drop_last()) + match log.last() {
            RespMsg::Chunk(c) => c@,
            _ => Seq::empty(),
        }
    }
}

/// A message that ends a body in failure: a reported failure, or a second
/// headers message, which breaks the order of the stream.
pub open spec fn is_failure(m: RespMsg) -> bool {
    m is Failed || m is Headers
}

pub open spec fn has_failure(log: Seq<RespMsg>) -> bool {
    exists|i: int| 0 <= i < log.len() && is_failure(#[trigger] log[i])
}

/// The reading end of a streamed response body.
pub struct BackendResp {
    /// The reply channel, until it has closed.
    pub chan: Option<tokio::sync::mpsc::Receiver<RespMsg>>,
    /// The chunk being copied out, while some of it is left.
    pub bytes: Option<Vec<u8>>,
    /// How much of `bytes` has been copied out.
    pub cursor: usize,
    /// Whether a failure message was taken off the channel.
    pub failed: bool,
    /// Every message taken off the channel so far, in order.
    pub log: Ghost<Seq<RespMsg>>,
    /// Every byte handed out so far, in order.
    pub delivered: Ghost<Seq<u8>>,
}

/// The result of taking one message while filling a buffer: go on with the
/// count written so far, or end the call with an outcome.
pub enum Taken {
    Continue(usize),
    Finish(PullOutcome),
}

impl BackendResp {
    /// What is left of the current chunk.
    pub open spec fn pending(&self) -> Seq<u8> {
        match self.bytes {
            Some(b) => b@.subrange(self.cursor as int, b@.len() as int),
            None => Seq::empty(),
        }
    }

    /// The bytes handed out, followed by those pending, are the bytes of the
    /// chunks taken; the reader has failed exactly when a failure was taken,
    /// and it takes nothing after that.
    pub open spec fn wf(&self) -> bool {
        &&& self.bytes is Some ==> self.cursor < self.bytes->Some_0@.len()
        &&& chunks_of(self.log@) == self.delivered@ + self.pending()
        &&& self.failed == has_failure(self.log@)
        &&& self.failed ==> self.bytes is None
    }

    /// A reader of the body that follows the headers on `chan`.
    pub fn new(chan: tokio::sync::mpsc::Receiver<RespMsg>) -> (r: BackendResp)
        ensures
            r.wf(),
            r.chan == Some(chan),
            r.bytes is None,
            r.log@ == Seq::<RespMsg>::empty(),
            r.delivered@ == Seq::<u8>::empty(),
    {
        let r = BackendResp {
            chan: Some(chan),
            bytes: None,
            cursor: 0,
            failed: false,
            log: Ghost(Seq::empty()),
            delivered: Ghost(Seq::empty()),
        };
        assert(!has_failure(r.log@));
        r
    }

    /// Copies what fits of the pending chunk into `buf` from position `n` on.
    fn copy_pending(&mut self, buf: &mut [u8], n: usize) -> (m: usize)
        requires
            old(self).wf(),
            old(self).bytes is Some,
            n < old(buf)@.len(),
        ensures
            final(self).wf(),
            final(buf)@.len() == old(buf)@.len(),
            m == if old(self).pending().len() < old(buf)@.len() - n {
                old(self).pending().len()
            } else {
                (old(buf)@.len() - n) as nat
            },
            m > 0,
            final(buf)@.subrange(0, n as int) == old(buf)@.subrange(0, n as int),
            final(buf)@.subrange(n as int, n + m) == old(self).pending().subrange(0, m as int),
            final(buf)@.subrange(n + m, old(buf)@.len() as int) == old(buf)@.subrange(
                n + m,
                old(buf)@.len() as int,
            ),
            final(self).pending() == old(self).pending().subrange(m as int, old(self).pending().len() as int),
            final(self).delivered@ == old(self).delivered@ + final(buf)@.subrange(n as int, n + m),
            final(self).log == old(self).log,
            final(self).chan == old(self).chan,
            final(self).failed == old(self).failed,
    {
        let ghost buf0 = buf@;
        let ghost pending0 = self.pending();
        let chunk = match self.bytes.as_ref() {
            Some(b) => b,
            None => {
                return 0;
            },
        };
        let clen: usize = chunk.len();
        let avail: usize = clen - self.cursor;
        let blen: usize = buf.len();
        let room: usize = blen - n;
        let m: usize = if avail < room {
            avail
        } else {
            room
        };
        let start: usize = self.cursor;
        let mut j: usize = 0;
        while j < m
            invariant
                j <= m <= room,
                room == buf0.len() - n,
                buf0.len() == blen,
                buf@.len() == buf0.len(),
                start + m <= chunk@.len(),
                chunk@.len() == clen,
                forall|x: int| n <= x < n + j ==> #[trigger] buf@[x] == chunk@[start + x - n],
                forall|x: int| 0 <= x < buf0.len() && !(n <= x < n + j) ==> buf@[x] == buf0[x],
            decreases m - j,
        {
            buf[n + j] = chunk[start + j];
            j = j + 1;
        }
        let ghost chunk_view = chunk@;
        proof {
            assert(buf@.subrange(n as int, n + m) =~= chunk_view.subrange(start as int, start + m));
            assert(buf@.subrange(n as int, n + m) =~= pending0.subrange(0, m as int));
            assert(buf@.subrange(0, n as int) =~= buf0.subrange(0, n as int));
            assert(buf@.subrange(n + m, buf0.len() as int) =~= buf0.subrange(n + m, buf0.len() as int));
            assert(chunk_view.subrange(start as int, chunk_view.len() as int) =~= chunk_view.subrange(
                start as int,
                start + m,
            ) + chunk_view.subrange(start + m, chunk_view.len() as int));
        }
        self.delivered = Ghost(self.delivered@ + buf@.subrange(n as int, n + m));
        self.cursor = start + m;
        if self.cursor == clen {
            self.bytes = None;
            self.cursor = 0;
            assert(chunks_of(self.log@) =~= self.delivered@ + Seq::<u8>::empty());
            assert(pending0.subrange(m as int, pending0.len() as int) =~= Seq::<u8>::empty());
        } else {
            assert(chunks_of(self.log@) =~= self.delivered@ + self.pending());
            assert(self.pending() =~= pending0.subrange(m as int, pending0.len() as int));
        }
        m
    }

    /// Takes one message, with no chunk pending and `n` bytes of `buf`
    /// already written in this call: a chunk is copied out from `n` on as far
    /// as `buf` holds it and the call goes on; an empty chunk ends the call
    /// with what it has; a failure (or a second headers message) fails the
    /// body for good; a closed channel ends it with what the call wrote.
    pub fn take(&mut self, msg: Option<RespMsg>, buf: &mut [u8], n: usize) -> (r: Taken)
        requires
            old(self).wf(),
            old(self).bytes is None,
            !old(self).failed,
            n < old(buf)@.len(),
        ensures
            final(self).wf(),
            final(buf)@.len() == old(buf)@.len(),
            final(buf)@.subrange(0, n as int) == old(buf)@.subrange(0, n as int),
            r is Continue ==> {
                &&& n < r->Continue_0 <= old(buf)@.len()
                &&& final(self).delivered@ == old(self).delivered@ + final(buf)@.subrange(
                    n as int,
                    r->Continue_0 as int,
                )
                &&& final(buf)@.subrange(r->Continue_0 as int, old(buf)@.len() as int) == old(
                    buf,
                )@.subrange(r->Continue_0 as int, old(buf)@.len() as int)
            },
            final(self).log@ == match msg {
                Some(m) => old(self).log@.push(m),
                None => old(self).log@,
            },
            match msg {
                Some(RespMsg::Chunk(c)) => if c@.len() == 0 {
                    &&& r == Taken::Finish(PullOutcome::More(n))
                    &&& final(buf)@ == old(buf)@
                    &&& final(self).delivered == old(self).delivered
                    &&& final(self).chan == old(self).chan
                } else {
                    let m = if c@.len() < old(buf)@.len() - n {
                        c@.len()
                    } else {
                        (old(buf)@.len() - n) as nat
                    };
                    &&& r == Taken::Continue((n + m) as usize)
                    &&& final(buf)@.subrange(n as int, n + m) == c@.subrange(0, m as int)
                    &&& final(buf)@.subrange(n + m, old(buf)@.len() as int) == old(buf)@.subrange(
                        n + m,
                        old(buf)@.len() as int,
                    )
                    &&& final(self).pending() == c@.subrange(m as int, c@.len() as int)
                    &&& final(self).delivered@ == old(self).delivered@ + c@.subrange(0, m as int)
                    &&& final(self).chan == old(self).chan
                },
                Some(RespMsg::Failed(_)) => r == Taken::Finish(PullOutcome::Failed) && final(self).failed
                    && final(self).delivered == old(self).delivered && final(buf)@ == old(buf)@,
                Some(RespMsg::Headers(_)) => r == Taken::Finish(PullOutcome::Failed) && final(self).failed
                    && final(self).delivered == old(self).delivered && final(buf)@ == old(buf)@,
                None => {
                    &&& r == Taken::Finish(PullOutcome::End(n))
                    &&& final(buf)@ == old(buf)@
                    &&& final(self).chan is None
                    &&& final(self).delivered == old(self).delivered
                    &&& final(self).delivered@ == chunks_of(final(self).log@)
                },
            },
    {
        let ghost log0 = self.log@;
        let blen: usize = buf.len();
        match msg {
            Some(RespMsg::Chunk(c)) => {
                let ghost cv = c@;
                let ghost m = RespMsg::Chunk(c);
                self.log = Ghost(self.log@.push(m));
                assert(self.log@.drop_last() =~= log0);
                assert(!has_failure(self.log@)) by {
                    assert forall|i: int| 0 <= i < self.log@.len() implies !is_failure(#[trigger] self.log@[i]) by {
                        if i < log0.len() {
                            assert(self.log@[i] == log0[i]);
                        }
                    }
                }
                if c.len() == 0 {
                    assert(chunks_of(self.log@) =~= chunks_of(log0));
                    return Taken::Finish(PullOutcome::More(n));
                }
                assert(chunks_of(self.log@) == chunks_of(log0) + cv);
                assert(cv.subrange(0, cv.len() as int) =~= cv);
                self.bytes = Some(c);
                self.cursor = 0;
                assert(chunks_of(self.log@) =~= self.delivered@ + self.pending());
                let k = self.copy_pending(buf, n);
                Taken::Continue(n + k)
            },
            Some(RespMsg::Headers(h)) => {
                let ghost m = RespMsg::Headers(h);
                self.log = Ghost(self.log@.push(m));
                assert(self.log@.drop_last() =~= log0);
                assert(chunks_of(self.log@) =~= chunks_of(log0));
                assert(is_failure(self.log@[self.log@.len() - 1]));
                self.failed = true;
                Taken::Finish(PullOutcome::Failed)
            },
            Some(RespMsg::Failed(e)) => {
                let ghost m = RespMsg::Failed(e);
                self.log = Ghost(self.log@.push(m));
                assert(self.log@.drop_last() =~= log0);
                assert(chunks_of(self.log@) =~= chunks_of(log0));
                assert(is_failure(self.log@[self.log@.len() - 1]));
                self.failed = true;
                Taken::Finish(PullOutcome::Failed)
            },
            None => {
                self.chan = None;
                assert(self.delivered@ + Seq::<u8>::empty() =~= self.delivered@);
                Taken::Finish(PullOutcome::End(n))
            },
        }
    }

    /// Fills `buf` with the next body bytes: first what is left of the
    /// current chunk, then, while `buf` has room, the chunks that follow. It
    /// waits for a message only while `buf` has room.
    pub fn pull(&mut self, buf: &mut [u8]) -> (r: PullOutcome)
        requires
            old(self).wf(),
        ensures
            final(self).wf(),
            final(buf)@.len() == old(buf)@.len(),
            old(self).log@.is_prefix_of(final(self).log@),
            match r {
                PullOutcome::More(n) | PullOutcome::End(n) => {
                    &&& n <= old(buf)@.len()
                    &&& final(self).delivered@ == old(self).delivered@ + final(buf)@.subrange(0, n as int)
                    &&& final(buf)@.subrange(n as int, old(buf)@.len() as int) == old(buf)@.subrange(
                        n as int,
                        old(buf)@.len() as int,
                    )
                    &&& !final(self).failed
                },
                PullOutcome::Failed => final(self).failed,
            },
            r is Failed <==> has_failure(final(self).log@),
            r is More ==> r->More_0 == old(buf)@.len() || (final(self).log@.last() is Chunk
                && final(self).log@.last()->Chunk_0@.len() == 0),
            r is End ==> final(self).chan is None && final(self).delivered@ == chunks_of(final(self).log@),
            old(self).failed ==> r is Failed,
            !old(self).failed && old(buf)@.len() <= old(self).pending().len() ==> {
                &&& r == PullOutcome::More(old(buf)@.len() as usize)
                &&& final(buf)@ == old(self).pending().subrange(0, old(buf)@.len() as int)
                &&& final(self).pending() == old(self).pending().subrange(
                    old(buf)@.len() as int,
                    old(self).pending().len() as int,
                )
                &&& final(self).log@ == old(self).log@
            },
            !old(self).failed && old(self).pending().len() < old(buf)@.len() ==> final(buf)@.subrange(
                0,
                old(self).pending().len() as int,
            ) == old(self).pending(),
    {
        let ghost log0 = self.log@;
        let ghost buf0 = buf@;
        let ghost pending0 = self.pending();
        let ghost delivered0 = self.delivered@;
        assert(log0.is_prefix_of(log0)) by {
            assert(log0.subrange(0, log0.len() as int) =~= log0);
        }
        if self.failed {
            return PullOutcome::Failed;
        }
        let len = buf.len();
        if len == 0 {
            assert(buf@.subrange(0, 0) =~= Seq::<u8>::empty());
            assert(self.delivered@ + Seq::<u8>::empty() =~= self.delivered@);
            assert(buf@ =~= pending0.subrange(0, 0));
            assert(pending0.subrange(0, pending0.len() as int) =~= pending0);
            return PullOutcome::More(0);
        }
        let mut n: usize = 0;
        if self.bytes.is_some() {
            n = self.copy_pending(buf, 0);
            proof {
                assert(buf@.subrange(0, n as int) =~= buf@.subrange(0int, 0 + n));
                if buf0.len() <= pending0.len() {
                    assert(buf@ =~= buf@.subrange(0, n as int));
                    assert(buf@ =~= pending0.subrange(0, len as int));
                } else {
                    assert(pending0.subrange(0, n as int) =~= pending0);
                }
            }
        } else {
            assert(buf@.subrange(0, 0) =~= Seq::<u8>::empty());
            assert(self.delivered@ =~= delivered0 + buf@.subrange(0, 0));
        }
        let mut finished: Option<PullOutcome> = None;
        while n < len && finished.is_none()
            invariant
                self.wf(),
                finished is None ==> !self.failed,
                finished is Some ==> {
                    let out = finished->Some_0;
                    &&& out is Failed ==> self.failed
                    &&& (out is More || out is End) ==> !self.failed
                    &&& out is More ==> self.log@.last() is Chunk && self.log@.last()->Chunk_0@.len() == 0
                        && out->More_0 == n
                    &&& out is End ==> self.chan is None && out->End_0 == n && self.delivered@
                        == chunks_of(self.log@)
                },
                buf@.len() == len == buf0.len(),
                0 < len,
                n <= len,
                n < len && finished is None ==> self.bytes is None,
                self.delivered@ == delivered0 + buf@.subrange(0, n as int),
                buf@.subrange(n as int, len as int) == buf0.subrange(n as int, len as int),
                log0.is_prefix_of(self.log@),
                pending0.len() < len ==> buf@.subrange(0, pending0.len() as int) == pending0,
                n >= pending0.len() || n == len,
                buf0.len() <= pending0.len() ==> {
                    &&& n == len
                    &&& finished is None
                    &&& self.log@ == log0
                    &&& buf@ == pending0.subrange(0, len as int)
                    &&& self.pending() == pending0.subrange(len as int, pending0.len() as int)
                },
            decreases len - n + if finished is None {
                1int
            } else {
                0int
            },
        {
            let msg = match &mut self.chan {
                Some(rx) => receive(rx),
                None => None,
            };
            let ghost log1 = self.log@;
            let ghost buf1 = buf@;
            let ghost n1 = n;
            let t = self.take(msg, buf, n);
            proof {
                assert(log1.is_prefix_of(self.log@)) by {
                    assert(self.log@.subrange(0, log1.len() as int) =~= log1);
                }
                assert(log0.is_prefix_of(self.log@)) by {
                    assert(self.log@.subrange(0, log0.len() as int) =~= log1.subrange(0, log0.len() as int));
                }
                if pending0.len() < len {
                    assert(buf@.subrange(0, pending0.len() as int) =~= buf1.subrange(0, pending0.len() as int)) by {
                        assert(buf@.subrange(0, n1 as int) == buf1.subrange(0, n1 as int));
                        assert(buf@.subrange(0, pending0.len() as int) =~= buf@.subrange(0, n1 as int).subrange(0, pending0.len() as int));
                        assert(buf1.subrange(0, pending0.len() as int) =~= buf1.subrange(0, n1 as int).subrange(0, pending0.len() as int));
                    }
                }
            }
            match t {
                Taken::Continue(k) => {
                    proof {
                        assert(self.delivered@ =~= delivered0 + buf@.subrange(0, k as int)) by {
                            assert(buf@.subrange(0, n1 as int) == buf1.subrange(0, n1 as int));
                            assert(buf@.subrange(0, k as int) =~= buf@.subrange(0, n1 as int) + buf@.subrange(n1 as int, k as int));
                        }
                        assert(buf@.subrange(0, k as int) =~= buf1.subrange(0, n1 as int) + buf@.subrange(n1 as int, k as int));
                        assert(buf@.subrange(0, n1 as int) == buf1.subrange(0, n1 as int));
                        assert(buf@.subrange(0, k as int) =~= buf@.subrange(0, n1 as int) + buf@.subrange(n1 as int, k as int));
                        assert(buf@.subrange(k as int, len as int) =~= buf0.subrange(k as int, len as int)) by {
                            assert(buf1.subrange(k as int, len as int) =~= buf1.subrange(n1 as int, len as int).subrange(k - n1, len - n1));
                            assert(buf0.subrange(k as int, len as int) =~= buf0.subrange(n1 as int, len as int).subrange(k - n1, len - n1));
                        }
                    }
                    n = k;
                },
                Taken::Finish(out) => {
                    proof {
                        if out is More || out is End {
                            assert(buf@ == buf1);
                        }
                    }
                    finished = Some(out);
                },
            }
        }
        match finished {
            Some(out) => out,
            None => PullOutcome::More(n),
        }
    }
}

/// A complete body is every chunk, in order: once a reader reports the end,
/// the bytes it handed out over all its pulls are the bytes of all the chunks
/// that came on the channel, and no failure came among them.
pub proof fn lemma_complete_body(r: BackendResp)
    requires
        r.wf(),
        !r.failed,
        r.bytes is None,
    ensures
        r.delivered@ == chunks_of(r.log@),
        !has_failure(r.log@),
{
    assert(r.delivered@ + Seq::<u8>::empty() =~= r.delivered@);
}

/// A body that a failure interrupted is never reported complete: once a
/// failure message has been taken, every later pull fails.
pub proof fn lemma_failure_is_final(r: BackendResp, i: int)
    requires
        r.wf(),
        0 <= i < r.log@.len(),
        is_failure(r.log@[i]),
    ensures
        r.failed,
{
}

} // verus!
