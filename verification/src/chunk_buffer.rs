//! Accumulates raw byte chunks and serves exact-size reads across chunk
//! boundaries.
//!
//! Chunks are queued in push order, which is stream order. A read of `n`
//! bytes copies from the front of the queue into one reusable scratch
//! buffer until either `n` bytes are gathered (the read succeeds and the
//! gathered bytes are consumed) or the queue runs dry (the read reports
//! "not yet" and every byte gathered so far stays buffered for the next
//! attempt). Each byte is copied exactly once, from its chunk into the
//! scratch buffer.

use std::collections::VecDeque;
use vstd::prelude::*;

verus! {

/// One pushed chunk: its bytes and a cursor marking how many of them have
/// already been copied out.
struct Chunk {
    data: Vec<u8>,
    cursor: usize,
}

impl Chunk {
    spec fn wf(&self) -> bool {
        self.cursor <= self.data@.len()
    }

    /// The bytes of this chunk not yet copied out.
    spec fn remaining(&self) -> Seq<u8> {
        self.data@.skip(self.cursor as int)
    }
}

/// Whether every byte of the chunk has been copied out.
fn is_chunk_empty(chunk: &Chunk) -> (r: bool)
    requires
        chunk.wf(),
    ensures
        r == (chunk.remaining().len() == 0),
{
    chunk.cursor >= chunk.data.len()
}

/// The bytes still queued from position `i` of the queue on.
spec fn queued_from(q: Seq<Chunk>, i: int) -> Seq<u8>
    decreases q.len() - i,
{
    if 0 <= i < q.len() {
        q[i].remaining() + queued_from(q, i + 1)
    } else {
        Seq::empty()
    }
}

proof fn lemma_queued_from_empty(q: Seq<Chunk>, i: int)
    requires
        q.len() <= i,
    ensures
        queued_from(q, i) == Seq::<u8>::empty(),
{
}

proof fn lemma_queued_push_back(q: Seq<Chunk>, c: Chunk, i: int)
    requires
        0 <= i <= q.len(),
    ensures
        queued_from(q.push(c), i) == queued_from(q, i) + c.remaining(),
    decreases q.len() - i,
{
    if i < q.len() {
        lemma_queued_push_back(q, c, i + 1);
        assert(q.push(c)[i] == q[i]);
        assert(queued_from(q.push(c), i) =~= queued_from(q, i) + c.remaining());
    } else {
        assert(q.push(c)[i] == c);
        assert(queued_from(q.push(c), i + 1) =~= Seq::<u8>::empty());
        assert(queued_from(q.push(c), i) =~= queued_from(q, i) + c.remaining());
    }
}

proof fn lemma_queued_shift(q: Seq<Chunk>, i: int)
    requires
        0 <= i <= q.len(),
    ensures
        queued_from(q, i) == queued_from(q.skip(i), 0),
    decreases q.len() - i,
{
    if i < q.len() {
        lemma_queued_shift(q, i + 1);
        assert(q.skip(i + 1) =~= q.skip(i).skip(1));
        assert(q.skip(i)[0] == q[i]);
        assert(queued_from(q.skip(i), 0) =~= q.skip(i)[0].remaining() + queued_from(q.skip(i), 1));
        lemma_queued_shift(q.skip(i), 1);
        assert(queued_from(q, i) =~= queued_from(q.skip(i), 0));
    } else {
        assert(q.skip(i).len() == 0);
    }
}

proof fn lemma_queued_push_front(q: Seq<Chunk>, c: Chunk)
    ensures
        queued_from(seq![c] + q, 0) == c.remaining() + queued_from(q, 0),
{
    let q2 = seq![c] + q;
    assert(q2[0] == c);
    lemma_queued_shift(q2, 1);
    assert(q2.skip(1) =~= q);
    assert(queued_from(q2, 0) =~= c.remaining() + queued_from(q, 0));
}

/// A queue of pushed byte chunks plus one reusable scratch buffer, from
/// which exact-size reads are served.
pub struct ChunkBuffer {
    /// Incoming chunks wait here until their bytes are copied out.
    queue: VecDeque<Chunk>,
    /// Scratch space gathering the bytes of the read in progress; its
    /// length is the target size of that read.
    buffer: Vec<u8>,
    /// How many bytes at the front of `buffer` are gathered and valid.
    buffer_fill: usize,
}

impl ChunkBuffer {
    /// The fill count never exceeds the scratch buffer, and every queued
    /// chunk still holds at least one byte to copy out (drained chunks are
    /// popped as soon as they empty).
    pub closed spec fn wf(&self) -> bool {
        &&& self.buffer_fill <= self.buffer@.len()
        &&& forall|i: int|
            0 <= i < self.queue@.len() ==> (#[trigger] self.queue@[i]).cursor
                < self.queue@[i].data@.len()
    }

    spec fn queued(&self) -> Seq<u8> {
        queued_from(self.queue@, 0)
    }

    /// How many bytes of the read in progress are already gathered.
    pub closed spec fn fill(&self) -> nat {
        self.buffer_fill as nat
    }

    /// The target size of the read in progress (the scratch buffer's length).
    pub closed spec fn target(&self) -> nat {
        self.buffer@.len()
    }

    /// Every byte pushed and not yet returned by a successful read, in
    /// stream order: first the bytes already gathered in the scratch
    /// buffer, then the bytes still queued.
    pub closed spec fn buffered(&self) -> Seq<u8> {
        self.buffer@.take(self.buffer_fill as int) + self.queued()
    }

    pub fn new() -> (r: ChunkBuffer)
        ensures
            r.wf(),
            r.buffered() == Seq::<u8>::empty(),
            r.fill() == 0,
            r.target() == 0,
    {
        let r = ChunkBuffer {
            queue: VecDeque::with_capacity(16),
            buffer: Vec::with_capacity(1024),
            buffer_fill: 0,
        };
        proof {
            assert(r.buffered() =~= Seq::<u8>::empty());
        }
        r
    }

    /// Appends a chunk to the tail of the queue. An empty chunk is
    /// dropped: pushing it changes nothing at all.
    pub fn push(&mut self, chunk: Vec<u8>)
        requires
            old(self).wf(),
        ensures
            final(self).wf(),
            final(self).buffered() == old(self).buffered() + chunk@,
            final(self).fill() == old(self).fill(),
            final(self).target() == old(self).target(),
            chunk@.len() == 0 ==> *final(self) == *old(self),
    {
        if chunk.is_empty() {
            proof {
                assert(old(self).buffered() + chunk@ =~= old(self).buffered());
            }
            return;
        }
        let ghost q0 = self.queue@;
        let c = Chunk { data: chunk, cursor: 0 };
        proof {
            assert(c.remaining() =~= c.data@);
        }
        self.queue.push_back(c);
        proof {
            lemma_queued_push_back(q0, c, 0);
            assert(self.buffered() =~= old(self).buffered() + c.data@);
        }
    }

    /// Attempts to read exactly `n` bytes out of the queued chunks.
    ///
    /// Returns `None` while fewer than `n` bytes are buffered; whatever was
    /// gathered so far stays put, so no byte is ever lost to an
    /// unsatisfied read. On success the `n` bytes are consumed: an
    /// immediate second call sees only the bytes after them, never the
    /// same bytes again.
    ///
    /// A read in progress must be retried with the same `n` until it
    /// succeeds; re-targeting mid-read would corrupt the gathered bytes,
    /// so it is ruled out by precondition.
    pub fn try_read(&mut self, n: usize) -> (r: Option<&[u8]>)
        requires
            old(self).wf(),
            old(self).fill() == 0 || old(self).target() == n,
        ensures
            final(self).wf(),
            final(self).target() == n,
            old(self).buffered().len() >= n ==> {
                &&& r matches Some(s) && s@ == old(self).buffered().take(n as int)
                &&& final(self).buffered() == old(self).buffered().skip(n as int)
                &&& final(self).fill() == 0
            },
            old(self).buffered().len() < n ==> {
                &&& r is None
                &&& final(self).buffered() == old(self).buffered()
                &&& final(self).fill() == old(self).buffered().len()
            },
    {
        // Resize the scratch buffer if the target has changed; by
        // precondition no read is in progress then.
        if self.buffer.len() != n {
            self.buffer.resize(n, 0u8);
            proof {
                assert(self.buffered() =~= old(self).buffered());
            }
        }

        // Copy bytes from the front of the queue until the scratch buffer
        // is full or the queue is exhausted.
        loop
            invariant
                self.wf(),
                self.buffer@.len() == n,
                self.buffered() == old(self).buffered(),
            ensures
                self.wf(),
                self.buffer@.len() == n,
                self.buffered() == old(self).buffered(),
                self.buffer_fill == n || self.queued().len() == 0,
            decreases n - self.buffer_fill,
        {
            if self.buffer_fill == n {
                break;
            }
            let ghost pre_q = self.queue@;
            let popped = self.queue.pop_front();
            match popped {
                None => {
                    proof {
                        assert(self.queued() =~= Seq::<u8>::empty());
                    }
                    break;
                }
                Some(mut chunk) => {
                    let ghost q_rest = self.queue@;
                    proof {
                        assert(pre_q =~= seq![chunk] + q_rest);
                        lemma_queued_push_front(q_rest, chunk);
                        assert(queued_from(pre_q, 0) == chunk.remaining() + queued_from(q_rest, 0));
                        assert(self.buffer@.take(self.buffer_fill as int) + chunk.remaining()
                            + self.queued() =~= old(self).buffered());
                    }
                    while self.buffer_fill < n && chunk.cursor < chunk.data.len()
                        invariant
                            self.wf(),
                            chunk.wf(),
                            self.buffer@.len() == n,
                            self.queue@ == q_rest,
                            self.buffer@.take(self.buffer_fill as int) + chunk.remaining()
                                + self.queued() == old(self).buffered(),
                        decreases chunk.data@.len() - chunk.cursor,
                    {
                        let ghost pre_buf = self.buffer@;
                        let ghost pre_fill = self.buffer_fill as int;
                        let ghost pre_rem = chunk.remaining();
                        let b = chunk.data[chunk.cursor];
                        self.buffer[self.buffer_fill] = b;
                        chunk.cursor = chunk.cursor + 1;
                        self.buffer_fill = self.buffer_fill + 1;
                        proof {
                            assert(chunk.remaining() =~= pre_rem.skip(1));
                            assert(self.buffer@.take(self.buffer_fill as int) =~= pre_buf.take(
                                pre_fill,
                            ).push(b));
                            assert(pre_rem[0] == b);
                            assert(self.buffer@.take(self.buffer_fill as int) + chunk.remaining()
                                =~= pre_buf.take(pre_fill) + pre_rem);
                            assert(self.buffer@.take(self.buffer_fill as int) + chunk.remaining()
                                + self.queued() =~= pre_buf.take(pre_fill) + pre_rem
                                + self.queued());
                        }
                    }
                    if !is_chunk_empty(&chunk) {
                        let ghost q_before = self.queue@;
                        self.queue.push_front(chunk);
                        proof {
                            lemma_queued_push_front(q_before, chunk);
                            assert(self.buffered() =~= old(self).buffered());
                        }
                    } else {
                        proof {
                            assert(chunk.remaining() =~= Seq::<u8>::empty());
                            assert(self.buffered() =~= old(self).buffered());
                        }
                    }
                }
            }
        }

        if self.buffer_fill == n {
            // Reset the fill count so that a later read of the same size
            // does not replay these bytes.
            self.buffer_fill = 0;
            proof {
                assert(old(self).buffered().take(n as int) =~= self.buffer@);
                assert(self.buffered() =~= old(self).buffered().skip(n as int));
            }
            Some(self.buffer.as_slice())
        } else {
            proof {
                assert(self.buffered() =~= self.buffer@.take(self.buffer_fill as int));
                assert(old(self).buffered().len() < n);
            }
            None
        }
    }
}

/// No data loss across partial reads. A read that comes up short returns
/// nothing and leaves `buffered()` exactly as it was (the ensures of
/// [`ChunkBuffer::try_read`]), and a push only ever appends (the ensures
/// of [`ChunkBuffer::push`]); so once enough bytes have arrived
/// cumulatively, the successful read hands back the original bytes as an
/// untouched prefix, followed by the newly arrived ones.
pub proof fn lemma_no_data_loss(buffered: Seq<u8>, more: Seq<u8>, n: int)
    requires
        0 <= buffered.len() < n,
        buffered.len() + more.len() >= n,
    ensures
        (buffered + more).take(n) == buffered + more.take(n - buffered.len()),
{
    assert((buffered + more).take(n) =~= buffered + more.take(n - buffered.len()));
}

/// No replay. A successful read of `n` bytes consumes them: `buffered()`
/// afterwards holds exactly the bytes past the first `n` (the ensures of
/// [`ChunkBuffer::try_read`]). So an immediate second read of the same
/// `n`, with nothing pushed in between, reports "not yet" whenever fewer
/// than `2n` bytes had been buffered; and even when enough remain, what it
/// returns are the bytes from `n` to `2n` — never the first `n` again.
pub proof fn lemma_no_replay(buffered: Seq<u8>, n: int)
    requires
        0 <= n <= buffered.len(),
    ensures
        (buffered.skip(n).len() < n) <==> (buffered.len() < 2 * n),
        buffered.len() >= 2 * n ==> buffered.skip(n).take(n) == buffered.subrange(n, 2 * n),
{
    if buffered.len() >= 2 * n {
        assert(buffered.skip(n).take(n) =~= buffered.subrange(n, 2 * n));
    }
}

} // verus!
