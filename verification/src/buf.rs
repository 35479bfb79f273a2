//! Fixed-capacity byte buffers and the double-buffer state shared between
//! producers and the writer.

use vstd::prelude::*;

verus! {

/// A byte buffer of fixed capacity `N`: appends copy bytes in until the
/// capacity is reached and silently drops the rest.
pub struct FixedBuffer<const N: usize> {
    data: Vec<u8>,
}

impl<const N: usize> View for FixedBuffer<N> {
    type V = Seq<u8>;

    closed spec fn view(&self) -> Seq<u8> {
        self.data@
    }
}

impl<const N: usize> FixedBuffer<N> {
    /// The buffer never holds more than its fixed capacity.
    pub open spec fn wf(&self) -> bool {
        self@.len() <= N
    }

    /// An empty buffer with all of its capacity still free.
    pub fn new() -> (r: Self)
        ensures
            r@ == Seq::<u8>::empty(),
            r.wf(),
    {
        FixedBuffer { data: Vec::with_capacity(N) }
    }

    /// Read-only access to the bytes written so far.
    pub fn data(&self) -> (r: &Vec<u8>)
        ensures
            r@ == self@,
    {
        &self.data
    }

    /// Remaining capacity: always exactly `N` minus the bytes used.
    pub fn avail(&self) -> (r: usize)
        requires
            self.wf(),
        ensures
            r == N - self@.len(),
    {
        N - self.data.len()
    }

    /// Copies in as much of `buf` as fits and returns the number of bytes
    /// accepted: the excess is dropped, never split into another buffer.
    pub fn append(&mut self, buf: &[u8]) -> (n: usize)
        requires
            old(self).wf(),
        ensures
            n == if buf@.len() <= N - old(self)@.len() {
                buf@.len() as int
            } else {
                N - old(self)@.len()
            },
            final(self)@ == old(self)@ + buf@.subrange(0, n as int),
            final(self).wf(),
    {
        let room = N - self.data.len();
        let n = if buf.len() < room {
            buf.len()
        } else {
            room
        };
        let mut i: usize = 0;
        while i < n
            invariant
                i <= n,
                n <= buf@.len(),
                self@ == old(self)@ + buf@.subrange(0, i as int),
                old(self)@.len() + n <= N,
            decreases n - i,
        {
            self.data.push(buf[i]);
            proof {
                assert(self@ == old(self)@ + buf@.subrange(0, i + 1));
            }
            i = i + 1;
        }
        n
    }
}

/// `line` cut down to what a buffer of capacity `cap` can accept.
pub open spec fn truncated(line: Seq<u8>, cap: nat) -> Seq<u8> {
    if line.len() <= cap {
        line
    } else {
        line.take(cap as int)
    }
}

/// A buffer holds at most its capacity, so the remaining room `avail`
/// reports is never negative: used plus free is exactly `N`.
pub proof fn lemma_buffer_within_capacity<const N: usize>(b: FixedBuffer<N>)
    requires
        b.wf(),
    ensures
        b@.len() <= N,
        N - b@.len() >= 0,
{
}

/// The bytes a whole run of appends leaves behind: each line cut to
/// capacity, in append order.
pub open spec fn concat_truncated(lines: Seq<Seq<u8>>, cap: nat) -> Seq<u8>
    decreases lines.len(),
{
    if lines.len() == 0 {
        Seq::<u8>::empty()
    } else {
        truncated(lines[0], cap) + concat_truncated(lines.drop_first(), cap)
    }
}

/// The sum of the truncated lengths of a run of lines.
pub open spec fn total_truncated(lines: Seq<Seq<u8>>, cap: nat) -> nat
    decreases lines.len(),
{
    if lines.len() == 0 {
        0
    } else {
        truncated(lines[0], cap).len() + total_truncated(lines.drop_first(), cap)
    }
}

/// For any run of appends, the byte count of everything retained — and so,
/// once drained, of everything written — is exactly the sum of the lines'
/// lengths truncated to the buffer capacity: long lines are cut, never
/// dropped, and nothing is written twice.
pub proof fn lemma_total_bytes(lines: Seq<Seq<u8>>, cap: nat)
    ensures
        concat_truncated(lines, cap).len() == total_truncated(lines, cap),
    decreases lines.len(),
{
    if lines.len() > 0 {
        lemma_total_bytes(lines.drop_first(), cap);
    }
}

/// One more append extends the run's bytes by exactly that line, truncated:
/// together with the conservation clause of `DoubleBuffer::append`, a run
/// of appends buffers `concat_truncated` of its lines.
pub proof fn lemma_concat_truncated_push(lines: Seq<Seq<u8>>, line: Seq<u8>, cap: nat)
    ensures
        concat_truncated(lines.push(line), cap) == concat_truncated(lines, cap) + truncated(
            line,
            cap,
        ),
    decreases lines.len(),
{
    if lines.len() == 0 {
        assert(lines.push(line)[0] == line);
        assert(lines.push(line).drop_first() =~= Seq::<Seq<u8>>::empty());
        assert(concat_truncated(Seq::<Seq<u8>>::empty(), cap) == Seq::<u8>::empty());
        assert(concat_truncated(lines.push(line), cap) =~= concat_truncated(lines, cap)
            + truncated(line, cap));
    } else {
        assert(lines.push(line)[0] == lines[0]);
        assert(lines.push(line).drop_first() =~= lines.drop_first().push(line));
        lemma_concat_truncated_push(lines.drop_first(), line, cap);
        assert(concat_truncated(lines.push(line), cap) =~= concat_truncated(lines, cap)
            + truncated(line, cap));
    }
}

/// The buffered bytes after a whole run of appends: starting from bytes
/// `b`, each line of `lines` is appended in order, each append extending
/// the buffered bytes by the line cut to capacity — exactly the transition
/// that `DoubleBuffer::append` (and the engine's `append` over it) ensures
/// for every single call.
pub open spec fn buffered_after_run(b: Seq<u8>, lines: Seq<Seq<u8>>, cap: nat) -> Seq<u8>
    decreases lines.len(),
{
    if lines.len() == 0 {
        b
    } else {
        buffered_after_run(b + truncated(lines[0], cap), lines.drop_first(), cap)
    }
}

/// The whole-run law, by induction over the run: any sequence of appends
/// leaves behind exactly the concatenation of its lines truncated to
/// capacity, and so — once a drain or a stop moves the buffered bytes to
/// the output unchanged — the total byte count written is exactly the sum
/// of the truncated line lengths.
pub proof fn lemma_run_total_bytes(b: Seq<u8>, lines: Seq<Seq<u8>>, cap: nat)
    ensures
        buffered_after_run(b, lines, cap) == b + concat_truncated(lines, cap),
        buffered_after_run(b, lines, cap).len() == b.len() + total_truncated(lines, cap),
    decreases lines.len(),
{
    if lines.len() == 0 {
        assert(buffered_after_run(b, lines, cap) =~= b + concat_truncated(lines, cap));
    } else {
        lemma_run_total_bytes(b + truncated(lines[0], cap), lines.drop_first(), cap);
        assert((b + truncated(lines[0], cap)) + concat_truncated(lines.drop_first(), cap) =~= b
            + (truncated(lines[0], cap) + concat_truncated(lines.drop_first(), cap)));
    }
    lemma_total_bytes(lines, cap);
}

/// The byte contents of a sequence of buffers, in order.
pub open spec fn buffer_views<const N: usize>(bufs: Seq<FixedBuffer<N>>) -> Seq<Seq<u8>> {
    bufs.map_values(|b: FixedBuffer<N>| b@)
}

/// How many pending buffers the queue is sized for before it regrows.
pub const INITIAL_BUFFERS_NUM: usize = 16;

/// The state shared between producers and the writer: the buffer taking
/// appends, an optional pre-allocated spare, and the queue of sealed buffers
/// awaiting write, in seal order. The caller serialises access (one mutex in
/// a threaded deployment); this type carries the data and the transitions.
pub struct DoubleBuffer<const N: usize> {
    curr_buffer: FixedBuffer<N>,
    next_buffer: Option<FixedBuffer<N>>,
    buffers: Vec<FixedBuffer<N>>,
}

impl<const N: usize> DoubleBuffer<N> {
    /// Bytes in the buffer currently receiving appends.
    pub closed spec fn curr_view(&self) -> Seq<u8> {
        self.curr_buffer@
    }

    /// Contents of the sealed buffers awaiting write, in seal order.
    pub closed spec fn pending_views(&self) -> Seq<Seq<u8>> {
        buffer_views(self.buffers@)
    }

    /// Whether a spare buffer is held in reserve for the next seal.
    pub closed spec fn spare_present(&self) -> bool {
        self.next_buffer is Some
    }

    /// Every byte accepted and not yet handed to the writer: the sealed
    /// buffers in seal order, then the current buffer.
    pub open spec fn buffered(&self) -> Seq<u8> {
        self.pending_views().flatten() + self.curr_view()
    }

    /// The spare is empty whenever present, and no buffer exceeds capacity.
    pub closed spec fn wf(&self) -> bool {
        &&& self.curr_buffer.wf()
        &&& match self.next_buffer {
            Some(b) => b@.len() == 0,
            None => true,
        }
        &&& forall|i: int|
            0 <= i < self.buffers@.len() ==> (#[trigger] self.buffers@[i]).wf()
    }

    /// The initial state: an empty current buffer, no spare yet, nothing
    /// pending.
    pub fn default() -> (r: Self)
        ensures
            r.curr_view() == Seq::<u8>::empty(),
            !r.spare_present(),
            r.pending_views() == Seq::<Seq<u8>>::empty(),
            r.buffered() == Seq::<u8>::empty(),
            r.wf(),
    {
        let r = DoubleBuffer {
            curr_buffer: FixedBuffer::new(),
            next_buffer: None,
            buffers: Vec::with_capacity(INITIAL_BUFFERS_NUM),
        };
        proof {
            assert(r.pending_views() =~= Seq::<Seq<u8>>::empty());
            assert(r.buffered() =~= Seq::<u8>::empty());
        }
        r
    }

    /// How many sealed buffers await the writer.
    pub fn pending_count(&self) -> (r: usize)
        ensures
            r == self.pending_views().len(),
    {
        self.buffers.len()
    }

    /// The producer-side append: if the line fits in the current buffer it
    /// goes there in place; otherwise the current buffer is sealed onto the
    /// pending queue, the spare (or a fresh allocation) takes its place, and
    /// the line goes into that empty buffer, cut to capacity. Returns whether
    /// a seal happened, so the caller knows to signal the writer.
    pub fn append(&mut self, line: &[u8]) -> (sealed: bool)
        requires
            old(self).wf(),
        ensures
            final(self).wf(),
            sealed == (line@.len() > N - old(self).curr_view().len()),
            !sealed ==> {
                &&& final(self).curr_view() == old(self).curr_view() + line@
                &&& final(self).pending_views() == old(self).pending_views()
                &&& final(self).spare_present() == old(self).spare_present()
            },
            sealed ==> {
                &&& final(self).pending_views() == old(self).pending_views().push(
                    old(self).curr_view(),
                )
                &&& final(self).curr_view() == truncated(line@, N as nat)
                &&& !final(self).spare_present()
            },
            final(self).buffered() == old(self).buffered() + truncated(line@, N as nat),
    {
        broadcast use vstd::prelude::Seq::lemma_flatten_push;

        let sz = line.len();
        let room = self.curr_buffer.avail();
        if sz <= room {
            self.curr_buffer.append(line);
            proof {
                assert(line@.subrange(0, sz as int) =~= line@);
                assert(truncated(line@, N as nat) == line@);
                assert(self.buffered() =~= old(self).buffered() + line@);
            }
            false
        } else {
            let mut fresh = match self.next_buffer.take() {
                Some(b) => b,
                None => FixedBuffer::new(),
            };
            core::mem::swap(&mut self.curr_buffer, &mut fresh);
            self.buffers.push(fresh);
            self.curr_buffer.append(line);
            proof {
                assert(self.pending_views() =~= old(self).pending_views().push(
                    old(self).curr_view(),
                ));
                assert(self.curr_view() =~= truncated(line@, N as nat));
                assert(self.buffered() =~= old(self).buffered() + truncated(
                    line@,
                    N as nat,
                ));
            }
            true
        }
    }

    /// The writer's locked step: the current buffer is sealed unconditionally
    /// (an empty seal is harmless) and replaced by the caller's first backup;
    /// the whole pending queue is taken in one move; and if the spare is
    /// absent it is refilled from the caller's second backup. Returns the
    /// sealed buffers in seal order, for writing outside the lock.
    pub fn drain(
        &mut self,
        backup1: FixedBuffer<N>,
        backup2: &mut Option<FixedBuffer<N>>,
    ) -> (out: Vec<FixedBuffer<N>>)
        requires
            old(self).wf(),
            backup1@.len() == 0,
            !old(self).spare_present() ==> match *old(backup2) {
                Some(b) => b@.len() == 0,
                None => false,
            },
        ensures
            final(self).wf(),
            buffer_views(out@) == old(self).pending_views().push(old(self).curr_view()),
            buffer_views(out@).flatten() == old(self).buffered(),
            forall|i: int| 0 <= i < out@.len() ==> (#[trigger] out@[i]).wf(),
            final(self).curr_view() == Seq::<u8>::empty(),
            final(self).pending_views() == Seq::<Seq<u8>>::empty(),
            final(self).buffered() == Seq::<u8>::empty(),
            final(self).spare_present(),
            *final(backup2) == if old(self).spare_present() {
                *old(backup2)
            } else {
                None::<FixedBuffer<N>>
            },
    {
        broadcast use vstd::prelude::Seq::lemma_flatten_push;

        let mut retired = backup1;
        core::mem::swap(&mut self.curr_buffer, &mut retired);
        self.buffers.push(retired);
        let mut out: Vec<FixedBuffer<N>> = Vec::new();
        core::mem::swap(&mut self.buffers, &mut out);
        if self.next_buffer.is_none() {
            self.next_buffer = backup2.take();
        }
        proof {
            assert(buffer_views(out@) =~= old(self).pending_views().push(
                old(self).curr_view(),
            ));
            assert(buffer_views(out@).flatten() =~= old(self).buffered());
            assert(self.pending_views() =~= Seq::<Seq<u8>>::empty());
            assert(self.buffered() =~= Seq::<u8>::empty());
        }
        out
    }
}

} // verus!
