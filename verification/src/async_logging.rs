//! The logging engine: producers append lines into the double buffer, the
//! writer drains sealed buffers into the rolling sink in seal order. The
//! engine here runs the writer's passes as explicit steps; a threaded
//! deployment drives the same transitions from its own writer thread and
//! condition variable.

use vstd::prelude::*;

use crate::buf::{buffer_views, truncated, DoubleBuffer, FixedBuffer};
use crate::count_down_latch::CountDownLatch;
use crate::writer::{RollingSink, SinkModel};
use crate::writer::lemma_write_all_output;

verus! {

/// Capacity of each log buffer, in bytes.
pub const LOG_BUFFER_CAPACITY: usize = 4000000;

/// A buffer of the engine's fixed capacity.
pub type Buffer = FixedBuffer<LOG_BUFFER_CAPACITY>;

/// Why an engine could not be built. The in-memory engine always succeeds;
/// a deployment that opens a real first log file reports its failure here.
#[derive(Clone, Copy, PartialEq, Eq, Structural, Debug)]
pub enum LogError {
    SinkOpen,
}

/// The bytes of `line`, as appended to a buffer.
pub open spec fn line_bytes(line: Seq<char>) -> Seq<u8> {
    vstd::utf8::encode_utf8(line)
}

pub struct AsyncLogging {
    double_buffer: DoubleBuffer<LOG_BUFFER_CAPACITY>,
    latch: CountDownLatch,
    sink: RollingSink,
    backup1: Option<Buffer>,
    backup2: Option<Buffer>,
    started: bool,
    terminated: bool,
    flush_interval: u64,
    basename: String,
}

impl AsyncLogging {
    /// Bytes accepted from producers and not yet handed to the sink.
    pub open spec fn buffered(&self) -> Seq<u8> {
        self.queue().buffered()
    }

    /// The shared double-buffer state.
    pub closed spec fn queue(&self) -> DoubleBuffer<LOG_BUFFER_CAPACITY> {
        self.double_buffer
    }

    /// The sink's abstract state: segments, counters, flushes.
    pub closed spec fn sink_model(&self) -> SinkModel {
        self.sink.model()
    }

    /// Every byte the sink has taken, in write order.
    pub open spec fn output(&self) -> Seq<u8> {
        self.sink_model().output()
    }

    /// Whether `start` has confirmed the writer running.
    pub closed spec fn is_started(&self) -> bool {
        self.started
    }

    /// Whether `stop` has run: no work may follow it.
    pub closed spec fn is_terminated(&self) -> bool {
        self.terminated
    }

    /// The startup latch.
    pub closed spec fn latch(&self) -> CountDownLatch {
        self.latch
    }

    /// The configured idle flush interval, in seconds.
    pub closed spec fn flush_interval(&self) -> u64 {
        self.flush_interval
    }

    /// The base path that names of the log files start from.
    pub closed spec fn basename(&self) -> Seq<char> {
        self.basename@
    }

    /// Both writer-side backup buffers are on hand and empty.
    pub closed spec fn backups_ready(&self) -> bool {
        &&& match self.backup1 {
            Some(b) => b@.len() == 0,
            None => false,
        }
        &&& match self.backup2 {
            Some(b) => b@.len() == 0,
            None => false,
        }
    }

    /// The shared state, the sink and the writer's backups are sound.
    pub open spec fn wf(&self) -> bool {
        &&& self.queue().wf()
        &&& self.sink_model().wf()
        &&& self.backups_ready()
        &&& self.latch().count() <= 1
    }

    /// A fresh engine: empty buffers, an open first segment, the startup
    /// latch still closed. Never fails; a deployment that opens a real file
    /// first reports that failure in place of this result.
    pub fn new(basename: String, roll_size: usize, flush_interval: u64) -> (r: Result<
        Self,
        LogError,
    >)
        ensures
            r matches Ok(l) && {
                &&& l.wf()
                &&& l.buffered() == Seq::<u8>::empty()
                &&& l.queue().curr_view() == Seq::<u8>::empty()
                &&& l.queue().pending_views() == Seq::<Seq<u8>>::empty()
                &&& !l.queue().spare_present()
                &&& l.sink_model().segments == seq![Seq::<u8>::empty()]
                &&& l.output() == Seq::<u8>::empty()
                &&& l.sink_model().roll_size == roll_size
                &&& l.sink_model().written_size == 0
                &&& l.sink_model().flushes == 0
                &&& !l.is_started()
                &&& !l.is_terminated()
                &&& !l.latch().is_open()
                &&& l.flush_interval() == flush_interval
                &&& l.basename() == basename@
            },
    {
        Ok(AsyncLogging {
            double_buffer: DoubleBuffer::default(),
            latch: CountDownLatch::new(1),
            sink: RollingSink::new(roll_size),
            backup1: Some(FixedBuffer::new()),
            backup2: Some(FixedBuffer::new()),
            started: false,
            terminated: false,
            flush_interval,
            basename,
        })
    }

    /// Blocks the owner until the writer is confirmed running; in this
    /// engine the writer is run in place, so the latch is counted down
    /// here and the call returns with the latch open.
    pub fn start(&mut self)
        requires
            old(self).wf(),
        ensures
            final(self).wf(),
            final(self).is_started(),
            final(self).latch().is_open(),
            final(self).is_terminated() == old(self).is_terminated(),
            final(self).buffered() == old(self).buffered(),
            final(self).sink_model() == old(self).sink_model(),
            final(self).flush_interval() == old(self).flush_interval(),
            final(self).basename() == old(self).basename(),
    {
        if !self.latch.wait() {
            self.latch.count_down();
        }
        self.started = true;
    }

    /// The producer side: never blocks on the sink. The line goes into the
    /// current buffer if it fits; otherwise the current buffer is sealed
    /// and the line starts the replacement, cut to the buffer capacity.
    pub fn append(&mut self, line: String)
        requires
            old(self).wf(),
        ensures
            final(self).wf(),
            final(self).buffered() == old(self).buffered() + truncated(
                line_bytes(line@),
                LOG_BUFFER_CAPACITY as nat,
            ),
            ({
                let bytes = line_bytes(line@);
                let sealed = bytes.len() > LOG_BUFFER_CAPACITY
                    - old(self).queue().curr_view().len();
                if sealed {
                    &&& final(self).queue().pending_views() == old(
                        self,
                    ).queue().pending_views().push(old(self).queue().curr_view())
                    &&& final(self).queue().curr_view() == truncated(
                        bytes,
                        LOG_BUFFER_CAPACITY as nat,
                    )
                } else {
                    &&& final(self).queue().pending_views() == old(self).queue().pending_views()
                    &&& final(self).queue().curr_view() == old(self).queue().curr_view() + bytes
                }
            }),
            final(self).sink_model() == old(self).sink_model(),
            final(self).is_started() == old(self).is_started(),
            final(self).is_terminated() == old(self).is_terminated(),
            final(self).latch() == old(self).latch(),
            final(self).flush_interval() == old(self).flush_interval(),
            final(self).basename() == old(self).basename(),
    {
        // A seal is where a threaded deployment signals the writer's
        // condition variable; this engine drains on its explicit passes.
        let _sealed = self.double_buffer.append(line.as_str().as_bytes());
    }

    /// One pass of the writer: seal the current buffer unconditionally (an
    /// empty flush is harmless), take the whole pending queue, write every
    /// sealed buffer to the sink in seal order, refill the backups, flush.
    pub fn writer_pass(&mut self)
        requires
            old(self).wf(),
        ensures
            final(self).wf(),
            final(self).buffered() == Seq::<u8>::empty(),
            final(self).sink_model() == old(self).sink_model().write_all(
                old(self).queue().pending_views().push(old(self).queue().curr_view()),
            ).flushed(),
            final(self).output() == old(self).output() + old(self).buffered(),
            final(self).is_started() == old(self).is_started(),
            final(self).is_terminated() == old(self).is_terminated(),
            final(self).latch() == old(self).latch(),
            final(self).flush_interval() == old(self).flush_interval(),
            final(self).basename() == old(self).basename(),
    {
        let backup1 = match self.backup1.take() {
            Some(b) => b,
            None => FixedBuffer::new(),
        };
        let to_write = self.double_buffer.drain(backup1, &mut self.backup2);
        let ghost writes = buffer_views(to_write@);
        let ghost start_model = self.sink.model();
        let ghost mid = *self;
        let mut i: usize = 0;
        while i < to_write.len()
            invariant
                i <= to_write@.len(),
                self.sink.wf(),
                writes == buffer_views(to_write@),
                self.sink.model() =~~= start_model.write_all(writes.take(i as int)),
                start_model.segments.len() >= 1,
                self.double_buffer == mid.double_buffer,
                self.backup1 == mid.backup1,
                self.backup2 == mid.backup2,
                self.started == mid.started,
                self.terminated == mid.terminated,
                self.latch == mid.latch,
                self.flush_interval == mid.flush_interval,
                self.basename == mid.basename,
            decreases to_write@.len() - i,
        {
            self.sink.append(to_write[i].data().as_slice());
            proof {
                assert(writes.take(i + 1) =~= writes.take(i as int).push(writes[i as int]));
                lemma_write_all_push(start_model, writes.take(i as int), writes[i as int]);
            }
            i = i + 1;
        }
        proof {
            assert(writes.take(to_write@.len() as int) =~= writes);
        }
        if self.backup1.is_none() {
            self.backup1 = Some(FixedBuffer::new());
        }
        if self.backup2.is_none() {
            self.backup2 = Some(FixedBuffer::new());
        }
        self.sink.flush();
        proof {
            lemma_write_all_output(start_model, writes);
        }
    }

    /// Shuts the writer down: one final pass drains everything buffered,
    /// then one last unconditional flush. Nothing appended before this call
    /// is lost.
    pub fn stop(&mut self)
        requires
            old(self).wf(),
        ensures
            final(self).wf(),
            final(self).is_terminated(),
            final(self).buffered() == Seq::<u8>::empty(),
            final(self).output() == old(self).output() + old(self).buffered(),
            final(self).sink_model() == old(self).sink_model().write_all(
                old(self).queue().pending_views().push(old(self).queue().curr_view()),
            ).flushed().flushed(),
            final(self).is_started() == old(self).is_started(),
            final(self).flush_interval() == old(self).flush_interval(),
            final(self).basename() == old(self).basename(),
    {
        self.terminated = true;
        self.writer_pass();
        self.sink.flush();
    }

    /// How many segments (files) the sink has opened so far.
    pub fn output_segment_count(&self) -> (r: usize)
        ensures
            r == self.sink_model().segments.len(),
    {
        self.sink.segment_count()
    }

    /// The bytes that reached segment `i`, oldest segment first.
    pub fn output_segment(&self, i: usize) -> (r: &Vec<u8>)
        requires
            i < self.sink_model().segments.len(),
        ensures
            r@ == self.sink_model().segments[i as int],
    {
        self.sink.segment(i)
    }

    /// How many flushes the sink has taken.
    pub fn flush_count(&self) -> (r: u64)
        ensures
            r == self.sink_model().flushes,
    {
        self.sink.flush_count()
    }
}

/// Extending a run of writes by one more write at its end.
proof fn lemma_write_all_push(s: SinkModel, ws: Seq<Seq<u8>>, w: Seq<u8>)
    ensures
        s.write_all(ws.push(w)) == s.write_all(ws).write(w),
    decreases ws.len(),
{
    if ws.len() == 0 {
        assert(ws.push(w)[0] == w);
        assert(ws.push(w).drop_first() =~= Seq::<Seq<u8>>::empty());
        assert(s.write(w).write_all(Seq::<Seq<u8>>::empty()) == s.write(w));
        assert(s.write_all(ws.push(w)) =~~= s.write_all(ws).write(w));
    } else {
        assert(ws.push(w)[0] == ws[0]);
        assert(ws.push(w).drop_first() =~= ws.drop_first().push(w));
        lemma_write_all_push(s.write(ws[0]), ws.drop_first(), w);
        assert(s.write_all(ws.push(w)) =~~= s.write_all(ws).write(w));
    }
}

} // verus!
