//! An asynchronous, buffered log-writing engine: producers append formatted
//! lines without blocking on the sink; a writer drains sealed buffers to a
//! size-rolling output. The buffer exchange, the writer's pass, the startup
//! latch and the rotation policy are all here, with their contracts; a
//! threaded deployment wraps them in a mutex, a condition variable and a
//! real file.

use vstd::prelude::*;

pub mod async_logging;
pub mod buf;
pub mod count_down_latch;
pub mod writer;

verus! {

pub use crate::async_logging::AsyncLogging;
pub use crate::async_logging::LogError;
pub use crate::async_logging::LOG_BUFFER_CAPACITY;

/// How urgent a log line is; `Error` is the most severe. A logger set to
/// some level takes exactly the lines at that severity or worse.
#[derive(Clone, Copy, PartialEq, Eq, Structural, Debug)]
pub enum Level {
    Error,
    Warn,
    Info,
    Debug,
    Trace,
}

impl Level {
    /// The numeric rank of the level: 1 for `Error` through 5 for `Trace`.
    pub open spec fn severity(self) -> nat {
        match self {
            Level::Error => 1,
            Level::Warn => 2,
            Level::Info => 3,
            Level::Debug => 4,
            Level::Trace => 5,
        }
    }

    /// The level of rank `x`, exactly for `x` between 1 and 5.
    pub open spec fn spec_from_u8(x: u8) -> Option<Level> {
        if x == 1 {
            Some(Level::Error)
        } else if x == 2 {
            Some(Level::Warn)
        } else if x == 3 {
            Some(Level::Info)
        } else if x == 4 {
            Some(Level::Debug)
        } else if x == 5 {
            Some(Level::Trace)
        } else {
            None
        }
    }

    /// The numeric rank, for storing a level as a byte.
    pub fn code(&self) -> (r: u8)
        ensures
            r == self.severity(),
    {
        match self {
            Level::Error => 1,
            Level::Warn => 2,
            Level::Info => 3,
            Level::Debug => 4,
            Level::Trace => 5,
        }
    }

    /// Recovers a level from its numeric rank; `None` outside 1 to 5.
    pub fn from_u8(x: u8) -> (r: Option<Level>)
        ensures
            r == Level::spec_from_u8(x),
    {
        match x {
            1 => Some(Level::Error),
            2 => Some(Level::Warn),
            3 => Some(Level::Info),
            4 => Some(Level::Debug),
            5 => Some(Level::Trace),
            _ => None,
        }
    }

    /// The level's name, as it appears in a formatted line.
    pub fn name(&self) -> (r: &'static str)
        ensures
            self is Error ==> r@ == "ERROR"@,
            self is Warn ==> r@ == "WARN"@,
            self is Info ==> r@ == "INFO"@,
            self is Debug ==> r@ == "DEBUG"@,
            self is Trace ==> r@ == "TRACE"@,
    {
        match self {
            Level::Error => "ERROR",
            Level::Warn => "WARN",
            Level::Info => "INFO",
            Level::Debug => "DEBUG",
            Level::Trace => "TRACE",
        }
    }
}

/// A line at `requested` severity passes a logger set to `current`.
pub open spec fn level_enabled(requested: Level, current: Level) -> bool {
    requested.severity() <= current.severity()
}

/// The engine together with the level threshold: `log` appends exactly the
/// lines whose level passes the threshold.
pub struct AsyncLogger {
    logger: AsyncLogging,
    level: Level,
}

impl AsyncLogger {
    /// The engine is sound.
    pub open spec fn wf(&self) -> bool {
        self.engine().wf()
    }

    /// The wrapped engine.
    pub closed spec fn engine(&self) -> AsyncLogging {
        self.logger
    }

    /// The level the threshold is set to.
    pub closed spec fn current_level(&self) -> Level {
        self.level
    }

    /// A fresh logger over a fresh engine, with the threshold at `Info`.
    pub fn new(basename: String, file_size: usize, flush_interval: u64) -> (r: Result<
        AsyncLogger,
        LogError,
    >)
        ensures
            r matches Ok(l) && {
                &&& l.wf()
                &&& l.current_level() == Level::Info
                &&& l.engine().buffered() == Seq::<u8>::empty()
                &&& l.engine().queue().curr_view() == Seq::<u8>::empty()
                &&& l.engine().queue().pending_views() == Seq::<Seq<u8>>::empty()
                &&& !l.engine().queue().spare_present()
                &&& l.engine().sink_model().segments == seq![Seq::<u8>::empty()]
                &&& l.engine().output() == Seq::<u8>::empty()
                &&& l.engine().sink_model().roll_size == file_size
                &&& l.engine().sink_model().written_size == 0
                &&& l.engine().sink_model().flushes == 0
                &&& !l.engine().is_started()
                &&& !l.engine().is_terminated()
                &&& l.engine().flush_interval() == flush_interval
                &&& l.engine().basename() == basename@
            },
    {
        match AsyncLogging::new(basename, file_size, flush_interval) {
            Ok(logger) => Ok(AsyncLogger { logger, level: Level::Info }),
            Err(e) => Err(e),
        }
    }

    /// Blocks until the writer is confirmed running.
    pub fn start(&mut self)
        requires
            old(self).wf(),
        ensures
            final(self).wf(),
            final(self).engine().is_started(),
            final(self).engine().buffered() == old(self).engine().buffered(),
            final(self).engine().sink_model() == old(self).engine().sink_model(),
            final(self).current_level() == old(self).current_level(),
    {
        self.logger.start();
    }

    /// Shuts the writer down after one final drain and flush: everything
    /// appended before this call is in the output afterwards.
    pub fn stop(&mut self)
        requires
            old(self).wf(),
        ensures
            final(self).wf(),
            final(self).engine().is_terminated(),
            final(self).engine().buffered() == Seq::<u8>::empty(),
            final(self).engine().output() == old(self).engine().output() + old(
                self,
            ).engine().buffered(),
            final(self).current_level() == old(self).current_level(),
    {
        self.logger.stop();
    }

    /// Lowers or raises the threshold.
    pub fn set_log_level(&mut self, level: Level)
        ensures
            final(self).current_level() == level,
            final(self).engine() == old(self).engine(),
            final(self).wf() == old(self).wf(),
    {
        self.level = level;
    }

    /// Reads the threshold.
    pub fn get_log_level(&self) -> (r: Level)
        ensures
            r == self.current_level(),
    {
        self.level
    }

    /// Appends `msg` exactly when `level` passes the threshold; a line that
    /// does not pass leaves the logger untouched.
    pub fn log(&mut self, level: Level, msg: String)
        requires
            old(self).wf(),
        ensures
            final(self).wf(),
            final(self).current_level() == old(self).current_level(),
            final(self).engine().sink_model() == old(self).engine().sink_model(),
            level_enabled(level, old(self).current_level()) ==> final(self).engine().buffered()
                == old(self).engine().buffered() + crate::buf::truncated(
                crate::async_logging::line_bytes(msg@),
                LOG_BUFFER_CAPACITY as nat,
            ),
            !level_enabled(level, old(self).current_level()) ==> final(self).engine() == old(
                self,
            ).engine(),
    {
        if level.code() <= self.level.code() {
            self.logger.append(msg);
        }
    }

    /// How many output segments (files) exist so far.
    pub fn output_segment_count(&self) -> (r: usize)
        ensures
            r == self.engine().sink_model().segments.len(),
    {
        self.logger.output_segment_count()
    }

    /// The bytes of output segment `i`, oldest first.
    pub fn output_segment(&self, i: usize) -> (r: &Vec<u8>)
        requires
            i < self.engine().sink_model().segments.len(),
        ensures
            r@ == self.engine().sink_model().segments[i as int],
    {
        self.logger.output_segment(i)
    }

    /// How many flushes the sink has taken.
    pub fn flush_count(&self) -> (r: u64)
        ensures
            r == self.engine().sink_model().flushes,
    {
        self.logger.flush_count()
    }

    /// One writer pass: drain everything buffered to the sink and flush.
    /// A threaded deployment's writer performs this once per wake, whether
    /// the wake came from a seal signal or from the flush interval lapsing.
    pub fn writer_pass(&mut self)
        requires
            old(self).wf(),
        ensures
            final(self).wf(),
            final(self).engine().buffered() == Seq::<u8>::empty(),
            final(self).engine().output() == old(self).engine().output() + old(
                self,
            ).engine().buffered(),
            final(self).engine().sink_model().flushes == if old(
                self,
            ).engine().sink_model().flushes + 1 <= u64::MAX {
                (old(self).engine().sink_model().flushes + 1) as nat
            } else {
                u64::MAX as nat
            },
            final(self).current_level() == old(self).current_level(),
    {
        proof {
            crate::writer::lemma_write_all_output(
                old(self).engine().sink_model(),
                old(self).engine().queue().pending_views().push(
                    old(self).engine().queue().curr_view(),
                ),
            );
        }
        self.logger.writer_pass();
    }
}

} // verus!
