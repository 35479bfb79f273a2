//! The rolling sink: a byte-count rotation policy, the naming of log files,
//! and a sink that applies the policy to a stream of sealed buffers. The
//! file handle itself lives with the caller; everything the sink decides and
//! tracks is here.

use vstd::prelude::*;
use vstd::string::StringExecFns;

verus! {

/// When to start a new log segment: once the bytes written since the last
/// rotation have reached the configured roll size, the next write goes to a
/// fresh segment. The check happens before a write, never mid-write, so a
/// single large write may push a segment past the threshold.
pub struct RollingPolicy {
    roll_size: usize,
    written_size: usize,
}

impl RollingPolicy {
    pub closed spec fn roll_size(&self) -> nat {
        self.roll_size as nat
    }

    /// Bytes written since the last rotation.
    pub closed spec fn written_size(&self) -> nat {
        self.written_size as nat
    }

    /// The next write must go to a fresh segment.
    pub open spec fn must_rotate(&self) -> bool {
        self.written_size() >= self.roll_size()
    }

    pub fn new(roll_size: usize) -> (r: Self)
        ensures
            r.roll_size() == roll_size,
            r.written_size() == 0,
    {
        RollingPolicy { roll_size, written_size: 0 }
    }

    /// Asks whether the write about to happen needs a rotation first.
    pub fn should_rotate(&self) -> (r: bool)
        ensures
            r == self.must_rotate(),
    {
        self.written_size >= self.roll_size
    }

    /// Records a successful rotation: the byte counter starts over. On a
    /// failed rotation the caller keeps its old handle and does not call
    /// this, so the counter keeps growing and the next write tries again.
    pub fn on_rotated(&mut self)
        ensures
            final(self).roll_size() == old(self).roll_size(),
            final(self).written_size() == 0,
    {
        self.written_size = 0;
    }

    /// Advances the byte counter past a write of `len` bytes, whether or not
    /// the write itself succeeded, so later rotation decisions stay
    /// consistent. Saturates at the machine limit rather than wrapping.
    pub fn note_write(&mut self, len: usize)
        ensures
            final(self).roll_size() == old(self).roll_size(),
            final(self).written_size() == if old(self).written_size() + len <= usize::MAX {
                (old(self).written_size() + len) as nat
            } else {
                usize::MAX as nat
            },
    {
        if self.written_size <= usize::MAX - len {
            self.written_size = self.written_size + len;
        } else {
            self.written_size = usize::MAX;
        }
    }
}

/// Relies on chrono's `Local::now` and `DateTime::format`: the local wall
/// clock rendered at second resolution as `%Y%m%d-%H%M%S`. The value depends
/// on the clock at the moment of the call, so only its non-emptiness is
/// promised (the pattern always renders digits and a dash). `Local::now`
/// aborts on a system clock set before the Unix epoch.
#[verifier::external_body]
fn file_stamp() -> (r: String)
    ensures
        r@.len() > 0,
{
    chrono::Local::now().format("%Y%m%d-%H%M%S").to_string()
}

/// The name a log segment is opened under, from a base path and a stamp.
pub open spec fn named_log_file(basename: Seq<char>, stamp: Seq<char>) -> Seq<char> {
    basename + "-"@ + stamp + ".log"@
}

/// Joins the base path, a dash, the stamp and the `.log` ending.
pub fn log_file_name(basename: &str, stamp: &str) -> (r: String)
    ensures
        r@ == named_log_file(basename@, stamp@),
{
    let mut name = basename.to_owned();
    name.append("-");
    name.append(stamp);
    name.append(".log");
    name
}

/// The name for the next segment, stamped from the local clock at second
/// resolution. Two rotations within the same second produce the same name;
/// a deployment that opens files with create-new semantics refuses the
/// second one and keeps its previous handle — a documented limitation.
pub fn next_log_file_name(basename: &str) -> (r: String)
    ensures
        exists|stamp: Seq<char>|
            stamp.len() > 0 && r@ == #[trigger] named_log_file(basename@, stamp),
{
    let stamp = file_stamp();
    log_file_name(basename, stamp.as_str())
}

/// Appends all of `src` to `dst`.
fn extend_bytes(dst: &mut Vec<u8>, src: &[u8])
    ensures
        final(dst)@ == old(dst)@ + src@,
{
    let mut i: usize = 0;
    while i < src.len()
        invariant
            i <= src@.len(),
            dst@ == old(dst)@ + src@.subrange(0, i as int),
        decreases src@.len() - i,
    {
        dst.push(src[i]);
        proof {
            assert(dst@ =~= old(dst)@ + src@.subrange(0, i + 1));
        }
        i = i + 1;
    }
    proof {
        assert(dst@ =~= old(dst)@ + src@);
    }
}

/// The abstract state of a rolling sink: what was written into which
/// segment, the policy counters, and how often it was flushed.
#[verifier::ext_equal]
pub struct SinkModel {
    pub roll_size: nat,
    pub written_size: nat,
    pub segments: Seq<Seq<u8>>,
    pub flushes: nat,
}

impl SinkModel {
    /// There is a live segment, and the byte counter never exceeds its
    /// length: everything counted since the last rotation went into it, so
    /// a segment rotated away holds at least the roll size.
    pub open spec fn wf(self) -> bool {
        &&& self.segments.len() >= 1
        &&& self.written_size <= self.segments.last().len()
    }

    /// Every byte taken, across all segments, in write order.
    pub open spec fn output(self) -> Seq<u8> {
        self.segments.flatten()
    }

    /// One write of `data`: a fresh segment first if the counter has reached
    /// the roll size, then the bytes and the counter advance.
    pub open spec fn write(self, data: Seq<u8>) -> SinkModel {
        let rotated = self.written_size >= self.roll_size;
        let segs = if rotated {
            self.segments.push(data)
        } else {
            self.segments.update(self.segments.len() - 1, self.segments.last() + data)
        };
        let base: nat = if rotated {
            0
        } else {
            self.written_size
        };
        SinkModel {
            roll_size: self.roll_size,
            written_size: if base + data.len() <= usize::MAX {
                (base + data.len()) as nat
            } else {
                usize::MAX as nat
            },
            segments: segs,
            flushes: self.flushes,
        }
    }

    /// A run of writes, oldest first.
    pub open spec fn write_all(self, writes: Seq<Seq<u8>>) -> SinkModel
        decreases writes.len(),
    {
        if writes.len() == 0 {
            self
        } else {
            self.write(writes[0]).write_all(writes.drop_first())
        }
    }

    /// One flush: only the counter moves.
    pub open spec fn flushed(self) -> SinkModel {
        SinkModel {
            flushes: if self.flushes + 1 <= u64::MAX {
                (self.flushes + 1) as nat
            } else {
                u64::MAX as nat
            },
            ..self
        }
    }
}

/// A write adds exactly its bytes to the overall output.
pub proof fn lemma_write_output(s: SinkModel, data: Seq<u8>)
    requires
        s.segments.len() >= 1,
    ensures
        s.write(data).output() == s.output() + data,
        s.write(data).segments.len() >= 1,
{
    broadcast use vstd::prelude::Seq::lemma_flatten_push;

    if s.written_size >= s.roll_size {
        assert(s.write(data).output() =~= s.output() + data);
    } else {
        lemma_flatten_update_last(s.segments, data);
    }
}

/// A run of writes adds exactly its bytes, in order: sealed buffers reach
/// the output in seal order and nothing else comes between them.
pub proof fn lemma_write_all_output(s: SinkModel, writes: Seq<Seq<u8>>)
    requires
        s.segments.len() >= 1,
    ensures
        s.write_all(writes).output() == s.output() + writes.flatten(),
        s.write_all(writes).segments.len() >= 1,
        s.write_all(writes).roll_size == s.roll_size,
        s.write_all(writes).flushes == s.flushes,
    decreases writes.len(),
{
    if writes.len() == 0 {
        assert(s.write_all(writes).output() =~= s.output() + writes.flatten());
    } else {
        lemma_write_output(s, writes[0]);
        lemma_write_all_output(s.write(writes[0]), writes.drop_first());
        assert(writes =~= seq![writes[0]] + writes.drop_first());
        assert((seq![writes[0]] + writes.drop_first()).flatten() == seq![writes[0]].flatten()
            + writes.drop_first().flatten()) by {
            vstd::seq_lib::lemma_flatten_concat(seq![writes[0]], writes.drop_first());
        }
        assert(seq![writes[0]].flatten() =~= writes[0]) by {
            broadcast use vstd::prelude::Seq::lemma_flatten_singleton;

        }
        assert(s.write_all(writes).output() =~= s.output() + writes.flatten());
    }
}

/// The sink a writer drains into: an ordered run of segments, each standing
/// for one log file, rolled by the byte-count policy. The bytes of every
/// write are kept, in order, so what reached each segment is exactly
/// recorded; a deployment that owns a real file hands each write to its
/// handle and keeps only the policy.
pub struct RollingSink {
    policy: RollingPolicy,
    segments: Vec<Vec<u8>>,
    flush_count: u64,
}

impl RollingSink {
    /// The contents of each segment, oldest first.
    pub closed spec fn segment_views(&self) -> Seq<Seq<u8>> {
        self.segments@.map_values(|s: Vec<u8>| s@)
    }

    /// Every byte the sink has taken, across all segments, in write order.
    pub open spec fn output(&self) -> Seq<u8> {
        self.segment_views().flatten()
    }

    pub closed spec fn roll_size(&self) -> nat {
        self.policy.roll_size()
    }

    /// Bytes in the live segment since the last rotation.
    pub closed spec fn written_size(&self) -> nat {
        self.policy.written_size()
    }

    /// The next write opens a fresh segment first.
    pub open spec fn must_rotate(&self) -> bool {
        self.written_size() >= self.roll_size()
    }

    /// How many times the sink has been flushed.
    pub closed spec fn flushes(&self) -> nat {
        self.flush_count as nat
    }

    /// There is always a live segment to write into, and the byte counter
    /// is covered by it.
    pub open spec fn wf(&self) -> bool {
        self.model().wf()
    }

    /// The whole abstract state in one value.
    pub open spec fn model(&self) -> SinkModel {
        SinkModel {
            roll_size: self.roll_size(),
            written_size: self.written_size(),
            segments: self.segment_views(),
            flushes: self.flushes(),
        }
    }

    /// A sink with its first segment open and nothing written.
    pub fn new(roll_size: usize) -> (r: Self)
        ensures
            r.wf(),
            r.roll_size() == roll_size,
            r.written_size() == 0,
            r.flushes() == 0,
            r.segment_views() == seq![Seq::<u8>::empty()],
            r.output() == Seq::<u8>::empty(),
    {
        let mut segments: Vec<Vec<u8>> = Vec::new();
        segments.push(Vec::new());
        let r = RollingSink { policy: RollingPolicy::new(roll_size), segments, flush_count: 0 };
        proof {
            broadcast use vstd::prelude::Seq::lemma_flatten_singleton;

            assert(r.segment_views() =~= seq![Seq::<u8>::empty()]);
            assert(r.output() =~= Seq::<u8>::empty());
        }
        r
    }

    /// Number of segments so far (files a deployment would have opened).
    pub fn segment_count(&self) -> (r: usize)
        ensures
            r == self.segment_views().len(),
    {
        self.segments.len()
    }

    /// How many flushes the sink has taken so far.
    pub fn flush_count(&self) -> (r: u64)
        ensures
            r == self.flushes(),
    {
        self.flush_count
    }

    /// The bytes of segment `i`, oldest segment first.
    pub fn segment(&self, i: usize) -> (r: &Vec<u8>)
        requires
            i < self.segment_views().len(),
        ensures
            r@ == self.segment_views()[i as int],
    {
        &self.segments[i]
    }

    /// Takes one write: rotates first if the policy says so, then appends
    /// the whole of `data` to the live segment and advances the counter.
    /// Returns whether a rotation happened.
    pub fn append(&mut self, data: &[u8]) -> (rotated: bool)
        requires
            old(self).wf(),
        ensures
            final(self).wf(),
            rotated == old(self).must_rotate(),
            final(self).roll_size() == old(self).roll_size(),
            final(self).flushes() == old(self).flushes(),
            rotated ==> final(self).segment_views() == old(self).segment_views().push(data@),
            rotated ==> old(self).segment_views().last().len() >= old(self).roll_size(),
            !rotated ==> final(self).segment_views() == old(self).segment_views().update(
                old(self).segment_views().len() - 1,
                old(self).segment_views().last() + data@,
            ),
            final(self).written_size() == {
                let base: nat = if rotated {
                    0
                } else {
                    old(self).written_size()
                };
                if base + data@.len() <= usize::MAX {
                    (base + data@.len()) as nat
                } else {
                    usize::MAX as nat
                }
            },
            final(self).output() == old(self).output() + data@,
            final(self).model() =~~= old(self).model().write(data@),
    {
        broadcast use vstd::prelude::Seq::lemma_flatten_push;

        let rotated = self.policy.should_rotate();
        if rotated {
            self.segments.push(Vec::new());
            self.policy.on_rotated();
        }
        let ghost mid_views = self.segment_views();
        let mut live: Vec<u8> = match self.segments.pop() {
            Some(v) => v,
            None => Vec::new(),
        };
        extend_bytes(&mut live, data);
        self.segments.push(live);
        self.policy.note_write(data.len());
        proof {
            assert(self.segment_views() =~= mid_views.update(
                mid_views.len() - 1,
                mid_views.last() + data@,
            ));
            if rotated {
                assert(mid_views =~= old(self).segment_views().push(Seq::<u8>::empty()));
                assert(self.segment_views() =~= old(self).segment_views().push(data@));
                assert(self.output() =~= old(self).output() + data@);
            } else {
                assert(mid_views == old(self).segment_views());
                lemma_flatten_update_last(old(self).segment_views(), data@);
                assert(self.output() =~= old(self).output() + data@);
            }
        }
        rotated
    }

    /// Forces a flush of the live segment; in this sink that is the
    /// bookkeeping alone, counted so a caller can observe that idle passes
    /// still flush.
    pub fn flush(&mut self)
        ensures
            final(self).segment_views() == old(self).segment_views(),
            final(self).output() == old(self).output(),
            final(self).roll_size() == old(self).roll_size(),
            final(self).written_size() == old(self).written_size(),
            final(self).wf() == old(self).wf(),
            final(self).flushes() == if old(self).flushes() + 1 <= u64::MAX {
                old(self).flushes() + 1
            } else {
                u64::MAX as nat
            },
    {
        if self.flush_count < u64::MAX {
            self.flush_count = self.flush_count + 1;
        }
    }
}

/// Replacing the last piece of a concatenation with a longer one appends
/// exactly the added bytes to the whole.
proof fn lemma_flatten_update_last(views: Seq<Seq<u8>>, extra: Seq<u8>)
    requires
        views.len() >= 1,
    ensures
        views.update(views.len() - 1, views.last() + extra).flatten() == views.flatten() + extra,
{
    broadcast use vstd::prelude::Seq::lemma_flatten_push;

    let updated = views.update(views.len() - 1, views.last() + extra);
    assert(updated =~= updated.drop_last().push(updated.last()));
    assert(views =~= views.drop_last().push(views.last()));
    assert(updated.drop_last() =~= views.drop_last());
    assert(updated.drop_last().push(updated.last()).flatten() == updated.drop_last().flatten()
        + updated.last());
    assert(views.drop_last().push(views.last()).flatten() == views.drop_last().flatten()
        + views.last());
    assert(views.drop_last().flatten() + (views.last() + extra) =~= (views.drop_last().flatten()
        + views.last()) + extra);
}

} // verus!
