//! Bounded FIFO buffers of interleaved samples between a producer (the
//! decoder) and a consumer (the output device).
//!
//! Pushes are cut to whole frames; when a push does not fit, the oldest
//! samples are dropped so that the buffer keeps the newest `capacity`
//! samples, and an overflow is counted.

use std::collections::VecDeque;

use vstd::prelude::*;

verus! {

broadcast use vstd::std_specs::vecdeque::group_vec_dequeue_axioms;

/// The newest `cap` elements of `s` (all of `s` when it is not longer).
pub open spec fn keep_newest<T>(s: Seq<T>, cap: int) -> Seq<T> {
    if s.len() <= cap {
        s
    } else {
        s.subrange(s.len() - cap, s.len() as int)
    }
}

/// The longest prefix of `s` made of whole frames of `channels` samples.
pub open spec fn whole_frames<T>(s: Seq<T>, channels: int) -> Seq<T> {
    s.take((s.len() as int) / channels * channels)
}

/// Capacity in samples for `capacity_ms` milliseconds at `rate` frames per
/// second: at least one frame, and never below `channels`.
pub open spec fn ring_capacity(rate: int, channels: int, capacity_ms: int) -> int {
    let frames = (rate * capacity_ms) / 1000;
    let frames = if frames < 1 {
        1
    } else {
        frames
    };
    let frames = (frames as u64) as usize as int;
    let samples = if frames * channels > usize::MAX {
        usize::MAX as int
    } else {
        frames * channels
    };
    if samples < channels {
        channels
    } else {
        samples
    }
}

/// Whether pushing `incoming` samples (already cut to whole frames) into a
/// buffer holding `held` of `cap` counts as an overflow: it does exactly
/// when the push drops samples.
pub open spec fn push_overflows(held: int, incoming: int, cap: int) -> bool {
    held + incoming > cap
}

/// Whether pushing `incoming` DoP words (already cut to whole frames) into
/// a buffer holding `held` of `cap` counts as an overflow of the DoP
/// buffer: a push of at least the whole capacity always counts, even into
/// an empty buffer, and so does any push that drops words.
pub open spec fn dop_push_overflows(held: int, incoming: int, cap: int) -> bool {
    incoming > 0 && (incoming >= cap || held + incoming > cap)
}

/// A bounded FIFO of interleaved samples.
pub struct SampleRing<T> {
    channels: usize,
    capacity_samples: usize,
    buf: VecDeque<T>,
    underrun_count: u64,
    overflow_count: u64,
}

impl<T> SampleRing<T> {
    #[verifier::type_invariant]
    closed spec fn inv(self) -> bool {
        &&& self.channels >= 1
        &&& self.capacity_samples >= self.channels
        &&& self.buf@.len() <= self.capacity_samples
    }
}

impl<T: Copy> SampleRing<T> {
    /// Move the held samples out, leaving the buffer empty.
    fn take_buf(&mut self) -> (b: VecDeque<T>)
        ensures
            b@ == old(self).buf@,
            final(self).buf@ == Seq::<T>::empty(),
            final(self).channels == old(self).channels,
            final(self).capacity_samples == old(self).capacity_samples,
            final(self).underrun_count == old(self).underrun_count,
            final(self).overflow_count == old(self).overflow_count,
            b@.len() <= old(self).capacity_samples,
            old(self).channels >= 1,
            old(self).capacity_samples >= old(self).channels,
    {
        proof {
            use_type_invariant(&*self);
        }
        let mut tmp = SampleRing {
            channels: self.channels,
            capacity_samples: self.capacity_samples,
            buf: VecDeque::new(),
            underrun_count: self.underrun_count,
            overflow_count: self.overflow_count,
        };
        std::mem::swap(self, &mut tmp);
        let SampleRing { buf, .. } = tmp;
        buf
    }

    /// Samples held, oldest first.
    pub closed spec fn contents(&self) -> Seq<T> {
        self.buf@
    }

    pub closed spec fn spec_channels(&self) -> int {
        self.channels as int
    }

    /// Capacity in samples.
    pub closed spec fn spec_capacity(&self) -> int {
        self.capacity_samples as int
    }

    pub closed spec fn spec_underruns(&self) -> int {
        self.underrun_count as int
    }

    pub closed spec fn spec_overflows(&self) -> int {
        self.overflow_count as int
    }

    /// Channels are at least one, the capacity holds at least a frame, and
    /// the buffer never holds more than its capacity.
    pub fn assert_wf(&self)
        ensures
            self.spec_channels() >= 1,
            self.spec_capacity() >= self.spec_channels(),
            self.contents().len() <= self.spec_capacity(),
    {
        proof {
            use_type_invariant(self);
        }
    }

    /// A buffer for about `capacity_ms` of audio at `rate` frames per second.
    /// Zero channels are treated as one.
    pub fn new(rate: u32, channels: usize, capacity_ms: u32) -> (r: Self)
        ensures
            r.spec_channels() == if channels == 0 {
                1
            } else {
                channels as int
            },
            r.spec_capacity() == ring_capacity(rate as int, r.spec_channels(), capacity_ms as int),
            r.contents() == Seq::<T>::empty(),
            r.spec_underruns() == 0,
            r.spec_overflows() == 0,
    {
        let channels: usize = if channels == 0 {
            1
        } else {
            channels
        };
        assert((rate as int) * (capacity_ms as int) <= u64::MAX) by (nonlinear_arith)
            requires
                rate <= u32::MAX,
                capacity_ms <= u32::MAX,
        ;
        let frames: u64 = (rate as u64 * capacity_ms as u64) / 1000;
        let frames: u64 = if frames < 1 {
            1
        } else {
            frames
        };
        let capacity_frames = frames as usize;
        let samples = match capacity_frames.checked_mul(channels) {
            Some(v) => v,
            None => usize::MAX,
        };
        let capacity_samples = if samples < channels {
            channels
        } else {
            samples
        };
        SampleRing {
            channels,
            capacity_samples,
            buf: VecDeque::new(),
            underrun_count: 0,
            overflow_count: 0,
        }
    }

    pub fn channels(&self) -> (c: usize)
        ensures
            c == self.spec_channels(),
    {
        self.channels
    }

    pub fn underrun_count(&self) -> (c: u64)
        ensures
            c == self.spec_underruns(),
    {
        self.underrun_count
    }

    pub fn overflow_count(&self) -> (c: u64)
        ensures
            c == self.spec_overflows(),
    {
        self.overflow_count
    }

    /// Capacity in whole frames.
    pub fn capacity_frames(&self) -> (f: usize)
        ensures
            f == self.spec_capacity() / self.spec_channels(),
    {
        proof {
            use_type_invariant(self);
        }
        self.capacity_samples / self.channels
    }

    /// Capacity in samples.
    pub fn capacity_samples(&self) -> (n: usize)
        ensures
            n == self.spec_capacity(),
    {
        self.capacity_samples
    }

    /// Whole frames currently held.
    pub fn available_frames(&self) -> (f: usize)
        ensures
            f == (self.contents().len() as int) / self.spec_channels(),
    {
        proof {
            use_type_invariant(self);
        }
        self.buf.len() / self.channels
    }

    /// Number of samples currently held.
    pub fn len(&self) -> (n: usize)
        ensures
            n == self.contents().len(),
    {
        self.buf.len()
    }

    /// Append the whole frames of `samples`; on overflow keep only the newest
    /// `capacity` samples and count one overflow.
    pub fn push(&mut self, samples: &[T])
        requires
            push_overflows(
                old(self).contents().len() as int,
                whole_frames(samples@, old(self).spec_channels()).len() as int,
                old(self).spec_capacity(),
            ) ==> old(self).spec_overflows() < u64::MAX,
            old(self).contents().len() + samples@.len() <= usize::MAX,
        ensures
            final(self).contents() == keep_newest(
                old(self).contents() + whole_frames(samples@, old(self).spec_channels()),
                old(self).spec_capacity(),
            ),
            final(self).spec_overflows() == old(self).spec_overflows() + if push_overflows(
                old(self).contents().len() as int,
                whole_frames(samples@, old(self).spec_channels()).len() as int,
                old(self).spec_capacity(),
            ) {
                1int
            } else {
                0int
            },
            final(self).spec_channels() == old(self).spec_channels(),
            final(self).spec_capacity() == old(self).spec_capacity(),
            final(self).spec_underruns() == old(self).spec_underruns(),
    {
        proof {
            use_type_invariant(&*self);
        }
        let ghost old_buf = self.buf@;
        let n = samples.len();
        let mut buf = self.take_buf();
        if n == 0 {
            assert((0int / (self.channels as int)) * (self.channels as int) == 0) by (nonlinear_arith)
                requires
                    self.channels >= 1,
            ;
            assert(whole_frames(samples@, self.channels as int) =~= Seq::<T>::empty());
            assert(old_buf + Seq::<T>::empty() =~= old_buf);
            self.buf = buf;
            return;
        }
        proof {
            crate::arith::lemma_block_count_product(
                (n / self.channels) as int,
                self.channels as int,
                n as int,
            );
        }
        let aligned = n / self.channels * self.channels;
        let ghost a = whole_frames(samples@, self.channels as int);
        assert(a =~= samples@.take(aligned as int));
        if aligned == 0 {
            assert(old_buf + a =~= old_buf);
            self.buf = buf;
            return;
        }
        let cap = self.capacity_samples;
        if aligned >= cap {
            if buf.len() > 0 || aligned > cap {
                self.overflow_count = self.overflow_count + 1;
            }
            buf.clear();
            let mut i = aligned - cap;
            while i < aligned
                invariant
                    self.channels >= 1,
                    self.capacity_samples == cap,
                    cap >= self.channels,
                    aligned <= n,
                    n == samples@.len(),
                    cap <= aligned,
                    aligned - cap <= i <= aligned,
                    buf@ =~= samples@.subrange((aligned - cap) as int, i as int),
                decreases aligned - i,
            {
                let v = samples[i];
                buf.push_back(v);
                assert(buf@ =~= samples@.subrange((aligned - cap) as int, i + 1));
                i = i + 1;
            }
            assert(keep_newest(old_buf + a, cap as int) =~= samples@.subrange(
                (aligned - cap) as int,
                aligned as int,
            ));
            self.buf = buf;
            return;
        }
        let held = buf.len();
        let overflow = held.saturating_add(aligned).saturating_sub(cap);
        if overflow > 0 {
            self.overflow_count = self.overflow_count + 1;
        }
        let mut k: usize = 0;
        while k < overflow
            invariant
                self.channels >= 1,
                self.capacity_samples == cap,
                cap >= self.channels,
                held == old_buf.len(),
                held <= cap,
                overflow <= held,
                0 <= k <= overflow,
                buf@ =~= old_buf.subrange(k as int, held as int),
            decreases overflow - k,
        {
            buf.pop_front();
            k = k + 1;
        }
        let mut i: usize = 0;
        while i < aligned
            invariant
                self.channels >= 1,
                self.capacity_samples == cap,
                cap >= self.channels,
                held == old_buf.len(),
                aligned <= n,
                n == samples@.len(),
                aligned < cap,
                overflow == (if held + aligned > cap {
                    held + aligned - cap
                } else {
                    0
                }),
                0 <= i <= aligned,
                buf@ =~= old_buf.subrange(overflow as int, held as int) + samples@.subrange(
                    0,
                    i as int,
                ),
            decreases aligned - i,
        {
            buf.push_back(samples[i]);
            i = i + 1;
        }
        assert(keep_newest(old_buf + a, cap as int) =~= old_buf.subrange(overflow as int, held as int)
            + samples@.subrange(0, aligned as int));
        self.buf = buf;
    }

    /// Remove and return up to `count` of the oldest samples.
    pub fn pop(&mut self, count: usize) -> (out: Vec<T>)
        ensures
            out@ == old(self).contents().take(
                if count < old(self).contents().len() {
                    count as int
                } else {
                    old(self).contents().len() as int
                },
            ),
            final(self).contents() == old(self).contents().skip(out@.len() as int),
            final(self).spec_channels() == old(self).spec_channels(),
            final(self).spec_capacity() == old(self).spec_capacity(),
            final(self).spec_underruns() == old(self).spec_underruns(),
            final(self).spec_overflows() == old(self).spec_overflows(),
    {
        proof {
            use_type_invariant(&*self);
        }
        let ghost old_buf = self.buf@;
        let mut buf = self.take_buf();
        let held = buf.len();
        let take = if count < held {
            count
        } else {
            held
        };
        let mut out: Vec<T> = Vec::new();
        let mut i: usize = 0;
        while i < take
            invariant
                self.channels >= 1,
                self.capacity_samples >= self.channels,
                held == old_buf.len(),
                take <= held,
                0 <= i <= take,
                out@ =~= old_buf.take(i as int),
                buf@ =~= old_buf.skip(i as int),
            decreases take - i,
        {
            let v = buf.pop_front().unwrap();
            out.push(v);
            i = i + 1;
        }
        self.buf = buf;
        out
    }

    /// Fill `out` with the oldest samples; if fewer are held, the rest is
    /// filled with `silence` and an underrun is counted.
    pub fn pop_into(&mut self, out: &mut [T], silence: T)
        requires
            old(self).contents().len() < old(out)@.len() ==> old(self).spec_underruns() < u64::MAX,
        ensures
            ({
                let take = if old(out)@.len() < old(self).contents().len() {
                    old(out)@.len() as int
                } else {
                    old(self).contents().len() as int
                };
                &&& final(out)@ == old(self).contents().take(take) + Seq::new(
                    (old(out)@.len() - take) as nat,
                    |i: int| silence,
                )
                &&& final(self).contents() == old(self).contents().skip(take)
                &&& final(self).spec_underruns() == old(self).spec_underruns() + if take < old(
                    out,
                )@.len() {
                    1int
                } else {
                    0int
                }
            }),
            final(self).spec_channels() == old(self).spec_channels(),
            final(self).spec_capacity() == old(self).spec_capacity(),
            final(self).spec_overflows() == old(self).spec_overflows(),
    {
        proof {
            use_type_invariant(&*self);
        }
        let ghost old_buf = self.buf@;
        let needed = out.len();
        if needed == 0 {
            assert(old_buf.skip(0) =~= old_buf);
            assert(out@ =~= old_buf.take(0) + Seq::new(0, |i: int| silence));
            return;
        }
        let mut buf = self.take_buf();
        let held = buf.len();
        let take = if needed < held {
            needed
        } else {
            held
        };
        let ghost out0 = out@;
        let mut i: usize = 0;
        while i < needed
            invariant
                self.channels >= 1,
                self.capacity_samples >= self.channels,
                held == old_buf.len(),
                needed == out@.len(),
                needed == out0.len(),
                take == (if needed < held {
                    needed
                } else {
                    held
                }),
                0 <= i <= needed,
                buf@ =~= old_buf.skip(if i < take {
                    i as int
                } else {
                    take as int
                }),
                forall|j: int| 0 <= j < i ==> out@[j] == (if j < take {
                    old_buf[j]
                } else {
                    silence
                }),
            decreases needed - i,
        {
            if i < take {
                let v = buf.pop_front().unwrap();
                out[i] = v;
            } else {
                out[i] = silence;
            }
            i = i + 1;
        }
        self.buf = buf;
        if take < needed {
            self.underrun_count = self.underrun_count + 1;
        }
        assert(out@ =~= old_buf.take(take as int) + Seq::new(
            (needed - take) as nat,
            |i: int| silence,
        ));
    }

    /// Drop every held sample.
    pub fn clear(&mut self)
        ensures
            final(self).contents() == Seq::<T>::empty(),
            final(self).spec_channels() == old(self).spec_channels(),
            final(self).spec_capacity() == old(self).spec_capacity(),
            final(self).spec_underruns() == old(self).spec_underruns(),
            final(self).spec_overflows() == old(self).spec_overflows(),
    {
        let _ = self.take_buf();
    }
}

/// The ring that feeds DoP words to the output device.
pub struct DopRingBuffer {
    ring: SampleRing<u32>,
}

impl DopRingBuffer {
    /// Nothing ever counts an underrun of the DoP buffer: a short pop just
    /// returns fewer words.
    #[verifier::type_invariant]
    closed spec fn inv(self) -> bool {
        self.ring.spec_underruns() == 0
    }

    /// The buffer as a whole.
    pub open spec fn model(&self) -> RingModel {
        RingModel {
            contents: self.contents(),
            channels: self.spec_channels(),
            capacity: self.spec_capacity(),
            underruns: self.spec_underruns(),
            overflows: self.spec_overflows(),
        }
    }

    /// DoP words held, oldest first.
    pub closed spec fn contents(&self) -> Seq<u32> {
        self.ring.contents()
    }

    pub closed spec fn spec_channels(&self) -> int {
        self.ring.spec_channels()
    }

    /// Capacity in DoP words.
    pub closed spec fn spec_capacity(&self) -> int {
        self.ring.spec_capacity()
    }

    pub closed spec fn spec_underruns(&self) -> int {
        self.ring.spec_underruns()
    }

    pub closed spec fn spec_overflows(&self) -> int {
        self.ring.spec_overflows()
    }

    /// A buffer for about `capacity_ms` of DoP audio at `dop_rate` frames per second.
    pub fn new(dop_rate: u32, channels: usize, capacity_ms: u32) -> (r: Self)
        ensures
            r.spec_channels() == if channels == 0 {
                1
            } else {
                channels as int
            },
            r.spec_capacity() == ring_capacity(dop_rate as int, r.spec_channels(), capacity_ms as int),
            r.contents() == Seq::<u32>::empty(),
            r.spec_underruns() == 0,
            r.spec_overflows() == 0,
    {
        DopRingBuffer { ring: SampleRing::new(dop_rate, channels, capacity_ms) }
    }

    pub fn channels(&self) -> (c: usize)
        ensures
            c == self.spec_channels(),
    {
        self.ring.channels()
    }

    /// Underruns counted: always none.
    pub fn underrun_count(&self) -> (c: u64)
        ensures
            c == self.spec_underruns(),
            c == 0,
    {
        proof {
            use_type_invariant(self);
        }
        self.ring.underrun_count()
    }

    pub fn overflow_count(&self) -> (c: u64)
        ensures
            c == self.spec_overflows(),
    {
        self.ring.overflow_count()
    }

    /// Channels are at least one, the capacity holds at least a frame, the
    /// buffer never holds more than its capacity, and no underrun is ever
    /// counted.
    pub fn assert_wf(&self)
        ensures
            self.spec_channels() >= 1,
            self.spec_capacity() >= self.spec_channels(),
            self.contents().len() <= self.spec_capacity(),
            self.spec_underruns() == 0,
            ring_wf(self.model()),
    {
        proof {
            use_type_invariant(self);
        }
        self.ring.assert_wf()
    }

    /// Capacity in whole frames.
    pub fn capacity_frames(&self) -> (f: usize)
        ensures
            f == self.spec_capacity() / self.spec_channels(),
    {
        self.ring.capacity_frames()
    }

    /// Whole frames currently held.
    pub fn available_frames(&self) -> (f: usize)
        ensures
            f == (self.contents().len() as int) / self.spec_channels(),
    {
        self.ring.available_frames()
    }

    /// Append the whole frames of `samples`, keeping the newest `capacity`
    /// words; a push of at least the capacity, or one that drops words,
    /// counts one overflow.
    pub fn push(&mut self, samples: &[u32])
        requires
            dop_push_overflows(
                old(self).contents().len() as int,
                whole_frames(samples@, old(self).spec_channels()).len() as int,
                old(self).spec_capacity(),
            ) ==> old(self).spec_overflows() < u64::MAX,
            old(self).contents().len() + samples@.len() <= usize::MAX,
        ensures
            final(self).contents() == keep_newest(
                old(self).contents() + whole_frames(samples@, old(self).spec_channels()),
                old(self).spec_capacity(),
            ),
            final(self).spec_overflows() == old(self).spec_overflows() + if dop_push_overflows(
                old(self).contents().len() as int,
                whole_frames(samples@, old(self).spec_channels()).len() as int,
                old(self).spec_capacity(),
            ) {
                1int
            } else {
                0int
            },
            final(self).spec_channels() == old(self).spec_channels(),
            final(self).spec_capacity() == old(self).spec_capacity(),
            final(self).spec_underruns() == old(self).spec_underruns(),
            final(self).model() == ring_step(old(self).model(), RingOp::Push(samples@)),
    {
        proof {
            use_type_invariant(&*self);
        }
        let mut ring: SampleRing<u32> = SampleRing::new(1, 1, 1);
        std::mem::swap(&mut ring, &mut self.ring);
        proof {
            use_type_invariant(&ring);
        }
        let held = ring.buf.len();
        let ch = ring.channels;
        let cap = ring.capacity_samples;
        let n = samples.len();
        proof {
            crate::arith::lemma_block_count_product((n / ch) as int, ch as int, n as int);
        }
        let k = n / ch * ch;
        assert(whole_frames(samples@, ch as int).len() == k);
        let counted_anyway = k > 0 && k == cap && held == 0;
        ring.push(samples);
        if counted_anyway {
            ring.overflow_count = ring.overflow_count + 1;
        }
        self.ring = ring;
    }

    /// Remove and return up to `count` of the oldest words.
    pub fn pop(&mut self, count: usize) -> (out: Vec<u32>)
        ensures
            out@ == old(self).contents().take(
                if count < old(self).contents().len() {
                    count as int
                } else {
                    old(self).contents().len() as int
                },
            ),
            final(self).contents() == old(self).contents().skip(out@.len() as int),
            final(self).spec_channels() == old(self).spec_channels(),
            final(self).spec_capacity() == old(self).spec_capacity(),
            final(self).spec_underruns() == old(self).spec_underruns(),
            final(self).spec_overflows() == old(self).spec_overflows(),
            final(self).model() == ring_step(old(self).model(), RingOp::Pop(count as nat)),
    {
        proof {
            use_type_invariant(&*self);
        }
        let mut ring: SampleRing<u32> = SampleRing::new(1, 1, 1);
        std::mem::swap(&mut ring, &mut self.ring);
        let out = ring.pop(count);
        self.ring = ring;
        out
    }

    /// Drop every held word.
    pub fn clear(&mut self)
        ensures
            final(self).contents() == Seq::<u32>::empty(),
            final(self).spec_channels() == old(self).spec_channels(),
            final(self).spec_capacity() == old(self).spec_capacity(),
            final(self).spec_underruns() == old(self).spec_underruns(),
            final(self).spec_overflows() == old(self).spec_overflows(),
            final(self).model() == ring_step(old(self).model(), RingOp::Clear),
    {
        proof {
            use_type_invariant(&*self);
        }
        let mut ring: SampleRing<u32> = SampleRing::new(1, 1, 1);
        std::mem::swap(&mut ring, &mut self.ring);
        ring.clear();
        self.ring = ring;
    }
}

/// The whole state of a DoP buffer.
pub struct RingModel {
    pub contents: Seq<u32>,
    pub channels: int,
    pub capacity: int,
    pub underruns: int,
    pub overflows: int,
}

/// An operation on a DoP buffer.
pub enum RingOp {
    Push(Seq<u32>),
    Pop(nat),
    Clear,
}

/// A buffer of at least one channel and a frame of capacity, holding no
/// more than its capacity, with no underrun counted.
pub open spec fn ring_wf(m: RingModel) -> bool {
    &&& m.channels >= 1
    &&& m.capacity >= m.channels
    &&& m.contents.len() <= m.capacity
    &&& m.underruns == 0
}

/// The buffer after one operation.
pub open spec fn ring_step(m: RingModel, op: RingOp) -> RingModel {
    match op {
        RingOp::Push(s) => {
            let a = whole_frames(s, m.channels);
            RingModel {
                contents: keep_newest(m.contents + a, m.capacity),
                overflows: m.overflows + if dop_push_overflows(
                    m.contents.len() as int,
                    a.len() as int,
                    m.capacity,
                ) {
                    1int
                } else {
                    0int
                },
                ..m
            }
        },
        RingOp::Pop(n) => RingModel {
            contents: m.contents.skip(
                if n < m.contents.len() {
                    n as int
                } else {
                    m.contents.len() as int
                },
            ),
            ..m
        },
        RingOp::Clear => RingModel { contents: Seq::empty(), ..m },
    }
}

/// The buffer after the operations `ops`, in order.
pub open spec fn ring_run(m: RingModel, ops: Seq<RingOp>) -> RingModel
    decreases ops.len(),
{
    if ops.len() == 0 {
        m
    } else {
        ring_step(ring_run(m, ops.drop_last()), ops.last())
    }
}

/// Whatever the pushes, pops and clears, a DoP buffer keeps its channels
/// and capacity, never holds more than its capacity, never counts an
/// underrun, and its overflow count never goes down.
pub proof fn lemma_ring_run_bounded(m: RingModel, ops: Seq<RingOp>)
    requires
        ring_wf(m),
    ensures
        ring_wf(ring_run(m, ops)),
        ring_run(m, ops).channels == m.channels,
        ring_run(m, ops).capacity == m.capacity,
        ring_run(m, ops).overflows >= m.overflows,
    decreases ops.len(),
{
    if ops.len() > 0 {
        lemma_ring_run_bounded(m, ops.drop_last());
    }
}

/// What fits is kept in order: when held and incoming samples fit in the
/// capacity nothing is dropped and the incoming samples follow the held ones.
pub proof fn lemma_push_within_capacity_keeps_all<T>(held: Seq<T>, incoming: Seq<T>, cap: int)
    requires
        held.len() + incoming.len() <= cap,
    ensures
        keep_newest(held + incoming, cap) == held + incoming,
{
}

/// On overflow the buffer holds exactly `capacity` samples: the newest ones,
/// ending with the last sample pushed.
pub proof fn lemma_overflow_keeps_newest<T>(held: Seq<T>, incoming: Seq<T>, cap: int)
    requires
        0 <= cap,
        held.len() + incoming.len() > cap,
        incoming.len() > 0,
    ensures
        keep_newest(held + incoming, cap).len() == cap,
        cap > 0 ==> keep_newest(held + incoming, cap).last() == incoming.last(),
        forall|i: int|
            0 <= i < cap ==> #[trigger] keep_newest(held + incoming, cap)[i] == (held + incoming)[held.len()
                + incoming.len() - cap + i],
{
}

/// Popping after pushing returns samples in the order they were pushed
/// (first in, first out).
pub proof fn lemma_pop_is_fifo<T>(held: Seq<T>, incoming: Seq<T>, cap: int, count: int)
    requires
        held.len() + incoming.len() <= cap,
        held.len() <= count <= held.len() + incoming.len(),
    ensures
        keep_newest(held + incoming, cap).take(count) == held + incoming.take(count - held.len()),
{
    assert((held + incoming).take(count) =~= held + incoming.take(count - held.len()));
}

} // verus!
