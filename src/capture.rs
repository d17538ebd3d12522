//! The capture adapter between the decoder and the output: it collects the
//! samples that are played and hands them on, downmixed to mono, in chunks of
//! about a thirtieth of a second.
use vstd::prelude::*;
use crate::sums::{mean_i32, mean_range_i32};

verus! {

/// Chunks handed on per second of audio.
pub const CHUNKS_PER_SECOND: usize = 30;

/// Interleaved samples downmixed to one channel: each frame of `channels`
/// samples becomes their mean, and a last, shorter frame the mean of what it
/// holds.
pub open spec fn downmix(buf: Seq<i32>, channels: int) -> Seq<i32> {
    Seq::new(
        ((buf.len() + channels - 1) / channels) as nat,
        |j: int|
            mean_i32(
                buf,
                j * channels,
                if (j + 1) * channels < buf.len() {
                    (j + 1) * channels
                } else {
                    buf.len() as int
                },
            ) as i32,
    )
}

/// Frames are averaged over their channels; a chunk of single samples is
/// handed on unchanged.
pub fn downmix_to_mono(buf: &[i32], channels: u16) -> (r: Vec<i32>)
    requires
        channels >= 1,
    ensures
        r@ == downmix(buf@, channels as int),
{
    let ch: usize = channels as usize;
    let len: usize = buf.len();
    let q: usize = len / ch;
    if len % ch != 0 {
        assert(q < len) by (nonlinear_arith)
            requires
                ch >= 1,
                len % ch != 0,
                q == len / ch,
        ;
    }
    let chunks: usize = if len % ch == 0 {
        q
    } else {
        q + 1
    };
    assert(chunks == (len + ch - 1) / (ch as int)) by (nonlinear_arith)
        requires
            ch >= 1,
            chunks as int == (len as int) / (ch as int) + (if (len as int) % (ch as int) == 0 { 0int } else { 1int }),
    ;
    let mut out: Vec<i32> = Vec::new();
    let mut j: usize = 0;
    while j < chunks
        invariant
            1 <= ch <= 0xffff,
            len == buf@.len(),
            chunks == (len + ch - 1) / (ch as int),
            j <= chunks,
            out@.len() == j,
            forall|i: int|
                0 <= i < j ==> #[trigger] out@[i] == mean_i32(
                    buf@,
                    i * ch,
                    if (i + 1) * ch < len {
                        (i + 1) * ch
                    } else {
                        len as int
                    },
                ) as i32,
        decreases chunks - j,
    {
        assert(j * ch < len && (j + 1) * ch == j * ch + ch) by (nonlinear_arith)
            requires
                ch >= 1,
                j < chunks,
                chunks == (len + ch - 1) / (ch as int),
        ;
        let start: usize = j * ch;
        let end: usize = if len - start > ch {
            start + ch
        } else {
            len
        };
        let m = mean_range_i32(buf, start, end);
        out.push(m);
        j = j + 1;
    }
    assert(out@ =~= downmix(buf@, ch as int));
    out
}

/// The capture adapter's buffer for one stream.
pub struct SampleCapture {
    /// Interleaved samples collected since the last chunk was handed on.
    pub buffer: Vec<i32>,
    /// Samples collected before a chunk is handed on.
    pub capacity: u64,
    pub channels: u16,
    pub sample_rate: u32,
}

impl SampleCapture {
    pub open spec fn wf(&self) -> bool {
        &&& self.channels >= 1
        &&& self.buffer@.len() == 0 || self.buffer@.len() < self.capacity
    }

    /// A capture for a stream of this format, sized to about a thirtieth of a
    /// second of samples.
    pub fn new(sample_rate: u32, channels: u16) -> (r: Self)
        requires
            channels >= 1,
        ensures
            r.wf(),
            r.buffer@.len() == 0,
            r.capacity == (sample_rate * channels) / (CHUNKS_PER_SECOND as int),
            r.channels == channels,
            r.sample_rate == sample_rate,
    {
        assert(0 <= sample_rate * channels <= u32::MAX * u16::MAX) by (nonlinear_arith)
            requires
                sample_rate <= u32::MAX,
                channels <= u16::MAX,
        ;
        let capacity: u64 = (sample_rate as u64 * channels as u64) / CHUNKS_PER_SECOND as u64;
        SampleCapture { buffer: Vec::new(), capacity, channels, sample_rate }
    }

    /// Collect one sample. Once the buffer holds `capacity` samples they come
    /// back downmixed to mono and the buffer starts over.
    pub fn push_sample(&mut self, sample: i32) -> (r: Option<Vec<i32>>)
        requires
            old(self).wf(),
        ensures
            final(self).wf(),
            final(self).capacity == old(self).capacity,
            final(self).channels == old(self).channels,
            final(self).sample_rate == old(self).sample_rate,
            ({
                let full = old(self).buffer@.push(sample);
                if full.len() >= old(self).capacity {
                    &&& r is Some
                    &&& r->Some_0@ == downmix(full, old(self).channels as int)
                    &&& final(self).buffer@.len() == 0
                } else {
                    &&& r is None
                    &&& final(self).buffer@ == full
                }
            }),
    {
        self.buffer.push(sample);
        if self.buffer.len() as u64 >= self.capacity {
            let mono = downmix_to_mono(self.buffer.as_slice(), self.channels);
            self.buffer.clear();
            Some(mono)
        } else {
            None
        }
    }
}

} // verus!
