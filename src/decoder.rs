use vstd::prelude::*;
use vstd::slice::{slice_subrange, slice_to_vec};

use crate::cursor::{window_len_of, Cursor};

verus! {

/// One PCM sample.
pub type Sample = i16;

/// Largest number of samples, over all channels, that one frame yields.
pub const MAX_SAMPLES_PER_FRAME: usize = 2304;

/// Frame metadata reported by one call of the decode primitive.
#[derive(Clone, Copy, Debug, PartialEq, Eq, Structural)]
pub struct FrameInfo {
    /// Bytes consumed by the call, header included; zero when no frame was found.
    pub frame_bytes: usize,
    pub bitrate_kbps: u32,
    pub channels: u32,
    pub layer: u32,
    pub hz: u32,
}

/// Everything one call of the decode primitive reports.
#[derive(Clone, Copy, Debug, PartialEq, Eq, Structural)]
pub struct DecodeOutcome {
    /// Samples per channel; zero for a chunk that holds no audio.
    pub samples: u32,
    pub info: FrameInfo,
}

/// Info about one frame, with views of its source bytes and decoded samples.
#[derive(Debug)]
pub struct Frame<'a> {
    /// Bitrate of the source frame in kb/s.
    pub bitrate: u32,
    /// Number of channels in this frame.
    pub channels: u32,
    /// MPEG layer of this frame.
    pub mpeg_layer: u32,
    /// The decoded samples, interleaved by channel; empty for a peeked frame.
    pub samples: &'a [Sample],
    /// Sample count per channel.
    pub sample_count: u32,
    /// Sample rate of this frame in Hz.
    pub sample_rate: u32,
    /// Source bytes of the frame, including the header.
    pub source: &'a [u8],
}

impl<'a> Frame<'a> {
    /// A copy of the decoded samples, for keeping past the next decode.
    pub fn samples_to_vec(&self) -> (r: Vec<Sample>)
        ensures
            r@ == self.samples@,
    {
        slice_to_vec(self.samples)
    }
}

/// What a decode step gave.
#[derive(Debug)]
pub enum DecodeStep<'a> {
    /// A frame with audio was decoded.
    Decoded(Frame<'a>),
    /// A chunk without audio was skipped; decode again.
    Skipped,
    /// No further frame can be found.
    End,
}

/// The abstract state of a decoder.
pub ghost struct DecoderView {
    pub data: Seq<u8>,
    pub offset: nat,
    pub remaining: nat,
    /// Length of the frame found by the last peek, if nothing advanced since.
    pub cached: Option<nat>,
    pub exhausted: bool,
}

/// A well-formed state: the cursor covers the buffer, a cached length fits in
/// what remains, and an exhausted decoder keeps no cache.
pub open spec fn valid(v: DecoderView) -> bool {
    &&& v.offset + v.remaining == v.data.len()
    &&& v.data.len() <= usize::MAX
    &&& (v.cached matches Some(n) ==> 0 < n <= v.remaining)
    &&& (v.exhausted ==> v.cached is None)
}

/// The state of a decoder fresh over `data`.
pub open spec fn initial(data: Seq<u8>) -> DecoderView {
    DecoderView { data, offset: 0, remaining: data.len(), cached: None, exhausted: false }
}

/// No read can find a frame any more.
pub open spec fn done(v: DecoderView) -> bool {
    v.exhausted || v.remaining == 0
}

/// The window handed to the decode primitive.
pub open spec fn window(v: DecoderView) -> Seq<u8> {
    v.data.subrange(v.offset as int, (v.offset + window_len_of(v.remaining)) as int)
}

/// `n` bytes ahead are consumed; the cache goes stale.
pub open spec fn advanced(v: DecoderView, n: nat) -> DecoderView {
    DecoderView { offset: v.offset + n, remaining: (v.remaining - n) as nat, cached: None, ..v }
}

/// The outcome reports a chunk that lies within the remaining bytes.
pub open spec fn chunk_found(v: DecoderView, o: DecodeOutcome) -> bool {
    !done(v) && 0 < o.info.frame_bytes <= v.remaining
}

/// Its decoded samples, `samples` per channel, fit in a sample buffer of `pcm_len`.
pub open spec fn samples_fit(o: DecodeOutcome, pcm_len: nat) -> bool {
    o.info.channels > 0 && o.samples * o.info.channels <= pcm_len
}

/// A full decode yields a frame with audio.
pub open spec fn yields_frame(v: DecoderView, o: DecodeOutcome, pcm_len: nat) -> bool {
    chunk_found(v, o) && o.samples > 0 && samples_fit(o, pcm_len)
}

/// A full decode skips a chunk without audio.
pub open spec fn yields_skip(v: DecoderView, o: DecodeOutcome) -> bool {
    chunk_found(v, o) && o.samples == 0
}

/// The state after a full decode with outcome `o`. The reported chunk is
/// consumed whenever it lies within the remaining bytes; the decoder is
/// exhausted unless it yielded a frame or skipped a chunk.
pub open spec fn decode_view(v: DecoderView, o: DecodeOutcome, pcm_len: nat) -> DecoderView {
    if chunk_found(v, o) {
        let w = advanced(v, o.info.frame_bytes as nat);
        if yields_frame(v, o, pcm_len) || yields_skip(v, o) {
            w
        } else {
            DecoderView { exhausted: true, ..w }
        }
    } else {
        DecoderView { exhausted: true, cached: None, ..v }
    }
}

/// The state after a peek with outcome `o`: only the cache changes.
pub open spec fn peek_view(v: DecoderView, o: DecodeOutcome) -> DecoderView {
    if chunk_found(v, o) {
        DecoderView { cached: Some(o.info.frame_bytes as nat), ..v }
    } else {
        v
    }
}

/// A skip needs a peek first: no length is cached and a frame may be ahead.
pub open spec fn needs_peek(v: DecoderView) -> bool {
    v.cached is None && !done(v)
}

/// The state after a skip: a cached length is consumed, else nothing changes.
pub open spec fn skip_view(v: DecoderView) -> DecoderView {
    match v.cached {
        Some(n) => advanced(v, n),
        None => v,
    }
}

/// `f` carries the metadata of `o` and the source bytes of the chunk at `v`'s offset.
pub open spec fn describes(f: Frame, v: DecoderView, o: DecodeOutcome) -> bool {
    &&& f.bitrate == o.info.bitrate_kbps
    &&& f.channels == o.info.channels
    &&& f.mpeg_layer == o.info.layer
    &&& f.sample_rate == o.info.hz
    &&& f.sample_count == o.samples
    &&& f.source@ == v.data.subrange(v.offset as int, (v.offset + o.info.frame_bytes) as int)
}

/// Cursor, peek cache and exhaustion flag of a decoder over a borrowed buffer.
pub struct DecoderState<'a> {
    data: &'a [u8],
    cursor: Cursor,
    cached_len: Option<usize>,
    exhausted: bool,
}

impl<'a> View for DecoderState<'a> {
    type V = DecoderView;

    closed spec fn view(&self) -> DecoderView {
        DecoderView {
            data: self.data@,
            offset: self.cursor@.offset,
            remaining: self.cursor@.remaining,
            cached: match self.cached_len {
                Some(n) => Some(n as nat),
                None => None,
            },
            exhausted: self.exhausted,
        }
    }
}

impl<'a> DecoderState<'a> {
    pub closed spec fn wf(&self) -> bool {
        self.cursor.wf() && valid(self@)
    }

    /// A well-formed decoder's state is valid: the cursor covers the buffer
    /// and a cached length fits in what remains.
    pub proof fn lemma_wf_valid(&self)
        requires
            self.wf(),
        ensures
            valid(self@),
    {
    }

    /// A decoder at the start of `data`.
    pub fn new(data: &'a [u8]) -> (s: Self)
        ensures
            s.wf(),
            valid(s@),
            s@ == initial(data@),
    {
        DecoderState { data, cursor: Cursor::new(data.len()), cached_len: None, exhausted: false }
    }

    /// Bytes consumed so far.
    pub fn position(&self) -> (r: usize)
        requires
            self.wf(),
        ensures
            r == self@.offset,
            r == self@.data.len() - self@.remaining,
    {
        self.cursor.position()
    }

    /// Whether a read may still find a frame; when not, the decode primitive
    /// need not be called.
    pub fn can_read(&self) -> (r: bool)
        ensures
            r == !done(self@),
    {
        !self.exhausted && self.cursor.remaining() > 0
    }

    /// The bytes to hand to the decode primitive: those ahead, capped in length.
    pub fn window(&self) -> (r: &'a [u8])
        requires
            self.wf(),
        ensures
            r@ == window(self@),
            r@.len() == window_len_of(self@.remaining),
    {
        let start = self.cursor.position();
        slice_subrange(self.data, start, start + self.cursor.window_len())
    }

    /// Whether `skip_frame` needs a peek first to learn the frame length.
    pub fn needs_peek(&self) -> (r: bool)
        ensures
            r == needs_peek(self@),
    {
        self.cached_len.is_none() && self.can_read()
    }
    /// Consumes `n` bytes ahead; the caller has checked that they remain.
    fn consume(&mut self, n: usize)
        requires
            old(self).wf(),
            0 < n <= old(self)@.remaining,
        ensures
            final(self).wf(),
            valid(final(self)@),
            final(self)@ == advanced(old(self)@, n as nat),
    {
        self.cursor.advance(n);
        self.cached_len = None;
    }

    /// Takes in the outcome `o` of a full decode of `window()`, whose samples
    /// were written to the start of `pcm`.
    ///
    /// A chunk within the remaining bytes is consumed. With audio in it, the
    /// frame is returned, with views of its source bytes and its samples. A
    /// chunk without audio is reported as skipped, and the remaining count has
    /// shrunk. Anything else ends the stream for good: no frame found, a
    /// length past the end of the buffer, or samples that `pcm` cannot hold.
    pub fn decode_step<'p>(&mut self, o: DecodeOutcome, pcm: &'p [Sample]) -> (r: DecodeStep<'p>)
        where 'a: 'p,
        requires
            old(self).wf(),
        ensures
            final(self).wf(),
            valid(final(self)@),
            final(self)@ == decode_view(old(self)@, o, pcm@.len()),
            r is Decoded <==> yields_frame(old(self)@, o, pcm@.len()),
            r is Skipped <==> yields_skip(old(self)@, o),
            r is Skipped ==> final(self)@.remaining < old(self)@.remaining,
            r matches DecodeStep::Decoded(f) ==> {
                &&& describes(f, old(self)@, o)
                &&& f.samples@ == pcm@.subrange(0, o.samples * o.info.channels)
                &&& f.sample_count > 0
                &&& f.samples@.len() > 0
                &&& f.source@.len() == o.info.frame_bytes
                &&& final(self)@.offset == old(self)@.offset + f.source@.len()
                &&& f.source@ == final(self)@.data.subrange(
                    old(self)@.offset as int,
                    final(self)@.offset as int,
                )
            },
    {
        let n = o.info.frame_bytes;
        if !self.can_read() || n == 0 || n > self.cursor.remaining() {
            self.exhausted = true;
            self.cached_len = None;
            return DecodeStep::End;
        }
        let start = self.cursor.position();
        self.consume(n);
        if o.samples == 0 {
            return DecodeStep::Skipped;
        }
        let channels = o.info.channels;
        proof {
            assert(o.samples * channels <= u32::MAX * u32::MAX) by (nonlinear_arith)
                requires
                    o.samples <= u32::MAX,
                    channels <= u32::MAX,
            ;
        }
        let total = o.samples as u64 * channels as u64;
        if channels == 0 || total > pcm.len() as u64 {
            self.exhausted = true;
            return DecodeStep::End;
        }
        proof {
            assert(o.samples * o.info.channels > 0) by (nonlinear_arith)
                requires
                    o.samples > 0,
                    o.info.channels > 0,
            ;
        }
        DecodeStep::Decoded(
            Frame {
                bitrate: o.info.bitrate_kbps,
                channels,
                mpeg_layer: o.info.layer,
                samples: slice_subrange(pcm, 0, total as usize),
                sample_count: o.samples,
                sample_rate: o.info.hz,
                source: slice_subrange(self.data, start, start + n),
            },
        )
    }

    /// Takes in the outcome `o` of a header-only decode of `window()`.
    ///
    /// A chunk within the remaining bytes is returned as a frame without
    /// samples, and its length is cached for `skip_frame`; nothing else
    /// changes. Otherwise nothing is returned and nothing changes.
    pub fn peek_step(&mut self, o: DecodeOutcome) -> (r: Option<Frame<'a>>)
        requires
            old(self).wf(),
        ensures
            final(self).wf(),
            valid(final(self)@),
            final(self)@ == peek_view(old(self)@, o),
            r is Some <==> chunk_found(old(self)@, o),
            r matches Some(f) ==> {
                &&& describes(f, old(self)@, o)
                &&& f.samples@.len() == 0
                &&& f.source@.len() == o.info.frame_bytes
                &&& old(self)@.offset + f.source@.len() <= old(self)@.data.len()
            },
    {
        let n = o.info.frame_bytes;
        if !self.can_read() || n == 0 || n > self.cursor.remaining() {
            return None;
        }
        self.cached_len = Some(n);
        let start = self.cursor.position();
        Some(
            Frame {
                bitrate: o.info.bitrate_kbps,
                channels: o.info.channels,
                mpeg_layer: o.info.layer,
                samples: &[],
                sample_count: o.samples,
                sample_rate: o.info.hz,
                source: slice_subrange(self.data, start, start + n),
            },
        )
    }

    /// Skips the frame whose length the last peek cached, and clears the
    /// cache. Without a cached length nothing changes.
    pub fn skip_frame(&mut self)
        requires
            old(self).wf(),
        ensures
            final(self).wf(),
            valid(final(self)@),
            final(self)@ == skip_view(old(self)@),
    {
        if let Some(n) = self.cached_len {
            self.consume(n);
        }
    }
}

} // verus!
