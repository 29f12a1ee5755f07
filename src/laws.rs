use vstd::prelude::*;

use crate::decoder::{
    advanced, chunk_found, decode_view, done, initial, needs_peek, peek_view, skip_view, valid,
    yields_frame, yields_skip, DecodeOutcome, DecoderView,
};

verus! {

/// The state after full decodes with the outcomes `outs`, in order.
pub open spec fn decode_run(v: DecoderView, outs: Seq<DecodeOutcome>, pcm_len: nat) -> DecoderView
    decreases outs.len(),
{
    if outs.len() == 0 {
        v
    } else {
        decode_run(decode_view(v, outs[0], pcm_len), outs.drop_first(), pcm_len)
    }
}

/// The bytes of the chunk that one decode reports: a frame's source bytes,
/// or the bytes it skips.
pub open spec fn chunk(v: DecoderView, o: DecodeOutcome) -> Seq<u8> {
    if chunk_found(v, o) {
        v.data.subrange(v.offset as int, (v.offset + o.info.frame_bytes) as int)
    } else {
        Seq::empty()
    }
}

/// The chunks reported by full decodes with the outcomes `outs`, joined in order.
pub open spec fn run_chunks(v: DecoderView, outs: Seq<DecodeOutcome>, pcm_len: nat) -> Seq<u8>
    decreases outs.len(),
{
    if outs.len() == 0 {
        Seq::empty()
    } else {
        chunk(v, outs[0]) + run_chunks(decode_view(v, outs[0], pcm_len), outs.drop_first(), pcm_len)
    }
}

/// Whatever the outcomes of a run of full decodes, the chunks they report
/// (decoded frames and skipped chunks alike) follow one another without gap
/// or overlap and make up exactly the bytes consumed: the position at the end
/// is the position at the start plus the sum of their lengths.
pub proof fn lemma_decoded_chunks_tile(v: DecoderView, outs: Seq<DecodeOutcome>, pcm_len: nat)
    requires
        valid(v),
    ensures
        valid(decode_run(v, outs, pcm_len)),
        decode_run(v, outs, pcm_len).data == v.data,
        run_chunks(v, outs, pcm_len) == v.data.subrange(
            v.offset as int,
            decode_run(v, outs, pcm_len).offset as int,
        ),
        decode_run(v, outs, pcm_len).offset == v.offset + run_chunks(v, outs, pcm_len).len(),
    decreases outs.len(),
{
    if outs.len() > 0 {
        let w = decode_view(v, outs[0], pcm_len);
        let rest = outs.drop_first();
        lemma_decoded_chunks_tile(w, rest, pcm_len);
        let end = decode_run(w, rest, pcm_len).offset;
        assert(chunk(v, outs[0]) == v.data.subrange(v.offset as int, w.offset as int));
        assert(v.data.subrange(v.offset as int, w.offset as int) + v.data.subrange(
            w.offset as int,
            end as int,
        ) =~= v.data.subrange(v.offset as int, end as int));
    }
}

/// A peek that finds a frame, followed by a skip, advances by exactly the
/// peeked frame's length, and the skip finds that length in the cache, so it
/// needs no second call of the decode primitive.
pub proof fn lemma_peek_then_skip(v: DecoderView, o: DecodeOutcome)
    requires
        valid(v),
        chunk_found(v, o),
    ensures
        !needs_peek(peek_view(v, o)),
        skip_view(peek_view(v, o)) == advanced(v, o.info.frame_bytes as nat),
        skip_view(peek_view(v, o)).offset == v.offset + o.info.frame_bytes,
{
}

/// Peeking again with the same outcome changes nothing more: the state, the
/// position and the frame found stay as the first peek left them.
pub proof fn lemma_peek_idempotent(v: DecoderView, o: DecodeOutcome)
    requires
        valid(v),
    ensures
        peek_view(peek_view(v, o), o) == peek_view(v, o),
        peek_view(v, o).offset == v.offset,
        peek_view(v, o).data == v.data,
        chunk_found(peek_view(v, o), o) == chunk_found(v, o),
{
}

/// Over an empty buffer no read finds anything, whatever the decode primitive
/// reports: a full decode yields no frame, a peek finds none, a skip changes
/// nothing, and the position stays 0.
pub proof fn lemma_empty_buffer(data: Seq<u8>, o: DecodeOutcome, pcm_len: nat)
    requires
        data.len() == 0,
    ensures
        done(initial(data)),
        !yields_frame(initial(data), o, pcm_len),
        !yields_skip(initial(data), o),
        decode_view(initial(data), o, pcm_len).offset == 0,
        !chunk_found(initial(data), o),
        peek_view(initial(data), o) == initial(data),
        skip_view(initial(data)) == initial(data),
        !needs_peek(initial(data)),
{
}

/// Every decode in `outs` skips a chunk without audio.
pub open spec fn all_skips(v: DecoderView, outs: Seq<DecodeOutcome>, pcm_len: nat) -> bool
    decreases outs.len(),
{
    outs.len() > 0 ==> {
        &&& yields_skip(v, outs[0])
        &&& all_skips(decode_view(v, outs[0], pcm_len), outs.drop_first(), pcm_len)
    }
}

/// Each skipped chunk consumes at least one byte, so a run of skips is no
/// longer than the bytes that remained at its start.
pub proof fn lemma_skips_bounded(v: DecoderView, outs: Seq<DecodeOutcome>, pcm_len: nat)
    requires
        valid(v),
        all_skips(v, outs, pcm_len),
    ensures
        outs.len() <= v.remaining,
        decode_run(v, outs, pcm_len).remaining + outs.len() <= v.remaining,
    decreases outs.len(),
{
    if outs.len() > 0 {
        lemma_skips_bounded(decode_view(v, outs[0], pcm_len), outs.drop_first(), pcm_len);
    }
}

/// Once no read can find a frame, none ever will: full decodes, peeks and
/// skips neither move the position nor leave that condition, whatever the
/// decode primitive reports.
pub proof fn lemma_done_is_terminal(v: DecoderView, o: DecodeOutcome, pcm_len: nat)
    requires
        valid(v),
        done(v),
    ensures
        done(decode_view(v, o, pcm_len)),
        decode_view(v, o, pcm_len).offset == v.offset,
        !yields_frame(v, o, pcm_len),
        !chunk_found(v, o),
        peek_view(v, o) == v,
        skip_view(v) == v,
{
}

} // verus!
