//! Laws of the download engine, proved over its transition functions: a
//! completed stream accounts for every byte of the settled total, a ranged
//! request answered 416 re-downloads nothing, and a server that ignores a
//! range never produces a concatenation of old and fresh bytes.

use vstd::prelude::*;

use crate::engine::{
    on_chunk_spec, on_response_spec, range_start_spec, start_spec, Engine, Phase, ResponseAction,
};

verus! {

/// Restart safety: an engine started over a partial file of `n` bytes
/// requests the byte range starting exactly at `n`, so a resumed transfer
/// continues from the on-disk offset.
pub proof fn lemma_resume_continues_at_disk_offset(id: String, n: u64)
    requires
        n > 0,
    ensures
        range_start_spec(start_spec(id, Some(n))) == Some(n),
        start_spec(id, Some(n)).downloaded == n,
{
}

/// The number of bytes in a sequence of body chunks.
pub open spec fn chunk_sum(lens: Seq<usize>) -> int
    decreases lens.len(),
{
    if lens.len() == 0 {
        0
    } else {
        chunk_sum(lens.drop_last()) + lens.last()
    }
}

/// The engine after consuming every chunk of `lens` in order, with neither
/// the pause nor the cancel signal set.
pub open spec fn replay_chunks(e: Engine, lens: Seq<usize>) -> Engine
    decreases lens.len(),
{
    if lens.len() == 0 {
        e
    } else {
        on_chunk_spec(replay_chunks(e, lens.drop_last()), lens.last(), false, false).0
    }
}

pub proof fn lemma_chunk_sum_nonneg(lens: Seq<usize>)
    ensures
        chunk_sum(lens) >= 0,
    decreases lens.len(),
{
    if lens.len() > 0 {
        lemma_chunk_sum_nonneg(lens.drop_last());
    }
}

/// A byte count clamped to the largest representable length, the way the
/// engine accumulates.
pub open spec fn sat_u64(x: int) -> u64 {
    if x > u64::MAX {
        u64::MAX
    } else if x < 0 {
        0
    } else {
        x as u64
    }
}

/// An undisturbed stream adds exactly the bytes of its chunks to the
/// partial file: after consuming `lens`, `downloaded` has grown by their
/// sum (clamped, as every byte count is), and the run is still streaming.
pub proof fn lemma_stream_accounts_every_byte(e: Engine, lens: Seq<usize>)
    requires
        e.phase is Streaming,
    ensures
        replay_chunks(e, lens) == (Engine {
            downloaded: sat_u64(e.downloaded + chunk_sum(lens)),
            ..e
        }),
    decreases lens.len(),
{
    if lens.len() == 0 {
        assert(replay_chunks(e, lens) == e);
        assert((Engine { downloaded: sat_u64(e.downloaded + chunk_sum(lens)), ..e }) == e);
    } else {
        lemma_chunk_sum_nonneg(lens.drop_last());
        lemma_stream_accounts_every_byte(e, lens.drop_last());
    }
}

/// When a download completes — the response advertised `content_len` more
/// bytes, the stream delivered exactly that many, and no signal interrupted
/// it — the bytes on disk at the moment of the transition to installing
/// equal the settled total, for every offset and content length.
pub proof fn lemma_completed_download_reaches_total(
    e0: Engine,
    http_status: u16,
    content_len: u64,
    lens: Seq<usize>,
)
    requires
        e0.phase is Probing,
        http_status != 416,
        !(e0.offset > 0 && http_status == 200),
        chunk_sum(lens) == content_len,
    ensures
        ({
            let streamed = replay_chunks(
                on_response_spec(e0, http_status, Some(content_len)).0,
                lens,
            );
            let installing = Engine { phase: Phase::Installing, ..streamed };
            &&& installing.total == Some(sat_u64(e0.offset + content_len))
            &&& installing.downloaded == installing.total.unwrap()
        }),
{
    let e1 = on_response_spec(e0, http_status, Some(content_len)).0;
    assert(e1.downloaded == e0.offset);
    assert(e1.total == Some(sat_u64(e0.offset + content_len)));
    lemma_stream_accounts_every_byte(e1, lens);
}

/// A ranged request answered 416 re-downloads nothing: the response
/// transition goes straight to installing with `downloaded` still the bytes
/// already on disk, the total settled to that same size, and the host told
/// not to consume any body; after a successful extraction the run is
/// completed with the same byte count.
pub proof fn lemma_fully_downloaded_short_circuits(e0: Engine, content_length: Option<u64>)
    requires
        e0.phase is Probing,
    ensures
        ({
            let (e1, action) = on_response_spec(e0, 416, content_length);
            let done = Engine { phase: Phase::Completed, ..e1 };
            &&& action is AlreadyComplete
            &&& e1.phase is Installing
            &&& e1.downloaded == e0.offset
            &&& e1.total == Some(e0.offset)
            &&& done.downloaded == e0.offset
            &&& done.total == Some(e0.offset)
        }),
{
}

/// A server that ignores a range never corrupts the file: on a 200 answer
/// to a ranged request the partial bytes are discarded, and a full stream
/// of the fresh content ends with exactly the fresh content length on disk
/// — never the old offset plus the fresh length.
pub proof fn lemma_ignored_range_never_concatenates(e0: Engine, content_len: u64, lens: Seq<usize>)
    requires
        e0.phase is Probing,
        e0.offset > 0,
        chunk_sum(lens) == content_len,
    ensures
        ({
            let (e1, action) = on_response_spec(e0, 200, Some(content_len));
            let streamed = replay_chunks(e1, lens);
            &&& action is DiscardAndRestart
            &&& streamed.downloaded == content_len
            &&& streamed.total == Some(content_len)
            &&& streamed.downloaded != e0.offset + content_len
        }),
{
    let (e1, action) = on_response_spec(e0, 200, Some(content_len));
    assert(e1.downloaded == 0);
    assert(e1.total == Some(content_len));
    lemma_stream_accounts_every_byte(e1, lens);
}

} // verus!
