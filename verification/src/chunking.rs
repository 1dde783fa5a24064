//! How many page writes a request takes, and in which order they go out.

use vstd::prelude::*;
use crate::bounds::PAGE_SIZE;
use crate::device::At24Cx;
use crate::transfer::{chunk_len, Event, StepView, WriteState};

verus! {

/// Number of chunks that `remaining` bytes at `position` are cut into.
pub open spec fn chunk_count(position: int, remaining: int) -> nat
    decreases remaining,
{
    if remaining <= 0 {
        0
    } else {
        1 + chunk_count(
            position + chunk_len(position, remaining),
            remaining - chunk_len(position, remaining),
        )
    }
}

/// Number of pages that the range of `length` bytes at `position` touches.
pub open spec fn pages_touched(position: int, length: int) -> int {
    if length <= 0 {
        0
    } else {
        (position + length - 1) / (PAGE_SIZE as int) - position / (PAGE_SIZE as int) + 1
    }
}

/// A request is cut into as many chunks as its range touches pages. For a
/// request that is not empty these are the
/// bytes from the start of the first page to the end of the request, divided
/// by the page size and rounded up.
pub proof fn lemma_chunk_count_is_pages(position: int, remaining: int)
    requires
        0 <= position,
    ensures
        chunk_count(position, remaining) == pages_touched(position, remaining),
        0 < remaining ==> pages_touched(position, remaining) == (position % (PAGE_SIZE as int)
            + remaining + PAGE_SIZE - 1) / (PAGE_SIZE as int),
    decreases remaining,
{
    if remaining > 0 {
        let chunk = chunk_len(position, remaining);
        lemma_chunk_count_is_pages(position + chunk, remaining - chunk);
        let page = position / 256;
        let within = position % 256;
        assert(position == 256 * page + within);
        assert((256 * page + within + remaining - 1) / 256 == page + (within + remaining - 1)
            / 256);
    }
}

impl WriteState {
    /// Number of page writes that the request still takes, the one of the
    /// current chunk included.
    pub open spec fn chunks_left(self) -> nat {
        chunk_count(self.position(), self.length - self.done)
    }
}

impl<I2C, D> At24Cx<I2C, D> {
    /// A write that is not refused and not empty starts with all its chunks
    /// left: as many as its range touches pages.
    pub proof fn lemma_write_starts_all_chunks<E>(&self, offset: u32, bytes: Seq<u8>)
        requires
            self.wf(),
            self.write_spec::<E>(offset, bytes) is Issue,
        ensures
            self.write_spec::<E>(offset, bytes)->state.chunks_left() == pages_touched(
                offset as int,
                bytes.len() as int,
            ),
            self.write_spec::<E>(offset, bytes)->state.chunks_left() >= 1,
    {
        self.lemma_capacity_bounds();
        lemma_chunk_count_is_pages(offset as int, bytes.len() as int);
    }

    /// A page write is issued only as the first step of a request or when
    /// the wait after the chunk before it has ended well: on an acknowledged
    /// probe, or at the end of the fixed pause. It is then the page write of
    /// the chunk that follows, and one chunk fewer is left. A request ends
    /// well only when its last chunk's wait has, and never while a page
    /// write or a pause after a refused probe is under way.
    pub proof fn lemma_write_follows_wait<E>(
        &self,
        state: WriteState,
        event: Event<E>,
        bytes: Seq<u8>,
    )
        requires
            self.wf(),
            self.admits(state, bytes),
        ensures
            ({
                let waited = (state.phase is Probing && event is Completed) || state.phase
                    is Settling;
                let step = self.write_next_spec(state, event, bytes);
                &&& (step matches StepView::Issue { action, .. } && action is Write) ==> waited
                &&& step == StepView::<E>::Done(Ok(())) ==> waited
                &&& waited ==> step == self.advance_spec::<E>(state, bytes)
                &&& waited && state.chunks_left() > 1 ==> step == (StepView::<E>::Issue {
                    state: state.advanced(),
                    action: self.chunk_write(state.advanced(), bytes),
                }) && state.advanced().chunks_left() + 1 == state.chunks_left()
                    && state.advanced().position() == state.position() + state.chunk()
                &&& waited && state.chunks_left() <= 1 ==> step == StepView::<E>::Done(Ok(()))
                    && state.chunks_left() == 1
            }),
    {
        self.lemma_chunk_in_page(state, bytes);
        let rest = state.length - state.done - state.chunk();
        assert(state.chunks_left() == 1 + chunk_count(state.position() + state.chunk(), rest));
        if rest > 0 {
            assert(chunk_count(state.position() + state.chunk(), rest) >= 1);
        } else {
            assert(chunk_count(state.position() + state.chunk(), rest) == 0);
        }
    }
}

} // verus!
