//! A model of the chip's memory, as the bus sees it, against which the wire
//! encoding of the write path and of the read path are held.
//!
//! The model is the chip's side of the protocol: which cell a bus address
//! and an in-page address field select, what a page write stores, and what a
//! sequential read hands out. It assumes a medium that keeps what it has
//! acknowledged.

use vstd::prelude::*;
use crate::bounds::PAGE_SIZE;
use crate::device::{address_field, bank, lemma_bank_is_quotient, At24Cx, Completion};
use crate::error::Error;
use crate::transfer::{chunk_len, ActionView, Event, Phase, StepView, WriteState};

verus! {

/// Number of cells that one bank bit and a sixteen-bit address field reach.
pub open spec fn medium_size() -> nat {
    0x2_0000
}

/// The cell that the chip selects when it is addressed as `device` and is
/// sent the in-page address field at the head of `field`: the bank from bit
/// 0 of the bus address, then the two bytes, the high one first.
pub open spec fn selected(device: u8, field: Seq<u8>) -> int {
    (device & 1) as int * 0x1_0000 + field[0] as int * 256 + field[1] as int
}

/// The memory after a page write of `payload`, an address field and up to
/// a page of data, to `device`. The chip stores the data from the selected
/// cell on and counts within the page: after the page's last cell it goes on
/// at the page's first.
pub open spec fn stored(memory: Seq<u8>, device: u8, payload: Seq<u8>) -> Seq<u8> {
    let start = selected(device, payload);
    Seq::new(
        memory.len(),
        |cell: int|
            {
                let turn = (cell - start) % (PAGE_SIZE as int);
                if cell / (PAGE_SIZE as int) == start / (PAGE_SIZE as int) && turn + 2
                    < payload.len() {
                    payload[turn + 2]
                } else {
                    memory[cell]
                }
            },
    )
}

/// What a read of `length` bytes hands out after `field` was sent to
/// `device`: the cells from the selected one on, in order.
pub open spec fn fetched(memory: Seq<u8>, device: u8, field: Seq<u8>, length: nat) -> Seq<u8> {
    Seq::new(length, |i: int| memory[(selected(device, field) + i) % (memory.len() as int)])
}

/// The memory after `action` was carried out: a page write stores its data,
/// a probe or a pause changes nothing.
pub open spec fn performed(memory: Seq<u8>, action: ActionView) -> Seq<u8> {
    match action {
        ActionView::Write { device, payload } => stored(memory, device, payload),
        _ => memory,
    }
}

/// Number of acknowledged actions from a phase to the end of the wait for
/// its chunk.
pub open spec fn steps_to_next_chunk(phase: Phase) -> int {
    match phase {
        Phase::Writing | Phase::Backoff { .. } => 2,
        Phase::Probing { .. } | Phase::Settling => 1,
    }
}

impl<I2C, D> At24Cx<I2C, D> {
    /// The memory after the transaction of a page write of `data` at
    /// `address`. Empty data is no transaction and leaves the memory as it
    /// is.
    pub open spec fn after_page_write(
        &self,
        memory: Seq<u8>,
        address: u32,
        data: Seq<u8>,
    ) -> Seq<u8> {
        if data.len() == 0 {
            memory
        } else {
            stored(memory, self.bus_address(address), address_field(address) + data)
        }
    }

    /// What the transaction of a read of `length` bytes at `offset` hands
    /// out.
    pub open spec fn read_back(&self, memory: Seq<u8>, offset: u32, length: nat) -> Seq<u8> {
        fetched(memory, self.bus_address(offset), address_field(offset), length)
    }

    /// The bus address and the address field that the driver sends for a
    /// memory address of the device select the cell of that address.
    pub proof fn lemma_selects_address(&self, address: u32, rest: Seq<u8>)
        requires
            self.wf(),
            address < self.capacity_spec(),
        ensures
            selected(self.bus_address(address), address_field(address) + rest) == address,
    {
        self.lemma_capacity_bounds();
        lemma_bank_is_quotient(address);
        let base = self.base_address();
        let b = bank(address);
        assert((base | b) & 1 == b) by (bit_vector)
            requires
                base & 1 == 0,
                b == 0 || b == 1,
        ;
        let field = address_field(address) + rest;
        assert(field[0] == address_field(address)[0]);
        assert(field[1] == address_field(address)[1]);
    }

    /// What is written within one page is what is read back.
    ///
    /// For a range that lies in the device and does not leave the page it
    /// starts in, the page write is accepted, the read of the same range on
    /// the memory that the page write leaves returns the data, and every
    /// cell of the range holds its byte of the data, and every cell outside
    /// the range is as it was.
    pub proof fn lemma_page_round_trip(&self, memory: Seq<u8>, offset: u32, data: Seq<u8>)
        requires
            self.wf(),
            memory.len() == medium_size(),
            offset + data.len() <= self.capacity_spec(),
            data.len() <= PAGE_SIZE - offset % (PAGE_SIZE as u32),
        ensures
            data.len() > 0 ==> self.page_writable(offset, data.len() as usize) && self.readable(
                offset,
                data.len() as usize,
            ),
            self.read_back(self.after_page_write(memory, offset, data), offset, data.len())
                == data,
            self.after_page_write(memory, offset, data).len() == memory.len(),
            forall|cell: int|
                offset <= cell < offset + data.len() ==> #[trigger] self.after_page_write(
                    memory,
                    offset,
                    data,
                )[cell] == data[cell - offset],
            forall|cell: int|
                0 <= cell < memory.len() && !(offset <= cell < offset + data.len())
                    ==> #[trigger] self.after_page_write(memory, offset, data)[cell]
                    == memory[cell],
    {
        self.lemma_capacity_bounds();
        let after = self.after_page_write(memory, offset, data);
        let back = self.read_back(after, offset, data.len());
        if data.len() > 0 {
            let payload = address_field(offset) + data;
            self.lemma_selects_address(offset, data);
            self.lemma_selects_address(offset, Seq::empty());
            assert(address_field(offset) + Seq::<u8>::empty() =~= address_field(offset));
            assert(payload.len() == data.len() + 2);
            assert forall|i: int| 0 <= i < data.len() implies back[i] == data[i] by {
                let cell = offset + i;
                assert((offset + i) % (memory.len() as int) == cell);
                assert((cell - offset) % 256 == i);
                assert(cell / 256 == offset / 256);
                assert(payload[i + 2] == data[i]);
            }
            assert forall|cell: int| offset <= cell < offset + data.len() implies #[trigger] after[cell]
                == data[cell - offset] by {
                let i = cell - offset;
                assert((cell - offset) % 256 == i);
                assert(cell / 256 == offset / 256);
                assert(payload[i + 2] == data[i]);
            }
            assert forall|cell: int|
                0 <= cell < memory.len() && !(offset <= cell < offset + data.len())
                    implies #[trigger] after[cell] == memory[cell] by {
                let turn = (cell - offset) % 256;
                if cell / 256 == offset / 256 && turn + 2 < payload.len() {
                    assert(cell - offset == turn || cell - offset == turn - 256);
                    assert(false);
                }
            }
        }
        assert(back =~= data);
    }

    /// The memory after the page writes of a write of `bytes` at `offset`,
    /// from the chunk that starts `done` bytes into the request to the last
    /// one, in order.
    pub open spec fn after_write(
        &self,
        memory: Seq<u8>,
        offset: u32,
        bytes: Seq<u8>,
        done: int,
    ) -> Seq<u8>
        decreases bytes.len() - done,
    {
        if done < 0 || done >= bytes.len() {
            memory
        } else {
            let chunk = chunk_len(offset + done, bytes.len() - done);
            self.after_write(
                self.after_page_write(
                    memory,
                    (offset + done) as u32,
                    bytes.subrange(done, done + chunk),
                ),
                offset,
                bytes,
                done + chunk,
            )
        }
    }

    /// The page write that the driver issues for the current chunk of a
    /// request is the first of the page writes that are left of it.
    pub proof fn lemma_chunk_write_is_next(
        &self,
        memory: Seq<u8>,
        state: WriteState,
        bytes: Seq<u8>,
    )
        requires
            self.wf(),
            self.admits(state, bytes),
        ensures
            performed(memory, self.chunk_write(state, bytes)) == self.after_page_write(
                memory,
                state.position() as u32,
                bytes.subrange(state.done as int, state.done + state.chunk()),
            ),
            self.after_write(memory, state.offset, bytes, state.done as int) == self.after_write(
                performed(memory, self.chunk_write(state, bytes)),
                state.offset,
                bytes,
                state.done + state.chunk(),
            ),
    {
        self.lemma_chunk_in_page(state, bytes);
    }

    /// The page writes of a write leave its bytes in its cells.
    ///
    /// For a range that lies in the device, the page writes of the chunks
    /// from `done` on leave their bytes in their cells and every other cell
    /// as it was.
    pub proof fn lemma_write_fills_range(
        &self,
        memory: Seq<u8>,
        offset: u32,
        bytes: Seq<u8>,
        done: int,
    )
        requires
            self.wf(),
            memory.len() == medium_size(),
            offset + bytes.len() <= self.capacity_spec(),
            0 <= done <= bytes.len(),
        ensures
            self.after_write(memory, offset, bytes, done).len() == memory.len(),
            forall|cell: int|
                0 <= cell < memory.len() ==> #[trigger] self.after_write(
                    memory,
                    offset,
                    bytes,
                    done,
                )[cell] == if offset + done <= cell < offset + bytes.len() {
                    bytes[cell - offset]
                } else {
                    memory[cell]
                },
        decreases bytes.len() - done,
    {
        self.lemma_capacity_bounds();
        let last = self.after_write(memory, offset, bytes, done);
        if done < bytes.len() {
            let position = (offset + done) as u32;
            let chunk = chunk_len(offset + done, bytes.len() - done);
            let data = bytes.subrange(done, done + chunk);
            let next = self.after_page_write(memory, position, data);
            assert(0 < chunk <= bytes.len() - done);
            assert(chunk <= PAGE_SIZE - position % (PAGE_SIZE as u32));
            assert(data.len() == chunk);
            assert(last == self.after_write(next, offset, bytes, done + chunk));
            assert(next.len() == memory.len() && (forall|cell: int|
                0 <= cell < memory.len() ==> #[trigger] next[cell] == if position <= cell < position
                    + chunk {
                    data[cell - position]
                } else {
                    memory[cell]
                })) by {
                self.lemma_page_round_trip(memory, position, data);
            }
            self.lemma_write_fills_range(next, offset, bytes, done + chunk);
            assert forall|cell: int| 0 <= cell < memory.len() implies #[trigger] last[cell] == if offset
                + done <= cell < offset + bytes.len() {
                bytes[cell - offset]
            } else {
                memory[cell]
            } by {
                if position <= cell < position + chunk {
                    assert(next[cell] == data[cell - position]);
                    assert(data[cell - position] == bytes[cell - offset]);
                }
            }
        }
    }

    /// What is written is what is read back, however many pages the range
    /// takes: for a range that lies in the device, a read of the range after
    /// the page writes of all its chunks returns the bytes of the request.
    pub proof fn lemma_write_round_trip(&self, memory: Seq<u8>, offset: u32, bytes: Seq<u8>)
        requires
            self.wf(),
            memory.len() == medium_size(),
            offset + bytes.len() <= self.capacity_spec(),
        ensures
            self.read_back(self.after_write(memory, offset, bytes, 0), offset, bytes.len())
                == bytes,
    {
        self.lemma_capacity_bounds();
        let last = self.after_write(memory, offset, bytes, 0);
        let back = self.read_back(last, offset, bytes.len());
        self.lemma_write_fills_range(memory, offset, bytes, 0);
        if bytes.len() > 0 {
            self.lemma_selects_address(offset, Seq::empty());
            assert(address_field(offset) + Seq::<u8>::empty() =~= address_field(offset));
            assert forall|i: int| 0 <= i < bytes.len() implies back[i] == bytes[i] by {
                assert((offset + i) % (last.len() as int) == offset + i);
                assert(back[i] == last[offset + i]);
            }
        }
        assert(back =~= bytes);
    }

    /// Whether the completion strategy can ever see a write cycle end: a
    /// fixed pause always does, and polling needs at least one probe.
    pub open spec fn can_complete(&self) -> bool {
        match self.completion() {
            Completion::AckPolling { max_retries, .. } => max_retries > 0,
            Completion::FixedDelay { .. } => true,
        }
    }

    /// The memory and the result at the end of the request when `action`,
    /// issued with `state`, and every action after it are acknowledged.
    pub open spec fn run_acknowledged<E>(
        &self,
        memory: Seq<u8>,
        state: WriteState,
        action: ActionView,
        bytes: Seq<u8>,
    ) -> (Seq<u8>, Result<(), Error<E>>)
        decreases state.length - state.done, steps_to_next_chunk(state.phase),
    {
        if !self.admits(state, bytes) {
            (memory, Ok(()))
        } else {
            match self.write_next_spec::<E>(state, Event::Completed, bytes) {
                StepView::Done(result) => (performed(memory, action), result),
                StepView::Issue { state: next, action: then } => self.run_acknowledged(
                    performed(memory, action),
                    next,
                    then,
                    bytes,
                ),
            }
        }
    }

    /// A write whose actions are all acknowledged ends well, and has then
    /// carried out the page writes of all chunks that were left, in order.
    pub proof fn lemma_acknowledged_run<E>(
        &self,
        memory: Seq<u8>,
        state: WriteState,
        bytes: Seq<u8>,
    )
        requires
            self.wf(),
            self.can_complete(),
            self.admits(state, bytes),
            state.phase is Writing,
        ensures
            self.run_acknowledged::<E>(memory, state, self.chunk_write(state, bytes), bytes) == (
                self.after_write(memory, state.offset, bytes, state.done as int),
                Ok::<(), Error<E>>(()),
            ),
        decreases state.length - state.done,
    {
        self.lemma_chunk_in_page(state, bytes);
        self.lemma_chunk_write_is_next(memory, state, bytes);
        let written = performed(memory, self.chunk_write(state, bytes));
        let waiting = match self.completion() {
            Completion::AckPolling { .. } => state.in_phase(Phase::Probing { attempt: 0 }),
            Completion::FixedDelay { .. } => state.in_phase(Phase::Settling),
        };
        let wait = match self.completion() {
            Completion::AckPolling { .. } => self.chunk_probe(state),
            Completion::FixedDelay { delay_ms } => ActionView::DelayMs { ms: delay_ms },
        };
        assert(self.write_next_spec::<E>(state, Event::Completed, bytes) == (StepView::<E>::Issue {
            state: waiting,
            action: wait,
        }));
        assert(self.run_acknowledged::<E>(memory, state, self.chunk_write(state, bytes), bytes)
            == self.run_acknowledged::<E>(written, waiting, wait, bytes));
        assert(self.admits(waiting, bytes));
        assert(performed(written, wait) == written);
        assert(self.write_next_spec::<E>(waiting, Event::Completed, bytes)
            == self.advance_spec::<E>(waiting, bytes));
        assert(waiting.advanced() == state.advanced());
        if state.done + state.chunk() >= state.length {
            assert(self.run_acknowledged::<E>(written, waiting, wait, bytes) == (
                written,
                Ok::<(), Error<E>>(()),
            ));
            assert(self.after_write(written, state.offset, bytes, state.done + state.chunk())
                == written);
        } else {
            let next = state.advanced();
            assert(self.run_acknowledged::<E>(written, waiting, wait, bytes)
                == self.run_acknowledged::<E>(written, next, self.chunk_write(next, bytes), bytes));
            self.lemma_acknowledged_run::<E>(written, next, bytes);
        }
    }

    /// A write that is begun and whose actions are all acknowledged ends
    /// well, and a read of its range then returns its bytes.
    pub proof fn lemma_acknowledged_write_reads_back<E>(
        &self,
        memory: Seq<u8>,
        offset: u32,
        bytes: Seq<u8>,
    )
        requires
            self.wf(),
            self.can_complete(),
            memory.len() == medium_size(),
            self.write_spec::<E>(offset, bytes) is Issue,
        ensures
            ({
                let first = self.write_spec::<E>(offset, bytes);
                let end = self.run_acknowledged::<E>(memory, first->state, first->action, bytes);
                &&& end.1 == Ok::<(), Error<E>>(())
                &&& end.0 == self.after_write(memory, offset, bytes, 0)
                &&& self.read_back(end.0, offset, bytes.len()) == bytes
            }),
    {
        self.lemma_capacity_bounds();
        let first = self.write_spec::<E>(offset, bytes);
        self.lemma_acknowledged_run::<E>(memory, first->state, bytes);
        self.lemma_write_round_trip(memory, offset, bytes);
    }
}

} // verus!
