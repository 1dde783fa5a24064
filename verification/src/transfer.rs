//! The write path: a request is cut at page boundaries, and after every page
//! write the end of the chip's write cycle is awaited before anything else
//! goes to the bus.
//!
//! The core decides and the caller performs. [`At24Cx::write`] says what to
//! do first; [`At24Cx::write_next`] is told how that ended and says what to
//! do next, until the request is done.

use vstd::prelude::*;
use vstd::slice::slice_subrange;
use crate::bounds::{check_write, slice_check, PAGE_SIZE, WRITE_SIZE};
use crate::device::{address_field, At24Cx, Completion};
use crate::error::Error;

verus! {

/// What the caller is busy with on behalf of a write request.
#[derive(Debug, Clone, Copy, PartialEq, Eq, Structural)]
pub enum Phase {
    /// The page write of the current chunk.
    Writing,
    /// Probe number `attempt`, counted from zero, after the current chunk.
    Probing { attempt: usize },
    /// The pause after probe number `attempt` was refused.
    Backoff { attempt: usize },
    /// The fixed pause after the current chunk.
    Settling,
}

/// Progress of a write request of `length` bytes at `offset`: `done` bytes
/// are written and their write cycles over, and the chunk that starts there
/// is in the given phase.
#[derive(Debug, Clone, Copy, PartialEq, Eq, Structural)]
pub struct WriteState {
    pub offset: u32,
    pub length: usize,
    pub done: usize,
    pub phase: Phase,
}

/// What the caller is asked to do next.
#[derive(Debug, PartialEq, Eq)]
pub enum Action {
    /// Write `payload` to bus address `device` in one transaction.
    Write { device: u8, payload: Vec<u8> },
    /// Read one byte from bus address `device`, to see whether the device
    /// acknowledges.
    Probe { device: u8 },
    /// Pause for `us` microseconds.
    DelayUs { us: u32 },
    /// Pause for `ms` milliseconds.
    DelayMs { ms: u32 },
}

/// An [`Action`] with its payload as a sequence.
pub enum ActionView {
    Write { device: u8, payload: Seq<u8> },
    Probe { device: u8 },
    DelayUs { us: u32 },
    DelayMs { ms: u32 },
}

impl View for Action {
    type V = ActionView;

    open spec fn view(&self) -> ActionView {
        match *self {
            Action::Write { device, payload } => ActionView::Write { device, payload: payload@ },
            Action::Probe { device } => ActionView::Probe { device },
            Action::DelayUs { us } => ActionView::DelayUs { us },
            Action::DelayMs { ms } => ActionView::DelayMs { ms },
        }
    }
}

/// How the last action ended. A pause always completes.
#[derive(Debug)]
pub enum Event<E> {
    /// The transaction was acknowledged, or the pause is over.
    Completed,
    /// The bus transport reported a failure.
    Failed(E),
}

/// The driver's answer: something to do, or the end of the request.
#[derive(Debug)]
pub enum Step<E> {
    /// Perform `action`, then hand `state` back with the outcome.
    Issue { state: WriteState, action: Action },
    /// The request is over, with this result. Nothing more goes to the bus.
    Done(Result<(), Error<E>>),
}

/// A [`Step`] with its action viewed.
pub enum StepView<E> {
    Issue { state: WriteState, action: ActionView },
    Done(Result<(), Error<E>>),
}

impl<E> View for Step<E> {
    type V = StepView<E>;

    open spec fn view(&self) -> StepView<E> {
        match *self {
            Step::Issue { state, action } => StepView::Issue { state, action: action@ },
            Step::Done(r) => StepView::Done(r),
        }
    }
}

/// Length of the chunk that starts at `position` when `remaining` bytes are
/// left: what is left, or what the page still has room for, whichever is
/// less.
pub open spec fn chunk_len(position: int, remaining: int) -> int {
    let room = PAGE_SIZE as int - position % (PAGE_SIZE as int);
    if remaining <= room {
        remaining
    } else {
        room
    }
}

impl WriteState {
    /// Memory address of the current chunk.
    pub open spec fn position(self) -> int {
        self.offset + self.done
    }

    /// Length of the current chunk.
    pub open spec fn chunk(self) -> int {
        chunk_len(self.position(), self.length - self.done)
    }

    /// The same request with its current chunk finished and the next one
    /// about to be written.
    pub open spec fn advanced(self) -> WriteState {
        WriteState {
            offset: self.offset,
            length: self.length,
            done: (self.done + self.chunk()) as usize,
            phase: Phase::Writing,
        }
    }

    /// The same request and chunk in another phase.
    pub open spec fn in_phase(self, phase: Phase) -> WriteState {
        WriteState { offset: self.offset, length: self.length, done: self.done, phase }
    }
}

impl<I2C, D> At24Cx<I2C, D> {
    /// Whether `state` is the progress of a write of `bytes` to this
    /// device: the request lies in the device, something is left of it, and
    /// the phase is one that the completion strategy has.
    pub open spec fn admits(&self, state: WriteState, bytes: Seq<u8>) -> bool {
        &&& bytes.len() == state.length
        &&& state.done < state.length
        &&& state.offset + state.length <= self.capacity_spec()
        &&& match state.phase {
            Phase::Writing => true,
            Phase::Probing { attempt } | Phase::Backoff { attempt } => match self.completion() {
                Completion::AckPolling { max_retries, .. } => attempt < max_retries,
                Completion::FixedDelay { .. } => false,
            },
            Phase::Settling => self.completion() is FixedDelay,
        }
    }

    /// The page write of the current chunk of `state`: to the bus address
    /// of the chunk's position, the in-page address field and then the
    /// chunk's bytes.
    pub open spec fn chunk_write(&self, state: WriteState, bytes: Seq<u8>) -> ActionView {
        ActionView::Write {
            device: self.bus_address(state.position() as u32),
            payload: address_field(state.position() as u32) + bytes.subrange(
                state.done as int,
                state.done + state.chunk(),
            ),
        }
    }

    /// The probe after the current chunk of `state`: to the bus address
    /// that the chunk was written to.
    pub open spec fn chunk_probe(&self, state: WriteState) -> ActionView {
        ActionView::Probe { device: self.bus_address(state.position() as u32) }
    }

    /// The first step of a write of `bytes` at `offset`.
    pub open spec fn write_spec<E>(&self, offset: u32, bytes: Seq<u8>) -> StepView<E> {
        match slice_check(
            self.capacity_spec(),
            WRITE_SIZE as int,
            offset as int,
            bytes.len() as int,
        ) {
            Err(k) => StepView::Done(Err(Error::of_kind(k))),
            Ok(_) => if bytes.len() == 0 {
                StepView::Done(Ok(()))
            } else {
                let state = WriteState {
                    offset,
                    length: bytes.len() as usize,
                    done: 0,
                    phase: Phase::Writing,
                };
                StepView::Issue { state, action: self.chunk_write(state, bytes) }
            },
        }
    }

    /// The step after the write cycle of the current chunk is over: the
    /// page write of the next chunk, or the end of the request.
    pub open spec fn advance_spec<E>(&self, state: WriteState, bytes: Seq<u8>) -> StepView<E> {
        if state.done + state.chunk() >= state.length {
            StepView::Done(Ok(()))
        } else {
            StepView::Issue {
                state: state.advanced(),
                action: self.chunk_write(state.advanced(), bytes),
            }
        }
    }

    /// The step after the page write of the current chunk was acknowledged:
    /// the first probe or the fixed pause. With no probe allowed the request
    /// times out at once.
    pub open spec fn await_spec<E>(&self, state: WriteState) -> StepView<E> {
        match self.completion() {
            Completion::AckPolling { max_retries, delay_us } => if max_retries == 0 {
                StepView::Done(Err(Error::WriteAckTimeout))
            } else {
                StepView::Issue {
                    state: state.in_phase(Phase::Probing { attempt: 0 }),
                    action: self.chunk_probe(state),
                }
            },
            Completion::FixedDelay { delay_ms } => StepView::Issue {
                state: state.in_phase(Phase::Settling),
                action: ActionView::DelayMs { ms: delay_ms },
            },
        }
    }

    /// The step that follows `event` in `state`.
    ///
    /// - A failed page write ends the request with the transport's error.
    /// - An acknowledged page write starts the wait for the write cycle.
    /// - An acknowledged probe, or the end of the fixed pause, ends the
    ///   wait: the next chunk follows.
    /// - A refused probe is followed by a pause, and the pause by the next
    ///   probe, or by a timeout when the budget is spent.
    pub open spec fn write_next_spec<E>(
        &self,
        state: WriteState,
        event: Event<E>,
        bytes: Seq<u8>,
    ) -> StepView<E> {
        match state.phase {
            Phase::Writing => match event {
                Event::Failed(e) => StepView::Done(Err(Error::I2cError(e))),
                Event::Completed => self.await_spec(state),
            },
            Phase::Probing { attempt } => match event {
                Event::Completed => self.advance_spec(state, bytes),
                Event::Failed(_) => StepView::Issue {
                    state: state.in_phase(Phase::Backoff { attempt }),
                    action: ActionView::DelayUs { us: self.completion()->delay_us },
                },
            },
            Phase::Backoff { attempt } => if attempt + 1 < self.completion()->max_retries {
                StepView::Issue {
                    state: state.in_phase(Phase::Probing { attempt: (attempt + 1) as usize }),
                    action: self.chunk_probe(state),
                }
            } else {
                StepView::Done(Err(Error::WriteAckTimeout))
            },
            Phase::Settling => self.advance_spec(state, bytes),
        }
    }

    /// The current chunk of an admitted state is not empty, does not leave
    /// its page, and is a page write that the device accepts.
    pub proof fn lemma_chunk_in_page(&self, state: WriteState, bytes: Seq<u8>)
        requires
            self.wf(),
            self.admits(state, bytes),
        ensures
            0 < state.chunk() <= state.length - state.done,
            state.chunk() <= PAGE_SIZE,
            state.position() / (PAGE_SIZE as int) == (state.position() + state.chunk() - 1) / (
            PAGE_SIZE as int),
            state.position() < self.capacity_spec() <= 0x2_0000,
            self.page_writable(state.position() as u32, state.chunk() as usize),
    {
        self.lemma_capacity_bounds();
    }

    /// Whether `state` is the progress of a write of `bytes` to this
    /// device, so that the write can be continued from it.
    pub fn accepts(&self, state: &WriteState, bytes: &[u8]) -> (yes: bool)
        requires
            self.wf(),
        ensures
            yes == self.admits(*state, bytes@),
    {
        if bytes.len() != state.length || state.done >= state.length {
            return false;
        }
        match check_write(self.capacity(), state.offset, state.length) {
            Err(_) => {
                return false;
            },
            Ok(_) => {},
        }
        match state.phase {
            Phase::Writing => true,
            Phase::Probing { attempt } | Phase::Backoff { attempt } => {
                match self.completion_strategy() {
                    Completion::AckPolling { max_retries, .. } => attempt < max_retries,
                    Completion::FixedDelay { .. } => false,
                }
            },
            Phase::Settling => match self.completion_strategy() {
                Completion::AckPolling { .. } => false,
                Completion::FixedDelay { .. } => true,
            },
        }
    }

    /// Address of the current chunk.
    fn chunk_position(&self, state: &WriteState, bytes: &[u8]) -> (position: u32)
        requires
            self.wf(),
            self.admits(*state, bytes@),
        ensures
            position == state.position(),
    {
        proof {
            self.lemma_capacity_bounds();
        }
        state.offset + state.done as u32
    }

    /// Length of the current chunk.
    fn chunk_length(&self, state: &WriteState, bytes: &[u8]) -> (chunk: usize)
        requires
            self.wf(),
            self.admits(*state, bytes@),
        ensures
            chunk == state.chunk(),
    {
        let position = self.chunk_position(state, bytes);
        let this_page_offset: usize = position as usize % PAGE_SIZE;
        let this_page_remaining: usize = PAGE_SIZE - this_page_offset;
        let remaining: usize = state.length - state.done;
        if remaining <= this_page_remaining {
            remaining
        } else {
            this_page_remaining
        }
    }

    /// Issues the page write of the current chunk.
    fn issue_chunk<E>(&self, state: WriteState, bytes: &[u8]) -> (step: Step<E>)
        requires
            self.wf(),
            self.admits(state, bytes@),
            state.phase is Writing,
        ensures
            step@ == (StepView::<E>::Issue { state, action: self.chunk_write(state, bytes@) }),
    {
        proof {
            self.lemma_chunk_in_page(state, bytes@);
        }
        let position = self.chunk_position(&state, bytes);
        let chunk = self.chunk_length(&state, bytes);
        let data = slice_subrange(bytes, state.done, state.done + chunk);
        match self.page_write::<E>(position, data) {
            Ok(Some(w)) => Step::Issue {
                state,
                action: Action::Write { device: w.device, payload: w.payload },
            },
            // The chunk is not empty and stays in its page, so the page write
            // is never left out and never refused.
            Ok(None) => Step::Done(Ok(())),
            Err(e) => Step::Done(Err(e)),
        }
    }

    /// Ends the wait after the current chunk.
    fn advance<E>(&self, state: WriteState, bytes: &[u8]) -> (step: Step<E>)
        requires
            self.wf(),
            self.admits(state, bytes@),
        ensures
            step@ == self.advance_spec::<E>(state, bytes@),
    {
        proof {
            self.lemma_chunk_in_page(state, bytes@);
        }
        let chunk = self.chunk_length(&state, bytes);
        let done: usize = state.done + chunk;
        if done >= state.length {
            Step::Done(Ok(()))
        } else {
            let next = WriteState {
                offset: state.offset,
                length: state.length,
                done,
                phase: Phase::Writing,
            };
            self.issue_chunk(next, bytes)
        }
    }

    /// Begins a write of `bytes` at `offset`.
    ///
    /// A range that reaches outside the device is refused with
    /// `OutOfBounds`, and an empty one inside it is done at once: either
    /// way nothing goes to the bus. Otherwise the first action is the page
    /// write of the first chunk.
    pub fn write<E>(&self, offset: u32, bytes: &[u8]) -> (step: Step<E>)
        requires
            self.wf(),
        ensures
            step@ == self.write_spec::<E>(offset, bytes@),
            offset + bytes@.len() > self.capacity_spec() ==> step@ == StepView::<E>::Done(
                Err(Error::OutOfBounds),
            ),
            offset + bytes@.len() <= self.capacity_spec() && bytes@.len() == 0 ==> step@
                == StepView::<E>::Done(Ok(())),
            offset + bytes@.len() <= self.capacity_spec() && bytes@.len() > 0 ==> step is Issue,
            step matches Step::Issue { state, .. } ==> self.admits(state, bytes@),
    {
        match check_write(self.capacity(), offset, bytes.len()) {
            Err(k) => {
                return Step::Done(Err(Error::from_kind(k)));
            },
            Ok(_) => {},
        }
        if bytes.len() == 0 {
            return Step::Done(Ok(()));
        }
        let state = WriteState { offset, length: bytes.len(), done: 0, phase: Phase::Writing };
        self.issue_chunk(state, bytes)
    }

    /// Continues a write of `bytes`: `state` and the action that came with
    /// it are what the last step issued, and `event` is how the action
    /// ended.
    pub fn write_next<E>(&self, state: WriteState, event: Event<E>, bytes: &[u8]) -> (step: Step<E>)
        requires
            self.wf(),
            self.admits(state, bytes@),
        ensures
            step@ == self.write_next_spec(state, event, bytes@),
            step matches Step::Issue { state: next, .. } ==> self.admits(next, bytes@),
    {
        proof {
            self.lemma_chunk_in_page(state, bytes@);
        }
        match state.phase {
            Phase::Writing => match event {
                Event::Failed(e) => Step::Done(Err(Error::I2cError(e))),
                Event::Completed => match self.completion_strategy() {
                    Completion::AckPolling { max_retries, delay_us } => {
                        if max_retries == 0 {
                            Step::Done(Err(Error::WriteAckTimeout))
                        } else {
                            self.issue_probe(state, 0, bytes)
                        }
                    },
                    Completion::FixedDelay { delay_ms } => Step::Issue {
                        state: WriteState {
                            offset: state.offset,
                            length: state.length,
                            done: state.done,
                            phase: Phase::Settling,
                        },
                        action: Action::DelayMs { ms: delay_ms },
                    },
                },
            },
            Phase::Probing { attempt } => match event {
                Event::Completed => self.advance(state, bytes),
                Event::Failed(_) => match self.completion_strategy() {
                    Completion::AckPolling { max_retries, delay_us } => Step::Issue {
                        state: WriteState {
                            offset: state.offset,
                            length: state.length,
                            done: state.done,
                            phase: Phase::Backoff { attempt },
                        },
                        action: Action::DelayUs { us: delay_us },
                    },
                    // No probe is under way with a fixed pause.
                    Completion::FixedDelay { .. } => Step::Done(Err(Error::WriteAckTimeout)),
                },
            },
            Phase::Backoff { attempt } => match self.completion_strategy() {
                Completion::AckPolling { max_retries, delay_us } => {
                    if attempt + 1 < max_retries {
                        self.issue_probe(state, attempt + 1, bytes)
                    } else {
                        Step::Done(Err(Error::WriteAckTimeout))
                    }
                },
                // No probe is paused after with a fixed pause.
                Completion::FixedDelay { .. } => Step::Done(Err(Error::WriteAckTimeout)),
            },
            Phase::Settling => self.advance(state, bytes),
        }
    }

    /// Issues probe number `attempt` after the current chunk.
    fn issue_probe<E>(&self, state: WriteState, attempt: usize, bytes: &[u8]) -> (step: Step<E>)
        requires
            self.wf(),
            self.admits(state, bytes@),
        ensures
            step@ == (StepView::<E>::Issue {
                state: state.in_phase(Phase::Probing { attempt }),
                action: self.chunk_probe(state),
            }),
    {
        proof {
            self.lemma_chunk_in_page(state, bytes@);
        }
        let position = self.chunk_position(&state, bytes);
        match self.get_device_address::<E>(position) {
            Ok(device) => Step::Issue {
                state: WriteState {
                    offset: state.offset,
                    length: state.length,
                    done: state.done,
                    phase: Phase::Probing { attempt },
                },
                action: Action::Probe { device },
            },
            // The chunk lies in the device, so its address resolves.
            Err(e) => Step::Done(Err(e)),
        }
    }
}

} // verus!
