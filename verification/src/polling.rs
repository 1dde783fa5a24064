//! Acknowledge polling under a device that keeps refusing.

use vstd::prelude::*;
use crate::device::At24Cx;
use crate::error::Error;
use crate::transfer::{ActionView, Event, Phase, StepView, WriteState};

verus! {

impl<I2C, D> At24Cx<I2C, D> {
    /// The step reached from `state`, in which a probe is under way, when
    /// that probe and the ones after it are refused with `refusals` in turn
    /// and every pause is waited out. Once the request has ended, what is
    /// left of `refusals` changes nothing.
    pub open spec fn after_refusals<E>(
        &self,
        state: WriteState,
        refusals: Seq<E>,
        bytes: Seq<u8>,
    ) -> StepView<E>
        decreases refusals.len(),
    {
        if refusals.len() == 0 {
            StepView::Issue { state, action: self.chunk_probe(state) }
        } else {
            match self.write_next_spec(state, Event::Failed(refusals[0]), bytes) {
                StepView::Issue { state: paused, .. } => match self.write_next_spec(
                    paused,
                    Event::<E>::Completed,
                    bytes,
                ) {
                    StepView::Issue { state: next, .. } => self.after_refusals(
                        next,
                        refusals.drop_first(),
                        bytes,
                    ),
                    done => done,
                },
                done => done,
            }
        }
    }

    /// Every refused probe is followed by one pause of the configured
    /// length. While the budget lasts, the pause is followed by the next
    /// probe of the same bus address. The refusal that spends the budget is
    /// followed by its pause and then by `WriteAckTimeout`: a device that
    /// refuses every probe gets exactly as many probes and pauses as the
    /// budget allows, and nothing after them.
    pub proof fn lemma_refusals_time_out<E>(
        &self,
        state: WriteState,
        refusals: Seq<E>,
        bytes: Seq<u8>,
    )
        requires
            self.wf(),
            self.admits(state, bytes),
            state.phase is Probing,
        ensures
            ({
                let attempt = state.phase->Probing_attempt;
                let budget = self.completion()->max_retries;
                &&& forall|e: E| #[trigger]
                    self.write_next_spec(state, Event::Failed(e), bytes) == (StepView::<
                        E,
                    >::Issue {
                        state: state.in_phase(Phase::Backoff { attempt }),
                        action: ActionView::DelayUs { us: self.completion()->delay_us },
                    })
                &&& attempt + refusals.len() < budget ==> self.after_refusals(
                    state,
                    refusals,
                    bytes,
                ) == (StepView::<E>::Issue {
                    state: state.in_phase(
                        Phase::Probing { attempt: (attempt + refusals.len()) as usize },
                    ),
                    action: self.chunk_probe(state),
                })
                &&& attempt + refusals.len() >= budget ==> self.after_refusals(
                    state,
                    refusals,
                    bytes,
                ) == StepView::<E>::Done(Err(Error::WriteAckTimeout))
            }),
        decreases refusals.len(),
    {
        let attempt = state.phase->Probing_attempt;
        let budget = self.completion()->max_retries;
        if refusals.len() > 0 {
            let paused = state.in_phase(Phase::Backoff { attempt });
            assert(self.write_next_spec(state, Event::Failed(refusals[0]), bytes) == (StepView::<
                E,
            >::Issue {
                state: paused,
                action: ActionView::DelayUs { us: self.completion()->delay_us },
            }));
            if attempt + 1 < budget {
                let next = state.in_phase(Phase::Probing { attempt: (attempt + 1) as usize });
                assert(self.write_next_spec(paused, Event::<E>::Completed, bytes) == (StepView::<
                    E,
                >::Issue { state: next, action: self.chunk_probe(paused) }));
                self.lemma_refusals_time_out(next, refusals.drop_first(), bytes);
                assert(next.position() == state.position());
            } else {
                assert(self.write_next_spec(paused, Event::<E>::Completed, bytes)
                    == StepView::<E>::Done(Err(Error::WriteAckTimeout)));
            }
        }
    }
}

} // verus!
