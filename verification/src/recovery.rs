//! Stopping, resuming and resetting an endpoint: which commands the controller is
//! given, and what its replies lead to.

use vstd::prelude::*;

use crate::error::TransferError;
use crate::state::EndpointState;
use crate::trb::EnqueuePointer;
use crate::trb::reset_endpoint_trb;
use crate::trb::reset_endpoint_words;
use crate::trb::set_tr_dequeue_pointer_trb;
use crate::trb::set_tr_dequeue_pointer_words;
use crate::trb::stop_endpoint_trb;
use crate::trb::stop_endpoint_words;
use crate::xhci_endpoint::Endpoint;

verus! {

/// Which command of a reset comes next.
#[derive(Clone, Copy, Debug, PartialEq, Eq, Structural)]
pub enum ResetStage {
    /// Clear the halt in the controller.
    ResetEndpoint,
    /// Move the controller past the TRBs that the halt left behind.
    SetDequeuePointer,
}

/// A reset that is under way.
#[derive(Clone, Copy, Debug, PartialEq, Eq, Structural)]
pub struct ResetSequence {
    pub slot_id: u8,
    pub endpoint_id: u8,
    pub pointer: EnqueuePointer,
    pub stage: ResetStage,
}

/// What a reply to a command of a reset leads to.
#[derive(Clone, Copy, Debug, PartialEq, Eq)]
pub enum ResetProgress {
    /// Issue the next command.
    Continue(ResetSequence),
    /// The reset is over, and came to this.
    Finished(Result<(), TransferError>),
}

impl ResetSequence {
    /// The command that is to be issued.
    pub open spec fn command_words(self) -> Seq<u32> {
        match self.stage {
            ResetStage::ResetEndpoint => reset_endpoint_words(self.endpoint_id, self.slot_id),
            ResetStage::SetDequeuePointer => set_tr_dequeue_pointer_words(
                self.pointer,
                self.endpoint_id,
                self.slot_id,
            ),
        }
    }

    /// Builds the command that is to be issued.
    pub fn command(&self) -> (words: [u32; 4])
        requires
            self.endpoint_id <= 31,
            self.stage == ResetStage::SetDequeuePointer ==> self.pointer.address % 16 == 0,
        ensures
            words@ == self.command_words(),
    {
        match self.stage {
            ResetStage::ResetEndpoint => reset_endpoint_trb(self.endpoint_id, self.slot_id),
            ResetStage::SetDequeuePointer => {
                set_tr_dequeue_pointer_trb(self.pointer, self.endpoint_id, self.slot_id)
            },
        }
    }

    /// What `reply` leads to: the first failure ends the reset, and so does the
    /// last success.
    pub open spec fn after(self, reply: Result<(), TransferError>) -> ResetProgress {
        if reply is Ok && self.stage == ResetStage::ResetEndpoint {
            ResetProgress::Continue(ResetSequence { stage: ResetStage::SetDequeuePointer, ..self })
        } else {
            ResetProgress::Finished(reply)
        }
    }

    /// Takes the reply to the command.
    pub fn advance(self, reply: Result<(), TransferError>) -> (progress: ResetProgress)
        ensures
            progress == self.after(reply),
    {
        match reply {
            Ok(()) => match self.stage {
                ResetStage::ResetEndpoint => ResetProgress::Continue(
                    ResetSequence { stage: ResetStage::SetDequeuePointer, ..self },
                ),
                ResetStage::SetDequeuePointer => ResetProgress::Finished(reply),
            },
            Err(_) => ResetProgress::Finished(reply),
        }
    }
}

impl EndpointState {
    /// The command that stops the endpoint.
    pub open spec fn stop_words(self) -> Seq<u32> {
        stop_endpoint_words(self.config.dci, self.config.slot_id)
    }

    /// The command that lets a stopped endpoint go on at `pointer`.
    pub open spec fn resume_words(self, pointer: EnqueuePointer) -> Seq<u32> {
        set_tr_dequeue_pointer_words(pointer, self.config.dci, self.config.slot_id)
    }

    /// The doorbell that completes a resume, given the reply to its command.
    pub open spec fn resumed(self, reply: Result<(), TransferError>) -> Result<u8, TransferError> {
        match reply {
            Ok(()) => Ok(self.config.dci),
            Err(err) => Err(err),
        }
    }

    /// What asking for a reset comes to, where the ring stands at `pointer`.
    ///
    /// A reset has to wait for everything in flight. An endpoint that is not halted
    /// needs none, and of one that is being reset no second one can be had.
    pub open spec fn reset_asked(self, pointer: EnqueuePointer) -> ResetProgress {
        if !(self.inflight =~= Map::empty()) || self.outstanding != 0 {
            ResetProgress::Finished(Err(TransferError::QueueFull))
        } else if !self.halted {
            ResetProgress::Finished(Ok(()))
        } else if self.reset_in_progress {
            ResetProgress::Finished(Err(TransferError::QueueFull))
        } else {
            ResetProgress::Continue(
                ResetSequence {
                    slot_id: self.config.slot_id,
                    endpoint_id: self.config.dci,
                    pointer,
                    stage: ResetStage::ResetEndpoint,
                },
            )
        }
    }

    /// The state after a reset was asked for.
    pub open spec fn after_reset_asked(self, pointer: EnqueuePointer) -> EndpointState {
        EndpointState {
            reset_in_progress: self.reset_in_progress || self.reset_asked(pointer) is Continue,
            ..self
        }
    }

    /// The state after a reset that was under way came to `result`.
    pub open spec fn after_reset(self, result: Result<(), TransferError>) -> EndpointState {
        EndpointState {
            halted: self.halted && result is Err,
            reset_in_progress: false,
            ..self
        }
    }
}

impl Endpoint {
    /// The command that stops the endpoint.
    pub fn stop_command(&self) -> (words: [u32; 4])
        requires
            self@.config.dci <= 31,
        ensures
            words@ == self@.stop_words(),
            words@ == stop_endpoint_words(self@.config.dci, self@.config.slot_id),
    {
        stop_endpoint_trb(self.config.dci, self.config.slot_id)
    }

    /// The command that lets a stopped endpoint go on where the ring stands.
    pub fn resume_command(&self, pointer: EnqueuePointer) -> (words: [u32; 4])
        requires
            self@.config.dci <= 31,
            pointer.address % 16 == 0,
        ensures
            words@ == self@.resume_words(pointer),
            words@ == set_tr_dequeue_pointer_words(
                pointer,
                self@.config.dci,
                self@.config.slot_id,
            ),
    {
        set_tr_dequeue_pointer_trb(pointer, self.config.dci, self.config.slot_id)
    }

    /// The doorbell target that completes a resume, once its command succeeded.
    pub fn resume_doorbell(&self, reply: Result<(), TransferError>) -> (result: Result<
        u8,
        TransferError,
    >)
        ensures
            result == self@.resumed(reply),
            result == (match reply {
                Ok(()) => Ok::<u8, TransferError>(self@.config.dci),
                Err(err) => Err(err),
            }),
    {
        match reply {
            Ok(()) => Ok(self.config.dci),
            Err(err) => Err(err),
        }
    }

    /// Asks for a reset of a halted endpoint, where the ring stands at `pointer`.
    pub fn reset(&mut self, pointer: EnqueuePointer) -> (progress: ResetProgress)
        requires
            old(self)@.wf(),
        ensures
            progress == old(self)@.reset_asked(pointer),
            final(self)@ == old(self)@.after_reset_asked(pointer),
            final(self)@.wf(),
    {
        let idle: bool = self.inflight.is_empty();
        assert(idle == (self@.inflight =~= Map::empty())) by {
            assert(self@.inflight.dom() =~= self.inflight@.dom());
        }
        if !idle || self.outstanding_trbs != 0 {
            return ResetProgress::Finished(Err(TransferError::QueueFull));
        }
        if !self.halted {
            return ResetProgress::Finished(Ok(()));
        }
        if self.reset_in_progress {
            return ResetProgress::Finished(Err(TransferError::QueueFull));
        }
        self.reset_in_progress = true;
        ResetProgress::Continue(
            ResetSequence {
                slot_id: self.config.slot_id,
                endpoint_id: self.config.dci,
                pointer,
                stage: ResetStage::ResetEndpoint,
            },
        )
    }

    /// Ends a reset that was under way. Only a successful one clears the halt.
    pub fn finish_reset(&mut self, result: Result<(), TransferError>)
        requires
            old(self)@.wf(),
        ensures
            final(self)@ == old(self)@.after_reset(result),
            final(self)@.wf(),
    {
        if result.is_ok() {
            self.halted = false;
        }
        self.reset_in_progress = false;
    }
}

} // verus!
