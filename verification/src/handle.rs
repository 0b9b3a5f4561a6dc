//! The handle through which a driver uses an endpoint, and the wait for one
//! request: who may submit, what a poll does next, and when a wait that is given up
//! cancels.

use vstd::prelude::*;

use crate::endpoint::EndpointInfo;
use crate::endpoint::RequestId;
use crate::endpoint::TransferCompletion;
use crate::endpoint::TransferKindView;
use crate::endpoint::TransferRequest;
use crate::error::TransferError;
use crate::usb::EndpointType;

verus! {

/// Whether an endpoint can still be used.
#[derive(Clone, Copy, Debug, PartialEq, Eq, Structural)]
pub enum EndpointLifecycle {
    Active,
    /// A new configuration has replaced the endpoint.
    Revoked,
    /// The device is gone.
    Disconnected,
}

/// A driver's handle to an endpoint. Whoever shares an endpoint shares this value:
/// a copy would not hear that the endpoint was revoked.
#[derive(Debug)]
pub struct EndpointHandle {
    info: EndpointInfo,
    lifecycle: EndpointLifecycle,
}

/// Model of [`EndpointHandle`].
pub struct HandleView {
    pub info: EndpointInfo,
    pub lifecycle: EndpointLifecycle,
}

impl View for EndpointHandle {
    type V = HandleView;

    closed spec fn view(&self) -> HandleView {
        HandleView { info: self.info, lifecycle: self.lifecycle }
    }
}

/// The endpoint type that a kind of transfer runs on.
pub open spec fn type_for(kind: TransferKindView) -> EndpointType {
    match kind {
        TransferKindView::Control(_) => EndpointType::Control,
        TransferKindView::Bulk => EndpointType::Bulk,
        TransferKindView::Interrupt => EndpointType::Interrupt,
        TransferKindView::Isochronous { .. } => EndpointType::Isochronous,
    }
}

impl HandleView {
    /// What a request of the given kind is told before the endpoint sees it. A
    /// request of the wrong type is told so, whatever became of the endpoint.
    pub open spec fn gate(self, kind: TransferKindView) -> Result<(), TransferError> {
        if type_for(kind) != self.info.transfer_type {
            Err(TransferError::InvalidEndpoint)
        } else {
            match self.lifecycle {
                EndpointLifecycle::Active => Ok(()),
                EndpointLifecycle::Revoked => Err(TransferError::EndpointRevoked),
                EndpointLifecycle::Disconnected => Err(TransferError::Disconnected),
            }
        }
    }
}

/// How far a poll has come.
#[derive(Clone, Copy, Debug, PartialEq, Eq, Structural)]
pub enum PollRound {
    /// Nothing was done yet.
    First,
    /// The waker is registered.
    Registered,
}

/// What a poll does next.
#[derive(Debug)]
pub enum PollStep {
    /// The request is done.
    Ready(Result<TransferCompletion, TransferError>),
    /// Register the waker, and try to reclaim once more: an event may have come in
    /// before the waker was there to hear of it.
    Register,
    /// Wait for the waker.
    Pending,
}

/// What a poll does next, given what reclaiming the request came to.
pub open spec fn poll_next(
    round: PollRound,
    reclaimed: Option<Result<TransferCompletion, TransferError>>,
) -> PollStep {
    match reclaimed {
        Some(result) => PollStep::Ready(result),
        None => match round {
            PollRound::First => PollStep::Register,
            PollRound::Registered => PollStep::Pending,
        },
    }
}

/// The wait for a request, given what submitting it came to.
pub open spec fn wait_for(submitted: Result<RequestId, TransferError>) -> Result<
    FutureView,
    TransferError,
> {
    match submitted {
        Ok(id) => Ok(FutureView { id, completed: false }),
        Err(err) => Err(err),
    }
}

/// What a driver is told of a request, given what the endpoint made of it: nothing yet
/// is no error.
pub open spec fn told_of(
    reclaimed: Option<Result<TransferCompletion, TransferError>>,
) -> Result<Option<TransferCompletion>, TransferError> {
    match reclaimed {
        Some(Ok(completion)) => Ok(Some(completion)),
        Some(Err(err)) => Err(err),
        None => Ok(None),
    }
}

impl EndpointHandle {
    pub fn new(info: EndpointInfo) -> (handle: EndpointHandle)
        ensures
            handle@ == (HandleView { info, lifecycle: EndpointLifecycle::Active }),
    {
        EndpointHandle { info, lifecycle: EndpointLifecycle::Active }
    }

    pub fn info(&self) -> (info: EndpointInfo)
        ensures
            info == self@.info,
    {
        self.info
    }

    /// Whether a request may go to the endpoint.
    pub fn submit(&self, request: &TransferRequest) -> (result: Result<(), TransferError>)
        ensures
            result == self@.gate(request@.kind),
    {
        if let Err(err) = self.validate_request(request) {
            return Err(err);
        }
        match self.lifecycle {
            EndpointLifecycle::Active => Ok(()),
            EndpointLifecycle::Revoked => Err(TransferError::EndpointRevoked),
            EndpointLifecycle::Disconnected => Err(TransferError::Disconnected),
        }
    }

    /// What is returned for a request, given what the endpoint made of it.
    pub fn reclaim(
        &self,
        reclaimed: Option<Result<TransferCompletion, TransferError>>,
    ) -> (result: Result<Option<TransferCompletion>, TransferError>)
        ensures
            result == told_of(reclaimed),
            result == (match reclaimed {
                Some(Ok(completion)) => Ok::<Option<TransferCompletion>, TransferError>(
                    Some(completion),
                ),
                Some(Err(err)) => Err(err),
                None => Ok(None),
            }),
    {
        match reclaimed {
            Some(Ok(completion)) => Ok(Some(completion)),
            Some(Err(err)) => Err(err),
            None => Ok(None),
        }
    }

    /// What a poll for a request does next.
    pub fn poll_request(
        &self,
        round: PollRound,
        reclaimed: Option<Result<TransferCompletion, TransferError>>,
    ) -> (step: PollStep)
        ensures
            step == poll_next(round, reclaimed),
    {
        match reclaimed {
            Some(result) => PollStep::Ready(result),
            None => match round {
                PollRound::First => PollStep::Register,
                PollRound::Registered => PollStep::Pending,
            },
        }
    }

    /// The wait for a request, once the endpoint has taken it.
    pub fn wait(&self, submitted: Result<RequestId, TransferError>) -> (result: Result<
        EndpointRequestFuture,
        TransferError,
    >)
        ensures
            match result {
                Ok(future) => wait_for(submitted) == Ok::<FutureView, TransferError>(future@),
                Err(err) => wait_for(submitted) == Err::<FutureView, TransferError>(err),
            },
            match submitted {
                Ok(id) => result matches Ok(future) && future@ == (FutureView {
                    id,
                    completed: false,
                }),
                Err(err) => result == Err::<EndpointRequestFuture, TransferError>(err),
            },
    {
        match submitted {
            Ok(id) => Ok(EndpointRequestFuture { id, completed: false }),
            Err(err) => Err(err),
        }
    }

    pub fn revoke(&mut self)
        ensures
            final(self)@ == (HandleView { lifecycle: EndpointLifecycle::Revoked, ..old(self)@ }),
    {
        self.lifecycle = EndpointLifecycle::Revoked;
    }

    pub fn disconnect(&mut self)
        ensures
            final(self)@ == (HandleView {
                lifecycle: EndpointLifecycle::Disconnected,
                ..old(self)@
            }),
    {
        self.lifecycle = EndpointLifecycle::Disconnected;
    }

    pub fn reactivate(&mut self)
        ensures
            final(self)@ == (HandleView { lifecycle: EndpointLifecycle::Active, ..old(self)@ }),
    {
        self.lifecycle = EndpointLifecycle::Active;
    }

    fn validate_request(&self, request: &TransferRequest) -> (result: Result<(), TransferError>)
        ensures
            result == (if type_for(request@.kind) == self@.info.transfer_type {
                Ok::<(), TransferError>(())
            } else {
                Err(TransferError::InvalidEndpoint)
            }),
    {
        let request_type = match request {
            TransferRequest::Control { .. } => EndpointType::Control,
            TransferRequest::Bulk { .. } => EndpointType::Bulk,
            TransferRequest::Interrupt { .. } => EndpointType::Interrupt,
            TransferRequest::Isochronous { .. } => EndpointType::Isochronous,
        };
        if request_type == self.info.transfer_type {
            Ok(())
        } else {
            Err(TransferError::InvalidEndpoint)
        }
    }
}

/// The wait for one request.
#[derive(Debug)]
pub struct EndpointRequestFuture {
    id: RequestId,
    completed: bool,
}

/// Model of [`EndpointRequestFuture`].
pub struct FutureView {
    pub id: RequestId,
    pub completed: bool,
}

impl View for EndpointRequestFuture {
    type V = FutureView;

    closed spec fn view(&self) -> FutureView {
        FutureView { id: self.id, completed: self.completed }
    }
}

impl FutureView {
    /// The wait after a poll has come to `step`.
    pub open spec fn polled(self, step: PollStep) -> FutureView {
        FutureView { completed: self.completed || step is Ready, ..self }
    }

    /// The wait after a number of polls.
    pub open spec fn polled_all(self, steps: Seq<PollStep>) -> FutureView
        decreases steps.len(),
    {
        if steps.len() == 0 {
            self
        } else {
            self.polled_all(steps.drop_last()).polled(steps.last())
        }
    }

    /// The request that giving up the wait cancels: none where it has come to its
    /// end.
    pub open spec fn cancels(self) -> Option<RequestId> {
        if self.completed {
            None
        } else {
            Some(self.id)
        }
    }
}

impl EndpointRequestFuture {
    /// The request that is waited for.
    pub fn request_id(&self) -> (id: RequestId)
        ensures
            id == self@.id,
    {
        self.id
    }

    /// Takes note of what a poll came to.
    pub fn poll(&mut self, step: &PollStep)
        ensures
            final(self)@ == old(self)@.polled(*step),
    {
        match step {
            PollStep::Ready(_) => {
                self.completed = true;
            },
            _ => {},
        }
    }

    /// The request that is to be cancelled when the wait is given up.
    pub fn cancel_on_drop(&self) -> (id: Option<RequestId>)
        ensures
            id == self@.cancels(),
    {
        if self.completed {
            None
        } else {
            Some(self.id)
        }
    }
}

/// Giving up a wait cancels the request that is waited for as long as no poll has
/// found it done, and nothing after that.
pub proof fn law_giving_up_cancels_pending_only(id: RequestId, steps: Seq<PollStep>)
    ensures
        ({
            let future = (FutureView { id, completed: false }).polled_all(steps);
            &&& (exists|i: int| 0 <= i < steps.len() && #[trigger] steps[i] is Ready)
                ==> future.cancels() is None
            &&& (forall|i: int| 0 <= i < steps.len() ==> !(#[trigger] steps[i] is Ready))
                ==> future.cancels() == Some(id)
        }),
    decreases steps.len(),
{
    if steps.len() > 0 {
        law_giving_up_cancels_pending_only(id, steps.drop_last());
        let before = (FutureView { id, completed: false }).polled_all(steps.drop_last());
        assert(before.id == id) by {
            lemma_polls_keep_id(FutureView { id, completed: false }, steps.drop_last());
        }
        if exists|i: int| 0 <= i < steps.len() && #[trigger] steps[i] is Ready {
            let i = choose|i: int| 0 <= i < steps.len() && #[trigger] steps[i] is Ready;
            if i < steps.len() - 1 {
                assert(steps.drop_last()[i] is Ready);
            }
        }
        if forall|i: int| 0 <= i < steps.len() ==> !(#[trigger] steps[i] is Ready) {
            assert forall|i: int| 0 <= i < steps.drop_last().len() implies !(
            #[trigger] steps.drop_last()[i] is Ready) by {
                assert(!(steps[i] is Ready));
            }
            assert(!(steps[steps.len() - 1] is Ready));
        }
    }
}

proof fn lemma_polls_keep_id(future: FutureView, steps: Seq<PollStep>)
    ensures
        future.polled_all(steps).id == future.id,
    decreases steps.len(),
{
    if steps.len() > 0 {
        lemma_polls_keep_id(future, steps.drop_last());
    }
}

/// A poll asks to reclaim twice at most: it never registers a second time, and
/// whatever the second attempt comes to settles it.
pub proof fn law_second_round_settles(
    reclaimed: Option<Result<TransferCompletion, TransferError>>,
)
    ensures
        !(poll_next(PollRound::Registered, reclaimed) is Register),
        poll_next(PollRound::Registered, reclaimed) is Ready <==> reclaimed is Some,
        poll_next(PollRound::First, reclaimed) is Ready <==> reclaimed is Some,
        poll_next(PollRound::First, reclaimed) is Register <==> reclaimed is None,
{
}

/// An endpoint that is not active takes no request, of whatever type.
pub proof fn law_only_active_endpoints_take_requests(handle: HandleView, kind: TransferKindView)
    ensures
        handle.gate(kind) is Ok <==> handle.lifecycle == EndpointLifecycle::Active && type_for(kind)
            == handle.info.transfer_type,
{
}

/// An active endpoint takes a request exactly where the two are of one type, type by
/// type.
pub proof fn law_active_endpoint_takes_its_own_type(handle: HandleView, kind: TransferKindView)
    requires
        handle.lifecycle is Active,
    ensures
        handle.gate(kind) is Ok <==> {
            ||| kind is Control && handle.info.transfer_type is Control
            ||| kind is Bulk && handle.info.transfer_type is Bulk
            ||| kind is Interrupt && handle.info.transfer_type is Interrupt
            ||| kind is Isochronous && handle.info.transfer_type is Isochronous
        },
{
}

/// Each refusal says why: a request of another type than the endpoint's, whatever
/// became of the endpoint, and of its own type that the endpoint was revoked or that
/// the device is gone.
pub proof fn law_refusals_say_why(handle: HandleView, kind: TransferKindView)
    ensures
        ({
            let matches: bool = {
                ||| kind is Control && handle.info.transfer_type is Control
                ||| kind is Bulk && handle.info.transfer_type is Bulk
                ||| kind is Interrupt && handle.info.transfer_type is Interrupt
                ||| kind is Isochronous && handle.info.transfer_type is Isochronous
            };
            &&& !matches <==> (handle.gate(kind) matches Err(err) && err
                == TransferError::InvalidEndpoint)
            &&& matches && handle.lifecycle is Revoked <==> (handle.gate(kind) matches Err(err)
                && err == TransferError::EndpointRevoked)
            &&& matches && handle.lifecycle is Disconnected <==> (handle.gate(
                kind,
            ) matches Err(err) && err == TransferError::Disconnected)
        }),
{
}

/// A poll that finds the request done hands on exactly what it found, in whichever
/// round.
pub proof fn law_poll_hands_on_what_it_found(
    round: PollRound,
    result: Result<TransferCompletion, TransferError>,
)
    ensures
        poll_next(round, Some(result)) == PollStep::Ready(result),
        poll_next(PollRound::Registered, None) is Pending,
{
}

/// A driver is told of a completion exactly where the endpoint has one, of an error
/// exactly where the endpoint has one, and in each case of the very same.
pub proof fn law_driver_is_told_what_came_of_it(
    reclaimed: Option<Result<TransferCompletion, TransferError>>,
    completion: TransferCompletion,
    err: TransferError,
)
    ensures
        told_of(reclaimed) == Ok::<Option<TransferCompletion>, TransferError>(None) <==> reclaimed
            is None,
        told_of(reclaimed) == Ok::<Option<TransferCompletion>, TransferError>(Some(completion))
            <==> reclaimed == Some(Ok::<TransferCompletion, TransferError>(completion)),
        told_of(reclaimed) == Err::<Option<TransferCompletion>, TransferError>(err) <==> reclaimed
            == Some(Err::<TransferCompletion, TransferError>(err)),
{
}

/// A wait is begun exactly where the request was taken, for that very request, and
/// giving it up before the first poll cancels the request. A refusal is handed on.
pub proof fn law_wait_is_for_the_request_taken(submitted: Result<RequestId, TransferError>)
    ensures
        wait_for(submitted) is Ok <==> submitted is Ok,
        wait_for(submitted) matches Ok(future) ==> !future.completed && future.id == submitted->Ok_0
            && future.cancels() == Some(submitted->Ok_0),
        wait_for(submitted) matches Err(err) ==> submitted == Err::<RequestId, TransferError>(err),
{
}

} // verus!
