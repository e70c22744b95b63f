//! How a request for a connection ends.

use vstd::prelude::*;

use crate::error::{FailureCause, TransportError};

verus! {

/// What came of a request for a connection.
pub enum Reply<C, E> {
    /// The listener is gone, so the request did not reach it.
    NotQueued,
    /// The listener dropped the request.
    Unanswered,
    /// The listener answered.
    Answered(Result<C, TransportError<E>>),
}

impl<C, E> Reply<C, E> {
    /// The connection that was asked for, or why there is none.
    pub fn into_result(self) -> (result: Result<C, TransportError<E>>)
        ensures
            result == match self {
                Reply::NotQueued => Err::<C, _>(TransportError::ChannelClosed),
                Reply::Unanswered => Err(
                    TransportError::ConnectionEstablishmentFailure {
                        cause: FailureCause::FailedToEstablish,
                    },
                ),
                Reply::Answered(result) => result,
            },
    {
        match self {
            Reply::NotQueued => Err(TransportError::ChannelClosed),
            Reply::Unanswered => Err(
                TransportError::ConnectionEstablishmentFailure {
                    cause: FailureCause::FailedToEstablish,
                },
            ),
            Reply::Answered(result) => result,
        }
    }
}

/// A request that the listener answered ends with that answer, whatever it is. One that did not
/// reach the listener, or that it dropped, ends with an error that says so.
pub proof fn requests_end_with_their_answer<C, E>(
    reply: Reply<C, E>,
    result: Result<C, TransportError<E>>,
)
    requires
        call_ensures(Reply::<C, E>::into_result, (reply,), result),
    ensures
        reply matches Reply::Answered(answer) ==> result == answer,
        reply is NotQueued ==> result == Err::<C, _>(TransportError::<E>::ChannelClosed),
        reply is Unanswered ==> result == Err::<C, _>(
            TransportError::<E>::ConnectionEstablishmentFailure {
                cause: FailureCause::FailedToEstablish,
            },
        ),
{
}

} // verus!
