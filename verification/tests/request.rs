use connection_handler::error::{FailureCause, TransportError};
use connection_handler::request::Reply;

#[test]
fn an_answer_is_passed_on() {
    let connected: Reply<u8, ()> = Reply::Answered(Ok(7));
    assert!(matches!(connected.into_result(), Ok(7)));
    let closed: Reply<u8, &str> = Reply::Answered(Err(TransportError::Other("io")));
    assert!(matches!(closed.into_result(), Err(TransportError::Other("io"))));
}

#[test]
fn a_request_that_is_not_queued_finds_the_channel_closed() {
    let reply: Reply<u8, ()> = Reply::NotQueued;
    assert!(matches!(reply.into_result(), Err(TransportError::ChannelClosed)));
}

#[test]
fn a_dropped_request_fails() {
    let reply: Reply<u8, ()> = Reply::Unanswered;
    match reply.into_result() {
        Err(TransportError::ConnectionEstablishmentFailure { cause }) => {
            assert!(matches!(cause, FailureCause::FailedToEstablish));
            assert_eq!(cause.text(), "Failed to establish connection");
        }
        _ => panic!("not a failure to establish"),
    }
}
