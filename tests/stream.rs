use bcm_socket::codec::BcmMsgHead;
use bcm_socket::msg::{Timeval, RX_CHANGED};
use bcm_socket::ops::BcmError;
use bcm_socket::stream::{BcmStreamState, PollStep, StreamPoll};

fn message() -> BcmMsgHead {
    BcmMsgHead::new(RX_CHANGED, 0, 0, Timeval::zero(), Timeval::zero(), 0x42, vec![])
}

#[test]
fn scripted_reactor_polls() {
    let mut s = BcmStreamState::new();
    // not readable
    assert_eq!(s.begin_poll(false), PollStep::NotReady);
    // readable, but the read would block
    assert_eq!(s.begin_poll(true), PollStep::Read);
    let (p, rearm) = s.complete_poll(Err(BcmError::WouldBlock));
    assert!(matches!(p, StreamPoll::NotReady));
    assert!(rearm);
    // readable with one message
    assert_eq!(s.begin_poll(true), PollStep::Read);
    let (p, rearm) = s.complete_poll(Ok(message()));
    assert!(!rearm);
    match p {
        StreamPoll::Item(m) => assert_eq!(m.can_id(), 0x42),
        _ => panic!("expected an item"),
    }
}

#[test]
fn other_errors_end_the_stream() {
    let mut s = BcmStreamState::new();
    assert_eq!(s.begin_poll(true), PollStep::Read);
    let (p, rearm) = s.complete_poll(Err(BcmError::Io(5)));
    assert!(matches!(p, StreamPoll::Failed(BcmError::Io(5))));
    assert!(!rearm);
    assert!(s.ended);
    assert_eq!(s.begin_poll(true), PollStep::Ended);
}
