use bcm_socket::codec::BcmMsgHead;
use bcm_socket::layout::Layout;
use bcm_socket::msg::{Timeval, EFF_FLAG, RX_DELETE, RX_FILTER_ID, RX_SETUP, SETTIMER};
use bcm_socket::ops::{
    check_filter_delete_write, check_filter_id_write, filter_delete_request, filter_id_request,
    read_buffer, read_result, BcmError, IoStatus,
};
use bcm_socket::msg::DecodeError;
use bcm_socket::socket::{can_addr, OpenState};

#[test]
fn filter_id_request_decodes_as_setup() {
    for (w, le) in [(4usize, true), (8, true), (8, false)] {
        let l = Layout::new(w, le).unwrap();
        let b = filter_id_request(0x123, Timeval::new(1, 500_000_000), Timeval::new(2, 0), &l);
        assert_eq!(b.len(), l.msg_size());
        let m = read_result(&b, IoStatus::Done(b.len()), &l).unwrap();
        assert_eq!(m.opcode(), RX_SETUP);
        assert_eq!(m.flags() & SETTIMER, SETTIMER);
        assert_eq!(m.flags() & RX_FILTER_ID, RX_FILTER_ID);
        assert_eq!(m.flags(), 0x21);
        assert_eq!(m.can_id(), 0x123 | EFF_FLAG);
        assert_eq!(m.can_id(), 0x8000_0123);
        assert_eq!(m.count(), 0);
        assert_eq!(m.frames().len(), 0);
        assert_eq!(m.ival1(), Timeval { sec: 1, usec: 500_000 });
        assert_eq!(m.ival2(), Timeval { sec: 2, usec: 0 });
        assert!(b[l.head_size()..].iter().all(|x| *x == 0));
    }
}

#[test]
fn filter_delete_request_decodes_as_delete() {
    let l = Layout::new(8, true).unwrap();
    let b = filter_delete_request(0x123, &l);
    assert_eq!(b.len(), 56 + 4096);
    let m = read_result(&b, IoStatus::Done(b.len()), &l).unwrap();
    assert_eq!(m.opcode(), RX_DELETE);
    assert_eq!(m.flags(), 0);
    assert_eq!(m.can_id(), 0x123);
    assert_eq!(m.ival1(), Timeval::zero());
    assert_eq!(m.frames().len(), 0);
}

#[test]
fn filter_id_write_must_be_whole() {
    let l = Layout::new(8, true).unwrap();
    assert_eq!(check_filter_id_write(IoStatus::Done(4152), &l), Ok(()));
    assert_eq!(
        check_filter_id_write(IoStatus::Done(56), &l),
        Err(BcmError::IncompleteWrite { written: 56, expected: 4152 })
    );
    assert_eq!(check_filter_id_write(IoStatus::Failed(19), &l), Err(BcmError::Io(19)));
    assert_eq!(check_filter_id_write(IoStatus::WouldBlock, &l), Err(BcmError::WouldBlock));
}

#[test]
fn filter_delete_write_counts() {
    for w in [4usize, 8] {
        let l = Layout::new(w, true).unwrap();
        let expected = l.msg_size() - 256 * 16;
        assert_eq!(expected, l.head_size());
        assert_eq!(check_filter_delete_write(IoStatus::Done(expected), &l), Ok(()));
        assert_eq!(
            check_filter_delete_write(IoStatus::Done(l.msg_size()), &l),
            Err(BcmError::ProtocolMismatch { written: l.msg_size(), expected })
        );
        assert_eq!(
            check_filter_delete_write(IoStatus::Done(0), &l),
            Err(BcmError::ProtocolMismatch { written: 0, expected })
        );
        assert_eq!(check_filter_delete_write(IoStatus::Failed(9), &l), Err(BcmError::Io(9)));
    }
}

fn open_stubbed(if_index: u32, l: &Layout) -> i32 {
    let addr = can_addr(if_index, l);
    assert_eq!(addr.len(), 16);
    let mut st = OpenState::Start;
    st = st.step(3, 0);
    assert_eq!(st, OpenState::Created(3));
    st = st.step(0, 0);
    assert_eq!(st, OpenState::NonBlocking(3));
    st = st.step(0, 0);
    st.outcome().unwrap().unwrap()
}

#[test]
fn delete_filter_end_to_end_success() {
    let l = Layout::new(8, true).unwrap();
    let fd = open_stubbed(5, &l);
    assert_eq!(fd, 3);
    let req = filter_delete_request(0x123, &l);
    let accepted = req.len() - 256 * 16;
    assert_eq!(check_filter_delete_write(IoStatus::Done(accepted), &l), Ok(()));
}

#[test]
fn delete_filter_end_to_end_mismatch() {
    let l = Layout::new(8, true).unwrap();
    open_stubbed(5, &l);
    let req = filter_delete_request(0x123, &l);
    let accepted = req.len() - 256 * 16 - 1;
    assert_eq!(
        check_filter_delete_write(IoStatus::Done(accepted), &l),
        Err(BcmError::ProtocolMismatch { written: 55, expected: 56 })
    );
}

#[test]
fn read_result_errors() {
    let l = Layout::new(8, true).unwrap();
    let b = read_buffer(&l);
    assert_eq!(b.len(), 4152);
    assert!(matches!(read_result(&b, IoStatus::WouldBlock, &l), Err(BcmError::WouldBlock)));
    assert!(matches!(read_result(&b, IoStatus::Failed(100), &l), Err(BcmError::Io(100))));
    assert!(matches!(
        read_result(&b, IoStatus::Done(20), &l),
        Err(BcmError::Decode(DecodeError::Truncated { len: 20, needed: 56 }))
    ));
    let m = read_result(&b, IoStatus::Done(56), &l).unwrap();
    assert_eq!(m.opcode(), 0);
    assert_eq!(m.frames().len(), 0);
}

#[test]
fn read_result_of_notification() {
    let l = Layout::new(4, true).unwrap();
    let n = BcmMsgHead::new(12, 0, 0, Timeval::zero(), Timeval::zero(), 0x7ff, vec![]);
    let mut b = read_buffer(&l);
    let e = n.encode(&l);
    b[..e.len()].copy_from_slice(&e);
    let m = read_result(&b, IoStatus::Done(e.len()), &l).unwrap();
    assert_eq!(m.opcode(), 12);
    assert_eq!(m.can_id(), 0x7ff);
}
