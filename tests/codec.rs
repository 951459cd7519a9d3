use bcm_socket::codec::BcmMsgHead;
use bcm_socket::layout::Layout;
use bcm_socket::msg::{BcmMsgHeadFrameLess, CanFrame, DecodeError, Timeval, RX_CHANGED};

fn layouts() -> Vec<Layout> {
    vec![
        Layout::new(4, true).unwrap(),
        Layout::new(4, false).unwrap(),
        Layout::new(8, true).unwrap(),
        Layout::new(8, false).unwrap(),
    ]
}

fn frame(seed: u8) -> CanFrame {
    let mut raw = [0u8; 16];
    for (i, b) in raw.iter_mut().enumerate() {
        *b = seed.wrapping_mul(31).wrapping_add(i as u8);
    }
    CanFrame::new(raw)
}

#[test]
fn layout_sizes_narrow() {
    let l = Layout::new(4, true).unwrap();
    assert_eq!(l.head_size(), 40);
    assert_eq!(l.unpadded_head_size(), 36);
    assert_eq!(l.narrow_pad(), 4);
    assert_eq!(l.head_size() - l.unpadded_head_size(), 4);
    assert_eq!(l.msg_size(), 40 + 256 * 16);
}

#[test]
fn layout_sizes_wide() {
    let l = Layout::new(8, true).unwrap();
    assert_eq!(l.head_size(), 56);
    assert_eq!(l.unpadded_head_size(), 56);
    assert_eq!(l.narrow_pad(), 0);
    assert_eq!(l.msg_size(), 56 + 256 * 16);
}

#[test]
fn layout_rejects_other_widths() {
    assert!(Layout::new(2, true).is_none());
    assert!(Layout::new(16, false).is_none());
}

#[test]
fn frame_less_header_has_header_size() {
    let h = BcmMsgHeadFrameLess {
        opcode: 1,
        flags: 2,
        count: 3,
        ival1: Timeval::zero(),
        ival2: Timeval::zero(),
        can_id: 4,
        nframes: 0,
    };
    assert_eq!(h.encode(&Layout::new(4, true).unwrap()).len(), 40);
    assert_eq!(h.encode(&Layout::new(8, true).unwrap()).len(), 56);
}

#[test]
fn header_bytes_little_endian_wide() {
    let l = Layout::new(8, true).unwrap();
    let m = BcmMsgHead::new(RX_CHANGED, 0x21, 7, Timeval { sec: 2, usec: 300 }, Timeval::zero(), 0x8000_0123, vec![]);
    let b = m.encode(&l);
    assert_eq!(b.len(), 56);
    assert_eq!(&b[0..4], &[12, 0, 0, 0]);
    assert_eq!(&b[4..8], &[0x21, 0, 0, 0]);
    assert_eq!(&b[8..12], &[7, 0, 0, 0]);
    assert_eq!(&b[12..16], &[0, 0, 0, 0]);
    assert_eq!(&b[16..24], &[2, 0, 0, 0, 0, 0, 0, 0]);
    assert_eq!(&b[24..32], &[0x2c, 0x01, 0, 0, 0, 0, 0, 0]);
    assert_eq!(&b[48..52], &[0x23, 0x01, 0, 0x80]);
    assert_eq!(&b[52..56], &[0, 0, 0, 0]);
}

#[test]
fn header_bytes_big_endian_narrow() {
    let l = Layout::new(4, false).unwrap();
    let m = BcmMsgHead::new(RX_CHANGED, 0, 0, Timeval { sec: 1, usec: 2 }, Timeval { sec: 3, usec: 4 }, 0x123, vec![frame(1)]);
    let b = m.encode(&l);
    assert_eq!(b.len(), 40 + 16);
    assert_eq!(&b[0..4], &[0, 0, 0, 12]);
    assert_eq!(&b[12..16], &[0, 0, 0, 1]);
    assert_eq!(&b[16..20], &[0, 0, 0, 2]);
    assert_eq!(&b[20..24], &[0, 0, 0, 3]);
    assert_eq!(&b[24..28], &[0, 0, 0, 4]);
    assert_eq!(&b[28..32], &[0, 0, 0x01, 0x23]);
    assert_eq!(&b[32..36], &[0, 0, 0, 1]);
    assert_eq!(&b[36..40], &[0, 0, 0, 0]);
    assert_eq!(&b[40..56], &frame(1).bytes());
}

#[test]
fn round_trip_keeps_frames() {
    for l in layouts() {
        for n in [0usize, 1, 3, 255, 256] {
            let frames: Vec<CanFrame> = (0..n).map(|i| frame(i as u8)).collect();
            let m = BcmMsgHead::new(RX_CHANGED, 0x40, 9, Timeval { sec: 5, usec: 6 }, Timeval { sec: 7, usec: 8 }, 0x1abc, frames.clone());
            let b = m.encode(&l);
            assert_eq!(b.len(), l.head_size() + 16 * n);
            let d = BcmMsgHead::decode(&b, b.len(), &l).unwrap();
            assert_eq!(d.frames().len(), n);
            for (x, y) in d.frames().iter().zip(frames.iter()) {
                assert_eq!(x.bytes(), y.bytes());
            }
            assert_eq!(d.opcode(), RX_CHANGED);
            assert_eq!(d.flags(), 0x40);
            assert_eq!(d.count(), 9);
            assert_eq!(d.ival1(), Timeval { sec: 5, usec: 6 });
            assert_eq!(d.ival2(), Timeval { sec: 7, usec: 8 });
            assert_eq!(d.can_id(), 0x1abc);
        }
    }
}

#[test]
fn narrow_words_keep_low_bytes_of_seconds() {
    let l = Layout::new(4, true).unwrap();
    let m = BcmMsgHead::new(RX_CHANGED, 0, 0, Timeval { sec: 0x1_0000_0005, usec: 1 }, Timeval::zero(), 1, vec![]);
    let d = BcmMsgHead::decode(&m.encode(&l), 40, &l).unwrap();
    assert_eq!(d.ival1(), Timeval { sec: 5, usec: 1 });
}

#[test]
fn decode_refuses_short_header() {
    let l = Layout::new(8, true).unwrap();
    let b = vec![0u8; 55];
    assert_eq!(BcmMsgHead::decode(&b, 55, &l).unwrap_err(), DecodeError::Truncated { len: 55, needed: 56 });
    assert_eq!(BcmMsgHead::decode(&b, 0, &l).unwrap_err(), DecodeError::Truncated { len: 0, needed: 56 });
}

#[test]
fn decode_refuses_too_many_frames() {
    let l = Layout::new(8, true).unwrap();
    let mut b = vec![0u8; 56];
    b[52] = 0x01;
    b[53] = 0x01;
    assert_eq!(BcmMsgHead::decode(&b, 56, &l).unwrap_err(), DecodeError::TooManyFrames { nframes: 257 });
}

#[test]
fn decode_refuses_missing_frames() {
    let l = Layout::new(4, true).unwrap();
    let m = BcmMsgHead::new(RX_CHANGED, 0, 0, Timeval::zero(), Timeval::zero(), 1, vec![frame(1), frame(2)]);
    let b = m.encode(&l);
    assert_eq!(BcmMsgHead::decode(&b, 40 + 16, &l).unwrap_err(), DecodeError::Truncated { len: 56, needed: 72 });
}

#[test]
fn decode_reads_only_announced_frames() {
    let l = Layout::new(8, true).unwrap();
    let m = BcmMsgHead::new(RX_CHANGED, 0, 0, Timeval::zero(), Timeval::zero(), 1, vec![frame(3)]);
    let mut b = m.encode(&l);
    b.extend_from_slice(&frame(4).bytes());
    let d = BcmMsgHead::decode(&b, b.len(), &l).unwrap();
    assert_eq!(d.frames().len(), 1);
    assert_eq!(d.frames()[0].bytes(), frame(3).bytes());
}

#[test]
fn timeval_from_parts() {
    assert_eq!(Timeval::new(3, 1_500_999), Timeval { sec: 3, usec: 1_500 });
    assert_eq!(Timeval::new(0, 999), Timeval { sec: 0, usec: 0 });
}

#[test]
fn empty_frame_is_zero() {
    assert_eq!(CanFrame::empty().bytes(), [0u8; 16]);
}
