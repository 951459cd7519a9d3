//! The requests of the operation layer: the bytes each one writes, and what
//! the byte count that the kernel reports back means.

use vstd::prelude::*;
use crate::codec::{BcmMsgHead, lemma_frames_bytes, lemma_head_bytes_len, lemma_parse_head};
use crate::layout::{
    FRAME_SIZE, Layout, MAX_NFRAMES, frames_size, head_size, lemma_layout_values, msg_size, word_ok,
};
use crate::msg::{
    BcmMsgHeadFrameLess, BcmMsgView, CanFrame, DecodeError, EFF_FLAG, RX_DELETE, RX_FILTER_ID,
    RX_SETUP, SETTIMER, Timeval, TxMsg, decode_spec, frames_bytes, frames_ok, frames_view,
    head_bytes, zeros,
};

verus! {

/// What a read or write system call reported.
#[derive(Clone, Copy, Debug, PartialEq, Eq)]
pub enum IoStatus {
    /// it moved this many bytes
    Done(usize),
    /// nothing could be moved without blocking
    WouldBlock,
    /// it failed with this system error number
    Failed(i32),
}

/// Errors of the broadcast manager's socket and requests.
#[derive(Clone, Copy, Debug, PartialEq, Eq)]
pub enum BcmError {
    /// creating, configuring or connecting the socket failed with this system error
    Open(i32),
    /// a read or write failed with this system error
    Io(i32),
    /// no message is queued yet
    WouldBlock,
    /// the kernel accepted another byte count than the request's shape implies
    ProtocolMismatch { written: usize, expected: usize },
    /// a write that had to move the whole buffer stopped short
    IncompleteWrite { written: usize, expected: usize },
    /// the bytes read are no message
    Decode(DecodeError),
}

/// The error that a system call that moved nothing stands for.
pub open spec fn io_error(status: IoStatus) -> BcmError {
    match status {
        IoStatus::WouldBlock => BcmError::WouldBlock,
        IoStatus::Failed(e) => BcmError::Io(e),
        IoStatus::Done(_) => BcmError::Io(0),
    }
}

/// The full frame array of a request, every record zero.
pub open spec fn zero_frames() -> Seq<Seq<u8>> {
    Seq::new(MAX_NFRAMES as nat, |i: int| zeros(16))
}

/// The header that subscribes to identifier `can_id` in extended form.
pub open spec fn filter_id_head(can_id: u32, ival1: Timeval, ival2: Timeval) -> BcmMsgHeadFrameLess {
    BcmMsgHeadFrameLess {
        opcode: RX_SETUP,
        flags: SETTIMER | RX_FILTER_ID,
        count: 0,
        ival1,
        ival2,
        can_id: can_id | EFF_FLAG,
        nframes: 0,
    }
}

/// The header that removes the subscription to `can_id`.
pub open spec fn filter_delete_head(can_id: u32) -> BcmMsgHeadFrameLess {
    BcmMsgHeadFrameLess {
        opcode: RX_DELETE,
        flags: 0,
        count: 0,
        ival1: Timeval { sec: 0, usec: 0 },
        ival2: Timeval { sec: 0, usec: 0 },
        can_id,
        nframes: 0,
    }
}

/// A request: its header, then the full zero frame array.
pub open spec fn request_bytes(h: BcmMsgHeadFrameLess, w: nat, le: bool) -> Seq<u8> {
    head_bytes(h, w, le) + frames_bytes(zero_frames())
}

/// The full frame array, every record zero.
fn empty_frames() -> (r: Vec<CanFrame>)
    ensures
        frames_view(r@) == zero_frames(),
{
    let mut v: Vec<CanFrame> = Vec::new();
    let mut i: usize = 0;
    while i < MAX_NFRAMES as usize
        invariant
            i <= MAX_NFRAMES,
            v@.len() == i,
            forall|k: int| 0 <= k < i ==> (#[trigger] v@[k])@ == zeros(16),
        decreases MAX_NFRAMES - i,
    {
        v.push(CanFrame::empty());
        i = i + 1;
    }
    assert(frames_view(v@) =~= zero_frames());
    v
}

proof fn lemma_request_len(h: BcmMsgHeadFrameLess, w: nat, le: bool)
    requires
        word_ok(w),
    ensures
        request_bytes(h, w, le).len() == msg_size(w),
{
    lemma_head_bytes_len(h, w, le);
    lemma_layout_values(w);
    assert(frames_ok(zero_frames()));
    lemma_frames_bytes(zero_frames());
}

/// The bytes that create a receive filter on identifier `can_id`, in extended
/// form, with the two intervals set: a frame-less header followed by the full
/// zero frame array.
pub fn filter_id_request(can_id: u32, ival1: Timeval, ival2: Timeval, layout: &Layout) -> (r: Vec<u8>)
    requires
        layout.wf(),
    ensures
        r@ == request_bytes(filter_id_head(can_id, ival1, ival2), layout.w(), layout.little_endian),
        r@.len() == msg_size(layout.w()),
{
    let msg = TxMsg {
        head: BcmMsgHeadFrameLess {
            opcode: RX_SETUP,
            flags: SETTIMER | RX_FILTER_ID,
            count: 0,
            ival1,
            ival2,
            can_id: can_id | EFF_FLAG,
            nframes: 0,
        },
        frames: empty_frames(),
    };
    proof { lemma_request_len(msg.head, layout.w(), layout.little_endian); }
    msg.encode(layout)
}

/// The bytes that remove the receive filter on `can_id`: a header with every
/// timer field zero and no frames announced, followed by the full zero frame array.
pub fn filter_delete_request(can_id: u32, layout: &Layout) -> (r: Vec<u8>)
    requires
        layout.wf(),
    ensures
        r@ == request_bytes(filter_delete_head(can_id), layout.w(), layout.little_endian),
        r@.len() == msg_size(layout.w()),
{
    let msg = TxMsg {
        head: BcmMsgHeadFrameLess {
            opcode: RX_DELETE,
            flags: 0,
            count: 0,
            ival1: Timeval::zero(),
            ival2: Timeval::zero(),
            can_id,
            nframes: 0,
        },
        frames: empty_frames(),
    };
    proof { lemma_request_len(msg.head, layout.w(), layout.little_endian); }
    msg.encode(layout)
}

/// What the write of a filter creation reports: only the whole buffer is success.
pub fn check_filter_id_write(status: IoStatus, layout: &Layout) -> (r: Result<(), BcmError>)
    requires
        layout.wf(),
    ensures
        match status {
            IoStatus::Done(n) => if n == msg_size(layout.w()) {
                r is Ok
            } else {
                r == Err::<(), BcmError>(
                    BcmError::IncompleteWrite { written: n, expected: msg_size(layout.w()) as usize },
                )
            },
            _ => r == Err::<(), BcmError>(io_error(status)),
        },
{
    let expected = layout.msg_size();
    match status {
        IoStatus::Done(n) => if n == expected {
            Ok(())
        } else {
            Err(BcmError::IncompleteWrite { written: n, expected })
        },
        IoStatus::WouldBlock => Err(BcmError::WouldBlock),
        IoStatus::Failed(e) => Err(BcmError::Io(e)),
    }
}

/// What the write of a filter removal reports. The kernel takes only the
/// header of a removal that announces no frames, so success is exactly the
/// message size less the frame array; any other count is a mismatch.
pub fn check_filter_delete_write(status: IoStatus, layout: &Layout) -> (r: Result<(), BcmError>)
    requires
        layout.wf(),
    ensures
        match status {
            IoStatus::Done(n) => if n == msg_size(layout.w()) - frames_size() {
                r is Ok
            } else {
                r == Err::<(), BcmError>(
                    BcmError::ProtocolMismatch {
                        written: n,
                        expected: (msg_size(layout.w()) - frames_size()) as usize,
                    },
                )
            },
            _ => r == Err::<(), BcmError>(io_error(status)),
        },
{
    let expected = layout.msg_size() - MAX_NFRAMES as usize * FRAME_SIZE;
    match status {
        IoStatus::Done(n) => if n == expected {
            Ok(())
        } else {
            Err(BcmError::ProtocolMismatch { written: n, expected })
        },
        IoStatus::WouldBlock => Err(BcmError::WouldBlock),
        IoStatus::Failed(e) => Err(BcmError::Io(e)),
    }
}

/// A zeroed buffer that holds the largest message.
pub fn read_buffer(layout: &Layout) -> (r: Vec<u8>)
    requires
        layout.wf(),
    ensures
        r@ == zeros(msg_size(layout.w())),
{
    let n = layout.msg_size();
    let mut v: Vec<u8> = Vec::new();
    let mut i: usize = 0;
    while i < n
        invariant
            i <= n,
            v@ == zeros(i as nat),
        decreases n - i,
    {
        v.push(0u8);
        i = i + 1;
        assert(v@ =~= zeros(i as nat));
    }
    v
}

/// The message that a read into `buf` delivered, given what the read reported.
/// A short or inconsistent message is refused rather than trusted.
pub fn read_result(buf: &[u8], status: IoStatus, layout: &Layout) -> (r: Result<BcmMsgHead, BcmError>)
    requires
        layout.wf(),
        status matches IoStatus::Done(n) ==> n <= buf@.len(),
    ensures
        match status {
            IoStatus::Done(n) => match decode_spec(buf@.take(n as int), layout.w(), layout.little_endian) {
                Ok(v) => r matches Ok(m) && m@ == v && m@.wf(),
                Err(e) => r == Err::<BcmMsgHead, BcmError>(BcmError::Decode(e)),
            },
            _ => r matches Err(e) && e == io_error(status),
        },
{
    match status {
        IoStatus::Done(n) => match BcmMsgHead::decode(buf, n, layout) {
            Ok(m) => Ok(m),
            Err(e) => Err(BcmError::Decode(e)),
        },
        IoStatus::WouldBlock => Err(BcmError::WouldBlock),
        IoStatus::Failed(e) => Err(BcmError::Io(e)),
    }
}

/// A filter creation request decodes as a receive-filter setup with the timer
/// and identifier-only flags both set, the identifier in extended form, and
/// no frames.
pub proof fn lemma_filter_id_request_decodes(
    can_id: u32,
    ival1: Timeval,
    ival2: Timeval,
    w: nat,
    le: bool,
)
    requires
        word_ok(w),
    ensures
        decode_spec(request_bytes(filter_id_head(can_id, ival1, ival2), w, le), w, le) matches Ok(m)
            && m.opcode == RX_SETUP && m.flags & SETTIMER == SETTIMER && m.flags & RX_FILTER_ID
            == RX_FILTER_ID && m.can_id == can_id | EFF_FLAG && m.frames.len() == 0,
{
    let h = filter_id_head(can_id, ival1, ival2);
    lemma_parse_head(h, w, le, frames_bytes(zero_frames()));
    lemma_request_len(h, w, le);
    lemma_layout_values(w);
    let f: u32 = SETTIMER | RX_FILTER_ID;
    assert(f & SETTIMER == SETTIMER && f & RX_FILTER_ID == RX_FILTER_ID) by (bit_vector)
        requires f == 1u32 | 0x20u32;
    let d = decode_spec(request_bytes(h, w, le), w, le);
    assert(d matches Ok(m) && m.frames =~= Seq::<Seq<u8>>::empty());
}

} // verus!
