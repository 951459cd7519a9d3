//! The broadcast manager's control message: its fields, its byte form, and
//! the decoding of what the kernel hands back.

use vstd::prelude::*;
use crate::layout::{
    MAX_NFRAMES, can_id_offset, fields_end, head_size, ival1_offset, nframes_offset,
};
use crate::word::{pow256, word_bytes, word_value};

verus! {

/// create (cyclic) transmission task
pub const TX_SETUP: u32 = 1;
/// remove (cyclic) transmission task
pub const TX_DELETE: u32 = 2;
/// read properties of (cyclic) transmission task
pub const TX_READ: u32 = 3;
/// send one CAN frame
pub const TX_SEND: u32 = 4;
/// create RX content filter subscription
pub const RX_SETUP: u32 = 5;
/// remove RX content filter subscription
pub const RX_DELETE: u32 = 6;
/// read properties of RX content filter subscription
pub const RX_READ: u32 = 7;
/// reply to TX_READ request
pub const TX_STATUS: u32 = 8;
/// notification on performed transmissions (count=0)
pub const TX_EXPIRED: u32 = 9;
/// reply to RX_READ request
pub const RX_STATUS: u32 = 10;
/// cyclic message is absent
pub const RX_TIMEOUT: u32 = 11;
/// sent if the first or a revised CAN message was received
pub const RX_CHANGED: u32 = 12;

/// set the value of ival1, ival2 and count
pub const SETTIMER: u32 = 0x0001;
/// start the timer with the actual value of ival1, ival2 and count;
/// starting the timer also emits a frame
pub const STARTTIMER: u32 = 0x0002;
/// create the message TX_EXPIRED when count expires
pub const TX_COUNTEVT: u32 = 0x0004;
/// a change of data by the process is emitted immediately
pub const TX_ANNOUNCE: u32 = 0x0008;
/// copies the can_id from the message header to each subsequent frame
pub const TX_CP_CAN_ID: u32 = 0x0010;
/// filter by can_id alone, no frames required (nframes=0)
pub const RX_FILTER_ID: u32 = 0x0020;
/// a change of the DLC leads to an RX_CHANGED
pub const RX_CHECK_DLC: u32 = 0x0040;
/// prevents the automatic start of the timeout timer
pub const RX_NO_AUTOTIMER: u32 = 0x0080;
/// emit RX_CHANGED when a cyclic reception resumes after a timeout
pub const RX_ANNOUNCE_RESUM: u32 = 0x0100;
/// forces a reset of the index counter of multiplex messages
pub const TX_RESET_MULTI_ID: u32 = 0x0200;
/// the filter passed is used as the frame sent on receipt of an RTR frame
pub const RX_RTR_FRAME: u32 = 0x0400;
pub const CAN_FD_FRAME: u32 = 0x0800;

/// The identifier bit that marks the extended (29-bit) form.
pub const EFF_FLAG: u32 = 0x8000_0000;

/// An interval as the kernel's `timeval` holds it: whole seconds and
/// microseconds, each stored in one native word.
#[derive(Clone, Copy, Debug, PartialEq, Eq)]
pub struct Timeval {
    pub sec: u64,
    pub usec: u64,
}

impl Timeval {
    /// The interval of `secs` seconds and `subsec_nanos` nanoseconds, to the microsecond.
    pub fn new(secs: u64, subsec_nanos: u32) -> (r: Timeval)
        ensures
            r.sec == secs,
            r.usec == subsec_nanos / 1000,
    {
        Timeval { sec: secs, usec: (subsec_nanos / 1000) as u64 }
    }

    /// The zero interval.
    pub fn zero() -> (r: Timeval)
        ensures
            r.sec == 0 && r.usec == 0,
    {
        Timeval { sec: 0, usec: 0 }
    }

    /// The value as stored in words of `w` bytes, which keep the low bytes only.
    pub open spec fn on_wire(self, w: nat) -> Timeval {
        Timeval {
            sec: (self.sec as nat % pow256(w)) as u64,
            usec: (self.usec as nat % pow256(w)) as u64,
        }
    }
}

/// One frame record, carried as its fixed-size bytes.
#[derive(Clone, Copy, Debug)]
pub struct CanFrame {
    pub raw: [u8; 16],
}

impl View for CanFrame {
    type V = Seq<u8>;

    open spec fn view(&self) -> Seq<u8> {
        self.raw@
    }
}

impl CanFrame {
    pub fn new(raw: [u8; 16]) -> (r: CanFrame)
        ensures
            r@ == raw@,
    {
        CanFrame { raw }
    }

    /// The record with every byte zero: identifier 0, no data.
    pub fn empty() -> (r: CanFrame)
        ensures
            r@ == Seq::new(16, |i: int| 0u8),
    {
        let r = CanFrame { raw: [0u8; 16] };
        assert(r@ =~= Seq::new(16, |i: int| 0u8));
        r
    }

    pub fn bytes(&self) -> (r: [u8; 16])
        ensures
            r@ == self@,
    {
        self.raw
    }

    /// The record held in the 16 bytes of `b` from `off` on.
    pub(crate) fn read_from(b: &[u8], off: usize) -> (r: CanFrame)
        requires
            off + 16 <= b@.len(),
        ensures
            r@ == b@.subrange(off as int, off + 16),
    {
        let _len = b.len();
        let mut raw = [0u8; 16];
        let mut j: usize = 0;
        while j < 16
            invariant
                j <= 16,
                off + 16 <= b@.len(),
                b@.len() <= usize::MAX,
                raw@.len() == 16,
                forall|k: int| 0 <= k < j ==> raw@[k] == b@[off + k],
            decreases 16 - j,
        {
            raw[j] = b[off + j];
            j = j + 1;
        }
        assert(raw@ =~= b@.subrange(off as int, off + 16));
        CanFrame { raw }
    }
}

/// `n` zero bytes.
pub open spec fn zeros(n: nat) -> Seq<u8> {
    Seq::new(n, |i: int| 0u8)
}

/// The message header without frames. The frame count is a field of its own,
/// so a header can announce frames that follow it separately.
#[derive(Clone, Copy, Debug, PartialEq, Eq)]
pub struct BcmMsgHeadFrameLess {
    pub opcode: u32,
    pub flags: u32,
    /// number of frames to send before changing interval
    pub count: u32,
    /// interval for the first count frames
    pub ival1: Timeval,
    /// interval for the following frames
    pub ival2: Timeval,
    pub can_id: u32,
    /// number of frames appended to the header
    pub nframes: u32,
}

impl BcmMsgHeadFrameLess {
    /// The header as read back from words of `w` bytes.
    pub open spec fn on_wire(self, w: nat) -> BcmMsgHeadFrameLess {
        BcmMsgHeadFrameLess { ival1: self.ival1.on_wire(w), ival2: self.ival2.on_wire(w), ..self }
    }
}

/// The bytes of a header on a host with words of `w` bytes.
pub open spec fn head_bytes(h: BcmMsgHeadFrameLess, w: nat, le: bool) -> Seq<u8> {
    word_bytes(h.opcode as nat, 4, le) + word_bytes(h.flags as nat, 4, le) + word_bytes(
        h.count as nat,
        4,
        le,
    ) + zeros((ival1_offset(w) - 12) as nat) + word_bytes(h.ival1.sec as nat, w, le) + word_bytes(
        h.ival1.usec as nat,
        w,
        le,
    ) + word_bytes(h.ival2.sec as nat, w, le) + word_bytes(h.ival2.usec as nat, w, le)
        + word_bytes(h.can_id as nat, 4, le) + word_bytes(h.nframes as nat, 4, le) + zeros(
        (head_size(w) - fields_end(w)) as nat,
    )
}

/// The bytes of a run of frame records, one after the other.
pub open spec fn frames_bytes(fs: Seq<Seq<u8>>) -> Seq<u8>
    decreases fs.len(),
{
    if fs.len() == 0 {
        Seq::empty()
    } else {
        frames_bytes(fs.drop_last()) + fs.last()
    }
}

/// Every record is 16 bytes long.
pub open spec fn frames_ok(fs: Seq<Seq<u8>>) -> bool {
    forall|i: int| 0 <= i < fs.len() ==> (#[trigger] fs[i]).len() == 16
}

/// The number stored in `n` bytes of `b` from `off` on.
pub open spec fn field(b: Seq<u8>, off: nat, n: nat, le: bool) -> nat {
    word_value(b.subrange(off as int, (off + n) as int), le)
}

/// The header that the first bytes of `b` hold.
pub open spec fn parse_head(b: Seq<u8>, w: nat, le: bool) -> BcmMsgHeadFrameLess {
    let i1 = ival1_offset(w);
    BcmMsgHeadFrameLess {
        opcode: field(b, 0, 4, le) as u32,
        flags: field(b, 4, 4, le) as u32,
        count: field(b, 8, 4, le) as u32,
        ival1: Timeval { sec: field(b, i1, w, le) as u64, usec: field(b, i1 + w, w, le) as u64 },
        ival2: Timeval {
            sec: field(b, i1 + 2 * w, w, le) as u64,
            usec: field(b, i1 + 3 * w, w, le) as u64,
        },
        can_id: field(b, can_id_offset(w), 4, le) as u32,
        nframes: field(b, nframes_offset(w), 4, le) as u32,
    }
}

/// The `n` frame records that follow the header in `b`.
pub open spec fn parse_frames(b: Seq<u8>, w: nat, n: nat) -> Seq<Seq<u8>> {
    Seq::new(n, |i: int| b.subrange(head_size(w) + 16 * i, head_size(w) + 16 * i + 16))
}

/// A message as plain values.
pub ghost struct BcmMsgView {
    pub opcode: u32,
    pub flags: u32,
    pub count: u32,
    pub ival1: Timeval,
    pub ival2: Timeval,
    pub can_id: u32,
    pub frames: Seq<Seq<u8>>,
}

impl BcmMsgView {
    /// The header of the message, with the frame count that its frames give.
    pub open spec fn head(self) -> BcmMsgHeadFrameLess {
        BcmMsgHeadFrameLess {
            opcode: self.opcode,
            flags: self.flags,
            count: self.count,
            ival1: self.ival1,
            ival2: self.ival2,
            can_id: self.can_id,
            nframes: self.frames.len() as u32,
        }
    }

    pub open spec fn wf(self) -> bool {
        self.frames.len() <= MAX_NFRAMES && frames_ok(self.frames)
    }

    /// The message as read back from words of `w` bytes.
    pub open spec fn on_wire(self, w: nat) -> BcmMsgView {
        BcmMsgView { ival1: self.ival1.on_wire(w), ival2: self.ival2.on_wire(w), ..self }
    }
}

/// The bytes of a message: its header, then exactly its frames.
pub open spec fn msg_bytes(m: BcmMsgView, w: nat, le: bool) -> Seq<u8> {
    head_bytes(m.head(), w, le) + frames_bytes(m.frames)
}

/// The bytes of each record of `fs`.
pub open spec fn frames_view(fs: Seq<CanFrame>) -> Seq<Seq<u8>> {
    Seq::new(fs.len(), |i: int| fs[i]@)
}

/// A frame-less header followed by a separately chosen run of frames, as
/// requests that must hand the kernel a buffer of a given shape build it.
#[derive(Clone, Debug)]
pub struct TxMsg {
    pub head: BcmMsgHeadFrameLess,
    pub frames: Vec<CanFrame>,
}

/// Why bytes are no message.
#[derive(Clone, Copy, Debug, PartialEq, Eq)]
pub enum DecodeError {
    /// fewer bytes than a header, or than the frames it announces
    Truncated { len: usize, needed: usize },
    /// the header announces more frames than a message can hold
    TooManyFrames { nframes: u32 },
}

/// What decoding `b` gives.
pub open spec fn decode_spec(b: Seq<u8>, w: nat, le: bool) -> Result<BcmMsgView, DecodeError> {
    if b.len() < head_size(w) {
        Err(DecodeError::Truncated { len: b.len() as usize, needed: head_size(w) as usize })
    } else {
        let h = parse_head(b, w, le);
        if h.nframes > MAX_NFRAMES {
            Err(DecodeError::TooManyFrames { nframes: h.nframes })
        } else if b.len() < head_size(w) + 16 * h.nframes {
            Err(
                DecodeError::Truncated {
                    len: b.len() as usize,
                    needed: (head_size(w) + 16 * h.nframes) as usize,
                },
            )
        } else {
            Ok(
                BcmMsgView {
                    opcode: h.opcode,
                    flags: h.flags,
                    count: h.count,
                    ival1: h.ival1,
                    ival2: h.ival2,
                    can_id: h.can_id,
                    frames: parse_frames(b, w, h.nframes as nat),
                },
            )
        }
    }
}

} // verus!
