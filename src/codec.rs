//! Encoding of messages to bytes and decoding of the kernel's bytes.

use vstd::prelude::*;
use crate::layout::{
    Layout, MAX_NFRAMES, can_id_offset, fields_end, head_size, ival1_offset, lemma_layout_values,
    nframes_offset, word_ok,
};
use crate::msg::{
    CanFrame, DecodeError, Timeval, TxMsg, frames_view, BcmMsgHeadFrameLess, BcmMsgView, decode_spec, field, frames_bytes, frames_ok, head_bytes,
    msg_bytes, parse_frames, parse_head, zeros,
};
use crate::word::{
    lemma_pow256_values, lemma_word_bytes_len, lemma_word_round_trip, lemma_word_value_bound,
    pow256, push_word, read_word, word_bytes,
};

verus! {

pub proof fn lemma_head_bytes_len(h: BcmMsgHeadFrameLess, w: nat, le: bool)
    requires
        word_ok(w),
    ensures
        head_bytes(h, w, le).len() == head_size(w),
{
    lemma_layout_values(w);
    lemma_word_bytes_len(h.opcode as nat, 4, le);
    lemma_word_bytes_len(h.flags as nat, 4, le);
    lemma_word_bytes_len(h.count as nat, 4, le);
    lemma_word_bytes_len(h.ival1.sec as nat, w, le);
    lemma_word_bytes_len(h.ival1.usec as nat, w, le);
    lemma_word_bytes_len(h.ival2.sec as nat, w, le);
    lemma_word_bytes_len(h.ival2.usec as nat, w, le);
    lemma_word_bytes_len(h.can_id as nat, 4, le);
    lemma_word_bytes_len(h.nframes as nat, 4, le);
}

proof fn lemma_u32_field(v: u32, b: Seq<u8>, off: nat, le: bool)
    requires
        b.subrange(off as int, off + 4int) == word_bytes(v as nat, 4, le),
        off + 4 <= b.len(),
    ensures
        field(b, off, 4, le) as u32 == v,
{
    lemma_word_round_trip(v as nat, 4, le);
    lemma_pow256_values();
}

proof fn lemma_word_field(v: u64, b: Seq<u8>, off: nat, w: nat, le: bool)
    requires
        b.subrange(off as int, (off + w) as int) == word_bytes(v as nat, w, le),
        off + w <= b.len(),
        word_ok(w),
    ensures
        field(b, off, w, le) as u64 == (v as nat % pow256(w)) as u64,
{
    lemma_word_round_trip(v as nat, w, le);
}

/// A header followed by anything reads back as that header, cut to the word width.
pub proof fn lemma_parse_head(h: BcmMsgHeadFrameLess, w: nat, le: bool, rest: Seq<u8>)
    requires
        word_ok(w),
    ensures
        parse_head(head_bytes(h, w, le) + rest, w, le) == h.on_wire(w),
{
    lemma_head_bytes_len(h, w, le);
    lemma_layout_values(w);
    lemma_word_bytes_len(h.opcode as nat, 4, le);
    lemma_word_bytes_len(h.flags as nat, 4, le);
    lemma_word_bytes_len(h.count as nat, 4, le);
    lemma_word_bytes_len(h.ival1.sec as nat, w, le);
    lemma_word_bytes_len(h.ival1.usec as nat, w, le);
    lemma_word_bytes_len(h.ival2.sec as nat, w, le);
    lemma_word_bytes_len(h.ival2.usec as nat, w, le);
    lemma_word_bytes_len(h.can_id as nat, 4, le);
    lemma_word_bytes_len(h.nframes as nat, 4, le);
    let b = head_bytes(h, w, le) + rest;
    let i1 = ival1_offset(w);
    let o: int = i1 as int;
    let wi: int = w as int;
    let c: int = can_id_offset(w) as int;
    assert(b.subrange(0, 4) =~= word_bytes(h.opcode as nat, 4, le));
    assert(b.subrange(4, 8) =~= word_bytes(h.flags as nat, 4, le));
    assert(b.subrange(8, 12) =~= word_bytes(h.count as nat, 4, le));
    assert(b.subrange(o, o + wi) =~= word_bytes(h.ival1.sec as nat, w, le));
    assert(b.subrange(o + wi, o + 2 * wi) =~= word_bytes(h.ival1.usec as nat, w, le));
    assert(b.subrange(o + 2 * wi, o + 3 * wi) =~= word_bytes(h.ival2.sec as nat, w, le));
    assert(b.subrange(o + 3 * wi, o + 4 * wi) =~= word_bytes(h.ival2.usec as nat, w, le));
    assert(b.subrange(c, c + 4) =~= word_bytes(h.can_id as nat, 4, le));
    assert(b.subrange(c + 4, c + 8) =~= word_bytes(h.nframes as nat, 4, le));
    lemma_u32_field(h.opcode, b, 0, le);
    lemma_u32_field(h.flags, b, 4, le);
    lemma_u32_field(h.count, b, 8, le);
    lemma_word_field(h.ival1.sec, b, i1, w, le);
    lemma_word_field(h.ival1.usec, b, i1 + w, w, le);
    lemma_word_field(h.ival2.sec, b, i1 + 2 * w, w, le);
    lemma_word_field(h.ival2.usec, b, i1 + 3 * w, w, le);
    lemma_u32_field(h.can_id, b, can_id_offset(w), le);
    lemma_u32_field(h.nframes, b, nframes_offset(w), le);
    assert(parse_head(b, w, le) =~= h.on_wire(w));
}

/// Records of 16 bytes laid end to end: the run has 16 bytes per record and
/// record `i` sits at `16 * i`.
pub proof fn lemma_frames_bytes(fs: Seq<Seq<u8>>)
    requires
        frames_ok(fs),
    ensures
        frames_bytes(fs).len() == 16 * fs.len(),
        forall|i: int|
            0 <= i < fs.len() ==> #[trigger] frames_bytes(fs).subrange(16 * i, 16 * i + 16)
                == fs[i],
    decreases fs.len(),
{
    if fs.len() > 0 {
        let init = fs.drop_last();
        assert(frames_ok(init)) by {
            assert forall|i: int| 0 <= i < init.len() implies (#[trigger] init[i]).len() == 16 by {
                assert(init[i] == fs[i]);
            }
        }
        lemma_frames_bytes(init);
        let all = frames_bytes(fs);
        assert(all == frames_bytes(init) + fs.last());
        assert forall|i: int| 0 <= i < fs.len() implies #[trigger] all.subrange(16 * i, 16 * i + 16)
            == fs[i] by {
            if i < fs.len() - 1 {
                assert(init[i] == fs[i]);
                assert(all.subrange(16 * i, 16 * i + 16) =~= frames_bytes(init).subrange(
                    16 * i,
                    16 * i + 16,
                ));
            } else {
                assert(all.subrange(16 * i, 16 * i + 16) =~= fs.last());
            }
        }
    }
}

/// Encoding a well-formed message and decoding the bytes gives the message
/// back: the same header fields, cut to the word width, and exactly its
/// frames, byte for byte.
pub proof fn lemma_round_trip(m: BcmMsgView, w: nat, le: bool)
    requires
        word_ok(w),
        m.wf(),
    ensures
        decode_spec(msg_bytes(m, w, le), w, le) == Ok::<BcmMsgView, crate::msg::DecodeError>(
            m.on_wire(w),
        ),
        decode_spec(msg_bytes(m, w, le), w, le) matches Ok(d) && d.frames == m.frames,
{
    let h = m.head();
    let fb = frames_bytes(m.frames);
    let b = msg_bytes(m, w, le);
    lemma_parse_head(h, w, le, fb);
    lemma_head_bytes_len(h, w, le);
    lemma_frames_bytes(m.frames);
    let n = m.frames.len();
    assert(parse_head(b, w, le).nframes == n);
    let got = parse_frames(b, w, n);
    assert forall|i: int| 0 <= i < n implies #[trigger] got[i] == m.frames[i] by {
        assert(fb.subrange(16 * i, 16 * i + 16) == m.frames[i]);
        assert(got[i] =~= fb.subrange(16 * i, 16 * i + 16));
    }
    assert(got =~= m.frames);
    assert(decode_spec(b, w, le) == Ok::<BcmMsgView, crate::msg::DecodeError>(m.on_wire(w)));
}

} // verus!

verus! {

/// Appends `n` zero bytes.
fn push_zeros(buf: &mut Vec<u8>, n: usize)
    ensures
        final(buf)@ == old(buf)@ + zeros(n as nat),
{
    let mut i: usize = 0;
    while i < n
        invariant
            i <= n,
            buf@ == old(buf)@ + zeros(i as nat),
        decreases n - i,
    {
        buf.push(0u8);
        i = i + 1;
        assert(buf@ =~= old(buf)@ + zeros(i as nat));
    }
}

/// Appends the bytes of the header `h`.
fn push_head(buf: &mut Vec<u8>, h: &BcmMsgHeadFrameLess, layout: &Layout)
    requires
        layout.wf(),
    ensures
        final(buf)@ == old(buf)@ + head_bytes(*h, layout.w(), layout.little_endian),
{
    let w = layout.word_bytes;
    let le = layout.little_endian;
    proof { lemma_layout_values(layout.w()); }
    push_word(buf, h.opcode as u64, 4, le);
    push_word(buf, h.flags as u64, 4, le);
    push_word(buf, h.count as u64, 4, le);
    push_zeros(buf, layout.ival1_offset() - 12);
    push_word(buf, h.ival1.sec, w, le);
    push_word(buf, h.ival1.usec, w, le);
    push_word(buf, h.ival2.sec, w, le);
    push_word(buf, h.ival2.usec, w, le);
    push_word(buf, h.can_id as u64, 4, le);
    push_word(buf, h.nframes as u64, 4, le);
    push_zeros(buf, layout.head_size() - layout.fields_end());
    assert(buf@ =~= old(buf)@ + head_bytes(*h, layout.w(), le));
}

/// Appends the bytes of each record of `frames`, in order.
fn push_frames(buf: &mut Vec<u8>, frames: &[CanFrame])
    ensures
        final(buf)@ == old(buf)@ + frames_bytes(frames_view(frames@)),
{
    let mut i: usize = 0;
    while i < frames.len()
        invariant
            i <= frames@.len(),
            buf@ == old(buf)@ + frames_bytes(frames_view(frames@.take(i as int))),
        decreases frames@.len() - i,
    {
        let raw = frames[i].raw;
        let pre = Ghost(buf@);
        let mut j: usize = 0;
        while j < 16
            invariant
                j <= 16,
                raw@.len() == 16,
                buf@ == pre@ + raw@.take(j as int),
            decreases 16 - j,
        {
            buf.push(raw[j]);
            j = j + 1;
            assert(buf@ =~= pre@ + raw@.take(j as int));
        }
        let ghost next = frames_view(frames@.take(i + 1));
        assert(next.drop_last() =~= frames_view(frames@.take(i as int)));
        assert(raw@.take(16) =~= raw@);
        i = i + 1;
        assert(buf@ =~= old(buf)@ + frames_bytes(frames_view(frames@.take(i as int))));
    }
    assert(frames@.take(i as int) =~= frames@);
}

/// Head of messages to and from the broadcast manager, with the frames that
/// follow it; the frame count is the number of frames held.
#[derive(Clone, Debug)]
pub struct BcmMsgHead {
    opcode: u32,
    flags: u32,
    count: u32,
    ival1: Timeval,
    ival2: Timeval,
    can_id: u32,
    frames: Vec<CanFrame>,
}

impl View for BcmMsgHead {
    type V = BcmMsgView;

    closed spec fn view(&self) -> BcmMsgView {
        BcmMsgView {
            opcode: self.opcode,
            flags: self.flags,
            count: self.count,
            ival1: self.ival1,
            ival2: self.ival2,
            can_id: self.can_id,
            frames: frames_view(self.frames@),
        }
    }
}

impl BcmMsgHead {
    /// A message with the given fields and frames.
    pub fn new(
        opcode: u32,
        flags: u32,
        count: u32,
        ival1: Timeval,
        ival2: Timeval,
        can_id: u32,
        frames: Vec<CanFrame>,
    ) -> (r: BcmMsgHead)
        requires
            frames@.len() <= MAX_NFRAMES,
        ensures
            r@.wf(),
            r@.opcode == opcode && r@.flags == flags && r@.count == count,
            r@.ival1 == ival1 && r@.ival2 == ival2 && r@.can_id == can_id,
            r@.frames == frames_view(frames@),
    {
        BcmMsgHead { opcode, flags, count, ival1, ival2, can_id, frames }
    }

    /// The message identifier, extended-form bit included.
    pub fn can_id(&self) -> (r: u32)
        ensures
            r == self@.can_id,
    {
        self.can_id
    }

    pub fn opcode(&self) -> (r: u32)
        ensures
            r == self@.opcode,
    {
        self.opcode
    }

    pub fn flags(&self) -> (r: u32)
        ensures
            r == self@.flags,
    {
        self.flags
    }

    pub fn count(&self) -> (r: u32)
        ensures
            r == self@.count,
    {
        self.count
    }

    pub fn ival1(&self) -> (r: Timeval)
        ensures
            r == self@.ival1,
    {
        self.ival1
    }

    pub fn ival2(&self) -> (r: Timeval)
        ensures
            r == self@.ival2,
    {
        self.ival2
    }

    /// Exactly the frames that the message carries.
    pub fn frames(&self) -> (r: &[CanFrame])
        ensures
            r@.len() == self@.frames.len(),
            forall|i: int| 0 <= i < r@.len() ==> (#[trigger] r@[i])@ == self@.frames[i],
    {
        self.frames.as_slice()
    }
}

impl BcmMsgHeadFrameLess {
    /// The bytes of the header alone.
    pub fn encode(&self, layout: &Layout) -> (r: Vec<u8>)
        requires
            layout.wf(),
        ensures
            r@ == head_bytes(*self, layout.w(), layout.little_endian),
            r@.len() == head_size(layout.w()),
    {
        let mut buf: Vec<u8> = Vec::new();
        push_head(&mut buf, self, layout);
        assert(buf@ =~= head_bytes(*self, layout.w(), layout.little_endian));
        proof { lemma_head_bytes_len(*self, layout.w(), layout.little_endian); }
        buf
    }
}

impl TxMsg {
    /// The header's bytes, then those of every frame held.
    pub fn encode(&self, layout: &Layout) -> (r: Vec<u8>)
        requires
            layout.wf(),
        ensures
            r@ == head_bytes(self.head, layout.w(), layout.little_endian) + frames_bytes(
                frames_view(self.frames@),
            ),
    {
        let mut buf: Vec<u8> = Vec::new();
        push_head(&mut buf, &self.head, layout);
        push_frames(&mut buf, self.frames.as_slice());
        assert(buf@ =~= head_bytes(self.head, layout.w(), layout.little_endian) + frames_bytes(
            frames_view(self.frames@),
        ));
        buf
    }
}

impl BcmMsgHead {
    /// The header, with the frame count of the frames held.
    pub fn head(&self) -> (r: BcmMsgHeadFrameLess)
        requires
            self@.wf(),
        ensures
            r == self@.head(),
    {
        BcmMsgHeadFrameLess {
            opcode: self.opcode,
            flags: self.flags,
            count: self.count,
            ival1: self.ival1,
            ival2: self.ival2,
            can_id: self.can_id,
            nframes: self.frames.len() as u32,
        }
    }

    /// The bytes of the message: header, then exactly its frames.
    pub fn encode(&self, layout: &Layout) -> (r: Vec<u8>)
        requires
            layout.wf(),
            self@.wf(),
        ensures
            r@ == msg_bytes(self@, layout.w(), layout.little_endian),
    {
        let h = self.head();
        let mut buf: Vec<u8> = Vec::new();
        push_head(&mut buf, &h, layout);
        push_frames(&mut buf, self.frames.as_slice());
        assert(buf@ =~= msg_bytes(self@, layout.w(), layout.little_endian));
        buf
    }

    /// Decodes the first `len` bytes of `b` as a message. Fewer bytes than a
    /// header, or than the frames that the header announces, and a frame
    /// count above the maximum are refused.
    pub fn decode(b: &[u8], len: usize, layout: &Layout) -> (r: Result<BcmMsgHead, DecodeError>)
        requires
            layout.wf(),
            len <= b@.len(),
        ensures
            match r {
                Ok(m) => decode_spec(b@.take(len as int), layout.w(), layout.little_endian)
                    == Ok::<BcmMsgView, DecodeError>(m@) && m@.wf(),
                Err(e) => decode_spec(b@.take(len as int), layout.w(), layout.little_endian)
                    == Err::<BcmMsgView, DecodeError>(e),
            },
    {
        let ghost s = b@.take(len as int);
        let w = layout.word_bytes;
        let le = layout.little_endian;
        let hs = layout.head_size();
        proof { lemma_layout_values(layout.w()); }
        if len < hs {
            return Err(DecodeError::Truncated { len, needed: hs });
        }
        let i1 = layout.ival1_offset();
        let opcode = read_word(b, 0, 4, le);
        let flags = read_word(b, 4, 4, le);
        let count = read_word(b, 8, 4, le);
        let s1 = read_word(b, i1, w, le);
        let u1 = read_word(b, i1 + w, w, le);
        let s2 = read_word(b, i1 + 2 * w, w, le);
        let u2 = read_word(b, i1 + 3 * w, w, le);
        let can_id = read_word(b, i1 + 4 * w, 4, le);
        let nframes = read_word(b, i1 + 4 * w + 4, 4, le);
        proof {
            lemma_pow256_values();
            lemma_word_value_bound(b@.subrange(0, 4), le);
            lemma_word_value_bound(b@.subrange(4, 8), le);
            lemma_word_value_bound(b@.subrange(8, 12), le);
            lemma_word_value_bound(b@.subrange(i1 + 4 * w, i1 + 4 * w + 4), le);
            lemma_word_value_bound(b@.subrange(i1 + 4 * w + 4, i1 + 4 * w + 8), le);
            assert(s.subrange(0, 4) =~= b@.subrange(0, 4));
            assert(s.subrange(4, 8) =~= b@.subrange(4, 8));
            assert(s.subrange(8, 12) =~= b@.subrange(8, 12));
            assert(s.subrange(i1 as int, i1 + w) =~= b@.subrange(i1 as int, i1 + w));
            assert(s.subrange(i1 + w, i1 + 2 * w) =~= b@.subrange(i1 + w, i1 + 2 * w));
            assert(s.subrange(i1 + 2 * w, i1 + 3 * w) =~= b@.subrange(i1 + 2 * w, i1 + 3 * w));
            assert(s.subrange(i1 + 3 * w, i1 + 4 * w) =~= b@.subrange(i1 + 3 * w, i1 + 4 * w));
            assert(s.subrange(i1 + 4 * w, i1 + 4 * w + 4) =~= b@.subrange(i1 + 4 * w, i1 + 4 * w + 4));
            assert(s.subrange(i1 + 4 * w + 4, i1 + 4 * w + 8) =~= b@.subrange(
                i1 + 4 * w + 4,
                i1 + 4 * w + 8,
            ));
        }
        let ghost h = parse_head(s, layout.w(), le);
        assert(h.nframes == nframes);
        if nframes > MAX_NFRAMES as u64 {
            return Err(DecodeError::TooManyFrames { nframes: nframes as u32 });
        }
        let n = nframes as usize;
        if len < hs + 16 * n {
            return Err(DecodeError::Truncated { len, needed: hs + 16 * n });
        }
        let mut frames: Vec<CanFrame> = Vec::new();
        let mut i: usize = 0;
        while i < n
            invariant
                i <= n,
                n <= MAX_NFRAMES,
                hs + 16 * n <= len,
                len <= b@.len(),
                hs as nat == head_size(layout.w()),
                s == b@.take(len as int),
                frames@.len() == i,
                forall|k: int|
                    0 <= k < i ==> (#[trigger] frames@[k])@ == parse_frames(s, layout.w(), n as nat)[k],
            decreases n - i,
        {
            let f = CanFrame::read_from(b, hs + 16 * i);
            assert(b@.subrange(hs + 16 * i, hs + 16 * i + 16) =~= s.subrange(
                hs + 16 * i,
                hs + 16 * i + 16,
            ));
            frames.push(f);
            i = i + 1;
        }
        let m = BcmMsgHead {
            opcode: opcode as u32,
            flags: flags as u32,
            count: count as u32,
            ival1: Timeval { sec: s1, usec: u1 },
            ival2: Timeval { sec: s2, usec: u2 },
            can_id: can_id as u32,
            frames,
        };
        assert(m@.frames =~= parse_frames(s, layout.w(), n as nat));
        assert(decode_spec(s, layout.w(), le) == Ok::<BcmMsgView, DecodeError>(m@));
        Ok(m)
    }
}

} // verus!
