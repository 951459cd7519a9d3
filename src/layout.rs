//! Sizes and offsets of the broadcast manager's message header, which depend
//! on the width of the host's native word.

use vstd::prelude::*;

verus! {

/// Number of bytes of one frame record.
pub const FRAME_SIZE: usize = 16;

/// Upper bound on the number of frames carried by one message.
pub const MAX_NFRAMES: u32 = 256;

/// `x` rounded up to a multiple of `a`.
pub open spec fn align_up(x: nat, a: nat) -> nat
    recommends
        a > 0,
{
    (((x + a - 1) as int) / (a as int) * (a as int)) as nat
}

/// A supported native word width, in bytes.
pub open spec fn word_ok(w: nat) -> bool {
    w == 4 || w == 8
}

/// Offset of the first interval: the three 32-bit fields, then alignment to a word.
pub open spec fn ival1_offset(w: nat) -> nat {
    align_up(12, w)
}

/// Offset of the second interval; an interval is two native words.
pub open spec fn ival2_offset(w: nat) -> nat {
    ival1_offset(w) + 2 * w
}

pub open spec fn can_id_offset(w: nat) -> nat {
    ival2_offset(w) + 2 * w
}

pub open spec fn nframes_offset(w: nat) -> nat {
    can_id_offset(w) + 4
}

/// End of the last named header field.
pub open spec fn fields_end(w: nat) -> nat {
    nframes_offset(w) + 4
}

/// The padding word that narrow (32-bit) hosts carry after the frame count,
/// where the kernel's zero-length frame array still takes room.
pub open spec fn narrow_pad(w: nat) -> nat {
    if w == 4 {
        w
    } else {
        0
    }
}

/// Size of the header as the plain fields would lay it out, without that padding.
pub open spec fn unpadded_head_size(w: nat) -> nat {
    align_up(fields_end(w), w)
}

/// Size of the header; the frames start right after it.
pub open spec fn head_size(w: nat) -> nat {
    align_up(fields_end(w) + narrow_pad(w), w)
}

/// Size of the full frame array.
pub open spec fn frames_size() -> nat {
    MAX_NFRAMES as nat * FRAME_SIZE as nat
}

/// Size of a message with a full frame array.
pub open spec fn msg_size(w: nat) -> nat {
    head_size(w) + frames_size()
}

/// The layout facts of both supported widths.
pub proof fn lemma_layout_values(w: nat)
    requires
        word_ok(w),
    ensures
        w == 4 ==> ival1_offset(w) == 12 && fields_end(w) == 36 && head_size(w) == 40,
        w == 8 ==> ival1_offset(w) == 16 && fields_end(w) == 56 && head_size(w) == 56,
        unpadded_head_size(w) <= head_size(w),
        fields_end(w) + narrow_pad(w) <= head_size(w),
        12 <= ival1_offset(w),
        head_size(w) <= 56,
        frames_size() == 4096,
{
    if w == 4 {
        assert((12 + 4 - 1) / 4 * 4 == 12);
        assert((40 + 4 - 1) / 4 * 4 == 40);
        assert((36 + 4 - 1) / 4 * 4 == 36);
    } else {
        assert((12 + 8 - 1) / 8 * 8 == 16);
        assert((56 + 8 - 1) / 8 * 8 == 56);
    }
}

/// On every supported width the header exceeds its unpadded form by exactly
/// the narrow-host padding: one native word on 32-bit hosts, nothing on 64-bit ones.
pub proof fn lemma_padding_difference(w: nat)
    requires
        word_ok(w),
    ensures
        head_size(w) - unpadded_head_size(w) == narrow_pad(w),
        w == 4 ==> narrow_pad(w) == 4,
        w == 8 ==> narrow_pad(w) == 0,
{
    lemma_layout_values(w);
    if w == 4 {
        assert((36 + 4 - 1) / 4 * 4 == 36);
    } else {
        assert((56 + 8 - 1) / 8 * 8 == 56);
    }
}

/// The host's native word width and byte order.
#[derive(Clone, Copy, Debug, PartialEq, Eq)]
pub struct Layout {
    pub word_bytes: usize,
    pub little_endian: bool,
}

impl Layout {
    pub open spec fn wf(self) -> bool {
        word_ok(self.word_bytes as nat)
    }

    pub open spec fn w(self) -> nat {
        self.word_bytes as nat
    }

    /// A layout for a word of `word_bytes` bytes; only 4 and 8 are supported.
    pub fn new(word_bytes: usize, little_endian: bool) -> (r: Option<Layout>)
        ensures
            r is Some <==> word_ok(word_bytes as nat),
            r matches Some(l) ==> l.word_bytes == word_bytes && l.little_endian == little_endian,
    {
        if word_bytes == 4 || word_bytes == 8 {
            Some(Layout { word_bytes, little_endian })
        } else {
            None
        }
    }

    fn align_up(x: usize, a: usize) -> (r: usize)
        requires
            a == 4 || a == 8,
            x <= 1000,
        ensures
            r as nat == align_up(x as nat, a as nat),
    {
        (x + a - 1) / a * a
    }

    pub fn ival1_offset(&self) -> (r: usize)
        requires
            self.wf(),
        ensures
            r as nat == ival1_offset(self.w()),
    {
        Self::align_up(12, self.word_bytes)
    }

    pub fn fields_end(&self) -> (r: usize)
        requires
            self.wf(),
        ensures
            r as nat == fields_end(self.w()),
    {
        self.ival1_offset() + 4 * self.word_bytes + 8
    }

    /// Size of the padding word of narrow hosts.
    pub fn narrow_pad(&self) -> (r: usize)
        requires
            self.wf(),
        ensures
            r as nat == narrow_pad(self.w()),
    {
        if self.word_bytes == 4 {
            self.word_bytes
        } else {
            0
        }
    }

    /// Size of the header without the narrow-host padding.
    pub fn unpadded_head_size(&self) -> (r: usize)
        requires
            self.wf(),
        ensures
            r as nat == unpadded_head_size(self.w()),
    {
        proof { lemma_layout_values(self.w()); }
        Self::align_up(self.fields_end(), self.word_bytes)
    }

    /// Size of the message header, frames excluded.
    pub fn head_size(&self) -> (r: usize)
        requires
            self.wf(),
        ensures
            r as nat == head_size(self.w()),
    {
        proof { lemma_layout_values(self.w()); }
        Self::align_up(self.fields_end() + self.narrow_pad(), self.word_bytes)
    }

    /// Size of a message that carries the full frame array.
    pub fn msg_size(&self) -> (r: usize)
        requires
            self.wf(),
        ensures
            r as nat == msg_size(self.w()),
    {
        proof { lemma_layout_values(self.w()); }
        self.head_size() + MAX_NFRAMES as usize * FRAME_SIZE
    }
}

} // verus!
