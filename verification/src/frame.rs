//! WAL frames and their binary form.
//!
//! A frame on the wire is a 20-byte header followed by the page image:
//! frame number (8 bytes), checksum (8 bytes) and page number (4 bytes), all
//! little-endian.

use vstd::prelude::*;
use vstd::bytes::*;
use vstd::slice::*;
use vstd::string::*;
use crate::text::{append_decimal_nat, decimal_nat};

verus! {

/// Number of bytes that precede the page image in an encoded frame.
pub const FRAME_HEADER_SIZE: usize = 20;

/// Why a byte string is not a frame.
#[derive(Debug, PartialEq, Eq)]
pub enum FrameError {
    /// Fewer bytes than a header.
    Truncated { len: usize },
    /// The header carries frame number 0, which no frame has.
    ZeroFrameNo,
}

impl FrameError {
    /// The text that describes this error.
    pub open spec fn message_text(&self) -> Seq<char> {
        match self {
            FrameError::Truncated { len } => "frame of "@ + decimal_nat(*len as nat)
                + " bytes is shorter than its header"@,
            FrameError::ZeroFrameNo => "frame number 0 is not valid"@,
        }
    }

    /// The text that describes this error.
    pub fn message(&self) -> (text: String)
        ensures
            text@ == self.message_text(),
    {
        match self {
            FrameError::Truncated { len } => {
                let mut text = String::from_str("frame of ");
                append_decimal_nat(&mut text, *len as u64);
                text.append(" bytes is shorter than its header");
                text
            },
            FrameError::ZeroFrameNo => String::from_str("frame number 0 is not valid"),
        }
    }
}

/// The mathematical content of a frame.
pub struct FrameView {
    pub frame_no: u64,
    pub checksum: u64,
    pub page_no: u32,
    pub payload: Seq<u8>,
}

/// One record of the write-ahead log: the image of one page, with the number
/// of the frame in the log.
#[derive(Debug, PartialEq, Eq)]
pub struct Frame {
    pub frame_no: u64,
    pub checksum: u64,
    pub page_no: u32,
    pub payload: Vec<u8>,
}

impl View for Frame {
    type V = FrameView;

    open spec fn view(&self) -> FrameView {
        FrameView {
            frame_no: self.frame_no,
            checksum: self.checksum,
            page_no: self.page_no,
            payload: self.payload@,
        }
    }
}

impl FrameView {
    /// Frame numbers start at 1.
    pub open spec fn wf(self) -> bool {
        self.frame_no >= 1
    }

    /// The bytes that carry this frame.
    pub open spec fn encoded(self) -> Seq<u8> {
        spec_u64_to_le_bytes(self.frame_no) + spec_u64_to_le_bytes(self.checksum)
            + spec_u32_to_le_bytes(self.page_no) + self.payload
    }
}

/// The frame that a byte string carries, if it carries one.
pub open spec fn decoded(bytes: Seq<u8>) -> Result<FrameView, FrameError> {
    if bytes.len() < FRAME_HEADER_SIZE {
        Err(FrameError::Truncated { len: bytes.len() as usize })
    } else if spec_u64_from_le_bytes(bytes.subrange(0, 8)) == 0 {
        Err(FrameError::ZeroFrameNo)
    } else {
        Ok(
            FrameView {
                frame_no: spec_u64_from_le_bytes(bytes.subrange(0, 8)),
                checksum: spec_u64_from_le_bytes(bytes.subrange(8, 16)),
                page_no: spec_u32_from_le_bytes(bytes.subrange(16, 20)),
                payload: bytes.subrange(20, bytes.len() as int),
            },
        )
    }
}

/// Decoding what was encoded gives the frame back.
pub proof fn lemma_decode_encode(f: FrameView)
    requires
        f.wf(),
        f.payload.len() + FRAME_HEADER_SIZE <= usize::MAX,
    ensures
        decoded(f.encoded()) == Ok::<FrameView, FrameError>(f),
{
    lemma_auto_spec_u64_to_from_le_bytes();
    lemma_auto_spec_u32_to_from_le_bytes();
    let b = f.encoded();
    let a = spec_u64_to_le_bytes(f.frame_no);
    let c = spec_u64_to_le_bytes(f.checksum);
    let p = spec_u32_to_le_bytes(f.page_no);
    assert(a.len() == 8 && c.len() == 8 && p.len() == 4);
    assert(b.subrange(0, 8) =~= a);
    assert(b.subrange(8, 16) =~= c);
    assert(b.subrange(16, 20) =~= p);
    assert(b.subrange(20, b.len() as int) =~= f.payload);
}

/// Encoding what was decoded gives the bytes back.
pub proof fn lemma_encode_decode(bytes: Seq<u8>)
    requires
        decoded(bytes) is Ok,
    ensures
        decoded(bytes)->Ok_0.encoded() == bytes,
        decoded(bytes)->Ok_0.wf(),
{
    lemma_auto_spec_u64_to_from_le_bytes();
    lemma_auto_spec_u32_to_from_le_bytes();
    let f = decoded(bytes)->Ok_0;
    assert(spec_u64_to_le_bytes(f.frame_no) == bytes.subrange(0, 8));
    assert(spec_u64_to_le_bytes(f.checksum) == bytes.subrange(8, 16));
    assert(spec_u32_to_le_bytes(f.page_no) == bytes.subrange(16, 20));
    assert(f.encoded() =~= bytes);
}

impl Frame {
    /// Frame numbers start at 1, and the encoded frame has a length.
    pub open spec fn wf(&self) -> bool {
        &&& self@.wf()
        &&& self.payload@.len() + FRAME_HEADER_SIZE <= usize::MAX
    }

    /// A frame with the given content, or `None` for frame number 0 or a page
    /// image too large to encode.
    pub fn new(frame_no: u64, checksum: u64, page_no: u32, payload: Vec<u8>) -> (r: Option<Frame>)
        ensures
            r is Some <==> frame_no >= 1 && payload@.len() + FRAME_HEADER_SIZE <= usize::MAX,
            r matches Some(f) ==> f.wf() && f@ == (FrameView {
                frame_no,
                checksum,
                page_no,
                payload: payload@,
            }),
    {
        if frame_no == 0 || payload.len() > usize::MAX - FRAME_HEADER_SIZE {
            None
        } else {
            Some(Frame { frame_no, checksum, page_no, payload })
        }
    }

    /// A copy of this frame.
    pub fn duplicate(&self) -> (f: Frame)
        ensures
            f@ == self@,
    {
        Frame {
            frame_no: self.frame_no,
            checksum: self.checksum,
            page_no: self.page_no,
            payload: slice_to_vec(self.payload.as_slice()),
        }
    }

    /// Whether two frames have the same content.
    pub fn same_as(&self, other: &Frame) -> (b: bool)
        ensures
            b == (self@ == other@),
    {
        if self.frame_no != other.frame_no || self.checksum != other.checksum || self.page_no
            != other.page_no || self.payload.len() != other.payload.len() {
            return false;
        }
        let n: usize = self.payload.len();
        let mut i: usize = 0;
        while i < n
            invariant
                n == self.payload@.len(),
                n == other.payload@.len(),
                i <= n,
                forall|k: int| 0 <= k < i ==> self.payload@[k] == other.payload@[k],
            decreases n - i,
        {
            if self.payload[i] != other.payload[i] {
                return false;
            }
            i += 1;
        }
        assert(self.payload@ =~= other.payload@);
        true
    }

    /// The bytes that carry this frame.
    pub fn to_bytes(&self) -> (bytes: Vec<u8>)
        requires
            self.wf(),
        ensures
            bytes@ == self@.encoded(),
            decoded(bytes@) == Ok::<FrameView, FrameError>(self@),
    {
        let mut out: Vec<u8> = u64_to_le_bytes(self.frame_no);
        let mut checksum: Vec<u8> = u64_to_le_bytes(self.checksum);
        let mut page_no: Vec<u8> = u32_to_le_bytes(self.page_no);
        let mut payload: Vec<u8> = slice_to_vec(self.payload.as_slice());
        out.append(&mut checksum);
        out.append(&mut page_no);
        out.append(&mut payload);
        proof {
            lemma_decode_encode(self@);
        }
        out
    }

    /// Reads a frame from the bytes that carry it. Fails on fewer bytes than a
    /// header holds and on frame number 0; every other byte string is a frame.
    pub fn try_from_bytes(bytes: &[u8]) -> (r: Result<Frame, FrameError>)
        ensures
            r is Ok <==> decoded(bytes@) is Ok,
            r matches Ok(f) ==> decoded(bytes@) == Ok::<FrameView, FrameError>(f@) && f.wf()
                && f@.encoded() == bytes@,
            r matches Err(e) ==> decoded(bytes@) == Err::<FrameView, FrameError>(e),
    {
        let len: usize = bytes.len();
        if len < FRAME_HEADER_SIZE {
            return Err(FrameError::Truncated { len });
        }
        let frame_no: u64 = u64_from_le_bytes(slice_subrange(bytes, 0, 8));
        if frame_no == 0 {
            return Err(FrameError::ZeroFrameNo);
        }
        let checksum: u64 = u64_from_le_bytes(slice_subrange(bytes, 8, 16));
        let page_no: u32 = u32_from_le_bytes(slice_subrange(bytes, 16, 20));
        let payload: Vec<u8> = slice_to_vec(slice_subrange(bytes, 20, len));
        proof {
            lemma_encode_decode(bytes@);
        }
        Ok(Frame { frame_no, checksum, page_no, payload })
    }
}

} // verus!
