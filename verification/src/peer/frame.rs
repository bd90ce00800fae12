//! The framing of messages on a stream: each message is sent as its length
//! (four bytes, little endian) followed by its bytes.

use vstd::prelude::*;

verus! {

/// A frame could not be written or read.
#[derive(Debug, Clone, Copy, PartialEq, Eq, Structural)]
pub enum FrameError {
    /// The message is too long for its length to fit into four bytes.
    TooLarge,
    /// The bytes end before the frame does.
    Incomplete,
}

/// The four little endian bytes of `x`.
pub open spec fn le_bytes_of(x: u32) -> Seq<u8> {
    seq![x as u8, (x >> 8u32) as u8, (x >> 16u32) as u8, (x >> 24u32) as u8]
}

/// The number whose little endian bytes are `b` (which holds four bytes).
pub open spec fn u32_of_le_bytes(b: Seq<u8>) -> u32 {
    (b[0] as u32) | ((b[1] as u32) << 8u32) | ((b[2] as u32) << 16u32) | ((b[3] as u32) << 24u32)
}

/// The frame of a message of `data`.
pub open spec fn framed(data: Seq<u8>) -> Seq<u8> {
    le_bytes_of(data.len() as u32) + data
}

/// The outcome of reading one frame from the start of `bytes`: the message,
/// or `Incomplete` when the bytes end before it.
pub open spec fn unframed(bytes: Seq<u8>) -> Result<Seq<u8>, FrameError> {
    if bytes.len() < 4 {
        Err(FrameError::Incomplete)
    } else {
        let len = u32_of_le_bytes(bytes.subrange(0, 4)) as int;
        if bytes.len() - 4 < len {
            Err(FrameError::Incomplete)
        } else {
            Ok(bytes.subrange(4, 4 + len))
        }
    }
}

/// The length prefix of a message of `len` bytes.
pub fn frame_length(len: u32) -> (bytes: [u8; 4])
    ensures
        bytes@ == le_bytes_of(len),
{
    let bytes = [len as u8, (len >> 8u32) as u8, (len >> 16u32) as u8, (len >> 24u32) as u8];
    assert(bytes@ =~= le_bytes_of(len));
    bytes
}

/// Read the length of a message from its four byte prefix.
pub fn read_frame_length(bytes: &[u8]) -> (len: u32)
    requires
        bytes@.len() == 4,
    ensures
        len == u32_of_le_bytes(bytes@),
{
    (bytes[0] as u32) | ((bytes[1] as u32) << 8u32) | ((bytes[2] as u32) << 16u32) | ((bytes[3] as u32) << 24u32)
}

/// Frame the message `data`: its length, then its bytes. A message whose
/// length does not fit into four bytes is refused.
pub fn frame_message(data: &[u8]) -> (frame: Result<Vec<u8>, FrameError>)
    ensures
        data@.len() > u32::MAX ==> frame == Err::<Vec<u8>, FrameError>(FrameError::TooLarge),
        data@.len() <= u32::MAX ==> (frame matches Ok(bytes) && bytes@ == framed(data@)),
{
    if data.len() as u64 > u32::MAX as u64 {
        return Err(FrameError::TooLarge);
    }
    let prefix = frame_length(data.len() as u32);
    let mut bytes: Vec<u8> = Vec::new();
    let mut i: usize = 0;
    while i < 4
        invariant
            i <= 4,
            bytes@ == prefix@.take(i as int),
        decreases 4 - i,
    {
        bytes.push(prefix[i]);
        i = i + 1;
        proof {
            assert(bytes@ =~= prefix@.take(i as int));
        }
    }
    let mut j: usize = 0;
    while j < data.len()
        invariant
            j <= data@.len(),
            data@.len() <= u32::MAX,
            prefix@ == le_bytes_of(data@.len() as u32),
            bytes@ == prefix@ + data@.take(j as int),
        decreases data@.len() - j,
    {
        proof {
            assert(prefix@.take(4) =~= prefix@);
        }
        bytes.push(data[j]);
        j = j + 1;
        proof {
            assert(bytes@ =~= prefix@ + data@.take(j as int));
        }
    }
    proof {
        assert(prefix@.take(4) =~= prefix@);
        assert(data@.take(j as int) =~= data@);
    }
    Ok(bytes)
}

/// Read one frame from the start of `bytes`: the message, or `Incomplete`
/// when the bytes end before it. Bytes behind the frame are left alone.
pub fn read_frame(bytes: &[u8]) -> (message: Result<Vec<u8>, FrameError>)
    ensures
        match unframed(bytes@) {
            Ok(m) => message matches Ok(v) && v@ == m,
            Err(e) => message == Err::<Vec<u8>, FrameError>(e),
        },
{
    if bytes.len() < 4 {
        return Err(FrameError::Incomplete);
    }
    let len = read_frame_length(&[bytes[0], bytes[1], bytes[2], bytes[3]]) as usize;
    proof {
        assert(seq![bytes@[0], bytes@[1], bytes@[2], bytes@[3]] =~= bytes@.subrange(0, 4));
    }
    if bytes.len() - 4 < len {
        return Err(FrameError::Incomplete);
    }
    let mut message: Vec<u8> = Vec::new();
    let mut i: usize = 0;
    while i < len
        invariant
            i <= len,
            4 + len <= bytes@.len(),
            bytes@.len() == bytes.len(),
            message@ == bytes@.subrange(4, 4 + i),
        decreases len - i,
    {
        message.push(bytes[4 + i]);
        i = i + 1;
        proof {
            assert(message@ =~= bytes@.subrange(4, 4 + i));
        }
    }
    Ok(message)
}

/// Reading back a framed message gives the message.
pub proof fn law_read_frame_of_frame(data: Seq<u8>)
    requires
        data.len() <= u32::MAX,
    ensures
        unframed(framed(data)) == Ok::<Seq<u8>, FrameError>(data),
{
    let x = data.len() as u32;
    let bytes = framed(data);
    assert(bytes.subrange(0, 4) =~= le_bytes_of(x));
    assert(u32_of_le_bytes(le_bytes_of(x)) == x) by {
        let (b0, b1, b2, b3) = (x as u8, (x >> 8u32) as u8, (x >> 16u32) as u8, (x >> 24u32) as u8);
        assert((b0 as u32) | ((b1 as u32) << 8u32) | ((b2 as u32) << 16u32) | ((b3 as u32) << 24u32) == x)
            by (bit_vector)
            requires
                b0 == x as u8 && b1 == (x >> 8u32) as u8 && b2 == (x >> 16u32) as u8 && b3 == (x >> 24u32) as u8,
        ;
    }
    assert(bytes.subrange(4, 4 + data.len() as int) =~= data);
}

} // verus!
