//! Length-delimited frames, as `tokio_util` reads and writes them.
use bytes::BytesMut;
use tokio_util::codec::{Decoder, Encoder, LengthDelimitedCodec};
use vstd::prelude::*;

verus! {

#[verifier::external_type_specification]
#[verifier::external_body]
pub struct ExBytesMut(bytes::BytesMut);

#[verifier::external_type_specification]
#[verifier::external_body]
pub struct ExLengthDelimitedCodec(tokio_util::codec::LengthDelimitedCodec);

#[verifier::external_type_specification]
#[verifier::external_body]
pub struct ExIoError(std::io::Error);

/// The bytes that a buffer holds.
pub uninterp spec fn buffered(buffer: BytesMut) -> Seq<u8>;

/// Whether the heads of a codec's frames are four bytes in little-endian order, which hold the length
/// of the body alone.
pub uninterp spec fn plain_heads(codec: LengthDelimitedCodec) -> bool;

/// The largest frame that a codec reads or writes.
pub uninterp spec fn frame_ceiling(codec: LengthDelimitedCodec) -> nat;

/// The length of the frame whose head a codec has read and whose body it waits for.
pub uninterp spec fn awaited(codec: LengthDelimitedCodec) -> Option<nat>;

/// The number of bytes of the head of a frame, which holds the length of its body.
pub const FRAME_HEAD_SIZE: usize = 4;

/// The number that the first four of the given bytes stand for in little-endian order.
pub open spec fn leading_u32(bytes: Seq<u8>) -> nat {
    (bytes[0] + 0x100 * bytes[1] + 0x1_0000 * bytes[2] + 0x100_0000 * bytes[3]) as nat
}

/// The four bytes of a number in little-endian order.
pub open spec fn u32_bytes(number: nat) -> Seq<u8> {
    seq![
        (number % 0x100) as u8,
        (number / 0x100 % 0x100) as u8,
        (number / 0x1_0000 % 0x100) as u8,
        (number / 0x100_0000 % 0x100) as u8,
    ]
}

/// A frame: the length of the body, and the body.
pub open spec fn frame(body: Seq<u8>) -> Seq<u8> {
    u32_bytes(body.len()) + body
}

/// What comes of an attempt to read a frame.
pub enum FrameRead {
    /// The head, or the rest of the body, has not arrived.
    Incomplete,
    /// The head declares a body that is larger than the ceiling.
    TooLong,
    /// The body of a frame.
    Frame(Seq<u8>),
}

/// The outcome of an attempt to read a frame from the given bytes, the bytes that are left, and the
/// length of the body that is waited for afterwards.
pub open spec fn read_frame(
    ceiling: nat,
    awaited: Option<nat>,
    bytes: Seq<u8>,
) -> (FrameRead, Seq<u8>, Option<nat>) {
    if awaited is None && bytes.len() < FRAME_HEAD_SIZE {
        (FrameRead::Incomplete, bytes, None)
    } else if awaited is None && leading_u32(bytes) > ceiling {
        (FrameRead::TooLong, bytes, None)
    } else {
        let (len, body) = match awaited {
            Some(len) => (len, bytes),
            None => (leading_u32(bytes), bytes.skip(FRAME_HEAD_SIZE as int)),
        };
        if body.len() < len {
            (FrameRead::Incomplete, body, Some(len))
        } else {
            (FrameRead::Frame(body.take(len as int)), body.skip(len as int), None)
        }
    }
}

/// `Builder::new_codec`, with little-endian heads of four bytes and the given ceiling, as far as such
/// a head can declare it. The codec waits for a head.
#[verifier::external_body]
pub(crate) fn new_codec(max_frame_length: usize) -> (codec: LengthDelimitedCodec)
    ensures
        frame_ceiling(codec) == (if max_frame_length <= u32::MAX {
            max_frame_length as nat
        } else {
            u32::MAX as nat
        }),
        awaited(codec) is None,
        plain_heads(codec),
{
    LengthDelimitedCodec::builder().max_frame_length(max_frame_length).little_endian().new_codec()
}

/// `LengthDelimitedCodec::set_max_frame_length`: changes the ceiling, as far as a head of four bytes
/// can declare it, and nothing else.
#[verifier::external_body]
pub(crate) fn set_max_frame_length(codec: &mut LengthDelimitedCodec, max_frame_length: usize)
    requires
        plain_heads(*old(codec)),
    ensures
        plain_heads(*final(codec)),
        frame_ceiling(*final(codec)) == (if max_frame_length <= u32::MAX {
            max_frame_length as nat
        } else {
            u32::MAX as nat
        }),
        awaited(*final(codec)) == awaited(*old(codec)),
{
    codec.set_max_frame_length(max_frame_length);
}

/// `LengthDelimitedCodec::max_frame_length`: the ceiling.
#[verifier::external_body]
pub(crate) fn max_frame_length(codec: &LengthDelimitedCodec) -> (length: usize)
    ensures
        length == frame_ceiling(*codec),
{
    codec.max_frame_length()
}

/// `LengthDelimitedCodec::decode`. It consumes a
/// head once the length in it is known to be admissible, and a body once all of it has arrived. It
/// fails on a length over the ceiling, and in no other case.
#[verifier::external_body]
pub(crate) fn decode_frame(codec: &mut LengthDelimitedCodec, source: &mut BytesMut) -> (read: Result<
    Option<Vec<u8>>,
    std::io::Error,
>)
    requires
        plain_heads(*old(codec)),
    ensures
        plain_heads(*final(codec)),
        ({
            let (outcome, rest, waiting) = read_frame(
                frame_ceiling(*old(codec)),
                awaited(*old(codec)),
                buffered(*old(source)),
            );
            &&& match read {
                Ok(Some(body)) => outcome == FrameRead::Frame(body@),
                Ok(None) => outcome is Incomplete,
                Err(_) => outcome is TooLong,
            }
            &&& buffered(*final(source)) == rest
            &&& awaited(*final(codec)) == waiting
            &&& frame_ceiling(*final(codec)) == frame_ceiling(*old(codec))
        }),
{
    codec.decode(source).map(|frame| frame.map(|body| body.to_vec()))
}

/// `LengthDelimitedCodec::encode`: appends the frame of the body, or fails and appends nothing if the body is over the ceiling.
#[verifier::external_body]
pub(crate) fn encode_frame(codec: &mut LengthDelimitedCodec, body: &[u8], target: &mut BytesMut) -> (written:
    Result<(), std::io::Error>)
    requires
        plain_heads(*old(codec)),
    ensures
        plain_heads(*final(codec)),
        written is Ok <==> body@.len() <= frame_ceiling(*old(codec)),
        buffered(*final(target)) == (if written is Ok {
            buffered(*old(target)) + frame(body@)
        } else {
            buffered(*old(target))
        }),
        awaited(*final(codec)) == awaited(*old(codec)),
        frame_ceiling(*final(codec)) == frame_ceiling(*old(codec)),
{
    codec.encode(body, target)
}

/// `BytesMut::extend_from_slice`: appends the bytes.
#[verifier::external_body]
pub(crate) fn buffer_extend(buffer: &mut BytesMut, bytes: &[u8])
    ensures
        buffered(*final(buffer)) == buffered(*old(buffer)) + bytes@,
{
    buffer.extend_from_slice(bytes);
}

/// `BytesMut::split`: takes everything that the buffer holds.
#[verifier::external_body]
pub(crate) fn buffer_split(buffer: &mut BytesMut) -> (taken: Vec<u8>)
    ensures
        taken@ == buffered(*old(buffer)),
        buffered(*final(buffer)) == Seq::<u8>::empty(),
{
    buffer.split().to_vec()
}

/// The number that leads the bytes of a number is that number.
pub proof fn lemma_u32_bytes(number: nat, rest: Seq<u8>)
    requires
        number <= u32::MAX,
    ensures
        leading_u32(u32_bytes(number) + rest) == number,
{
}

/// A frame is read back whole, whatever follows it, if its body is within the ceiling.
pub proof fn a_frame_is_read_back(ceiling: nat, body: Seq<u8>, rest: Seq<u8>)
    requires
        body.len() <= ceiling <= u32::MAX,
    ensures
        read_frame(ceiling, None, frame(body) + rest) == (
            FrameRead::Frame(body),
            rest,
            None::<nat>,
        ),
{
    let bytes = frame(body) + rest;
    assert(bytes =~= u32_bytes(body.len()) + (body + rest));
    lemma_u32_bytes(body.len(), body + rest);
    assert(bytes.skip(FRAME_HEAD_SIZE as int) =~= body + rest);
    assert((body + rest).take(body.len() as int) =~= body);
    assert((body + rest).skip(body.len() as int) =~= rest);
}

/// A frame that arrives in two parts is read as one that arrives whole.
pub proof fn a_frame_may_arrive_in_parts(
    ceiling: nat,
    waiting: Option<nat>,
    first: Seq<u8>,
    second: Seq<u8>,
)
    requires
        read_frame(ceiling, waiting, first).0 is Incomplete,
    ensures
        ({
            let (_, rest, still_waiting) = read_frame(ceiling, waiting, first);
            read_frame(ceiling, still_waiting, rest + second) == read_frame(
                ceiling,
                waiting,
                first + second,
            )
        }),
{
    let (_, rest, still_waiting) = read_frame(ceiling, waiting, first);
    if waiting is None && first.len() >= FRAME_HEAD_SIZE {
        assert((first + second).skip(FRAME_HEAD_SIZE as int) =~= first.skip(FRAME_HEAD_SIZE as int)
            + second);
        assert(leading_u32(first + second) == leading_u32(first));
    }
}

/// A length over the ceiling is refused as soon as the head has arrived, before any of the body has
/// to be held.
pub proof fn an_oversized_frame_is_refused_by_its_head(ceiling: nat, head: Seq<u8>, rest: Seq<u8>)
    requires
        head.len() == FRAME_HEAD_SIZE,
        leading_u32(head) > ceiling,
    ensures
        read_frame(ceiling, None, head + rest).0 is TooLong,
{
    assert(leading_u32(head + rest) == leading_u32(head));
}

} // verus!
