//! The codec of network messages: which frames a connection admits.
use crate::messages::framing::{
    a_frame_is_read_back, awaited, buffer_extend, buffer_split, buffered, decode_frame,
    encode_frame, frame, frame_ceiling, max_frame_length, new_codec, plain_heads,
    read_frame,
    set_max_frame_length, FrameRead,
};
use crate::messages::message_id::{
    a_message_is_led_by_its_first_two_bytes, all_ids, id_at, leading_id, MessageId, MessageLimits, MAXIMUM_MESSAGE_SIZE,
    MAX_SMALL_MESSAGE_SIZE, NUM_MESSAGE_IDS,
};
use crate::sequences::lemma_push_contains;
use bytes::BytesMut;
use tokio_util::codec::LengthDelimitedCodec;
use vstd::prelude::*;

verus! {

/// The maximum size of a message that can be transmitted during the handshake.
pub const MAXIMUM_HANDSHAKE_MESSAGE_SIZE: usize = 1024 * 1024;

/// Why a codec refuses a message.
#[derive(Copy, Clone, Debug, PartialEq, Eq, Structural)]
pub enum CodecError {
    /// The frame that is to be written is larger than the connection admits.
    InvalidInput,
    /// The frame that arrives is larger than the connection admits.
    FrameTooLong,
    /// The connection has no legitimate reason to ever receive such a message.
    NotPermitted,
    /// The message is larger than its type admits.
    MessageTooLarge,
    /// The message is too short to hold an ID, or its ID is not recognized.
    UnknownMessage,
    /// What follows the ID is not what a message with that ID holds.
    InvalidMessage,
}

/// The kind of an I/O error.
#[derive(Copy, Clone, Debug, PartialEq, Eq, Structural)]
pub enum ErrorKind {
    /// What was to be written is not valid.
    InvalidInput,
    /// What was read is not valid.
    InvalidData,
}

impl CodecError {
    /// Returns the kind of I/O error that the error is reported as. Whatever is refused when it
    /// arrives is invalid data.
    pub fn kind(self) -> (kind: ErrorKind)
        ensures
            kind == (if self is InvalidInput {
                ErrorKind::InvalidInput
            } else {
                ErrorKind::InvalidData
            }),
    {
        match self {
            CodecError::InvalidInput => ErrorKind::InvalidInput,
            _ => ErrorKind::InvalidData,
        }
    }
}

/// The sizes of the largest frames of the given message types.
pub open spec fn caps(ids: Seq<MessageId>, limits: MessageLimits) -> Seq<int> {
    ids.map_values(|id: MessageId| id.size_cap(limits))
}

/// The frame-length ceiling of a connection that expects the given message types: the largest of
/// their sizes.
pub open spec fn ceiling(ids: Seq<MessageId>, limits: MessageLimits) -> int {
    if ids.len() == 0 {
        MAX_SMALL_MESSAGE_SIZE as int
    } else {
        caps(ids, limits).max()
    }
}

/// The message types that remain if some are excluded, in wire order.
pub open spec fn allowed_ids(excluded: Seq<MessageId>) -> Seq<MessageId> {
    all_ids().filter(|id: MessageId| !excluded.contains(id))
}

/// The ceiling as far as the head of a frame can declare it.
pub open spec fn declarable(size: int) -> int {
    if size <= u32::MAX {
        size
    } else {
        u32::MAX as int
    }
}

/// Why the body of a frame is refused, if it is.
pub open spec fn refusal(
    body: Seq<u8>,
    excluded: Seq<MessageId>,
    limits: MessageLimits,
) -> Option<CodecError> {
    match leading_id(body) {
        Some(id) => if excluded.contains(id) {
            Some(CodecError::NotPermitted)
        } else if body.len() > id.size_cap(limits) {
            Some(CodecError::MessageTooLarge)
        } else {
            None
        },
        None => Some(CodecError::UnknownMessage),
    }
}

/// What is decoded from the outcome of an attempt to read a frame.
pub open spec fn decoded(
    outcome: FrameRead,
    excluded: Seq<MessageId>,
    limits: MessageLimits,
) -> Result<Option<Seq<u8>>, CodecError> {
    match outcome {
        FrameRead::Incomplete => Ok(None),
        FrameRead::TooLong => Err(CodecError::FrameTooLong),
        FrameRead::Frame(body) => match refusal(body, excluded, limits) {
            Some(error) => Err(error),
            None => Ok(Some(body)),
        },
    }
}

/// What comes of the attempt to deserialize a message.
pub open spec fn deserialized_message<M>(read: Result<M, String>) -> Result<Option<M>, CodecError> {
    match read {
        Ok(message) => Ok(Some(message)),
        Err(_) => Err(CodecError::InvalidMessage),
    }
}

/// Returns what comes of the attempt to deserialize a message: the message, or the refusal of what is
/// none.
pub fn deserialized<M>(read: Result<M, String>) -> (result: Result<Option<M>, CodecError>)
    ensures
        result == deserialized_message(read),
{
    match read {
        Ok(message) => Ok(Some(message)),
        Err(_) => Err(CodecError::InvalidMessage),
    }
}

/// Ensures that a message is not larger than its type admits. A type that is not recognized is left
/// alone: it is refused as unknown afterwards.
pub fn check_size(bytes: &[u8], limits: MessageLimits) -> (result: Result<(), CodecError>)
    ensures
        result == (match leading_id(bytes@) {
            Some(id) => if bytes@.len() > id.size_cap(limits) {
                Err::<(), CodecError>(CodecError::MessageTooLarge)
            } else {
                Ok(())
            },
            None => Ok(()),
        }),
{
    match MessageId::peek(bytes) {
        Some(id) => {
            if bytes.len() > id.max_size(limits) {
                Err(CodecError::MessageTooLarge)
            } else {
                Ok(())
            }
        },
        None => Ok(()),
    }
}

/// Returns whether an ID is in a list.
fn contains_id(ids: &Vec<MessageId>, id: MessageId) -> (found: bool)
    ensures
        found == ids@.contains(id),
{
    for i in 0..ids.len()
        invariant
            forall|j: int| 0 <= j < i ==> #[trigger] ids@[j] != id,
    {
        if ids[i] == id {
            return true;
        }
    }
    false
}

/// The codec used to decode and encode network messages.
pub struct MessageCodec {
    codec: LengthDelimitedCodec,
    /// Message IDs this codec refuses to decode, rejected the moment the ID is visible - before
    /// deserializing the message, regardless of whether it is otherwise well-formed and within
    /// its own size cap. Empty by default; see [`Self::excluding`].
    excluded_ids: Vec<MessageId>,
    limits: MessageLimits,
}

impl MessageCodec {
    /// The heads of the codec's frames are those that messages have.
    pub closed spec fn wf(&self) -> bool {
        plain_heads(self.codec)
    }

    /// The largest frame that the codec reads or writes.
    pub closed spec fn ceiling(&self) -> nat {
        frame_ceiling(self.codec)
    }

    /// The length of the frame whose body the codec waits for.
    pub closed spec fn waiting(&self) -> Option<nat> {
        awaited(self.codec)
    }

    /// The message IDs that the codec refuses to decode.
    pub closed spec fn excluded(&self) -> Seq<MessageId> {
        self.excluded_ids@
    }

    /// The sizes that the codec admits.
    pub closed spec fn limits(&self) -> MessageLimits {
        self.limits
    }

    /// Builds a codec for a connection with no restriction.
    pub fn new(limits: MessageLimits) -> (codec: Self)
        ensures
            codec.wf(),
            codec.ceiling() == declarable(ceiling(all_ids(), limits)),
            codec.excluded() == Seq::<MessageId>::empty(),
            codec.limits() == limits,
            codec.waiting() is None,
    {
        let ids: Vec<MessageId> = MessageId::all();
        MessageCodec::for_allowed_ids(&ids, limits)
    }

    /// Builds a codec for the handshake of a connection.
    pub fn handshake(limits: MessageLimits) -> (codec: Self)
        ensures
            codec.wf(),
            codec.ceiling() == MAXIMUM_HANDSHAKE_MESSAGE_SIZE,
            codec.excluded() == Seq::<MessageId>::empty(),
            codec.limits() == limits,
            codec.waiting() is None,
    {
        let mut codec = MessageCodec::new(limits);
        set_max_frame_length(&mut codec.codec, MAXIMUM_HANDSHAKE_MESSAGE_SIZE);
        codec
    }

    /// Builds a codec whose frame-length ceiling is the maximum over the sizes of the message
    /// types in `allowed_ids`.
    fn for_allowed_ids(allowed_ids: &Vec<MessageId>, limits: MessageLimits) -> (codec: Self)
        ensures
            codec.wf(),
            codec.ceiling() == declarable(ceiling(allowed_ids@, limits)),
            codec.excluded() == Seq::<MessageId>::empty(),
            codec.limits() == limits,
            codec.waiting() is None,
    {
        let ghost sizes = caps(allowed_ids@, limits);
        let mut max_length: usize = MAX_SMALL_MESSAGE_SIZE;
        for i in 0..allowed_ids.len()
            invariant
                sizes == caps(allowed_ids@, limits),
                i == 0 ==> max_length == MAX_SMALL_MESSAGE_SIZE,
                i > 0 ==> sizes.take(i as int).contains(max_length as int),
                i > 0 ==> forall|j: int| 0 <= j < i ==> #[trigger] sizes[j] <= max_length,
        {
            let size: usize = allowed_ids[i].max_size(limits);
            let ghost done = sizes.take(i as int);
            let ghost before = max_length as int;
            assert(sizes[i as int] == size);
            assert(sizes.take(i + 1) =~= done.push(size as int));
            proof {
                lemma_push_contains(done, size as int);
            }
            if i == 0 || size > max_length {
                max_length = size;
            }
        }
        proof {
            if allowed_ids@.len() > 0 {
                assert(sizes.take(sizes.len() as int) =~= sizes);
                lemma_max_of(sizes, max_length as int);
            }
        }
        MessageCodec { codec: new_codec(max_length), excluded_ids: Vec::new(), limits }
    }

    /// Builds a codec for a connection that structurally has no legitimate reason to ever receive
    /// any of `excluded_ids`.
    ///
    /// This does two things: it rejects any frame with an excluded ID outright, and it shrinks the
    /// connection's frame-length ceiling to the largest type that remains allowed - so an excluded
    /// type can no longer be used to force as large an allocation as its own (possibly much bigger)
    /// cap would have permitted.
    pub fn excluding(excluded_ids: Vec<MessageId>, limits: MessageLimits) -> (codec: Self)
        ensures
            codec.wf(),
            codec.ceiling() == declarable(ceiling(allowed_ids(excluded_ids@), limits)),
            codec.excluded() == excluded_ids@,
            codec.limits() == limits,
            codec.waiting() is None,
    {
        let all: Vec<MessageId> = MessageId::all();
        let mut remaining: Vec<MessageId> = Vec::new();
        let ghost keep = |id: MessageId| !excluded_ids@.contains(id);
        assert(all@.take(0).filter(keep) =~= Seq::<MessageId>::empty()) by {
            reveal(Seq::filter);
        }
        for i in 0..all.len()
            invariant
                all@ == all_ids(),
                keep == (|id: MessageId| !excluded_ids@.contains(id)),
                remaining@ == all@.take(i as int).filter(keep),
        {
            let id: MessageId = all[i];
            assert(all@.take(i + 1).drop_last() =~= all@.take(i as int));
            assert(all@.take(i + 1).last() == id);
            proof {
                reveal(Seq::filter);
            }
            if !contains_id(&excluded_ids, id) {
                remaining.push(id);
            }
        }
        assert(all@.take(all.len() as int) =~= all@);
        let codec = MessageCodec::for_allowed_ids(&remaining, limits);
        MessageCodec { codec: codec.codec, excluded_ids, limits }
    }

    /// Returns the frame-length ceiling.
    pub fn max_frame_length(&self) -> (length: usize)
        ensures
            length == self.ceiling(),
    {
        max_frame_length(&self.codec)
    }

    /// Appends the message, given in its serialized form, to what the buffer holds, and makes one
    /// frame of all of it.
    pub fn encode(&mut self, message: &[u8], target: &mut BytesMut) -> (result: Result<
        (),
        CodecError,
    >)
        requires
            old(self).wf(),
        ensures
            final(self).wf(),
            ({
                let body = buffered(*old(target)) + message@;
                &&& result == (if body.len() <= old(self).ceiling() {
                    Ok::<(), CodecError>(())
                } else {
                    Err(CodecError::InvalidInput)
                })
                &&& buffered(*final(target)) == (if result is Ok {
                    frame(body)
                } else {
                    Seq::<u8>::empty()
                })
            }),
            final(self).ceiling() == old(self).ceiling(),
            final(self).excluded() == old(self).excluded(),
            final(self).limits() == old(self).limits(),
            final(self).waiting() == old(self).waiting(),
    {
        buffer_extend(target, message);
        let body: Vec<u8> = buffer_split(target);
        let written = encode_frame(&mut self.codec, body.as_slice(), target);
        assert(Seq::<u8>::empty() + frame(body@) =~= frame(body@));
        match written {
            Ok(()) => Ok(()),
            Err(_) => Err(CodecError::InvalidInput),
        }
    }

    /// Takes the next frame out of the buffer, and returns it if the connection admits it: the
    /// serialized form of a message. Returns `None` if the frame has not arrived yet.
    pub fn decode(&mut self, source: &mut BytesMut) -> (result: Result<Option<Vec<u8>>, CodecError>)
        requires
            old(self).wf(),
        ensures
            final(self).wf(),
            ({
                let (outcome, rest, waiting) = read_frame(
                    old(self).ceiling(),
                    old(self).waiting(),
                    buffered(*old(source)),
                );
                &&& decoded(outcome, old(self).excluded(), old(self).limits()) == (match result {
                    Ok(Some(body)) => Ok::<Option<Seq<u8>>, CodecError>(Some(body@)),
                    Ok(None) => Ok(None),
                    Err(error) => Err(error),
                })
                &&& buffered(*final(source)) == rest
                &&& final(self).waiting() == waiting
            }),
            final(self).ceiling() == old(self).ceiling(),
            final(self).excluded() == old(self).excluded(),
            final(self).limits() == old(self).limits(),
    {
        let body: Vec<u8> = match decode_frame(&mut self.codec, source) {
            Ok(Some(body)) => body,
            Ok(None) => return Ok(None),
            Err(_) => return Err(CodecError::FrameTooLong),
        };
        // Reject a message type this connection has no legitimate reason to ever receive - before
        // checking its size or deserializing it.
        let id: Option<MessageId> = MessageId::peek(body.as_slice());
        if let Some(id) = id {
            if contains_id(&self.excluded_ids, id) {
                return Err(CodecError::NotPermitted);
            }
        }
        if let Err(error) = check_size(body.as_slice(), self.limits) {
            return Err(error);
        }
        // An ID this node doesn't recognize at all is that of no message.
        if id.is_none() {
            return Err(CodecError::UnknownMessage);
        }
        Ok(Some(body))
    }

    /// Takes the next frame out of the buffer, and returns the message in it if the connection admits
    /// it and `read_message` deserializes it. Returns `None` if the frame has not arrived yet, and
    /// only then.
    pub fn decode_message<M, F: Fn(Vec<u8>) -> Result<M, String>>(
        &mut self,
        source: &mut BytesMut,
        read_message: F,
    ) -> (result: Result<Option<M>, CodecError>)
        requires
            old(self).wf(),
            forall|body: Vec<u8>| #[trigger] read_message.requires((body,)),
        ensures
            final(self).wf(),
            ({
                let (outcome, rest, waiting) = read_frame(
                    old(self).ceiling(),
                    old(self).waiting(),
                    buffered(*old(source)),
                );
                &&& match decoded(outcome, old(self).excluded(), old(self).limits()) {
                    Ok(Some(body)) => exists|bytes: Vec<u8>, read: Result<M, String>|
                        {
                            &&& bytes@ == body
                            &&& #[trigger] read_message.ensures((bytes,), read)
                            &&& result == deserialized_message(read)
                        },
                    Ok(None) => result == Ok::<Option<M>, CodecError>(None),
                    Err(error) => result == Err::<Option<M>, CodecError>(error),
                }
                &&& buffered(*final(source)) == rest
                &&& final(self).waiting() == waiting
            }),
            final(self).ceiling() == old(self).ceiling(),
            final(self).excluded() == old(self).excluded(),
            final(self).limits() == old(self).limits(),
    {
        match self.decode(source) {
            Ok(Some(body)) => {
                let ghost bytes = body;
                let read = read_message(body);
                assert(read_message.ensures((bytes,), read));
                deserialized(read)
            },
            Ok(None) => Ok(None),
            Err(error) => Err(error),
        }
    }
}

/// A number of a sequence that no other number of it exceeds is its maximum.
proof fn lemma_max_of(numbers: Seq<int>, largest: int)
    requires
        numbers.contains(largest),
        forall|i: int| 0 <= i < numbers.len() ==> #[trigger] numbers[i] <= largest,
    ensures
        numbers.max() == largest,
{
    numbers.max_ensures();
    assert(numbers.contains(numbers.max()));
}

/// Every message type stands in the list of all of them.
proof fn lemma_all_ids(id: MessageId)
    ensures
        all_ids().contains(id),
{
    assert(id_at(id.wire_value() as int) == Some(id));
    assert(all_ids()[id.wire_value() as int] == id);
}

/// The ceiling is the size of the largest of the given types.
proof fn lemma_ceiling_of(ids: Seq<MessageId>, largest: MessageId, limits: MessageLimits)
    requires
        ids.contains(largest),
        forall|id: MessageId|
            ids.contains(id) ==> #[trigger] id.size_cap(limits) <= largest.size_cap(limits),
    ensures
        ceiling(ids, limits) == largest.size_cap(limits),
{
    let sizes = caps(ids, limits);
    let position = choose|i: int| 0 <= i < ids.len() && ids[i] == largest;
    assert(sizes[position] == largest.size_cap(limits));
    assert forall|i: int| 0 <= i < sizes.len() implies #[trigger] sizes[i] <= largest.size_cap(
        limits,
    ) by {
        assert(ids.contains(ids[i]));
    }
    lemma_max_of(sizes, largest.size_cap(limits));
}

/// The message types that remain are those that are not excluded.
proof fn lemma_allowed_ids(excluded: Seq<MessageId>, id: MessageId)
    ensures
        allowed_ids(excluded).contains(id) <==> !excluded.contains(id),
{
    broadcast use vstd::seq_lib::group_filter_ensures;

    let keep = |id: MessageId| !excluded.contains(id);
    lemma_all_ids(id);
    if allowed_ids(excluded).contains(id) {
        let i = choose|i: int|
            0 <= i < allowed_ids(excluded).len() && allowed_ids(excluded)[i] == id;
        assert(keep(allowed_ids(excluded)[i]));
    }
}

/// A connection with no restriction has the size of a `BlockResponse` as its ceiling, which is the
/// largest of all.
pub proof fn the_default_ceiling_is_that_of_a_block_response(limits: MessageLimits)
    requires
        limits.sane(),
    ensures
        ceiling(all_ids(), limits) == MessageId::BlockResponse.size_cap(limits),
{
    lemma_all_ids(MessageId::BlockResponse);
    lemma_ceiling_of(all_ids(), MessageId::BlockResponse, limits);
}

/// Excluding `BlockResponse` shrinks the ceiling to that of a `Ping`, the largest of what remains.
pub proof fn excluding_block_response_shrinks_the_ceiling(limits: MessageLimits)
    requires
        limits.sane(),
    ensures
        ceiling(allowed_ids(seq![MessageId::BlockResponse]), limits) == MessageId::Ping.size_cap(
            limits,
        ),
{
    let excluded = seq![MessageId::BlockResponse];
    assert(excluded[0] == MessageId::BlockResponse);
    assert(!excluded.contains(MessageId::Ping));
    lemma_allowed_ids(excluded, MessageId::Ping);
    assert forall|id: MessageId| allowed_ids(excluded).contains(id) implies #[trigger] id.size_cap(
        limits,
    ) <= MessageId::Ping.size_cap(limits) by {
        lemma_allowed_ids(excluded, id);
    }
    lemma_ceiling_of(allowed_ids(excluded), MessageId::Ping, limits);
}

/// A type that is not excluded fits under the ceiling of the connection with its largest message.
pub proof fn every_allowed_type_fits_under_the_ceiling(
    excluded: Seq<MessageId>,
    id: MessageId,
    limits: MessageLimits,
)
    requires
        !excluded.contains(id),
    ensures
        id.size_cap(limits) <= ceiling(allowed_ids(excluded), limits),
{
    let ids = allowed_ids(excluded);
    lemma_allowed_ids(excluded, id);
    let position = choose|i: int| 0 <= i < ids.len() && ids[i] == id;
    let sizes = caps(ids, limits);
    assert(sizes[position] == id.size_cap(limits));
    sizes.max_ensures();
}

/// The boundary of every type is exact: a message of precisely its maximum size is admitted, one
/// byte more is refused, unless its type is excluded and it is refused in any case. What has no type
/// that is recognized is refused whatever its size.
pub proof fn the_size_gate_is_exact(
    body: Seq<u8>,
    excluded: Seq<MessageId>,
    limits: MessageLimits,
)
    ensures
        match leading_id(body) {
            Some(id) => {
                &&& excluded.contains(id) ==> refusal(body, excluded, limits) == Some(
                    CodecError::NotPermitted,
                )
                &&& !excluded.contains(id) ==> (refusal(body, excluded, limits) is None
                    <==> body.len() <= id.size_cap(limits))
                &&& !excluded.contains(id) && body.len() > id.size_cap(limits) ==> refusal(
                    body,
                    excluded,
                    limits,
                ) == Some(CodecError::MessageTooLarge)
            },
            None => refusal(body, excluded, limits) == Some(CodecError::UnknownMessage),
        },
{
}

/// A whole frame is never taken for one that has not arrived yet: either its body is handed on to be
/// deserialized, or it is refused.
pub proof fn a_whole_frame_is_decoded_or_refused(
    body: Seq<u8>,
    excluded: Seq<MessageId>,
    limits: MessageLimits,
)
    ensures
        decoded(FrameRead::Frame(body), excluded, limits) == (match refusal(
            body,
            excluded,
            limits,
        ) {
            Some(error) => Err::<Option<Seq<u8>>, CodecError>(error),
            None => Ok(Some(body)),
        }),
        refusal(body, excluded, limits) is None <==> {
            &&& leading_id(body) is Some
            &&& !excluded.contains(leading_id(body)->0)
            &&& body.len() <= leading_id(body)->0.size_cap(limits)
        },
{
}

/// A message that is encoded into an empty buffer is what is decoded from it, by a codec that does
/// not refuse it and whose ceiling it is under. Nothing is left in the buffer.
pub proof fn an_encoded_message_is_decoded(
    message: Seq<u8>,
    ceiling: nat,
    excluded: Seq<MessageId>,
    limits: MessageLimits,
)
    requires
        message.len() <= ceiling <= u32::MAX,
        refusal(message, excluded, limits) is None,
    ensures
        ({
            let (outcome, rest, waiting) = read_frame(
                ceiling,
                None,
                frame(Seq::<u8>::empty() + message),
            );
            &&& decoded(outcome, excluded, limits) == Ok::<Option<Seq<u8>>, CodecError>(
                Some(message),
            )
            &&& rest == Seq::<u8>::empty()
            &&& waiting is None
        }),
{
    assert(Seq::<u8>::empty() + message =~= message);
    assert(frame(message) + Seq::<u8>::empty() =~= frame(message));
    a_frame_is_read_back(ceiling, message, Seq::empty());
}

/// A message of a type that is not excluded is decoded if it is no longer than the cap on small
/// messages, unless it is one of the three types that have a cap of their own.
pub proof fn a_small_message_is_decoded(
    id: MessageId,
    low: u8,
    high: u8,
    rest: Seq<u8>,
    excluded: Seq<MessageId>,
    limits: MessageLimits,
)
    requires
        low + 256 * high == id.wire_value(),
        id != MessageId::BlockResponse,
        id != MessageId::Ping,
        id != MessageId::UnconfirmedTransaction,
        !excluded.contains(id),
    ensures
        ({
            let body = seq![low, high] + rest;
            &&& body.len() <= MAX_SMALL_MESSAGE_SIZE ==> decoded(
                FrameRead::Frame(body),
                excluded,
                limits,
            ) == Ok::<Option<Seq<u8>>, CodecError>(Some(body))
            &&& body.len() > MAX_SMALL_MESSAGE_SIZE ==> decoded(
                FrameRead::Frame(body),
                excluded,
                limits,
            ) == Err::<Option<Seq<u8>>, CodecError>(CodecError::MessageTooLarge)
        }),
{
    a_message_is_led_by_its_first_two_bytes(id, low, high, rest);
}

/// A message of a type that is excluded is refused as such, whatever its size and whatever follows
/// its ID.
pub proof fn an_excluded_message_is_never_decoded(
    id: MessageId,
    low: u8,
    high: u8,
    rest: Seq<u8>,
    excluded: Seq<MessageId>,
    limits: MessageLimits,
)
    requires
        low + 256 * high == id.wire_value(),
        excluded.contains(id),
    ensures
        decoded(FrameRead::Frame(seq![low, high] + rest), excluded, limits) == Err::<
            Option<Seq<u8>>,
            CodecError,
        >(CodecError::NotPermitted),
{
    a_message_is_led_by_its_first_two_bytes(id, low, high, rest);
}

/// Nothing is decoded while a frame has not arrived, and a frame over the ceiling is refused as such.
pub proof fn only_a_whole_frame_is_decoded(
    outcome: FrameRead,
    excluded: Seq<MessageId>,
    limits: MessageLimits,
)
    ensures
        decoded(outcome, excluded, limits) == Ok::<Option<Seq<u8>>, CodecError>(None)
            <==> outcome is Incomplete,
        outcome is TooLong ==> decoded(outcome, excluded, limits) == Err::<
            Option<Seq<u8>>,
            CodecError,
        >(CodecError::FrameTooLong),
        decoded(outcome, excluded, limits) matches Ok(Some(body)) ==> outcome == FrameRead::Frame(
            body,
        ),
{
}

/// The message types that a connection expects are those that are not excluded.
pub proof fn what_is_not_excluded_is_allowed(excluded: Seq<MessageId>, id: MessageId)
    ensures
        allowed_ids(excluded).contains(id) <==> !excluded.contains(id),
{
    lemma_allowed_ids(excluded, id);
}

/// The ceiling of a connection is no larger than it has to be: a message of one of the types that it
/// expects can be as large, and none can be larger. A connection that expects nothing has the cap on
/// small messages as its ceiling.
pub proof fn the_ceiling_is_that_of_an_allowed_type(ids: Seq<MessageId>, limits: MessageLimits)
    ensures
        forall|i: int|
            0 <= i < ids.len() ==> (#[trigger] ids[i]).size_cap(limits) <= ceiling(ids, limits),
        ids.len() > 0 ==> exists|i: int|
            0 <= i < ids.len() && (#[trigger] ids[i]).size_cap(limits) == ceiling(ids, limits),
        ids.len() == 0 ==> ceiling(ids, limits) == 8192,
{
    let sizes = caps(ids, limits);
    if ids.len() > 0 {
        sizes.max_ensures();
        assert forall|i: int| 0 <= i < ids.len() implies (#[trigger] ids[i]).size_cap(limits)
            <= ceiling(ids, limits) by {
            assert(sizes[i] == ids[i].size_cap(limits));
        }
        let position = choose|i: int| 0 <= i < sizes.len() && sizes[i] == sizes.max();
        assert(ids[position].size_cap(limits) == ceiling(ids, limits));
    }
}

/// A ceiling is kept as it is as far as the four bytes of a head can declare it, and is the most that
/// they can declare otherwise.
pub proof fn a_ceiling_is_kept_as_far_as_a_head_can_declare_it(size: int)
    ensures
        declarable(size) <= 0xffff_ffff,
        size <= 0xffff_ffff <==> declarable(size) == size,
        size > 0xffff_ffff ==> declarable(size) == 0xffff_ffff,
{
}

/// A message that was deserialized is what is handed on, and what could not be deserialized is
/// refused: no outcome is taken for a frame that has not arrived.
pub proof fn what_is_deserialized_is_handed_on<M>(read: Result<M, String>, message: M)
    ensures
        deserialized_message(read) == Ok::<Option<M>, CodecError>(Some(message)) <==> read == Ok::<
            M,
            String,
        >(message),
        deserialized_message(read) != Ok::<Option<M>, CodecError>(None),
        read is Err ==> deserialized_message(read) == Err::<Option<M>, CodecError>(
            CodecError::InvalidMessage,
        ),
{
}

/// No message of a handshake is larger than a mebibyte, which is less than messages may be later.
pub proof fn a_handshake_admits_a_mebibyte()
    ensures
        MAXIMUM_HANDSHAKE_MESSAGE_SIZE == 1_048_576,
        MAXIMUM_HANDSHAKE_MESSAGE_SIZE < MAXIMUM_MESSAGE_SIZE,
{
}

} // verus!
