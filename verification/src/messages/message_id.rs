//! The wire IDs of messages, and the sizes that they allow.
use crate::network::{NetworkName, NetworkParameters, MAX_TRANSACTION_SIZE};
use vstd::prelude::*;

verus! {

/// The wire ID of a message: the `u16` that leads every message payload.
///
/// This exists to let a size cap be looked up for a message from its ID alone - before, or
/// instead of, deserializing the message itself.
#[derive(Copy, Clone, Debug, PartialEq, Eq, Structural)]
pub enum MessageId {
    BlockRequest,
    BlockResponse,
    ChallengeRequest,
    ChallengeResponse,
    Disconnect,
    PeerRequest,
    PeerResponse,
    Ping,
    Pong,
    PuzzleRequest,
    PuzzleResponse,
    UnconfirmedSolution,
    UnconfirmedTransaction,
}

/// The width, in bytes, of the message ID that leads every message payload.
pub const MESSAGE_ID_SIZE: usize = 2;

/// The maximum size of the small, fixed-shape messages - everything except `Ping`,
/// `BlockResponse`, and `UnconfirmedTransaction`.
pub const MAX_SMALL_MESSAGE_SIZE: usize = 8 * 1024;

/// The general frame ceiling: the maximum size of a message that can be transmitted in the
/// network. Only `BlockResponse` is left at this ceiling - see [`MessageId::max_size`].
pub const MAXIMUM_MESSAGE_SIZE: usize = 128 * 1024 * 1024;

/// The sizes of messages that are settled elsewhere: by the shape of a `Ping`, and by the network.
#[derive(Copy, Clone, Debug, PartialEq, Eq, Structural)]
pub struct MessageLimits {
    /// The size of the largest `Ping`.
    pub max_ping_message_size: usize,
    /// The size of the largest transaction.
    pub max_transaction_size: usize,
    /// How much larger a message that carries a transaction is than the transaction.
    pub transaction_overhead: usize,
}

impl MessageLimits {
    /// The sizes of the messages of a network, for a largest `Ping` and for how much larger a message
    /// that carries a transaction is than the transaction.
    pub open spec fn of(
        network: NetworkParameters,
        max_ping_message_size: usize,
        transaction_overhead: usize,
    ) -> MessageLimits {
        MessageLimits {
            max_ping_message_size,
            max_transaction_size: network.max_transaction_size,
            transaction_overhead,
        }
    }

    /// Initializes the sizes of the messages of a network.
    pub fn new(
        network: &NetworkParameters,
        max_ping_message_size: usize,
        transaction_overhead: usize,
    ) -> (limits: Self)
        ensures
            limits == MessageLimits::of(*network, max_ping_message_size, transaction_overhead),
    {
        MessageLimits {
            max_ping_message_size,
            max_transaction_size: network.max_transaction_size,
            transaction_overhead,
        }
    }

    /// A `Ping` can be larger than every other message but a `BlockResponse`, and no message is
    /// larger than the general frame ceiling.
    pub open spec fn sane(self) -> bool {
        &&& MAX_SMALL_MESSAGE_SIZE <= self.max_ping_message_size <= MAXIMUM_MESSAGE_SIZE
        &&& self.max_transaction_size + self.transaction_overhead <= self.max_ping_message_size
        &&& self.max_transaction_size + self.transaction_overhead >= MESSAGE_ID_SIZE
    }
}

/// The ID at a position of the wire order, if there is one.
pub open spec fn id_at(value: int) -> Option<MessageId> {
    if value == 0 {
        Some(MessageId::BlockRequest)
    } else if value == 1 {
        Some(MessageId::BlockResponse)
    } else if value == 2 {
        Some(MessageId::ChallengeRequest)
    } else if value == 3 {
        Some(MessageId::ChallengeResponse)
    } else if value == 4 {
        Some(MessageId::Disconnect)
    } else if value == 5 {
        Some(MessageId::PeerRequest)
    } else if value == 6 {
        Some(MessageId::PeerResponse)
    } else if value == 7 {
        Some(MessageId::Ping)
    } else if value == 8 {
        Some(MessageId::Pong)
    } else if value == 9 {
        Some(MessageId::PuzzleRequest)
    } else if value == 10 {
        Some(MessageId::PuzzleResponse)
    } else if value == 11 {
        Some(MessageId::UnconfirmedSolution)
    } else if value == 12 {
        Some(MessageId::UnconfirmedTransaction)
    } else {
        None
    }
}

/// The number of message IDs.
pub const NUM_MESSAGE_IDS: u16 = 13;

/// Every message ID, in wire order.
pub open spec fn all_ids() -> Seq<MessageId> {
    Seq::new(NUM_MESSAGE_IDS as nat, |i: int| id_at(i)->0)
}

/// The number that the first two of the given bytes stand for in little-endian order.
pub open spec fn leading_u16(bytes: Seq<u8>) -> int {
    bytes[0] + 256 * bytes[1]
}

/// The ID that leads the given bytes, if they are long enough to hold one and it is recognized.
pub open spec fn leading_id(bytes: Seq<u8>) -> Option<MessageId> {
    if bytes.len() < MESSAGE_ID_SIZE {
        None
    } else {
        id_at(leading_u16(bytes))
    }
}

impl MessageId {
    /// The position of the ID in the wire order.
    pub open spec fn wire_value(self) -> u16 {
        match self {
            MessageId::BlockRequest => 0,
            MessageId::BlockResponse => 1,
            MessageId::ChallengeRequest => 2,
            MessageId::ChallengeResponse => 3,
            MessageId::Disconnect => 4,
            MessageId::PeerRequest => 5,
            MessageId::PeerResponse => 6,
            MessageId::Ping => 7,
            MessageId::Pong => 8,
            MessageId::PuzzleRequest => 9,
            MessageId::PuzzleResponse => 10,
            MessageId::UnconfirmedSolution => 11,
            MessageId::UnconfirmedTransaction => 12,
        }
    }

    /// The largest frame that a message with the ID may be.
    pub open spec fn size_cap(self, limits: MessageLimits) -> int {
        match self {
            MessageId::BlockResponse => MAXIMUM_MESSAGE_SIZE as int,
            MessageId::Ping => limits.max_ping_message_size as int,
            MessageId::UnconfirmedTransaction => if limits.max_transaction_size
                + limits.transaction_overhead <= usize::MAX {
                limits.max_transaction_size + limits.transaction_overhead
            } else {
                usize::MAX as int
            },
            _ => MAX_SMALL_MESSAGE_SIZE as int,
        }
    }

    /// Every message ID, in wire order.
    pub fn all() -> (ids: Vec<MessageId>)
        ensures
            ids@ == all_ids(),
    {
        let mut ids: Vec<MessageId> = Vec::new();
        let mut value: u16 = 0;
        while value < NUM_MESSAGE_IDS
            invariant
                value <= NUM_MESSAGE_IDS,
                ids@ == all_ids().take(value as int),
            decreases NUM_MESSAGE_IDS - value,
        {
            if let Some(id) = MessageId::from_u16(value) {
                ids.push(id);
            }
            value = value + 1;
            assert(ids@ =~= all_ids().take(value as int));
        }
        assert(all_ids().take(NUM_MESSAGE_IDS as int) =~= all_ids());
        ids
    }

    /// Returns the ID as it appears on the wire.
    pub fn as_u16(self) -> (value: u16)
        ensures
            value == self.wire_value(),
    {
        match self {
            MessageId::BlockRequest => 0,
            MessageId::BlockResponse => 1,
            MessageId::ChallengeRequest => 2,
            MessageId::ChallengeResponse => 3,
            MessageId::Disconnect => 4,
            MessageId::PeerRequest => 5,
            MessageId::PeerResponse => 6,
            MessageId::Ping => 7,
            MessageId::Pong => 8,
            MessageId::PuzzleRequest => 9,
            MessageId::PuzzleResponse => 10,
            MessageId::UnconfirmedSolution => 11,
            MessageId::UnconfirmedTransaction => 12,
        }
    }

    /// Reads the ID leading `bytes` - the first two bytes of a message frame - or `None` if
    /// `bytes` is too short to hold one, or the ID isn't one this node recognizes.
    pub fn peek(bytes: &[u8]) -> (id: Option<MessageId>)
        ensures
            id == leading_id(bytes@),
    {
        if bytes.len() < MESSAGE_ID_SIZE {
            return None;
        }
        let value: u16 = bytes[0] as u16 + 256 * (bytes[1] as u16);
        MessageId::from_u16(value)
    }

    /// Returns the ID for the given wire value, or `None` if no message this node understands
    /// uses it.
    pub fn from_u16(id: u16) -> (result: Option<MessageId>)
        ensures
            result == id_at(id as int),
    {
        match id {
            0 => Some(MessageId::BlockRequest),
            1 => Some(MessageId::BlockResponse),
            2 => Some(MessageId::ChallengeRequest),
            3 => Some(MessageId::ChallengeResponse),
            4 => Some(MessageId::Disconnect),
            5 => Some(MessageId::PeerRequest),
            6 => Some(MessageId::PeerResponse),
            7 => Some(MessageId::Ping),
            8 => Some(MessageId::Pong),
            9 => Some(MessageId::PuzzleRequest),
            10 => Some(MessageId::PuzzleResponse),
            11 => Some(MessageId::UnconfirmedSolution),
            12 => Some(MessageId::UnconfirmedTransaction),
            _ => None,
        }
    }

    /// Returns the largest frame, in bytes, that a message with this ID may legitimately be. The
    /// size is of the whole frame - the message ID included - because that is what the length
    /// prefix on the wire counts.
    pub fn max_size(self, limits: MessageLimits) -> (size: usize)
        ensures
            size == self.size_cap(limits),
    {
        match self {
            // The one message that is legitimately large - up to a handful of full blocks,
            // bounded by block count rather than by byte size.
            MessageId::BlockResponse => MAXIMUM_MESSAGE_SIZE,
            MessageId::Ping => limits.max_ping_message_size,
            // A transaction of exactly the maximum size is valid, and the message carrying it is
            // necessarily larger than the transaction itself.
            MessageId::UnconfirmedTransaction => {
                limits.max_transaction_size.saturating_add(limits.transaction_overhead)
            },
            MessageId::BlockRequest | MessageId::ChallengeRequest | MessageId::ChallengeResponse
            | MessageId::Disconnect | MessageId::PeerRequest | MessageId::PeerResponse
            | MessageId::Pong | MessageId::PuzzleRequest | MessageId::PuzzleResponse
            | MessageId::UnconfirmedSolution => MAX_SMALL_MESSAGE_SIZE,
        }
    }
}

/// The wire values and the IDs are the inverse of each other, and the values are a contiguous run
/// from zero.
pub proof fn wire_values_are_a_contiguous_run(id: MessageId, value: int)
    ensures
        id_at(id.wire_value() as int) == Some(id),
        id_at(value) matches Some(found) ==> found.wire_value() == value,
        id_at(value) is Some <==> 0 <= value < NUM_MESSAGE_IDS,
{
}

/// Every cap is large enough to hold the ID itself, and none exceeds the general frame ceiling.
pub proof fn size_caps_are_sane(id: MessageId, limits: MessageLimits)
    requires
        limits.sane(),
    ensures
        MESSAGE_ID_SIZE <= id.size_cap(limits) <= MAXIMUM_MESSAGE_SIZE,
{
}

/// The cap on the message that carries a transaction is the size of the largest transaction of the
/// network and what the message adds to it, so a transaction of exactly that size is carried.
pub proof fn the_largest_transaction_of_the_network_fits(
    name: NetworkName,
    network: NetworkParameters,
    max_ping_message_size: usize,
    transaction_overhead: usize,
)
    requires
        network.describe(name),
        network.max_transaction_size + transaction_overhead <= usize::MAX,
    ensures
        MessageId::UnconfirmedTransaction.size_cap(
            MessageLimits::of(network, max_ping_message_size, transaction_overhead),
        ) == network.max_transaction_size + transaction_overhead,
        network.max_transaction_size == MAX_TRANSACTION_SIZE,
{
}

/// The largest list of peers that an honest node sends, each with an IPv6 address and a height, is
/// within the cap on small messages.
pub proof fn the_largest_peer_response_is_small()
    ensures
        MESSAGE_ID_SIZE + 1 + 1 + u8::MAX * (1 + 16 + 2 + 1 + 4) <= MAX_SMALL_MESSAGE_SIZE,
{
}

/// Every message type other than `BlockResponse`, `Ping` and `UnconfirmedTransaction` has the cap on
/// small messages as its own, whatever the sizes that are settled elsewhere.
pub proof fn every_other_message_is_small(id: MessageId, limits: MessageLimits)
    requires
        id != MessageId::BlockResponse,
        id != MessageId::Ping,
        id != MessageId::UnconfirmedTransaction,
    ensures
        id.size_cap(limits) == MAX_SMALL_MESSAGE_SIZE,
        MAX_SMALL_MESSAGE_SIZE == 8192,
{
}

/// The caps on the three message types that can be large: a `BlockResponse` reaches the general frame
/// ceiling, a `Ping` has the size of the largest one, and an `UnconfirmedTransaction` has room for the
/// largest transaction and what the message adds to it, as far as a size can be told.
pub proof fn the_caps_on_large_messages(
    network: NetworkParameters,
    max_ping_message_size: usize,
    transaction_overhead: usize,
)
    ensures
        ({
            let limits = MessageLimits::of(network, max_ping_message_size, transaction_overhead);
            let transaction_cap = MessageId::UnconfirmedTransaction.size_cap(limits);
            &&& MessageId::BlockResponse.size_cap(limits) == 134_217_728
            &&& MessageId::Ping.size_cap(limits) == max_ping_message_size
            &&& network.max_transaction_size + transaction_overhead <= usize::MAX
                ==> transaction_cap == network.max_transaction_size + transaction_overhead
            &&& network.max_transaction_size + transaction_overhead > usize::MAX
                ==> transaction_cap == usize::MAX
        }),
        MAXIMUM_MESSAGE_SIZE == 134_217_728,
{
}

/// The wire order of the message types.
pub proof fn the_wire_order_is_fixed()
    ensures
        all_ids() =~= seq![
            MessageId::BlockRequest,
            MessageId::BlockResponse,
            MessageId::ChallengeRequest,
            MessageId::ChallengeResponse,
            MessageId::Disconnect,
            MessageId::PeerRequest,
            MessageId::PeerResponse,
            MessageId::Ping,
            MessageId::Pong,
            MessageId::PuzzleRequest,
            MessageId::PuzzleResponse,
            MessageId::UnconfirmedSolution,
            MessageId::UnconfirmedTransaction,
        ],
        forall|i: int| 0 <= i < 13 ==> (#[trigger] all_ids()[i]).wire_value() == i,
{
}

/// A message is led by the ID whose wire value its first two bytes hold, the low byte first, whatever
/// follows them; and one that is too short to hold an ID is led by none.
pub proof fn a_message_is_led_by_its_first_two_bytes(
    id: MessageId,
    low: u8,
    high: u8,
    rest: Seq<u8>,
)
    ensures
        leading_id(seq![low, high] + rest) == Some(id) <==> low + 256 * high == id.wire_value(),
        leading_id(seq![low, high] + rest) is None <==> high > 0 || low > 12,
        leading_id(seq![low]) is None,
        leading_id(Seq::<u8>::empty()) is None,
{
}

} // verus!
