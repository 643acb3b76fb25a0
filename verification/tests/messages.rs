use bytes::BytesMut;
use snarkos_node::messages::codec::{
    check_size, deserialized, CodecError, ErrorKind, MessageCodec, MAXIMUM_HANDSHAKE_MESSAGE_SIZE,
};
use snarkos_node::messages::message_id::{
    MessageId, MessageLimits, MAXIMUM_MESSAGE_SIZE, MAX_SMALL_MESSAGE_SIZE, MESSAGE_ID_SIZE,
    NUM_MESSAGE_IDS,
};
use snarkos_node::network::NetworkName;

/// The size of the largest `Ping` in these tests.
const MAX_PING: usize = 4 * 1024 * 1024;

fn limits() -> MessageLimits {
    MessageLimits::new(&NetworkName::Mainnet.parameters(), MAX_PING, 39)
}

/// A message of the given size, with the given ID.
fn message(id: u16, size: usize) -> Vec<u8> {
    let mut bytes = vec![0u8; size];
    bytes[..MESSAGE_ID_SIZE].copy_from_slice(&id.to_le_bytes());
    bytes
}

/// Encodes a message and decodes it with another codec.
fn transmit(
    encoder: &mut MessageCodec,
    decoder: &mut MessageCodec,
    message: &[u8],
) -> Result<Option<Vec<u8>>, CodecError> {
    let mut bytes = BytesMut::new();
    assert!(encoder.encode(message, &mut bytes).is_ok());
    assert_eq!(&bytes[..4], &(message.len() as u32).to_le_bytes());
    decoder.decode(&mut bytes)
}

fn is_accepted(id: MessageId, size: usize) -> bool {
    let message = message(id.as_u16(), size);
    match transmit(&mut MessageCodec::new(limits()), &mut MessageCodec::new(limits()), &message) {
        Ok(Some(body)) => {
            assert_eq!(body, message);
            true
        }
        Ok(None) => panic!("the frame is whole"),
        Err(error) => {
            assert_eq!(error, CodecError::MessageTooLarge);
            assert_eq!(error.kind(), ErrorKind::InvalidData);
            false
        }
    }
}

#[test]
fn from_u16_agrees_with_discriminants() {
    for (index, id) in MessageId::all().into_iter().enumerate() {
        assert_eq!(
            id.as_u16() as usize,
            index,
            "from_u16({index}) returned {id:?}, whose wire value is not {index}"
        );
        assert_eq!(MessageId::from_u16(index as u16), Some(id));
    }
}

#[test]
fn message_ids_are_contiguous() {
    let count = MessageId::all().len();
    assert!(count > 0, "no message IDs are reachable from the wire");
    assert_eq!(count, NUM_MESSAGE_IDS as usize);
    assert_eq!(MessageId::from_u16(count as u16), None, "an ID past the end of the run was accepted");
}

#[test]
fn max_sizes_are_sane() {
    for id in MessageId::all() {
        let max_size = id.max_size(limits());
        assert!(max_size >= MESSAGE_ID_SIZE, "{id:?} cannot hold its own message ID");
        assert!(
            max_size <= MAXIMUM_MESSAGE_SIZE,
            "{id:?} is allowed to exceed the general frame ceiling"
        );
    }
    assert_eq!(MessageId::BlockResponse.max_size(limits()), 128 * 1024 * 1024);
    assert_eq!(MessageId::Ping.max_size(limits()), MAX_PING);
    assert_eq!(MessageId::UnconfirmedTransaction.max_size(limits()), 2_304_039);
    assert_eq!(MessageId::Pong.max_size(limits()), 8_192);
}

#[test]
fn an_id_is_read_from_the_front_of_a_message() {
    assert_eq!(MessageId::peek(&[7, 0, 1]), Some(MessageId::Ping));
    assert_eq!(MessageId::peek(&[0, 1]), None);
    assert_eq!(MessageId::peek(&[7]), None);
    assert_eq!(MessageId::peek(&[]), None);
}

#[test]
fn overly_large_unconfirmed_transaction() {
    assert!(!is_accepted(MessageId::UnconfirmedTransaction, 2_304_040));
}

#[test]
fn max_size_unconfirmed_transaction_is_accepted() {
    assert!(is_accepted(MessageId::UnconfirmedTransaction, 2_304_039));
}

#[test]
fn largest_possible_ping_is_accepted() {
    assert!(is_accepted(MessageId::Ping, MAX_PING));
}

#[test]
fn overly_large_puzzle_response() {
    assert!(!is_accepted(MessageId::PuzzleResponse, 8_193));
}

#[test]
fn overly_large_unconfirmed_solution() {
    assert!(!is_accepted(MessageId::UnconfirmedSolution, 100_000));
}

#[test]
fn puzzle_response_is_accepted() {
    assert!(is_accepted(MessageId::PuzzleResponse, 300));
}

#[test]
fn unconfirmed_solution_is_accepted() {
    assert!(is_accepted(MessageId::UnconfirmedSolution, 300));
}

/// A full peer list of IPv6 addresses, every one of them carrying a height: the ID, the version
/// indicator, the length, and for each of 255 peers a tagged address with a port and a tagged height.
#[test]
fn largest_honest_peer_response_is_accepted() {
    assert!(is_accepted(MessageId::PeerResponse, 2 + 1 + 1 + 255 * (1 + 16 + 2 + 1 + 4)));
}

#[test]
fn size_gate_boundary_is_exact() {
    for id in MessageId::all() {
        let max_size = id.max_size(limits());
        assert!(
            check_size(&message(id.as_u16(), max_size), limits()).is_ok(),
            "{id:?} rejected a frame of exactly its maximum size ({max_size})"
        );
        assert_eq!(
            check_size(&message(id.as_u16(), max_size + 1), limits()),
            Err(CodecError::MessageTooLarge),
            "{id:?} admitted a frame one byte over its cap"
        );
    }
}

#[test]
fn unrecognized_message_id_is_not_size_capped() {
    let unrecognized_id: u16 = MessageId::all().len() as u16;
    assert!(check_size(&message(unrecognized_id, MAX_SMALL_MESSAGE_SIZE + 1), limits()).is_ok());
}

#[test]
fn default_codec_ceiling_is_the_largest_allowed_type() {
    let codec = MessageCodec::new(limits());
    let expected = MessageId::all().into_iter().map(|id| id.max_size(limits())).max().unwrap();
    assert_eq!(expected, MessageId::BlockResponse.max_size(limits()));
    assert_eq!(codec.max_frame_length(), expected);
}

#[test]
fn excluding_block_response_shrinks_the_ceiling_to_the_next_largest_type() {
    let codec = MessageCodec::excluding(vec![MessageId::BlockResponse], limits());
    assert_eq!(codec.max_frame_length(), MessageId::Ping.max_size(limits()));
}

#[test]
fn excluding_a_type_rejects_even_a_small_well_formed_instance_of_it() {
    let mut restricted = MessageCodec::excluding(vec![MessageId::BlockResponse], limits());
    let block_response = message(MessageId::BlockResponse.as_u16(), 20);
    assert_eq!(
        transmit(&mut MessageCodec::new(limits()), &mut restricted, &block_response),
        Err(CodecError::NotPermitted)
    );
}

#[test]
fn excluding_a_type_still_allows_a_permitted_message() {
    let mut restricted = MessageCodec::excluding(vec![MessageId::BlockResponse], limits());
    let pong = message(MessageId::Pong.as_u16(), 3);
    assert_eq!(
        transmit(&mut MessageCodec::new(limits()), &mut restricted, &pong),
        Ok(Some(pong.clone()))
    );
}

#[test]
fn excluding_block_response_rejects_an_oversized_frame_far_below_the_general_ceiling() {
    let declared_len = MessageId::Ping.max_size(limits()) + 1;
    let mut bytes = BytesMut::new();
    bytes.extend_from_slice(&(declared_len as u32).to_le_bytes());
    bytes.extend_from_slice(&MessageId::BlockResponse.as_u16().to_le_bytes());
    // Deliberately no further bytes.
    let mut restricted = MessageCodec::excluding(vec![MessageId::BlockResponse], limits());
    assert_eq!(restricted.decode(&mut bytes), Err(CodecError::FrameTooLong));
}

#[test]
fn a_frame_may_arrive_in_parts() {
    let pong = message(MessageId::Pong.as_u16(), 6);
    let mut whole = BytesMut::new();
    let mut codec = MessageCodec::new(limits());
    codec.encode(&pong, &mut whole).unwrap();
    let mut arriving = BytesMut::new();
    for (i, byte) in whole.iter().enumerate() {
        arriving.extend_from_slice(&[*byte]);
        let expected = if i + 1 == whole.len() { Some(pong.clone()) } else { None };
        assert_eq!(codec.decode(&mut arriving), Ok(expected));
    }
    assert!(arriving.is_empty());
}

#[test]
fn frames_are_taken_one_at_a_time() {
    let (first, second) = (message(8, 5), message(9, 3));
    let mut codec = MessageCodec::new(limits());
    let (mut head, mut tail) = (BytesMut::new(), BytesMut::new());
    codec.encode(&first, &mut head).unwrap();
    codec.encode(&second, &mut tail).unwrap();
    head.extend_from_slice(&tail);
    assert_eq!(codec.decode(&mut head), Ok(Some(first)));
    assert_eq!(codec.decode(&mut head), Ok(Some(second)));
    assert_eq!(codec.decode(&mut head), Ok(None));
}

#[test]
fn a_handshake_admits_no_frame_over_its_ceiling() {
    let mut codec = MessageCodec::handshake(limits());
    assert_eq!(codec.max_frame_length(), MAXIMUM_HANDSHAKE_MESSAGE_SIZE);
    let mut bytes = BytesMut::new();
    assert_eq!(
        codec.encode(&message(7, MAXIMUM_HANDSHAKE_MESSAGE_SIZE + 1), &mut bytes),
        Err(CodecError::InvalidInput)
    );
    assert!(codec.encode(&message(7, MAXIMUM_HANDSHAKE_MESSAGE_SIZE), &mut BytesMut::new()).is_ok());
}

#[test]
fn an_unrecognized_message_is_refused() {
    let mut codec = MessageCodec::new(limits());
    for body in [message(NUM_MESSAGE_IDS, 20), message(u16::MAX, 2), vec![7], vec![]] {
        let result = transmit(&mut MessageCodec::new(limits()), &mut codec, &body);
        assert_eq!(result, Err(CodecError::UnknownMessage), "{body:?}");
    }
    assert_eq!(CodecError::UnknownMessage.kind(), ErrorKind::InvalidData);
    assert_eq!(CodecError::NotPermitted.kind(), ErrorKind::InvalidData);
    assert_eq!(CodecError::FrameTooLong.kind(), ErrorKind::InvalidData);
    assert_eq!(CodecError::InvalidInput.kind(), ErrorKind::InvalidInput);
}

/// Reads the flag of a `Pong`.
fn read_pong(bytes: Vec<u8>) -> Result<bool, String> {
    match bytes[..] {
        [8, 0, 0] => Ok(false),
        [8, 0, 1] => Ok(true),
        _ => Err("no pong".to_string()),
    }
}

#[test]
fn a_frame_is_decoded_exactly_if_its_message_deserializes() {
    let decode = |excluded: Vec<MessageId>, body: &[u8]| {
        let mut bytes = BytesMut::new();
        MessageCodec::new(limits()).encode(body, &mut bytes).unwrap();
        MessageCodec::excluding(excluded, limits()).decode_message(&mut bytes, read_pong)
    };
    assert_eq!(decode(vec![], &[8, 0, 1]), Ok(Some(true)));
    assert_eq!(decode(vec![MessageId::BlockResponse], &[8, 0, 0]), Ok(Some(false)));
    // What deserializes to no message is refused, and never taken for a part of one.
    assert_eq!(decode(vec![], &[8, 0]), Err(CodecError::InvalidMessage));
    assert_eq!(decode(vec![], &[8, 0, 2]), Err(CodecError::InvalidMessage));
    // What is refused beforehand is not deserialized.
    assert_eq!(decode(vec![MessageId::Pong], &[8, 0, 1]), Err(CodecError::NotPermitted));
    assert_eq!(decode(vec![], &[13, 0]), Err(CodecError::UnknownMessage));
    let mut part = BytesMut::new();
    part.extend_from_slice(&[3, 0, 0, 0, 8, 0]);
    let mut codec = MessageCodec::new(limits());
    assert_eq!(codec.decode_message(&mut part, read_pong), Ok(None));
    part.extend_from_slice(&[1]);
    assert_eq!(codec.decode_message(&mut part, read_pong), Ok(Some(true)));
    assert_eq!(deserialized(Ok::<u8, String>(5)), Ok(Some(5)));
    assert_eq!(deserialized::<u8>(Err("bad".to_string())), Err(CodecError::InvalidMessage));
    assert_eq!(CodecError::InvalidMessage.kind(), ErrorKind::InvalidData);
}
