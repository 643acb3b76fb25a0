//! The transactions and solutions that arrive as raw buffers.
use crate::console::{
    canary_transaction, mainnet_transaction, read_canary_transaction, read_mainnet_transaction,
    read_solution, read_testnet_transaction, testnet_transaction,
};
use crate::network::{NetworkName, MAX_TRANSACTION_SIZE};
use crate::text::{decimal, decimal_text};
use vstd::prelude::*;

verus! {

/// A transmission that is held as an object, in the form in which it is written, or as the buffer
/// that has arrived.
#[derive(Debug)]
pub enum Data {
    Object(Vec<u8>),
    Buffer(Vec<u8>),
}

/// The transaction at the front of a buffer on a network, as it is written, with the number of bytes
/// that it takes there, or the error of reading it.
pub open spec fn transaction_at_front(network: NetworkName, bytes: Seq<u8>) -> Result<
    (Seq<u8>, u64),
    Seq<char>,
> {
    match network {
        NetworkName::Mainnet => mainnet_transaction(bytes),
        NetworkName::Testnet => testnet_transaction(bytes),
        NetworkName::Canary => canary_transaction(bytes),
    }
}

/// The message for a buffer in which bytes are left behind an object.
pub open spec fn trailing_bytes(kind: Seq<char>, len: nat) -> Seq<char> {
    kind + " buffer contains "@ + decimal(len) + " trailing bytes"@
}

/// The message for a buffer that is too large for a transaction.
pub open spec fn oversize(len: nat, max: nat) -> Seq<char> {
    "Transaction exceeds maximum size - "@ + decimal(len) + " bytes > "@ + decimal(max) + " bytes"@
}

/// The object that was read from a buffer of the given length, if it takes all of it.
pub open spec fn whole(kind: Seq<char>, len: nat, read: Result<(Seq<u8>, u64), Seq<char>>) -> Result<
    Seq<u8>,
    Seq<char>,
> {
    match read {
        Ok((object, taken)) => if taken == len {
            Ok(object)
        } else {
            Err(
                trailing_bytes(
                    kind,
                    if taken <= len {
                        (len - taken) as nat
                    } else {
                        0
                    },
                ),
            )
        },
        Err(error) => Err(error),
    }
}

/// What strict deserialization makes of a transaction.
pub open spec fn strict_transaction(network: NetworkName, buffer: Seq<u8>) -> Result<
    Seq<u8>,
    Seq<char>,
> {
    if buffer.len() > MAX_TRANSACTION_SIZE {
        Err(oversize(buffer.len(), MAX_TRANSACTION_SIZE as nat))
    } else {
        whole("Transaction"@, buffer.len(), transaction_at_front(network, buffer))
    }
}

/// The content of a result with owned parts.
pub open spec fn result_view(result: Result<Vec<u8>, String>) -> Result<Seq<u8>, Seq<char>> {
    match result {
        Ok(object) => Ok(object@),
        Err(error) => Err(error@),
    }
}

/// The content of what was read from the front of a buffer.
pub open spec fn read_view(read: Result<(Vec<u8>, u64), String>) -> Result<
    (Seq<u8>, u64),
    Seq<char>,
> {
    match read {
        Ok((object, taken)) => Ok((object@, taken)),
        Err(error) => Err(error@),
    }
}

/// Returns the object that was read from the front of a buffer, if it takes all of the buffer.
pub fn require_whole(kind: &str, len: u64, read: Result<(Vec<u8>, u64), String>) -> (result: Result<
    Vec<u8>,
    String,
>)
    ensures
        result_view(result) == whole(kind@, len as nat, read_view(read)),
{
    match read {
        Ok((object, taken)) => {
            if taken == len {
                Ok(object)
            } else {
                let mut message = kind.to_owned();
                message.append(" buffer contains ");
                message.append(decimal_text(len.saturating_sub(taken)).as_str());
                message.append(" trailing bytes");
                Err(message)
            }
        },
        Err(error) => Err(error),
    }
}

/// Deserializes a transaction, requiring raw buffers to contain exactly one serialized transaction.
///
/// For buffered transmissions, this rejects buffers that exceed the network transaction size limit or leave trailing
/// bytes after the transaction. Object transmissions are returned as-is.
pub fn deserialize_transaction_strict(transaction: Data, network: NetworkName) -> (result: Result<
    Vec<u8>,
    String,
>)
    ensures
        match transaction {
            Data::Object(object) => result == Ok::<Vec<u8>, String>(object),
            Data::Buffer(bytes) => result_view(result) == strict_transaction(network, bytes@),
        },
{
    match transaction {
        Data::Object(object) => Ok(object),
        Data::Buffer(bytes) => {
            let max: usize = network.parameters().max_transaction_size;
            if bytes.len() > max {
                let mut message = "Transaction exceeds maximum size - ".to_owned();
                message.append(decimal_text(bytes.len() as u64).as_str());
                message.append(" bytes > ");
                message.append(decimal_text(max as u64).as_str());
                message.append(" bytes");
                return Err(message);
            }
            let read = match network {
                NetworkName::Mainnet => read_mainnet_transaction(&bytes),
                NetworkName::Testnet => read_testnet_transaction(&bytes),
                NetworkName::Canary => read_canary_transaction(&bytes),
            };
            require_whole("Transaction", bytes.len() as u64, read)
        },
    }
}

/// Deserializes a solution, requiring raw buffers to contain exactly one serialized solution.
///
/// For buffered transmissions, this rejects buffers that leave trailing bytes after the solution.
/// Object transmissions are returned as-is.
pub fn deserialize_solution_strict(solution: Data) -> (result: Result<Vec<u8>, String>)
    ensures
        match solution {
            Data::Object(object) => result == Ok::<Vec<u8>, String>(object),
            Data::Buffer(bytes) => result_view(result) == whole(
                "Solution"@,
                bytes@.len(),
                crate::console::solution(bytes@),
            ),
        },
{
    match solution {
        Data::Object(object) => Ok(object),
        Data::Buffer(bytes) => {
            let read = read_solution(&bytes);
            require_whole("Solution", bytes.len() as u64, read)
        },
    }
}

/// A buffer is accepted only if what is read from its front takes all of it: no byte can be added to
/// an object without being noticed.
pub proof fn accepted_buffers_hold_nothing_but_the_object(
    kind: Seq<char>,
    len: nat,
    read: Result<(Seq<u8>, u64), Seq<char>>,
)
    ensures
        whole(kind, len, read) is Ok <==> (read matches Ok((_, taken)) && taken == len),
        whole(kind, len, read) matches Ok(object) ==> read == Ok::<(Seq<u8>, u64), Seq<char>>(
            (object, len as u64),
        ),
{
}

/// No buffer over the size limit is accepted as a transaction.
pub proof fn oversize_buffers_are_rejected(network: NetworkName, buffer: Seq<u8>)
    requires
        buffer.len() > MAX_TRANSACTION_SIZE,
    ensures
        strict_transaction(network, buffer) is Err,
{
}

/// A buffer is read as a transaction of the network that it is of, and of no other, if it is within the
/// size limit, which it may reach; it is accepted exactly if the transaction takes all of it.
pub proof fn each_network_reads_its_own_transactions(buffer: Seq<u8>, object: Seq<u8>)
    requires
        buffer.len() <= 2_304_000,
    ensures
        strict_transaction(NetworkName::Mainnet, buffer) == Ok::<Seq<u8>, Seq<char>>(object)
            <==> mainnet_transaction(buffer) == Ok::<(Seq<u8>, u64), Seq<char>>(
            (object, buffer.len() as u64),
        ),
        strict_transaction(NetworkName::Testnet, buffer) == Ok::<Seq<u8>, Seq<char>>(object)
            <==> testnet_transaction(buffer) == Ok::<(Seq<u8>, u64), Seq<char>>(
            (object, buffer.len() as u64),
        ),
        strict_transaction(NetworkName::Canary, buffer) == Ok::<Seq<u8>, Seq<char>>(object)
            <==> canary_transaction(buffer) == Ok::<(Seq<u8>, u64), Seq<char>>(
            (object, buffer.len() as u64),
        ),
        mainnet_transaction(buffer) matches Err(error) ==> strict_transaction(
            NetworkName::Mainnet,
            buffer,
        ) == Err::<Seq<u8>, Seq<char>>(error),
        testnet_transaction(buffer) matches Err(error) ==> strict_transaction(
            NetworkName::Testnet,
            buffer,
        ) == Err::<Seq<u8>, Seq<char>>(error),
        canary_transaction(buffer) matches Err(error) ==> strict_transaction(
            NetworkName::Canary,
            buffer,
        ) == Err::<Seq<u8>, Seq<char>>(error),
{
}

/// A buffer that is refused is told why in numbers: how many bytes are left behind what was read, of
/// which kind it was, and by how much it is too large.
pub proof fn a_refused_buffer_is_told_by_how_much(
    kind: Seq<char>,
    len: nat,
    object: Seq<u8>,
    taken: u64,
    network: NetworkName,
    buffer: Seq<u8>,
)
    ensures
        taken < len ==> kind.is_prefix_of(whole(kind, len, Ok((object, taken)))->Err_0) && (decimal(
            (len - taken) as nat,
        ) + " trailing bytes"@).is_suffix_of(whole(kind, len, Ok((object, taken)))->Err_0),
        taken > len ==> whole(kind, len, Ok((object, taken))) == Err::<Seq<u8>, Seq<char>>(
            kind + " buffer contains "@ + decimal(0) + " trailing bytes"@,
        ),
        buffer.len() > 2_304_000 ==> (decimal(buffer.len()) + " bytes > "@ + decimal(2_304_000)
            + " bytes"@).is_suffix_of(strict_transaction(network, buffer)->Err_0),
{
    if taken < len {
        let message = whole(kind, len, Ok((object, taken)))->Err_0;
        let end = decimal((len - taken) as nat) + " trailing bytes"@;
        assert(message.subrange(0, kind.len() as int) =~= kind);
        assert(message.subrange(message.len() - end.len(), message.len() as int) =~= end);
    }
    if buffer.len() > 2_304_000 {
        let message = strict_transaction(network, buffer)->Err_0;
        let end = decimal(buffer.len()) + " bytes > "@ + decimal(2_304_000) + " bytes"@;
        assert(message.subrange(message.len() - end.len(), message.len() as int) =~= end);
    }
}

/// The contents of a result and of what was read tell apart what differs in it.
pub proof fn contents_are_those_of_the_result(object: Vec<u8>, error: String, taken: u64)
    ensures
        result_view(Ok(object)) == Ok::<Seq<u8>, Seq<char>>(object@),
        result_view(Err(error)) == Err::<Seq<u8>, Seq<char>>(error@),
        read_view(Ok((object, taken))) == Ok::<(Seq<u8>, u64), Seq<char>>((object@, taken)),
        read_view(Err(error)) == Err::<(Seq<u8>, u64), Seq<char>>(error@),
{
}

} // verus!
