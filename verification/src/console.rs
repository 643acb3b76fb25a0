//! The values of the Aleo console, as `snarkvm` reads and prints them.
//!
//! What text or bytes stand for a value is settled by `snarkvm`. Each spec function here names what
//! it reads from an input, and each function calls it.
use crate::text::texts;
use snarkvm::console::types::Field;
use snarkvm::ledger::puzzle::Solution;
use snarkvm::ledger::query::{Query, QueryTrait};
use snarkvm::ledger::store::helpers::memory::BlockMemory;
use snarkvm::ledger::Transaction;
use snarkvm::prelude::{
    CanaryV0, Ciphertext, FromBytes, Identifier, Literal, MainnetV0, Network, Plaintext, PrivateKey,
    Record, TestnetV0, ToBytes, Value, ViewKey,
};
use std::io::Cursor;
use std::str::FromStr;
use vstd::prelude::*;

verus! {

/// The plaintext that a text stands for, as `snarkvm` prints it, or the errors of reading it.
pub uninterp spec fn plaintext(text: Seq<char>) -> Result<Seq<char>, Seq<Seq<char>>>;

/// The value that a text stands for, as `snarkvm` prints it, or the errors of reading it.
pub uninterp spec fn value(text: Seq<char>) -> Result<Seq<char>, Seq<Seq<char>>>;

/// The value that a JSON document holds: `None` if it is null, its amount if it is a `u64`, and
/// `Some(None)` if it is another value; or the error of reading the document.
pub uninterp spec fn json_amount(document: Seq<u8>) -> Result<Option<Option<u64>>, Seq<char>>;

/// The field element that a text stands for, as `snarkvm` prints it, or the errors of reading it.
pub uninterp spec fn field(text: Seq<char>) -> Result<Seq<char>, Seq<Seq<char>>>;

/// The two halves of the block hash that a text stands for, if it is one.
pub uninterp spec fn block_hash(text: Seq<char>) -> Option<(u128, u128)>;

/// The amount of a `u64` member of the struct that a text stands for, the member as `snarkvm` prints
/// it if it is not a `u64`, or the errors of reading the struct or finding the member.
pub uninterp spec fn member_amount(text: Seq<char>, member: Seq<char>) -> Result<
    Result<u64, Seq<char>>,
    Seq<Seq<char>>,
>;

/// The record that a text stands for, as `snarkvm` prints it, or the errors of reading it.
pub uninterp spec fn record(text: Seq<char>) -> Result<Seq<char>, Seq<Seq<char>>>;

/// The record that the ciphertext of a text stands for, as `snarkvm` prints it, decrypted with the
/// view key of the account that a private key stands for, or the errors of reading or decrypting it.
pub uninterp spec fn decrypted_record(private_key: Seq<char>, text: Seq<char>) -> Result<
    Seq<char>,
    Seq<Seq<char>>,
>;

/// The height and the state root, as `snarkvm` prints it, of the static query that a text stands for,
/// `None` if it stands for a query of a REST API, or the errors of reading it.
pub uninterp spec fn ledger_query(text: Seq<char>) -> Result<
    Option<(u32, Seq<char>)>,
    Seq<Seq<char>>,
>;

/// The transaction of the main network at the front of a buffer, as `snarkvm` writes it, with the
/// number of bytes that it takes there, or the error of reading it.
pub uninterp spec fn mainnet_transaction(bytes: Seq<u8>) -> Result<(Seq<u8>, u64), Seq<char>>;

/// The transaction of the test network at the front of a buffer, likewise.
pub uninterp spec fn testnet_transaction(bytes: Seq<u8>) -> Result<(Seq<u8>, u64), Seq<char>>;

/// The transaction of the canary network at the front of a buffer, likewise.
pub uninterp spec fn canary_transaction(bytes: Seq<u8>) -> Result<(Seq<u8>, u64), Seq<char>>;

/// The solution at the front of a buffer, as `snarkvm` writes it, with the number of bytes that it
/// takes there, or the error of reading it.
pub uninterp spec fn solution(bytes: Seq<u8>) -> Result<(Seq<u8>, u64), Seq<char>>;

/// `Plaintext::from_str`, and the plaintext printed again. The networks share the notation.
#[verifier::external_body]
pub(crate) fn parse_plaintext(text: &str) -> (parsed: Result<String, Vec<String>>)
    ensures
        match parsed {
            Ok(printed) => plaintext(text@) == Ok::<Seq<char>, Seq<Seq<char>>>(printed@),
            Err(chain) => plaintext(text@) == Err::<Seq<char>, Seq<Seq<char>>>(texts(chain@)),
        },
{
    Plaintext::<MainnetV0>::from_str(text)
        .map(|plaintext| plaintext.to_string())
        .map_err(|error| error.chain().map(|cause| cause.to_string()).collect())
}

/// `Value::from_str`, and the value printed again. The networks share the notation.
#[verifier::external_body]
pub(crate) fn parse_value(text: &str) -> (parsed: Result<String, Vec<String>>)
    ensures
        match parsed {
            Ok(printed) => value(text@) == Ok::<Seq<char>, Seq<Seq<char>>>(printed@),
            Err(chain) => value(text@) == Err::<Seq<char>, Seq<Seq<char>>>(texts(chain@)),
        },
{
    Value::<MainnetV0>::from_str(text)
        .map(|value| value.to_string())
        .map_err(|error| error.chain().map(|cause| cause.to_string()).collect())
}

/// `serde_json::from_slice` of an optional `Value`, and the amount of a value that is a `u64`. The
/// networks share the notation.
#[verifier::external_body]
pub(crate) fn parse_json_amount(document: &Vec<u8>) -> (parsed: Result<Option<Option<u64>>, String>)
    ensures
        match parsed {
            Ok(amount) => json_amount(document@) == Ok::<Option<Option<u64>>, Seq<char>>(amount),
            Err(error) => json_amount(document@) == Err::<Option<Option<u64>>, Seq<char>>(error@),
        },
{
    match serde_json::from_slice::<Option<Value<MainnetV0>>>(document) {
        Ok(Some(Value::Plaintext(Plaintext::Literal(Literal::U64(amount), _)))) => {
            Ok(Some(Some(*amount)))
        },
        Ok(Some(_)) => Ok(Some(None)),
        Ok(None) => Ok(None),
        Err(error) => Err(error.to_string()),
    }
}

/// `Field::from_str`, and the field element printed again. The networks share the notation.
#[verifier::external_body]
pub(crate) fn parse_field(text: &str) -> (parsed: Result<String, Vec<String>>)
    ensures
        match parsed {
            Ok(printed) => field(text@) == Ok::<Seq<char>, Seq<Seq<char>>>(printed@),
            Err(chain) => field(text@) == Err::<Seq<char>, Seq<Seq<char>>>(texts(chain@)),
        },
{
    Field::<MainnetV0>::from_str(text)
        .map(|field| field.to_string())
        .map_err(|error| error.chain().map(|cause| cause.to_string()).collect())
}

/// `BlockHash::from_str`, and the halves of the hash in little-endian order. The networks share the
/// notation.
#[verifier::external_body]
pub(crate) fn parse_block_hash(text: &str) -> (parsed: Option<(u128, u128)>)
    ensures
        parsed == block_hash(text@),
{
    let hash = <MainnetV0 as Network>::BlockHash::from_str(text).ok()?;
    let bytes = hash.to_bytes_le().ok()?;
    let low = u128::from_le_bytes(bytes[..16].try_into().ok()?);
    let high = u128::from_le_bytes(bytes[16..].try_into().ok()?);
    Some((low, high))
}

/// `Record::<_, Plaintext<_>>::from_str`, and the record printed again. The networks share the
/// notation.
#[verifier::external_body]
pub(crate) fn parse_record_plaintext(text: &str) -> (parsed: Result<String, Vec<String>>)
    ensures
        match parsed {
            Ok(printed) => record(text@) == Ok::<Seq<char>, Seq<Seq<char>>>(printed@),
            Err(chain) => record(text@) == Err::<Seq<char>, Seq<Seq<char>>>(texts(chain@)),
        },
{
    Record::<MainnetV0, Plaintext<MainnetV0>>::from_str(text)
        .map(|record| record.to_string())
        .map_err(|error| error.chain().map(|cause| cause.to_string()).collect())
}

/// `Record::<_, Ciphertext<_>>::decrypt`, on the ciphertext that a text stands for and with the view
/// key of the private key that another stands for, and the record printed. The networks share the
/// notation and the encryption.
#[verifier::external_body]
pub(crate) fn decrypt_record(private_key: &str, text: &str) -> (parsed: Result<String, Vec<String>>)
    ensures
        match parsed {
            Ok(printed) => decrypted_record(private_key@, text@) == Ok::<Seq<char>, Seq<Seq<char>>>(
                printed@,
            ),
            Err(chain) => decrypted_record(private_key@, text@) == Err::<
                Seq<char>,
                Seq<Seq<char>>,
            >(texts(chain@)),
        },
{
    Record::<MainnetV0, Ciphertext<MainnetV0>>::from_str(text)
        .and_then(|record| Ok((record, PrivateKey::<MainnetV0>::from_str(private_key)?)))
        .and_then(|(record, private_key)| record.decrypt(&ViewKey::try_from(&private_key)?))
        .map(|record| record.to_string())
        .map_err(|error| error.chain().map(|cause| cause.to_string()).collect())
}

/// `Query::from_str`, and the height and the state root of a static query. That is all that a static
/// query which was read from a text holds: its map of state paths is empty. The networks share the
/// notation.
#[verifier::external_body]
pub(crate) fn parse_ledger_query(text: &str) -> (parsed: Result<Option<(u32, String)>, Vec<String>>)
    ensures
        match parsed {
            Ok(Some((height, state_root))) => ledger_query(text@) == Ok::<
                Option<(u32, Seq<char>)>,
                Seq<Seq<char>>,
            >(Some((height, state_root@))),
            Ok(None) => ledger_query(text@) == Ok::<Option<(u32, Seq<char>)>, Seq<Seq<char>>>(None),
            Err(chain) => ledger_query(text@) == Err::<Option<(u32, Seq<char>)>, Seq<Seq<char>>>(
                texts(chain@),
            ),
        },
{
    Query::<MainnetV0, BlockMemory<MainnetV0>>::from_str(text)
        .and_then(|query| match query {
            Query::STATIC(query) => {
                Ok(Some((query.current_block_height()?, query.current_state_root()?.to_string())))
            },
            Query::REST(_) => Ok(None),
            Query::VM(_) => Ok(None),
        })
        .map_err(|error| error.chain().map(|cause| cause.to_string()).collect())
}

/// `Plaintext::find` with a path of one member, on the plaintext that a text stands for.
#[verifier::external_body]
pub(crate) fn find_member_amount(text: &str, member: &str) -> (found: Result<
    Result<u64, String>,
    Vec<String>,
>)
    ensures
        match found {
            Ok(Ok(amount)) => member_amount(text@, member@) == Ok::<
                Result<u64, Seq<char>>,
                Seq<Seq<char>>,
            >(Ok(amount)),
            Ok(Err(other)) => member_amount(text@, member@) == Ok::<
                Result<u64, Seq<char>>,
                Seq<Seq<char>>,
            >(Err(other@)),
            Err(chain) => member_amount(text@, member@) == Err::<
                Result<u64, Seq<char>>,
                Seq<Seq<char>>,
            >(texts(chain@)),
        },
{
    let found = Identifier::<MainnetV0>::from_str(member)
        .and_then(|member| Plaintext::<MainnetV0>::from_str(text)?.find(&[member]));
    match found {
        Ok(Plaintext::Literal(Literal::U64(amount), _)) => Ok(Ok(*amount)),
        Ok(other) => Ok(Err(other.to_string())),
        Err(error) => Err(error.chain().map(|cause| cause.to_string()).collect()),
    }
}

/// `Transaction::read_le` for the main network, and the transaction written again. The reader never
/// moves past the end of the buffer.
#[verifier::external_body]
pub(crate) fn read_mainnet_transaction(bytes: &Vec<u8>) -> (read: Result<(Vec<u8>, u64), String>)
    ensures
        match read {
            Ok((written, len)) => len <= bytes@.len() && mainnet_transaction(bytes@) == Ok::<
                (Seq<u8>, u64),
                Seq<char>,
            >((written@, len)),
            Err(error) => mainnet_transaction(bytes@) == Err::<(Seq<u8>, u64), Seq<char>>(error@),
        },
{
    let mut reader = Cursor::new(bytes);
    let transaction = Transaction::<MainnetV0>::read_le(&mut reader).map_err(|error| error.to_string())?;
    let written = transaction.to_bytes_le().map_err(|error| error.to_string())?;
    Ok((written, reader.position()))
}

/// `Transaction::read_le` for the test network, likewise.
#[verifier::external_body]
pub(crate) fn read_testnet_transaction(bytes: &Vec<u8>) -> (read: Result<(Vec<u8>, u64), String>)
    ensures
        match read {
            Ok((written, len)) => len <= bytes@.len() && testnet_transaction(bytes@) == Ok::<
                (Seq<u8>, u64),
                Seq<char>,
            >((written@, len)),
            Err(error) => testnet_transaction(bytes@) == Err::<(Seq<u8>, u64), Seq<char>>(error@),
        },
{
    let mut reader = Cursor::new(bytes);
    let transaction = Transaction::<TestnetV0>::read_le(&mut reader).map_err(|error| error.to_string())?;
    let written = transaction.to_bytes_le().map_err(|error| error.to_string())?;
    Ok((written, reader.position()))
}

/// `Transaction::read_le` for the canary network, likewise.
#[verifier::external_body]
pub(crate) fn read_canary_transaction(bytes: &Vec<u8>) -> (read: Result<(Vec<u8>, u64), String>)
    ensures
        match read {
            Ok((written, len)) => len <= bytes@.len() && canary_transaction(bytes@) == Ok::<
                (Seq<u8>, u64),
                Seq<char>,
            >((written@, len)),
            Err(error) => canary_transaction(bytes@) == Err::<(Seq<u8>, u64), Seq<char>>(error@),
        },
{
    let mut reader = Cursor::new(bytes);
    let transaction = Transaction::<CanaryV0>::read_le(&mut reader).map_err(|error| error.to_string())?;
    let written = transaction.to_bytes_le().map_err(|error| error.to_string())?;
    Ok((written, reader.position()))
}

/// `Solution::read_le`, and the solution written again. The reader never moves past the end of the
/// buffer. The networks share the encoding.
#[verifier::external_body]
pub(crate) fn read_solution(bytes: &Vec<u8>) -> (read: Result<(Vec<u8>, u64), String>)
    ensures
        match read {
            Ok((written, len)) => len <= bytes@.len() && solution(bytes@) == Ok::<
                (Seq<u8>, u64),
                Seq<char>,
            >((written@, len)),
            Err(error) => solution(bytes@) == Err::<(Seq<u8>, u64), Seq<char>>(error@),
        },
{
    let mut reader = Cursor::new(bytes);
    let solution = Solution::<MainnetV0>::read_le(&mut reader).map_err(|error| error.to_string())?;
    let written = solution.to_bytes_le().map_err(|error| error.to_string())?;
    Ok((written, reader.position()))
}

} // verus!
