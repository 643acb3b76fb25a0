use snarkos_node::ledger_data::{
    deserialize_solution_strict, deserialize_transaction_strict, require_whole, Data,
};
use snarkos_node::network::NetworkName;
use snarkvm::console::account::{Address, PrivateKey};
use snarkvm::console::types::Field;
use snarkvm::ledger::puzzle::{PartialSolution, Solution};
use snarkvm::ledger::Block;
use snarkvm::prelude::{CanaryV0, FromBytes, MainnetV0, Network, TestnetV0, ToBytes};

/// The bytes of a transaction: the first of the genesis block.
fn sample_transaction<N: Network>() -> Vec<u8> {
    let block = Block::<N>::read_le(N::genesis_bytes()).unwrap();
    let confirmed = block.transactions().iter().next().unwrap();
    confirmed.transaction().to_bytes_le().unwrap()
}

/// The bytes of a solution.
fn sample_solution() -> Vec<u8> {
    let private_key = PrivateKey::<MainnetV0>::try_from(Field::from_u64(7)).unwrap();
    let address = Address::try_from(private_key).unwrap();
    let epoch_hash = <MainnetV0 as Network>::BlockHash::from(Field::from_u64(11));
    let partial_solution = PartialSolution::new(epoch_hash, address, 13).unwrap();
    Solution::new(partial_solution, 17).to_bytes_le().unwrap()
}

#[test]
fn deserialize_transaction_strict_accepts_object() {
    let expected = sample_transaction::<MainnetV0>();
    let actual =
        deserialize_transaction_strict(Data::Object(expected.clone()), NetworkName::Mainnet);
    assert_eq!(actual, Ok(expected));
}

#[test]
fn deserialize_transaction_strict_accepts_canonical_buffer() {
    let expected = sample_transaction::<MainnetV0>();
    let actual =
        deserialize_transaction_strict(Data::Buffer(expected.clone()), NetworkName::Mainnet);
    assert_eq!(actual, Ok(expected));
}

#[test]
fn deserialize_transaction_strict_accepts_buffers_of_the_other_networks() {
    let testnet = sample_transaction::<TestnetV0>();
    assert_eq!(
        deserialize_transaction_strict(Data::Buffer(testnet.clone()), NetworkName::Testnet),
        Ok(testnet)
    );
    let canary = sample_transaction::<CanaryV0>();
    assert_eq!(
        deserialize_transaction_strict(Data::Buffer(canary.clone()), NetworkName::Canary),
        Ok(canary)
    );
}

#[test]
fn deserialize_transaction_strict_rejects_padded_buffer() {
    let mut bytes = sample_transaction::<MainnetV0>();
    bytes.push(0);
    let result = deserialize_transaction_strict(Data::Buffer(bytes), NetworkName::Mainnet);
    assert_eq!(result.unwrap_err(), "Transaction buffer contains 1 trailing bytes");
}

#[test]
fn deserialize_transaction_strict_rejects_oversize_buffer() {
    let bytes = vec![0; MainnetV0::LATEST_MAX_TRANSACTION_SIZE() + 1];
    let result = deserialize_transaction_strict(Data::Buffer(bytes), NetworkName::Mainnet);
    assert_eq!(
        result.unwrap_err(),
        "Transaction exceeds maximum size - 2304001 bytes > 2304000 bytes"
    );
}

#[test]
fn deserialize_transaction_strict_rejects_what_is_no_transaction() {
    let result = deserialize_transaction_strict(Data::Buffer(vec![9; 100]), NetworkName::Mainnet);
    assert!(!result.unwrap_err().contains("trailing bytes"));
}

#[test]
fn deserialize_solution_strict_accepts_object() {
    let expected = sample_solution();
    assert_eq!(deserialize_solution_strict(Data::Object(expected.clone())), Ok(expected));
}

#[test]
fn deserialize_solution_strict_accepts_exact_buffer() {
    let expected = sample_solution();
    assert_eq!(deserialize_solution_strict(Data::Buffer(expected.clone())), Ok(expected));
}

#[test]
fn deserialize_solution_strict_rejects_padded_buffer() {
    let mut bytes = sample_solution();
    bytes.push(0);
    let result = deserialize_solution_strict(Data::Buffer(bytes));
    assert!(result.unwrap_err().contains("trailing bytes"));
}

#[test]
fn deserialize_solution_strict_rejects_a_truncated_buffer() {
    let mut bytes = sample_solution();
    bytes.pop();
    assert!(deserialize_solution_strict(Data::Buffer(bytes)).is_err());
}

#[test]
fn what_was_read_must_take_all_of_the_buffer() {
    assert_eq!(require_whole("Thing", 3, Ok((vec![1], 3))), Ok(vec![1]));
    assert_eq!(
        require_whole("Thing", 5, Ok((vec![1], 3))),
        Err("Thing buffer contains 2 trailing bytes".to_string())
    );
    assert_eq!(require_whole("Thing", 3, Err("bad".to_string())), Err("bad".to_string()));
}
