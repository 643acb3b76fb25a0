//! The types of nodes.
use crate::text::{decimal, decimal_text};
use vstd::prelude::*;

verus! {

/// The type of a node.
#[derive(Copy, Clone, Debug, Eq, PartialEq, Hash, Structural)]
pub enum NodeType {
    /// A client node is a full node, capable of syncing with the network.
    Client,
    /// A prover is a light node, capable of producing proofs for consensus.
    Prover,
    /// A validator is a full node, capable of validating blocks.
    Validator,
    /// A bootstrapclient is a light node dedicated to serving peer lists.
    BootstrapClient,
}

/// Why no node type could be read.
#[derive(Copy, Clone, Debug, Eq, PartialEq, Structural)]
pub enum NodeTypeError {
    /// The input has ended.
    UnexpectedEof,
    /// The byte stands for no node type.
    Invalid(u8),
}

impl NodeTypeError {
    /// The message of the error.
    pub open spec fn message(self) -> Seq<char> {
        match self {
            NodeTypeError::UnexpectedEof => "failed to fill whole buffer"@,
            NodeTypeError::Invalid(byte) => "Invalid node type: expected 0..=3, got "@ + decimal(
                byte as nat,
            ) + "."@,
        }
    }

    /// Returns the message of the error.
    pub fn to_string(&self) -> (message: String)
        ensures
            message@ == self.message(),
    {
        match self {
            NodeTypeError::UnexpectedEof => "failed to fill whole buffer".to_owned(),
            NodeTypeError::Invalid(byte) => {
                let mut message = "Invalid node type: expected 0..=3, got ".to_owned();
                let numeral = decimal_text(*byte as u64);
                message.append(numeral.as_str());
                message.append(".");
                message
            },
        }
    }
}

impl NodeType {
    /// The byte that stands for the node type on the wire.
    pub open spec fn discriminant(self) -> u8 {
        match self {
            NodeType::Client => 0,
            NodeType::Prover => 1,
            NodeType::Validator => 2,
            NodeType::BootstrapClient => 3,
        }
    }

    /// What is read from the front of the given bytes.
    pub open spec fn read(bytes: Seq<u8>) -> Result<NodeType, NodeTypeError> {
        if bytes.len() == 0 {
            Err(NodeTypeError::UnexpectedEof)
        } else if bytes[0] == 0 {
            Ok(NodeType::Client)
        } else if bytes[0] == 1 {
            Ok(NodeType::Prover)
        } else if bytes[0] == 2 {
            Ok(NodeType::Validator)
        } else if bytes[0] == 3 {
            Ok(NodeType::BootstrapClient)
        } else {
            Err(NodeTypeError::Invalid(bytes[0]))
        }
    }

    /// The description of the node type.
    pub open spec fn described(self) -> Seq<char> {
        match self {
            NodeType::Client => "a client node"@,
            NodeType::Prover => "a prover node"@,
            NodeType::Validator => "a validator node"@,
            NodeType::BootstrapClient => "a bootstrap client node"@,
        }
    }

    /// The name of the node type.
    pub open spec fn name(self) -> Seq<char> {
        match self {
            NodeType::Client => "Client"@,
            NodeType::Prover => "Prover"@,
            NodeType::Validator => "Validator"@,
            NodeType::BootstrapClient => "Bootstrap Client"@,
        }
    }

    /// Returns a string representation of the node type.
    pub fn description(&self) -> (description: &'static str)
        ensures
            description@ == self.described(),
    {
        match self {
            NodeType::Client => "a client node",
            NodeType::Prover => "a prover node",
            NodeType::Validator => "a validator node",
            NodeType::BootstrapClient => "a bootstrap client node",
        }
    }

    /// Returns the name of the node type.
    pub fn to_string(&self) -> (name: String)
        ensures
            name@ == self.name(),
    {
        match self {
            NodeType::Client => "Client".to_owned(),
            NodeType::Prover => "Prover".to_owned(),
            NodeType::Validator => "Validator".to_owned(),
            NodeType::BootstrapClient => "Bootstrap Client".to_owned(),
        }
    }

    /// Returns `true` if the node type is a client.
    pub fn is_client(&self) -> (result: bool)
        ensures
            result == (*self is Client),
    {
        matches!(self, NodeType::Client)
    }

    /// Returns `true` if the node type is a prover.
    pub fn is_prover(&self) -> (result: bool)
        ensures
            result == (*self is Prover),
    {
        matches!(self, NodeType::Prover)
    }

    /// Returns `true` if the node type is a validator.
    pub fn is_validator(&self) -> (result: bool)
        ensures
            result == (*self is Validator),
    {
        matches!(self, NodeType::Validator)
    }

    /// Appends the byte that stands for the node type.
    pub fn write_le(&self, writer: &mut Vec<u8>)
        ensures
            final(writer)@ == old(writer)@.push(self.discriminant()),
    {
        let byte: u8 = match self {
            NodeType::Client => 0,
            NodeType::Prover => 1,
            NodeType::Validator => 2,
            NodeType::BootstrapClient => 3,
        };
        writer.push(byte);
    }

    /// Returns the bytes that stand for the node type.
    pub fn to_bytes_le(&self) -> (bytes: Vec<u8>)
        ensures
            bytes@ == seq![self.discriminant()],
    {
        let mut bytes: Vec<u8> = Vec::new();
        self.write_le(&mut bytes);
        assert(bytes@ =~= seq![self.discriminant()]);
        bytes
    }

    /// Reads the node type from the front of the given bytes.
    pub fn read_le(bytes: &[u8]) -> (read: Result<NodeType, NodeTypeError>)
        ensures
            read == NodeType::read(bytes@),
    {
        if bytes.len() == 0 {
            return Err(NodeTypeError::UnexpectedEof);
        }
        match bytes[0] {
            0 => Ok(NodeType::Client),
            1 => Ok(NodeType::Prover),
            2 => Ok(NodeType::Validator),
            3 => Ok(NodeType::BootstrapClient),
            byte => Err(NodeTypeError::Invalid(byte)),
        }
    }
}

/// Every node type is read back from the bytes that stand for it, whatever follows them.
pub proof fn every_variant_round_trips(node_type: NodeType, rest: Seq<u8>)
    ensures
        NodeType::read(seq![node_type.discriminant()] + rest) == Ok::<NodeType, NodeTypeError>(
            node_type,
        ),
{
}

/// A byte that a node type is read from is the one that stands for it: no byte beyond the known ones
/// is mapped onto a node type.
pub proof fn only_the_known_bytes_are_read(bytes: Seq<u8>)
    ensures
        NodeType::read(bytes) matches Ok(node_type) ==> bytes.len() > 0 && bytes[0]
            == node_type.discriminant(),
        bytes.len() == 0 || bytes[0] > 3 ==> NodeType::read(bytes) is Err,
{
}

/// A node type takes one byte: what follows it plays no part in what is read.
pub proof fn a_node_type_takes_one_byte(bytes: Seq<u8>)
    requires
        bytes.len() > 0,
    ensures
        NodeType::read(bytes) == NodeType::read(bytes.take(1)),
{
    assert(bytes.take(1)[0] == bytes[0]);
}

/// Different node types have different descriptions and different names.
pub proof fn descriptions_and_names_are_distinct(left: NodeType, right: NodeType)
    requires
        left != right,
    ensures
        left.described() != right.described(),
        left.name() != right.name(),
{
    reveal_strlit("a client node");
    reveal_strlit("a prover node");
    reveal_strlit("a validator node");
    reveal_strlit("a bootstrap client node");
    reveal_strlit("Client");
    reveal_strlit("Prover");
    reveal_strlit("Validator");
    reveal_strlit("Bootstrap Client");
    assert(left.described()[2] != right.described()[2]);
    assert(left.name()[0] != right.name()[0]);
}

/// The byte, the description and the name that each node type has.
pub proof fn each_node_type_has_its_own_byte_and_names(node_type: NodeType, rest: Seq<u8>)
    ensures
        node_type.discriminant() == 0 <==> node_type is Client,
        node_type.discriminant() == 1 <==> node_type is Prover,
        node_type.discriminant() == 2 <==> node_type is Validator,
        node_type.discriminant() == 3 <==> node_type is BootstrapClient,
        NodeType::read(seq![0u8] + rest) == Ok::<NodeType, NodeTypeError>(NodeType::Client),
        NodeType::read(seq![1u8] + rest) == Ok::<NodeType, NodeTypeError>(NodeType::Prover),
        NodeType::read(seq![2u8] + rest) == Ok::<NodeType, NodeTypeError>(NodeType::Validator),
        NodeType::read(seq![3u8] + rest) == Ok::<NodeType, NodeTypeError>(
            NodeType::BootstrapClient,
        ),
        node_type is Client ==> node_type.described() == "a client node"@ && node_type.name()
            == "Client"@,
        node_type is Prover ==> node_type.described() == "a prover node"@ && node_type.name()
            == "Prover"@,
        node_type is Validator ==> node_type.described() == "a validator node"@ && node_type.name()
            == "Validator"@,
        node_type is BootstrapClient ==> node_type.described() == "a bootstrap client node"@
            && node_type.name() == "Bootstrap Client"@,
{
}

/// A byte that stands for no node type is reported as it is, by its number, and an input that has
/// ended is reported as such.
pub proof fn an_unknown_byte_is_reported(byte: u8, rest: Seq<u8>)
    ensures
        byte > 3 ==> NodeType::read(seq![byte] + rest) == Err::<NodeType, NodeTypeError>(
            NodeTypeError::Invalid(byte),
        ),
        NodeType::read(Seq::empty()) == Err::<NodeType, NodeTypeError>(
            NodeTypeError::UnexpectedEof,
        ),
        ("got "@ + decimal(byte as nat) + "."@).is_suffix_of(NodeTypeError::Invalid(byte).message()),
{
    reveal_strlit("got ");
    reveal_strlit("Invalid node type: expected 0..=3, got ");
    let message = NodeTypeError::Invalid(byte).message();
    let end = "got "@ + decimal(byte as nat) + "."@;
    assert(message.subrange(message.len() - end.len(), message.len() as int) =~= end);
}

} // verus!
