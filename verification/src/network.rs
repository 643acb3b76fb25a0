//! The networks, and what their nodes say of themselves to each other.
use crate::text::{
    a_text_is_split_at_every_separator, a_text_without_the_separator_is_not_split, split,
    split_text, texts, utf8_text,
};
use smol_str::SmolStr;
use snarkvm::ledger::store::helpers::memory::ConsensusMemory;
use snarkvm::prelude::{CanaryV0, MainnetV0, Network as _, TestnetV0};
use snarkvm::synthesizer::VM;
use vstd::prelude::*;
use vstd::utf8::{decode_utf8, decode_utf8_encode_utf8, encode_utf8, valid_utf8};

verus! {

/// A network.
#[derive(Copy, Clone, Debug, PartialEq, Eq, Structural)]
pub enum NetworkName {
    Mainnet,
    Testnet,
    Canary,
}

/// What a network settles for its nodes.
#[derive(Debug)]
pub struct NetworkParameters {
    /// The ID of the network.
    pub id: u16,
    /// The name of the network, as it stands in paths.
    pub short_name: String,
    /// The maximum number of solutions in a block.
    pub max_solutions: usize,
    /// The maximum number of inputs of a transition.
    pub max_inputs: usize,
    /// The number of blocks in an epoch.
    pub num_blocks_per_epoch: u32,
    /// The size of the largest transaction.
    pub max_transaction_size: usize,
    /// The number of deployments that are verified at once.
    pub max_deploy_verifications: usize,
    /// The number of executions that are verified at once.
    pub max_execute_verifications: usize,
}

/// The maximum number of solutions in a block.
pub const MAX_SOLUTIONS: usize = 4;

/// The maximum number of inputs of a transition.
pub const MAX_INPUTS: usize = 16;

/// The number of blocks in an epoch.
pub const NUM_BLOCKS_PER_EPOCH: u32 = 360;

/// The size of the largest transaction.
pub const MAX_TRANSACTION_SIZE: usize = 2_304_000;

/// The number of deployments that are verified at once.
pub const MAX_PARALLEL_DEPLOY_VERIFICATIONS: usize = 5;

/// The number of executions that are verified at once.
pub const MAX_PARALLEL_EXECUTE_VERIFICATIONS: usize = 1000;

impl NetworkParameters {
    /// Whether the parameters are those of a network.
    pub open spec fn describe(self, network: NetworkName) -> bool {
        &&& self.id == network.id()
        &&& self.short_name@ == network.short_name()
        &&& self.max_solutions == MAX_SOLUTIONS
        &&& self.max_inputs == MAX_INPUTS
        &&& self.num_blocks_per_epoch == NUM_BLOCKS_PER_EPOCH
        &&& self.max_transaction_size == MAX_TRANSACTION_SIZE
        &&& self.max_deploy_verifications == MAX_PARALLEL_DEPLOY_VERIFICATIONS
        &&& self.max_execute_verifications == MAX_PARALLEL_EXECUTE_VERIFICATIONS
    }
}

/// The constants of `snarkvm` for `MainnetV0`.
#[verifier::external_body]
fn mainnet_parameters() -> (parameters: NetworkParameters)
    ensures
        parameters.describe(NetworkName::Mainnet),
{
    NetworkParameters {
        id: MainnetV0::ID,
        short_name: MainnetV0::SHORT_NAME.to_string(),
        max_solutions: MainnetV0::MAX_SOLUTIONS,
        max_inputs: MainnetV0::MAX_INPUTS,
        num_blocks_per_epoch: MainnetV0::NUM_BLOCKS_PER_EPOCH,
        max_transaction_size: MainnetV0::LATEST_MAX_TRANSACTION_SIZE(),
        max_deploy_verifications: VM::<MainnetV0, ConsensusMemory<MainnetV0>>::MAX_PARALLEL_DEPLOY_VERIFICATIONS,
        max_execute_verifications: VM::<MainnetV0, ConsensusMemory<MainnetV0>>::MAX_PARALLEL_EXECUTE_VERIFICATIONS,
    }
}

/// The constants of `snarkvm` for `TestnetV0`.
#[verifier::external_body]
fn testnet_parameters() -> (parameters: NetworkParameters)
    ensures
        parameters.describe(NetworkName::Testnet),
{
    NetworkParameters {
        id: TestnetV0::ID,
        short_name: TestnetV0::SHORT_NAME.to_string(),
        max_solutions: TestnetV0::MAX_SOLUTIONS,
        max_inputs: TestnetV0::MAX_INPUTS,
        num_blocks_per_epoch: TestnetV0::NUM_BLOCKS_PER_EPOCH,
        max_transaction_size: TestnetV0::LATEST_MAX_TRANSACTION_SIZE(),
        max_deploy_verifications: VM::<TestnetV0, ConsensusMemory<TestnetV0>>::MAX_PARALLEL_DEPLOY_VERIFICATIONS,
        max_execute_verifications: VM::<TestnetV0, ConsensusMemory<TestnetV0>>::MAX_PARALLEL_EXECUTE_VERIFICATIONS,
    }
}

/// The constants of `snarkvm` for `CanaryV0`.
#[verifier::external_body]
fn canary_parameters() -> (parameters: NetworkParameters)
    ensures
        parameters.describe(NetworkName::Canary),
{
    NetworkParameters {
        id: CanaryV0::ID,
        short_name: CanaryV0::SHORT_NAME.to_string(),
        max_solutions: CanaryV0::MAX_SOLUTIONS,
        max_inputs: CanaryV0::MAX_INPUTS,
        num_blocks_per_epoch: CanaryV0::NUM_BLOCKS_PER_EPOCH,
        max_transaction_size: CanaryV0::LATEST_MAX_TRANSACTION_SIZE(),
        max_deploy_verifications: VM::<CanaryV0, ConsensusMemory<CanaryV0>>::MAX_PARALLEL_DEPLOY_VERIFICATIONS,
        max_execute_verifications: VM::<CanaryV0, ConsensusMemory<CanaryV0>>::MAX_PARALLEL_EXECUTE_VERIFICATIONS,
    }
}

impl NetworkName {
    /// The ID of the network.
    pub open spec fn id(self) -> u16 {
        match self {
            NetworkName::Mainnet => 0,
            NetworkName::Testnet => 1,
            NetworkName::Canary => 2,
        }
    }

    /// The name of the network, as it stands in paths.
    pub open spec fn short_name(self) -> Seq<char> {
        match self {
            NetworkName::Mainnet => "mainnet"@,
            NetworkName::Testnet => "testnet"@,
            NetworkName::Canary => "canary"@,
        }
    }

    /// The network with an ID.
    pub open spec fn with_id(id: u16) -> Option<NetworkName> {
        if id == 0 {
            Some(NetworkName::Mainnet)
        } else if id == 1 {
            Some(NetworkName::Testnet)
        } else if id == 2 {
            Some(NetworkName::Canary)
        } else {
            None
        }
    }

    /// Returns what the network settles for its nodes.
    pub fn parameters(self) -> (parameters: NetworkParameters)
        ensures
            parameters.describe(self),
    {
        match self {
            NetworkName::Mainnet => mainnet_parameters(),
            NetworkName::Testnet => testnet_parameters(),
            NetworkName::Canary => canary_parameters(),
        }
    }

    /// Returns the network with the given ID, if there is one.
    pub fn from_id(id: u16) -> (network: Option<NetworkName>)
        ensures
            network == NetworkName::with_id(id),
    {
        if id == NetworkName::Mainnet.parameters().id {
            Some(NetworkName::Mainnet)
        } else if id == NetworkName::Testnet.parameters().id {
            Some(NetworkName::Testnet)
        } else if id == NetworkName::Canary.parameters().id {
            Some(NetworkName::Canary)
        } else {
            None
        }
    }
}

/// The ID and the network are the inverse of each other.
pub proof fn network_ids_are_distinct(network: NetworkName, id: u16)
    ensures
        NetworkName::with_id(network.id()) == Some(network),
        NetworkName::with_id(id) matches Some(found) ==> found.id() == id,
{
}

/// The bootstrap peers of a network.
pub open spec fn network_peers(network: u16) -> Seq<Seq<char>> {
    match NetworkName::with_id(network) {
        Some(NetworkName::Mainnet) => seq![
            "35.231.67.219:4130"@,
            "34.73.195.196:4130"@,
            "34.23.225.202:4130"@,
            "34.148.16.111:4130"@,
        ],
        Some(NetworkName::Testnet) => seq![
            "34.138.104.159:4130"@,
            "35.231.46.237:4130"@,
            "34.148.251.155:4130"@,
            "35.190.141.234:4130"@,
        ],
        Some(NetworkName::Canary) => seq![
            "34.139.88.58:4130"@,
            "34.139.252.207:4130"@,
            "35.185.98.12:4130"@,
            "35.231.106.26:4130"@,
        ],
        None => Seq::empty(),
    }
}

/// The bootstrap peers of a node: those of its network, or in development those that are configured,
/// with commas between them.
pub open spec fn peers_of(network: u16, is_dev: bool, configured: Option<Seq<char>>) -> Seq<
    Seq<char>,
> {
    if !is_dev {
        network_peers(network)
    } else {
        match configured {
            Some(peers) => split(peers, ','),
            None => Seq::empty(),
        }
    }
}

fn four_peers(first: &str, second: &str, third: &str, fourth: &str) -> (peers: Vec<String>)
    ensures
        texts(peers@) == seq![first@, second@, third@, fourth@],
{
    let mut peers: Vec<String> = Vec::new();
    peers.push(first.to_owned());
    peers.push(second.to_owned());
    peers.push(third.to_owned());
    peers.push(fourth.to_owned());
    assert(texts(peers@) =~= seq![first@, second@, third@, fourth@]);
    peers
}

/// Returns the list of bootstrap peers. In development they are loaded from the environment, whose
/// content is given: `None` if there is none, or none that can be read.
pub fn bootstrap_peers(network: u16, is_dev: bool, configured: &Option<String>) -> (peers: Vec<
    String,
>)
    ensures
        texts(peers@) == peers_of(
            network,
            is_dev,
            match configured {
                Some(peers) => Some(peers@),
                None => None,
            },
        ),
{
    if is_dev {
        match configured {
            Some(peers) => split_text(peers.as_str(), ','),
            None => {
                let peers: Vec<String> = Vec::new();
                assert(texts(peers@) =~= Seq::<Seq<char>>::empty());
                peers
            },
        }
    } else {
        match NetworkName::from_id(network) {
            Some(NetworkName::Mainnet) => four_peers(
                "35.231.67.219:4130",
                "34.73.195.196:4130",
                "34.23.225.202:4130",
                "34.148.16.111:4130",
            ),
            Some(NetworkName::Testnet) => four_peers(
                "34.138.104.159:4130",
                "35.231.46.237:4130",
                "34.148.251.155:4130",
                "35.190.141.234:4130",
            ),
            Some(NetworkName::Canary) => four_peers(
                "34.139.88.58:4130",
                "34.139.252.207:4130",
                "35.185.98.12:4130",
                "35.231.106.26:4130",
            ),
            // Unrecognized networks contain no bootstrap peers.
            None => {
                let peers: Vec<String> = Vec::new();
                assert(texts(peers@) =~= Seq::<Seq<char>>::empty());
                peers
            },
        }
    }
}

#[verifier::external_type_specification]
#[verifier::external_body]
pub struct ExSmolStr(smol_str::SmolStr);

/// The text that a small string holds.
pub uninterp spec fn smol_text(text: SmolStr) -> Seq<char>;

/// `SmolStr::from`: the small string that holds a text.
#[verifier::external_body]
fn smol_from(text: &str) -> (small: SmolStr)
    ensures
        smol_text(small) == text@,
{
    SmolStr::from(text)
}

/// The length of a commit SHA in hexadecimal notation.
pub const SHA_LEN: usize = 40;

/// The number of characters of a shortened commit SHA.
pub const SHORT_SHA_LEN: usize = 7;

/// Get our SHA from the build information (or None if it is not set or does not 40 bytes long).
pub fn get_repo_commit_hash(built: Option<&str>) -> (sha: Option<[u8; 40]>)
    ensures
        match sha {
            Some(sha) => built is Some && encode_utf8(built->0@) == sha@,
            None => built is Some ==> encode_utf8(built->0@).len() != SHA_LEN,
        },
{
    match built {
        Some(text) => {
            let bytes = text.as_bytes();
            if bytes.len() != SHA_LEN {
                return None;
            }
            let mut sha: [u8; 40] = [0; 40];
            for i in 0..40usize
                invariant
                    bytes@.len() == SHA_LEN,
                    forall|j: int| 0 <= j < i ==> #[trigger] sha@[j] == bytes@[j],
            {
                sha[i] = bytes[i];
            }
            assert(sha@ =~= bytes@);
            Some(sha)
        },
        None => None,
    }
}

/// The text of a commit SHA, if it is one.
pub open spec fn sha_text(sha: Option<[u8; 40]>) -> Option<Seq<char>> {
    match sha {
        Some(sha) => if valid_utf8(sha@) {
            Some(decode_utf8(sha@))
        } else {
            None
        },
        None => None,
    }
}

/// How a peer's commit SHA compares to ours.
pub open spec fn sha_comparison(our_sha: Option<[u8; 40]>, peer_sha: Option<[u8; 40]>) -> Seq<char> {
    match sha_text(peer_sha) {
        None => " with an unknown repo SHA"@,
        Some(text) => "@"@ + text + (match our_sha {
            None => " (potentially different than us)"@,
            Some(ours) => if ours@ == peer_sha->0@ {
                " (same as us)"@
            } else {
                " (different than us)"@
            },
        }),
    }
}

/// Returns whether two commit SHAs are the same.
fn same_sha(left: &[u8; 40], right: &[u8; 40]) -> (result: bool)
    ensures
        result == (left@ == right@),
{
    for i in 0..40usize
        invariant
            forall|j: int| 0 <= j < i ==> #[trigger] left@[j] == right@[j],
    {
        if left[i] != right[i] {
            assert(left@[i as int] != right@[i as int]);
            return false;
        }
    }
    assert(left@ =~= right@);
    true
}

/// Returns the line that is logged of the peer's snarkOS repo SHA and how it compares to ours.
pub fn log_repo_sha_comparison(
    peer_addr: &str,
    our_sha: &Option<[u8; 40]>,
    peer_sha: &Option<[u8; 40]>,
    ctx: &str,
) -> (line: String)
    ensures
        line@ == ctx@ + " Peer '"@ + peer_addr@ + "' uses snarkOS"@ + sha_comparison(
            *our_sha,
            *peer_sha,
        ),
{
    let mut line = ctx.to_owned();
    line.append(" Peer '");
    line.append(peer_addr);
    line.append("' uses snarkOS");
    let mut comparison = String::new();
    let mut known: bool = false;
    if let Some(theirs) = peer_sha {
        if let Some(text) = utf8_text(theirs.as_slice()) {
            known = true;
            comparison = "@".to_owned();
            comparison.append(text);
            match our_sha {
                None => {
                    comparison.append(" (potentially different than us)");
                },
                Some(ours) => {
                    if same_sha(ours, theirs) {
                        comparison.append(" (same as us)");
                    } else {
                        comparison.append(" (different than us)");
                    }
                },
            }
        }
    }
    if !known {
        // They sent no hash, or an invalid string.
        comparison = " with an unknown repo SHA".to_owned();
    }
    line.append(comparison.as_str());
    line
}

/// The short form of a commit SHA: its first characters, or that it is not known.
pub open spec fn short_sha(sha: Option<[u8; 40]>) -> Seq<char> {
    match sha_text(sha) {
        Some(text) => if text.len() > SHORT_SHA_LEN {
            text.take(SHORT_SHA_LEN as int)
        } else {
            text
        },
        None => "unknown snarkOS SHA"@,
    }
}

/// Shortens the commit SHA.
pub fn shorten_snarkos_sha(sha: &Option<[u8; 40]>) -> (short: SmolStr)
    ensures
        smol_text(short) == short_sha(*sha),
        smol_text(short) == (match sha_text(*sha) {
            Some(text) => if text.len() > SHORT_SHA_LEN {
                text.take(SHORT_SHA_LEN as int)
            } else {
                text
            },
            None => "unknown snarkOS SHA"@,
        }),
{
    if let Some(sha) = sha {
        if let Some(text) = utf8_text(sha.as_slice()) {
            let len: usize = text.unicode_len();
            if len > SHORT_SHA_LEN {
                let short = text.substring_char(0, SHORT_SHA_LEN);
                assert(short@ =~= text@.take(SHORT_SHA_LEN as int));
                return smol_from(short);
            }
            return smol_from(text);
        }
    }
    smol_from("unknown snarkOS SHA")
}

/// Each network has its own name and its own ID, and there are no others.
pub proof fn each_network_has_its_own_name(network: NetworkName, other: NetworkName, id: u16)
    ensures
        network.short_name() == "mainnet"@ <==> network is Mainnet,
        network.short_name() == "testnet"@ <==> network is Testnet,
        network.short_name() == "canary"@ <==> network is Canary,
        network.short_name() == other.short_name() <==> network == other,
        network.short_name()[0] == other.short_name()[0] <==> network == other,
        network.id() == 0 <==> network is Mainnet,
        network.id() == 1 <==> network is Testnet,
        network.id() == 2 <==> network is Canary,
        NetworkName::with_id(id) is None <==> id > 2,
{
    reveal_strlit("mainnet");
    reveal_strlit("testnet");
    reveal_strlit("canary");
    assert("mainnet"@[0] == 'm');
    assert("testnet"@[0] == 't');
    assert("canary"@[0] == 'c');
}

/// What every network settles alike for its nodes.
pub proof fn the_networks_settle_the_same_limits(parameters: NetworkParameters, network: NetworkName)
    requires
        parameters.describe(network),
    ensures
        parameters.id == network.id(),
        parameters.short_name@ == network.short_name(),
        parameters.max_solutions == 4,
        parameters.max_inputs == 16,
        parameters.num_blocks_per_epoch == 360,
        parameters.max_transaction_size == 2_304_000,
        parameters.max_deploy_verifications == 5,
        parameters.max_execute_verifications == 1000,
{
}

/// The bootstrap peers of each network are its own: four of them, in order, and none for a network
/// that does not exist.
pub proof fn each_network_has_its_own_bootstrap_peers(network: u16, configured: Option<Seq<char>>)
    ensures
        ({
            let peers = peers_of(network, false, configured);
            &&& network == 0 ==> peers.len() == 4 && peers[0] == "35.231.67.219:4130"@ && peers[1]
                == "34.73.195.196:4130"@ && peers[2] == "34.23.225.202:4130"@ && peers[3]
                == "34.148.16.111:4130"@
            &&& network == 1 ==> peers.len() == 4 && peers[0] == "34.138.104.159:4130"@ && peers[1]
                == "35.231.46.237:4130"@ && peers[2] == "34.148.251.155:4130"@ && peers[3]
                == "35.190.141.234:4130"@
            &&& network == 2 ==> peers.len() == 4 && peers[0] == "34.139.88.58:4130"@ && peers[1]
                == "34.139.252.207:4130"@ && peers[2] == "35.185.98.12:4130"@ && peers[3]
                == "35.231.106.26:4130"@
            &&& network > 2 ==> peers.len() == 0
        }),
{
}

/// What is configured counts in development only, and there the network does not: the peers are what
/// stands between the commas, and there are none if nothing is configured.
pub proof fn configured_peers_count_in_development_only(
    network: u16,
    other: u16,
    peers: Seq<char>,
    more: Seq<char>,
)
    ensures
        peers_of(network, false, Some(peers)) == peers_of(network, false, None),
        peers_of(network, true, Some(peers)) == peers_of(other, true, Some(peers)),
        peers_of(network, true, None).len() == 0,
        !peers.contains(',') ==> peers_of(network, true, Some(peers)) == seq![peers],
        peers_of(network, true, Some(peers.push(',') + more)) == peers_of(
            network,
            true,
            Some(peers),
        ) + peers_of(network, true, Some(more)),
{
    if !peers.contains(',') {
        a_text_without_the_separator_is_not_split(peers, ',');
    }
    a_text_is_split_at_every_separator(peers, more, ',');
}

/// A commit SHA is shown exactly if it is UTF-8, as the text whose bytes it is.
pub proof fn a_sha_is_shown_as_the_text_of_its_bytes(sha: [u8; 40], text: Seq<char>)
    ensures
        sha_text(None) is None,
        sha_text(Some(sha)) is Some <==> valid_utf8(sha@),
        sha_text(Some(sha)) == Some(text) ==> encode_utf8(text) == sha@,
{
    if valid_utf8(sha@) {
        decode_utf8_encode_utf8(sha@);
    }
}

/// How a peer's commit SHA compares to ours is told by the end of the comparison: it is the same only
/// if we have one with the same bytes. What the peer's is stands before that.
pub proof fn a_comparison_tells_whether_the_shas_are_the_same(
    our_sha: Option<[u8; 40]>,
    peer_sha: Option<[u8; 40]>,
)
    ensures
        sha_text(peer_sha) is None ==> sha_comparison(our_sha, peer_sha)
            == " with an unknown repo SHA"@,
        sha_text(peer_sha) matches Some(text) ==> {
            let comparison = sha_comparison(our_sha, peer_sha);
            let front = "@"@ + text;
            let end = comparison.skip(front.len() as int);
            &&& front.is_prefix_of(comparison)
            &&& end == " (same as us)"@ <==> our_sha is Some && our_sha->0@ == peer_sha->0@
            &&& end == " (different than us)"@ <==> our_sha is Some && our_sha->0@ != peer_sha->0@
            &&& end == " (potentially different than us)"@ <==> our_sha is None
        },
{
    if let Some(text) = sha_text(peer_sha) {
        let comparison = sha_comparison(our_sha, peer_sha);
        let front = "@"@ + text;
        let end = match our_sha {
            None => " (potentially different than us)"@,
            Some(ours) => if ours@ == peer_sha->0@ {
                " (same as us)"@
            } else {
                " (different than us)"@
            },
        };
        reveal_strlit(" (potentially different than us)");
        reveal_strlit(" (same as us)");
        reveal_strlit(" (different than us)");
        assert(comparison == front + end);
        assert(comparison.subrange(0, front.len() as int) =~= front);
        assert(comparison.skip(front.len() as int) =~= end);
        assert(" (potentially different than us)"@[2] == 'p');
        assert(" (same as us)"@[2] == 's');
        assert(" (different than us)"@[2] == 'd');
    }
}

/// The short form of a commit SHA that is known is a beginning of it, of seven characters as far as it
/// has them; two that agree so far have one short form.
pub proof fn a_short_sha_is_the_beginning_of_the_sha(
    sha: Option<[u8; 40]>,
    other: Option<[u8; 40]>,
)
    ensures
        sha_text(sha) matches Some(text) ==> {
            &&& short_sha(sha).is_prefix_of(text)
            &&& text.len() >= 7 ==> short_sha(sha).len() == 7
            &&& text.len() < 7 ==> short_sha(sha) == text
        },
        sha_text(sha) is None ==> short_sha(sha) == "unknown snarkOS SHA"@,
        sha_text(sha) is Some && sha_text(other) is Some && sha_text(sha)->0.len() >= 7 && sha_text(
            other,
        )->0.len() >= 7 ==> (short_sha(sha) == short_sha(other) <==> sha_text(sha)->0.take(7)
            == sha_text(other)->0.take(7)),
        SHA_LEN == 40,
{
    if let Some(text) = sha_text(sha) {
        if text.len() > 7 {
            assert(text.subrange(0, 7) =~= short_sha(sha));
        } else {
            assert(text.subrange(0, text.len() as int) =~= text);
        }
    }
    if sha_text(sha) is Some && sha_text(sha)->0.len() >= 7 {
        assert(short_sha(sha) =~= sha_text(sha)->0.take(7));
    }
    if sha_text(other) is Some && sha_text(other)->0.len() >= 7 {
        assert(short_sha(other) =~= sha_text(other)->0.take(7));
    }
}

} // verus!
