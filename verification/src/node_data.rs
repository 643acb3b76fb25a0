//! Where a node keeps its data.
use crate::file_path::{
    a_file_lies_in_its_directory, components, different_files_have_different_paths, is_plain,
    is_plain_char, is_plain_text, joined_path, lemma_encoding_injective, lemma_plain_path,
    lemma_plain_text, Components, FilePath,
};
use crate::text::{
    decimal, decimal_text, is_digit, lemma_decimal_digits, lemma_decimal_injective, lemma_prefix_cancels,
};
use vstd::prelude::*;
use vstd::std_specs::cmp::PartialEqSpecImpl;
use vstd::utf8::encode_utf8;

verus! {

/// The filename of the gateway peer cache.
pub const GATEWAY_PEER_CACHE_FILE: &'static str = "gateway-peer-cache";

/// The old filename of the gateway peer cache.
pub const LEGACY_GATEWAY_PEER_CACHE_FILE: &'static str = "cached_gateway_peers";

/// The filename of the router peer cache.
pub const ROUTER_PEER_CACHE_FILE: &'static str = "router-peer-cache";

/// The old filename of the router peer cache.
pub const LEGACY_ROUTER_PEER_CACHE_FILE: &'static str = "cached_router_peers";

/// The filename of the proposal cache.
pub const CURRENT_PROPOSAL_CACHE_FILE: &'static str = "current-proposal-cache";

/// The filename used to persist the hotswapped dev committee's starting round.
pub const DEV_COMMITTEE_STATE_FILE: &'static str = "dev-committee-state";

/// The filename of the JWT secret of an address.
pub open spec fn jwt_secret_name(address: Seq<char>) -> Seq<char> {
    "jwt_secret_"@ + address + ".txt"@
}

/// The old filename of the current proposal cache.
pub open spec fn legacy_proposal_name(network: u16, dev: Option<u16>) -> Seq<char> {
    match dev {
        Some(dev) => ".current-proposal-cache-"@ + decimal(network as nat) + "-"@ + decimal(
            dev as nat,
        ),
        None => "current-proposal-cache-"@ + decimal(network as nat),
    }
}

/// The name of the data directory of a node under test.
pub open spec fn test_directory(dev: Option<u16>) -> Seq<char> {
    match dev {
        Some(dev) => ".node-data-test-"@ + decimal(dev as nat),
        None => ".node-data-test"@,
    }
}

/// The name of the data directory of a development node.
pub open spec fn development_directory(network: u16, dev: u16) -> Seq<char> {
    ".node-data-"@ + decimal(network as nat) + "-"@ + decimal(dev as nat)
}

/// The filename of the JWT secret for a given address.
pub fn jwt_secret_file(address: &str) -> (file: FilePath)
    ensures
        file@ == encode_utf8(jwt_secret_name(address@)),
{
    let mut file = "jwt_secret_".to_owned();
    file.append(address);
    file.append(".txt");
    FilePath::from_text(file.as_str())
}

/// The old filename of the current proposal cache.
pub fn legacy_current_proposal_cache_file(network: u16, dev: Option<u16>) -> (file: FilePath)
    ensures
        file@ == encode_utf8(legacy_proposal_name(network, dev)),
{
    match dev {
        Some(dev) => {
            let mut file = ".current-proposal-cache-".to_owned();
            file.append(decimal_text(network as u64).as_str());
            file.append("-");
            file.append(decimal_text(dev as u64).as_str());
            FilePath::from_text(file.as_str())
        },
        None => {
            let mut file = "current-proposal-cache-".to_owned();
            file.append(decimal_text(network as u64).as_str());
            FilePath::from_text(file.as_str())
        },
    }
}

/// Tracks information about where the node-specfic configuration files are stored.
#[derive(Clone, Debug)]
pub struct NodeDataDir {
    path: FilePath,
}

impl View for NodeDataDir {
    type V = Seq<u8>;

    closed spec fn view(&self) -> Seq<u8> {
        self.path@
    }
}

impl PartialEq for NodeDataDir {
    /// Data directories are equal if their paths are.
    fn eq(&self, other: &Self) -> (same: bool) {
        self.path.same(&other.path)
    }
}

impl PartialEqSpecImpl for NodeDataDir {
    open spec fn obeys_eq_spec() -> bool {
        true
    }

    open spec fn eq_spec(&self, other: &Self) -> bool {
        components(self@) == components(other@)
    }
}

impl Eq for NodeDataDir {

}

impl NodeDataDir {
    /// Initializes the node data directory the given path.
    pub fn new(path: FilePath) -> (dir: Self)
        ensures
            dir@ == path@,
    {
        NodeDataDir { path }
    }

    /// Initializes the node data directory to a location suitable for unit/integration tests.
    pub fn new_test(dev: Option<u16>) -> (dir: Self)
        ensures
            dir@ == encode_utf8(test_directory(dev)),
    {
        match dev {
            Some(dev) => {
                let mut path = ".node-data-test-".to_owned();
                path.append(decimal_text(dev as u64).as_str());
                NodeDataDir { path: FilePath::from_text(path.as_str()) }
            },
            None => NodeDataDir { path: FilePath::from_text(".node-data-test") },
        }
    }

    /// Initializes the node data directory path to the development path for the specified network
    /// and node index, in the given base directory.
    pub fn new_development(base: &FilePath, network: u16, dev: u16) -> (dir: Self)
        ensures
            dir@ == joined_path(base@, encode_utf8(development_directory(network, dev))),
    {
        let mut name = ".node-data-".to_owned();
        name.append(decimal_text(network as u64).as_str());
        name.append("-");
        name.append(decimal_text(dev as u64).as_str());
        NodeDataDir { path: base.join(&FilePath::from_text(name.as_str())) }
    }

    /// Returns the path of the directory.
    pub fn path(&self) -> (path: &FilePath)
        ensures
            path@ == self@,
    {
        &self.path
    }

    /// The location to store the previous peer cache.
    pub fn router_peer_cache_path(&self) -> (path: FilePath)
        ensures
            path@ == joined_path(self@, encode_utf8(ROUTER_PEER_CACHE_FILE@)),
    {
        self.path.join(&FilePath::from_text(ROUTER_PEER_CACHE_FILE))
    }

    /// The location to store the gateway's peer cache.
    pub fn gateway_peer_cache_path(&self) -> (path: FilePath)
        ensures
            path@ == joined_path(self@, encode_utf8(GATEWAY_PEER_CACHE_FILE@)),
    {
        self.path.join(&FilePath::from_text(GATEWAY_PEER_CACHE_FILE))
    }

    /// The location to store the current proposal cache.
    pub fn current_proposal_cache_path(&self) -> (path: FilePath)
        ensures
            path@ == joined_path(self@, encode_utf8(CURRENT_PROPOSAL_CACHE_FILE@)),
    {
        self.path.join(&FilePath::from_text(CURRENT_PROPOSAL_CACHE_FILE))
    }

    /// The location used to persist the hotswapped dev committee's starting round.
    pub fn dev_committee_state_path(&self) -> (path: FilePath)
        ensures
            path@ == joined_path(self@, encode_utf8(DEV_COMMITTEE_STATE_FILE@)),
    {
        self.path.join(&FilePath::from_text(DEV_COMMITTEE_STATE_FILE))
    }

    /// The location to store the JWT secret for a given address.
    pub fn jwt_secret_path(&self, address: &str) -> (path: FilePath)
        ensures
            path@ == joined_path(self@, encode_utf8(jwt_secret_name(address@))),
    {
        self.path.join(&jwt_secret_file(address))
    }
}

/// Whether a file is one that every node keeps in its data directory.
pub open spec fn is_data_file(file: Seq<char>) -> bool {
    ||| file == ROUTER_PEER_CACHE_FILE@
    ||| file == GATEWAY_PEER_CACHE_FILE@
    ||| file == CURRENT_PROPOSAL_CACHE_FILE@
    ||| file == DEV_COMMITTEE_STATE_FILE@
}

/// The files of a data directory have plain names.
proof fn lemma_data_file(file: Seq<char>)
    requires
        is_data_file(file),
    ensures
        is_plain(encode_utf8(file)),
{
    reveal_strlit("gateway-peer-cache");
    reveal_strlit("router-peer-cache");
    reveal_strlit("current-proposal-cache");
    reveal_strlit("dev-committee-state");
    lemma_plain_text(file);
}

/// A file of a data directory lies in that directory: the components of its path are those of the
/// directory, and the filename behind them.
pub proof fn every_path_is_rooted_at_the_directory(directory: Seq<u8>, file: Seq<char>)
    requires
        is_data_file(file),
    ensures
        components(joined_path(directory, encode_utf8(file))) == (Components {
            rooted: components(directory).rooted,
            current: components(directory).current,
            names: components(directory).names.push(encode_utf8(file)),
        }),
{
    lemma_data_file(file);
    a_file_lies_in_its_directory(directory, encode_utf8(file));
}

/// Different files of a data directory are at different paths.
pub proof fn data_files_are_at_different_paths(
    directory: Seq<u8>,
    left: Seq<char>,
    right: Seq<char>,
)
    requires
        is_data_file(left),
        is_data_file(right),
        left != right,
    ensures
        components(joined_path(directory, encode_utf8(left))) != components(
            joined_path(directory, encode_utf8(right)),
        ),
{
    lemma_data_file(left);
    lemma_data_file(right);
    if encode_utf8(left) == encode_utf8(right) {
        lemma_encoding_injective(left, right);
    }
    different_files_have_different_paths(directory, encode_utf8(left), encode_utf8(right));
}

/// The files that a node keeps in its data directory have different names, and none has an old name.
pub proof fn filenames_are_distinct()
    ensures
        ROUTER_PEER_CACHE_FILE@ != GATEWAY_PEER_CACHE_FILE@,
        ROUTER_PEER_CACHE_FILE@ != CURRENT_PROPOSAL_CACHE_FILE@,
        GATEWAY_PEER_CACHE_FILE@ != CURRENT_PROPOSAL_CACHE_FILE@,
        ROUTER_PEER_CACHE_FILE@ != LEGACY_ROUTER_PEER_CACHE_FILE@,
        GATEWAY_PEER_CACHE_FILE@ != LEGACY_GATEWAY_PEER_CACHE_FILE@,
{
    reveal_strlit("gateway-peer-cache");
    reveal_strlit("cached_gateway_peers");
    reveal_strlit("router-peer-cache");
    reveal_strlit("cached_router_peers");
    reveal_strlit("current-proposal-cache");
    assert(GATEWAY_PEER_CACHE_FILE@[0] == 'g');
    assert(ROUTER_PEER_CACHE_FILE@[0] == 'r');
    assert(CURRENT_PROPOSAL_CACHE_FILE@[0] == 'c');
    assert(LEGACY_GATEWAY_PEER_CACHE_FILE@[0] == 'c');
    assert(LEGACY_ROUTER_PEER_CACHE_FILE@[0] == 'c');
}

/// Different addresses have JWT secrets at different paths, as long as no address has a slash in it.
pub proof fn jwt_secrets_are_scoped_to_the_address(
    directory: Seq<u8>,
    left: Seq<char>,
    right: Seq<char>,
)
    requires
        left != right,
        is_plain(encode_utf8(jwt_secret_name(left))),
        is_plain(encode_utf8(jwt_secret_name(right))),
    ensures
        components(encode_utf8(jwt_secret_name(left))) != components(
            encode_utf8(jwt_secret_name(right)),
        ),
        components(joined_path(directory, encode_utf8(jwt_secret_name(left)))) != components(
            joined_path(directory, encode_utf8(jwt_secret_name(right))),
        ),
{
    if jwt_secret_name(left) == jwt_secret_name(right) {
        let prefix = "jwt_secret_"@;
        let suffix = ".txt"@;
        assert(prefix + left + suffix =~= prefix + (left + suffix));
        assert(prefix + right + suffix =~= prefix + (right + suffix));
        lemma_prefix_cancels(prefix, left + suffix, right + suffix);
        assert((left + suffix).len() == (right + suffix).len());
        assert((left + suffix).take(left.len() as int) =~= left);
        assert((right + suffix).take(right.len() as int) =~= right);
    }
    if encode_utf8(jwt_secret_name(left)) == encode_utf8(jwt_secret_name(right)) {
        lemma_encoding_injective(jwt_secret_name(left), jwt_secret_name(right));
    }
    lemma_different_names(
        encode_utf8(jwt_secret_name(left)),
        encode_utf8(jwt_secret_name(right)),
    );
    different_files_have_different_paths(
        directory,
        encode_utf8(jwt_secret_name(left)),
        encode_utf8(jwt_secret_name(right)),
    );
}

/// Different names are different paths.
proof fn lemma_different_names(left: Seq<u8>, right: Seq<u8>)
    requires
        is_plain(left),
        is_plain(right),
        left != right,
    ensures
        components(left) != components(right),
{
    lemma_plain_path(left);
    lemma_plain_path(right);
    assert(seq![left][0] == left);
    assert(seq![right][0] == right);
}

/// Texts of which none is a slash stay so when they are put together.
proof fn lemma_plain_concat(left: Seq<char>, right: Seq<char>)
    requires
        is_plain_text(left),
        is_plain_text(right),
    ensures
        is_plain_text(left + right),
{
    assert forall|i: int| 0 <= i < (left + right).len() implies is_plain_char(
        #[trigger] (left + right)[i],
    ) by {
        if i < left.len() {
            assert(is_plain_char(left[i]));
        } else {
            assert(is_plain_char(right[i - left.len()]));
        }
    }
}

/// A numeral has no slash in it.
proof fn lemma_plain_decimal(number: nat)
    ensures
        is_plain_text(decimal(number)),
        decimal(number).len() > 0,
{
    lemma_decimal_digits(number);
    assert forall|i: int| 0 <= i < decimal(number).len() implies is_plain_char(
        #[trigger] decimal(number)[i],
    ) by {
        assert(is_digit(decimal(number)[i]));
    }
}

/// Two numerals with a hyphen between them have no slash in them.
proof fn lemma_plain_pair(prefix: Seq<char>, left: nat, right: nat)
    requires
        is_plain_text(prefix),
        prefix.len() > 1,
    ensures
        is_plain(encode_utf8(prefix + decimal(left) + "-"@ + decimal(right))),
{
    reveal_strlit("-");
    lemma_plain_decimal(left);
    lemma_plain_decimal(right);
    lemma_plain_concat(prefix, decimal(left));
    lemma_plain_concat(prefix + decimal(left), "-"@);
    lemma_plain_concat(prefix + decimal(left) + "-"@, decimal(right));
    lemma_plain_text(prefix + decimal(left) + "-"@ + decimal(right));
}

/// A numeral behind a name has no slash in it.
proof fn lemma_plain_numbered(prefix: Seq<char>, number: nat)
    requires
        is_plain_text(prefix),
        prefix.len() > 1,
    ensures
        is_plain(encode_utf8(prefix + decimal(number))),
{
    lemma_plain_decimal(number);
    lemma_plain_concat(prefix, decimal(number));
    lemma_plain_text(prefix + decimal(number));
}

/// The old filename of a proposal cache is a plain name.
proof fn lemma_plain_legacy(network: u16, dev: Option<u16>)
    ensures
        is_plain(encode_utf8(legacy_proposal_name(network, dev))),
{
    reveal_strlit(".current-proposal-cache-");
    reveal_strlit("current-proposal-cache-");
    match dev {
        Some(dev) => lemma_plain_pair(".current-proposal-cache-"@, network as nat, dev as nat),
        None => lemma_plain_numbered("current-proposal-cache-"@, network as nat),
    }
}

/// The name of the data directory of a node under test is plain.
proof fn lemma_plain_test(dev: Option<u16>)
    ensures
        is_plain(encode_utf8(test_directory(dev))),
{
    reveal_strlit(".node-data-test-");
    reveal_strlit(".node-data-test");
    match dev {
        Some(dev) => lemma_plain_numbered(".node-data-test-"@, dev as nat),
        None => lemma_plain_text(".node-data-test"@),
    }
}

/// The name of the data directory of a development node is plain.
proof fn lemma_plain_development(network: u16, dev: u16)
    ensures
        is_plain(encode_utf8(development_directory(network, dev))),
{
    reveal_strlit(".node-data-");
    lemma_plain_pair(".node-data-"@, network as nat, dev as nat);
}

/// Two numerals with a hyphen between them are those of one pair of numbers.
proof fn lemma_hyphenated(a: nat, b: nat, c: nat, d: nat)
    requires
        decimal(a) + "-"@ + decimal(b) == decimal(c) + "-"@ + decimal(d),
    ensures
        a == c,
        b == d,
{
    reveal_strlit("-");
    let left = decimal(a) + "-"@ + decimal(b);
    let right = decimal(c) + "-"@ + decimal(d);
    let m = decimal(a).len() as int;
    let n = decimal(c).len() as int;
    lemma_decimal_digits(a);
    lemma_decimal_digits(c);
    assert(left[m] == '-');
    assert(right[n] == '-');
    if m < n {
        assert(right[m] == decimal(c)[m]);
        assert(is_digit(decimal(c)[m]));
    } else if n < m {
        assert(left[n] == decimal(a)[n]);
        assert(is_digit(decimal(a)[n]));
    }
    assert(left.take(m) =~= decimal(a));
    assert(right.take(m) =~= decimal(c));
    assert(left.skip(m + 1) =~= decimal(b));
    assert(right.skip(m + 1) =~= decimal(d));
    lemma_decimal_injective(a, c);
    lemma_decimal_injective(b, d);
}

/// Different networks and different development nodes have had their proposal caches under different
/// names.
proof fn lemma_legacy_names(
    network: u16,
    dev: Option<u16>,
    other_network: u16,
    other_dev: Option<u16>,
)
    requires
        legacy_proposal_name(network, dev) == legacy_proposal_name(other_network, other_dev),
    ensures
        network == other_network,
        dev == other_dev,
{
    reveal_strlit(".current-proposal-cache-");
    reveal_strlit("current-proposal-cache-");
    let hidden = ".current-proposal-cache-"@;
    let open = "current-proposal-cache-"@;
    assert(legacy_proposal_name(network, dev)[0] == if dev is Some {
        '.'
    } else {
        'c'
    });
    assert(legacy_proposal_name(other_network, other_dev)[0] == if other_dev is Some {
        '.'
    } else {
        'c'
    });
    let a = decimal(network as nat);
    let c = decimal(other_network as nat);
    match (dev, other_dev) {
        (Some(dev), Some(other_dev)) => {
            let b = decimal(dev as nat);
            let d = decimal(other_dev as nat);
            assert(hidden + a + "-"@ + b =~= hidden + (a + "-"@ + b));
            assert(hidden + c + "-"@ + d =~= hidden + (c + "-"@ + d));
            lemma_prefix_cancels(hidden, a + "-"@ + b, c + "-"@ + d);
            lemma_hyphenated(network as nat, dev as nat, other_network as nat, other_dev as nat);
        },
        (None, None) => {
            lemma_prefix_cancels(open, a, c);
            lemma_decimal_injective(network as nat, other_network as nat);
        },
        _ => {},
    }
}

/// Different networks and different development nodes have had their proposal caches in different
/// files.
pub proof fn legacy_proposal_caches_do_not_collide(
    network: u16,
    dev: Option<u16>,
    other_network: u16,
    other_dev: Option<u16>,
)
    requires
        components(encode_utf8(legacy_proposal_name(network, dev))) == components(
            encode_utf8(legacy_proposal_name(other_network, other_dev)),
        ),
    ensures
        network == other_network,
        dev == other_dev,
{
    let left = legacy_proposal_name(network, dev);
    let right = legacy_proposal_name(other_network, other_dev);
    lemma_plain_legacy(network, dev);
    lemma_plain_legacy(other_network, other_dev);
    if encode_utf8(left) != encode_utf8(right) {
        lemma_different_names(encode_utf8(left), encode_utf8(right));
    }
    lemma_encoding_injective(left, right);
    lemma_legacy_names(network, dev, other_network, other_dev);
}

/// Two nodes under test do not share a data directory.
pub proof fn test_directories_are_separate(left: Option<u16>, right: Option<u16>)
    requires
        components(encode_utf8(test_directory(left))) == components(
            encode_utf8(test_directory(right)),
        ),
    ensures
        left == right,
{
    lemma_plain_test(left);
    lemma_plain_test(right);
    if encode_utf8(test_directory(left)) != encode_utf8(test_directory(right)) {
        lemma_different_names(
            encode_utf8(test_directory(left)),
            encode_utf8(test_directory(right)),
        );
    }
    lemma_encoding_injective(test_directory(left), test_directory(right));
    reveal_strlit(".node-data-test-");
    reveal_strlit(".node-data-test");
    match (left, right) {
        (Some(left), Some(right)) => {
            lemma_prefix_cancels(
                ".node-data-test-"@,
                decimal(left as nat),
                decimal(right as nat),
            );
            lemma_decimal_injective(left as nat, right as nat);
        },
        (Some(left), None) => {
            assert(test_directory(Some(left)).len() > 15);
        },
        (None, Some(right)) => {
            assert(test_directory(Some(right)).len() > 15);
        },
        (None, None) => {},
    }
}

/// Two development nodes with the same base directory do not share a data directory.
pub proof fn development_directories_are_separate(
    base: Seq<u8>,
    network: u16,
    dev: u16,
    other_network: u16,
    other_dev: u16,
)
    requires
        components(joined_path(base, encode_utf8(development_directory(network, dev))))
            == components(
            joined_path(base, encode_utf8(development_directory(other_network, other_dev))),
        ),
    ensures
        network == other_network,
        dev == other_dev,
{
    let prefix = ".node-data-"@;
    let left = decimal(network as nat) + "-"@ + decimal(dev as nat);
    let right = decimal(other_network as nat) + "-"@ + decimal(other_dev as nat);
    let name = development_directory(network, dev);
    let other_name = development_directory(other_network, other_dev);
    lemma_plain_development(network, dev);
    lemma_plain_development(other_network, other_dev);
    if encode_utf8(name) != encode_utf8(other_name) {
        different_files_have_different_paths(base, encode_utf8(name), encode_utf8(other_name));
    }
    lemma_encoding_injective(name, other_name);
    assert(name =~= prefix + left);
    assert(other_name =~= prefix + right);
    lemma_prefix_cancels(prefix, left, right);
    lemma_hyphenated(network as nat, dev as nat, other_network as nat, other_dev as nat);
}

/// The names of the files that a node keeps, and has kept, in its data directory.
pub proof fn the_names_of_the_files()
    ensures
        GATEWAY_PEER_CACHE_FILE@ == "gateway-peer-cache"@,
        LEGACY_GATEWAY_PEER_CACHE_FILE@ == "cached_gateway_peers"@,
        ROUTER_PEER_CACHE_FILE@ == "router-peer-cache"@,
        LEGACY_ROUTER_PEER_CACHE_FILE@ == "cached_router_peers"@,
        CURRENT_PROPOSAL_CACHE_FILE@ == "current-proposal-cache"@,
        DEV_COMMITTEE_STATE_FILE@ == "dev-committee-state"@,
{
}

/// The name of a secret is made of the address alone, between a beginning and an end that all secrets
/// share.
pub proof fn the_name_of_a_secret_holds_the_address(address: Seq<char>)
    ensures
        ({
            let name = jwt_secret_name(address);
            &&& name.len() == "jwt_secret_"@.len() + address.len() + ".txt"@.len()
            &&& ("jwt_secret_"@ + address).is_prefix_of(name)
            &&& (address + ".txt"@).is_suffix_of(name)
        }),
{
    let name = jwt_secret_name(address);
    let front = "jwt_secret_"@ + address;
    let end = address + ".txt"@;
    assert(name.subrange(0, front.len() as int) =~= front);
    assert(name.subrange(name.len() - end.len(), name.len() as int) =~= end);
}

/// The names of directories and of the old proposal caches start with what they are of, and end with
/// the number of the node or, for a cache without one, of the network.
pub proof fn names_hold_the_network_before_the_node(network: u16, dev: u16)
    ensures
        (".node-data-"@ + decimal(network as nat) + "-"@).is_prefix_of(
            development_directory(network, dev),
        ),
        ("-"@ + decimal(dev as nat)).is_suffix_of(development_directory(network, dev)),
        development_directory(network, dev).len() == ".node-data-"@.len() + decimal(
            network as nat,
        ).len() + "-"@.len() + decimal(dev as nat).len(),
        (".current-proposal-cache-"@ + decimal(network as nat) + "-"@).is_prefix_of(
            legacy_proposal_name(network, Some(dev)),
        ),
        ("-"@ + decimal(dev as nat)).is_suffix_of(legacy_proposal_name(network, Some(dev))),
        legacy_proposal_name(network, Some(dev)).len() == ".current-proposal-cache-"@.len()
            + decimal(network as nat).len() + "-"@.len() + decimal(dev as nat).len(),
        "current-proposal-cache-"@.is_prefix_of(legacy_proposal_name(network, None)),
        legacy_proposal_name(network, None).skip("current-proposal-cache-"@.len() as int)
            == decimal(network as nat),
        test_directory(None) == ".node-data-test"@,
        (".node-data-test"@ + "-"@).is_prefix_of(test_directory(Some(dev))),
        test_directory(Some(dev)).skip((".node-data-test"@ + "-"@).len() as int) == decimal(
            dev as nat,
        ),
{
    reveal_strlit("-");
    reveal_strlit(".node-data-test");
    reveal_strlit(".node-data-test-");
    let end = "-"@ + decimal(dev as nat);
    let directory = development_directory(network, dev);
    let cache = legacy_proposal_name(network, Some(dev));
    let open = legacy_proposal_name(network, None);
    let test = test_directory(Some(dev));
    let front = ".node-data-"@ + decimal(network as nat) + "-"@;
    let cache_front = ".current-proposal-cache-"@ + decimal(network as nat) + "-"@;
    let open_front = "current-proposal-cache-"@;
    let test_front = ".node-data-test"@ + "-"@;
    assert(directory.subrange(0, front.len() as int) =~= front);
    assert(directory.subrange(directory.len() - end.len(), directory.len() as int) =~= end);
    assert(cache.subrange(0, cache_front.len() as int) =~= cache_front);
    assert(cache.subrange(cache.len() - end.len(), cache.len() as int) =~= end);
    assert(open.subrange(0, open_front.len() as int) =~= open_front);
    assert(open.skip(open_front.len() as int) =~= decimal(network as nat));
    assert(test_front =~= ".node-data-test-"@);
    assert(test.subrange(0, test_front.len() as int) =~= test_front);
    assert(test.skip(test_front.len() as int) =~= decimal(dev as nat));
}

} // verus!
