//! History compatibility mode: the snapshots of an upstream, and the routes that are served from
//! them.
//!
//! The upstream records a full snapshot of each of five `credits.aleo` mappings at every block, and
//! of the staking rewards paid at it. Because a snapshot is complete, a key that is absent from it
//! was not in the mapping at that height. The whole snapshot is fetched to answer a single key, so
//! snapshots are cached, and every concurrent request for one snapshot shares one fetch.
use crate::rest::error::{error_with, RestError, RestErrorModel, NOT_FOUND, SERVICE_UNAVAILABLE};
use crate::text::{
    a_text_occurs_where_it_stands, decimal, decimal_text, equal, lemma_decimal_injective, occurs,
    trim_end, trimmed_end,
};
use vstd::prelude::*;
use vstd::string::StringSliceAdditionalSpecFns;

verus! {

/// The number of snapshots of each kind kept in memory. Clients tend to ask for several keys at
/// one height, and to walk consecutive heights.
pub const SNAPSHOT_CACHE_SIZE: usize = 256;

/// How long to wait for the upstream API, in seconds.
pub const UPSTREAM_TIMEOUT_SECS: u64 = 20;

/// The number of upstream requests in flight at once; further requests wait their turn.
pub const MAX_CONCURRENT_UPSTREAM_REQUESTS: usize = 8;

/// The largest snapshot accepted from the upstream.
pub const MAX_SNAPSHOT_BYTES: usize = 67_108_864;

/// The program whose mappings the upstream API records.
pub const SUPPORTED_PROGRAM: &'static str = "credits.aleo";

/// The name of the snapshots of staking rewards.
pub const STAKING_REWARDS: &'static str = "stakingrewards";

/// A `credits.aleo` mapping the upstream API records a snapshot of at every block.
#[derive(Clone, Copy, Debug, PartialEq, Eq, Hash, Structural)]
pub enum SnapshotMapping {
    Bonded,
    Delegated,
    Metadata,
    Unbonding,
    Withdraw,
}

impl SnapshotMapping {
    /// The mapping's name.
    pub open spec fn named(self) -> Seq<char> {
        match self {
            SnapshotMapping::Bonded => "bonded"@,
            SnapshotMapping::Delegated => "delegated"@,
            SnapshotMapping::Metadata => "metadata"@,
            SnapshotMapping::Unbonding => "unbonding"@,
            SnapshotMapping::Withdraw => "withdraw"@,
        }
    }

    /// Every mapping the upstream records, which is what the `/history/` routes can serve.
    pub fn all() -> (mappings: Vec<SnapshotMapping>)
        ensures
            mappings@ == seq![
                SnapshotMapping::Bonded,
                SnapshotMapping::Delegated,
                SnapshotMapping::Metadata,
                SnapshotMapping::Unbonding,
                SnapshotMapping::Withdraw,
            ],
    {
        let mut mappings: Vec<SnapshotMapping> = Vec::new();
        mappings.push(SnapshotMapping::Bonded);
        mappings.push(SnapshotMapping::Delegated);
        mappings.push(SnapshotMapping::Metadata);
        mappings.push(SnapshotMapping::Unbonding);
        mappings.push(SnapshotMapping::Withdraw);
        mappings
    }

    /// The mapping's name in `credits.aleo`, which is also its name in the upstream API's path.
    pub fn name(self) -> (name: &'static str)
        ensures
            name@ == self.named(),
    {
        match self {
            SnapshotMapping::Bonded => "bonded",
            SnapshotMapping::Delegated => "delegated",
            SnapshotMapping::Metadata => "metadata",
            SnapshotMapping::Unbonding => "unbonding",
            SnapshotMapping::Withdraw => "withdraw",
        }
    }

    /// Returns the snapshot for a `credits.aleo` mapping name, if the upstream records it.
    pub fn from_name(name: &str) -> (mapping: Option<SnapshotMapping>)
        ensures
            match mapping {
                Some(mapping) => mapping.named() == name@,
                None => forall|mapping: SnapshotMapping| #[trigger] mapping.named() != name@,
            },
    {
        if equal(name, "bonded") {
            Some(SnapshotMapping::Bonded)
        } else if equal(name, "delegated") {
            Some(SnapshotMapping::Delegated)
        } else if equal(name, "metadata") {
            Some(SnapshotMapping::Metadata)
        } else if equal(name, "unbonding") {
            Some(SnapshotMapping::Unbonding)
        } else if equal(name, "withdraw") {
            Some(SnapshotMapping::Withdraw)
        } else {
            None
        }
    }
}

/// Different mappings have different names, and none has the name of the staking rewards.
pub proof fn snapshot_names_are_distinct(left: SnapshotMapping, right: SnapshotMapping)
    ensures
        left.named() == right.named() ==> left == right,
        left.named() != STAKING_REWARDS@,
{
    reveal_strlit("bonded");
    reveal_strlit("delegated");
    reveal_strlit("metadata");
    reveal_strlit("unbonding");
    reveal_strlit("withdraw");
    reveal_strlit("stakingrewards");
    assert(left != right ==> left.named()[0] != right.named()[0]);
    assert(left.named()[0] != STAKING_REWARDS@[0]);
}

/// Why a snapshot could not be fetched.
#[derive(Debug)]
pub enum FetchError {
    /// The upstream has no snapshot for the requested height.
    NotFound(String),
    /// The upstream could not be reached, or answered with something other than a snapshot.
    Unavailable(String),
}

/// The content of a [`FetchError`].
pub enum FetchErrorModel {
    NotFound(Seq<char>),
    Unavailable(Seq<char>),
}

impl View for FetchError {
    type V = FetchErrorModel;

    open spec fn view(&self) -> FetchErrorModel {
        match self {
            FetchError::NotFound(message) => FetchErrorModel::NotFound(message@),
            FetchError::Unavailable(message) => FetchErrorModel::Unavailable(message@),
        }
    }
}

impl FetchErrorModel {
    /// The error that is answered for it.
    pub open spec fn answered(self) -> RestErrorModel {
        match self {
            FetchErrorModel::NotFound(message) => error_with(NOT_FOUND, message),
            FetchErrorModel::Unavailable(message) => error_with(
                SERVICE_UNAVAILABLE,
                "The historical data upstream is unavailable: "@ + message,
            ),
        }
    }
}

impl FetchError {
    /// Returns a copy of the error, so that one failed fetch can be reported to every request that
    /// was waiting on it.
    pub fn copy(&self) -> (copy: FetchError)
        ensures
            copy@ == self@,
    {
        match self {
            FetchError::NotFound(message) => FetchError::NotFound(message.clone()),
            FetchError::Unavailable(message) => FetchError::Unavailable(message.clone()),
        }
    }

    /// Returns the error that is answered to a request that waited for the fetch.
    pub fn into_rest_error(self) -> (error: RestError)
        ensures
            error@ == self@.answered(),
    {
        match self {
            FetchError::NotFound(message) => RestError::new(NOT_FOUND, message),
            FetchError::Unavailable(message) => {
                let mut text = "The historical data upstream is unavailable: ".to_owned();
                text.append(message.as_str());
                RestError::new(SERVICE_UNAVAILABLE, text)
            },
        }
    }
}

/// The client for the upstream API, as far as its URLs are concerned.
#[derive(Debug)]
pub struct HistoryCompat {
    /// The upstream base URL, without a trailing slash.
    base_url: String,
    /// The network path segment, e.g. `mainnet`.
    network: String,
}

/// The URL of a snapshot.
pub open spec fn url_of(
    base_url: Seq<char>,
    network: Seq<char>,
    height: u32,
    name: Seq<char>,
) -> Seq<char> {
    base_url + "/"@ + network + "/block/"@ + decimal(height as nat) + "/history/"@ + name
}

impl HistoryCompat {
    /// The upstream base URL.
    pub closed spec fn base(&self) -> Seq<char> {
        self.base_url@
    }

    /// The network path segment.
    pub closed spec fn segment(&self) -> Seq<char> {
        self.network@
    }

    /// Initializes a client for the upstream at `base_url`, serving the given network.
    pub fn new(base_url: &str, network: &str) -> (compat: Self)
        ensures
            compat.base() == trimmed_end(base_url@, '/'),
            compat.segment() == network@,
    {
        HistoryCompat { base_url: trim_end(base_url, '/'), network: network.to_owned() }
    }

    /// Returns the URL of a snapshot.
    pub fn snapshot_url(&self, height: u32, name: &str) -> (url: String)
        ensures
            url@ == url_of(self.base(), self.segment(), height, name@),
    {
        let mut url = self.base_url.clone();
        url.append("/");
        url.append(self.network.as_str());
        url.append("/block/");
        url.append(decimal_text(height as u64).as_str());
        url.append("/history/");
        url.append(name);
        url
    }
}

/// The error of a fetch that did not give a snapshot.
pub open spec fn unavailable_error(url: Seq<char>, message: Seq<char>) -> FetchErrorModel {
    FetchErrorModel::Unavailable(url + ": "@ + message)
}

/// The message for a snapshot that is too large.
pub open spec fn snapshot_too_large() -> Seq<char> {
    "the snapshot exceeds "@ + decimal(MAX_SNAPSHOT_BYTES as nat) + " bytes"@
}

/// Returns the error of a fetch that did not give a snapshot: of a request that could not be sent, a
/// body that could not be read, or one that is no snapshot.
pub fn unavailable(url: &str, message: &str) -> (error: FetchError)
    ensures
        error@ == unavailable_error(url@, message@),
{
    let mut text = url.to_owned();
    text.append(": ");
    text.append(message);
    FetchError::Unavailable(text)
}

/// Ensures that a snapshot is not too large, by the length that is declared for it, if any.
pub fn check_declared_length(url: &str, length: Option<u64>) -> (result: Result<(), FetchError>)
    ensures
        match result {
            Ok(()) => length matches Some(length) ==> length <= MAX_SNAPSHOT_BYTES,
            Err(error) => {
                &&& length matches Some(length) && length > MAX_SNAPSHOT_BYTES
                &&& error@ == unavailable_error(url@, snapshot_too_large())
            },
        },
{
    match length {
        Some(length) => {
            if length > MAX_SNAPSHOT_BYTES as u64 {
                Err(refuse_size(url))
            } else {
                Ok(())
            }
        },
        None => Ok(()),
    }
}

fn refuse_size(url: &str) -> (error: FetchError)
    ensures
        error@ == unavailable_error(url@, snapshot_too_large()),
{
    let mut message = "the snapshot exceeds ".to_owned();
    message.append(decimal_text(MAX_SNAPSHOT_BYTES as u64).as_str());
    message.append(" bytes");
    unavailable(url, message.as_str())
}

/// The bytes at the start of the body of an answer for a snapshot that is not recorded.
pub open spec fn missing_marker() -> Seq<u8> {
    "Could not load mapping".spec_bytes()
}

/// Whether an answer is that for a snapshot that is not recorded: the upstream answers it with a
/// server error whose body reports the missing file.
pub open spec fn reports_missing(status: u16, body: Seq<u8>) -> bool {
    status == NOT_FOUND || (500 <= status < 600 && missing_marker().is_prefix_of(body))
}

/// A status as `reqwest` prints it.
pub uninterp spec fn status_text(status: u16) -> Seq<char>;

/// `StatusCode::from_u16`, and the status printed. It is one for every number of three digits.
#[verifier::external_body]
fn print_status(status: u16) -> (text: String)
    requires
        100 <= status <= 999,
    ensures
        text@ == status_text(status),
{
    reqwest::StatusCode::from_u16(status).map(|status| status.to_string()).unwrap_or_default()
}

/// What is wrong with an answer of the upstream, if anything is.
pub open spec fn answer_error(
    url: Seq<char>,
    height: u32,
    name: Seq<char>,
    status: u16,
    body: Seq<u8>,
) -> Option<FetchErrorModel> {
    if body.len() > MAX_SNAPSHOT_BYTES {
        Some(unavailable_error(url, snapshot_too_large()))
    } else if reports_missing(status, body) {
        Some(
            FetchErrorModel::NotFound(
                "No snapshot of '"@ + name + "' is recorded for block "@ + decimal(height as nat),
            ),
        )
    } else if !(200 <= status < 300) {
        Some(unavailable_error(url, "answered "@ + status_text(status)))
    } else {
        None
    }
}

/// Returns whether bytes start with others.
fn bytes_start_with(bytes: &Vec<u8>, prefix: &[u8]) -> (result: bool)
    ensures
        result == prefix@.is_prefix_of(bytes@),
{
    if bytes.len() < prefix.len() {
        return false;
    }
    for i in 0..prefix.len()
        invariant
            prefix@.len() <= bytes@.len(),
            forall|j: int| 0 <= j < i ==> #[trigger] prefix@[j] == bytes@[j],
    {
        if bytes[i] != prefix[i] {
            assert(bytes@.take(prefix@.len() as int)[i as int] != prefix@[i as int]);
            return false;
        }
    }
    assert(bytes@.take(prefix@.len() as int) =~= prefix@);
    true
}

/// Ensures that the upstream has answered with a snapshot, as far as the status and the size tell.
pub fn check_answer(
    url: &str,
    height: u32,
    name: &str,
    status: u16,
    body: &Vec<u8>,
) -> (result: Result<(), FetchError>)
    requires
        100 <= status <= 999,
    ensures
        answer_error(url@, height, name@, status, body@) == (match result {
            Ok(()) => None,
            Err(error) => Some(error@),
        }),
{
    if body.len() > MAX_SNAPSHOT_BYTES {
        return Err(refuse_size(url));
    }
    let marker = "Could not load mapping".as_bytes();
    let missing: bool = status == NOT_FOUND || (500 <= status && status < 600
        && bytes_start_with(body, marker));
    if missing {
        let mut message = "No snapshot of '".to_owned();
        message.append(name);
        message.append("' is recorded for block ");
        message.append(decimal_text(height as u64).as_str());
        return Err(FetchError::NotFound(message));
    }
    if !(200 <= status && status < 300) {
        let mut message = "answered ".to_owned();
        message.append(print_status(status).as_str());
        return Err(unavailable(url, message.as_str()));
    }
    Ok(())
}

/// The mapping that each name is that of.
pub proof fn each_name_is_that_of_one_mapping(mapping: SnapshotMapping)
    ensures
        mapping.named() == "bonded"@ <==> mapping is Bonded,
        mapping.named() == "delegated"@ <==> mapping is Delegated,
        mapping.named() == "metadata"@ <==> mapping is Metadata,
        mapping.named() == "unbonding"@ <==> mapping is Unbonding,
        mapping.named() == "withdraw"@ <==> mapping is Withdraw,
{
    snapshot_names_are_distinct(mapping, SnapshotMapping::Bonded);
    snapshot_names_are_distinct(mapping, SnapshotMapping::Delegated);
    snapshot_names_are_distinct(mapping, SnapshotMapping::Metadata);
    snapshot_names_are_distinct(mapping, SnapshotMapping::Unbonding);
    snapshot_names_are_distinct(mapping, SnapshotMapping::Withdraw);
}

/// A snapshot that is not recorded is answered as not found with its own message, and every other
/// failure as a failure of the upstream, whose message ends with that of the failure.
pub proof fn only_an_unrecorded_snapshot_is_not_found(message: Seq<char>)
    ensures
        FetchErrorModel::NotFound(message).answered().status == 404,
        FetchErrorModel::NotFound(message).answered().chain == seq![message],
        FetchErrorModel::Unavailable(message).answered().status == 503,
        FetchErrorModel::Unavailable(message).answered().chain.len() == 1,
        message.is_suffix_of(FetchErrorModel::Unavailable(message).answered().chain[0]),
{
    let text = FetchErrorModel::Unavailable(message).answered().chain[0];
    assert(text.subrange(text.len() - message.len(), text.len() as int) =~= message);
}

/// The URL of a snapshot starts with the base URL, behind which the network stands between slashes,
/// and ends with the name of the snapshot behind a slash. URLs for different heights are different.
pub proof fn the_url_of_a_snapshot_names_it(
    base_url: Seq<char>,
    network: Seq<char>,
    height: u32,
    other_height: u32,
    name: Seq<char>,
)
    ensures
        ({
            let url = url_of(base_url, network, height, name);
            &&& (base_url + "/"@ + network + "/block/"@).is_prefix_of(url)
            &&& ("/history/"@ + name).is_suffix_of(url)
            &&& url.len() == base_url.len() + "/"@.len() + network.len() + "/block/"@.len()
                + decimal(height as nat).len() + "/history/"@.len() + name.len()
        }),
        height != other_height ==> url_of(base_url, network, height, name) != url_of(
            base_url,
            network,
            other_height,
            name,
        ),
{
    let front = base_url + "/"@ + network + "/block/"@;
    let end = "/history/"@ + name;
    let url = url_of(base_url, network, height, name);
    let other = url_of(base_url, network, other_height, name);
    assert(url =~= front + decimal(height as nat) + end);
    assert(other =~= front + decimal(other_height as nat) + end);
    assert(url.subrange(0, front.len() as int) =~= front);
    assert(url.subrange(url.len() - end.len(), url.len() as int) =~= end);
    if url == other {
        assert(url.subrange(front.len() as int, url.len() - end.len()) =~= decimal(height as nat));
        assert(other.subrange(front.len() as int, other.len() - end.len()) =~= decimal(
            other_height as nat,
        ));
        lemma_decimal_injective(height as nat, other_height as nat);
    }
}

/// An answer is taken for a snapshot exactly if its status is a success and its body is not too
/// large. One that is not too large is taken for a missing snapshot exactly if its status says so, or
/// is a server error and the body starts by reporting it. Everything else is a failure.
pub proof fn an_answer_is_a_snapshot_or_missing_or_a_failure(
    url: Seq<char>,
    height: u32,
    name: Seq<char>,
    status: u16,
    body: Seq<u8>,
)
    ensures
        ({
            let error = answer_error(url, height, name, status, body);
            let reported = {
                &&& missing_marker().len() <= body.len()
                &&& body.take(missing_marker().len() as int) == "Could not load mapping".spec_bytes()
            };
            &&& error is None <==> 200 <= status <= 299 && body.len() <= 67_108_864
            &&& (error is Some && error->0 is NotFound) <==> body.len() <= 67_108_864 && (status
                == 404 || (500 <= status <= 599 && reported))
            &&& error matches Some(FetchErrorModel::Unavailable(message)) ==> url.is_prefix_of(
                message,
            )
            &&& error is Some && error->0 is Unavailable && body.len() <= 67_108_864 ==> status_text(
                status,
            ).is_suffix_of(error->0->Unavailable_0)
            &&& body.len() > 67_108_864 ==> error == Some(
                FetchErrorModel::Unavailable(
                    url + (": the snapshot exceeds "@ + decimal(67_108_864) + " bytes"@),
                ),
            )
        }),
{
    let error = answer_error(url, height, name, status, body);
    let marker = missing_marker();
    if marker.len() <= body.len() {
        assert(body.take(marker.len() as int) =~= body.subrange(0, marker.len() as int));
    }
    if let Some(FetchErrorModel::Unavailable(message)) = error {
        let text = status_text(status);
        assert(message.subrange(0, url.len() as int) =~= url);
        if body.len() <= 67_108_864 {
            assert(message.subrange(message.len() - text.len(), message.len() as int) =~= text);
        } else {
            reveal_strlit(": ");
            reveal_strlit("the snapshot exceeds ");
            reveal_strlit(": the snapshot exceeds ");
            assert(message =~= url + (": the snapshot exceeds "@ + decimal(67_108_864)
                + " bytes"@));
        }
    }
}

/// A missing snapshot is reported with its name and its height.
pub proof fn a_missing_snapshot_is_named(url: Seq<char>, height: u32, name: Seq<char>, body: Seq<u8>)
    requires
        body.len() <= 67_108_864,
    ensures
        answer_error(url, height, name, 404, body) matches Some(FetchErrorModel::NotFound(message))
            && occurs(message, "'"@ + name + "'"@) && (" for block "@ + decimal(
            height as nat,
        )).is_suffix_of(message),
{
    let quoted = "'"@ + name + "'"@;
    let end = " for block "@ + decimal(height as nat);
    reveal_strlit("No snapshot of '");
    reveal_strlit("' is recorded for block ");
    reveal_strlit("'");
    reveal_strlit("No snapshot of ");
    reveal_strlit(" is recorded for block ");
    reveal_strlit(" is recorded");
    reveal_strlit(" for block ");
    let message = "No snapshot of '"@ + name + "' is recorded for block "@ + decimal(height as nat);
    assert(message =~= "No snapshot of "@ + quoted + (" is recorded for block "@ + decimal(
        height as nat,
    )));
    a_text_occurs_where_it_stands(
        "No snapshot of "@,
        quoted,
        " is recorded for block "@ + decimal(height as nat),
    );
    assert(message.subrange(message.len() - end.len(), message.len() as int) =~= end);
}

/// The limits of history compatibility mode, and the program that it serves.
pub proof fn the_limits_of_history_compatibility_mode()
    ensures
        SNAPSHOT_CACHE_SIZE == 256,
        UPSTREAM_TIMEOUT_SECS == 20,
        MAX_CONCURRENT_UPSTREAM_REQUESTS == 8,
        MAX_SNAPSHOT_BYTES == 64 * 1024 * 1024,
        SUPPORTED_PROGRAM@ == "credits.aleo"@,
        STAKING_REWARDS@ == "stakingrewards"@,
{
}

/// The content of a failed fetch tells a missing snapshot from every other failure, with its message.
pub proof fn a_failure_is_known_by_its_kind_and_message(message: String)
    ensures
        FetchError::NotFound(message)@ == FetchErrorModel::NotFound(message@),
        FetchError::Unavailable(message)@ == FetchErrorModel::Unavailable(message@),
{
}

} // verus!
