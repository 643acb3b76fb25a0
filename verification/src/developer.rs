//! The commands to build transactions and to hand them to a node.
use crate::console::{
    decrypt_record, decrypted_record, json_amount, ledger_query, parse_json_amount,
    parse_ledger_query, parse_record_plaintext, record,
};
use crate::network::{each_network_has_its_own_name, NetworkName};
use crate::rest::error::{in_context, outermost, shown, single};
use crate::rest::router::{API_VERSION_V1, API_VERSION_V2};
use crate::text::{
    a_text_occurs_where_it_stands, contains, decimal, decimal_text, ends_with, equal,
    lemma_prefix_cancels, occurs, starts_with, texts, trim, trim_end, trimmed, trimmed_end,
};
use std::str::FromStr;
use ureq::http::Uri;
use vstd::prelude::*;

verus! {

/// Use the Provable explorer's API by default.
/// Note, `v2` here refers to the explorer version, not the version of a node's API.
pub const DEFAULT_ENDPOINT: &'static str = "https://api.explorer.provable.com/v2";

/// The format to store a generated transaction as.
#[derive(Copy, Clone, Debug, PartialEq, Eq, Structural)]
pub enum StoreFormat {
    String,
    Bytes,
}

/// The API version used by an endpoint
#[derive(Copy, Clone, Debug, PartialEq, Eq, Structural)]
pub enum ApiVersion {
    V1,
    V2,
}

/// Commands to deploy and execute transactions
#[derive(Copy, Clone, Debug, PartialEq, Eq, Structural)]
pub enum DeveloperCommand {
    /// Decrypt a ciphertext.
    Decrypt,
    /// Deploy a program.
    Deploy,
    /// Execute a program function.
    Execute,
    /// Scan the node for records.
    Scan,
    /// Execute the `credits.aleo/transfer_private` function.
    TransferPrivate,
}

/// A developer command, and where it is run.
#[derive(Copy, Clone, Debug, PartialEq, Eq, Structural)]
pub struct Developer {
    /// The specific developer command to run.
    pub command: DeveloperCommand,
    /// The network to create an execution for.
    /// [options: 0 = mainnet, 1 = testnet, 2 = canary]
    pub network: u16,
    /// The verbosity of log output. By default, no logs are shown.
    pub verbosity: Option<u8>,
}

/// The URL that a text stands for: as `http` prints it, its path, and whether it has a scheme; or the
/// error of reading it.
pub uninterp spec fn uri(text: Seq<char>) -> Result<(Seq<char>, Seq<char>, bool), Seq<char>>;

/// `Uri::from_str`, and the URL printed again, with its path and whether it has a scheme.
#[verifier::external_body]
fn parse_uri(text: &str) -> (parsed: Result<(String, String, bool), String>)
    ensures
        match parsed {
            Ok((url, path, has_scheme)) => uri(text@) == Ok::<
                (Seq<char>, Seq<char>, bool),
                Seq<char>,
            >((url@, path@, has_scheme)),
            Err(error) => uri(text@) == Err::<(Seq<char>, Seq<char>, bool), Seq<char>>(error@),
        },
{
    Uri::from_str(text)
        .map(|uri| (uri.to_string(), uri.path().to_string(), uri.scheme().is_some()))
        .map_err(|error| error.to_string())
}

/// The URL of a node's REST API, or of one of its routes.
#[derive(Debug)]
pub struct Endpoint {
    /// The URL.
    pub url: String,
    /// The path of the URL.
    pub path: String,
}

/// The content of an endpoint.
#[verifier::ext_equal]
pub struct EndpointModel {
    pub url: Seq<char>,
    pub path: Seq<char>,
}

impl View for Endpoint {
    type V = EndpointModel;

    open spec fn view(&self) -> EndpointModel {
        EndpointModel { url: self.url@, path: self.path@ }
    }
}

/// The endpoint that a text stands for, by what was read from it, and by what was read from it with a
/// scheme before it. The scheme of a URL without one is that of plain HTTP.
pub open spec fn endpoint_from(
    read: Result<(Seq<char>, Seq<char>, bool), Seq<char>>,
    read_with_scheme: Result<(Seq<char>, Seq<char>, bool), Seq<char>>,
) -> Result<EndpointModel, Seq<Seq<char>>> {
    match read {
        Err(error) => Err(seq!["Invalid endpoint URL"@, error]),
        Ok((url, path, true)) => Ok(EndpointModel { url, path }),
        Ok((_, _, false)) => match read_with_scheme {
            Err(error) => Err(seq![error]),
            Ok((url, path, _)) => Ok(EndpointModel { url, path }),
        },
    }
}

/// The content of what was read from a URL.
pub open spec fn uri_content(read: Result<(String, String, bool), String>) -> Result<
    (Seq<char>, Seq<char>, bool),
    Seq<char>,
> {
    match read {
        Ok((url, path, has_scheme)) => Ok((url@, path@, has_scheme)),
        Err(error) => Err(error@),
    }
}

/// The content of an endpoint, or of the errors in its place.
pub open spec fn endpoint_content(result: Result<Endpoint, Vec<String>>) -> Result<
    EndpointModel,
    Seq<Seq<char>>,
> {
    match result {
        Ok(endpoint) => Ok(endpoint@),
        Err(chain) => Err(texts(chain@)),
    }
}

/// A static query: the state of the ledger, as it is given and not as a node reports it.
#[derive(Debug)]
pub struct StaticQuery {
    /// The height of the ledger.
    pub height: u32,
    /// The state root of the ledger.
    pub state_root: String,
}

impl View for StaticQuery {
    type V = (u32, Seq<char>);

    open spec fn view(&self) -> (u32, Seq<char>) {
        (self.height, self.state_root@)
    }
}

/// A ledger query parsed from an endpoint argument, with the REST base URL when the input is a URL.
#[derive(Debug)]
pub struct ParsedQuery {
    /// The static query, `None` for a query of a REST API.
    pub static_query: Option<StaticQuery>,
    /// The REST base URL.
    pub endpoint: Option<Endpoint>,
}

/// The content of a parsed query: the static query, and the REST base URL.
pub open spec fn query_content(result: Result<ParsedQuery, Vec<String>>) -> Result<
    (Option<(u32, Seq<char>)>, Option<EndpointModel>),
    Seq<Seq<char>>,
> {
    match result {
        Ok(parsed) => Ok(
            (
                match parsed.static_query {
                    Some(query) => Some(query@),
                    None => None,
                },
                match parsed.endpoint {
                    Some(endpoint) => Some(endpoint@),
                    None => None,
                },
            ),
        ),
        Err(chain) => Err(texts(chain@)),
    }
}

/// The endpoint that a text stands for.
pub open spec fn endpoint_of(text: Seq<char>) -> Result<EndpointModel, Seq<Seq<char>>> {
    endpoint_from(uri(text), uri("http://"@ + text))
}

/// The query that a text stands for: a static query if it starts with a brace, the endpoint of a REST
/// API otherwise.
pub open spec fn parsed_query(input: Seq<char>) -> Result<
    (Option<(u32, Seq<char>)>, Option<EndpointModel>),
    Seq<Seq<char>>,
> {
    let input = trimmed(input);
    if input.len() > 0 && input[0] == '{' {
        match ledger_query(input) {
            Ok(query) => Ok((query, None)),
            Err(chain) => Err(chain),
        }
    } else {
        match endpoint_of(input) {
            Ok(endpoint) => match ledger_query(endpoint.url) {
                Ok(query) => Ok((query, Some(endpoint))),
                Err(chain) => Err(chain),
            },
            Err(chain) => Err(chain),
        }
    }
}

/// The version of the API under a path. It is the first if the path names none.
pub open spec fn version_under(path: Seq<char>) -> ApiVersion {
    let path = trimmed_end(path, '/');
    if API_VERSION_V1@.is_suffix_of(path) {
        ApiVersion::V1
    } else if API_VERSION_V2@.is_suffix_of(path) {
        ApiVersion::V2
    } else {
        ApiVersion::V1
    }
}

/// The URL of a route of a network under a base URL.
pub open spec fn route_url(base: EndpointModel, network: NetworkName, route: Seq<char>) -> Seq<char> {
    base.url + (if seq!['/'].is_suffix_of(base.path) {
        ""@
    } else {
        "/"@
    }) + network.short_name() + "/"@ + route
}

/// The version of the API that a URL to broadcast to is of, by its path.
pub open spec fn custom_version(path: Seq<char>, network: NetworkName) -> ApiVersion {
    if (API_VERSION_V2@ + "/"@ + network.short_name()
        + "/transaction/broadcast"@).is_suffix_of(path) {
        ApiVersion::V2
    } else {
        ApiVersion::V1
    }
}

/// The serialized REST error sent over the network.
#[derive(Debug)]
pub struct RestError {
    /// The type of error (corresponding to the HTTP status code).
    pub error_type: String,
    /// The top-level error message.
    pub message: String,
    /// The chain of errors that led to the top-level error, the innermost first.
    pub chain: Vec<String>,
}

impl RestError {
    /// The chain of messages of the error, the outermost first.
    pub open spec fn messages(self) -> Seq<Seq<char>> {
        seq![self.error_type@ + ": "@ + self.message@] + texts(self.chain@).reverse()
    }

    /// Converts the error into a chain of messages, the outermost first.
    pub fn parse(self) -> (messages: Vec<String>)
        ensures
            texts(messages@) == self.messages(),
    {
        let mut toplevel = self.error_type.clone();
        toplevel.append(": ");
        toplevel.append(self.message.as_str());
        let mut messages: Vec<String> = single(toplevel);
        let ghost all = texts(self.chain@);
        let mut left: usize = self.chain.len();
        assert(all.skip(left as int).reverse() =~= Seq::<Seq<char>>::empty());
        assert(texts(messages@) =~= seq![toplevel@] + all.skip(left as int).reverse());
        while left > 0
            invariant
                left <= self.chain@.len(),
                all == texts(self.chain@),
                texts(messages@) == seq![toplevel@] + all.skip(left as int).reverse(),
            decreases left,
        {
            let ghost before = texts(messages@);
            left = left - 1;
            let next = self.chain[left].clone();
            messages.push(next);
            assert(texts(messages@) =~= before.push(next@));
            assert(all.skip(left as int).reverse() =~= all.skip(left + 1).reverse().push(next@));
        }
        assert(all.skip(0) =~= all);
        messages
    }
}

/// What the response to a request is.
#[derive(Copy, Clone, Debug, PartialEq, Eq, Structural)]
pub enum ResponseKind {
    /// What was asked for.
    Body,
    /// That it does not exist.
    NotFound,
    /// A serialized REST error.
    JsonError,
    /// A message.
    TextError,
}

/// What the response to a request is, by its status and the type of its content.
pub open spec fn kind_of(status: u16, content_type: Option<Seq<char>>) -> ResponseKind {
    if 200 <= status < 300 {
        ResponseKind::Body
    } else if status == 404 {
        ResponseKind::NotFound
    } else if content_type matches Some(content_type) && occurs(content_type, "json"@) {
        ResponseKind::JsonError
    } else {
        ResponseKind::TextError
    }
}

/// How a request is made.
#[derive(Copy, Clone, Debug, PartialEq, Eq, Structural)]
pub enum RequestMethod {
    Get,
    Post,
}

/// The context of a request that failed.
pub open spec fn request_failed(method: RequestMethod, endpoint: Seq<char>) -> Seq<char> {
    (match method {
        RequestMethod::Get => "HTTP GET request to "@,
        RequestMethod::Post => "HTTP POST request to "@,
    }) + endpoint + " failed"@
}

/// Returns the errors of a request that failed.
pub fn request_error(method: RequestMethod, endpoint: &str, chain: Vec<String>) -> (messages: Vec<
    String,
>)
    ensures
        texts(messages@) == seq![request_failed(method, endpoint@)] + texts(chain@),
{
    let mut context = match method {
        RequestMethod::Get => "HTTP GET request to ".to_owned(),
        RequestMethod::Post => "HTTP POST request to ".to_owned(),
    };
    context.append(endpoint);
    context.append(" failed");
    in_context(context, chain)
}

/// What is done after it was asked whether a transaction is confirmed.
#[derive(Debug)]
pub enum PollStep {
    /// It is.
    Confirmed,
    /// Ask again later.
    Retry,
    /// Report the error, and ask again later.
    RetryAfter(String),
    /// Fail with the errors.
    Fail(Vec<String>),
}

/// The kind of a transaction.
#[derive(Copy, Clone, Debug, PartialEq, Eq, Structural)]
pub enum TransactionKind {
    Deploy,
    Execute,
    Fee,
}

/// The content of an optional text, or of the errors in its place.
pub open spec fn reply_content(reply: Result<Option<String>, Vec<String>>) -> Result<
    Option<Seq<char>>,
    Seq<Seq<char>>,
> {
    match reply {
        Ok(Some(text)) => Ok(Some(text@)),
        Ok(None) => Ok(None),
        Err(chain) => Err(texts(chain@)),
    }
}

/// The content of a text, or of the errors in its place.
pub open spec fn message_content(result: Result<String, Vec<String>>) -> Result<
    Seq<char>,
    Seq<Seq<char>>,
> {
    match result {
        Ok(text) => Ok(text@),
        Err(chain) => Err(texts(chain@)),
    }
}

/// The context of a broadcast that failed.
pub open spec fn broadcast_failed(
    kind: TransactionKind,
    operation: Seq<char>,
    endpoint: Seq<char>,
) -> Seq<char> {
    (if kind is Deploy {
        "Failed to deploy '"@
    } else {
        "Failed to broadcast execution '"@
    }) + operation + "' to "@ + endpoint
}

/// What comes of a broadcast by the reply to it: a line to show, or errors.
pub open spec fn broadcast_outcome(
    kind: TransactionKind,
    transaction_id: Seq<char>,
    operation: Seq<char>,
    endpoint: Seq<char>,
    reply: Result<Option<Seq<char>>, Seq<Seq<char>>>,
) -> Result<Seq<char>, Seq<Seq<char>>> {
    match reply {
        Ok(Some(response)) => if response == transaction_id {
            Ok(
                (if kind is Deploy {
                    "⌛ Deployment "@
                } else {
                    "⌛ Execution "@
                }) + transaction_id + " ('"@ + operation + "') has been broadcast to "@ + endpoint
                    + "."@,
            )
        } else {
            Err(
                seq![
                    "The response does not match the transaction id. ("@ + response + " != "@
                        + transaction_id + ")"@,
                ],
            )
        },
        Ok(None) => Err(
            seq![broadcast_failed(kind, operation, endpoint), "Got unexpected 404 error"@],
        ),
        Err(chain) => Err(seq![broadcast_failed(kind, operation, endpoint)] + chain),
    }
}

/// The errors of a response that is not the JSON document that was asked for.
pub open spec fn json_failed(endpoint: Seq<char>, error: Seq<char>) -> Seq<Seq<char>> {
    seq!["Failed to parse JSON response from "@ + endpoint, "json: "@ + error]
}

/// Returns the errors of a response that is not the JSON document that was asked for.
pub fn json_error(endpoint: &str, error: &str) -> (messages: Vec<String>)
    ensures
        texts(messages@) == json_failed(endpoint@, error@),
{
    let mut context = "Failed to parse JSON response from ".to_owned();
    context.append(endpoint);
    let mut message = "json: ".to_owned();
    message.append(error);
    let messages = in_context(context, single(message));
    assert(texts(messages@) =~= json_failed(endpoint@, error@));
    messages
}

/// The balance of an account by what was read from the response to the request for its entry: no
/// value, an amount, another value, or an error.
pub open spec fn balance_from(
    address: Seq<char>,
    endpoint: Seq<char>,
    read: Result<Option<Option<u64>>, Seq<char>>,
) -> Result<Option<u64>, Seq<Seq<char>>> {
    match read {
        Ok(Some(Some(amount))) => Ok(Some(amount)),
        Ok(Some(None)) => Err(seq!["Failed to deserialize balance for "@ + address]),
        Ok(None) => Ok(None),
        Err(error) => Err(json_failed(endpoint, error)),
    }
}

/// The balance of an account by the response to the request for its entry, `None` if the node does
/// not have the entry.
pub open spec fn balance_of(
    address: Seq<char>,
    endpoint: Seq<char>,
    response: Option<Seq<u8>>,
) -> Result<Option<u64>, Seq<Seq<char>>> {
    match response {
        Some(document) => balance_from(address, endpoint, json_amount(document)),
        None => Err(seq!["Got unexpected 404 error when fetching public balance"@]),
    }
}

/// The content of a balance, or of the errors in its place.
pub open spec fn balance_content(result: Result<Option<u64>, Vec<String>>) -> Result<
    Option<u64>,
    Seq<Seq<char>>,
> {
    match result {
        Ok(balance) => Ok(balance),
        Err(chain) => Err(texts(chain@)),
    }
}

/// Where a transaction is broadcast to.
pub open spec fn target_of(
    network: NetworkName,
    endpoint: Option<EndpointModel>,
    broadcast: Option<EndpointModel>,
) -> Result<(Seq<char>, ApiVersion), Seq<Seq<char>>> {
    match (broadcast, endpoint) {
        (Some(url), _) => Ok((url.url, custom_version(url.path, network))),
        (None, Some(endpoint)) => Ok(
            (
                route_url(endpoint, network, "transaction/broadcast"@),
                version_under(endpoint.path),
            ),
        ),
        (None, None) => Err(
            seq![
                "Cannot broadcast a transaction built from a static query without a broadcast URL"@,
            ],
        ),
    }
}

/// The content of an optional endpoint.
pub open spec fn optional_endpoint(endpoint: Option<&Endpoint>) -> Option<EndpointModel> {
    match endpoint {
        Some(endpoint) => Some(endpoint@),
        None => None,
    }
}

impl Developer {
    /// Returns the command to run, and the network to run it for.
    pub fn parse(self) -> (result: Result<(NetworkName, DeveloperCommand), String>)
        ensures
            match result {
                Ok((network, command)) => network.id() == self.network && command == self.command,
                Err(message) => {
                    &&& forall|network: NetworkName| #[trigger] network.id() != self.network
                    &&& message@ == "Unknown network ID ("@ + decimal(self.network as nat) + ")"@
                },
            },
    {
        match NetworkName::from_id(self.network) {
            Some(network) => Ok((network, self.command)),
            None => {
                let mut message = "Unknown network ID (".to_owned();
                message.append(decimal_text(self.network as u64).as_str());
                message.append(")");
                Err(message)
            },
        }
    }

    /// Ensures that a package is of the specified program.
    pub fn check_package(package_program_id: &str, program_id: &str) -> (result: Result<(), String>)
        ensures
            match result {
                Ok(()) => package_program_id@ == program_id@,
                Err(message) => package_program_id@ != program_id@ && message@
                    == "The program name in the package does not match the specified program name"@,
            },
    {
        if equal(package_program_id, program_id) {
            Ok(())
        } else {
            Err(
                "The program name in the package does not match the specified program name".to_owned(),
            )
        }
    }

    /// Parses the record string. If the string is a ciphertext, then attempt to decrypt it.
    pub fn parse_record(private_key: &str, record_text: &str) -> (result: Result<String, Vec<String>>)
        ensures
            message_content(result) == (if "record1"@.is_prefix_of(record_text@) {
                decrypted_record(private_key@, record_text@)
            } else {
                record(record_text@)
            }),
    {
        if starts_with(record_text, "record1") {
            decrypt_record(private_key, record_text)
        } else {
            parse_record_plaintext(record_text)
        }
    }

    /// Returns the endpoint that a text stands for, by what was read from it, and by what was read
    /// from it with a scheme before it.
    pub fn prepare_endpoint(
        read: Result<(String, String, bool), String>,
        read_with_scheme: Result<(String, String, bool), String>,
    ) -> (result: Result<Endpoint, Vec<String>>)
        ensures
            endpoint_content(result) == endpoint_from(
                uri_content(read),
                uri_content(read_with_scheme),
            ),
    {
        match read {
            Err(error) => {
                let chain = in_context("Invalid endpoint URL".to_owned(), single(error));
                assert(texts(chain@) =~= seq!["Invalid endpoint URL"@, error@]);
                Err(chain)
            },
            Ok((url, path, has_scheme)) => if has_scheme {
                Ok(Endpoint { url, path })
            } else {
                match read_with_scheme {
                    Err(error) => Err(single(error)),
                    Ok((url, path, _)) => Ok(Endpoint { url, path }),
                }
            },
        }
    }

    /// Parses an endpoint URL. One without a scheme is of plain HTTP.
    pub fn parse_endpoint(text: &str) -> (result: Result<Endpoint, Vec<String>>)
        ensures
            endpoint_content(result) == endpoint_of(text@),
    {
        let mut with_scheme = "http://".to_owned();
        with_scheme.append(text);
        Self::prepare_endpoint(parse_uri(text), parse_uri(with_scheme.as_str()))
    }

    /// Returns the static query with the height and the state root that were read, if it is one.
    fn static_query(read: Option<(u32, String)>) -> (query: Option<StaticQuery>)
        ensures
            (match query {
                Some(query) => Some(query@),
                None => None,
            }) == (match read {
                Some((height, state_root)) => Some((height, state_root@)),
                None => None,
            }),
    {
        match read {
            Some((height, state_root)) => Some(StaticQuery { height, state_root }),
            None => None,
        }
    }

    /// Parses an endpoint URL or a JSON static query.
    ///
    /// Endpoint URLs are normalized before they are parsed as a query.
    pub fn parse_query(input: &str) -> (result: Result<ParsedQuery, Vec<String>>)
        ensures
            query_content(result) == parsed_query(input@),
    {
        let input = trim(input);
        // JSON static queries are not endpoint URLs, so they skip URI normalization.
        if input.as_str().unicode_len() > 0 && input.as_str().get_char(0) == '{' {
            return match parse_ledger_query(input.as_str()) {
                Ok(read) => Ok(
                    ParsedQuery { static_query: Self::static_query(read), endpoint: None },
                ),
                Err(chain) => Err(chain),
            };
        }
        match Self::parse_endpoint(input.as_str()) {
            Ok(endpoint) => match parse_ledger_query(endpoint.url.as_str()) {
                Ok(read) => Ok(
                    ParsedQuery {
                        static_query: Self::static_query(read),
                        endpoint: Some(endpoint),
                    },
                ),
                Err(chain) => Err(chain),
            },
            Err(chain) => Err(chain),
        }
    }

    /// Builds the full endpoint URL from the base and path. Used internally for all REST API calls.
    /// This will add the network name to the resulting endpoint URL.
    ///
    /// # Arguments
    ///  - `base_url`: the hostname (and path prefix) of the node to query. this must exclude the network name.
    ///  - `route`: the route to the endpoint (e.g., `stateRoot/latest`). This cannot start with a slash.
    ///
    /// # Returns
    /// The full endpoint URL and the API version used by it.
    pub fn build_endpoint(base_url: &Endpoint, network: NetworkName, route: &str) -> (result: Result<
        (String, ApiVersion),
        String,
    >)
        ensures
            match result {
                Ok((url, version)) => {
                    &&& !seq!['/'].is_prefix_of(route@)
                    &&& url@ == route_url(base_url@, network, route@)
                    &&& version == version_under(base_url@.path)
                },
                Err(message) => {
                    &&& seq!['/'].is_prefix_of(route@)
                    &&& message@ == "path cannot start with a slash"@
                },
            },
    {
        proof {
            reveal_strlit("/");
            assert("/"@ =~= seq!['/']);
        }
        // This function is only called internally but check for additional sanity.
        if starts_with(route, "/") {
            return Err("path cannot start with a slash".to_owned());
        }
        // Determine the API version we are interacting with.
        let r = trim_end(base_url.path.as_str(), '/');
        let api_version: ApiVersion = if ends_with(r.as_str(), API_VERSION_V1) {
            ApiVersion::V1
        } else if ends_with(r.as_str(), API_VERSION_V2) {
            ApiVersion::V2
        } else {
            // Default to v1.
            ApiVersion::V1
        };
        // An empty path is printed as a slash, but other paths are not appended with one.
        let sep = if ends_with(base_url.path.as_str(), "/") {
            ""
        } else {
            "/"
        };
        // Build "{base}/{maybe_version}/{network}/{route}"
        let parameters = network.parameters();
        let mut full_uri = base_url.url.clone();
        full_uri.append(sep);
        full_uri.append(parameters.short_name.as_str());
        full_uri.append("/");
        full_uri.append(route);
        Ok((full_uri, api_version))
    }

    /// Determines what the response to a request is.
    /// If its status is 404, what was asked for does not exist, which is not an error.
    pub fn handle_ureq_result(status: u16, content_type: &Option<String>) -> (kind: ResponseKind)
        ensures
            kind == kind_of(
                status,
                match content_type {
                    Some(content_type) => Some(content_type@),
                    None => None,
                },
            ),
    {
        if 200 <= status && status < 300 {
            ResponseKind::Body
        } else if status == 404 {
            ResponseKind::NotFound
        } else {
            // V2 returns the error in JSON format.
            let is_json: bool = match content_type {
                Some(content_type) => contains(content_type.as_str(), "json"),
                None => false,
            };
            if is_json {
                ResponseKind::JsonError
            } else {
                // V1 returns the error message a string.
                ResponseKind::TextError
            }
        }
    }

    /// Extracts the API version from a custom endpoint.
    pub fn parse_custom_endpoint(url: &Endpoint, network: NetworkName) -> (result: (
        String,
        ApiVersion,
    ))
        ensures
            result.0@ == url@.url,
            result.1 == custom_version(url@.path, network),
    {
        let parameters = network.parameters();
        let mut suffix = API_VERSION_V2.to_owned();
        suffix.append("/");
        suffix.append(parameters.short_name.as_str());
        suffix.append("/transaction/broadcast");
        // Determine API version for custom endpoint.
        if ends_with(url.path.as_str(), suffix.as_str()) {
            (url.url.clone(), ApiVersion::V2)
        } else {
            (url.url.clone(), ApiVersion::V1)
        }
    }

    /// Returns whether a transaction is still waited for, after the given number of whole seconds.
    pub fn keeps_waiting(elapsed_seconds: u64, timeout_seconds: u64) -> (waits: bool)
        ensures
            waits == (elapsed_seconds < timeout_seconds),
    {
        elapsed_seconds < timeout_seconds
    }

    /// Decides what is done after it was asked whether a transaction is confirmed.
    ///
    /// The V1 API returns a fault on missing transactions, so any error is retried. With the V2 API,
    /// benign and fatal errors can be told apart.
    pub fn after_poll(api_version: ApiVersion, found: Result<bool, Vec<String>>) -> (step: PollStep)
        ensures
            match found {
                Ok(true) => step is Confirmed,
                Ok(false) => step is Retry,
                Err(chain) => match api_version {
                    ApiVersion::V1 => step matches PollStep::RetryAfter(message) && message@
                        == "Got error when fetching transaction ("@ + shown(texts(chain@))
                        + "). Will retry..."@,
                    ApiVersion::V2 => step matches PollStep::Fail(messages) && texts(messages@)
                        == seq!["Failed to check transaction status"@] + texts(chain@),
                },
            },
    {
        match found {
            Ok(true) => PollStep::Confirmed,
            // Transaction not found yet, continue polling.
            Ok(false) => PollStep::Retry,
            Err(chain) => match api_version {
                ApiVersion::V1 => {
                    let mut message = "Got error when fetching transaction (".to_owned();
                    message.append(outermost(&chain).as_str());
                    message.append("). Will retry...");
                    PollStep::RetryAfter(message)
                },
                ApiVersion::V2 => PollStep::Fail(
                    in_context("Failed to check transaction status".to_owned(), chain),
                ),
            },
        }
    }

    /// Returns the error for a transaction that was not confirmed in time.
    pub fn confirmation_timeout(transaction_id: &str, timeout_seconds: u64) -> (message: String)
        ensures
            message@ == "❌ Transaction "@ + transaction_id@ + " was not confirmed within "@
                + decimal(timeout_seconds as nat) + " seconds"@,
    {
        let mut message = "❌ Transaction ".to_owned();
        message.append(transaction_id);
        message.append(" was not confirmed within ");
        message.append(decimal_text(timeout_seconds).as_str());
        message.append(" seconds");
        message
    }

    /// Returns the route to the latest edition of a program.
    pub fn latest_edition_route(program_id: &str) -> (route: String)
        ensures
            route@ == "program/"@ + program_id@ + "/latest_edition"@,
    {
        let mut route = "program/".to_owned();
        route.append(program_id);
        route.append("/latest_edition");
        route
    }

    /// Gets the latest edition of an Aleo program from the reply to the request for it.
    pub fn get_latest_edition(reply: Option<u16>) -> (result: Result<u16, String>)
        ensures
            match result {
                Ok(edition) => reply == Some(edition),
                Err(message) => reply is None && message@ == "Got unexpected 404 response"@,
            },
    {
        match reply {
            Some(edition) => Ok(edition),
            None => Err("Got unexpected 404 response".to_owned()),
        }
    }

    /// Returns the route to the public balance of an account.
    pub fn public_balance_route(address: &str) -> (route: String)
        ensures
            route@ == "program/credits.aleo/mapping/account/"@ + address@,
    {
        let mut route = "program/credits.aleo/mapping/account/".to_owned();
        route.append(address);
        route
    }

    /// Returns the balance of an account (in microcredits) by what was read from the response of an
    /// endpoint to the request for its entry.
    pub fn read_balance(
        address: &str,
        endpoint: &str,
        read: Result<Option<Option<u64>>, String>,
    ) -> (result: Result<Option<u64>, Vec<String>>)
        ensures
            balance_content(result) == balance_from(
                address@,
                endpoint@,
                match read {
                    Ok(amount) => Ok(amount),
                    Err(error) => Err(error@),
                },
            ),
    {
        match read {
            Ok(Some(Some(amount))) => Ok(Some(amount)),
            Ok(Some(None)) => {
                let mut message = "Failed to deserialize balance for ".to_owned();
                message.append(address);
                Err(single(message))
            },
            Ok(None) => Ok(None),
            Err(error) => Err(json_error(endpoint, error.as_str())),
        }
    }

    /// Gets the public account balance of an Aleo Address (in microcredits) from the response of an
    /// endpoint to the request for its entry. If there is no such account, the node responds with
    /// `null`. Nodes should never respond that they do not have the entry.
    pub fn get_public_balance(address: &str, endpoint: &str, response: &Option<Vec<u8>>) -> (result:
        Result<Option<u64>, Vec<String>>)
        ensures
            balance_content(result) == balance_of(
                address@,
                endpoint@,
                match response {
                    Some(document) => Some(document@),
                    None => None,
                },
            ),
    {
        match response {
            Some(document) => Self::read_balance(address, endpoint, parse_json_amount(document)),
            None => Err(
                single("Got unexpected 404 error when fetching public balance".to_owned()),
            ),
        }
    }

    /// Ensures the transaction is not a fee transaction.
    pub fn check_kind(kind: TransactionKind) -> (result: Result<(), String>)
        ensures
            match result {
                Ok(()) => !(kind is Fee),
                Err(message) => kind is Fee && message@
                    == "The transaction is a fee transaction and cannot be broadcast"@,
            },
    {
        match kind {
            TransactionKind::Fee => Err(
                "The transaction is a fee transaction and cannot be broadcast".to_owned(),
            ),
            _ => Ok(()),
        }
    }

    /// Returns the line to show for a transaction that was stored.
    pub fn stored_line(transaction_id: &str, path: &str, format: StoreFormat) -> (line: String)
        ensures
            line@ == "Transaction "@ + transaction_id@ + " was stored to "@ + path@ + " as "@ + (
            match format {
                StoreFormat::String => "String"@,
                StoreFormat::Bytes => "Bytes"@,
            }),
    {
        let mut line = "Transaction ".to_owned();
        line.append(transaction_id);
        line.append(" was stored to ");
        line.append(path);
        line.append(" as ");
        match format {
            StoreFormat::String => line.append("String"),
            StoreFormat::Bytes => line.append("Bytes"),
        }
        line
    }

    /// Determines where a transaction is broadcast to, and the API version there: the custom URL if
    /// one is given, the query endpoint otherwise.
    pub fn broadcast_target(
        network: NetworkName,
        endpoint: Option<&Endpoint>,
        broadcast: Option<&Endpoint>,
    ) -> (result: Result<(String, ApiVersion), Vec<String>>)
        ensures
            (match result {
                Ok((url, version)) => Ok::<(Seq<char>, ApiVersion), Seq<Seq<char>>>((url@, version)),
                Err(chain) => Err(texts(chain@)),
            }) == target_of(network, optional_endpoint(endpoint), optional_endpoint(broadcast)),
    {
        match broadcast {
            Some(url) => Ok(Self::parse_custom_endpoint(url, network)),
            None => match endpoint {
                Some(endpoint) => {
                    proof {
                        reveal_strlit("transaction/broadcast");
                        assert("transaction/broadcast"@.subrange(0, 1)[0] != seq!['/'][0]);
                    }
                    match Self::build_endpoint(endpoint, network, "transaction/broadcast") {
                        Ok(target) => Ok(target),
                        Err(message) => Err(single(message)),
                    }
                },
                None => Err(
                    single(
                        "Cannot broadcast a transaction built from a static query without a broadcast URL".to_owned(),
                    ),
                ),
            },
        }
    }

    /// Returns what comes of a broadcast by the reply to it: the line to show, or the errors. The
    /// reply is to be the transaction's ID.
    pub fn broadcast_result(
        kind: TransactionKind,
        transaction_id: &str,
        operation: &str,
        endpoint: &str,
        reply: Result<Option<String>, Vec<String>>,
    ) -> (result: Result<String, Vec<String>>)
        requires
            !(kind is Fee),
        ensures
            message_content(result) == broadcast_outcome(
                kind,
                transaction_id@,
                operation@,
                endpoint@,
                reply_content(reply),
            ),
    {
        let errors: Vec<String> = match reply {
            Ok(Some(response)) => {
                if !equal(response.as_str(), transaction_id) {
                    let mut message = "The response does not match the transaction id. (".to_owned();
                    message.append(response.as_str());
                    message.append(" != ");
                    message.append(transaction_id);
                    message.append(")");
                    return Err(single(message));
                }
                let mut line = match kind {
                    TransactionKind::Deploy => "⌛ Deployment ".to_owned(),
                    _ => "⌛ Execution ".to_owned(),
                };
                line.append(transaction_id);
                line.append(" ('");
                line.append(operation);
                line.append("') has been broadcast to ");
                line.append(endpoint);
                line.append(".");
                return Ok(line);
            },
            Ok(None) => single("Got unexpected 404 error".to_owned()),
            Err(chain) => chain,
        };
        let ghost inner = texts(errors@);
        let mut context = match kind {
            TransactionKind::Deploy => "Failed to deploy '".to_owned(),
            _ => "Failed to broadcast execution '".to_owned(),
        };
        context.append(operation);
        context.append("' to ");
        context.append(endpoint);
        let chain = in_context(context, errors);
        proof {
            if reply_content(reply) == Ok::<Option<Seq<char>>, Seq<Seq<char>>>(None) {
                assert(seq![context@] + inner =~= seq![context@, "Got unexpected 404 error"@]);
            }
        }
        Err(chain)
    }

    /// Returns the endpoint that is asked whether a transaction is confirmed.
    pub fn wait_endpoint(endpoint: Option<&Endpoint>) -> (result: Result<&Endpoint, String>)
        ensures
            match result {
                Ok(found) => endpoint == Some(found),
                Err(message) => endpoint is None && message@
                    == "Cannot wait for confirmation of a transaction built from a static query"@,
            },
    {
        match endpoint {
            Some(endpoint) => Ok(endpoint),
            None => Err(
                "Cannot wait for confirmation of a transaction built from a static query".to_owned(),
            ),
        }
    }

    /// Returns the line to show for a transaction that is confirmed.
    pub fn confirmed_line(kind: TransactionKind, transaction_id: &str, operation: &str) -> (line:
        String)
        requires
            !(kind is Fee),
        ensures
            line@ == (if kind is Deploy {
                "✅ Deployment "@
            } else {
                "✅ Execution "@
            }) + transaction_id@ + " ('"@ + operation@ + "') confirmed!"@,
    {
        let mut line = match kind {
            TransactionKind::Deploy => "✅ Deployment ".to_owned(),
            _ => "✅ Execution ".to_owned(),
        };
        line.append(transaction_id);
        line.append(" ('");
        line.append(operation);
        line.append("') confirmed!");
        line
    }
}

/// What a command outputs in the end.
#[derive(Copy, Clone, Debug, PartialEq, Eq, Structural)]
pub enum Output {
    /// The transaction's ID.
    TransactionId,
    /// The transaction.
    Transaction,
    /// Nothing.
    Nothing,
}

/// A transaction that was built, and what is to be done with it.
///
/// Exactly one of `dry_run`, `store` and `broadcast` is expected to be set.
#[derive(Debug)]
pub struct BuiltTransaction {
    /// The network of the transaction.
    pub network: NetworkName,
    /// The kind of the transaction.
    pub kind: TransactionKind,
    /// The ID of the transaction.
    pub transaction_id: String,
    /// What the transaction does, as it is shown.
    pub operation: String,
    /// The REST base URL used to query node state, or `None` for a static query.
    pub endpoint: Option<Endpoint>,
    /// `Some(None)` to broadcast using the query endpoint, `Some(Some(url))` to use a different one.
    pub broadcast: Option<Option<Endpoint>>,
    /// Whether the transaction is only shown.
    pub dry_run: bool,
    /// Whether the transaction is stored.
    pub store: bool,
    /// Whether to wait until the transaction is confirmed.
    pub wait: bool,
}

/// What is done next with a transaction.
#[derive(Debug)]
pub enum TransactionStep {
    /// Fail with the errors.
    Fail(Vec<String>),
    /// Store the transaction.
    Store,
    /// Post the transaction to the URL, of an API of the version.
    Post(String, ApiVersion),
    /// Wait until the transaction is confirmed.
    Wait,
    /// Output the text.
    Finish(Output),
}

/// The content of a step.
#[verifier::ext_equal]
pub enum TransactionStepModel {
    Fail(Seq<Seq<char>>),
    Store,
    Post(Seq<char>, ApiVersion),
    Wait,
    Finish(Output),
}

impl View for TransactionStep {
    type V = TransactionStepModel;

    open spec fn view(&self) -> TransactionStepModel {
        match *self {
            TransactionStep::Fail(chain) => TransactionStepModel::Fail(texts(chain@)),
            TransactionStep::Store => TransactionStepModel::Store,
            TransactionStep::Post(url, version) => TransactionStepModel::Post(url@, version),
            TransactionStep::Wait => TransactionStepModel::Wait,
            TransactionStep::Finish(output) => TransactionStepModel::Finish(output),
        }
    }
}

impl BuiltTransaction {
    /// The REST base URL.
    pub open spec fn base(self) -> Option<EndpointModel> {
        match self.endpoint {
            Some(endpoint) => Some(endpoint@),
            None => None,
        }
    }

    /// The custom URL to broadcast to.
    pub open spec fn custom(self) -> Option<EndpointModel> {
        match self.broadcast {
            Some(Some(url)) => Some(url@),
            _ => None,
        }
    }

    /// What is done first.
    pub open spec fn first(self) -> TransactionStepModel {
        if self.kind is Fee {
            TransactionStepModel::Fail(
                seq!["The transaction is a fee transaction and cannot be broadcast"@],
            )
        } else if self.store {
            TransactionStepModel::Store
        } else {
            self.stored()
        }
    }

    /// What is done when the transaction was stored, or is not to be.
    pub open spec fn stored(self) -> TransactionStepModel {
        if self.broadcast is Some {
            match target_of(self.network, self.base(), self.custom()) {
                Ok((url, version)) => TransactionStepModel::Post(url, version),
                Err(chain) => TransactionStepModel::Fail(chain),
            }
        } else if self.dry_run {
            TransactionStepModel::Finish(Output::Transaction)
        } else {
            TransactionStepModel::Finish(Output::Nothing)
        }
    }

    /// The line to show, if there is one, and what is done, when the transaction was posted to a URL
    /// with a reply.
    pub open spec fn posted(
        self,
        url: Seq<char>,
        reply: Result<Option<Seq<char>>, Seq<Seq<char>>>,
    ) -> (Option<Seq<char>>, TransactionStepModel) {
        match broadcast_outcome(
            self.kind,
            self.transaction_id@,
            self.operation@,
            url,
            reply,
        ) {
            Err(chain) => (None, TransactionStepModel::Fail(chain)),
            Ok(line) => (
                Some(line),
                if !self.wait {
                    TransactionStepModel::Finish(Output::TransactionId)
                } else if self.endpoint is Some {
                    TransactionStepModel::Wait
                } else {
                    TransactionStepModel::Fail(
                        seq![
                            "Cannot wait for confirmation of a transaction built from a static query"@,
                        ],
                    )
                },
            ),
        }
    }

    /// Returns what is done first. A fee transaction is neither stored nor broadcast.
    pub fn begin(&self) -> (step: TransactionStep)
        ensures
            step@ == self.first(),
    {
        match Developer::check_kind(self.kind) {
            Err(message) => TransactionStep::Fail(single(message)),
            Ok(()) => if self.store {
                TransactionStep::Store
            } else {
                self.after_store()
            },
        }
    }

    /// Returns what is done when the transaction was stored, or is not to be.
    pub fn after_store(&self) -> (step: TransactionStep)
        ensures
            step@ == self.stored(),
    {
        match &self.broadcast {
            Some(custom) => {
                let endpoint: Option<&Endpoint> = match &self.endpoint {
                    Some(endpoint) => Some(endpoint),
                    None => None,
                };
                let custom: Option<&Endpoint> = match custom {
                    Some(url) => Some(url),
                    None => None,
                };
                match Developer::broadcast_target(self.network, endpoint, custom) {
                    Ok((url, version)) => TransactionStep::Post(url, version),
                    Err(chain) => TransactionStep::Fail(chain),
                }
            },
            None => TransactionStep::Finish(
                if self.dry_run {
                    Output::Transaction
                } else {
                    Output::Nothing
                },
            ),
        }
    }

    /// Returns the line to show, if there is one, and what is done, when the transaction was posted
    /// to a URL with a reply.
    pub fn after_post(&self, url: &str, reply: Result<Option<String>, Vec<String>>) -> (next: (
        Option<String>,
        TransactionStep,
    ))
        requires
            !(self.kind is Fee),
        ensures
            (match next.0 {
                Some(line) => Some(line@),
                None => None,
            }, next.1@) == self.posted(url@, reply_content(reply)),
    {
        let result = Developer::broadcast_result(
            self.kind,
            self.transaction_id.as_str(),
            self.operation.as_str(),
            url,
            reply,
        );
        match result {
            Err(chain) => (None, TransactionStep::Fail(chain)),
            Ok(line) => {
                if !self.wait {
                    return (Some(line), TransactionStep::Finish(Output::TransactionId));
                }
                let endpoint: Option<&Endpoint> = match &self.endpoint {
                    Some(endpoint) => Some(endpoint),
                    None => None,
                };
                match Developer::wait_endpoint(endpoint) {
                    Ok(_) => (Some(line), TransactionStep::Wait),
                    Err(message) => (Some(line), TransactionStep::Fail(single(message))),
                }
            },
        }
    }

    /// Returns the line to show, and what is done, when the transaction is confirmed.
    pub fn after_confirmation(&self) -> (next: (String, TransactionStep))
        requires
            !(self.kind is Fee),
        ensures
            next.0@ == (if self.kind is Deploy {
                "✅ Deployment "@
            } else {
                "✅ Execution "@
            }) + self.transaction_id@ + " ('"@ + self.operation@ + "') confirmed!"@,
            next.1@ == TransactionStepModel::Finish(Output::TransactionId),
    {
        let line = Developer::confirmed_line(
            self.kind,
            self.transaction_id.as_str(),
            self.operation.as_str(),
        );
        (line, TransactionStep::Finish(Output::TransactionId))
    }
}

/// Nothing is done with a fee transaction.
pub proof fn a_fee_transaction_is_refused(transaction: BuiltTransaction)
    requires
        transaction.kind is Fee,
    ensures
        transaction.first() is Fail,
{
}

/// A transaction that is not to be broadcast is never posted.
pub proof fn only_a_broadcast_posts(transaction: BuiltTransaction)
    requires
        transaction.broadcast is None,
    ensures
        !(transaction.first() is Post),
        transaction.stored() == TransactionStepModel::Finish(
            if transaction.dry_run {
                Output::Transaction
            } else {
                Output::Nothing
            },
        ),
{
}

/// A transaction built from a static query is broadcast only to a URL that is given for it.
pub proof fn a_static_query_needs_a_broadcast_url(transaction: BuiltTransaction)
    requires
        transaction.endpoint is None,
        transaction.broadcast is Some,
    ensures
        (transaction.stored() is Post) == (transaction.custom() is Some),
        transaction.custom() is None ==> transaction.stored() is Fail,
{
}

/// A transaction is waited for, or its ID output, only if the reply was that ID.
pub proof fn only_an_accepted_transaction_goes_on(
    transaction: BuiltTransaction,
    url: Seq<char>,
    reply: Result<Option<Seq<char>>, Seq<Seq<char>>>,
)
    ensures
        !(transaction.posted(url, reply).1 is Fail) ==> reply == Ok::<
            Option<Seq<char>>,
            Seq<Seq<char>>,
        >(Some(transaction.transaction_id@)),
{
}

/// A text that ends with another still does when the same is appended to both, and not otherwise.
proof fn lemma_suffix_cancels(text: Seq<char>, suffix: Seq<char>, tail: Seq<char>)
    ensures
        (suffix + tail).is_suffix_of(text + tail) == suffix.is_suffix_of(text),
{
    let long = text + tail;
    if suffix.len() <= text.len() {
        let cut = long.subrange(long.len() - (suffix + tail).len(), long.len() as int);
        let short_cut = text.subrange(text.len() - suffix.len(), text.len() as int);
        assert(cut =~= short_cut + tail);
        if suffix.is_suffix_of(text) {
            assert(cut =~= suffix + tail);
        }
        if (suffix + tail).is_suffix_of(long) {
            assert(cut =~= suffix + tail);
            assert(short_cut =~= cut.take(suffix.len() as int));
            assert(suffix =~= (suffix + tail).take(suffix.len() as int));
        }
    }
}

/// The URL that is built to broadcast to is recognized as of the same version of the API when it is
/// given as a custom endpoint.
pub proof fn a_built_endpoint_is_recognized(path: Seq<char>, network: NetworkName)
    requires
        path.len() > 0 ==> path.last() != '/',
    ensures
        custom_version(
            path + ("/"@ + network.short_name() + "/transaction/broadcast"@),
            network,
        ) == version_under(path),
{
    let tail = "/"@ + network.short_name() + "/transaction/broadcast"@;
    lemma_suffix_cancels(path, API_VERSION_V2@, tail);
    assert(API_VERSION_V2@ + "/"@ + network.short_name() + "/transaction/broadcast"@
        =~= API_VERSION_V2@ + tail);
    assert(trimmed_end(path, '/') =~= path);
    reveal_strlit("v1");
    reveal_strlit("v2");
    if API_VERSION_V1@.is_suffix_of(path) && API_VERSION_V2@.is_suffix_of(path) {
        assert(path.subrange(path.len() - 2, path.len() as int)[1] == '1');
        assert(path.subrange(path.len() - 2, path.len() as int)[1] == '2');
    }
}

/// A URL has exactly one slash before the network, whether its path ends with one or not: the URL of
/// a route is the same for a base with a trailing slash and one without.
pub proof fn a_trailing_slash_makes_no_difference(
    base: EndpointModel,
    network: NetworkName,
    route: Seq<char>,
)
    requires
        !seq!['/'].is_suffix_of(base.path),
    ensures
        route_url(base, network, route) == route_url(
            (EndpointModel { url: base.url + "/"@, path: base.path + "/"@ }),
            network,
            route,
        ),
{
    reveal_strlit("/");
    reveal_strlit("");
    let slashed = base.path + "/"@;
    assert(slashed.subrange(slashed.len() - 1, slashed.len() as int) =~= seq!['/']);
    assert(seq!['/'].is_suffix_of(slashed));
    assert(base.url + "/"@ + ""@ =~= base.url + "/"@);
}

/// A text ends with what is appended to it.
proof fn lemma_ends_with(front: Seq<char>, end: Seq<char>)
    ensures
        end.is_suffix_of(front + end),
        front.is_prefix_of(front + end),
{
    let text = front + end;
    assert(text.subrange(text.len() - end.len(), text.len() as int) =~= end);
    assert(text.subrange(0, front.len() as int) =~= front);
}

/// The URL of a route starts with the base URL, and ends with a slash, the name of the very network
/// that it is built for, a slash, and the route.
pub proof fn the_url_of_a_route_ends_with_its_network_and_the_route(
    base: EndpointModel,
    network: NetworkName,
    route: Seq<char>,
)
    requires
        base.path.len() > 0 && base.path.last() == '/' ==> base.url.len() > 0 && base.url.last()
            == '/',
    ensures
        base.url.is_prefix_of(route_url(base, network, route)),
        (seq!['/'] + network.short_name() + seq!['/'] + route).is_suffix_of(
            route_url(base, network, route),
        ),
        route_url(base, network, route).len() <= base.url.len() + network.short_name().len()
            + route.len() + 2,
{
    reveal_strlit("/");
    reveal_strlit("");
    assert("/"@ =~= seq!['/']);
    assert(""@ =~= Seq::<char>::empty());
    let end = seq!['/'] + network.short_name() + seq!['/'] + route;
    let url = route_url(base, network, route);
    if base.path.len() > 0 && base.path.last() == '/' {
        assert(base.path.subrange(base.path.len() - 1, base.path.len() as int) =~= seq!['/']);
        let front = base.url.drop_last();
        assert(url =~= front + end);
        lemma_ends_with(front, end);
    } else {
        if seq!['/'].is_suffix_of(base.path) {
            assert(base.path.subrange(base.path.len() - 1, base.path.len() as int)[0] == '/');
        }
        assert(url =~= base.url + end);
        lemma_ends_with(base.url, end);
    }
    assert(url.subrange(0, base.url.len() as int) =~= base.url);
}

/// The URLs of different networks for one base and one route are different, and so are those of
/// different routes for one base and one network.
pub proof fn different_networks_and_routes_have_different_urls(
    base: EndpointModel,
    network: NetworkName,
    other_network: NetworkName,
    route: Seq<char>,
    other_route: Seq<char>,
)
    ensures
        network != other_network ==> route_url(base, network, route) != route_url(
            base,
            other_network,
            route,
        ),
        network != other_network ==> route_url(base, network, route) != route_url(
            base,
            other_network,
            other_route,
        ),
        route != other_route ==> route_url(base, network, route) != route_url(
            base,
            network,
            other_route,
        ),
        (network.short_name() + "/"@ + route).is_suffix_of(route_url(base, network, route)),
{
    let front = base.url + (if seq!['/'].is_suffix_of(base.path) {
        ""@
    } else {
        "/"@
    });
    let url = route_url(base, network, route);
    assert(url =~= front + (network.short_name() + "/"@ + route));
    lemma_ends_with(front, network.short_name() + "/"@ + route);
    each_network_has_its_own_name(network, other_network, 0);
    reveal_strlit("mainnet");
    reveal_strlit("testnet");
    reveal_strlit("canary");
    assert(url[front.len() as int] == network.short_name()[0]);
    assert(route_url(base, other_network, route)[front.len() as int]
        == other_network.short_name()[0]);
    assert(route_url(base, other_network, other_route)[front.len() as int]
        == other_network.short_name()[0]);
    if url == route_url(base, network, other_route) {
        lemma_prefix_cancels(front + network.short_name() + "/"@, route, other_route);
    }
}

/// The version of the API is told by the end of the path, whatever stands before it and however many
/// slashes behind it; it is the second only if the path says so.
pub proof fn the_version_is_told_by_the_end_of_the_path(path: Seq<char>)
    ensures
        version_under(path + "v1"@) == ApiVersion::V1,
        version_under(path + "v2"@) == ApiVersion::V2,
        version_under(path + seq!['/']) == version_under(path),
        path.len() > 0 && path.last() != '/' ==> (version_under(path) == ApiVersion::V2
            <==> path.len() >= 2 && path.skip(path.len() - 2) == "v2"@),
        path.len() == 0 ==> version_under(path) == ApiVersion::V1,
{
    reveal_strlit("v1");
    reveal_strlit("v2");
    let first = path + "v1"@;
    let second = path + "v2"@;
    assert(trimmed_end(first, '/') =~= first);
    assert(trimmed_end(second, '/') =~= second);
    lemma_ends_with(path, "v1"@);
    lemma_ends_with(path, "v2"@);
    if "v1"@.is_suffix_of(second) {
        assert(second.subrange(second.len() - 2, second.len() as int)[1] == '2');
        assert("v1"@[1] == '1');
    }
    assert((path + seq!['/']).drop_last() =~= path);
    if path.len() > 0 && path.last() != '/' {
        assert(trimmed_end(path, '/') == path);
        if path.len() >= 2 {
            assert(path.skip(path.len() - 2) =~= path.subrange(
                path.len() - 2,
                path.len() as int,
            ));
            if "v1"@.is_suffix_of(path) && "v2"@.is_suffix_of(path) {
                assert(path.subrange(path.len() - 2, path.len() as int)[1] == '1');
                assert(path.subrange(path.len() - 2, path.len() as int)[1] == '2');
            }
        }
    }
}

/// A text that ends with a slash and the name of a network ends with that of no other.
proof fn lemma_ends_with_one_network(front: Seq<char>, network: NetworkName, other: NetworkName)
    requires
        ("v2/"@ + other.short_name()).is_suffix_of(front + ("v2/"@ + network.short_name())),
    ensures
        network == other,
{
    reveal_strlit("v2/");
    reveal_strlit("mainnet");
    reveal_strlit("testnet");
    reveal_strlit("canary");
    let end = "v2/"@ + other.short_name();
    let text = front + ("v2/"@ + network.short_name());
    let cut = text.subrange(text.len() - end.len(), text.len() as int);
    assert(cut == end);
    assert(cut[cut.len() - 1] == text[text.len() - 1]);
    assert(cut[cut.len() - 4] == text[text.len() - 4]);
    assert(end[end.len() - 1] == other.short_name().last());
    assert(end[end.len() - 4] == other.short_name()[other.short_name().len() - 4]);
    assert(text[text.len() - 1] == network.short_name().last());
    assert(text[text.len() - 4] == network.short_name()[network.short_name().len() - 4]);
}

/// A URL to broadcast to is of the second version exactly if its path ends with that version and the
/// broadcast route of the transaction's own network.
pub proof fn a_custom_url_is_of_the_second_version_for_its_own_network(
    front: Seq<char>,
    path: Seq<char>,
    network: NetworkName,
    other: NetworkName,
)
    ensures
        custom_version(
            front + ("v2/"@ + network.short_name() + "/transaction/broadcast"@),
            other,
        ) == ApiVersion::V2 <==> network == other,
        custom_version(path, network) == ApiVersion::V2 ==> {
            let end = "v2/"@ + network.short_name() + "/transaction/broadcast"@;
            path.len() >= end.len() && path.skip(path.len() - end.len()) == end
        },
{
    let tail = "/transaction/broadcast"@;
    let end = "v2/"@ + network.short_name() + tail;
    let other_end = "v2/"@ + other.short_name() + tail;
    assert("v2/"@ =~= API_VERSION_V2@ + "/"@) by {
        reveal_strlit("v2");
        reveal_strlit("v2/");
        reveal_strlit("/");
    }
    assert(end =~= API_VERSION_V2@ + "/"@ + network.short_name() + tail);
    assert(other_end =~= API_VERSION_V2@ + "/"@ + other.short_name() + tail);
    lemma_ends_with(front, end);
    let short = front + ("v2/"@ + network.short_name());
    assert(front + end =~= short + tail);
    lemma_suffix_cancels(short, "v2/"@ + other.short_name(), tail);
    if other_end.is_suffix_of(front + end) {
        lemma_ends_with_one_network(front, network, other);
    }
    if custom_version(path, network) == ApiVersion::V2 {
        assert(path.skip(path.len() - end.len()) =~= path.subrange(
            path.len() - end.len(),
            path.len() as int,
        ));
    }
}

/// An endpoint is what was read from a text with a scheme as it stands; a text without one is read
/// with the scheme of plain HTTP before it; and what cannot be read is no endpoint.
pub proof fn an_endpoint_without_a_scheme_is_of_plain_http(
    text: Seq<char>,
    url: Seq<char>,
    path: Seq<char>,
)
    ensures
        uri(text) == Ok::<(Seq<char>, Seq<char>, bool), Seq<char>>((url, path, true)) ==> endpoint_of(
            text,
        ) == Ok::<EndpointModel, Seq<Seq<char>>>((EndpointModel { url, path })),
        uri(text) is Ok && !uri(text)->Ok_0.2 ==> (endpoint_of(text) is Ok <==> uri(
            "http://"@ + text,
        ) is Ok),
        uri(text) is Ok && !uri(text)->Ok_0.2 && uri("http://"@ + text) is Ok ==> endpoint_of(
            text,
        )->Ok_0.url == uri("http://"@ + text)->Ok_0.0 && endpoint_of(text)->Ok_0.path == uri(
            "http://"@ + text,
        )->Ok_0.1,
        uri(text) is Err ==> endpoint_of(text) is Err && endpoint_of(text)->Err_0.last() == uri(
            text,
        )->Err_0,
        endpoint_of(text) is Err && uri(text) is Ok ==> endpoint_of(text)->Err_0.last() == uri(
            "http://"@ + text,
        )->Err_0,
{
}

/// A query has an endpoint exactly if it does not start with a brace, white space aside; the query is
/// what the text says in the one case, and what the endpoint's URL says in the other.
pub proof fn a_query_is_static_or_has_an_endpoint(input: Seq<char>)
    ensures
        ({
            let text = trimmed(input);
            let braced = text.len() > 0 && text[0] == '{';
            &&& parsed_query(input) matches Ok((_, endpoint)) ==> (endpoint is None <==> braced)
            &&& braced ==> (parsed_query(input) is Ok <==> ledger_query(text) is Ok)
            &&& braced && parsed_query(input) is Ok ==> parsed_query(input)->Ok_0.0 == ledger_query(
                text,
            )->Ok_0
            &&& !braced && parsed_query(input) is Ok ==> {
                let endpoint = parsed_query(input)->Ok_0.1->0;
                &&& endpoint_of(text) == Ok::<EndpointModel, Seq<Seq<char>>>(endpoint)
                &&& ledger_query(endpoint.url) == Ok::<
                    Option<(u32, Seq<char>)>,
                    Seq<Seq<char>>,
                >(parsed_query(input)->Ok_0.0)
            }
            &&& !braced && parsed_query(input) is Err ==> endpoint_of(text) is Err || ledger_query(
                endpoint_of(text)->Ok_0.url,
            ) is Err
            &&& braced && parsed_query(input) is Err ==> parsed_query(input)->Err_0 == ledger_query(
                text,
            )->Err_0
            &&& !braced && endpoint_of(text) is Err ==> parsed_query(input)->Err_0 == endpoint_of(
                text,
            )->Err_0
        }),
{
}

/// The messages of an error that was sent over the network are its type and message, and behind them
/// its chain turned around: the outermost first.
pub proof fn a_sent_chain_is_turned_around(error: RestError)
    ensures
        error.messages().len() == error.chain.len() + 1,
        error.messages()[0] == error.error_type@ + ": "@ + error.message@,
        forall|i: int|
            0 <= i < error.chain.len() ==> error.messages()[error.chain.len() - i]
                == #[trigger] error.chain[i]@,
{
    let chain = texts(error.chain@);
    assert forall|i: int| 0 <= i < error.chain.len() implies error.messages()[error.chain.len() - i]
        == #[trigger] error.chain[i]@ by {
        assert(chain.reverse()[error.chain.len() - i - 1] == chain[i]);
    }
}

/// A success gives what was asked for and a 404 that it does not exist, whatever the type of the
/// content; every other status is an error, which is a serialized one exactly if the type of the
/// content says so.
pub proof fn a_status_tells_what_a_response_is(status: u16, content_type: Option<Seq<char>>)
    ensures
        kind_of(status, content_type) is Body <==> 200 <= status <= 299,
        kind_of(status, content_type) is NotFound <==> status == 404,
        kind_of(status, content_type) is JsonError <==> {
            &&& !(200 <= status <= 299)
            &&& status != 404
            &&& content_type is Some
            &&& occurs(content_type->0, "json"@)
        },
{
}

/// The context of a request that failed names how it was made and the endpoint.
pub proof fn a_failed_request_is_named(endpoint: Seq<char>, other: Seq<char>)
    ensures
        occurs(request_failed(RequestMethod::Get, endpoint), " GET request to "@ + endpoint),
        occurs(request_failed(RequestMethod::Post, endpoint), " POST request to "@ + endpoint),
        json_failed(endpoint, other).len() == 2,
        endpoint.is_suffix_of(json_failed(endpoint, other)[0]),
        other.is_suffix_of(json_failed(endpoint, other)[1]),
{
    reveal_strlit("HTTP");
    reveal_strlit(" GET request to ");
    reveal_strlit(" POST request to ");
    reveal_strlit("HTTP GET request to ");
    reveal_strlit("HTTP POST request to ");
    assert(request_failed(RequestMethod::Get, endpoint) =~= "HTTP"@ + (" GET request to "@
        + endpoint) + " failed"@);
    assert(request_failed(RequestMethod::Post, endpoint) =~= "HTTP"@ + (" POST request to "@
        + endpoint) + " failed"@);
    a_text_occurs_where_it_stands("HTTP"@, " GET request to "@ + endpoint, " failed"@);
    a_text_occurs_where_it_stands("HTTP"@, " POST request to "@ + endpoint, " failed"@);
    lemma_ends_with("Failed to parse JSON response from "@, endpoint);
    lemma_ends_with("json: "@, other);
}

/// A broadcast succeeds exactly if the reply is the transaction's ID. One that fails keeps the errors
/// that it failed with, behind a context that names what was broadcast and where to; one that is
/// answered with another ID names both.
pub proof fn a_broadcast_succeeds_exactly_if_its_id_is_replied(
    kind: TransactionKind,
    transaction_id: Seq<char>,
    operation: Seq<char>,
    endpoint: Seq<char>,
    reply: Result<Option<Seq<char>>, Seq<Seq<char>>>,
)
    ensures
        ({
            let outcome = broadcast_outcome(kind, transaction_id, operation, endpoint, reply);
            &&& outcome is Ok <==> reply == Ok::<Option<Seq<char>>, Seq<Seq<char>>>(
                Some(transaction_id),
            )
            &&& outcome is Ok ==> (transaction_id + " ('"@ + operation
                + "') has been broadcast to "@ + endpoint + "."@).is_suffix_of(outcome->Ok_0)
            &&& reply matches Err(chain) ==> outcome->Err_0.len() == chain.len() + 1
                && outcome->Err_0.skip(1) == chain
            &&& reply is Err || reply->Ok_0 is None ==> (operation + "' to "@
                + endpoint).is_suffix_of(outcome->Err_0[0])
            &&& reply is Ok && reply->Ok_0 is Some && reply->Ok_0->0 != transaction_id ==> (
            reply->Ok_0->0 + " != "@ + transaction_id + ")"@).is_suffix_of(outcome->Err_0[0])
        }),
{
    let outcome = broadcast_outcome(kind, transaction_id, operation, endpoint, reply);
    let line = transaction_id + " ('"@ + operation + "') has been broadcast to "@ + endpoint + "."@;
    let place = operation + "' to "@ + endpoint;
    match reply {
        Ok(Some(response)) => {
            if response == transaction_id {
                let front = if kind is Deploy {
                    "⌛ Deployment "@
                } else {
                    "⌛ Execution "@
                };
                assert(outcome->Ok_0 =~= front + line);
                lemma_ends_with(front, line);
            } else {
                let front = "The response does not match the transaction id. ("@;
                let both = response + " != "@ + transaction_id + ")"@;
                assert(outcome->Err_0[0] =~= front + both);
                lemma_ends_with(front, both);
            }
        },
        _ => {
            let front = if kind is Deploy {
                "Failed to deploy '"@
            } else {
                "Failed to broadcast execution '"@
            };
            assert(broadcast_failed(kind, operation, endpoint) =~= front + place);
            lemma_ends_with(front, place);
            if let Err(chain) = reply {
                assert(outcome->Err_0.skip(1) =~= chain);
            }
        },
    }
}

/// A balance is the amount that was read, or none if the account has none; everything else that can
/// be read, and a missing entry, is an error.
pub proof fn a_balance_is_the_amount_that_was_read(
    address: Seq<char>,
    endpoint: Seq<char>,
    document: Seq<u8>,
    amount: u64,
)
    ensures
        balance_of(address, endpoint, None) is Err,
        balance_of(address, endpoint, Some(document)) == Ok::<Option<u64>, Seq<Seq<char>>>(
            Some(amount),
        ) <==> json_amount(document) == Ok::<Option<Option<u64>>, Seq<char>>(Some(Some(amount))),
        balance_of(address, endpoint, Some(document)) == Ok::<Option<u64>, Seq<Seq<char>>>(None)
            <==> json_amount(document) == Ok::<Option<Option<u64>>, Seq<char>>(None),
        json_amount(document) matches Err(error) ==> balance_of(
            address,
            endpoint,
            Some(document),
        ) == Err::<Option<u64>, Seq<Seq<char>>>(json_failed(endpoint, error)),
        json_amount(document) == Ok::<Option<Option<u64>>, Seq<char>>(Some(None))
            ==> address.is_suffix_of(balance_of(address, endpoint, Some(document))->Err_0[0]),
{
    lemma_ends_with("Failed to deserialize balance for "@, address);
}

/// A transaction is broadcast to the URL that is given for it, as it stands and whatever the endpoint;
/// to the broadcast route of its network under the endpoint, if none is given; and nowhere without
/// either.
pub proof fn a_broadcast_url_comes_before_the_endpoint(
    network: NetworkName,
    endpoint: EndpointModel,
    custom: EndpointModel,
    other: Option<EndpointModel>,
)
    ensures
        target_of(network, other, Some(custom)) is Ok,
        target_of(network, other, Some(custom))->Ok_0.0 == custom.url,
        target_of(network, other, Some(custom))->Ok_0.1 == custom_version(custom.path, network),
        target_of(network, Some(endpoint), None) is Ok,
        endpoint.url.is_prefix_of(target_of(network, Some(endpoint), None)->Ok_0.0),
        (network.short_name() + "/transaction/broadcast"@).is_suffix_of(
            target_of(network, Some(endpoint), None)->Ok_0.0,
        ),
        target_of(network, Some(endpoint), None)->Ok_0.1 == version_under(endpoint.path),
        target_of(network, None, None) is Err,
{
    reveal_strlit("/");
    reveal_strlit("transaction/broadcast");
    reveal_strlit("/transaction/broadcast");
    let front = endpoint.url + (if seq!['/'].is_suffix_of(endpoint.path) {
        ""@
    } else {
        "/"@
    });
    let end = network.short_name() + "/transaction/broadcast"@;
    let url = target_of(network, Some(endpoint), None)->Ok_0.0;
    assert(url =~= front + end);
    lemma_ends_with(front, end);
    assert(url.subrange(0, endpoint.url.len() as int) =~= endpoint.url);
}

/// What is done with a transaction, in order: one that is to be stored is stored before anything
/// else; one that is to be broadcast is posted where it is broadcast to, once it is stored or if it is
/// not to be.
pub proof fn a_transaction_is_stored_before_it_is_posted(transaction: BuiltTransaction)
    ensures
        transaction.first() is Store <==> transaction.store && !(transaction.kind is Fee),
        !transaction.store && !(transaction.kind is Fee) ==> transaction.first()
            == transaction.stored(),
        !(transaction.stored() is Store) && !(transaction.stored() is Wait),
        transaction.stored() is Finish <==> transaction.broadcast is None,
        transaction.stored() matches TransactionStepModel::Post(url, version) ==> target_of(
            transaction.network,
            transaction.base(),
            transaction.custom(),
        ) == Ok::<(Seq<char>, ApiVersion), Seq<Seq<char>>>((url, version)),
        transaction.stored() matches TransactionStepModel::Fail(chain) ==> target_of(
            transaction.network,
            transaction.base(),
            transaction.custom(),
        ) == Err::<(Seq<char>, ApiVersion), Seq<Seq<char>>>(chain),
{
}

/// A transaction whose ID was replied has a line to show; it is waited for exactly if that is asked
/// for and there is an endpoint to ask, and its ID is output exactly if that is not asked for.
pub proof fn an_accepted_transaction_is_waited_for_if_asked(
    transaction: BuiltTransaction,
    url: Seq<char>,
    reply: Result<Option<Seq<char>>, Seq<Seq<char>>>,
)
    ensures
        ({
            let accepted = reply == Ok::<Option<Seq<char>>, Seq<Seq<char>>>(
                Some(transaction.transaction_id@),
            );
            let (line, step) = transaction.posted(url, reply);
            &&& line is Some <==> accepted
            &&& step is Wait <==> accepted && transaction.wait && transaction.endpoint is Some
            &&& step is Finish <==> accepted && !transaction.wait
            &&& step matches TransactionStepModel::Finish(output) ==> output is TransactionId
            &&& !accepted ==> step == TransactionStepModel::Fail(
                broadcast_outcome(
                    transaction.kind,
                    transaction.transaction_id@,
                    transaction.operation@,
                    url,
                    reply,
                )->Err_0,
            )
            &&& line matches Some(text) ==> text == broadcast_outcome(
                transaction.kind,
                transaction.transaction_id@,
                transaction.operation@,
                url,
                reply,
            )->Ok_0
        }),
{
}

/// The contents of what a command reads and gives tell apart what differs in it.
pub proof fn contents_are_those_of_what_is_read(
    endpoint: Endpoint,
    parsed: ParsedQuery,
    text: String,
    path: String,
    has_scheme: bool,
    chain: Vec<String>,
    balance: Option<u64>,
    transaction: BuiltTransaction,
)
    ensures
        uri_content(Ok((text, path, has_scheme))) == Ok::<(Seq<char>, Seq<char>, bool), Seq<char>>(
            (text@, path@, has_scheme),
        ),
        uri_content(Err(text)) == Err::<(Seq<char>, Seq<char>, bool), Seq<char>>(text@),
        endpoint_content(Ok(endpoint)) is Ok,
        endpoint_content(Ok(endpoint))->Ok_0.url == endpoint.url@,
        endpoint_content(Ok(endpoint))->Ok_0.path == endpoint.path@,
        endpoint_content(Err(chain)) == Err::<EndpointModel, Seq<Seq<char>>>(texts(chain@)),
        query_content(Err(chain)) == Err::<
            (Option<(u32, Seq<char>)>, Option<EndpointModel>),
            Seq<Seq<char>>,
        >(texts(chain@)),
        query_content(Ok(parsed)) is Ok,
        query_content(Ok(parsed))->Ok_0.0 is Some <==> parsed.static_query is Some,
        parsed.static_query matches Some(query) ==> query_content(Ok(parsed))->Ok_0.0->0 == (
            query.height,
            query.state_root@,
        ),
        query_content(Ok(parsed))->Ok_0.1 is Some <==> parsed.endpoint is Some,
        parsed.endpoint matches Some(found) ==> query_content(Ok(parsed))->Ok_0.1->0 == found@,
        reply_content(Ok(Some(text))) == Ok::<Option<Seq<char>>, Seq<Seq<char>>>(Some(text@)),
        reply_content(Ok(None)) == Ok::<Option<Seq<char>>, Seq<Seq<char>>>(None),
        reply_content(Err(chain)) == Err::<Option<Seq<char>>, Seq<Seq<char>>>(texts(chain@)),
        message_content(Ok(text)) == Ok::<Seq<char>, Seq<Seq<char>>>(text@),
        message_content(Err(chain)) == Err::<Seq<char>, Seq<Seq<char>>>(texts(chain@)),
        balance_content(Ok(balance)) == Ok::<Option<u64>, Seq<Seq<char>>>(balance),
        balance_content(Err(chain)) == Err::<Option<u64>, Seq<Seq<char>>>(texts(chain@)),
        optional_endpoint(None) is None,
        optional_endpoint(Some(&endpoint)) == Some(endpoint@),
        transaction.base() is Some <==> transaction.endpoint is Some,
        transaction.endpoint matches Some(base) ==> transaction.base()->0 == base@,
        transaction.broadcast matches Some(Some(custom)) ==> transaction.custom() == Some(custom@),
        !(transaction.broadcast matches Some(Some(_))) ==> transaction.custom() is None,
{
}

/// The content of a step tells what is done, and with what.
pub proof fn the_content_of_a_step_is_what_is_done(step: TransactionStep)
    ensures
        step@ is Store <==> step is Store,
        step@ is Wait <==> step is Wait,
        step matches TransactionStep::Fail(chain) ==> step@ == TransactionStepModel::Fail(
            texts(chain@),
        ),
        step matches TransactionStep::Post(url, version) ==> step@ == TransactionStepModel::Post(
            url@,
            version,
        ),
        step matches TransactionStep::Finish(output) ==> step@ == TransactionStepModel::Finish(
            output,
        ),
{
}

/// A deployment and an execution are told apart in what is shown of their broadcast, whether it
/// succeeds or fails.
pub proof fn a_deployment_is_shown_as_one(
    kind: TransactionKind,
    transaction_id: Seq<char>,
    operation: Seq<char>,
    endpoint: Seq<char>,
    chain: Seq<Seq<char>>,
)
    ensures
        ({
            let shown_line = broadcast_outcome(
                kind,
                transaction_id,
                operation,
                endpoint,
                Ok(Some(transaction_id)),
            )->Ok_0;
            let failure = broadcast_outcome(
                kind,
                transaction_id,
                operation,
                endpoint,
                Err(chain),
            )->Err_0[0];
            &&& "⌛ Deployment "@.is_prefix_of(shown_line) <==> kind is Deploy
            &&& "⌛ Execution "@.is_prefix_of(shown_line) <==> !(kind is Deploy)
            &&& "Failed to deploy '"@.is_prefix_of(failure) <==> kind is Deploy
            &&& "Failed to broadcast execution '"@.is_prefix_of(failure) <==> !(kind is Deploy)
        }),
{
    reveal_strlit("⌛ Deployment ");
    reveal_strlit("⌛ Execution ");
    reveal_strlit("Failed to deploy '");
    reveal_strlit("Failed to broadcast execution '");
    let line = broadcast_outcome(
        kind,
        transaction_id,
        operation,
        endpoint,
        Ok(Some(transaction_id)),
    )->Ok_0;
    let failure = broadcast_failed(kind, operation, endpoint);
    let deployment = "⌛ Deployment "@;
    let execution = "⌛ Execution "@;
    let deploy = "Failed to deploy '"@;
    let broadcast = "Failed to broadcast execution '"@;
    if kind is Deploy {
        assert(line.subrange(0, deployment.len() as int) =~= deployment);
        assert(failure.subrange(0, deploy.len() as int) =~= deploy);
        assert(line.subrange(0, execution.len() as int)[2] != execution[2]);
        if broadcast.is_prefix_of(failure) {
            assert(failure.subrange(0, broadcast.len() as int)[10] != broadcast[10]);
        }
    } else {
        assert(line.subrange(0, execution.len() as int) =~= execution);
        assert(failure.subrange(0, broadcast.len() as int) =~= broadcast);
        if deployment.is_prefix_of(line) {
            assert(line.subrange(0, deployment.len() as int)[2] != deployment[2]);
        }
        assert(failure.subrange(0, deploy.len() as int)[10] != deploy[10]);
    }
}

} // verus!
