//! The errors that the REST API answers with.
use crate::text::texts;
use vstd::prelude::*;

verus! {

/// The status of a request that was served.
pub const OK: u16 = 200;

/// The status of a request that was served from what may be outdated.
pub const NON_AUTHORITATIVE_INFORMATION: u16 = 203;

/// The status of a request that cannot be served as it stands.
pub const BAD_REQUEST: u16 = 400;

/// The status of a request for something that does not exist.
pub const NOT_FOUND: u16 = 404;

/// The status of a request whose content is not valid.
pub const UNPROCESSABLE_ENTITY: u16 = 422;

/// The status of a request beyond what the node admits.
pub const TOO_MANY_REQUESTS: u16 = 429;

/// The status of a request that failed inside the node.
pub const INTERNAL_SERVER_ERROR: u16 = 500;

/// The status of a request that the node cannot serve at present.
pub const SERVICE_UNAVAILABLE: u16 = 503;

/// A status with a chain of messages, the outermost first.
#[verifier::ext_equal]
pub struct RestErrorModel {
    pub status: u16,
    pub chain: Seq<Seq<char>>,
}

/// An error that is answered to a request: an HTTP status and a chain of messages, of which each is
/// the context of the one behind it.
#[derive(Clone, Debug)]
pub struct RestError {
    pub status: u16,
    pub chain: Vec<String>,
}

impl View for RestError {
    type V = RestErrorModel;

    open spec fn view(&self) -> RestErrorModel {
        RestErrorModel { status: self.status, chain: texts(self.chain@) }
    }
}

/// The error with one message.
pub open spec fn error_with(status: u16, message: Seq<char>) -> RestErrorModel {
    RestErrorModel { status, chain: seq![message] }
}

/// The error with a message before the chain that led to it.
pub open spec fn error_in_context(
    status: u16,
    context: Seq<char>,
    chain: Seq<Seq<char>>,
) -> RestErrorModel {
    RestErrorModel { status, chain: seq![context] + chain }
}

/// The message that an error shows: the outermost of its chain.
pub open spec fn shown(chain: Seq<Seq<char>>) -> Seq<char> {
    if chain.len() > 0 {
        chain[0]
    } else {
        Seq::empty()
    }
}

/// Returns the chain that holds one message.
pub fn single(message: String) -> (chain: Vec<String>)
    ensures
        texts(chain@) == seq![message@],
{
    let mut chain: Vec<String> = Vec::new();
    chain.push(message);
    assert(texts(chain@) =~= seq![message@]);
    chain
}

/// Returns the chain with a message before it.
pub fn in_context(context: String, chain: Vec<String>) -> (extended: Vec<String>)
    ensures
        texts(extended@) == seq![context@] + texts(chain@),
{
    let mut extended: Vec<String> = Vec::new();
    let mut rest = chain;
    extended.push(context);
    extended.append(&mut rest);
    assert(texts(extended@) =~= seq![context@] + texts(chain@));
    extended
}

/// Returns the message that an error with the given chain shows.
pub fn outermost(chain: &Vec<String>) -> (message: String)
    ensures
        message@ == shown(texts(chain@)),
{
    if chain.len() > 0 {
        assert(texts(chain@)[0] == chain@[0]@);
        chain[0].clone()
    } else {
        String::new()
    }
}

impl RestError {
    /// Initializes an error with one message.
    pub fn new(status: u16, message: String) -> (error: Self)
        ensures
            error@ == error_with(status, message@),
    {
        RestError { status, chain: single(message) }
    }

    /// Initializes an error whose message is the context of a chain.
    pub fn with_context(status: u16, context: String, chain: Vec<String>) -> (error: Self)
        ensures
            error@ == error_in_context(status, context@, texts(chain@)),
    {
        RestError { status, chain: in_context(context, chain) }
    }

    /// Returns the HTTP status of the error.
    pub fn status(&self) -> (status: u16)
        ensures
            status == self@.status,
    {
        self.status
    }

    /// Returns the outermost message of the error.
    pub fn to_string(&self) -> (message: String)
        ensures
            message@ == shown(self@.chain),
    {
        outermost(&self.chain)
    }
}

/// An error holds the status and the messages that it is made of, the context before the chain that
/// led to it, and shows the message that it was given last.
pub proof fn an_error_holds_its_status_and_its_messages(
    status: u16,
    message: Seq<char>,
    chain: Seq<Seq<char>>,
)
    ensures
        ({
            let error = error_with(status, message);
            &&& error.status == status
            &&& error.chain.len() == 1
            &&& error.chain[0] == message
            &&& shown(error.chain) == message
        }),
        ({
            let error = error_in_context(status, message, chain);
            &&& error.status == status
            &&& error.chain.len() == chain.len() + 1
            &&& shown(error.chain) == message
            &&& error.chain.first() == message
            &&& forall|i: int| 0 <= i < chain.len() ==> error.chain[i + 1] == #[trigger] chain[i]
        }),
        shown(Seq::empty()) == Seq::<char>::empty(),
{
}

/// The statuses are those that HTTP gives these names.
pub proof fn the_statuses_are_those_of_http()
    ensures
        OK == 200,
        NON_AUTHORITATIVE_INFORMATION == 203,
        BAD_REQUEST == 400,
        NOT_FOUND == 404,
        UNPROCESSABLE_ENTITY == 422,
        TOO_MANY_REQUESTS == 429,
        INTERNAL_SERVER_ERROR == 500,
        SERVICE_UNAVAILABLE == 503,
{
}

/// The content of an error is its status, and the text of each message of its chain at its place.
pub proof fn the_content_of_an_error_is_its_status_and_chain(error: RestError)
    ensures
        error@.status == error.status,
        error@.chain.len() == error.chain.len(),
        forall|i: int| 0 <= i < error.chain.len() ==> #[trigger] error@.chain[i] == error.chain[i]@,
{
}

} // verus!
