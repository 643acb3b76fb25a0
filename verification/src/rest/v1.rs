//! The errors of the v1 API, and the formatting of IDs.
use crate::rest::error::INTERNAL_SERVER_ERROR;
use crate::text::{
    decimal, decimal_text, join_texts, joined, joining_lists_joins_what_they_give, lossy,
    lossy_text, texts, trim, trimmed,
};
use vstd::prelude::*;

verus! {

/// The status code used by all v1 errors.
pub const V1_STATUS_CODE: u16 = INTERNAL_SERVER_ERROR;

/// The serialized REST error sent over the network.
#[derive(Debug)]
pub struct SerializedRestError {
    /// The top-level error message.
    pub message: String,
    /// The chain of errors that led to the top-level error.
    pub chain: Vec<String>,
}

impl SerializedRestError {
    /// The error as one line: its message, and the messages behind it.
    pub open spec fn flattened(self) -> Seq<char> {
        joined(seq![self.message@] + texts(self.chain@), " — "@)
    }
}

/// Whether a status is that of a request that was served.
pub open spec fn is_success(status: u16) -> bool {
    200 <= status < 300
}

/// The text of a response that carries no serialized error, naming the status that is replaced.
pub open spec fn fallback(body: Option<Seq<u8>>, status: u16) -> Seq<char> {
    let text = match body {
        Some(bytes) => trimmed(lossy(bytes)),
        None => Seq::empty(),
    };
    if text.len() == 0 {
        "Failed to convert error (HTTP "@ + decimal(status as nat) + ")"@
    } else {
        text + " (HTTP "@ + decimal(status as nat) + ")"@
    }
}

/// The text that replaces a response on the v1 API, `None` for one that is passed on as it is.
pub open spec fn v1_text(
    status: u16,
    body: Option<Seq<u8>>,
    error: Option<SerializedRestError>,
) -> Option<Seq<char>> {
    if is_success(status) {
        None
    } else {
        match (body, error) {
            (Some(_), Some(error)) => Some(error.flattened()),
            _ => Some(fallback(body, status)),
        }
    }
}

/// Returns the text of a response that carries no serialized error. The status is carried in it:
/// without it a rate-limit rejection would be indistinguishable from a fault or from missing data.
fn fallback_text(body: &Option<Vec<u8>>, status: u16) -> (text: String)
    ensures
        text@ == fallback(
            match body {
                Some(bytes) => Some(bytes@),
                None => None,
            },
            status,
        ),
{
    // Not every non-success response carries a serialized error: the rate limiting layer emits a
    // plain string, and some layers emit nothing at all. Keep whatever text there is.
    let mut text = match body {
        Some(bytes) => trim(lossy_text(bytes.as_slice()).as_str()),
        None => String::new(),
    };
    if text.as_str().unicode_len() == 0 {
        text = "Failed to convert error (HTTP ".to_owned();
    } else {
        text.append(" (HTTP ");
    }
    text.append(decimal_text(status as u64).as_str());
    text.append(")");
    text
}

/// Converts errors to the old style for the v1 API.
/// The error code will always be 500 and the content a simple string.
///
/// The body is that of the response, if it could be read, and the error is what it holds, if it
/// holds a serialized error. Returns the content of the response that replaces it, whose status is
/// [`V1_STATUS_CODE`], or `None` if the response is passed on as it is.
pub fn v1_error_middleware(
    status: u16,
    body: &Option<Vec<u8>>,
    error: Option<SerializedRestError>,
) -> (replacement: Option<String>)
    ensures
        v1_text(
            status,
            match body {
                Some(bytes) => Some(bytes@),
                None => None,
            },
            error,
        ) == (match replacement {
            Some(text) => Some(text@),
            None => None,
        }),
{
    if 200 <= status && status < 300 {
        return None;
    }
    if body.is_none() {
        return Some(fallback_text(body, status));
    }
    match error {
        Some(error) => {
            let mut messages: Vec<String> = Vec::new();
            let mut chain = error.chain;
            messages.push(error.message);
            messages.append(&mut chain);
            assert(texts(messages@) =~= seq![error.message@] + texts(error.chain@));
            Some(join_texts(&messages, " — "))
        },
        None => Some(fallback_text(body, status)),
    }
}

/// The number of characters that a formatted ID shows.
pub const ID_LEN: usize = 16;

/// An ID that is cut short.
pub open spec fn formatted_id(id: Seq<char>) -> Seq<char> {
    if id.len() > ID_LEN {
        id.take(ID_LEN as int) + ".."@
    } else {
        id
    }
}

/// Formats an ID into a truncated identifier (for logging purposes).
pub fn fmt_id(id: &str) -> (formatted: String)
    ensures
        formatted@ == formatted_id(id@),
{
    if id.unicode_len() > ID_LEN {
        let mut formatted = id.substring_char(0, ID_LEN).to_owned();
        assert(formatted@ =~= id@.take(ID_LEN as int));
        formatted.append("..");
        formatted
    } else {
        id.to_owned()
    }
}

/// A successful response is passed on, and every other one is replaced.
pub proof fn exactly_the_errors_are_replaced(
    status: u16,
    body: Option<Seq<u8>>,
    error: Option<SerializedRestError>,
)
    ensures
        v1_text(status, body, error) is None <==> is_success(status),
{
}

/// The text of an error that is not serialized names the status that is replaced: it ends with it.
pub proof fn the_replaced_status_is_named(body: Option<Seq<u8>>, status: u16)
    requires
        !is_success(status),
    ensures
        exists|front: Seq<char>|
            v1_text(status, body, None) == Some(
                #[trigger] (front + " (HTTP "@ + decimal(status as nat) + ")"@),
            ),
{
    reveal_strlit("Failed to convert error (HTTP ");
    reveal_strlit("Failed to convert error");
    reveal_strlit(" (HTTP ");
    let text = match body {
        Some(bytes) => trimmed(lossy(bytes)),
        None => Seq::empty(),
    };
    let front = if text.len() == 0 {
        "Failed to convert error"@
    } else {
        text
    };
    assert("Failed to convert error (HTTP "@ =~= "Failed to convert error"@ + " (HTTP "@);
    assert(v1_text(status, body, None) == Some(
        front + " (HTTP "@ + decimal(status as nat) + ")"@,
    ));
}

/// A serialized error is one line: its message first, and behind it those of its chain, with the same
/// separator before each. Neither the status nor the body shows in it.
pub proof fn a_serialized_error_is_one_line(
    status: u16,
    body: Seq<u8>,
    error: SerializedRestError,
)
    requires
        !is_success(status),
    ensures
        ({
            let line = v1_text(status, Some(body), Some(error))->0;
            let chain = texts(error.chain@);
            &&& chain.len() == 0 ==> line == error.message@
            &&& chain.len() > 0 ==> line == error.message@ + " — "@ + joined(chain, " — "@)
        }),
{
    let chain = texts(error.chain@);
    joining_lists_joins_what_they_give(seq![error.message@], chain, error.message@, " — "@);
    if chain.len() == 0 {
        assert(seq![error.message@] + chain =~= seq![error.message@]);
    }
}

/// A response without a serialized error keeps what text there is, without the white space around it,
/// before the status. One whose body could not be read has none, and what is said to be in it does
/// not count.
pub proof fn a_plain_error_keeps_its_text(
    status: u16,
    body: Seq<u8>,
    error: Option<SerializedRestError>,
)
    requires
        !is_success(status),
    ensures
        v1_text(status, None, error) == v1_text(status, None, None),
        v1_text(status, None, None) == Some(
            "Failed to convert error"@ + " (HTTP "@ + decimal(status as nat) + ")"@,
        ),
        trimmed(lossy(body)).len() > 0 ==> {
            let text = trimmed(lossy(body));
            let line = v1_text(status, Some(body), None)->0;
            &&& text.is_prefix_of(line)
            &&& line.skip(text.len() as int) == " (HTTP "@ + decimal(status as nat) + ")"@
        },
        trimmed(lossy(body)).len() == 0 ==> v1_text(status, Some(body), None) == v1_text(
            status,
            None,
            None,
        ),
{
    reveal_strlit("Failed to convert error (HTTP ");
    reveal_strlit("Failed to convert error");
    reveal_strlit(" (HTTP ");
    assert("Failed to convert error (HTTP "@ =~= "Failed to convert error"@ + " (HTTP "@);
    let text = trimmed(lossy(body));
    if text.len() > 0 {
        let line = v1_text(status, Some(body), None)->0;
        assert(line.subrange(0, text.len() as int) =~= text);
        assert(line.skip(text.len() as int) =~= " (HTTP "@ + decimal(status as nat) + ")"@);
    }
}

/// The statuses of success are those of two hundred and up, and every error of the first version has
/// the status of a fault.
pub proof fn a_status_is_a_success_or_an_error(status: u16)
    ensures
        is_success(status) <==> 200 <= status <= 299,
        V1_STATUS_CODE == 500,
{
}

/// An ID of up to sixteen characters is shown whole, and a longer one by its first sixteen, with two
/// dots behind them.
pub proof fn a_long_id_is_cut_short(id: Seq<char>)
    ensures
        id.len() <= 16 ==> formatted_id(id) == id,
        id.len() > 16 ==> {
            &&& formatted_id(id).len() == 18
            &&& forall|i: int| 0 <= i < 16 ==> #[trigger] formatted_id(id)[i] == id[i]
            &&& formatted_id(id)[16] == '.'
            &&& formatted_id(id)[17] == '.'
        },
{
    reveal_strlit("..");
}

} // verus!
