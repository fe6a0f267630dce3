//! Tool servers of the older kind: their messages come as server-sent events, and
//! the first tells where answers go.
use vstd::prelude::*;
use crate::speech::opt_str;
use crate::text;
use crate::urls;

verus! {

/// What can go wrong with such a server.
#[derive(Debug)]
pub enum LegacySseTransportError {
    Http(String),
    Sse(String),
    Url(String),
    MissingEndpoint,
    Closed,
    Json(String),
    Join(String),
}

/// The message of an error.
pub open spec fn sse_error_text(e: LegacySseTransportError) -> Seq<char> {
    match e {
        LegacySseTransportError::Http(e) => "HTTP client error: "@ + e@,
        LegacySseTransportError::Sse(e) => "SSE stream error: "@ + e@,
        LegacySseTransportError::Url(e) => "invalid SSE endpoint URL: "@ + e@,
        LegacySseTransportError::MissingEndpoint => "legacy SSE endpoint event was not received"@,
        LegacySseTransportError::Closed => "legacy SSE endpoint closed"@,
        LegacySseTransportError::Json(e) => "legacy SSE message parse error: "@ + e@,
        LegacySseTransportError::Join(e) => "worker join error: "@ + e@,
    }
}

fn joined(context: &str, message: &str) -> (r: String)
    ensures
        r@ == context@ + message@,
{
    let mut out: String = context.to_owned();
    out.append(message);
    out
}

impl LegacySseTransportError {
    /// The message of this error.
    pub fn message(&self) -> (r: String)
        ensures
            r@ == sse_error_text(*self),
    {
        match self {
            LegacySseTransportError::Http(e) => joined("HTTP client error: ", e.as_str()),
            LegacySseTransportError::Sse(e) => joined("SSE stream error: ", e.as_str()),
            LegacySseTransportError::Url(e) => joined("invalid SSE endpoint URL: ", e.as_str()),
            LegacySseTransportError::MissingEndpoint =>
                "legacy SSE endpoint event was not received".to_owned(),
            LegacySseTransportError::Closed => "legacy SSE endpoint closed".to_owned(),
            LegacySseTransportError::Json(e) => joined(
                "legacy SSE message parse error: ",
                e.as_str(),
            ),
            LegacySseTransportError::Join(e) => joined("worker join error: ", e.as_str()),
        }
    }
}

/// Where answers go: the endpoint, seen from the URL of the server.
pub fn absolutize_endpoint(base_url: &str, endpoint: &str) -> (r: Result<
    String,
    LegacySseTransportError,
>)
    ensures
        match urls::joined_url(base_url@, endpoint@) {
            Ok(s) => r matches Ok(x) && x@ == s,
            Err(e) => r matches Err(LegacySseTransportError::Url(x)) && x@ == e,
        },
{
    match urls::join_url(base_url, endpoint) {
        Ok(s) => Ok(s),
        Err(e) => Err(LegacySseTransportError::Url(e)),
    }
}

/// Looks for the endpoint in an event: nothing where the event is not about it,
/// and an error where it has no data.
pub fn endpoint_event(
    base_url: &str,
    event: Option<&str>,
    data: Option<&str>,
) -> (r: Result<Option<String>, LegacySseTransportError>)
    ensures
        if opt_str(event) != Some("endpoint"@) {
            r matches Ok(None)
        } else {
            match opt_str(data) {
                None => r matches Err(LegacySseTransportError::MissingEndpoint),
                Some(data) => match urls::joined_url(base_url@, data) {
                    Ok(s) => r matches Ok(Some(x)) && x@ == s,
                    Err(e) => r matches Err(LegacySseTransportError::Url(x)) && x@ == e,
                },
            }
        },
{
    let about: bool = match event {
        Some(event) => text::same_text(event, "endpoint"),
        None => false,
    };
    if !about {
        return Ok(None);
    }
    match data {
        None => Err(LegacySseTransportError::MissingEndpoint),
        Some(data) => match absolutize_endpoint(base_url, data) {
            Ok(s) => Ok(Some(s)),
            Err(e) => Err(e),
        },
    }
}

/// Whether an event carries a message: it is unnamed or named so, and its data is
/// not blank.
pub open spec fn carries_message(event: Option<Seq<char>>, data: Option<Seq<char>>) -> bool {
    &&& match event {
        None => true,
        Some(name) => name == ""@ || name == "message"@,
    }
    &&& data is Some
    &&& !text::is_blank(data->0)
}

/// The message that an event carries, where it carries one.
pub fn message_event<'a>(event: Option<&str>, data: Option<&'a str>) -> (r: Option<&'a str>)
    ensures
        opt_str(r) == if carries_message(opt_str(event), opt_str(data)) {
            opt_str(data)
        } else {
            None
        },
{
    let named: bool = match event {
        None => true,
        Some(name) => text::same_text(name, "") || text::same_text(name, "message"),
    };
    if !named {
        return None;
    }
    match data {
        None => None,
        Some(data) => {
            if text::blank(data) {
                None
            } else {
                Some(data)
            }
        },
    }
}

/// An event carries a message exactly where it has no name, an empty one, or that of
/// a message, and its data is more than white space.
pub proof fn law_messages_are_carried(name: Seq<char>, data: Seq<char>)
    ensures
        carries_message(None, Some(data)) <==> text::trimmed(data).len() > 0,
        carries_message(Some(""@), Some(data)) <==> text::trimmed(data).len() > 0,
        carries_message(Some("message"@), Some(data)) <==> text::trimmed(data).len() > 0,
        name != ""@ && name != "message"@ ==> !carries_message(Some(name), Some(data)),
        !carries_message(None, None),
{
}

} // verus!
