//! Requests to the photo catalog, and what its replies mean.
use vstd::prelude::*;

use crate::error::{Error, Result};
use crate::models::Topic;
use crate::params::{fetch_params, params_view, Fetch, Query, QueryParam};
use reqwest::header::HeaderValue;

verus! {

#[verifier::external_type_specification]
#[verifier::external_body]
pub struct ExHeaderValue(HeaderValue);

/// A GET request: a URL and the query parameters to append to it.
pub struct Request {
    pub url: String,
    pub query: Vec<QueryParam>,
}

/// What came back for a request.
pub enum Reply {
    /// The request could not be sent, or no response came back.
    Unreachable,
    /// A response with this status, and its body when it was read in full.
    /// The body of a response that failed need not be read.
    Answered { status: u16, body: Option<Vec<u8>> },
}

/// A status in the success range.
pub open spec fn is_success(status: u16) -> bool {
    200 <= status <= 299
}

/// Whether a reply accepts the request, with the error it carries otherwise.
pub open spec fn acceptance(reply: Reply) -> Result<()> {
    match reply {
        Reply::Unreachable => Err(Error::Request),
        Reply::Answered { status, .. } => if is_success(status) {
            Ok(())
        } else {
            Err(Error::Status(status))
        },
    }
}

/// The body that a reply delivers, or the error it carries.
pub open spec fn delivery(reply: Reply) -> Result<Vec<u8>> {
    match reply {
        Reply::Unreachable => Err(Error::Request),
        Reply::Answered { status, body } => if !is_success(status) {
            Err(Error::Status(status))
        } else {
            match body {
                Some(b) => Ok(b),
                None => Err(Error::InvalidResponse),
            }
        },
    }
}

/// Whether a status is a success.
pub fn check_status(status: u16) -> (r: Result<()>)
    ensures
        r == (if is_success(status) {
            Ok(())
        } else {
            Err(Error::Status(status))
        }),
{
    if 200 <= status && status <= 299 {
        Ok(())
    } else {
        Err(Error::Status(status))
    }
}

impl Reply {
    /// Whether the request was accepted.
    pub fn accepted(&self) -> (r: Result<()>)
        ensures
            r == acceptance(*self),
    {
        match self {
            Reply::Unreachable => Err(Error::Request),
            Reply::Answered { status, .. } => check_status(*status),
        }
    }

    /// The body delivered, or why there is none.
    pub fn into_body(self) -> (r: Result<Vec<u8>>)
        ensures
            r == delivery(self),
    {
        match self {
            Reply::Unreachable => Err(Error::Request),
            Reply::Answered { status, body } => match check_status(status) {
                Err(e) => Err(e),
                Ok(()) => match body {
                    Some(b) => Ok(b),
                    None => Err(Error::InvalidResponse),
                },
            },
        }
    }
}

/// Whether a character may stand in a header value: every byte of its UTF-8
/// encoding is a tab or a visible byte, that is not a control byte nor DEL.
pub open spec fn header_char(c: char) -> bool {
    (c as u32 >= 32 && c as u32 != 127) || c == '\t'
}

/// Whether a text may be sent as a header value.
pub open spec fn header_safe(s: Seq<char>) -> bool {
    forall|i: int| 0 <= i < s.len() ==> header_char(#[trigger] s[i])
}

/// The credential sent with every catalog request for an access key.
pub open spec fn auth_text(api_key: Seq<char>) -> Seq<char> {
    "Client-ID "@ + api_key
}

/// Relies on `HeaderValue::from_str` of the http crate, re-exported by reqwest:
/// it succeeds exactly when every byte of the text is a tab or lies in 32..=255
/// without 127. A character of two or more bytes has all of them at 128 or above.
#[verifier::external_body]
fn header_value(s: &str) -> (r: Option<HeaderValue>)
    ensures
        r is Some <==> header_safe(s@),
{
    HeaderValue::from_str(s).ok()
}

/// The value of the authorization header for an access key, or
/// `InvalidApiKey` when the key cannot be sent in a header.
pub fn authorization(api_key: &str) -> (r: Result<HeaderValue>)
    ensures
        r is Ok <==> header_safe(auth_text(api_key@)),
        r is Err ==> r == Err::<HeaderValue, Error>(Error::InvalidApiKey),
{
    let text = String::from_str("Client-ID ").concat(api_key);
    match header_value(text.as_str()) {
        Some(v) => Ok(v),
        None => Err(Error::InvalidApiKey),
    }
}

/// Where random photos are asked for.
pub open spec fn photos_url() -> Seq<char> {
    "https://api.unsplash.com/photos/random"@
}

/// Where a topic is looked up by id or slug.
pub open spec fn topic_url(id_or_slug: Seq<char>) -> Seq<char> {
    "https://api.unsplash.com/topics/"@ + id_or_slug
}

/// The parameters that a filter adds to a request for random photos; a topic
/// filter adds the id of the topic it was resolved to, when there is one.
pub open spec fn filter_params(query: Option<Query>, topic: Option<Seq<char>>) -> Seq<
    (Seq<char>, Seq<char>),
> {
    match query {
        Some(Query::Text(text)) => seq![("query"@, text@)],
        Some(Query::Topic(_)) => match topic {
            Some(id) => seq![("topics"@, id)],
            None => seq![],
        },
        None => seq![],
    }
}

impl Fetch {
    /// The lookup that resolves a topic filter to its topic; none for other filters.
    pub fn topic_request(&self) -> (r: Option<Request>)
        ensures
            match self.query {
                Some(Query::Topic(t)) => r matches Some(req) && req.url@ == topic_url(t@)
                    && req.query@.len() == 0,
                _ => r is None,
            },
    {
        match &self.query {
            Some(Query::Topic(t)) => Some(
                Request {
                    url: String::from_str("https://api.unsplash.com/topics/").concat(t.as_str()),
                    query: Vec::new(),
                },
            ),
            _ => None,
        }
    }

    /// The request for random photos, given the topic that a topic filter
    /// resolved to.
    pub fn photos_request(&self, topic: Option<&Topic>) -> (r: Request)
        ensures
            r.url@ == photos_url(),
            params_view(r.query@) == fetch_params(self.count) + filter_params(
                self.query,
                match topic {
                    Some(t) => Some(t@),
                    None => None,
                },
            ),
    {
        let mut query = self.to_query_params();
        let ghost base = query@;
        match &self.query {
            Some(Query::Text(text)) => {
                query.push(("query", String::from_str(text.as_str())));
            },
            Some(Query::Topic(_)) => match topic {
                Some(t) => {
                    query.push(("topics", String::from_str(t.id())));
                },
                None => {},
            },
            None => {},
        }
        assert(params_view(query@) =~= params_view(base) + filter_params(
            self.query,
            match topic {
                Some(t) => Some(t@),
                None => None,
            },
        ));
        Request { url: String::from_str("https://api.unsplash.com/photos/random"), query }
    }
}

} // verus!
