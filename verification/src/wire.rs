//! What goes over the wire, as plain values: the requests that the client
//! wants sent, and the replies that come back.

use vstd::prelude::*;

verus! {

/// The status that the reachability probe must come back with.
pub const STATUS_OK: u16 = 200;

/// Whether `status` is in the success class of HTTP, 200 to 299.
pub open spec fn is_success(status: u16) -> bool {
    200 <= status <= 299
}

/// Whether `status` is in the success class of HTTP, 200 to 299.
pub fn status_is_success(status: u16) -> (success: bool)
    ensures
        success == is_success(status),
{
    200 <= status && status <= 299
}

/// How a request identifies its sender.
#[derive(Debug, PartialEq, Eq)]
pub enum Credentials {
    /// No `Authorization` header.
    Anonymous,
    /// HTTP Basic authentication.
    Basic { username: String, password: String },
    /// `Authorization: Bearer <token>`.
    Bearer { token: String },
}

/// The model of [`Credentials`].
pub enum CredentialsText {
    Anonymous,
    Basic { username: Seq<char>, password: Seq<char> },
    Bearer { token: Seq<char> },
}

impl View for Credentials {
    type V = CredentialsText;

    open spec fn view(&self) -> CredentialsText {
        match self {
            Credentials::Anonymous => CredentialsText::Anonymous,
            Credentials::Basic { username, password } => CredentialsText::Basic {
                username: username@,
                password: password@,
            },
            Credentials::Bearer { token } => CredentialsText::Bearer { token: token@ },
        }
    }
}

/// A `GET` request: the URL to fetch, the credentials to present, and the
/// query parameters that the sender adds to the URL, form-encoded and in
/// this order.
#[derive(Debug, PartialEq, Eq)]
pub struct Request {
    pub url: String,
    pub credentials: Credentials,
    pub query: Vec<(String, String)>,
}

/// The model of a [`Request`].
pub struct RequestText {
    pub url: Seq<char>,
    pub credentials: CredentialsText,
    pub query: Seq<(Seq<char>, Seq<char>)>,
}

impl View for Request {
    type V = RequestText;

    open spec fn view(&self) -> RequestText {
        RequestText {
            url: self.url@,
            credentials: self.credentials@,
            query: self.query.deep_view(),
        }
    }
}

/// What came back for a request. `T` is the body in the form that the call
/// expects: bytes for a file, a decoded envelope for the JSON calls.
#[derive(Debug, PartialEq, Eq)]
pub enum Reply<T> {
    /// The transport failed: no response arrived.
    Unreachable,
    /// A response arrived, but its body could not be read, or is not of the
    /// expected form.
    Unreadable { status: u16 },
    /// A response arrived, with this body.
    Received { status: u16, body: T },
}

impl<T> Reply<T> {
    /// Whether this reply carries a body under a success status: the only
    /// replies that a call accepts.
    pub open spec fn is_accepted(self) -> bool {
        self matches Reply::Received { status, .. } && is_success(status)
    }

    /// The body of an accepted reply, and nothing for any other.
    pub fn accept(self) -> (body: Option<T>)
        ensures
            self.is_accepted() ==> body == Some(self->body),
            !self.is_accepted() ==> body is None,
    {
        match self {
            Reply::Received { status, body } => if status_is_success(status) {
                Some(body)
            } else {
                None
            },
            _ => None,
        }
    }
}

/// The parameters that carry the access code of an endpoint: one, named
/// `ac`, where there is a code, and none where there is not.
pub open spec fn access_pairs(code: Option<Seq<char>>) -> Seq<(Seq<char>, Seq<char>)> {
    match code {
        Some(code) => seq![("ac"@, code)],
        None => Seq::empty(),
    }
}

/// The values of the parameters of `query` that are named `name`, in order.
pub open spec fn values_of(query: Seq<(Seq<char>, Seq<char>)>, name: Seq<char>) -> Seq<Seq<char>>
    decreases query.len(),
{
    if query.len() == 0 {
        Seq::empty()
    } else if query.last().0 == name {
        values_of(query.drop_last(), name).push(query.last().1)
    } else {
        values_of(query.drop_last(), name)
    }
}

} // verus!
