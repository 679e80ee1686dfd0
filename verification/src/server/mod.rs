//! The session with the service, the identity that a credential exchange
//! gives, and the remote filesystem seen through that identity.
//!
//! Each call comes in two halves: one builds the request, the other reads
//! the reply. Between the two the caller does the sending.

use crate::encoding::path_param;
use crate::encoding::path_param_text;
use crate::encoding::MAX_ENCODABLE_BYTES;
use crate::endpoint::route_url;
use crate::endpoint::usable_base;
use crate::endpoint::BaseUrl;
use crate::endpoint::Endpoint;
use crate::endpoint::EndpointText;
use crate::endpoint::Route;
use crate::server::schemas::scoped_paths;
use crate::server::schemas::DataResponse;
use crate::server::schemas::FSTree;
use crate::server::schemas::Session;
use crate::wire::values_of;
use crate::wire::Credentials;
use crate::wire::CredentialsText;
use crate::wire::Reply;
use crate::wire::Request;
use crate::wire::RequestText;
use crate::wire::STATUS_OK;
use vstd::prelude::*;
use vstd::utf8::encode_utf8;

pub mod schemas;

verus! {

/// Why no session could be made.
#[derive(Debug, Clone, Copy, PartialEq, Eq, Structural)]
pub enum ServerCreationError {
    /// The reachability probe failed: no response, or a status other than
    /// 200.
    Connection,
    /// The base URL cannot be the base of an endpoint.
    InvalidURL,
}

/// The credential exchange failed: no response, a status outside the
/// success class, or a body that is not the expected envelope.
#[derive(Debug, Clone, Copy, PartialEq, Eq, Structural)]
pub struct AuthError;

/// A call on the remote filesystem failed: no response, a status outside
/// the success class, or a body that could not be read as expected.
#[derive(Debug, Clone, Copy, PartialEq, Eq, Structural)]
pub struct TransportError;

/// Whether `probe`, the status that the reachability probe came back with,
/// if it came back, shows the service to be reachable.
pub open spec fn probe_succeeded(probe: Option<u16>) -> bool {
    probe == Some(STATUS_OK)
}

impl EndpointText {
    /// The reachability probe.
    pub open spec fn connect_request(self) -> RequestText {
        self.request(Route::Connect, CredentialsText::Anonymous, Seq::empty())
    }

    /// The credential exchange for `username` and `password`.
    pub open spec fn auth_request(self, username: Seq<char>, password: Seq<char>) -> RequestText {
        self.request(Route::Auth, CredentialsText::Basic { username, password }, Seq::empty())
    }

    /// The tree listing, asked for with `token`.
    pub open spec fn tree_request(self, token: Seq<char>) -> RequestText {
        self.request(Route::Tree, CredentialsText::Bearer { token }, Seq::empty())
    }

    /// The read of the file at `path`, asked for with `token`.
    pub open spec fn read_request(self, token: Seq<char>, path: Seq<char>) -> RequestText {
        self.request(
            Route::FileGet,
            CredentialsText::Bearer { token },
            seq![("path"@, path_param_text(path))],
        )
    }
}

/// A session with the service: an endpoint that answered the reachability
/// probe.
pub struct Server {
    endpoint: Endpoint,
}

impl View for Server {
    type V = EndpointText;

    closed spec fn view(&self) -> EndpointText {
        self.endpoint@
    }
}

impl Server {
    /// The reachability probe for a session at `base_url` with the access
    /// code `auth_code`: the request to send before [`Server::new`], which
    /// takes what came back. `InvalidURL` where `base_url` carries a query
    /// string or cannot be the base of the calls of the service.
    pub fn probe(base_url: &BaseUrl, auth_code: Option<&str>) -> (request: Result<
        Request,
        ServerCreationError,
    >)
        ensures
            usable_base(base_url@) ==> request is Ok && request.unwrap()@ == (EndpointText {
                base: base_url@,
                access_code: auth_code.deep_view(),
            }).connect_request(),
            !usable_base(base_url@) ==> request == Err::<Request, _>(
                ServerCreationError::InvalidURL,
            ),
    {
        match Endpoint::new(base_url, auth_code) {
            Some(endpoint) => Ok(
                endpoint.request(Route::Connect, Credentials::Anonymous, Vec::new()),
            ),
            None => Err(ServerCreationError::InvalidURL),
        }
    }

    /// A session at `base_url` with the access code `auth_code`, given the
    /// status `probe` that the reachability probe came back with, or `None`
    /// where no response arrived.
    ///
    /// A base URL that carries a query string, or that cannot be the base of
    /// the calls of the service, is `InvalidURL` whatever the probe did. Any
    /// other base URL gives a session where the probe came back with 200,
    /// and `Connection` where it did not.
    pub fn new(base_url: BaseUrl, auth_code: Option<&str>, probe: Option<u16>) -> (server: Result<
        Server,
        ServerCreationError,
    >)
        ensures
            !usable_base(base_url@) ==> server == Err::<Server, _>(ServerCreationError::InvalidURL),
            usable_base(base_url@) && !probe_succeeded(probe) ==> server == Err::<Server, _>(
                ServerCreationError::Connection,
            ),
            usable_base(base_url@) && probe_succeeded(probe) ==> server is Ok && server.unwrap()@
                == (EndpointText { base: base_url@, access_code: auth_code.deep_view() }),
    {
        let endpoint = match Endpoint::new(&base_url, auth_code) {
            Some(endpoint) => endpoint,
            None => {
                return Err(ServerCreationError::InvalidURL);
            },
        };
        let self_ = Server { endpoint };
        if !self_.check_if_valid(probe) {
            return Err(ServerCreationError::Connection);
        }
        Ok(self_)
    }

    /// The URL of `route` on this session's endpoint.
    pub fn construct_url(&self, route: Route) -> (url: String)
        ensures
            Some(url@) == route_url(self@.base, route),
    {
        self.endpoint.url(route).to_owned()
    }

    /// The reachability probe of this session.
    pub fn connect_request(&self) -> (request: Request)
        ensures
            request@ == self@.connect_request(),
    {
        self.endpoint.request(Route::Connect, Credentials::Anonymous, Vec::new())
    }

    /// Whether `probe`, the status that the reachability probe came back
    /// with, or `None` where no response arrived, shows the service to be
    /// reachable: only the status 200 does.
    pub fn check_if_valid(&self, probe: Option<u16>) -> (valid: bool)
        ensures
            valid == probe_succeeded(probe),
    {
        match probe {
            Some(status) => status == STATUS_OK,
            None => false,
        }
    }

    /// The credential exchange for `username` and `password`.
    pub fn auth_request(&self, username: &str, password: &str) -> (request: Request)
        ensures
            request@ == self@.auth_request(username@, password@),
    {
        let credentials = Credentials::Basic {
            username: username.to_owned(),
            password: password.to_owned(),
        };
        self.endpoint.request(Route::Auth, credentials, Vec::new())
    }

    /// The identity of `username`, given the reply to the credential
    /// exchange. The identity holds the token of an accepted reply; any
    /// other reply is an `AuthError`.
    pub fn auth_user<'a>(&'a self, username: &str, reply: Reply<DataResponse<Session>>) -> (user:
        Result<User<'a>, AuthError>)
        ensures
            reply.is_accepted() ==> user is Ok && user.unwrap()@ == (UserText {
                endpoint: self@,
                username: username@,
                token: reply->body.data.token@,
            }),
            !reply.is_accepted() ==> user is Err,
    {
        match reply.accept() {
            Some(envelope) => Ok(
                User { server: self, username: username.to_owned(), token: envelope.data.token },
            ),
            None => Err(AuthError),
        }
    }
}

/// The model of a [`User`]: the endpoint of its session, the username it
/// presented, and the bearer token it was given.
pub struct UserText {
    pub endpoint: EndpointText,
    pub username: Seq<char>,
    pub token: Seq<char>,
}

/// An authenticated identity on a session.
pub struct User<'a> {
    server: &'a Server,
    username: String,
    token: String,
}

impl<'a> View for User<'a> {
    type V = UserText;

    closed spec fn view(&self) -> UserText {
        UserText { endpoint: self.server@, username: self.username@, token: self.token@ }
    }
}

/// The parameters of a call, where it has any.
spec fn params_text(queries: Option<&[(&str, &str)]>) -> Seq<(Seq<char>, Seq<char>)> {
    match queries {
        Some(pairs) => pairs.deep_view(),
        None => Seq::empty(),
    }
}

impl<'a> User<'a> {
    /// The remote filesystem of this identity.
    pub fn fs(&'a self) -> (fs: FS<'a>)
        ensures
            fs@ == self@,
    {
        FS { user: self }
    }

    /// The username that this identity presented.
    pub fn username(&self) -> (username: &str)
        ensures
            username@ == self@.username,
    {
        self.username.as_str()
    }

    /// The bearer token of this identity.
    pub fn token(&self) -> (token: &str)
        ensures
            token@ == self@.token,
    {
        self.token.as_str()
    }

    /// The request for `route` under this identity's bearer token, with the
    /// parameters `queries`.
    fn auth_get(&self, route: Route, queries: Option<&[(&str, &str)]>) -> (request:
        Request)
        ensures
            request@ == self@.endpoint.request(
                route,
                CredentialsText::Bearer { token: self@.token },
                params_text(queries),
            ),
    {
        let mut params: Vec<(String, String)> = Vec::new();
        match queries {
            Some(pairs) => {
                let mut i: usize = 0;
                while i < pairs.len()
                    invariant
                        i <= pairs.len(),
                        params.len() == i,
                        forall|j: int| 0 <= j < i ==> (#[trigger] params@[j])@ == pairs@[j]@,
                    decreases pairs.len() - i,
                {
                    let (name, value) = pairs[i];
                    params.push((name.to_owned(), value.to_owned()));
                    i = i + 1;
                }
                assert(params.deep_view() =~= pairs.deep_view());
            },
            None => {
                assert(params.deep_view() =~= Seq::empty());
            },
        }
        let credentials = Credentials::Bearer { token: self.token.clone() };
        self.server.endpoint.request(route, credentials, params)
    }
}

/// The remote filesystem, seen through an authenticated identity.
pub struct FS<'a> {
    user: &'a User<'a>,
}

impl<'a> View for FS<'a> {
    type V = UserText;

    closed spec fn view(&self) -> UserText {
        self.user@
    }
}

impl<'a> FS<'a> {
    /// The request for the tree listing.
    pub fn tree_request(&self) -> (request: Request)
        ensures
            request@ == self@.endpoint.tree_request(self@.token),
    {
        self.user.auth_get(Route::Tree, None)
    }

    /// The paths of the remote tree, given the reply to the tree listing:
    /// the scoped path of every record of an accepted reply, in the order of
    /// the listing, none left out and none merged. Any other reply is a
    /// `TransportError`.
    pub fn tree(&self, reply: Reply<DataResponse<FSTree>>) -> (paths: Result<
        Vec<String>,
        TransportError,
    >)
        ensures
            reply.is_accepted() ==> paths is Ok && paths.unwrap().deep_view() == scoped_paths(
                reply->body.data.0@,
            ),
            !reply.is_accepted() ==> paths is Err,
    {
        match reply.accept() {
            Some(envelope) => {
                let entries = envelope.data.0;
                let mut paths: Vec<String> = Vec::new();
                let mut i: usize = 0;
                while i < entries.len()
                    invariant
                        i <= entries.len(),
                        paths.len() == i,
                        forall|j: int|
                            0 <= j < i ==> (#[trigger] paths@[j])@ == entries@[j].scoped_path@,
                    decreases entries.len() - i,
                {
                    paths.push(entries[i].scoped_path.clone());
                    i = i + 1;
                }
                assert(paths.deep_view() =~= scoped_paths(entries@));
                Ok(paths)
            },
            None => Err(TransportError),
        }
    }

    /// The request for the contents of the file at `path`: its one
    /// parameter, `path`, is the UTF-8 bytes of the path in standard base64.
    /// `None` only for a path too long to encode.
    pub fn read_request(&self, path: &str) -> (request: Option<Request>)
        ensures
            request is Some <==> encode_utf8(path@).len() <= MAX_ENCODABLE_BYTES,
            request matches Some(r) ==> r@ == self@.endpoint.read_request(self@.token, path@),
    {
        match path_param(path) {
            Some(param) => {
                let mut queries: Vec<(&str, &str)> = Vec::new();
                queries.push(("path", param.as_str()));
                let queries = queries.as_slice();
                assert(queries.deep_view() =~= seq![("path"@, param@)]);
                Some(self.user.auth_get(Route::FileGet, Some(queries)))
            },
            None => None,
        }
    }

    /// The contents of a file, given the reply to its read: the body of an
    /// accepted reply, byte for byte. Any other reply is a `TransportError`.
    pub fn read(&self, reply: Reply<Vec<u8>>) -> (contents: Result<Vec<u8>, TransportError>)
        ensures
            reply.is_accepted() ==> contents == Ok::<Vec<u8>, TransportError>(reply->body),
            !reply.is_accepted() ==> contents is Err,
    {
        match reply.accept() {
            Some(body) => Ok(body),
            None => Err(TransportError),
        }
    }
}

/// An access code, once given to an endpoint, is on every request to it:
/// the probe, the credential exchange, the tree listing and every read each
/// carry exactly one `ac` parameter, whose value is the code, and a read
/// still carries its `path` parameter, whole.
pub proof fn lemma_access_code_on_every_request(
    endpoint: EndpointText,
    code: Seq<char>,
    username: Seq<char>,
    password: Seq<char>,
    token: Seq<char>,
    path: Seq<char>,
)
    requires
        endpoint.access_code == Some(code),
    ensures
        values_of(endpoint.connect_request().query, "ac"@) == seq![code],
        values_of(endpoint.auth_request(username, password).query, "ac"@) == seq![code],
        values_of(endpoint.tree_request(token).query, "ac"@) == seq![code],
        values_of(endpoint.read_request(token, path).query, "ac"@) == seq![code],
        values_of(endpoint.read_request(token, path).query, "path"@) == seq![path_param_text(path)],
        endpoint.read_request(token, path).query.len() == 2,
{
    reveal_strlit("ac");
    reveal_strlit("path");
    reveal_with_fuel(values_of, 3);
    let alone = seq![("ac"@, code)];
    let read = seq![("ac"@, code), ("path"@, path_param_text(path))];
    assert(endpoint.connect_request().query =~= alone);
    assert(endpoint.auth_request(username, password).query =~= alone);
    assert(endpoint.tree_request(token).query =~= alone);
    assert(endpoint.read_request(token, path).query =~= read);
    assert(alone.drop_last() =~= Seq::empty());
    assert(read.drop_last() =~= alone);
    assert("ac"@.len() != "path"@.len());
    assert(values_of(read, "ac"@) =~= seq![code]);
    assert(values_of(read, "path"@) =~= seq![path_param_text(path)]);
}

/// Without an access code no request carries an `ac` parameter.
pub proof fn lemma_no_access_code_no_parameter(
    endpoint: EndpointText,
    username: Seq<char>,
    password: Seq<char>,
    token: Seq<char>,
    path: Seq<char>,
)
    requires
        endpoint.access_code is None,
    ensures
        endpoint.connect_request().query == Seq::<(Seq<char>, Seq<char>)>::empty(),
        endpoint.auth_request(username, password).query == Seq::<(Seq<char>, Seq<char>)>::empty(),
        endpoint.tree_request(token).query == Seq::<(Seq<char>, Seq<char>)>::empty(),
        endpoint.read_request(token, path).query == seq![("path"@, path_param_text(path))],
{
}

} // verus!
