//! Absolute URLs, as the `url` crate reads them, and the endpoint that a
//! session talks to.

use crate::wire::access_pairs;
use crate::wire::Credentials;
use crate::wire::CredentialsText;
use crate::wire::Request;
use crate::wire::RequestText;
use vstd::prelude::*;

verus! {

/// The serialization of the URL that `url::Url::parse` reads from `input`;
/// `None` where it reads none.
pub uninterp spec fn url_parsed(input: Seq<char>) -> Option<Seq<char>>;

/// What `url::Url::query` gives on the URL that `href` parses to: the text
/// between `?` and the fragment. `None` where the URL has no query, or
/// `href` is no URL.
pub uninterp spec fn url_query(href: Seq<char>) -> Option<Seq<char>>;

/// What `url::Url::cannot_be_a_base` gives on the URL that `href` parses to;
/// `None` where `href` is no URL.
pub uninterp spec fn url_cannot_be_a_base(href: Seq<char>) -> Option<bool>;

/// The serialization of what `url::Url::join` resolves `reference` to
/// against the URL that `base` parses to; `None` where it resolves to
/// nothing, or `base` is no URL.
pub uninterp spec fn url_joined(base: Seq<char>, reference: Seq<char>) -> Option<Seq<char>>;

/// `url::Url::parse`, with the URL handed back as its serialization.
#[verifier::external_body]
fn parse_url(input: &str) -> (href: Option<String>)
    ensures
        href.deep_view() == url_parsed(input@),
{
    match url::Url::parse(input) {
        Ok(url) => Some(String::from(url)),
        Err(_) => None,
    }
}

/// `url::Url::query` on the URL that `href` parses to.
#[verifier::external_body]
fn query_of(href: &str) -> (query: Option<String>)
    ensures
        query.deep_view() == url_query(href@),
{
    match url::Url::parse(href) {
        Ok(url) => url.query().map(String::from),
        Err(_) => None,
    }
}

/// `url::Url::cannot_be_a_base` on the URL that `href` parses to.
#[verifier::external_body]
fn cannot_be_a_base_of(href: &str) -> (opaque: Option<bool>)
    ensures
        opaque == url_cannot_be_a_base(href@),
{
    match url::Url::parse(href) {
        Ok(url) => Some(url.cannot_be_a_base()),
        Err(_) => None,
    }
}

/// `url::Url::join` of `reference` on the URL that `base` parses to, with
/// the result handed back as its serialization.
#[verifier::external_body]
fn join_url(base: &str, reference: &str) -> (href: Option<String>)
    ensures
        href.deep_view() == url_joined(base@, reference@),
{
    match url::Url::parse(base) {
        Ok(url) => match url.join(reference) {
            Ok(joined) => Some(String::from(joined)),
            Err(_) => None,
        },
        Err(_) => None,
    }
}

/// An absolute URL. Its model is its serialization; beside it the value
/// keeps what a session asks of a base URL.
pub struct BaseUrl {
    href: String,
    query: Option<String>,
    opaque: Option<bool>,
}

impl View for BaseUrl {
    type V = Seq<char>;

    closed spec fn view(&self) -> Seq<char> {
        self.href@
    }
}

impl BaseUrl {
    #[verifier::type_invariant]
    spec fn consistent(self) -> bool {
        &&& self.query.deep_view() == url_query(self.href@)
        &&& self.opaque == url_cannot_be_a_base(self.href@)
    }

    /// Reads an absolute URL from `input`.
    pub fn parse(input: &str) -> (url: Option<BaseUrl>)
        ensures
            url is Some <==> url_parsed(input@) is Some,
            url matches Some(parsed) ==> Some(parsed@) == url_parsed(input@),
    {
        match parse_url(input) {
            Some(href) => {
                let query = query_of(href.as_str());
                let opaque = cannot_be_a_base_of(href.as_str());
                Some(BaseUrl { href, query, opaque })
            },
            None => None,
        }
    }

    /// The serialization of this URL.
    pub fn as_str(&self) -> (href: &str)
        ensures
            href@ == self@,
    {
        self.href.as_str()
    }

    /// Whether this URL carries a query string, an empty one included.
    pub fn has_query(&self) -> (present: bool)
        ensures
            present == url_query(self@).is_some(),
    {
        proof {
            use_type_invariant(self);
        }
        self.query.is_some()
    }

    /// Whether no path can be resolved against this URL: it is opaque, as
    /// `data:` and `mailto:` URLs are, or is not known to be otherwise.
    pub fn cannot_be_a_base(&self) -> (opaque: bool)
        ensures
            opaque == (url_cannot_be_a_base(self@) != Some(false)),
    {
        proof {
            use_type_invariant(self);
        }
        match self.opaque {
            Some(opaque) => opaque,
            None => true,
        }
    }

    /// Resolves `reference` against this URL.
    pub fn join(&self, reference: &str) -> (href: Option<String>)
        ensures
            href.deep_view() == url_joined(self@, reference@),
    {
        join_url(self.href.as_str(), reference)
    }
}

/// The calls that the service offers.
#[derive(Debug, Clone, Copy, PartialEq, Eq, Structural)]
pub enum Route {
    /// The reachability probe.
    Connect,
    /// The exchange of a username and password for a token.
    Auth,
    /// The listing of the remote tree.
    Tree,
    /// The contents of one file.
    FileGet,
}

impl Route {
    /// The path of this call on the service.
    pub open spec fn path_text(self) -> Seq<char> {
        match self {
            Route::Connect => "/connect"@,
            Route::Auth => "/auth"@,
            Route::Tree => "/fs/tree"@,
            Route::FileGet => "/fs/file/get"@,
        }
    }

    /// The path of this call on the service.
    pub fn path(self) -> (path: &'static str)
        ensures
            path@ == self.path_text(),
    {
        match self {
            Route::Connect => "/connect",
            Route::Auth => "/auth",
            Route::Tree => "/fs/tree",
            Route::FileGet => "/fs/file/get",
        }
    }
}

/// The URL of `route` on the service at `base`, if the `url` crate resolves
/// one.
pub open spec fn route_url(base: Seq<char>, route: Route) -> Option<Seq<char>> {
    url_joined(base, route.path_text())
}

/// Whether `base` can be the base of an endpoint: it carries no query
/// string, it is not opaque, and every call of the service resolves against
/// it.
pub open spec fn usable_base(base: Seq<char>) -> bool {
    &&& url_query(base) is None
    &&& url_cannot_be_a_base(base) == Some(false)
    &&& forall|route: Route| (#[trigger] route_url(base, route)) is Some
}

/// The model of an [`Endpoint`]: the serialization of its base URL, and its
/// access code.
pub struct EndpointText {
    pub base: Seq<char>,
    pub access_code: Option<Seq<char>>,
}

impl EndpointText {
    /// The request for `route` on this endpoint: the URL of the route, with
    /// the access code ahead of the parameters of the call.
    pub open spec fn request(
        self,
        route: Route,
        credentials: CredentialsText,
        params: Seq<(Seq<char>, Seq<char>)>,
    ) -> RequestText {
        RequestText {
            url: route_url(self.base, route).unwrap(),
            credentials,
            query: access_pairs(self.access_code) + params,
        }
    }
}

/// The base of the remote service: a URL without a query string, against
/// which the calls of the service resolve, and the access code, if any, that
/// every request carries.
pub struct Endpoint {
    base: String,
    access_code: Option<String>,
    connect: String,
    auth: String,
    tree: String,
    file_get: String,
}

impl View for Endpoint {
    type V = EndpointText;

    closed spec fn view(&self) -> EndpointText {
        EndpointText { base: self.base@, access_code: self.access_code.deep_view() }
    }
}

impl Endpoint {
    #[verifier::type_invariant]
    spec fn resolved(self) -> bool {
        &&& usable_base(self.base@)
        &&& Some(self.connect@) == route_url(self.base@, Route::Connect)
        &&& Some(self.auth@) == route_url(self.base@, Route::Auth)
        &&& Some(self.tree@) == route_url(self.base@, Route::Tree)
        &&& Some(self.file_get@) == route_url(self.base@, Route::FileGet)
    }

    /// An endpoint at `base_url` with the access code `access_code`, where
    /// `base_url` can be the base of one.
    pub fn new(base_url: &BaseUrl, access_code: Option<&str>) -> (endpoint: Option<Endpoint>)
        ensures
            endpoint is Some <==> usable_base(base_url@),
            endpoint matches Some(e) ==> e@ == (EndpointText {
                base: base_url@,
                access_code: access_code.deep_view(),
            }),
    {
        if base_url.has_query() || base_url.cannot_be_a_base() {
            return None;
        }
        let connect = base_url.join(Route::Connect.path());
        let auth = base_url.join(Route::Auth.path());
        let tree = base_url.join(Route::Tree.path());
        let file_get = base_url.join(Route::FileGet.path());
        match (connect, auth, tree, file_get) {
            (Some(connect), Some(auth), Some(tree), Some(file_get)) => {
                let access_code = match access_code {
                    Some(code) => Some(code.to_owned()),
                    None => None,
                };
                let base = base_url.as_str().to_owned();
                assert forall|route: Route| (#[trigger] route_url(base@, route)) is Some by {
                    match route {
                        Route::Connect => {},
                        Route::Auth => {},
                        Route::Tree => {},
                        Route::FileGet => {},
                    }
                }
                Some(Endpoint { base, access_code, connect, auth, tree, file_get })
            },
            _ => {
                assert(!usable_base(base_url@)) by {
                    assert(route_url(base_url@, Route::Connect) is None || route_url(
                        base_url@,
                        Route::Auth,
                    ) is None || route_url(base_url@, Route::Tree) is None || route_url(
                        base_url@,
                        Route::FileGet,
                    ) is None);
                }
                None
            },
        }
    }

    /// The URL of `route` on this endpoint.
    pub fn url(&self, route: Route) -> (url: &str)
        ensures
            Some(url@) == route_url(self@.base, route),
    {
        proof {
            use_type_invariant(self);
        }
        match route {
            Route::Connect => self.connect.as_str(),
            Route::Auth => self.auth.as_str(),
            Route::Tree => self.tree.as_str(),
            Route::FileGet => self.file_get.as_str(),
        }
    }

    /// The access code that every request to this endpoint carries.
    pub fn access_code(&self) -> (code: Option<&str>)
        ensures
            code.deep_view() == self@.access_code,
    {
        match &self.access_code {
            Some(code) => Some(code.as_str()),
            None => None,
        }
    }

    /// The request for `route` on this endpoint, with `credentials` and the
    /// parameters `params`. The access code of the endpoint goes ahead of
    /// `params`, and `params` follow whole and in order.
    pub(crate) fn request(
        &self,
        route: Route,
        credentials: Credentials,
        params: Vec<(String, String)>,
    ) -> (request: Request)
        ensures
            request@ == self@.request(route, credentials@, params.deep_view()),
    {
        let mut query = params;
        match &self.access_code {
            Some(code) => {
                query.insert(0, ("ac".to_owned(), code.clone()));
            },
            None => {},
        }
        let url = self.url(route).to_owned();
        assert(query.deep_view() =~= access_pairs(self@.access_code) + params.deep_view());
        Request { url, credentials, query }
    }
}

} // verus!
