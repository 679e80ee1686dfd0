use arc_download::endpoint::BaseUrl;
use arc_download::endpoint::Endpoint;
use arc_download::endpoint::Route;
use arc_download::server::Server;
use arc_download::server::ServerCreationError;
use arc_download::wire::Credentials;
use arc_download::wire::Request;

fn base(text: &str) -> BaseUrl {
    BaseUrl::parse(text).unwrap()
}

fn pair(name: &str, value: &str) -> (String, String) {
    (name.to_string(), value.to_string())
}

#[test]
fn parse_gives_the_serialization() {
    assert_eq!(base("https://example.net").as_str(), "https://example.net/");
    assert_eq!(base("HTTPS://Example.NET/a b").as_str(), "https://example.net/a%20b");
    assert!(BaseUrl::parse("not a url").is_none());
    assert!(BaseUrl::parse("/relative/only").is_none());
}

#[test]
fn parse_reads_query_and_opacity() {
    assert!(!base("https://example.net/api").has_query());
    assert!(base("https://example.net/api?x=1").has_query());
    assert!(base("https://example.net/api?").has_query());
    assert!(!base("https://example.net/api#frag?x").has_query());
    assert!(!base("https://example.net/api").cannot_be_a_base());
    assert!(!base("unix:/run/foo.socket").cannot_be_a_base());
    assert!(base("data:text/plain,Stuff").cannot_be_a_base());
    assert!(base("mailto:someone@example.net").cannot_be_a_base());
}

#[test]
fn join_resolves_as_the_url_crate_does() {
    let url = base("https://example.net/a/b.html");
    assert_eq!(url.join("c.png"), Some("https://example.net/a/c.png".to_string()));
    assert_eq!(url.join("/v1/meta"), Some("https://example.net/v1/meta".to_string()));
    assert_eq!(base("data:text/plain,Stuff").join("/connect"), None);
}

#[test]
fn join_takes_the_query_from_the_reference() {
    let url = base("https://example.net/api?ac=s3cret");
    assert_eq!(url.join("/connect"), Some("https://example.net/connect".to_string()));
    assert_eq!(url.join("/connect?x=1"), Some("https://example.net/connect?x=1".to_string()));
}

#[test]
fn endpoint_resolves_every_route() {
    let endpoint = Endpoint::new(&base("https://example.net/api/"), None).unwrap();
    assert_eq!(endpoint.url(Route::Connect), "https://example.net/connect");
    assert_eq!(endpoint.url(Route::Auth), "https://example.net/auth");
    assert_eq!(endpoint.url(Route::Tree), "https://example.net/fs/tree");
    assert_eq!(endpoint.url(Route::FileGet), "https://example.net/fs/file/get");
    assert_eq!(endpoint.access_code(), None);
    assert_eq!(Route::Connect.path(), "/connect");
    assert_eq!(Route::Auth.path(), "/auth");
    assert_eq!(Route::Tree.path(), "/fs/tree");
    assert_eq!(Route::FileGet.path(), "/fs/file/get");
}

#[test]
fn endpoint_refuses_query_and_opaque_bases() {
    assert!(Endpoint::new(&base("https://example.net/?x=1"), None).is_none());
    assert!(Endpoint::new(&base("https://example.net/?"), Some("code")).is_none());
    assert!(Endpoint::new(&base("data:text/plain,Stuff"), None).is_none());
}

#[test]
fn endpoint_keeps_the_access_code() {
    let endpoint = Endpoint::new(&base("https://example.net"), Some("s3cret")).unwrap();
    assert_eq!(endpoint.access_code(), Some("s3cret"));
    let endpoint = Endpoint::new(&base("https://example.net"), Some("")).unwrap();
    assert_eq!(endpoint.access_code(), Some(""));
}

#[test]
fn valid_base_and_probe_200_gives_a_session() {
    let bases = ["https://example.net", "http://localhost:8080/api/", "https://example.net/a/b#frag"];
    for text in bases {
        let server = Server::new(base(text), None, Some(200));
        assert!(server.is_ok());
    }
}

#[test]
fn probe_other_than_200_is_a_connection_error() {
    let probes =
        [None, Some(0), Some(199), Some(201), Some(204), Some(301), Some(401), Some(404), Some(500)];
    for probe in probes {
        let server = Server::new(base("https://example.net"), None, probe);
        assert!(matches!(server, Err(ServerCreationError::Connection)));
    }
}

#[test]
fn base_url_with_query_is_invalid_whatever_the_probe() {
    for probe in [None, Some(200), Some(404)] {
        let bases = ["https://example.net/api?x=1", "https://example.net/?ac=old", "https://example.net?"];
        for text in bases {
            let server = Server::new(base(text), None, probe);
            assert!(matches!(server, Err(ServerCreationError::InvalidURL)));
            let server = Server::new(base(text), Some("code"), probe);
            assert!(matches!(server, Err(ServerCreationError::InvalidURL)));
        }
    }
}

#[test]
fn opaque_base_url_is_invalid_whatever_the_probe() {
    for probe in [None, Some(200), Some(500)] {
        let server = Server::new(base("mailto:someone@example.net"), None, probe);
        assert!(matches!(server, Err(ServerCreationError::InvalidURL)));
    }
}

#[test]
fn probe_request_is_built_before_the_session() {
    let request = Server::probe(&base("https://example.net/api"), None).unwrap();
    assert_eq!(
        request,
        Request {
            url: "https://example.net/connect".to_string(),
            credentials: Credentials::Anonymous,
            query: vec![],
        }
    );
    let request = Server::probe(&base("https://example.net/api"), Some("k")).unwrap();
    assert_eq!(request.query, vec![pair("ac", "k")]);
    assert_eq!(
        Server::probe(&base("https://example.net/api?x"), Some("k")),
        Err(ServerCreationError::InvalidURL)
    );
}

#[test]
fn check_if_valid_accepts_only_200() {
    let server = Server::new(base("https://example.net"), None, Some(200)).unwrap();
    assert!(server.check_if_valid(Some(200)));
    assert!(!server.check_if_valid(Some(204)));
    assert!(!server.check_if_valid(Some(404)));
    assert!(!server.check_if_valid(None));
}

#[test]
fn construct_url_gives_the_route_urls() {
    let server = Server::new(base("https://example.net:8443/base"), Some("k"), Some(200)).unwrap();
    assert_eq!(server.construct_url(Route::Connect), "https://example.net:8443/connect");
    assert_eq!(server.construct_url(Route::Auth), "https://example.net:8443/auth");
    assert_eq!(server.construct_url(Route::Tree), "https://example.net:8443/fs/tree");
    assert_eq!(server.construct_url(Route::FileGet), "https://example.net:8443/fs/file/get");
}

#[test]
fn access_code_is_on_the_probe_and_the_credential_exchange() {
    let server = Server::new(base("https://example.net"), Some("a b&c=d"), Some(200)).unwrap();
    assert_eq!(server.connect_request().query, vec![pair("ac", "a b&c=d")]);
    let auth = server.auth_request("alice", "pw");
    assert_eq!(auth.query, vec![pair("ac", "a b&c=d")]);
    assert_eq!(auth.url, "https://example.net/auth");
}

#[test]
fn without_access_code_no_parameter_is_added() {
    let server = Server::new(base("https://example.net"), None, Some(200)).unwrap();
    assert!(server.connect_request().query.is_empty());
    assert!(server.auth_request("alice", "pw").query.is_empty());
}
