use arc_download::endpoint::BaseUrl;
use arc_download::server::schemas::DataResponse;
use arc_download::server::schemas::Session;
use arc_download::server::AuthError;
use arc_download::server::Server;
use arc_download::wire::status_is_success;
use arc_download::wire::Credentials;
use arc_download::wire::Reply;
use arc_download::wire::Request;
use arc_download::wire::STATUS_OK;

fn server(code: Option<&str>) -> Server {
    Server::new(BaseUrl::parse("https://example.net").unwrap(), code, Some(200)).unwrap()
}

fn envelope(username: &str, token: &str) -> DataResponse<Session> {
    DataResponse { data: Session { username: username.to_string(), token: token.to_string() } }
}

#[test]
fn auth_request_presents_basic_credentials() {
    let request = server(None).auth_request("alice", "correct horse");
    assert_eq!(
        request,
        Request {
            url: "https://example.net/auth".to_string(),
            credentials: Credentials::Basic {
                username: "alice".to_string(),
                password: "correct horse".to_string(),
            },
            query: vec![],
        }
    );
}

#[test]
fn auth_user_takes_the_token_of_an_accepted_reply() {
    let server = server(None);
    let reply = Reply::Received { status: 200, body: envelope("alice", "t0k3n") };
    let user = server.auth_user("alice", reply).ok().unwrap();
    assert_eq!(user.username(), "alice");
    assert_eq!(user.token(), "t0k3n");
}

#[test]
fn auth_user_keeps_the_username_presented() {
    let server = server(None);
    let reply = Reply::Received { status: 200, body: envelope("Alice Example", "t") };
    let user = server.auth_user("alice", reply).ok().unwrap();
    assert_eq!(user.username(), "alice");
}

#[test]
fn auth_401_is_an_auth_error() {
    let server = server(None);
    let unreadable = server.auth_user("alice", Reply::Unreadable { status: 401 });
    assert_eq!(unreadable.err(), Some(AuthError));
    let with_body = Reply::Received { status: 401, body: envelope("alice", "t0k3n") };
    assert_eq!(server.auth_user("alice", with_body).err(), Some(AuthError));
}

#[test]
fn auth_without_response_is_an_auth_error() {
    let server = server(None);
    assert_eq!(server.auth_user("alice", Reply::Unreachable).err(), Some(AuthError));
}

#[test]
fn auth_with_malformed_body_is_an_auth_error() {
    let server = server(None);
    assert_eq!(server.auth_user("alice", Reply::Unreadable { status: 200 }).err(), Some(AuthError));
}

#[test]
fn auth_status_outside_success_class_is_an_auth_error() {
    let server = server(None);
    for status in [100, 199, 300, 302, 403, 500, 503] {
        let reply = Reply::Received { status, body: envelope("alice", "t") };
        assert!(server.auth_user("alice", reply).is_err());
    }
    for status in [200, 201, 204, 299] {
        let reply = Reply::Received { status, body: envelope("alice", "t") };
        assert!(server.auth_user("alice", reply).is_ok());
    }
}

#[test]
fn success_class_is_200_to_299() {
    assert_eq!(STATUS_OK, 200);
    assert!(!status_is_success(199));
    assert!(status_is_success(200));
    assert!(status_is_success(299));
    assert!(!status_is_success(300));
    assert!(!status_is_success(0));
    assert!(!status_is_success(u16::MAX));
}

#[test]
fn accept_hands_out_the_body_of_a_success() {
    assert_eq!(Reply::Received { status: 200, body: 7u8 }.accept(), Some(7u8));
    assert_eq!(Reply::Received { status: 404, body: 7u8 }.accept(), None);
    assert_eq!(Reply::<u8>::Unreadable { status: 200 }.accept(), None);
    assert_eq!(Reply::<u8>::Unreachable.accept(), None);
}
