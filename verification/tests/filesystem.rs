use arc_download::encoding::path_param;
use arc_download::endpoint::BaseUrl;
use arc_download::server::schemas::DataResponse;
use arc_download::server::schemas::FSPartialEntry;
use arc_download::server::schemas::FSTree;
use arc_download::server::schemas::Session;
use arc_download::server::Server;
use arc_download::server::TransportError;
use arc_download::wire::Credentials;
use arc_download::wire::Reply;
use arc_download::wire::Request;
use base64::engine::general_purpose::STANDARD;
use base64::Engine;

fn server(code: Option<&str>) -> Server {
    Server::new(BaseUrl::parse("https://example.net").unwrap(), code, Some(200)).unwrap()
}

fn session(token: &str) -> Reply<DataResponse<Session>> {
    Reply::Received {
        status: 200,
        body: DataResponse {
            data: Session { username: "alice".to_string(), token: token.to_string() },
        },
    }
}

fn entry(scoped_path: &str) -> FSPartialEntry {
    FSPartialEntry {
        scoped_path: scoped_path.to_string(),
        mime: "text/plain".to_string(),
        filename: scoped_path.rsplit('/').next().unwrap().to_string(),
    }
}

fn listing(paths: &[&str]) -> Reply<DataResponse<FSTree>> {
    Reply::Received {
        status: 200,
        body: DataResponse { data: FSTree(paths.iter().map(|p| entry(p)).collect()) },
    }
}

fn pair(name: &str, value: &str) -> (String, String) {
    (name.to_string(), value.to_string())
}

#[test]
fn tree_request_carries_the_bearer_token() {
    let server = server(None);
    let user = server.auth_user("alice", session("t0k3n")).ok().unwrap();
    let request = user.fs().tree_request();
    assert_eq!(
        request,
        Request {
            url: "https://example.net/fs/tree".to_string(),
            credentials: Credentials::Bearer { token: "t0k3n".to_string() },
            query: vec![],
        }
    );
}

#[test]
fn tree_keeps_the_order_of_the_listing() {
    let server = server(None);
    let user = server.auth_user("alice", session("t")).ok().unwrap();
    let paths = user.fs().tree(listing(&["z/last.txt", "a/first.txt", "m.bin"]));
    assert_eq!(
        paths,
        Ok(vec!["z/last.txt".to_string(), "a/first.txt".to_string(), "m.bin".to_string()])
    );
}

#[test]
fn tree_keeps_duplicates() {
    let server = server(None);
    let user = server.auth_user("alice", session("t")).ok().unwrap();
    let paths = user.fs().tree(listing(&["a.txt", "b.txt", "a.txt"]));
    assert_eq!(paths, Ok(vec!["a.txt".to_string(), "b.txt".to_string(), "a.txt".to_string()]));
}

#[test]
fn tree_of_an_empty_listing_is_empty() {
    let server = server(None);
    let user = server.auth_user("alice", session("t")).ok().unwrap();
    assert_eq!(user.fs().tree(listing(&[])), Ok(vec![]));
}

#[test]
fn tree_takes_the_scoped_path_not_the_filename() {
    let server = server(None);
    let user = server.auth_user("alice", session("t")).ok().unwrap();
    let reply = Reply::Received {
        status: 200,
        body: DataResponse {
            data: FSTree(vec![FSPartialEntry {
                scoped_path: "docs/report.pdf".to_string(),
                mime: "application/pdf".to_string(),
                filename: "Quarterly report.pdf".to_string(),
            }]),
        },
    };
    assert_eq!(user.fs().tree(reply), Ok(vec!["docs/report.pdf".to_string()]));
}

#[test]
fn tree_fails_on_any_reply_that_is_not_accepted() {
    let server = server(None);
    let user = server.auth_user("alice", session("t")).ok().unwrap();
    let fs = user.fs();
    assert_eq!(fs.tree(Reply::Unreachable), Err(TransportError));
    assert_eq!(fs.tree(Reply::Unreadable { status: 200 }), Err(TransportError));
    assert_eq!(fs.tree(Reply::Unreadable { status: 500 }), Err(TransportError));
    let refused =
        Reply::Received { status: 403, body: DataResponse { data: FSTree(vec![entry("a")]) } };
    assert_eq!(fs.tree(refused), Err(TransportError));
}

#[test]
fn read_request_encodes_the_path_in_standard_base64() {
    let server = server(None);
    let user = server.auth_user("alice", session("t0k3n")).ok().unwrap();
    let request = user.fs().read_request("a/b.txt").unwrap();
    assert_eq!(
        request,
        Request {
            url: "https://example.net/fs/file/get".to_string(),
            credentials: Credentials::Bearer { token: "t0k3n".to_string() },
            query: vec![pair("path", "YS9iLnR4dA==")],
        }
    );
}

#[test]
fn read_request_keeps_the_access_code_ahead_of_the_path() {
    let server = server(Some("s3cret"));
    let user = server.auth_user("alice", session("t")).ok().unwrap();
    let fs = user.fs();
    assert_eq!(fs.tree_request().query, vec![pair("ac", "s3cret")]);
    assert_eq!(
        fs.read_request("c.txt").unwrap().query,
        vec![pair("ac", "s3cret"), pair("path", "Yy50eHQ=")]
    );
}

#[test]
fn path_param_matches_the_standard_vectors() {
    assert_eq!(path_param(""), Some("".to_string()));
    assert_eq!(path_param("f"), Some("Zg==".to_string()));
    assert_eq!(path_param("fo"), Some("Zm8=".to_string()));
    assert_eq!(path_param("foo"), Some("Zm9v".to_string()));
    assert_eq!(path_param("foob"), Some("Zm9vYg==".to_string()));
    assert_eq!(path_param("fooba"), Some("Zm9vYmE=".to_string()));
    assert_eq!(path_param("foobar"), Some("Zm9vYmFy".to_string()));
}

#[test]
fn path_param_uses_plus_and_slash_not_the_url_safe_alphabet() {
    assert_eq!(path_param(">>>"), Some("Pj4+".to_string()));
    assert_eq!(path_param("???"), Some("Pz8/".to_string()));
}

#[test]
fn path_param_encodes_the_utf8_bytes_of_the_path() {
    assert_eq!(path_param("é"), Some("w6k=".to_string()));
    assert_eq!(path_param("my file.txt"), Some("bXkgZmlsZS50eHQ=".to_string()));
    assert_eq!(path_param("日本語"), Some("5pel5pys6Kqe".to_string()));
    assert_eq!(
        path_param("日本語/ファイル.txt"),
        Some(STANDARD.encode("日本語/ファイル.txt".as_bytes()))
    );
}

#[test]
fn decoding_the_path_param_gives_the_path_back() {
    let paths = [
        "",
        "a",
        "a/b.txt",
        "dir with space/ünïcödé.txt",
        "日本語/ファイル.txt",
        "emoji/😀.png",
        "a+b/c=d&e?f#g",
    ];
    for path in paths {
        let param = path_param(path).unwrap();
        let decoded = STANDARD.decode(param.as_bytes()).unwrap();
        assert_eq!(decoded, path.as_bytes());
        assert_eq!(String::from_utf8(decoded).unwrap(), path);
        assert_eq!(param.len() % 4, 0);
    }
}

#[test]
fn read_hands_back_the_body_byte_for_byte() {
    let server = server(None);
    let user = server.auth_user("alice", session("t")).ok().unwrap();
    let fs = user.fs();
    let body: Vec<u8> = vec![0, 255, 10, 13, 0, 128, 7];
    assert_eq!(fs.read(Reply::Received { status: 200, body: body.clone() }), Ok(body));
    assert_eq!(fs.read(Reply::Received { status: 200, body: vec![] }), Ok(vec![]));
}

#[test]
fn read_fails_on_any_reply_that_is_not_accepted() {
    let server = server(None);
    let user = server.auth_user("alice", session("t")).ok().unwrap();
    let fs = user.fs();
    assert_eq!(fs.read(Reply::Unreachable), Err(TransportError));
    assert_eq!(fs.read(Reply::Unreadable { status: 200 }), Err(TransportError));
    let missing = Reply::Received { status: 404, body: b"not found".to_vec() };
    assert_eq!(fs.read(missing), Err(TransportError));
    assert_eq!(fs.read(Reply::Received { status: 500, body: vec![] }), Err(TransportError));
}
