use dtan_server::address::{Endpoint, Ipv4};
use dtan_server::http::{
    accept_text, content_type, derive_accept_key, file_below, file_extension, HttpServer, Lookup, Reply, Request,
    Response,
};

fn remote() -> Endpoint {
    Endpoint::V4 { ip: Ipv4 { a: 10, b: 0, c: 0, d: 9 }, port: 4711 }
}

fn server() -> HttpServer {
    HttpServer::new(remote(), "www".to_string())
}

fn request(connection: Option<&[u8]>, upgrade: Option<&[u8]>, key: Option<&[u8]>, path: &str) -> Request {
    Request {
        connection: connection.map(|v| v.to_vec()),
        upgrade: upgrade.map(|v| v.to_vec()),
        sec_websocket_key: key.map(|v| v.to_vec()),
        path: path.to_string(),
    }
}

fn served_file(path: &str) -> String {
    match server().call(&request(None, None, None, path)) {
        Reply::Serve { file } => file,
        Reply::Upgrade { .. } => panic!("not an upgrade"),
    }
}

fn headers(response: &Response) -> Vec<(&str, &str)> {
    response.headers.iter().map(|(n, v)| (n.as_str(), v.as_str())).collect()
}

#[test]
fn accept_key_of_the_sample_nonce() {
    assert_eq!(derive_accept_key(b"dGhlIHNhbXBsZSBub25jZQ=="), "s3pPLMBiTxaQ9kYGzzhZRbK+xOo=");
}

#[test]
fn accept_key_of_nothing() {
    assert_eq!(derive_accept_key(b""), "Kfh9QIsMVZcl6xEPYxPHzW8SZ8w=");
}

#[test]
fn accept_key_is_28_visible_characters() {
    for key in [&b""[..], b"a", &[0, 255, 128], &[7; 1000]] {
        let accept = derive_accept_key(key);
        assert_eq!(accept.len(), 28);
        assert!(accept.bytes().all(|b| (b' '..=b'~').contains(&b)));
        assert_eq!(accept.find('='), Some(27));
    }
}

#[test]
fn upgrade_in_any_letter_case() {
    for (connection, upgrade) in [
        ("upgrade", "websocket"),
        ("Upgrade", "WebSocket"),
        ("UPGRADE", "WEBSOCKET"),
    ] {
        let req = request(
            Some(connection.as_bytes()),
            Some(upgrade.as_bytes()),
            Some(b"dGhlIHNhbXBsZSBub25jZQ=="),
            "/",
        );
        assert!(req.is_upgrade());
        match server().call(&req) {
            Reply::Upgrade { response, remote } => {
                assert_eq!(response.status, 101);
                assert_eq!(
                    headers(&response),
                    vec![
                        ("server", "DTAN"),
                        ("connection", "upgrade"),
                        ("upgrade", "websocket"),
                        ("sec-websocket-accept", "s3pPLMBiTxaQ9kYGzzhZRbK+xOo="),
                    ]
                );
                assert!(response.body.is_empty());
                assert_eq!(remote.port(), 4711);
            }
            Reply::Serve { .. } => panic!("an upgrade"),
        }
    }
}

#[test]
fn no_upgrade_without_both_headers() {
    let key: Option<&[u8]> = Some(b"k");
    assert!(!request(None, Some(b"websocket"), key, "/").is_upgrade());
    assert!(!request(Some(b"upgrade"), None, key, "/").is_upgrade());
    assert!(!request(Some(b"keep-alive, Upgrade"), Some(b"websocket"), key, "/").is_upgrade());
    assert!(!request(Some(b"upgrade"), Some(b"h2c"), key, "/").is_upgrade());
    assert!(!request(Some(b"upgrad"), Some(b"websocket"), key, "/").is_upgrade());
    assert!(!request(Some(b"upgrade "), Some(b"websocket"), key, "/").is_upgrade());
}

#[test]
fn unreadable_headers_are_no_upgrade() {
    let key: Option<&[u8]> = Some(b"k");
    assert!(!request(Some(b"upgrade\xff"), Some(b"websocket"), key, "/").is_upgrade());
    assert!(!request(Some(b"upgrade"), Some(b"websocket\x7f"), key, "/").is_upgrade());
    assert!(!request(Some(b"\0"), Some(b"websocket"), key, "/").is_upgrade());
    assert!(!request(Some("ubgr\u{e4}de".as_bytes()), Some(b"websocket"), key, "/").is_upgrade());
}

#[test]
fn root_is_the_index_page() {
    assert_eq!(served_file("/"), "www/index.html");
    assert_eq!(served_file("/"), served_file("/index.html"));
}

#[test]
fn path_without_its_first_character() {
    assert_eq!(served_file("/assets/app.js"), "www/assets/app.js");
    assert_eq!(served_file("/\u{fc}ber/\u{1f980}"), "www/\u{fc}ber/\u{1f980}");
    assert_eq!(served_file("//x"), "/x");
    assert_eq!(served_file("*"), "www/");
}

/// The path below a directory is the one that the standard library gives.
#[test]
fn files_below_directories() {
    for dir in ["www", "www/", "", "/", "/srv/www", "./www", "a.d//", "\u{fc}"] {
        for path in ["index.html", "a/b.js", "", "/", "/x", "../y", ".", "\u{fc}"] {
            let expected = std::path::Path::new(dir).join(path);
            assert_eq!(file_below(dir, path), expected.to_str().unwrap());
        }
    }
}

#[test]
fn content_types() {
    assert_eq!(content_type(&Some("css".to_string())), "text/css");
    assert_eq!(content_type(&Some("html".to_string())), "text/html");
    assert_eq!(content_type(&Some("js".to_string())), "text/javascript");
    assert_eq!(content_type(&Some("JS".to_string())), "application/octet-stream");
    assert_eq!(content_type(&Some("".to_string())), "application/octet-stream");
    assert_eq!(content_type(&None), "application/octet-stream");
}

#[test]
fn found_file_is_sent() {
    let response = HttpServer::respond("www/index.html", Lookup::Found(b"<p>".to_vec()));
    assert_eq!(response.status, 200);
    assert_eq!(headers(&response), vec![("server", "DTAN"), ("content-type", "text/html")]);
    assert_eq!(response.body, b"<p>");
}

#[test]
fn missing_and_unreadable_files_are_not_found() {
    for found in [Lookup::Missing, Lookup::Unreadable] {
        let response = HttpServer::respond("www/index.html", found);
        assert_eq!(response.status, 404);
        assert_eq!(headers(&response), vec![("server", "DTAN")]);
        assert!(response.body.is_empty());
    }
}

#[test]
fn accept_text_is_base64() {
    assert_eq!(accept_text(&[0; 20]), "AAAAAAAAAAAAAAAAAAAAAAAAAAA=");
    assert_eq!(accept_text(&[255; 20]), "//////////////////////////8=");
    assert_eq!(
        accept_text(&[0, 16, 131, 16, 81, 135, 32, 146, 139, 248, 62, 251, 190, 1, 2, 3, 4, 5, 6, 7]),
        "ABCDEFGHIJKL+D77vgECAwQFBgc="
    );
}

#[test]
fn upgrade_carries_its_accept_key() {
    let response = HttpServer::upgrade("answer");
    assert_eq!(response.status, 101);
    assert_eq!(headers(&response)[3], ("sec-websocket-accept", "answer"));
}

#[test]
fn the_remote_side_is_kept_whole() {
    let remote = Endpoint::V6 { segments: [0xfe80, 0, 0, 0, 0, 0, 0, 1], port: 8000, flowinfo: 7, scope_id: 2 };
    let server = HttpServer::new(remote, "www".to_string());
    let req = request(Some(b"upgrade"), Some(b"websocket"), Some(b"k"), "/");
    match server.call(&req) {
        Reply::Upgrade { remote: Endpoint::V6 { segments, port, flowinfo, scope_id }, .. } => {
            assert_eq!(segments, [0xfe80, 0, 0, 0, 0, 0, 0, 1]);
            assert_eq!((port, flowinfo, scope_id), (8000, 7, 2));
        }
        _ => panic!("an upgrade from an IPv6 address"),
    }
}

/// The extension of a path is the one that the standard library gives.
#[test]
fn extensions_of_paths() {
    for path in [
        "www/index.html", "app.js", "a.b/style.css", "a.b/c", "archive.tar.gz", ".hidden", "www/.hidden",
        ".hidden.css", "name.", "..", "a/..", "a.js/..", ".", "./", "a.css/", "a.css//", "a.css/.", "a.css/./",
        "a.css/././/.", "", "/", "//", "/.", "/x.js", "...", "a/...", "..css", "x/..css", "a.html/b", "./a.js",
        "\u{fc}.css", "\u{1f980}.j\u{e4}s", "a b.js", "www/", "a.css/.b",
    ] {
        let expected = std::path::Path::new(path).extension().and_then(|e| e.to_str()).map(String::from);
        assert_eq!(file_extension(path), expected, "{}", path);
    }
}

#[test]
fn extension_below_a_directory() {
    for path in ["index.html", "assets/app.js", ".hidden", "a.css/", "noext"] {
        for dir in ["", "site.d", "site.d/"] {
            assert_eq!(file_extension(&file_below(dir, path)), file_extension(path));
        }
    }
}

#[test]
fn content_type_follows_the_path() {
    for (path, expected) in [
        ("www/style.css", "text/css"),
        ("www/index.html", "text/html"),
        ("www/a.b/app.js", "text/javascript"),
        ("www/data.json", "application/octet-stream"),
        ("www/css", "application/octet-stream"),
        ("www/.js", "application/octet-stream"),
    ] {
        let response = HttpServer::respond(path, Lookup::Found(vec![1]));
        assert_eq!(headers(&response)[1], ("content-type", expected));
    }
}
