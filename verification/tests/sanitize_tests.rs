use rusty_httpd::content_type::ContentType;
use rusty_httpd::web_handler::{check_filename, header_is_complete, sanitize_path, WebHandler};

#[test]
fn sanitize_root_serves_index() {
    assert_eq!(sanitize_path("/").unwrap(), "index.html");
    assert_eq!(sanitize_path("").unwrap(), "index.html");
    assert_eq!(sanitize_path("///").unwrap(), "index.html");
}

#[test]
fn sanitize_plain_paths() {
    assert_eq!(sanitize_path("/a/b/c.txt").unwrap(), "a/b/c.txt");
    assert_eq!(sanitize_path("a/b").unwrap(), "a/b");
    assert_eq!(sanitize_path("/a//b").unwrap(), "a/b");
}

#[test]
fn sanitize_backslash_separates() {
    assert_eq!(sanitize_path("a\\b").unwrap(), "a/b");
    assert_eq!(sanitize_path("\\a\\b.txt").unwrap(), "a/b.txt");
}

#[test]
fn sanitize_current_dir_ignored() {
    assert_eq!(sanitize_path("/./a/./b").unwrap(), "a/b");
    assert_eq!(sanitize_path(".").unwrap(), "index.html");
}

#[test]
fn sanitize_parent_pops() {
    assert_eq!(sanitize_path("/a/b/../c").unwrap(), "a/c");
    assert_eq!(sanitize_path("/a/..").unwrap(), "index.html");
}

#[test]
fn sanitize_rejects_escape_above_root() {
    assert!(sanitize_path("/../etc/passwd").is_none());
    assert!(sanitize_path("..").is_none());
    assert!(sanitize_path("/a/../../b").is_none());
    assert!(sanitize_path("a/b/../../../c").is_none());
}

#[test]
fn sanitize_rejects_hidden_names() {
    assert!(sanitize_path("/.hidden").is_none());
    assert!(sanitize_path("/a/.git/config").is_none());
    assert!(sanitize_path("...").is_none());
}

#[test]
fn sanitize_rejects_illegal_characters() {
    assert!(sanitize_path("/a<b").is_none());
    assert!(sanitize_path("/a>b").is_none());
    assert!(sanitize_path("/C:/windows").is_none());
    assert!(sanitize_path("/a\"b").is_none());
    assert!(sanitize_path("/a|b").is_none());
    assert!(sanitize_path("/a?b").is_none());
    assert!(sanitize_path("/a*b").is_none());
}

#[test]
fn filename_check_rules() {
    let ok: Vec<char> = "page.html".chars().collect();
    assert!(check_filename(&ok));
    let dot: Vec<char> = ".env".chars().collect();
    assert!(!check_filename(&dot));
    let colon: Vec<char> = "a:b".chars().collect();
    assert!(!check_filename(&colon));
    let empty: Vec<char> = Vec::new();
    assert!(!check_filename(&empty));
}

#[test]
fn resolve_target_joins_root() {
    let handler = WebHandler::new("/srv/public".to_string(), Some(15000));
    assert_eq!(
        handler.resolve_target("/a/b.txt").unwrap(),
        "/srv/public/a/b.txt"
    );
    assert_eq!(handler.resolve_target("/").unwrap(), "/srv/public/index.html");
    assert!(handler.resolve_target("/../secret").is_none());
}

#[test]
fn content_type_from_path() {
    assert_eq!(ContentType::from_path("/x/index.html").unwrap(), ContentType::HTML);
    assert_eq!(ContentType::from_path("a.htm").unwrap(), ContentType::HTML);
    assert_eq!(ContentType::from_path("pic.PNG").unwrap(), ContentType::PNG);
    assert_eq!(ContentType::from_path("a.tar.gz").unwrap(), ContentType::GZip);
    assert_eq!(ContentType::from_path("a.jpg").unwrap(), ContentType::JPEG);
    assert_eq!(ContentType::from_path("a.jpe").unwrap(), ContentType::JPEG);
    assert_eq!(ContentType::from_path("a.jpeg").unwrap(), ContentType::JPEG);
    assert_eq!(ContentType::from_path("a.txt").unwrap(), ContentType::Text);
    assert_eq!(ContentType::from_path("a.css").unwrap(), ContentType::CSS);
    assert_eq!(ContentType::from_path("a.js").unwrap(), ContentType::JavaScript);
    assert_eq!(ContentType::from_path("a.gif").unwrap(), ContentType::GIF);
    assert_eq!(ContentType::from_path("a.pdf").unwrap(), ContentType::PDF);
    assert_eq!(ContentType::from_path("a.zip").unwrap(), ContentType::ZIP);
    assert_eq!(ContentType::from_path("a.tar").unwrap(), ContentType::Tar);
    assert_eq!(ContentType::from_path("a.xz").unwrap(), ContentType::XZ);
    assert_eq!(ContentType::from_path("a.txz").unwrap(), ContentType::XZ);
    assert_eq!(ContentType::from_path("a.bz2").unwrap(), ContentType::BZip2);
    assert_eq!(ContentType::from_path("a.tbz2").unwrap(), ContentType::BZip2);
    assert_eq!(ContentType::from_path("a.tgz").unwrap(), ContentType::GZip);
    assert_eq!(ContentType::from_path("a.bin").unwrap(), ContentType::Binary);
    assert_eq!(ContentType::from_path("a.dat").unwrap(), ContentType::Binary);
    assert_eq!(ContentType::from_path("a.exe").unwrap(), ContentType::Binary);
    assert!(ContentType::from_path("noext").is_none());
    assert!(ContentType::from_path("a.unknown").is_none());
    assert!(ContentType::from_path("/x/.gitignore").is_none());
}

#[test]
fn content_type_strings() {
    assert_eq!(ContentType::HTML.as_str(), "text/html");
    assert_eq!(ContentType::JPEG.as_str(), "image/jpg");
    assert_eq!(ContentType::Binary.as_str(), "application/octet-stream");
    assert_eq!(ContentType::Text.as_str(), "text/plain");
    assert_eq!(ContentType::PNG.as_str(), "image/png");
}

#[test]
fn header_complete_on_plain_terminator() {
    assert!(header_is_complete(b"GET / HTTP/1.1\r\nHost: x\r\n\r\n"));
    assert!(header_is_complete(b"\r\n\r\n"));
    assert!(header_is_complete(b"partial\r\n\r\ntrailing"));
}

#[test]
fn header_complete_tolerates_gap_whitespace() {
    assert!(header_is_complete(b"a\r\n\t\r\n"));
    assert!(header_is_complete(b"a\r\n \x0b\x0c \r\n"));
}

#[test]
fn header_incomplete_without_terminator() {
    assert!(!header_is_complete(b""));
    assert!(!header_is_complete(b"GET / HTTP/1.1\r\nHost: x\r\n"));
    assert!(!header_is_complete(b"\r\nx\r\n"));
    assert!(!header_is_complete(b"\n\n"));
    let big = vec![b'a'; 1_048_577];
    assert!(!header_is_complete(&big));
}
