use static_responder::codec::{decimal_bytes, decode_path, encode_component};
use static_responder::listing::directory_listing;
use static_responder::mime::{content_type_from, content_type_of};
use static_responder::paths::{is_within, relative_part, to_unix_style};
use static_responder::response::{
    AcceptRanges, Content, HttpResponse, ResponseStatus, Resolved, Version, NOT_FOUND_PAGE,
};

fn text(b: &[u8]) -> String {
    String::from_utf8(b.to_vec()).unwrap()
}

fn header(status: &str, ranges: &str, content_type: &str, len: usize) -> String {
    format!(
        "HTTP/1.1 {}\naccept-ranges: {}\ncontent-type: {}\ncontent-length: {}\r\n\r\n",
        status, ranges, content_type, len
    )
}

fn dir(canonical: &str, names: &[&str]) -> Option<Resolved> {
    Some(Resolved {
        canonical: canonical.to_string(),
        content: Content::Directory(names.iter().map(|n| n.to_string()).collect()),
    })
}

const PNG: [u8; 16] = [
    0x89, 0x50, 0x4E, 0x47, 0x0D, 0x0A, 0x1A, 0x0A, 0x00, 0x00, 0x00, 0x0D, 0x49, 0x48, 0x44, 0x52,
];

#[test]
fn root_listing_has_no_up_link() {
    let r = HttpResponse::new("/".to_string(), "/srv", "/srv/", dir("/srv", &["a.txt", "sub"]));
    assert_eq!(r.status, ResponseStatus::OK);
    assert_eq!(r.accept_ranges, AcceptRanges::NoRanges);
    assert_eq!(r.content_type, "text/html");
    let page = "<html><head><meta charset=\"utf-8\"/></head><body><h1>Directory Listing</h1>\
                <p>Current directory: /srv/</p><ul>\
                <li><a href=\"%2F%2Fa%2Etxt\">a.txt</a></li>\
                <li><a href=\"%2F%2Fsub\">sub</a></li></ul></body></html>";
    let expected = header("200 OK", "none", "text/html", page.len()) + page;
    assert_eq!(text(&r.response_body), expected);
    assert_eq!(r.content_length, page.len());
    assert!(!text(&r.response_body).contains("Up One Level"));
}

#[test]
fn missing_file_gives_not_found_page() {
    let r = HttpResponse::new(
        "/missing-file.txt".to_string(),
        "/srv",
        "/srv/missing-file.txt",
        None,
    );
    assert_eq!(r.status, ResponseStatus::NotFound);
    assert_eq!(r.status.code(), 404);
    assert_eq!(r.content_type, "text/html");
    assert_eq!(r.content_length, NOT_FOUND_PAGE.len());
    let expected = header("404 NOT FOUND", "none", "text/html", NOT_FOUND_PAGE.len()) + NOT_FOUND_PAGE;
    assert_eq!(text(&r.response_body), expected);
    assert!(NOT_FOUND_PAGE.contains("<h1>404 NOT FOUND</h1>"));
    assert_eq!(r.current_path, "/missing-file.txt");
}

#[test]
fn png_file_is_served_whole_as_image_png() {
    let r = HttpResponse::new(
        "/logo.png".to_string(),
        "/srv",
        "/srv/logo.png",
        Some(Resolved { canonical: "/srv/logo.png".to_string(), content: Content::File(PNG.to_vec()) }),
    );
    assert_eq!(r.status, ResponseStatus::OK);
    assert_eq!(r.status.code(), 200);
    assert_eq!(r.accept_ranges, AcceptRanges::Bytes);
    assert_eq!(r.content_type, "image/png");
    assert_eq!(r.content_length, PNG.len());
    let head = header("200 OK", "bytes", "image/png", PNG.len());
    assert_eq!(&r.response_body[..head.len()], head.as_bytes());
    assert_eq!(&r.response_body[head.len()..], &PNG[..]);
}

#[test]
fn subdirectory_listing_links_up() {
    let r = HttpResponse::new("/sub".to_string(), "/srv", "/srv/sub", dir("/srv/sub", &["x"]));
    assert_eq!(r.status, ResponseStatus::OK);
    let body = text(&r.response_body);
    assert!(body.contains("<p><a href=\"%2Fsrv\">Up One Level</a></p>"));
    assert!(body.contains("<li><a href=\"%2Fsub%2Fx\">x</a></li>"));
    assert_eq!(body.matches("<li>").count(), 1);
}

#[test]
fn plain_text_file_exact_bytes() {
    let r = HttpResponse::file("/a.txt".to_string(), b"hello");
    assert_eq!(
        text(&r.response_body),
        "HTTP/1.1 200 OK\naccept-ranges: bytes\ncontent-type: text/plain\ncontent-length: 5\r\n\r\nhello"
    );
    assert_eq!(r.version, Version::V1_1);
}

#[test]
fn empty_file_has_zero_length() {
    let r = HttpResponse::file("/e".to_string(), b"");
    assert_eq!(r.content_length, 0);
    assert_eq!(text(&r.response_body), header("200 OK", "bytes", "text/plain", 0));
}

#[test]
fn traversal_outside_root_is_not_found() {
    let r = HttpResponse::new(
        "/../etc/passwd".to_string(),
        "/srv",
        "/srv/../etc/passwd",
        Some(Resolved { canonical: "/etc/passwd".to_string(), content: Content::File(b"secret".to_vec()) }),
    );
    assert_eq!(r.status, ResponseStatus::NotFound);
    let r = HttpResponse::new("/../srvx".to_string(), "/srv", "/srv/../srvx", dir("/srvx", &[]));
    assert_eq!(r.status, ResponseStatus::NotFound);
}

#[test]
fn special_file_is_not_found() {
    let r = HttpResponse::new(
        "/dev".to_string(),
        "/srv",
        "/srv/dev",
        Some(Resolved { canonical: "/srv/dev".to_string(), content: Content::Other }),
    );
    assert_eq!(r.status, ResponseStatus::NotFound);
}

#[test]
fn containment_test() {
    assert!(is_within("/srv", "/srv"));
    assert!(is_within("/srv", "/srv/a/b"));
    assert!(is_within("/", "/etc"));
    assert!(!is_within("/srv", "/srvx"));
    assert!(!is_within("/srv", "/etc"));
    assert!(!is_within("/srv/a", "/srv"));
}

#[test]
fn names_round_trip_through_encoding() {
    for name in ["plain", "a b&c", "héllo wörld.txt", "✓ 日本語", "~!@#$%^&*()_+{}|:<>?"] {
        let encoded = encode_component(name);
        assert_eq!(decode_path(&encoded), name);
    }
}

#[test]
fn encoding_escapes_non_alphanumerics() {
    assert_eq!(encode_component("a b/c"), "a%20b%2Fc");
    assert_eq!(encode_component("é"), "%C3%A9");
    assert_eq!(encode_component("Az09"), "Az09");
}

#[test]
fn decoding_percent_sequences() {
    assert_eq!(decode_path("%2Fsub%20dir"), "/sub dir");
    assert_eq!(decode_path("%e2%9c%93"), "✓");
    assert_eq!(decode_path("100%"), "100%");
    assert_eq!(decode_path("%zz"), "%zz");
    assert_eq!(decode_path("%FF"), "\u{FFFD}");
}

#[test]
fn decimal_rendering() {
    assert_eq!(decimal_bytes(0), b"0".to_vec());
    assert_eq!(decimal_bytes(7), b"7".to_vec());
    assert_eq!(decimal_bytes(1234), b"1234".to_vec());
    assert_eq!(decimal_bytes(usize::MAX), usize::MAX.to_string().into_bytes());
}

#[test]
fn unix_style_display() {
    assert_eq!(to_unix_style("C:\\srv\\sub"), b"C:/srv/sub".to_vec());
    assert_eq!(to_unix_style("/srv/sub"), b"/srv/sub".to_vec());
}

#[test]
fn one_leading_slash_is_removed() {
    assert_eq!(relative_part("/a/b"), "a/b");
    assert_eq!(relative_part("//etc"), "/etc");
    assert_eq!(relative_part("a"), "a");
    assert_eq!(relative_part(""), "");
}

#[test]
fn entry_names_are_html_escaped() {
    let names = vec!["<b>&\"'".to_string()];
    let page = text(&directory_listing("", "/srv", None, &names));
    assert!(page.contains("<li><a href=\"%2F%3Cb%3E%26%22%27\">&lt;b&gt;&amp;&quot;&#39;</a></li>"));
}

#[test]
fn listing_has_one_item_per_entry() {
    let names: Vec<String> = (0..5).map(|i| format!("f{}", i)).collect();
    let page = text(&directory_listing("/d", "/srv/d", Some("/srv"), &names));
    assert_eq!(page.matches("<li>").count(), 5);
    assert_eq!(page.matches("Up One Level").count(), 1);
    let empty = text(&directory_listing("/d", "/srv/d", None, &Vec::new()));
    assert!(empty.ends_with("<ul></ul></body></html>"));
}

#[test]
fn content_type_choice() {
    assert_eq!(content_type_from(None), "text/plain");
    assert_eq!(content_type_from(Some("image/gif".to_string())), "image/gif");
    assert_eq!(content_type_of(&PNG), "image/png");
    assert_eq!(content_type_of(b"just text"), "text/plain");
    let mut big = PNG.to_vec();
    big.resize(20000, 0);
    assert_eq!(content_type_of(&big), "image/png");
}

#[test]
fn status_and_ranges_text() {
    assert_eq!(ResponseStatus::OK.text(), "200 OK");
    assert_eq!(ResponseStatus::NotFound.text(), "404 NOT FOUND");
    assert_eq!(AcceptRanges::Bytes.text(), "accept-ranges: bytes");
    assert_eq!(AcceptRanges::NoRanges.text(), "accept-ranges: none");
    assert_eq!(Version::V1_1.text(), "HTTP/1.1");
}
