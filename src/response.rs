//! The response: status line, headers and body, assembled as wire bytes.
use vstd::prelude::*;
use vstd::utf8::*;
use crate::codec::decimal;
use crate::codec::decimal_bytes;
use crate::listing::directory_listing;
use crate::listing::listing;
use crate::listing::names_of;
use crate::mime::content_type_of;
use crate::mime::file_content_type;
use crate::paths::is_within;
use crate::paths::parent_of;
use crate::paths::path_parent;
use crate::paths::within;

verus! {

/// The protocol version a response is written in.
#[derive(Debug, Clone, Copy, PartialEq, Eq, Structural)]
pub enum Version {
    V1_1,
}

impl Version {
    pub open spec fn spec_text(self) -> Seq<char> {
        match self {
            Version::V1_1 => "HTTP/1.1"@,
        }
    }

    /// The version as written on the status line.
    pub fn text(&self) -> (r: &'static str)
        ensures
            r@ == self.spec_text(),
    {
        match self {
            Version::V1_1 => "HTTP/1.1",
        }
    }
}

/// The statuses a response can carry.
#[derive(Debug, Clone, Copy, PartialEq, Eq, Structural)]
pub enum ResponseStatus {
    OK,
    NotFound,
}

impl ResponseStatus {
    pub open spec fn spec_code(self) -> u16 {
        match self {
            ResponseStatus::OK => 200,
            ResponseStatus::NotFound => 404,
        }
    }

    pub open spec fn spec_text(self) -> Seq<char> {
        match self {
            ResponseStatus::OK => "200 OK"@,
            ResponseStatus::NotFound => "404 NOT FOUND"@,
        }
    }

    /// The numeric status code.
    pub fn code(&self) -> (r: u16)
        ensures
            r == self.spec_code(),
    {
        match self {
            ResponseStatus::OK => 200,
            ResponseStatus::NotFound => 404,
        }
    }

    /// The code and reason phrase as written on the status line.
    pub fn text(&self) -> (r: &'static str)
        ensures
            r@ == self.spec_text(),
    {
        match self {
            ResponseStatus::OK => "200 OK",
            ResponseStatus::NotFound => "404 NOT FOUND",
        }
    }
}

/// Whether a response advertises byte ranges.
#[derive(Debug, Clone, Copy, PartialEq, Eq, Structural)]
pub enum AcceptRanges {
    Bytes,
    NoRanges,
}

impl AcceptRanges {
    pub open spec fn spec_text(self) -> Seq<char> {
        match self {
            AcceptRanges::Bytes => "accept-ranges: bytes"@,
            AcceptRanges::NoRanges => "accept-ranges: none"@,
        }
    }

    /// The header line that declares it.
    pub fn text(&self) -> (r: &'static str)
        ensures
            r@ == self.spec_text(),
    {
        match self {
            AcceptRanges::Bytes => "accept-ranges: bytes",
            AcceptRanges::NoRanges => "accept-ranges: none",
        }
    }
}

/// The body of every 404 response.
pub const NOT_FOUND_PAGE: &'static str = "
                <html>
                <body>
                <h1>404 NOT FOUND</h1>
                </body>
                </html>";

/// The header block: status line, accept-ranges, content-type and
/// content-length, each ended by `\n`, but the last, ended by `\r\n\r\n`.
pub open spec fn header(
    version: Version,
    status: ResponseStatus,
    ranges: AcceptRanges,
    content_type: Seq<char>,
    length: nat,
) -> Seq<u8> {
    encode_utf8(version.spec_text()) + encode_utf8(" "@) + encode_utf8(status.spec_text())
        + encode_utf8("\n"@) + encode_utf8(ranges.spec_text()) + encode_utf8("\ncontent-type: "@)
        + encode_utf8(content_type) + encode_utf8("\ncontent-length: "@) + decimal(length)
        + encode_utf8("\r\n\r\n"@)
}

/// Appends the UTF-8 bytes of `s`.
pub(crate) fn push_text(out: &mut Vec<u8>, s: &str)
    ensures
        final(out)@ == old(out)@ + encode_utf8(s@),
{
    let b = s.as_bytes();
    push_bytes(out, b);
}

/// Appends `b`.
pub(crate) fn push_bytes(out: &mut Vec<u8>, b: &[u8])
    ensures
        final(out)@ == old(out)@ + b@,
{
    let ghost start = out@;
    let mut i: usize = 0;
    while i < b.len()
        invariant
            i <= b@.len(),
            out@ == start + b@.subrange(0, i as int),
        decreases b@.len() - i,
    {
        out.push(b[i]);
        assert(b@.subrange(0, i + 1) =~= b@.subrange(0, i as int).push(b@[i as int]));
        assert(out@ =~= start + b@.subrange(0, i + 1));
        i = i + 1;
    }
    assert(b@.subrange(0, b@.len() as int) =~= b@);
}

/// A complete response, with the wire bytes it is sent as.
#[derive(Debug)]
pub struct HttpResponse {
    pub version: Version,
    pub status: ResponseStatus,
    pub content_length: usize,
    pub accept_ranges: AcceptRanges,
    pub response_body: Vec<u8>,
    pub current_path: String,
    pub content_type: String,
}

impl HttpResponse {
    /// The response carries `body` after its header block, and its
    /// content length is the exact length of `body`.
    pub open spec fn carries(&self, body: Seq<u8>) -> bool {
        &&& self.content_length == body.len()
        &&& self.response_body@ == header(
            self.version,
            self.status,
            self.accept_ranges,
            self.content_type@,
            self.content_length as nat,
        ) + body
    }

    /// Serialises the header block and `body` into one buffer.
    fn assemble(
        status: ResponseStatus,
        accept_ranges: AcceptRanges,
        content_type: String,
        current_path: String,
        body: &[u8],
    ) -> (r: HttpResponse)
        ensures
            r.version == Version::V1_1,
            r.status == status,
            r.accept_ranges == accept_ranges,
            r.content_type@ == content_type@,
            r.current_path@ == current_path@,
            r.carries(body@),
    {
        let version = Version::V1_1;
        let content_length = body.len();
        let mut out: Vec<u8> = Vec::new();
        push_text(&mut out, version.text());
        push_text(&mut out, " ");
        push_text(&mut out, status.text());
        push_text(&mut out, "\n");
        push_text(&mut out, accept_ranges.text());
        push_text(&mut out, "\ncontent-type: ");
        push_text(&mut out, content_type.as_str());
        push_text(&mut out, "\ncontent-length: ");
        let digits = decimal_bytes(content_length);
        push_bytes(&mut out, digits.as_slice());
        push_text(&mut out, "\r\n\r\n");
        assert(out@ =~= header(
            version,
            status,
            accept_ranges,
            content_type@,
            content_length as nat,
        ));
        push_bytes(&mut out, body);
        HttpResponse {
            version,
            status,
            content_length,
            accept_ranges,
            response_body: out,
            current_path,
            content_type,
        }
    }

    /// The 404 response: its fixed page, served as `text/html`.
    pub open spec fn is_not_found(&self, current_path: Seq<char>) -> bool {
        &&& self.version == Version::V1_1
        &&& self.status == ResponseStatus::NotFound
        &&& self.accept_ranges == AcceptRanges::NoRanges
        &&& self.content_type@ == "text/html"@
        &&& self.current_path@ == current_path
        &&& self.carries(encode_utf8(NOT_FOUND_PAGE@))
    }

    /// Builds the 404 response.
    pub fn not_found(current_path: String) -> (r: HttpResponse)
        ensures
            r.is_not_found(current_path@),
    {
        let cur = current_path;
        HttpResponse::assemble(
            ResponseStatus::NotFound,
            AcceptRanges::NoRanges,
            "text/html".to_owned(),
            cur,
            NOT_FOUND_PAGE.as_bytes(),
        )
    }
}

/// What the filesystem holds at a resolved path.
pub enum Content {
    /// A regular file, with its whole contents.
    File(Vec<u8>),
    /// A directory, with the names of its entries in the order they were read.
    Directory(Vec<String>),
    /// Something that is neither, such as a device.
    Other,
}

/// A request path that exists on disk.
pub struct Resolved {
    /// The canonical form of the path: `.`, `..` and symbolic links resolved.
    pub canonical: String,
    /// What is found there.
    pub content: Content,
}

/// Where the "Up One Level" link of a directory listing points.
pub open spec fn up_target(root: Seq<char>, location: Seq<char>) -> Seq<char> {
    match path_parent(location) {
        Some(p) => p,
        None => root,
    }
}

impl HttpResponse {
    /// A file served whole, with the content type its first bytes show.
    pub open spec fn is_file(&self, current_path: Seq<char>, content: Seq<u8>) -> bool {
        &&& self.version == Version::V1_1
        &&& self.status == ResponseStatus::OK
        &&& self.accept_ranges == AcceptRanges::Bytes
        &&& self.content_type@ == file_content_type(content)
        &&& self.current_path@ == current_path
        &&& self.carries(content)
    }

    /// A directory listing page.
    pub open spec fn is_listing(&self, current_path: Seq<char>, page: Seq<u8>) -> bool {
        &&& self.version == Version::V1_1
        &&& self.status == ResponseStatus::OK
        &&& self.accept_ranges == AcceptRanges::NoRanges
        &&& self.content_type@ == "text/html"@
        &&& self.current_path@ == current_path
        &&& self.carries(page)
    }

    /// Builds the response that serves a regular file.
    pub fn file(current_path: String, content: &[u8]) -> (r: HttpResponse)
        ensures
            r.is_file(current_path@, content@),
    {
        let content_type = content_type_of(content);
        HttpResponse::assemble(
            ResponseStatus::OK,
            AcceptRanges::Bytes,
            content_type,
            current_path,
            content,
        )
    }

    /// Builds the response that lists a directory shown at `location`, with a
    /// link to `parent` when one is given.
    pub fn directory(
        current_path: String,
        location: &str,
        parent: Option<&str>,
        entries: &Vec<String>,
    ) -> (r: HttpResponse)
        ensures
            r.is_listing(
                current_path@,
                listing(
                    current_path@,
                    location@,
                    match parent {
                        Some(p) => Some(p@),
                        None => None::<Seq<char>>,
                    },
                    names_of(entries@),
                ),
            ),
    {
        let page = directory_listing(current_path.as_str(), location, parent, entries);
        HttpResponse::assemble(
            ResponseStatus::OK,
            AcceptRanges::NoRanges,
            "text/html".to_owned(),
            current_path,
            page.as_slice(),
        )
    }

    /// Builds the response to a request for `current_path` (already decoded).
    /// `root` is the canonical served root, `location` the served root joined
    /// with the request path, and `resolved` what exists there, if anything.
    /// A path that does not exist, that is neither a file nor a directory, or
    /// whose canonical form lies outside `root`, gets the 404 page. A
    /// directory listing links up to the parent of `location` unless the
    /// directory is the root itself.
    pub fn new(current_path: String, root: &str, location: &str, resolved: Option<Resolved>) -> (r:
        HttpResponse)
        ensures
            r.status == ResponseStatus::OK ==> resolved is Some && within(
                encode_utf8(root@),
                encode_utf8(resolved->Some_0.canonical@),
            ),
            match resolved {
                None => r.is_not_found(current_path@),
                Some(res) => if !within(encode_utf8(root@), encode_utf8(res.canonical@)) {
                    r.is_not_found(current_path@)
                } else {
                    match res.content {
                        Content::File(c) => r.is_file(current_path@, c@),
                        Content::Directory(names) => r.is_listing(
                            current_path@,
                            listing(
                                current_path@,
                                location@,
                                if res.canonical@ == root@ {
                                    None
                                } else {
                                    Some(up_target(root@, location@))
                                },
                                names_of(names@),
                            ),
                        ),
                        Content::Other => r.is_not_found(current_path@),
                    }
                },
            },
    {
        match resolved {
            None => HttpResponse::not_found(current_path),
            Some(res) => {
                if !is_within(root, res.canonical.as_str()) {
                    return HttpResponse::not_found(current_path);
                }
                let at_root = res.canonical == root.to_owned();
                match res.content {
                    Content::File(c) => HttpResponse::file(current_path, c.as_slice()),
                    Content::Directory(names) => {
                        if at_root {
                            HttpResponse::directory(current_path, location, None, &names)
                        } else {
                            let parent = match parent_of(location) {
                                Some(p) => p,
                                None => root.to_owned(),
                            };
                            HttpResponse::directory(
                                current_path,
                                location,
                                Some(parent.as_str()),
                                &names,
                            )
                        }
                    },
                    Content::Other => HttpResponse::not_found(current_path),
                }
            },
        }
    }
}

} // verus!
