//! Content type of a file, from the magic bytes at its start.
use vstd::prelude::*;

verus! {

/// How many leading bytes of a file are looked at to recognise its type.
pub const SNIFF_LIMIT: usize = 8192;

/// The MIME type that `infer` recognises in a buffer, if any.
pub uninterp spec fn sniffed_mime(buf: Seq<u8>) -> Option<Seq<char>>;

/// Relies on infer::get, which matches the buffer against its table of magic
/// signatures, and on Type::mime_type for the name of the type found.
#[verifier::external_body]
fn sniff(buf: &[u8]) -> (r: Option<String>)
    ensures
        sniffed_mime(buf@) == match r {
            Some(m) => Some(m@),
            None => None::<Seq<char>>,
        },
{
    infer::get(buf).map(|t| t.mime_type().to_string())
}

/// The part of a file's contents that the sniffing reads.
pub open spec fn sniff_window(content: Seq<u8>) -> Seq<u8> {
    if content.len() <= SNIFF_LIMIT {
        content
    } else {
        content.take(SNIFF_LIMIT as int)
    }
}

/// The content type a file is served with, given what sniffing found.
pub open spec fn type_or_plain(sniffed: Option<Seq<char>>) -> Seq<char> {
    match sniffed {
        Some(m) => m,
        None => "text/plain"@,
    }
}

/// The content type a file with these contents is served with.
pub open spec fn file_content_type(content: Seq<u8>) -> Seq<char> {
    type_or_plain(sniffed_mime(sniff_window(content)))
}

/// Chooses the content type from the outcome of sniffing: the type found,
/// or `text/plain` when no signature matched.
pub fn content_type_from(sniffed: Option<String>) -> (r: String)
    ensures
        r@ == type_or_plain(
            match sniffed {
                Some(m) => Some(m@),
                None => None::<Seq<char>>,
            },
        ),
{
    match sniffed {
        Some(m) => m,
        None => "text/plain".to_owned(),
    }
}

/// Infers the content type of a file from its first bytes.
pub fn content_type_of(content: &[u8]) -> (r: String)
    ensures
        r@ == file_content_type(content@),
{
    let n = if content.len() <= SNIFF_LIMIT {
        content.len()
    } else {
        SNIFF_LIMIT
    };
    let window = vstd::slice::slice_subrange(content, 0, n);
    assert(window@ =~= sniff_window(content@));
    content_type_from(sniff(window))
}

} // verus!
