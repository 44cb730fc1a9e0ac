//! Request paths and filesystem paths, as the responder reads them.
use vstd::prelude::*;
use vstd::utf8::*;

verus! {

/// `target` lies in the subtree rooted at `root`: it is `root` itself, or it
/// continues `root` past a `/` separator. Both are read as UTF-8 bytes.
pub open spec fn within(root: Seq<u8>, target: Seq<u8>) -> bool {
    target == root || (root.len() < target.len() && target.subrange(0, root.len() as int) == root
        && ((root.len() > 0 && root.last() == 0x2F) || target[root.len() as int] == 0x2F))
}

/// Tells whether the canonical path `target` stays inside the canonical `root`.
pub fn is_within(root: &str, target: &str) -> (r: bool)
    ensures
        r == within(encode_utf8(root@), encode_utf8(target@)),
{
    let rb = root.as_bytes();
    let tb = target.as_bytes();
    if tb.len() < rb.len() {
        return false;
    }
    let mut i: usize = 0;
    while i < rb.len()
        invariant
            i <= rb@.len() <= tb@.len(),
            rb@ == encode_utf8(root@),
            tb@ == encode_utf8(target@),
            forall|j: int| 0 <= j < i ==> rb@[j] == tb@[j],
        decreases rb@.len() - i,
    {
        if rb[i] != tb[i] {
            assert(tb@.subrange(0, rb@.len() as int)[i as int] != rb@[i as int]);
            assert(tb@[i as int] != rb@[i as int]);
            return false;
        }
        i = i + 1;
    }
    assert(tb@.subrange(0, rb@.len() as int) =~= rb@);
    if tb.len() == rb.len() {
        assert(tb@ =~= rb@);
        true
    } else {
        (rb.len() > 0 && rb[rb.len() - 1] == 0x2F) || tb[rb.len()] == 0x2F
    }
}

/// The request path with exactly one leading `/` taken off, if it has one,
/// ready to be joined onto the served root.
pub fn relative_part(current_path: &str) -> (r: &str)
    ensures
        encode_utf8(r@) == if encode_utf8(current_path@).len() > 0 && encode_utf8(current_path@)[0]
            == 0x2F {
            encode_utf8(current_path@).drop_first()
        } else {
            encode_utf8(current_path@)
        },
{
    let b = current_path.as_bytes();
    if b.len() > 0 && b[0] == 0x2F {
        proof {
            encode_utf8_valid_utf8(current_path@);
            reveal_with_fuel(is_char_boundary, 2);
        }
        let (_, rest) = current_path.split_at(1);
        rest
    } else {
        current_path
    }
}

/// `b` with every backslash turned into a forward slash.
pub open spec fn unix_style(b: Seq<u8>) -> Seq<u8> {
    b.map_values(|c: u8| if c == 0x5C { 0x2Fu8 } else { c })
}

/// The bytes of `path` with Windows separators shown as `/`.
/// A backslash byte never occurs inside a multi-byte UTF-8 sequence, so this
/// replaces exactly the backslash characters.
pub fn to_unix_style(path: &str) -> (r: Vec<u8>)
    ensures
        r@ == unix_style(encode_utf8(path@)),
{
    let b = path.as_bytes();
    let mut out: Vec<u8> = Vec::new();
    let mut i: usize = 0;
    while i < b.len()
        invariant
            i <= b@.len(),
            out@ == unix_style(b@.subrange(0, i as int)),
        decreases b@.len() - i,
    {
        let c = if b[i] == 0x5C { 0x2Fu8 } else { b[i] };
        out.push(c);
        assert(b@.subrange(0, i + 1) =~= b@.subrange(0, i as int).push(b@[i as int]));
        assert(out@ =~= unix_style(b@.subrange(0, i + 1)));
        i = i + 1;
    }
    assert(b@.subrange(0, b@.len() as int) =~= b@);
    out
}

/// What `Path::parent` gives for a path: the path without its last component,
/// or nothing for a root or an empty path.
pub uninterp spec fn path_parent(p: Seq<char>) -> Option<Seq<char>>;

/// Relies on std's Path::parent, read back as text. The parent of a UTF-8
/// path is a prefix of it, so the lossy reading changes nothing.
#[verifier::external_body]
pub(crate) fn parent_of(p: &str) -> (r: Option<String>)
    ensures
        path_parent(p@) == match r {
            Some(s) => Some(s@),
            None => None::<Seq<char>>,
        },
{
    std::path::Path::new(p).parent().map(|q| q.to_string_lossy().into_owned())
}

} // verus!
