//! The HTML page that lists a directory.
use vstd::prelude::*;
use vstd::utf8::*;
use crate::codec::encode_component;
use crate::codec::escape_byte;
use crate::codec::lemma_encoded_concat;
use crate::codec::percent_encoded;
use crate::paths::to_unix_style;
use crate::paths::unix_style;
use crate::response::push_bytes;
use crate::response::push_text;

verus! {

/// One byte of visible text in HTML: markup characters become entities.
pub open spec fn html_escape_byte(b: u8) -> Seq<u8> {
    if b == 0x26 {
        encode_utf8("&amp;"@)
    } else if b == 0x3C {
        encode_utf8("&lt;"@)
    } else if b == 0x3E {
        encode_utf8("&gt;"@)
    } else if b == 0x22 {
        encode_utf8("&quot;"@)
    } else if b == 0x27 {
        encode_utf8("&#39;"@)
    } else {
        seq![b]
    }
}

/// Text made safe to stand between HTML tags.
pub open spec fn html_escaped(b: Seq<u8>) -> Seq<u8>
    decreases b.len(),
{
    if b.len() == 0 {
        Seq::empty()
    } else {
        html_escaped(b.drop_last()) + html_escape_byte(b.last())
    }
}

/// The link to one entry: its href is `{current_path}/{name}` percent-encoded,
/// its text the name, HTML-escaped.
pub open spec fn entry_item(current_path: Seq<char>, name: Seq<char>) -> Seq<u8> {
    encode_utf8("<li><a href=\""@) + percent_encoded(
        encode_utf8(current_path) + seq![0x2Fu8] + encode_utf8(name),
    ) + encode_utf8("\">"@) + html_escaped(encode_utf8(name)) + encode_utf8("</a></li>"@)
}

/// One list item per entry, in the order given.
pub open spec fn entry_items(current_path: Seq<char>, names: Seq<Seq<char>>) -> Seq<u8>
    decreases names.len(),
{
    if names.len() == 0 {
        Seq::empty()
    } else {
        entry_items(current_path, names.drop_last()) + entry_item(current_path, names.last())
    }
}

/// The link to the parent directory, when there is one to show.
pub open spec fn up_link(parent: Option<Seq<char>>) -> Seq<u8> {
    match parent {
        Some(p) => encode_utf8("<p><a href=\""@) + percent_encoded(encode_utf8(p)) + encode_utf8(
            "\">Up One Level</a></p>"@,
        ),
        None => Seq::empty(),
    }
}

/// The whole listing page of a directory shown at `location`.
pub open spec fn listing(
    current_path: Seq<char>,
    location: Seq<char>,
    parent: Option<Seq<char>>,
    names: Seq<Seq<char>>,
) -> Seq<u8> {
    encode_utf8("<html><head><meta charset=\"utf-8\"/></head><body>"@) + encode_utf8(
        "<h1>Directory Listing</h1>"@,
    ) + encode_utf8("<p>Current directory: "@) + unix_style(encode_utf8(location))
        + encode_utf8("</p>"@) + up_link(parent) + encode_utf8("<ul>"@) + entry_items(
        current_path,
        names,
    ) + encode_utf8("</ul></body></html>"@)
}

/// The names of a list of entries, as text.
pub open spec fn names_of(entries: Seq<String>) -> Seq<Seq<char>> {
    entries.map_values(|s: String| s@)
}

/// Appends `b` with HTML markup characters escaped.
fn push_html_escaped(out: &mut Vec<u8>, s: &str)
    ensures
        final(out)@ == old(out)@ + html_escaped(encode_utf8(s@)),
{
    let b = s.as_bytes();
    let ghost start = out@;
    let mut i: usize = 0;
    while i < b.len()
        invariant
            i <= b@.len(),
            out@ == start + html_escaped(b@.subrange(0, i as int)),
        decreases b@.len() - i,
    {
        let c = b[i];
        if c == 0x26 {
            push_text(out, "&amp;");
        } else if c == 0x3C {
            push_text(out, "&lt;");
        } else if c == 0x3E {
            push_text(out, "&gt;");
        } else if c == 0x22 {
            push_text(out, "&quot;");
        } else if c == 0x27 {
            push_text(out, "&#39;");
        } else {
            out.push(c);
        }
        assert(b@.subrange(0, i + 1).drop_last() =~= b@.subrange(0, i as int));
        assert(out@ =~= start + html_escaped(b@.subrange(0, i + 1)));
        i = i + 1;
    }
    assert(b@.subrange(0, b@.len() as int) =~= b@);
}

proof fn lemma_slash_encoded()
    ensures
        percent_encoded(seq![0x2Fu8]) == seq![0x25u8, 0x32u8, 0x46u8],
{
    reveal_with_fuel(percent_encoded, 2);
    assert(seq![0x2Fu8].drop_first() =~= Seq::<u8>::empty());
    assert(percent_encoded(seq![0x2Fu8]) =~= seq![0x25u8, 0x32u8, 0x46u8]);
}

/// Appends the list item of one entry; `encoded_path` is the encoding of `current_path`.
fn push_entry(out: &mut Vec<u8>, current_path: &str, encoded_path: &str, name: &str)
    requires
        encode_utf8(encoded_path@) == percent_encoded(encode_utf8(current_path@)),
    ensures
        final(out)@ == old(out)@ + entry_item(current_path@, name@),
{
    let ghost start = out@;
    push_text(out, "<li><a href=\"");
    push_text(out, encoded_path);
    out.push(0x25);
    out.push(0x32);
    out.push(0x46);
    let encoded_name = encode_component(name);
    push_text(out, encoded_name.as_str());
    push_text(out, "\">");
    push_html_escaped(out, name);
    push_text(out, "</a></li>");
    proof {
        let c = encode_utf8(current_path@);
        let n = encode_utf8(name@);
        lemma_slash_encoded();
        lemma_encoded_concat(c, seq![0x2Fu8]);
        lemma_encoded_concat(c + seq![0x2Fu8], n);
    }
    assert(out@ =~= start + entry_item(current_path@, name@));
}

/// Writes the HTML listing of a directory: where it is, a link up when
/// `parent` is given, and one list item per entry, in the order given.
pub fn directory_listing(
    current_path: &str,
    location: &str,
    parent: Option<&str>,
    entries: &Vec<String>,
) -> (r: Vec<u8>)
    ensures
        r@ == listing(
            current_path@,
            location@,
            match parent {
                Some(p) => Some(p@),
                None => None::<Seq<char>>,
            },
            names_of(entries@),
        ),
{
    let mut out: Vec<u8> = Vec::new();
    push_text(&mut out, "<html><head><meta charset=\"utf-8\"/></head><body>");
    push_text(&mut out, "<h1>Directory Listing</h1>");
    push_text(&mut out, "<p>Current directory: ");
    let shown = to_unix_style(location);
    push_bytes(&mut out, shown.as_slice());
    push_text(&mut out, "</p>");
    match parent {
        Some(p) => {
            push_text(&mut out, "<p><a href=\"");
            let encoded_parent = encode_component(p);
            push_text(&mut out, encoded_parent.as_str());
            push_text(&mut out, "\">Up One Level</a></p>");
        },
        None => {},
    }
    push_text(&mut out, "<ul>");
    let ghost head = out@;
    let encoded_path = encode_component(current_path);
    let mut i: usize = 0;
    while i < entries.len()
        invariant
            i <= entries@.len(),
            encode_utf8(encoded_path@) == percent_encoded(encode_utf8(current_path@)),
            out@ == head + entry_items(current_path@, names_of(entries@.subrange(0, i as int))),
        decreases entries@.len() - i,
    {
        push_entry(&mut out, current_path, encoded_path.as_str(), entries[i].as_str());
        assert(names_of(entries@.subrange(0, i + 1)).drop_last() =~= names_of(
            entries@.subrange(0, i as int),
        ));
        assert(out@ =~= head + entry_items(current_path@, names_of(entries@.subrange(0, i + 1))));
        i = i + 1;
    }
    assert(entries@.subrange(0, entries@.len() as int) =~= entries@);
    push_text(&mut out, "</ul></body></html>");
    assert(out@ =~= listing(
        current_path@,
        location@,
        match parent {
            Some(p) => Some(p@),
            None => None::<Seq<char>>,
        },
        names_of(entries@),
    ));
    out
}

/// How many times `<li>` occurs in `s`.
pub open spec fn count_item_tags(s: Seq<u8>) -> nat
    decreases s.len(),
{
    if s.len() < 4 {
        0
    } else {
        (if s[0] == 0x3C && s[1] == 0x6C && s[2] == 0x69 && s[3] == 0x3E {
            1nat
        } else {
            0nat
        }) + count_item_tags(s.drop_first())
    }
}

/// `s` holds no `<`.
spec fn no_open(s: Seq<u8>) -> bool {
    forall|i: int| 0 <= i < s.len() ==> s[i] != 0x3C
}

/// None of the last three bytes of `s` is `<`: no `<li>` can begin there.
spec fn tail_clear(s: Seq<u8>) -> bool {
    forall|i: int| 0 <= i < s.len() && s.len() - 3 <= i ==> s[i] != 0x3C
}

proof fn lemma_count_concat(a: Seq<u8>, b: Seq<u8>)
    requires
        tail_clear(a) || b.len() == 0 || b[0] == 0x3C,
    ensures
        count_item_tags(a + b) == count_item_tags(a) + count_item_tags(b),
    decreases a.len(),
{
    if a.len() == 0 {
        assert(a + b =~= b);
    } else {
        assert((a + b).drop_first() =~= a.drop_first() + b);
        lemma_count_concat(a.drop_first(), b);
        if a.len() < 4 {
            assert(count_item_tags(a.drop_first()) == 0);
        }
    }
}

proof fn lemma_no_open_count(s: Seq<u8>)
    requires
        no_open(s),
    ensures
        count_item_tags(s) == 0,
    decreases s.len(),
{
    if s.len() >= 4 {
        lemma_no_open_count(s.drop_first());
    }
}

proof fn lemma_tail_clear_append(a: Seq<u8>, b: Seq<u8>)
    requires
        tail_clear(a),
        no_open(b),
    ensures
        tail_clear(a + b),
{
    assert forall|i: int| 0 <= i < (a + b).len() && (a + b).len() - 3 <= i implies (a
        + b)[i] != 0x3C by {
        if i >= a.len() {
            assert((a + b)[i] == b[i - a.len()]);
        }
    }
}

proof fn lemma_concat_no_open(a: Seq<u8>, b: Seq<u8>)
    requires
        no_open(a),
        no_open(b),
    ensures
        no_open(a + b),
{
    assert forall|i: int| 0 <= i < (a + b).len() implies (a + b)[i] != 0x3C by {
        if i >= a.len() {
            assert((a + b)[i] == b[i - a.len()]);
        }
    }
}

proof fn lemma_ascii_bytes(s: Seq<char>)
    requires
        is_ascii_chars(s),
    ensures
        encode_utf8(s) == s.map_values(|c: char| c as u8),
{
    is_ascii_chars_encode_utf8(s);
    assert(encode_utf8(s) =~= s.map_values(|c: char| c as u8));
}

proof fn lemma_encoded_no_open(b: Seq<u8>)
    ensures
        no_open(percent_encoded(b)),
    decreases b.len(),
{
    if b.len() > 0 {
        lemma_encoded_no_open(b.drop_first());
        lemma_concat_no_open(escape_byte(b[0]), percent_encoded(b.drop_first()));
    }
}

proof fn lemma_escaped_no_open(b: Seq<u8>)
    ensures
        no_open(html_escaped(b)),
    decreases b.len(),
{
    if b.len() > 0 {
        lemma_escaped_no_open(b.drop_last());
        reveal_strlit("&amp;");
        reveal_strlit("&lt;");
        reveal_strlit("&gt;");
        reveal_strlit("&quot;");
        reveal_strlit("&#39;");
        lemma_ascii_bytes("&amp;"@);
        lemma_ascii_bytes("&lt;"@);
        lemma_ascii_bytes("&gt;"@);
        lemma_ascii_bytes("&quot;"@);
        lemma_ascii_bytes("&#39;"@);
        lemma_concat_no_open(html_escaped(b.drop_last()), html_escape_byte(b.last()));
    }
}

proof fn lemma_entry_item_count(current_path: Seq<char>, name: Seq<char>)
    ensures
        count_item_tags(entry_item(current_path, name)) == 1,
        entry_item(current_path, name).len() > 0,
        entry_item(current_path, name)[0] == 0x3C,
{
    reveal_strlit("<li><a href=\"");
    reveal_strlit("\">");
    reveal_strlit("</a></li>");
    let l1 = encode_utf8("<li><a href=\""@);
    let l2 = encode_utf8("\">"@);
    let l3 = encode_utf8("</a></li>"@);
    lemma_ascii_bytes("<li><a href=\""@);
    lemma_ascii_bytes("\">"@);
    lemma_ascii_bytes("</a></li>"@);
    let enc = percent_encoded(encode_utf8(current_path) + seq![0x2Fu8] + encode_utf8(name));
    let esc = html_escaped(encode_utf8(name));
    lemma_encoded_no_open(encode_utf8(current_path) + seq![0x2Fu8] + encode_utf8(name));
    lemma_escaped_no_open(encode_utf8(name));
    assert(count_item_tags(l1) == 1) by {
        reveal_with_fuel(count_item_tags, 11);
    }
    assert(count_item_tags(l3) == 0) by {
        reveal_with_fuel(count_item_tags, 7);
    }
    assert(no_open(l2));
    assert(tail_clear(l1));
    lemma_count_concat(l1, enc);
    lemma_no_open_count(enc);
    lemma_tail_clear_append(l1, enc);
    lemma_count_concat(l1 + enc, l2);
    lemma_tail_clear_append(l1 + enc, l2);
    lemma_count_concat(l1 + enc + l2, esc);
    lemma_no_open_count(esc);
    lemma_count_concat(l1 + enc + l2 + esc, l3);
    assert(entry_item(current_path, name) == l1 + enc + l2 + esc + l3);
}

/// The list of a directory page holds exactly one `<li>` per entry: entry
/// links are percent-encoded and entry names HTML-escaped, so no name adds
/// or hides one.
pub proof fn law_one_item_per_entry(current_path: Seq<char>, names: Seq<Seq<char>>)
    ensures
        count_item_tags(entry_items(current_path, names)) == names.len(),
    decreases names.len(),
{
    if names.len() > 0 {
        law_one_item_per_entry(current_path, names.drop_last());
        lemma_entry_item_count(current_path, names.last());
        lemma_count_concat(
            entry_items(current_path, names.drop_last()),
            entry_item(current_path, names.last()),
        );
    }
}

proof fn lemma_no_tag_count(s: Seq<u8>)
    requires
        forall|i: int|
            0 <= i && i + 4 <= s.len() ==> !(#[trigger] s[i] == 0x3C && s[i + 1] == 0x6C && s[i + 2] == 0x69
                && s[i + 3] == 0x3E),
    ensures
        count_item_tags(s) == 0,
    decreases s.len(),
{
    if s.len() >= 4 {
        assert forall|i: int|
            0 <= i && i + 4 <= s.drop_first().len() implies !(#[trigger] s.drop_first()[i] == 0x3C
            && s.drop_first()[i + 1] == 0x6C && s.drop_first()[i + 2] == 0x69 && s.drop_first()[i
            + 3] == 0x3E) by {
            assert(s.drop_first()[i] == s[i + 1]);
        }
        lemma_no_tag_count(s.drop_first());
    }
}

proof fn lemma_tail_clear_suffix(a: Seq<u8>, b: Seq<u8>)
    requires
        tail_clear(b),
        b.len() >= 3,
    ensures
        tail_clear(a + b),
{
    assert forall|i: int| 0 <= i < (a + b).len() && (a + b).len() - 3 <= i implies (a
        + b)[i] != 0x3C by {
        assert((a + b)[i] == b[i - a.len()]);
    }
}

proof fn lemma_up_link_count(parent: Option<Seq<char>>)
    ensures
        count_item_tags(up_link(parent)) == 0,
        up_link(parent).len() == 0 || up_link(parent)[0] == 0x3C,
{
    if let Some(p) = parent {
        reveal_strlit("<p><a href=\"");
        reveal_strlit("\">Up One Level</a></p>");
        let l1 = encode_utf8("<p><a href=\""@);
        let l2 = encode_utf8("\">Up One Level</a></p>"@);
        lemma_ascii_bytes("<p><a href=\""@);
        lemma_ascii_bytes("\">Up One Level</a></p>"@);
        let enc = percent_encoded(encode_utf8(p));
        lemma_encoded_no_open(encode_utf8(p));
        lemma_no_tag_count(l1);
        lemma_no_tag_count(l2);
        lemma_no_open_count(enc);
        assert(tail_clear(l1));
        lemma_count_concat(l1, enc);
        lemma_tail_clear_append(l1, enc);
        lemma_count_concat(l1 + enc, l2);
    }
}

/// A directory page holds exactly one `<li>` per entry, provided the
/// location it shows does not itself spell `<li>`.
pub proof fn law_listing_item_count(
    current_path: Seq<char>,
    location: Seq<char>,
    parent: Option<Seq<char>>,
    names: Seq<Seq<char>>,
)
    requires
        count_item_tags(unix_style(encode_utf8(location))) == 0,
    ensures
        count_item_tags(listing(current_path, location, parent, names)) == names.len(),
{
    let p1 = encode_utf8("<html><head><meta charset=\"utf-8\"/></head><body>"@);
    let p2 = encode_utf8("<h1>Directory Listing</h1>"@);
    let p3 = encode_utf8("<p>Current directory: "@);
    let shown = unix_style(encode_utf8(location));
    let p4 = encode_utf8("</p>"@);
    let up = up_link(parent);
    let p5 = encode_utf8("<ul>"@);
    let items = entry_items(current_path, names);
    let p6 = encode_utf8("</ul></body></html>"@);
    reveal_strlit("<html><head><meta charset=\"utf-8\"/></head><body>");
    reveal_strlit("<h1>Directory Listing</h1>");
    reveal_strlit("<p>Current directory: ");
    reveal_strlit("</p>");
    reveal_strlit("<ul>");
    reveal_strlit("</ul></body></html>");
    lemma_ascii_bytes("<html><head><meta charset=\"utf-8\"/></head><body>"@);
    lemma_ascii_bytes("<h1>Directory Listing</h1>"@);
    lemma_ascii_bytes("<p>Current directory: "@);
    lemma_ascii_bytes("</p>"@);
    lemma_ascii_bytes("<ul>"@);
    lemma_ascii_bytes("</ul></body></html>"@);
    lemma_no_tag_count(p1);
    lemma_no_tag_count(p2);
    lemma_no_tag_count(p3);
    lemma_no_tag_count(p4);
    lemma_no_tag_count(p5);
    lemma_no_tag_count(p6);
    lemma_up_link_count(parent);
    law_one_item_per_entry(current_path, names);
    if names.len() > 0 {
        lemma_first_item(current_path, names);
    }
    lemma_count_concat(p1, p2);
    lemma_count_concat(p1 + p2, p3);
    assert(tail_clear(p3));
    lemma_tail_clear_suffix(p1 + p2, p3);
    lemma_count_concat(p1 + p2 + p3, shown);
    lemma_count_concat(p1 + p2 + p3 + shown, p4);
    lemma_count_concat(p1 + p2 + p3 + shown + p4, up);
    lemma_count_concat(p1 + p2 + p3 + shown + p4 + up, p5);
    lemma_count_concat(p1 + p2 + p3 + shown + p4 + up + p5, items);
    lemma_count_concat(p1 + p2 + p3 + shown + p4 + up + p5 + items, p6);
}

proof fn lemma_first_item(current_path: Seq<char>, names: Seq<Seq<char>>)
    requires
        names.len() > 0,
    ensures
        entry_items(current_path, names).len() > 0,
        entry_items(current_path, names)[0] == 0x3C,
    decreases names.len(),
{
    lemma_entry_item_count(current_path, names.last());
    if names.len() > 1 {
        lemma_first_item(current_path, names.drop_last());
    } else {
        assert(entry_items(current_path, names.drop_last()).len() == 0);
    }
}

} // verus!
