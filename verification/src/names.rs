//! File names, log excerpts and media types for downloaded books.
use vstd::prelude::*;
use crate::text::{
    before_char, char_len_utf8, chars_eq_str, chars_of, floor_prefix, lemma_floor_prefix_is,
    is_space, lemma_floor_prefix_props, lemma_trim_contains, lemma_trim_end_prefix,
    lemma_trim_ends, lemma_trim_fixed, lemma_utf8_len_concat,
    lemma_utf8_len_prefix, lemma_utf8_len_push, lower_ascii_chars, push_char, push_str, string_of,
    to_lower_ascii, trim, trim_chars, trim_end, trim_end_chars, utf8_len,
};

verus! {

/// Longest file name stem, in bytes, before it is shortened.
pub const MAX_FILENAME_STEM: usize = 100;

/// Longest excerpt of a response body written to the log, in bytes.
pub const LOG_BODY_LIMIT: usize = 512;

/// Characters that may not appear in a file name on common systems.
pub open spec fn is_forbidden(c: char) -> bool {
    c == '/' || c == '\\' || c == ':' || c == '*' || c == '?' || c == '"' || c == '<' || c == '>'
        || c == '|'
}

/// `c`, or `_` where `c` may not appear in a file name.
pub open spec fn replace_forbidden(c: char) -> char {
    if is_forbidden(c) {
        '_'
    } else {
        c
    }
}

pub open spec fn all_underscores(s: Seq<char>) -> bool {
    forall|i: int| 0 <= i < s.len() ==> #[trigger] s[i] == '_'
}

/// The file name stem made of a title or an author name: forbidden
/// characters become `_`, surrounding white space goes, an empty or all-`_`
/// result becomes `book`, and a stem longer than `MAX_FILENAME_STEM` bytes is
/// cut at a character boundary to 97 bytes, stripped of trailing white space,
/// and marked with `...`.
pub open spec fn sanitized_name(name: Seq<char>) -> Seq<char> {
    let cleaned = trim(name.map_values(|c: char| replace_forbidden(c)));
    if cleaned.len() == 0 || all_underscores(cleaned) {
        "book"@
    } else if utf8_len(cleaned) <= MAX_FILENAME_STEM {
        cleaned
    } else {
        trim_end(floor_prefix(cleaned, (MAX_FILENAME_STEM - 3) as nat)) + "..."@
    }
}

/// A log excerpt: the longest prefix of `text` within `max` bytes, followed
/// by `…` when something was cut off.
pub open spec fn log_excerpt(text: Seq<char>, max: nat) -> Seq<char> {
    let cut = floor_prefix(text, max);
    if cut.len() < text.len() {
        cut.push('…')
    } else {
        cut
    }
}

/// The media type of a `Content-Type` value: the part before any `;`,
/// trimmed and in ASCII lower case.
pub open spec fn media_type_of(content_type: Seq<char>) -> Seq<char> {
    to_lower_ascii(trim(before_char(content_type, ';')))
}

/// The file extension for a known book media type.
pub open spec fn extension_for(media_type: Seq<char>) -> Option<Seq<char>> {
    if media_type == "application/pdf"@ {
        Some("pdf"@)
    } else if media_type == "application/epub+zip"@ {
        Some("epub"@)
    } else if media_type == "application/x-mobipocket-ebook"@ {
        Some("mobi"@)
    } else if media_type == "application/x-fictionbook+xml"@ || media_type == "text/xml"@
        || media_type == "application/xml"@ {
        Some("fb2"@)
    } else {
        None
    }
}

/// Each book format gets its own extension: `pdf` exactly for
/// `application/pdf`, `epub` exactly for `application/epub+zip`, `mobi`
/// exactly for `application/x-mobipocket-ebook`, and `fb2` exactly for the
/// FictionBook and XML types; any other media type gets none.
pub proof fn lemma_extensions(m: Seq<char>)
    ensures
        extension_for(m) == Some::<Seq<char>>("pdf"@) <==> m == "application/pdf"@,
        extension_for(m) == Some::<Seq<char>>("epub"@) <==> m == "application/epub+zip"@,
        extension_for(m) == Some::<Seq<char>>("mobi"@) <==> m == "application/x-mobipocket-ebook"@,
        extension_for(m) == Some::<Seq<char>>("fb2"@) <==> (m == "application/x-fictionbook+xml"@ || m
            == "text/xml"@ || m == "application/xml"@),
        extension_for(m) is Some <==> (m == "application/pdf"@ || m == "application/epub+zip"@
            || m == "application/x-mobipocket-ebook"@ || m == "application/x-fictionbook+xml"@
            || m == "text/xml"@ || m == "application/xml"@),
{
    reveal_strlit("pdf");
    reveal_strlit("epub");
    reveal_strlit("mobi");
    reveal_strlit("fb2");
    let (p, e, o, f) = ("pdf"@, "epub"@, "mobi"@, "fb2"@);
    assert(p[0] != e[0] && p[0] != o[0] && p[0] != f[0] && e[0] != o[0] && e[0] != f[0] && o[0]
        != f[0]);
    assert(p != e && p != o && p != f && e != o && e != f && o != f);
    reveal_strlit("application/pdf");
    reveal_strlit("application/epub+zip");
    reveal_strlit("application/x-mobipocket-ebook");
    reveal_strlit("application/x-fictionbook+xml");
    reveal_strlit("text/xml");
    reveal_strlit("application/xml");
    let t1 = "application/pdf"@;
    let t2 = "application/epub+zip"@;
    let t3 = "application/x-mobipocket-ebook"@;
    let t4 = "application/x-fictionbook+xml"@;
    let t5 = "text/xml"@;
    let t6 = "application/xml"@;
    assert(t1.len() != t2.len() && t1.len() != t3.len() && t1.len() != t4.len() && t1.len()
        != t5.len());
    assert(t1[12] != t6[12]);
    assert(t2.len() != t3.len() && t2.len() != t4.len() && t2.len() != t5.len() && t2.len()
        != t6.len());
    assert(t3.len() != t4.len() && t3.len() != t5.len() && t3.len() != t6.len());
    assert(t1 != t2 && t1 != t3 && t1 != t4 && t1 != t5 && t1 != t6);
    assert(t2 != t3 && t2 != t4 && t2 != t5 && t2 != t6);
    assert(t3 != t4 && t3 != t5 && t3 != t6);
}

pub open spec fn opt_static_view(o: Option<&'static str>) -> Option<Seq<char>> {
    match o {
        Some(s) => Some(s@),
        None => None,
    }
}

/// The longest prefix of `text` that takes at most `max_bytes` bytes; it
/// never ends inside a character.
pub fn floor_char_boundary(text: &str, max_bytes: usize) -> (cut: &str)
    ensures
        cut@ == floor_prefix(text@, max_bytes as nat),
{
    let chars = chars_of(text);
    let n = chars.len();
    let mut used: usize = 0;
    let mut k: usize = 0;
    while k < n
        invariant
            n == chars.len(),
            chars@ == text@,
            k <= n,
            used as nat == utf8_len(text@.take(k as int)),
            used <= max_bytes,
        decreases n - k,
    {
        let w = char_len_utf8(chars[k]);
        proof {
            assert(text@.take(k + 1) =~= text@.take(k as int).push(text@[k as int]));
            lemma_utf8_len_push(text@.take(k as int), text@[k as int]);
        }
        if w > max_bytes - used {
            proof {
                lemma_floor_prefix_is(text@, max_bytes as nat, k as int);
            }
            return text.substring_char(0, k);
        }
        used = used + w;
        k = k + 1;
    }
    proof {
        lemma_floor_prefix_is(text@, max_bytes as nat, k as int);
    }
    text.substring_char(0, k)
}

/// Whether the UTF-8 encoding of `v` takes at most `max` bytes.
pub fn fits_in_bytes(v: &Vec<char>, max: usize) -> (r: bool)
    ensures
        r == (utf8_len(v@) <= max),
{
    let n = v.len();
    let mut used: usize = 0;
    for k in 0..n
        invariant
            n == v.len(),
            used as nat == utf8_len(v@.take(k as int)),
            used <= max,
    {
        let w = char_len_utf8(v[k]);
        proof {
            assert(v@.take(k + 1) =~= v@.take(k as int).push(v@[k as int]));
            lemma_utf8_len_push(v@.take(k as int), v@[k as int]);
        }
        if w > max - used {
            proof {
                lemma_utf8_len_prefix(v@, k + 1, n as int);
                assert(v@.take(n as int) =~= v@);
            }
            return false;
        }
        used = used + w;
    }
    assert(v@.take(n as int) =~= v@);
    true
}

/// A file name stem made from a title or an author name.
pub fn sanitize_filename(name: &str) -> (r: String)
    ensures
        r@ == sanitized_name(name@),
{
    let chars = chars_of(name);
    let n = chars.len();
    let mut replaced: Vec<char> = Vec::new();
    for i in 0..n
        invariant
            n == chars.len(),
            chars@ == name@,
            replaced@ == name@.take(i as int).map_values(|c: char| replace_forbidden(c)),
    {
        let c = chars[i];
        let d = if c == '/' || c == '\\' || c == ':' || c == '*' || c == '?' || c == '"' || c
            == '<' || c == '>' || c == '|' {
            '_'
        } else {
            c
        };
        replaced.push(d);
        assert(name@.take(i + 1).map_values(|c: char| replace_forbidden(c)) =~= name@.take(
            i as int,
        ).map_values(|c: char| replace_forbidden(c)).push(replace_forbidden(c)));
    }
    assert(name@.take(n as int) =~= name@);
    let cleaned = trim_chars(&replaced);
    let mut only_underscores = true;
    let m = cleaned.len();
    for i in 0..m
        invariant
            m == cleaned.len(),
            only_underscores == all_underscores(cleaned@.take(i as int)),
    {
        let ghost before = cleaned@.take(i as int);
        let ghost after = cleaned@.take(i + 1);
        assert(after =~= before.push(cleaned@[i as int]));
        if cleaned[i] != '_' {
            only_underscores = false;
            assert(after[i as int] != '_');
        } else {
            assert(all_underscores(before) ==> all_underscores(after)) by {
                if all_underscores(before) {
                    assert forall|j: int| 0 <= j < after.len() implies #[trigger] after[j] == '_' by {
                        if j < i {
                            assert(after[j] == before[j]);
                        }
                    }
                }
            }
            assert(all_underscores(after) ==> all_underscores(before)) by {
                if all_underscores(after) {
                    assert forall|j: int| 0 <= j < before.len() implies #[trigger] before[j] == '_' by {
                        assert(after[j] == before[j]);
                    }
                }
            }
        }
    }
    assert(cleaned@.take(m as int) =~= cleaned@);
    if m == 0 || only_underscores {
        return String::from_str("book");
    }
    let cleaned_str = string_of(&cleaned);
    if fits_in_bytes(&cleaned, MAX_FILENAME_STEM) {
        return cleaned_str;
    }
    let cut = floor_char_boundary(cleaned_str.as_str(), MAX_FILENAME_STEM - 3);
    let cut_chars = chars_of(cut);
    let trimmed = trim_end_chars(&cut_chars);
    let mut out = string_of(&trimmed);
    push_str(&mut out, "...");
    out
}

/// An excerpt of `text` for the log: at most `max_bytes` bytes, with `…`
/// appended when it was shortened.
pub fn truncate_for_log(text: &str, max_bytes: usize) -> (r: String)
    ensures
        r@ == log_excerpt(text@, max_bytes as nat),
{
    let cut = floor_char_boundary(text, max_bytes);
    let mut out = cut.to_owned();
    if chars_of(cut).len() < chars_of(text).len() {
        push_char(&mut out, '…');
    }
    out
}

/// The file extension for the book media type named in a `Content-Type`
/// value, if it is one the library knows.
pub fn extension_from_content_type(content_type: &str) -> (r: Option<&'static str>)
    ensures
        opt_static_view(r) == extension_for(media_type_of(content_type@)),
{
    let chars = chars_of(content_type);
    let n = chars.len();
    let mut head: Vec<char> = Vec::new();
    let mut i: usize = 0;
    assert(content_type@.skip(0) =~= content_type@);
    assert(head@ + before_char(content_type@, ';') =~= before_char(content_type@, ';'));
    while i < n && chars[i] != ';'
        invariant
            n == chars.len(),
            chars@ == content_type@,
            i <= n,
            head@ == content_type@.take(i as int),
            before_char(content_type@, ';') == head@ + before_char(content_type@.skip(i as int), ';'),
        decreases n - i,
    {
        let ghost rest = content_type@.skip(i as int);
        assert(rest.drop_first() =~= content_type@.skip(i + 1));
        assert(seq![rest[0]] + before_char(rest.drop_first(), ';') == before_char(rest, ';'));
        head.push(chars[i]);
        assert(content_type@.take(i + 1) =~= content_type@.take(i as int).push(chars@[i as int]));
        assert(head@ + before_char(content_type@.skip(i + 1), ';') =~= content_type@.take(
            i as int,
        ) + (seq![rest[0]] + before_char(rest.drop_first(), ';')));
        i = i + 1;
    }
    proof {
        let rest = content_type@.skip(i as int);
        if i < n {
            assert(rest[0] == ';');
        }
        assert(before_char(rest, ';') =~= Seq::<char>::empty());
        assert(head@ + Seq::<char>::empty() =~= head@);
    }
    let trimmed = trim_chars(&head);
    let media = lower_ascii_chars(&trimmed);
    if chars_eq_str(&media, "application/pdf") {
        Some("pdf")
    } else if chars_eq_str(&media, "application/epub+zip") {
        Some("epub")
    } else if chars_eq_str(&media, "application/x-mobipocket-ebook") {
        Some("mobi")
    } else if chars_eq_str(&media, "application/x-fictionbook+xml") || chars_eq_str(
        &media,
        "text/xml",
    ) || chars_eq_str(&media, "application/xml") {
        Some("fb2")
    } else {
        None
    }
}

// ---------------------------------------------------------------------------
// Laws
// ---------------------------------------------------------------------------

/// ASCII text takes one byte per character.
proof fn lemma_utf8_len_ascii(s: Seq<char>)
    requires
        forall|i: int| 0 <= i < s.len() ==> (#[trigger] s[i] as u32) <= 0x7F,
    ensures
        utf8_len(s) == s.len(),
    decreases s.len(),
{
    if s.len() == 0 {
        assert(utf8_len(s) == 0);
    } else {
        lemma_utf8_len_ascii(s.drop_last());
        assert(s =~= s.drop_last().push(s.last()));
        lemma_utf8_len_push(s.drop_last(), s.last());
    }
}

/// The cut that `floor_char_boundary` makes: a prefix of the text that fits
/// in the limit, and the longest one that does, so that it never ends inside
/// a character.
pub proof fn lemma_floor_cut(s: Seq<char>, max: nat)
    ensures
        floor_prefix(s, max).len() <= s.len(),
        floor_prefix(s, max) == s.take(floor_prefix(s, max).len() as int),
        utf8_len(floor_prefix(s, max)) <= max,
        floor_prefix(s, max).len() < s.len() ==> utf8_len(
            s.take(floor_prefix(s, max).len() + 1 as int),
        ) > max,
    decreases s.len(),
{
    lemma_floor_prefix_props(s, max);
    let c = floor_prefix(s, max);
    if c.len() == 0 {
        assert(utf8_len(c) == 0);
    }
    if !(utf8_len(s) <= max || s.len() == 0) {
        let t = s.drop_last();
        lemma_floor_cut(t, max);
        if c.len() < t.len() {
            assert(t.take(c.len() + 1 as int) =~= s.take(c.len() + 1 as int));
        } else {
            assert(s.take(c.len() + 1 as int) =~= s);
        }
    }
}

/// A file name stem is never empty, holds none of the characters that file
/// systems refuse, and takes at most `MAX_FILENAME_STEM` bytes.
pub proof fn lemma_sanitized_name_is_safe(name: Seq<char>)
    ensures
        sanitized_name(name).len() > 0,
        forall|i: int|
            0 <= i < sanitized_name(name).len() ==> !is_forbidden(#[trigger] sanitized_name(name)[i]),
        utf8_len(sanitized_name(name)) <= MAX_FILENAME_STEM,
{
    reveal_strlit("book");
    reveal_strlit("...");
    let mapped = name.map_values(|c: char| replace_forbidden(c));
    let cleaned = trim(mapped);
    lemma_trim_contains(mapped);
    assert forall|i: int| 0 <= i < cleaned.len() implies !is_forbidden(#[trigger] cleaned[i]) by {
        let j = choose|j: int| 0 <= j < mapped.len() && mapped[j] == cleaned[i];
        assert(mapped[j] == replace_forbidden(name[j]));
    }
    let r = sanitized_name(name);
    if cleaned.len() == 0 || all_underscores(cleaned) {
        lemma_utf8_len_ascii("book"@);
    } else if utf8_len(cleaned) <= MAX_FILENAME_STEM {
    } else {
        let fp = floor_prefix(cleaned, (MAX_FILENAME_STEM - 3) as nat);
        lemma_floor_cut(cleaned, (MAX_FILENAME_STEM - 3) as nat);
        let te = trim_end(fp);
        lemma_trim_end_prefix(fp);
        lemma_utf8_len_prefix(fp, te.len() as int, fp.len() as int);
        assert(fp.take(fp.len() as int) =~= fp);
        lemma_utf8_len_ascii("..."@);
        lemma_utf8_len_concat(te, "..."@);
        assert forall|i: int| 0 <= i < r.len() implies !is_forbidden(#[trigger] r[i]) by {
            if i < te.len() {
                assert(r[i] == te[i]);
                assert(te[i] == fp[i]);
                assert(fp[i] == cleaned[i]);
            } else {
                assert(r[i] == "..."@[i - te.len()]);
            }
        }
    }
}

/// Sanitizing a file name stem a second time changes nothing.
pub proof fn lemma_sanitize_idempotent(name: Seq<char>)
    ensures
        sanitized_name(sanitized_name(name)) == sanitized_name(name),
{
    reveal_strlit("book");
    reveal_strlit("...");
    let r = sanitized_name(name);
    lemma_sanitized_name_is_safe(name);
    assert(r.map_values(|c: char| replace_forbidden(c)) =~= r);
    let mapped = name.map_values(|c: char| replace_forbidden(c));
    let cleaned = trim(mapped);
    lemma_trim_ends(mapped);
    if cleaned.len() == 0 || all_underscores(cleaned) {
        assert(r == "book"@);
        assert(r[0] == 'b' && r.last() == 'k');
        assert(r[r.len() - 1] != '_');
    } else if utf8_len(cleaned) <= MAX_FILENAME_STEM {
        assert(r == cleaned);
    } else {
        let fp = floor_prefix(cleaned, (MAX_FILENAME_STEM - 3) as nat);
        lemma_floor_prefix_props(cleaned, (MAX_FILENAME_STEM - 3) as nat);
        let te = trim_end(fp);
        lemma_trim_end_prefix(fp);
        assert(r == te + "..."@);
        assert(r.last() == '.');
        assert(r[r.len() - 1] != '_');
        if te.len() > 0 {
            assert(r[0] == te[0]);
            assert(te[0] == fp[0]);
            assert(fp[0] == cleaned[0]);
        } else {
            assert(r[0] == '.');
        }
    }
    assert(!is_space(r[0]) && !is_space(r.last()));
    lemma_trim_fixed(r);
    assert(!all_underscores(r));
}

/// A log excerpt takes at most the limit and the three bytes of `…`.
pub proof fn lemma_log_excerpt_fits(text: Seq<char>, max: nat)
    ensures
        utf8_len(log_excerpt(text, max)) <= max + 3,
        log_excerpt(text, max).len() <= text.len() + 1,
{
    lemma_floor_cut(text, max);
    let cut = floor_prefix(text, max);
    if cut.len() < text.len() {
        lemma_utf8_len_push(cut, '…');
    }
}

} // verus!
