//! One paper's record: built from what the API returned, with its links
//! repaired, and encoded as one line of the metadata file.
use vstd::prelude::*;
use vstd::string::*;

use crate::text::{chars_of, string_from_chars};

verus! {

#[verifier::external_type_specification]
pub struct ExArxiv(arxiv::Arxiv);

/// A paper's record as the library keeps it. The summary goes to a file of its
/// own and is left out of the metadata line.
#[derive(Clone, Debug, PartialEq, Eq)]
pub struct SerDesArxiv {
    pub id: String,
    pub updated: String,
    pub published: String,
    pub title: String,
    pub summary: String,
    pub authors: Vec<String>,
    pub primary_category: String,
    pub categories: Vec<String>,
    pub pdf_url: String,
    pub html_url: String,
    pub comment: Option<String>,
}

/// `s` with every occurrence of `pat` replaced by `rep`, occurrences found from
/// the left and not overlapping.
pub open spec fn replace_all(s: Seq<char>, pat: Seq<char>, rep: Seq<char>) -> Seq<char>
    recommends
        pat.len() > 0,
    decreases s.len(),
{
    if pat.len() == 0 || s.len() < pat.len() {
        s
    } else if s.take(pat.len() as int) == pat {
        rep + replace_all(s.skip(pat.len() as int), pat, rep)
    } else {
        seq![s[0]] + replace_all(s.drop_first(), pat, rep)
    }
}

/// The scheme typo that the API leaves in some links.
pub open spec fn bad_scheme() -> Seq<char> {
    seq!['h', 't', 't', 'p', 's', 's']
}

pub open spec fn good_scheme() -> Seq<char> {
    seq!['h', 't', 't', 'p', 's']
}

/// A link with the scheme typo repaired wherever it stands.
pub open spec fn repaired_url(url: Seq<char>) -> Seq<char> {
    replace_all(url, bad_scheme(), good_scheme())
}

/// `s` holds no line break.
pub open spec fn has_no_line_break(s: Seq<char>) -> bool {
    forall|i: int| 0 <= i < s.len() ==> s[i] != '\n'
}

proof fn lemma_no_line_break_concat(a: Seq<char>, b: Seq<char>)
    requires
        has_no_line_break(a),
        has_no_line_break(b),
    ensures
        has_no_line_break(a + b),
{
    assert forall|i: int| 0 <= i < (a + b).len() implies (a + b)[i] != '\n' by {
        if i >= a.len() {
            assert((a + b)[i] == b[i - a.len()]);
        }
    }
}

/// The lowercase hexadecimal digit of `d`, below 16.
pub open spec fn hex_digit(d: u32) -> char {
    seq!['0', '1', '2', '3', '4', '5', '6', '7', '8', '9', 'a', 'b', 'c', 'd', 'e', 'f'][d as int]
}

/// How a character is written inside a JSON string: quote, backslash and the
/// control characters escaped, every other character as it is.
pub open spec fn json_escape(c: char) -> Seq<char> {
    if c == '"' {
        seq!['\\', '"']
    } else if c == '\\' {
        seq!['\\', '\\']
    } else if c == '\u{8}' {
        seq!['\\', 'b']
    } else if c == '\t' {
        seq!['\\', 't']
    } else if c == '\n' {
        seq!['\\', 'n']
    } else if c == '\u{c}' {
        seq!['\\', 'f']
    } else if c == '\r' {
        seq!['\\', 'r']
    } else if (c as u32) < 0x20 {
        seq!['\\', 'u', '0', '0', hex_digit(c as u32 / 16), hex_digit(c as u32 % 16)]
    } else {
        seq![c]
    }
}

/// The characters of `s`, each written as inside a JSON string.
pub open spec fn json_escaped(s: Seq<char>) -> Seq<char>
    decreases s.len(),
{
    if s.len() == 0 {
        Seq::empty()
    } else {
        json_escaped(s.drop_last()) + json_escape(s.last())
    }
}

/// The JSON string literal that holds `s`.
pub open spec fn json_string(s: Seq<char>) -> Seq<char> {
    seq!['"'] + json_escaped(s) + seq!['"']
}

/// Relies on `serde_json::to_string` applied to a string: it writes the quoted
/// literal with `format_escaped_str`, which escapes quote, backslash and every
/// control character (`\b \t \n \f \r`, else `\u00` and two lowercase hex
/// digits). Its only error comes from the writer, an in-memory buffer that
/// cannot fail.
#[verifier::external_body]
fn encode_json_string(s: &str) -> (r: String)
    ensures
        r@ == json_string(s@),
{
    serde_json::to_string(s).expect("writing to a String does not fail")
}

proof fn lemma_json_escaped_no_line_break(s: Seq<char>)
    ensures
        has_no_line_break(json_escaped(s)),
    decreases s.len(),
{
    if s.len() > 0 {
        lemma_json_escaped_no_line_break(s.drop_last());
        let c = s.last();
        let e = json_escape(c);
        if (c as u32) < 0x20 && c != '\u{8}' && c != '\t' && c != '\n' && c != '\u{c}' && c
            != '\r' {
            assert((c as u32) / 16 < 16);
            assert(e[4] == hex_digit(c as u32 / 16));
            assert(e[5] == hex_digit(c as u32 % 16));
        }
        assert(has_no_line_break(e));
        lemma_no_line_break_concat(json_escaped(s.drop_last()), e);
    }
}

/// A JSON string literal opens and closes with a quote and holds no line break.
proof fn lemma_json_string_shape(s: Seq<char>)
    ensures
        json_string(s).len() >= 2,
        json_string(s)[0] == '"',
        json_string(s).last() == '"',
        has_no_line_break(json_string(s)),
{
    lemma_json_escaped_no_line_break(s);
    lemma_no_line_break_concat(seq!['"'], json_escaped(s));
    lemma_no_line_break_concat(seq!['"'] + json_escaped(s), seq!['"']);
}

/// Encodes `s` as a JSON string literal.
fn json_text(s: &str) -> (r: String)
    ensures
        r@ == json_string(s@),
        has_no_line_break(r@),
{
    let r = encode_json_string(s);
    proof {
        lemma_json_string_shape(s@);
    }
    r
}

/// The items of a JSON array of strings, separated by commas.
pub open spec fn json_items(items: Seq<String>) -> Seq<char>
    decreases items.len(),
{
    if items.len() == 0 {
        Seq::empty()
    } else if items.len() == 1 {
        json_string(items[0]@)
    } else {
        json_items(items.drop_last()) + ","@ + json_string(items.last()@)
    }
}

/// A JSON array of strings.
pub open spec fn json_list(items: Seq<String>) -> Seq<char> {
    "["@ + json_items(items) + "]"@
}

/// A JSON string, or `null` where there is none.
pub open spec fn json_option(v: Option<String>) -> Seq<char> {
    match v {
        Some(s) => json_string(s@),
        None => "null"@,
    }
}

/// `"key":value`, with the value already encoded.
pub open spec fn json_member(key: Seq<char>, value: Seq<char>) -> Seq<char> {
    "\""@ + key + "\":"@ + value
}

/// The metadata line of a record: one JSON object with the record's fields in
/// declaration order, the summary left out.
pub open spec fn metadata_json(p: SerDesArxiv) -> Seq<char> {
    "{"@ + json_member("id"@, json_string(p.id@)) + ","@ + json_member(
        "updated"@,
        json_string(p.updated@),
    ) + ","@ + json_member("published"@, json_string(p.published@)) + ","@ + json_member(
        "title"@,
        json_string(p.title@),
    ) + ","@ + json_member("authors"@, json_list(p.authors@)) + ","@ + json_member(
        "primary_category"@,
        json_string(p.primary_category@),
    ) + ","@ + json_member("categories"@, json_list(p.categories@)) + ","@ + json_member(
        "pdf_url"@,
        json_string(p.pdf_url@),
    ) + ","@ + json_member("html_url"@, json_string(p.html_url@)) + ","@ + json_member(
        "comment"@,
        json_option(p.comment),
    ) + "}"@
}

/// The metadata line does not depend on the summary: two records that differ in
/// their summary alone give the same line, so no summary ever reaches the
/// metadata file.
pub proof fn lemma_metadata_ignores_summary(p: SerDesArxiv, q: SerDesArxiv)
    requires
        p.id == q.id,
        p.updated == q.updated,
        p.published == q.published,
        p.title == q.title,
        p.authors == q.authors,
        p.primary_category == q.primary_category,
        p.categories == q.categories,
        p.pdf_url == q.pdf_url,
        p.html_url == q.html_url,
        p.comment == q.comment,
    ensures
        metadata_json(p) == metadata_json(q),
{
}

/// The comment member is `null` exactly when the record has no comment: a
/// comment, even an empty one, is written as a quoted string.
pub proof fn lemma_comment_null_only_when_absent(v: Option<String>)
    ensures
        json_option(v) == "null"@ <==> v is None,
{
    reveal_strlit("null");
    if let Some(s) = v {
        assert(json_option(v)[0] == '"');
        assert("null"@[0] == 'n');
    }
}

/// `pat` stands in `s` from index `i` on.
pub open spec fn occurs_at(pat: Seq<char>, s: Seq<char>, i: int) -> bool {
    0 <= i && i + pat.len() <= s.len() && s.subrange(i, i + pat.len()) == pat
}

/// `pat` occurs in `s`.
pub open spec fn occurs_in(pat: Seq<char>, s: Seq<char>) -> bool {
    exists|i: int| #[trigger] occurs_at(pat, s, i)
}

proof fn lemma_replace_all_absent(s: Seq<char>, pat: Seq<char>, rep: Seq<char>)
    requires
        pat.len() > 0,
        !occurs_in(pat, s),
    ensures
        replace_all(s, pat, rep) == s,
    decreases s.len(),
{
    if s.len() >= pat.len() {
        assert(!occurs_at(pat, s, 0));
        assert(s.subrange(0, 0 + pat.len() as int) =~= s.take(pat.len() as int));
        let t = s.drop_first();
        assert(!occurs_in(pat, t)) by {
            if occurs_in(pat, t) {
                let i = choose|i: int| #[trigger] occurs_at(pat, t, i);
                assert(s.subrange(i + 1, i + 1 + pat.len()) =~= t.subrange(i, i + pat.len()));
                assert(occurs_at(pat, s, i + 1));
            }
        }
        lemma_replace_all_absent(t, pat, rep);
        assert(seq![s[0]] + t =~= s);
    }
}

/// A link that begins with the scheme typo, and holds it nowhere else, is kept
/// with `https` in its place and the rest unchanged.
pub proof fn lemma_defect_scheme_becomes_https(rest: Seq<char>)
    requires
        !occurs_in(bad_scheme(), rest),
    ensures
        repaired_url(bad_scheme() + seq![':', '/', '/'] + rest) == good_scheme() + seq![
            ':',
            '/',
            '/',
        ] + rest,
{
    lemma_bad_scheme_repaired(rest);
    let t = seq![':', '/', '/'] + rest;
    assert(!occurs_in(bad_scheme(), t)) by {
        if occurs_in(bad_scheme(), t) {
            let i = choose|i: int| #[trigger] occurs_at(bad_scheme(), t, i);
            if i < 3 {
                assert(t.subrange(i, i + 6)[0] == t[i]);
                assert(t[i] == seq![':', '/', '/'][i]);
            } else {
                assert(rest.subrange(i - 3, i + 3) =~= t.subrange(i, i + 6));
                assert(occurs_at(bad_scheme(), rest, i - 3));
            }
        }
    }
    lemma_replace_all_absent(t, bad_scheme(), good_scheme());
}

/// A link that begins with the scheme typo is kept with `https` in its place.
pub proof fn lemma_bad_scheme_repaired(rest: Seq<char>)
    ensures
        repaired_url(bad_scheme() + seq![':', '/', '/'] + rest) == good_scheme() + repaired_url(
            seq![':', '/', '/'] + rest,
        ),
{
    let s = bad_scheme() + seq![':', '/', '/'] + rest;
    assert(s.take(6) =~= bad_scheme());
    assert(s.skip(6) =~= seq![':', '/', '/'] + rest);
}

/// Appends `"key":` and the encoded value, after a comma unless it is the first
/// member.
fn append_member(out: &mut String, first: bool, key: &str, value: &str)
    requires
        has_no_line_break(key@),
        has_no_line_break(value@),
    ensures
        has_no_line_break(old(out)@) ==> has_no_line_break(final(out)@),
        final(out)@ == old(out)@ + (if first {
            Seq::empty()
        } else {
            ","@
        }) + json_member(key@, value@),
{
    proof {
        reveal_strlit(",");
        reveal_strlit("\"");
        reveal_strlit("\":");
    }
    if !first {
        out.append(",");
    }
    out.append("\"");
    out.append(key);
    out.append("\":");
    out.append(value);
    assert(final(out)@ =~= old(out)@ + (if first {
        Seq::empty()
    } else {
        ","@
    }) + json_member(key@, value@));
}

/// Encodes a list of strings as a JSON array.
fn encode_json_list(items: &Vec<String>) -> (r: String)
    ensures
        r@ == json_list(items@),
        has_no_line_break(r@),
{
    proof {
        reveal_strlit("[");
        reveal_strlit("]");
        reveal_strlit(",");
    }
    let mut out = String::from_str("[");
    let mut i: usize = 0;
    while i < items.len()
        invariant
            i <= items@.len(),
            out@ == "["@ + json_items(items@.take(i as int)),
            has_no_line_break(out@),
        decreases items@.len() - i,
    {
        let ghost before = out@;
        if i > 0 {
            out.append(",");
            proof {
                reveal_strlit(",");
                assert(","@.len() == 1 && ","@[0] == ',');
                lemma_no_line_break_concat(before, ","@);
            }
        }
        let ghost middle = out@;
        let e = json_text(items[i].as_str());
        out.append(e.as_str());
        proof {
            lemma_no_line_break_concat(middle, e@);
        }
        assert(items@.take(i + 1).drop_last() =~= items@.take(i as int));
        assert(out@ =~= "["@ + json_items(items@.take(i + 1)));
        i += 1;
    }
    assert(items@.take(i as int) =~= items@);
    out.append("]");
    out
}

/// Repairs the scheme typo `httpss` to `https` wherever it stands in `url`.
pub fn repair_url(url: &str) -> (r: String)
    ensures
        r@ == repaired_url(url@),
{
    let s = chars_of(url);
    let n = s.len();
    let mut out: Vec<char> = Vec::new();
    let mut i: usize = 0;
    assert(s@.skip(0) =~= s@);
    assert(out@ + repaired_url(s@) =~= repaired_url(s@));
    while i < n
        invariant
            n == s@.len(),
            s@ == url@,
            i <= n,
            repaired_url(s@) == out@ + repaired_url(s@.skip(i as int)),
        decreases n - i,
    {
        let ghost t = s@.skip(i as int);
        let ghost before = out@;
        if n - i >= 6 && s[i] == 'h' && s[i + 1] == 't' && s[i + 2] == 't' && s[i + 3] == 'p' && s[i
            + 4] == 's' && s[i + 5] == 's' {
            assert(t.take(6) =~= bad_scheme());
            assert(t.skip(6) =~= s@.skip(i + 6));
            out.push('h');
            out.push('t');
            out.push('t');
            out.push('p');
            out.push('s');
            assert(out@ =~= before + good_scheme());
            i += 6;
        } else {
            proof {
                if t.len() >= 6 {
                    assert(t.take(6) != bad_scheme()) by {
                    if t.take(6) == bad_scheme() {
                        assert(t.take(6)[0] == s[i as int]);
                        assert(t.take(6)[1] == s[i + 1]);
                        assert(t.take(6)[2] == s[i + 2]);
                        assert(t.take(6)[3] == s[i + 3]);
                        assert(t.take(6)[4] == s[i + 4]);
                        assert(t.take(6)[5] == s[i + 5]);
                    }
                }
                }
            }
            assert(t.drop_first() =~= s@.skip(i + 1));
            out.push(s[i]);
            assert(out@ =~= before + seq![t[0]]);
            i += 1;
        }
    }
    assert(s@.skip(n as int) =~= Seq::<char>::empty());
    string_from_chars(out)
}

impl SerDesArxiv {
    /// Takes over a paper as the API returned it, with the scheme typo repaired
    /// in both of its links.
    pub fn from_arxiv(arxiv_paper: arxiv::Arxiv) -> (r: Self)
        ensures
            r.id == arxiv_paper.id,
            r.updated == arxiv_paper.updated,
            r.published == arxiv_paper.published,
            r.title == arxiv_paper.title,
            r.summary == arxiv_paper.summary,
            r.authors == arxiv_paper.authors,
            r.primary_category == arxiv_paper.primary_category,
            r.categories == arxiv_paper.categories,
            r.pdf_url@ == repaired_url(arxiv_paper.pdf_url@),
            r.html_url@ == repaired_url(arxiv_paper.html_url@),
            r.comment == arxiv_paper.comment,
    {
        let pdf_url = repair_url(arxiv_paper.pdf_url.as_str());
        let html_url = repair_url(arxiv_paper.html_url.as_str());
        SerDesArxiv {
            id: arxiv_paper.id,
            updated: arxiv_paper.updated,
            published: arxiv_paper.published,
            title: arxiv_paper.title,
            summary: arxiv_paper.summary,
            authors: arxiv_paper.authors,
            primary_category: arxiv_paper.primary_category,
            categories: arxiv_paper.categories,
            pdf_url,
            html_url,
            comment: arxiv_paper.comment,
        }
    }

    /// The record as one line of the metadata file, without its line break: a
    /// JSON object of every field but the summary.
    pub fn metadata_line(&self) -> (r: String)
        ensures
            r@ == metadata_json(*self),
            r@.len() > 0,
            has_no_line_break(r@),
    {
        proof {
            reveal_strlit("{");
            reveal_strlit("}");
            reveal_strlit("null");
            reveal_strlit("id");
            reveal_strlit("updated");
            reveal_strlit("published");
            reveal_strlit("title");
            reveal_strlit("authors");
            reveal_strlit("primary_category");
            reveal_strlit("categories");
            reveal_strlit("pdf_url");
            reveal_strlit("html_url");
            reveal_strlit("comment");
        }
        let mut out = String::from_str("{");
        let v = json_text(self.id.as_str());
        append_member(&mut out, true, "id", v.as_str());
        let v = json_text(self.updated.as_str());
        append_member(&mut out, false, "updated", v.as_str());
        let v = json_text(self.published.as_str());
        append_member(&mut out, false, "published", v.as_str());
        let v = json_text(self.title.as_str());
        append_member(&mut out, false, "title", v.as_str());
        let v = encode_json_list(&self.authors);
        append_member(&mut out, false, "authors", v.as_str());
        let v = json_text(self.primary_category.as_str());
        append_member(&mut out, false, "primary_category", v.as_str());
        let v = encode_json_list(&self.categories);
        append_member(&mut out, false, "categories", v.as_str());
        let v = json_text(self.pdf_url.as_str());
        append_member(&mut out, false, "pdf_url", v.as_str());
        let v = json_text(self.html_url.as_str());
        append_member(&mut out, false, "html_url", v.as_str());
        let v = match &self.comment {
            Some(c) => json_text(c.as_str()),
            None => String::from_str("null"),
        };
        append_member(&mut out, false, "comment", v.as_str());
        out.append("}");
        assert(out@ =~= metadata_json(*self));
        out
    }
}

} // verus!
