//! Turning a paper title into a name that is safe as one path component.
use vstd::prelude::*;

use crate::text::{chars_of, string_from_chars};

verus! {

/// The longest name, in characters, that the sanitizer hands out.
pub const MAX_NAME_CHARS: usize = 200;

/// Characters that some file systems refuse in a name.
pub open spec fn is_reserved(c: char) -> bool {
    c == '<' || c == '>' || c == ':' || c == '"' || c == '/' || c == '\\' || c == '|' || c == '?'
        || c == '*'
}

/// Whether `c` has Unicode's `White_Space` property: the 25 code points that
/// `char::is_whitespace` accepts.
pub open spec fn is_white_space(c: char) -> bool {
    let u = c as u32;
    (0x09 <= u <= 0x0d) || u == 0x20 || u == 0x85 || u == 0xa0 || u == 0x1680 || (0x2000 <= u
        <= 0x200a) || u == 0x2028 || u == 0x2029 || u == 0x202f || u == 0x205f || u == 0x3000
}

/// Relies on `char::is_whitespace`: true exactly for the characters with
/// Unicode's `White_Space` property.
#[verifier::external_body]
fn white_space(c: char) -> (r: bool)
    ensures
        r == is_white_space(c),
{
    c.is_whitespace()
}

/// Characters that may not end a name: whitespace and the dot.
pub open spec fn is_trailing_junk(c: char) -> bool {
    is_white_space(c) || c == '.'
}

/// Every reserved character replaced by an underscore.
pub open spec fn replace_reserved(s: Seq<char>) -> Seq<char> {
    s.map_values(|c: char| if is_reserved(c) { '_' } else { c })
}

/// `s` without its leading whitespace.
pub open spec fn trim_start(s: Seq<char>) -> Seq<char>
    decreases s.len(),
{
    if s.len() > 0 && is_white_space(s[0]) {
        trim_start(s.drop_first())
    } else {
        s
    }
}

/// `s` without its trailing run of whitespace and dots.
pub open spec fn trim_end_junk(s: Seq<char>) -> Seq<char>
    decreases s.len(),
{
    if s.len() > 0 && is_trailing_junk(s.last()) {
        trim_end_junk(s.drop_last())
    } else {
        s
    }
}

/// At most the first `MAX_NAME_CHARS` characters of `s`.
pub open spec fn cut(s: Seq<char>) -> Seq<char> {
    if s.len() > MAX_NAME_CHARS {
        s.take(MAX_NAME_CHARS as int)
    } else {
        s
    }
}

/// The sanitized name of a title: reserved characters replaced, leading
/// whitespace trimmed, cut to the length limit, and then the trailing run of
/// whitespace and dots removed.
pub open spec fn sanitized(title: Seq<char>) -> Seq<char> {
    trim_end_junk(cut(trim_start(replace_reserved(title))))
}

proof fn lemma_trim_start_keeps(s: Seq<char>, p: spec_fn(char) -> bool)
    requires
        forall|i: int| 0 <= i < s.len() ==> p(#[trigger] s[i]),
    ensures
        forall|i: int| 0 <= i < trim_start(s).len() ==> p(#[trigger] trim_start(s)[i]),
        trim_start(s).len() > 0 ==> !is_white_space(trim_start(s)[0]),
    decreases s.len(),
{
    if s.len() > 0 && is_white_space(s[0]) {
        assert forall|i: int| 0 <= i < s.drop_first().len() implies p(
            #[trigger] s.drop_first()[i],
        ) by {
            assert(s.drop_first()[i] == s[i + 1]);
        }
        lemma_trim_start_keeps(s.drop_first(), p);
    }
}

proof fn lemma_trim_end_junk_prefix(s: Seq<char>)
    ensures
        trim_end_junk(s).len() <= s.len(),
        forall|i: int| 0 <= i < trim_end_junk(s).len() ==> #[trigger] trim_end_junk(s)[i] == s[i],
        trim_end_junk(s).len() > 0 ==> !is_trailing_junk(trim_end_junk(s).last()),
    decreases s.len(),
{
    if s.len() > 0 && is_trailing_junk(s.last()) {
        lemma_trim_end_junk_prefix(s.drop_last());
    }
}

/// What holds of every sanitized name: no reserved character, at most the
/// length limit, and neither whitespace at its start nor whitespace or a dot at
/// its end.
proof fn lemma_sanitized_shape(title: Seq<char>)
    ensures
        forall|i: int|
            0 <= i < sanitized(title).len() ==> !is_reserved(#[trigger] sanitized(title)[i]),
        sanitized(title).len() <= MAX_NAME_CHARS,
        sanitized(title).len() > 0 ==> !is_white_space(sanitized(title)[0]),
        sanitized(title).len() > 0 ==> !is_white_space(sanitized(title).last())
            && sanitized(title).last() != '.',
{
    let r = replace_reserved(title);
    let p = |c: char| !is_reserved(c);
    assert forall|i: int| 0 <= i < r.len() implies p(#[trigger] r[i]) by {}
    lemma_trim_start_keeps(r, p);
    let x = trim_start(r);
    let y = cut(x);
    lemma_trim_end_junk_prefix(y);
    let z = trim_end_junk(y);
    assert forall|i: int| 0 <= i < z.len() implies !is_reserved(#[trigger] z[i]) by {
        assert(z[i] == y[i]);
        assert(y[i] == x[i]);
        assert(p(x[i]));
    }
    if z.len() > 0 {
        assert(z[0] == y[0]);
        assert(y[0] == x[0]);
    }
}

/// A sanitized name holds none of the reserved characters, whatever the title.
pub proof fn lemma_sanitized_has_no_reserved(title: Seq<char>)
    ensures
        forall|i: int|
            0 <= i < sanitized(title).len() ==> !is_reserved(#[trigger] sanitized(title)[i]),
{
    lemma_sanitized_shape(title);
}

/// A sanitized name never has more characters than the limit, however long the
/// title.
pub proof fn lemma_sanitized_is_short(title: Seq<char>)
    ensures
        sanitized(title).len() <= MAX_NAME_CHARS,
{
    lemma_sanitized_shape(title);
}

/// A sanitized name never begins with whitespace, and never ends with whitespace
/// or a dot.
pub proof fn lemma_sanitized_edges_clean(title: Seq<char>)
    ensures
        sanitized(title).len() > 0 ==> !is_white_space(sanitized(title)[0]),
        sanitized(title).len() > 0 ==> !is_white_space(sanitized(title).last()),
        sanitized(title).len() > 0 ==> sanitized(title).last() != '.',
{
    lemma_sanitized_shape(title);
}

/// Sanitizing a sanitized name changes nothing.
pub proof fn lemma_sanitize_twice(title: Seq<char>)
    ensures
        sanitized(sanitized(title)) == sanitized(title),
{
    let s = sanitized(title);
    lemma_sanitized_shape(title);
    assert(replace_reserved(s) =~= s);
    assert(trim_start(s) == s);
    assert(cut(s) == s);
    assert(trim_end_junk(s) == s);
}

/// Replaces each reserved character with an underscore, trims leading
/// whitespace, keeps at most the first `MAX_NAME_CHARS` characters and then
/// removes the trailing run of whitespace and dots, so that the result can name
/// a file on any common platform.
pub fn sanitize_filename(name: &str) -> (r: String)
    ensures
        r@ == sanitized(name@),
        r@.len() <= MAX_NAME_CHARS,
        forall|i: int| 0 <= i < r@.len() ==> !is_reserved(#[trigger] r@[i]),
        r@.len() > 0 ==> !is_white_space(r@[0]),
        r@.len() > 0 ==> !is_white_space(r@.last()) && r@.last() != '.',
{
    let src = chars_of(name);
    let n = src.len();
    let mut v: Vec<char> = Vec::new();
    let mut i: usize = 0;
    while i < n
        invariant
            n == src@.len(),
            i <= n,
            v@ == replace_reserved(src@).take(i as int),
        decreases n - i,
    {
        let c = src[i];
        let d = if c == '<' || c == '>' || c == ':' || c == '"' || c == '/' || c == '\\' || c
            == '|' || c == '?' || c == '*' {
            '_'
        } else {
            c
        };
        v.push(d);
        i += 1;
        assert(v@ =~= replace_reserved(src@).take(i as int));
    }
    assert(v@ =~= replace_reserved(src@));
    let ghost r0 = v@;

    let mut lo: usize = 0;
    while lo < n && white_space(v[lo])
        invariant
            v@ == r0,
            n == r0.len(),
            lo <= n,
            trim_start(r0) == trim_start(r0.subrange(lo as int, n as int)),
        decreases n - lo,
    {
        assert(r0.subrange(lo as int, n as int).drop_first() =~= r0.subrange(
            lo as int + 1,
            n as int,
        ));
        lo += 1;
    }
    let ghost x = r0.subrange(lo as int, n as int);
    assert(trim_start(r0) == x);

    let limit: usize = if n - lo > MAX_NAME_CHARS {
        lo + MAX_NAME_CHARS
    } else {
        n
    };
    let ghost y = r0.subrange(lo as int, limit as int);
    assert(cut(x) =~= y);

    let mut end: usize = limit;
    while end > lo && (white_space(v[end - 1]) || v[end - 1] == '.')
        invariant
            v@ == r0,
            n == r0.len(),
            lo <= end <= limit <= n,
            y == r0.subrange(lo as int, limit as int),
            trim_end_junk(y) == trim_end_junk(r0.subrange(lo as int, end as int)),
        decreases end,
    {
        assert(r0.subrange(lo as int, end as int).drop_last() =~= r0.subrange(
            lo as int,
            end as int - 1,
        ));
        end -= 1;
    }

    let mut out: Vec<char> = Vec::new();
    let mut k: usize = lo;
    while k < end
        invariant
            v@ == r0,
            n == r0.len(),
            lo <= k <= end <= n,
            out@ == r0.subrange(lo as int, k as int),
        decreases end - k,
    {
        out.push(v[k]);
        k += 1;
        assert(out@ =~= r0.subrange(lo as int, k as int));
    }
    assert(out@ =~= sanitized(name@));
    proof {
        lemma_sanitized_shape(name@);
    }
    string_from_chars(out)
}

} // verus!
