//! Small text rules shared across the crate: step slugs, brief templates, absolute paths.
use vstd::prelude::*;

use crate::paths::{join_path, joined_path};
use crate::text::{
    ascii_lower, chars_of, find_first, index_of_from, owned, push_str, str_eq,
    string_of_range, to_ascii_lower,
};

verus! {

/// A character kept in a slug: an ASCII letter or digit, or `_`.
pub open spec fn slug_keeps(c: char) -> bool {
    ('a' <= c <= 'z') || ('A' <= c <= 'Z') || ('0' <= c <= '9') || c == '_'
}

/// The slug before its ends are trimmed: kept characters lowercased, each run of other
/// characters one `-`; and whether it ends in such a `-`.
pub open spec fn slug_raw(s: Seq<char>) -> (Seq<char>, bool)
    decreases s.len(),
{
    if s.len() == 0 {
        (Seq::empty(), false)
    } else {
        let (o, sep) = slug_raw(s.drop_last());
        let c = s.last();
        if slug_keeps(c) {
            (o.push(ascii_lower(c)), false)
        } else if !sep {
            (o.push('-'), true)
        } else {
            (o, sep)
        }
    }
}

pub open spec fn trim_start_dashes(s: Seq<char>) -> Seq<char>
    decreases s.len(),
{
    if s.len() > 0 && s[0] == '-' {
        trim_start_dashes(s.drop_first())
    } else {
        s
    }
}

pub open spec fn trim_end_dashes(s: Seq<char>) -> Seq<char>
    decreases s.len(),
{
    if s.len() > 0 && s.last() == '-' {
        trim_end_dashes(s.drop_last())
    } else {
        s
    }
}

/// A label as a file-name slug: `step` where nothing of it survives.
pub open spec fn slug_spec(value: Seq<char>) -> Seq<char> {
    let t = trim_end_dashes(trim_start_dashes(slug_raw(value).0));
    if t.len() == 0 {
        "step"@
    } else {
        t
    }
}

/// A character a slug may hold: a lowercase ASCII letter, a digit, `_` or `-`.
pub open spec fn slug_char(c: char) -> bool {
    ('a' <= c <= 'z') || ('0' <= c <= '9') || c == '_' || c == '-'
}

/// Text shaped like a slug: not empty, made of slug characters, with no `-` at either end and
/// no two `-` in a row.
pub open spec fn is_slug(t: Seq<char>) -> bool {
    &&& t.len() > 0
    &&& forall|i: int| 0 <= i < t.len() ==> slug_char(#[trigger] t[i])
    &&& t[0] != '-'
    &&& t.last() != '-'
    &&& forall|i: int| 0 <= i < t.len() - 1 ==> !(#[trigger] t[i] == '-' && t[i + 1] == '-')
}

/// Slug characters with no two `-` in a row.
pub open spec fn dash_sparse(t: Seq<char>) -> bool {
    &&& forall|i: int| 0 <= i < t.len() ==> slug_char(#[trigger] t[i])
    &&& forall|i: int| 0 <= i < t.len() - 1 ==> !(#[trigger] t[i] == '-' && t[i + 1] == '-')
}

proof fn lemma_lower_is_slug_char(c: char)
    requires
        slug_keeps(c),
    ensures
        slug_char(ascii_lower(c)),
        ascii_lower(c) != '-',
{
    if 'A' <= c <= 'Z' {
        assert(65 <= (c as u32) <= 90);
        assert(97 <= (c as u32) + 32 <= 122);
        assert('a' <= ascii_lower(c) <= 'z');
    }
}

proof fn lemma_slug_raw_shape(s: Seq<char>)
    ensures
        dash_sparse(slug_raw(s).0),
        slug_raw(s).0.len() > 0 ==> (slug_raw(s).1 <==> slug_raw(s).0.last() == '-'),
        slug_raw(s).0.len() == 0 ==> !slug_raw(s).1,
    decreases s.len(),
{
    if s.len() > 0 {
        lemma_slug_raw_shape(s.drop_last());
        let (o, sep) = slug_raw(s.drop_last());
        let c = s.last();
        if slug_keeps(c) {
            lemma_lower_is_slug_char(c);
            let n = o.push(ascii_lower(c));
            assert forall|i: int| 0 <= i < n.len() implies slug_char(#[trigger] n[i]) by {
                if i < o.len() {
                    assert(n[i] == o[i]);
                }
            }
            assert forall|i: int| 0 <= i < n.len() - 1 implies !(#[trigger] n[i] == '-' && n[i + 1] == '-') by {
                if i < o.len() - 1 {
                    assert(n[i] == o[i] && n[i + 1] == o[i + 1]);
                }
            }
        } else if !sep {
            let n = o.push('-');
            assert forall|i: int| 0 <= i < n.len() implies slug_char(#[trigger] n[i]) by {
                if i < o.len() {
                    assert(n[i] == o[i]);
                }
            }
            assert forall|i: int| 0 <= i < n.len() - 1 implies !(#[trigger] n[i] == '-' && n[i + 1] == '-') by {
                if i < o.len() - 1 {
                    assert(n[i] == o[i] && n[i + 1] == o[i + 1]);
                } else {
                    assert(n[i] == o.last());
                }
            }
        }
    }
}

proof fn lemma_trim_start_dashes(r: Seq<char>) -> (k: int)
    ensures
        0 <= k <= r.len(),
        trim_start_dashes(r) == r.skip(k),
        k < r.len() ==> r[k] != '-',
    decreases r.len(),
{
    if r.len() > 0 && r[0] == '-' {
        let k = lemma_trim_start_dashes(r.drop_first());
        assert(r.drop_first().skip(k) =~= r.skip(k + 1));
        k + 1
    } else {
        assert(r.skip(0) =~= r);
        0
    }
}

proof fn lemma_trim_end_dashes(r: Seq<char>) -> (k: int)
    ensures
        0 <= k <= r.len(),
        trim_end_dashes(r) == r.take(k),
        k > 0 ==> r[k - 1] != '-',
    decreases r.len(),
{
    if r.len() > 0 && r.last() == '-' {
        let k = lemma_trim_end_dashes(r.drop_last());
        assert(r.drop_last().take(k) =~= r.take(k));
        k
    } else {
        assert(r.take(r.len() as int) =~= r);
        r.len() as int
    }
}

/// A slug read as a label is the same slug.
proof fn lemma_slug_raw_of_slug_text(t: Seq<char>)
    requires
        dash_sparse(t),
        t.len() > 0 ==> t[0] != '-',
    ensures
        slug_raw(t) == (t, t.len() > 0 && t.last() == '-'),
    decreases t.len(),
{
    if t.len() > 0 {
        let p = t.drop_last();
        assert forall|i: int| 0 <= i < p.len() implies slug_char(#[trigger] p[i]) by {
            assert(p[i] == t[i]);
        }
        assert forall|i: int| 0 <= i < p.len() - 1 implies !(#[trigger] p[i] == '-' && p[i + 1] == '-') by {
            assert(p[i] == t[i] && p[i + 1] == t[i + 1]);
        }
        if p.len() > 0 {
            assert(p[0] == t[0]);
        }
        lemma_slug_raw_of_slug_text(p);
        let c = t.last();
        assert(slug_char(t[t.len() - 1]));
        if c == '-' {
            if p.len() > 0 {
                assert(t[t.len() - 2] == p.last());
                assert(!(t[t.len() - 2] == '-' && t[t.len() - 1] == '-'));
            }
            assert(p.push('-') =~= t);
        } else {
            assert(ascii_lower(c) == c);
            assert(p.push(c) =~= t);
        }
    }
}

/// Whatever a label holds, its slug is not empty, uses only lowercase letters, digits, `_` and
/// `-`, has no `-` at either end and no two in a row, and is its own slug.
pub proof fn lemma_slug_is_fixed(value: Seq<char>)
    ensures
        is_slug(slug_spec(value)),
        slug_spec(slug_spec(value)) == slug_spec(value),
{
    let raw = slug_raw(value).0;
    lemma_slug_raw_shape(value);
    let a = lemma_trim_start_dashes(raw);
    let mid = raw.skip(a);
    assert(dash_sparse(mid)) by {
        assert forall|i: int| 0 <= i < mid.len() implies slug_char(#[trigger] mid[i]) by {
            assert(mid[i] == raw[i + a]);
        }
        assert forall|i: int| 0 <= i < mid.len() - 1 implies !(#[trigger] mid[i] == '-' && mid[i + 1] == '-') by {
            assert(mid[i] == raw[i + a] && mid[i + 1] == raw[i + 1 + a]);
        }
    }
    let b = lemma_trim_end_dashes(mid);
    let t = mid.take(b);
    assert(dash_sparse(t)) by {
        assert forall|i: int| 0 <= i < t.len() implies slug_char(#[trigger] t[i]) by {
            assert(t[i] == mid[i]);
        }
        assert forall|i: int| 0 <= i < t.len() - 1 implies !(#[trigger] t[i] == '-' && t[i + 1] == '-') by {
            assert(t[i] == mid[i] && t[i + 1] == mid[i + 1]);
        }
    }
    if t.len() > 0 {
        assert(t[0] == mid[0]);
        assert(t.last() == mid[b - 1]);
        assert(slug_spec(value) == t);
        lemma_slug_raw_of_slug_text(t);
        assert(trim_start_dashes(t) == t);
        assert(trim_end_dashes(t) == t);
    } else {
        reveal_strlit("step");
        let st = "step"@;
        assert(slug_spec(value) == st);
        assert(st.len() == 4);
        assert forall|i: int| 0 <= i < st.len() implies slug_char(#[trigger] st[i]) by {}
        assert forall|i: int| 0 <= i < st.len() - 1 implies !(#[trigger] st[i] == '-' && st[i + 1] == '-') by {}
        lemma_slug_raw_of_slug_text(st);
        assert(trim_start_dashes(st) == st);
        assert(trim_end_dashes(st) == st);
    }
}

fn slug_char_kept(c: char) -> (r: bool)
    ensures
        r == slug_keeps(c),
{
    ('a' <= c && c <= 'z') || ('A' <= c && c <= 'Z') || ('0' <= c && c <= '9') || c == '_'
}

pub fn slugify(value: &str) -> (r: String)
    ensures
        r@ == slug_spec(value@),
{
    let chars = chars_of(value);
    let mut raw: Vec<char> = Vec::new();
    let mut last_was_separator = false;
    let mut i: usize = 0;
    while i < chars.len()
        invariant
            i <= chars@.len(),
            chars@ == value@,
            (raw@, last_was_separator) == slug_raw(chars@.take(i as int)),
        decreases chars.len() - i,
    {
        let c = chars[i];
        proof {
            assert(chars@.take(i + 1).drop_last() =~= chars@.take(i as int));
            assert(chars@.take(i + 1).last() == c);
        }
        if slug_char_kept(c) {
            raw.push(to_ascii_lower(c));
            last_was_separator = false;
        } else if !last_was_separator {
            raw.push('-');
            last_was_separator = true;
        }
        i += 1;
    }
    assert(chars@.take(chars@.len() as int) =~= value@);
    let mut a: usize = 0;
    let n = raw.len();
    assert(raw@.subrange(0, n as int) =~= raw@);
    while a < n && raw[a] == '-'
        invariant
            a <= n == raw@.len(),
            trim_start_dashes(raw@.subrange(a as int, n as int)) == trim_start_dashes(raw@),
        decreases n - a,
    {
        assert(raw@.subrange(a as int, n as int).drop_first() =~= raw@.subrange(a + 1, n as int));
        a += 1;
    }
    assert(trim_start_dashes(raw@.subrange(a as int, n as int)) == raw@.subrange(a as int, n as int));
    let mut b: usize = n;
    while b > a && raw[b - 1] == '-'
        invariant
            a <= b <= n == raw@.len(),
            trim_end_dashes(raw@.subrange(a as int, b as int)) == trim_end_dashes(
                trim_start_dashes(raw@),
            ),
        decreases b - a,
    {
        assert(raw@.subrange(a as int, b as int).drop_last() =~= raw@.subrange(a as int, b - 1));
        b -= 1;
    }
    if a == b {
        owned("step")
    } else {
        string_of_range(&raw, a, b)
    }
}

pub open spec fn texts_pairs(reps: Seq<(&str, &str)>) -> Seq<(Seq<char>, Seq<char>)> {
    reps.map_values(|p: (&str, &str)| (p.0@, p.1@))
}

/// The value of the first replacement whose key is `placeholder`, or the placeholder itself.
pub open spec fn lookup(reps: Seq<(Seq<char>, Seq<char>)>, placeholder: Seq<char>) -> Seq<char>
    decreases reps.len(),
{
    if reps.len() == 0 {
        placeholder
    } else if reps[0].0 == placeholder {
        reps[0].1
    } else {
        lookup(reps.drop_first(), placeholder)
    }
}

/// Each `{...}` that names a replacement becomes its value, in one pass: values are not
/// rescanned, and unknown or unclosed placeholders stay as they are.
pub open spec fn render_spec(rest: Seq<char>, reps: Seq<(Seq<char>, Seq<char>)>) -> Seq<char>
    decreases rest.len(),
{
    match find_first(rest, '{') {
        None => rest,
        Some(start) => if 0 <= start < rest.len() {
            let cand = rest.skip(start);
            match find_first(cand, '}') {
                None => rest,
                Some(end) => if 0 <= end < cand.len() {
                    rest.take(start) + lookup(reps, cand.take(end + 1)) + render_spec(
                        cand.skip(end + 1),
                        reps,
                    )
                } else {
                    rest
                },
            }
        } else {
            rest
        },
    }
}

fn lookup_exec(reps: &[(&str, &str)], placeholder: &str) -> (r: String)
    ensures
        r@ == lookup(texts_pairs(reps@), placeholder@),
{
    let ghost t = texts_pairs(reps@);
    let mut i: usize = 0;
    assert(t.skip(0) =~= t);
    while i < reps.len()
        invariant
            i <= reps@.len(),
            t == texts_pairs(reps@),
            lookup(t.skip(i as int), placeholder@) == lookup(t, placeholder@),
        decreases reps.len() - i,
    {
        proof {
            assert(t.skip(i as int)[0] == (reps@[i as int].0@, reps@[i as int].1@));
            assert(t.skip(i as int).drop_first() =~= t.skip(i + 1));
        }
        if str_eq(reps[i].0, placeholder) {
            return owned(reps[i].1);
        }
        i += 1;
    }
    owned(placeholder)
}

pub fn render_template(template: &str, replacements: &[(&str, &str)]) -> (r: String)
    ensures
        r@ == render_spec(template@, texts_pairs(replacements@)),
{
    let chars = chars_of(template);
    let n = chars.len();
    let ghost reps = texts_pairs(replacements@);
    let mut rendered = String::new();
    let mut pos: usize = 0;
    assert(chars@.skip(0) =~= chars@);
    loop
        invariant
            pos <= n == chars@.len(),
            chars@ == template@,
            reps == texts_pairs(replacements@),
            rendered@ + render_spec(chars@.skip(pos as int), reps) == render_spec(template@, reps),
        decreases n - pos,
    {
        let ghost rest = chars@.skip(pos as int);
        match index_of_from(&chars, '{', pos) {
            None => {
                let tail = string_of_range(&chars, pos, n);
                assert(tail@ =~= rest);
                push_str(&mut rendered, tail.as_str());
                return rendered;
            },
            Some(start) => {
                assert(start < n);
                let ghost cand = rest.skip(start - pos);
                assert(cand =~= chars@.skip(start as int));
                match index_of_from(&chars, '}', start) {
                    None => {
                        let tail = string_of_range(&chars, pos, n);
                        assert(tail@ =~= rest);
                        push_str(&mut rendered, tail.as_str());
                        return rendered;
                    },
                    Some(end) => {
                        assert(end < n);
                        let before = string_of_range(&chars, pos, start);
                        let placeholder = string_of_range(&chars, start, end + 1);
                        proof {
                            assert(before@ =~= rest.take(start - pos));
                            assert(placeholder@ =~= cand.take(end - start + 1));
                            assert(cand.skip(end - start + 1) =~= chars@.skip(end + 1));
                        }
                        push_str(&mut rendered, before.as_str());
                        let value = lookup_exec(replacements, placeholder.as_str());
                        push_str(&mut rendered, value.as_str());
                        pos = end + 1;
                    },
                }
            },
        }
    }
}

/// A path on Unix is absolute when it starts at the root.
pub open spec fn path_is_absolute(path: Seq<char>) -> bool {
    path.len() > 0 && path[0] == '/'
}

/// Whether `path` is absolute.
///
/// Trusted: calls `camino::Utf8Path::is_absolute`, which defers to `std::path::Path`; std
/// documents that on Unix a path is absolute when it has a root, that is, when it starts with
/// `/`. The contract claims exactly that.
#[verifier::external_body]
fn is_absolute(path: &str) -> (r: bool)
    ensures
        r == path_is_absolute(path@),
{
    camino::Utf8Path::new(path).is_absolute()
}

/// `path` as it is, where it is absolute; otherwise joined onto `base`.
pub fn absolute_path_from(base: &str, path: &str) -> (r: String)
    ensures
        path_is_absolute(path@) ==> r@ == path@,
        !path_is_absolute(path@) ==> r@ == joined_path(base@, path@),
{
    if is_absolute(path) {
        owned(path)
    } else {
        join_path(base, path)
    }
}

} // verus!
