//! Character-level text helpers the rest of the library builds on.
use vstd::prelude::*;

verus! {

/// The texts of a list of strings.
pub open spec fn texts(v: Seq<String>) -> Seq<Seq<char>> {
    v.map_values(|s: String| s@)
}

/// Appends one character to a string.
///
/// Trusted: calls `String::push`, which std documents as appending the character to the end
/// of the string; the contract claims exactly that of the character sequence.
#[verifier::external_body]
pub(crate) fn push_char(s: &mut String, c: char)
    ensures
        final(s)@ == old(s)@.push(c),
{
    s.push(c)
}

/// A new string holding the characters of `s`.
pub fn owned(s: &str) -> (r: String)
    ensures
        r@ == s@,
{
    String::from_str(s)
}

/// Appends `t` to `s`.
pub fn push_str(s: &mut String, t: &str)
    ensures
        final(s)@ == old(s)@ + t@,
{
    s.append(t);
}

/// The characters of `s`, in order.
pub fn chars_of(s: &str) -> (v: Vec<char>)
    ensures
        v@ == s@,
{
    let mut v: Vec<char> = Vec::new();
    for c in it: s.chars()
        invariant
            v@ == it.seq().take(it.index() as int),
    {
        v.push(c);
    }
    v
}

/// A string holding the characters `v[from..to]`.
pub fn string_of_range(v: &Vec<char>, from: usize, to: usize) -> (r: String)
    requires
        from <= to <= v@.len(),
    ensures
        r@ == v@.subrange(from as int, to as int),
{
    let mut r = String::new();
    let mut i = from;
    while i < to
        invariant
            from <= i <= to <= v@.len(),
            r@ == v@.subrange(from as int, i as int),
        decreases to - i,
    {
        push_char(&mut r, v[i]);
        i += 1;
        assert(r@ =~= v@.subrange(from as int, i as int));
    }
    r
}

/// A string holding the characters of `v`.
pub fn string_of(v: &Vec<char>) -> (r: String)
    ensures
        r@ == v@,
{
    let r = string_of_range(v, 0, v.len());
    assert(v@.subrange(0, v@.len() as int) =~= v@);
    r
}

/// Whether two character vectors hold the same characters.
pub fn chars_eq(a: &Vec<char>, b: &Vec<char>) -> (r: bool)
    ensures
        r == (a@ == b@),
{
    if a.len() != b.len() {
        return false;
    }
    let mut i: usize = 0;
    while i < a.len()
        invariant
            a@.len() == b@.len(),
            i <= a@.len(),
            forall|j: int| 0 <= j < i ==> a@[j] == b@[j],
        decreases a.len() - i,
    {
        if a[i] != b[i] {
            return false;
        }
        i += 1;
    }
    assert(a@ =~= b@);
    true
}

/// Whether two strings hold the same characters.
pub fn str_eq(a: &str, b: &str) -> (r: bool)
    ensures
        r == (a@ == b@),
{
    chars_eq(&chars_of(a), &chars_of(b))
}

/// The position of the first `c` in `s`, if it occurs.
pub open spec fn find_first(s: Seq<char>, c: char) -> Option<int> {
    if exists|i: int| 0 <= i < s.len() && s[i] == c {
        Some(choose|i: int| is_first_index(s, c, i))
    } else {
        None
    }
}

/// `i` is where `c` first occurs in `s`.
pub open spec fn is_first_index(s: Seq<char>, c: char, i: int) -> bool {
    &&& 0 <= i < s.len()
    &&& s[i] == c
    &&& forall|j: int| 0 <= j < i ==> s[j] != c
}

/// `find_first` names the first occurrence, and the first occurrence is unique.
pub proof fn lemma_find_first(s: Seq<char>, c: char)
    ensures
        find_first(s, c) matches Some(i) ==> is_first_index(s, c, i),
        find_first(s, c) is None ==> forall|j: int| 0 <= j < s.len() ==> s[j] != c,
        forall|i: int| #[trigger] is_first_index(s, c, i) ==> find_first(s, c) == Some(i),
{
    if exists|i: int| 0 <= i < s.len() && s[i] == c {
        let w = choose|i: int| 0 <= i < s.len() && s[i] == c;
        lemma_least_occurrence(s, c, w);
        let f = choose|i: int| is_first_index(s, c, i);
        assert(is_first_index(s, c, f));
        assert forall|i: int| #[trigger] is_first_index(s, c, i) implies find_first(s, c) == Some(i) by {
            if i < f {
                assert(s[i] == c);
            } else if f < i {
                assert(s[f] == c);
            }
        }
    }
}

/// Some first occurrence exists below any occurrence.
proof fn lemma_least_occurrence(s: Seq<char>, c: char, w: int)
    requires
        0 <= w < s.len(),
        s[w] == c,
    ensures
        exists|i: int| is_first_index(s, c, i),
    decreases w,
{
    if exists|j: int| 0 <= j < w && s[j] == c {
        let j = choose|j: int| 0 <= j < w && s[j] == c;
        lemma_least_occurrence(s, c, j);
    } else {
        assert(is_first_index(s, c, w));
    }
}

/// The position of the first `c` in `v`.
pub fn index_of(v: &Vec<char>, c: char) -> (r: Option<usize>)
    ensures
        r matches Some(i) ==> find_first(v@, c) == Some(i as int) && is_first_index(v@, c, i as int),
        r is None ==> find_first(v@, c) is None,
{
    proof {
        lemma_find_first(v@, c);
    }
    let mut i: usize = 0;
    while i < v.len()
        invariant
            i <= v@.len(),
            forall|j: int| 0 <= j < i ==> v@[j] != c,
        decreases v.len() - i,
    {
        if v[i] == c {
            assert(is_first_index(v@, c, i as int));
            return Some(i);
        }
        i += 1;
    }
    None
}

} // verus!

verus! {

/// The position of the first `c` in `v` at or after `from`.
pub fn index_of_from(v: &Vec<char>, c: char, from: usize) -> (r: Option<usize>)
    requires
        from <= v@.len(),
    ensures
        r matches Some(i) ==> from <= i && find_first(v@.skip(from as int), c) == Some(i - from)
            && is_first_index(v@.skip(from as int), c, i - from),
        r is None ==> find_first(v@.skip(from as int), c) is None,
{
    let ghost t = v@.skip(from as int);
    proof {
        lemma_find_first(t, c);
    }
    let mut i: usize = from;
    while i < v.len()
        invariant
            from <= i <= v@.len(),
            t == v@.skip(from as int),
            forall|j: int| 0 <= j < i - from ==> t[j] != c,
        decreases v.len() - i,
    {
        if v[i] == c {
            assert(is_first_index(t, c, i - from));
            return Some(i);
        }
        i += 1;
    }
    None
}

/// What `char::is_whitespace` answers: the Unicode `White_Space` property.
pub open spec fn is_whitespace(c: char) -> bool {
    let u = c as u32;
    ||| 0x09 <= u <= 0x0d
    ||| u == 0x20
    ||| u == 0x85
    ||| u == 0xa0
    ||| u == 0x1680
    ||| 0x2000 <= u <= 0x200a
    ||| u == 0x2028
    ||| u == 0x2029
    ||| u == 0x202f
    ||| u == 0x205f
    ||| u == 0x3000
}

pub fn char_is_whitespace(c: char) -> (r: bool)
    ensures
        r == is_whitespace(c),
{
    let u = c as u32;
    (0x09 <= u && u <= 0x0d) || u == 0x20 || u == 0x85 || u == 0xa0 || u == 0x1680 || (0x2000
        <= u && u <= 0x200a) || u == 0x2028 || u == 0x2029 || u == 0x202f || u == 0x205f || u
        == 0x3000
}

/// `s` without its leading whitespace.
pub open spec fn trim_start(s: Seq<char>) -> Seq<char>
    decreases s.len(),
{
    if s.len() > 0 && is_whitespace(s[0]) {
        trim_start(s.drop_first())
    } else {
        s
    }
}

/// `s` without its trailing whitespace.
pub open spec fn trim_end(s: Seq<char>) -> Seq<char>
    decreases s.len(),
{
    if s.len() > 0 && is_whitespace(s.last()) {
        trim_end(s.drop_last())
    } else {
        s
    }
}

/// What `str::trim` leaves of `s`.
pub open spec fn trim(s: Seq<char>) -> Seq<char> {
    trim_end(trim_start(s))
}

/// The bounds of `v[from..to]` with surrounding whitespace removed.
pub fn trim_range(v: &Vec<char>, from: usize, to: usize) -> (r: (usize, usize))
    requires
        from <= to <= v@.len(),
    ensures
        from <= r.0 <= r.1 <= to,
        v@.subrange(r.0 as int, r.1 as int) == trim(v@.subrange(from as int, to as int)),
        v@.subrange(r.0 as int, to as int) == trim_start(v@.subrange(from as int, to as int)),
{
    let mut a = from;
    while a < to && char_is_whitespace(v[a])
        invariant
            from <= a <= to <= v@.len(),
            trim_start(v@.subrange(a as int, to as int)) == trim_start(
                v@.subrange(from as int, to as int),
            ),
        decreases to - a,
    {
        assert(v@.subrange(a as int, to as int).drop_first() =~= v@.subrange(a + 1, to as int));
        a += 1;
    }
    assert(trim_start(v@.subrange(a as int, to as int)) == v@.subrange(a as int, to as int));
    let mut b = to;
    while b > a && char_is_whitespace(v[b - 1])
        invariant
            from <= a <= b <= to <= v@.len(),
            trim_end(v@.subrange(a as int, b as int)) == trim(v@.subrange(from as int, to as int)),
        decreases b - a,
    {
        assert(v@.subrange(a as int, b as int).drop_last() =~= v@.subrange(a as int, b - 1));
        b -= 1;
    }
    (a, b)
}

/// `s` with one trailing carriage return removed, if it has one.
pub open spec fn strip_cr(s: Seq<char>) -> Seq<char> {
    if s.len() > 0 && s.last() == '\r' {
        s.drop_last()
    } else {
        s
    }
}

/// What `str::lines` yields: pieces split at `\n`, each with one `\r` before its `\n` removed;
/// a final line ending is optional.
pub open spec fn lines_of(s: Seq<char>) -> Seq<Seq<char>>
    decreases s.len(),
{
    if s.len() == 0 {
        Seq::empty()
    } else {
        match find_first(s, '\n') {
            Some(i) => if 0 <= i < s.len() {
                seq![strip_cr(s.take(i))] + lines_of(s.skip(i + 1))
            } else {
                Seq::empty()
            },
            None => seq![s],
        }
    }
}

/// Each line of `v`, as `str::lines` splits it.
pub fn lines_of_chars(v: &Vec<char>) -> (r: Vec<String>)
    ensures
        r@.map_values(|l: String| l@) == lines_of(v@),
{
    let mut r: Vec<String> = Vec::new();
    let mut start: usize = 0;
    proof {
        assert(v@.skip(0) =~= v@);
        assert(r@.map_values(|l: String| l@) + lines_of(v@) =~= lines_of(v@));
    }
    while start < v.len()
        invariant
            start <= v@.len(),
            r@.map_values(|l: String| l@) + lines_of(v@.skip(start as int)) == lines_of(v@),
        decreases v.len() - start,
    {
        let ghost t = v@.skip(start as int);
        let ghost before = r@.map_values(|l: String| l@);
        match index_of_from(v, '\n', start) {
            Some(i) => {
                let end = if i > start && v[i - 1] == '\r' {
                    i - 1
                } else {
                    i
                };
                let line = string_of_range(v, start, end);
                proof {
                    let k = i - start;
                    assert(t.take(k) =~= v@.subrange(start as int, i as int));
                    assert(strip_cr(t.take(k)) =~= v@.subrange(start as int, end as int));
                    assert(t.skip(k + 1) =~= v@.skip(i + 1));
                    assert(lines_of(t) == seq![strip_cr(t.take(k))] + lines_of(t.skip(k + 1)));
                }
                r.push(line);
                proof {
                    assert(r@.map_values(|l: String| l@) =~= before.push(
                        v@.subrange(start as int, end as int),
                    ));
                    assert(before.push(v@.subrange(start as int, end as int)) + lines_of(
                        v@.skip(i + 1),
                    ) =~= before + lines_of(t));
                }
                start = i + 1;
            },
            None => {
                let line = string_of_range(v, start, v.len());
                proof {
                    assert(t =~= v@.subrange(start as int, v@.len() as int));
                    assert(lines_of(t) == seq![t]);
                }
                r.push(line);
                proof {
                    assert(r@.map_values(|l: String| l@) =~= before.push(t));
                    assert(v@.skip(v@.len() as int) =~= Seq::<char>::empty());
                    assert(lines_of(v@.skip(v@.len() as int)) =~= Seq::<Seq<char>>::empty());
                    assert(before.push(t) + lines_of(v@.skip(v@.len() as int)) =~= before
                        + seq![t]);
                }
                start = v.len();
            },
        }
    }
    proof {
        assert(v@.skip(start as int) =~= Seq::<char>::empty());
        assert(lines_of(v@.skip(start as int)) =~= Seq::<Seq<char>>::empty());
        assert(r@.map_values(|l: String| l@) + Seq::<Seq<char>>::empty() =~= r@.map_values(
            |l: String| l@,
        ));
    }
    r
}

/// What `char::to_ascii_lowercase` makes of `c`.
pub open spec fn ascii_lower(c: char) -> char {
    if 'A' <= c <= 'Z' {
        ((c as u32) + 32) as char
    } else {
        c
    }
}

pub fn to_ascii_lower(c: char) -> (r: char)
    ensures
        r == ascii_lower(c),
{
    if 'A' <= c && c <= 'Z' {
        ((c as u8) + 32) as char
    } else {
        c
    }
}

/// What `str::eq_ignore_ascii_case` answers.
pub open spec fn eq_ignore_ascii_case(a: Seq<char>, b: Seq<char>) -> bool {
    &&& a.len() == b.len()
    &&& forall|i: int| 0 <= i < a.len() ==> ascii_lower(a[i]) == ascii_lower(b[i])
}

/// Whether `v[from..to]` equals `word` ignoring ASCII case.
pub fn range_eq_ignore_ascii_case(v: &Vec<char>, from: usize, to: usize, word: &str) -> (r: bool)
    requires
        from <= to <= v@.len(),
    ensures
        r == eq_ignore_ascii_case(v@.subrange(from as int, to as int), word@),
{
    let w = chars_of(word);
    if to - from != w.len() {
        return false;
    }
    let mut i: usize = 0;
    while i < w.len()
        invariant
            to - from == w@.len(),
            w@ == word@,
            from <= to <= v@.len(),
            i <= w@.len(),
            forall|j: int|
                0 <= j < i ==> ascii_lower(v@[from + j]) == ascii_lower(#[trigger] w@[j]),
        decreases w.len() - i,
    {
        if to_ascii_lower(v[from + i]) != to_ascii_lower(w[i]) {
            proof {
                let sub = v@.subrange(from as int, to as int);
                assert(sub[i as int] == v@[from + i]);
                assert(ascii_lower(sub[i as int]) != ascii_lower(word@[i as int]));
                assert(!eq_ignore_ascii_case(sub, word@));
            }
            return false;
        }
        i += 1;
    }
    assert forall|j: int| 0 <= j < w@.len() implies ascii_lower(
        v@.subrange(from as int, to as int)[j],
    ) == ascii_lower(word@[j]) by {
        assert(ascii_lower(v@[from + j]) == ascii_lower(w@[j]));
    }
    true
}

} // verus!

verus! {

proof fn lemma_trim_start_idempotent(s: Seq<char>)
    ensures
        trim_start(trim_start(s)) == trim_start(s),
        trim_start(s).len() > 0 ==> !is_whitespace(trim_start(s)[0]),
    decreases s.len(),
{
    if s.len() > 0 && is_whitespace(s[0]) {
        lemma_trim_start_idempotent(s.drop_first());
    }
}

proof fn lemma_trim_end_keeps_start(s: Seq<char>)
    requires
        s.len() > 0 ==> !is_whitespace(s[0]),
    ensures
        trim_end(s).len() > 0 ==> !is_whitespace(trim_end(s)[0]),
        trim_start(trim_end(s)) == trim_end(s),
    decreases s.len(),
{
    if s.len() > 0 && is_whitespace(s.last()) {
        if s.len() > 1 {
            assert(s.drop_last()[0] == s[0]);
        }
        lemma_trim_end_keeps_start(s.drop_last());
    }
}

proof fn lemma_trim_end_idempotent(s: Seq<char>)
    ensures
        trim_end(trim_end(s)) == trim_end(s),
    decreases s.len(),
{
    if s.len() > 0 && is_whitespace(s.last()) {
        lemma_trim_end_idempotent(s.drop_last());
    }
}

/// Trimming twice is trimming once.
pub proof fn lemma_trim_idempotent(s: Seq<char>)
    ensures
        trim(trim(s)) == trim(s),
{
    lemma_trim_start_idempotent(s);
    lemma_trim_end_keeps_start(trim_start(s));
    lemma_trim_end_idempotent(trim_start(s));
}

} // verus!

verus! {

/// What `str::split(c)` yields: the pieces between occurrences of `c`, empty ones included.
pub open spec fn split_spec(s: Seq<char>, c: char) -> Seq<Seq<char>>
    decreases s.len(),
{
    match find_first(s, c) {
        Some(i) => if 0 <= i < s.len() {
            seq![s.take(i)] + split_spec(s.skip(i + 1), c)
        } else {
            seq![s]
        },
        None => seq![s],
    }
}

/// The pieces of `s` between occurrences of `c`, as `str::split` yields them.
pub fn split_char(s: &str, c: char) -> (r: Vec<String>)
    ensures
        r@.map_values(|p: String| p@) == split_spec(s@, c),
{
    let v = chars_of(s);
    let n = v.len();
    let mut r: Vec<String> = Vec::new();
    let mut start: usize = 0;
    proof {
        assert(v@.skip(0) =~= v@);
        assert(r@.map_values(|p: String| p@) + split_spec(v@, c) =~= split_spec(v@, c));
    }
    loop
        invariant
            start <= v@.len(),
            n == v@.len(),
            v@ == s@,
            r@.map_values(|p: String| p@) + split_spec(v@.skip(start as int), c) == split_spec(s@, c),
        decreases v@.len() - start,
    {
        let ghost t = v@.skip(start as int);
        let ghost before = r@.map_values(|p: String| p@);
        match index_of_from(&v, c, start) {
            Some(i) => {
                let piece = string_of_range(&v, start, i);
                proof {
                    let k = i - start;
                    assert(i < n);
                    assert(t.take(k) =~= v@.subrange(start as int, i as int));
                    assert(t.skip(k + 1) =~= v@.skip(i + 1));
                }
                r.push(piece);
                proof {
                    assert(r@.map_values(|p: String| p@) =~= before.push(
                        v@.subrange(start as int, i as int),
                    ));
                    assert(before.push(v@.subrange(start as int, i as int)) + split_spec(
                        v@.skip(i + 1),
                        c,
                    ) =~= before + split_spec(t, c));
                }
                start = i + 1;
            },
            None => {
                let piece = string_of_range(&v, start, v.len());
                proof {
                    assert(t =~= v@.subrange(start as int, v@.len() as int));
                }
                r.push(piece);
                proof {
                    assert(r@.map_values(|p: String| p@) =~= before.push(t));
                    assert(before.push(t) =~= before + split_spec(t, c));
                }
                return r;
            },
        }
    }
}

/// The position of the last `c` in `s`, if it occurs.
pub open spec fn find_last(s: Seq<char>, c: char) -> Option<int>
    decreases s.len(),
{
    if s.len() == 0 {
        None
    } else if s.last() == c {
        Some(s.len() - 1)
    } else {
        find_last(s.drop_last(), c)
    }
}

pub proof fn lemma_find_last(s: Seq<char>, c: char)
    ensures
        find_last(s, c) matches Some(i) ==> 0 <= i < s.len() && s[i] == c && forall|j: int|
            i < j < s.len() ==> s[j] != c,
        find_last(s, c) is None ==> forall|j: int| 0 <= j < s.len() ==> s[j] != c,
    decreases s.len(),
{
    if s.len() > 0 && s.last() != c {
        lemma_find_last(s.drop_last(), c);
        assert forall|j: int| 0 <= j < s.len() - 1 implies s.drop_last()[j] == s[j] by {}
    }
}

/// The position of the last `c` in `v`.
pub fn last_index_of(v: &Vec<char>, c: char) -> (r: Option<usize>)
    ensures
        r matches Some(i) ==> find_last(v@, c) == Some(i as int),
        r is None ==> find_last(v@, c) is None,
{
    let mut i = v.len();
    assert(v@.take(i as int) =~= v@);
    while i > 0
        invariant
            i <= v@.len(),
            find_last(v@.take(i as int), c) == find_last(v@, c),
        decreases i,
    {
        assert(v@.take(i as int).last() == v@[i - 1]);
        if v[i - 1] == c {
            return Some(i - 1);
        }
        assert(v@.take(i as int).drop_last() =~= v@.take(i - 1));
        i -= 1;
    }
    None
}

/// `t` occurs in `s`.
pub open spec fn contains_text(s: Seq<char>, t: Seq<char>) -> bool {
    exists|i: int| 0 <= i && i + t.len() <= s.len() && #[trigger] s.subrange(i, i + t.len()) == t
}

/// Whether `t` occurs in `s`, as `str::contains` answers.
pub fn contains_str(s: &str, t: &str) -> (r: bool)
    ensures
        r == contains_text(s@, t@),
{
    let a = chars_of(s);
    let b = chars_of(t);
    if b.len() > a.len() {
        return false;
    }
    let last = a.len() - b.len();
    let mut i: usize = 0;
    loop
        invariant
            a@ == s@,
            b@ == t@,
            last == a@.len() - b@.len(),
            a@.len() <= usize::MAX,
            i <= last,
            forall|k: int| 0 <= k < i ==> #[trigger] a@.subrange(k, k + b@.len()) != b@,
        decreases last - i,
    {
        let mut j: usize = 0;
        let mut same = true;
        while j < b.len() && same
            invariant
                i <= last,
                last == a@.len() - b@.len(),
                a@.len() <= usize::MAX,
                j <= b@.len(),
                same ==> forall|m: int| 0 <= m < j ==> a@[i + m] == b@[m],
                !same ==> a@.subrange(i as int, i + b@.len()) != b@,
            decreases b.len() - j,
        {
            if a[i + j] != b[j] {
                same = false;
                assert(a@.subrange(i as int, i + b@.len())[j as int] != b@[j as int]);
            }
            j += 1;
        }
        if same {
            assert(a@.subrange(i as int, i + b@.len()) =~= b@);
            return true;
        }
        if i == last {
            proof {
                assert forall|k: int| 0 <= k && k + t@.len() <= s@.len() implies #[trigger] s@.subrange(
                    k,
                    k + t@.len(),
                ) != t@ by {
                    assert(k <= i);
                }
            }
            return false;
        }
        i += 1;
    }
}

/// What `s.split_whitespace().collect::<Vec<_>>().join(" ")` makes of `s`, character by
/// character: the text so far, and whether whitespace has followed its last word.
pub open spec fn squash(s: Seq<char>) -> (Seq<char>, bool)
    decreases s.len(),
{
    if s.len() == 0 {
        (Seq::empty(), false)
    } else {
        let (o, gap) = squash(s.drop_last());
        let c = s.last();
        if is_whitespace(c) {
            (o, o.len() > 0)
        } else if gap {
            (o + seq![' ', c], false)
        } else {
            (o.push(c), false)
        }
    }
}

/// `s` with its words joined by single spaces.
pub open spec fn squash_whitespace(s: Seq<char>) -> Seq<char> {
    squash(s).0
}

pub fn squash_whitespace_exec(s: &str) -> (r: String)
    ensures
        r@ == squash_whitespace(s@),
{
    let v = chars_of(s);
    let mut r = String::new();
    let mut gap = false;
    let mut started = false;
    let mut i: usize = 0;
    while i < v.len()
        invariant
            i <= v@.len(),
            v@ == s@,
            (r@, gap) == squash(v@.take(i as int)),
            started == (r@.len() > 0),
        decreases v.len() - i,
    {
        let c = v[i];
        proof {
            assert(v@.take(i + 1).drop_last() =~= v@.take(i as int));
            assert(v@.take(i + 1).last() == c);
        }
        if char_is_whitespace(c) {
            gap = started;
        } else if gap {
            push_char(&mut r, ' ');
            push_char(&mut r, c);
            gap = false;
            started = true;
            assert(r@ =~= squash(v@.take(i as int)).0 + seq![' ', c]);
        } else {
            push_char(&mut r, c);
            started = true;
        }
        i += 1;
    }
    assert(v@.take(v@.len() as int) =~= s@);
    r
}

/// `s` without surrounding whitespace, as `str::trim` leaves it.
pub fn trim_str(s: &str) -> (r: String)
    ensures
        r@ == trim(s@),
{
    let v = chars_of(s);
    let (a, b) = trim_range(&v, 0, v.len());
    assert(v@.subrange(0, v@.len() as int) =~= s@);
    string_of_range(&v, a, b)
}

/// `s` without trailing whitespace, as `str::trim_end` leaves it.
pub fn trim_end_str(s: &str) -> (r: String)
    ensures
        r@ == trim_end(s@),
{
    let v = chars_of(s);
    let mut b = v.len();
    assert(v@.take(b as int) =~= s@);
    while b > 0 && char_is_whitespace(v[b - 1])
        invariant
            b <= v@.len(),
            trim_end(v@.take(b as int)) == trim_end(s@),
        decreases b,
    {
        assert(v@.take(b as int).drop_last() =~= v@.take(b - 1));
        b -= 1;
    }
    assert(v@.subrange(0, b as int) =~= v@.take(b as int));
    string_of_range(&v, 0, b)
}

} // verus!

verus! {

/// Whether `s` has no characters.
pub fn is_empty_str(s: &str) -> (r: bool)
    ensures
        r == (s@.len() == 0),
{
    s.unicode_len() == 0
}

/// Text order: by the first differing character, a prefix first, as `str`'s `Ord` compares
/// (UTF-8 byte order is code point order).
pub open spec fn text_le(a: Seq<char>, b: Seq<char>) -> bool
    decreases a.len(),
{
    if a.len() == 0 {
        true
    } else if b.len() == 0 {
        false
    } else if a[0] != b[0] {
        (a[0] as int) < (b[0] as int)
    } else {
        text_le(a.drop_first(), b.drop_first())
    }
}

pub proof fn lemma_text_le_total(a: Seq<char>, b: Seq<char>)
    ensures
        text_le(a, b) || text_le(b, a),
    decreases a.len(),
{
    if a.len() > 0 && b.len() > 0 {
        if a[0] == b[0] {
            lemma_text_le_total(a.drop_first(), b.drop_first());
        } else {
            assert((a[0] as int) != (b[0] as int));
        }
    }
}

pub proof fn lemma_text_le_transitive(a: Seq<char>, b: Seq<char>, c: Seq<char>)
    requires
        text_le(a, b),
        text_le(b, c),
    ensures
        text_le(a, c),
    decreases a.len(),
{
    if a.len() > 0 && b.len() > 0 && c.len() > 0 && a[0] == b[0] && b[0] == c[0] {
        lemma_text_le_transitive(a.drop_first(), b.drop_first(), c.drop_first());
    }
}

pub fn str_le(a: &str, b: &str) -> (r: bool)
    ensures
        r == text_le(a@, b@),
{
    let x = chars_of(a);
    let y = chars_of(b);
    let mut i: usize = 0;
    assert(a@.skip(0) =~= a@);
    assert(b@.skip(0) =~= b@);
    while i < x.len() && i < y.len()
        invariant
            i <= x@.len(),
            i <= y@.len(),
            x@ == a@,
            y@ == b@,
            text_le(a@, b@) == text_le(a@.skip(i as int), b@.skip(i as int)),
        decreases x.len() - i,
    {
        if x[i] != y[i] {
            assert(a@.skip(i as int)[0] == x@[i as int]);
            assert(b@.skip(i as int)[0] == y@[i as int]);
            return x[i] < y[i];
        }
        assert(a@.skip(i as int).drop_first() =~= a@.skip(i + 1));
        assert(b@.skip(i as int).drop_first() =~= b@.skip(i + 1));
        i += 1;
    }
    i == x.len()
}

/// Text order without ties.
pub open spec fn text_lt(a: Seq<char>, b: Seq<char>) -> bool {
    text_le(a, b) && a != b
}

pub proof fn lemma_text_le_reflexive(a: Seq<char>)
    ensures
        text_le(a, a),
    decreases a.len(),
{
    if a.len() > 0 {
        lemma_text_le_reflexive(a.drop_first());
    }
}

pub proof fn lemma_text_le_antisymmetric(a: Seq<char>, b: Seq<char>)
    requires
        text_le(a, b),
        text_le(b, a),
    ensures
        a == b,
    decreases a.len(),
{
    if a.len() > 0 && b.len() > 0 {
        lemma_text_le_antisymmetric(a.drop_first(), b.drop_first());
        assert(a =~= seq![a[0]] + a.drop_first());
        assert(b =~= seq![b[0]] + b.drop_first());
    }
}

} // verus!
