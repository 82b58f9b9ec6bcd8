//! Verified text primitives shared by the catalog parser, the host-config
//! merge, and the tool-output classifiers: whitespace trimming, substring
//! search, string equality and splitting on a separator character.

use vstd::prelude::*;

verus! {

/// ASCII whitespace, the only whitespace the external tools emit.
pub open spec fn is_ws(c: char) -> bool {
    c == ' ' || c == '\t' || c == '\r' || c == '\n'
}

/// `s` with every leading whitespace character removed.
pub open spec fn trim_start(s: Seq<char>) -> Seq<char>
    decreases s.len(),
{
    if s.len() > 0 && is_ws(s[0]) {
        trim_start(s.drop_first())
    } else {
        s
    }
}

/// `s` with every trailing whitespace character removed.
pub open spec fn trim_end(s: Seq<char>) -> Seq<char>
    decreases s.len(),
{
    if s.len() > 0 && is_ws(s.last()) {
        trim_end(s.drop_last())
    } else {
        s
    }
}

/// `s` with leading and trailing whitespace removed.
pub open spec fn trim(s: Seq<char>) -> Seq<char> {
    trim_end(trim_start(s))
}

/// The needle occurs in the haystack starting at position `i`.
pub open spec fn matches_at(hay: Seq<char>, needle: Seq<char>, i: int) -> bool {
    &&& 0 <= i
    &&& i + needle.len() <= hay.len()
    &&& forall|j: int| 0 <= j < needle.len() ==> hay[i + j] == needle[j]
}

/// The needle occurs somewhere in the haystack.
pub open spec fn contains_seq(hay: Seq<char>, needle: Seq<char>) -> bool {
    exists|i: int| matches_at(hay, needle, i)
}

/// Index of the first occurrence of `sep` in `s`, or -1 if there is none.
pub open spec fn find_index(s: Seq<char>, sep: char) -> int
    decreases s.len(),
{
    if s.len() == 0 {
        -1
    } else if s[0] == sep {
        0
    } else {
        let r = find_index(s.drop_first(), sep);
        if r < 0 {
            -1
        } else {
            r + 1
        }
    }
}

/// `find_index` returns the first occurrence, or -1 when there is none.
pub proof fn lemma_find_index(s: Seq<char>, sep: char)
    ensures
        find_index(s, sep) >= 0 ==> {
            &&& find_index(s, sep) < s.len()
            &&& s[find_index(s, sep)] == sep
            &&& forall|j: int| 0 <= j < find_index(s, sep) ==> s[j] != sep
        },
        find_index(s, sep) < 0 ==> forall|j: int| 0 <= j < s.len() ==> s[j] != sep,
    decreases s.len(),
{
    if s.len() > 0 && s[0] != sep {
        lemma_find_index(s.drop_first(), sep);
        let r = find_index(s.drop_first(), sep);
        if r >= 0 {
            assert(forall|j: int| 0 <= j < r ==> s.drop_first()[j] != sep);
            assert(forall|j: int| 1 <= j < r + 1 ==> s[j] == s.drop_first()[j - 1]);
        } else {
            assert(forall|j: int| 1 <= j < s.len() ==> s[j] == s.drop_first()[j - 1]);
        }
    }
}

/// `s` split on `sep`; the separators themselves are dropped.  Splitting
/// always yields at least one piece, and n separators yield n + 1 pieces.
pub open spec fn split_char(s: Seq<char>, sep: char) -> Seq<Seq<char>>
    decreases s.len(),
{
    let k = find_index(s, sep);
    if k < 0 || k >= s.len() {
        seq![s]
    } else {
        seq![s.subrange(0, k)] + split_char(s.subrange(k + 1, s.len() as int), sep)
    }
}

/// Splitting a separator-free sequence yields that sequence alone.
pub proof fn lemma_split_char_whole(s: Seq<char>, sep: char)
    requires
        forall|j: int| 0 <= j < s.len() ==> s[j] != sep,
    ensures
        split_char(s, sep) == seq![s],
{
    lemma_find_index(s, sep);
    assert(find_index(s, sep) < 0) by {
        if find_index(s, sep) >= 0 {
            assert(s[find_index(s, sep)] == sep);
        }
    }
}

/// Splitting at the first separator peels off one piece.
pub proof fn lemma_split_char_step(s: Seq<char>, sep: char, k: int)
    requires
        0 <= k < s.len(),
        s[k] == sep,
        forall|j: int| 0 <= j < k ==> s[j] != sep,
    ensures
        split_char(s, sep) == seq![s.subrange(0, k)] + split_char(
            s.subrange(k + 1, s.len() as int),
            sep,
        ),
{
    lemma_find_index(s, sep);
    let f = find_index(s, sep);
    assert(f >= 0) by {
        if f < 0 {
            assert(s[k] != sep);
        }
    }
    assert(f >= k) by {
        if f < k {
            assert(s[f] != sep);
        }
    }
    assert(f <= k) by {
        if f > k {
            assert(s[k] != sep);
        }
    }
}

/// String equality decided character by character.
pub fn eq_str(a: &str, b: &str) -> (r: bool)
    ensures
        r == (a@ == b@),
{
    let na = a.unicode_len();
    let nb = b.unicode_len();
    if na != nb {
        return false;
    }
    let mut i: usize = 0;
    while i < na
        invariant
            0 <= i <= na,
            na == a@.len(),
            na == b@.len(),
            forall|j: int| 0 <= j < i ==> a@[j] == b@[j],
        decreases na - i,
    {
        if a.get_char(i) != b.get_char(i) {
            return false;
        }
        i += 1;
    }
    proof {
        assert(a@ =~= b@);
    }
    true
}

/// Leading and trailing whitespace removed; the verified counterpart of the
/// trimming the adapters apply to each line of tool output.
pub fn trim_str<'a>(s: &'a str) -> (r: &'a str)
    ensures
        r@ == trim(s@),
{
    let n = s.unicode_len();
    let mut i: usize = 0;
    while i < n && is_ws_exec(s.get_char(i))
        invariant
            0 <= i <= n,
            n == s@.len(),
            forall|j: int| 0 <= j < i ==> is_ws(s@[j]),
        decreases n - i,
    {
        i += 1;
    }
    let mut j: usize = n;
    while j > i && is_ws_exec(s.get_char(j - 1))
        invariant
            i <= j <= n,
            n == s@.len(),
            forall|k: int| j <= k < n ==> is_ws(s@[k]),
        decreases j,
    {
        j -= 1;
    }
    proof {
        lemma_trim_start_skip(s@, i as int);
        let t = s@.skip(i as int);
        lemma_trim_end_take(t, j - i);
        assert(t.take(j - i) =~= s@.subrange(i as int, j as int));
    }
    s.substring_char(i, j)
}

/// Executable test for `is_ws`.
pub fn is_ws_exec(c: char) -> (r: bool)
    ensures
        r == is_ws(c),
{
    c == ' ' || c == '\t' || c == '\r' || c == '\n'
}

proof fn lemma_trim_start_skip(s: Seq<char>, i: int)
    requires
        0 <= i <= s.len(),
        forall|j: int| 0 <= j < i ==> is_ws(s[j]),
        i == s.len() || !is_ws(s[i]),
    ensures
        trim_start(s) == s.skip(i),
    decreases i,
{
    if i == 0 {
        assert(s.skip(0) =~= s);
    } else {
        assert(is_ws(s[0]));
        let t = s.drop_first();
        assert(t =~= s.skip(1));
        assert(forall|j: int| 0 <= j < i - 1 ==> t[j] == s[j + 1]);
        lemma_trim_start_skip(t, i - 1);
        assert(t.skip(i - 1) =~= s.skip(i));
    }
}

proof fn lemma_trim_end_take(s: Seq<char>, j: int)
    requires
        0 <= j <= s.len(),
        forall|k: int| j <= k < s.len() ==> is_ws(s[k]),
        j == 0 || !is_ws(s[j - 1]),
    ensures
        trim_end(s) == s.take(j),
    decreases s.len() - j,
{
    if j == s.len() {
        assert(s.take(j) =~= s);
        if s.len() > 0 {
            assert(!is_ws(s.last()));
        }
    } else {
        assert(is_ws(s.last()));
        let t = s.drop_last();
        assert(forall|k: int| j <= k < t.len() ==> t[k] == s[k]);
        lemma_trim_end_take(t, j);
        assert(t.take(j) =~= s.take(j));
    }
}

/// The needle occurs at position `i` of the haystack; executable form.
pub fn matches_at_exec(hay: &str, needle: &str, i: usize) -> (r: bool)
    requires
        i + needle@.len() <= hay@.len(),
    ensures
        r == matches_at(hay@, needle@, i as int),
{
    let n = hay.unicode_len();
    let m = needle.unicode_len();
    let mut j: usize = 0;
    while j < m
        invariant
            0 <= j <= m,
            m == needle@.len(),
            n == hay@.len(),
            i + m <= n,
            forall|k: int| 0 <= k < j ==> hay@[i + k] == needle@[k],
        decreases m - j,
    {
        if hay.get_char(i + j) != needle.get_char(j) {
            return false;
        }
        j += 1;
    }
    true
}

/// Substring search: does `needle` occur anywhere in `hay`?  This is the
/// presence check behind the idempotent host-config merge, the
/// authentication-probe classifier and the update classifier.
pub fn contains_substring(hay: &str, needle: &str) -> (r: bool)
    ensures
        r == contains_seq(hay@, needle@),
{
    let n = hay.unicode_len();
    let m = needle.unicode_len();
    if m > n {
        return false;
    }
    let mut i: usize = 0;
    while i <= n - m
        invariant
            0 <= i <= n - m + 1,
            m <= n,
            n == hay@.len(),
            m == needle@.len(),
            forall|k: int| 0 <= k < i ==> !matches_at(hay@, needle@, k),
        decreases n - i,
    {
        if matches_at_exec(hay, needle, i) {
            return true;
        }
        i += 1;
    }
    false
}

/// Find the first occurrence of `sep` in `s`; the executable counterpart
/// of `find_index`.
pub fn find_char_in(s: &str, sep: char) -> (r: Option<usize>)
    ensures
        find_index(s@, sep) < 0 <==> r is None,
        find_index(s@, sep) >= 0 ==> (r matches Some(k) && k as int == find_index(s@, sep)),
{
    let n = s.unicode_len();
    let mut i: usize = 0;
    while i < n
        invariant
            0 <= i <= n,
            n == s@.len(),
            forall|j: int| 0 <= j < i ==> s@[j] != sep,
        decreases n - i,
    {
        if s.get_char(i) == sep {
            proof {
                lemma_find_index(s@, sep);
                let f = find_index(s@, sep);
                assert(f >= 0) by {
                    if f < 0 {
                        assert(s@[i as int] != sep);
                    }
                }
                assert(f >= i) by {
                    if f < i {
                        assert(s@[f] != sep);
                    }
                }
                assert(f <= i) by {
                    if f > i {
                        assert(s@[i as int] != sep);
                    }
                }
            }
            return Some(i);
        }
        i += 1;
    }
    proof {
        lemma_find_index(s@, sep);
        let f = find_index(s@, sep);
        assert(f < 0) by {
            if f >= 0 {
                assert(s@[f] != sep);
            }
        }
    }
    None
}

/// The views of a sequence of owned strings.
pub open spec fn views_of(v: Seq<String>) -> Seq<Seq<char>> {
    v.map_values(|p: String| p@)
}

/// Split `s` on `sep`, dropping the separators; the executable counterpart
/// of `split_char`.
pub fn split_str(s: &str, sep: char) -> (parts: Vec<String>)
    ensures
        views_of(parts@) == split_char(s@, sep),
{
    let n = s.unicode_len();
    let mut parts: Vec<String> = Vec::new();
    let mut start: usize = 0;
    let mut i: usize = 0;
    proof {
        assert(views_of(parts@) =~= Seq::<Seq<char>>::empty());
        assert(s@.subrange(0, n as int) =~= s@);
        assert(views_of(parts@) + split_char(s@.subrange(0, n as int), sep) =~= split_char(
            s@,
            sep,
        ));
    }
    while i < n
        invariant
            0 <= start <= i <= n,
            n == s@.len(),
            views_of(parts@) + split_char(s@.subrange(start as int, n as int), sep) == split_char(
                s@,
                sep,
            ),
            forall|j: int| start <= j < i ==> s@[j] != sep,
        decreases n - i,
    {
        if s.get_char(i) == sep {
            let piece = s.substring_char(start, i).to_owned();
            proof {
                let t = s@.subrange(start as int, n as int);
                assert(t[i - start] == sep);
                assert(forall|j: int| 0 <= j < i - start ==> t[j] != sep);
                lemma_split_char_step(t, sep, i - start);
                assert(t.subrange(0, i - start) =~= s@.subrange(start as int, i as int));
                assert(t.subrange(i - start + 1, t.len() as int) =~= s@.subrange(
                    i + 1,
                    n as int,
                ));
                assert(views_of(parts@.push(piece)) =~= views_of(parts@).push(piece@));
                assert(views_of(parts@).push(piece@) + split_char(
                    s@.subrange(i + 1, n as int),
                    sep,
                ) =~= views_of(parts@) + split_char(t, sep));
            }
            parts.push(piece);
            start = i + 1;
        }
        i += 1;
    }
    let piece = s.substring_char(start, n).to_owned();
    proof {
        let t = s@.subrange(start as int, n as int);
        lemma_split_char_whole(t, sep);
        assert(views_of(parts@.push(piece)) =~= views_of(parts@).push(piece@));
        assert(views_of(parts@).push(piece@) =~= views_of(parts@) + seq![t]);
        assert(views_of(parts@).push(piece@) + Seq::<Seq<char>>::empty() =~= views_of(
            parts@,
        ).push(piece@));
        assert(views_of(parts@).push(piece@) =~= views_of(parts@) + split_char(t, sep));
    }
    parts.push(piece);
    parts
}

/// Appending the needle to any text produces a text that contains it.
pub proof fn lemma_contains_appended(c: Seq<char>, b: Seq<char>)
    ensures
        contains_seq(c + b, b),
{
    assert(matches_at(c + b, b, c.len() as int)) by {
        assert(forall|j: int| 0 <= j < b.len() ==> (c + b)[c.len() + j] == b[j]);
    }
}

} // verus!
