//! Verified character-level string utilities.
//!
//! Method names, URIs, and file texts are compared and rewritten at the
//! character level; every function here is specified against the `Seq<char>`
//! view of its arguments.

use vstd::prelude::*;

verus! {

/// `pat` occurs in `s` starting at character index `i`.
pub open spec fn match_at(s: Seq<char>, pat: Seq<char>, i: int) -> bool {
    0 <= i && i + pat.len() <= s.len() && s.subrange(i, i + pat.len() as int) == pat
}

/// `pat` occurs somewhere in `s`.
pub open spec fn contains_seq(s: Seq<char>, pat: Seq<char>) -> bool {
    exists|i: int| match_at(s, pat, i)
}

/// Index of the first occurrence of `c` in `s`, or -1 when `c` is absent.
pub open spec fn first_index_of(s: Seq<char>, c: char) -> int
    decreases s.len(),
{
    if s.len() == 0 {
        -1
    } else if s[0] == c {
        0
    } else {
        let r = first_index_of(s.drop_first(), c);
        if r == -1 {
            -1
        } else {
            r + 1
        }
    }
}

/// What [`first_index_of`] returns: the first position of `c`, or -1.
pub proof fn lemma_first_index_of(s: Seq<char>, c: char)
    ensures
        first_index_of(s, c) == -1 ==> forall|j: int| 0 <= j < s.len() ==> s[j] != c,
        first_index_of(s, c) != -1 ==> {
            let i = first_index_of(s, c);
            0 <= i < s.len() && s[i] == c && forall|j: int| 0 <= j < i ==> s[j] != c
        },
    decreases s.len(),
{
    if s.len() > 0 && s[0] != c {
        lemma_first_index_of(s.drop_first(), c);
        assert(forall|j: int| 1 <= j < s.len() ==> s[j] == s.drop_first()[j - 1]);
    }
}

/// `s` split on every occurrence of `c`; the separators are dropped.
pub open spec fn spec_split_char(s: Seq<char>, c: char) -> Seq<Seq<char>>
    decreases s.len(),
    via spec_split_char_decreases
{
    let i = first_index_of(s, c);
    if i == -1 {
        seq![s]
    } else {
        seq![s.subrange(0, i)] + spec_split_char(s.subrange(i + 1, s.len() as int), c)
    }
}

#[via_fn]
proof fn spec_split_char_decreases(s: Seq<char>, c: char) {
    lemma_first_index_of(s, c);
}

/// `s` with every occurrence of `a` replaced by `b`.
pub open spec fn spec_replace_char(s: Seq<char>, a: char, b: char) -> Seq<char> {
    s.map_values(|ch: char| if ch == a { b } else { ch })
}

/// Character equality of two string slices.
pub fn str_eq(a: &str, b: &str) -> (r: bool)
    ensures
        r == (a@ == b@),
{
    let alen = a.unicode_len();
    let blen = b.unicode_len();
    if alen != blen {
        return false;
    }
    let mut i: usize = 0;
    while i < alen
        invariant
            alen == a@.len(),
            blen == b@.len(),
            alen == blen,
            0 <= i <= alen,
            forall|j: int| 0 <= j < i ==> a@[j] == b@[j],
        decreases alen - i,
    {
        if a.get_char(i) != b.get_char(i) {
            return false;
        }
        i = i + 1;
    }
    proof {
        assert(a@ =~= b@);
    }
    true
}

/// Whether `pat` occurs in `s` at character index `i`.
fn matches_at(s: &str, pat: &str, i: usize) -> (r: bool)
    requires
        i + pat@.len() <= s@.len(),
        s@.len() <= usize::MAX,
    ensures
        r == match_at(s@, pat@, i as int),
{
    let plen = pat.unicode_len();
    let mut k: usize = 0;
    while k < plen
        invariant
            plen == pat@.len(),
            s@.len() <= usize::MAX,
            i + plen <= s@.len(),
            0 <= k <= plen,
            forall|j: int| 0 <= j < k ==> s@[i + j] == pat@[j],
        decreases plen - k,
    {
        if s.get_char(i + k) != pat.get_char(k) {
            proof {
                assert(s@.subrange(i as int, i + plen as int)[k as int] == s@[i + k]);
            }
            return false;
        }
        k = k + 1;
    }
    proof {
        assert(s@.subrange(i as int, i + plen as int) =~= pat@);
    }
    true
}

/// Whether `pre` is a prefix of `s`.
pub fn starts_with(s: &str, pre: &str) -> (r: bool)
    ensures
        r == pre@.is_prefix_of(s@),
{
    let slen = s.unicode_len();
    let plen = pre.unicode_len();
    if plen > slen {
        return false;
    }
    let r = matches_at(s, pre, 0);
    proof {
        assert(s@.subrange(0, pre@.len() as int) == s@.take(pre@.len() as int));
    }
    r
}

/// Whether `suf` is a suffix of `s`.
pub fn ends_with(s: &str, suf: &str) -> (r: bool)
    ensures
        r == suf@.is_suffix_of(s@),
{
    let slen = s.unicode_len();
    let plen = suf.unicode_len();
    if plen > slen {
        return false;
    }
    let r = matches_at(s, suf, slen - plen);
    proof {
        assert(s@.subrange(s@.len() - suf@.len(), s@.len() as int) == s@.skip(
            s@.len() - suf@.len(),
        ));
    }
    r
}

/// Index of the first occurrence of `pat` in `s`.
pub fn find_sub(s: &str, pat: &str) -> (r: Option<usize>)
    ensures
        match r {
            Some(i) => match_at(s@, pat@, i as int) && forall|j: int|
                0 <= j < i ==> !match_at(s@, pat@, j),
            None => !contains_seq(s@, pat@),
        },
{
    let slen = s.unicode_len();
    let plen = pat.unicode_len();
    if plen > slen {
        return None;
    }
    if plen == 0 {
        proof {
            assert(s@.subrange(0, 0) =~= pat@);
        }
        return Some(0);
    }
    let mut i: usize = 0;
    while i <= slen - plen
        invariant
            slen == s@.len(),
            plen == pat@.len(),
            0 < plen <= slen,
            0 <= i <= slen - plen + 1,
            forall|j: int| 0 <= j < i ==> !match_at(s@, pat@, j),
        decreases slen - plen + 1 - i,
    {
        if matches_at(s, pat, i) {
            return Some(i);
        }
        i = i + 1;
    }
    None
}

/// Index of the first occurrence of `pat` in `s` from position `i` on, or -1.
pub open spec fn find_from(s: Seq<char>, pat: Seq<char>, i: int) -> int
    decreases s.len() - i + 1,
{
    if i < 0 || i + pat.len() > s.len() {
        -1
    } else if match_at(s, pat, i) {
        i
    } else {
        find_from(s, pat, i + 1)
    }
}

/// Index of the first occurrence of `pat` in `s`, or -1.
pub open spec fn spec_find(s: Seq<char>, pat: Seq<char>) -> int {
    find_from(s, pat, 0)
}

/// What [`find_from`] returns: the first match at or after `i`, or -1.
pub proof fn lemma_find_from(s: Seq<char>, pat: Seq<char>, i: int)
    requires
        0 <= i,
    ensures
        find_from(s, pat, i) == -1 ==> forall|j: int| i <= j ==> !match_at(s, pat, j),
        find_from(s, pat, i) != -1 ==> {
            let k = find_from(s, pat, i);
            i <= k && match_at(s, pat, k) && forall|j: int| i <= j < k ==> !match_at(s, pat, j)
        },
    decreases s.len() - i + 1,
{
    if i + pat.len() > s.len() {
        assert(forall|j: int| i <= j ==> !match_at(s, pat, j));
    } else if !match_at(s, pat, i) {
        lemma_find_from(s, pat, i + 1);
    }
}

/// A split always yields at least one part.
pub proof fn lemma_split_nonempty(s: Seq<char>, c: char)
    ensures
        spec_split_char(s, c).len() >= 1,
{
    if first_index_of(s, c) == -1 {
    } else {
        lemma_first_index_of(s, c);
    }
}

/// The result of [`find_sub`] is exactly [`spec_find`].
pub proof fn lemma_find_agrees(s: Seq<char>, pat: Seq<char>, r: Option<usize>)
    requires
        match r {
            Some(i) => match_at(s, pat, i as int) && forall|j: int|
                0 <= j < i ==> !match_at(s, pat, j),
            None => !contains_seq(s, pat),
        },
    ensures
        match r {
            Some(i) => spec_find(s, pat) == i as int,
            None => spec_find(s, pat) == -1,
        },
{
    lemma_find_from(s, pat, 0);
    match r {
        Some(i) => {
            let k = spec_find(s, pat);
            assert(k != -1);
            assert(k == i as int);
        },
        None => {
            if spec_find(s, pat) != -1 {
                assert(match_at(s, pat, spec_find(s, pat)));
            }
        },
    }
}

/// Whether `pat` occurs anywhere in `s`.
pub fn contains_sub(s: &str, pat: &str) -> (r: bool)
    ensures
        r == contains_seq(s@, pat@),
{
    find_sub(s, pat).is_some()
}

/// Index of the first occurrence of the character `c` in `s`.
pub fn find_char(s: &str, c: char) -> (r: Option<usize>)
    ensures
        match r {
            Some(i) => i < s@.len() && s@[i as int] == c && forall|j: int|
                0 <= j < i ==> s@[j] != c,
            None => forall|j: int| 0 <= j < s@.len() ==> s@[j] != c,
        },
{
    let slen = s.unicode_len();
    let mut i: usize = 0;
    while i < slen
        invariant
            slen == s@.len(),
            0 <= i <= slen,
            forall|j: int| 0 <= j < i ==> s@[j] != c,
        decreases slen - i,
    {
        if s.get_char(i) == c {
            return Some(i);
        }
        i = i + 1;
    }
    None
}

/// Index of the last occurrence of the character `c` in `s`.
pub fn rfind_char(s: &str, c: char) -> (r: Option<usize>)
    ensures
        match r {
            Some(i) => i < s@.len() && s@[i as int] == c && forall|j: int|
                i < j < s@.len() ==> s@[j] != c,
            None => forall|j: int| 0 <= j < s@.len() ==> s@[j] != c,
        },
{
    let slen = s.unicode_len();
    let mut i: usize = slen;
    while i > 0
        invariant
            slen == s@.len(),
            0 <= i <= slen,
            forall|j: int| i <= j < slen ==> s@[j] != c,
        decreases i,
    {
        i = i - 1;
        if s.get_char(i) == c {
            return Some(i);
        }
    }
    None
}

/// `s` split on every occurrence of `c`.
pub fn split_char(s: &str, c: char) -> (r: Vec<String>)
    ensures
        r.deep_view() == spec_split_char(s@, c),
    decreases s@.len(),
{
    let slen = s.unicode_len();
    match find_char(s, c) {
        None => {
            let mut parts: Vec<String> = Vec::new();
            parts.push(s.to_owned());
            proof {
                lemma_first_index_of(s@, c);
                assert(parts.deep_view() =~= spec_split_char(s@, c));
            }
            parts
        },
        Some(i) => {
            let head = s.substring_char(0, i).to_owned();
            let tail = s.substring_char(i + 1, slen);
            let mut parts = split_char(tail, c);
            parts.insert(0, head);
            proof {
                lemma_first_index_of(s@, c);
                assert(first_index_of(s@, c) == i as int);
                assert(parts.deep_view() =~= spec_split_char(s@, c));
            }
            parts
        },
    }
}

/// `s` with every occurrence of `a` replaced by `b`; `b` is handed in as a
/// one-character string so the result can be assembled from slices.
pub fn replace_char(s: &str, a: char, b: &str) -> (r: String)
    requires
        b@.len() == 1,
    ensures
        r@ == spec_replace_char(s@, a, b@[0]),
{
    let slen = s.unicode_len();
    let mut out = String::new();
    let mut i: usize = 0;
    while i < slen
        invariant
            slen == s@.len(),
            b@.len() == 1,
            0 <= i <= slen,
            out@ == s@.take(i as int).map_values(
                |ch: char| if ch == a {
                    b@[0]
                } else {
                    ch
                },
            ),
        decreases slen - i,
    {
        if s.get_char(i) == a {
            out.append(b);
        } else {
            out.append(s.substring_char(i, i + 1));
        }
        proof {
            assert(s@.take(i + 1).map_values(
                |ch: char| if ch == a {
                    b@[0]
                } else {
                    ch
                },
            ) =~= s@.take(i as int).map_values(
                |ch: char| if ch == a {
                    b@[0]
                } else {
                    ch
                },
            ).push(if s@[i as int] == a {
                b@[0]
            } else {
                s@[i as int]
            }));
            assert(s@.subrange(i as int, i + 1) =~= seq![s@[i as int]]);
        }
        i = i + 1;
    }
    proof {
        assert(s@.take(slen as int) =~= s@);
    }
    out
}

/// `s` with every non-overlapping occurrence of `pat` replaced by `rep`, left
/// to right; an empty pattern replaces nothing.
pub open spec fn spec_replace_sub(s: Seq<char>, pat: Seq<char>, rep: Seq<char>) -> Seq<char>
    decreases s.len(),
    via spec_replace_sub_decreases
{
    if pat.len() == 0 {
        s
    } else {
        let i = spec_find(s, pat);
        if i == -1 {
            s
        } else {
            s.take(i) + rep + spec_replace_sub(s.skip(i + pat.len()), pat, rep)
        }
    }
}

#[via_fn]
proof fn spec_replace_sub_decreases(s: Seq<char>, pat: Seq<char>, rep: Seq<char>) {
    lemma_find_from(s, pat, 0);
}

/// `s` with every non-overlapping occurrence of `pat` replaced by `rep`.
pub fn replace_sub(s: &str, pat: &str, rep: &str) -> (r: String)
    ensures
        r@ == spec_replace_sub(s@, pat@, rep@),
    decreases s@.len(),
{
    let slen = s.unicode_len();
    let plen = pat.unicode_len();
    if plen == 0 {
        return str_of(s);
    }
    let found = find_sub(s, pat);
    proof {
        lemma_find_agrees(s@, pat@, found);
    }
    match found {
        None => str_of(s),
        Some(i) => {
            let head = s.substring_char(0, i);
            let tail = s.substring_char(i + plen, slen);
            proof {
                assert(tail@ =~= s@.skip(i + pat@.len()));
            }
            let rest = replace_sub(tail, pat, rep);
            let mut out = str_of(head);
            out.append(rep);
            out.append(rest.as_str());
            proof {
                assert(head@ =~= s@.take(i as int));
            }
            out
        },
    }
}

/// A whitespace character as `str::trim` sees ASCII text.
pub open spec fn is_ws(c: char) -> bool {
    c == ' ' || c == '\t' || c == '\r' || c == '\n'
}

/// `s` without leading and trailing ASCII whitespace.
pub open spec fn spec_trim(s: Seq<char>) -> Seq<char> {
    let start = if exists|i: int| 0 <= i < s.len() && !is_ws(s[i]) {
        choose|i: int| 0 <= i < s.len() && !is_ws(s[i]) && (forall|j: int|
            0 <= j < i ==> is_ws(s[j]))
    } else {
        s.len() as int
    };
    let end = if exists|i: int| 0 <= i < s.len() && !is_ws(s[i]) {
        choose|i: int| 0 <= i < s.len() && !is_ws(s[i]) && (forall|j: int|
            i < j < s.len() ==> is_ws(s[j]))
    } else {
        s.len() as int
    };
    if start < s.len() {
        s.subrange(start, end + 1)
    } else {
        Seq::empty()
    }
}

fn is_ws_exec(c: char) -> (r: bool)
    ensures
        r == is_ws(c),
{
    c == ' ' || c == '\t' || c == '\r' || c == '\n'
}

/// The slice of `s` without leading and trailing ASCII whitespace.
pub fn trim<'a>(s: &'a str) -> (r: &'a str)
    ensures
        r@ == spec_trim(s@),
{
    let slen = s.unicode_len();
    let mut start: usize = 0;
    while start < slen && is_ws_exec(s.get_char(start))
        invariant
            slen == s@.len(),
            0 <= start <= slen,
            forall|j: int| 0 <= j < start ==> is_ws(s@[j]),
        decreases slen - start,
    {
        start = start + 1;
    }
    if start == slen {
        let r = s.substring_char(0, 0);
        proof {
            assert(forall|i: int| 0 <= i < s@.len() ==> is_ws(s@[i]));
            assert(r@ =~= spec_trim(s@));
        }
        return r;
    }
    let mut end: usize = slen - 1;
    while end > start && is_ws_exec(s.get_char(end))
        invariant
            slen == s@.len(),
            0 <= start <= end < slen,
            !is_ws(s@[start as int]),
            forall|j: int| end < j < slen ==> is_ws(s@[j]),
        decreases end,
    {
        end = end - 1;
    }
    let r = s.substring_char(start, end + 1);
    proof {
        let wstart = choose|i: int|
            0 <= i < s@.len() && !is_ws(s@[i]) && (forall|j: int| 0 <= j < i ==> is_ws(s@[j]));
        let wend = choose|i: int|
            0 <= i < s@.len() && !is_ws(s@[i]) && (forall|j: int| i < j < s@.len() ==> is_ws(s@[j]));
        assert(!is_ws(s@[start as int]) && (forall|j: int| 0 <= j < start ==> is_ws(s@[j])));
        assert(!is_ws(s@[end as int]));
        assert(wstart == start as int);
        assert(wend == end as int);
    }
    r
}

/// A fresh `String` with the same characters as `s`.
pub fn str_of(s: &str) -> (r: String)
    ensures
        r@ == s@,
{
    s.to_owned()
}

/// The characters of `s` from `from` (inclusive) to `to` (exclusive), as a
/// fresh `String`.
pub fn substring(s: &str, from: usize, to: usize) -> (r: String)
    requires
        from <= to <= s@.len(),
    ensures
        r@ == s@.subrange(from as int, to as int),
{
    s.substring_char(from, to).to_owned()
}

/// The number of characters of `s`, as `str::chars` counts them.
pub fn char_len(s: &str) -> (r: usize)
    ensures
        r == s@.len(),
{
    s.unicode_len()
}

/// The views of a list of strings.
pub open spec fn strs_view(s: Seq<String>) -> Seq<Seq<char>> {
    Seq::new(s.len(), |i: int| s[i]@)
}

/// `s` without its first occurrence of `x`.
pub open spec fn remove_first_str(s: Seq<Seq<char>>, x: Seq<char>) -> Seq<Seq<char>>
    decreases s.len(),
{
    if s.len() == 0 {
        s
    } else if s[0] == x {
        s.drop_first()
    } else {
        seq![s[0]] + remove_first_str(s.drop_first(), x)
    }
}

/// Removing the first occurrence removes exactly the element at the first
/// matching index.
pub proof fn lemma_remove_first_str_at(s: Seq<Seq<char>>, x: Seq<char>, i: int)
    requires
        0 <= i < s.len(),
        s[i] == x,
        forall|j: int| 0 <= j < i ==> s[j] != x,
    ensures
        remove_first_str(s, x) =~= s.remove(i),
    decreases s.len(),
{
    if i > 0 {
        lemma_remove_first_str_at(s.drop_first(), x, i - 1);
        assert(remove_first_str(s, x) =~= seq![s[0]] + s.drop_first().remove(i - 1));
    }
}

/// Index of the first string equal to `x`.
pub fn strs_find(v: &Vec<String>, x: &str) -> (r: Option<usize>)
    ensures
        match r {
            Some(i) => i < v@.len() && strs_view(v@)[i as int] == x@ && forall|j: int|
                0 <= j < i ==> strs_view(v@)[j] != x@,
            None => !strs_view(v@).contains(x@),
        },
{
    let n = v.len();
    let mut i: usize = 0;
    while i < n
        invariant
            n == v@.len(),
            0 <= i <= n,
            forall|j: int| 0 <= j < i ==> strs_view(v@)[j] != x@,
        decreases n - i,
    {
        if str_eq(v[i].as_str(), x) {
            return Some(i);
        }
        i = i + 1;
    }
    proof {
        if strs_view(v@).contains(x@) {
            let w = choose|w: int| 0 <= w < v@.len() && strs_view(v@)[w] == x@;
        }
    }
    None
}

/// Whether some string equals `x`.
pub fn strs_contains(v: &Vec<String>, x: &str) -> (r: bool)
    ensures
        r == strs_view(v@).contains(x@),
{
    strs_find(v, x).is_some()
}

/// Add `x` unless an equal string is already present.
pub fn strs_insert(v: &mut Vec<String>, x: &str)
    ensures
        strs_view(final(v)@) =~= (if strs_view(old(v)@).contains(x@) {
            strs_view(old(v)@)
        } else {
            strs_view(old(v)@).push(x@)
        }),
{
    let ghost pre = strs_view(v@);
    if !strs_contains(v, x) {
        v.push(str_of(x));
        proof {
            assert(strs_view(v@) =~= pre.push(x@));
        }
    }
}

/// Remove the first string equal to `x`, if any.
pub fn strs_remove(v: &mut Vec<String>, x: &str)
    ensures
        strs_view(final(v)@) =~= remove_first_str(strs_view(old(v)@), x@),
{
    let ghost pre = strs_view(v@);
    match strs_find(v, x) {
        Some(i) => {
            proof {
                lemma_remove_first_str_at(pre, x@, i as int);
            }
            v.remove(i);
            proof {
                assert(strs_view(v@) =~= pre.remove(i as int));
            }
        },
        None => {
            proof {
                if pre.len() > 0 {
                    lemma_remove_first_absent(pre, x@);
                } else {
                    assert(remove_first_str(pre, x@) =~= pre);
                }
            }
        },
    }
}

/// Removing an absent element changes nothing.
pub proof fn lemma_remove_first_absent(s: Seq<Seq<char>>, x: Seq<char>)
    requires
        !s.contains(x),
    ensures
        remove_first_str(s, x) =~= s,
    decreases s.len(),
{
    if s.len() > 0 {
        assert(s[0] != x);
        assert(!s.drop_first().contains(x)) by {
            if s.drop_first().contains(x) {
                let w = choose|w: int| 0 <= w < s.drop_first().len() && s.drop_first()[w] == x;
                assert(s[w + 1] == x);
            }
        };
        lemma_remove_first_absent(s.drop_first(), x);
    }
}

} // verus!
