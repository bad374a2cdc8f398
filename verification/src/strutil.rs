//! Verified string utilities for the discovery protocol: first-occurrence
//! search, prefix trimming, separator splitting and substring containment,
//! each proved against a direct mathematical definition over `Seq<char>`.

use vstd::prelude::*;

verus! {

/// Index of the first occurrence of `c` in `s`, or `s.len()` if `c` is absent.
pub open spec fn seq_index_of(s: Seq<char>, c: char) -> int
    decreases s.len(),
{
    if s.len() == 0 {
        0
    } else if s[0] == c {
        0
    } else {
        1 + seq_index_of(s.subrange(1, s.len() as int), c)
    }
}

/// Number of copies of `c` at the front of `s`.
pub open spec fn count_leading(s: Seq<char>, c: char) -> int
    decreases s.len(),
{
    if s.len() == 0 {
        0
    } else if s[0] != c {
        0
    } else {
        1 + count_leading(s.subrange(1, s.len() as int), c)
    }
}

/// The part of `s` before the first occurrence of `sep` (all of `s` if absent).
pub open spec fn first_segment(s: Seq<char>, sep: char) -> Seq<char> {
    s.subrange(0, seq_index_of(s, sep))
}

/// `s` with every leading copy of `c` removed.
pub open spec fn strip_leading(s: Seq<char>, c: char) -> Seq<char> {
    s.subrange(count_leading(s, c), s.len() as int)
}

/// The pieces of `s` between occurrences of `sep`: always one more piece than
/// there are separators, so the empty string splits into one empty piece.
pub open spec fn split_on(s: Seq<char>, sep: char) -> Seq<Seq<char>>
    decreases s.len() via split_on_decreases
{
    let i = seq_index_of(s, sep);
    if i >= s.len() {
        seq![s]
    } else {
        seq![s.subrange(0, i)] + split_on(s.subrange(i + 1, s.len() as int), sep)
    }
}

#[via_fn]
proof fn split_on_decreases(s: Seq<char>, sep: char) {
    lemma_seq_index_of_bounds(s, sep);
}

/// `needle` occurs contiguously somewhere in `hay`.
pub open spec fn contains_seq(hay: Seq<char>, needle: Seq<char>) -> bool {
    exists|i: int|
        0 <= i && i + needle.len() <= hay.len() && #[trigger] hay.subrange(i, i + needle.len())
            == needle
}

/// `seq_index_of` really is the first occurrence: everything before it differs
/// from `c`, and it points at `c` whenever `c` occurs at all.
pub proof fn lemma_seq_index_of_bounds(s: Seq<char>, c: char)
    ensures
        0 <= seq_index_of(s, c) <= s.len(),
        seq_index_of(s, c) < s.len() ==> s[seq_index_of(s, c)] == c,
        forall|j: int| 0 <= j < seq_index_of(s, c) ==> s[j] != c,
    decreases s.len(),
{
    if s.len() == 0 {
    } else if s[0] == c {
    } else {
        let rest = s.subrange(1, s.len() as int);
        lemma_seq_index_of_bounds(rest, c);
        assert forall|j: int| 0 <= j < seq_index_of(s, c) implies s[j] != c by {
            if j > 0 {
                assert(s[j] == rest[j - 1]);
            }
        }
    }
}

/// `count_leading` counts exactly the leading run of `c`.
pub proof fn lemma_count_leading_bounds(s: Seq<char>, c: char)
    ensures
        0 <= count_leading(s, c) <= s.len(),
        count_leading(s, c) < s.len() ==> s[count_leading(s, c)] != c,
        forall|j: int| 0 <= j < count_leading(s, c) ==> s[j] == c,
    decreases s.len(),
{
    if s.len() == 0 {
    } else if s[0] != c {
    } else {
        let rest = s.subrange(1, s.len() as int);
        lemma_count_leading_bounds(rest, c);
        assert forall|j: int| 0 <= j < count_leading(s, c) implies s[j] == c by {
            if j > 0 {
                assert(s[j] == rest[j - 1]);
            }
        }
    }
}

/// Two string slices are equal exactly when their character views are.
pub fn str_eq(a: &str, b: &str) -> (r: bool)
    ensures
        r == (a@ == b@),
{
    let alen = a.unicode_len();
    let blen = b.unicode_len();
    if alen != blen {
        return false;
    }
    let mut i: usize = 0;
    while i < alen
        invariant
            alen == a@.len(),
            alen == b@.len(),
            i <= alen,
            forall|j: int| 0 <= j < i ==> a@[j] == b@[j],
        decreases alen - i,
    {
        if a.get_char(i) != b.get_char(i) {
            return false;
        }
        i = i + 1;
    }
    proof {
        assert(a@ =~= b@);
    }
    true
}

/// Index of the first occurrence of `c` in `s`, or the character length of
/// `s` if `c` does not occur.
pub fn find_char(s: &str, c: char) -> (r: usize)
    ensures
        r as int == seq_index_of(s@, c),
{
    proof {
        lemma_seq_index_of_bounds(s@, c);
    }
    let len = s.unicode_len();
    let mut i: usize = 0;
    while i < len
        invariant
            len == s@.len(),
            i <= len,
            forall|j: int| 0 <= j < i ==> s@[j] != c,
            0 <= seq_index_of(s@, c) <= s@.len(),
            seq_index_of(s@, c) < s@.len() ==> s@[seq_index_of(s@, c)] == c,
            forall|j: int| 0 <= j < seq_index_of(s@, c) ==> s@[j] != c,
        decreases len - i,
    {
        if s.get_char(i) == c {
            return i;
        }
        i = i + 1;
    }
    len
}

/// Number of leading copies of `c` in `s`.
pub fn count_leading_chars(s: &str, c: char) -> (r: usize)
    ensures
        r as int == count_leading(s@, c),
{
    proof {
        lemma_count_leading_bounds(s@, c);
    }
    let len = s.unicode_len();
    let mut i: usize = 0;
    while i < len
        invariant
            len == s@.len(),
            i <= len,
            forall|j: int| 0 <= j < i ==> s@[j] == c,
            0 <= count_leading(s@, c) <= s@.len(),
            count_leading(s@, c) < s@.len() ==> s@[count_leading(s@, c)] != c,
            forall|j: int| 0 <= j < count_leading(s@, c) ==> s@[j] == c,
        decreases len - i,
    {
        if s.get_char(i) != c {
            return i;
        }
        i = i + 1;
    }
    len
}

/// The first `.`-separated segment of `fullname`, with leading underscores
/// removed: how a peer's display name is read back out of its advertised
/// service instance name.
pub fn service_base_name(fullname: &str) -> (r: String)
    ensures
        r@ == strip_leading(first_segment(fullname@, '.'), '_'),
{
    proof {
        lemma_seq_index_of_bounds(fullname@, '.');
    }
    let dot = find_char(fullname, '.');
    let seg = fullname.substring_char(0, dot);
    proof {
        lemma_count_leading_bounds(seg@, '_');
    }
    let lead = count_leading_chars(seg, '_');
    let seglen = seg.unicode_len();
    let trimmed = seg.substring_char(lead, seglen);
    trimmed.to_owned()
}

/// Splits `s` at every occurrence of `sep`, yielding owned pieces.
pub fn split_string(s: &str, sep: char) -> (r: Vec<String>)
    ensures
        r@.len() == split_on(s@, sep).len(),
        forall|i: int| 0 <= i < r@.len() ==> r@[i]@ == split_on(s@, sep)[i],
{
    let len = s.unicode_len();
    let mut pieces: Vec<String> = Vec::new();
    let mut pos: usize = 0;
    proof {
        assert(s@.subrange(0, len as int) =~= s@);
        assert(pieces@.map_values(|p: String| p@) + split_on(s@, sep) =~= split_on(s@, sep));
    }
    loop
        invariant_except_break
            len == s@.len(),
            pos <= len,
            split_on(s@, sep) == pieces@.map_values(|p: String| p@) + split_on(
                s@.subrange(pos as int, len as int),
                sep,
            ),
        ensures
            split_on(s@, sep) == pieces@.map_values(|p: String| p@),
        decreases len - pos,
    {
        let rest = s.substring_char(pos, len);
        let i = find_char(rest, sep);
        proof {
            lemma_seq_index_of_bounds(rest@, sep);
        }
        let restlen = rest.unicode_len();
        let ghost prev = pieces@;
        if i == restlen {
            let piece = rest.to_owned();
            pieces.push(piece);
            proof {
                assert(split_on(rest@, sep) == seq![rest@]);
                assert(pieces@.map_values(|p: String| p@) =~= prev.map_values(|p: String| p@)
                    + seq![rest@]);
                assert(prev.map_values(|p: String| p@) + seq![rest@] =~= prev.map_values(
                    |p: String| p@,
                ) + split_on(rest@, sep));
            }
            break;
        } else {
            let piece = rest.substring_char(0, i);
            pieces.push(piece.to_owned());
            proof {
                assert(pieces@.map_values(|p: String| p@) =~= prev.map_values(|p: String| p@)
                    + seq![rest@.subrange(0, i as int)]);
                assert(rest@.subrange(i + 1, rest@.len() as int) =~= s@.subrange(
                    pos + i + 1,
                    len as int,
                ));
                assert(split_on(rest@, sep) == seq![rest@.subrange(0, i as int)] + split_on(
                    rest@.subrange(i + 1, rest@.len() as int),
                    sep,
                ));
                assert(prev.map_values(|p: String| p@) + split_on(rest@, sep) =~= (
                prev.map_values(|p: String| p@) + seq![rest@.subrange(0, i as int)]) + split_on(
                    rest@.subrange(i + 1, rest@.len() as int),
                    sep,
                ));
            }
            pos = pos + i + 1;
        }
    }
    pieces
}

/// Checks whether `needle` occurs contiguously in `hay` at position `at`.
fn matches_at(hay: &str, needle: &str, at: usize) -> (r: bool)
    requires
        at + needle@.len() <= hay@.len(),
    ensures
        r == (hay@.subrange(at as int, at + needle@.len()) == needle@),
{
    let hlen = hay.unicode_len();
    let nlen = needle.unicode_len();
    let mut j: usize = 0;
    while j < nlen
        invariant
            hlen == hay@.len(),
            nlen == needle@.len(),
            at + nlen <= hay@.len(),
            j <= nlen,
            forall|m: int| 0 <= m < j ==> hay@[at + m] == needle@[m],
        decreases nlen - j,
    {
        if hay.get_char(at + j) != needle.get_char(j) {
            proof {
                let sub = hay@.subrange(at as int, at + needle@.len());
                assert(sub[j as int] != needle@[j as int]);
            }
            return false;
        }
        j = j + 1;
    }
    proof {
        assert(hay@.subrange(at as int, at + needle@.len()) =~= needle@);
    }
    true
}

/// Substring containment: whether `needle` occurs anywhere in `hay`. The
/// discovery registry uses this for its best-effort removal correlation.
pub fn str_contains(hay: &str, needle: &str) -> (r: bool)
    ensures
        r == contains_seq(hay@, needle@),
{
    let hlen = hay.unicode_len();
    let nlen = needle.unicode_len();
    if nlen > hlen {
        return false;
    }
    if nlen == 0 {
        proof {
            assert(hay@.subrange(0, 0 + needle@.len() as int) =~= needle@);
        }
        return true;
    }
    let mut i: usize = 0;
    while i <= hlen - nlen
        invariant
            hlen == hay@.len(),
            nlen == needle@.len(),
            0 < nlen <= hlen,
            i <= hlen - nlen + 1,
            forall|k: int|
                0 <= k < i ==> #[trigger] hay@.subrange(k, k + needle@.len()) != needle@,
        decreases hlen - nlen - i + 1,
    {
        if matches_at(hay, needle, i) {
            return true;
        }
        i = i + 1;
    }
    false
}

} // verus!
