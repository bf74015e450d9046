use vstd::prelude::*;

verus! {

/// ASCII lowercasing of a single character; anything outside 'A'..='Z' is
/// unchanged. This mirrors the ASCII-only case folding that the catalog's
/// case-insensitive lookups use.
pub open spec fn lower_char_spec(c: char) -> char {
    if 'A' <= c && c <= 'Z' {
        (((c as u8) + 32) as char)
    } else {
        c
    }
}

/// ASCII lowercasing of a character sequence.
pub open spec fn lower_chars(s: Seq<char>) -> Seq<char> {
    s.map_values(|c: char| lower_char_spec(c))
}

/// Two character sequences are equal up to ASCII case.
pub open spec fn eq_ci(a: Seq<char>, b: Seq<char>) -> bool {
    lower_chars(a) == lower_chars(b)
}

/// `needle` occurs as a contiguous subsequence of `hay`, up to ASCII case.
pub open spec fn contains_ci(hay: Seq<char>, needle: Seq<char>) -> bool {
    exists|k: int|
        0 <= k && k + needle.len() <= hay.len() && eq_ci(
            #[trigger] hay.subrange(k, k + needle.len() as int),
            needle,
        )
}

pub fn lower_char(c: char) -> (r: char)
    ensures
        r == lower_char_spec(c),
{
    if 'A' <= c && c <= 'Z' {
        ((c as u8) + 32) as char
    } else {
        c
    }
}

/// Case-insensitive (ASCII) equality of two strings.
pub fn str_eq_ci(a: &str, b: &str) -> (r: bool)
    ensures
        r == eq_ci(a@, b@),
{
    let n = a.unicode_len();
    let m = b.unicode_len();
    if n != m {
        assert(lower_chars(a@).len() != lower_chars(b@).len());
        return false;
    }
    for i in 0..n
        invariant
            n == a@.len(),
            n == b@.len(),
            forall|j: int| 0 <= j < i ==> lower_chars(a@)[j] == lower_chars(b@)[j],
    {
        let ca = lower_char(a.get_char(i));
        let cb = lower_char(b.get_char(i));
        if ca != cb {
            assert(lower_chars(a@)[i as int] != lower_chars(b@)[i as int]);
            return false;
        }
    }
    proof {
        assert(lower_chars(a@) =~= lower_chars(b@));
    }
    true
}

/// Lexicographic order on character sequences, by code point, with a prefix
/// ordered before its extensions.
pub open spec fn lex_le(a: Seq<char>, b: Seq<char>) -> bool
    decreases a.len(),
{
    if a.len() == 0 {
        true
    } else if b.len() == 0 {
        false
    } else if a.first() != b.first() {
        a.first() < b.first()
    } else {
        lex_le(a.drop_first(), b.drop_first())
    }
}

/// The lexicographic order is total.
pub proof fn lemma_lex_le_total(a: Seq<char>, b: Seq<char>)
    ensures
        lex_le(a, b) || lex_le(b, a),
    decreases a.len(),
{
    if a.len() > 0 && b.len() > 0 && a.first() == b.first() {
        lemma_lex_le_total(a.drop_first(), b.drop_first());
    }
}

/// The lexicographic order is transitive.
pub proof fn lemma_lex_le_trans(a: Seq<char>, b: Seq<char>, c: Seq<char>)
    requires
        lex_le(a, b),
        lex_le(b, c),
    ensures
        lex_le(a, c),
    decreases a.len(),
{
    if a.len() > 0 && b.len() > 0 && c.len() > 0 && a.first() == b.first() && b.first()
        == c.first() {
        lemma_lex_le_trans(a.drop_first(), b.drop_first(), c.drop_first());
    }
}

/// Lexicographic comparison of two string slices.
pub fn str_lex_le(a: &str, b: &str) -> (r: bool)
    ensures
        r == lex_le(a@, b@),
{
    let n = a.unicode_len();
    let m = b.unicode_len();
    let mut i: usize = 0;
    proof {
        assert(a@.skip(0) =~= a@);
        assert(b@.skip(0) =~= b@);
    }
    loop
        invariant
            n == a@.len(),
            m == b@.len(),
            i <= n,
            i <= m,
            lex_le(a@, b@) == lex_le(a@.skip(i as int), b@.skip(i as int)),
        decreases n - i,
    {
        if i == n {
            return true;
        }
        if i == m {
            return false;
        }
        let ca = a.get_char(i);
        let cb = b.get_char(i);
        proof {
            assert(a@.skip(i as int).first() == a@[i as int]);
            assert(b@.skip(i as int).first() == b@[i as int]);
            assert(a@.skip(i as int).drop_first() =~= a@.skip(i + 1));
            assert(b@.skip(i as int).drop_first() =~= b@.skip(i + 1));
        }
        if ca != cb {
            return ca < cb;
        }
        i = i + 1;
    }
}

/// Lexicographic comparison of two owned strings.
pub fn string_lex_le(a: &String, b: &String) -> (r: bool)
    ensures
        r == lex_le(a@, b@),
{
    str_lex_le(a.as_str(), b.as_str())
}

/// Exact equality of two string slices.
pub fn str_eq(a: &str, b: &str) -> (r: bool)
    ensures
        r == (a@ == b@),
{
    let n = a.unicode_len();
    let m = b.unicode_len();
    if n != m {
        return false;
    }
    for i in 0..n
        invariant
            n == a@.len(),
            n == b@.len(),
            forall|j: int| 0 <= j < i ==> a@[j] == b@[j],
    {
        if a.get_char(i) != b.get_char(i) {
            return false;
        }
    }
    proof {
        assert(a@ =~= b@);
    }
    true
}

/// Case-insensitive (ASCII) equality of two owned strings.
pub fn string_eq_ci(a: &String, b: &String) -> (r: bool)
    ensures
        r == eq_ci(a@, b@),
{
    str_eq_ci(a.as_str(), b.as_str())
}

/// Whether `hay[k .. k + needle.len()]` matches `needle` up to ASCII case.
pub(crate) fn matches_at(hay: &str, k: usize, needle: &str) -> (r: bool)
    requires
        k + needle@.len() <= hay@.len(),
        hay@.len() <= usize::MAX,
    ensures
        r == eq_ci(hay@.subrange(k as int, k as int + needle@.len() as int), needle@),
{
    let m = needle.unicode_len();
    let ghost sub = hay@.subrange(k as int, k as int + needle@.len() as int);
    for j in 0..m
        invariant
            m == needle@.len(),
            k + m <= hay@.len(),
            hay@.len() <= usize::MAX,
            sub == hay@.subrange(k as int, k as int + needle@.len() as int),
            forall|l: int| 0 <= l < j ==> lower_chars(sub)[l] == lower_chars(needle@)[l],
    {
        let ch = lower_char(hay.get_char(k + j));
        let cn = lower_char(needle.get_char(j));
        if ch != cn {
            assert(lower_chars(sub)[j as int] != lower_chars(needle@)[j as int]);
            return false;
        }
        assert(lower_chars(sub)[j as int] == lower_chars(needle@)[j as int]);
    }
    proof {
        assert(lower_chars(sub) =~= lower_chars(needle@));
    }
    true
}

/// Case-insensitive (ASCII) substring search: the "LIKE %needle%" match that
/// the user-facing query layer offers.
pub fn str_contains_ci(hay: &str, needle: &str) -> (r: bool)
    ensures
        r == contains_ci(hay@, needle@),
{
    let n = hay.unicode_len();
    let m = needle.unicode_len();
    if m > n {
        return false;
    }
    if m == 0 {
        proof {
            assert(lower_chars(hay@.subrange(0, 0 + needle@.len() as int)) =~= lower_chars(
                needle@,
            ));
            assert(contains_ci(hay@, needle@)) by {
                assert(0 <= 0 && 0 + needle@.len() <= hay@.len() && eq_ci(
                    hay@.subrange(0, 0 + needle@.len() as int),
                    needle@,
                ));
            }
        }
        return true;
    }
    for k in 0..(n - m) + 1
        invariant
            n == hay@.len(),
            m == needle@.len(),
            m <= n,
            forall|l: int|
                0 <= l < k ==> !eq_ci(#[trigger] hay@.subrange(l, l + needle@.len() as int), needle@),
    {
        if matches_at(hay, k, needle) {
            return true;
        }
    }
    false
}

/// Case-insensitive (ASCII) substring search on owned strings.
pub fn string_contains_ci(hay: &String, needle: &String) -> (r: bool)
    ensures
        r == contains_ci(hay@, needle@),
{
    str_contains_ci(hay.as_str(), needle.as_str())
}

} // verus!
