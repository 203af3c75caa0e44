//! Character-level string utilities: suffix test, substring search and
//! lexicographic comparison, each specified over `Seq<char>` views.

use vstd::prelude::*;

verus! {

/// `s` ends with `suffix`, compared character by character.
pub open spec fn ends_with(s: Seq<char>, suffix: Seq<char>) -> bool {
    suffix.len() <= s.len() && s.subrange(s.len() - suffix.len(), s.len() as int)
        == suffix
}

/// Suffix test on string slices, character by character.
pub fn str_ends_with(s: &str, suffix: &str) -> (r: bool)
    ensures
        r == ends_with(s@, suffix@),
{
    let n = s.unicode_len();
    let m = suffix.unicode_len();
    if m > n {
        return false;
    }
    let mut i: usize = 0;
    while i < m
        invariant
            i <= m,
            m <= n,
            n == s@.len(),
            m == suffix@.len(),
            forall|j: int| 0 <= j < i ==> s@[n - m + j] == suffix@[j],
        decreases m - i,
    {
        if s.get_char(n - m + i) != suffix.get_char(i) {
            assert(!ends_with(s@, suffix@)) by {
                if ends_with(s@, suffix@) {
                    assert(s@.subrange(n - m, n as int)[i as int] == suffix@[i as int]);
                }
            }
            return false;
        }
        i += 1;
    }
    assert(s@.subrange(n - m, n as int) =~= suffix@);
    true
}

/// Character-for-character equality of string slices.
pub fn str_eq(a: &str, b: &str) -> (r: bool)
    ensures
        r == (a@ == b@),
{
    let n = a.unicode_len();
    if n != b.unicode_len() {
        return false;
    }
    let mut i: usize = 0;
    while i < n
        invariant
            i <= n,
            n == a@.len(),
            n == b@.len(),
            forall|j: int| 0 <= j < i ==> a@[j] == b@[j],
        decreases n - i,
    {
        if a.get_char(i) != b.get_char(i) {
            return false;
        }
        i += 1;
    }
    assert(a@ =~= b@);
    true
}

/// `pat` occurs in `s` starting at position `i`.
pub open spec fn matches_at(s: Seq<char>, pat: Seq<char>, i: int) -> bool {
    0 <= i && i + pat.len() <= s.len() && s.subrange(i, i + pat.len()) == pat
}

/// `pat` occurs somewhere in `s`.
pub open spec fn contains_seq(s: Seq<char>, pat: Seq<char>) -> bool {
    exists|i: int| matches_at(s, pat, i)
}

fn str_matches_at(s: &str, pat: &str, i: usize) -> (r: bool)
    requires
        i + pat@.len() <= s@.len(),
    ensures
        r == matches_at(s@, pat@, i as int),
{
    let m = pat.unicode_len();
    let n = s.unicode_len();
    let mut j: usize = 0;
    while j < m
        invariant
            j <= m,
            m == pat@.len(),
            n == s@.len(),
            i + m <= n,
            forall|k: int| 0 <= k < j ==> s@[i + k] == pat@[k],
        decreases m - j,
    {
        if s.get_char(i + j) != pat.get_char(j) {
            assert(!matches_at(s@, pat@, i as int)) by {
                if matches_at(s@, pat@, i as int) {
                    assert(s@.subrange(i as int, i + pat@.len())[j as int] == pat@[j as int]);
                }
            }
            return false;
        }
        j += 1;
    }
    assert(s@.subrange(i as int, i + m) =~= pat@);
    true
}

/// Prefix test on string slices, character by character.
pub fn str_matches_prefix(s: &str, prefix: &str) -> (r: bool)
    requires
        prefix@.len() <= s@.len(),
    ensures
        r == (s@.subrange(0, prefix@.len() as int) == prefix@),
{
    str_matches_at(s, prefix, 0)
}

/// Substring search, character by character.
pub fn str_contains(s: &str, pat: &str) -> (r: bool)
    ensures
        r == contains_seq(s@, pat@),
{
    let n = s.unicode_len();
    let m = pat.unicode_len();
    if m > n {
        assert(!contains_seq(s@, pat@)) by {
            if contains_seq(s@, pat@) {
                let i = choose|i: int| matches_at(s@, pat@, i);
            }
        }
        return false;
    }
    if m == 0 {
        assert(s@.subrange(0, 0) =~= pat@);
        assert(matches_at(s@, pat@, 0));
        return true;
    }
    let mut i: usize = 0;
    while i <= n - m
        invariant
            0 < m <= n,
            n == s@.len(),
            m == pat@.len(),
            i <= n - m + 1,
            forall|k: int| 0 <= k < i ==> !matches_at(s@, pat@, k),
        decreases n - i,
    {
        if str_matches_at(s, pat, i) {
            return true;
        }
        i += 1;
    }
    assert(!contains_seq(s@, pat@)) by {
        if contains_seq(s@, pat@) {
            let k = choose|k: int| matches_at(s@, pat@, k);
            assert(!matches_at(s@, pat@, k));
        }
    }
    false
}

/// The scalar value of a character with an ASCII capital folded to its small
/// counterpart; any other character keeps its own scalar value.
pub open spec fn lower_code(c: char) -> u32 {
    if 65 <= c as u32 <= 90 {
        (c as u32 + 32) as u32
    } else {
        c as u32
    }
}

/// Equality of character sequences up to ASCII case.
pub open spec fn eq_lower(a: Seq<char>, b: Seq<char>) -> bool {
    a.len() == b.len() && forall|i: int| 0 <= i < a.len() ==> lower_code(a[i]) == lower_code(
        #[trigger] b[i],
    )
}

/// Equality of string slices up to ASCII case.
pub fn str_eq_lower(a: &str, b: &str) -> (r: bool)
    ensures
        r == eq_lower(a@, b@),
{
    let n = a.unicode_len();
    if n != b.unicode_len() {
        return false;
    }
    let mut i: usize = 0;
    while i < n
        invariant
            i <= n,
            n == a@.len(),
            n == b@.len(),
            forall|j: int| 0 <= j < i ==> lower_code(a@[j]) == lower_code(#[trigger] b@[j]),
        decreases n - i,
    {
        let ca = a.get_char(i) as u32;
        let cb = b.get_char(i) as u32;
        let la: u32 = if 65 <= ca && ca <= 90 {
            ca + 32
        } else {
            ca
        };
        let lb: u32 = if 65 <= cb && cb <= 90 {
            cb + 32
        } else {
            cb
        };
        if la != lb {
            return false;
        }
        i += 1;
    }
    true
}

/// Index where the extension of a filename starts: just past the last `.`,
/// or `0` when the name has no `.` (the whole name then counts as the
/// extension, as the consumers of this convention expect).
pub open spec fn ext_start(s: Seq<char>) -> int
    decreases s.len(),
{
    if s.len() == 0 {
        0
    } else if s.last() == '.' {
        s.len() as int
    } else {
        ext_start(s.drop_last())
    }
}

/// The extension of a filename under the convention of `ext_start`.
pub open spec fn ext_of(s: Seq<char>) -> Seq<char> {
    s.subrange(ext_start(s), s.len() as int)
}

proof fn lemma_ext_start_at(s: Seq<char>, j: int)
    requires
        0 <= j <= s.len(),
        j > 0 ==> s[j - 1] == '.',
        forall|k: int| j <= k < s.len() ==> s[k] != '.',
    ensures
        ext_start(s) == j,
    decreases s.len(),
{
    if s.len() != 0 && s.last() != '.' {
        lemma_ext_start_at(s.drop_last(), j);
    }
}

/// The extension of a filename: what follows the last `.`, the empty string
/// for a name ending in `.`, and the whole name when it has no `.`.
pub fn file_ext<'a>(name: &'a str) -> (r: &'a str)
    ensures
        r@ == ext_of(name@),
{
    let n = name.unicode_len();
    let mut j: usize = n;
    while j > 0
        invariant
            j <= n,
            n == name@.len(),
            forall|k: int| j <= k < n ==> name@[k] != '.',
        decreases j,
    {
        if name.get_char(j - 1) == '.' {
            proof {
                lemma_ext_start_at(name@, j as int);
            }
            return name.substring_char(j, n);
        }
        j -= 1;
    }
    proof {
        lemma_ext_start_at(name@, 0);
        assert(name@.subrange(0, n as int) =~= name@);
    }
    name
}

/// Lexicographic order on character sequences, by unicode scalar value.
pub open spec fn chars_le(a: Seq<char>, b: Seq<char>) -> bool
    decreases a.len(),
{
    if a.len() == 0 {
        true
    } else if b.len() == 0 {
        false
    } else if (a[0] as u32) == (b[0] as u32) {
        chars_le(a.drop_first(), b.drop_first())
    } else {
        (a[0] as u32) < (b[0] as u32)
    }
}

/// The order is total.
pub proof fn lemma_chars_le_total(a: Seq<char>, b: Seq<char>)
    ensures
        chars_le(a, b) || chars_le(b, a),
    decreases a.len(),
{
    if a.len() != 0 && b.len() != 0 && (a[0] as u32) == (b[0] as u32) {
        lemma_chars_le_total(a.drop_first(), b.drop_first());
    }
}

/// The order is transitive.
pub proof fn lemma_chars_le_trans(a: Seq<char>, b: Seq<char>, c: Seq<char>)
    requires
        chars_le(a, b),
        chars_le(b, c),
    ensures
        chars_le(a, c),
    decreases a.len(),
{
    if a.len() != 0 && b.len() != 0 && c.len() != 0 {
        if (a[0] as u32) == (b[0] as u32) && (b[0] as u32) == (c[0] as u32) {
            lemma_chars_le_trans(a.drop_first(), b.drop_first(), c.drop_first());
        }
    }
}

/// Lexicographic comparison of string slices, by unicode scalar value.
pub fn str_le(a: &str, b: &str) -> (r: bool)
    ensures
        r == chars_le(a@, b@),
{
    let n = a.unicode_len();
    let m = b.unicode_len();
    let mut i: usize = 0;
    assert(a@.skip(0) =~= a@);
    assert(b@.skip(0) =~= b@);
    loop
        invariant
            i <= n,
            i <= m,
            n == a@.len(),
            m == b@.len(),
            chars_le(a@, b@) == chars_le(a@.skip(i as int), b@.skip(i as int)),
        decreases n - i,
    {
        if i == n {
            assert(chars_le(a@.skip(i as int), b@.skip(i as int)));
            return true;
        }
        if i == m {
            assert(!chars_le(a@.skip(i as int), b@.skip(i as int)));
            return false;
        }
        let ca = a.get_char(i);
        let cb = b.get_char(i);
        if ca != cb {
            return (ca as u32) < (cb as u32);
        }
        assert(a@.skip(i as int).drop_first() =~= a@.skip(i + 1));
        assert(b@.skip(i as int).drop_first() =~= b@.skip(i + 1));
        i += 1;
    }
}

} // verus!
