//! Character-level helpers over the views of strings.
use vstd::prelude::*;
use vstd::string::StrSliceExecFns;

verus! {

/// Whether `pattern` occurs in `s` starting at index `k`.
pub open spec fn occurs_at(s: Seq<char>, pattern: Seq<char>, k: int) -> bool {
    0 <= k && k + pattern.len() <= s.len() && s.subrange(k, k + pattern.len()) == pattern
}

/// Whether `k` is the first index at which `pattern` occurs in `s`.
pub open spec fn first_occurrence_at(s: Seq<char>, pattern: Seq<char>, k: int) -> bool {
    occurs_at(s, pattern, k) && forall|j: int| 0 <= j < k ==> !occurs_at(s, pattern, j)
}

/// Whether `s` begins with `prefix`.
pub open spec fn starts_with(s: Seq<char>, prefix: Seq<char>) -> bool {
    prefix.len() <= s.len() && s.subrange(0, prefix.len() as int) == prefix
}

/// The characters of a string.
pub fn chars_of(s: &str) -> (v: Vec<char>)
    ensures
        v@ == s@,
{
    let n = s.unicode_len();
    let mut v: Vec<char> = Vec::new();
    let mut i: usize = 0;
    while i < n
        invariant
            n == s@.len(),
            i <= n,
            v@ == s@.subrange(0, i as int),
        decreases n - i,
    {
        v.push(s.get_char(i));
        i = i + 1;
    }
    v
}

/// Whether `pattern` occurs in `s` at index `k`.
pub fn matches_at(s: &Vec<char>, pattern: &Vec<char>, k: usize) -> (b: bool)
    ensures
        b == occurs_at(s@, pattern@, k as int),
{
    if k > s.len() || pattern.len() > s.len() - k {
        return false;
    }
    let mut j: usize = 0;
    while j < pattern.len()
        invariant
            k + pattern.len() <= s.len(),
            j <= pattern@.len(),
            forall|i: int| 0 <= i < j ==> s@[k + i] == pattern@[i],
        decreases pattern.len() - j,
    {
        if s[k + j] != pattern[j] {
            assert(s@.subrange(k as int, k + pattern@.len())[j as int] != pattern@[j as int]);
            return false;
        }
        j = j + 1;
    }
    assert(s@.subrange(k as int, k + pattern@.len()) =~= pattern@);
    true
}

/// Whether two character sequences are equal.
pub fn chars_equal(a: &Vec<char>, b: &Vec<char>) -> (r: bool)
    ensures
        r == (a@ == b@),
{
    if a.len() != b.len() {
        return false;
    }
    let r = matches_at(a, b, 0);
    assert(a@.subrange(0, b@.len() as int) =~= a@);
    r
}


/// Whether `needle` occurs anywhere in `hay`.
pub open spec fn contains_chars(hay: Seq<char>, needle: Seq<char>) -> bool {
    exists|k: int| occurs_at(hay, needle, k)
}

/// Whether `needle` occurs anywhere in `hay`.
pub fn find_chars(hay: &Vec<char>, needle: &Vec<char>) -> (b: bool)
    ensures
        b == contains_chars(hay@, needle@),
{
    let mut k: usize = 0;
    loop
        invariant
            k <= hay.len(),
            forall|j: int| 0 <= j < k ==> !occurs_at(hay@, needle@, j),
        decreases hay.len() - k,
    {
        if matches_at(hay, needle, k) {
            return true;
        }
        if k == hay.len() {
            assert forall|j: int| !occurs_at(hay@, needle@, j) by {
                if 0 <= j < k {
                }
            }
            return false;
        }
        k = k + 1;
    }
}

/// The lower-case form of a text, as the standard library's Unicode case
/// mapping gives it.
pub uninterp spec fn lowercase_of(s: Seq<char>) -> Seq<char>;

/// Calls `str::to_lowercase`. Its result depends on the text alone (the
/// Unicode tables of the standard library), and is named `lowercase_of`;
/// nothing more of the mapping is stated.
#[verifier::external_body]
pub(crate) fn lowercase(s: &str) -> (r: String)
    ensures
        r@ == lowercase_of(s@),
{
    s.to_lowercase()
}

} // verus!
