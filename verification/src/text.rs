use vstd::prelude::*;

verus! {

/// `needle` occurs in `haystack` as a run of consecutive characters.
/// An empty `needle` occurs in every `haystack`.
pub open spec fn has_substring(haystack: Seq<char>, needle: Seq<char>) -> bool {
    exists|i: int|
        0 <= i && i + needle.len() <= haystack.len()
            && #[trigger] haystack.subrange(i, i + needle.len()) == needle
}

/// The lowercase form of a string, as `str::to_lowercase` computes it
/// (Unicode's `Lowercase` mapping, character by character, with the
/// context-dependent final sigma).
pub uninterp spec fn lowercase(s: Seq<char>) -> Seq<char>;

/// Calls `str::to_lowercase`. The contract claims only that the result is
/// the lowercase form of the argument, a function of the argument alone;
/// which characters Unicode maps to which is left to `lowercase`.
#[verifier::external_body]
pub(crate) fn to_lowercase(s: &str) -> (r: String)
    ensures
        r@ == lowercase(s@),
{
    s.to_lowercase()
}

/// The characters of a string slice, in order.
pub fn chars_of(s: &str) -> (v: Vec<char>)
    ensures
        v@ == s@,
{
    let mut v: Vec<char> = Vec::new();
    for c in it: s.chars()
        invariant
            v.len() == it.index(),
            forall|i: int| 0 <= i < v.len() ==> v@[i] == it.seq()[i],
    {
        v.push(c);
    }
    assert(v@ =~= s@);
    v
}

/// Whether `needle` stands in `haystack` from position `start` on.
fn occurs_at(haystack: &Vec<char>, needle: &Vec<char>, start: usize) -> (b: bool)
    requires
        start + needle@.len() <= haystack@.len(),
    ensures
        b == (haystack@.subrange(start as int, start + needle@.len()) == needle@),
{
    let n = needle.len();
    let mut j: usize = 0;
    while j < n
        invariant
            j <= n,
            n == needle@.len(),
            start + n <= haystack.len(),
            forall|m: int| 0 <= m < j ==> haystack@[start + m] == needle@[m],
        decreases n - j,
    {
        if haystack[start + j] != needle[j] {
            assert(haystack@.subrange(start as int, start + n)[j as int] != needle@[j as int]);
            return false;
        }
        j += 1;
    }
    assert(haystack@.subrange(start as int, start + n) =~= needle@);
    true
}

/// Whether `needle` occurs in `haystack`, as `str::contains` decides for a
/// string pattern.
pub fn contains_chars(haystack: &Vec<char>, needle: &Vec<char>) -> (b: bool)
    ensures
        b == has_substring(haystack@, needle@),
{
    let h = haystack.len();
    let n = needle.len();
    if n > h {
        return false;
    }
    if n == 0 {
        assert(haystack@.subrange(0, 0 + needle@.len() as int) =~= needle@);
        return true;
    }
    let mut i: usize = 0;
    while i <= h - n
        invariant
            0 < n <= h,
            h == haystack@.len(),
            n == needle@.len(),
            i <= h - n + 1,
            forall|k: int| 0 <= k < i ==> #[trigger] haystack@.subrange(k, k + n) != needle@,
        decreases h - n + 1 - i,
    {
        if occurs_at(haystack, needle, i) {
            return true;
        }
        i += 1;
    }
    false
}

/// Whether `needle` occurs in `haystack` (`str::contains` with a string
/// pattern).
pub fn contains_str(haystack: &str, needle: &str) -> (b: bool)
    ensures
        b == has_substring(haystack@, needle@),
{
    let h = chars_of(haystack);
    let n = chars_of(needle);
    contains_chars(&h, &n)
}

/// Whether a string holds exactly the characters of a string slice.
pub fn equals_str(s: &String, t: &str) -> (b: bool)
    ensures
        b == (s@ == t@),
{
    let a = chars_of(s.as_str());
    let c = chars_of(t);
    if a.len() != c.len() {
        return false;
    }
    let b = occurs_at(&a, &c, 0);
    assert(a@.subrange(0, a@.len() as int) =~= a@);
    b
}

}
