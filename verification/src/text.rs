//! Text primitives for the ranking engine: character-level edit distance,
//! substring search, lowercasing and whitespace splitting.

use vstd::prelude::*;

verus! {

/// Minimum number of single-character insertions, deletions and
/// substitutions (each at unit cost) turning `a` into `b`.
pub open spec fn edit_dist(a: Seq<char>, b: Seq<char>) -> nat
    decreases a.len(), b.len(),
{
    if a.len() == 0 {
        b.len()
    } else if b.len() == 0 {
        a.len()
    } else {
        let del = edit_dist(a.skip(1), b) + 1;
        let ins = edit_dist(a, b.skip(1)) + 1;
        let sub = edit_dist(a.skip(1), b.skip(1)) + (if a[0] == b[0] {
            0nat
        } else {
            1nat
        });
        if del <= ins && del <= sub {
            del
        } else if ins <= sub {
            ins
        } else {
            sub
        }
    }
}

/// Relies on strsim::levenshtein: the character-level edit distance between
/// the two strings, counting insertions, deletions and substitutions at unit
/// cost each.
#[verifier::external_body]
pub(crate) fn edit_distance(a: &str, b: &str) -> (d: usize)
    ensures
        d == edit_dist(a@, b@),
{
    strsim::levenshtein(a, b)
}

/// `needle` occurs in `hay` starting at character position `i`.
pub open spec fn match_at(hay: Seq<char>, needle: Seq<char>, i: int) -> bool {
    0 <= i && i + needle.len() <= hay.len() && hay.subrange(i, i + needle.len() as int)
        == needle
}

/// `needle` occurs somewhere in `hay` as a contiguous run of characters.
pub open spec fn contains_sub(hay: Seq<char>, needle: Seq<char>) -> bool {
    exists|i: int| match_at(hay, needle, i)
}

fn match_at_exec(hay: &str, needle: &str, i: usize, nlen: usize) -> (r: bool)
    requires
        nlen == needle@.len(),
        i + nlen <= hay@.len(),
        hay@.len() <= usize::MAX,
    ensures
        r == match_at(hay@, needle@, i as int),
{
    let mut j: usize = 0;
    while j < nlen
        invariant
            j <= nlen,
            nlen == needle@.len(),
            i + nlen <= hay@.len(),
            hay@.len() <= usize::MAX,
            forall|m: int| 0 <= m < j ==> hay@[i + m] == needle@[m],
        decreases nlen - j,
    {
        if hay.get_char(i + j) != needle.get_char(j) {
            proof {
                let s = hay@.subrange(i as int, i + nlen as int);
                assert(s[j as int] == hay@[i + j]);
            }
            return false;
        }
        j += 1;
    }
    proof {
        assert(hay@.subrange(i as int, i + nlen as int) =~= needle@);
    }
    true
}

/// Substring search over characters, used for the description-word bonus.
pub fn str_contains(hay: &str, needle: &str) -> (r: bool)
    ensures
        r == contains_sub(hay@, needle@),
{
    let hlen: usize = hay.unicode_len();
    let nlen: usize = needle.unicode_len();
    if nlen > hlen {
        return false;
    }
    let mut i: usize = 0;
    let last: usize = hlen - nlen;
    loop
        invariant
            hlen == hay@.len(),
            nlen == needle@.len(),
            nlen <= hlen,
            last == hlen - nlen,
            i <= last,
            forall|k: int| 0 <= k < i ==> !match_at(hay@, needle@, k),
        decreases last - i,
    {
        if match_at_exec(hay, needle, i, nlen) {
            return true;
        }
        if i == last {
            assert(forall|k: int| !match_at(hay@, needle@, k));
            return false;
        }
        i += 1;
    }
}

/// The result of trimming a string, named but not written out: it is
/// fixed by the input characters alone.
pub uninterp spec fn trim_of(s: Seq<char>) -> Seq<char>;

/// Relies on str::trim: the input without its leading and trailing
/// Unicode whitespace; the result depends on the input characters alone.
#[verifier::external_body]
pub(crate) fn trim_str<'a>(s: &'a str) -> (r: &'a str)
    ensures
        r@ == trim_of(s@),
{
    s.trim()
}

/// The result of lowercasing a string, named but not written out: it is
/// fixed by the input characters alone.
pub uninterp spec fn lower_of(s: Seq<char>) -> Seq<char>;

/// Relies on str::to_lowercase: the Unicode lowercase mapping of the input;
/// the result depends on the input characters alone.
#[verifier::external_body]
pub(crate) fn lowercase(s: &str) -> (r: String)
    ensures
        r@ == lower_of(s@),
{
    s.to_lowercase()
}

/// The whitespace-delimited words of a string, in order, named but not
/// written out: they are fixed by the input characters alone.
pub uninterp spec fn words_of(s: Seq<char>) -> Seq<Seq<char>>;

/// Relies on str::split_whitespace: the non-empty runs of characters
/// between Unicode whitespace, in order; the result depends on the input
/// characters alone.
#[verifier::external_body]
pub(crate) fn split_words(s: &str) -> (r: Vec<String>)
    ensures
        r@.map_values(|w: String| w@) == words_of(s@),
{
    let mut words = Vec::new();
    for w in s.split_whitespace() {
        words.push(w.to_string());
    }
    words
}

} // verus!
