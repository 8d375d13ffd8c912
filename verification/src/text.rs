//! Character-level string helpers used by filtering and parsing.

use vstd::prelude::*;

verus! {

/// The Unicode lowercase mapping that `str::to_lowercase` computes.
pub uninterp spec fn lowercase(s: Seq<char>) -> Seq<char>;

/// Calls `str::to_lowercase`. Claimed: the result is `lowercase` of the
/// argument, and the empty string lowercases to the empty string.
#[verifier::external_body]
pub(crate) fn to_lowercase(s: &str) -> (r: String)
    ensures
        r@ == lowercase(s@),
        s@.len() == 0 ==> r@.len() == 0,
{
    s.to_lowercase()
}

/// Calls `String::push`. Claimed: the character is appended at the end.
#[verifier::external_body]
pub(crate) fn push_char(s: &mut String, c: char)
    ensures
        final(s)@ == old(s)@.push(c),
{
    s.push(c)
}

/// Calls `String::pop`. Claimed: the last character is removed and returned,
/// or `None` is returned and the string is unchanged when it is empty.
#[verifier::external_body]
pub(crate) fn pop_char(s: &mut String) -> (r: Option<char>)
    ensures
        old(s)@.len() == 0 ==> r is None && final(s)@ == old(s)@,
        old(s)@.len() > 0 ==> r == Some(old(s)@.last()) && final(s)@ == old(s)@.drop_last(),
{
    s.pop()
}

/// `needle` occurs in `hay` starting at position `i`.
pub open spec fn occurs_at(hay: Seq<char>, needle: Seq<char>, i: int) -> bool {
    0 <= i && i + needle.len() <= hay.len() && hay.subrange(i, i + needle.len()) == needle
}

/// `needle` is a contiguous part of `hay`.
pub open spec fn is_substring(needle: Seq<char>, hay: Seq<char>) -> bool {
    exists|i: int| occurs_at(hay, needle, i)
}

/// The characters of a string slice, one per element.
pub fn chars_of(s: &str) -> (v: Vec<char>)
    ensures
        v@ == s@,
{
    let mut v: Vec<char> = Vec::new();
    for c in it: s.chars()
        invariant
            it.seq() == s@,
            v@ == it.seq().take(it.index() as int),
    {
        v.push(c);
    }
    v
}

/// Substring search over characters.
pub fn contains_chars(hay: &[char], needle: &[char]) -> (r: bool)
    ensures
        r == is_substring(needle@, hay@),
{
    let n = needle.len();
    let h = hay.len();
    if n > h {
        return false;
    }
    let mut i: usize = 0;
    while i <= h - n
        invariant
            n == needle@.len(),
            h == hay@.len(),
            n <= h,
            i <= h - n + 1,
            forall|k: int| 0 <= k < i ==> !occurs_at(hay@, needle@, k),
        decreases h - n + 1 - i,
    {
        let mut j: usize = 0;
        let mut same = true;
        while j < n && same
            invariant
                n == needle@.len(),
                h == hay@.len(),
                i + n <= h,
                j <= n,
                same ==> forall|t: int| 0 <= t < j ==> hay@[i + t] == needle@[t],
                !same ==> exists|t: int| 0 <= t < n && hay@[i + t] != needle@[t],
            decreases n - j + (if same { 1int } else { 0int }),
        {
            if hay[i + j] != needle[j] {
                same = false;
            } else {
                j = j + 1;
            }
        }
        if same {
            assert(hay@.subrange(i as int, i + n) =~= needle@);
            assert(occurs_at(hay@, needle@, i as int));
            return true;
        }
        proof {
            let t = choose|t: int| 0 <= t < n && hay@[i + t] != needle@[t];
            assert(hay@.subrange(i as int, i + n)[t] != needle@[t]);
        }
        i = i + 1;
    }
    false
}

/// The characters of the lowercase form of `s`.
pub fn lowered_chars(s: &str) -> (v: Vec<char>)
    ensures
        v@ == lowercase(s@),
        s@.len() == 0 ==> v@.len() == 0,
{
    let lowered = to_lowercase(s);
    chars_of(lowered.as_str())
}

/// The empty sequence occurs in every sequence.
pub proof fn lemma_empty_is_substring(hay: Seq<char>)
    ensures
        is_substring(Seq::<char>::empty(), hay),
{
    assert(hay.subrange(0, 0) =~= Seq::<char>::empty());
    assert(occurs_at(hay, Seq::<char>::empty(), 0));
}

/// The characters with the Unicode `White_Space` property, which
/// `char::is_whitespace` and `str::trim` go by.
pub open spec fn is_white_space(c: char) -> bool {
    let u = c as u32;
    (0x09 <= u <= 0x0d) || u == 0x20 || u == 0x85 || u == 0xa0 || u == 0x1680 || (0x2000 <= u
        <= 0x200a) || u == 0x2028 || u == 0x2029 || u == 0x202f || u == 0x205f || u == 0x3000
}

/// Whether `c` has the Unicode `White_Space` property.
pub fn white_space(c: char) -> (r: bool)
    ensures
        r == is_white_space(c),
{
    let u = c as u32;
    (0x09 <= u && u <= 0x0d) || u == 0x20 || u == 0x85 || u == 0xa0 || u == 0x1680 || (0x2000
        <= u && u <= 0x200a) || u == 0x2028 || u == 0x2029 || u == 0x202f || u == 0x205f || u
        == 0x3000
}

/// A class of characters that trimming removes.
#[derive(Clone, Copy)]
pub enum CharClass {
    WhiteSpace,
    Exactly(char),
}

/// `c` belongs to class `k`.
pub open spec fn in_class(c: char, k: CharClass) -> bool {
    match k {
        CharClass::WhiteSpace => is_white_space(c),
        CharClass::Exactly(x) => c == x,
    }
}

fn class_contains(c: char, k: CharClass) -> (r: bool)
    ensures
        r == in_class(c, k),
{
    match k {
        CharClass::WhiteSpace => white_space(c),
        CharClass::Exactly(x) => c == x,
    }
}

/// `s` without its leading characters of class `k`.
pub open spec fn strip_start(s: Seq<char>, k: CharClass) -> Seq<char>
    decreases s.len(),
{
    if s.len() > 0 && in_class(s[0], k) {
        strip_start(s.drop_first(), k)
    } else {
        s
    }
}

/// `s` without its trailing characters of class `k`.
pub open spec fn strip_end(s: Seq<char>, k: CharClass) -> Seq<char>
    decreases s.len(),
{
    if s.len() > 0 && in_class(s.last(), k) {
        strip_end(s.drop_last(), k)
    } else {
        s
    }
}

/// `s` without leading and trailing white space (`str::trim`).
pub open spec fn trim(s: Seq<char>) -> Seq<char> {
    strip_end(strip_start(s, CharClass::WhiteSpace), CharClass::WhiteSpace)
}

/// The ASCII lowercase form of a character; other characters are unchanged.
pub open spec fn ascii_lower_char(c: char) -> char {
    if 'A' <= c <= 'Z' {
        ((c as u32) + 32) as char
    } else {
        c
    }
}

/// The ASCII lowercase form of a string (`str::to_ascii_lowercase`).
pub open spec fn ascii_lower(s: Seq<char>) -> Seq<char> {
    s.map_values(|c: char| ascii_lower_char(c))
}

/// The ASCII lowercase form of a character.
pub fn to_ascii_lower_char(c: char) -> (r: char)
    ensures
        r == ascii_lower_char(c),
{
    if 'A' <= c && c <= 'Z' {
        let b = (c as u8) + 32;
        b as char
    } else {
        c
    }
}

/// The first position in `lo..hi` where the characters of class `k` that
/// start the range end.
pub fn skip_start(v: &Vec<char>, lo: usize, hi: usize, k: CharClass) -> (r: usize)
    requires
        lo <= hi <= v@.len(),
    ensures
        lo <= r <= hi,
        v@.subrange(r as int, hi as int) == strip_start(v@.subrange(lo as int, hi as int), k),
{
    let mut i = lo;
    while i < hi && class_contains(v[i], k)
        invariant
            lo <= i <= hi <= v@.len(),
            strip_start(v@.subrange(i as int, hi as int), k) == strip_start(
                v@.subrange(lo as int, hi as int),
                k,
            ),
        decreases hi - i,
    {
        assert(v@.subrange(i as int, hi as int).drop_first() =~= v@.subrange(i + 1, hi as int));
        i = i + 1;
    }
    i
}

/// The position in `lo..hi` where the characters of class `k` that end the
/// range begin.
pub fn skip_end(v: &Vec<char>, lo: usize, hi: usize, k: CharClass) -> (r: usize)
    requires
        lo <= hi <= v@.len(),
    ensures
        lo <= r <= hi,
        v@.subrange(lo as int, r as int) == strip_end(v@.subrange(lo as int, hi as int), k),
{
    let mut j = hi;
    while j > lo && class_contains(v[j - 1], k)
        invariant
            lo <= j <= hi <= v@.len(),
            strip_end(v@.subrange(lo as int, j as int), k) == strip_end(
                v@.subrange(lo as int, hi as int),
                k,
            ),
        decreases j - lo,
    {
        assert(v@.subrange(lo as int, j as int).drop_last() =~= v@.subrange(lo as int, j - 1));
        j = j - 1;
    }
    j
}

/// Whether the ASCII lowercase form of `v[lo..hi]` is `word`.
pub fn ascii_lower_equals(v: &Vec<char>, lo: usize, hi: usize, word: &[char]) -> (r: bool)
    requires
        lo <= hi <= v@.len(),
    ensures
        r == (ascii_lower(v@.subrange(lo as int, hi as int)) == word@),
{
    let ghost part = v@.subrange(lo as int, hi as int);
    if hi - lo != word.len() {
        assert(ascii_lower(part).len() != word@.len());
        return false;
    }
    let mut i: usize = 0;
    while i < word.len()
        invariant
            hi - lo == word@.len(),
            lo <= hi <= v@.len(),
            part == v@.subrange(lo as int, hi as int),
            i <= word@.len(),
            forall|t: int| 0 <= t < i ==> ascii_lower_char(part[t]) == word@[t],
        decreases word@.len() - i,
    {
        if to_ascii_lower_char(v[lo + i]) != word[i] {
            assert(ascii_lower(part)[i as int] != word@[i as int]);
            return false;
        }
        i = i + 1;
    }
    assert(ascii_lower(part) =~= word@);
    true
}

/// Whether two character sequences are equal.
pub fn chars_equal(a: &[char], b: &[char]) -> (r: bool)
    ensures
        r == (a@ == b@),
{
    if a.len() != b.len() {
        return false;
    }
    let mut i: usize = 0;
    while i < a.len()
        invariant
            a@.len() == b@.len(),
            i <= a@.len(),
            forall|t: int| 0 <= t < i ==> a@[t] == b@[t],
        decreases a@.len() - i,
    {
        if a[i] != b[i] {
            return false;
        }
        i = i + 1;
    }
    assert(a@ =~= b@);
    true
}

} // verus!
