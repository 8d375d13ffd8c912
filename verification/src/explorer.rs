//! The folder list: Explorer window locations that are `file:///` URLs become
//! file-system paths, sorted and without duplicates.

use vstd::prelude::*;
use crate::text::{chars_equal, chars_of};
use crate::window::views;

verus! {

/// Whether `url::Url::parse` accepts a string.
pub uninterp spec fn url_parse_succeeds(input: Seq<char>) -> bool;

/// Calls `url::Url::parse` on `location`, then `url::Url::to_file_path` on the
/// parsed URL, and keeps the path when it is valid UTF-8. Claimed: a path comes
/// out only when the location parses (whether it parses depends on the string
/// alone, named `url_parse_succeeds`); and a plain drive location
/// `file:///X:/...` (ASCII letters, digits, `-`, `_` and `/` after the drive)
/// always gives a path: on Windows the part after `file:///` with `\\` for `/`,
/// on Unix-like systems `/` followed by that part, on Redox the same with
/// `file:` in front. Which path other locations give depends on the platform,
/// so nothing more is stated of them. The requirement leaves out the locations
/// whose parsed path could be a single drive-letter segment such as
/// `file:///C:`, on which the Windows conversion builds the relative path `C:`
/// and its debug assertion that the path is absolute fails.
#[verifier::external_body]
fn location_file_path(location: &str) -> (r: Option<String>)
    requires
        safe_file_location(location@),
    ensures
        r is Some ==> url_parse_succeeds(location@),
        plain_drive_location(location@) ==> r is Some,
        r matches Some(p) ==> (plain_drive_location(location@) ==> is_drive_path_of(location@, p@)),
{
    let url = url::Url::parse(location).ok()?;
    let path = url.to_file_path().ok()?;
    match path.to_str() {
        Some(s) => Some(s.to_string()),
        None => None,
    }
}

/// An ASCII letter.
pub open spec fn is_ascii_letter(c: char) -> bool {
    ('a' <= c && c <= 'z') || ('A' <= c && c <= 'Z')
}

/// A character that URL parsing keeps as it is in a path and that takes no part
/// in dot segments or drive letters: ASCII letters and digits, `-`, `_`, `/`.
pub open spec fn is_plain_path_char(c: char) -> bool {
    is_ascii_letter(c) || ('0' <= c && c <= '9') || c == '-' || c == '_' || c == '/'
}

/// A plain drive location: `file:///`, a drive letter, `:/`, then only plain
/// path characters.
pub open spec fn plain_drive_location(s: Seq<char>) -> bool {
    &&& s.len() >= 11
    &&& s.take(8) == file_url_prefix()
    &&& is_ascii_letter(s[8])
    &&& s[9] == ':'
    &&& s[10] == '/'
    &&& forall|i: int| 11 <= i < s.len() ==> is_plain_path_char(#[trigger] s[i])
}

/// The Windows path of a plain drive location: what follows `file:///`, with
/// `\\` in place of `/`.
pub open spec fn windows_drive_path(s: Seq<char>) -> Seq<char> {
    s.skip(8).map_values(|c: char| if c == '/' { '\\' } else { c })
}

/// The Unix path of a plain drive location: `/` followed by what follows `file:///`.
pub open spec fn unix_drive_path(s: Seq<char>) -> Seq<char> {
    seq!['/'] + s.skip(8)
}

/// `p` is the path of plain drive location `s` on one of the platforms.
pub open spec fn is_drive_path_of(s: Seq<char>, p: Seq<char>) -> bool {
    ||| p == windows_drive_path(s)
    ||| p == unix_drive_path(s)
    ||| p == seq!['f', 'i', 'l', 'e', ':'] + unix_drive_path(s)
}

/// A plain drive location passes the drive-letter check.
pub proof fn lemma_plain_drive_location_is_safe(s: Seq<char>)
    requires
        plain_drive_location(s),
    ensures
        safe_file_location(s),
        is_file_url_spec(s),
{
    assert(s[8] == s.take(11)[8]);
    assert forall|i: int| 0 <= i < s.len() implies !is_line_break(#[trigger] s[i]) by {
        if i < 8 {
            assert(s[i] == s.take(8)[i]);
        }
    }
    assert(is_path_sep(s[10]));
    assert forall|i: int| 8 <= i < s.len() implies !#[trigger] dot_segment_at(s, i) by {
        assert(dot_unit_len(s, i) == 0);
    }
}

/// The prefix of local file URLs, `file:///`.
pub open spec fn file_url_prefix() -> Seq<char> {
    seq!['f', 'i', 'l', 'e', ':', '/', '/', '/']
}

/// A location is a local file URL when it starts with `file:///`.
pub open spec fn is_file_url_spec(url: Seq<char>) -> bool {
    url.len() >= 8 && url.take(8) == file_url_prefix()
}

/// Whether an Explorer location is a local file URL.
pub fn is_file_url(url: &str) -> (r: bool)
    ensures
        r == is_file_url_spec(url@),
{
    let v = chars_of(url);
    if v.len() < 8 {
        return false;
    }
    let prefix: [char; 8] = ['f', 'i', 'l', 'e', ':', '/', '/', '/'];
    assert(prefix@ =~= file_url_prefix());
    let mut i: usize = 0;
    while i < 8
        invariant
            v@ == url@,
            v@.len() >= 8,
            prefix@ == file_url_prefix(),
            i <= 8,
            forall|j: int| 0 <= j < i ==> v@[j] == prefix@[j],
        decreases 8 - i,
    {
        if v[i] != prefix[i] {
            assert(v@.take(8)[i as int] != file_url_prefix()[i as int]);
            return false;
        }
        i = i + 1;
    }
    assert(v@.take(8) =~= file_url_prefix());
    true
}

/// A tab, line feed or carriage return, which URL parsing removes wherever it stands.
pub open spec fn is_line_break(c: char) -> bool {
    c == '\t' || c == '\n' || c == '\r'
}

/// A path segment separator of a file URL (`\` counts as `/`).
pub open spec fn is_path_sep(c: char) -> bool {
    c == '/' || c == '\\'
}

/// Where the path of a URL ends: the query or the fragment begins.
pub open spec fn is_path_end(c: char) -> bool {
    c == '?' || c == '#'
}

/// What bounds a path segment.
pub open spec fn is_path_delim(c: char) -> bool {
    is_path_sep(c) || is_path_end(c)
}

/// The length of the dot at `k`: 1 for `.`, 3 for a percent-encoded dot
/// (`%2e` or `%2E`), 0 when there is none.
pub open spec fn dot_unit_len(s: Seq<char>, k: int) -> int {
    if 0 <= k < s.len() && s[k] == '.' {
        1
    } else if 0 <= k && k + 2 < s.len() && s[k] == '%' && s[k + 1] == '2' && (s[k + 2] == 'e'
        || s[k + 2] == 'E') {
        3
    } else {
        0
    }
}

/// A path segment ends at `k`: at the end of the string or at a delimiter.
pub open spec fn ends_segment(s: Seq<char>, k: int) -> bool {
    k == s.len() || (0 <= k < s.len() && is_path_delim(s[k]))
}

/// A dot segment (`.` or `..`, either dot possibly percent-encoded) starts at
/// `i`, right after `file:///` or after a delimiter.
pub open spec fn dot_segment_at(s: Seq<char>, i: int) -> bool {
    let a = dot_unit_len(s, i);
    &&& (i == 8 || is_path_delim(s[i - 1]))
    &&& a > 0
    &&& (ends_segment(s, i + a) || (dot_unit_len(s, i + a) > 0 && ends_segment(
        s,
        i + a + dot_unit_len(s, i + a),
    )))
}

/// The character at `i` can take no part in a drive letter, even once line
/// breaks are dropped: no `:`, no `|`, and no `%` followed by `3` (the start of
/// an encoded `:`) or by a line break.
pub open spec fn no_drive_mark_at(s: Seq<char>, i: int) -> bool {
    &&& s[i] != ':'
    &&& s[i] != '|'
    &&& !(s[i] == '%' && i + 1 < s.len() && (s[i + 1] == '3' || is_line_break(s[i + 1])))
}

/// The path after `file:///` holds a separator before any query or fragment.
pub open spec fn separator_in_path(s: Seq<char>) -> bool {
    exists|j: int|
        8 <= j < s.len() && is_path_sep(#[trigger] s[j]) && forall|k: int|
            8 <= k < j ==> !is_path_end(#[trigger] s[k])
}

/// A `file:///` location whose parsed path cannot be a single drive-letter
/// segment: either its path holds a separator and no dot segment and it has no
/// line break (which parsing would drop), so the parsed path keeps at least two
/// segments; or it has no drive-letter mark at all.
pub open spec fn safe_file_location(s: Seq<char>) -> bool {
    &&& s.len() >= 8
    &&& {
        ||| (forall|i: int| 0 <= i < s.len() ==> !is_line_break(#[trigger] s[i]))
            && separator_in_path(s) && (forall|i: int|
            8 <= i < s.len() ==> !#[trigger] dot_segment_at(s, i))
        ||| forall|i: int| 8 <= i < s.len() ==> #[trigger] no_drive_mark_at(s, i)
    }
}

fn path_delim(c: char) -> (r: bool)
    ensures
        r == is_path_delim(c),
{
    c == '/' || c == '\\' || c == '?' || c == '#'
}

fn dot_unit(v: &Vec<char>, k: usize) -> (r: usize)
    requires
        k <= v@.len(),
    ensures
        r == dot_unit_len(v@, k as int),
        k + r <= v@.len(),
{
    let n = v.len();
    if k < n && v[k] == '.' {
        1
    } else if k < n && n - k > 2 && v[k] == '%' && v[k + 1] == '2' && (v[k + 2] == 'e' || v[k
        + 2] == 'E') {
        3
    } else {
        0
    }
}

fn segment_ends(v: &Vec<char>, k: usize) -> (r: bool)
    requires
        k <= v@.len(),
    ensures
        r == ends_segment(v@, k as int),
{
    k == v.len() || path_delim(v[k])
}

fn dot_segment_here(v: &Vec<char>, i: usize) -> (r: bool)
    requires
        8 <= i < v@.len(),
    ensures
        r == dot_segment_at(v@, i as int),
{
    if !(i == 8 || path_delim(v[i - 1])) {
        return false;
    }
    let n = v.len();
    let a = dot_unit(v, i);
    assert(i + a <= n);
    if a == 0 {
        return false;
    }
    if segment_ends(v, i + a) {
        return true;
    }
    let b = dot_unit(v, i + a);
    b > 0 && segment_ends(v, i + a + b)
}

fn no_drive_mark_here(v: &Vec<char>, i: usize) -> (r: bool)
    requires
        8 <= i < v@.len(),
    ensures
        r == no_drive_mark_at(v@, i as int),
{
    let n = v.len();
    let c = v[i];
    !(c == ':' || c == '|' || (c == '%' && n - i > 1 && (v[i + 1] == '3' || v[i + 1] == '\t'
        || v[i + 1] == '\n' || v[i + 1] == '\r')))
}

/// Whether a location is a `file:///`-length string whose parsed path cannot be
/// a single drive-letter segment.
pub fn is_safe_file_location(url: &str) -> (r: bool)
    ensures
        r == safe_file_location(url@),
{
    let v = chars_of(url);
    let n = v.len();
    if n < 8 {
        return false;
    }
    let mut no_breaks = true;
    let mut i: usize = 0;
    while i < n
        invariant
            v@ == url@,
            n == v@.len(),
            i <= n,
            no_breaks == forall|k: int| 0 <= k < i ==> !is_line_break(#[trigger] v@[k]),
        decreases n - i,
    {
        let c = v[i];
        if c == '\t' || c == '\n' || c == '\r' {
            assert(is_line_break(v@[i as int]));
            no_breaks = false;
        }
        i = i + 1;
    }
    let mut no_drive = true;
    let mut no_dots = true;
    let mut sep_found = false;
    let mut path_open = true;
    let mut i: usize = 8;
    while i < n
        invariant
            v@ == url@,
            n == v@.len(),
            8 <= i <= n,
            no_drive == forall|k: int| 8 <= k < i ==> #[trigger] no_drive_mark_at(v@, k),
            no_dots == forall|k: int| 8 <= k < i ==> !#[trigger] dot_segment_at(v@, k),
            path_open == forall|k: int| 8 <= k < i ==> !is_path_end(#[trigger] v@[k]),
            sep_found ==> separator_in_path(v@),
            !sep_found ==> forall|k: int| 8 <= k < i && path_open ==> !is_path_sep(#[trigger] v@[k]),
            !sep_found && !path_open ==> !separator_in_path(v@),
        decreases n - i,
    {
        if !no_drive_mark_here(&v, i) {
            no_drive = false;
        }
        if dot_segment_here(&v, i) {
            no_dots = false;
        }
        let c = v[i];
        if !sep_found && path_open && (c == '/' || c == '\\') {
            sep_found = true;
            assert(is_path_sep(v@[i as int]));
        }
        if c == '?' || c == '#' {
            if path_open && !sep_found {
                assert forall|j: int|
                    8 <= j < v@.len() && is_path_sep(#[trigger] v@[j]) implies !(forall|k: int|
                    8 <= k < j ==> !is_path_end(#[trigger] v@[k])) by {
                    if j > i {
                        assert(is_path_end(v@[i as int]));
                    }
                }
            }
            path_open = false;
        }
        i = i + 1;
    }
    proof {
        if !sep_found && path_open {
            assert forall|j: int|
                8 <= j < v@.len() && is_path_sep(#[trigger] v@[j]) implies !(forall|k: int|
                8 <= k < j ==> !is_path_end(#[trigger] v@[k])) by {}
        }
    }
    (no_breaks && sep_found && no_dots) || no_drive
}

/// The file-system path of an Explorer location: only for `file:///` URLs that
/// parse, whose path can never be a bare drive letter, and that convert to a
/// UTF-8 path.
pub fn file_url_to_path(url: &str) -> (r: Option<String>)
    ensures
        !is_file_url_spec(url@) ==> r is None,
        !safe_file_location(url@) ==> r is None,
        !url_parse_succeeds(url@) ==> r is None,
        plain_drive_location(url@) ==> (r matches Some(p) && is_drive_path_of(url@, p@)),
{
    proof {
        if plain_drive_location(url@) {
            lemma_plain_drive_location_is_safe(url@);
        }
    }
    if !is_file_url(url) || !is_safe_file_location(url) {
        return None;
    }
    location_file_path(url)
}

/// Lexicographic order of character sequences (by code point), which is the
/// order of `String`s (byte order of their UTF-8 encoding).
pub open spec fn lex_lt(a: Seq<char>, b: Seq<char>) -> bool
    decreases a.len(),
{
    if a.len() == 0 {
        b.len() > 0
    } else if b.len() == 0 {
        false
    } else if a[0] < b[0] {
        true
    } else if a[0] == b[0] {
        lex_lt(a.drop_first(), b.drop_first())
    } else {
        false
    }
}

/// Every element is smaller than every later one: sorted, without duplicates.
pub open spec fn strictly_sorted(s: Seq<Seq<char>>) -> bool {
    forall|i: int, j: int| 0 <= i < j < s.len() ==> lex_lt(s[i], s[j])
}

pub proof fn lemma_lex_irreflexive(a: Seq<char>)
    ensures
        !lex_lt(a, a),
    decreases a.len(),
{
    if a.len() > 0 {
        lemma_lex_irreflexive(a.drop_first());
    }
}

pub proof fn lemma_lex_transitive(a: Seq<char>, b: Seq<char>, c: Seq<char>)
    requires
        lex_lt(a, b),
        lex_lt(b, c),
    ensures
        lex_lt(a, c),
    decreases a.len(),
{
    if a.len() > 0 && b.len() > 0 && c.len() > 0 && a[0] == b[0] && b[0] == c[0] {
        lemma_lex_transitive(a.drop_first(), b.drop_first(), c.drop_first());
    }
}

pub proof fn lemma_lex_total(a: Seq<char>, b: Seq<char>)
    requires
        a != b,
    ensures
        lex_lt(a, b) || lex_lt(b, a),
    decreases a.len(),
{
    if a.len() > 0 && b.len() > 0 && a[0] == b[0] {
        if a.drop_first() == b.drop_first() {
            assert(a =~= seq![a[0]] + a.drop_first());
            assert(b =~= seq![b[0]] + b.drop_first());
        }
        lemma_lex_total(a.drop_first(), b.drop_first());
    } else if a.len() == 0 && b.len() == 0 {
        assert(a =~= b);
    }
}

proof fn lemma_to_set_insert(s: Seq<Seq<char>>, k: int, x: Seq<char>)
    requires
        0 <= k <= s.len(),
    ensures
        s.insert(k, x).to_set() == s.to_set().insert(x),
{
    let t = s.insert(k, x);
    assert forall|a: Seq<char>| t.contains(a) <==> (s.contains(a) || a == x) by {
        if t.contains(a) {
            let i = choose|i: int| 0 <= i < t.len() && t[i] == a;
            if i < k {
                assert(s[i] == a);
            } else if i > k {
                assert(s[i - 1] == a);
            }
        }
        if s.contains(a) {
            let i = choose|i: int| 0 <= i < s.len() && s[i] == a;
            if i < k {
                assert(t[i] == a);
            } else {
                assert(t[i + 1] == a);
            }
        }
        if a == x {
            assert(t[k] == x);
        }
    }
    assert(t.to_set() =~= s.to_set().insert(x));
}

/// Whether `a` comes before `b` in lexicographic order.
fn lex_less(a: &[char], b: &[char]) -> (r: bool)
    ensures
        r == lex_lt(a@, b@),
{
    let mut i: usize = 0;
    assert(a@.skip(0) =~= a@);
    assert(b@.skip(0) =~= b@);
    while i < a.len() && i < b.len() && a[i] == b[i]
        invariant
            i <= a@.len(),
            i <= b@.len(),
            lex_lt(a@, b@) == lex_lt(a@.skip(i as int), b@.skip(i as int)),
        decreases a@.len() - i,
    {
        assert(a@.skip(i as int).drop_first() =~= a@.skip(i + 1));
        assert(b@.skip(i as int).drop_first() =~= b@.skip(i + 1));
        i = i + 1;
    }
    if i == a.len() {
        i < b.len()
    } else if i == b.len() {
        false
    } else {
        a[i] < b[i]
    }
}

/// Paths sorted in `String` order with duplicates removed.
pub fn normalize_paths(paths: Vec<String>) -> (r: Vec<String>)
    ensures
        strictly_sorted(views(r@)),
        views(r@).to_set() == views(paths@).to_set(),
{
    let mut out: Vec<String> = Vec::new();
    let mut keys: Vec<Vec<char>> = Vec::new();
    let n = paths.len();
    for i in 0..n
        invariant
            n == paths@.len(),
            keys@.len() == out@.len(),
            forall|k: int| 0 <= k < out@.len() ==> #[trigger] keys@[k]@ == out@[k]@,
            strictly_sorted(views(out@)),
            views(out@).to_set() == views(paths@).take(i as int).to_set(),
    {
        let key = chars_of(paths[i].as_str());
        let ghost before = views(out@);
        let mut k: usize = 0;
        while k < out.len() && lex_less(keys[k].as_slice(), key.as_slice())
            invariant
                keys@.len() == out@.len(),
                k <= out@.len(),
                forall|t: int| 0 <= t < k ==> lex_lt(#[trigger] views(out@)[t], key@),
                forall|t: int| 0 <= t < out@.len() ==> #[trigger] keys@[t]@ == out@[t]@,
            decreases out@.len() - k,
        {
            k = k + 1;
        }
        let duplicate = k < out.len() && chars_equal(keys[k].as_slice(), key.as_slice());
        proof {
            let all = views(paths@);
            assert(all.take(i + 1) =~= all.take(i as int).push(key@));
            assert(all.take(i as int).push(key@) =~= all.take(i as int).insert(i as int, key@));
            lemma_to_set_insert(all.take(i as int), i as int, key@);
        }
        if !duplicate {
            out.insert(k, paths[i].clone());
            keys.insert(k, key);
            proof {
                let after = views(out@);
                assert(after =~= before.insert(k as int, key@));
                assert forall|a: int, b: int| 0 <= a < b < after.len() implies lex_lt(
                    after[a],
                    after[b],
                ) by {
                    if b == k {
                    } else if a == k {
                        let nxt = before[k as int];
                        lemma_lex_total(key@, nxt);
                        if !lex_lt(key@, nxt) {
                        }
                        if b > k + 1 {
                            lemma_lex_transitive(key@, nxt, before[b - 1]);
                        }
                    } else if a < k && b > k {
                        assert(lex_lt(before[a], key@));
                        let nxt = before[k as int];
                        lemma_lex_total(key@, nxt);
                        lemma_lex_transitive(before[a], key@, nxt);
                        if b > k + 1 {
                            lemma_lex_transitive(before[a], nxt, before[b - 1]);
                        }
                    } else if a > k {
                        assert(lex_lt(before[a - 1], before[b - 1]));
                    }
                }
                lemma_to_set_insert(before, k as int, key@);
                assert forall|t: int| 0 <= t < out@.len() implies #[trigger] keys@[t]@ == out@[t]@ by {
                    if t < k {
                    } else if t > k {
                    }
                }
            }
        } else {
            proof {
                assert(before[k as int] == key@);
                assert(before.to_set().contains(key@));
                assert(before.to_set().insert(key@) =~= before.to_set());
            }
        }
    }
    proof {
        assert(views(paths@).take(n as int) =~= views(paths@));
    }
    out
}

/// The paths in a sequence of conversion outcomes, in order.
pub open spec fn converted_paths(outcomes: Seq<Option<Seq<char>>>) -> Seq<Seq<char>>
    decreases outcomes.len(),
{
    if outcomes.len() == 0 {
        Seq::empty()
    } else {
        let rest = converted_paths(outcomes.drop_last());
        match outcomes.last() {
            Some(p) => rest.push(p),
            None => rest,
        }
    }
}

/// The character view of a conversion outcome.
pub open spec fn outcome_view(o: Option<String>) -> Option<Seq<char>> {
    match o {
        Some(p) => Some(p@),
        None => None,
    }
}

/// `outcomes` holds one conversion outcome per location, and a location can only
/// have given a path when it is a `file:///` URL that parses and whose parsed
/// path cannot be a single drive-letter segment; a plain drive location gave its
/// drive path.
pub open spec fn outcomes_fit(locations: Seq<String>, outcomes: Seq<Option<Seq<char>>>) -> bool {
    &&& outcomes.len() == locations.len()
    &&& forall|i: int|
        0 <= i < outcomes.len() && (#[trigger] outcomes[i]) is Some ==> is_file_url_spec(
            locations[i]@,
        ) && safe_file_location(locations[i]@) && url_parse_succeeds(locations[i]@)
    &&& forall|i: int|
        0 <= i < outcomes.len() && plain_drive_location(#[trigger] locations[i]@) ==> (
        outcomes[i] matches Some(p) && is_drive_path_of(locations[i]@, p))
}

/// The folder list from the conversion outcomes of the Explorer locations: the
/// paths among them, sorted and without duplicates.
pub fn collect_converted_paths(outcomes: Vec<Option<String>>) -> (r: Vec<String>)
    ensures
        strictly_sorted(views(r@)),
        views(r@).to_set() == converted_paths(
            outcomes@.map_values(|o: Option<String>| outcome_view(o)),
        ).to_set(),
{
    let ghost all = outcomes@.map_values(|o: Option<String>| outcome_view(o));
    let mut paths: Vec<String> = Vec::new();
    let n = outcomes.len();
    for i in 0..n
        invariant
            n == outcomes@.len(),
            all == outcomes@.map_values(|o: Option<String>| outcome_view(o)),
            views(paths@) == converted_paths(all.take(i as int)),
    {
        proof {
            assert(all.take(i + 1).drop_last() =~= all.take(i as int));
        }
        match &outcomes[i] {
            Some(path) => {
                let ghost old_paths = paths@;
                paths.push(path.clone());
                proof {
                    assert(views(paths@) =~= views(old_paths).push(path@));
                }
            },
            None => {},
        }
    }
    proof {
        assert(all.take(n as int) =~= all);
    }
    normalize_paths(paths)
}

/// The folder list from Explorer window locations: the paths that the local
/// file URLs convert to, sorted and without duplicates. Which path a URL gives,
/// and whether it gives one, is up to the platform's file URL conversion; the
/// result holds exactly the paths of those conversions.
pub fn collect_explorer_paths(locations: &Vec<String>) -> (r: Vec<String>)
    ensures
        strictly_sorted(views(r@)),
        exists|outcomes: Seq<Option<Seq<char>>>|
            outcomes_fit(locations@, outcomes) && views(r@).to_set() == converted_paths(
                outcomes,
            ).to_set(),
        (forall|i: int|
            0 <= i < locations@.len() ==> !is_file_url_spec(#[trigger] locations@[i]@)
                || !safe_file_location(locations@[i]@) || !url_parse_succeeds(locations@[i]@)) ==> r@.len() == 0,
        forall|i: int|
            0 <= i < locations@.len() && plain_drive_location(#[trigger] locations@[i]@) ==> exists|
                p: Seq<char>,
            | is_drive_path_of(locations@[i]@, p) && views(r@).contains(p),
{
    let mut outcomes: Vec<Option<String>> = Vec::new();
    let n = locations.len();
    for i in 0..n
        invariant
            n == locations@.len(),
            outcomes_fit(
                locations@.take(i as int),
                outcomes@.map_values(|o: Option<String>| outcome_view(o)),
            ),
    {
        let converted = file_url_to_path(locations[i].as_str());
        let ghost before = outcomes@.map_values(|o: Option<String>| outcome_view(o));
        outcomes.push(converted);
        proof {
            let after = outcomes@.map_values(|o: Option<String>| outcome_view(o));
            assert forall|k: int|
                0 <= k < after.len() && (#[trigger] after[k]) is Some implies is_file_url_spec(
                locations@.take(i + 1)[k]@,
            ) && safe_file_location(locations@.take(i + 1)[k]@) && url_parse_succeeds(
                locations@.take(i + 1)[k]@,
            ) by {
                if k < i {
                    assert(before[k] == after[k]);
                    assert(locations@.take(i as int)[k] == locations@.take(i + 1)[k]);
                }
            }
        }
    }
    let ghost fitted = outcomes@.map_values(|o: Option<String>| outcome_view(o));
    proof {
        assert(locations@.take(n as int) =~= locations@);
    }
    let r = collect_converted_paths(outcomes);
    proof {
        assert(outcomes_fit(locations@, fitted));
        if (forall|i: int|
            0 <= i < locations@.len() ==> !is_file_url_spec(#[trigger] locations@[i]@)
                || !safe_file_location(locations@[i]@) || !url_parse_succeeds(locations@[i]@)) {
            lemma_no_paths_converted(fitted);
            if r@.len() > 0 {
                assert(views(r@).to_set().contains(views(r@)[0]));
            }
        }
        assert forall|i: int|
            0 <= i < locations@.len() && plain_drive_location(#[trigger] locations@[i]@) implies exists|
                p: Seq<char>,
            | is_drive_path_of(locations@[i]@, p) && views(r@).contains(p) by {
            lemma_fit_outcome_listed(locations@, fitted, i);
            let p = choose|p: Seq<char>|
                is_drive_path_of(locations@[i]@, p) && converted_paths(fitted).to_set().contains(p);
            assert(views(r@).to_set().contains(p));
        }
    }
    r
}

/// A plain drive location's path is among the converted paths of any outcomes
/// that fit the locations.
pub proof fn lemma_fit_outcome_listed(
    locations: Seq<String>,
    outcomes: Seq<Option<Seq<char>>>,
    i: int,
)
    requires
        outcomes_fit(locations, outcomes),
        0 <= i < locations.len(),
        plain_drive_location(locations[i]@),
    ensures
        exists|p: Seq<char>|
            is_drive_path_of(locations[i]@, p) && converted_paths(outcomes).to_set().contains(p),
{
    let p = outcomes[i]->0;
    lemma_converted_contains(outcomes, i);
    assert(converted_paths(outcomes).to_set().contains(p));
}

proof fn lemma_converted_contains(outcomes: Seq<Option<Seq<char>>>, i: int)
    requires
        0 <= i < outcomes.len(),
        outcomes[i] is Some,
    ensures
        converted_paths(outcomes).contains(outcomes[i]->0),
    decreases outcomes.len(),
{
    let rest = converted_paths(outcomes.drop_last());
    if i == outcomes.len() - 1 {
        assert(converted_paths(outcomes) == rest.push(outcomes[i]->0));
        assert(converted_paths(outcomes)[rest.len() as int] == outcomes[i]->0);
    } else {
        lemma_converted_contains(outcomes.drop_last(), i);
        assert(outcomes.drop_last()[i] == outcomes[i]);
        let k = choose|k: int| 0 <= k < rest.len() && rest[k] == outcomes[i]->0;
        match outcomes.last() {
            Some(q) => assert(converted_paths(outcomes)[k] == rest[k]),
            None => {},
        }
    }
}

proof fn lemma_no_paths_converted(outcomes: Seq<Option<Seq<char>>>)
    requires
        forall|i: int| 0 <= i < outcomes.len() ==> (#[trigger] outcomes[i]) is None,
    ensures
        converted_paths(outcomes).len() == 0,
    decreases outcomes.len(),
{
    if outcomes.len() > 0 {
        lemma_no_paths_converted(outcomes.drop_last());
    }
}

} // verus!
