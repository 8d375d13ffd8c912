//! The log-level configuration: level names, the `log_level = "..."` line of
//! the configuration file, and the order in which the sources are consulted.

use vstd::prelude::*;
use crate::text::{
    ascii_lower, ascii_lower_equals, chars_of, skip_end, skip_start, strip_end, strip_start, trim,
    CharClass,
};

verus! {

/// A maximum log level, from quietest to most verbose.
#[derive(Debug, Clone, Copy, PartialEq, Eq)]
pub enum LogLevel {
    Off,
    Error,
    Warn,
    Info,
    Debug,
    Trace,
}

/// The level a lowercase word names: `off`, `error`, `warn` or `warning`,
/// `info`, `debug`, `trace`.
pub open spec fn level_named(word: Seq<char>) -> Option<LogLevel> {
    if word == seq!['o', 'f', 'f'] {
        Some(LogLevel::Off)
    } else if word == seq!['e', 'r', 'r', 'o', 'r'] {
        Some(LogLevel::Error)
    } else if word == seq!['w', 'a', 'r', 'n'] || word == seq!['w', 'a', 'r', 'n', 'i', 'n', 'g'] {
        Some(LogLevel::Warn)
    } else if word == seq!['i', 'n', 'f', 'o'] {
        Some(LogLevel::Info)
    } else if word == seq!['d', 'e', 'b', 'u', 'g'] {
        Some(LogLevel::Debug)
    } else if word == seq!['t', 'r', 'a', 'c', 'e'] {
        Some(LogLevel::Trace)
    } else {
        None
    }
}

/// The level a setting names, ignoring surrounding white space and ASCII case.
pub open spec fn parsed_level(s: Seq<char>) -> Option<LogLevel> {
    level_named(ascii_lower(trim(s)))
}

/// The key of the configuration line.
pub open spec fn log_level_key() -> Seq<char> {
    seq!['l', 'o', 'g', '_', 'l', 'e', 'v', 'e', 'l']
}

/// `s` without leading and trailing double quotes.
pub open spec fn strip_quotes(s: Seq<char>) -> Seq<char> {
    strip_end(strip_start(s, CharClass::Exactly('"')), CharClass::Exactly('"'))
}

/// The level one configuration line sets: after trimming, a line that is not
/// empty, not a `#` comment, starts with `log_level`, then (after white space)
/// `=`; the value is what follows the `=` signs, trimmed and without
/// surrounding quotes, and it must name a level.
pub open spec fn config_line_level(line: Seq<char>) -> Option<LogLevel> {
    let t = trim(line);
    let key = log_level_key();
    if t.len() == 0 || t[0] == '#' {
        None
    } else if !(t.len() >= key.len() && t.subrange(0, key.len() as int) == key) {
        None
    } else {
        let raw = strip_start(t.subrange(key.len() as int, t.len() as int), CharClass::WhiteSpace);
        if raw.len() == 0 || raw[0] != '=' {
            None
        } else {
            parsed_level(strip_quotes(trim(strip_start(raw, CharClass::Exactly('=')))))
        }
    }
}

/// The pieces of `s` between newline characters (a trailing `\r` of a piece is
/// white space, so trimming treats `\r\n` endings like `\n`).
pub open spec fn split_lines(s: Seq<char>) -> Seq<Seq<char>>
    decreases s.len(),
{
    if s.len() == 0 {
        seq![Seq::empty()]
    } else {
        let rest = split_lines(s.drop_first());
        if s[0] == '\n' {
            seq![Seq::empty()] + rest
        } else {
            rest.update(0, seq![s[0]] + rest[0])
        }
    }
}

/// The level of the first line that sets one.
pub open spec fn first_config_level(lines: Seq<Seq<char>>) -> Option<LogLevel>
    decreases lines.len(),
{
    if lines.len() == 0 {
        None
    } else {
        match config_line_level(lines[0]) {
            Some(level) => Some(level),
            None => first_config_level(lines.drop_first()),
        }
    }
}

/// The level that a configuration file's text sets.
pub open spec fn config_level(content: Seq<char>) -> Option<LogLevel> {
    first_config_level(split_lines(content))
}

proof fn lemma_split_lines_nonempty(s: Seq<char>)
    ensures
        split_lines(s).len() >= 1,
    decreases s.len(),
{
    if s.len() > 0 {
        lemma_split_lines_nonempty(s.drop_first());
    }
}

/// A piece without a newline is one line; a newline after it starts the next.
proof fn lemma_split_lines_piece(a: Seq<char>, b: Seq<char>)
    requires
        forall|i: int| 0 <= i < a.len() ==> a[i] != '\n',
    ensures
        split_lines(a) == seq![a],
        split_lines(a + seq!['\n'] + b) == seq![a] + split_lines(b),
    decreases a.len(),
{
    if a.len() == 0 {
        assert((a + seq!['\n'] + b).drop_first() =~= b);
        assert(a =~= Seq::<char>::empty());
    } else {
        let a1 = a.drop_first();
        lemma_split_lines_piece(a1, b);
        lemma_split_lines_nonempty(a1);
        assert((a + seq!['\n'] + b).drop_first() =~= a1 + seq!['\n'] + b);
        assert(seq![a[0]] + a1 =~= a);
        assert(split_lines(a) =~= seq![a]);
        assert(split_lines(a + seq!['\n'] + b) =~= seq![a] + split_lines(b));
    }
}

/// The level named by `v[lo..hi]`, ignoring surrounding white space and ASCII case.
fn parse_level_range(v: &Vec<char>, lo: usize, hi: usize) -> (r: Option<LogLevel>)
    requires
        lo <= hi <= v@.len(),
    ensures
        r == parsed_level(v@.subrange(lo as int, hi as int)),
{
    let a = skip_start(v, lo, hi, CharClass::WhiteSpace);
    let b = skip_end(v, a, hi, CharClass::WhiteSpace);
    assert(v@.subrange(a as int, b as int) == trim(v@.subrange(lo as int, hi as int)));
    let off: [char; 3] = ['o', 'f', 'f'];
    let error: [char; 5] = ['e', 'r', 'r', 'o', 'r'];
    let warn: [char; 4] = ['w', 'a', 'r', 'n'];
    let warning: [char; 7] = ['w', 'a', 'r', 'n', 'i', 'n', 'g'];
    let info: [char; 4] = ['i', 'n', 'f', 'o'];
    let debug: [char; 5] = ['d', 'e', 'b', 'u', 'g'];
    let trace: [char; 5] = ['t', 'r', 'a', 'c', 'e'];
    assert(off@ =~= seq!['o', 'f', 'f']);
    assert(error@ =~= seq!['e', 'r', 'r', 'o', 'r']);
    assert(warn@ =~= seq!['w', 'a', 'r', 'n']);
    assert(warning@ =~= seq!['w', 'a', 'r', 'n', 'i', 'n', 'g']);
    assert(info@ =~= seq!['i', 'n', 'f', 'o']);
    assert(debug@ =~= seq!['d', 'e', 'b', 'u', 'g']);
    assert(trace@ =~= seq!['t', 'r', 'a', 'c', 'e']);
    if ascii_lower_equals(v, a, b, &off) {
        Some(LogLevel::Off)
    } else if ascii_lower_equals(v, a, b, &error) {
        Some(LogLevel::Error)
    } else if ascii_lower_equals(v, a, b, &warn) || ascii_lower_equals(v, a, b, &warning) {
        Some(LogLevel::Warn)
    } else if ascii_lower_equals(v, a, b, &info) {
        Some(LogLevel::Info)
    } else if ascii_lower_equals(v, a, b, &debug) {
        Some(LogLevel::Debug)
    } else if ascii_lower_equals(v, a, b, &trace) {
        Some(LogLevel::Trace)
    } else {
        None
    }
}

/// The level a setting names, ignoring surrounding white space and ASCII case;
/// `None` for anything else.
pub fn parse_level_filter(level: &str) -> (r: Option<LogLevel>)
    ensures
        r == parsed_level(level@),
{
    let v = chars_of(level);
    assert(v@.subrange(0, v@.len() as int) =~= v@);
    parse_level_range(&v, 0, v.len())
}

/// The level that the configuration line `v[lo..hi]` sets.
fn config_line_level_range(v: &Vec<char>, lo: usize, hi: usize) -> (r: Option<LogLevel>)
    requires
        lo <= hi <= v@.len(),
    ensures
        r == config_line_level(v@.subrange(lo as int, hi as int)),
{
    let ghost line = v@.subrange(lo as int, hi as int);
    let a = skip_start(v, lo, hi, CharClass::WhiteSpace);
    let b = skip_end(v, a, hi, CharClass::WhiteSpace);
    let ghost t = v@.subrange(a as int, b as int);
    assert(t == trim(line));
    if a == b || v[a] == '#' {
        return None;
    }
    let key: [char; 9] = ['l', 'o', 'g', '_', 'l', 'e', 'v', 'e', 'l'];
    assert(key@ =~= log_level_key());
    if b - a < 9 {
        return None;
    }
    let mut i: usize = 0;
    while i < 9
        invariant
            a + 9 <= b <= v@.len(),
            t == v@.subrange(a as int, b as int),
            t == trim(line),
            line == v@.subrange(lo as int, hi as int),
            t.len() > 0 && t[0] != '#',
            key@ == log_level_key(),
            i <= 9,
            forall|j: int| 0 <= j < i ==> t[j] == key@[j],
        decreases 9 - i,
    {
        if v[a + i] != key[i] {
            assert(t.subrange(0, 9)[i as int] != log_level_key()[i as int]);
            return None;
        }
        i = i + 1;
    }
    assert(t.subrange(0, 9) =~= log_level_key());
    let c = skip_start(v, a + 9, b, CharClass::WhiteSpace);
    assert(t.subrange(9, t.len() as int) =~= v@.subrange(a + 9, b as int));
    if c == b || v[c] != '=' {
        return None;
    }
    let ghost raw = v@.subrange(c as int, b as int);
    let d = skip_start(v, c, b, CharClass::Exactly('='));
    let e = skip_start(v, d, b, CharClass::WhiteSpace);
    let f = skip_end(v, e, b, CharClass::WhiteSpace);
    assert(v@.subrange(e as int, f as int) == trim(v@.subrange(d as int, b as int)));
    let g = skip_start(v, e, f, CharClass::Exactly('"'));
    let h = skip_end(v, g, f, CharClass::Exactly('"'));
    assert(v@.subrange(g as int, h as int) == strip_quotes(v@.subrange(e as int, f as int)));
    parse_level_range(v, g, h)
}

/// The level that a configuration file's text sets: the first line of the form
/// `log_level = "<level>"` (comments and other lines are skipped).
pub fn level_from_config(content: &str) -> (r: Option<LogLevel>)
    ensures
        r == config_level(content@),
{
    let v = chars_of(content);
    let n = v.len();
    let mut start: usize = 0;
    let mut i: usize = 0;
    assert(v@.subrange(0, n as int) =~= v@);
    while i < n
        invariant
            n == v@.len(),
            v@ == content@,
            start <= i <= n,
            config_level(v@) == first_config_level(split_lines(v@.subrange(start as int, n as int))),
            forall|j: int| start <= j < i ==> v@[j] != '\n',
        decreases n - i,
    {
        if v[i] == '\n' {
            let ghost a = v@.subrange(start as int, i as int);
            let ghost b = v@.subrange(i + 1, n as int);
            proof {
                assert(v@.subrange(start as int, n as int) =~= a + seq!['\n'] + b);
                lemma_split_lines_piece(a, b);
                assert((seq![a] + split_lines(b)).drop_first() =~= split_lines(b));
                assert((seq![a] + split_lines(b))[0] == a);
            }
            let found = config_line_level_range(&v, start, i);
            if found.is_some() {
                assert(split_lines(v@.subrange(start as int, n as int)) == seq![a] + split_lines(b));
                assert(first_config_level(seq![a] + split_lines(b)) == found);
                return found;
            }
            start = i + 1;
        }
        i = i + 1;
    }
    proof {
        let a = v@.subrange(start as int, n as int);
        lemma_split_lines_piece(a, Seq::empty());
        assert(seq![a].drop_first() =~= Seq::<Seq<char>>::empty());
        assert(first_config_level(Seq::<Seq<char>>::empty()) is None);
        assert(first_config_level(seq![a]) == config_line_level(a));
    }
    config_line_level_range(&v, start, n)
}

/// The level the environment asks for: the first of the `PATHWRAP_LOG_LEVEL`
/// and `RUST_LOG` settings that names a level.
pub fn level_from_env(primary: Option<&str>, fallback: Option<&str>) -> (r: Option<LogLevel>)
    ensures
        r == match primary {
            Some(p) if parsed_level(p@) is Some => parsed_level(p@),
            _ => match fallback {
                Some(f) => parsed_level(f@),
                None => None,
            },
        },
{
    if let Some(p) = primary {
        let parsed = parse_level_filter(p);
        if parsed.is_some() {
            return parsed;
        }
    }
    match fallback {
        Some(f) => parse_level_filter(f),
        None => None,
    }
}

} // verus!
