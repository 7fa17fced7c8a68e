//! The service's wire format: a JSON object whose members are strings.
//!
//! The paste service answers an upload with a body like `{"key": "abcdef"}`.
//! This module gives that format an exact grammar — an object of
//! string-valued members, with the usual JSON whitespace and string escapes
//! — as spec-level recursive parsers, and executable parsers proved to
//! return exactly what the grammar says. A `\uXXXX` escape is accepted for
//! any code point that is a Unicode scalar; surrogate pairs are not, so
//! characters outside the basic plane must be sent raw.
//!
//! Each spec parser takes the text and a position, and yields the parsed
//! value with the position just past it, or nothing where the text does not
//! fit the grammar.

use crate::chars::chars_eq;
use crate::chars::copy_chars;
use vstd::prelude::*;

verus! {

/// JSON whitespace.
pub open spec fn json_ws(c: char) -> bool {
    c == ' ' || c == '\t' || c == '\n' || c == '\r'
}

/// The first position at or after `i` that holds no whitespace.
pub open spec fn skip_ws(s: Seq<char>, i: int) -> int
    decreases s.len() - i,
    when 0 <= i <= s.len()
{
    if i < s.len() && json_ws(s[i]) {
        skip_ws(s, i + 1)
    } else {
        i
    }
}

/// `skip_ws` stays between its start and the end of the text.
pub proof fn lemma_skip_ws_bounds(s: Seq<char>, i: int)
    requires
        0 <= i <= s.len(),
    ensures
        i <= skip_ws(s, i) <= s.len(),
    decreases s.len() - i,
{
    if i < s.len() && json_ws(s[i]) {
        lemma_skip_ws_bounds(s, i + 1);
    }
}

/// The character a single-letter escape stands for.
pub open spec fn escape_char(c: char) -> Option<char> {
    if c == '"' {
        Some('"')
    } else if c == '\\' {
        Some('\\')
    } else if c == '/' {
        Some('/')
    } else if c == 'b' {
        Some('\u{0008}')
    } else if c == 'f' {
        Some('\u{000C}')
    } else if c == 'n' {
        Some('\n')
    } else if c == 'r' {
        Some('\r')
    } else if c == 't' {
        Some('\t')
    } else {
        None
    }
}

/// The value of one hex digit.
pub open spec fn hex_val(c: char) -> Option<u32> {
    let u = c as u32;
    if '0' as u32 <= u && u <= '9' as u32 {
        Some((u - '0' as u32) as u32)
    } else if 'a' as u32 <= u && u <= 'f' as u32 {
        Some((u - 'a' as u32 + 10) as u32)
    } else if 'A' as u32 <= u && u <= 'F' as u32 {
        Some((u - 'A' as u32 + 10) as u32)
    } else {
        None
    }
}

/// The value of the four hex digits of a `\uXXXX` escape.
pub open spec fn hex_quad(a: char, b: char, c: char, d: char) -> Option<u32> {
    if hex_val(a) is Some && hex_val(b) is Some && hex_val(c) is Some && hex_val(d) is Some {
        Some(
            (hex_val(a)->0 * 0x1000 + hex_val(b)->0 * 0x100 + hex_val(c)->0 * 0x10 + hex_val(
                d,
            )->0) as u32,
        )
    } else {
        None
    }
}

/// Whether a `\uXXXX` value is a Unicode scalar (not a surrogate).
pub open spec fn scalar_u16(v: u32) -> bool {
    v < 0xD800 || 0xE000 <= v
}

/// Parses the rest of a JSON string, from just past the opening quote:
/// the decoded characters, and the position just past the closing quote.
pub open spec fn parse_string_tail(s: Seq<char>, i: int) -> Option<(Seq<char>, int)>
    decreases s.len() - i,
    when 0 <= i <= s.len()
{
    if i >= s.len() {
        None
    } else if s[i] == '"' {
        Some((Seq::<char>::empty(), i + 1))
    } else if s[i] == '\\' {
        if i + 1 >= s.len() {
            None
        } else if s[i + 1] == 'u' {
            if i + 6 <= s.len() && hex_quad(s[i + 2], s[i + 3], s[i + 4], s[i + 5]) is Some {
                let v = hex_quad(s[i + 2], s[i + 3], s[i + 4], s[i + 5])->0;
                if scalar_u16(v) {
                    match parse_string_tail(s, i + 6) {
                        Some(t) => Some((seq![v as char] + t.0, t.1)),
                        None => None,
                    }
                } else {
                    None
                }
            } else {
                None
            }
        } else {
            match escape_char(s[i + 1]) {
                Some(c) => match parse_string_tail(s, i + 2) {
                    Some(t) => Some((seq![c] + t.0, t.1)),
                    None => None,
                },
                None => None,
            }
        }
    } else if (s[i] as u32) < 0x20 {
        None
    } else {
        match parse_string_tail(s, i + 1) {
            Some(t) => Some((seq![s[i]] + t.0, t.1)),
            None => None,
        }
    }
}

/// When a string tail parses, its end lies past the start and within the text.
pub proof fn lemma_parse_string_tail_bounds(s: Seq<char>, i: int)
    requires
        0 <= i <= s.len(),
    ensures
        parse_string_tail(s, i) matches Some(t) ==> i + 1 <= t.1 <= s.len(),
    decreases s.len() - i,
{
    if i < s.len() {
        if s[i] == '"' {
        } else if s[i] == '\\' {
            if i + 1 < s.len() {
                if s[i + 1] == 'u' {
                    if i + 6 <= s.len() && hex_quad(s[i + 2], s[i + 3], s[i + 4], s[i + 5])
                        is Some {
                        lemma_parse_string_tail_bounds(s, i + 6);
                    }
                } else {
                    if escape_char(s[i + 1]) is Some {
                        lemma_parse_string_tail_bounds(s, i + 2);
                    }
                }
            }
        } else if (s[i] as u32) >= 0x20 {
            lemma_parse_string_tail_bounds(s, i + 1);
        }
    }
}

/// Parses a JSON string at position `i`: its decoded characters, and the
/// position just past the closing quote.
pub open spec fn parse_string(s: Seq<char>, i: int) -> Option<(Seq<char>, int)> {
    if 0 <= i && i < s.len() && s[i] == '"' {
        parse_string_tail(s, i + 1)
    } else {
        None
    }
}

/// When a string parses, its end lies past both quotes and within the text.
pub proof fn lemma_parse_string_bounds(s: Seq<char>, i: int)
    requires
        0 <= i <= s.len(),
    ensures
        parse_string(s, i) matches Some(t) ==> i + 2 <= t.1 <= s.len(),
{
    if 0 <= i && i < s.len() && s[i] == '"' {
        lemma_parse_string_tail_bounds(s, i + 1);
    }
}

/// Parses one `"name": "value"` member at position `i`.
pub open spec fn parse_pair(s: Seq<char>, i: int) -> Option<((Seq<char>, Seq<char>), int)> {
    match parse_string(s, i) {
        Some(k) => {
            let j = skip_ws(s, k.1);
            if j < s.len() && s[j] == ':' {
                let j2 = skip_ws(s, j + 1);
                match parse_string(s, j2) {
                    Some(w) => Some(((k.0, w.0), w.1)),
                    None => None,
                }
            } else {
                None
            }
        },
        None => None,
    }
}

/// When a member parses, its end lies past its start and within the text.
pub proof fn lemma_parse_pair_bounds(s: Seq<char>, i: int)
    requires
        0 <= i <= s.len(),
    ensures
        parse_pair(s, i) matches Some(p) ==> i < p.1 <= s.len(),
{
    lemma_parse_string_bounds(s, i);
    match parse_string(s, i) {
        Some(k) => {
            lemma_skip_ws_bounds(s, k.1);
            let j = skip_ws(s, k.1);
            if j < s.len() && s[j] == ':' {
                lemma_skip_ws_bounds(s, j + 1);
                let j2 = skip_ws(s, j + 1);
                lemma_parse_string_bounds(s, j2);
            }
        },
        None => {},
    }
}

/// Parses a comma-separated run of members at position `i`: the members in
/// order, and the position just past the last one.
pub open spec fn parse_members(s: Seq<char>, i: int) -> Option<
    (Seq<(Seq<char>, Seq<char>)>, int),
>
    decreases s.len() - i,
    when 0 <= i <= s.len()
{
    match parse_pair(s, i) {
        Some(p) => {
            let j = skip_ws(s, p.1);
            if j < s.len() && s[j] == ',' {
                let j2 = skip_ws(s, j + 1);
                proof {
                    lemma_parse_pair_bounds(s, i);
                    lemma_skip_ws_bounds(s, p.1);
                    lemma_skip_ws_bounds(s, j + 1);
                }
                match parse_members(s, j2) {
                    Some(rest) => Some((seq![p.0] + rest.0, rest.1)),
                    None => None,
                }
            } else {
                Some((seq![p.0], p.1))
            }
        },
        None => None,
    }
}

/// When a run of members parses, its end lies past its start and within
/// the text.
pub proof fn lemma_parse_members_bounds(s: Seq<char>, i: int)
    requires
        0 <= i <= s.len(),
    ensures
        parse_members(s, i) matches Some(m) ==> i < m.1 <= s.len(),
    decreases s.len() - i,
{
    lemma_parse_pair_bounds(s, i);
    match parse_pair(s, i) {
        Some(p) => {
            lemma_skip_ws_bounds(s, p.1);
            let j = skip_ws(s, p.1);
            if j < s.len() && s[j] == ',' {
                lemma_skip_ws_bounds(s, j + 1);
                let j2 = skip_ws(s, j + 1);
                lemma_parse_members_bounds(s, j2);
            }
        },
        None => {},
    }
}

/// Parses a whole response body as a JSON object of string members: the
/// members in order, when the body holds exactly one such object and
/// nothing else but whitespace.
pub open spec fn parse_object(s: Seq<char>) -> Option<Seq<(Seq<char>, Seq<char>)>> {
    let i = skip_ws(s, 0);
    if i < s.len() && s[i] == '{' {
        let j = skip_ws(s, i + 1);
        if j < s.len() && s[j] == '}' {
            if skip_ws(s, j + 1) == s.len() {
                Some(Seq::<(Seq<char>, Seq<char>)>::empty())
            } else {
                None
            }
        } else {
            match parse_members(s, j) {
                Some(m) => {
                    let k = skip_ws(s, m.1);
                    if k < s.len() && s[k] == '}' {
                        if skip_ws(s, k + 1) == s.len() {
                            Some(m.0)
                        } else {
                            None
                        }
                    } else {
                        None
                    }
                },
                None => None,
            }
        }
    } else {
        None
    }
}

/// The value under name `k`; with a repeated name the last member wins,
/// as the reference service's decoder keeps the last value it reads.
pub open spec fn lookup(ps: Seq<(Seq<char>, Seq<char>)>, k: Seq<char>) -> Option<Seq<char>>
    decreases ps.len(),
{
    if ps.len() == 0 {
        None
    } else if ps.last().0 == k {
        Some(ps.last().1)
    } else {
        lookup(ps.drop_last(), k)
    }
}

/// The string under `"key"` in the response body, when the body parses.
pub open spec fn response_key(s: Seq<char>) -> Option<Seq<char>> {
    match parse_object(s) {
        Some(ps) => lookup(ps, "key"@),
        None => None,
    }
}

/// The members of an executable parse, as the spec parsers speak of them.
pub open spec fn pairs_view(ps: Seq<(Vec<char>, Vec<char>)>) -> Seq<(Seq<char>, Seq<char>)> {
    ps.map_values(|p: (Vec<char>, Vec<char>)| (p.0@, p.1@))
}

/// Whether `c` is JSON whitespace.
fn is_json_ws(c: char) -> (r: bool)
    ensures
        r == json_ws(c),
{
    c == ' ' || c == '\t' || c == '\n' || c == '\r'
}

/// The first position at or after `i` that holds no whitespace.
fn skip_ws_exec(v: &Vec<char>, i: usize) -> (j: usize)
    requires
        i <= v@.len(),
    ensures
        j as int == skip_ws(v@, i as int),
        i <= j <= v@.len(),
{
    let n = v.len();
    let mut j = i;
    while j < n
        invariant
            i <= j <= n,
            n == v@.len(),
            skip_ws(v@, i as int) == skip_ws(v@, j as int),
        ensures
            i <= j <= n,
            skip_ws(v@, i as int) == skip_ws(v@, j as int),
            j < n ==> !json_ws(v@[j as int]),
        decreases n - j,
    {
        if !is_json_ws(v[j]) {
            break ;
        }
        proof {
            assert(skip_ws(v@, j as int) == skip_ws(v@, j as int + 1));
        }
        j += 1;
    }
    proof {
        assert(skip_ws(v@, j as int) == j as int);
    }
    j
}

/// The value of one hex digit.
fn hex_val_exec(c: char) -> (r: Option<u32>)
    ensures
        r == hex_val(c),
        r matches Some(h) ==> h < 16,
{
    let u = c as u32;
    if '0' as u32 <= u && u <= '9' as u32 {
        Some(u - '0' as u32)
    } else if 'a' as u32 <= u && u <= 'f' as u32 {
        Some(u - 'a' as u32 + 10)
    } else if 'A' as u32 <= u && u <= 'F' as u32 {
        Some(u - 'A' as u32 + 10)
    } else {
        None
    }
}

/// The character a single-letter escape stands for.
fn escape_char_exec(c: char) -> (r: Option<char>)
    ensures
        r == escape_char(c),
{
    if c == '"' {
        Some('"')
    } else if c == '\\' {
        Some('\\')
    } else if c == '/' {
        Some('/')
    } else if c == 'b' {
        Some('\u{0008}')
    } else if c == 'f' {
        Some('\u{000C}')
    } else if c == 'n' {
        Some('\n')
    } else if c == 'r' {
        Some('\r')
    } else if c == 't' {
        Some('\t')
    } else {
        None
    }
}

/// Relies on `char::from_u32`: it returns the character with the given
/// code point exactly when the value is a Unicode scalar, that is, below
/// the surrogate range or between it and 0x10FFFF.
#[verifier::external_body]
fn char_from_u32(v: u32) -> (r: Option<char>)
    ensures
        r == (if v < 0xD800 || (0xE000 <= v && v <= 0x10FFFF) {
            Some(v as char)
        } else {
            None::<char>
        }),
{
    char::from_u32(v)
}

/// The executable mirror of [`parse_string_tail`].
fn parse_string_tail_exec(v: &Vec<char>, i: usize) -> (r: Option<(Vec<char>, usize)>)
    requires
        i <= v@.len(),
    ensures
        ({
            let g = parse_string_tail(v@, i as int);
            match r {
                Some(p) => g matches Some(gp) && gp.0 == p.0@ && gp.1 == p.1 as int,
                None => g is None,
            }
        }),
    decreases v@.len() - i,
{
    let n = v.len();
    if i >= n {
        return None;
    }
    let c = v[i];
    if c == '"' {
        return Some((Vec::new(), i + 1));
    }
    if c == '\\' {
        if n - i < 2 {
            return None;
        }
        let e = v[i + 1];
        if e == 'u' {
            if n - i < 6 {
                return None;
            }
            let h0 = hex_val_exec(v[i + 2]);
            let h1 = hex_val_exec(v[i + 3]);
            let h2 = hex_val_exec(v[i + 4]);
            let h3 = hex_val_exec(v[i + 5]);
            match (h0, h1, h2, h3) {
                (Some(a), Some(b), Some(x), Some(d)) => {
                    let val = a * 0x1000 + b * 0x100 + x * 0x10 + d;
                    if val < 0xD800 || val >= 0xE000 {
                        match char_from_u32(val) {
                            Some(ch) => match parse_string_tail_exec(v, i + 6) {
                                Some(t) => {
                                    let (mut cs, j) = t;
                                    let ghost cs0 = cs@;
                                    cs.insert(0, ch);
                                    proof {
                                        assert(cs@ =~= seq![ch] + cs0);
                                    }
                                    Some((cs, j))
                                },
                                None => None,
                            },
                            None => {
                                proof {
                                    assert(false);
                                }
                                None
                            },
                        }
                    } else {
                        None
                    }
                },
                _ => None,
            }
        } else {
            match escape_char_exec(e) {
                Some(ch) => match parse_string_tail_exec(v, i + 2) {
                    Some(t) => {
                        let (mut cs, j) = t;
                        let ghost cs0 = cs@;
                        cs.insert(0, ch);
                        proof {
                            assert(cs@ =~= seq![ch] + cs0);
                        }
                        Some((cs, j))
                    },
                    None => None,
                },
                None => None,
            }
        }
    } else if (c as u32) < 0x20 {
        None
    } else {
        match parse_string_tail_exec(v, i + 1) {
            Some(t) => {
                let (mut cs, j) = t;
                let ghost cs0 = cs@;
                cs.insert(0, c);
                proof {
                    assert(cs@ =~= seq![c] + cs0);
                }
                Some((cs, j))
            },
            None => None,
        }
    }
}

/// The executable mirror of [`parse_string`].
fn parse_string_exec(v: &Vec<char>, i: usize) -> (r: Option<(Vec<char>, usize)>)
    requires
        i <= v@.len(),
    ensures
        ({
            let g = parse_string(v@, i as int);
            match r {
                Some(p) => g matches Some(gp) && gp.0 == p.0@ && gp.1 == p.1 as int,
                None => g is None,
            }
        }),
{
    if i < v.len() && v[i] == '"' {
        parse_string_tail_exec(v, i + 1)
    } else {
        None
    }
}

/// The executable mirror of [`parse_pair`].
fn parse_pair_exec(v: &Vec<char>, i: usize) -> (r: Option<((Vec<char>, Vec<char>), usize)>)
    requires
        i <= v@.len(),
    ensures
        ({
            let g = parse_pair(v@, i as int);
            match r {
                Some(p) => g matches Some(gp) && gp.0.0 == p.0.0@ && gp.0.1 == p.0.1@ && gp.1
                    == p.1 as int,
                None => g is None,
            }
        }),
{
    match parse_string_exec(v, i) {
        Some(kj) => {
            let (k, j) = kj;
            proof {
                lemma_parse_string_bounds(v@, i as int);
            }
            let j1 = skip_ws_exec(v, j);
            if j1 < v.len() && v[j1] == ':' {
                let j2 = skip_ws_exec(v, j1 + 1);
                match parse_string_exec(v, j2) {
                    Some(wj) => {
                        let (w, j3) = wj;
                        Some(((k, w), j3))
                    },
                    None => None,
                }
            } else {
                None
            }
        },
        None => None,
    }
}

/// The executable mirror of [`parse_members`].
fn parse_members_exec(v: &Vec<char>, i: usize) -> (r: Option<(Vec<(Vec<char>, Vec<char>)>, usize)>)
    requires
        i <= v@.len(),
    ensures
        ({
            let g = parse_members(v@, i as int);
            match r {
                Some(m) => g matches Some(gm) && gm.0 == pairs_view(m.0@) && gm.1 == m.1 as int,
                None => g is None,
            }
        }),
    decreases v@.len() - i,
{
    match parse_pair_exec(v, i) {
        Some(pj) => {
            let (p, j) = pj;
            proof {
                lemma_parse_pair_bounds(v@, i as int);
            }
            let j1 = skip_ws_exec(v, j);
            if j1 < v.len() && v[j1] == ',' {
                let j2 = skip_ws_exec(v, j1 + 1);
                match parse_members_exec(v, j2) {
                    Some(mj) => {
                        let (mut ps, j3) = mj;
                        let ghost ps0 = ps@;
                        let ghost pv = (p.0@, p.1@);
                        ps.insert(0, p);
                        proof {
                            assert(pairs_view(ps@) =~= seq![pv] + pairs_view(ps0)) by {
                                assert forall|t: int| 0 <= t < ps@.len() implies pairs_view(ps@)[t]
                                    == (seq![pv] + pairs_view(ps0))[t] by {
                                    if t > 0 {
                                        assert(ps@[t] == ps0[t - 1]);
                                    }
                                }
                            }
                        }
                        Some((ps, j3))
                    },
                    None => None,
                }
            } else {
                let mut ps: Vec<(Vec<char>, Vec<char>)> = Vec::new();
                let ghost pv = (p.0@, p.1@);
                ps.push(p);
                proof {
                    assert(pairs_view(ps@) =~= seq![pv]);
                }
                Some((ps, j))
            }
        },
        None => None,
    }
}

/// The executable mirror of [`parse_object`].
pub(crate) fn parse_object_exec(v: &Vec<char>) -> (r: Option<Vec<(Vec<char>, Vec<char>)>>)
    ensures
        ({
            let g = parse_object(v@);
            match r {
                Some(ps) => g matches Some(gps) && gps == pairs_view(ps@),
                None => g is None,
            }
        }),
{
    let n = v.len();
    let i = skip_ws_exec(v, 0);
    if i < n && v[i] == '{' {
        let j = skip_ws_exec(v, i + 1);
        if j < n && v[j] == '}' {
            let k = skip_ws_exec(v, j + 1);
            if k == n {
                let ps: Vec<(Vec<char>, Vec<char>)> = Vec::new();
                proof {
                    assert(pairs_view(ps@) =~= Seq::<(Seq<char>, Seq<char>)>::empty());
                }
                Some(ps)
            } else {
                None
            }
        } else {
            match parse_members_exec(v, j) {
                Some(mj) => {
                    let (ps, m1) = mj;
                    proof {
                        lemma_parse_members_bounds(v@, j as int);
                    }
                    let k = skip_ws_exec(v, m1);
                    if k < n && v[k] == '}' {
                        let k2 = skip_ws_exec(v, k + 1);
                        if k2 == n {
                            Some(ps)
                        } else {
                            None
                        }
                    } else {
                        None
                    }
                },
                None => None,
            }
        }
    } else {
        None
    }
}

/// The executable mirror of [`lookup`]: the value under `key`, last
/// member first.
pub(crate) fn lookup_exec(ps: &Vec<(Vec<char>, Vec<char>)>, key: &Vec<char>) -> (r: Option<
    Vec<char>,
>)
    ensures
        ({
            let g = lookup(pairs_view(ps@), key@);
            match r {
                Some(w) => g matches Some(gw) && gw == w@,
                None => g is None,
            }
        }),
{
    let mut t: usize = ps.len();
    proof {
        assert(pairs_view(ps@).take(t as int) =~= pairs_view(ps@));
    }
    while t > 0
        invariant
            t <= ps@.len(),
            lookup(pairs_view(ps@), key@) == lookup(pairs_view(ps@).take(t as int), key@),
        decreases t,
    {
        let ghost pv = pairs_view(ps@);
        let hit = chars_eq(&ps[t - 1].0, key);
        proof {
            assert(pv.take(t as int).last() == pv[t as int - 1]);
            assert(pv[t as int - 1].0 == ps@[t as int - 1].0@);
        }
        if hit {
            let out = copy_chars(&ps[t - 1].1);
            proof {
                assert(lookup(pv.take(t as int), key@) == Some(pv[t as int - 1].1));
            }
            return Some(out);
        }
        proof {
            assert(pv.take(t as int).drop_last() =~= pv.take(t as int - 1));
            assert(lookup(pv.take(t as int), key@) == lookup(pv.take(t as int - 1), key@));
        }
        t -= 1;
    }
    proof {
        assert(pairs_view(ps@).take(0) =~= Seq::<(Seq<char>, Seq<char>)>::empty());
        assert(lookup(Seq::<(Seq<char>, Seq<char>)>::empty(), key@) is None);
    }
    None
}

} // verus!
