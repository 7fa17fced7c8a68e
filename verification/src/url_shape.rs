//! The URL-shape heuristic.
//!
//! An argument counts as URL-shaped when it contains, anywhere in the text,
//! an `http` or `https` scheme followed by `://`, a possibly empty run of
//! word characters, and a dot: the loose pattern
//! `(https|http)://<word-chars>.<word-chars>`. The trailing run can be
//! empty, so it puts no constraint on the text and does not appear in the
//! formal pattern. The check decides upload against download, so false
//! positives and negatives on unusual inputs are tolerated by design.

use vstd::prelude::*;

verus! {

/// A word character: an ASCII letter, a digit, or an underscore.
pub open spec fn word_char(c: char) -> bool {
    ||| c == '_'
    ||| '0' as u32 <= c as u32 <= '9' as u32
    ||| 'a' as u32 <= c as u32 <= 'z' as u32
    ||| 'A' as u32 <= c as u32 <= 'Z' as u32
}

/// `http://` stands at position `i` of `s`.
pub open spec fn http_scheme_at(s: Seq<char>, i: int) -> bool {
    &&& 0 <= i
    &&& i + 7 <= s.len()
    &&& s[i] == 'h'
    &&& s[i + 1] == 't'
    &&& s[i + 2] == 't'
    &&& s[i + 3] == 'p'
    &&& s[i + 4] == ':'
    &&& s[i + 5] == '/'
    &&& s[i + 6] == '/'
}

/// `https://` stands at position `i` of `s`.
pub open spec fn https_scheme_at(s: Seq<char>, i: int) -> bool {
    &&& 0 <= i
    &&& i + 8 <= s.len()
    &&& s[i] == 'h'
    &&& s[i + 1] == 't'
    &&& s[i + 2] == 't'
    &&& s[i + 3] == 'p'
    &&& s[i + 4] == 's'
    &&& s[i + 5] == ':'
    &&& s[i + 6] == '/'
    &&& s[i + 7] == '/'
}

/// From position `j` on: zero or more word characters, then a dot.
pub open spec fn dotted_label_at(s: Seq<char>, j: int) -> bool {
    exists|k: int|
        j <= k < s.len() && s[k] == '.' && (forall|t: int| j <= t < k ==> word_char(s[t]))
}

/// The URL pattern matches `s` at position `i`: a scheme, `://`, a host
/// label made of word characters, and a dot.
pub open spec fn url_match_at(s: Seq<char>, i: int) -> bool {
    ||| https_scheme_at(s, i) && dotted_label_at(s, i + 8)
    ||| http_scheme_at(s, i) && dotted_label_at(s, i + 7)
}

/// `s` looks like it holds an HTTP(S) URL: the pattern matches somewhere.
pub open spec fn url_shaped(s: Seq<char>) -> bool {
    exists|i: int| url_match_at(s, i)
}

/// A scheme with a dotted host label, wherever it stands in the text,
/// makes the whole text URL-shaped.
pub proof fn lemma_match_anywhere_url_shaped(s: Seq<char>, i: int)
    requires
        url_match_at(s, i),
    ensures
        url_shaped(s),
{
}

/// A URL-shaped text always holds `://` followed by a dotted label; read
/// the other way round, a text lacking that is never URL-shaped.
pub proof fn lemma_url_shaped_has_separator(s: Seq<char>)
    requires
        url_shaped(s),
    ensures
        exists|i: int|
            0 <= i && i + 3 <= s.len() && #[trigger] s[i] == ':' && s[i + 1] == '/' && s[i + 2]
                == '/' && dotted_label_at(s, i + 3),
{
    let m = choose|m: int| url_match_at(s, m);
    if https_scheme_at(s, m) && dotted_label_at(s, m + 8) {
        assert(0 <= m + 5 && (m + 5) + 3 <= s.len() && s[m + 5] == ':' && s[m + 5 + 1] == '/' && s[m
            + 5 + 2] == '/' && dotted_label_at(s, m + 5 + 3));
    } else {
        assert(0 <= m + 4 && (m + 4) + 3 <= s.len() && s[m + 4] == ':' && s[m + 4 + 1] == '/' && s[m
            + 4 + 2] == '/' && dotted_label_at(s, m + 4 + 3));
    }
}

/// A text without a colon holds no `://`, so it is not URL-shaped; in
/// particular no bare local path is.
pub proof fn lemma_no_colon_not_url_shaped(s: Seq<char>)
    requires
        forall|i: int| 0 <= i < s.len() ==> s[i] != ':',
    ensures
        !url_shaped(s),
{
    if url_shaped(s) {
        let i = choose|i: int| url_match_at(s, i);
        if https_scheme_at(s, i) {
            assert(s[i + 5] == ':');
        } else {
            assert(s[i + 4] == ':');
        }
    }
}

/// Whether `c` is a word character.
fn is_word_char(c: char) -> (r: bool)
    ensures
        r == word_char(c),
{
    let u = c as u32;
    c == '_' || ('0' as u32 <= u && u <= '9' as u32) || ('a' as u32 <= u && u <= 'z' as u32)
        || ('A' as u32 <= u && u <= 'Z' as u32)
}

/// Whether, from position `start` on, a run of word characters ends at a dot.
fn dotted_label_check(v: &Vec<char>, start: usize) -> (r: bool)
    requires
        start <= v@.len(),
    ensures
        r == dotted_label_at(v@, start as int),
{
    let n = v.len();
    let mut j = start;
    while j < n
        invariant
            start <= j <= n,
            n == v@.len(),
            forall|t: int| start <= t < j ==> word_char(v@[t]),
        ensures
            start <= j <= n,
            forall|t: int| start <= t < j ==> word_char(v@[t]),
            j < n ==> !word_char(v@[j as int]),
        decreases n - j,
    {
        if !is_word_char(v[j]) {
            break ;
        }
        j += 1;
    }
    let r = j < n && v[j] == '.';
    proof {
        if r {
            assert(dotted_label_at(v@, start as int)) by {
                assert(start <= j < v@.len() && v@[j as int] == '.' && (forall|t: int|
                    start <= t < j ==> word_char(v@[t])));
            }
        } else {
            assert(!dotted_label_at(v@, start as int)) by {
                if dotted_label_at(v@, start as int) {
                    let k = choose|k: int|
                        start <= k < v@.len() && v@[k] == '.' && (forall|t: int|
                            start <= t < k ==> word_char(v@[t]));
                    if k < j {
                        assert(word_char(v@[k]));
                    } else if k > j {
                        assert(word_char(v@[j as int]));
                    }
                }
            }
        }
    }
    r
}

/// Whether the URL pattern matches somewhere in `v`.
pub(crate) fn url_shaped_check(v: &Vec<char>) -> (r: bool)
    ensures
        r == url_shaped(v@),
{
    let n = v.len();
    let mut i: usize = 0;
    while i < n
        invariant
            i <= n,
            n == v@.len(),
            forall|k: int| 0 <= k < i ==> !url_match_at(v@, k),
        decreases n - i,
    {
        let http_here = n - i >= 7 && v[i] == 'h' && v[i + 1] == 't' && v[i + 2] == 't' && v[i
            + 3] == 'p' && v[i + 4] == ':' && v[i + 5] == '/' && v[i + 6] == '/';
        let https_here = n - i >= 8 && v[i] == 'h' && v[i + 1] == 't' && v[i + 2] == 't' && v[i
            + 3] == 'p' && v[i + 4] == 's' && v[i + 5] == ':' && v[i + 6] == '/' && v[i + 7] == '/';
        if https_here {
            if dotted_label_check(v, i + 8) {
                proof {
                    lemma_match_anywhere_url_shaped(v@, i as int);
                }
                return true;
            }
        } else if http_here {
            if dotted_label_check(v, i + 7) {
                proof {
                    lemma_match_anywhere_url_shaped(v@, i as int);
                }
                return true;
            }
        }
        proof {
            assert(!url_match_at(v@, i as int));
        }
        i += 1;
    }
    proof {
        assert(!url_shaped(v@)) by {
            if url_shaped(v@) {
                let k = choose|k: int| url_match_at(v@, k);
                assert(0 <= k < n);
            }
        }
    }
    false
}

} // verus!
