//! Parsing of a "link"-style continuation header.
//!
//! A header value holds a next-page link where a `<`, a non-empty URL free
//! of `>`, and the exact marker `>; rel="next"` stand in a row.  The
//! leftmost such link wins, and its URL is the captured text between the
//! angle brackets.  A missing or malformed header simply carries no link:
//! it is never an error, it only ends pagination.

use vstd::prelude::*;
use vstd::string::StrSliceExecFns;

verus! {

/// The twelve characters `; rel="next"` stand at positions `p..p+12` of `s`.
pub open spec fn marker_matches(s: Seq<char>, p: int) -> bool {
    &&& s[p] == ';'
    &&& s[p + 1] == ' '
    &&& s[p + 2] == 'r'
    &&& s[p + 3] == 'e'
    &&& s[p + 4] == 'l'
    &&& s[p + 5] == '='
    &&& s[p + 6] == '"'
    &&& s[p + 7] == 'n'
    &&& s[p + 8] == 'e'
    &&& s[p + 9] == 'x'
    &&& s[p + 10] == 't'
    &&& s[p + 11] == '"'
}

/// A next-page link occupies positions `i..j+13` of `s`: a `<` at `i`, a
/// non-empty URL free of `>`, the closing `>` at `j`, then `; rel="next"`.
pub open spec fn match_at(s: Seq<char>, i: int, j: int) -> bool {
    &&& 0 <= i
    &&& i + 1 < j
    &&& j + 13 <= s.len()
    &&& s[i] == '<'
    &&& s[j] == '>'
    &&& (forall|k: int| i < k < j ==> s[k] != '>')
    &&& marker_matches(s, j + 1)
}

/// The URL of the leftmost next-page link starting at or after `i`, if any.
pub open spec fn link_from(s: Seq<char>, i: int) -> Option<Seq<char>>
    decreases s.len() - i,
{
    if i >= s.len() {
        Option::None
    } else if exists|j: int| match_at(s, i, j) {
        let j = choose|j: int| match_at(s, i, j);
        Option::Some(s.subrange(i + 1, j))
    } else {
        link_from(s, i + 1)
    }
}

/// The URL of the leftmost next-page link in `s`, if any.
pub open spec fn next_link(s: Seq<char>) -> Option<Seq<char>> {
    link_from(s, 0)
}

/// The next-page URL carried by an optional header value: an absent header
/// carries none.
pub open spec fn link_of(h: Option<String>) -> Option<Seq<char>> {
    match h {
        Option::None => Option::None,
        Option::Some(s) => next_link(s@),
    }
}

/// Two closing positions for a link starting at `i` coincide: each is the
/// first `>` after `i`.
proof fn lemma_match_at_unique(s: Seq<char>, i: int, j1: int, j2: int)
    requires
        match_at(s, i, j1),
        match_at(s, i, j2),
    ensures
        j1 == j2,
{
    if j1 < j2 {
        assert(s[j1] != '>');
    }
    if j2 < j1 {
        assert(s[j2] != '>');
    }
}

proof fn lemma_link_from_match(s: Seq<char>, i: int, j: int)
    requires
        match_at(s, i, j),
    ensures
        link_from(s, i) == Option::Some(s.subrange(i + 1, j)),
{
    let j2 = choose|j2: int| match_at(s, i, j2);
    lemma_match_at_unique(s, i, j, j2);
}

/// Whether `; rel="next"` stands at position `pos` of `s`.
fn marker_at(s: &str, pos: usize, n: usize) -> (r: bool)
    requires
        n == s@.len(),
        pos + 12 <= n,
    ensures
        r == marker_matches(s@, pos as int),
{
    s.get_char(pos) == ';' && s.get_char(pos + 1) == ' ' && s.get_char(pos + 2) == 'r'
        && s.get_char(pos + 3) == 'e' && s.get_char(pos + 4) == 'l' && s.get_char(pos + 5) == '='
        && s.get_char(pos + 6) == '"' && s.get_char(pos + 7) == 'n' && s.get_char(pos + 8) == 'e'
        && s.get_char(pos + 9) == 'x' && s.get_char(pos + 10) == 't' && s.get_char(pos + 11)
        == '"'
}

/// The URL of the leftmost next-page link in the header value `link`, or
/// `None` when the value carries none.
pub fn next_page(link: &str) -> (r: Option<String>)
    ensures
        match r {
            Option::Some(u) => next_link(link@) == Option::Some(u@),
            Option::None => next_link(link@) is None,
        },
{
    let n = link.unicode_len();
    let mut i: usize = 0;
    while i < n
        invariant
            n == link@.len(),
            i <= n,
            link_from(link@, 0) == link_from(link@, i as int),
        decreases n - i,
    {
        if link.get_char(i) == '<' {
            let mut j: usize = i + 1;
            while j < n && link.get_char(j) != '>'
                invariant
                    n == link@.len(),
                    i < j <= n,
                    forall|k: int| i < k < j ==> link@[k] != '>',
                decreases n - j,
            {
                j = j + 1;
            }
            if j < n {
                // link@[j as int] is the first '>' after i
                let long_enough = j - i >= 2 && n - j >= 13;
                let ok = if long_enough {
                    marker_at(link, j + 1, n)
                } else {
                    false
                };
                if ok {
                    proof {
                        assert(match_at(link@, i as int, j as int));
                        lemma_link_from_match(link@, i as int, j as int);
                    }
                    let url = link.substring_char(i + 1, j);
                    return Option::Some(url.to_owned());
                } else {
                    proof {
                        assert forall|j2: int| !match_at(link@, i as int, j2) by {
                            if match_at(link@, i as int, j2) {
                                if j2 < j as int {
                                    assert(link@[j2] != '>');
                                } else if j2 > j as int {
                                    assert(link@[j as int] != '>');
                                } else {
                                    assert(!match_at(link@, i as int, j as int));
                                }
                            }
                        }
                    }
                }
            } else {
                proof {
                    assert forall|j2: int| !match_at(link@, i as int, j2) by {
                        if match_at(link@, i as int, j2) {
                            assert(link@[j2] != '>');
                        }
                    }
                }
            }
        } else {
            proof {
                assert forall|j2: int| !match_at(link@, i as int, j2) by {}
            }
        }
        proof {
            assert(link_from(link@, i as int) == link_from(link@, i + 1 as int));
        }
        i = i + 1;
    }
    Option::None
}

} // verus!
