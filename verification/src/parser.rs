//! Player join and leave events in Minecraft server log lines.
//!
//! A line reports an event when the regex `\b([A-Za-z0-9_]{1,16})\s+joined the game\b`
//! (or the same with `left the game`) matches in it; the name is the captured group of
//! the leftmost match. Joins are looked for before leaves.

use vstd::prelude::*;

use crate::text::{ascii_word, char_is_white_space, char_is_word, chars_of, white_space, word_char};

verus! {

broadcast use vstd::string::group_string_axioms;

/// A player event read from a log line.
#[derive(Debug, Clone, PartialEq, Eq)]
pub enum PlayerEvent {
    Join(String),
    Leave(String),
}

pub open spec fn joined_phrase() -> Seq<char> {
    "joined the game"@
}

pub open spec fn left_phrase() -> Seq<char> {
    "left the game"@
}

/// The end of the run of `[A-Za-z0-9_]` characters of `s` that starts at `p`.
pub open spec fn name_run_end(s: Seq<char>, p: int) -> int
    decreases s.len() - p,
{
    if 0 <= p < s.len() && ascii_word(s[p]) {
        name_run_end(s, p + 1)
    } else {
        p
    }
}

/// The end of the run of white space of `s` that starts at `p`.
pub open spec fn space_run_end(s: Seq<char>, p: int) -> int
    decreases s.len() - p,
{
    if 0 <= p < s.len() && white_space(s[p]) {
        space_run_end(s, p + 1)
    } else {
        p
    }
}

pub open spec fn word_at(s: Seq<char>, i: int) -> bool {
    0 <= i < s.len() && word_char(s[i])
}

/// The regex `\b`: a word character on exactly one side of position `i`.
pub open spec fn word_boundary(s: Seq<char>, i: int) -> bool {
    word_at(s, i - 1) != word_at(s, i)
}

/// `\b([A-Za-z0-9_]{1,16})\s+<phrase>\b` matches `s` from position `p`. The name is
/// the whole run of name characters from `p` (a shorter one would be followed by a name
/// character, not white space), and the white space is its whole run (the phrase does
/// not start with white space).
pub open spec fn event_match_at(s: Seq<char>, p: int, phrase: Seq<char>) -> bool {
    let q = name_run_end(s, p);
    let r = space_run_end(s, q);
    let e = r + phrase.len();
    &&& 0 <= p < s.len()
    &&& word_boundary(s, p)
    &&& 1 <= q - p <= 16
    &&& r > q
    &&& e <= s.len()
    &&& s.subrange(r, e) == phrase
    &&& word_boundary(s, e)
}

pub open spec fn has_match(s: Seq<char>, phrase: Seq<char>) -> bool {
    exists|p: int| event_match_at(s, p, phrase)
}

/// `p` is where the leftmost match starts.
pub open spec fn leftmost_match(s: Seq<char>, phrase: Seq<char>, p: int) -> bool {
    &&& event_match_at(s, p, phrase)
    &&& forall|j: int| 0 <= j < p ==> !event_match_at(s, j, phrase)
}

/// The captured name of the leftmost match.
pub open spec fn captured_name(s: Seq<char>, phrase: Seq<char>) -> Seq<char> {
    let p = choose|p: int| leftmost_match(s, phrase, p);
    s.subrange(p, name_run_end(s, p))
}

proof fn lemma_name_run_end_bounds(s: Seq<char>, p: int)
    requires
        0 <= p <= s.len(),
    ensures
        p <= name_run_end(s, p) <= s.len(),
    decreases s.len() - p,
{
    if p < s.len() && ascii_word(s[p]) {
        lemma_name_run_end_bounds(s, p + 1);
    }
}

proof fn lemma_space_run_end_bounds(s: Seq<char>, p: int)
    requires
        0 <= p <= s.len(),
    ensures
        p <= space_run_end(s, p) <= s.len(),
    decreases s.len() - p,
{
    if p < s.len() && white_space(s[p]) {
        lemma_space_run_end_bounds(s, p + 1);
    }
}

proof fn lemma_leftmost_unique(s: Seq<char>, phrase: Seq<char>, p: int)
    requires
        leftmost_match(s, phrase, p),
    ensures
        (choose|x: int| leftmost_match(s, phrase, x)) == p,
{
    let c = choose|x: int| leftmost_match(s, phrase, x);
    assert(leftmost_match(s, phrase, c));
    if c < p {
        assert(!event_match_at(s, c, phrase));
    } else if c > p {
        assert(!event_match_at(s, p, phrase));
    }
}

/// Whether the pattern matches at `p`; if so, the end of the name.
fn match_at(v: &Vec<char>, p: usize, phrase: &Vec<char>) -> (r: Option<usize>)
    requires
        p < v@.len(),
    ensures
        r is Some <==> event_match_at(v@, p as int, phrase@),
        r is Some ==> r->0 == name_run_end(v@, p as int),
{
    let ghost s = v@;
    let n = v.len();
    if !is_name_char(v[p]) {
        return None;
    }
    let mut q = p;
    while q < n && q - p <= 16 && is_name_char(v[q])
        invariant
            p <= q <= n,
            n == s.len(),
            s == v@,
            q - p <= 17,
            name_run_end(s, p as int) == name_run_end(s, q as int),
        decreases n - q,
    {
        q = q + 1;
    }
    proof {
        lemma_name_run_end_bounds(s, q as int);
    }
    if q - p > 16 {
        return None;
    }
    assert(name_run_end(s, q as int) == q);
    let here = char_is_word(v[p]);
    let prev = p > 0 && char_is_word(v[p - 1]);
    if prev == here {
        return None;
    }
    let mut r = q;
    while r < n && char_is_white_space(v[r])
        invariant
            q <= r <= n,
            n == s.len(),
            s == v@,
            space_run_end(s, q as int) == space_run_end(s, r as int),
        decreases n - r,
    {
        r = r + 1;
    }
    assert(space_run_end(s, r as int) == r);
    if r == q {
        return None;
    }
    let plen = phrase.len();
    if r > n || plen > n - r {
        return None;
    }
    let e = r + plen;
    let mut k: usize = 0;
    while k < plen
        invariant
            r + plen <= n,
            plen == phrase@.len(),
            n == s.len(),
            s == v@,
            k <= plen,
            s.subrange(r as int, r + k) == phrase@.take(k as int),
            q as int == name_run_end(s, p as int),
            r as int == space_run_end(s, q as int),
        decreases plen - k,
    {
        if v[r + k] != phrase[k] {
            assert(s.subrange(r as int, r + plen)[k as int] != phrase@[k as int]);
            assert(s.subrange(r as int, r + plen) != phrase@);
            return None;
        }
        assert(s.subrange(r as int, r + k + 1) =~= phrase@.take(k + 1));
        k = k + 1;
    }
    assert(phrase@.take(plen as int) =~= phrase@);
    let before = char_is_word(v[e - 1]);
    let after = e < n && char_is_word(v[e]);
    if before == after {
        return None;
    }
    Some(q)
}

fn is_name_char(c: char) -> (r: bool)
    ensures
        r == ascii_word(c),
{
    ('0' <= c && c <= '9') || ('a' <= c && c <= 'z') || ('A' <= c && c <= 'Z') || c == '_'
}

/// The leftmost match of the pattern with `phrase`: its start and the end of the name.
fn first_match(v: &Vec<char>, phrase: &Vec<char>) -> (r: Option<(usize, usize)>)
    ensures
        r is None ==> !has_match(v@, phrase@),
        r matches Some((p, q)) ==> leftmost_match(v@, phrase@, p as int) && q == name_run_end(v@, p as int),
{
    let mut p: usize = 0;
    while p < v.len()
        invariant
            p <= v@.len(),
            forall|j: int| 0 <= j < p ==> !event_match_at(v@, j, phrase@),
        decreases v@.len() - p,
    {
        if let Some(q) = match_at(v, p, phrase) {
            return Some((p, q));
        }
        p = p + 1;
    }
    assert forall|j: int| !event_match_at(v@, j, phrase@) by {
        if 0 <= j < p {
        }
    }
    None
}

/// The player event that `line` reports, if any: the leftmost join match, or else the
/// leftmost leave match.
pub fn parse_line(line: &str) -> (r: Option<PlayerEvent>)
    ensures
        match r {
            Some(PlayerEvent::Join(n)) => has_match(line@, joined_phrase()) && n@ == captured_name(line@, joined_phrase()),
            Some(PlayerEvent::Leave(n)) => !has_match(line@, joined_phrase()) && has_match(line@, left_phrase())
                && n@ == captured_name(line@, left_phrase()),
            None => !has_match(line@, joined_phrase()) && !has_match(line@, left_phrase()),
        },
{
    let v = chars_of(line);
    let joined = chars_of("joined the game");
    let left = chars_of("left the game");
    if let Some((p, q)) = first_match(&v, &joined) {
        proof {
            lemma_leftmost_unique(v@, joined@, p as int);
            lemma_name_run_end_bounds(v@, p as int);
        }
        return Some(PlayerEvent::Join(String::from_str(line.substring_char(p, q))));
    }
    if let Some((p, q)) = first_match(&v, &left) {
        proof {
            lemma_leftmost_unique(v@, left@, p as int);
            lemma_name_run_end_bounds(v@, p as int);
        }
        return Some(PlayerEvent::Leave(String::from_str(line.substring_char(p, q))));
    }
    None
}

proof fn lemma_leftmost_exists(s: Seq<char>, phrase: Seq<char>, p: int)
    requires
        event_match_at(s, p, phrase),
    ensures
        exists|q: int| leftmost_match(s, phrase, q),
    decreases p,
{
    if exists|j: int| 0 <= j < p && event_match_at(s, j, phrase) {
        let j = choose|j: int| 0 <= j < p && event_match_at(s, j, phrase);
        lemma_leftmost_exists(s, phrase, j);
    } else {
        assert(leftmost_match(s, phrase, p));
    }
}

proof fn lemma_name_run_chars(s: Seq<char>, p: int, k: int)
    requires
        0 <= p <= k < name_run_end(s, p),
    ensures
        ascii_word(s[k]),
    decreases k - p,
{
    if k > p {
        lemma_name_run_chars(s, p + 1, k);
    }
}

/// A reported player name is one to sixteen ASCII letters, digits or underscores.
pub proof fn law_event_names_are_short_words(s: Seq<char>, phrase: Seq<char>)
    requires
        has_match(s, phrase),
    ensures
        1 <= captured_name(s, phrase).len() <= 16,
        forall|i: int| 0 <= i < captured_name(s, phrase).len() ==> ascii_word(#[trigger] captured_name(s, phrase)[i]),
{
    let p0 = choose|p: int| event_match_at(s, p, phrase);
    lemma_leftmost_exists(s, phrase, p0);
    let p = choose|p: int| leftmost_match(s, phrase, p);
    lemma_name_run_end_bounds(s, p);
    let n = captured_name(s, phrase);
    assert forall|i: int| 0 <= i < n.len() implies ascii_word(#[trigger] n[i]) by {
        lemma_name_run_chars(s, p, p + i);
    }
}

/// A letter `a`–`z` or `A`–`Z`, a digit `0`–`9` or `_`: the name class of the log regex.
pub open spec fn in_name_class(c: char) -> bool {
    ('a' <= c && c <= 'z') || ('A' <= c && c <= 'Z') || ('0' <= c && c <= '9') || c == '_'
}

/// The name run from `p` is the longest stretch of name-class characters there: every
/// character in it is in the class (no letter, digit or `_` left out, none added), and it
/// stops only at the end of the line or at a character outside the class.
pub proof fn law_name_run_is_the_name_class(s: Seq<char>, p: int)
    requires
        0 <= p <= s.len(),
    ensures
        p <= name_run_end(s, p) <= s.len(),
        forall|k: int| p <= k < name_run_end(s, p) ==> in_name_class(#[trigger] s[k]),
        name_run_end(s, p) == s.len() || !in_name_class(s[name_run_end(s, p)]),
        p < s.len() ==> (name_run_end(s, p) > p <==> in_name_class(s[p])),
    decreases s.len() - p,
{
    if p < s.len() && ascii_word(s[p]) {
        law_name_run_is_the_name_class(s, p + 1);
    }
}
} // verus!
