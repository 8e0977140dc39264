//! The answer of the RCON `list` command.
//!
//! After trimming, the answer is searched for the regex
//! `There are (\d+)(?:/| of a max of )(\d+) players online:?\s*(.*)`: the Fabric/Paper
//! form `There are X of a max of Y players online: a, b` and the Forge 1.12 form
//! `There are X/Y players online:`. The two counts must read as `u32` values; the names
//! are the comma-separated, trimmed, non-empty parts of the third group.

use vstd::prelude::*;

use crate::players::PlayerSet;
use crate::text::{
    char_is_white_space, chars_of, decimal_digit, has_at, has_at_exec, is_decimal_digit, lemma_trim_chars,
    parse_unsigned, parse_unsigned_in, trim, trim_bounds, white_space,
};

verus! {

broadcast use vstd::string::group_string_axioms;

pub open spec fn there_are() -> Seq<char> {
    "There are "@
}

pub open spec fn of_a_max_of() -> Seq<char> {
    " of a max of "@
}

pub open spec fn players_online() -> Seq<char> {
    " players online"@
}

/// The end of the run of `\d` characters of `t` from `i`.
pub open spec fn digit_run_end(t: Seq<char>, i: int) -> int
    decreases t.len() - i,
{
    if 0 <= i < t.len() && decimal_digit(t[i]) {
        digit_run_end(t, i + 1)
    } else {
        i
    }
}

/// The end of the run of white space of `t` from `i`.
pub open spec fn blank_run_end(t: Seq<char>, i: int) -> int
    decreases t.len() - i,
{
    if 0 <= i < t.len() && white_space(t[i]) {
        blank_run_end(t, i + 1)
    } else {
        i
    }
}

/// The end of the line of `t` that goes on from `i`: the next `\n`, or the end.
pub open spec fn line_end(t: Seq<char>, i: int) -> int
    decreases t.len() - i,
{
    if 0 <= i < t.len() && t[i] != '\n' {
        line_end(t, i + 1)
    } else {
        i
    }
}

/// Where `(?:/| of a max of )` ends when it starts at `i`, if it matches there.
pub open spec fn separator_end(t: Seq<char>, i: int) -> Option<int> {
    if 0 <= i < t.len() && t[i] == '/' {
        Some(i + 1)
    } else if has_at(t, i, of_a_max_of()) {
        Some(i + of_a_max_of().len())
    } else {
        None
    }
}

pub open spec fn count_start(p: int) -> int {
    p + there_are().len()
}

pub open spec fn count_end(t: Seq<char>, p: int) -> int {
    digit_run_end(t, count_start(p))
}

pub open spec fn max_start(t: Seq<char>, p: int) -> int {
    separator_end(t, count_end(t, p))->0
}

pub open spec fn max_end(t: Seq<char>, p: int) -> int {
    digit_run_end(t, max_start(t, p))
}

/// Where the names group starts: after ` players online`, an optional `:` and white space.
pub open spec fn names_start(t: Seq<char>, p: int) -> int {
    let y = max_end(t, p) + players_online().len();
    let z = if y < t.len() && t[y] == ':' { y + 1 } else { y };
    blank_run_end(t, z)
}

pub open spec fn names_end(t: Seq<char>, p: int) -> int {
    line_end(t, names_start(t, p))
}

/// The pattern matches `t` from `p` (the groups then always match: `.*` may be empty).
pub open spec fn list_match_at(t: Seq<char>, p: int) -> bool {
    &&& 0 <= p < t.len()
    &&& has_at(t, p, there_are())
    &&& count_end(t, p) > count_start(p)
    &&& separator_end(t, count_end(t, p)) is Some
    &&& max_end(t, p) > max_start(t, p)
    &&& has_at(t, max_end(t, p), players_online())
}

pub open spec fn has_list_match(t: Seq<char>) -> bool {
    exists|p: int| list_match_at(t, p)
}

pub open spec fn leftmost_list_match(t: Seq<char>, p: int) -> bool {
    &&& list_match_at(t, p)
    &&& forall|j: int| 0 <= j < p ==> !list_match_at(t, j)
}

/// `str::split(',')`: the parts of `s` between commas.
pub open spec fn split_commas(s: Seq<char>) -> Seq<Seq<char>>
    decreases s.len(),
{
    if s.len() == 0 {
        seq![Seq::<char>::empty()]
    } else {
        let rest = split_commas(s.drop_last());
        if s.last() == ',' {
            rest.push(Seq::<char>::empty())
        } else {
            rest.update(rest.len() - 1, rest.last().push(s.last()))
        }
    }
}

/// The trimmed, non-empty parts.
pub open spec fn names_of_parts(parts: Seq<Seq<char>>) -> Set<Seq<char>> {
    Set::new(|n: Seq<char>| n.len() > 0 && exists|i: int| 0 <= i < parts.len() && trim(#[trigger] parts[i]) == n)
}

/// The player names listed in the names group `g`.
pub open spec fn listed_names(g: Seq<char>) -> Set<Seq<char>> {
    names_of_parts(split_commas(trim(g)))
}

/// What `parse_list_response` gives for `response`: counts and names of the leftmost
/// match in the trimmed text, when both counts read as `u32` values.
pub open spec fn parsed_list(response: Seq<char>) -> Option<(nat, nat, Set<Seq<char>>)> {
    let t = trim(response);
    if has_list_match(t) {
        let p = choose|p: int| leftmost_list_match(t, p);
        let count = parse_unsigned(t.subrange(count_start(p), count_end(t, p)), u32::MAX as nat);
        let max = parse_unsigned(t.subrange(max_start(t, p), max_end(t, p)), u32::MAX as nat);
        if count is Some && max is Some {
            Some((count->0, max->0, listed_names(t.subrange(names_start(t, p), names_end(t, p)))))
        } else {
            None
        }
    } else {
        None
    }
}

proof fn lemma_split_commas_nonempty(s: Seq<char>)
    ensures
        split_commas(s).len() >= 1,
    decreases s.len(),
{
    if s.len() > 0 {
        lemma_split_commas_nonempty(s.drop_last());
    }
}

proof fn lemma_digit_run_end_bounds(t: Seq<char>, i: int)
    requires
        0 <= i <= t.len(),
    ensures
        i <= digit_run_end(t, i) <= t.len(),
    decreases t.len() - i,
{
    if i < t.len() && decimal_digit(t[i]) {
        lemma_digit_run_end_bounds(t, i + 1);
    }
}

proof fn lemma_blank_run_end_bounds(t: Seq<char>, i: int)
    requires
        0 <= i <= t.len(),
    ensures
        i <= blank_run_end(t, i) <= t.len(),
    decreases t.len() - i,
{
    if i < t.len() && white_space(t[i]) {
        lemma_blank_run_end_bounds(t, i + 1);
    }
}

proof fn lemma_line_end_bounds(t: Seq<char>, i: int)
    requires
        0 <= i <= t.len(),
    ensures
        i <= line_end(t, i) <= t.len(),
    decreases t.len() - i,
{
    if i < t.len() && t[i] != '\n' {
        lemma_line_end_bounds(t, i + 1);
    }
}

/// The part `lo..hi` of `v`.
fn slice_chars(v: &Vec<char>, lo: usize, hi: usize) -> (r: Vec<char>)
    requires
        lo <= hi <= v@.len(),
    ensures
        r@ == v@.subrange(lo as int, hi as int),
{
    let mut r: Vec<char> = Vec::new();
    let mut i = lo;
    while i < hi
        invariant
            lo <= i <= hi <= v@.len(),
            r@ == v@.subrange(lo as int, i as int),
        decreases hi - i,
    {
        r.push(v[i]);
        assert(r@ =~= v@.subrange(lo as int, i + 1));
        i = i + 1;
    }
    r
}

fn digit_run(t: &Vec<char>, i: usize) -> (r: usize)
    requires
        i <= t@.len(),
    ensures
        r == digit_run_end(t@, i as int),
{
    let mut j = i;
    while j < t.len() && is_decimal_digit(t[j])
        invariant
            i <= j <= t@.len(),
            digit_run_end(t@, i as int) == digit_run_end(t@, j as int),
        decreases t@.len() - j,
    {
        j = j + 1;
    }
    j
}

fn blank_run(t: &Vec<char>, i: usize) -> (r: usize)
    requires
        i <= t@.len(),
    ensures
        r == blank_run_end(t@, i as int),
{
    let mut j = i;
    while j < t.len() && char_is_white_space(t[j])
        invariant
            i <= j <= t@.len(),
            blank_run_end(t@, i as int) == blank_run_end(t@, j as int),
        decreases t@.len() - j,
    {
        j = j + 1;
    }
    j
}

fn line_end_exec(t: &Vec<char>, i: usize) -> (r: usize)
    requires
        i <= t@.len(),
    ensures
        r == line_end(t@, i as int),
{
    let mut j = i;
    while j < t.len() && t[j] != '\n'
        invariant
            i <= j <= t@.len(),
            line_end(t@, i as int) == line_end(t@, j as int),
        decreases t@.len() - j,
    {
        j = j + 1;
    }
    j
}

/// The group bounds of a match at `p`, if the pattern matches there:
/// `(count_end, max_start, max_end)`.
fn list_match_exec(
    t: &Vec<char>,
    p: usize,
    there: &Vec<char>,
    sep: &Vec<char>,
    online: &Vec<char>,
) -> (r: Option<(usize, usize, usize)>)
    requires
        p < t@.len(),
        there@ == there_are(),
        sep@ == of_a_max_of(),
        online@ == players_online(),
    ensures
        r is Some <==> list_match_at(t@, p as int),
        r matches Some((a, b, c)) ==> a == count_end(t@, p as int) && b == max_start(t@, p as int) && c
            == max_end(t@, p as int),
{
    if !has_at_exec(t, p, there) {
        return None;
    }
    assert(p + there@.len() <= t.len());
    let a0 = p + there.len();
    let a = digit_run(t, a0);
    proof {
        lemma_digit_run_end_bounds(t@, a0 as int);
    }
    if a == a0 {
        return None;
    }
    let b = if a < t.len() && t[a] == '/' {
        a + 1
    } else if has_at_exec(t, a, sep) {
        a + sep.len()
    } else {
        return None;
    };
    let c = digit_run(t, b);
    proof {
        lemma_digit_run_end_bounds(t@, b as int);
    }
    if c == b {
        return None;
    }
    if !has_at_exec(t, c, online) {
        return None;
    }
    Some((a, b, c))
}

/// The leftmost match: its start and group bounds `(count_end, max_start, max_end)`.
fn first_list_match(
    t: &Vec<char>,
    there: &Vec<char>,
    sep: &Vec<char>,
    online: &Vec<char>,
) -> (r: Option<(usize, usize, usize, usize)>)
    requires
        there@ == there_are(),
        sep@ == of_a_max_of(),
        online@ == players_online(),
    ensures
        r is None ==> !has_list_match(t@),
        r matches Some((p, a, b, c)) ==> leftmost_list_match(t@, p as int) && a == count_end(t@, p as int)
            && b == max_start(t@, p as int) && c == max_end(t@, p as int),
{
    let mut p: usize = 0;
    while p < t.len()
        invariant
            p <= t@.len(),
            there@ == there_are(),
            sep@ == of_a_max_of(),
            online@ == players_online(),
            forall|j: int| 0 <= j < p ==> !list_match_at(t@, j),
        decreases t@.len() - p,
    {
        if let Some((a, b, c)) = list_match_exec(t, p, there, sep, online) {
            return Some((p, a, b, c));
        }
        p = p + 1;
    }
    assert forall|j: int| !list_match_at(t@, j) by {
        if 0 <= j < p {
        }
    }
    None
}

proof fn lemma_leftmost_list_unique(t: Seq<char>, p: int)
    requires
        leftmost_list_match(t, p),
    ensures
        (choose|x: int| leftmost_list_match(t, x)) == p,
{
    let c = choose|x: int| leftmost_list_match(t, x);
    assert(leftmost_list_match(t, c));
    if c < p {
        assert(!list_match_at(t, c));
    } else if c > p {
        assert(!list_match_at(t, p));
    }
}

proof fn lemma_names_of_parts_push(parts: Seq<Seq<char>>, x: Seq<char>)
    ensures
        names_of_parts(parts.push(x)) == (if trim(x).len() > 0 {
            names_of_parts(parts).insert(trim(x))
        } else {
            names_of_parts(parts)
        }),
{
    let np = parts.push(x);
    let rhs = if trim(x).len() > 0 {
        names_of_parts(parts).insert(trim(x))
    } else {
        names_of_parts(parts)
    };
    assert forall|n: Seq<char>| names_of_parts(np).contains(n) implies rhs.contains(n) by {
        let i = choose|i: int| 0 <= i < np.len() && trim(#[trigger] np[i]) == n;
        if i < parts.len() {
            assert(trim(parts[i]) == n);
        }
    }
    assert forall|n: Seq<char>| rhs.contains(n) implies names_of_parts(np).contains(n) by {
        if trim(x).len() > 0 && n == trim(x) {
            assert(trim(np[parts.len() as int]) == n);
        } else {
            let i = choose|i: int| 0 <= i < parts.len() && trim(#[trigger] parts[i]) == n;
            assert(trim(np[i]) == n);
        }
    }
    assert(names_of_parts(np) =~= rhs);
}

/// Adds the trimmed part `start..end` of `t` to `set` when it is not empty; `t` is the
/// part of `src` from `off`.
fn add_part(set: &mut PlayerSet, t: &Vec<char>, src: &str, off: usize, start: usize, end: usize)
    requires
        start <= end <= t@.len(),
        off + t@.len() <= src@.len(),
        off + t@.len() <= usize::MAX,
        t@ == src@.subrange(off as int, off + t@.len()),
    ensures
        final(set).members() == (if trim(t@.subrange(start as int, end as int)).len() > 0 {
            old(set).members().insert(trim(t@.subrange(start as int, end as int)))
        } else {
            old(set).members()
        }),
{
    let (pa, pb) = trim_bounds(t, start, end);
    if pa < pb {
        let part = src.substring_char(off + pa, off + pb);
        assert(part@ =~= t@.subrange(pa as int, pb as int));
        set.insert(String::from_str(part));
    }
}

/// The names listed in the part `w..e` of `t`; `t` is the part of `src` from `off`.
fn listed_names_in(t: &Vec<char>, src: &str, off: usize, w: usize, e: usize) -> (names: PlayerSet)
    requires
        w <= e <= t@.len(),
        off + t@.len() <= src@.len(),
        off + t@.len() <= usize::MAX,
        t@ == src@.subrange(off as int, off + t@.len()),
    ensures
        names.members() == listed_names(t@.subrange(w as int, e as int)),
{
    let (na, nb) = trim_bounds(t, w, e);
    let ghost g = t@.subrange(na as int, nb as int);
    let ghost mut done: Seq<Seq<char>> = Seq::empty();
    let mut names = PlayerSet::new();
    let mut start = na;
    let mut i = na;
    proof {
        assert(g.take(0) =~= Seq::<char>::empty());
        assert(t@.subrange(na as int, na as int) =~= Seq::<char>::empty());
        assert(names.members() =~= names_of_parts(done));
    }
    while i < nb
        invariant
            na <= start <= i <= nb <= t@.len(),
            g == t@.subrange(na as int, nb as int),
            off + t@.len() <= src@.len(),
            off + t@.len() <= usize::MAX,
            t@ == src@.subrange(off as int, off + t@.len()),
            split_commas(g.take(i - na)) == done.push(t@.subrange(start as int, i as int)),
            names.members() == names_of_parts(done),
        decreases nb - i,
    {
        let ghost k = i - na;
        proof {
            assert(g.take(k + 1).drop_last() =~= g.take(k));
            assert(g.take(k + 1).last() == t@[i as int]);
            lemma_split_commas_nonempty(g.take(k));
        }
        if t[i] == ',' {
            add_part(&mut names, t, src, off, start, i);
            proof {
                lemma_names_of_parts_push(done, t@.subrange(start as int, i as int));
                done = done.push(t@.subrange(start as int, i as int));
                assert(t@.subrange(i + 1, i + 1) =~= Seq::<char>::empty());
            }
            start = i + 1;
        } else {
            proof {
                assert(t@.subrange(start as int, i + 1) =~= t@.subrange(start as int, i as int).push(t@[i as int]));
                assert(split_commas(g.take(k + 1)) =~= done.push(t@.subrange(start as int, i + 1)));
            }
        }
        i = i + 1;
    }
    add_part(&mut names, t, src, off, start, nb);
    proof {
        lemma_names_of_parts_push(done, t@.subrange(start as int, nb as int));
        assert(g.take(nb - na) =~= g);
    }
    names
}

/// Parses the answer of the RCON `list` command: the player count, the capacity and the
/// names of the players online.
pub fn parse_list_response(response: &str) -> (r: Option<(u32, u32, PlayerSet)>)
    ensures
        match r {
            Some((count, max, names)) => parsed_list(response@) == Some(
                (count as nat, max as nat, names.members()),
            ),
            None => parsed_list(response@) is None,
        },
{
    let v = chars_of(response);
    let (lo, hi) = trim_bounds(&v, 0, v.len());
    assert(v@.subrange(0, v@.len() as int) =~= v@);
    let t = slice_chars(&v, lo, hi);
    assert(t@ == trim(response@));
    let there = chars_of("There are ");
    let sep = chars_of(" of a max of ");
    let online = chars_of(" players online");
    let (p, a, b, c) = match first_list_match(&t, &there, &sep, &online) {
        Some(m) => m,
        None => {
            return None;
        },
    };
    proof {
        lemma_leftmost_list_unique(t@, p as int);
        lemma_digit_run_end_bounds(t@, count_start(p as int));
        lemma_digit_run_end_bounds(t@, max_start(t@, p as int));
    }
    let count = match parse_unsigned_in(&t, p + there.len(), a, 0xffff_ffff) {
        Some(n) => n as u32,
        None => {
            return None;
        },
    };
    let max = match parse_unsigned_in(&t, b, c, 0xffff_ffff) {
        Some(n) => n as u32,
        None => {
            return None;
        },
    };
    let y = c + online.len();
    let z = if y < t.len() && t[y] == ':' {
        y + 1
    } else {
        y
    };
    let w = blank_run(&t, z);
    proof {
        lemma_blank_run_end_bounds(t@, z as int);
    }
    let e = line_end_exec(&t, w);
    proof {
        lemma_line_end_bounds(t@, w as int);
    }
    let names = listed_names_in(&t, response, lo, w, e);
    Some((count, max, names))
}

proof fn lemma_split_commas_parts(s: Seq<char>)
    ensures
        forall|i: int| 0 <= i < split_commas(s).len() ==> !(#[trigger] split_commas(s)[i]).contains(','),
    decreases s.len(),
{
    if s.len() > 0 {
        let rest = split_commas(s.drop_last());
        lemma_split_commas_parts(s.drop_last());
        lemma_split_commas_nonempty(s.drop_last());
        if s.last() != ',' {
            let last = rest.last().push(s.last());
            assert(!rest[rest.len() - 1].contains(','));
            assert forall|k: int| 0 <= k < last.len() implies last[k] != ',' by {
                if k < last.len() - 1 {
                    assert(last[k] == rest.last()[k]);
                }
            }
        }
    }
}

/// Every listed player name is non-empty and holds no comma.
pub proof fn law_listed_names_have_no_commas(g: Seq<char>)
    ensures
        forall|n: Seq<char>| #[trigger] listed_names(g).contains(n) ==> n.len() > 0 && !n.contains(','),
{
    let parts = split_commas(trim(g));
    lemma_split_commas_parts(trim(g));
    assert forall|n: Seq<char>| #[trigger] listed_names(g).contains(n) implies n.len() > 0 && !n.contains(',') by {
        let i = choose|i: int| 0 <= i < parts.len() && trim(#[trigger] parts[i]) == n;
        lemma_trim_chars(parts[i]);
        if n.contains(',') {
            let k = choose|k: int| 0 <= k < n.len() && n[k] == ',';
            assert(parts[i].contains(n[k]));
        }
    }
}

/// What the RCON loop does after one `list` poll.
#[derive(Debug)]
pub enum RconAction {
    /// Resynchronise the presence with `players` and the capacity `max`.
    Resync { players: PlayerSet, max: u32 },
    /// The server has not answered for the offline threshold: mark it offline.
    MarkOffline,
    /// Wait for the next poll.
    Wait,
}

/// The decision after a poll that gave `answer` (none on a failure), `elapsed` nanoseconds
/// after the last successful poll, with an offline threshold of `threshold` nanoseconds.
pub fn after_poll(answer: Option<(u32, u32, PlayerSet)>, elapsed: u128, threshold: u128) -> (r: RconAction)
    ensures
        match answer {
            Some((count, max, players)) => r matches RconAction::Resync { players: p, max: m } && p@ == players@ && m
                == max,
            None => if elapsed >= threshold {
                r is MarkOffline
            } else {
                r is Wait
            },
        },
{
    match answer {
        Some((_count, max, players)) => RconAction::Resync { players, max },
        None => if elapsed >= threshold {
            RconAction::MarkOffline
        } else {
            RconAction::Wait
        },
    }
}

} // verus!
