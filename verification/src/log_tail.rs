//! Following `latest.log`: the lines of what was read, and when to reopen the file.

use vstd::prelude::*;

use crate::parser::PlayerEvent;

verus! {

/// What the log source reports.
#[derive(Debug)]
pub enum ContainerEvent {
    Player(PlayerEvent),
    StreamEnded,
}

/// The position of the first newline of `b` at or after `i`, or the end of `b`.
pub open spec fn newline_from(b: Seq<u8>, i: int) -> int
    decreases b.len() - i,
{
    if 0 <= i < b.len() && b[i] != 10u8 {
        newline_from(b, i + 1)
    } else {
        i
    }
}

/// `b` without its trailing `\n` and `\r` bytes.
pub open spec fn strip_line_end(b: Seq<u8>) -> Seq<u8>
    decreases b.len(),
{
    if b.len() > 0 && (b.last() == 10u8 || b.last() == 13u8) {
        strip_line_end(b.drop_last())
    } else {
        b
    }
}

/// The complete lines of `b` from `i`, each without its line end.
pub open spec fn lines_from(b: Seq<u8>, i: int) -> Seq<Seq<u8>>
    decreases b.len() - i,
{
    if 0 <= i && newline_from(b, i) < b.len() {
        let j = newline_from(b, i);
        proof {
            if i <= b.len() {
                lemma_newline_from_bounds(b, i);
            }
        }
        seq![strip_line_end(b.subrange(i, j + 1))] + lines_from(b, j + 1)
    } else {
        Seq::empty()
    }
}

/// Where the unfinished last line of `b` starts, looking from `i`.
pub open spec fn rest_from(b: Seq<u8>, i: int) -> int
    decreases b.len() - i,
{
    if 0 <= i && newline_from(b, i) < b.len() {
        proof {
            if i <= b.len() {
                lemma_newline_from_bounds(b, i);
            }
        }
        rest_from(b, newline_from(b, i) + 1)
    } else {
        i
    }
}

pub proof fn lemma_newline_from_bounds(b: Seq<u8>, i: int)
    requires
        0 <= i <= b.len(),
    ensures
        i <= newline_from(b, i) <= b.len(),
        newline_from(b, i) < b.len() ==> b[newline_from(b, i)] == 10u8,
    decreases b.len() - i,
{
    if i < b.len() && b[i] != 10u8 {
        lemma_newline_from_bounds(b, i + 1);
    }
}

fn strip_line_end_exec(b: &Vec<u8>, lo: usize, hi: usize) -> (r: Vec<u8>)
    requires
        lo <= hi <= b@.len(),
    ensures
        r@ == strip_line_end(b@.subrange(lo as int, hi as int)),
{
    let mut end = hi;
    while end > lo && (b[end - 1] == 10u8 || b[end - 1] == 13u8)
        invariant
            lo <= end <= hi <= b@.len(),
            strip_line_end(b@.subrange(lo as int, hi as int)) == strip_line_end(b@.subrange(lo as int, end as int)),
        decreases end - lo,
    {
        assert(b@.subrange(lo as int, end as int).drop_last() =~= b@.subrange(lo as int, end - 1));
        end = end - 1;
    }
    let mut r: Vec<u8> = Vec::new();
    let mut k = lo;
    while k < end
        invariant
            lo <= k <= end <= b@.len(),
            r@ == b@.subrange(lo as int, k as int),
        decreases end - k,
    {
        r.push(b[k]);
        assert(r@ =~= b@.subrange(lo as int, k + 1));
        k = k + 1;
    }
    r
}

/// Takes the complete lines out of `buf`, each without its `\n`/`\r` ending; what
/// follows the last newline stays in `buf` for the next read.
pub fn take_lines(buf: &mut Vec<u8>) -> (lines: Vec<Vec<u8>>)
    ensures
        lines@.map_values(|l: Vec<u8>| l@) == lines_from(old(buf)@, 0),
        final(buf)@ == old(buf)@.skip(rest_from(old(buf)@, 0)),
{
    let ghost b = buf@;
    let mut lines: Vec<Vec<u8>> = Vec::new();
    let mut i: usize = 0;
    let n = buf.len();
    loop
        invariant
            b == buf@,
            n == b.len(),
            i <= n,
            lines_from(b, 0) == lines@.map_values(|l: Vec<u8>| l@) + lines_from(b, i as int),
            rest_from(b, 0) == rest_from(b, i as int),
        ensures
            b == buf@,
            n == b.len(),
            i <= n,
            lines_from(b, 0) == lines@.map_values(|l: Vec<u8>| l@) + lines_from(b, i as int),
            rest_from(b, 0) == rest_from(b, i as int),
            newline_from(b, i as int) == n,
        decreases n - i,
    {
        let mut j = i;
        while j < n && buf[j] != 10u8
            invariant
                i <= j <= n,
                n == buf@.len(),
                newline_from(buf@, i as int) == newline_from(buf@, j as int),
            decreases n - j,
        {
            j = j + 1;
        }
        proof {
            lemma_newline_from_bounds(b, i as int);
        }
        if j == n {
            break;
        }
        let line = strip_line_end_exec(buf, i, j + 1);
        let ghost before = lines@.map_values(|l: Vec<u8>| l@);
        lines.push(line);
        assert(lines@.map_values(|l: Vec<u8>| l@) =~= before.push(line@));
        assert(lines_from(b, i as int) == seq![line@] + lines_from(b, j + 1));
        assert(before + lines_from(b, i as int) =~= before.push(line@) + lines_from(b, j + 1));
        i = j + 1;
    }
    assert(lines_from(b, i as int) =~= Seq::<Seq<u8>>::empty());
    assert(lines@.map_values(|l: Vec<u8>| l@) + Seq::<Seq<u8>>::empty() =~= lines@.map_values(|l: Vec<u8>| l@));
    let mut rest: Vec<u8> = Vec::new();
    let mut k = i;
    while k < n
        invariant
            i <= k <= n,
            n == buf@.len(),
            rest@ == buf@.subrange(i as int, k as int),
        decreases n - k,
    {
        rest.push(buf[k]);
        assert(rest@ =~= buf@.subrange(i as int, k + 1));
        k = k + 1;
    }
    *buf = rest;
    proof {
        assert(b.skip(i as int) =~= b.subrange(i as int, n as int));
    }
    lines
}

/// The read position and identity of the file being followed.
#[derive(Debug)]
pub struct TailMark {
    pub inode: u64,
    pub pos: u64,
}

/// The identity and size of `latest.log` now.
#[derive(Debug)]
pub struct FileStamp {
    pub inode: u64,
    pub size: u64,
}

/// What to do with the followed file before reading on.
#[derive(PartialEq, Eq, Structural, Debug, Clone, Copy)]
pub enum TailStep {
    /// Keep reading the open file (or keep waiting for one).
    Keep,
    /// Open `latest.log` again and read it from its start.
    OpenAtStart,
}

pub open spec fn tail_step_spec(tail: Option<TailMark>, current: Option<FileStamp>) -> TailStep {
    match (tail, current) {
        (None, Some(_)) => TailStep::OpenAtStart,
        (Some(t), Some(m)) => if m.inode != t.inode || m.size < t.pos {
            TailStep::OpenAtStart
        } else {
            TailStep::Keep
        },
        _ => TailStep::Keep,
    }
}

/// The file appeared (open it), was rotated (new inode) or truncated (smaller than the
/// read position): read from the start. Otherwise keep the open file; when the path is
/// gone the open descriptor stays until a new file appears.
pub fn tail_step(tail: &Option<TailMark>, current: &Option<FileStamp>) -> (r: TailStep)
    ensures
        r == tail_step_spec(*tail, *current),
{
    match (tail, current) {
        (None, Some(_)) => TailStep::OpenAtStart,
        (Some(t), Some(m)) => if m.inode != t.inode || m.size < t.pos {
            TailStep::OpenAtStart
        } else {
            TailStep::Keep
        },
        _ => TailStep::Keep,
    }
}

/// A file that kept its inode and did not shrink below the read position is read on
/// (appended lines are not read twice); a new inode or a smaller size makes the follower
/// read the file from its start; a file that appears is read from its start; with no file
/// there, nothing is reopened.
pub proof fn law_tail_reopens_only_on_rotation_or_truncation(tail: Option<TailMark>, current: Option<FileStamp>)
    ensures
        (tail matches Some(t) && current matches Some(m) && m.inode == t.inode && m.size >= t.pos)
            ==> tail_step_spec(tail, current) == TailStep::Keep,
        (tail matches Some(t) && current matches Some(m) && m.inode != t.inode)
            ==> tail_step_spec(tail, current) == TailStep::OpenAtStart,
        (tail matches Some(t) && current matches Some(m) && m.size < t.pos)
            ==> tail_step_spec(tail, current) == TailStep::OpenAtStart,
        (tail is None && current is Some) ==> tail_step_spec(tail, current) == TailStep::OpenAtStart,
        current is None ==> tail_step_spec(tail, current) == TailStep::Keep,
{
}
} // verus!
