//! The lines that the overlay's console shows: the last ones, and whether any
//! is new.

use std::collections::VecDeque;

use vstd::prelude::*;

use crate::text;
use crate::text::join_from;

verus! {

/// How many lines are kept.
pub const MAX_LINES: usize = 64;

pub struct Console {
    lines: VecDeque<String>,
    dirty: bool,
}

/// The last `n` entries.
pub open spec fn tail(s: Seq<Seq<char>>, n: nat) -> Seq<Seq<char>> {
    if s.len() <= n {
        s
    } else {
        s.skip(s.len() - n)
    }
}

impl Console {
    /// The lines, oldest first.
    pub closed spec fn lines(&self) -> Seq<Seq<char>> {
        text::texts(self.lines@)
    }

    /// A line has landed since the flag was last taken.
    pub closed spec fn dirty(&self) -> bool {
        self.dirty
    }

    /// No more lines than are kept.
    pub open spec fn wf(&self) -> bool {
        self.lines().len() <= MAX_LINES
    }

    /// No lines yet; the flag is set, so that the first reader looks.
    pub fn new() -> (c: Self)
        ensures
            c.wf(),
            c.lines() == Seq::<Seq<char>>::empty(),
            c.dirty(),
    {
        let c = Console { lines: VecDeque::new(), dirty: true };
        assert(text::texts(c.lines@) =~= Seq::empty());
        c
    }
}

/// True once since the last call, and cleared by it.
pub fn take_dirty(c: &mut Console) -> (r: bool)
    ensures
        r == old(c).dirty(),
        !final(c).dirty(),
        final(c).lines() == old(c).lines(),
{
    let r = c.dirty;
    c.dirty = false;
    r
}

/// Adds a line; beyond `MAX_LINES` the oldest goes.
pub fn push(c: &mut Console, line: String)
    requires
        old(c).wf(),
    ensures
        final(c).wf(),
        final(c).lines() == tail(old(c).lines().push(line@), MAX_LINES as nat),
        final(c).dirty(),
{
    let ghost before = c.lines();
    c.lines.push_back(line);
    assert(c.lines() =~= before.push(line@));
    if c.lines.len() > MAX_LINES {
        c.lines.pop_front();
        assert(c.lines() =~= before.push(line@).skip(1));
    }
    c.dirty = true;
}

/// The last `n` lines, one per row.
pub fn snapshot_tail(c: &Console, n: usize) -> (r: String)
    ensures
        r@ == text::join(tail(c.lines(), n as nat), "\n"@),
{
    let skip: usize = if c.lines.len() > n {
        c.lines.len() - n
    } else {
        0
    };
    let mut rows: Vec<String> = Vec::new();
    let mut i: usize = skip;
    while i < c.lines.len()
        invariant
            skip <= i <= c.lines@.len(),
            text::texts(rows@) == c.lines().subrange(skip as int, i as int),
        decreases c.lines@.len() - i,
    {
        let ghost before = rows@;
        rows.push(c.lines[i].clone());
        assert(text::texts(rows@) =~= text::texts(before).push(c.lines@[i as int]@));
        i = i + 1;
    }
    assert(text::texts(rows@).skip(0) =~= tail(c.lines(), n as nat));
    join_from(&rows, 0, "\n")
}

/// However many lines are pushed, the newest are the ones that are kept: the
/// last `n` of what is kept are the last `n` of everything, for every `n` up to
/// `MAX_LINES`.
pub proof fn law_newest_kept(s: Seq<Seq<char>>, line: Seq<char>, n: nat)
    requires
        n <= MAX_LINES,
    ensures
        tail(tail(s, MAX_LINES as nat).push(line), n) == tail(s.push(line), n),
{
    assert(tail(tail(s, MAX_LINES as nat).push(line), n) =~= tail(s.push(line), n));
}

} // verus!
