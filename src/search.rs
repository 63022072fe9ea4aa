use vstd::prelude::*;

use std::ops::Range;

verus! {

/// The largest column or row that a position can hold.
pub const POS_MAX: u16 = 65535;

/// Whether `pat` occurs in `line` starting at column `col`.
pub open spec fn pattern_at(line: Seq<char>, pat: Seq<char>, col: int) -> bool {
    0 <= col && col + pat.len() <= line.len() && line.subrange(col, col + pat.len()) == pat
}

/// How far the scan moves past a match: the pattern's length, or one for an
/// empty pattern.
pub open spec fn step_of(pat: Seq<char>) -> int {
    if pat.len() == 0 {
        1
    } else {
        pat.len() as int
    }
}

/// The columns where `pat` occurs in `line` from column `from` on, scanning left
/// to right without overlap; a match must end within the largest column.
pub open spec fn line_matches(line: Seq<char>, pat: Seq<char>, from: int) -> Seq<int>
    decreases line.len() + 1 - from,
{
    if from < 0 || from + pat.len() > line.len() || from + pat.len() > POS_MAX {
        Seq::empty()
    } else if pattern_at(line, pat, from) {
        seq![from] + line_matches(line, pat, from + step_of(pat))
    } else {
        line_matches(line, pat, from + 1)
    }
}

/// The matches of `pat` in the first `rows` lines, as (column, row), row by row.
pub open spec fn rows_matches(lines: Seq<Seq<char>>, pat: Seq<char>, rows: int) -> Seq<(int, int)>
    decreases rows,
{
    if rows <= 0 {
        Seq::empty()
    } else {
        rows_matches(lines, pat, rows - 1) + line_matches(lines[rows - 1], pat, 0).map_values(
            |c: int| (c, rows - 1),
        )
    }
}

/// The rows a position can name.
pub open spec fn searched_rows(lines: Seq<Seq<char>>) -> int {
    if lines.len() > POS_MAX + 1 {
        POS_MAX + 1
    } else {
        lines.len() as int
    }
}

/// Every match of `pat` in the document, top to bottom and left to right.
pub open spec fn all_matches(lines: Seq<Seq<char>>, pat: Seq<char>) -> Seq<(int, int)> {
    rows_matches(lines, pat, searched_rows(lines))
}

proof fn lemma_line_matches_sound(line: Seq<char>, pat: Seq<char>, from: int)
    ensures
        forall|k: int|
            0 <= k < line_matches(line, pat, from).len() ==> pattern_at(
                line,
                pat,
                #[trigger] line_matches(line, pat, from)[k],
            ) && line_matches(line, pat, from)[k] + pat.len() <= POS_MAX,
    decreases line.len() + 1 - from,
{
    if from < 0 || from + pat.len() > line.len() || from + pat.len() > POS_MAX {
    } else if pattern_at(line, pat, from) {
        lemma_line_matches_sound(line, pat, from + step_of(pat));
        let rest = line_matches(line, pat, from + step_of(pat));
        assert(line_matches(line, pat, from) == seq![from] + rest);
        assert forall|k: int| 0 <= k < line_matches(line, pat, from).len() implies pattern_at(
            line,
            pat,
            #[trigger] line_matches(line, pat, from)[k],
        ) && line_matches(line, pat, from)[k] + pat.len() <= POS_MAX by {
            if k > 0 {
                assert(line_matches(line, pat, from)[k] == rest[k - 1]);
            }
        }
    } else {
        lemma_line_matches_sound(line, pat, from + 1);
        assert(line_matches(line, pat, from) == line_matches(line, pat, from + 1));
    }
}

proof fn lemma_rows_matches_sound(lines: Seq<Seq<char>>, pat: Seq<char>, rows: int)
    requires
        rows <= lines.len(),
    ensures
        forall|k: int|
            0 <= k < rows_matches(lines, pat, rows).len() ==> {
                let p = #[trigger] rows_matches(lines, pat, rows)[k];
                0 <= p.1 < rows && pattern_at(lines[p.1], pat, p.0) && p.0 + pat.len() <= POS_MAX
            },
    decreases rows,
{
    if rows > 0 {
        lemma_rows_matches_sound(lines, pat, rows - 1);
        lemma_line_matches_sound(lines[rows - 1], pat, 0);
        let front = rows_matches(lines, pat, rows - 1);
        let lm = line_matches(lines[rows - 1], pat, 0);
        assert forall|k: int| 0 <= k < rows_matches(lines, pat, rows).len() implies {
            let p = #[trigger] rows_matches(lines, pat, rows)[k];
            0 <= p.1 < rows && pattern_at(lines[p.1], pat, p.0) && p.0 + pat.len() <= POS_MAX
        } by {
            if k >= front.len() {
                assert(lm[k - front.len()] == lm[k - front.len()]);
            }
        }
    }
}

/// Positions as integers.
pub open spec fn positions(v: Seq<(u16, u16)>) -> Seq<(int, int)> {
    v.map_values(|p: (u16, u16)| (p.0 as int, p.1 as int))
}

/// Whether `p` (column, row) stands at or after `cursor` in row-major order.
pub open spec fn at_or_after(p: (int, int), cursor: (int, int)) -> bool {
    p.1 > cursor.1 || (p.1 == cursor.1 && p.0 >= cursor.0)
}

/// The position (column, row) of match `k`.
pub open spec fn match_pos(m: Seq<(Range<u16>, u16)>, k: int) -> (int, int) {
    (m[k].0.start as int, m[k].1 as int)
}

/// Whether `i` is the first match at or after `cursor`, or the first match when
/// none is.
pub open spec fn nearest_index(m: Seq<(Range<u16>, u16)>, cursor: (int, int), i: int) -> bool {
    &&& 0 <= i < m.len()
    &&& (at_or_after(match_pos(m, i), cursor) && forall|k: int|
        0 <= k < i ==> !at_or_after(#[trigger] match_pos(m, k), cursor)) || (i == 0 && forall|k: int|
        0 <= k < m.len() ==> !at_or_after(#[trigger] match_pos(m, k), cursor))
}

/// The match after match `i` of `n`, forward or back, wrapping around.
pub open spec fn step_index(i: int, n: int, forward: bool) -> int {
    if forward {
        if i + 1 >= n {
            0
        } else {
            i + 1
        }
    } else {
        if i == 0 {
            n - 1
        } else {
            i - 1
        }
    }
}

/// The selection after one jump through `n` matches.
pub open spec fn advance_index(selected: Option<usize>, n: int, forward: bool) -> int {
    match selected {
        None => if forward {
            0
        } else {
            n - 1
        },
        Some(i) => step_index(i as int, n, forward),
    }
}

/// The selection after `k` jumps from match `i`.
pub open spec fn advance_times(i: int, n: int, forward: bool, k: nat) -> int
    decreases k,
{
    if k == 0 {
        i
    } else {
        step_index(advance_times(i, n, forward, (k - 1) as nat), n, forward)
    }
}

/// Whether `pat` occurs in `line` at column `col`.
fn matches_at(line: &Vec<char>, pat: &Vec<char>, col: usize) -> (r: bool)
    requires
        col + pat@.len() <= line@.len(),
    ensures
        r == pattern_at(line@, pat@, col as int),
{
    let n = line.len();
    let mut j: usize = 0;
    while j < pat.len()
        invariant
            n == line@.len(),
            j <= pat@.len(),
            col + pat@.len() <= line@.len(),
            forall|k: int| 0 <= k < j ==> line@[col + k] == pat@[k],
        decreases pat@.len() - j,
    {
        if line[col + j] != pat[j] {
            assert(line@.subrange(col as int, col + pat@.len())[j as int] != pat@[j as int]);
            return false;
        }
        j = j + 1;
    }
    assert(line@.subrange(col as int, col + pat@.len()) =~= pat@);
    true
}

/// Appends the matches of `pat` in `line`, as (column, `row`).
fn push_line_matches(line: &Vec<char>, pat: &Vec<char>, row: u16, out: &mut Vec<(u16, u16)>)
    ensures
        positions(final(out)@) == positions(old(out)@) + line_matches(line@, pat@, 0).map_values(
            |c: int| (c, row as int),
        ),
{
    let plen = pat.len();
    let llen = line.len();
    let mut col: usize = 0;
    let ghost start = positions(out@);
    let ghost mut acc: Seq<int> = Seq::empty();
    while plen <= llen && col <= llen - plen && plen <= 65535 && col <= 65535 - plen
        invariant
            plen == pat@.len(),
            llen == line@.len(),
            acc + line_matches(line@, pat@, col as int) == line_matches(line@, pat@, 0),
            positions(out@) == start + acc.map_values(|c: int| (c, row as int)),
            col <= 65536,
        decreases llen + 1 - col,
    {
        let ghost before = positions(out@);
        if matches_at(line, pat, col) {
            out.push((col as u16, row));
            proof {
                assert(positions(out@) =~= before.push((col as int, row as int)));
                assert(acc.push(col as int).map_values(|c: int| (c, row as int)) =~= acc.map_values(
                    |c: int| (c, row as int),
                ).push((col as int, row as int)));
                let next = if plen == 0 { col + 1 } else { col + plen };
                assert(acc.push(col as int) + line_matches(line@, pat@, next as int) =~= acc + (seq![col as int] + line_matches(line@, pat@, next as int)));
                acc = acc.push(col as int);
            }
            if plen == 0 {
                col = col + 1;
            } else {
                col = col + plen;
            }
        } else {
            col = col + 1;
        }
    }
    proof {
        assert(acc =~= line_matches(line@, pat@, 0));
    }
}

/// Every match of `pat` in `lines`, as (column, row), top to bottom and left to
/// right; matches do not overlap.
pub fn find_matches(lines: &Vec<Vec<char>>, pat: &Vec<char>) -> (r: Vec<(u16, u16)>)
    ensures
        positions(r@) == all_matches(crate::buffer::view_lines(lines@), pat@),
        forall|i: int|
            0 <= i < r@.len() ==> (#[trigger] r@[i]).1 < lines@.len() && pattern_at(
                lines@[r@[i].1 as int]@,
                pat@,
                r@[i].0 as int,
            ) && r@[i].0 + pat@.len() <= POS_MAX,
{
    let ghost view = crate::buffer::view_lines(lines@);
    let n = if lines.len() > 65536 { 65536 } else { lines.len() };
    let mut r: Vec<(u16, u16)> = Vec::new();
    let mut row: usize = 0;
    while row < n
        invariant
            n == searched_rows(view),
            n <= lines@.len(),
            view == crate::buffer::view_lines(lines@),
            row <= n,
            positions(r@) == rows_matches(view, pat@, row as int),
        decreases n - row,
    {
        push_line_matches(&lines[row], pat, row as u16, &mut r);
        proof {
            assert(view[row as int] == lines@[row as int]@);
        }
        row = row + 1;
    }
    proof {
        lemma_rows_matches_sound(view, pat@, n as int);
        crate::buffer::lemma_view_lines(lines@);
        assert forall|i: int| 0 <= i < r@.len() implies (#[trigger] r@[i]).1 < lines@.len()
            && pattern_at(lines@[r@[i].1 as int]@, pat@, r@[i].0 as int) && r@[i].0 + pat@.len()
            <= POS_MAX by {
            assert(positions(r@)[i] == (r@[i].0 as int, r@[i].1 as int));
        }
    }
    r
}

/// The matches of the last search and the one selected among them.
#[derive(Debug)]
pub struct SearchIndicates {
    target_str: Vec<char>,
    indicates: Vec<(Range<u16>, u16)>,
    selected: Option<usize>,
}

impl SearchIndicates {
    /// The pattern searched for.
    pub closed spec fn target(&self) -> Seq<char> {
        self.target_str@
    }

    /// The matches, each a column range and a row.
    pub closed spec fn matches(&self) -> Seq<(Range<u16>, u16)> {
        self.indicates@
    }

    /// The index of the selected match.
    pub closed spec fn selection(&self) -> Option<usize> {
        self.selected
    }

    /// The selection, if any, is a match.
    pub open spec fn wf(&self) -> bool {
        self.selection() matches Some(i) ==> i < self.matches().len()
    }

    /// No search yet.
    pub fn new() -> (r: SearchIndicates)
        ensures
            r.target().len() == 0,
            r.matches().len() == 0,
            r.selection() is None,
            r.wf(),
    {
        SearchIndicates { target_str: Vec::new(), indicates: Vec::new(), selected: None }
    }

    /// Forgets the last search.
    pub fn clear(&mut self)
        ensures
            final(self).target().len() == 0,
            final(self).matches().len() == 0,
            final(self).selection() is None,
            final(self).wf(),
    {
        self.target_str.clear();
        self.selected = None;
        self.indicates.clear();
    }

    /// Whether anything of a search is held.
    pub fn has_history(&self) -> (r: bool)
        ensures
            r == !(self.target().len() == 0 && self.matches().len() == 0 && self.selection() is None),
    {
        !(self.target_str.len() == 0 && self.indicates.len() == 0 && self.selected.is_none())
    }

    pub fn selected(&self) -> (r: Option<usize>)
        ensures
            r == self.selection(),
    {
        self.selected
    }

    pub fn selected_mut(&mut self) -> (r: &mut Option<usize>)
        ensures
            *r == old(self).selection(),
            final(self).selection() == *final(r),
            final(self).matches() == old(self).matches(),
            final(self).target() == old(self).target(),
    {
        &mut self.selected
    }

    pub fn indicates(&self) -> (r: &Vec<(Range<u16>, u16)>)
        ensures
            r@ == self.matches(),
    {
        &self.indicates
    }

    /// Whether some match covers `cursor` (column, row).
    pub fn indicates_find(&self, cursor: (u16, u16)) -> (r: bool)
        ensures
            r == exists|i: int|
                0 <= i < self.matches().len() && #[trigger] self.matches()[i].1 == cursor.1
                    && self.matches()[i].0.start <= cursor.0 && cursor.0 < self.matches()[i].0.end,
    {
        let mut i: usize = 0;
        while i < self.indicates.len()
            invariant
                i <= self.indicates@.len(),
                forall|k: int|
                    0 <= k < i ==> !(#[trigger] self.indicates@[k].1 == cursor.1
                        && self.indicates@[k].0.start <= cursor.0 && cursor.0
                        < self.indicates@[k].0.end),
            decreases self.indicates@.len() - i,
        {
            let m = &self.indicates[i];
            if m.1 == cursor.1 && m.0.start <= cursor.0 && cursor.0 < m.0.end {
                assert(self.matches()[i as int] == self.indicates@[i as int]);
                return true;
            }
            i = i + 1;
        }
        false
    }

    /// The position (column, row) of the selected match.
    pub fn current_indicate(&self) -> (r: Option<(u16, u16)>)
        requires
            self.wf(),
        ensures
            r == (match self.selection() {
                None => None,
                Some(i) => Some((self.matches()[i as int].0.start, self.matches()[i as int].1)),
            }),
    {
        match self.selected {
            None => None,
            Some(i) => Some((self.indicates[i].0.start, self.indicates[i].1)),
        }
    }

    /// Replaces the search by the pattern `target` and its matches `found`,
    /// each a (column, row); nothing is selected.
    pub fn set(&mut self, target: Vec<char>, found: Vec<(u16, u16)>)
        requires
            forall|i: int| 0 <= i < found@.len() ==> #[trigger] found@[i].0 + target@.len() <= POS_MAX,
        ensures
            final(self).target() == target@,
            final(self).selection() is None,
            final(self).matches().len() == found@.len(),
            forall|i: int|
                0 <= i < found@.len() ==> (#[trigger] final(self).matches()[i]).0.start == found@[i].0
                    && final(self).matches()[i].0.end == found@[i].0 + target@.len()
                    && final(self).matches()[i].1 == found@[i].1,
            final(self).wf(),
    {
        let len: u16 = if target.len() <= 65535 {
            target.len() as u16
        } else {
            0
        };
        proof {
            if found@.len() > 0 {
                assert(found@[0].0 + target@.len() <= POS_MAX);
            }
        }
        let mut indicates: Vec<(Range<u16>, u16)> = Vec::new();
        let mut i: usize = 0;
        while i < found.len()
            invariant
                i <= found@.len(),
                len == target@.len() || found@.len() == 0,
                forall|k: int| 0 <= k < found@.len() ==> #[trigger] found@[k].0 + target@.len() <= POS_MAX,
                indicates@.len() == i,
                forall|k: int|
                    0 <= k < i ==> (#[trigger] indicates@[k]).0.start == found@[k].0
                        && indicates@[k].0.end == found@[k].0 + target@.len()
                        && indicates@[k].1 == found@[k].1,
            decreases found@.len() - i,
        {
            let (col, row) = found[i];
            indicates.push((Range { start: col, end: col + len }, row));
            i = i + 1;
        }
        self.target_str = target;
        self.indicates = indicates;
        self.selected = None;
    }

    /// Selects the first match at or after `cursor` (column, row) in row-major
    /// order, or the first match if none is; returns its position.
    pub fn nearest_next(&mut self, cursor: (u16, u16)) -> (r: Option<(u16, u16)>)
        ensures
            final(self).matches() == old(self).matches(),
            final(self).target() == old(self).target(),
            old(self).matches().len() == 0 ==> r is None && final(self).selection() == old(self).selection(),
            old(self).matches().len() > 0 ==> (final(self).selection() matches Some(i)
                && nearest_index(old(self).matches(), (cursor.0 as int, cursor.1 as int), i as int)
                && r == Some((old(self).matches()[i as int].0.start, old(self).matches()[i as int].1))),
    {
        if self.indicates.len() == 0 {
            return None;
        }
        let ghost m = self.indicates@;
        let ghost c = (cursor.0 as int, cursor.1 as int);
        let mut i: usize = 0;
        while i < self.indicates.len()
            invariant
                m == self.indicates@,
                c == (cursor.0 as int, cursor.1 as int),
                self.indicates@ == old(self).indicates@,
                self.target_str@ == old(self).target_str@,
                i <= m.len(),
                forall|k: int| 0 <= k < i ==> !at_or_after(#[trigger] match_pos(m, k), c),
            decreases m.len() - i,
        {
            let (start, row) = (self.indicates[i].0.start, self.indicates[i].1);
            assert(match_pos(m, i as int) == (start as int, row as int));
            if row > cursor.1 || (row == cursor.1 && start >= cursor.0) {
                assert(at_or_after(match_pos(m, i as int), c));
                self.selected = Some(i);
                return Some((start, row));
            }
            assert(!at_or_after(match_pos(m, i as int), c));
            i = i + 1;
        }
        self.selected = Some(0);
        Some((self.indicates[0].0.start, self.indicates[0].1))
    }

    /// Moves the selection one match forward or back, wrapping around at either
    /// end; from no selection, forward selects the first match and back the last.
    /// Returns the position of the match selected, or `None` when there are none.
    pub fn advance(&mut self, forward: bool) -> (r: Option<(u16, u16)>)
        requires
            old(self).wf(),
        ensures
            final(self).matches() == old(self).matches(),
            final(self).target() == old(self).target(),
            final(self).wf(),
            old(self).matches().len() == 0 ==> r is None && final(self).selection() == old(self).selection(),
            old(self).matches().len() > 0 ==> (final(self).selection() matches Some(i)
                && i == advance_index(old(self).selection(), old(self).matches().len() as int, forward)
                && r == Some((old(self).matches()[i as int].0.start, old(self).matches()[i as int].1))),
    {
        let n = self.indicates.len();
        if n == 0 {
            return None;
        }
        let next = match self.selected {
            None => if forward {
                0
            } else {
                n - 1
            },
            Some(i) => if forward {
                if i + 1 >= n {
                    0
                } else {
                    i + 1
                }
            } else {
                if i == 0 {
                    n - 1
                } else {
                    i - 1
                }
            },
        };
        self.selected = Some(next);
        Some((self.indicates[next].0.start, self.indicates[next].1))
    }
}

proof fn lemma_advance_compose(i: int, n: int, forward: bool, a: nat, b: nat)
    ensures
        advance_times(advance_times(i, n, forward, a), n, forward, b) == advance_times(i, n, forward, a + b),
    decreases b,
{
    if b > 0 {
        lemma_advance_compose(i, n, forward, a, (b - 1) as nat);
        assert((a + b - 1) as nat == a + (b - 1) as nat);
    }
}

proof fn lemma_advance_forward_run(i: int, n: int, k: nat)
    requires
        0 <= i,
        i + k < n,
    ensures
        advance_times(i, n, true, k) == i + k,
    decreases k,
{
    if k > 0 {
        lemma_advance_forward_run(i, n, (k - 1) as nat);
    }
}

proof fn lemma_advance_backward_run(i: int, n: int, k: nat)
    requires
        0 <= i - k,
        i < n,
    ensures
        advance_times(i, n, false, k) == i - k,
    decreases k,
{
    if k > 0 {
        lemma_advance_backward_run(i, n, (k - 1) as nat);
    }
}

/// Jumping through `n` matches `n` times in one direction comes back to the
/// match it started from; from no selection the first jump forward selects the
/// first match, and the first jump back the last.
pub proof fn lemma_advance_cycles(i: int, n: int, forward: bool)
    requires
        0 <= i < n,
    ensures
        advance_times(i, n, forward, n as nat) == i,
        advance_index(None, n, true) == 0,
        advance_index(None, n, false) == n - 1,
{
    if forward {
        let a = (n - 1 - i) as nat;
        lemma_advance_forward_run(i, n, a);
        assert(advance_times(i, n, true, a + 1) == 0);
        lemma_advance_forward_run(0, n, i as nat);
        lemma_advance_compose(i, n, true, a + 1, i as nat);
        assert(a + 1 + i == n);
    } else {
        lemma_advance_backward_run(i, n, i as nat);
        assert(advance_times(i, n, false, (i + 1) as nat) == n - 1);
        let b = (n - 1 - i) as nat;
        lemma_advance_backward_run(n - 1, n, b);
        lemma_advance_compose(i, n, false, (i + 1) as nat, b);
        assert(i + 1 + b == n);
    }
}

} // verus!
