use vstd::prelude::*;

use crate::error::{AppError, ErrorType};

verus! {

/// The text of a document cut into lines: every line but the last ends with its
/// `'\n'`, and holds no other.
pub open spec fn split_lines(text: Seq<char>) -> Seq<Seq<char>>
    decreases text.len(),
{
    if text.len() == 0 {
        Seq::empty()
    } else {
        let rest = split_lines(text.drop_last());
        let c = text.last();
        if rest.len() == 0 || rest.last().last() == '\n' {
            rest.push(seq![c])
        } else {
            rest.update(rest.len() - 1, rest.last().push(c))
        }
    }
}

/// The lines written one after another.
pub open spec fn join_lines(lines: Seq<Seq<char>>) -> Seq<char>
    decreases lines.len(),
{
    if lines.len() == 0 {
        Seq::empty()
    } else {
        join_lines(lines.drop_last()) + lines.last()
    }
}

/// The rows `from..=to` of `lines` replaced by `new_lines`.
pub open spec fn splice_lines(
    lines: Seq<Seq<char>>,
    from: int,
    to: int,
    new_lines: Seq<Seq<char>>,
) -> Seq<Seq<char>> {
    lines.subrange(0, from) + new_lines + lines.subrange(to + 1, lines.len() as int)
}

/// What a vector of lines holds, line by line.
pub open spec fn view_lines(v: Seq<Vec<char>>) -> Seq<Seq<char>> {
    v.map_values(|l: Vec<char>| l@)
}

/// A vector of lines holds as many lines, each as its vector holds.
pub proof fn lemma_view_lines(v: Seq<Vec<char>>)
    ensures
        view_lines(v).len() == v.len(),
        forall|i: int| 0 <= i < v.len() ==> #[trigger] view_lines(v)[i] == v[i]@,
{
}

/// Whether the rows `from..=to` lie inside a buffer of `len` rows.
pub open spec fn valid_range(len: int, from: int, to: int) -> bool {
    len > 0 && from <= to && to < len
}

/// The document as an ordered sequence of lines, and whether it changed since
/// it was last written.
#[derive(Debug)]
pub struct FileState {
    content: Vec<Vec<char>>,
    file_modified: bool,
}

impl View for FileState {
    type V = Seq<Seq<char>>;

    closed spec fn view(&self) -> Seq<Seq<char>> {
        view_lines(self.content@)
    }
}

/// A copy of one line.
pub fn copy_line(line: &Vec<char>) -> (r: Vec<char>)
    ensures
        r@ == line@,
{
    let mut r: Vec<char> = Vec::new();
    let mut i: usize = 0;
    while i < line.len()
        invariant
            i <= line@.len(),
            r@ == line@.subrange(0, i as int),
        decreases line@.len() - i,
    {
        r.push(line[i]);
        i = i + 1;
    }
    assert(r@ =~= line@);
    r
}

proof fn lemma_split_step(done: Seq<Seq<char>>, cur: Seq<char>, p: Seq<char>, c: char)
    requires
        p.len() > 0 ==> split_lines(p) == (if cur.len() > 0 { done.push(cur) } else { done }),
        p.len() == 0 ==> done.len() == 0 && cur.len() == 0,
        forall|k: int| 0 <= k < done.len() ==> #[trigger] done[k].len() > 0 && done[k].last() == '\n',
        cur.len() > 0 ==> cur.last() != '\n',
    ensures
        split_lines(p.push(c)) == done.push(cur.push(c)),
{
    let t = p.push(c);
    assert(t.drop_last() =~= p);
    assert(t.last() == c);
    if p.len() == 0 {
        assert(split_lines(p) == Seq::<Seq<char>>::empty());
        assert(seq![c] =~= cur.push(c));
    } else if cur.len() > 0 {
        let rest = done.push(cur);
        assert(rest.last() == cur);
        assert(rest.update(rest.len() - 1, rest.last().push(c)) =~= done.push(cur.push(c)));
    } else {
        assert(seq![c] =~= cur.push(c));
        if done.len() > 0 {
            assert(done.last() == done[done.len() - 1]);
        }
    }
}

proof fn lemma_join_push(lines: Seq<Seq<char>>, line: Seq<char>)
    ensures
        join_lines(lines.push(line)) == join_lines(lines) + line,
{
    assert(lines.push(line).drop_last() =~= lines);
}

proof fn lemma_join_split(text: Seq<char>)
    ensures
        join_lines(split_lines(text)) == text,
    decreases text.len(),
{
    if text.len() > 0 {
        let p = text.drop_last();
        let c = text.last();
        lemma_join_split(p);
        let rest = split_lines(p);
        if rest.len() == 0 || rest.last().last() == '\n' {
            lemma_join_push(rest, seq![c]);
        } else {
            let last = rest.last();
            let front = rest.drop_last();
            assert(rest =~= front.push(last));
            lemma_join_push(front, last);
            let upd = rest.update(rest.len() - 1, last.push(c));
            assert(upd =~= front.push(last.push(c)));
            lemma_join_push(front, last.push(c));
            assert(join_lines(front) + last.push(c) =~= (join_lines(front) + last).push(c));
        }
        assert(p.push(c) =~= text);
    }
}

/// Deleting the rows `from..=to` leaves the rows before `from` in place and
/// moves the rows after `to` up by the number of rows deleted.
pub proof fn lemma_delete_range(lines: Seq<Seq<char>>, from: int, to: int)
    requires
        0 <= from <= to < lines.len(),
    ensures
        splice_lines(lines, from, to, Seq::empty()).len() == lines.len() - (to - from + 1),
        forall|i: int|
            0 <= i < from ==> #[trigger] splice_lines(lines, from, to, Seq::empty())[i] == lines[i],
        forall|i: int|
            to < i < lines.len() ==> splice_lines(lines, from, to, Seq::empty())[i - (to - from
                + 1)] == #[trigger] lines[i],
{
}

/// Replacing the rows `from..=to` by as many lines, then reading those rows,
/// gives the lines written.
pub proof fn lemma_replace_then_get(
    lines: Seq<Seq<char>>,
    from: int,
    to: int,
    new_lines: Seq<Seq<char>>,
)
    requires
        0 <= from <= to < lines.len(),
        new_lines.len() == to - from + 1,
    ensures
        splice_lines(lines, from, to, new_lines).len() == lines.len(),
        splice_lines(lines, from, to, new_lines).subrange(from, to + 1) == new_lines,
{
    assert(splice_lines(lines, from, to, new_lines).subrange(from, to + 1) =~= new_lines);
}

impl FileState {
    pub closed spec fn modified(&self) -> bool {
        self.file_modified
    }

    /// An empty document that has not been changed.
    pub fn new() -> (r: FileState)
        ensures
            r@ == Seq::<Seq<char>>::empty(),
            !r.modified(),
    {
        FileState { content: Vec::new(), file_modified: false }
    }

    /// Replaces the document by `text` cut into lines, each keeping its `'\n'`.
    pub fn init(&mut self, text: &Vec<char>)
        ensures
            final(self)@ == split_lines(text@),
            !final(self).modified(),
    {
        let mut done: Vec<Vec<char>> = Vec::new();
        let mut cur: Vec<char> = Vec::new();
        let mut i: usize = 0;
        while i < text.len()
            invariant
                i <= text@.len(),
                i > 0 ==> split_lines(text@.subrange(0, i as int)) == (if cur@.len() > 0 {
                    view_lines(done@).push(cur@)
                } else {
                    view_lines(done@)
                }),
                i == 0 ==> done@.len() == 0 && cur@.len() == 0,
                forall|k: int|
                    0 <= k < done@.len() ==> #[trigger] done@[k]@.len() > 0 && done@[k]@.last()
                        == '\n',
                cur@.len() > 0 ==> cur@.last() != '\n',
            decreases text@.len() - i,
        {
            let c = text[i];
            proof {
                let p = text@.subrange(0, i as int);
                assert forall|k: int| 0 <= k < view_lines(done@).len() implies #[trigger] view_lines(done@)[k].len() > 0
                    && view_lines(done@)[k].last() == '\n' by {
                    assert(view_lines(done@)[k] == done@[k]@);
                }
                lemma_split_step(view_lines(done@), cur@, p, c);
                assert(text@.subrange(0, i + 1) =~= p.push(c));
            }
            let ghost old_done = view_lines(done@);
            cur.push(c);
            if c == '\n' {
                let line = cur;
                cur = Vec::new();
                done.push(line);
                proof {
                    assert(view_lines(done@) =~= old_done.push(line@));
                }
            }
            i = i + 1;
        }
        if cur.len() > 0 {
            done.push(cur);
        }
        proof {
            if text@.len() > 0 {
                assert(text@.subrange(0, text@.len() as int) =~= text@);
            } else {
                assert(view_lines(done@) =~= Seq::<Seq<char>>::empty());
            }
        }
        self.content = done;
        self.file_modified = false;
    }

    /// Marks the document as changed.
    pub fn file_modify(&mut self)
        ensures
            final(self)@ == old(self)@,
            final(self).modified(),
    {
        self.file_modified = true;
    }

    /// Whether the document changed since it was last written.
    pub fn not_save(&self) -> (r: bool)
        ensures
            r == self.modified(),
    {
        self.file_modified
    }

    pub fn content_ref(&self) -> (r: &Vec<Vec<char>>)
        ensures
            view_lines(r@) == self@,
    {
        &self.content
    }

    /// The number of lines.
    pub fn len(&self) -> (r: usize)
        ensures
            r == self@.len(),
    {
        self.content.len()
    }

    /// The number of characters of row `row`, its `'\n'` included.
    pub fn line_len(&self, row: usize) -> (r: usize)
        requires
            row < self@.len(),
        ensures
            r == self@[row as int].len(),
    {
        self.content[row].len()
    }

    /// A copy of row `row`.
    pub fn line_copy(&self, row: usize) -> (r: Vec<char>)
        requires
            row < self@.len(),
        ensures
            r@ == self@[row as int],
    {
        copy_line(&self.content[row])
    }

    /// A copy of the rows `from..=to`.
    pub fn get_lines(&self, from: u16, to: u16) -> (r: Result<Vec<Vec<char>>, AppError>)
        ensures
            r is Ok <==> valid_range(self@.len() as int, from as int, to as int),
            r matches Ok(v) ==> view_lines(v@) == self@.subrange(from as int, to + 1),
            r matches Err(e) ==> e@ == seq![ErrorType::Range],
    {
        let (from, to) = (from as usize, to as usize);
        if self.content.len() == 0 || from > to || to >= self.content.len() {
            return Err(ErrorType::Range.pack());
        }
        let mut r: Vec<Vec<char>> = Vec::new();
        let n = self.content.len();
        let mut i: usize = from;
        while i <= to
            invariant
                from <= i <= to + 1,
                to < n,
                n == self.content@.len(),
                view_lines(r@) == self@.subrange(from as int, i as int),
            decreases to + 1 - i,
        {
            let line = copy_line(&self.content[i]);
            let ghost before = view_lines(r@);
            r.push(line);
            proof {
                assert(view_lines(r@) =~= before.push(line@));
                assert(self@.subrange(from as int, i + 1) =~= self@.subrange(from as int, i as int).push(self@[i as int]));
            }
            i = i + 1;
        }
        Ok(r)
    }

    /// Replaces the rows `from..=to` by `lines`: with no lines the rows are
    /// deleted; surplus lines are inserted after `to`; rows left over are removed.
    pub fn modify_lines(&mut self, from: u16, to: u16, lines: Vec<Vec<char>>) -> (r: Result<(), AppError>)
        ensures
            r is Ok <==> valid_range(old(self)@.len() as int, from as int, to as int),
            r is Ok ==> final(self)@ == splice_lines(old(self)@, from as int, to as int, view_lines(lines@)),
            r is Ok ==> final(self).modified(),
            r matches Err(e) ==> e@ == seq![ErrorType::Range] && final(self)@ == old(self)@
                && final(self).modified() == old(self).modified(),
    {
        let (from, to) = (from as usize, to as usize);
        if self.content.len() == 0 || from > to || to >= self.content.len() {
            return Err(ErrorType::Range.pack());
        }
        let ghost old_lines = self@;
        let mut tail = self.content.split_off(to + 1);
        let mut middle = self.content.split_off(from);
        let mut new_lines = lines;
        let ghost tail_v = view_lines(tail@);
        let ghost new_v = view_lines(new_lines@);
        proof {
            assert(tail_v =~= old_lines.subrange(to + 1, old_lines.len() as int));
            assert(view_lines(self.content@) =~= old_lines.subrange(0, from as int));
        }
        self.content.append(&mut new_lines);
        self.content.append(&mut tail);
        proof {
            assert(view_lines(self.content@) =~= old_lines.subrange(0, from as int) + new_v + tail_v);
        }
        self.file_modified = true;
        Ok(())
    }

    /// Inserts `line` as row `at`, moving the rows from `at` on down by one.
    pub fn insert_line(&mut self, at: usize, line: Vec<char>)
        requires
            at <= old(self)@.len(),
        ensures
            final(self)@ == old(self)@.insert(at as int, line@),
            final(self).modified(),
    {
        let ghost before = self@;
        self.content.insert(at, line);
        proof {
            assert(view_lines(self.content@) =~= before.insert(at as int, line@));
        }
        self.file_modified = true;
    }

    /// The text to write back: every line, in order.
    pub fn save_content(&self) -> (r: Vec<char>)
        ensures
            r@ == join_lines(self@),
    {
        let mut r: Vec<char> = Vec::new();
        let mut i: usize = 0;
        while i < self.content.len()
            invariant
                i <= self@.len(),
                r@ == join_lines(self@.subrange(0, i as int)),
            decreases self@.len() - i,
        {
            let line = &self.content[i];
            let ghost start = r@;
            let mut j: usize = 0;
            while j < line.len()
                invariant
                    j <= line@.len(),
                    r@ == start + line@.subrange(0, j as int),
                decreases line@.len() - j,
            {
                r.push(line[j]);
                proof {
                    assert(start + line@.subrange(0, j + 1) =~= (start + line@.subrange(0, j as int)).push(line@[j as int]));
                }
                j = j + 1;
            }
            proof {
                assert(line@.subrange(0, j as int) =~= line@);
                assert(self@[i as int] == line@);
                assert(self@.subrange(0, i + 1) =~= self@.subrange(0, i as int).push(self@[i as int]));
                lemma_join_push(self@.subrange(0, i as int), self@[i as int]);
            }
            i = i + 1;
        }
        proof {
            assert(self@.subrange(0, i as int) =~= self@);
        }
        r
    }

    /// Records that the document was written.
    pub fn mark_saved(&mut self)
        ensures
            final(self)@ == old(self)@,
            !final(self).modified(),
    {
        self.file_modified = false;
    }
}

/// Writing a document back right after reading it gives the text read.
pub proof fn lemma_save_after_load(text: Seq<char>)
    ensures
        join_lines(split_lines(text)) == text,
{
    lemma_join_split(text);
}

} // verus!
