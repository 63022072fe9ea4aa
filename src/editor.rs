use vstd::prelude::*;

use crate::modal::Modal;
use crate::utils::{cursor_compare_swap, pos_le, pos_max, pos_min};

verus! {

/// The number of decimal digits of `n`.
pub open spec fn digits(n: nat) -> nat
    decreases n,
{
    if n < 10 {
        1
    } else {
        1 + digits(n / 10)
    }
}

/// The width taken left of the text: the line numbers, at least four digits
/// wide, and two more columns.
pub open spec fn gutter_width(linenr: nat) -> nat {
    (if digits(linenr) <= 4 {
        4
    } else {
        digits(linenr)
    }) + 2
}

/// The cursor, the mark, the scroll offsets and the size of the text window.
/// The cursor is an absolute position (column, row) in the document.
#[derive(Debug, Clone, Copy)]
pub struct EditorState {
    pub cursor_pos: (u16, u16),
    pub mark_point: Option<(u16, u16)>,
    pub vertical_offset: usize,
    pub horizontal_offset: u16,
    pub editor_height: Option<u16>,
    pub file_linenr: usize,
    pub modal: Modal,
    /// Set by an explicit scroll; consumed by the next reconciliation.
    pub scrolling: bool,
}

/// The number of decimal digits of `n`.
pub fn nr_length(n: usize) -> (r: u8)
    ensures
        r == digits(n as nat),
{
    let mut m: usize = n;
    let mut count: u8 = 1;
    while m >= 10
        invariant
            count as nat + digits(m as nat) == digits(n as nat) + 1,
            count <= 20,
            m <= n,
            count >= 1,
            n < 10 ==> m == n,
        decreases m,
    {
        proof {
            lemma_digits_bound(m as nat);
            lemma_digits_bound(n as nat);
            lemma_digits_mono(m as nat, n as nat);
        }
        m = m / 10;
        count = count + 1;
    }
    count
}

proof fn lemma_digits_mono(a: nat, b: nat)
    requires
        a <= b,
    ensures
        digits(a) <= digits(b),
    decreases b,
{
    if a >= 10 {
        lemma_digits_mono(a / 10, b / 10);
    }
}

proof fn lemma_digits_bound(n: nat)
    requires
        n <= usize::MAX,
    ensures
        digits(n) <= 20,
{
    assert(digits(n) <= 20) by {
        lemma_digits_mono(n, 0xffff_ffff_ffff_ffff);
        reveal_with_fuel(digits, 21);
    }
}

impl EditorState {
    /// The state of a fresh editor: cursor and offsets at the origin, no mark,
    /// normal mode, size not known yet.
    pub fn new() -> (r: EditorState)
        ensures
            r.cursor_pos == (0u16, 0u16),
            r.mark_point is None,
            r.vertical_offset == 0,
            r.horizontal_offset == 0,
            r.editor_height is None,
            r.file_linenr == 0,
            r.modal@ == crate::modal::ModalType::Normal,
            !r.scrolling,
    {
        EditorState {
            cursor_pos: (0, 0),
            mark_point: None,
            vertical_offset: 0,
            horizontal_offset: 0,
            editor_height: None,
            file_linenr: 0,
            modal: Modal::new(),
            scrolling: false,
        }
    }

    pub fn offset(&self) -> (r: usize)
        ensures
            r == self.vertical_offset,
    {
        self.vertical_offset
    }

    pub fn offset_mut(&mut self) -> (r: &mut usize)
        ensures
            *r == old(self).vertical_offset,
            *final(self) == (EditorState { vertical_offset: *final(r), ..*old(self) }),
    {
        &mut self.vertical_offset
    }

    pub fn cursor(&self) -> (r: (u16, u16))
        ensures
            r == self.cursor_pos,
    {
        self.cursor_pos
    }

    pub fn cursor_mut(&mut self) -> (r: &mut (u16, u16))
        ensures
            *r == old(self).cursor_pos,
            *final(self) == (EditorState { cursor_pos: *final(r), ..*old(self) }),
    {
        &mut self.cursor_pos
    }

    /// The height of the text window, once it is known.
    pub fn height(&self) -> (r: isize)
        requires
            self.editor_height is Some,
        ensures
            r == self.editor_height->Some_0 as isize,
    {
        match self.editor_height {
            Some(h) => h as isize,
            None => 0,
        }
    }

    pub fn mark(&self) -> (r: Option<(u16, u16)>)
        ensures
            r == self.mark_point,
    {
        self.mark_point
    }

    pub fn mark_mut(&mut self) -> (r: &mut Option<(u16, u16)>)
        ensures
            *r == old(self).mark_point,
            *final(self) == (EditorState { mark_point: *final(r), ..*old(self) }),
    {
        &mut self.mark_point
    }

    /// Records the number of lines of the document, which sets the width of
    /// the line numbers.
    pub fn update_linenr(&mut self, nr: usize)
        ensures
            *final(self) == (EditorState { file_linenr: nr, ..*old(self) }),
    {
        self.file_linenr = nr;
    }

    /// Whether (`x`, `y`) lies in the marked region: from the earlier of mark
    /// and cursor through the later one, both included, as a region delete
    /// removes it.
    pub fn within_mark(&self, x: u16, y: u16) -> (r: bool)
        ensures
            r == (self.mark_point matches Some(m) && pos_le(pos_min(self.cursor_pos, m), (x, y))
                && pos_le((x, y), pos_max(self.cursor_pos, m))),
    {
        match self.mark_point {
            None => false,
            Some(m) => {
                let mut start = self.cursor_pos;
                let mut end = m;
                cursor_compare_swap(&mut start, &mut end);
                if start.1 != end.1 {
                    (y > start.1 && y < end.1) || (y == start.1 && x >= start.0) || (y == end.1 && x
                        <= end.0)
                } else {
                    y == start.1 && x >= start.0 && x <= end.0
                }
            },
        }
    }

    /// Fits the window to the cursor for a text area of `height` rows and
    /// `width` columns, and consumes the explicit-scroll flag. After ordinary
    /// motion that left the window, above or below, the window jumps so the
    /// cursor stands in its middle (the top row at least 0); after an explicit
    /// scroll the cursor is pulled to the window's edge instead. Horizontally
    /// the window follows the cursor's column the same way.
    /// Returns whether the visible window changed.
    pub fn update(&mut self, height: u16, width: u16) -> (r: bool)
        requires
            gutter_width(old(self).file_linenr as nat) < width,
            height > 0,
            old(self).vertical_offset + height <= 65536,
        ensures
            final(self).editor_height == Some(height),
            !final(self).scrolling,
            final(self).mark_point == old(self).mark_point,
            final(self).file_linenr == old(self).file_linenr,
            final(self).modal == old(self).modal,
            // the window shows the cursor's row
            final(self).vertical_offset <= final(self).cursor_pos.1 < final(self).vertical_offset
                + height,
            old(self).scrolling ==> final(self).vertical_offset == old(self).vertical_offset,
            !old(self).scrolling ==> final(self).cursor_pos == old(self).cursor_pos,
            !old(self).scrolling && old(self).cursor_pos.1 >= old(self).vertical_offset + height
                ==> final(self).vertical_offset == old(self).cursor_pos.1 - height / 2,
            !old(self).scrolling && old(self).cursor_pos.1 < old(self).vertical_offset
                ==> final(self).vertical_offset == (if old(self).cursor_pos.1 >= height / 2 {
                old(self).cursor_pos.1 - height / 2
            } else {
                0
            }),
            old(self).scrolling && old(self).cursor_pos.1 < old(self).vertical_offset
                ==> final(self).cursor_pos.1 == old(self).vertical_offset,
            old(self).scrolling && old(self).cursor_pos.1 >= old(self).vertical_offset + height
                ==> final(self).cursor_pos.1 == old(self).vertical_offset + height - 1,
            old(self).vertical_offset <= old(self).cursor_pos.1 < old(self).vertical_offset + height
                ==> final(self).vertical_offset == old(self).vertical_offset && final(self).cursor_pos
                == old(self).cursor_pos,
            final(self).cursor_pos.0 == old(self).cursor_pos.0,
            // the window shows the cursor's column
            final(self).horizontal_offset <= final(self).cursor_pos.0,
            final(self).cursor_pos.0 - final(self).horizontal_offset < width - gutter_width(
                old(self).file_linenr as nat,
            ),
            width - gutter_width(old(self).file_linenr as nat) >= 2 ==> final(self).cursor_pos.0
                - final(self).horizontal_offset + 1 < width - gutter_width(
                old(self).file_linenr as nat,
            ),
            r == ((old(self).editor_height is Some && old(self).editor_height != Some(height))
                || !(old(self).vertical_offset <= old(self).cursor_pos.1 < old(self).vertical_offset
                + height)),
    {
        let mut to_update = false;
        match self.editor_height {
            Some(h) => {
                if h != height {
                    to_update = true;
                }
            },
            None => {},
        }
        self.editor_height = Some(height);

        let row = self.cursor_pos.1 as usize;
        if row < self.vertical_offset {
            if self.scrolling {
                self.cursor_pos.1 = self.vertical_offset as u16;
            } else {
                let half = (height / 2) as usize;
                self.vertical_offset = if row >= half {
                    row - half
                } else {
                    0
                };
            }
            to_update = true;
        } else if row >= self.vertical_offset + height as usize {
            if self.scrolling {
                self.cursor_pos.1 = (self.vertical_offset + height as usize - 1) as u16;
            } else {
                self.vertical_offset = row - (height / 2) as usize;
            }
            to_update = true;
        }

        let digits = nr_length(self.file_linenr);
        let gutter: u16 = (if digits <= 4 {
            4
        } else {
            digits
        }) as u16 + 2;
        let content_width = width - gutter;
        let col = self.cursor_pos.0;
        if self.horizontal_offset > col || content_width == 1 {
            self.horizontal_offset = col;
        } else if content_width >= 2 && col - self.horizontal_offset >= content_width - 1 {
            self.horizontal_offset = col - (content_width - 1) / 2;
        }

        self.scrolling = false;
        to_update
    }
}

} // verus!
