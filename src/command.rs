use vstd::prelude::*;

use crate::buffer::{lemma_view_lines, view_lines, FileState};
use crate::error::{AppError, ErrorType};

verus! {

/// A key as the editor sees it.
#[derive(Debug, Clone, Copy, PartialEq, Eq, Hash, Structural)]
pub enum Key {
    Char(char),
    Enter,
    Backspace,
    Tab,
    Esc,
    Left,
    Right,
    Up,
    Down,
    Other,
}

/// How a cursor motion moves: by a number of places, to the start, or to the end.
#[derive(Debug, Clone, Copy, PartialEq, Eq, Structural)]
pub enum CursorMoveType {
    Num(i16),
    Beg,
    End,
}

/// The operation that waits for the next key. While it is not `None`, the next
/// key in normal mode goes to it.
#[derive(Debug, Clone, PartialEq, Eq)]
pub enum CommandPrior {
    /// Nothing waits for a key.
    Idle,
    Mark,
    Delete,
    Change,
    /// Quitting, confirmed or waiting for confirmation.
    Quit(bool),
    ReplaceChar,
    /// An error is shown; the next key acknowledges it.
    ConfirmError,
    /// A search with the pattern typed.
    Search(Vec<char>),
}

/// The operations a key can be bound to.
#[derive(Debug, Clone, Copy, PartialEq, Eq, Structural)]
pub enum Command {
    Save,
    Quit,
    Mark,
    Change,
    ReplaceChar,
    BackwardChar,
    EscapeCommand,
    /// Deletes the character under the cursor when true; else deletes a region
    /// or a line.
    Delete(bool),
    /// Opens a new line below the cursor's row when true, else above it.
    NewLine(bool),
    /// Opens the search prompt.
    Search,
    /// Jumps to the next match when true, else to the previous one.
    SearchJump(bool),
    PageScroll(isize),
    /// Moves within the line when true, else across rows.
    Move(bool, CursorMoveType),
    ChangeInsert(CursorMoveType),
}

/// The characters of a line without its trailing `'\n'`.
pub open spec fn content_len(line: Seq<char>) -> int {
    if line.len() > 0 && line.last() == '\n' {
        line.len() - 1
    } else {
        line.len() as int
    }
}

/// The last column the cursor can take on `line` in normal motion.
pub open spec fn max_col(line: Seq<char>) -> int {
    if content_len(line) == 0 {
        0
    } else if content_len(line) - 1 > 65535 {
        65535
    } else {
        content_len(line) - 1
    }
}

/// The last row the cursor can take in a document of `lines`.
pub open spec fn max_row(lines: Seq<Seq<char>>) -> int {
    if lines.len() - 1 > 65535 {
        65535
    } else {
        lines.len() - 1
    }
}

/// `v` held to `lo..=hi`.
pub open spec fn clamp(v: int, lo: int, hi: int) -> int {
    if v < lo {
        lo
    } else if v > hi {
        hi
    } else {
        v
    }
}

/// Whether the motion `kind` from `before` fails on `lines`: a motion within
/// the line needs the cursor's row, one across rows a document that is not empty.
pub open spec fn move_fails(
    kind: CursorMoveType,
    within_line: bool,
    before: (u16, u16),
    lines: Seq<Seq<char>>,
) -> bool {
    if within_line {
        !(lines.len() > 0 && before.1 < lines.len())
    } else {
        lines.len() == 0
    }
}

/// The cursor after the motion `kind` from `before` on `lines`, where it does
/// not fail. Relative moves clamp to the line or the document; a move across
/// rows keeps the column where the new row allows it.
pub open spec fn moved(
    kind: CursorMoveType,
    within_line: bool,
    before: (u16, u16),
    lines: Seq<Seq<char>>,
) -> (int, int) {
    if within_line {
        let m = max_col(lines[before.1 as int]);
        let col = match kind {
            CursorMoveType::Num(i) => clamp(before.0 + i, 0, m),
            CursorMoveType::Beg => 0,
            CursorMoveType::End => m,
        };
        (col, before.1 as int)
    } else {
        let m = max_row(lines);
        let row = match kind {
            CursorMoveType::Num(i) => clamp(before.1 + i, 0, m),
            CursorMoveType::Beg => 0,
            CursorMoveType::End => m,
        };
        let col = match kind {
            CursorMoveType::Num(_) => before.0 as int,
            _ => 0,
        };
        (if col > max_col(lines[row]) {
            max_col(lines[row])
        } else {
            col
        }, row)
    }
}

/// The last column the cursor can take on `line`.
fn line_max_col(line: &Vec<char>) -> (r: u16)
    ensures
        r == max_col(line@),
{
    let n = line.len();
    let content = if n > 0 && line[n - 1] == '\n' {
        n - 1
    } else {
        n
    };
    if content == 0 {
        0
    } else if content - 1 > 65535 {
        65535
    } else {
        (content - 1) as u16
    }
}

impl CursorMoveType {
    /// The cursor after this motion from `before`.
    pub fn after_move(self, within_line: bool, before: (u16, u16), file_state: &FileState) -> (r:
        Result<(u16, u16), AppError>)
        ensures
            r is Err <==> move_fails(self, within_line, before, file_state@),
            r matches Ok(p) ==> (p.0 as int, p.1 as int) == moved(self, within_line, before, file_state@),
            r matches Err(e) ==> e@ == seq![ErrorType::Range],
    {
        if within_line {
            let lines = file_state.get_lines(before.1, before.1)?;
            proof {
                lemma_view_lines(lines@);
                assert(view_lines(lines@)[0] == file_state@[before.1 as int]);
            }
            let m = line_max_col(&lines[0]);
            let col: u16 = match self {
                CursorMoveType::Num(i) => {
                    let v = before.0 as i32 + i as i32;
                    if v < 0 {
                        0
                    } else if v > m as i32 {
                        m
                    } else {
                        v as u16
                    }
                },
                CursorMoveType::Beg => 0,
                CursorMoveType::End => m,
            };
            Ok((col, before.1))
        } else {
            let n = file_state.len();
            if n == 0 {
                return Err(ErrorType::Range.pack());
            }
            let m: u16 = if n - 1 > 65535 {
                65535
            } else {
                (n - 1) as u16
            };
            let row: u16 = match self {
                CursorMoveType::Num(i) => {
                    let v = before.1 as i32 + i as i32;
                    if v < 0 {
                        0
                    } else if v > m as i32 {
                        m
                    } else {
                        v as u16
                    }
                },
                CursorMoveType::Beg => 0,
                CursorMoveType::End => m,
            };
            let col: u16 = match self {
                CursorMoveType::Num(_) => before.0,
                _ => 0,
            };
            let lines = file_state.get_lines(row, row)?;
            proof {
                lemma_view_lines(lines@);
                assert(view_lines(lines@)[0] == file_state@[row as int]);
            }
            let mc = line_max_col(&lines[0]);
            Ok((if col > mc {
                mc
            } else {
                col
            }, row))
        }
    }
}

/// The bindings from keys to operations; a later binding of a key replaces an
/// earlier one.
#[derive(Debug)]
pub struct Keymap {
    maps: Vec<(Key, Command)>,
}

/// The operation bound to `key` in `maps`: the last binding of it.
pub open spec fn binding(maps: Seq<(Key, Command)>, key: Key) -> Option<Command>
    decreases maps.len(),
{
    if maps.len() == 0 {
        None
    } else if maps.last().0 == key {
        Some(maps.last().1)
    } else {
        binding(maps.drop_last(), key)
    }
}

impl View for Keymap {
    type V = Seq<(Key, Command)>;

    closed spec fn view(&self) -> Seq<(Key, Command)> {
        self.maps@
    }
}

impl Keymap {
    /// No bindings.
    pub fn new() -> (r: Keymap)
        ensures
            forall|k: Key| binding(r@, k) is None,
    {
        Keymap { maps: Vec::new() }
    }

    pub fn keymap(&self) -> (r: &Vec<(Key, Command)>)
        ensures
            r@ == self@,
    {
        &self.maps
    }

    /// Binds `key` to `command`, replacing any earlier binding of `key`.
    pub fn insert(&mut self, key: Key, command: Command)
        ensures
            binding(final(self)@, key) == Some(command),
            forall|k: Key| k != key ==> binding(final(self)@, k) == binding(old(self)@, k),
    {
        let ghost before = self@;
        self.maps.push((key, command));
        proof {
            assert(self@.drop_last() =~= before);
        }
    }

    /// The operation bound to `key`.
    pub fn get(&self, key: Key) -> (r: Option<Command>)
        ensures
            r == binding(self@, key),
    {
        let mut i: usize = self.maps.len();
        assert(self.maps@.subrange(0, i as int) =~= self.maps@);
        while i > 0
            invariant
                i <= self.maps@.len(),
                binding(self.maps@, key) == binding(self.maps@.subrange(0, i as int), key),
            decreases i,
        {
            let ghost s = self.maps@.subrange(0, i as int);
            assert(s.drop_last() =~= self.maps@.subrange(0, i - 1));
            if self.maps[i - 1].0 == key {
                return Some(self.maps[i - 1].1);
            }
            i = i - 1;
        }
        None
    }
}

/// Options read from the configuration.
#[derive(Debug, Clone)]
pub struct AppOption {
    /// Whether Tab inserts a tab character rather than four spaces.
    pub tab_indent: bool,
}

impl AppOption {
    pub fn new() -> (r: AppOption)
        ensures
            !r.tab_indent,
    {
        AppOption { tab_indent: false }
    }
}

} // verus!
