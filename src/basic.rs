use vstd::prelude::*;

use crate::app::{cursor_valid, App, CommandEdit};
use crate::editor::EditorState;
use crate::buffer::{lemma_view_lines, view_lines};
use crate::command::{clamp, moved, move_fails, Command, CommandPrior, CursorMoveType, Key};
use crate::error::{AppError, ErrorType};
use crate::modal::ModalType;
use crate::search::{advance_index, find_matches, nearest_index};
use crate::utils::{cursor_compare_swap, pos_max, pos_min};

verus! {

/// Whether the document of `a` and `b` is the same, and equally saved.
pub open spec fn same_text(a: App, b: App) -> bool {
    a.file_state@ == b.file_state@ && a.file_state.modified() == b.file_state.modified()
}

/// The bindings, options and error queue stay as they were.
pub open spec fn keeps_frame(pre: App, post: App) -> bool {
    &&& post.keymap == pre.keymap
    &&& post.options == pre.options
    &&& post.app_errors == pre.app_errors
}

/// What an optional vector of characters holds.
pub open spec fn opt_view(o: Option<Vec<char>>) -> Option<Seq<char>> {
    match o {
        Some(v) => Some(v@),
        None => None,
    }
}

/// Whether `e` is the one failure of editing an empty document.
pub open spec fn empty_file_error(e: AppError) -> bool {
    e@.len() == 1 && e@[0] is Specific
}

/// The failure of editing an empty document.
fn empty_file() -> (r: AppError)
    ensures
        empty_file_error(r),
{
    ErrorType::Specific("Cannot edit an empty file".to_owned()).pack()
}

/// The highest vertical offset a page scroll may reach: the document's length
/// less one window, or zero for a document shorter than a window.
pub open spec fn max_offset(len: int, height: int) -> int {
    if len - height < 0 {
        0
    } else {
        len - height
    }
}

/// A motion that succeeds leaves the cursor on a row of the document and no
/// further right than that row's length.
pub proof fn lemma_motion_keeps_cursor_valid(
    kind: CursorMoveType,
    within_line: bool,
    before: (u16, u16),
    lines: Seq<Seq<char>>,
)
    requires
        cursor_valid(lines, before),
        !move_fails(kind, within_line, before, lines),
    ensures
        ({
            let p = moved(kind, within_line, before, lines);
            &&& 0 <= p.0 <= 65535 && 0 <= p.1 <= 65535
            &&& cursor_valid(lines, (p.0 as u16, p.1 as u16))
        }),
{
}

/// What `move_cursor` leaves behind, from the state `pre` to the state `post`
/// with the result `r`.
pub open spec fn move_cursor_post(pre: App, post: App, r: Result<bool, AppError>, within_line: bool, cursor_move: CursorMoveType) -> bool {
    &&& keeps_frame(pre, post)
    &&& (same_text(post, pre))
    &&& (post.search_result == pre.search_result)
    &&& (post.editor_state.mark_point == pre.editor_state.mark_point)
    &&& (post.editor_state.modal == pre.editor_state.modal)
    &&& (r is Err <==> move_fails(cursor_move, within_line, pre.editor_state.cursor_pos, pre.file_state@))
    &&& (r is Ok ==> r == Ok::<bool, AppError>(false) && (post.editor_state.cursor_pos.0 as int,
        post.editor_state.cursor_pos.1 as int) == moved(cursor_move, within_line,
        pre.editor_state.cursor_pos, pre.file_state@))
    &&& (r matches Err(e) ==> e@ == seq![ErrorType::Range] && post.editor_state.cursor_pos
        == pre.editor_state.cursor_pos)
}

/// Moves the cursor by `cursor_move`, within the line or across rows.
pub fn move_cursor(app: &mut App, within_line: bool, cursor_move: CursorMoveType) -> (r: Result<bool, AppError>)
    requires
        old(app).wf(),
    ensures
        final(app).wf(),
        move_cursor_post(*old(app), *final(app), r, within_line, cursor_move),
{
    let after = cursor_move.after_move(within_line, app.editor_state.cursor(), &app.file_state)?;
    app.editor_state.cursor_pos = after;
    Ok(false)
}

/// What `page_scroll` leaves behind, from the state `pre` to the state `post`
/// with the result `r`.
pub open spec fn page_scroll_post(pre: App, post: App, r: bool, scroll: isize) -> bool {
    &&& keeps_frame(pre, post)
    &&& (same_text(post, pre))
    &&& (post.search_result == pre.search_result)
    &&& (post.editor_state.cursor_pos == pre.editor_state.cursor_pos)
    &&& (post.editor_state.mark_point == pre.editor_state.mark_point)
    &&& (post.editor_state.modal == pre.editor_state.modal)
    &&& (pre.editor_state.editor_height is None ==> !r && post.editor_state
        == pre.editor_state)
    &&& (pre.editor_state.editor_height matches Some(h) ==> {
        let len = pre.file_state@.len() as int;
        let target = pre.editor_state.vertical_offset + scroll * h;
        &&& r
        &&& post.editor_state.vertical_offset == clamp(target, 0, max_offset(len, h as int))
        &&& post.editor_state == (EditorState {
            vertical_offset: post.editor_state.vertical_offset,
            scrolling: true,
            ..pre.editor_state
        })
    })
}

/// Scrolls the window by `scroll` pages, held between the document's start
/// and its last full page (the start, for a document shorter than a page), and
/// marks the scroll as explicit. Does nothing before the window's height is
/// known.
pub fn page_scroll(app: &mut App, scroll: isize) -> (r: bool)
    requires
        old(app).wf(),
    ensures
        final(app).wf(),
        page_scroll_post(*old(app), *final(app), r, scroll),
{
    let h = match app.editor_state.editor_height {
        Some(h) => h,
        None => {
            return false;
        },
    };
    let offset = app.editor_state.vertical_offset;
    proof {
        assert((scroll as int) * (h as int) <= 0x8000_0000_0000_0000 * 0x10000) by (nonlinear_arith)
            requires
                -0x8000_0000_0000_0000 <= scroll <= 0x8000_0000_0000_0000,
                0 <= h <= 0x10000,
        ;
        assert((scroll as int) * (h as int) >= -0x8000_0000_0000_0000 * 0x10000) by (nonlinear_arith)
            requires
                -0x8000_0000_0000_0000 <= scroll <= 0x8000_0000_0000_0000,
                0 <= h <= 0x10000,
        ;
    }
    let target: i128 = offset as i128 + (scroll as i128) * (h as i128);
    let len = app.file_state.len();
    if target < 0 {
        app.editor_state.vertical_offset = 0;
        app.editor_state.scrolling = true;
        return true;
    }
    if len < h as usize {
        app.editor_state.vertical_offset = 0;
        app.editor_state.scrolling = true;
        return true;
    }
    let max = len - h as usize;
    app.editor_state.vertical_offset = if target > max as i128 {
        max
    } else {
        target as usize
    };
    app.editor_state.scrolling = true;
    true
}

/// What `mark` leaves behind, from the state `pre` to the state `post`
/// with the result `r`.
pub open spec fn mark_post(pre: App, post: App, r: Result<bool, AppError>, key: Option<Key>) -> bool {
    &&& keeps_frame(pre, post)
    &&& (same_text(post, pre))
    &&& (post.search_result == pre.search_result)
    &&& (post.editor_state.cursor_pos == pre.editor_state.cursor_pos)
    &&& (key is None ==> r == Ok::<bool, AppError>(false) && post.prior_command
        == CommandPrior::Mark && post.editor_state.mark_point
        == pre.editor_state.mark_point)
    &&& (key == Some(Key::Char('m')) ==> r == Ok::<bool, AppError>(false) && post.prior_command
        == CommandPrior::Idle && post.editor_state.mark_point == Some(
        pre.editor_state.cursor_pos,
    ))
    &&& (key is Some && key != Some(Key::Char('m')) ==> (r matches Err(e) && e@ == seq![
        ErrorType::InvalidCommand,
    ]) && post.prior_command == CommandPrior::Idle && post.editor_state.mark_point
        == pre.editor_state.mark_point)
}

/// Arms the mark, or with a key sets it: the mark key places it at the cursor,
/// any other key is refused.
pub fn mark(app: &mut App, key: Option<Key>) -> (r: Result<bool, AppError>)
    requires
        old(app).wf(),
    ensures
        final(app).wf(),
        mark_post(*old(app), *final(app), r, key),
{
    match key {
        None => {
            app.prior_command = CommandPrior::Mark;
            Ok(false)
        },
        Some(k) => {
            app.prior_command = CommandPrior::Idle;
            if k == Key::Char('m') {
                app.editor_state.mark_point = Some(app.editor_state.cursor_pos);
                Ok(false)
            } else {
                Err(ErrorType::InvalidCommand.pack())
            }
        },
    }
}

/// What `quit` leaves behind, from the state `pre` to the state `post`
/// with the result `r`.
pub open spec fn quit_post(pre: App, post: App, r: bool, key: Option<Key>) -> bool {
    &&& keeps_frame(pre, post)
    &&& (!r)
    &&& (same_text(post, pre))
    &&& (post.search_result == pre.search_result)
    &&& (post.editor_state == pre.editor_state)
    &&& (key is None && pre.file_state.modified() ==> post.prior_command
        == CommandPrior::Quit(false) && post.ask_msg is Some)
    &&& (key is None && !pre.file_state.modified() ==> post.prior_command
        == CommandPrior::Quit(true) && post.ask_msg == pre.ask_msg)
    &&& (key is Some ==> post.ask_msg is None)
    &&& (key == Some(Key::Char('y')) ==> post.prior_command == CommandPrior::Quit(true))
    &&& (key is Some && key != Some(Key::Char('y')) ==> post.prior_command
        == CommandPrior::Idle)
}

/// Asks to quit: a document with unsaved changes waits for confirmation, a
/// saved one quits at once. With a key, `y` confirms and any other key goes
/// back to editing.
pub fn quit(app: &mut App, key: Option<Key>) -> (r: bool)
    requires
        old(app).wf(),
    ensures
        final(app).wf(),
        quit_post(*old(app), *final(app), r, key),
{
    match key {
        None => {
            if app.file_state.not_save() {
                app.prior_command = CommandPrior::Quit(false);
                app.ask_msg = Some("File has not been saved, still quit?".to_owned());
            } else {
                app.prior_command = CommandPrior::Quit(true);
            }
        },
        Some(k) => {
            app.ask_msg = None;
            if k == Key::Char('y') {
                app.prior_command = CommandPrior::Quit(true);
            } else {
                app.prior_command = CommandPrior::Idle;
            }
        },
    }
    false
}

/// What `escape_command` leaves behind, from the state `pre` to the state `post`
/// with the result `r`.
pub open spec fn escape_command_post(pre: App, post: App, r: Result<bool, AppError>) -> bool {
    &&& keeps_frame(pre, post)
    &&& (r == Ok::<bool, AppError>(false))
    &&& (same_text(post, pre))
    &&& (post.editor_state.cursor_pos == pre.editor_state.cursor_pos)
    &&& (post.editor_state.mark_point is None)
    &&& (pre.editor_state.mark_point is Some ==> post.search_result
        == pre.search_result)
    &&& (pre.editor_state.mark_point is None ==> post.search_result.matches().len() == 0
        && post.search_result.target().len() == 0
        && post.search_result.selection() is None)
}

/// Cancels the mark if there is one; else forgets the last search.
pub fn escape_command(app: &mut App) -> (r: Result<bool, AppError>)
    requires
        old(app).wf(),
    ensures
        final(app).wf(),
        escape_command_post(*old(app), *final(app), r),
{
    if app.editor_state.mark_point.is_some() {
        app.editor_state.mark_point = None;
        return Ok(false);
    }
    if app.search_result.has_history() {
        app.search_result.clear();
    }
    Ok(false)
}

/// What `save` leaves behind, from the state `pre` to the state `post`
/// with the result `r`.
pub open spec fn save_post(pre: App, post: App, r: Result<bool, AppError>) -> bool {
    &&& keeps_frame(pre, post)
    &&& (r == Ok::<bool, AppError>(false))
    &&& (post.save_request)
    &&& (same_text(post, pre))
    &&& (post.editor_state == pre.editor_state)
    &&& (post.search_result == pre.search_result)
}

/// Asks for the document to be written.
pub fn save(app: &mut App) -> (r: Result<bool, AppError>)
    requires
        old(app).wf(),
    ensures
        final(app).wf(),
        save_post(*old(app), *final(app), r),
{
    app.save_request = true;
    Ok(false)
}

/// Puts the cursor on `p` if it is a place in the document; tells whether it did.
fn place_cursor(app: &mut App, p: (u16, u16)) -> (r: bool)
    requires
        old(app).wf(),
    ensures
        final(app).wf(),
        keeps_frame(*old(app), *final(app)),
        same_text(*final(app), *old(app)),
        final(app).search_result == old(app).search_result,
        final(app).editor_state.mark_point == old(app).editor_state.mark_point,
        final(app).editor_state.modal == old(app).editor_state.modal,
        r == cursor_valid(old(app).file_state@, p),
        r ==> final(app).editor_state.cursor_pos == p,
        !r ==> final(app).editor_state.cursor_pos == old(app).editor_state.cursor_pos,
{
    let n = app.file_state.len();
    let ok = if n == 0 {
        p.0 == 0 && p.1 == 0
    } else {
        (p.1 as usize) < n && (p.0 as usize) <= app.file_state.line_len(p.1 as usize)
    };
    if ok {
        app.editor_state.cursor_pos = p;
    }
    ok
}

/// What `search_jump` leaves behind, from the state `pre` to the state `post`
/// with the result `r`.
pub open spec fn search_jump_post(pre: App, post: App, r: Result<bool, AppError>, next: bool) -> bool {
    &&& keeps_frame(pre, post)
    &&& (r == Ok::<bool, AppError>(false))
    &&& (same_text(post, pre))
    &&& (post.search_result.matches() == pre.search_result.matches())
    &&& (pre.search_result.matches().len() == 0 ==> post.search_result
        == pre.search_result && post.editor_state.cursor_pos
        == pre.editor_state.cursor_pos)
    &&& (pre.search_result.matches().len() > 0 ==> (post.search_result.selection() matches Some(i)
        && i == advance_index(pre.search_result.selection(),
        pre.search_result.matches().len() as int, next) && ({
            let p = (pre.search_result.matches()[i as int].0.start,
                pre.search_result.matches()[i as int].1);
            if cursor_valid(pre.file_state@, p) {
                post.editor_state.cursor_pos == p
            } else {
                post.editor_state.cursor_pos == pre.editor_state.cursor_pos
            }
        })))
}

/// Whether state `k + 1` of `states` is state `k` after one jump.
pub open spec fn jump_step(states: Seq<App>, k: int, next: bool) -> bool {
    search_jump_post(states[k], states[k + 1], Ok(false), next)
}

/// The match that the first jump from no selection picks: the first going
/// forward, the last going back.
pub open spec fn first_jump(n: int, next: bool) -> int {
    if next {
        0
    } else {
        n - 1
    }
}

/// Along a run of jumps in one direction through `n` matches, starting with
/// nothing selected, jump `k` (from one) selects the match `k - 1` steps on
/// from the first jump's; so jump `n + 1` selects the same match as jump one:
/// the first match going forward, the last going back.
pub proof fn lemma_jump_run(states: Seq<App>, next: bool)
    requires
        states.len() >= 1,
        0 < states[0].search_result.matches().len() <= usize::MAX,
        states[0].search_result.selection() is None,
        forall|k: int|
            0 <= k < states.len() - 1 ==> #[trigger] jump_step(states, k, next),
    ensures
        forall|k: int|
            1 <= k < states.len() ==> #[trigger] states[k].search_result.selection() == Some(
                crate::search::advance_times(
                    first_jump(states[0].search_result.matches().len() as int, next),
                    states[0].search_result.matches().len() as int,
                    next,
                    (k - 1) as nat,
                ) as usize,
            ),
        states.len() > states[0].search_result.matches().len() + 1 ==> states[states[0].search_result.matches().len()
            + 1int].search_result.selection() == states[1].search_result.selection(),
    decreases states.len(),
{
    let n = states[0].search_result.matches().len() as int;
    if states.len() > 1 {
        let front = states.drop_last();
        assert forall|k: int| 0 <= k < front.len() - 1 implies #[trigger] jump_step(front, k, next) by {
            assert(jump_step(states, k, next));
            assert(front[k + 1] == states[k + 1]);
        }
        lemma_jump_run(front, next);
        assert forall|k: int| 0 <= k < states.len() implies #[trigger] states[k].search_result.matches()
            == states[0].search_result.matches() by {
            lemma_jump_run_matches(states, next, k);
        }
        let last = states.len() - 1;
        assert(jump_step(states, last - 1, next));
        if last >= 2 {
            assert(front[last - 1] == states[last - 1]);
            let prev = crate::search::advance_times(first_jump(n, next), n, next, (last - 2) as nat);
            lemma_advance_in_range(first_jump(n, next), n, next, (last - 2) as nat);
            lemma_advance_in_range(first_jump(n, next), n, next, (last - 1) as nat);
            assert(front[last - 1].search_result.selection() == Some(prev as usize));
            assert(states[last - 1].search_result.matches() == states[0].search_result.matches());
            assert(states[last].search_result.selection() == Some(
                crate::search::step_index(prev, n, next) as usize,
            ));
        }
        assert forall|k: int| 1 <= k < states.len() implies #[trigger] states[k].search_result.selection() == Some(
            crate::search::advance_times(first_jump(n, next), n, next, (k - 1) as nat) as usize,
        ) by {
            if k < last {
                assert(front[k] == states[k]);
            }
        }
        if states.len() > n + 1 {
            crate::search::lemma_advance_cycles(first_jump(n, next), n, next);
        }
    }
}

proof fn lemma_jump_run_matches(states: Seq<App>, next: bool, k: int)
    requires
        0 <= k < states.len(),
        forall|j: int|
            0 <= j < states.len() - 1 ==> #[trigger] jump_step(states, j, next),
    ensures
        states[k].search_result.matches() == states[0].search_result.matches(),
    decreases k,
{
    if k > 0 {
        lemma_jump_run_matches(states, next, k - 1);
        assert(jump_step(states, k - 1, next));
    }
}

proof fn lemma_advance_in_range(i: int, n: int, next: bool, k: nat)
    requires
        0 <= i < n,
    ensures
        0 <= crate::search::advance_times(i, n, next, k) < n,
    decreases k,
{
    if k > 0 {
        lemma_advance_in_range(i, n, next, (k - 1) as nat);
    }
}

/// Selects the next or the previous match, wrapping around, and moves the
/// cursor to it where it still lies in the document.
pub fn search_jump(app: &mut App, next: bool) -> (r: Result<bool, AppError>)
    requires
        old(app).wf(),
    ensures
        final(app).wf(),
        search_jump_post(*old(app), *final(app), r, next),
{
    if app.search_result.indicates().len() == 0 {
        return Ok(false);
    }
    match app.search_result.advance(next) {
        None => {},
        Some(p) => {
            place_cursor(app, p);
        },
    }
    Ok(false)
}

/// What `search` leaves behind, from the state `pre` to the state `post`
/// with the result `r`.
pub open spec fn search_post(pre: App, post: App, r: Result<bool, AppError>, pattern: Option<Seq<char>>) -> bool {
    &&& keeps_frame(pre, post)
    &&& (r == Ok::<bool, AppError>(false))
    &&& (same_text(post, pre))
    &&& (pattern is None ==> (post.command_edit matches CommandEdit::Active(s, p, c) && s@
        == seq!['/'] && p == 1 && (c matches CommandPrior::Search(q) && q@.len() == 0)))
    &&& (pattern is None ==> post.search_result
        == pre.search_result && post.editor_state.cursor_pos
        == pre.editor_state.cursor_pos)
    &&& (pattern matches Some(pat) ==> {
        let p = if pat.len() > 0 && pat[0] == '/' {
            pat.drop_first()
        } else {
            pat
        };
        let found = crate::search::all_matches(pre.file_state@, p);
        &&& post.prior_command == CommandPrior::Idle
        &&& post.search_result.target() == p
        &&& post.search_result.matches().len() == found.len()
        &&& found.len() == 0 ==> post.search_result.selection() is None
            && post.editor_state.cursor_pos == pre.editor_state.cursor_pos
        &&& found.len() > 0 ==> (forall|i: int| 0 <= i < found.len() ==> (
                #[trigger] post.search_result.matches()[i]).0.start == found[i].0
                && post.search_result.matches()[i].0.end == found[i].0 + p.len()
                && post.search_result.matches()[i].1 == found[i].1)
            && (post.search_result.selection() matches Some(k) && nearest_index(
            post.search_result.matches(),
            (pre.editor_state.cursor_pos.0 as int, pre.editor_state.cursor_pos.1 as int),
            k as int,
        ) && post.editor_state.cursor_pos == (post.search_result.matches()[k as int].0.start,
            post.search_result.matches()[k as int].1))
    })
}

/// Opens the search prompt, or searches the document for `pattern` (a leading
/// `/` is dropped): the pattern and its matches replace the last search and,
/// if there are matches, the cursor goes to the first match at or after it, or
/// to the first match.
pub fn search(app: &mut App, pattern: Option<Vec<char>>) -> (r: Result<bool, AppError>)
    requires
        old(app).wf(),
    ensures
        final(app).wf(),
        search_post(*old(app), *final(app), r, opt_view(pattern)),
{
    match pattern {
        None => {
            let mut init: Vec<char> = Vec::new();
            init.push('/');
            app.command_edit = CommandEdit::new(init, CommandPrior::Search(Vec::new()));
            Ok(false)
        },
        Some(pat) => {
            let mut pat = pat;
            if pat.len() > 0 && pat[0] == '/' {
                pat.remove(0);
            }
            let content = app.file_state.content_ref();
            let found = find_matches(content, &pat);
            proof {
                lemma_view_lines(content@);
                assert forall|i: int| 0 <= i < found@.len() implies cursor_valid(
                    app.file_state@,
                    #[trigger] found@[i],
                ) by {
                    assert(content@[found@[i].1 as int]@ == app.file_state@[found@[i].1 as int]);
                }
            }
            let ghost fv = found@;
            let ghost pv = pat@;
            let none_found = found.len() == 0;
            app.search_result.set(pat, found);
            if none_found {
                app.prior_command = CommandPrior::Idle;
                return Ok(false);
            }
            let cursor = app.editor_state.cursor_pos;
            match app.search_result.nearest_next(cursor) {
                None => {},
                Some(p) => {
                    proof {
                        let k = app.search_result.selection()->Some_0 as int;
                        assert(cursor_valid(app.file_state@, fv[k]));
                    }
                    app.editor_state.cursor_pos = p;
                },
            }
            app.prior_command = CommandPrior::Idle;
            Ok(false)
        },
    }
}

/// The rows that replace `line` when `key` is typed at column `col`: Tab
/// gives four spaces unless tabs are kept, Enter splits the line.
pub open spec fn inserted_rows(line: Seq<char>, col: int, key: char, tab_indent: bool) -> Seq<Seq<char>> {
    if key == '\t' && !tab_indent {
        seq![line.subrange(0, col) + seq![' ', ' ', ' ', ' '] + line.subrange(col, line.len() as int)]
    } else if key == '\n' {
        seq![line.subrange(0, col).push('\n'), line.subrange(col, line.len() as int)]
    } else {
        seq![line.insert(col, key)]
    }
}

/// The cursor after `key` is typed at `c`.
pub open spec fn inserted_cursor(c: (u16, u16), key: char, tab_indent: bool) -> (int, int) {
    if key == '\t' && !tab_indent {
        (c.0 + 4, c.1 as int)
    } else if key == '\n' {
        (0, c.1 + 1)
    } else {
        (c.0 + 1, c.1 as int)
    }
}

/// The cursor held to `lines`: the origin of an empty document, else the last
/// row at most and the row's length at most.
pub open spec fn clamp_cursor(lines: Seq<Seq<char>>, c: (u16, u16)) -> (u16, u16) {
    if lines.len() == 0 {
        (0u16, 0u16)
    } else {
        let row = if c.1 >= lines.len() {
            (lines.len() - 1) as u16
        } else {
            c.1
        };
        (if c.0 > lines[row as int].len() {
            lines[row as int].len() as u16
        } else {
            c.0
        }, row)
    }
}

/// What `insert_char` leaves behind, from the state `pre` to the state `post`
/// with the result `r`.
pub open spec fn insert_char_post(pre: App, post: App, r: Result<bool, AppError>, key: char) -> bool {
    &&& keeps_frame(pre, post)
    &&& (post.search_result == pre.search_result)
    &&& (post.editor_state.mark_point == pre.editor_state.mark_point)
    &&& (post.editor_state.modal == pre.editor_state.modal)
    &&& (({
        let lines = pre.file_state@;
        let c = pre.editor_state.cursor_pos;
        let after = inserted_cursor(c, key, pre.options.tab_indent);
        &&& r is Err <==> lines.len() == 0 || after.0 > 65535 || after.1 > 65535
        &&& r is Ok ==> r == Ok::<bool, AppError>(true) && post.file_state@
            == crate::buffer::splice_lines(lines, c.1 as int, c.1 as int, inserted_rows(
            lines[c.1 as int],
            c.0 as int,
            key,
            pre.options.tab_indent,
        )) && post.file_state.modified() && (post.editor_state.cursor_pos.0 as int,
            post.editor_state.cursor_pos.1 as int) == after
        &&& r matches Err(e) ==> (if lines.len() == 0 {
            empty_file_error(e)
        } else {
            e@ == seq![ErrorType::Range]
        }) && same_text(post, pre) && post.editor_state.cursor_pos == c
    }))
}

/// Types `key` at the cursor in insert mode: a character goes in before the
/// cursor, Tab inserts four spaces unless tabs are kept, Enter splits the line
/// and moves to the start of the new one.
pub fn insert_char(app: &mut App, key: char) -> (r: Result<bool, AppError>)
    requires
        old(app).wf(),
    ensures
        final(app).wf(),
        insert_char_post(*old(app), *final(app), r, key),
{
    let (col, row) = app.editor_state.cursor_pos;
    let spaces = key == '\t' && !app.options.tab_indent;
    if app.file_state.len() == 0 {
        return Err(empty_file());
    }
    if (spaces && col > 65531) || (key == '\n' && row == 65535) || (
    !spaces && key != '\n' && col == 65535) {
        return Err(ErrorType::Range.pack());
    }
    let mut line = app.file_state.line_copy(row as usize);
    let ghost old_line = line@;
    let mut rows: Vec<Vec<char>> = Vec::new();
    if spaces {
        let mut tail = line.split_off(col as usize);
        line.push(' ');
        line.push(' ');
        line.push(' ');
        line.push(' ');
        line.append(&mut tail);
        assert(line@ =~= old_line.subrange(0, col as int) + seq![' ', ' ', ' ', ' '] + old_line.subrange(col as int, old_line.len() as int));
        rows.push(line);
        proof {
            lemma_view_lines(rows@);
            assert(view_lines(rows@) =~= inserted_rows(old_line, col as int, key, app.options.tab_indent));
        }
    } else if key == '\n' {
        let tail = line.split_off(col as usize);
        line.push('\n');
        rows.push(line);
        rows.push(tail);
        proof {
            lemma_view_lines(rows@);
            assert(view_lines(rows@) =~= inserted_rows(old_line, col as int, key, app.options.tab_indent));
        }
    } else {
        line.insert(col as usize, key);
        rows.push(line);
        proof {
            lemma_view_lines(rows@);
            assert(view_lines(rows@) =~= inserted_rows(old_line, col as int, key, app.options.tab_indent));
        }
    }
    let ghost before = app.file_state@;
    let _ = app.file_state.modify_lines(row, row, rows);
    proof {
        assert(app.file_state@.len() == before.len() + view_lines(rows@).len() - 1);
    }
    if spaces {
        app.editor_state.cursor_pos = (col + 4, row);
    } else if key == '\n' {
        app.editor_state.cursor_pos = (0, row + 1);
    } else {
        app.editor_state.cursor_pos = (col + 1, row);
    }
    Ok(true)
}

/// What `delete_char` leaves behind, from the state `pre` to the state `post`
/// with the result `r`.
pub open spec fn delete_char_post(pre: App, post: App, r: Result<bool, AppError>) -> bool {
    &&& keeps_frame(pre, post)
    &&& (post.search_result == pre.search_result)
    &&& (post.editor_state.mark_point == pre.editor_state.mark_point)
    &&& (post.editor_state.modal == pre.editor_state.modal)
    &&& (({
        let lines = pre.file_state@;
        let c = pre.editor_state.cursor_pos;
        &&& r is Err <==> lines.len() == 0 || (lines[c.1 as int] != seq!['\n'] && c.0
            >= lines[c.1 as int].len())
        &&& r is Ok ==> r == Ok::<bool, AppError>(true) && post.file_state.modified()
        &&& r is Ok && lines[c.1 as int] == seq!['\n'] ==> post.file_state@
            == lines.remove(c.1 as int) && post.editor_state.cursor_pos == clamp_cursor(
            lines.remove(c.1 as int),
            c,
        )
        &&& r is Ok && lines[c.1 as int] != seq!['\n'] ==> post.file_state@
            == lines.update(c.1 as int, lines[c.1 as int].remove(c.0 as int))
            && post.editor_state.cursor_pos == c
        &&& r matches Err(e) ==> (if lines.len() == 0 {
            empty_file_error(e)
        } else {
            e@ == seq![ErrorType::Range]
        }) && same_text(post, pre) && post.editor_state.cursor_pos == c
    }))
}

/// Deletes the character under the cursor; on a row that holds only its
/// `'\n'`, deletes the row and keeps the cursor in the document.
pub fn delete_char(app: &mut App) -> (r: Result<bool, AppError>)
    requires
        old(app).wf(),
    ensures
        final(app).wf(),
        delete_char_post(*old(app), *final(app), r),
{
    let (col, row) = app.editor_state.cursor_pos;
    if app.file_state.len() == 0 {
        return Err(empty_file());
    }
    let mut line = app.file_state.line_copy(row as usize);
    let ghost lines = app.file_state@;
    if line.len() == 1 && line[0] == '\n' {
        assert(line@ =~= seq!['\n']);
        let _ = app.file_state.modify_lines(row, row, Vec::new());
        proof {
            lemma_view_lines(Seq::<Vec<char>>::empty());
            assert(app.file_state@ =~= lines.remove(row as int));
        }
        let n = app.file_state.len();
        if n == 0 {
            app.editor_state.cursor_pos = (0, 0);
        } else {
            let r: u16 = if row as usize >= n {
                (n - 1) as u16
            } else {
                row
            };
            let len = app.file_state.line_len(r as usize);
            let c: u16 = if col as usize > len {
                len as u16
            } else {
                col
            };
            app.editor_state.cursor_pos = (c, r);
        }
        return Ok(true);
    }
    assert(line@ != seq!['\n']);
    if col as usize >= line.len() {
        return Err(ErrorType::Range.pack());
    }
    let ghost old_line = line@;
    line.remove(col as usize);
    let mut rows: Vec<Vec<char>> = Vec::new();
    rows.push(line);
    let _ = app.file_state.modify_lines(row, row, rows);
    proof {
        lemma_view_lines(rows@);
        assert(app.file_state@ =~= lines.update(row as int, old_line.remove(col as int)));
    }
    Ok(true)
}

/// What `replace_char` leaves behind, from the state `pre` to the state `post`
/// with the result `r`.
pub open spec fn replace_char_post(pre: App, post: App, r: Result<bool, AppError>, key: Option<Key>) -> bool {
    &&& keeps_frame(pre, post)
    &&& (post.search_result == pre.search_result)
    &&& (post.editor_state == pre.editor_state)
    &&& (key is None ==> r == Ok::<bool, AppError>(false) && post.prior_command
        == CommandPrior::ReplaceChar && same_text(post, pre))
    &&& (key is Some ==> post.prior_command == CommandPrior::Idle)
    &&& (key is Some && !(key matches Some(Key::Char(_))) ==> r == Ok::<bool, AppError>(true)
        && same_text(post, pre))
    &&& (key matches Some(Key::Char(ch)) ==> ({
        let lines = pre.file_state@;
        let c = pre.editor_state.cursor_pos;
        let off_char = lines.len() == 0 || c.0 >= lines[c.1 as int].len() || lines[c.1 as int][c.0 as int] == '\n';
        &&& r is Err <==> off_char || ch == '\n'
        &&& r is Ok ==> r == Ok::<bool, AppError>(true) && post.file_state@
            == lines.update(c.1 as int, lines[c.1 as int].update(c.0 as int, ch))
            && post.file_state.modified()
        &&& r matches Err(e) ==> same_text(post, pre) && if ch == '\n' {
            e@ == seq![ErrorType::InvalidCommand]
        } else if lines.len() == 0 {
            empty_file_error(e)
        } else {
            e@ == seq![ErrorType::Range]
        }
    }))
}

/// Arms the replacement, or with a key puts its character in place of the one
/// under the cursor. A row's `'\n'` is never overwritten, nor is one written.
pub fn replace_char(app: &mut App, key: Option<Key>) -> (r: Result<bool, AppError>)
    requires
        old(app).wf(),
    ensures
        final(app).wf(),
        replace_char_post(*old(app), *final(app), r, key),
{
    let k = match key {
        None => {
            app.prior_command = CommandPrior::ReplaceChar;
            return Ok(false);
        },
        Some(k) => k,
    };
    app.prior_command = CommandPrior::Idle;
    if let Key::Char(ch) = k {
        if ch == '\n' {
            return Err(ErrorType::InvalidCommand.pack());
        }
        let (col, row) = app.editor_state.cursor_pos;
        if app.file_state.len() == 0 {
            return Err(empty_file());
        }
        let mut line = app.file_state.line_copy(row as usize);
        if col as usize >= line.len() || line[col as usize] == '\n' {
            return Err(ErrorType::Range.pack());
        }
        let ghost lines = app.file_state@;
        let ghost old_line = line@;
        line.set(col as usize, ch);
        let mut rows: Vec<Vec<char>> = Vec::new();
        rows.push(line);
        let _ = app.file_state.modify_lines(row, row, rows);
        proof {
            lemma_view_lines(rows@);
            assert(app.file_state@ =~= lines.update(row as int, old_line.update(col as int, ch)));
        }
    }
    Ok(true)
}

/// What `newline` leaves behind, from the state `pre` to the state `post`
/// with the result `r`.
pub open spec fn newline_post(pre: App, post: App, r: bool, down: bool) -> bool {
    &&& keeps_frame(pre, post)
    &&& (post.search_result == pre.search_result)
    &&& (post.editor_state.mark_point == pre.editor_state.mark_point)
    &&& (({
        let lines = pre.file_state@;
        let c = pre.editor_state.cursor_pos;
        let at = if lines.len() == 0 {
            0
        } else if down {
            c.1 + 1
        } else {
            c.1 as int
        };
        &&& r <==> at <= 65535
        &&& r ==> post.file_state@ == lines.insert(at, seq!['\n'])
            && post.file_state.modified() && post.editor_state.cursor_pos == (
            0u16,
            at as u16,
        ) && post.editor_state.modal@ == ModalType::Insert
        &&& !r ==> same_text(post, pre) && post.editor_state
            == pre.editor_state
    }))
}

/// Opens an empty line below the cursor's row, or above it, puts the cursor at
/// its start and switches to insert mode. An empty document gets its first line.
pub fn newline(app: &mut App, down: bool) -> (r: bool)
    requires
        old(app).wf(),
    ensures
        final(app).wf(),
        newline_post(*old(app), *final(app), r, down),
{
    let (_, row) = app.editor_state.cursor_pos;
    let at: u16 = if app.file_state.len() == 0 {
        0
    } else if down {
        if row == 65535 {
            return false;
        }
        row + 1
    } else {
        row
    };
    let mut line: Vec<char> = Vec::new();
    line.push('\n');
    app.file_state.insert_line(at as usize, line);
    app.editor_state.cursor_pos = (0, at);
    app.editor_state.modal.switch_insert();
    true
}

/// What `backward_char` leaves behind, from the state `pre` to the state `post`
/// with the result `r`.
pub open spec fn backward_char_post(pre: App, post: App, r: Result<bool, AppError>) -> bool {
    &&& keeps_frame(pre, post)
    &&& (post.search_result == pre.search_result)
    &&& (post.editor_state.mark_point == pre.editor_state.mark_point)
    &&& (post.editor_state.modal == pre.editor_state.modal)
    &&& (({
        let lines = pre.file_state@;
        let c = pre.editor_state.cursor_pos;
        &&& c.0 == 0 && c.1 == 0 ==> r == Ok::<bool, AppError>(false) && same_text(post, pre) && post.editor_state.cursor_pos == c
        &&& c.0 == 0 && c.1 > 0 ==> {
            let prev = lines[c.1 - 1];
            let kept = if prev.len() > 0 {
                prev.drop_last()
            } else {
                prev
            };
            &&& r is Err <==> kept.len() > 65535
            &&& r is Ok ==> r == Ok::<bool, AppError>(true) && post.file_state@
                == crate::buffer::splice_lines(lines, c.1 - 1, c.1 as int, seq![kept + lines[c.1 as int]])
                && post.file_state.modified() && post.editor_state.cursor_pos == (
                kept.len() as u16,
                (c.1 - 1) as u16,
            )
            &&& r matches Err(e) ==> e@ == seq![ErrorType::Range] && same_text(post, pre) && post.editor_state.cursor_pos == c
        }
        &&& c.0 > 0 ==> r == Ok::<bool, AppError>(true) && post.file_state@
            == lines.update(c.1 as int, lines[c.1 as int].remove(c.0 - 1))
            && post.file_state.modified() && post.editor_state.cursor_pos == (
            (c.0 - 1) as u16,
            c.1,
        )
    }))
}

/// Deletes the character before the cursor; at the start of a row, joins the
/// row to the end of the one above, dropping that row's last character.
pub fn backward_char(app: &mut App) -> (r: Result<bool, AppError>)
    requires
        old(app).wf(),
    ensures
        final(app).wf(),
        backward_char_post(*old(app), *final(app), r),
{
    let (col, row) = app.editor_state.cursor_pos;
    let ghost lines = app.file_state@;
    if col == 0 {
        if row == 0 {
            return Ok(false);
        }
        let mut prev = app.file_state.line_copy((row - 1) as usize);
        let mut cur = app.file_state.line_copy(row as usize);
        let ghost old_prev = prev@;
        prev.pop();
        if prev.len() > 65535 {
            return Err(ErrorType::Range.pack());
        }
        let new_col = prev.len() as u16;
        let ghost kept = prev@;
        prev.append(&mut cur);
        let mut rows: Vec<Vec<char>> = Vec::new();
        rows.push(prev);
        let _ = app.file_state.modify_lines(row - 1, row, rows);
        proof {
            lemma_view_lines(rows@);
            assert(view_lines(rows@) =~= seq![kept + lines[row as int]]);
        }
        app.editor_state.cursor_pos = (new_col, row - 1);
        return Ok(true);
    }
    let mut line = app.file_state.line_copy(row as usize);
    let ghost old_line = line@;
    line.remove((col - 1) as usize);
    let mut rows: Vec<Vec<char>> = Vec::new();
    rows.push(line);
    let _ = app.file_state.modify_lines(row, row, rows);
    proof {
        lemma_view_lines(rows@);
        assert(app.file_state@ =~= lines.update(row as int, old_line.remove(col - 1)));
    }
    app.editor_state.cursor_pos = (col - 1, row);
    Ok(true)
}

/// Whether the region between mark `m` and cursor `c`, both ends included,
/// fails to lie in `lines`.
pub open spec fn region_fails(lines: Seq<Seq<char>>, m: (u16, u16), c: (u16, u16)) -> bool {
    let s = pos_min(m, c);
    let e = pos_max(m, c);
    !(e.1 < lines.len() && s.0 <= lines[s.1 as int].len() && e.0 < lines[e.1 as int].len())
}

/// `lines` with the region between mark `m` and cursor `c` deleted: from the
/// earlier of the two in row-major order through the later, both included.
pub open spec fn region_deleted(lines: Seq<Seq<char>>, m: (u16, u16), c: (u16, u16)) -> Seq<
    Seq<char>,
> {
    let s = pos_min(m, c);
    let e = pos_max(m, c);
    crate::buffer::splice_lines(
        lines,
        s.1 as int,
        e.1 as int,
        seq![
            lines[s.1 as int].subrange(0, s.0 as int) + lines[e.1 as int].subrange(
                e.0 + 1,
                lines[e.1 as int].len() as int,
            ),
        ],
    )
}

/// Deleting a marked region gives the same document whichever of its two ends
/// holds the mark.
pub proof fn lemma_region_delete_symmetric(lines: Seq<Seq<char>>, a: (u16, u16), b: (u16, u16))
    ensures
        region_fails(lines, a, b) == region_fails(lines, b, a),
        region_deleted(lines, a, b) == region_deleted(lines, b, a),
        pos_min(a, b) == pos_min(b, a),
{
}

/// Deletes the region from `s` through `e`, both included, and puts the
/// cursor on `s`.
fn delete_region(app: &mut App, s: (u16, u16), e: (u16, u16)) -> (r: Result<bool, AppError>)
    requires
        old(app).wf(),
        s == pos_min(s, e),
        e == pos_max(s, e),
    ensures
        final(app).wf(),
        keeps_frame(*old(app), *final(app)),
        final(app).prior_command == old(app).prior_command,
        final(app).search_result == old(app).search_result,
        final(app).editor_state.mark_point == old(app).editor_state.mark_point,
        final(app).editor_state.modal == old(app).editor_state.modal,
        r is Err <==> region_fails(old(app).file_state@, s, e),
        r is Ok ==> r == Ok::<bool, AppError>(true) && final(app).file_state@ == region_deleted(
            old(app).file_state@,
            s,
            e,
        ) && final(app).file_state.modified() && final(app).editor_state.cursor_pos == s,
        r matches Err(x) ==> x@ == seq![ErrorType::Range] && same_text(*final(app), *old(app))
            && final(app).editor_state.cursor_pos == old(app).editor_state.cursor_pos,
{
    let ghost lines = app.file_state@;
    if e.1 as usize >= app.file_state.len() {
        return Err(ErrorType::Range.pack());
    }
    let mut first = app.file_state.line_copy(s.1 as usize);
    let mut last = app.file_state.line_copy(e.1 as usize);
    if s.0 as usize > first.len() || e.0 as usize >= last.len() {
        return Err(ErrorType::Range.pack());
    }
    let ghost first_v = first@;
    let ghost last_v = last@;
    first.truncate(s.0 as usize);
    let mut tail = last.split_off(e.0 as usize + 1);
    first.append(&mut tail);
    let mut rows: Vec<Vec<char>> = Vec::new();
    rows.push(first);
    let _ = app.file_state.modify_lines(s.1, e.1, rows);
    proof {
        lemma_view_lines(rows@);
        assert(view_lines(rows@) =~= seq![
            first_v.subrange(0, s.0 as int) + last_v.subrange(e.0 + 1, last_v.len() as int),
        ]);
        assert(app.file_state@[s.1 as int] == view_lines(rows@)[0]);
    }
    app.editor_state.cursor_pos = s;
    Ok(true)
}

/// What `delete` leaves behind, from the state `pre` to the state `post`
/// with the result `r`.
pub open spec fn delete_post(pre: App, post: App, r: Result<bool, AppError>, key: Option<Key>) -> bool {
    &&& keeps_frame(pre, post)
    &&& (post.search_result == pre.search_result)
    &&& (post.editor_state.modal == pre.editor_state.modal)
    &&& (({
        let lines = pre.file_state@;
        let c = pre.editor_state.cursor_pos;
        &&& key is None && pre.editor_state.mark_point is None ==> r == Ok::<bool, AppError>(false)
            && post.prior_command == CommandPrior::Delete && same_text(post, pre)
            && post.editor_state == pre.editor_state
        &&& key is None && pre.editor_state.mark_point == Some(c) ==> r == Ok::<bool, AppError>(false)
            && post.prior_command == pre.prior_command && same_text(post, pre)
            && post.editor_state.mark_point is None && post.editor_state.cursor_pos == c
        &&& key is None && (pre.editor_state.mark_point matches Some(m) && m != c) ==> {
            let m = pre.editor_state.mark_point->Some_0;
            &&& post.prior_command == pre.prior_command
            &&& r is Err <==> region_fails(lines, m, c)
            &&& r is Ok ==> r == Ok::<bool, AppError>(true) && post.file_state@ == region_deleted(lines, m, c)
                && post.file_state.modified() && post.editor_state.cursor_pos == pos_min(m, c)
                && post.editor_state.mark_point is None
            &&& r matches Err(x) ==> x@ == seq![ErrorType::Range] && same_text(post, pre)
                && post.editor_state.cursor_pos == c && post.editor_state.mark_point
                == pre.editor_state.mark_point
        }
        &&& key is Some ==> post.prior_command == CommandPrior::Idle
            && post.editor_state.mark_point == pre.editor_state.mark_point
        &&& key == Some(Key::Char('d')) ==> (r is Err <==> lines.len() == 0) && (r is Ok ==> r
            == Ok::<bool, AppError>(true) && post.file_state@ == lines.remove(c.1 as int)
            && post.file_state.modified() && post.editor_state.cursor_pos
            == clamp_cursor(lines.remove(c.1 as int), (0u16, c.1)))
        &&& key == Some(Key::Tab) ==> (r is Err <==> lines.len() == 0) && (r is Ok ==> r
            == Ok::<bool, AppError>(true) && post.file_state@ == lines.update(c.1 as int, seq!['\n'])
            && post.file_state.modified() && post.editor_state.cursor_pos == (0u16, c.1))
        &&& (key matches Some(k) && k != Key::Char('d') && k != Key::Tab) ==> (r matches Err(x)
            && x@ == seq![ErrorType::InvalidCommand]) && same_text(post, pre)
            && post.editor_state.cursor_pos == c
        &&& r is Err ==> same_text(post, pre) && post.editor_state.cursor_pos == c
    }))
}

/// Without a key: deletes the marked region, both ends included, and clears
/// the mark; with no mark, arms the deletion. With a key: `d` deletes the
/// cursor's row, Tab empties it; any other key is refused.
pub fn delete(app: &mut App, key: Option<Key>) -> (r: Result<bool, AppError>)
    requires
        old(app).wf(),
    ensures
        final(app).wf(),
        delete_post(*old(app), *final(app), r, key),
{
    let cursor = app.editor_state.cursor_pos;
    let k = match key {
        None => {
            match app.editor_state.mark_point {
                Some(m) => {
                    if m.0 == cursor.0 && m.1 == cursor.1 {
                        app.editor_state.mark_point = None;
                        return Ok(false);
                    }
                    let mut start = m;
                    let mut end = cursor;
                    cursor_compare_swap(&mut start, &mut end);
                    let r = delete_region(app, start, end);
                    if r.is_ok() {
                        app.editor_state.mark_point = None;
                    }
                    return r;
                },
                None => {
                    app.prior_command = CommandPrior::Delete;
                    return Ok(false);
                },
            }
        },
        Some(k) => k,
    };
    app.prior_command = CommandPrior::Idle;
    let ghost lines = app.file_state@;
    let row = cursor.1;
    if k == Key::Char('d') {
        app.file_state.modify_lines(row, row, Vec::new())?;
        proof {
            lemma_view_lines(Seq::<Vec<char>>::empty());
            assert(app.file_state@ =~= lines.remove(row as int));
        }
        let n = app.file_state.len();
        if n == 0 {
            app.editor_state.cursor_pos = (0, 0);
        } else {
            let r: u16 = if row as usize >= n {
                (n - 1) as u16
            } else {
                row
            };
            app.editor_state.cursor_pos = (0, r);
        }
    } else if k == Key::Tab {
        let mut line: Vec<char> = Vec::new();
        line.push('\n');
        let mut rows: Vec<Vec<char>> = Vec::new();
        rows.push(line);
        app.file_state.modify_lines(row, row, rows)?;
        proof {
            lemma_view_lines(rows@);
            assert(app.file_state@ =~= lines.update(row as int, seq!['\n']));
        }
        app.editor_state.cursor_pos = (0, row);
    } else {
        return Err(ErrorType::InvalidCommand.pack());
    }
    Ok(true)
}

/// What `change` leaves behind, from the state `pre` to the state `post`
/// with the result `r`.
pub open spec fn change_post(pre: App, post: App, r: Result<bool, AppError>, key: Option<Key>) -> bool {
    &&& keeps_frame(pre, post)
    &&& (post.search_result == pre.search_result)
    &&& (({
        let lines = pre.file_state@;
        let c = pre.editor_state.cursor_pos;
        &&& key is None && pre.editor_state.mark_point is None ==> r == Ok::<bool, AppError>(false)
            && post.prior_command == CommandPrior::Change && same_text(post, pre)
            && post.editor_state == pre.editor_state
        &&& key is None && pre.editor_state.mark_point == Some(c) ==> r == Ok::<bool, AppError>(false)
            && same_text(post, pre) && post.editor_state.mark_point is None
            && post.editor_state.cursor_pos == c && post.editor_state.modal@
            == ModalType::Insert
        &&& key is None && (pre.editor_state.mark_point matches Some(m) && m != c) ==> {
            let m = pre.editor_state.mark_point->Some_0;
            &&& r is Err <==> region_fails(lines, m, c)
            &&& r is Ok ==> r == Ok::<bool, AppError>(true) && post.file_state@ == region_deleted(lines, m, c)
                && post.file_state.modified() && post.editor_state.cursor_pos == pos_min(m, c)
                && post.editor_state.mark_point is None && post.editor_state.modal@
                == ModalType::Insert
        }
        &&& key is Some ==> post.prior_command == CommandPrior::Idle
            && post.editor_state.mark_point == pre.editor_state.mark_point
        &&& key == Some(Key::Char('c')) ==> (r is Err <==> lines.len() == 0) && (r is Ok ==> r
            == Ok::<bool, AppError>(true) && post.file_state@ == lines.remove(c.1 as int)
            && post.editor_state.cursor_pos == clamp_cursor(lines.remove(c.1 as int), (0u16, c.1))
            && post.editor_state.modal@ == ModalType::Insert)
        &&& key == Some(Key::Tab) ==> (r is Err <==> lines.len() == 0) && (r is Ok ==> r
            == Ok::<bool, AppError>(true) && post.file_state@ == lines.update(c.1 as int, seq!['\n'])
            && post.editor_state.cursor_pos == (0u16, c.1) && post.editor_state.modal@
            == ModalType::Insert)
        &&& (key matches Some(k) && k != Key::Char('c') && k != Key::Tab) ==> (r matches Err(x)
            && x@ == seq![ErrorType::InvalidCommand])
        &&& r is Err ==> same_text(post, pre) && post.editor_state.cursor_pos == c
            && post.editor_state.modal == pre.editor_state.modal
    }))
}

/// Deletes as `delete` does and then switches to insert mode. With no mark
/// the change is armed instead; with a key, `c` changes the cursor's row and Tab
/// empties it, any other key is refused.
pub fn change(app: &mut App, key: Option<Key>) -> (r: Result<bool, AppError>)
    requires
        old(app).wf(),
    ensures
        final(app).wf(),
        change_post(*old(app), *final(app), r, key),
{
    match key {
        None => {
            let armed = app.editor_state.mark_point.is_none();
            let to_update = delete(app, None)?;
            if armed {
                app.prior_command = CommandPrior::Change;
            } else {
                app.editor_state.modal.switch_insert();
            }
            Ok(to_update)
        },
        Some(k) => {
            app.prior_command = CommandPrior::Idle;
            let to_update = if k == Key::Char('c') {
                delete(app, Some(Key::Char('d')))?
            } else if k == Key::Tab {
                delete(app, Some(Key::Tab))?
            } else {
                return Err(ErrorType::InvalidCommand.pack());
            };
            app.editor_state.modal.switch_insert();
            Ok(to_update)
        },
    }
}

/// What `change_insert` leaves behind, from the state `pre` to the state `post`
/// with the result `r`.
pub open spec fn change_insert_post(pre: App, post: App, r: Result<bool, AppError>, cursor_move: CursorMoveType) -> bool {
    &&& keeps_frame(pre, post)
    &&& (same_text(post, pre))
    &&& (post.search_result == pre.search_result)
    &&& (({
        let lines = pre.file_state@;
        let c = pre.editor_state.cursor_pos;
        let by_mark = pre.editor_state.mark_point is Some && cursor_move != CursorMoveType::Num(
            cursor_move->Num_0,
        );
        &&& by_mark ==> {
            let m = pre.editor_state.mark_point->Some_0;
            let target = if cursor_move == CursorMoveType::Beg {
                pos_min(m, c)
            } else {
                pos_max(m, c)
            };
            &&& r is Err <==> !cursor_valid(lines, target)
            &&& r is Ok ==> r == Ok::<bool, AppError>(false) && post.editor_state.cursor_pos == target
                && post.editor_state.mark_point is None && post.editor_state.modal@
                == ModalType::Insert
        }
        &&& !by_mark ==> {
            &&& post.editor_state.mark_point is None || post.editor_state.mark_point
                == pre.editor_state.mark_point
            &&& r is Err <==> move_fails(cursor_move, true, c, lines)
            &&& r is Ok ==> r == Ok::<bool, AppError>(false) && (post.editor_state.cursor_pos.0 as int,
                post.editor_state.cursor_pos.1 as int) == moved(cursor_move, true, c, lines)
                && post.editor_state.modal@ == ModalType::Insert
        }
        &&& r matches Err(x) ==> x@ == seq![ErrorType::Range] && post.editor_state.cursor_pos == c
            && post.editor_state.modal == pre.editor_state.modal
    }))
}

/// Switches to insert mode at a place chosen by `cursor_move`. With a mark, `Beg`
/// and `End` go to the earlier or the later end of the marked region and the
/// mark is cleared; otherwise the cursor moves within its line.
pub fn change_insert(app: &mut App, cursor_move: CursorMoveType) -> (r: Result<bool, AppError>)
    requires
        old(app).wf(),
    ensures
        final(app).wf(),
        change_insert_post(*old(app), *final(app), r, cursor_move),
{
    if let Some(m) = app.editor_state.mark_point {
        let mut start = m;
        let mut end = app.editor_state.cursor_pos;
        cursor_compare_swap(&mut start, &mut end);
        match cursor_move {
            CursorMoveType::Beg => {
                if !place_cursor(app, start) {
                    return Err(ErrorType::Range.pack());
                }
                app.editor_state.mark_point = None;
                app.editor_state.modal.switch_insert();
                return Ok(false);
            },
            CursorMoveType::End => {
                if !place_cursor(app, end) {
                    return Err(ErrorType::Range.pack());
                }
                app.editor_state.mark_point = None;
                app.editor_state.modal.switch_insert();
                return Ok(false);
            },
            CursorMoveType::Num(_) => {
                app.editor_state.mark_point = None;
            },
        }
    }
    move_cursor(app, true, cursor_move)?;
    app.editor_state.modal.switch_insert();
    Ok(false)
}

/// What running `cmd` with the argument `key` leaves behind: the effect of
/// the operation it names.
pub open spec fn execute_post(
    cmd: Command,
    pre: App,
    post: App,
    r: Result<bool, AppError>,
    key: Option<Key>,
) -> bool {
    match cmd {
        Command::Mark => mark_post(pre, post, r, key),
        Command::Save => save_post(pre, post, r),
        Command::Quit => r matches Ok(b) && quit_post(pre, post, b, key),
        Command::Change => change_post(pre, post, r, key),
        Command::NewLine(down) => r matches Ok(b) && newline_post(pre, post, b, down),
        Command::BackwardChar => backward_char_post(pre, post, r),
        Command::EscapeCommand => escape_command_post(pre, post, r),
        Command::ReplaceChar => replace_char_post(pre, post, r, key),
        Command::SearchJump(next) => search_jump_post(pre, post, r, next),
        Command::PageScroll(pages) => r matches Ok(b) && page_scroll_post(pre, post, b, pages),
        Command::Search => search_post(pre, post, r, None),
        Command::ChangeInsert(cursor_move) => change_insert_post(pre, post, r, cursor_move),
        Command::Move(within_line, cursor_move) => move_cursor_post(
            pre,
            post,
            r,
            within_line,
            cursor_move,
        ),
        Command::Delete(one_char) => if one_char {
            delete_char_post(pre, post, r)
        } else {
            delete_post(pre, post, r, key)
        },
    }
}

impl Command {
    /// Runs the operation, with `key` as its argument when it was pending.
    /// Returns whether the highlighting must be renewed.
    pub fn execute(&self, app: &mut App, key: Option<Key>) -> (r: Result<bool, AppError>)
        requires
            old(app).wf(),
        ensures
            final(app).wf(),
            execute_post(*self, *old(app), *final(app), r, key),
    {
        match *self {
            Command::Mark => mark(app, key),
            Command::Save => save(app),
            Command::Quit => Ok(quit(app, key)),
            Command::Change => change(app, key),
            Command::NewLine(down) => Ok(newline(app, down)),
            Command::BackwardChar => backward_char(app),
            Command::EscapeCommand => escape_command(app),
            Command::ReplaceChar => replace_char(app, key),
            Command::SearchJump(next) => search_jump(app, next),
            Command::PageScroll(pages) => Ok(page_scroll(app, pages)),
            Command::Search => search(app, None),
            Command::ChangeInsert(cursor_move) => change_insert(app, cursor_move),
            Command::Move(within_line, cursor_move) => move_cursor(app, within_line, cursor_move),
            Command::Delete(one_char) => {
                if one_char {
                    delete_char(app)
                } else {
                    delete(app, key)
                }
            },
        }
    }
}

} // verus!
