use vstd::prelude::*;

use crate::buffer::FileState;
use crate::command::{AppOption, Command, CommandPrior, Key, Keymap};
use crate::editor::EditorState;
use crate::error::{AppError, ErrorType};
use crate::modal::Modal;
use crate::search::SearchIndicates;
use crate::basic::{keeps_frame, same_text};

verus! {

/// Whether `c` (column, row) is a place for the cursor in `lines`: the origin
/// of an empty document, or a row of it and a column no further than the row's
/// length.
pub open spec fn cursor_valid(lines: Seq<Seq<char>>, c: (u16, u16)) -> bool {
    if lines.len() == 0 {
        c == (0u16, 0u16)
    } else {
        c.1 < lines.len() && c.0 <= lines[c.1 as int].len()
    }
}

/// What `CommandEdit::edit` leaves behind, from the state `pre` to the state
/// `post` with the result `r`.
pub open spec fn edit_post(pre: App, post: App, r: Result<bool, AppError>, key: Key) -> bool {
    &&& keeps_frame(pre, post)
    &&& post == (App { command_edit: post.command_edit, prior_command: post.prior_command, ..pre })
    &&& (same_text(post, pre))
    &&& (post.editor_state == pre.editor_state)
    &&& (post.search_result == pre.search_result)
    &&& (pre.command_edit is Inactive ==> r == Ok::<bool, AppError>(false)
            && post.command_edit is Inactive && post.prior_command
            == pre.prior_command)
    &&& (pre.command_edit is Active && (key == Key::Up || key == Key::Down || key == Key::Tab
            || key == Key::Other) ==> r == Ok::<bool, AppError>(false) && post.command_edit
            == pre.command_edit)
    &&& (pre.command_edit matches CommandEdit::Active(s, p, cmd) ==> {
            &&& key == Key::Esc ==> r == Ok::<bool, AppError>(false)
                && post.command_edit is Inactive
            &&& key == Key::Left ==> r == Ok::<bool, AppError>(false) && (post.command_edit matches CommandEdit::Active(text_after, pos_after, cmd_after) && text_after@ == s@ && cmd_after
                == cmd && pos_after == if p > 0 {
                p - 1
            } else {
                0
            })
            &&& key == Key::Right ==> r == Ok::<bool, AppError>(false) && (post.command_edit matches CommandEdit::Active(text_after, pos_after, cmd_after) && text_after@ == s@ && cmd_after
                == cmd && pos_after == if p < s@.len() {
                p + 1
            } else {
                p as int
            })
            &&& key == Key::Backspace ==> r == Ok::<bool, AppError>(false) && (post.command_edit matches CommandEdit::Active(text_after, pos_after, cmd_after) && cmd_after == cmd && if p
                == 0 {
                text_after@ == s@ && pos_after == 0
            } else {
                text_after@ == s@.remove(p - 1) && pos_after == p - 1
            })
            &&& key matches Key::Char(ch) ==> r == Ok::<bool, AppError>(false) && (post.command_edit matches CommandEdit::Active(text_after, pos_after, cmd_after) && cmd_after == cmd && text_after@
                == s@.insert(p as int, ch) && pos_after == p + 1)
            &&& key == Key::Enter ==> post.command_edit is Inactive && if cmd is Search {
                r == Ok::<bool, AppError>(true) && (post.prior_command matches CommandPrior::Search(q)
                    && q@ == s@)
            } else {
                r matches Err(e) && e@.len() == 1 && e@[0] is Specific && post.prior_command
                    == pre.prior_command
            }
            &&& key != Key::Enter ==> post.prior_command == pre.prior_command
        })
}

/// The line being typed on the command line: its text, the position in it, and
/// the operation it is for.
#[derive(Debug)]
pub enum CommandEdit {
    Active(Vec<char>, usize, CommandPrior),
    Inactive,
}

impl CommandEdit {
    /// A command line holding `init_str`, with the position at its end.
    pub fn new(init_str: Vec<char>, cmd: CommandPrior) -> (r: CommandEdit)
        ensures
            r matches CommandEdit::Active(s, p, c) && s@ == init_str@ && p == init_str@.len() && c
                == cmd,
    {
        let cursor = init_str.len();
        CommandEdit::Active(init_str, cursor, cmd)
    }

    /// Passes `key` to the command line being typed: Esc closes it, Left and
    /// Right move in it, Backspace deletes before the position, a character goes
    /// in at the position, Enter closes it and hands a search pattern on as the
    /// pending search. Returns whether Enter finished the line.
    pub fn edit(app: &mut App, key: Key) -> (r: Result<bool, AppError>)
        requires
            old(app).wf(),
        ensures
            final(app).wf(),
            edit_post(*old(app), *final(app), r, key),
    {
        let mut current = CommandEdit::Inactive;
        std::mem::swap(&mut current, &mut app.command_edit);
        match current {
            CommandEdit::Inactive => Ok(false),
            CommandEdit::Active(mut content, mut cursor, cmd) => {
                match key {
                    Key::Esc => {
                        return Ok(false);
                    },
                    Key::Left => {
                        if cursor != 0 {
                            cursor = cursor - 1;
                        }
                    },
                    Key::Right => {
                        if cursor != content.len() {
                            cursor = cursor + 1;
                        }
                    },
                    Key::Backspace => {
                        if cursor != 0 {
                            content.remove(cursor - 1);
                            cursor = cursor - 1;
                        }
                    },
                    Key::Char(ch) => {
                        content.insert(cursor, ch);
                        let n = content.len();
                        assert(cursor < n);
                        cursor = cursor + 1;
                    },
                    Key::Enter => {
                        return match cmd {
                            CommandPrior::Search(_) => {
                                app.prior_command = CommandPrior::Search(content);
                                Ok(true)
                            },
                            _ => Err(
                                ErrorType::Specific(
                                    "Unknown command is occupying the command line".to_owned(),
                                ).pack(),
                            ),
                        };
                    },
                    _ => {},
                }
                app.command_edit = CommandEdit::Active(content, cursor, cmd);
                Ok(false)
            },
        }
    }
}

/// The whole state of the editor.
#[derive(Debug)]
pub struct App {
    pub keymap: Keymap,
    pub options: AppOption,
    pub search_result: SearchIndicates,
    pub file_state: FileState,
    pub editor_state: EditorState,
    pub prior_command: CommandPrior,
    pub app_errors: AppError,
    /// A question waiting for a yes.
    pub ask_msg: Option<String>,
    pub command_edit: CommandEdit,
    /// Whether the text changed, so its highlighting must be renewed.
    pub update_stylized: bool,
    /// Whether the document waits to be written.
    pub save_request: bool,
}

impl App {
    /// The invariant: the selected match exists and the cursor is a place in
    /// the document.
    pub open spec fn wf(&self) -> bool {
        &&& self.search_result.wf()
        &&& cursor_valid(self.file_state@, self.editor_state.cursor_pos)
        &&& self.command_edit matches CommandEdit::Active(s, p, _) ==> p <= s@.len()
    }

    /// An editor on an empty document with the given bindings and options.
    pub fn new(keymap: Keymap, options: AppOption) -> (r: App)
        ensures
            r.wf(),
            r.file_state@.len() == 0,
            !r.file_state.modified(),
            r.editor_state.cursor_pos == (0u16, 0u16),
            r.editor_state.mark_point is None,
            r.editor_state.modal@ == crate::modal::ModalType::Normal,
            r.prior_command == CommandPrior::Idle,
            r.app_errors@.len() == 0,
            r.ask_msg is None,
            r.command_edit is Inactive,
            r.keymap@ == keymap@,
            r.options.tab_indent == options.tab_indent,
            !r.save_request,
    {
        App {
            keymap,
            options,
            search_result: SearchIndicates::new(),
            file_state: FileState::new(),
            editor_state: EditorState::new(),
            prior_command: CommandPrior::Idle,
            app_errors: AppError::new(),
            ask_msg: None,
            command_edit: CommandEdit::Inactive,
            update_stylized: true,
            save_request: false,
        }
    }

    /// Loads `text` as the document and puts the cursor at its start.
    pub fn load(&mut self, text: &Vec<char>)
        requires
            old(self).wf(),
        ensures
            final(self).wf(),
            final(self).file_state@ == crate::buffer::split_lines(text@),
            !final(self).file_state.modified(),
            final(self).editor_state.cursor_pos == (0u16, 0u16),
            final(self).editor_state.file_linenr == final(self).file_state@.len(),
    {
        self.file_state.init(text);
        self.editor_state.cursor_pos = (0, 0);
        self.editor_state.mark_point = None;
        self.search_result.clear();
        let n = self.file_state.len();
        self.editor_state.update_linenr(n);
        self.update_stylized = true;
    }

    pub fn get_modal(&mut self) -> (r: &mut Modal)
        ensures
            *r == old(self).editor_state.modal,
            final(self).editor_state.modal == *final(r),
            final(self).editor_state.cursor_pos == old(self).editor_state.cursor_pos,
            final(self).file_state@ == old(self).file_state@,
            final(self).search_result == old(self).search_result,
    {
        &mut self.editor_state.modal
    }

    /// The operation bound to `key`.
    pub fn get_command(&self, key: Key) -> (r: Option<Command>)
        ensures
            r == crate::command::binding(self.keymap@, key),
    {
        self.keymap.get(key)
    }

    pub fn options(&self) -> (r: &AppOption)
        ensures
            r == &self.options,
    {
        &self.options
    }

    pub fn search_ref(&self) -> (r: &SearchIndicates)
        ensures
            r == &self.search_result,
    {
        &self.search_result
    }

    /// Queues the failures of `err` and makes the next key acknowledge the
    /// oldest one.
    pub fn report(&mut self, err: AppError)
        ensures
            final(self).app_errors@ == old(self).app_errors@ + err@,
            final(self).app_errors@.len() > 0 ==> final(self).prior_command
                == CommandPrior::ConfirmError,
            final(self).app_errors@.len() == 0 ==> final(self).prior_command
                == old(self).prior_command,
            final(self).command_edit == old(self).command_edit,
            *final(self) == (App {
                app_errors: final(self).app_errors,
                prior_command: final(self).prior_command,
                ..*old(self)
            }),
            final(self).file_state@ == old(self).file_state@,
            final(self).file_state.modified() == old(self).file_state.modified(),
            final(self).editor_state == old(self).editor_state,
            final(self).search_result == old(self).search_result,
    {
        self.app_errors.append_errors(err);
        if !self.app_errors.empty() {
            self.prior_command = CommandPrior::ConfirmError;
        }
    }

    /// Takes the request to write the document, if there is one.
    pub fn take_save_request(&mut self) -> (r: bool)
        ensures
            r == old(self).save_request,
            !final(self).save_request,
            final(self).file_state@ == old(self).file_state@,
            final(self).file_state.modified() == old(self).file_state.modified(),
            final(self).editor_state == old(self).editor_state,
            final(self).search_result == old(self).search_result,
    {
        let r = self.save_request;
        self.save_request = false;
        r
    }

    /// Reconciles the window with the cursor before a frame of `height` rows and
    /// `width` columns is drawn. Returns whether the highlighting must be
    /// renewed: the text changed or the window moved. A changed text also
    /// forgets the last search. A cursor that an explicit scroll pulled to the
    /// window's edge is held to its new row's length. While errors wait in the
    /// queue, the next key is made to acknowledge the oldest.
    pub fn frame_tick(&mut self, height: u16, width: u16) -> (r: bool)
        requires
            old(self).wf(),
            crate::editor::gutter_width(old(self).editor_state.file_linenr as nat) < width,
            height > 0,
            old(self).editor_state.vertical_offset + height <= 65536,
        ensures
            final(self).wf(),
            final(self).file_state@ == old(self).file_state@,
            final(self).file_state.modified() == old(self).file_state.modified(),
            final(self).app_errors == old(self).app_errors,
            final(self).prior_command == (if old(self).app_errors@.len() > 0 {
                CommandPrior::ConfirmError
            } else {
                old(self).prior_command
            }),
            !final(self).update_stylized,
            r == (old(self).update_stylized || (old(self).editor_state.editor_height is Some
                && old(self).editor_state.editor_height != Some(height)) || !(
            old(self).editor_state.vertical_offset <= old(self).editor_state.cursor_pos.1
                < old(self).editor_state.vertical_offset + height)),
            old(self).update_stylized ==> final(self).search_result.matches().len() == 0,
            !old(self).update_stylized ==> final(self).search_result == old(self).search_result,
            !old(self).editor_state.scrolling ==> final(self).editor_state.cursor_pos
                == old(self).editor_state.cursor_pos,
            old(self).editor_state.scrolling ==> final(self).editor_state.cursor_pos
                == crate::basic::clamp_cursor(
                old(self).file_state@,
                (old(self).editor_state.cursor_pos.0, scrolled_row(
                    old(self).editor_state.cursor_pos.1 as int,
                    old(self).editor_state.vertical_offset as int,
                    height as int,
                ) as u16),
            ),
            !old(self).editor_state.scrolling || old(self).editor_state.vertical_offset
                < old(self).file_state@.len() ==> final(self).editor_state.vertical_offset
                <= final(self).editor_state.cursor_pos.1 < final(self).editor_state.vertical_offset
                + height,
            final(self).editor_state.horizontal_offset <= final(self).editor_state.cursor_pos.0,
            final(self).editor_state.cursor_pos.0 - final(self).editor_state.horizontal_offset
                < width - crate::editor::gutter_width(old(self).editor_state.file_linenr as nat),
    {
        let moved = self.editor_state.update(height, width);
        let restyle = self.update_stylized || moved;
        if self.update_stylized {
            self.search_result.clear();
        }
        self.update_stylized = false;
        let (col, row) = self.editor_state.cursor_pos;
        let n = self.file_state.len();
        if n == 0 {
            self.editor_state.cursor_pos = (0, 0);
        } else {
            let r: u16 = if row as usize >= n {
                (n - 1) as u16
            } else {
                row
            };
            let len = self.file_state.line_len(r as usize);
            let c: u16 = if col as usize > len {
                len as u16
            } else {
                col
            };
            self.editor_state.cursor_pos = (c, r);
        }
        if self.editor_state.horizontal_offset > self.editor_state.cursor_pos.0 {
            self.editor_state.horizontal_offset = self.editor_state.cursor_pos.0;
        }
        if !self.app_errors.empty() {
            self.prior_command = CommandPrior::ConfirmError;
        }
        restyle
    }
}

/// The row that a cursor on `row` is pulled to by an explicit scroll that left
/// the window at `offset` with `height` rows: the window's nearer edge.
pub open spec fn scrolled_row(row: int, offset: int, height: int) -> int {
    if row < offset {
        offset
    } else if row >= offset + height {
        offset + height - 1
    } else {
        row
    }
}

} // verus!
