use vstd::prelude::*;

use crate::app::{App, CommandEdit};
use crate::app::edit_post;
use crate::basic::{
    backward_char, backward_char_post, execute_post, insert_char, insert_char_post, same_text,
    search, search_post,
};
use crate::editor::EditorState;
use crate::command::{binding, Command, CommandPrior, Key};
use crate::error::{AppError, ErrorType};
use crate::modal::ModalType;

verus! {

/// The result of a dispatch, with `b` as what the operation reported on
/// success.
pub open spec fn lift(r: Result<(), AppError>, b: bool) -> Result<bool, AppError> {
    match r {
        Ok(_) => Ok(b),
        Err(e) => Err(e),
    }
}

/// The operation that the pending state `p` hands the next key to.
pub open spec fn pending_command(p: CommandPrior) -> Command {
    match p {
        CommandPrior::Mark => Command::Mark,
        CommandPrior::Quit(_) => Command::Quit,
        CommandPrior::Change => Command::Change,
        CommandPrior::ReplaceChar => Command::ReplaceChar,
        _ => Command::Delete(false),
    }
}

/// What dispatching `key` leaves behind, from the state `pre` to the state
/// `post` with the result `r`. The operation that runs reports through the
/// highlighting flag whether the text must be restyled.
pub open spec fn handle_input_post(pre: App, post: App, r: Result<(), AppError>, key: Key) -> bool {
    let rb = lift(r, post.update_stylized);
    let idle = App { prior_command: CommandPrior::Idle, ..pre };
    if pre.prior_command == CommandPrior::ConfirmError {
        &&& r is Ok
        &&& post.app_errors@ == (if pre.app_errors@.len() > 0 {
            pre.app_errors@.drop_first()
        } else {
            pre.app_errors@
        })
        &&& post.prior_command == CommandPrior::Idle
        &&& post == (App { app_errors: post.app_errors, prior_command: post.prior_command, ..pre })
    } else if pre.command_edit is Active && key != Key::Enter {
        r is Ok && edit_post(pre, post, Ok(false), key)
    } else if pre.command_edit is Active {
        let closed = App { command_edit: CommandEdit::Inactive, ..pre };
        match pre.command_edit {
            CommandEdit::Active(s, _, cmd) => if !(cmd is Search) {
                (r matches Err(e) && e@.len() == 1 && e@[0] is Specific) && post == closed
            } else if pre.editor_state.modal@ == ModalType::Normal {
                search_post(App { prior_command: CommandPrior::Idle, ..closed }, post, rb, Some(s@))
            } else {
                insert_char_post(closed, post, rb, '\n')
            },
            CommandEdit::Inactive => true,
        }
    } else if pre.editor_state.modal@ == ModalType::Insert {
        match key {
            Key::Char(ch) => insert_char_post(pre, post, rb, ch),
            Key::Enter => insert_char_post(pre, post, rb, '\n'),
            Key::Tab => insert_char_post(pre, post, rb, '\t'),
            Key::Backspace => backward_char_post(pre, post, rb),
            Key::Esc => r is Ok && post.editor_state.modal@ == ModalType::Normal && post == (App {
                editor_state: EditorState { modal: post.editor_state.modal, ..pre.editor_state },
                ..pre
            }),
            _ => r is Ok && post == (App { update_stylized: false, ..pre }),
        }
    } else {
        match pre.prior_command {
            CommandPrior::Search(pat) => search_post(idle, post, rb, Some(pat@)),
            CommandPrior::Idle => match binding(pre.keymap@, key) {
                Some(c) => execute_post(c, pre, post, rb, None),
                None => (r matches Err(e) && e@ == seq![ErrorType::InvalidCommand]) && post == pre,
            },
            p => execute_post(pending_command(p), idle, post, rb, Some(key)),
        }
    }
}

/// Dispatches one key. An error on display takes the key as its
/// acknowledgement: the oldest error leaves the queue and nothing waits for a
/// key any more (the next frame shows the next queued error, if any).
/// Otherwise a command line being typed takes the key; insert mode types it; in
/// normal mode it goes to the pending operation, else to the operation bound
/// to it, and a key bound to nothing is refused.
pub fn handle_input(app: &mut App, key: Key) -> (r: Result<(), AppError>)
    requires
        old(app).wf(),
    ensures
        final(app).wf(),
        handle_input_post(*old(app), *final(app), r, key),
{
    if let CommandPrior::ConfirmError = app.prior_command {
        if !app.app_errors.empty() {
            app.app_errors.throw();
        }
        app.prior_command = CommandPrior::Idle;
        return Ok(());
    }
    if let CommandEdit::Active(_, _, _) = app.command_edit {
        if !CommandEdit::edit(app, key)? {
            return Ok(());
        }
    }
    if app.editor_state.modal.modal() == ModalType::Insert {
        let to_update = match key {
            Key::Char(ch) => insert_char(app, ch)?,
            Key::Backspace => backward_char(app)?,
            Key::Enter => insert_char(app, '\n')?,
            Key::Tab => insert_char(app, '\t')?,
            Key::Esc => {
                app.editor_state.modal.switch_normal();
                return Ok(());
            },
            _ => false,
        };
        app.update_stylized = to_update;
        return Ok(());
    }
    let mut prior = CommandPrior::Idle;
    std::mem::swap(&mut prior, &mut app.prior_command);
    let pending = match prior {
        CommandPrior::Idle => None,
        CommandPrior::Mark => Some(Command::Mark),
        CommandPrior::Quit(_) => Some(Command::Quit),
        CommandPrior::Change => Some(Command::Change),
        CommandPrior::ReplaceChar => Some(Command::ReplaceChar),
        CommandPrior::Delete => Some(Command::Delete(false)),
        CommandPrior::ConfirmError => None,
        CommandPrior::Search(pat) => {
            app.update_stylized = search(app, Some(pat))?;
            return Ok(());
        },
    };
    if let Some(command) = pending {
        app.update_stylized = command.execute(app, Some(key))?;
        return Ok(());
    }
    if let Some(command) = app.get_command(key) {
        app.update_stylized = command.execute(app, None)?;
        return Ok(());
    }
    Err(ErrorType::InvalidCommand.pack())
}

/// Whether `post` is `mid` with the failure of `r`, if any, queued: every
/// failure goes to the back of the error queue, and a queue that holds one
/// makes the next key acknowledge the oldest.
pub open spec fn queued(mid: App, post: App, r: Result<(), AppError>) -> bool {
    match r {
        Ok(_) => post == mid,
        Err(e) => {
            &&& post.app_errors@ == mid.app_errors@ + e@
            &&& post.prior_command == (if post.app_errors@.len() > 0 {
                CommandPrior::ConfirmError
            } else {
                mid.prior_command
            })
            &&& post == (App {
                app_errors: post.app_errors,
                prior_command: post.prior_command,
                ..mid
            })
        },
    }
}

/// Dispatches one key and queues the failure, if any, for display; the next
/// key then acknowledges the oldest queued failure.
pub fn handle_key(app: &mut App, key: Key)
    requires
        old(app).wf(),
    ensures
        final(app).wf(),
        exists|r: Result<(), AppError>, mid: App|
            #[trigger] handle_input_post(*old(app), mid, r, key) && queued(mid, *final(app), r),
        old(app).prior_command == CommandPrior::Idle && old(app).command_edit is Inactive
            && old(app).editor_state.modal@ == ModalType::Normal && binding(old(app).keymap@, key)
            is None ==> final(app).prior_command == CommandPrior::ConfirmError
            && final(app).app_errors@ == old(app).app_errors@.push(ErrorType::InvalidCommand)
            && same_text(*final(app), *old(app)),
{
    let ghost pre = *app;
    let ghost before = app.app_errors@;
    let res = handle_input(app, key);
    let ghost mid = *app;
    let ghost rr = res;
    match res {
        Ok(()) => {},
        Err(e) => {
            proof {
                assert(before + seq![ErrorType::InvalidCommand] =~= before.push(
                    ErrorType::InvalidCommand,
                ));
            }
            app.report(e);
        },
    }
    proof {
        assert(handle_input_post(pre, mid, rr, key) && queued(mid, *app, rr));
    }
}

} // verus!
