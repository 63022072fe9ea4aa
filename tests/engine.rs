use tetor::app::{App, CommandEdit};
use tetor::basic::{
    backward_char, change, change_insert, delete, delete_char, escape_command, insert_char, mark,
    move_cursor, newline, page_scroll, quit, replace_char, save, search, search_jump,
};
use tetor::buffer::FileState;
use tetor::command::{AppOption, Command, CommandPrior, CursorMoveType, Key, Keymap};
use tetor::editor::{nr_length, EditorState};
use tetor::error::{AppError, ErrorType};
use tetor::handle_input::{handle_input, handle_key};
use tetor::modal::ModalType;
use tetor::search::{find_matches, SearchIndicates};
use tetor::utils::cursor_compare_swap;

fn chars(s: &str) -> Vec<char> {
    s.chars().collect()
}

fn app_with(text: &str) -> App {
    let mut app = App::new(Keymap::new(), AppOption::new());
    app.load(&chars(text));
    app
}

fn lines_of(app: &App) -> Vec<String> {
    app.file_state.content_ref().iter().map(|l| l.iter().collect()).collect()
}

fn buffer_of(text: &str) -> FileState {
    let mut f = FileState::new();
    f.init(&chars(text));
    f
}

fn buffer_lines(f: &FileState) -> Vec<String> {
    f.content_ref().iter().map(|l| l.iter().collect()).collect()
}

fn is_range(e: &AppError) -> bool {
    e.clone().into_iter().len() == 1 && matches!(e.get_first(), ErrorType::Range)
}

fn is_invalid(e: &AppError) -> bool {
    e.clone().into_iter().len() == 1 && matches!(e.get_first(), ErrorType::InvalidCommand)
}

#[test]
fn relative_move_clamps_to_last_column() {
    let mut app = app_with("ab\ncd\n");
    assert_eq!(move_cursor(&mut app, true, CursorMoveType::Num(5)).unwrap(), false);
    assert_eq!(app.editor_state.cursor(), (1, 0));
}

#[test]
fn newline_on_empty_buffer_opens_first_line() {
    let mut app = app_with("");
    assert!(newline(&mut app, false));
    assert_eq!(lines_of(&app), vec!["\n".to_string()]);
    assert_eq!(app.editor_state.cursor(), (0, 0));
    assert_eq!(app.editor_state.modal.modal(), ModalType::Insert);
}

#[test]
fn search_selects_nearest_next_match() {
    let mut app = app_with("hello\n");
    search(&mut app, Some(chars("l"))).unwrap();
    let found: Vec<(u16, u16)> = app
        .search_ref()
        .indicates()
        .iter()
        .map(|(r, row)| (r.start, *row))
        .collect();
    assert_eq!(found, vec![(2, 0), (3, 0)]);
    assert_eq!(app.search_ref().indicates()[0].0, 2..3);
    assert_eq!(app.editor_state.cursor(), (2, 0));
    assert_eq!(app.search_ref().selected(), Some(0));
}

#[test]
fn quit_on_dirty_buffer_asks_then_confirms() {
    let mut app = app_with("a\n");
    insert_char(&mut app, 'x').unwrap();
    assert!(app.file_state.not_save());
    assert!(!quit(&mut app, None));
    assert_eq!(app.prior_command, CommandPrior::Quit(false));
    assert!(app.ask_msg.is_some());
    quit(&mut app, Some(Key::Char('y')));
    assert_eq!(app.prior_command, CommandPrior::Quit(true));
    assert!(app.ask_msg.is_none());
}

#[test]
fn quit_on_clean_buffer_is_immediate() {
    let mut app = app_with("a\n");
    quit(&mut app, None);
    assert_eq!(app.prior_command, CommandPrior::Quit(true));
}

#[test]
fn quit_cancelled_by_other_key() {
    let mut app = app_with("a\n");
    app.file_state.file_modify();
    quit(&mut app, None);
    quit(&mut app, Some(Key::Char('n')));
    assert_eq!(app.prior_command, CommandPrior::Idle);
}

#[test]
fn replace_range_with_nothing_deletes_rows() {
    let mut f = buffer_of("a\nb\nc\nd\n");
    f.modify_lines(1, 2, Vec::new()).unwrap();
    assert_eq!(buffer_lines(&f), vec!["a\n", "d\n"]);
    assert!(f.not_save());
}

#[test]
fn replace_range_deletes_at_both_ends() {
    let mut f = buffer_of("a\nb\nc\n");
    f.modify_lines(0, 0, Vec::new()).unwrap();
    assert_eq!(buffer_lines(&f), vec!["b\n", "c\n"]);
    f.modify_lines(1, 1, Vec::new()).unwrap();
    assert_eq!(buffer_lines(&f), vec!["b\n"]);
    f.modify_lines(0, 0, Vec::new()).unwrap();
    assert_eq!(f.len(), 0);
}

#[test]
fn replace_range_with_more_or_fewer_lines() {
    let mut f = buffer_of("a\nb\nc\n");
    f.modify_lines(1, 1, vec![chars("x\n"), chars("y\n")]).unwrap();
    assert_eq!(buffer_lines(&f), vec!["a\n", "x\n", "y\n", "c\n"]);
    f.modify_lines(0, 2, vec![chars("z\n")]).unwrap();
    assert_eq!(buffer_lines(&f), vec!["z\n", "c\n"]);
}

#[test]
fn replace_then_get_round_trips() {
    let mut f = buffer_of("a\nb\nc\n");
    let new_lines = vec![chars("p\n"), chars("q\n")];
    f.modify_lines(1, 2, new_lines.clone()).unwrap();
    assert_eq!(f.get_lines(1, 2).unwrap(), new_lines);
}

#[test]
fn range_errors() {
    let empty = FileState::new();
    assert!(is_range(&empty.get_lines(0, 0).unwrap_err()));
    let mut f = buffer_of("a\nb\n");
    assert!(is_range(&f.get_lines(1, 0).unwrap_err()));
    assert!(is_range(&f.get_lines(0, 2).unwrap_err()));
    assert!(is_range(&f.modify_lines(2, 2, Vec::new()).unwrap_err()));
    assert_eq!(buffer_lines(&f), vec!["a\n", "b\n"]);
    assert!(!f.not_save());
}

#[test]
fn save_after_load_reproduces_text() {
    for text in ["x\ny", "x\ny\n", "", "\n\n", "one line"] {
        let f = buffer_of(text);
        let out: String = f.save_content().iter().collect();
        assert_eq!(out, text);
    }
    assert_eq!(buffer_lines(&buffer_of("x\ny")), vec!["x\n", "y"]);
}

#[test]
fn saved_flag_follows_writes() {
    let mut f = buffer_of("a\n");
    assert!(!f.not_save());
    f.file_modify();
    assert!(f.not_save());
    f.mark_saved();
    assert!(!f.not_save());
}

fn ten_lines() -> App {
    let mut app = app_with("0\n1\n2\n3\n4\n5\n6\n7\n8\n9\n");
    app.editor_state.editor_height = Some(3);
    app
}

#[test]
fn page_scroll_clamps_to_document() {
    let mut app = ten_lines();
    assert!(page_scroll(&mut app, 1));
    assert_eq!(app.editor_state.offset(), 3);
    assert!(app.editor_state.scrolling);
    assert!(page_scroll(&mut app, 100));
    assert_eq!(app.editor_state.offset(), 7);
    assert!(page_scroll(&mut app, -100));
    assert_eq!(app.editor_state.offset(), 0);
    assert!(page_scroll(&mut app, isize::MAX));
    assert_eq!(app.editor_state.offset(), 7);
    assert!(page_scroll(&mut app, isize::MIN));
    assert_eq!(app.editor_state.offset(), 0);
}

#[test]
fn page_scroll_on_short_buffer_stays_at_top() {
    let mut app = app_with("a\n");
    app.editor_state.editor_height = Some(5);
    assert!(page_scroll(&mut app, 2));
    assert_eq!(app.editor_state.offset(), 0);
    assert!(app.editor_state.scrolling);
}

#[test]
fn page_scroll_without_height_does_nothing() {
    let mut app = app_with("a\n");
    assert!(!page_scroll(&mut app, 2));
    assert_eq!(app.editor_state.offset(), 0);
}

#[test]
fn advance_cycles_through_matches() {
    let mut s = SearchIndicates::new();
    s.set(chars("ab"), vec![(0, 0), (4, 1), (1, 2)]);
    assert_eq!(s.indicates()[1].0, 4..6);
    assert_eq!(s.advance(true), Some((0, 0)));
    for _ in 0..2 {
        s.advance(true);
    }
    assert_eq!(s.current_indicate(), Some((1, 2)));
    assert_eq!(s.advance(true), Some((0, 0)));
    for _ in 0..3 {
        s.advance(true);
    }
    assert_eq!(s.selected(), Some(0));

    let mut b = SearchIndicates::new();
    b.set(chars("ab"), vec![(0, 0), (4, 1), (1, 2)]);
    assert_eq!(b.advance(false), Some((1, 2)));
    for _ in 0..3 {
        b.advance(false);
    }
    assert_eq!(b.selected(), Some(2));
    assert_eq!(b.advance(false), Some((4, 1)));
}

#[test]
fn advance_without_matches_is_none() {
    let mut s = SearchIndicates::new();
    assert_eq!(s.advance(true), None);
    assert_eq!(s.selected(), None);
    assert!(!s.has_history());
}

#[test]
fn nearest_next_wraps_to_first() {
    let mut s = SearchIndicates::new();
    s.set(chars("x"), vec![(0, 0), (3, 1)]);
    assert_eq!(s.nearest_next((4, 1)), Some((0, 0)));
    assert_eq!(s.selected(), Some(0));
    assert_eq!(s.nearest_next((3, 1)), Some((3, 1)));
    assert_eq!(s.nearest_next((9, 0)), Some((3, 1)));
}

#[test]
fn indicates_find_and_clear() {
    let mut s = SearchIndicates::new();
    s.set(chars("abc"), vec![(2, 1)]);
    assert!(s.indicates_find((2, 1)));
    assert!(s.indicates_find((4, 1)));
    assert!(!s.indicates_find((5, 1)));
    assert!(!s.indicates_find((2, 0)));
    assert!(s.has_history());
    s.clear();
    assert!(!s.has_history());
    assert!(s.indicates().is_empty());
}

#[test]
fn find_matches_do_not_overlap() {
    let lines = vec![chars("aaaa\n"), chars("xaay\n")];
    assert_eq!(find_matches(&lines, &chars("aa")), vec![(0, 0), (2, 0), (1, 1)]);
    assert_eq!(find_matches(&lines, &chars("zz")), vec![]);
}

fn delete_region_with(mark_at: (u16, u16), cursor_at: (u16, u16)) -> (Vec<String>, (u16, u16)) {
    let mut app = app_with("abc\ndef\nghi\n");
    app.editor_state.cursor_pos = cursor_at;
    app.editor_state.mark_point = Some(mark_at);
    assert!(delete(&mut app, None).unwrap());
    assert_eq!(app.editor_state.mark(), None);
    (lines_of(&app), app.editor_state.cursor())
}

#[test]
fn mark_region_delete_is_symmetric() {
    let a = delete_region_with((1, 0), (1, 1));
    let b = delete_region_with((1, 1), (1, 0));
    assert_eq!(a, b);
    assert_eq!(a.0, vec!["af\n", "ghi\n"]);
    assert_eq!(a.1, (1, 0));
    let c = delete_region_with((0, 2), (2, 0));
    assert_eq!(c, delete_region_with((2, 0), (0, 2)));
    assert_eq!(c.0, vec!["abhi\n"]);
}

#[test]
fn delete_with_mark_on_cursor_only_clears_mark() {
    let mut app = app_with("abc\n");
    app.editor_state.mark_point = Some((0, 0));
    assert!(!delete(&mut app, None).unwrap());
    assert_eq!(app.editor_state.mark(), None);
    assert_eq!(lines_of(&app), vec!["abc\n"]);
}

#[test]
fn delete_arms_then_deletes_line() {
    let mut app = app_with("a\nb\nc\n");
    app.editor_state.cursor_pos = (0, 2);
    assert!(!delete(&mut app, None).unwrap());
    assert_eq!(app.prior_command, CommandPrior::Delete);
    assert!(delete(&mut app, Some(Key::Char('d'))).unwrap());
    assert_eq!(app.prior_command, CommandPrior::Idle);
    assert_eq!(lines_of(&app), vec!["a\n", "b\n"]);
    assert_eq!(app.editor_state.cursor(), (0, 1));
}

#[test]
fn delete_with_tab_empties_line() {
    let mut app = app_with("abc\nd\n");
    app.editor_state.cursor_pos = (2, 0);
    delete(&mut app, Some(Key::Tab)).unwrap();
    assert_eq!(lines_of(&app), vec!["\n", "d\n"]);
    assert_eq!(app.editor_state.cursor(), (0, 0));
}

#[test]
fn delete_with_other_key_is_invalid() {
    let mut app = app_with("abc\n");
    let e = delete(&mut app, Some(Key::Char('q'))).unwrap_err();
    assert!(is_invalid(&e));
    assert_eq!(lines_of(&app), vec!["abc\n"]);
}

#[test]
fn mark_is_set_by_mark_key_only() {
    let mut app = app_with("abc\n");
    app.editor_state.cursor_pos = (2, 0);
    mark(&mut app, None).unwrap();
    assert_eq!(app.prior_command, CommandPrior::Mark);
    mark(&mut app, Some(Key::Char('m'))).unwrap();
    assert_eq!(app.editor_state.mark(), Some((2, 0)));
    assert!(is_invalid(&mark(&mut app, Some(Key::Char('x'))).unwrap_err()));
}

#[test]
fn insert_char_variants() {
    let mut app = app_with("ab\n");
    app.editor_state.cursor_pos = (1, 0);
    assert!(insert_char(&mut app, 'x').unwrap());
    assert_eq!(lines_of(&app), vec!["axb\n"]);
    assert_eq!(app.editor_state.cursor(), (2, 0));
    insert_char(&mut app, '\t').unwrap();
    assert_eq!(lines_of(&app), vec!["ax    b\n"]);
    assert_eq!(app.editor_state.cursor(), (6, 0));
    insert_char(&mut app, '\n').unwrap();
    assert_eq!(lines_of(&app), vec!["ax    \n", "b\n"]);
    assert_eq!(app.editor_state.cursor(), (0, 1));
    app.options.tab_indent = true;
    insert_char(&mut app, '\t').unwrap();
    assert_eq!(lines_of(&app), vec!["ax    \n", "\tb\n"]);
    assert!(app.file_state.not_save());
}

#[test]
fn insert_into_empty_buffer_fails() {
    let mut app = app_with("");
    let e = insert_char(&mut app, 'a').unwrap_err();
    assert!(matches!(e.get_first(), ErrorType::Specific(_)));
    assert!(matches!(delete_char(&mut app).unwrap_err().get_first(), ErrorType::Specific(_)));
    let e = replace_char(&mut app, Some(Key::Char('a'))).unwrap_err();
    assert!(matches!(e.get_first(), ErrorType::Specific(_)));
}

#[test]
fn backward_char_removes_and_joins() {
    let mut app = app_with("ab\ncd\n");
    app.editor_state.cursor_pos = (1, 1);
    assert!(backward_char(&mut app).unwrap());
    assert_eq!(lines_of(&app), vec!["ab\n", "d\n"]);
    assert_eq!(app.editor_state.cursor(), (0, 1));
    assert!(backward_char(&mut app).unwrap());
    assert_eq!(lines_of(&app), vec!["abd\n"]);
    assert_eq!(app.editor_state.cursor(), (2, 0));
    app.editor_state.cursor_pos = (0, 0);
    assert!(!backward_char(&mut app).unwrap());
}

#[test]
fn delete_char_removes_char_or_empty_row() {
    let mut app = app_with("ab\n\n");
    assert!(delete_char(&mut app).unwrap());
    assert_eq!(lines_of(&app), vec!["b\n", "\n"]);
    app.editor_state.cursor_pos = (0, 1);
    assert!(delete_char(&mut app).unwrap());
    assert_eq!(lines_of(&app), vec!["b\n"]);
    assert_eq!(app.editor_state.cursor(), (0, 0));
}

#[test]
fn replace_char_overwrites_in_place() {
    let mut app = app_with("abc\n");
    app.editor_state.cursor_pos = (1, 0);
    assert!(!replace_char(&mut app, None).unwrap());
    assert_eq!(app.prior_command, CommandPrior::ReplaceChar);
    assert!(replace_char(&mut app, Some(Key::Char('z'))).unwrap());
    assert_eq!(lines_of(&app), vec!["azc\n"]);
    assert_eq!(app.prior_command, CommandPrior::Idle);
}

#[test]
fn change_deletes_region_and_enters_insert() {
    let mut app = app_with("abcd\n");
    app.editor_state.cursor_pos = (2, 0);
    app.editor_state.mark_point = Some((1, 0));
    assert!(change(&mut app, None).unwrap());
    assert_eq!(lines_of(&app), vec!["ad\n"]);
    assert_eq!(app.editor_state.modal.modal(), ModalType::Insert);
}

#[test]
fn change_without_mark_arms_then_changes_line() {
    let mut app = app_with("ab\ncd\n");
    assert!(!change(&mut app, None).unwrap());
    assert_eq!(app.prior_command, CommandPrior::Change);
    assert!(change(&mut app, Some(Key::Char('c'))).unwrap());
    assert_eq!(lines_of(&app), vec!["cd\n"]);
    assert_eq!(app.editor_state.modal.modal(), ModalType::Insert);
    assert!(is_invalid(&change(&mut app, Some(Key::Char('x'))).unwrap_err()));
}

#[test]
fn change_insert_goes_to_region_end() {
    let mut app = app_with("abcd\n");
    app.editor_state.cursor_pos = (3, 0);
    app.editor_state.mark_point = Some((1, 0));
    change_insert(&mut app, CursorMoveType::Beg).unwrap();
    assert_eq!(app.editor_state.cursor(), (1, 0));
    assert_eq!(app.editor_state.mark(), None);
    assert_eq!(app.editor_state.modal.modal(), ModalType::Insert);
    let mut other = app_with("abcd\n");
    change_insert(&mut other, CursorMoveType::End).unwrap();
    assert_eq!(other.editor_state.cursor(), (3, 0));
}

#[test]
fn move_across_rows_clamps_column() {
    let mut app = app_with("abcdef\nxy\n\n");
    app.editor_state.cursor_pos = (4, 0);
    move_cursor(&mut app, false, CursorMoveType::Num(1)).unwrap();
    assert_eq!(app.editor_state.cursor(), (1, 1));
    move_cursor(&mut app, false, CursorMoveType::Num(10)).unwrap();
    assert_eq!(app.editor_state.cursor(), (0, 2));
    move_cursor(&mut app, false, CursorMoveType::Beg).unwrap();
    assert_eq!(app.editor_state.cursor(), (0, 0));
    move_cursor(&mut app, true, CursorMoveType::End).unwrap();
    assert_eq!(app.editor_state.cursor(), (5, 0));
    move_cursor(&mut app, true, CursorMoveType::Num(-9)).unwrap();
    assert_eq!(app.editor_state.cursor(), (0, 0));
}

#[test]
fn move_on_empty_buffer_fails() {
    let mut app = app_with("");
    assert!(is_range(&move_cursor(&mut app, false, CursorMoveType::Num(1)).unwrap_err()));
    assert!(is_range(&move_cursor(&mut app, true, CursorMoveType::Num(0)).unwrap_err()));
}

#[test]
fn escape_clears_mark_before_search() {
    let mut app = app_with("aa\n");
    search(&mut app, Some(chars("/a"))).unwrap();
    assert_eq!(app.search_ref().indicates().len(), 2);
    app.editor_state.mark_point = Some((0, 0));
    escape_command(&mut app).unwrap();
    assert_eq!(app.editor_state.mark(), None);
    assert!(app.search_ref().has_history());
    escape_command(&mut app).unwrap();
    assert!(!app.search_ref().has_history());
}

#[test]
fn search_jump_moves_cursor() {
    let mut app = app_with("ab\nab\n");
    search(&mut app, Some(chars("b"))).unwrap();
    assert_eq!(app.editor_state.cursor(), (1, 0));
    search_jump(&mut app, true).unwrap();
    assert_eq!(app.editor_state.cursor(), (1, 1));
    search_jump(&mut app, true).unwrap();
    assert_eq!(app.editor_state.cursor(), (1, 0));
    search_jump(&mut app, false).unwrap();
    assert_eq!(app.editor_state.cursor(), (1, 1));
}

#[test]
fn save_requests_write() {
    let mut app = app_with("a\n");
    save(&mut app).unwrap();
    assert!(app.take_save_request());
    assert!(!app.take_save_request());
}

fn keymap() -> Keymap {
    let mut k = Keymap::new();
    k.insert(Key::Char('/'), Command::Search);
    k.insert(Key::Char('i'), Command::ChangeInsert(CursorMoveType::Num(0)));
    k.insert(Key::Char('d'), Command::Delete(false));
    k.insert(Key::Char('q'), Command::Quit);
    k
}

#[test]
fn keymap_later_binding_wins() {
    let mut k = keymap();
    assert_eq!(k.get(Key::Char('d')), Some(Command::Delete(false)));
    k.insert(Key::Char('d'), Command::Delete(true));
    assert_eq!(k.get(Key::Char('d')), Some(Command::Delete(true)));
    assert_eq!(k.get(Key::Char('z')), None);
}

#[test]
fn keys_drive_search_prompt() {
    let mut app = App::new(keymap(), AppOption::new());
    app.load(&chars("hello\n"));
    handle_input(&mut app, Key::Char('/')).unwrap();
    assert!(matches!(app.command_edit, CommandEdit::Active(_, 1, _)));
    handle_input(&mut app, Key::Char('l')).unwrap();
    handle_input(&mut app, Key::Char('o')).unwrap();
    handle_input(&mut app, Key::Enter).unwrap();
    assert!(matches!(app.command_edit, CommandEdit::Inactive));
    assert_eq!(app.editor_state.cursor(), (3, 0));
    assert_eq!(app.prior_command, CommandPrior::Idle);
}

#[test]
fn command_line_editing() {
    let mut app = App::new(keymap(), AppOption::new());
    app.load(&chars("abc\n"));
    handle_input(&mut app, Key::Char('/')).unwrap();
    handle_input(&mut app, Key::Char('c')).unwrap();
    handle_input(&mut app, Key::Left).unwrap();
    handle_input(&mut app, Key::Char('b')).unwrap();
    handle_input(&mut app, Key::Backspace).unwrap();
    handle_input(&mut app, Key::Right).unwrap();
    match &app.command_edit {
        CommandEdit::Active(s, p, _) => {
            assert_eq!(s.iter().collect::<String>(), "/c");
            assert_eq!(*p, 2);
        }
        CommandEdit::Inactive => panic!("the command line closed"),
    }
    handle_input(&mut app, Key::Esc).unwrap();
    assert!(matches!(app.command_edit, CommandEdit::Inactive));
}

#[test]
fn enter_on_non_search_command_line_fails() {
    let mut app = app_with("abc\n");
    app.command_edit = CommandEdit::new(chars(":"), CommandPrior::Mark);
    let e = CommandEdit::edit(&mut app, Key::Enter).unwrap_err();
    assert!(matches!(e.get_first(), ErrorType::Specific(_)));
    assert!(matches!(app.command_edit, CommandEdit::Inactive));
}

#[test]
fn insert_mode_keys() {
    let mut app = App::new(keymap(), AppOption::new());
    app.load(&chars("ab\n"));
    handle_input(&mut app, Key::Char('i')).unwrap();
    assert_eq!(app.editor_state.modal.modal(), ModalType::Insert);
    handle_input(&mut app, Key::Char('x')).unwrap();
    handle_input(&mut app, Key::Enter).unwrap();
    assert_eq!(lines_of(&app), vec!["x\n", "ab\n"]);
    handle_input(&mut app, Key::Backspace).unwrap();
    assert_eq!(lines_of(&app), vec!["xab\n"]);
    handle_input(&mut app, Key::Esc).unwrap();
    assert_eq!(app.editor_state.modal.modal(), ModalType::Normal);
}

#[test]
fn pending_delete_takes_next_key() {
    let mut app = App::new(keymap(), AppOption::new());
    app.load(&chars("a\nb\n"));
    handle_input(&mut app, Key::Char('d')).unwrap();
    handle_input(&mut app, Key::Char('d')).unwrap();
    assert_eq!(lines_of(&app), vec!["b\n"]);
}

#[test]
fn unbound_key_is_queued_and_acknowledged() {
    let mut app = App::new(keymap(), AppOption::new());
    app.load(&chars("a\n"));
    assert!(is_invalid(&handle_input(&mut app, Key::Char('z')).unwrap_err()));
    handle_key(&mut app, Key::Char('z'));
    assert_eq!(app.prior_command, CommandPrior::ConfirmError);
    assert!(!app.app_errors.empty());
    handle_key(&mut app, Key::Char('a'));
    assert_eq!(app.prior_command, CommandPrior::Idle);
    assert!(app.app_errors.empty());
}

#[test]
fn quit_through_keys() {
    let mut app = App::new(keymap(), AppOption::new());
    app.load(&chars("a\n"));
    app.file_state.file_modify();
    handle_input(&mut app, Key::Char('q')).unwrap();
    assert_eq!(app.prior_command, CommandPrior::Quit(false));
    handle_input(&mut app, Key::Char('y')).unwrap();
    assert_eq!(app.prior_command, CommandPrior::Quit(true));
}

#[test]
fn error_queue_is_fifo() {
    let mut q = AppError::new();
    q.add_error(ErrorType::Range);
    q.append_errors(ErrorType::IO("NotFound".to_string(), "no file".to_string()).pack());
    assert!(matches!(q.get_first(), ErrorType::Range));
    q.throw();
    assert!(matches!(q.get_first(), ErrorType::IO(_, _)));
    q.clear();
    assert!(q.empty());
}

#[test]
fn digits_of_line_numbers() {
    assert_eq!(nr_length(0), 1);
    assert_eq!(nr_length(9), 1);
    assert_eq!(nr_length(10), 2);
    assert_eq!(nr_length(12345), 5);
    assert_eq!(nr_length(usize::MAX), 20);
}

#[test]
fn positions_are_ordered() {
    let mut a = (5u16, 2u16);
    let mut b = (1u16, 1u16);
    cursor_compare_swap(&mut a, &mut b);
    assert_eq!((a, b), ((1, 1), (5, 2)));
    let mut c = (3u16, 1u16);
    let mut d = (2u16, 1u16);
    cursor_compare_swap(&mut c, &mut d);
    assert_eq!((c, d), ((2, 1), (3, 1)));
}

#[test]
fn within_mark_includes_both_ends() {
    let mut s = EditorState::new();
    s.cursor_pos = (2, 1);
    assert!(!s.within_mark(0, 0));
    s.mark_point = Some((1, 0));
    assert!(s.within_mark(1, 0));
    assert!(s.within_mark(9, 0));
    assert!(s.within_mark(1, 1));
    assert!(s.within_mark(2, 1));
    assert!(!s.within_mark(3, 1));
    assert!(!s.within_mark(0, 0));
}

#[test]
fn reconcile_centres_cursor_after_motion() {
    let mut s = EditorState::new();
    s.cursor_pos = (0, 50);
    assert!(s.update(10, 80));
    assert_eq!(s.offset(), 45);
    assert_eq!(s.height(), 10);
    s.cursor_pos = (0, 47);
    assert!(!s.update(10, 80));
    assert_eq!(s.offset(), 45);
    s.cursor_pos = (0, 3);
    assert!(s.update(10, 80));
    assert_eq!(s.offset(), 0);
}

#[test]
fn reconcile_pulls_cursor_after_scroll() {
    let mut s = EditorState::new();
    s.update(10, 80);
    *s.offset_mut() = 20;
    s.scrolling = true;
    assert!(s.update(10, 80));
    assert_eq!(s.cursor(), (0, 20));
    assert!(!s.scrolling);
    *s.offset_mut() = 0;
    s.scrolling = true;
    s.update(10, 80);
    assert_eq!(s.cursor(), (0, 9));
}

#[test]
fn reconcile_scrolls_horizontally() {
    let mut s = EditorState::new();
    s.cursor_pos = (100, 0);
    s.update(10, 40);
    let width = 40 - 6;
    assert!(s.cursor_pos.0 - s.horizontal_offset + 1 < width);
    assert_eq!(s.horizontal_offset, 100 - (width - 1) / 2);
    s.cursor_pos = (2, 0);
    s.update(10, 40);
    assert_eq!(s.horizontal_offset, 2);
}

#[test]
fn frame_tick_forgets_search_after_edit() {
    let mut app = app_with("ab\n");
    search(&mut app, Some(chars("b"))).unwrap();
    app.update_stylized = true;
    assert!(app.frame_tick(10, 80));
    assert!(app.search_ref().indicates().is_empty());
    assert!(!app.frame_tick(10, 80));
}

#[test]
fn search_without_matches_rebuilds_index() {
    let mut app = app_with("abc\n");
    search(&mut app, Some(chars("b"))).unwrap();
    search_jump(&mut app, true).unwrap();
    assert_eq!(app.search_ref().selected(), Some(0));
    search(&mut app, Some(chars("zz"))).unwrap();
    assert!(app.search_ref().indicates().is_empty());
    assert_eq!(app.search_ref().selected(), None);
    assert!(app.search_ref().has_history());
    assert_eq!(app.editor_state.cursor(), (1, 0));
}

#[test]
fn queued_errors_are_acknowledged_one_by_one() {
    let mut app = App::new(keymap(), AppOption::new());
    app.load(&chars("a\n"));
    let mut both = ErrorType::Range.pack();
    both.add_error(ErrorType::InvalidCommand);
    app.report(both);
    assert_eq!(app.prior_command, CommandPrior::ConfirmError);
    handle_key(&mut app, Key::Char('x'));
    assert_eq!(app.prior_command, CommandPrior::Idle);
    assert!(matches!(app.app_errors.get_first(), ErrorType::InvalidCommand));
    app.frame_tick(10, 80);
    assert_eq!(app.prior_command, CommandPrior::ConfirmError);
    handle_key(&mut app, Key::Char('x'));
    assert_eq!(app.prior_command, CommandPrior::Idle);
    assert!(app.app_errors.empty());
    assert_eq!(lines_of(&app), vec!["a\n"]);
}

#[test]
fn reconcile_centres_cursor_above_window() {
    let mut s = EditorState::new();
    s.update(4, 80);
    *s.offset_mut() = 10;
    s.cursor_pos = (0, 5);
    assert!(s.update(4, 80));
    assert_eq!(s.offset(), 3);
}

#[test]
fn reconcile_keeps_cursor_in_one_column_window() {
    let mut s = EditorState::new();
    s.cursor_pos = (9, 0);
    s.update(4, 7);
    assert_eq!(s.horizontal_offset, 9);
}

#[test]
fn move_by_zero_clamps_to_last_column() {
    let mut app = app_with("ab\n");
    app.editor_state.cursor_pos = (2, 0);
    move_cursor(&mut app, true, CursorMoveType::Num(0)).unwrap();
    assert_eq!(app.editor_state.cursor(), (1, 0));
    app.editor_state.cursor_pos = (2, 0);
    move_cursor(&mut app, false, CursorMoveType::Num(0)).unwrap();
    assert_eq!(app.editor_state.cursor(), (1, 0));
}

#[test]
fn replace_char_keeps_line_terminators() {
    let mut app = app_with("ab\n");
    app.editor_state.cursor_pos = (2, 0);
    assert!(is_range(&replace_char(&mut app, Some(Key::Char('z'))).unwrap_err()));
    app.editor_state.cursor_pos = (0, 0);
    assert!(is_invalid(&replace_char(&mut app, Some(Key::Char('\n'))).unwrap_err()));
    assert_eq!(lines_of(&app), vec!["ab\n"]);
}

#[test]
fn acknowledging_error_changes_nothing_else() {
    let mut app = App::new(keymap(), AppOption::new());
    app.load(&chars("ab\n"));
    search(&mut app, Some(chars("b"))).unwrap();
    app.report(ErrorType::Range.pack());
    handle_input(&mut app, Key::Char('d')).unwrap();
    assert_eq!(app.prior_command, CommandPrior::Idle);
    assert_eq!(app.search_ref().indicates().len(), 1);
    assert_eq!(lines_of(&app), vec!["ab\n"]);
    assert!(matches!(app.command_edit, CommandEdit::Inactive));
}

#[test]
fn explicit_scroll_keeps_cursor_on_its_row() {
    let mut app = app_with("abcdef\n\nx\n\n");
    app.editor_state.cursor_pos = (5, 0);
    app.frame_tick(2, 80);
    assert!(page_scroll(&mut app, 1));
    assert_eq!(app.editor_state.offset(), 2);
    app.frame_tick(2, 80);
    assert_eq!(app.editor_state.cursor(), (2, 2));
    assert!(backward_char(&mut app).unwrap());
    assert_eq!(lines_of(&app), vec!["abcdef\n", "\n", "x", "\n"]);
    assert_eq!(app.editor_state.cursor(), (1, 2));
}
