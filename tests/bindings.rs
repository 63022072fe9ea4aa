use tetor::command::{Command, CursorMoveType, Key};
use tetor::config::{parse_command, parse_key, split_words_of};

fn cmd(s: &str) -> Option<Command> {
    parse_command(&s.chars().collect())
}

fn key(s: &str) -> Option<Key> {
    parse_key(&s.chars().collect())
}

#[test]
fn plain_commands_parse() {
    assert_eq!(cmd("save"), Some(Command::Save));
    assert_eq!(cmd("mark"), Some(Command::Mark));
    assert_eq!(cmd("quit"), Some(Command::Quit));
    assert_eq!(cmd("change"), Some(Command::Change));
    assert_eq!(cmd("replace_char"), Some(Command::ReplaceChar));
    assert_eq!(cmd("backward_char"), Some(Command::BackwardChar));
    assert_eq!(cmd("escape_command"), Some(Command::EscapeCommand));
    assert_eq!(cmd("delete_char"), Some(Command::Delete(true)));
    assert_eq!(cmd("delete"), Some(Command::Delete(false)));
    assert_eq!(cmd("search"), Some(Command::Search));
}

#[test]
fn commands_with_arguments_parse() {
    assert_eq!(cmd("newline down"), Some(Command::NewLine(true)));
    assert_eq!(cmd("newline up"), Some(Command::NewLine(false)));
    assert_eq!(cmd("search_jump next"), Some(Command::SearchJump(true)));
    assert_eq!(cmd("search_jump prev"), Some(Command::SearchJump(false)));
    assert_eq!(cmd("page_scroll -1"), Some(Command::PageScroll(-1)));
    assert_eq!(cmd("page_scroll 12"), Some(Command::PageScroll(12)));
    assert_eq!(cmd("change_insert ^"), Some(Command::ChangeInsert(CursorMoveType::Beg)));
    assert_eq!(cmd("change_insert $"), Some(Command::ChangeInsert(CursorMoveType::End)));
    assert_eq!(cmd("change_insert 1"), Some(Command::ChangeInsert(CursorMoveType::Num(1))));
    assert_eq!(cmd("move_cursor line -1"), Some(Command::Move(true, CursorMoveType::Num(-1))));
    assert_eq!(cmd("move_cursor buffer +3"), Some(Command::Move(false, CursorMoveType::Num(3))));
    assert_eq!(cmd("move_cursor buffer $"), Some(Command::Move(false, CursorMoveType::End)));
    assert_eq!(
        cmd("page_scroll -9223372036854775808"),
        Some(Command::PageScroll(isize::MIN))
    );
}

#[test]
fn malformed_commands_are_refused() {
    assert_eq!(cmd(""), None);
    assert_eq!(cmd("jump"), None);
    assert_eq!(cmd("newline"), None);
    assert_eq!(cmd("page_scroll"), None);
    assert_eq!(cmd("page_scroll x"), None);
    assert_eq!(cmd("page_scroll 9223372036854775808"), None);
    assert_eq!(cmd("page_scroll 99999999999999999999999"), None);
    assert_eq!(cmd("change_insert 40000"), None);
    assert_eq!(cmd("move_cursor page 1"), None);
    assert_eq!(cmd("move_cursor line"), None);
    assert_eq!(cmd("save "), Some(Command::Save));
    assert_eq!(cmd(" save"), None);
}

#[test]
fn keys_parse() {
    assert_eq!(key("Up"), Some(Key::Up));
    assert_eq!(key("Left"), Some(Key::Left));
    assert_eq!(key("Down"), Some(Key::Down));
    assert_eq!(key("Right"), Some(Key::Right));
    assert_eq!(key("Tab"), Some(Key::Tab));
    assert_eq!(key("ESC"), Some(Key::Esc));
    assert_eq!(key("Enter"), Some(Key::Enter));
    assert_eq!(key("Backspace"), Some(Key::Backspace));
    assert_eq!(key("d"), Some(Key::Char('d')));
    assert_eq!(key("~"), Some(Key::Char('~')));
    assert_eq!(key(""), None);
    assert_eq!(key("\u{7f}"), None);
    assert_eq!(key("é"), None);
}

#[test]
fn words_split_at_every_space() {
    let words: Vec<String> = split_words_of(&"a  b".chars().collect())
        .iter()
        .map(|w| w.iter().collect())
        .collect();
    assert_eq!(words, vec!["a", "", "b"]);
}
