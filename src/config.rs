use vstd::prelude::*;

use crate::command::{Command, CursorMoveType, Key};

verus! {

/// `text` cut at every space; consecutive spaces give empty words.
pub open spec fn split_words(text: Seq<char>) -> Seq<Seq<char>>
    decreases text.len(),
{
    if text.len() == 0 {
        seq![Seq::empty()]
    } else {
        let rest = split_words(text.drop_last());
        if text.last() == ' ' {
            rest.push(Seq::empty())
        } else {
            rest.update(rest.len() - 1, rest.last().push(text.last()))
        }
    }
}

/// Whether every character of `s` is a decimal digit.
pub open spec fn all_digits(s: Seq<char>) -> bool {
    forall|i: int| 0 <= i < s.len() ==> '0' <= #[trigger] s[i] <= '9'
}

/// The number that the decimal digits `s` write.
pub open spec fn digits_value(s: Seq<char>) -> int
    decreases s.len(),
{
    if s.len() == 0 {
        0
    } else {
        digits_value(s.drop_last()) * 10 + (s.last() as int - '0' as int)
    }
}

/// The integer that `w` writes in decimal, with an optional sign, if it writes
/// one.
pub open spec fn int_of(w: Seq<char>) -> Option<int> {
    let neg = w.len() > 0 && w[0] == '-';
    let ds = if w.len() > 0 && (w[0] == '-' || w[0] == '+') {
        w.drop_first()
    } else {
        w
    };
    if ds.len() == 0 || !all_digits(ds) {
        None
    } else if neg {
        Some(-digits_value(ds))
    } else {
        Some(digits_value(ds))
    }
}

/// The motion that `w` names: `^` the start, `$` the end, else a number of
/// places that fits an `i16`.
pub open spec fn move_of(w: Seq<char>) -> Option<CursorMoveType> {
    if w == seq!['^'] {
        Some(CursorMoveType::Beg)
    } else if w == seq!['$'] {
        Some(CursorMoveType::End)
    } else {
        match int_of(w) {
            Some(n) => if i16::MIN <= n <= i16::MAX {
                Some(CursorMoveType::Num(n as i16))
            } else {
                None
            },
            None => None,
        }
    }
}

/// The operation that the words `ws` of a binding name, if they name one.
pub open spec fn command_of(ws: Seq<Seq<char>>) -> Option<Command> {
    let w0 = ws[0];
    let w1 = if ws.len() > 1 {
        ws[1]
    } else {
        Seq::empty()
    };
    let w2 = if ws.len() > 2 {
        ws[2]
    } else {
        Seq::empty()
    };
    if w0 == seq!['s', 'a', 'v', 'e'] {
        Some(Command::Save)
    } else if w0 == seq!['m', 'a', 'r', 'k'] {
        Some(Command::Mark)
    } else if w0 == seq!['q', 'u', 'i', 't'] {
        Some(Command::Quit)
    } else if w0 == seq!['c', 'h', 'a', 'n', 'g', 'e'] {
        Some(Command::Change)
    } else if w0 == seq!['r', 'e', 'p', 'l', 'a', 'c', 'e', '_', 'c', 'h', 'a', 'r'] {
        Some(Command::ReplaceChar)
    } else if w0 == seq!['b', 'a', 'c', 'k', 'w', 'a', 'r', 'd', '_', 'c', 'h', 'a', 'r'] {
        Some(Command::BackwardChar)
    } else if w0 == seq!['e', 's', 'c', 'a', 'p', 'e', '_', 'c', 'o', 'm', 'm', 'a', 'n', 'd'] {
        Some(Command::EscapeCommand)
    } else if w0 == seq!['d', 'e', 'l', 'e', 't', 'e', '_', 'c', 'h', 'a', 'r'] {
        Some(Command::Delete(true))
    } else if w0 == seq!['s', 'e', 'a', 'r', 'c', 'h'] {
        Some(Command::Search)
    } else if w0 == seq!['d', 'e', 'l', 'e', 't', 'e'] {
        Some(Command::Delete(false))
    } else if w0 == seq!['n', 'e', 'w', 'l', 'i', 'n', 'e'] {
        if ws.len() > 1 {
            Some(Command::NewLine(w1 == seq!['d', 'o', 'w', 'n']))
        } else {
            None
        }
    } else if w0 == seq!['c', 'h', 'a', 'n', 'g', 'e', '_', 'i', 'n', 's', 'e', 'r', 't'] {
        match move_of(w1) {
            Some(m) => if ws.len() > 1 {
                Some(Command::ChangeInsert(m))
            } else {
                None
            },
            None => None,
        }
    } else if w0 == seq!['s', 'e', 'a', 'r', 'c', 'h', '_', 'j', 'u', 'm', 'p'] {
        if ws.len() > 1 {
            Some(Command::SearchJump(w1 == seq!['n', 'e', 'x', 't']))
        } else {
            None
        }
    } else if w0 == seq!['p', 'a', 'g', 'e', '_', 's', 'c', 'r', 'o', 'l', 'l'] {
        match int_of(w1) {
            Some(n) => if ws.len() > 1 && i64::MIN <= n <= i64::MAX {
                Some(Command::PageScroll(n as isize))
            } else {
                None
            },
            None => None,
        }
    } else if w0 == seq!['m', 'o', 'v', 'e', '_', 'c', 'u', 'r', 's', 'o', 'r'] {
        let within = if w1 == seq!['l', 'i', 'n', 'e'] {
            Some(true)
        } else if w1 == seq!['b', 'u', 'f', 'f', 'e', 'r'] {
            Some(false)
        } else {
            None
        };
        match (within, move_of(w2)) {
            (Some(l), Some(m)) => if ws.len() > 2 {
                Some(Command::Move(l, m))
            } else {
                None
            },
            _ => None,
        }
    } else {
        None
    }
}

/// The key that `w` names in a binding: a key's name, or a printable ASCII
/// character as the first character.
pub open spec fn key_of(w: Seq<char>) -> Option<Key> {
    if w == seq!['U', 'p'] {
        Some(Key::Up)
    } else if w == seq!['L', 'e', 'f', 't'] {
        Some(Key::Left)
    } else if w == seq!['D', 'o', 'w', 'n'] {
        Some(Key::Down)
    } else if w == seq!['R', 'i', 'g', 'h', 't'] {
        Some(Key::Right)
    } else if w == seq!['T', 'a', 'b'] {
        Some(Key::Tab)
    } else if w == seq!['E', 'S', 'C'] {
        Some(Key::Esc)
    } else if w == seq!['E', 'n', 't', 'e', 'r'] {
        Some(Key::Enter)
    } else if w == seq!['B', 'a', 'c', 'k', 's', 'p', 'a', 'c', 'e'] {
        Some(Key::Backspace)
    } else if w.len() > 0 && ' ' <= w[0] <= '~' {
        Some(Key::Char(w[0]))
    } else {
        None
    }
}

/// Whether `w` holds exactly the characters of `lit`.
fn word_is(w: &Vec<char>, lit: &[char]) -> (r: bool)
    ensures
        r == (w@ == lit@),
{
    if w.len() != lit.len() {
        return false;
    }
    let mut i: usize = 0;
    while i < w.len()
        invariant
            w@.len() == lit@.len(),
            i <= w@.len(),
            forall|k: int| 0 <= k < i ==> w@[k] == lit@[k],
        decreases w@.len() - i,
    {
        if w[i] != lit[i] {
            return false;
        }
        i = i + 1;
    }
    assert(w@ =~= lit@);
    true
}

/// `text` cut at every space.
pub fn split_words_of(text: &Vec<char>) -> (r: Vec<Vec<char>>)
    ensures
        crate::buffer::view_lines(r@) == split_words(text@),
        r@.len() > 0,
{
    let mut done: Vec<Vec<char>> = Vec::new();
    let mut cur: Vec<char> = Vec::new();
    let mut i: usize = 0;
    while i < text.len()
        invariant
            i <= text@.len(),
            split_words(text@.subrange(0, i as int)) == crate::buffer::view_lines(done@).push(
                cur@,
            ),
        decreases text@.len() - i,
    {
        let c = text[i];
        let ghost p = text@.subrange(0, i as int);
        let ghost before = crate::buffer::view_lines(done@);
        proof {
            assert(text@.subrange(0, i + 1).drop_last() =~= p);
        }
        if c == ' ' {
            let w = cur;
            cur = Vec::new();
            done.push(w);
            proof {
                assert(crate::buffer::view_lines(done@) =~= before.push(w@));
            }
        } else {
            cur.push(c);
            proof {
                assert(before.push(cur@.drop_last()).update(before.len() as int, cur@) =~= before.push(
                    cur@,
                ));
            }
        }
        i = i + 1;
    }
    proof {
        assert(text@.subrange(0, text@.len() as int) =~= text@);
    }
    let ghost before = crate::buffer::view_lines(done@);
    let ghost last = cur@;
    done.push(cur);
    proof {
        assert(crate::buffer::view_lines(done@) =~= before.push(last));
    }
    done
}

proof fn lemma_digits_value_grows(s: Seq<char>, k: int)
    requires
        all_digits(s),
        0 <= k <= s.len(),
    ensures
        digits_value(s.subrange(0, k)) <= digits_value(s),
    decreases s.len() - k,
{
    if k < s.len() {
        lemma_digits_value_grows(s, k + 1);
        assert(s.subrange(0, k + 1).drop_last() =~= s.subrange(0, k));
        assert('0' <= s[k] <= '9');
        lemma_digits_value_nonneg(s.subrange(0, k));
    } else {
        assert(s.subrange(0, k) =~= s);
    }
}

proof fn lemma_digits_value_nonneg(s: Seq<char>)
    requires
        all_digits(s),
    ensures
        0 <= digits_value(s),
    decreases s.len(),
{
    if s.len() > 0 {
        assert(all_digits(s.drop_last()));
        lemma_digits_value_nonneg(s.drop_last());
        assert('0' <= s[s.len() - 1] <= '9');
    }
}

/// The integer that `w` writes, if it writes one that fits an `i64`.
fn parse_int(w: &Vec<char>) -> (r: Option<i64>)
    ensures
        r matches Some(n) ==> int_of(w@) == Some(n as int),
        r is None ==> match int_of(w@) {
            Some(n) => n < i64::MIN || n > i64::MAX,
            None => true,
        },
{
    let n = w.len();
    let neg = n > 0 && w[0] == '-';
    let start: usize = if n > 0 && (w[0] == '-' || w[0] == '+') {
        1
    } else {
        0
    };
    let ghost ds = if w@.len() > 0 && (w@[0] == '-' || w@[0] == '+') {
        w@.drop_first()
    } else {
        w@
    };
    proof {
        assert(ds =~= w@.subrange(start as int, n as int));
    }
    if start >= n {
        assert(ds.len() == 0);
        return None;
    }
    let limit: u64 = 0x8000_0000_0000_0000;
    let mut v: u64 = 0;
    let mut i: usize = start;
    while i < n
        invariant
            n == w@.len(),
            limit == 0x8000_0000_0000_0000u64,
            start <= i <= n,
            ds == (if w@.len() > 0 && (w@[0] == '-' || w@[0] == '+') {
                w@.drop_first()
            } else {
                w@
            }),
            ds == w@.subrange(start as int, n as int),
            all_digits(w@.subrange(start as int, i as int)),
            v as int == digits_value(w@.subrange(start as int, i as int)),
            v <= limit,
        decreases n - i,
    {
        let c = w[i];
        if c < '0' || c > '9' {
            proof {
                assert(ds[i - start] == c);
            }
            return None;
        }
        let d = (c as u32 - '0' as u32) as u64;
        assert(d <= 9);
        proof {
            assert(w@.subrange(start as int, i + 1).drop_last() =~= w@.subrange(
                start as int,
                i as int,
            ));
            assert(all_digits(w@.subrange(start as int, i + 1)));
        }
        if v > (limit - d) / 10 {
            proof {
                assert(digits_value(w@.subrange(start as int, i + 1)) > limit);
                if all_digits(ds) {
                    assert(ds.subrange(0, i + 1 - start) =~= w@.subrange(start as int, i + 1));
                    lemma_digits_value_grows(ds, i + 1 - start);
                }
            }
            return None;
        }
        v = v * 10 + d;
        i = i + 1;
    }
    if neg {
        Some((0 - v as i128) as i64)
    } else if v == limit {
        None
    } else {
        Some(v as i64)
    }
}

/// The motion that `w` names.
fn parse_move(w: &Vec<char>) -> (r: Option<CursorMoveType>)
    ensures
        r == move_of(w@),
{
    proof {
        assert(['^']@ =~= seq!['^']);
        assert(['$']@ =~= seq!['$']);
    }
    if word_is(w, &['^']) {
        return Some(CursorMoveType::Beg);
    }
    if word_is(w, &['$']) {
        return Some(CursorMoveType::End);
    }
    match parse_int(w) {
        Some(n) => if -32768 <= n && n <= 32767 {
            Some(CursorMoveType::Num(n as i16))
        } else {
            None
        },
        None => None,
    }
}

/// The operation that a binding's text names, such as `move_cursor line -1`.
pub fn parse_command(text: &Vec<char>) -> (r: Option<Command>)
    ensures
        r == command_of(split_words(text@)),
{
    proof {
        assert(['s', 'a', 'v', 'e']@ =~= seq!['s', 'a', 'v', 'e']);
        assert(['m', 'a', 'r', 'k']@ =~= seq!['m', 'a', 'r', 'k']);
        assert(['q', 'u', 'i', 't']@ =~= seq!['q', 'u', 'i', 't']);
        assert(['c', 'h', 'a', 'n', 'g', 'e']@ =~= seq!['c', 'h', 'a', 'n', 'g', 'e']);
        assert(['r', 'e', 'p', 'l', 'a', 'c', 'e', '_', 'c', 'h', 'a', 'r']@ =~= seq!['r', 'e', 'p', 'l', 'a', 'c', 'e', '_', 'c', 'h', 'a', 'r']);
        assert(['b', 'a', 'c', 'k', 'w', 'a', 'r', 'd', '_', 'c', 'h', 'a', 'r']@ =~= seq!['b', 'a', 'c', 'k', 'w', 'a', 'r', 'd', '_', 'c', 'h', 'a', 'r']);
        assert(['e', 's', 'c', 'a', 'p', 'e', '_', 'c', 'o', 'm', 'm', 'a', 'n', 'd']@ =~= seq!['e', 's', 'c', 'a', 'p', 'e', '_', 'c', 'o', 'm', 'm', 'a', 'n', 'd']);
        assert(['d', 'e', 'l', 'e', 't', 'e']@ =~= seq!['d', 'e', 'l', 'e', 't', 'e']);
        assert(['d', 'e', 'l', 'e', 't', 'e', '_', 'c', 'h', 'a', 'r']@ =~= seq!['d', 'e', 'l', 'e', 't', 'e', '_', 'c', 'h', 'a', 'r']);
        assert(['s', 'e', 'a', 'r', 'c', 'h']@ =~= seq!['s', 'e', 'a', 'r', 'c', 'h']);
        assert(['n', 'e', 'w', 'l', 'i', 'n', 'e']@ =~= seq!['n', 'e', 'w', 'l', 'i', 'n', 'e']);
        assert(['l', 'i', 'n', 'e']@ =~= seq!['l', 'i', 'n', 'e']);
        assert(['d', 'o', 'w', 'n']@ =~= seq!['d', 'o', 'w', 'n']);
        assert(['c', 'h', 'a', 'n', 'g', 'e', '_', 'i', 'n', 's', 'e', 'r', 't']@ =~= seq!['c', 'h', 'a', 'n', 'g', 'e', '_', 'i', 'n', 's', 'e', 'r', 't']);
        assert(['s', 'e', 'a', 'r', 'c', 'h', '_', 'j', 'u', 'm', 'p']@ =~= seq!['s', 'e', 'a', 'r', 'c', 'h', '_', 'j', 'u', 'm', 'p']);
        assert(['n', 'e', 'x', 't']@ =~= seq!['n', 'e', 'x', 't']);
        assert(['p', 'a', 'g', 'e', '_', 's', 'c', 'r', 'o', 'l', 'l']@ =~= seq!['p', 'a', 'g', 'e', '_', 's', 'c', 'r', 'o', 'l', 'l']);
        assert(['m', 'o', 'v', 'e', '_', 'c', 'u', 'r', 's', 'o', 'r']@ =~= seq!['m', 'o', 'v', 'e', '_', 'c', 'u', 'r', 's', 'o', 'r']);
        assert(['b', 'u', 'f', 'f', 'e', 'r']@ =~= seq!['b', 'u', 'f', 'f', 'e', 'r']);
    }
    let ws = split_words_of(text);
    proof {
        crate::buffer::lemma_view_lines(ws@);
    }
    let empty: Vec<char> = Vec::new();
    let w0 = &ws[0];
    let w1 = if ws.len() > 1 {
        &ws[1]
    } else {
        &empty
    };
    let w2 = if ws.len() > 2 {
        &ws[2]
    } else {
        &empty
    };
    if word_is(w0, &['s', 'a', 'v', 'e']) {
        Some(Command::Save)
    } else if word_is(w0, &['m', 'a', 'r', 'k']) {
        Some(Command::Mark)
    } else if word_is(w0, &['q', 'u', 'i', 't']) {
        Some(Command::Quit)
    } else if word_is(w0, &['c', 'h', 'a', 'n', 'g', 'e']) {
        Some(Command::Change)
    } else if word_is(w0, &['r', 'e', 'p', 'l', 'a', 'c', 'e', '_', 'c', 'h', 'a', 'r']) {
        Some(Command::ReplaceChar)
    } else if word_is(w0, &['b', 'a', 'c', 'k', 'w', 'a', 'r', 'd', '_', 'c', 'h', 'a', 'r']) {
        Some(Command::BackwardChar)
    } else if word_is(w0, &['e', 's', 'c', 'a', 'p', 'e', '_', 'c', 'o', 'm', 'm', 'a', 'n', 'd']) {
        Some(Command::EscapeCommand)
    } else if word_is(w0, &['d', 'e', 'l', 'e', 't', 'e', '_', 'c', 'h', 'a', 'r']) {
        Some(Command::Delete(true))
    } else if word_is(w0, &['s', 'e', 'a', 'r', 'c', 'h']) {
        Some(Command::Search)
    } else if word_is(w0, &['d', 'e', 'l', 'e', 't', 'e']) {
        Some(Command::Delete(false))
    } else if word_is(w0, &['n', 'e', 'w', 'l', 'i', 'n', 'e']) {
        if ws.len() > 1 {
            Some(Command::NewLine(word_is(w1, &['d', 'o', 'w', 'n'])))
        } else {
            None
        }
    } else if word_is(w0, &['c', 'h', 'a', 'n', 'g', 'e', '_', 'i', 'n', 's', 'e', 'r', 't']) {
        match parse_move(w1) {
            Some(m) => if ws.len() > 1 {
                Some(Command::ChangeInsert(m))
            } else {
                None
            },
            None => None,
        }
    } else if word_is(w0, &['s', 'e', 'a', 'r', 'c', 'h', '_', 'j', 'u', 'm', 'p']) {
        if ws.len() > 1 {
            Some(Command::SearchJump(word_is(w1, &['n', 'e', 'x', 't'])))
        } else {
            None
        }
    } else if word_is(w0, &['p', 'a', 'g', 'e', '_', 's', 'c', 'r', 'o', 'l', 'l']) {
        match parse_int(w1) {
            Some(n) => if ws.len() > 1 {
                Some(Command::PageScroll(n as isize))
            } else {
                None
            },
            None => None,
        }
    } else if word_is(w0, &['m', 'o', 'v', 'e', '_', 'c', 'u', 'r', 's', 'o', 'r']) {
        let within = if word_is(w1, &['l', 'i', 'n', 'e']) {
            Some(true)
        } else if word_is(w1, &['b', 'u', 'f', 'f', 'e', 'r']) {
            Some(false)
        } else {
            None
        };
        match (within, parse_move(w2)) {
            (Some(l), Some(m)) => if ws.len() > 2 {
                Some(Command::Move(l, m))
            } else {
                None
            },
            _ => None,
        }
    } else {
        None
    }
}

/// The key that a binding's text names.
pub fn parse_key(text: &Vec<char>) -> (r: Option<Key>)
    ensures
        r == key_of(text@),
{
    proof {
        assert(['U', 'p']@ =~= seq!['U', 'p']);
        assert(['L', 'e', 'f', 't']@ =~= seq!['L', 'e', 'f', 't']);
        assert(['D', 'o', 'w', 'n']@ =~= seq!['D', 'o', 'w', 'n']);
        assert(['R', 'i', 'g', 'h', 't']@ =~= seq!['R', 'i', 'g', 'h', 't']);
        assert(['T', 'a', 'b']@ =~= seq!['T', 'a', 'b']);
        assert(['E', 'S', 'C']@ =~= seq!['E', 'S', 'C']);
        assert(['E', 'n', 't', 'e', 'r']@ =~= seq!['E', 'n', 't', 'e', 'r']);
        assert(['B', 'a', 'c', 'k', 's', 'p', 'a', 'c', 'e']@ =~= seq!['B', 'a', 'c', 'k', 's', 'p', 'a', 'c', 'e']);
    }
    if word_is(text, &['U', 'p']) {
        Some(Key::Up)
    } else if word_is(text, &['L', 'e', 'f', 't']) {
        Some(Key::Left)
    } else if word_is(text, &['D', 'o', 'w', 'n']) {
        Some(Key::Down)
    } else if word_is(text, &['R', 'i', 'g', 'h', 't']) {
        Some(Key::Right)
    } else if word_is(text, &['T', 'a', 'b']) {
        Some(Key::Tab)
    } else if word_is(text, &['E', 'S', 'C']) {
        Some(Key::Esc)
    } else if word_is(text, &['E', 'n', 't', 'e', 'r']) {
        Some(Key::Enter)
    } else if word_is(text, &['B', 'a', 'c', 'k', 's', 'p', 'a', 'c', 'e']) {
        Some(Key::Backspace)
    } else if text.len() > 0 && ' ' <= text[0] && text[0] <= '~' {
        Some(Key::Char(text[0]))
    } else {
        None
    }
}

} // verus!
