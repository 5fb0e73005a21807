//! The interactive mode, seen from the side of the decisions: what the text that
//! the user has typed selects. Showing the menu and reading the lines are the
//! caller's.

use vstd::prelude::*;
use vstd::string::{StrSliceExecFns, StringExecFns};

verus! {

/// The number of commands that the main menu offers, besides the exit.
pub const COMMANDS: usize = 2;

/// A decimal digit.
pub open spec fn is_digit(c: char) -> bool {
    '0' <= c <= '9'
}

/// The number that a sequence of decimal digits stands for.
pub open spec fn digits_value(digits: Seq<char>) -> nat
    decreases digits.len(),
{
    if digits.len() == 0 {
        0
    } else {
        digits_value(digits.drop_last()) * 10 + (digits.last() as nat - '0' as nat) as nat
    }
}

/// The digits of a number as it is typed: what follows the `+`, if it starts
/// with one.
pub open spec fn unsigned(text: Seq<char>) -> Seq<char> {
    if text.len() > 0 && text[0] == '+' {
        text.drop_first()
    } else {
        text
    }
}

/// The number that `text` stands for: at least one decimal digit and nothing else,
/// but for a `+` in front, and a value that `usize` can hold.
pub open spec fn number(text: Seq<char>) -> Option<usize> {
    let digits = unsigned(text);
    if digits.len() > 0 && (forall|i: int| 0 <= i < digits.len() ==> is_digit(#[trigger] digits[i]))
        && digits_value(digits) <= usize::MAX {
        Some(digits_value(digits) as usize)
    } else {
        None
    }
}

/// More digits do not make a smaller number.
proof fn lemma_digits_value_grows(digits: Seq<char>, k: int)
    requires
        0 <= k <= digits.len(),
        forall|i: int| 0 <= i < digits.len() ==> is_digit(#[trigger] digits[i]),
    ensures
        digits_value(digits.take(k)) <= digits_value(digits),
    decreases digits.len() - k,
{
    if k < digits.len() {
        lemma_digits_value_grows(digits, k + 1);
        assert(digits.take(k + 1).drop_last() =~= digits.take(k));
        assert(is_digit(digits[k]));
    } else {
        assert(digits.take(k) =~= digits);
    }
}

/// Reads a number as `str::parse` reads a `usize`.
pub fn parse_number(text: &str) -> (r: Option<usize>)
    ensures
        r == number(text@),
{
    let n = text.unicode_len();
    let start: usize = if n > 0 && text.get_char(0) == '+' {
        1
    } else {
        0
    };
    if start == n {
        return None;
    }
    let ghost digits = unsigned(text@);
    let mut value: usize = 0;
    let mut i: usize = start;
    while i < n
        invariant
            start <= i <= n,
            n == text@.len(),
            start == text@.len() - digits.len(),
            digits == unsigned(text@),
            forall|j: int| 0 <= j < i - start ==> is_digit(#[trigger] digits[j]),
            value == digits_value(digits.take(i - start)),
        decreases n - i,
    {
        let c = text.get_char(i);
        assert(c == digits[i - start]);
        if !('0' <= c && c <= '9') {
            return None;
        }
        let digit: usize = (c as u32 - '0' as u32) as usize;
        proof {
            assert(digits.take(i - start + 1).drop_last() =~= digits.take(i - start));
            if forall|j: int| 0 <= j < digits.len() ==> is_digit(#[trigger] digits[j]) {
                lemma_digits_value_grows(digits, i - start + 1);
            }
        }
        value = match value.checked_mul(10) {
            Some(tens) => match tens.checked_add(digit) {
                Some(sum) => sum,
                None => {
                    return None;
                },
            },
            None => {
                return None;
            },
        };
        i = i + 1;
    }
    assert(digits.take(i - start) =~= digits);
    Some(value)
}

/// What `str::trim` gives for a text: the text without the whitespace at its
/// start and at its end, where whitespace is what Unicode lists as White_Space.
pub uninterp spec fn trimmed(text: Seq<char>) -> Seq<char>;

/// `str::trim`. Its result is the part of the text that is named `trimmed`.
#[verifier::external_body]
fn trim(text: &str) -> (r: &str)
    ensures
        r@ == trimmed(text@),
{
    text.trim()
}

/// Whether a trimmed text selects an entry of a menu of `commands` commands:
/// it is the number of a command, counted from 1, or 0 for the exit.
pub open spec fn selects(option: Seq<char>, commands: usize) -> bool {
    number(option) matches Some(n) && n <= commands
}

/// Whether the trimmed text `option` selects an entry of a menu of `commands`
/// commands.
pub fn selects_entry(option: &str, commands: usize) -> (r: bool)
    ensures
        r == selects(option@, commands),
{
    match parse_number(option) {
        Some(n) => n <= commands,
        None => false,
    }
}

/// Whether what the user has typed selects an entry of a menu of `commands`
/// commands, once the whitespace around it is left out.
pub fn show_command(typed: &str, commands: usize) -> (r: bool)
    ensures
        r == selects(trimmed(typed@), commands),
{
    selects_entry(trim(typed), commands)
}

/// What the main menu does with a selection.
#[derive(Debug, Clone, Copy, PartialEq, Eq, Structural)]
pub enum Menu {
    /// Start the currency exchange.
    Exchange,
    /// Print the list of currencies.
    List,
    /// Leave the interactive mode.
    Exit,
    /// The text is none of the three; ask again.
    Invalid,
}

/// The entries of the main menu by what is typed for them, letter for letter.
pub open spec fn menu_entry(option: Seq<char>) -> Menu {
    if option == "1"@ {
        Menu::Exchange
    } else if option == "2"@ {
        Menu::List
    } else if option == "0"@ {
        Menu::Exit
    } else {
        Menu::Invalid
    }
}

/// The entry of the main menu that the trimmed text `option` stands for.
pub fn select_entry(option: &str) -> (r: Menu)
    ensures
        r == menu_entry(option@),
{
    let typed = option.to_owned();
    if typed == "1".to_owned() {
        Menu::Exchange
    } else if typed == "2".to_owned() {
        Menu::List
    } else if typed == "0".to_owned() {
        Menu::Exit
    } else {
        Menu::Invalid
    }
}

/// The entry of the main menu that the typed text stands for, once the whitespace
/// around it is left out.
pub fn main_menu(typed: &str) -> (r: Menu)
    ensures
        r == menu_entry(trimmed(typed@)),
{
    select_entry(trim(typed))
}

/// What the interactive mode does after a line.
#[derive(Debug, Clone, Copy, PartialEq, Eq, Structural)]
pub enum Reply {
    /// Nothing is selected: say so and show the menu again.
    Invalid,
    /// Start the currency exchange, then show the menu again.
    Exchange,
    /// Print the list of currencies, then show the menu again.
    List,
    /// Leave the interactive mode.
    Exit,
}

/// The interactive mode after one more line. `typed` is what was typed since the
/// last selection, `line` the line that has come now. As long as the whole does
/// not select an entry of the menu it is kept, and the new line comes on top of
/// it. A selection starts the text afresh, also where the main menu does not take
/// it for one of its entries.
pub open spec fn assisted(typed: Seq<char>, line: Seq<char>) -> (Seq<char>, Reply) {
    let whole = typed + line;
    if !selects(trimmed(whole), COMMANDS) {
        (whole, Reply::Invalid)
    } else {
        (
            Seq::empty(),
            match menu_entry(trimmed(whole)) {
                Menu::Exchange => Reply::Exchange,
                Menu::List => Reply::List,
                Menu::Exit => Reply::Exit,
                Menu::Invalid => Reply::Invalid,
            },
        )
    }
}

/// Takes the interactive mode one line further. It starts with nothing typed.
pub fn assist_mode(typed: String, line: &str) -> (r: (String, Reply))
    ensures
        (r.0@, r.1) == assisted(typed@, line@),
{
    let mut whole = typed;
    whole.append(line);
    if !show_command(whole.as_str(), COMMANDS) {
        (whole, Reply::Invalid)
    } else {
        let reply = match main_menu(whole.as_str()) {
            Menu::Exchange => Reply::Exchange,
            Menu::List => Reply::List,
            Menu::Exit => Reply::Exit,
            Menu::Invalid => Reply::Invalid,
        };
        (String::new(), reply)
    }
}

} // verus!
