use vstd::prelude::*;
use crate::config::MAX_LEVEL;

verus! {

/// The character of decimal digit `d`.
pub open spec fn digit_char(d: int) -> char {
    (48 + d) as char
}

/// The decimal numeral of `n`, without sign or leading zeros.
pub open spec fn decimal(n: nat) -> Seq<char>
    decreases n,
{
    if n < 10 {
        seq![digit_char(n as int)]
    } else {
        decimal(n / 10).push(digit_char((n % 10) as int))
    }
}

/// The characters are all decimal digits.
pub open spec fn all_digits(s: Seq<char>) -> bool {
    forall|i: int| 0 <= i < s.len() ==> '0' <= #[trigger] s[i] <= '9'
}

/// The number that a string of decimal digits writes.
pub open spec fn digits_value(s: Seq<char>) -> nat
    decreases s.len(),
{
    if s.len() == 0 {
        0
    } else {
        digits_value(s.drop_last()) * 10 + ((s.last() as int) - 48) as nat
    }
}

/// What reading a `usize` from `s` gives: an optional `+` followed by one or
/// more decimal digits whose value fits in a `usize`; anything else is refused.
pub open spec fn parsed_usize(s: Seq<char>) -> Option<usize> {
    let digits = if s.len() > 0 && s[0] == '+' { s.drop_first() } else { s };
    if digits.len() > 0 && all_digits(digits) && digits_value(digits) <= usize::MAX {
        Some(digits_value(digits) as usize)
    } else {
        None
    }
}

/// `usize::to_string` (std): the decimal numeral of `n`, with no sign,
/// padding or leading zeros.
#[verifier::external_body]
fn usize_to_string(n: usize) -> (s: String)
    ensures
        s@ == decimal(n as nat),
{
    n.to_string()
}

/// `str::parse::<usize>` (std): succeeds exactly on an optional `+` followed
/// by decimal digits whose value fits in a `usize`, and gives that value.
#[verifier::external_body]
fn parse_usize(s: &str) -> (n: Option<usize>)
    ensures
        n == parsed_usize(s@),
{
    s.parse::<usize>().ok()
}

/// The state of the menus: whether the credits window and the go-to-level
/// window are open, and the text typed into the go-to-level field.
pub struct UiState {
    pub show_credits: bool,
    pub show_go_to_level: bool,
    pub level_input_buffer: String,
}

impl UiState {
    /// Both windows closed, the level field holding the current level's number.
    pub fn new(current_level: usize) -> (ui: Self)
        ensures
            !ui.show_credits,
            !ui.show_go_to_level,
            ui.level_input_buffer@ == decimal(current_level as nat),
    {
        UiState {
            show_credits: false,
            show_go_to_level: false,
            level_input_buffer: usize_to_string(current_level),
        }
    }

    /// Opens the go-to-level window, its field set to the current level's number.
    pub fn open_go_to_level(&mut self, current_level: usize)
        ensures
            final(self).show_go_to_level,
            final(self).show_credits == old(self).show_credits,
            final(self).level_input_buffer@ == decimal(current_level as nat),
    {
        self.show_go_to_level = true;
        self.level_input_buffer = usize_to_string(current_level);
    }

    /// Takes the level typed into the go-to-level field: where it reads as a
    /// level number from 1 to `MAX_LEVEL`, the window closes and the number is
    /// returned; otherwise nothing changes and `None` is returned.
    pub fn submit_level(&mut self) -> (level: Option<usize>)
        ensures
            level == (match parsed_usize(old(self).level_input_buffer@) {
                Some(n) => if 1 <= n <= MAX_LEVEL { Some(n) } else { None },
                None => None,
            }),
            final(self).show_go_to_level == (old(self).show_go_to_level && level is None),
            final(self).show_credits == old(self).show_credits,
            final(self).level_input_buffer@ == old(self).level_input_buffer@,
    {
        match parse_usize(self.level_input_buffer.as_str()) {
            Some(number) => {
                if number >= 1 && number <= MAX_LEVEL {
                    self.show_go_to_level = false;
                    Some(number)
                } else {
                    None
                }
            },
            None => None,
        }
    }
}

} // verus!
