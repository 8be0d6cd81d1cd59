//! Runtime configuration: how much the tool says while it works, and how long
//! one git command may take.

use crate::constants::DEFAULT_GIT_TIMEOUT_SECS;
use vstd::prelude::*;

verus! {

/// Verbosity level of the command-line output.
#[derive(Debug, Clone, Copy, PartialEq, Eq, Structural)]
pub enum Verbosity {
    Quiet,
    Normal,
    Verbose,
}

impl Default for Verbosity {
    fn default() -> (r: Self)
        ensures
            r == Verbosity::Normal,
    {
        Verbosity::Normal
    }
}

/// Which logging hook the git command client is given.
#[derive(Debug, Clone, Copy, PartialEq, Eq, Structural)]
pub enum GitLogger {
    /// Commands run without a trace.
    NoOp,
    /// Each command is reported before it runs.
    Verbose,
}

/// Configuration derived from the command line.
#[derive(Debug, Clone, Copy)]
pub struct Config {
    /// Controls the verbosity level of the output.
    pub verbosity: Verbosity,
}

impl Default for Config {
    fn default() -> (r: Self)
        ensures
            r.verbosity == Verbosity::Normal,
    {
        Config { verbosity: Verbosity::Normal }
    }
}

impl Config {
    #[must_use]
    pub fn is_quiet(&self) -> (r: bool)
        ensures
            r == (self.verbosity == Verbosity::Quiet),
    {
        self.verbosity == Verbosity::Quiet
    }

    #[must_use]
    pub fn is_verbose(&self) -> (r: bool)
        ensures
            r == (self.verbosity == Verbosity::Verbose),
    {
        self.verbosity == Verbosity::Verbose
    }

    /// The logging hook that fits the verbosity: the reporting one in verbose
    /// mode, the silent one otherwise.
    #[must_use]
    pub fn git_logger(&self) -> (r: GitLogger)
        ensures
            r == (if self.verbosity == Verbosity::Verbose {
                GitLogger::Verbose
            } else {
                GitLogger::NoOp
            }),
    {
        if self.is_verbose() {
            GitLogger::Verbose
        } else {
            GitLogger::NoOp
        }
    }
}

/// `c` is one of the ten decimal digits.
pub open spec fn is_digit(c: char) -> bool {
    '0' <= c <= '9'
}

/// The number that the digits `s` write in base ten; 0 for no digits.
pub open spec fn decimal_value(s: Seq<char>) -> nat
    decreases s.len(),
{
    if s.len() == 0 {
        0
    } else {
        (decimal_value(s.drop_last()) * 10 + (s.last() as int - '0' as int)) as nat
    }
}

/// `s` without the one plus sign that may lead it.
pub open spec fn without_sign(s: Seq<char>) -> Seq<char> {
    if s.len() > 0 && s[0] == '+' {
        s.drop_first()
    } else {
        s
    }
}

/// The number of seconds that `s` writes, if it writes one: an optional plus
/// sign, then one or more decimal digits, whose value fits 64 bits.
pub open spec fn written_seconds(s: Seq<char>) -> Option<u64> {
    let digits = without_sign(s);
    if digits.len() > 0 && (forall|i: int| 0 <= i < digits.len() ==> is_digit(#[trigger] digits[i]))
        && decimal_value(digits) <= u64::MAX {
        Some(decimal_value(digits) as u64)
    } else {
        None
    }
}

/// The timeout in seconds that a configured text asks for: the number it
/// writes, or the default where there is no text or it writes no number.
pub open spec fn timeout_secs(raw: Option<Seq<char>>) -> u64 {
    match raw {
        Some(s) => match written_seconds(s) {
            Some(secs) => secs,
            None => DEFAULT_GIT_TIMEOUT_SECS,
        },
        None => DEFAULT_GIT_TIMEOUT_SECS,
    }
}

/// The value of the decimal digit `c`, if it is one.
fn digit_of(c: char) -> (r: Option<u64>)
    ensures
        match r {
            Some(d) => is_digit(c) && d == c as int - '0' as int,
            None => !is_digit(c),
        },
{
    match c {
        '0' => Some(0),
        '1' => Some(1),
        '2' => Some(2),
        '3' => Some(3),
        '4' => Some(4),
        '5' => Some(5),
        '6' => Some(6),
        '7' => Some(7),
        '8' => Some(8),
        '9' => Some(9),
        _ => None,
    }
}

/// Appending a digit never lowers the value.
proof fn lemma_decimal_value_grows(s: Seq<char>, n: int)
    requires
        0 <= n <= s.len(),
        forall|i: int| 0 <= i < s.len() ==> is_digit(#[trigger] s[i]),
    ensures
        decimal_value(s.take(n)) <= decimal_value(s),
    decreases s.len() - n,
{
    if n < s.len() {
        lemma_decimal_value_grows(s, n + 1);
        assert(s.take(n + 1).drop_last() == s.take(n));
        assert(s.take(n + 1).last() == s[n]);
        assert(is_digit(s[n]));
    } else {
        assert(s.take(n) == s);
    }
}

/// Reads the number of seconds that `text` writes.
pub fn parse_seconds(text: &str) -> (r: Option<u64>)
    ensures
        r == written_seconds(text@),
{
    let chars = crate::text::chars_of(text);
    let start: usize = if chars.len() > 0 && chars[0] == '+' {
        1
    } else {
        0
    };
    let ghost digits = without_sign(text@);
    assert(digits == chars@.subrange(start as int, chars.len() as int));
    if start == chars.len() {
        return None;
    }
    let mut value: u64 = 0;
    let mut i: usize = start;
    while i < chars.len()
        invariant
            chars@ == text@,
            digits == without_sign(text@),
            digits == chars@.subrange(start as int, chars.len() as int),
            start <= i <= chars.len(),
            forall|j: int| 0 <= j < i - start ==> is_digit(#[trigger] digits[j]),
            value == decimal_value(digits.take(i - start)),
        decreases chars.len() - i,
    {
        let ghost k = i - start;
        assert(digits[k] == chars@[i as int]);
        assert(digits.take(k + 1).drop_last() == digits.take(k));
        assert(digits.take(k + 1).last() == digits[k]);
        match digit_of(chars[i]) {
            None => {
                return None;
            },
            Some(d) => {
                if value > (u64::MAX - d) / 10 {
                    proof {
                        if forall|j: int| 0 <= j < digits.len() ==> is_digit(#[trigger] digits[j]) {
                            lemma_decimal_value_grows(digits, k + 1);
                        }
                    }
                    return None;
                }
                value = value * 10 + d;
            },
        }
        i += 1;
    }
    assert(digits.take(digits.len() as int) == digits);
    Some(value)
}

/// The timeout, in seconds, of one git command. `raw` is the configured
/// override, if one is set; without one, or with one that writes no
/// number of seconds, the default holds.
pub fn git_timeout(raw: Option<&str>) -> (secs: u64)
    ensures
        secs == timeout_secs(
            match raw {
                Some(s) => Some(s@),
                None => None,
            },
        ),
{
    match raw {
        Some(s) => match parse_seconds(s) {
            Some(secs) => secs,
            None => DEFAULT_GIT_TIMEOUT_SECS,
        },
        None => DEFAULT_GIT_TIMEOUT_SECS,
    }
}

} // verus!
