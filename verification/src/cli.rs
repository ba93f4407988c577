//! Command-line value parsing for the hardware test harness.

use vstd::prelude::*;

use crate::{CommandLog, Driver, DriverCommand, DriverError};

verus! {

/// Why a palette index could not be read from text.
#[derive(Debug, Clone, Copy, PartialEq, Eq, Structural)]
pub enum ColorParseError {
    /// There were no digits at all.
    Empty,
    /// A character is not a digit of the radix in use.
    InvalidDigit,
    /// The number is larger than 255.
    PosOverflow,
}

/// The value of a digit character in radix 16 (`hex`) or 10, if it is one.
pub open spec fn digit_value(c: char, hex: bool) -> Option<nat> {
    let code = c as int;
    let value: int = if '0' as int <= code <= '9' as int {
        code - '0' as int
    } else if 'a' as int <= code <= 'z' as int {
        code - 'a' as int + 10
    } else if 'A' as int <= code <= 'Z' as int {
        code - 'A' as int + 10
    } else {
        99
    };
    if value < (if hex { 16int } else { 10int }) {
        Some(value as nat)
    } else {
        None
    }
}

/// `acc` shifted one digit to the left.
pub open spec fn shifted(acc: nat, hex: bool) -> nat {
    if hex {
        acc * 16
    } else {
        acc * 10
    }
}

/// Reading the digits left to right onto `acc`: the first character that is
/// not a digit, or the first digit that takes the value past 255, decides
/// the error.
pub open spec fn accumulate_digits(digits: Seq<char>, hex: bool, acc: nat) -> Result<u8, ColorParseError>
    decreases digits.len(),
{
    if digits.len() == 0 {
        Ok(acc as u8)
    } else {
        match digit_value(digits[0], hex) {
            None => Err(ColorParseError::InvalidDigit),
            Some(d) => if shifted(acc, hex) + d > 255 {
                Err(ColorParseError::PosOverflow)
            } else {
                accumulate_digits(digits.drop_first(), hex, shifted(acc, hex) + d)
            },
        }
    }
}

/// An unsigned byte written in radix 16 or 10, with an optional leading `+`.
pub open spec fn byte_from_radix(s: Seq<char>, hex: bool) -> Result<u8, ColorParseError> {
    if s.len() == 0 {
        Err(ColorParseError::Empty)
    } else if (s[0] == '+' || s[0] == '-') && s.len() == 1 {
        Err(ColorParseError::InvalidDigit)
    } else if s[0] == '+' {
        accumulate_digits(s.drop_first(), hex, 0)
    } else {
        accumulate_digits(s, hex, 0)
    }
}

/// Whether text starts with the hexadecimal prefix `0x` or `0X`.
pub open spec fn has_hex_prefix(s: Seq<char>) -> bool {
    s.len() >= 2 && s[0] == '0' && (s[1] == 'x' || s[1] == 'X')
}

/// A palette index written in hexadecimal after `0x`/`0X`, or in decimal.
pub open spec fn color_byte_of(s: Seq<char>) -> Result<u8, ColorParseError> {
    if has_hex_prefix(s) {
        byte_from_radix(s.skip(2), true)
    } else {
        byte_from_radix(s, false)
    }
}

fn digit_of(c: char, hex: bool) -> (d: Option<u32>)
    ensures
        match d {
            Some(v) => digit_value(c, hex) == Some(v as nat),
            None => digit_value(c, hex) is None,
        },
{
    let code = c as u32;
    let value: u32 = if '0' as u32 <= code && code <= '9' as u32 {
        code - '0' as u32
    } else if 'a' as u32 <= code && code <= 'z' as u32 {
        code - 'a' as u32 + 10
    } else if 'A' as u32 <= code && code <= 'Z' as u32 {
        code - 'A' as u32 + 10
    } else {
        99
    };
    let radix: u32 = if hex { 16 } else { 10 };
    if value < radix {
        Some(value)
    } else {
        None
    }
}

/// Read an unsigned byte in radix 16 or 10 from the characters of `s` from
/// position `start` on.
fn byte_from_radix_at(s: &str, start: usize, hex: bool) -> (result: Result<u8, ColorParseError>)
    requires
        start <= s@.len(),
    ensures
        result == byte_from_radix(s@.skip(start as int), hex),
{
    let n = s.unicode_len();
    let ghost text = s@.skip(start as int);
    if start == n {
        return Err(ColorParseError::Empty);
    }
    let first = s.get_char(start);
    assert(text[0] == first);
    if (first == '+' || first == '-') && n - start == 1 {
        return Err(ColorParseError::InvalidDigit);
    }
    let mut i: usize = if first == '+' { start + 1 } else { start };
    proof {
        if first == '+' {
            assert(text.drop_first() =~= s@.skip(i as int));
        } else {
            assert(text =~= s@.skip(i as int));
        }
    }
    let mut acc: u32 = 0;
    while i < n
        invariant
            n == s@.len(),
            start <= i <= n,
            acc <= 255,
            byte_from_radix(text, hex) == accumulate_digits(s@.skip(i as int), hex, acc as nat),
            text == s@.skip(start as int),
            text.len() > 0,
            !((text[0] == '+' || text[0] == '-') && text.len() == 1),
        decreases n - i,
    {
        let c = s.get_char(i);
        assert(s@.skip(i as int)[0] == c);
        match digit_of(c, hex) {
            None => {
                return Err(ColorParseError::InvalidDigit);
            },
            Some(d) => {
                let next: u32 = if hex { acc * 16 + d } else { acc * 10 + d };
                assert(next == shifted(acc as nat, hex) + d);
                if next > 255 {
                    return Err(ColorParseError::PosOverflow);
                }
                assert(s@.skip(i as int).drop_first() =~= s@.skip(i + 1));
                acc = next;
                i = i + 1;
            },
        }
    }
    assert(s@.skip(i as int).len() == 0);
    Ok(acc as u8)
}

/// Read a palette index: hexadecimal after a `0x` or `0X` prefix, decimal
/// otherwise; an optional `+` may precede the digits.
pub fn parse_color_byte(s: &str) -> (result: Result<u8, ColorParseError>)
    ensures
        result == color_byte_of(s@),
{
    let n = s.unicode_len();
    if n >= 2 {
        let c0 = s.get_char(0);
        let c1 = s.get_char(1);
        if c0 == '0' && (c1 == 'x' || c1 == 'X') {
            return byte_from_radix_at(s, 2, true);
        }
    }
    let result = byte_from_radix_at(s, 0, false);
    assert(s@.skip(0) =~= s@);
    result
}

/// The two spellings of the hexadecimal prefix read the same number.
pub proof fn lemma_hex_prefix_case_insensitive(digits: Seq<char>)
    ensures
        color_byte_of(seq!['0', 'x'].add(digits)) == color_byte_of(seq!['0', 'X'].add(digits)),
        color_byte_of(seq!['0', 'x'].add(digits)) == byte_from_radix(digits, true),
{
    assert(seq!['0', 'x'].add(digits).skip(2) =~= digits);
    assert(seq!['0', 'X'].add(digits).skip(2) =~= digits);
}

/// The palette index used when none is given (light green).
pub const DEFAULT_COLOR: u8 = 0x19;

/// The commands the test harness gives a driver: the init handshake, then
/// either all keys off (`off`), or a cleared keyboard with one key lit
/// (`key`), or every key lit; the colour defaults to [`DEFAULT_COLOR`].
pub open spec fn harness_commands(off: bool, key: Option<u8>, color: Option<u8>) -> Seq<DriverCommand> {
    let c = match color {
        Some(c) => c,
        None => DEFAULT_COLOR,
    };
    if off {
        seq![DriverCommand::Init, DriverCommand::SetOff]
    } else {
        match key {
            Some(k) => seq![DriverCommand::Init, DriverCommand::SetOff, DriverCommand::SetOne { key: k, color: c }],
            None => seq![DriverCommand::Init, DriverCommand::SetAll { color: c }],
        }
    }
}

/// The commands the test harness gives a driver for its options.
pub fn harness_plan(off: bool, key: Option<u8>, color: Option<u8>) -> (plan: Vec<DriverCommand>)
    ensures
        plan@ == harness_commands(off, key, color),
{
    let c = match color {
        Some(c) => c,
        None => DEFAULT_COLOR,
    };
    let mut plan: Vec<DriverCommand> = Vec::new();
    plan.push(DriverCommand::Init);
    if off {
        plan.push(DriverCommand::SetOff);
    } else {
        match key {
            Some(k) => {
                plan.push(DriverCommand::SetOff);
                plan.push(DriverCommand::SetOne { key: k, color: c });
            },
            None => {
                plan.push(DriverCommand::SetAll { color: c });
            },
        }
    }
    assert(plan@ =~= harness_commands(off, key, color));
    plan
}

/// A series of commands, each carried out.
pub open spec fn all_carried_out(commands: Seq<DriverCommand>) -> Seq<(DriverCommand, bool)> {
    Seq::new(commands.len(), |i: int| (commands[i], true))
}

/// Give a driver a series of commands in order, stopping at the first that
/// fails: on success the driver got exactly the series, each carried out; on
/// failure it got the series up to and including the one that failed, and
/// nothing after it.
pub fn run_commands<D: Driver>(log: &mut CommandLog<D>, commands: &Vec<DriverCommand>) -> (result: Result<(), DriverError>)
    ensures
        result is Ok ==> final(log).history() == old(log).history() + all_carried_out(commands@),
        result is Err ==> exists|k: int|
            0 <= k < commands@.len() && final(log).history() == (old(log).history() + #[trigger] all_carried_out(
                commands@.take(k),
            )).push((commands@[k], false)),
        final(log).start_count() == old(log).start_count(),
        old(log).in_step() ==> final(log).in_step(),
{
    let mut i: usize = 0;
    assert(all_carried_out(commands@.take(0)) =~= Seq::<(DriverCommand, bool)>::empty());
    while i < commands.len()
        invariant
            i <= commands@.len(),
            log.history() == old(log).history() + all_carried_out(commands@.take(i as int)),
            log.start_count() == old(log).start_count(),
            old(log).in_step() ==> log.in_step(),
        decreases commands@.len() - i,
    {
        let ghost before = log.history();
        let result = log.send(commands[i]);
        if let Err(e) = result {
            assert(log.history() == (old(log).history() + all_carried_out(commands@.take(i as int))).push(
                (commands@[i as int], false),
            ));
            return Err(e);
        }
        assert(all_carried_out(commands@.take(i + 1)) =~= all_carried_out(commands@.take(i as int)).push(
            (commands@[i as int], true),
        ));
        assert(old(log).history() + all_carried_out(commands@.take(i + 1)) =~= before.push((commands@[i as int], true)));
        i = i + 1;
    }
    assert(commands@.take(commands@.len() as int) =~= commands@);
    Ok(())
}

/// The harness always starts with the handshake. `--off` only clears the
/// keyboard. Otherwise the last command lights with the given colour, or
/// light green (0x19) when none is given: with a key, that one key after a
/// clear; without one, every key.
pub proof fn lemma_harness_lights_with_the_given_color(off: bool, key: Option<u8>, color: Option<u8>)
    ensures
        ({
            let plan = harness_commands(off, key, color);
            let c: u8 = match color {
                Some(c) => c,
                None => 0x19u8,
            };
            &&& plan.len() >= 2
            &&& plan[0] == DriverCommand::Init
            &&& off ==> plan == seq![DriverCommand::Init, DriverCommand::SetOff]
            &&& !off && key is Some ==> {
                &&& plan.len() == 3
                &&& plan[1] == DriverCommand::SetOff
                &&& plan.last() == DriverCommand::SetOne { key: key->0, color: c }
            }
            &&& !off && key is None ==> plan.len() == 2 && plan.last() == DriverCommand::SetAll { color: c }
        }),
{
}

/// With or without a key, the plan lights in the same colour.
pub proof fn lemma_harness_color_does_not_depend_on_key(k: u8, color: Option<u8>)
    ensures
        ({
            let one = harness_commands(false, Some(k), color).last();
            let all = harness_commands(false, None, color).last();
            &&& one matches DriverCommand::SetOne { key, color: c1 }
            &&& all matches DriverCommand::SetAll { color: c2 }
            &&& key == k
            &&& c1 == c2
            &&& color matches Some(c) ==> c1 == c
        }),
{
}

} // verus!
