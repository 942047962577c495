//! Parsing the three-character configuration string that selects an option
//! set: one character each for the symbol, number and letter modes.
use vstd::prelude::*;

verus! {

use crate::alphabet::{RadixLetters, RadixNumbers, RadixSettings, RadixSymbols};

/// Whether `c` selects a symbol mode.
pub open spec fn is_symbols_char(c: char) -> bool {
    c == 'a' || c == 'u' || c == 'd'
}

/// The symbol mode `c` selects.
pub open spec fn symbols_mode(c: char) -> RadixSymbols
    recommends
        is_symbols_char(c),
{
    if c == 'a' {
        RadixSymbols::All
    } else if c == 'u' {
        RadixSymbols::UnixSafe
    } else {
        RadixSymbols::Disabled
    }
}

/// Whether `c` selects a number mode.
pub open spec fn is_numbers_char(c: char) -> bool {
    c == 'a' || c == 'd'
}

/// The number mode `c` selects.
pub open spec fn numbers_mode(c: char) -> RadixNumbers
    recommends
        is_numbers_char(c),
{
    if c == 'a' {
        RadixNumbers::All
    } else {
        RadixNumbers::Disabled
    }
}

/// Whether `c` selects a letter mode.
pub open spec fn is_letters_char(c: char) -> bool {
    c == 'i' || c == 's' || c == 'o'
}

/// The letter mode `c` selects.
pub open spec fn letters_mode(c: char) -> RadixLetters
    recommends
        is_letters_char(c),
{
    if c == 'i' {
        RadixLetters::Insensitive
    } else if c == 's' {
        RadixLetters::Sensitive
    } else {
        RadixLetters::SensitiveOrdered
    }
}

/// What parsing a configuration string yields: the string must be exactly
/// three characters, and each character must select its mode; otherwise the
/// descriptive message for the first failing check.
pub open spec fn parse_radix_spec(s: Seq<char>) -> Result<RadixSettings, Seq<char>> {
    if s.len() != 3 {
        Err("must be 3 characters long"@)
    } else if !is_symbols_char(s[0]) {
        Err("first character of radix arg must be one of these: {a,u,d}"@)
    } else if !is_numbers_char(s[1]) {
        Err("second character of radix arg must be one of these: {a,d}"@)
    } else if !is_letters_char(s[2]) {
        Err("third character of radix arg must be one of these: {i,s,o}"@)
    } else {
        Ok(
            RadixSettings {
                symbols: symbols_mode(s[0]),
                numbers: numbers_mode(s[1]),
                letters: letters_mode(s[2]),
            },
        )
    }
}

/// Parses a configuration string into an option set, or returns the error
/// message describing what was malformed.
pub fn parse_radix_arg(arg: &str) -> (r: Result<RadixSettings, String>)
    ensures
        match r {
            Ok(settings) => parse_radix_spec(arg@) == Ok::<RadixSettings, Seq<char>>(settings),
            Err(e) => parse_radix_spec(arg@) matches Err(m) && e@ == m,
        },
{
    if arg.unicode_len() != 3 {
        return Err(String::from_str("must be 3 characters long"));
    }
    let s = arg.get_char(0);
    let n = arg.get_char(1);
    let l = arg.get_char(2);
    let symbols = if s == 'a' {
        RadixSymbols::All
    } else if s == 'u' {
        RadixSymbols::UnixSafe
    } else if s == 'd' {
        RadixSymbols::Disabled
    } else {
        return Err(String::from_str("first character of radix arg must be one of these: {a,u,d}"));
    };
    let numbers = if n == 'a' {
        RadixNumbers::All
    } else if n == 'd' {
        RadixNumbers::Disabled
    } else {
        return Err(String::from_str("second character of radix arg must be one of these: {a,d}"));
    };
    let letters = if l == 'i' {
        RadixLetters::Insensitive
    } else if l == 's' {
        RadixLetters::Sensitive
    } else if l == 'o' {
        RadixLetters::SensitiveOrdered
    } else {
        return Err(String::from_str("third character of radix arg must be one of these: {i,s,o}"));
    };
    Ok(RadixSettings::new(symbols, numbers, letters))
}

} // verus!
