//! The command table: which AT command a line of text is.
//!
//! A line is matched after the blanks at its ends are cut. The table is
//! matched by literal prefix, case-sensitive, in a fixed order; what follows
//! the prefix is the command's argument, and an argument that the command does
//! not take makes the line malformed.

use crate::text::{
    byte_len, digit_value, is_digit, parse_unsigned, same_text, starts_with, to_chars,
    trim_bounds, trimmed, unsigned_u64,
};
use vstd::prelude::*;
use vstd::string::*;

verus! {

/// Prefix of the functionality-mode command.
pub const AT_CFUN: &'static str = "AT+CFUN";

/// Prefix of the baud-rate command.
pub const AT_IPR: &'static str = "AT+IPR";

/// Prefix of the command that stores the settings.
pub const AT_AND_W: &'static str = "AT&W";

/// Prefix of the echo command.
pub const AT_ECHO: &'static str = "ATE";

/// Prefix of the error-verbosity command.
pub const AT_CMEE: &'static str = "AT+CMEE";

/// The command that asks for the manufacturer's name.
pub const AT_CGMI: &'static str = "AT+CGMI";

/// The command that asks for the model.
pub const AT_CGMM: &'static str = "AT+CGMM";

/// The command that asks for the serial number.
pub const AT_CGSN: &'static str = "AT+CGSN";

/// The command that asks for the firmware revision.
pub const AT_CGMR: &'static str = "AT+CGMR";

/// Prefix of the network-registration command.
pub const AT_CREG: &'static str = "AT+CREG";

/// Which of the four identification texts a command asks for.
#[derive(Clone, Copy, Debug, PartialEq, Eq, Structural)]
pub enum InfoKind {
    /// The manufacturer's name, asked for by `AT+CGMI`.
    Manufacturer,
    /// The model, asked for by `AT+CGMM`.
    Model,
    /// The serial number, asked for by `AT+CGSN`.
    Serial,
    /// The firmware revision, asked for by `AT+CGMR`.
    Revision,
}

/// A line of text read as a command.
#[derive(Clone, Copy, Debug, PartialEq, Eq, Structural)]
pub enum Command {
    /// The bare attention line: `AT`, or anything of at most two bytes.
    Attention,
    /// `AT+CFUN=<mode>` or `AT+CFUN=<mode>,<reset>`, with mode 0, 1 or 4 and
    /// a one-digit reset mode.
    SetFunction { mode: u8, reset: Option<u8> },
    /// `AT+CFUN?`
    QueryFunction,
    /// `AT+IPR=<rate>`
    SetBaud { rate: u64 },
    /// `AT+IPR?`
    QueryBaud,
    /// `AT&W`, whatever follows it.
    Save,
    /// `ATE0` or `ATE1`
    SetEcho { on: bool },
    /// `AT+CMEE=<level>`, with level 0, 1 or 2.
    SetVerbosity { level: u8 },
    /// One of `AT+CGMI`, `AT+CGMM`, `AT+CGSN`, `AT+CGMR`.
    Info { kind: InfoKind },
    /// `AT+CREG=0` or `AT+CREG=1`
    SetRegistration { urc: bool },
    /// `AT+CREG?`
    QueryRegistration,
    /// A line that begins like a command of the table and goes on with an
    /// argument that the command does not take.
    Malformed,
    /// A line that begins like no command of the table.
    Unknown,
}

/// Whether `c` is the digit of a functionality mode that the modem has.
pub open spec fn is_function_mode(c: char) -> bool {
    c == '0' || c == '1' || c == '4'
}

/// What follows `AT+CFUN`, read as its argument.
pub open spec fn parse_function(rest: Seq<char>) -> Command {
    if rest.len() == 1 && rest[0] == '?' {
        Command::QueryFunction
    } else if rest.len() == 2 && rest[0] == '=' && is_function_mode(rest[1]) {
        Command::SetFunction { mode: digit_value(rest[1]) as u8, reset: None }
    } else if rest.len() == 4 && rest[0] == '=' && is_function_mode(rest[1]) && rest[2] == ','
        && is_digit(rest[3]) {
        Command::SetFunction {
            mode: digit_value(rest[1]) as u8,
            reset: Some(digit_value(rest[3]) as u8),
        }
    } else {
        Command::Malformed
    }
}

/// What follows `AT+IPR`, read as its argument. A rate that does not fit 64
/// bits is no rate that the modem could have.
pub open spec fn parse_baud(rest: Seq<char>) -> Command {
    if rest.len() == 1 && rest[0] == '?' {
        Command::QueryBaud
    } else if rest.len() >= 1 && rest[0] == '=' {
        match unsigned_u64(rest.skip(1)) {
            Some(rate) => Command::SetBaud { rate },
            None => Command::Malformed,
        }
    } else {
        Command::Malformed
    }
}

/// What follows `ATE`, read as its argument.
pub open spec fn parse_echo(rest: Seq<char>) -> Command {
    if rest.len() == 1 && rest[0] == '0' {
        Command::SetEcho { on: false }
    } else if rest.len() == 1 && rest[0] == '1' {
        Command::SetEcho { on: true }
    } else {
        Command::Malformed
    }
}

/// What follows `AT+CMEE`, read as its argument.
pub open spec fn parse_verbosity(rest: Seq<char>) -> Command {
    if rest.len() == 2 && rest[0] == '=' && '0' <= rest[1] <= '2' {
        Command::SetVerbosity { level: digit_value(rest[1]) as u8 }
    } else {
        Command::Malformed
    }
}

/// What follows `AT+CREG`, read as its argument.
pub open spec fn parse_registration(rest: Seq<char>) -> Command {
    if rest.len() == 1 && rest[0] == '?' {
        Command::QueryRegistration
    } else if rest.len() == 2 && rest[0] == '=' && rest[1] == '0' {
        Command::SetRegistration { urc: false }
    } else if rest.len() == 2 && rest[0] == '=' && rest[1] == '1' {
        Command::SetRegistration { urc: true }
    } else {
        Command::Malformed
    }
}

/// Whether `text` begins like one of the four identification commands.
pub open spec fn is_info_prefixed(text: Seq<char>) -> bool {
    AT_CGMI@.is_prefix_of(text) || AT_CGMM@.is_prefix_of(text) || AT_CGSN@.is_prefix_of(text)
        || AT_CGMR@.is_prefix_of(text)
}

/// A line that begins like an identification command: the command if the line
/// is exactly it, malformed if anything follows.
pub open spec fn parse_info(text: Seq<char>) -> Command {
    if text == AT_CGMI@ {
        Command::Info { kind: InfoKind::Manufacturer }
    } else if text == AT_CGMM@ {
        Command::Info { kind: InfoKind::Model }
    } else if text == AT_CGSN@ {
        Command::Info { kind: InfoKind::Serial }
    } else if text == AT_CGMR@ {
        Command::Info { kind: InfoKind::Revision }
    } else {
        Command::Malformed
    }
}

/// The command that `text` is, `text` being a line without the blanks at its
/// ends. The first row of the table that matches decides.
pub open spec fn parse(text: Seq<char>) -> Command {
    if byte_len(text) <= 2 {
        Command::Attention
    } else if AT_CFUN@.is_prefix_of(text) {
        parse_function(text.skip(AT_CFUN@.len() as int))
    } else if AT_IPR@.is_prefix_of(text) {
        parse_baud(text.skip(AT_IPR@.len() as int))
    } else if AT_AND_W@.is_prefix_of(text) {
        Command::Save
    } else if AT_ECHO@.is_prefix_of(text) {
        parse_echo(text.skip(AT_ECHO@.len() as int))
    } else if AT_CMEE@.is_prefix_of(text) {
        parse_verbosity(text.skip(AT_CMEE@.len() as int))
    } else if is_info_prefixed(text) {
        parse_info(text)
    } else if AT_CREG@.is_prefix_of(text) {
        parse_registration(text.skip(AT_CREG@.len() as int))
    } else {
        Command::Unknown
    }
}

/// The command that the line `line` is, blanks at its ends not counted.
pub open spec fn parse_line(line: Seq<char>) -> Command {
    parse(trimmed(line))
}

/// What the constants of the command table hold, character by character.
pub proof fn lemma_command_table()
    ensures
        AT_CFUN@ == seq!['A', 'T', '+', 'C', 'F', 'U', 'N'],
        AT_IPR@ == seq!['A', 'T', '+', 'I', 'P', 'R'],
        AT_AND_W@ == seq!['A', 'T', '&', 'W'],
        AT_ECHO@ == seq!['A', 'T', 'E'],
        AT_CMEE@ == seq!['A', 'T', '+', 'C', 'M', 'E', 'E'],
        AT_CGMI@ == seq!['A', 'T', '+', 'C', 'G', 'M', 'I'],
        AT_CGMM@ == seq!['A', 'T', '+', 'C', 'G', 'M', 'M'],
        AT_CGSN@ == seq!['A', 'T', '+', 'C', 'G', 'S', 'N'],
        AT_CGMR@ == seq!['A', 'T', '+', 'C', 'G', 'M', 'R'],
        AT_CREG@ == seq!['A', 'T', '+', 'C', 'R', 'E', 'G'],
{
    reveal_strlit("AT+CFUN");
    reveal_strlit("AT+IPR");
    reveal_strlit("AT&W");
    reveal_strlit("ATE");
    reveal_strlit("AT+CMEE");
    reveal_strlit("AT+CGMI");
    reveal_strlit("AT+CGMM");
    reveal_strlit("AT+CGSN");
    reveal_strlit("AT+CGMR");
    reveal_strlit("AT+CREG");
    assert(AT_CFUN@ =~= seq!['A', 'T', '+', 'C', 'F', 'U', 'N']);
    assert(AT_IPR@ =~= seq!['A', 'T', '+', 'I', 'P', 'R']);
    assert(AT_AND_W@ =~= seq!['A', 'T', '&', 'W']);
    assert(AT_ECHO@ =~= seq!['A', 'T', 'E']);
    assert(AT_CMEE@ =~= seq!['A', 'T', '+', 'C', 'M', 'E', 'E']);
    assert(AT_CGMI@ =~= seq!['A', 'T', '+', 'C', 'G', 'M', 'I']);
    assert(AT_CGMM@ =~= seq!['A', 'T', '+', 'C', 'G', 'M', 'M']);
    assert(AT_CGSN@ =~= seq!['A', 'T', '+', 'C', 'G', 'S', 'N']);
    assert(AT_CGMR@ =~= seq!['A', 'T', '+', 'C', 'G', 'M', 'R']);
    assert(AT_CREG@ =~= seq!['A', 'T', '+', 'C', 'R', 'E', 'G']);
}

/// The value of the decimal digit `c`.
fn digit_of(c: char) -> (d: u8)
    requires
        is_digit(c),
    ensures
        d == digit_value(c),
        d <= 9,
{
    (c as u32 - 48) as u8
}

/// Whether `c` is the digit of a functionality mode that the modem has.
fn function_mode_digit(c: char) -> (b: bool)
    ensures
        b == is_function_mode(c),
{
    c == '0' || c == '1' || c == '4'
}

/// Reads the argument of a line that begins with `AT+CFUN`.
fn read_function(text: &Vec<char>) -> (c: Command)
    requires
        AT_CFUN@.is_prefix_of(text@),
    ensures
        c == parse_function(text@.skip(AT_CFUN@.len() as int)),
{
    proof {
        lemma_command_table();
    }
    let n: usize = text.len();
    if n == 8 && text[7] == '?' {
        Command::QueryFunction
    } else if n == 9 && text[7] == '=' && function_mode_digit(text[8]) {
        Command::SetFunction { mode: digit_of(text[8]), reset: None }
    } else if n == 11 && text[7] == '=' && function_mode_digit(text[8]) && text[9] == ','
        && text[10] >= '0' && text[10] <= '9' {
        Command::SetFunction { mode: digit_of(text[8]), reset: Some(digit_of(text[10])) }
    } else {
        Command::Malformed
    }
}

/// Reads the argument of a line that begins with `AT+IPR`.
fn read_baud(text: &Vec<char>) -> (c: Command)
    requires
        AT_IPR@.is_prefix_of(text@),
    ensures
        c == parse_baud(text@.skip(AT_IPR@.len() as int)),
{
    proof {
        lemma_command_table();
    }
    let n: usize = text.len();
    if n == 7 && text[6] == '?' {
        Command::QueryBaud
    } else if n >= 7 && text[6] == '=' {
        assert(text@.skip(6).skip(1) =~= text@.subrange(7, n as int));
        match parse_unsigned(vstd::slice::slice_subrange(text.as_slice(), 7, n)) {
            Some(rate) => Command::SetBaud { rate },
            None => Command::Malformed,
        }
    } else {
        Command::Malformed
    }
}

/// Reads the argument of a line that begins with `ATE`.
fn read_echo(text: &Vec<char>) -> (c: Command)
    requires
        AT_ECHO@.is_prefix_of(text@),
    ensures
        c == parse_echo(text@.skip(AT_ECHO@.len() as int)),
{
    proof {
        lemma_command_table();
    }
    let n: usize = text.len();
    if n == 4 && text[3] == '0' {
        Command::SetEcho { on: false }
    } else if n == 4 && text[3] == '1' {
        Command::SetEcho { on: true }
    } else {
        Command::Malformed
    }
}

/// Reads the argument of a line that begins with `AT+CMEE`.
fn read_verbosity(text: &Vec<char>) -> (c: Command)
    requires
        AT_CMEE@.is_prefix_of(text@),
    ensures
        c == parse_verbosity(text@.skip(AT_CMEE@.len() as int)),
{
    proof {
        lemma_command_table();
    }
    let n: usize = text.len();
    if n == 9 && text[7] == '=' && text[8] >= '0' && text[8] <= '2' {
        Command::SetVerbosity { level: digit_of(text[8]) }
    } else {
        Command::Malformed
    }
}

/// Reads the argument of a line that begins with `AT+CREG`.
fn read_registration(text: &Vec<char>) -> (c: Command)
    requires
        AT_CREG@.is_prefix_of(text@),
    ensures
        c == parse_registration(text@.skip(AT_CREG@.len() as int)),
{
    proof {
        lemma_command_table();
    }
    let n: usize = text.len();
    if n == 8 && text[7] == '?' {
        Command::QueryRegistration
    } else if n == 9 && text[7] == '=' && text[8] == '0' {
        Command::SetRegistration { urc: false }
    } else if n == 9 && text[7] == '=' && text[8] == '1' {
        Command::SetRegistration { urc: true }
    } else {
        Command::Malformed
    }
}

/// Reads a line that begins like an identification command.
fn read_info(text: &Vec<char>) -> (c: Command)
    ensures
        c == parse_info(text@),
{
    if same_text(text, AT_CGMI) {
        Command::Info { kind: InfoKind::Manufacturer }
    } else if same_text(text, AT_CGMM) {
        Command::Info { kind: InfoKind::Model }
    } else if same_text(text, AT_CGSN) {
        Command::Info { kind: InfoKind::Serial }
    } else if same_text(text, AT_CGMR) {
        Command::Info { kind: InfoKind::Revision }
    } else {
        Command::Malformed
    }
}

/// Reads `line` as a command.
pub fn parse_command(line: &str) -> (c: Command)
    ensures
        c == parse_line(line@),
{
    let chars: Vec<char> = to_chars(line);
    let (start, end) = trim_bounds(&chars);
    let cut: &str = line.substring_char(start, end);
    if cut.as_bytes().len() <= 2 {
        return Command::Attention;
    }
    let text: Vec<char> = to_chars(cut);
    if starts_with(&text, AT_CFUN) {
        read_function(&text)
    } else if starts_with(&text, AT_IPR) {
        read_baud(&text)
    } else if starts_with(&text, AT_AND_W) {
        Command::Save
    } else if starts_with(&text, AT_ECHO) {
        read_echo(&text)
    } else if starts_with(&text, AT_CMEE) {
        read_verbosity(&text)
    } else if starts_with(&text, AT_CGMI) || starts_with(&text, AT_CGMM) || starts_with(
        &text,
        AT_CGSN,
    ) || starts_with(&text, AT_CGMR) {
        read_info(&text)
    } else if starts_with(&text, AT_CREG) {
        read_registration(&text)
    } else {
        Command::Unknown
    }
}

} // verus!
