//! The interactive prompt's commands and answers.
use vstd::prelude::*;
use crate::text::{
    after_first_word, chars_of, decimal, first_word, first_word_bounds, is_white_space,
    lemma_decimal_digits, lemma_parse_decimal, lemma_trim_idempotent, lemma_trim_of_trimmed,
    lemma_word_len_exact, parse_usize_range, parse_usize_spec, range_equals, second_word,
    string_of_range, trim_seq, trim_start_seq, trimmed_chars,
};

verus! {

/// A command typed at the `guardpetal>` prompt.
#[derive(Debug, PartialEq, Eq)]
pub enum Command {
    Help,
    Settings,
    Scope,
    Scan,
    Devices,
    Raw,
    Device(usize),
    Wipe,
    Exit,
    Unknown(String),
    Empty,
}

/// A command as a mathematical value.
pub enum CommandView {
    Help,
    Settings,
    Scope,
    Scan,
    Devices,
    Raw,
    Device(usize),
    Wipe,
    Exit,
    Unknown(Seq<char>),
    Empty,
}

impl View for Command {
    type V = CommandView;

    open spec fn view(&self) -> CommandView {
        match self {
            Command::Help => CommandView::Help,
            Command::Settings => CommandView::Settings,
            Command::Scope => CommandView::Scope,
            Command::Scan => CommandView::Scan,
            Command::Devices => CommandView::Devices,
            Command::Raw => CommandView::Raw,
            Command::Device(id) => CommandView::Device(*id),
            Command::Wipe => CommandView::Wipe,
            Command::Exit => CommandView::Exit,
            Command::Unknown(s) => CommandView::Unknown(s@),
            Command::Empty => CommandView::Empty,
        }
    }
}

/// The command that a line of input means. The input is trimmed; its first
/// word names the command and the rest is ignored, but for `run scan` and
/// `device <id>`, which read the second word. Anything else is `Unknown`
/// with the trimmed input.
pub open spec fn command_spec(input: Seq<char>) -> CommandView {
    let trimmed = trim_seq(input);
    let first = first_word(trimmed);
    let second = second_word(trimmed);
    if trimmed.len() == 0 {
        CommandView::Empty
    } else if first == "help"@ || first == "h"@ || first == "?"@ {
        CommandView::Help
    } else if first == "settings"@ {
        CommandView::Settings
    } else if first == "scope"@ {
        CommandView::Scope
    } else if first == "scan"@ {
        CommandView::Scan
    } else if first == "run"@ && second == "scan"@ {
        CommandView::Scan
    } else if first == "devices"@ {
        CommandView::Devices
    } else if first == "raw"@ {
        CommandView::Raw
    } else if first == "wipe"@ {
        CommandView::Wipe
    } else if first == "exit"@ || first == "quit"@ {
        CommandView::Exit
    } else if first == "device"@ && parse_usize_spec(second) is Some {
        CommandView::Device(parse_usize_spec(second)->0)
    } else {
        CommandView::Unknown(trimmed)
    }
}

/// Reads the commands that the user types.
pub struct CommandReader;

impl CommandReader {
    /// A reader of commands.
    pub fn new() -> (res: Self)
        ensures
            res == CommandReader,
    {
        CommandReader
    }
}

/// Parses a line typed at the prompt.
pub fn parse_command(input: &str) -> (cmd: Command)
    ensures
        cmd@ == command_spec(input@),
{
    let t = trimmed_chars(input);
    if t.len() == 0 {
        return Command::Empty;
    }
    assert(t@.subrange(0, t@.len() as int) =~= t@);
    let (a, b) = first_word_bounds(&t, 0);
    let (c, d) = first_word_bounds(&t, b);
    proof {
        assert(second_word(t@) == t@.subrange(c as int, d as int));
    }
    if range_equals(&t, a, b, &chars_of("help")) || range_equals(&t, a, b, &chars_of("h"))
        || range_equals(&t, a, b, &chars_of("?")) {
        Command::Help
    } else if range_equals(&t, a, b, &chars_of("settings")) {
        Command::Settings
    } else if range_equals(&t, a, b, &chars_of("scope")) {
        Command::Scope
    } else if range_equals(&t, a, b, &chars_of("scan")) {
        Command::Scan
    } else if range_equals(&t, a, b, &chars_of("run")) && range_equals(
        &t,
        c,
        d,
        &chars_of("scan"),
    ) {
        Command::Scan
    } else if range_equals(&t, a, b, &chars_of("devices")) {
        Command::Devices
    } else if range_equals(&t, a, b, &chars_of("raw")) {
        Command::Raw
    } else if range_equals(&t, a, b, &chars_of("wipe")) {
        Command::Wipe
    } else if range_equals(&t, a, b, &chars_of("exit")) || range_equals(
        &t,
        a,
        b,
        &chars_of("quit"),
    ) {
        Command::Exit
    } else {
        let is_device = range_equals(&t, a, b, &chars_of("device"));
        if is_device {
            match parse_usize_range(&t, c, d) {
                Some(id) => {
                    return Command::Device(id);
                },
                None => {},
            }
        }
        Command::Unknown(string_of_range(&t, 0, t.len()))
    }
}

impl Command {
    /// Whether the session locks after this command: only `exit` (or
    /// `quit`) ends it.
    pub fn ends_session(&self) -> (res: bool)
        ensures
            res == (*self is Exit),
    {
        match self {
            Command::Exit => true,
            _ => false,
        }
    }
}

/// `c` with ASCII capitals made small.
pub open spec fn ascii_lower(c: char) -> char {
    if 65 <= (c as u32) <= 90 {
        (((c as u32) + 32) as u8) as char
    } else {
        c
    }
}

/// What an answer to a yes/no question means: `y` or `yes` is `true`,
/// `n` or `no` is `false`, in any letter case and with surrounding white
/// space; anything else asks again (`None`). Only ASCII capitals lower to
/// these letters, so ASCII case folding gives the same as `to_lowercase`.
pub open spec fn confirmation_spec(answer: Seq<char>) -> Option<bool> {
    let t = trim_seq(answer).map_values(|c: char| ascii_lower(c));
    if t == "y"@ || t == "yes"@ {
        Some(true)
    } else if t == "n"@ || t == "no"@ {
        Some(false)
    } else {
        None
    }
}

/// Reads an answer to a yes/no question.
pub fn parse_confirmation(answer: &str) -> (res: Option<bool>)
    ensures
        res == confirmation_spec(answer@),
{
    let t = trimmed_chars(answer);
    let mut lower: Vec<char> = Vec::new();
    let mut i: usize = 0;
    while i < t.len()
        invariant
            i <= t@.len(),
            lower@ == t@.take(i as int).map_values(|c: char| ascii_lower(c)),
        decreases t@.len() - i,
    {
        let c = t[i];
        let u = c as u32;
        let l = if 65 <= u && u <= 90 {
            ((u + 32) as u8) as char
        } else {
            c
        };
        lower.push(l);
        assert(lower@ =~= t@.take(i + 1).map_values(|c: char| ascii_lower(c)));
        i = i + 1;
    }
    assert(t@.take(t@.len() as int) =~= t@);
    let n = lower.len();
    if range_equals(&lower, 0, n, &chars_of("y")) || range_equals(&lower, 0, n, &chars_of("yes")) {
        assert(lower@.subrange(0, n as int) =~= lower@);
        Some(true)
    } else if range_equals(&lower, 0, n, &chars_of("n")) || range_equals(
        &lower,
        0,
        n,
        &chars_of("no"),
    ) {
        assert(lower@.subrange(0, n as int) =~= lower@);
        Some(false)
    } else {
        assert(lower@.subrange(0, n as int) =~= lower@);
        None
    }
}

/// The phrase that a wipe asks the user to type.
pub open spec fn wipe_phrase() -> Seq<char> {
    "delete my GuardPetal data"@
}

/// Whether the user's answer confirms a wipe: the trimmed answer must be
/// the phrase exactly.
pub fn is_wipe_confirmation(answer: &str) -> (res: bool)
    ensures
        res == (trim_seq(answer@) == wipe_phrase()),
{
    let t = trimmed_chars(answer);
    let n = t.len();
    assert(t@.subrange(0, n as int) =~= t@);
    range_equals(&t, 0, n, &chars_of("delete my GuardPetal data"))
}

/// `device <id>` selects the device with that id: for every `usize`, the
/// line `device ` followed by its decimal numeral parses to `Device` of it.
pub proof fn lemma_device_command(n: usize)
    ensures
        command_spec("device "@ + decimal(n as nat)) == CommandView::Device(n),
{
    reveal_strlit("device ");
    reveal_strlit("device");
    reveal_strlit("help");
    reveal_strlit("h");
    reveal_strlit("?");
    reveal_strlit("settings");
    reveal_strlit("scope");
    reveal_strlit("scan");
    reveal_strlit("run");
    reveal_strlit("devices");
    reveal_strlit("raw");
    reveal_strlit("wipe");
    reveal_strlit("exit");
    reveal_strlit("quit");
    let dec = decimal(n as nat);
    lemma_decimal_digits(n as nat);
    let s = "device "@ + dec;
    assert(s[0] == 'd');
    assert(s.last() == dec[dec.len() - 1]);
    assert(!is_white_space(dec[dec.len() - 1]));
    lemma_trim_of_trimmed(s);
    assert(trim_start_seq(s) == s);
    assert forall|i: int| 0 <= i < 6 implies !is_white_space(#[trigger] s[i]) by {
        assert(s[i] == "device"@[i]);
    }
    assert(s[6] == ' ');
    lemma_word_len_exact(s, 6);
    assert(first_word(s) =~= "device"@);
    let r = s.skip(6);
    assert(r[0] == ' ');
    assert(r.drop_first() =~= dec);
    assert(trim_start_seq(dec) == dec);
    assert(trim_start_seq(r) == dec);
    assert(after_first_word(s) =~= r);
    lemma_word_len_exact(dec, dec.len() as int);
    assert(dec.take(dec.len() as int) =~= dec);
    assert(second_word(s) == dec);
    lemma_parse_decimal(n);
}

/// White space around a command never changes it: a line means what its
/// trimmed text means.
pub proof fn lemma_command_ignores_surrounding_space(input: Seq<char>)
    ensures
        command_spec(input) == command_spec(trim_seq(input)),
{
    lemma_trim_idempotent(input);
}

} // verus!
