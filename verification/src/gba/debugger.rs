use crate::cli::LogLevel;
use std::collections::HashSet;
use vstd::prelude::*;

verus! {

/// A command typed at the debugger prompt.
#[derive(Debug, PartialEq, Eq, Structural, Clone, Copy)]
pub enum DebuggerCommand {
    BreakPoint(usize),
    Continue(ContinueSubcommand),
    Info,
    ReadMem(usize),
    WriteMem(u32, usize),
    LogLevel(LogLevel),
    Next,
    Quit,
}

/// Run until a break point, or for a number of instructions.
#[derive(Debug, PartialEq, Eq, Structural, Clone, Copy)]
pub enum ContinueSubcommand {
    Endless,
    For(usize),
}

/// Why a line could not be read as a command; the text is the offending word or line.
#[derive(Debug, PartialEq, Clone)]
pub enum CommandParseError {
    NoCommandGiven,
    CommandNotRecognized(String),
    CommandMissingArguments(String),
}

/// A parse error with its text as a sequence of characters.
pub enum ParseErrorView {
    NoCommandGiven,
    CommandNotRecognized(Seq<char>),
    CommandMissingArguments(Seq<char>),
}

impl View for CommandParseError {
    type V = ParseErrorView;

    open spec fn view(&self) -> ParseErrorView {
        match self {
            CommandParseError::NoCommandGiven => ParseErrorView::NoCommandGiven,
            CommandParseError::CommandNotRecognized(s) => ParseErrorView::CommandNotRecognized(s@),
            CommandParseError::CommandMissingArguments(s) => ParseErrorView::CommandMissingArguments(
                s@,
            ),
        }
    }
}

impl CommandParseError {
    /// The message shown for the error: nothing when no command was given.
    pub open spec fn message_text(self) -> Seq<char> {
        match self {
            CommandParseError::NoCommandGiven => ""@,
            CommandParseError::CommandNotRecognized(s) => "Command not recognized: "@ + s@,
            CommandParseError::CommandMissingArguments(s) => "Command missing arguements: "@ + s@,
        }
    }

    pub fn message(&self) -> (r: String)
        ensures
            r@ == self.message_text(),
    {
        match self {
            CommandParseError::NoCommandGiven => String::from_str(""),
            CommandParseError::CommandNotRecognized(s) => {
                let mut m = String::from_str("Command not recognized: ");
                m.append(s.as_str());
                m
            },
            CommandParseError::CommandMissingArguments(s) => {
                let mut m = String::from_str("Command missing arguements: ");
                m.append(s.as_str());
                m
            },
        }
    }
}

// Splitting a line into words.

/// Unicode White_Space, the characters that `str::split_whitespace` splits at.
pub open spec fn is_white_space(c: char) -> bool {
    let n = c as u32;
    ||| 0x9 <= n <= 0xd
    ||| n == 0x20
    ||| n == 0x85
    ||| n == 0xa0
    ||| n == 0x1680
    ||| 0x2000 <= n <= 0x200a
    ||| n == 0x2028
    ||| n == 0x2029
    ||| n == 0x202f
    ||| n == 0x205f
    ||| n == 0x3000
}

pub fn white_space(c: char) -> (r: bool)
    ensures
        r == is_white_space(c),
{
    let n = c as u32;
    (0x9 <= n && n <= 0xd) || n == 0x20 || n == 0x85 || n == 0xa0 || n == 0x1680 || (0x2000 <= n
        && n <= 0x200a) || n == 0x2028 || n == 0x2029 || n == 0x202f || n == 0x205f || n == 0x3000
}

/// The end of the word starting at `i`: the first index at or after `i` holding white space,
/// or the length.
pub open spec fn word_end(s: Seq<char>, i: int) -> int
    decreases s.len() - i,
{
    if i < 0 || i >= s.len() || is_white_space(s[i]) {
        i
    } else {
        word_end(s, i + 1)
    }
}

pub proof fn lemma_word_end(s: Seq<char>, i: int)
    requires
        0 <= i <= s.len(),
    ensures
        i <= word_end(s, i) <= s.len(),
    decreases s.len() - i,
{
    if i < s.len() && !is_white_space(s[i]) {
        lemma_word_end(s, i + 1);
    }
}

/// The words of `s` from index `i` on: its maximal runs of characters that are not white
/// space, in order.
pub open spec fn words_from(s: Seq<char>, i: int) -> Seq<Seq<char>>
    decreases s.len() - i,
{
    if i < 0 || i >= s.len() {
        seq![]
    } else if is_white_space(s[i]) {
        words_from(s, i + 1)
    } else {
        let b = word_end(s, i + 1);
        proof {
            lemma_word_end(s, i + 1);
        }
        seq![s.subrange(i, b)] + words_from(s, b)
    }
}

/// The words of a line, as `str::split_whitespace` yields them.
pub open spec fn words(s: Seq<char>) -> Seq<Seq<char>> {
    words_from(s, 0)
}

/// The characters of `s`.
fn chars_of(s: &str) -> (r: Vec<char>)
    ensures
        r@ == s@,
{
    let n = s.unicode_len();
    let mut r: Vec<char> = Vec::new();
    let mut i: usize = 0;
    while i < n
        invariant
            n == s@.len(),
            i <= n,
            r@ == s@.subrange(0, i as int),
        decreases n - i,
    {
        r.push(s.get_char(i));
        i += 1;
        assert(r@ =~= s@.subrange(0, i as int));
    }
    assert(r@ =~= s@);
    r
}

/// The words `spans` marks in `s`.
pub open spec fn span_words(s: Seq<char>, spans: Seq<(usize, usize)>) -> Seq<Seq<char>> {
    spans.map_values(|p: (usize, usize)| s.subrange(p.0 as int, p.1 as int))
}

/// The start and end index of each word of `chars`.
fn word_spans(chars: &Vec<char>) -> (spans: Vec<(usize, usize)>)
    ensures
        span_words(chars@, spans@) == words(chars@),
        forall|k: int| 0 <= k < spans.len() ==> (#[trigger] spans[k]).0 <= spans[k].1 <= chars.len(),
{
    let n = chars.len();
    let ghost s = chars@;
    let mut spans: Vec<(usize, usize)> = Vec::new();
    let mut i: usize = 0;
    while i < n
        invariant
            n == s.len(),
            s == chars@,
            i <= n,
            forall|k: int| 0 <= k < spans.len() ==> (#[trigger] spans[k]).0 <= spans[k].1 <= n,
            words(s) == span_words(s, spans@) + words_from(s, i as int),
        decreases n - i,
    {
        if white_space(chars[i]) {
            i += 1;
        } else {
            let start = i;
            i += 1;
            while i < n && !white_space(chars[i])
                invariant
                    n == s.len(),
                    s == chars@,
                    start < i <= n,
                    word_end(s, start as int + 1) == word_end(s, i as int),
                decreases n - i,
            {
                i += 1;
            }
            proof {
                lemma_word_end(s, start as int + 1);
                assert(span_words(s, spans@.push((start, i))) =~= span_words(s, spans@).push(
                    s.subrange(start as int, i as int),
                ));
                assert(words_from(s, start as int) == seq![s.subrange(start as int, i as int)]
                    + words_from(s, i as int));
                assert(span_words(s, spans@) + words_from(s, start as int) =~= span_words(
                    s,
                    spans@.push((start, i)),
                ) + words_from(s, i as int));
            }
            spans.push((start, i));
        }
    }
    assert(span_words(s, spans@) + words_from(s, n as int) =~= span_words(s, spans@));
    spans
}

/// Whether the characters of `chars` from `a` to `b` spell `lit`.
fn word_is(chars: &Vec<char>, a: usize, b: usize, lit: &str) -> (r: bool)
    requires
        a <= b <= chars.len(),
    ensures
        r == (chars@.subrange(a as int, b as int) == lit@),
{
    let n = lit.unicode_len();
    if b - a != n {
        return false;
    }
    let mut i: usize = 0;
    while i < n
        invariant
            n == lit@.len(),
            b - a == n,
            a <= b <= chars.len(),
            i <= n,
            forall|j: int| 0 <= j < i ==> chars@[a + j] == lit@[j],
        decreases n - i,
    {
        if chars[a + i] != lit.get_char(i) {
            assert(chars@.subrange(a as int, b as int)[i as int] != lit@[i as int]);
            return false;
        }
        i += 1;
    }
    assert(chars@.subrange(a as int, b as int) =~= lit@);
    true
}

// Reading numbers.

/// The value of a digit character: `0` to `9`, then `a` to `z` or `A` to `Z` for 10 to 35;
/// 36 for any other character.
pub open spec fn digit_value(c: char) -> nat {
    let n = c as u32;
    if 48 <= n <= 57 {
        (n - 48) as nat
    } else if 97 <= n <= 122 {
        (n - 87) as nat
    } else if 65 <= n <= 90 {
        (n - 55) as nat
    } else {
        36
    }
}

/// The number the digits of `w` spell in base `radix`, most significant first.
pub open spec fn digits_value(w: Seq<char>, radix: nat) -> nat
    decreases w.len(),
{
    if w.len() == 0 {
        0
    } else {
        digits_value(w.drop_last(), radix) * radix + digit_value(w.last())
    }
}

pub open spec fn all_digits(w: Seq<char>, radix: nat) -> bool {
    forall|i: int| 0 <= i < w.len() ==> digit_value(#[trigger] w[i]) < radix
}

/// What `u32::from_str_radix` gives: an optional `+`, then at least one digit of the radix,
/// with a value that fits in 32 bits.
pub open spec fn parse_u32(w: Seq<char>, radix: nat) -> Option<u32> {
    let d = if w.len() > 0 && w[0] == '+' {
        w.drop_first()
    } else {
        w
    };
    if d.len() > 0 && all_digits(d, radix) && digits_value(d, radix) <= u32::MAX {
        Some(digits_value(d, radix) as u32)
    } else {
        None
    }
}

fn char_digit(c: char) -> (r: u32)
    ensures
        r == digit_value(c),
{
    let n = c as u32;
    if 48 <= n && n <= 57 {
        n - 48
    } else if 97 <= n && n <= 122 {
        n - 87
    } else if 65 <= n && n <= 90 {
        n - 55
    } else {
        36
    }
}

/// Reads the characters of `chars` from `a` to `b` as a number in base `radix`.
fn parse_u32_at(chars: &Vec<char>, a: usize, b: usize, radix: u32) -> (r: Option<u32>)
    requires
        a <= b <= chars.len(),
        2 <= radix <= 36,
    ensures
        r == parse_u32(chars@.subrange(a as int, b as int), radix as nat),
{
    let ghost w = chars@.subrange(a as int, b as int);
    let start: usize = if a < b && chars[a] == '+' {
        a + 1
    } else {
        a
    };
    let ghost d = chars@.subrange(start as int, b as int);
    assert(d =~= (if w.len() > 0 && w[0] == '+' {
        w.drop_first()
    } else {
        w
    }));
    if start == b {
        return None;
    }
    let mut acc: u64 = 0;
    let mut overflow = false;
    let mut i: usize = start;
    while i < b
        invariant
            a <= start < b <= chars.len(),
            start <= i <= b,
            2 <= radix <= 36,
            d == chars@.subrange(start as int, b as int),
            w == chars@.subrange(a as int, b as int),
            d == (if w.len() > 0 && w[0] == '+' {
                w.drop_first()
            } else {
                w
            }),
            all_digits(chars@.subrange(start as int, i as int), radix as nat),
            !overflow ==> acc == digits_value(chars@.subrange(start as int, i as int), radix as nat),
            !overflow ==> acc <= u32::MAX,
            overflow ==> digits_value(chars@.subrange(start as int, i as int), radix as nat)
                > u32::MAX,
        decreases b - i,
    {
        let ghost prev = chars@.subrange(start as int, i as int);
        let ghost next = chars@.subrange(start as int, i as int + 1);
        assert(next.drop_last() =~= prev);
        let dv = char_digit(chars[i]);
        if dv >= radix {
            assert(!all_digits(d, radix as nat)) by {
                assert(d[i - start] == chars@[i as int]);
                assert(digit_value(d[i - start]) >= radix);
            }
            return None;
        }
        let ghost pv = digits_value(prev, radix as nat);
        assert(pv * radix >= pv) by (nonlinear_arith)
            requires
                radix >= 2,
        ;
        if !overflow {
            assert(acc * (radix as u64) <= 0xffffffffu64 * 36) by (nonlinear_arith)
                requires
                    acc <= 0xffffffffu64,
                    radix <= 36,
            ;
            acc = acc * (radix as u64) + dv as u64;
            if acc > 0xffff_ffff {
                overflow = true;
            }
        }
        i += 1;
        assert(all_digits(next, radix as nat)) by {
            assert forall|j: int| 0 <= j < next.len() implies digit_value(#[trigger] next[j])
                < radix by {
                if j < prev.len() {
                    assert(next[j] == prev[j]);
                }
            }
        }
    }
    assert(chars@.subrange(start as int, i as int) =~= d);
    if overflow {
        None
    } else {
        Some(acc as u32)
    }
}

/// The log level a debugger command names.
pub open spec fn level_named(w: Seq<char>) -> Option<LogLevel> {
    if w == "error"@ {
        Some(LogLevel::Error)
    } else if w == "warn"@ {
        Some(LogLevel::Warning)
    } else if w == "info"@ {
        Some(LogLevel::Info)
    } else if w == "debug"@ {
        Some(LogLevel::Debug)
    } else if w == "trace"@ {
        Some(LogLevel::Trace)
    } else if w == "off"@ {
        Some(LogLevel::Off)
    } else {
        None
    }
}

/// The command, unless words are left over after the `used` ones.
pub open spec fn without_extra(w: Seq<Seq<char>>, used: nat, c: DebuggerCommand) -> Result<
    DebuggerCommand,
    ParseErrorView,
> {
    if w.len() > used {
        Err(ParseErrorView::CommandNotRecognized("Extra arguements not supported for command"@))
    } else {
        Ok(c)
    }
}

/// What a line of the debugger prompt means. The first word names the command (each has a
/// one-letter short form); break points, reads and writes take hexadecimal numbers, `continue`
/// an optional decimal count, `log_level` a level name. A missing argument or a word that does
/// not read is reported with the whole line (with the command word alone for a break point);
/// words after the arguments are refused.
pub open spec fn parse_spec(s: Seq<char>) -> Result<DebuggerCommand, ParseErrorView> {
    let w = words(s);
    if w.len() == 0 {
        Err(ParseErrorView::NoCommandGiven)
    } else {
        let cmd = w[0];
        if cmd == "b"@ || cmd == "break"@ {
            if w.len() < 2 {
                Err(ParseErrorView::CommandMissingArguments(cmd))
            } else {
                match parse_u32(w[1], 16) {
                    None => Err(ParseErrorView::CommandNotRecognized(cmd)),
                    Some(n) => without_extra(w, 2, DebuggerCommand::BreakPoint(n as usize)),
                }
            }
        } else if cmd == "w"@ || cmd == "write"@ {
            if w.len() < 2 {
                Err(ParseErrorView::CommandMissingArguments(s))
            } else {
                match parse_u32(w[1], 16) {
                    None => Err(ParseErrorView::CommandNotRecognized(s)),
                    Some(data) => if w.len() < 3 {
                        Err(ParseErrorView::CommandMissingArguments(s))
                    } else {
                        match parse_u32(w[2], 16) {
                            None => Err(ParseErrorView::CommandNotRecognized(s)),
                            Some(addr) => without_extra(
                                w,
                                3,
                                DebuggerCommand::WriteMem(data, addr as usize),
                            ),
                        }
                    },
                }
            }
        } else if cmd == "r"@ || cmd == "read"@ {
            if w.len() < 2 {
                Err(ParseErrorView::CommandMissingArguments(s))
            } else {
                match parse_u32(w[1], 16) {
                    None => Err(ParseErrorView::CommandNotRecognized(s)),
                    Some(addr) => without_extra(w, 2, DebuggerCommand::ReadMem(addr as usize)),
                }
            }
        } else if cmd == "c"@ || cmd == "continue"@ {
            if w.len() < 2 {
                Ok(DebuggerCommand::Continue(ContinueSubcommand::Endless))
            } else {
                match parse_u32(w[1], 10) {
                    None => Err(ParseErrorView::CommandNotRecognized(s)),
                    Some(n) => without_extra(
                        w,
                        2,
                        DebuggerCommand::Continue(ContinueSubcommand::For(n as usize)),
                    ),
                }
            }
        } else if cmd == "l"@ || cmd == "log_level"@ {
            if w.len() < 2 {
                Err(ParseErrorView::CommandMissingArguments(s))
            } else {
                match level_named(w[1]) {
                    None => Err(ParseErrorView::CommandNotRecognized(s)),
                    Some(l) => without_extra(w, 2, DebuggerCommand::LogLevel(l)),
                }
            }
        } else if cmd == "i"@ || cmd == "info"@ {
            without_extra(w, 1, DebuggerCommand::Info)
        } else if cmd == "n"@ || cmd == "next"@ {
            without_extra(w, 1, DebuggerCommand::Next)
        } else if cmd == "q"@ || cmd == "quit"@ {
            without_extra(w, 1, DebuggerCommand::Quit)
        } else {
            Err(ParseErrorView::CommandNotRecognized(s))
        }
    }
}

pub open spec fn result_view(r: Result<DebuggerCommand, CommandParseError>) -> Result<
    DebuggerCommand,
    ParseErrorView,
> {
    match r {
        Ok(c) => Ok(c),
        Err(e) => Err(e@),
    }
}

/// The command, or an error when `n` words leave some over after the `used` ones.
fn without_extra_words(n: usize, used: usize, c: DebuggerCommand) -> (r: Result<
    DebuggerCommand,
    CommandParseError,
>)
    ensures
        result_view(r) == (if n > used {
            Err(ParseErrorView::CommandNotRecognized("Extra arguements not supported for command"@))
        } else {
            Ok::<DebuggerCommand, ParseErrorView>(c)
        }),
{
    if n > used {
        Err(
            CommandParseError::CommandNotRecognized(
                String::from_str("Extra arguements not supported for command"),
            ),
        )
    } else {
        Ok(c)
    }
}

/// The log level word `chars[a..b]` names.
fn level_at(chars: &Vec<char>, a: usize, b: usize) -> (r: Option<LogLevel>)
    requires
        a <= b <= chars.len(),
    ensures
        r == level_named(chars@.subrange(a as int, b as int)),
{
    if word_is(chars, a, b, "error") {
        Some(LogLevel::Error)
    } else if word_is(chars, a, b, "warn") {
        Some(LogLevel::Warning)
    } else if word_is(chars, a, b, "info") {
        Some(LogLevel::Info)
    } else if word_is(chars, a, b, "debug") {
        Some(LogLevel::Debug)
    } else if word_is(chars, a, b, "trace") {
        Some(LogLevel::Trace)
    } else if word_is(chars, a, b, "off") {
        Some(LogLevel::Off)
    } else {
        None
    }
}

fn not_recognized(command: &str) -> (r: Result<DebuggerCommand, CommandParseError>)
    ensures
        result_view(r) == Err::<DebuggerCommand, ParseErrorView>(
            ParseErrorView::CommandNotRecognized(command@),
        ),
{
    Err(CommandParseError::CommandNotRecognized(String::from_str(command)))
}

fn missing_arguments(command: &str) -> (r: Result<DebuggerCommand, CommandParseError>)
    ensures
        result_view(r) == Err::<DebuggerCommand, ParseErrorView>(
            ParseErrorView::CommandMissingArguments(command@),
        ),
{
    Err(CommandParseError::CommandMissingArguments(String::from_str(command)))
}

impl DebuggerCommand {
    /// Reads a line of the debugger prompt, as `parse_spec` says.
    pub fn parse(command: &str) -> (r: Result<DebuggerCommand, CommandParseError>)
        ensures
            result_view(r) == parse_spec(command@),
    {
        let chars = chars_of(command);
        let spans = word_spans(&chars);
        let ghost s = command@;
        let ghost w = words(s);
        let n = spans.len();
        proof {
            assert(span_words(s, spans@).len() == n);
            assert forall|k: int| 0 <= k < n implies s.subrange(
                #[trigger] spans@[k].0 as int,
                spans@[k].1 as int,
            ) == w[k] by {
                assert(span_words(s, spans@)[k] == s.subrange(
                    spans@[k].0 as int,
                    spans@[k].1 as int,
                ));
            }
        }
        if n == 0 {
            return Err(CommandParseError::NoCommandGiven);
        }
        let (a0, b0) = spans[0];
        assert(s.subrange(a0 as int, b0 as int) == w[0]);
        if word_is(&chars, a0, b0, "b") || word_is(&chars, a0, b0, "break") {
            let word = command.substring_char(a0, b0);
            if n < 2 {
                return missing_arguments(word);
            }
            let (a1, b1) = spans[1];
            assert(s.subrange(a1 as int, b1 as int) == w[1]);
            match parse_u32_at(&chars, a1, b1, 16) {
                None => not_recognized(word),
                Some(v) => without_extra_words(n, 2, DebuggerCommand::BreakPoint(v as usize)),
            }
        } else if word_is(&chars, a0, b0, "w") || word_is(&chars, a0, b0, "write") {
            if n < 2 {
                return missing_arguments(command);
            }
            let (a1, b1) = spans[1];
            assert(s.subrange(a1 as int, b1 as int) == w[1]);
            let data = match parse_u32_at(&chars, a1, b1, 16) {
                None => {
                    return not_recognized(command);
                },
                Some(v) => v,
            };
            if n < 3 {
                return missing_arguments(command);
            }
            let (a2, b2) = spans[2];
            assert(s.subrange(a2 as int, b2 as int) == w[2]);
            match parse_u32_at(&chars, a2, b2, 16) {
                None => not_recognized(command),
                Some(addr) => without_extra_words(
                    n,
                    3,
                    DebuggerCommand::WriteMem(data, addr as usize),
                ),
            }
        } else if word_is(&chars, a0, b0, "r") || word_is(&chars, a0, b0, "read") {
            if n < 2 {
                return missing_arguments(command);
            }
            let (a1, b1) = spans[1];
            assert(s.subrange(a1 as int, b1 as int) == w[1]);
            match parse_u32_at(&chars, a1, b1, 16) {
                None => not_recognized(command),
                Some(addr) => without_extra_words(n, 2, DebuggerCommand::ReadMem(addr as usize)),
            }
        } else if word_is(&chars, a0, b0, "c") || word_is(&chars, a0, b0, "continue") {
            if n < 2 {
                return Ok(DebuggerCommand::Continue(ContinueSubcommand::Endless));
            }
            let (a1, b1) = spans[1];
            assert(s.subrange(a1 as int, b1 as int) == w[1]);
            match parse_u32_at(&chars, a1, b1, 10) {
                None => not_recognized(command),
                Some(lines) => without_extra_words(
                    n,
                    2,
                    DebuggerCommand::Continue(ContinueSubcommand::For(lines as usize)),
                ),
            }
        } else if word_is(&chars, a0, b0, "l") || word_is(&chars, a0, b0, "log_level") {
            if n < 2 {
                return missing_arguments(command);
            }
            let (a1, b1) = spans[1];
            assert(s.subrange(a1 as int, b1 as int) == w[1]);
            match level_at(&chars, a1, b1) {
                None => not_recognized(command),
                Some(level) => without_extra_words(n, 2, DebuggerCommand::LogLevel(level)),
            }
        } else if word_is(&chars, a0, b0, "i") || word_is(&chars, a0, b0, "info") {
            without_extra_words(n, 1, DebuggerCommand::Info)
        } else if word_is(&chars, a0, b0, "n") || word_is(&chars, a0, b0, "next") {
            without_extra_words(n, 1, DebuggerCommand::Next)
        } else if word_is(&chars, a0, b0, "q") || word_is(&chars, a0, b0, "quit") {
            without_extra_words(n, 1, DebuggerCommand::Quit)
        } else {
            not_recognized(command)
        }
    }
}

/// The break points after toggling `address`: cleared when set, set when clear.
pub open spec fn toggled(points: Set<usize>, address: usize) -> Set<usize> {
    if points.contains(address) {
        points.remove(address)
    } else {
        points.insert(address)
    }
}

/// Toggling a break point twice leaves the break points as they were.
pub proof fn lemma_toggle_twice(points: Set<usize>, address: usize)
    ensures
        toggled(toggled(points, address), address) == points,
{
    assert(toggled(toggled(points, address), address) =~= points);
}

/// The one-letter form and the full name of a command.
pub open spec fn same_command(short: Seq<char>, long: Seq<char>) -> bool {
    ||| short == "b"@ && long == "break"@
    ||| short == "w"@ && long == "write"@
    ||| short == "r"@ && long == "read"@
    ||| short == "c"@ && long == "continue"@
    ||| short == "l"@ && long == "log_level"@
    ||| short == "i"@ && long == "info"@
    ||| short == "n"@ && long == "next"@
    ||| short == "q"@ && long == "quit"@
}

/// A command's one-letter form and its full name, given the same arguments, are read the
/// same way: one succeeds exactly when the other does, with the same command.
pub proof fn lemma_short_names(s: Seq<char>, t: Seq<char>)
    requires
        words(s).len() > 0,
        words(t).len() > 0,
        same_command(words(s)[0], words(t)[0]),
        words(s).drop_first() == words(t).drop_first(),
    ensures
        parse_spec(s) is Ok <==> parse_spec(t) is Ok,
        parse_spec(s) is Ok ==> parse_spec(s) == parse_spec(t),
{
    let ws = words(s);
    let wt = words(t);
    assert(ws.drop_first().len() == ws.len() - 1);
    assert(wt.drop_first().len() == wt.len() - 1);
    assert(ws.len() == wt.len());
    if ws.len() > 1 {
        assert(ws[1] == ws.drop_first()[0]);
        assert(wt[1] == wt.drop_first()[0]);
    }
    if ws.len() > 2 {
        assert(ws[2] == ws.drop_first()[1]);
        assert(wt[2] == wt.drop_first()[1]);
    }
    reveal_strlit("b");
    reveal_strlit("break");
    reveal_strlit("w");
    reveal_strlit("write");
    reveal_strlit("r");
    reveal_strlit("read");
    reveal_strlit("c");
    reveal_strlit("continue");
    reveal_strlit("l");
    reveal_strlit("log_level");
    reveal_strlit("i");
    reveal_strlit("info");
    reveal_strlit("n");
    reveal_strlit("next");
    reveal_strlit("q");
    reveal_strlit("quit");
    assert("b"@.len() == 1 && "b"@[0] == 'b');
    assert("break"@.len() == 5 && "break"@[0] == 'b');
    assert("w"@.len() == 1 && "w"@[0] == 'w');
    assert("write"@.len() == 5 && "write"@[0] == 'w');
    assert("r"@.len() == 1 && "r"@[0] == 'r');
    assert("read"@.len() == 4 && "read"@[0] == 'r');
    assert("c"@.len() == 1 && "c"@[0] == 'c');
    assert("continue"@.len() == 8 && "continue"@[0] == 'c');
    assert("l"@.len() == 1 && "l"@[0] == 'l');
    assert("log_level"@.len() == 9 && "log_level"@[0] == 'l');
    assert("i"@.len() == 1 && "i"@[0] == 'i');
    assert("info"@.len() == 4 && "info"@[0] == 'i');
    assert("n"@.len() == 1 && "n"@[0] == 'n');
    assert("next"@.len() == 4 && "next"@[0] == 'n');
    assert("q"@.len() == 1 && "q"@[0] == 'q');
    assert("quit"@.len() == 4 && "quit"@[0] == 'q');
}

/// The break points of a debugging session.
#[derive(Debug)]
pub struct DebugSession {
    pub break_points: HashSet<usize>,
}

impl View for DebugSession {
    type V = Set<usize>;

    open spec fn view(&self) -> Set<usize> {
        self.break_points@
    }
}

impl DebugSession {
    pub fn new() -> (r: Self)
        ensures
            r@ == Set::<usize>::empty(),
    {
        DebugSession { break_points: HashSet::new() }
    }

    /// Sets a break point at `address`, or clears the one there; returns whether it was set.
    pub fn toggle_break_point(&mut self, address: usize) -> (set: bool)
        ensures
            set == !old(self)@.contains(address),
            final(self)@ == toggled(old(self)@, address),
    {
        broadcast use vstd::std_specs::hash::group_hash_axioms;

        if self.break_points.contains(&address) {
            self.break_points.remove(&address);
            false
        } else {
            self.break_points.insert(address);
            true
        }
    }

    pub fn is_break_point(&self, address: usize) -> (r: bool)
        ensures
            r == self@.contains(address),
    {
        broadcast use vstd::std_specs::hash::group_hash_axioms;

        self.break_points.contains(&address)
    }

    /// Whether a `continue` goes on at instruction `address` after `done` steps: not at a
    /// break point, and below the step count when one was given.
    pub fn keeps_running(&self, address: usize, limit: Option<usize>, done: usize) -> (r: bool)
        ensures
            r == (!self@.contains(address) && match limit {
                Some(l) => l > done,
                None => true,
            }),
    {
        if self.is_break_point(address) {
            return false;
        }
        match limit {
            Some(l) => l > done,
            None => true,
        }
    }
}

} // verus!
