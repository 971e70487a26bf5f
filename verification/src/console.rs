//! The interactive console: what each command line asks of the engine.

use vstd::prelude::*;

use crate::text::{decimal_text, chars_of, next_word, next_word_exec, parse_unsigned, parse_unsigned_exec, str_equals, string_of};
use crate::{AppConfig, AppSettings};

verus! {

/// A logging threshold.
#[derive(Debug, Clone, Copy, PartialEq, Eq, Structural)]
pub enum LogLevel {
    Off,
    Trace,
    Debug,
    Info,
    Warn,
    Error,
}

/// The threshold a lower-cased word names.
pub open spec fn log_level_named(s: Seq<char>) -> Option<LogLevel> {
    if s == "off"@ {
        Some(LogLevel::Off)
    } else if s == "trace"@ {
        Some(LogLevel::Trace)
    } else if s == "debug"@ {
        Some(LogLevel::Debug)
    } else if s == "info"@ {
        Some(LogLevel::Info)
    } else if s == "warn"@ {
        Some(LogLevel::Warn)
    } else if s == "error"@ {
        Some(LogLevel::Error)
    } else {
        None
    }
}

/// The word a logging threshold is called by at the console.
pub open spec fn log_level_word(l: LogLevel) -> Seq<char> {
    match l {
        LogLevel::Off => "off"@,
        LogLevel::Trace => "trace"@,
        LogLevel::Debug => "debug"@,
        LogLevel::Info => "info"@,
        LogLevel::Warn => "warn"@,
        LogLevel::Error => "error"@,
    }
}

/// Each threshold word names the threshold of that name, and no word names
/// a threshold but its own; so `log <word>` sets exactly the threshold the
/// word is the name of, leaving the settings as they were.
pub proof fn lemma_log_level_words(
    l: LogLevel,
    s: Seq<char>,
    raw: Seq<char>,
    active: bool,
    config: AppSettings,
)
    ensures
        log_level_named(log_level_word(l)) == Some(l),
        log_level_named(s) == Some(l) ==> s == log_level_word(l),
        console_command("log"@, Some((raw, log_level_word(l))), active, config) == (
            ConsoleEffect::SetLogLevel(l, raw),
            config,
        ),
{
    reveal_strlit("off");
    reveal_strlit("trace");
    reveal_strlit("debug");
    reveal_strlit("info");
    reveal_strlit("warn");
    reveal_strlit("error");
    reveal_strlit("log");
    reveal_strlit("help");
    reveal_strlit("?");
    reveal_strlit("status");
    reveal_strlit("start");
    reveal_strlit("stop");
    assert("off"@.len() == 3 && "trace"@.len() == 5 && "debug"@.len() == 5 && "info"@.len() == 4);
    assert("warn"@.len() == 4 && "error"@.len() == 5 && "log"@.len() == 3);
    assert("help"@.len() == 4 && "?"@.len() == 1 && "status"@.len() == 6 && "start"@.len() == 5
        && "stop"@.len() == 4);
    assert("trace"@[0] != "debug"@[0] && "trace"@[0] != "error"@[0] && "debug"@[0] != "error"@[0]);
    assert("info"@[0] != "warn"@[0]);
    assert("log"@[0] != "off"@[0]);
}

/// The console's commands do what they are named for, on any settings:
/// `start` starts a stopped engine and `stop` stops a running one (each
/// reports the engine already in that state otherwise); `fragment on|off` and
/// `https on|off` set their switch to the word's state and change nothing
/// else; `size <n>` with `n` in decimal sets the fragment size to `n`.
pub proof fn lemma_console_commands(
    active: bool,
    config: AppSettings,
    raw: Seq<char>,
    on: bool,
    n: usize,
)
    ensures
        console_command("start"@, None, active, config) == (if active {
            ConsoleEffect::AlreadyRunning
        } else {
            ConsoleEffect::StartEngine
        }, config),
        console_command("stop"@, None, active, config) == (if active {
            ConsoleEffect::StopEngine
        } else {
            ConsoleEffect::AlreadyStopped
        }, config),
        console_command("fragment"@, Some((raw, if on { "on"@ } else { "off"@ })), active, config)
            == (ConsoleEffect::FragmentationSet(on), AppSettings {
            tls_record_fragmentation: on,
            ..config
        }),
        console_command("https"@, Some((raw, if on { "on"@ } else { "off"@ })), active, config)
            == (ConsoleEffect::HttpsOnlySet(on), AppSettings { https_only: on, ..config }),
        console_command("size"@, Some((decimal_text(n as nat), raw)), active, config) == (
            ConsoleEffect::SizeSet(n),
            AppSettings { fragmentation_size: n, ..config },
        ),
{
    reveal_strlit("help");
    reveal_strlit("?");
    reveal_strlit("status");
    reveal_strlit("start");
    reveal_strlit("stop");
    reveal_strlit("log");
    reveal_strlit("fragment");
    reveal_strlit("size");
    reveal_strlit("https");
    reveal_strlit("on");
    reveal_strlit("off");
    assert("help"@.len() == 4 && "?"@.len() == 1 && "status"@.len() == 6 && "start"@.len() == 5);
    assert("stop"@.len() == 4 && "log"@.len() == 3 && "fragment"@.len() == 8 && "size"@.len() == 4);
    assert("https"@.len() == 5 && "on"@.len() == 2 && "off"@.len() == 3);
    assert("stop"@[0] != "help"@[0] && "size"@[0] != "help"@[0] && "size"@[1] != "stop"@[1]);
    assert("https"@[0] != "start"@[0]);
    crate::text::lemma_decimal_round_trip(n as nat, usize::MAX as nat);
}

/// What a console line asks for.
#[derive(Debug)]
pub enum ConsoleAction {
    /// A blank line.
    Nothing,
    ShowHelp,
    ShowStatus,
    /// Point the system proxy at the engine and switch interception on.
    StartEngine,
    AlreadyRunning,
    /// Clear the system proxy and switch interception off.
    StopEngine,
    AlreadyStopped,
    LogUsage,
    /// Set the logging threshold; the argument as it was typed.
    SetLogLevel(LogLevel, String),
    InvalidLogLevel,
    FragmentUsage,
    /// TLS record fragmentation was switched on or off.
    FragmentationSet(bool),
    InvalidFragmentArgument,
    SizeUsage,
    /// The fragment size was set.
    SizeSet(usize),
    InvalidSize,
    HttpsUsage,
    /// The HTTPS-only policy was switched on or off.
    HttpsOnlySet(bool),
    InvalidHttpsArgument,
    /// Leave the console.
    Exit,
    /// An unknown command, lower-cased.
    Unknown(String),
}

/// A console action as a value.
pub ghost enum ConsoleEffect {
    Nothing,
    ShowHelp,
    ShowStatus,
    StartEngine,
    AlreadyRunning,
    StopEngine,
    AlreadyStopped,
    LogUsage,
    SetLogLevel(LogLevel, Seq<char>),
    InvalidLogLevel,
    FragmentUsage,
    FragmentationSet(bool),
    InvalidFragmentArgument,
    SizeUsage,
    SizeSet(usize),
    InvalidSize,
    HttpsUsage,
    HttpsOnlySet(bool),
    InvalidHttpsArgument,
    Exit,
    Unknown(Seq<char>),
}

/// The value of a console action.
pub open spec fn console_effect(a: ConsoleAction) -> ConsoleEffect {
    match a {
        ConsoleAction::Nothing => ConsoleEffect::Nothing,
        ConsoleAction::ShowHelp => ConsoleEffect::ShowHelp,
        ConsoleAction::ShowStatus => ConsoleEffect::ShowStatus,
        ConsoleAction::StartEngine => ConsoleEffect::StartEngine,
        ConsoleAction::AlreadyRunning => ConsoleEffect::AlreadyRunning,
        ConsoleAction::StopEngine => ConsoleEffect::StopEngine,
        ConsoleAction::AlreadyStopped => ConsoleEffect::AlreadyStopped,
        ConsoleAction::LogUsage => ConsoleEffect::LogUsage,
        ConsoleAction::SetLogLevel(l, a) => ConsoleEffect::SetLogLevel(l, a@),
        ConsoleAction::InvalidLogLevel => ConsoleEffect::InvalidLogLevel,
        ConsoleAction::FragmentUsage => ConsoleEffect::FragmentUsage,
        ConsoleAction::FragmentationSet(b) => ConsoleEffect::FragmentationSet(b),
        ConsoleAction::InvalidFragmentArgument => ConsoleEffect::InvalidFragmentArgument,
        ConsoleAction::SizeUsage => ConsoleEffect::SizeUsage,
        ConsoleAction::SizeSet(n) => ConsoleEffect::SizeSet(n),
        ConsoleAction::InvalidSize => ConsoleEffect::InvalidSize,
        ConsoleAction::HttpsUsage => ConsoleEffect::HttpsUsage,
        ConsoleAction::HttpsOnlySet(b) => ConsoleEffect::HttpsOnlySet(b),
        ConsoleAction::InvalidHttpsArgument => ConsoleEffect::InvalidHttpsArgument,
        ConsoleAction::Exit => ConsoleEffect::Exit,
        ConsoleAction::Unknown(c) => ConsoleEffect::Unknown(c@),
    }
}

/// What a console command asks for and the settings afterwards: `command`
/// is the lower-cased first word; `argument` the second word as typed and
/// lower-cased, if there is one. `start` and `stop` depend on whether
/// interception is on; `fragment`, `size` and `https` change the settings
/// when their argument is understood; `size` reads its argument as an
/// unsigned number.
pub open spec fn console_command(
    command: Seq<char>,
    argument: Option<(Seq<char>, Seq<char>)>,
    active: bool,
    config: AppSettings,
) -> (ConsoleEffect, AppSettings) {
    if command == "help"@ || command == "?"@ {
        (ConsoleEffect::ShowHelp, config)
    } else if command == "status"@ {
        (ConsoleEffect::ShowStatus, config)
    } else if command == "start"@ {
        (
            if active {
                ConsoleEffect::AlreadyRunning
            } else {
                ConsoleEffect::StartEngine
            },
            config,
        )
    } else if command == "stop"@ {
        (
            if active {
                ConsoleEffect::StopEngine
            } else {
                ConsoleEffect::AlreadyStopped
            },
            config,
        )
    } else if command == "log"@ {
        match argument {
            None => (ConsoleEffect::LogUsage, config),
            Some((raw, low)) => match log_level_named(low) {
                Some(l) => (ConsoleEffect::SetLogLevel(l, raw), config),
                None => (ConsoleEffect::InvalidLogLevel, config),
            },
        }
    } else if command == "fragment"@ {
        match argument {
            None => (ConsoleEffect::FragmentUsage, config),
            Some((raw, low)) => if low == "on"@ {
                (
                    ConsoleEffect::FragmentationSet(true),
                    AppSettings { tls_record_fragmentation: true, ..config },
                )
            } else if low == "off"@ {
                (
                    ConsoleEffect::FragmentationSet(false),
                    AppSettings { tls_record_fragmentation: false, ..config },
                )
            } else {
                (ConsoleEffect::InvalidFragmentArgument, config)
            },
        }
    } else if command == "size"@ {
        match argument {
            None => (ConsoleEffect::SizeUsage, config),
            Some((raw, low)) => match parse_unsigned(raw, usize::MAX as nat) {
                Some(n) => (
                    ConsoleEffect::SizeSet(n as usize),
                    AppSettings { fragmentation_size: n as usize, ..config },
                ),
                None => (ConsoleEffect::InvalidSize, config),
            },
        }
    } else if command == "https"@ {
        match argument {
            None => (ConsoleEffect::HttpsUsage, config),
            Some((raw, low)) => if low == "on"@ {
                (ConsoleEffect::HttpsOnlySet(true), AppSettings { https_only: true, ..config })
            } else if low == "off"@ {
                (ConsoleEffect::HttpsOnlySet(false), AppSettings { https_only: false, ..config })
            } else {
                (ConsoleEffect::InvalidHttpsArgument, config)
            },
        }
    } else if command == "exit"@ || command == "quit"@ {
        (ConsoleEffect::Exit, config)
    } else {
        (ConsoleEffect::Unknown(command), config)
    }
}

/// An optional pair of words, as values.
pub open spec fn argument_view(argument: Option<(&str, &str)>) -> Option<(Seq<char>, Seq<char>)> {
    match argument {
        Some((raw, low)) => Some((raw@, low@)),
        None => None,
    }
}

/// Carries out a console command on the settings: `command` is the
/// lower-cased first word of the line; `argument` the second word as typed
/// and lower-cased.
pub fn run_console_command(
    command: &str,
    argument: Option<(&str, &str)>,
    active: bool,
    config: &mut AppConfig,
) -> (r: ConsoleAction)
    ensures
        (console_effect(r), final(config)@) == console_command(
            command@,
            argument_view(argument),
            active,
            old(config)@,
        ),
{
    if str_equals(command, "help") || str_equals(command, "?") {
        ConsoleAction::ShowHelp
    } else if str_equals(command, "status") {
        ConsoleAction::ShowStatus
    } else if str_equals(command, "start") {
        if active {
            ConsoleAction::AlreadyRunning
        } else {
            ConsoleAction::StartEngine
        }
    } else if str_equals(command, "stop") {
        if active {
            ConsoleAction::StopEngine
        } else {
            ConsoleAction::AlreadyStopped
        }
    } else if str_equals(command, "log") {
        match argument {
            None => ConsoleAction::LogUsage,
            Some((raw, low)) => match log_level_of(low) {
                Some(l) => ConsoleAction::SetLogLevel(l, raw.to_owned()),
                None => ConsoleAction::InvalidLogLevel,
            },
        }
    } else if str_equals(command, "fragment") {
        match argument {
            None => ConsoleAction::FragmentUsage,
            Some((_raw, low)) => {
                if str_equals(low, "on") {
                    config.tls_record_fragmentation = true;
                    ConsoleAction::FragmentationSet(true)
                } else if str_equals(low, "off") {
                    config.tls_record_fragmentation = false;
                    ConsoleAction::FragmentationSet(false)
                } else {
                    ConsoleAction::InvalidFragmentArgument
                }
            },
        }
    } else if str_equals(command, "size") {
        match argument {
            None => ConsoleAction::SizeUsage,
            Some((raw, _low)) => {
                let chars = chars_of(raw);
                proof {
                    assert(chars@.subrange(0, chars@.len() as int) =~= chars@);
                }
                match parse_unsigned_exec(&chars, 0, chars.len(), usize::MAX as u64) {
                    Some(n) => {
                        config.fragmentation_size = n as usize;
                        ConsoleAction::SizeSet(n as usize)
                    },
                    None => ConsoleAction::InvalidSize,
                }
            },
        }
    } else if str_equals(command, "https") {
        match argument {
            None => ConsoleAction::HttpsUsage,
            Some((_raw, low)) => {
                if str_equals(low, "on") {
                    config.https_only = true;
                    ConsoleAction::HttpsOnlySet(true)
                } else if str_equals(low, "off") {
                    config.https_only = false;
                    ConsoleAction::HttpsOnlySet(false)
                } else {
                    ConsoleAction::InvalidHttpsArgument
                }
            },
        }
    } else if str_equals(command, "exit") || str_equals(command, "quit") {
        ConsoleAction::Exit
    } else {
        ConsoleAction::Unknown(command.to_owned())
    }
}

/// The threshold a lower-cased word names.
fn log_level_of(s: &str) -> (r: Option<LogLevel>)
    ensures
        r == log_level_named(s@),
{
    if str_equals(s, "off") {
        Some(LogLevel::Off)
    } else if str_equals(s, "trace") {
        Some(LogLevel::Trace)
    } else if str_equals(s, "debug") {
        Some(LogLevel::Debug)
    } else if str_equals(s, "info") {
        Some(LogLevel::Info)
    } else if str_equals(s, "warn") {
        Some(LogLevel::Warn)
    } else if str_equals(s, "error") {
        Some(LogLevel::Error)
    } else {
        None
    }
}

/// What `str::to_lowercase` makes of a text: each character replaced by its
/// Unicode lower-case mapping.
pub uninterp spec fn unicode_lowercase(s: Seq<char>) -> Seq<char>;

/// `str::to_lowercase`; the result is `unicode_lowercase` of the text.
#[verifier::external_body]
fn to_lowercase(s: &str) -> (r: String)
    ensures
        r@ == unicode_lowercase(s@),
{
    s.to_lowercase()
}

/// What a console line asks for and the settings afterwards: a line without
/// words asks for nothing; otherwise its first word, lower-cased, is the
/// command and its second word, if any, the argument.
pub open spec fn console_line(line: Seq<char>, active: bool, config: AppSettings) -> (
    ConsoleEffect,
    AppSettings,
) {
    match next_word(line, 0, line.len() as int) {
        None => (ConsoleEffect::Nothing, config),
        Some((a, b)) => console_command(
            unicode_lowercase(line.subrange(a, b)),
            match next_word(line, b, line.len() as int) {
                None => None,
                Some((c, d)) => Some(
                    (line.subrange(c, d), unicode_lowercase(line.subrange(c, d))),
                ),
            },
            active,
            config,
        ),
    }
}

/// Carries out one line typed at the console.
pub fn interpret_console_line(line: &str, active: bool, config: &mut AppConfig) -> (r:
    ConsoleAction)
    ensures
        (console_effect(r), final(config)@) == console_line(line@, active, old(config)@),
{
    let chars = chars_of(line);
    let len = chars.len();
    match next_word_exec(&chars, 0, len) {
        None => ConsoleAction::Nothing,
        Some((a, b)) => {
            let word = string_of(&chars, a, b);
            let command = to_lowercase(word.as_str());
            match next_word_exec(&chars, b, len) {
                None => run_console_command(command.as_str(), None, active, config),
                Some((c, d)) => {
                    let raw = string_of(&chars, c, d);
                    let low = to_lowercase(raw.as_str());
                    run_console_command(
                        command.as_str(),
                        Some((raw.as_str(), low.as_str())),
                        active,
                        config,
                    )
                },
            }
        },
    }
}

} // verus!
