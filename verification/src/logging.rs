//! The rules of the log: what is written, how, and how logging is set up.

use crate::text::join;
use vstd::prelude::*;

verus! {

/// The importance of a message.
#[derive(Debug, Clone, Copy, PartialEq, Eq, Structural)]
pub enum Level {
    Error,
    Warn,
    Info,
    Debug,
    Trace,
}

/// The least important messages that are still written.
#[derive(Debug, Clone, Copy, PartialEq, Eq, Structural)]
pub enum LevelFilter {
    Off,
    Error,
    Warn,
    Info,
    Debug,
    Trace,
}

/// What the client runs on.
#[derive(Debug, Clone, Copy, PartialEq, Eq, Structural)]
pub enum Platform {
    /// An ordinary operating system, with a log file.
    Native,
    /// A system that takes log messages itself.
    Trueos,
}

/// A message for the log.
#[derive(Debug)]
pub struct LogRecord {
    pub level: Level,
    pub text: String,
}

/// The name of the log file.
pub const LOG_FILE: &'static str = "rebels.log";

impl Level {
    /// The less important, the higher.
    pub open spec fn verbosity(self) -> int {
        match self {
            Level::Error => 1,
            Level::Warn => 2,
            Level::Info => 3,
            Level::Debug => 4,
            Level::Trace => 5,
        }
    }

    /// The name of the level.
    pub open spec fn text(self) -> Seq<char> {
        match self {
            Level::Error => "ERROR"@,
            Level::Warn => "WARN"@,
            Level::Info => "INFO"@,
            Level::Debug => "DEBUG"@,
            Level::Trace => "TRACE"@,
        }
    }

    /// The name of the level.
    pub fn name(self) -> (name: &'static str)
        ensures
            name@ == self.text(),
    {
        match self {
            Level::Error => "ERROR",
            Level::Warn => "WARN",
            Level::Info => "INFO",
            Level::Debug => "DEBUG",
            Level::Trace => "TRACE",
        }
    }

    /// The place of the level in the order of verbosity.
    fn rank(self) -> (rank: u8)
        ensures
            rank == self.verbosity(),
    {
        match self {
            Level::Error => 1,
            Level::Warn => 2,
            Level::Info => 3,
            Level::Debug => 4,
            Level::Trace => 5,
        }
    }
}

impl LevelFilter {
    /// The verbosity of the least important message that passes.
    pub open spec fn verbosity(self) -> int {
        match self {
            LevelFilter::Off => 0,
            LevelFilter::Error => 1,
            LevelFilter::Warn => 2,
            LevelFilter::Info => 3,
            LevelFilter::Debug => 4,
            LevelFilter::Trace => 5,
        }
    }

    /// The place of the filter in the order of verbosity.
    fn rank(self) -> (rank: u8)
        ensures
            rank == self.verbosity(),
    {
        match self {
            LevelFilter::Off => 0,
            LevelFilter::Error => 1,
            LevelFilter::Warn => 2,
            LevelFilter::Info => 3,
            LevelFilter::Debug => 4,
            LevelFilter::Trace => 5,
        }
    }
}

/// A message of `level` passes the filter `max_level`.
pub open spec fn passes(level: Level, max_level: LevelFilter) -> bool {
    level.verbosity() <= max_level.verbosity()
}

/// The log file.
pub struct NativeLogger;

impl NativeLogger {
    /// Whether a message of `level` is written.
    pub fn enabled(level: Level, max_level: LevelFilter) -> (enabled: bool)
        ensures
            enabled == passes(level, max_level),
    {
        level.rank() <= max_level.rank()
    }

    /// The line that a message adds to the log file, if it is written at all.
    pub fn log(level: Level, max_level: LevelFilter, args: &str) -> (line: Option<String>)
        ensures
            match line {
                Some(line) => passes(level, max_level) && line@ == level.text() + " - "@ + args@
                    + "\n"@,
                None => !passes(level, max_level),
            },
    {
        if !NativeLogger::enabled(level, max_level) {
            return None;
        }
        let head: String = join(level.name(), " - ");
        let line: String = join(head.as_str(), args);
        Some(join(line.as_str(), "\n"))
    }
}

/// The log of the system.
pub struct TrueosLogger;

impl TrueosLogger {
    /// Whether a message of `level` is handed to the system.
    pub fn enabled(level: Level, max_level: LevelFilter) -> (enabled: bool)
        ensures
            enabled == passes(level, max_level),
    {
        level.rank() <= max_level.rank()
    }

    /// What the system is handed for a message, if anything.
    pub fn log(level: Level, max_level: LevelFilter, args: &str) -> (record: Option<LogRecord>)
        ensures
            match record {
                Some(record) => passes(level, max_level) && record.level == level && record.text@
                    == args@,
                None => !passes(level, max_level),
            },
    {
        if TrueosLogger::enabled(level, max_level) {
            Some(LogRecord { level, text: args.to_owned() })
        } else {
            None
        }
    }
}

/// The text of a probe: `args` after `tag`, as a line of its own where the
/// system takes the message itself.
pub open spec fn probe_text(platform: Platform, tag: Seq<char>, args: Seq<char>) -> Seq<char> {
    match platform {
        Platform::Native => tag + args,
        Platform::Trueos => tag + args + "\n"@,
    }
}

/// The probe `tag` with `args`.
fn probe(platform: Platform, tag: &str, args: &str) -> (record: LogRecord)
    ensures
        record.level == Level::Info,
        record.text@ == probe_text(platform, tag@, args@),
{
    let text: String = join(tag, args);
    match platform {
        Platform::Native => LogRecord { level: Level::Info, text },
        Platform::Trueos => LogRecord { level: Level::Info, text: join(text.as_str(), "\n") },
    }
}

/// The message of the probe that follows the start of a new game.
pub fn new_game_probe(platform: Platform, args: &str) -> (record: LogRecord)
    ensures
        record.level == Level::Info,
        record.text@ == probe_text(platform, "[rebels-new-game-probe:INFO] "@, args@),
{
    probe(platform, "[rebels-new-game-probe:INFO] ", args)
}

/// The message of the probe that follows the runtimes.
pub fn multi_rt_probe(platform: Platform, args: &str) -> (record: LogRecord)
    ensures
        record.level == Level::Info,
        record.text@ == probe_text(platform, "[rebels-multi-rt-probe:INFO] "@, args@),
{
    probe(platform, "[rebels-multi-rt-probe:INFO] ", args)
}

/// What happens while logging is set up.
#[derive(Debug)]
pub enum InitEvent {
    /// The setup begins.
    Started,
    /// There is no directory for the log file.
    NoStore { cause: String },
    /// The log file is open.
    FileOpened,
    /// The log file at `path` cannot be opened.
    FileFailed { path: String, cause: String },
    /// The logger is in place.
    LoggerSet,
    /// There is a logger already.
    LoggerRefused { cause: String },
}

/// What comes next while logging is set up.
#[derive(Debug)]
pub enum InitAction {
    /// Open the file `name` of the store: whether it is created where it is
    /// missing, whether it is emptied, and whether it is opened for writing.
    OpenFile { name: String, create: bool, truncate: bool, write: bool },
    /// Put the logger in place.
    SetLogger,
    /// Set the filter; that is all.
    SetMaxLevel { level: LevelFilter },
    /// Give up.
    Fail { error: InitError },
}

/// Why logging cannot be set up.
#[derive(Debug)]
pub enum InitError {
    Store { cause: String },
    File { path: String, cause: String },
    Logger { cause: String },
}

impl InitError {
    /// The text of the error.
    pub open spec fn text(self) -> Seq<char> {
        match self {
            InitError::Store { cause } => cause@,
            InitError::File { path, cause } => "failed to open log file "@ + path@,
            InitError::Logger { cause } => cause@,
        }
    }

    /// The error in words.
    pub fn message(&self) -> (message: String)
        ensures
            message@ == self.text(),
    {
        match self {
            InitError::Store { cause } => cause.clone(),
            InitError::File { path, cause } => join("failed to open log file ", path.as_str()),
            InitError::Logger { cause } => cause.clone(),
        }
    }
}

/// The event has to do with the log file.
pub open spec fn concerns_file(event: InitEvent) -> bool {
    event is NoStore || event is FileOpened || event is FileFailed
}

/// The answer to `event`.
pub open spec fn init_answers(
    platform: Platform,
    level: LevelFilter,
    event: InitEvent,
    action: InitAction,
) -> bool {
    match event {
        InitEvent::Started => match platform {
            Platform::Native => action matches InitAction::OpenFile {
                name,
                create,
                truncate,
                write,
            } && name@ == LOG_FILE@ && create && truncate && write,
            Platform::Trueos => action == InitAction::SetLogger,
        },
        InitEvent::NoStore { cause } => action == (InitAction::Fail {
            error: InitError::Store { cause },
        }),
        InitEvent::FileOpened => action == InitAction::SetLogger,
        InitEvent::FileFailed { path, cause } => action == (InitAction::Fail {
            error: InitError::File { path, cause },
        }),
        InitEvent::LoggerSet => action == (InitAction::SetMaxLevel { level }),
        InitEvent::LoggerRefused { cause } => action == (InitAction::Fail {
            error: InitError::Logger { cause },
        }),
    }
}

/// Sets up the log of the system: what follows `event`.
pub fn init_trueos(level: LevelFilter, event: InitEvent) -> (action: InitAction)
    requires
        !concerns_file(event),
    ensures
        init_answers(Platform::Trueos, level, event, action),
{
    match event {
        InitEvent::LoggerSet => InitAction::SetMaxLevel { level },
        InitEvent::LoggerRefused { cause } => InitAction::Fail {
            error: InitError::Logger { cause },
        },
        _ => InitAction::SetLogger,
    }
}

/// Sets up the log file: what follows `event`.
pub fn init_native(level: LevelFilter, event: InitEvent) -> (action: InitAction)
    ensures
        init_answers(Platform::Native, level, event, action),
{
    match event {
        InitEvent::Started => InitAction::OpenFile {
            name: LOG_FILE.to_owned(),
            create: true,
            truncate: true,
            write: true,
        },
        InitEvent::NoStore { cause } => InitAction::Fail { error: InitError::Store { cause } },
        InitEvent::FileOpened => InitAction::SetLogger,
        InitEvent::FileFailed { path, cause } => InitAction::Fail {
            error: InitError::File { path, cause },
        },
        InitEvent::LoggerSet => InitAction::SetMaxLevel { level },
        InitEvent::LoggerRefused { cause } => InitAction::Fail {
            error: InitError::Logger { cause },
        },
    }
}

/// Sets up logging with the filter `level`: what follows `event`.
pub fn init(platform: Platform, level: LevelFilter, event: InitEvent) -> (action: InitAction)
    requires
        platform is Trueos ==> !concerns_file(event),
    ensures
        init_answers(platform, level, event, action),
{
    match platform {
        Platform::Native => init_native(level, event),
        Platform::Trueos => init_trueos(level, event),
    }
}

/// A higher filter lets through all that a lower one does, and the lowest lets
/// nothing through.
pub proof fn law_filters_are_nested(level: Level, lower: LevelFilter, higher: LevelFilter)
    requires
        lower.verbosity() <= higher.verbosity(),
    ensures
        passes(level, lower) ==> passes(level, higher),
        !passes(level, LevelFilter::Off),
        passes(level, LevelFilter::Trace),
{
}

/// The filter is set only once the logger is in place, and to the level that
/// was asked for: a setup that fails leaves it alone.
pub proof fn law_filter_is_set_last(
    platform: Platform,
    level: LevelFilter,
    event: InitEvent,
    action: InitAction,
)
    requires
        init_answers(platform, level, event, action),
    ensures
        action is SetMaxLevel <==> event is LoggerSet,
        action matches InitAction::SetMaxLevel { level: set } ==> set == level,
{
}

/// Every filter lets its own level through and stops right behind it.
pub proof fn law_filters_stop_behind_their_own_level(level: Level)
    ensures
        !passes(level, LevelFilter::Off),
        passes(level, LevelFilter::Error) <==> level is Error,
        passes(level, LevelFilter::Warn) <==> level is Error || level is Warn,
        passes(level, LevelFilter::Info) <==> !(level is Debug || level is Trace),
        passes(level, LevelFilter::Debug) <==> !(level is Trace),
        passes(level, LevelFilter::Trace),
{
}

/// A probe says its tag and then all of its message; the system gets the same
/// text, and the end of the line.
pub proof fn law_probes_say_their_message(tag: Seq<char>, args: Seq<char>)
    ensures
        ({
            let native = probe_text(Platform::Native, tag, args);
            let trueos = probe_text(Platform::Trueos, tag, args);
            &&& native.len() == tag.len() + args.len()
            &&& native.take(tag.len() as int) == tag
            &&& native.skip(tag.len() as int) == args
            &&& trueos == native.push('\n')
        }),
{
    reveal_strlit("\n");
    assert(probe_text(Platform::Native, tag, args).take(tag.len() as int) =~= tag);
    assert(probe_text(Platform::Native, tag, args).skip(tag.len() as int) =~= args);
    assert(probe_text(Platform::Trueos, tag, args) =~= probe_text(
        Platform::Native,
        tag,
        args,
    ).push('\n'));
}

/// Logging is set up step by step, on an open file where there is one, and it
/// is given up exactly when a step fails, with the cause of that failure.
pub proof fn law_setup_fails_only_with_a_step(
    platform: Platform,
    level: LevelFilter,
    event: InitEvent,
    action: InitAction,
)
    requires
        init_answers(platform, level, event, action),
    ensures
        action is OpenFile <==> event is Started && platform is Native,
        action matches InitAction::OpenFile { name, create, truncate, write } ==> {
            &&& name@ == "rebels.log"@
            &&& create && truncate && write
        },
        action is SetLogger <==> event is FileOpened || (event is Started && platform is Trueos),
        action is Fail <==> event is NoStore || event is FileFailed || event is LoggerRefused,
        action matches InitAction::Fail { error } ==> {
            &&& event matches InitEvent::NoStore { cause } ==> error == (InitError::Store { cause })
            &&& event matches InitEvent::FileFailed { path, cause } ==> error == (InitError::File {
                path,
                cause,
            })
            &&& event matches InitEvent::LoggerRefused { cause } ==> error == (InitError::Logger {
                cause,
            })
        },
{
}

/// What is told of a failed setup: the cause in full, and of a file the path in
/// full, after the same words for every path.
pub proof fn law_setup_errors_name_their_cause(cause: String, path: String, other: String)
    ensures
        (InitError::Store { cause }).text() == cause@,
        (InitError::Logger { cause }).text() == cause@,
        ({
            let text = (InitError::File { path, cause }).text();
            let like = (InitError::File { path: other, cause }).text();
            let words = text.len() - path@.len();
            &&& words == like.len() - other@.len() && words > 0
            &&& text.skip(words) == path@
            &&& text.take(words) == like.take(words)
        }),
{
    reveal_strlit("failed to open log file ");
}

/// A call of the `log` of the file gives a line exactly if the message passes;
/// the line is the name of the level, then the message in full between a dash
/// and the end of the line.
pub proof fn law_log_lines_hold_the_message(
    level: Level,
    max_level: LevelFilter,
    args: &str,
    line: Option<String>,
)
    requires
        call_ensures(NativeLogger::log, (level, max_level, args), line),
    ensures
        line is Some <==> passes(level, max_level),
        line matches Some(line) ==> {
            let head = level.text().len() as int + 3;
            &&& line@.len() == head + args@.len() + 1
            &&& line@.take(level.text().len() as int) == level.text()
            &&& line@.subrange(level.text().len() as int, head) == seq![' ', '-', ' ']
            &&& line@.subrange(head, head + args@.len()) == args@
            &&& line@.last() == '\n'
        },
{
    reveal_strlit(" - ");
    reveal_strlit("\n");
    if let Some(line) = line {
        let name = level.text().len() as int;
        assert(line@.take(name) =~= level.text());
        assert(line@.subrange(name, name + 3) =~= seq![' ', '-', ' ']);
        assert(line@.subrange(name + 3, name + 3 + args@.len()) =~= args@);
    }
}

/// A call of the `log` of the system gives the message as it is, with its level,
/// exactly if it passes.
pub proof fn law_log_records_hold_the_message(
    level: Level,
    max_level: LevelFilter,
    args: &str,
    record: Option<LogRecord>,
)
    requires
        call_ensures(TrueosLogger::log, (level, max_level, args), record),
    ensures
        record is Some <==> passes(level, max_level),
        record matches Some(record) ==> record.level == level && record.text@ == args@,
{
}

/// Calls of the two probes say their message in full at the same level, each
/// after a tag of its own.
pub proof fn law_probes_have_tags_of_their_own(
    platform: Platform,
    args: &str,
    new_game: LogRecord,
    multi_rt: LogRecord,
)
    requires
        call_ensures(new_game_probe, (platform, args), new_game),
        call_ensures(multi_rt_probe, (platform, args), multi_rt),
    ensures
        new_game.level is Info && multi_rt.level is Info,
        ({
            let tag = "[rebels-new-game-probe:INFO] "@.len() as int;
            &&& new_game.text@.take(tag) == "[rebels-new-game-probe:INFO] "@
            &&& new_game.text@.subrange(tag, tag + args@.len()) == args@
        }),
        ({
            let tag = "[rebels-multi-rt-probe:INFO] "@.len() as int;
            &&& multi_rt.text@.take(tag) == "[rebels-multi-rt-probe:INFO] "@
            &&& multi_rt.text@.subrange(tag, tag + args@.len()) == args@
        }),
        platform is Trueos <==> new_game.text@.len() == "[rebels-new-game-probe:INFO] "@.len()
            + args@.len() + 1,
        platform is Trueos <==> multi_rt.text@.len() == "[rebels-multi-rt-probe:INFO] "@.len()
            + args@.len() + 1,
{
    reveal_strlit("\n");
    let first = "[rebels-new-game-probe:INFO] "@;
    let second = "[rebels-multi-rt-probe:INFO] "@;
    assert(new_game.text@.take(first.len() as int) =~= first);
    assert(new_game.text@.subrange(first.len() as int, first.len() + args@.len() as int) =~= args@);
    assert(multi_rt.text@.take(second.len() as int) =~= second);
    assert(multi_rt.text@.subrange(second.len() as int, second.len() + args@.len() as int)
        =~= args@);
}

} // verus!
