use rebels::logging::{
    init, init_native, init_trueos, multi_rt_probe, new_game_probe, InitAction, InitError,
    InitEvent, Level, LevelFilter, LogRecord, NativeLogger, Platform, TrueosLogger,
};

const LEVELS: [Level; 5] = [
    Level::Error,
    Level::Warn,
    Level::Info,
    Level::Debug,
    Level::Trace,
];

const FILTERS: [LevelFilter; 6] = [
    LevelFilter::Off,
    LevelFilter::Error,
    LevelFilter::Warn,
    LevelFilter::Info,
    LevelFilter::Debug,
    LevelFilter::Trace,
];

#[test]
fn levels_pass_filters_of_their_own_or_a_higher_rank() {
    for (rank, level) in LEVELS.iter().enumerate() {
        for (max, filter) in FILTERS.iter().enumerate() {
            assert_eq!(NativeLogger::enabled(*level, *filter), rank + 1 <= max);
            assert_eq!(TrueosLogger::enabled(*level, *filter), rank + 1 <= max);
        }
    }
}

#[test]
fn a_line_of_the_log_file_has_level_and_message() {
    for (level, line) in [
        (Level::Error, "ERROR - hello\n"),
        (Level::Warn, "WARN - hello\n"),
        (Level::Info, "INFO - hello\n"),
        (Level::Debug, "DEBUG - hello\n"),
        (Level::Trace, "TRACE - hello\n"),
    ] {
        assert_eq!(
            NativeLogger::log(level, LevelFilter::Trace, "hello").as_deref(),
            Some(line)
        );
    }
    assert_eq!(NativeLogger::log(Level::Debug, LevelFilter::Info, "hello"), None);
}

#[test]
fn the_system_gets_the_bare_message() {
    let record: LogRecord = TrueosLogger::log(Level::Warn, LevelFilter::Info, "hello").unwrap();
    assert_eq!(record.level, Level::Warn);
    assert_eq!(record.text, "hello");
    assert!(TrueosLogger::log(Level::Error, LevelFilter::Off, "hello").is_none());
}

#[test]
fn probes_carry_their_tag() {
    let record: LogRecord = new_game_probe(Platform::Native, "step 1");
    assert_eq!(record.level, Level::Info);
    assert_eq!(record.text, "[rebels-new-game-probe:INFO] step 1");
    let record: LogRecord = new_game_probe(Platform::Trueos, "step 1");
    assert_eq!(record.text, "[rebels-new-game-probe:INFO] step 1\n");
    let record: LogRecord = multi_rt_probe(Platform::Native, "2 threads");
    assert_eq!(record.level, Level::Info);
    assert_eq!(record.text, "[rebels-multi-rt-probe:INFO] 2 threads");
    let record: LogRecord = multi_rt_probe(Platform::Trueos, "2 threads");
    assert_eq!(record.text, "[rebels-multi-rt-probe:INFO] 2 threads\n");
}

#[test]
fn the_log_file_is_opened_first() {
    let level: LevelFilter = LevelFilter::Info;
    let action: InitAction = init(Platform::Native, level, InitEvent::Started);
    assert!(matches!(action, InitAction::OpenFile { name, create: true, truncate: true, write: true } if name == "rebels.log"));
    let action: InitAction = init(Platform::Native, level, InitEvent::FileOpened);
    assert!(matches!(action, InitAction::SetLogger));
    let action: InitAction = init_native(level, InitEvent::LoggerSet);
    assert!(matches!(action, InitAction::SetMaxLevel { level: LevelFilter::Info }));
}

#[test]
fn the_system_needs_no_file() {
    let action: InitAction = init(Platform::Trueos, LevelFilter::Warn, InitEvent::Started);
    assert!(matches!(action, InitAction::SetLogger));
    let action: InitAction = init_trueos(LevelFilter::Warn, InitEvent::LoggerSet);
    assert!(matches!(action, InitAction::SetMaxLevel { level: LevelFilter::Warn }));
}

#[test]
fn a_failed_setup_says_why() {
    let level: LevelFilter = LevelFilter::Info;
    let failures: Vec<(Platform, InitEvent, &str)> = vec![
        (
            Platform::Native,
            InitEvent::NoStore {
                cause: "no home".to_string(),
            },
            "no home",
        ),
        (
            Platform::Native,
            InitEvent::FileFailed {
                path: "/tmp/rebels.log".to_string(),
                cause: "denied".to_string(),
            },
            "failed to open log file /tmp/rebels.log",
        ),
        (
            Platform::Native,
            InitEvent::LoggerRefused {
                cause: "set twice".to_string(),
            },
            "set twice",
        ),
        (
            Platform::Trueos,
            InitEvent::LoggerRefused {
                cause: "set twice".to_string(),
            },
            "set twice",
        ),
    ];
    for (platform, event, message) in failures {
        match init(platform, level, event) {
            InitAction::Fail { error } => assert_eq!(error.message(), message),
            _ => panic!("the setup went on"),
        }
    }
    let error: InitError = InitError::File {
        path: "x".to_string(),
        cause: "y".to_string(),
    };
    assert_eq!(error.message(), "failed to open log file x");
}
