use tinkiva_database::config::{
    Cli, ConfigError, DatabaseSettings, Environment, ServerSettings, Settings,
};
use tinkiva_database::duration::Duration;
use tinkiva_database::number::{parse_number, NumberProblem};
use tinkiva_database::pool::{pool_plan, JournalMode, Role, Synchronous};

fn environment(variables: &[(&str, &str)]) -> Environment {
    Environment {
        variables: variables
            .iter()
            .map(|(key, value)| (key.to_string(), value.to_string()))
            .collect(),
    }
}

fn loaded(variables: &[(&str, &str)]) -> Settings {
    Settings::load(None, &environment(variables)).unwrap()
}

fn refused(variables: &[(&str, &str)]) -> String {
    Settings::load(None, &environment(variables)).unwrap_err().message()
}

#[test]
fn defaults_can_be_run_with() {
    let settings = loaded(&[("PATH", "/bin"), ("TINKIVA", "x")]);
    assert_eq!(settings.server.bind, "127.0.0.1:7000");
    assert_eq!(settings.server.auth_token, None);
    assert_eq!(settings.server.body_limit_bytes, 1_048_576);
    assert_eq!(settings.server.request_timeout_seconds, 30);
    let database = settings.database;
    assert_eq!(database.directory, "./data/databases");
    assert_eq!(database.max_open_databases, 50);
    assert_eq!(database.idle_timeout_seconds, 300);
    assert_eq!(database.cleanup_interval_seconds, 30);
    assert_eq!(database.checkpoint_interval_seconds, 10);
    assert_eq!(database.reader_connections, 1);
    assert_eq!(database.busy_timeout_ms, 5_000);
    assert_eq!(database.acquire_timeout_seconds, 10);
    assert_eq!(database.admission_timeout_ms, 50);
    assert_eq!(database.max_concurrent_requests, 256);
    assert_eq!(database.max_requests_per_database, 8);
    assert_eq!(database.max_result_rows, 10_000);
    assert_eq!(database.writer_cache_size_kb, 1_024);
    assert_eq!(database.reader_cache_size_kb, 512);
    assert_eq!(database.cache_size_kb, None);
    assert_eq!(database.mmap_size_mb, 64);
    assert_eq!(database.wal_size_limit_mb, 16);
    assert_eq!(database.statement_cache_capacity, 16);
    assert_eq!(database.idle_timeout(), Duration::from_secs(300));
    assert_eq!(database.cleanup_interval(), Duration::from_secs(30));
    assert_eq!(database.checkpoint_interval(), Duration::from_secs(10));
    assert_eq!(Cli { config: None }.config, None);
}

#[test]
fn the_environment_overrides_every_variable() {
    let settings = loaded(&[
        ("TINKIVA_BIND", "0.0.0.0:80"),
        ("TINKIVA_AUTH_TOKEN", "secret"),
        ("TINKIVA_DATABASE_DIR", "/data"),
        ("TINKIVA_MAX_OPEN_DATABASES", "7"),
        ("TINKIVA_IDLE_TIMEOUT_SECONDS", "0"),
        ("TINKIVA_READER_CONNECTIONS", "+2"),
        ("TINKIVA_MAX_RESULT_ROWS", "00100"),
        ("TINKIVA_WRITER_CACHE_SIZE_KB", "11"),
        ("TINKIVA_READER_CACHE_SIZE_KB", "12"),
        ("TINKIVA_CACHE_SIZE_KB", "4294967295"),
        ("TINKIVA_MMAP_SIZE_MB", "18446744073709551615"),
        ("TINKIVA_MAX_CONCURRENT_REQUESTS", "13"),
        ("TINKIVA_STATEMENT_CACHE_CAPACITY", "14"),
    ]);
    assert_eq!(settings.server.bind, "0.0.0.0:80");
    assert_eq!(settings.server.auth_token.as_deref(), Some("secret"));
    assert_eq!(settings.database.directory, "/data");
    assert_eq!(settings.database.max_open_databases, 7);
    assert_eq!(settings.database.idle_timeout_seconds, 0);
    assert_eq!(settings.database.reader_connections, 2);
    assert_eq!(settings.database.max_result_rows, 100);
    assert_eq!(settings.database.writer_cache_size_kb, 11);
    assert_eq!(settings.database.reader_cache_size_kb, 12);
    assert_eq!(settings.database.cache_size_kb, Some(u32::MAX));
    assert_eq!(settings.database.mmap_size_mb, u64::MAX);
    assert_eq!(settings.database.max_concurrent_requests, 13);
    assert_eq!(settings.database.statement_cache_capacity, 14);
}

#[test]
fn the_environment_goes_on_top_of_a_file() {
    let file = Settings {
        server: ServerSettings {
            auth_token: Some("of the file".into()),
            ..Default::default()
        },
        database: DatabaseSettings {
            max_open_databases: 3,
            max_result_rows: 4,
            ..Default::default()
        },
    };
    let settings = Settings::load(
        Some(file),
        &environment(&[("TINKIVA_AUTH_TOKEN", ""), ("TINKIVA_MAX_RESULT_ROWS", "5")]),
    )
    .unwrap();
    assert_eq!(settings.server.auth_token, None);
    assert_eq!(settings.database.max_open_databases, 3);
    assert_eq!(settings.database.max_result_rows, 5);
}

#[test]
fn numbers_that_cannot_be_read_are_refused() {
    assert_eq!(
        refused(&[("TINKIVA_MAX_OPEN_DATABASES", "many")]),
        "invalid TINKIVA_MAX_OPEN_DATABASES: invalid digit found in string"
    );
    assert_eq!(
        refused(&[("TINKIVA_READER_CONNECTIONS", "4294967296")]),
        "invalid TINKIVA_READER_CONNECTIONS: number too large to fit in target type"
    );
    assert_eq!(
        refused(&[("TINKIVA_CACHE_SIZE_KB", "")]),
        "invalid TINKIVA_CACHE_SIZE_KB: cannot parse integer from empty string"
    );
    // The first of several counts, whatever their order in the environment.
    assert_eq!(
        refused(&[
            ("TINKIVA_MMAP_SIZE_MB", "x"),
            ("TINKIVA_IDLE_TIMEOUT_SECONDS", "-1"),
        ]),
        "invalid TINKIVA_IDLE_TIMEOUT_SECONDS: invalid digit found in string"
    );
}

#[test]
fn what_comes_before_a_number_that_cannot_be_read_stays_overridden() {
    let mut settings = Settings::default();
    settings.server.auth_token = Some("x".into());
    let error = settings
        .apply_environment(&environment(&[
            ("TINKIVA_BIND", "0.0.0.0:1"),
            ("TINKIVA_AUTH_TOKEN", ""),
            ("TINKIVA_MAX_OPEN_DATABASES", "9"),
            ("TINKIVA_IDLE_TIMEOUT_SECONDS", "abc"),
            ("TINKIVA_MAX_RESULT_ROWS", "5"),
        ]))
        .unwrap_err();
    assert_eq!(
        error.message(),
        "invalid TINKIVA_IDLE_TIMEOUT_SECONDS: invalid digit found in string"
    );
    assert_eq!(settings.server.bind, "0.0.0.0:1");
    assert_eq!(settings.server.auth_token, None);
    assert_eq!(settings.database.max_open_databases, 9);
    assert_eq!(settings.database.idle_timeout_seconds, 300);
    assert_eq!(settings.database.max_result_rows, 10_000);
    assert!(settings.validate().is_ok());
}

#[test]
fn settings_that_must_not_be_zero_are_refused() {
    for (key, setting) in [
        ("TINKIVA_MAX_OPEN_DATABASES", "max_open_databases"),
        ("TINKIVA_READER_CONNECTIONS", "reader_connections"),
        ("TINKIVA_CACHE_SIZE_KB", "cache_size_kb"),
        ("TINKIVA_WRITER_CACHE_SIZE_KB", "writer_cache_size_kb"),
        ("TINKIVA_READER_CACHE_SIZE_KB", "reader_cache_size_kb"),
        ("TINKIVA_MAX_RESULT_ROWS", "max_result_rows"),
        ("TINKIVA_MAX_CONCURRENT_REQUESTS", "max_concurrent_requests"),
    ] {
        assert_eq!(
            refused(&[(key, "0")]),
            format!("{setting} must be greater than zero")
        );
    }
    let none = environment(&[]);
    let mut file = Settings::default();
    file.database.cleanup_interval_seconds = 0;
    file.database.checkpoint_interval_seconds = 0;
    let error = Settings::load(Some(file.clone()), &none).unwrap_err();
    assert!(matches!(
        error,
        ConfigError::NotPositive {
            setting: "cleanup_interval_seconds"
        }
    ));
    file.database.cleanup_interval_seconds = 1;
    assert_eq!(
        Settings::load(Some(file), &none).unwrap_err().message(),
        "checkpoint_interval_seconds must be greater than zero"
    );
    let mut file = Settings::default();
    file.server.body_limit_bytes = 0;
    assert_eq!(
        Settings::load(Some(file), &none).unwrap_err().message(),
        "body_limit_bytes must be greater than zero"
    );
    let mut file = Settings::default();
    file.database.max_requests_per_database = 0;
    assert_eq!(
        Settings::load(Some(file), &none).unwrap_err().message(),
        "max_requests_per_database must be greater than zero"
    );
}

#[test]
fn numbers_are_read_as_std_reads_them() {
    let texts = [
        "", "+", "-", "0", "+0", "-0", "7", "007", "+12", "1 ", " 1", "1_0", "12x", "300x", "x300",
        "254", "255", "256", "2555", "25x", "26x", "999999999999999999999999x", "++1", "\u{0661}",
    ];
    for text in texts {
        match (parse_number(text, 255), text.parse::<u8>()) {
            (Ok(number), Ok(expected)) => assert_eq!(number, expected as u64, "{text:?}"),
            (Err(problem), Err(expected)) => {
                assert_eq!(problem.message(), expected.to_string(), "{text:?}")
            }
            other => panic!("{text:?}: {other:?}"),
        }
    }
    assert_eq!(parse_number("18446744073709551615", u64::MAX), Ok(u64::MAX));
    assert_eq!(
        parse_number("18446744073709551616", u64::MAX),
        Err(NumberProblem::TooLarge)
    );
}

#[test]
fn one_writer_and_read_only_readers() {
    let settings = DatabaseSettings {
        reader_connections: 3,
        ..Default::default()
    };
    let writer = pool_plan(&settings, Role::Writer);
    assert_eq!(writer.max_connections, 1);
    assert!(writer.create_if_missing);
    assert_eq!(writer.busy_timeout_ms, 5_000);
    assert_eq!(writer.acquire_timeout_seconds, 10);
    assert_eq!(writer.statement_cache_capacity, 16);
    let text: Vec<(&str, &str)> = writer
        .pragmas
        .iter()
        .map(|(name, value)| (*name, value.as_str()))
        .collect();
    assert_eq!(
        text,
        vec![
            ("cache_size", "-1024"),
            ("mmap_size", "67108864"),
            ("journal_size_limit", "16777216"),
            ("wal_autocheckpoint", "4096"),
            ("query_only", "OFF"),
        ]
    );
    for role in [Role::Writer, Role::Reader] {
        let plan = pool_plan(&settings, role);
        assert_eq!(plan.journal_mode, JournalMode::Wal);
        assert_eq!(plan.synchronous, Synchronous::Normal);
        assert!(plan.foreign_keys);
    }
    let reader = pool_plan(&settings, Role::Reader);
    assert_eq!(reader.max_connections, 3);
    assert!(!reader.create_if_missing);
    assert_eq!(reader.pragmas[0], ("cache_size", "-512".to_owned()));
    assert_eq!(reader.pragmas[4], ("query_only", "ON".to_owned()));
}

#[test]
fn a_common_cache_size_counts_for_both_roles() {
    let settings = DatabaseSettings {
        cache_size_kb: Some(2_000),
        ..Default::default()
    };
    for role in [Role::Writer, Role::Reader] {
        assert_eq!(
            pool_plan(&settings, role).pragmas[0],
            ("cache_size", "-2000".to_owned())
        );
    }
}
