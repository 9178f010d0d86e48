//! Settings: their defaults, the environment that overrides them, and what they must satisfy.

use crate::duration::Duration;
use crate::number::{parse_number, parsed, NumberProblem};
use crate::text::same_text;
use std::path::PathBuf;
use vstd::prelude::*;
use vstd::string::StringExecFns;

verus! {

/// `std::path::PathBuf`, opaque here.
#[verifier::external_type_specification]
#[verifier::external_body]
pub struct ExPathBuf(PathBuf);

/// What the command line says.
#[derive(Debug)]
pub struct Cli {
    /// Optional TOML configuration file.
    pub config: Option<PathBuf>,
}

#[derive(Clone, Debug)]
pub struct Settings {
    pub server: ServerSettings,
    pub database: DatabaseSettings,
}

#[derive(Clone, Debug)]
pub struct ServerSettings {
    pub bind: String,
    /// If set, all /v1 endpoints require `Authorization: Bearer <token>`.
    pub auth_token: Option<String>,
    pub body_limit_bytes: usize,
    pub request_timeout_seconds: u64,
}

#[derive(Clone, Debug)]
pub struct DatabaseSettings {
    pub directory: String,
    pub max_open_databases: usize,
    pub idle_timeout_seconds: u64,
    pub cleanup_interval_seconds: u64,
    /// How often WAL checkpoints run in the background.
    pub checkpoint_interval_seconds: u64,
    /// Read connections per database. One writer connection is always
    /// implied and is never shared with readers.
    pub reader_connections: u32,
    pub busy_timeout_ms: u64,
    pub acquire_timeout_seconds: u64,
    /// How long a request may wait for a slot before it is shed.
    pub admission_timeout_ms: u64,
    /// Request slots of the whole process.
    pub max_concurrent_requests: usize,
    /// Request slots of one database.
    pub max_requests_per_database: usize,
    pub max_result_rows: usize,
    /// SQLite page cache of the writer connection.
    pub writer_cache_size_kb: u32,
    /// SQLite page cache of each reader connection.
    pub reader_cache_size_kb: u32,
    /// If set, the page cache of every connection, whatever its role.
    pub cache_size_kb: Option<u32>,
    /// Bytes mapped per connection. Mapped pages are file-backed and
    /// evictable, so they cost far less than private page cache.
    pub mmap_size_mb: u64,
    /// Size at which a request checkpoints as a last resort, and to which the
    /// WAL is trimmed after a checkpoint.
    pub wal_size_limit_mb: u64,
    /// Prepared statements kept per connection.
    pub statement_cache_capacity: usize,
}

/// What [`ServerSettings`] hold.
pub struct ServerView {
    pub bind: Seq<char>,
    pub auth_token: Option<Seq<char>>,
    pub body_limit_bytes: usize,
    pub request_timeout_seconds: u64,
}

/// What [`DatabaseSettings`] hold.
pub struct DatabaseView {
    pub directory: Seq<char>,
    pub max_open_databases: usize,
    pub idle_timeout_seconds: u64,
    pub cleanup_interval_seconds: u64,
    pub checkpoint_interval_seconds: u64,
    pub reader_connections: u32,
    pub busy_timeout_ms: u64,
    pub acquire_timeout_seconds: u64,
    pub admission_timeout_ms: u64,
    pub max_concurrent_requests: usize,
    pub max_requests_per_database: usize,
    pub max_result_rows: usize,
    pub writer_cache_size_kb: u32,
    pub reader_cache_size_kb: u32,
    pub cache_size_kb: Option<u32>,
    pub mmap_size_mb: u64,
    pub wal_size_limit_mb: u64,
    pub statement_cache_capacity: usize,
}

/// What [`Settings`] hold.
pub struct SettingsView {
    pub server: ServerView,
    pub database: DatabaseView,
}

impl View for ServerSettings {
    type V = ServerView;

    open spec fn view(&self) -> ServerView {
        ServerView {
            bind: self.bind@,
            auth_token: match self.auth_token {
                Some(token) => Some(token@),
                None => None,
            },
            body_limit_bytes: self.body_limit_bytes,
            request_timeout_seconds: self.request_timeout_seconds,
        }
    }
}

impl View for DatabaseSettings {
    type V = DatabaseView;

    open spec fn view(&self) -> DatabaseView {
        DatabaseView {
            directory: self.directory@,
            max_open_databases: self.max_open_databases,
            idle_timeout_seconds: self.idle_timeout_seconds,
            cleanup_interval_seconds: self.cleanup_interval_seconds,
            checkpoint_interval_seconds: self.checkpoint_interval_seconds,
            reader_connections: self.reader_connections,
            busy_timeout_ms: self.busy_timeout_ms,
            acquire_timeout_seconds: self.acquire_timeout_seconds,
            admission_timeout_ms: self.admission_timeout_ms,
            max_concurrent_requests: self.max_concurrent_requests,
            max_requests_per_database: self.max_requests_per_database,
            max_result_rows: self.max_result_rows,
            writer_cache_size_kb: self.writer_cache_size_kb,
            reader_cache_size_kb: self.reader_cache_size_kb,
            cache_size_kb: self.cache_size_kb,
            mmap_size_mb: self.mmap_size_mb,
            wal_size_limit_mb: self.wal_size_limit_mb,
            statement_cache_capacity: self.statement_cache_capacity,
        }
    }
}

impl View for Settings {
    type V = SettingsView;

    open spec fn view(&self) -> SettingsView {
        SettingsView { server: self.server@, database: self.database@ }
    }
}

impl ServerView {
    pub open spec fn defaults() -> Self {
        ServerView {
            bind: "127.0.0.1:7000"@,
            auth_token: None,
            body_limit_bytes: 1_048_576,
            request_timeout_seconds: 30,
        }
    }
}

impl DatabaseView {
    pub open spec fn defaults() -> Self {
        DatabaseView {
            directory: "./data/databases"@,
            max_open_databases: 50,
            idle_timeout_seconds: 300,
            cleanup_interval_seconds: 30,
            checkpoint_interval_seconds: 10,
            reader_connections: 1,
            busy_timeout_ms: 5_000,
            acquire_timeout_seconds: 10,
            admission_timeout_ms: 50,
            max_concurrent_requests: 256,
            max_requests_per_database: 8,
            max_result_rows: 10_000,
            writer_cache_size_kb: 1_024,
            reader_cache_size_kb: 512,
            cache_size_kb: None,
            mmap_size_mb: 64,
            wal_size_limit_mb: 16,
            statement_cache_capacity: 16,
        }
    }
}

impl SettingsView {
    pub open spec fn defaults() -> Self {
        SettingsView { server: ServerView::defaults(), database: DatabaseView::defaults() }
    }
}

impl Default for ServerSettings {
    fn default() -> (settings: Self)
        ensures
            settings@ == ServerView::defaults(),
    {
        ServerSettings {
            bind: "127.0.0.1:7000".to_owned(),
            auth_token: None,
            body_limit_bytes: 1_048_576,
            request_timeout_seconds: 30,
        }
    }
}

impl Default for DatabaseSettings {
    fn default() -> (settings: Self)
        ensures
            settings@ == DatabaseView::defaults(),
    {
        DatabaseSettings {
            directory: "./data/databases".to_owned(),
            max_open_databases: 50,
            idle_timeout_seconds: 300,
            cleanup_interval_seconds: 30,
            checkpoint_interval_seconds: 10,
            reader_connections: 1,
            busy_timeout_ms: 5_000,
            acquire_timeout_seconds: 10,
            admission_timeout_ms: 50,
            max_concurrent_requests: 256,
            max_requests_per_database: 8,
            max_result_rows: 10_000,
            writer_cache_size_kb: 1_024,
            reader_cache_size_kb: 512,
            cache_size_kb: None,
            mmap_size_mb: 64,
            wal_size_limit_mb: 16,
            statement_cache_capacity: 16,
        }
    }
}

impl Default for Settings {
    fn default() -> (settings: Self)
        ensures
            settings@ == SettingsView::defaults(),
    {
        Settings { server: ServerSettings::default(), database: DatabaseSettings::default() }
    }
}

impl DatabaseSettings {
    pub fn idle_timeout(&self) -> (span: Duration)
        ensures
            span.nanos == self.idle_timeout_seconds * 1_000_000_000,
    {
        Duration::from_secs(self.idle_timeout_seconds)
    }

    pub fn cleanup_interval(&self) -> (span: Duration)
        ensures
            span.nanos == self.cleanup_interval_seconds * 1_000_000_000,
    {
        Duration::from_secs(self.cleanup_interval_seconds)
    }

    pub fn checkpoint_interval(&self) -> (span: Duration)
        ensures
            span.nanos == self.checkpoint_interval_seconds * 1_000_000_000,
    {
        Duration::from_secs(self.checkpoint_interval_seconds)
    }
}

/// Why settings are refused.
#[derive(Clone, Copy, Debug)]
pub enum ConfigError {
    /// An environment variable holds no number of the right size.
    InvalidNumber { key: &'static str, problem: NumberProblem },
    /// A setting is zero that must not be.
    NotPositive { setting: &'static str },
}

/// What a [`ConfigError`] says.
pub enum ConfigFault {
    InvalidNumber { key: Seq<char>, problem: NumberProblem },
    NotPositive { setting: Seq<char> },
}

impl View for ConfigError {
    type V = ConfigFault;

    open spec fn view(&self) -> ConfigFault {
        match self {
            ConfigError::InvalidNumber { key, problem } => ConfigFault::InvalidNumber {
                key: key@,
                problem: *problem,
            },
            ConfigError::NotPositive { setting } => ConfigFault::NotPositive { setting: setting@ },
        }
    }
}

impl ConfigFault {
    /// The error in words.
    pub open spec fn text(self) -> Seq<char> {
        match self {
            ConfigFault::InvalidNumber { key, problem } => "invalid "@ + key + ": "@
                + problem.text(),
            ConfigFault::NotPositive { setting } => setting + " must be greater than zero"@,
        }
    }
}

impl ConfigError {
    /// The error in words.
    pub fn message(&self) -> (message: String)
        ensures
            message@ == self@.text(),
    {
        match self {
            ConfigError::InvalidNumber { key, problem } => {
                let mut message = "invalid ".to_owned();
                message.append(key);
                message.append(": ");
                message.append(problem.message());
                message
            },
            ConfigError::NotPositive { setting } => {
                let mut message = (*setting).to_owned();
                message.append(" must be greater than zero");
                message
            },
        }
    }
}

/// The environment variables of the process, name and value.
#[derive(Debug)]
pub struct Environment {
    pub variables: Vec<(String, String)>,
}

/// The value of the first of `variables` that is called `key`.
pub open spec fn variable(variables: Seq<(String, String)>, key: Seq<char>) -> Option<Seq<char>>
    decreases variables.len(),
{
    if variables.len() == 0 {
        None
    } else if variables[0].0@ == key {
        Some(variables[0].1@)
    } else {
        variable(variables.drop_first(), key)
    }
}

impl Environment {
    pub open spec fn value(&self, key: Seq<char>) -> Option<Seq<char>> {
        variable(self.variables@, key)
    }

    /// The value of a variable.
    pub fn var(&self, key: &str) -> (found: Option<String>)
        ensures
            match found {
                Some(value) => self.value(key@) == Some(value@),
                None => self.value(key@) is None,
            },
    {
        let mut index: usize = 0;
        assert(self.variables@.skip(0) =~= self.variables@);
        while index < self.variables.len()
            invariant
                index <= self.variables.len(),
                self.value(key@) == variable(self.variables@.skip(index as int), key@),
            decreases self.variables.len() - index,
        {
            let ghost rest = self.variables@.skip(index as int);
            assert(rest[0] == self.variables@[index as int]);
            if same_text(self.variables[index].0.as_str(), key) {
                return Some(self.variables[index].1.clone());
            }
            assert(rest.drop_first() =~= self.variables@.skip(index + 1));
            index = index + 1;
        }
        None
    }

    /// What is wrong with the number in a variable, if anything is.
    pub open spec fn number_fault(&self, key: Seq<char>, max: nat) -> Option<ConfigFault> {
        match self.value(key) {
            Some(value) => match parsed(value, max) {
                Ok(number) => None,
                Err(problem) => Some(ConfigFault::InvalidNumber { key, problem }),
            },
            None => None,
        }
    }

    /// The number in a variable, or `current` where the variable is not set.
    pub open spec fn number(&self, key: Seq<char>, max: nat, current: nat) -> nat {
        match self.value(key) {
            Some(value) => match parsed(value, max) {
                Ok(number) => number,
                Err(problem) => current,
            },
            None => current,
        }
    }

    /// The number in a variable, or `current` where the variable is not set.
    fn set_number(&self, key: &'static str, max: u64, current: u64) -> (result: Result<
        u64,
        ConfigError,
    >)
        requires
            current <= max,
        ensures
            match result {
                Ok(number) => self.number_fault(key@, max as nat) is None && number == self.number(
                    key@,
                    max as nat,
                    current as nat,
                ) && number <= max,
                Err(error) => self.number_fault(key@, max as nat) == Some(error@),
            },
    {
        match self.var(key) {
            Some(value) => match parse_number(value.as_str(), max) {
                Ok(number) => Ok(number),
                Err(problem) => Err(ConfigError::InvalidNumber { key, problem }),
            },
            None => Ok(current),
        }
    }
}

/// The variables that hold numbers, each with the largest number that it may hold, in the order
/// in which they are read.
pub open spec fn number_variables() -> Seq<(Seq<char>, nat)> {
    seq![
        ("TINKIVA_MAX_OPEN_DATABASES"@, usize::MAX as nat),
        ("TINKIVA_IDLE_TIMEOUT_SECONDS"@, u64::MAX as nat),
        ("TINKIVA_READER_CONNECTIONS"@, u32::MAX as nat),
        ("TINKIVA_MAX_RESULT_ROWS"@, usize::MAX as nat),
        ("TINKIVA_WRITER_CACHE_SIZE_KB"@, u32::MAX as nat),
        ("TINKIVA_READER_CACHE_SIZE_KB"@, u32::MAX as nat),
        ("TINKIVA_CACHE_SIZE_KB"@, u32::MAX as nat),
        ("TINKIVA_MMAP_SIZE_MB"@, u64::MAX as nat),
        ("TINKIVA_MAX_CONCURRENT_REQUESTS"@, usize::MAX as nat),
        ("TINKIVA_STATEMENT_CACHE_CAPACITY"@, usize::MAX as nat),
    ]
}

/// What is wrong with the `i`-th variable that holds a number, if anything is.
pub open spec fn fault_at(environment: &Environment, i: int) -> Option<ConfigFault> {
    environment.number_fault(number_variables()[i].0, number_variables()[i].1)
}

/// How many of the variables that hold numbers are read, from the `i`-th on: reading stops at
/// the first that cannot be.
pub open spec fn read_from(environment: &Environment, i: nat) -> nat
    decreases 10 - i,
{
    if i >= 10 || fault_at(environment, i as int) is Some {
        i
    } else {
        read_from(environment, i + 1)
    }
}

/// How many of the variables that hold numbers come before the first that cannot be read.
pub open spec fn numbers_read(environment: &Environment) -> nat {
    read_from(environment, 0)
}

/// What is wrong with the first number of the environment that cannot be read, if there is one.
pub open spec fn environment_fault(environment: &Environment) -> Option<ConfigFault> {
    if numbers_read(environment) < 10 {
        fault_at(environment, numbers_read(environment) as int)
    } else {
        None
    }
}

impl Environment {
    /// The number in the `i`-th variable that holds one, or `current` where the variable is not
    /// set or is not among the first `n`.
    pub open spec fn number_among(&self, n: nat, i: int, current: nat) -> nat {
        if i < n {
            self.number(number_variables()[i].0, number_variables()[i].1, current)
        } else {
            current
        }
    }
}

impl SettingsView {
    /// The settings after the environment has overridden them.
    pub open spec fn overridden(self, environment: &Environment) -> Self {
        self.overridden_by(environment, 10)
    }

    /// The settings after the texts of the environment and the first `n` of its numbers have
    /// overridden them.
    pub open spec fn overridden_by(self, environment: &Environment, n: nat) -> Self {
        let database = self.database;
        SettingsView {
            server: ServerView {
                bind: match environment.value("TINKIVA_BIND"@) {
                    Some(value) => value,
                    None => self.server.bind,
                },
                auth_token: match environment.value("TINKIVA_AUTH_TOKEN"@) {
                    Some(value) => if value.len() == 0 {
                        None
                    } else {
                        Some(value)
                    },
                    None => self.server.auth_token,
                },
                ..self.server
            },
            database: DatabaseView {
                directory: match environment.value("TINKIVA_DATABASE_DIR"@) {
                    Some(value) => value,
                    None => database.directory,
                },
                max_open_databases: environment.number_among(
                    n,
                    0,
                    database.max_open_databases as nat,
                ) as usize,
                idle_timeout_seconds: environment.number_among(
                    n,
                    1,
                    database.idle_timeout_seconds as nat,
                ) as u64,
                reader_connections: environment.number_among(
                    n,
                    2,
                    database.reader_connections as nat,
                ) as u32,
                max_result_rows: environment.number_among(
                    n,
                    3,
                    database.max_result_rows as nat,
                ) as usize,
                writer_cache_size_kb: environment.number_among(
                    n,
                    4,
                    database.writer_cache_size_kb as nat,
                ) as u32,
                reader_cache_size_kb: environment.number_among(
                    n,
                    5,
                    database.reader_cache_size_kb as nat,
                ) as u32,
                cache_size_kb: if 6 < n && environment.value("TINKIVA_CACHE_SIZE_KB"@) is Some {
                    Some(environment.number_among(n, 6, 0) as u32)
                } else {
                    database.cache_size_kb
                },
                mmap_size_mb: environment.number_among(
                    n,
                    7,
                    database.mmap_size_mb as nat,
                ) as u64,
                max_concurrent_requests: environment.number_among(
                    n,
                    8,
                    database.max_concurrent_requests as nat,
                ) as usize,
                statement_cache_capacity: environment.number_among(
                    n,
                    9,
                    database.statement_cache_capacity as nat,
                ) as usize,
                ..database
            },
        }
    }

    /// What is wrong with the first setting that must not be zero and is, if there is one.
    pub open spec fn fault(self) -> Option<ConfigFault> {
        let database = self.database;
        if database.max_open_databases == 0 {
            Some(ConfigFault::NotPositive { setting: "max_open_databases"@ })
        } else if database.reader_connections == 0 {
            Some(ConfigFault::NotPositive { setting: "reader_connections"@ })
        } else if database.cleanup_interval_seconds == 0 {
            Some(ConfigFault::NotPositive { setting: "cleanup_interval_seconds"@ })
        } else if database.checkpoint_interval_seconds == 0 {
            Some(ConfigFault::NotPositive { setting: "checkpoint_interval_seconds"@ })
        } else if database.cache_size_kb == Some(0u32) {
            Some(ConfigFault::NotPositive { setting: "cache_size_kb"@ })
        } else if database.writer_cache_size_kb == 0 {
            Some(ConfigFault::NotPositive { setting: "writer_cache_size_kb"@ })
        } else if database.reader_cache_size_kb == 0 {
            Some(ConfigFault::NotPositive { setting: "reader_cache_size_kb"@ })
        } else if database.max_result_rows == 0 {
            Some(ConfigFault::NotPositive { setting: "max_result_rows"@ })
        } else if self.server.body_limit_bytes == 0 {
            Some(ConfigFault::NotPositive { setting: "body_limit_bytes"@ })
        } else if database.max_concurrent_requests == 0 {
            Some(ConfigFault::NotPositive { setting: "max_concurrent_requests"@ })
        } else if database.max_requests_per_database == 0 {
            Some(ConfigFault::NotPositive { setting: "max_requests_per_database"@ })
        } else {
            None
        }
    }

    /// Settings with which the service can run.
    pub open spec fn valid(self) -> bool {
        &&& self.database.max_open_databases > 0
        &&& self.database.reader_connections > 0
        &&& self.database.cleanup_interval_seconds > 0
        &&& self.database.checkpoint_interval_seconds > 0
        &&& self.database.cache_size_kb != Some(0u32)
        &&& self.database.writer_cache_size_kb > 0
        &&& self.database.reader_cache_size_kb > 0
        &&& self.database.max_result_rows > 0
        &&& self.server.body_limit_bytes > 0
        &&& self.database.max_concurrent_requests > 0
        &&& self.database.max_requests_per_database > 0
    }
}

impl Settings {
    /// The settings of a configuration file, or the defaults where there is none, with the
    /// environment on top.
    pub fn load(file: Option<Settings>, environment: &Environment) -> (result: Result<
        Settings,
        ConfigError,
    >)
        ensures
            ({
                let base = match file {
                    Some(settings) => settings@,
                    None => SettingsView::defaults(),
                };
                match result {
                    Ok(settings) => environment_fault(environment) is None && base.overridden(
                        environment,
                    ).fault() is None && settings@ == base.overridden(environment),
                    Err(error) => if environment_fault(environment) is Some {
                        environment_fault(environment) == Some(error@)
                    } else {
                        base.overridden(environment).fault() == Some(error@)
                    },
                }
            }),
            result matches Ok(settings) ==> settings@.valid(),
    {
        let mut settings = match file {
            Some(settings) => settings,
            None => Settings::default(),
        };
        match settings.apply_environment(environment) {
            Ok(()) => {},
            Err(error) => {
                return Err(error);
            },
        }
        match settings.validate() {
            Ok(()) => Ok(settings),
            Err(error) => Err(error),
        }
    }

    /// Overrides settings by the environment, the texts first. Reading stops at the first number
    /// that cannot be read; what came before it stays overridden.
    pub fn apply_environment(&mut self, environment: &Environment) -> (result: Result<
        (),
        ConfigError,
    >)
        ensures
            match result {
                Ok(()) => environment_fault(environment) is None && final(self)@ == old(
                    self,
                )@.overridden(environment),
                Err(error) => environment_fault(environment) == Some(error@) && final(self)@
                    == old(self)@.overridden_by(environment, numbers_read(environment)),
            },
    {
        if let Some(value) = environment.var("TINKIVA_BIND") {
            self.server.bind = value;
        }
        if let Some(value) = environment.var("TINKIVA_AUTH_TOKEN") {
            self.server.auth_token = if value.as_str().is_empty() {
                None
            } else {
                Some(value)
            };
        }
        if let Some(value) = environment.var("TINKIVA_DATABASE_DIR") {
            self.database.directory = value;
        }
        assert(self@ == old(self)@.overridden_by(environment, 0));
        match environment.set_number(
            "TINKIVA_MAX_OPEN_DATABASES",
            usize::MAX as u64,
            self.database.max_open_databases as u64,
        ) {
            Ok(number) => {
                self.database.max_open_databases = number as usize;
            },
            Err(error) => {
                assert(numbers_read(environment) == 0);
                return Err(error);
            },
        }
        assert(numbers_read(environment) == read_from(environment, 1));
        assert(self@ == old(self)@.overridden_by(environment, 1));
        match environment.set_number(
            "TINKIVA_IDLE_TIMEOUT_SECONDS",
            u64::MAX,
            self.database.idle_timeout_seconds,
        ) {
            Ok(number) => {
                self.database.idle_timeout_seconds = number;
            },
            Err(error) => {
                assert(numbers_read(environment) == 1);
                return Err(error);
            },
        }
        assert(numbers_read(environment) == read_from(environment, 2));
        assert(self@ == old(self)@.overridden_by(environment, 2));
        match environment.set_number(
            "TINKIVA_READER_CONNECTIONS",
            u32::MAX as u64,
            self.database.reader_connections as u64,
        ) {
            Ok(number) => {
                self.database.reader_connections = number as u32;
            },
            Err(error) => {
                assert(numbers_read(environment) == 2);
                return Err(error);
            },
        }
        assert(numbers_read(environment) == read_from(environment, 3));
        assert(self@ == old(self)@.overridden_by(environment, 3));
        match environment.set_number(
            "TINKIVA_MAX_RESULT_ROWS",
            usize::MAX as u64,
            self.database.max_result_rows as u64,
        ) {
            Ok(number) => {
                self.database.max_result_rows = number as usize;
            },
            Err(error) => {
                assert(numbers_read(environment) == 3);
                return Err(error);
            },
        }
        assert(numbers_read(environment) == read_from(environment, 4));
        assert(self@ == old(self)@.overridden_by(environment, 4));
        match environment.set_number(
            "TINKIVA_WRITER_CACHE_SIZE_KB",
            u32::MAX as u64,
            self.database.writer_cache_size_kb as u64,
        ) {
            Ok(number) => {
                self.database.writer_cache_size_kb = number as u32;
            },
            Err(error) => {
                assert(numbers_read(environment) == 4);
                return Err(error);
            },
        }
        assert(numbers_read(environment) == read_from(environment, 5));
        assert(self@ == old(self)@.overridden_by(environment, 5));
        match environment.set_number(
            "TINKIVA_READER_CACHE_SIZE_KB",
            u32::MAX as u64,
            self.database.reader_cache_size_kb as u64,
        ) {
            Ok(number) => {
                self.database.reader_cache_size_kb = number as u32;
            },
            Err(error) => {
                assert(numbers_read(environment) == 5);
                return Err(error);
            },
        }
        assert(numbers_read(environment) == read_from(environment, 6));
        assert(self@ == old(self)@.overridden_by(environment, 6));
        match environment.set_number(
            "TINKIVA_CACHE_SIZE_KB",
            u32::MAX as u64,
            0,
        ) {
            Ok(number) => if environment.var("TINKIVA_CACHE_SIZE_KB").is_some() {
                self.database.cache_size_kb = Some(number as u32);
            },
            Err(error) => {
                assert(numbers_read(environment) == 6);
                return Err(error);
            },
        }
        assert(numbers_read(environment) == read_from(environment, 7));
        assert(self@ == old(self)@.overridden_by(environment, 7));
        match environment.set_number(
            "TINKIVA_MMAP_SIZE_MB",
            u64::MAX,
            self.database.mmap_size_mb,
        ) {
            Ok(number) => {
                self.database.mmap_size_mb = number;
            },
            Err(error) => {
                assert(numbers_read(environment) == 7);
                return Err(error);
            },
        }
        assert(numbers_read(environment) == read_from(environment, 8));
        assert(self@ == old(self)@.overridden_by(environment, 8));
        match environment.set_number(
            "TINKIVA_MAX_CONCURRENT_REQUESTS",
            usize::MAX as u64,
            self.database.max_concurrent_requests as u64,
        ) {
            Ok(number) => {
                self.database.max_concurrent_requests = number as usize;
            },
            Err(error) => {
                assert(numbers_read(environment) == 8);
                return Err(error);
            },
        }
        assert(numbers_read(environment) == read_from(environment, 9));
        assert(self@ == old(self)@.overridden_by(environment, 9));
        match environment.set_number(
            "TINKIVA_STATEMENT_CACHE_CAPACITY",
            usize::MAX as u64,
            self.database.statement_cache_capacity as u64,
        ) {
            Ok(number) => {
                self.database.statement_cache_capacity = number as usize;
            },
            Err(error) => {
                assert(numbers_read(environment) == 9);
                return Err(error);
            },
        }
        assert(numbers_read(environment) == read_from(environment, 10));
        assert(self@ == old(self)@.overridden_by(environment, 10));
        Ok(())
    }

    /// Refuses the first setting that must not be zero and is.
    pub fn validate(&self) -> (result: Result<(), ConfigError>)
        ensures
            match result {
                Ok(()) => self@.fault() is None,
                Err(error) => self@.fault() == Some(error@),
            },
            result is Ok <==> self@.valid(),
    {
        if self.database.max_open_databases == 0 {
            return Err(ConfigError::NotPositive { setting: "max_open_databases" });
        }
        if self.database.reader_connections == 0 {
            return Err(ConfigError::NotPositive { setting: "reader_connections" });
        }
        if self.database.cleanup_interval_seconds == 0 {
            return Err(ConfigError::NotPositive { setting: "cleanup_interval_seconds" });
        }
        if self.database.checkpoint_interval_seconds == 0 {
            return Err(ConfigError::NotPositive { setting: "checkpoint_interval_seconds" });
        }
        if self.database.has_empty_common_cache() {
            return Err(ConfigError::NotPositive { setting: "cache_size_kb" });
        }
        if self.database.writer_cache_size_kb == 0 {
            return Err(ConfigError::NotPositive { setting: "writer_cache_size_kb" });
        }
        if self.database.reader_cache_size_kb == 0 {
            return Err(ConfigError::NotPositive { setting: "reader_cache_size_kb" });
        }
        if self.database.max_result_rows == 0 {
            return Err(ConfigError::NotPositive { setting: "max_result_rows" });
        }
        if self.server.body_limit_bytes == 0 {
            return Err(ConfigError::NotPositive { setting: "body_limit_bytes" });
        }
        if self.database.max_concurrent_requests == 0 {
            return Err(ConfigError::NotPositive { setting: "max_concurrent_requests" });
        }
        if self.database.max_requests_per_database == 0 {
            return Err(ConfigError::NotPositive { setting: "max_requests_per_database" });
        }
        Ok(())
    }
}

impl DatabaseSettings {
    fn has_empty_common_cache(&self) -> (empty: bool)
        ensures
            empty == (self.cache_size_kb == Some(0u32)),
    {
        match self.cache_size_kb {
            Some(size) => size == 0,
            None => false,
        }
    }
}

/// Whether a variable is one of the service.
pub open spec fn has_service_prefix(key: Seq<char>) -> bool {
    key.len() >= 8 && key.take(8) == "TINKIVA_"@
}

proof fn lemma_variable_missing(variables: Seq<(String, String)>, key: Seq<char>)
    requires
        has_service_prefix(key),
        forall|i: int|
            0 <= i < variables.len() ==> !has_service_prefix(#[trigger] variables[i].0@),
    ensures
        variable(variables, key) is None,
    decreases variables.len(),
{
    if variables.len() > 0 {
        assert(!has_service_prefix(variables[0].0@));
        let rest = variables.drop_first();
        assert forall|i: int| 0 <= i < rest.len() implies !has_service_prefix(
            #[trigger] rest[i].0@,
        ) by {
            assert(rest[i] == variables[i + 1]);
        }
        lemma_variable_missing(rest, key);
    }
}

/// Without environment variables of the service and without a configuration file, the
/// settings are the defaults, and the service can run with them.
pub proof fn law_defaults_are_valid(environment: &Environment)
    requires
        forall|i: int|
            0 <= i < environment.variables@.len() ==> !has_service_prefix(
                #[trigger] environment.variables@[i].0@,
            ),
    ensures
        environment_fault(environment) is None,
        SettingsView::defaults().overridden(environment) == SettingsView::defaults(),
        SettingsView::defaults().fault() is None,
        SettingsView::defaults().valid(),
{
    reveal_strlit("TINKIVA_");
    assert(environment.value("TINKIVA_BIND"@) is None) by {
        reveal_strlit("TINKIVA_BIND");
        assert("TINKIVA_BIND"@.take(8) =~= "TINKIVA_"@);
        lemma_variable_missing(environment.variables@, "TINKIVA_BIND"@);
    }
    assert(environment.value("TINKIVA_AUTH_TOKEN"@) is None) by {
        reveal_strlit("TINKIVA_AUTH_TOKEN");
        assert("TINKIVA_AUTH_TOKEN"@.take(8) =~= "TINKIVA_"@);
        lemma_variable_missing(environment.variables@, "TINKIVA_AUTH_TOKEN"@);
    }
    assert(environment.value("TINKIVA_DATABASE_DIR"@) is None) by {
        reveal_strlit("TINKIVA_DATABASE_DIR");
        assert("TINKIVA_DATABASE_DIR"@.take(8) =~= "TINKIVA_"@);
        lemma_variable_missing(environment.variables@, "TINKIVA_DATABASE_DIR"@);
    }
    assert(environment.value("TINKIVA_MAX_OPEN_DATABASES"@) is None) by {
        reveal_strlit("TINKIVA_MAX_OPEN_DATABASES");
        assert("TINKIVA_MAX_OPEN_DATABASES"@.take(8) =~= "TINKIVA_"@);
        lemma_variable_missing(environment.variables@, "TINKIVA_MAX_OPEN_DATABASES"@);
    }
    assert(environment.value("TINKIVA_IDLE_TIMEOUT_SECONDS"@) is None) by {
        reveal_strlit("TINKIVA_IDLE_TIMEOUT_SECONDS");
        assert("TINKIVA_IDLE_TIMEOUT_SECONDS"@.take(8) =~= "TINKIVA_"@);
        lemma_variable_missing(environment.variables@, "TINKIVA_IDLE_TIMEOUT_SECONDS"@);
    }
    assert(environment.value("TINKIVA_READER_CONNECTIONS"@) is None) by {
        reveal_strlit("TINKIVA_READER_CONNECTIONS");
        assert("TINKIVA_READER_CONNECTIONS"@.take(8) =~= "TINKIVA_"@);
        lemma_variable_missing(environment.variables@, "TINKIVA_READER_CONNECTIONS"@);
    }
    assert(environment.value("TINKIVA_MAX_RESULT_ROWS"@) is None) by {
        reveal_strlit("TINKIVA_MAX_RESULT_ROWS");
        assert("TINKIVA_MAX_RESULT_ROWS"@.take(8) =~= "TINKIVA_"@);
        lemma_variable_missing(environment.variables@, "TINKIVA_MAX_RESULT_ROWS"@);
    }
    assert(environment.value("TINKIVA_WRITER_CACHE_SIZE_KB"@) is None) by {
        reveal_strlit("TINKIVA_WRITER_CACHE_SIZE_KB");
        assert("TINKIVA_WRITER_CACHE_SIZE_KB"@.take(8) =~= "TINKIVA_"@);
        lemma_variable_missing(environment.variables@, "TINKIVA_WRITER_CACHE_SIZE_KB"@);
    }
    assert(environment.value("TINKIVA_READER_CACHE_SIZE_KB"@) is None) by {
        reveal_strlit("TINKIVA_READER_CACHE_SIZE_KB");
        assert("TINKIVA_READER_CACHE_SIZE_KB"@.take(8) =~= "TINKIVA_"@);
        lemma_variable_missing(environment.variables@, "TINKIVA_READER_CACHE_SIZE_KB"@);
    }
    assert(environment.value("TINKIVA_CACHE_SIZE_KB"@) is None) by {
        reveal_strlit("TINKIVA_CACHE_SIZE_KB");
        assert("TINKIVA_CACHE_SIZE_KB"@.take(8) =~= "TINKIVA_"@);
        lemma_variable_missing(environment.variables@, "TINKIVA_CACHE_SIZE_KB"@);
    }
    assert(environment.value("TINKIVA_MMAP_SIZE_MB"@) is None) by {
        reveal_strlit("TINKIVA_MMAP_SIZE_MB");
        assert("TINKIVA_MMAP_SIZE_MB"@.take(8) =~= "TINKIVA_"@);
        lemma_variable_missing(environment.variables@, "TINKIVA_MMAP_SIZE_MB"@);
    }
    assert(environment.value("TINKIVA_MAX_CONCURRENT_REQUESTS"@) is None) by {
        reveal_strlit("TINKIVA_MAX_CONCURRENT_REQUESTS");
        assert("TINKIVA_MAX_CONCURRENT_REQUESTS"@.take(8) =~= "TINKIVA_"@);
        lemma_variable_missing(environment.variables@, "TINKIVA_MAX_CONCURRENT_REQUESTS"@);
    }
    assert(environment.value("TINKIVA_STATEMENT_CACHE_CAPACITY"@) is None) by {
        reveal_strlit("TINKIVA_STATEMENT_CACHE_CAPACITY");
        assert("TINKIVA_STATEMENT_CACHE_CAPACITY"@.take(8) =~= "TINKIVA_"@);
        lemma_variable_missing(environment.variables@, "TINKIVA_STATEMENT_CACHE_CAPACITY"@);
    }
}

} // verus!
