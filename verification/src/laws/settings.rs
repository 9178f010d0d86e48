//! Settings: what the environment sets, what it leaves alone, and what is refused.

use crate::config::{
    environment_fault, fault_at, number_variables, numbers_read, read_from, variable, ConfigError,
    ConfigFault, DatabaseSettings, Environment, Settings, SettingsView,
};
use crate::laws::numbers::{law_numbers_are_read_as_spelled, law_only_numbers_are_read, spells};
use crate::number::{parsed, NumberProblem};
use crate::pool::{pragmas, pragmas_view, Role};
use crate::text::decimal_text;
use vstd::prelude::*;

verus! {

/// A variable has the value of the first entry that bears its name, and none without such an
/// entry.
pub proof fn law_variables_are_found_by_name(
    variables: Seq<(String, String)>,
    key: Seq<char>,
    i: int,
)
    requires
        0 <= i <= variables.len(),
        forall|j: int| 0 <= j < i ==> (#[trigger] variables[j]).0@ != key,
    ensures
        i < variables.len() && variables[i].0@ == key ==> variable(variables, key) == Some(
            variables[i].1@,
        ),
        i == variables.len() ==> variable(variables, key) is None,
    decreases variables.len(),
{
    if i > 0 {
        let rest = variables.drop_first();
        assert(variables[0].0@ != key);
        assert forall|j: int| 0 <= j < i - 1 implies (#[trigger] rest[j]).0@ != key by {
            assert(rest[j] == variables[j + 1]);
        }
        law_variables_are_found_by_name(rest, key, i - 1);
        if i < variables.len() {
            assert(rest[i - 1] == variables[i]);
        }
    }
}

proof fn lemma_read_numbers(environment: &Environment, from: nat, i: int)
    requires
        from <= i < read_from(environment, from),
        from <= 10,
    ensures
        i < 10,
        fault_at(environment, i) is None,
    decreases 10 - from,
{
    if from < 10 && fault_at(environment, from as int) is None && from < i {
        lemma_read_numbers(environment, from + 1, i);
    }
}

proof fn lemma_read_stops(environment: &Environment, from: nat)
    requires
        from <= 10,
    ensures
        from <= read_from(environment, from) <= 10,
        read_from(environment, from) < 10 ==> fault_at(
            environment,
            read_from(environment, from) as int,
        ) is Some,
    decreases 10 - from,
{
    if from < 10 && fault_at(environment, from as int) is None {
        lemma_read_stops(environment, from + 1);
    }
}

proof fn lemma_number_set(environment: &Environment, i: int, current: nat)
    requires
        0 <= i < 10,
        fault_at(environment, i) is None,
        environment.value(number_variables()[i].0) is Some,
    ensures
        spells(
            environment.value(number_variables()[i].0)->Some_0,
            environment.number(number_variables()[i].0, number_variables()[i].1, current) as int,
        ),
        environment.number(number_variables()[i].0, number_variables()[i].1, current)
            <= number_variables()[i].1,
{
    law_only_numbers_are_read(
        environment.value(number_variables()[i].0)->Some_0,
        number_variables()[i].1,
    );
}

/// Whenever the environment is read without a fault, every number that it sets is the setting
/// afterwards, whatever the setting was before.
pub proof fn law_numbers_of_the_environment_are_set(
    before: SettingsView,
    environment: &Environment,
)
    requires
        environment_fault(environment) is None,
    ensures
        environment.value("TINKIVA_MAX_OPEN_DATABASES"@) matches Some(text) ==> spells(
            text,
            before.overridden(environment).database.max_open_databases as int,
        ),
        environment.value("TINKIVA_IDLE_TIMEOUT_SECONDS"@) matches Some(text) ==> spells(
            text,
            before.overridden(environment).database.idle_timeout_seconds as int,
        ),
        environment.value("TINKIVA_READER_CONNECTIONS"@) matches Some(text) ==> spells(
            text,
            before.overridden(environment).database.reader_connections as int,
        ),
        environment.value("TINKIVA_MAX_RESULT_ROWS"@) matches Some(text) ==> spells(
            text,
            before.overridden(environment).database.max_result_rows as int,
        ),
        environment.value("TINKIVA_WRITER_CACHE_SIZE_KB"@) matches Some(text) ==> spells(
            text,
            before.overridden(environment).database.writer_cache_size_kb as int,
        ),
        environment.value("TINKIVA_READER_CACHE_SIZE_KB"@) matches Some(text) ==> spells(
            text,
            before.overridden(environment).database.reader_cache_size_kb as int,
        ),
        environment.value("TINKIVA_CACHE_SIZE_KB"@) matches Some(text) ==> before.overridden(
            environment,
        ).database.cache_size_kb is Some && spells(
            text,
            before.overridden(environment).database.cache_size_kb->Some_0 as int,
        ),
        environment.value("TINKIVA_MMAP_SIZE_MB"@) matches Some(text) ==> spells(
            text,
            before.overridden(environment).database.mmap_size_mb as int,
        ),
        environment.value("TINKIVA_MAX_CONCURRENT_REQUESTS"@) matches Some(text) ==> spells(
            text,
            before.overridden(environment).database.max_concurrent_requests as int,
        ),
        environment.value("TINKIVA_STATEMENT_CACHE_CAPACITY"@) matches Some(text) ==> spells(
            text,
            before.overridden(environment).database.statement_cache_capacity as int,
        ),
{
    lemma_read_stops(environment, 0);
    assert forall|i: int, current: nat|
        0 <= i < 10 && environment.value(number_variables()[i].0) is Some implies spells(
        environment.value(number_variables()[i].0)->Some_0,
        #[trigger] environment.number_among(10, i, current) as int,
    ) && environment.number_among(10, i, current) <= number_variables()[i].1 by {
        lemma_read_numbers(environment, 0, i);
        lemma_number_set(environment, i, current);
    }
    assert(number_variables()[0] == ("TINKIVA_MAX_OPEN_DATABASES"@, usize::MAX as nat));
    assert(number_variables()[1] == ("TINKIVA_IDLE_TIMEOUT_SECONDS"@, u64::MAX as nat));
    assert(number_variables()[2] == ("TINKIVA_READER_CONNECTIONS"@, u32::MAX as nat));
    assert(number_variables()[3] == ("TINKIVA_MAX_RESULT_ROWS"@, usize::MAX as nat));
    assert(number_variables()[4] == ("TINKIVA_WRITER_CACHE_SIZE_KB"@, u32::MAX as nat));
    assert(number_variables()[5] == ("TINKIVA_READER_CACHE_SIZE_KB"@, u32::MAX as nat));
    assert(number_variables()[6] == ("TINKIVA_CACHE_SIZE_KB"@, u32::MAX as nat));
    assert(number_variables()[7] == ("TINKIVA_MMAP_SIZE_MB"@, u64::MAX as nat));
    assert(number_variables()[8] == ("TINKIVA_MAX_CONCURRENT_REQUESTS"@, usize::MAX as nat));
    assert(number_variables()[9] == ("TINKIVA_STATEMENT_CACHE_CAPACITY"@, usize::MAX as nat));
    let database = before.database;
    assert(environment.value("TINKIVA_MAX_OPEN_DATABASES"@) is Some ==> {
        environment.number_among(10, 0, database.max_open_databases as nat) <= usize::MAX
    });
    assert(environment.value("TINKIVA_IDLE_TIMEOUT_SECONDS"@) is Some ==> {
        environment.number_among(10, 1, database.idle_timeout_seconds as nat) <= u64::MAX
    });
    assert(environment.value("TINKIVA_READER_CONNECTIONS"@) is Some ==> {
        environment.number_among(10, 2, database.reader_connections as nat) <= u32::MAX
    });
    assert(environment.value("TINKIVA_MAX_RESULT_ROWS"@) is Some ==> {
        environment.number_among(10, 3, database.max_result_rows as nat) <= usize::MAX
    });
    assert(environment.value("TINKIVA_WRITER_CACHE_SIZE_KB"@) is Some ==> {
        environment.number_among(10, 4, database.writer_cache_size_kb as nat) <= u32::MAX
    });
    assert(environment.value("TINKIVA_READER_CACHE_SIZE_KB"@) is Some ==> {
        environment.number_among(10, 5, database.reader_cache_size_kb as nat) <= u32::MAX
    });
    assert(environment.value("TINKIVA_CACHE_SIZE_KB"@) is Some ==> {
        environment.number_among(10, 6, 0) <= u32::MAX
    });
    assert(environment.value("TINKIVA_MMAP_SIZE_MB"@) is Some ==> {
        environment.number_among(10, 7, database.mmap_size_mb as nat) <= u64::MAX
    });
    assert(environment.value("TINKIVA_MAX_CONCURRENT_REQUESTS"@) is Some ==> {
        environment.number_among(10, 8, database.max_concurrent_requests as nat) <= usize::MAX
    });
    assert(environment.value("TINKIVA_STATEMENT_CACHE_CAPACITY"@) is Some ==> {
        environment.number_among(10, 9, database.statement_cache_capacity as nat) <= usize::MAX
    });
}

/// Where reading stops at a number that cannot be read, those before it are set, those from it on
/// stay as they were, and so does everything that the environment does not set.
pub proof fn law_settings_that_are_not_set_stay(
    before: SettingsView,
    environment: &Environment,
    n: nat,
)
    ensures
        ({
            let now = before.overridden_by(environment, n).database;
            let then = before.database;
            let set = |key: Seq<char>| environment.value(key) is Some;
            &&& !set("TINKIVA_MAX_OPEN_DATABASES"@) || n <= 0 ==> now.max_open_databases
                == then.max_open_databases
            &&& !set("TINKIVA_IDLE_TIMEOUT_SECONDS"@) || n <= 1 ==> now.idle_timeout_seconds
                == then.idle_timeout_seconds
            &&& !set("TINKIVA_READER_CONNECTIONS"@) || n <= 2 ==> now.reader_connections
                == then.reader_connections
            &&& !set("TINKIVA_MAX_RESULT_ROWS"@) || n <= 3 ==> now.max_result_rows
                == then.max_result_rows
            &&& !set("TINKIVA_WRITER_CACHE_SIZE_KB"@) || n <= 4 ==> now.writer_cache_size_kb
                == then.writer_cache_size_kb
            &&& !set("TINKIVA_READER_CACHE_SIZE_KB"@) || n <= 5 ==> now.reader_cache_size_kb
                == then.reader_cache_size_kb
            &&& !set("TINKIVA_CACHE_SIZE_KB"@) || n <= 6 ==> now.cache_size_kb
                == then.cache_size_kb
            &&& !set("TINKIVA_MMAP_SIZE_MB"@) || n <= 7 ==> now.mmap_size_mb
                == then.mmap_size_mb
            &&& !set("TINKIVA_MAX_CONCURRENT_REQUESTS"@) || n <= 8 ==> now.max_concurrent_requests
                == then.max_concurrent_requests
            &&& !set("TINKIVA_STATEMENT_CACHE_CAPACITY"@) || n <= 9 ==> now.statement_cache_capacity
                == then.statement_cache_capacity
            &&& now.cleanup_interval_seconds == then.cleanup_interval_seconds
            &&& now.checkpoint_interval_seconds == then.checkpoint_interval_seconds
            &&& now.busy_timeout_ms == then.busy_timeout_ms
            &&& now.acquire_timeout_seconds == then.acquire_timeout_seconds
            &&& now.admission_timeout_ms == then.admission_timeout_ms
            &&& now.max_requests_per_database == then.max_requests_per_database
            &&& now.wal_size_limit_mb == then.wal_size_limit_mb
        }),
        before.overridden_by(environment, n).server.body_limit_bytes
            == before.server.body_limit_bytes,
        before.overridden_by(environment, n).server.request_timeout_seconds
            == before.server.request_timeout_seconds,
        before.overridden(environment) == before.overridden_by(environment, 10),
{
    assert(number_variables()[0].0 == "TINKIVA_MAX_OPEN_DATABASES"@);
    assert(number_variables()[1].0 == "TINKIVA_IDLE_TIMEOUT_SECONDS"@);
    assert(number_variables()[2].0 == "TINKIVA_READER_CONNECTIONS"@);
    assert(number_variables()[3].0 == "TINKIVA_MAX_RESULT_ROWS"@);
    assert(number_variables()[4].0 == "TINKIVA_WRITER_CACHE_SIZE_KB"@);
    assert(number_variables()[5].0 == "TINKIVA_READER_CACHE_SIZE_KB"@);
    assert(number_variables()[6].0 == "TINKIVA_CACHE_SIZE_KB"@);
    assert(number_variables()[7].0 == "TINKIVA_MMAP_SIZE_MB"@);
    assert(number_variables()[8].0 == "TINKIVA_MAX_CONCURRENT_REQUESTS"@);
    assert(number_variables()[9].0 == "TINKIVA_STATEMENT_CACHE_CAPACITY"@);
}

/// Where reading stops at a number that cannot be read, the numbers before it are the settings.
pub proof fn law_numbers_before_a_fault_are_set(before: SettingsView, environment: &Environment)
    ensures
        ({
            let n = numbers_read(environment);
            let now = before.overridden_by(environment, n).database;
            let value = |key: Seq<char>| environment.value(key);
            &&& value("TINKIVA_MAX_OPEN_DATABASES"@) is Some && 0 < n ==> spells(
                value("TINKIVA_MAX_OPEN_DATABASES"@)->Some_0,
                now.max_open_databases as int,
            )
            &&& value("TINKIVA_IDLE_TIMEOUT_SECONDS"@) is Some && 1 < n ==> spells(
                value("TINKIVA_IDLE_TIMEOUT_SECONDS"@)->Some_0,
                now.idle_timeout_seconds as int,
            )
            &&& value("TINKIVA_READER_CONNECTIONS"@) is Some && 2 < n ==> spells(
                value("TINKIVA_READER_CONNECTIONS"@)->Some_0,
                now.reader_connections as int,
            )
            &&& value("TINKIVA_MAX_RESULT_ROWS"@) is Some && 3 < n ==> spells(
                value("TINKIVA_MAX_RESULT_ROWS"@)->Some_0,
                now.max_result_rows as int,
            )
            &&& value("TINKIVA_WRITER_CACHE_SIZE_KB"@) is Some && 4 < n ==> spells(
                value("TINKIVA_WRITER_CACHE_SIZE_KB"@)->Some_0,
                now.writer_cache_size_kb as int,
            )
            &&& value("TINKIVA_READER_CACHE_SIZE_KB"@) is Some && 5 < n ==> spells(
                value("TINKIVA_READER_CACHE_SIZE_KB"@)->Some_0,
                now.reader_cache_size_kb as int,
            )
            &&& value("TINKIVA_CACHE_SIZE_KB"@) is Some && 6 < n ==> now.cache_size_kb is Some
                && spells(
                value("TINKIVA_CACHE_SIZE_KB"@)->Some_0,
                now.cache_size_kb->Some_0 as int,
            )
            &&& value("TINKIVA_MMAP_SIZE_MB"@) is Some && 7 < n ==> spells(
                value("TINKIVA_MMAP_SIZE_MB"@)->Some_0,
                now.mmap_size_mb as int,
            )
            &&& value("TINKIVA_MAX_CONCURRENT_REQUESTS"@) is Some && 8 < n ==> spells(
                value("TINKIVA_MAX_CONCURRENT_REQUESTS"@)->Some_0,
                now.max_concurrent_requests as int,
            )
            &&& value("TINKIVA_STATEMENT_CACHE_CAPACITY"@) is Some && 9 < n ==> spells(
                value("TINKIVA_STATEMENT_CACHE_CAPACITY"@)->Some_0,
                now.statement_cache_capacity as int,
            )
        }),
{
    let n = numbers_read(environment);
    lemma_read_stops(environment, 0);
    assert forall|i: int, current: nat|
        0 <= i < n && environment.value(number_variables()[i].0) is Some implies spells(
        environment.value(number_variables()[i].0)->Some_0,
        #[trigger] environment.number_among(n, i, current) as int,
    ) && environment.number_among(n, i, current) <= number_variables()[i].1 by {
        lemma_read_numbers(environment, 0, i);
        lemma_number_set(environment, i, current);
    }
    assert(number_variables()[0] == ("TINKIVA_MAX_OPEN_DATABASES"@, usize::MAX as nat));
    assert(number_variables()[1] == ("TINKIVA_IDLE_TIMEOUT_SECONDS"@, u64::MAX as nat));
    assert(number_variables()[2] == ("TINKIVA_READER_CONNECTIONS"@, u32::MAX as nat));
    assert(number_variables()[3] == ("TINKIVA_MAX_RESULT_ROWS"@, usize::MAX as nat));
    assert(number_variables()[4] == ("TINKIVA_WRITER_CACHE_SIZE_KB"@, u32::MAX as nat));
    assert(number_variables()[5] == ("TINKIVA_READER_CACHE_SIZE_KB"@, u32::MAX as nat));
    assert(number_variables()[6] == ("TINKIVA_CACHE_SIZE_KB"@, u32::MAX as nat));
    assert(number_variables()[7] == ("TINKIVA_MMAP_SIZE_MB"@, u64::MAX as nat));
    assert(number_variables()[8] == ("TINKIVA_MAX_CONCURRENT_REQUESTS"@, usize::MAX as nat));
    assert(number_variables()[9] == ("TINKIVA_STATEMENT_CACHE_CAPACITY"@, usize::MAX as nat));
    let database = before.database;
    assert(0 < n && environment.value("TINKIVA_MAX_OPEN_DATABASES"@) is Some ==> {
        environment.number_among(n, 0, database.max_open_databases as nat) <= usize::MAX
    });
    assert(1 < n && environment.value("TINKIVA_IDLE_TIMEOUT_SECONDS"@) is Some ==> {
        environment.number_among(n, 1, database.idle_timeout_seconds as nat) <= u64::MAX
    });
    assert(2 < n && environment.value("TINKIVA_READER_CONNECTIONS"@) is Some ==> {
        environment.number_among(n, 2, database.reader_connections as nat) <= u32::MAX
    });
    assert(3 < n && environment.value("TINKIVA_MAX_RESULT_ROWS"@) is Some ==> {
        environment.number_among(n, 3, database.max_result_rows as nat) <= usize::MAX
    });
    assert(4 < n && environment.value("TINKIVA_WRITER_CACHE_SIZE_KB"@) is Some ==> {
        environment.number_among(n, 4, database.writer_cache_size_kb as nat) <= u32::MAX
    });
    assert(5 < n && environment.value("TINKIVA_READER_CACHE_SIZE_KB"@) is Some ==> {
        environment.number_among(n, 5, database.reader_cache_size_kb as nat) <= u32::MAX
    });
    assert(6 < n && environment.value("TINKIVA_CACHE_SIZE_KB"@) is Some ==> {
        environment.number_among(n, 6, 0) <= u32::MAX
    });
    assert(7 < n && environment.value("TINKIVA_MMAP_SIZE_MB"@) is Some ==> {
        environment.number_among(n, 7, database.mmap_size_mb as nat) <= u64::MAX
    });
    assert(8 < n && environment.value("TINKIVA_MAX_CONCURRENT_REQUESTS"@) is Some ==> {
        environment.number_among(n, 8, database.max_concurrent_requests as nat) <= usize::MAX
    });
    assert(9 < n && environment.value("TINKIVA_STATEMENT_CACHE_CAPACITY"@) is Some ==> {
        environment.number_among(n, 9, database.statement_cache_capacity as nat) <= usize::MAX
    });
}

/// The texts of the environment are the settings, whether or not its numbers can be read. An
/// empty token is none.
pub proof fn law_texts_of_the_environment_are_set(
    before: SettingsView,
    environment: &Environment,
    n: nat,
)
    ensures
        ({
            let after = before.overridden_by(environment, n);
            &&& environment.value("TINKIVA_BIND"@) matches Some(text) ==> after.server.bind == text
            &&& environment.value("TINKIVA_BIND"@) is None ==> after.server.bind
                == before.server.bind
            &&& environment.value("TINKIVA_DATABASE_DIR"@) matches Some(text)
                ==> after.database.directory == text
            &&& environment.value("TINKIVA_DATABASE_DIR"@) is None ==> after.database.directory
                == before.database.directory
            &&& environment.value("TINKIVA_AUTH_TOKEN"@) matches Some(text)
                ==> after.server.auth_token == (if text.len() == 0 {
                None
            } else {
                Some(text)
            })
            &&& environment.value("TINKIVA_AUTH_TOKEN"@) is None ==> after.server.auth_token
                == before.server.auth_token
        }),
{
}

/// Whether a variable is not set or spells a number that is at most `max`.
pub open spec fn unset_or_number(environment: &Environment, key: Seq<char>, max: int) -> bool {
    environment.value(key) matches Some(text) ==> exists|number: nat|
        number <= max && #[trigger] spells(text, number as int)
}

/// The environment is read without a fault exactly if each of its numbers is one, and fits.
pub proof fn law_the_environment_is_read_if_its_numbers_are(environment: &Environment)
    ensures
        environment_fault(environment) is None <==> {
            &&& unset_or_number(environment, "TINKIVA_MAX_OPEN_DATABASES"@, usize::MAX as int)
            &&& unset_or_number(environment, "TINKIVA_IDLE_TIMEOUT_SECONDS"@, u64::MAX as int)
            &&& unset_or_number(environment, "TINKIVA_READER_CONNECTIONS"@, u32::MAX as int)
            &&& unset_or_number(environment, "TINKIVA_MAX_RESULT_ROWS"@, usize::MAX as int)
            &&& unset_or_number(environment, "TINKIVA_WRITER_CACHE_SIZE_KB"@, u32::MAX as int)
            &&& unset_or_number(environment, "TINKIVA_READER_CACHE_SIZE_KB"@, u32::MAX as int)
            &&& unset_or_number(environment, "TINKIVA_CACHE_SIZE_KB"@, u32::MAX as int)
            &&& unset_or_number(environment, "TINKIVA_MMAP_SIZE_MB"@, u64::MAX as int)
            &&& unset_or_number(environment, "TINKIVA_MAX_CONCURRENT_REQUESTS"@, usize::MAX as int)
            &&& unset_or_number(environment, "TINKIVA_STATEMENT_CACHE_CAPACITY"@, usize::MAX as int)
        },
{
    lemma_read_stops(environment, 0);
    assert forall|i: int| 0 <= i < 10 implies (#[trigger] fault_at(environment, i) is None
        <==> unset_or_number(
        environment,
        number_variables()[i].0,
        number_variables()[i].1 as int,
    )) by {
        lemma_fault(environment, i);
    }
    assert(number_variables()[0] == ("TINKIVA_MAX_OPEN_DATABASES"@, usize::MAX as nat));
    assert(number_variables()[1] == ("TINKIVA_IDLE_TIMEOUT_SECONDS"@, u64::MAX as nat));
    assert(number_variables()[2] == ("TINKIVA_READER_CONNECTIONS"@, u32::MAX as nat));
    assert(number_variables()[3] == ("TINKIVA_MAX_RESULT_ROWS"@, usize::MAX as nat));
    assert(number_variables()[4] == ("TINKIVA_WRITER_CACHE_SIZE_KB"@, u32::MAX as nat));
    assert(number_variables()[5] == ("TINKIVA_READER_CACHE_SIZE_KB"@, u32::MAX as nat));
    assert(number_variables()[6] == ("TINKIVA_CACHE_SIZE_KB"@, u32::MAX as nat));
    assert(number_variables()[7] == ("TINKIVA_MMAP_SIZE_MB"@, u64::MAX as nat));
    assert(number_variables()[8] == ("TINKIVA_MAX_CONCURRENT_REQUESTS"@, usize::MAX as nat));
    assert(number_variables()[9] == ("TINKIVA_STATEMENT_CACHE_CAPACITY"@, usize::MAX as nat));
    if environment_fault(environment) is None {
        assert forall|i: int| 0 <= i < 10 implies #[trigger] fault_at(environment, i) is None by {
            lemma_read_numbers(environment, 0, i);
        }
        assert(fault_at(environment, 0) is None);
        assert(fault_at(environment, 1) is None);
        assert(fault_at(environment, 2) is None);
        assert(fault_at(environment, 3) is None);
        assert(fault_at(environment, 4) is None);
        assert(fault_at(environment, 5) is None);
        assert(fault_at(environment, 6) is None);
        assert(fault_at(environment, 7) is None);
        assert(fault_at(environment, 8) is None);
        assert(fault_at(environment, 9) is None);
    } else {
        let i = numbers_read(environment) as int;
        assert(fault_at(environment, i) is Some);
    }
}

proof fn lemma_fault(environment: &Environment, i: int)
    requires
        0 <= i < 10,
    ensures
        fault_at(environment, i) is None <==> unset_or_number(
            environment,
            number_variables()[i].0,
            number_variables()[i].1 as int,
        ),
{
    let (key, max) = number_variables()[i];
    if environment.value(key) is Some {
        let text = environment.value(key)->Some_0;
        law_only_numbers_are_read(text, max);
        if parsed(text, max) is Ok {
            let number = parsed(text, max)->Ok_0;
            assert(number <= max && spells(text, number as int));
        } else if exists|number: nat| number <= max && #[trigger] spells(text, number as int) {
            let number = choose|number: nat|
                number <= max && #[trigger] spells(text, number as int);
            law_numbers_are_read_as_spelled(text, max, number);
        }
    }
}

/// A fault names a variable that is set and what is wrong with it.
pub proof fn law_faults_name_their_variable(environment: &Environment)
    ensures
        environment_fault(environment) matches Some(fault) ==> fault is InvalidNumber
            && environment.value(fault->key) is Some && (fault->problem == NumberProblem::Empty
            <==> environment.value(fault->key)->Some_0.len() == 0),
{
    lemma_read_stops(environment, 0);
    if environment_fault(environment) is Some {
        let (key, max) = number_variables()[numbers_read(environment) as int];
        law_only_numbers_are_read(environment.value(key)->Some_0, max);
    }
}

/// Settings are accepted exactly if none of those that must not be zero is.
pub proof fn law_settings_must_not_be_zero(settings: SettingsView)
    ensures
        settings.fault() is None <==> {
            &&& settings.database.max_open_databases != 0
            &&& settings.database.reader_connections != 0
            &&& settings.database.cleanup_interval_seconds != 0
            &&& settings.database.checkpoint_interval_seconds != 0
            &&& settings.database.cache_size_kb != Some(0u32)
            &&& settings.database.writer_cache_size_kb != 0
            &&& settings.database.reader_cache_size_kb != 0
            &&& settings.database.max_result_rows != 0
            &&& settings.server.body_limit_bytes != 0
            &&& settings.database.max_concurrent_requests != 0
            &&& settings.database.max_requests_per_database != 0
        },
        settings.valid() <==> settings.fault() is None,
        settings.fault() matches Some(fault) ==> fault is NotPositive && {
            let setting = fault->setting;
            ||| setting == "max_open_databases"@ && settings.database.max_open_databases == 0
            ||| setting == "reader_connections"@ && settings.database.reader_connections == 0
            ||| setting == "cleanup_interval_seconds"@ && settings.database.cleanup_interval_seconds
                == 0
            ||| setting == "checkpoint_interval_seconds"@
                && settings.database.checkpoint_interval_seconds == 0
            ||| setting == "cache_size_kb"@ && settings.database.cache_size_kb == Some(0u32)
            ||| setting == "writer_cache_size_kb"@ && settings.database.writer_cache_size_kb == 0
            ||| setting == "reader_cache_size_kb"@ && settings.database.reader_cache_size_kb == 0
            ||| setting == "max_result_rows"@ && settings.database.max_result_rows == 0
            ||| setting == "body_limit_bytes"@ && settings.server.body_limit_bytes == 0
            ||| setting == "max_concurrent_requests"@ && settings.database.max_concurrent_requests
                == 0
            ||| setting == "max_requests_per_database"@
                && settings.database.max_requests_per_database == 0
        },
{
}

/// A fault says which variable or setting is at fault, and why.
pub proof fn law_faults_are_told(key: Seq<char>, problem: NumberProblem)
    ensures
        (ConfigFault::InvalidNumber { key, problem }).text() == "invalid "@ + key + ": "@ + (
        match problem {
            NumberProblem::Empty => "cannot parse integer from empty string"@,
            NumberProblem::InvalidDigit => "invalid digit found in string"@,
            NumberProblem::TooLarge => "number too large to fit in target type"@,
        }),
        (ConfigFault::NotPositive { setting: key }).text() == key + " must be greater than zero"@,
{
}

/// What an error of the settings is taken to say is what it says.
pub proof fn law_errors_show_what_they_hold(key: &'static str, problem: NumberProblem)
    ensures
        (ConfigError::InvalidNumber { key, problem })@ == (ConfigFault::InvalidNumber {
            key: key@,
            problem,
        }),
        (ConfigError::NotPositive { setting: key })@ == (ConfigFault::NotPositive {
            setting: key@,
        }),
{
}

/// What settings are taken to hold is what they hold.
pub proof fn law_settings_show_what_they_hold(settings: Settings)
    ensures
        settings@.server.bind == settings.server.bind@,
        settings.server.auth_token matches Some(token) ==> settings@.server.auth_token == Some(
            token@,
        ),
        settings.server.auth_token is None ==> settings@.server.auth_token is None,
        settings@.server.body_limit_bytes == settings.server.body_limit_bytes,
        settings@.server.request_timeout_seconds == settings.server.request_timeout_seconds,
        settings@.database == settings.database@,
        settings@.database.directory == settings.database.directory@,
        settings@.database.max_open_databases == settings.database.max_open_databases,
        settings@.database.idle_timeout_seconds == settings.database.idle_timeout_seconds,
        settings@.database.reader_connections == settings.database.reader_connections,
        settings@.database.max_result_rows == settings.database.max_result_rows,
        settings@.database.writer_cache_size_kb == settings.database.writer_cache_size_kb,
        settings@.database.reader_cache_size_kb == settings.database.reader_cache_size_kb,
        settings@.database.cache_size_kb == settings.database.cache_size_kb,
        settings@.database.mmap_size_mb == settings.database.mmap_size_mb,
        settings@.database.max_concurrent_requests == settings.database.max_concurrent_requests,
        settings@.database.statement_cache_capacity == settings.database.statement_cache_capacity,
        settings@.database.cleanup_interval_seconds == settings.database.cleanup_interval_seconds,
        settings@.database.checkpoint_interval_seconds
            == settings.database.checkpoint_interval_seconds,
        settings@.database.busy_timeout_ms == settings.database.busy_timeout_ms,
        settings@.database.acquire_timeout_seconds == settings.database.acquire_timeout_seconds,
        settings@.database.admission_timeout_ms == settings.database.admission_timeout_ms,
        settings@.database.max_requests_per_database == settings.database.max_requests_per_database,
        settings@.database.wal_size_limit_mb == settings.database.wal_size_limit_mb,
{
}

/// What a list of pragmas is taken to hold is what it holds, one by one.
pub proof fn law_pragmas_show_what_they_hold(list: Seq<(&'static str, String)>)
    ensures
        pragmas_view(list).len() == list.len(),
        forall|i: int|
            0 <= i < list.len() ==> #[trigger] pragmas_view(list)[i] == (list[i].0@, list[i].1@),
{
}

/// A connection has the page cache of its role, unless one size is set for both; it maps and
/// trims as many bytes as its settings say in megabytes, checkpoints by itself at that many pages
/// of 4096 bytes, and writes only as a writer.
pub proof fn law_connections_are_opened_as_set(settings: DatabaseSettings, role: Role)
    ensures
        pragmas(settings, role).len() == 5,
        settings.cache_size_kb matches Some(size) ==> pragmas(settings, role)[0] == (
            "cache_size"@,
            "-"@ + decimal_text(size as nat),
        ),
        settings.cache_size_kb is None && role == Role::Writer ==> pragmas(settings, role)[0] == (
            "cache_size"@,
            "-"@ + decimal_text(settings.writer_cache_size_kb as nat),
        ),
        settings.cache_size_kb is None && role == Role::Reader ==> pragmas(settings, role)[0] == (
            "cache_size"@,
            "-"@ + decimal_text(settings.reader_cache_size_kb as nat),
        ),
        pragmas(settings, role)[1] == (
            "mmap_size"@,
            decimal_text((settings.mmap_size_mb * 1_048_576) as nat),
        ),
        pragmas(settings, role)[2] == (
            "journal_size_limit"@,
            decimal_text((settings.wal_size_limit_mb * 1_048_576) as nat),
        ),
        pragmas(settings, role)[3] == (
            "wal_autocheckpoint"@,
            decimal_text((settings.wal_size_limit_mb * 256) as nat),
        ),
        pragmas(settings, role)[4].0 == "query_only"@,
        role == Role::Reader ==> pragmas(settings, role)[4].1 == "ON"@,
        role == Role::Writer ==> pragmas(settings, role)[4].1 == "OFF"@,
{
}

} // verus!
