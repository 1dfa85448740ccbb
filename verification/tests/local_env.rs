use conf_service::error::{ConfigError, Fault, Field};
use conf_service::local::{conf_from_fields, env_prefix, field_named, load, prefixed_fields};
use conf_service::resolver::{Action, Event, Source, State};
use conf_service::{get_config, Conf};

fn init_test_conf() -> Conf {
    Conf {
        port: 11,
        host: "test".to_string(),
        pg_db_port: "test".to_string(),
        pg_db_host: "test".to_string(),
        pg_db_name: "test".to_string(),
        pg_db_password: "test".to_string(),
        pg_db_username: "test".to_string(),
    }
}

fn pair(key: &str, value: &str) -> (String, String) {
    (key.to_string(), value.to_string())
}

fn test_environment() -> Vec<(String, String)> {
    vec![
        pair("PATH", "/usr/bin"),
        pair("TEST_PORT", "11"),
        pair("TEST_HOST", "test"),
        pair("TEST_PG_DB_PORT", "test"),
        pair("TEST_PG_DB_HOST", "test"),
        pair("TEST_PG_DB_NAME", "test"),
        pair("TEST_PG_DB_USERNAME", "test"),
        pair("TEST_PG_DB_PASSWORD", "test"),
        pair("OTHER_PORT", "12"),
    ]
}

fn missing(field: Field) -> ConfigError {
    ConfigError::ConfigParseError { field, fault: Fault::Missing }
}

#[test]
fn get_config_test() {
    let (state, action) =
        get_config("test".to_string(), Source::Environment, State::Ready, Event::Start);
    assert_eq!(state, State::AwaitingEnvironment);
    assert_eq!(action, Action::ReadEnvironment { prefix: "TEST_".to_string() });
    let (state, action) = get_config(
        "test".to_string(),
        Source::Environment,
        state,
        Event::Environment(test_environment()),
    );
    assert_eq!(state, State::Finished);
    let x = match action {
        Action::Finish(outcome) => outcome.unwrap(),
        other => panic!("no outcome: {:?}", other),
    };
    assert!(x == init_test_conf(), "true")
}

#[test]
fn prefix_is_upper_case_name_and_underscore() {
    assert_eq!(env_prefix("test"), "TEST_");
    assert_eq!(env_prefix("My-App2"), "MY-APP2_");
    assert_eq!(env_prefix("straße"), "STRASSE_");
    assert_eq!(env_prefix(""), "_");
}

#[test]
fn prefixed_fields_keeps_only_prefixed_variables_in_order() {
    let fields = prefixed_fields("TEST_", &test_environment());
    assert_eq!(
        fields,
        vec![
            pair("port", "11"),
            pair("host", "test"),
            pair("pg_db_port", "test"),
            pair("pg_db_host", "test"),
            pair("pg_db_name", "test"),
            pair("pg_db_username", "test"),
            pair("pg_db_password", "test"),
        ]
    );
}

#[test]
fn prefixed_fields_puts_names_in_lower_case() {
    let vars = vec![pair("TEST_Port", "1"), pair("test_host", "h"), pair("TEST_", "e")];
    assert_eq!(prefixed_fields("TEST_", &vars), vec![pair("port", "1"), pair("", "e")]);
}

#[test]
fn prefixed_fields_of_no_variables_is_empty() {
    assert_eq!(prefixed_fields("TEST_", &Vec::new()), Vec::new());
}

#[test]
fn field_named_knows_each_field() {
    assert_eq!(field_named("pg_db_port"), Some(Field::PgDbPort));
    assert_eq!(field_named("pg_db_host"), Some(Field::PgDbHost));
    assert_eq!(field_named("pg_db_name"), Some(Field::PgDbName));
    assert_eq!(field_named("pg_db_username"), Some(Field::PgDbUsername));
    assert_eq!(field_named("pg_db_password"), Some(Field::PgDbPassword));
    assert_eq!(field_named("port"), Some(Field::Port));
    assert_eq!(field_named("host"), Some(Field::Host));
    assert_eq!(field_named("PORT"), None);
    assert_eq!(field_named("ports"), None);
    assert_eq!(field_named(""), None);
}

#[test]
fn field_names_are_those_of_the_record() {
    assert_eq!(Field::PgDbPort.as_str(), "pg_db_port");
    assert_eq!(Field::PgDbHost.as_str(), "pg_db_host");
    assert_eq!(Field::PgDbName.as_str(), "pg_db_name");
    assert_eq!(Field::PgDbUsername.as_str(), "pg_db_username");
    assert_eq!(Field::PgDbPassword.as_str(), "pg_db_password");
    assert_eq!(Field::Port.as_str(), "port");
    assert_eq!(Field::Host.as_str(), "host");
}

#[test]
fn load_round_trips_values() {
    let vars = vec![
        pair("APP_HOST", "0.0.0.0"),
        pair("APP_PG_DB_PASSWORD", "s e c r e t"),
        pair("APP_PG_DB_USERNAME", "user"),
        pair("APP_PG_DB_NAME", ""),
        pair("APP_PG_DB_HOST", "db.internal"),
        pair("APP_PG_DB_PORT", "5432"),
        pair("APP_PORT", "65535"),
        pair("APP_UNKNOWN", "ignored"),
    ];
    let expected = Conf {
        pg_db_port: "5432".to_string(),
        pg_db_host: "db.internal".to_string(),
        pg_db_name: "".to_string(),
        pg_db_username: "user".to_string(),
        pg_db_password: "s e c r e t".to_string(),
        port: 65535,
        host: "0.0.0.0".to_string(),
    };
    assert_eq!(load("APP_", &vars), Ok(expected));
}

#[test]
fn load_fails_on_each_single_missing_variable() {
    let all = [
        ("TEST_PG_DB_PORT", Field::PgDbPort),
        ("TEST_PG_DB_HOST", Field::PgDbHost),
        ("TEST_PG_DB_NAME", Field::PgDbName),
        ("TEST_PG_DB_USERNAME", Field::PgDbUsername),
        ("TEST_PG_DB_PASSWORD", Field::PgDbPassword),
        ("TEST_PORT", Field::Port),
        ("TEST_HOST", Field::Host),
    ];
    for (key, field) in all {
        let vars: Vec<(String, String)> =
            test_environment().into_iter().filter(|(k, _)| k != key).collect();
        assert_eq!(load("TEST_", &vars), Err(missing(field)));
    }
}

#[test]
fn load_of_empty_environment_reports_first_field() {
    assert_eq!(load("TEST_", &Vec::new()), Err(missing(Field::PgDbPort)));
}

#[test]
fn load_under_another_prefix_finds_nothing() {
    assert_eq!(load("PROD_", &test_environment()), Err(missing(Field::PgDbPort)));
}

#[test]
fn malformed_port_is_reported() {
    for bad in ["", "+", "-1", "65536", "80 ", " 80", "8_0", "0x50", "eleven", "1.0"] {
        let mut vars = test_environment();
        vars[1] = pair("TEST_PORT", bad);
        assert_eq!(
            load("TEST_", &vars),
            Err(ConfigError::ConfigParseError { field: Field::Port, fault: Fault::Malformed })
        );
    }
}

#[test]
fn duplicate_field_is_reported() {
    let mut vars = test_environment();
    vars.push(pair("TEST_host", "other"));
    assert_eq!(
        load("TEST_", &vars),
        Err(ConfigError::ConfigParseError { field: Field::Host, fault: Fault::Duplicate })
    );
}

#[test]
fn first_refused_entry_is_reported() {
    let fields = vec![
        pair("port", "1"),
        pair("port", "nope"),
        pair("host", "a"),
        pair("host", "b"),
    ];
    assert_eq!(
        conf_from_fields(&fields),
        Err(ConfigError::ConfigParseError { field: Field::Port, fault: Fault::Duplicate })
    );
    let fields = vec![pair("host", "a"), pair("port", "nope"), pair("host", "b")];
    assert_eq!(
        conf_from_fields(&fields),
        Err(ConfigError::ConfigParseError { field: Field::Port, fault: Fault::Malformed })
    );
}

#[test]
fn conf_from_fields_fills_every_field() {
    let fields = vec![
        pair("pg_db_port", "a"),
        pair("pg_db_host", "b"),
        pair("pg_db_name", "c"),
        pair("pg_db_username", "d"),
        pair("pg_db_password", "e"),
        pair("port", "+0080"),
        pair("host", "f"),
    ];
    let expected = Conf {
        pg_db_port: "a".to_string(),
        pg_db_host: "b".to_string(),
        pg_db_name: "c".to_string(),
        pg_db_username: "d".to_string(),
        pg_db_password: "e".to_string(),
        port: 80,
        host: "f".to_string(),
    };
    assert_eq!(conf_from_fields(&fields), Ok(expected));
}

#[test]
fn local_resolution_ignores_events_out_of_turn() {
    let (state, action) = get_config(
        "test".to_string(),
        Source::Environment,
        State::Ready,
        Event::Environment(test_environment()),
    );
    assert_eq!(state, State::Ready);
    assert_eq!(action, Action::Nothing);
    let (state, action) =
        get_config("test".to_string(), Source::Environment, State::Finished, Event::Start);
    assert_eq!(state, State::Finished);
    assert_eq!(action, Action::Nothing);
}

#[test]
fn repeated_prefix_is_taken_off_whole() {
    let vars = vec![pair("TEST_TEST_PORT", "1"), pair("TEST_A_TEST_B", "2")];
    assert_eq!(prefixed_fields("TEST_", &vars), vec![pair("port", "1"), pair("a_test_b", "2")]);
}

#[test]
fn other_variables_do_not_count() {
    let all = test_environment();
    let own: Vec<(String, String)> =
        all.iter().filter(|(key, _)| key.starts_with("TEST_")).cloned().collect();
    assert_eq!(own.len(), 7);
    assert_eq!(prefixed_fields("TEST_", &all), prefixed_fields("TEST_", &own));
    assert_eq!(load("TEST_", &all), load("TEST_", &own));
    assert_eq!(load("TEST_", &own), Ok(init_test_conf()));
    let others = vec![pair("TEST", "1"), pair("XTEST_PORT", "2"), pair("test_PORT", "3")];
    assert_eq!(prefixed_fields("TEST_", &others), Vec::new());
}
