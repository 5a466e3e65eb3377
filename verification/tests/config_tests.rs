use pgimporter::batch::{checked_where_clause, SchemaImport};
use pgimporter::config::{
    get_source_db_url, get_source_db_url_with_hiding, get_target_db_url, get_value_from,
    populate_properties, CommandLineOptions, ConfigError, ConfigProperties, ConnectionParams,
    EnvOptions, ImportConfig, DEFAULT_IMPORTER_IMPL, DEFAULT_MAX_THREADS, DEFAULT_ROWS_FOR_INSERT,
    DEFAULT_ROWS_FOR_SELECT,
};

fn no_cli() -> CommandLineOptions {
    CommandLineOptions {
        source: None,
        target: None,
        max_threads: None,
        rows_insert: None,
        rows_select: None,
        error_log: None,
        importer_impl: None,
        batch_filename: None,
    }
}

fn no_env() -> EnvOptions {
    EnvOptions {
        source: None,
        target: None,
        max_threads: None,
        rows_insert: None,
        rows_select: None,
        error_log: None,
        importer_impl: None,
        batch_filename: None,
    }
}

#[test]
fn connection_url_parses_into_parts() {
    let p = ConnectionParams::from_str("postgres:postgres@localhost:5432/postgres").unwrap();
    assert_eq!(p.user, "postgres");
    assert_eq!(p.pass, "postgres");
    assert_eq!(p.host, "localhost");
    assert_eq!(p.port, "5432");
    assert_eq!(p.dbname, "postgres");
}

#[test]
fn connection_url_password_and_dbname_are_optional() {
    let p = ConnectionParams::from_str("alice@db.example:5555").unwrap();
    assert_eq!(p.user, "alice");
    assert_eq!(p.pass, "");
    assert_eq!(p.host, "db.example");
    assert_eq!(p.port, "5555");
    assert_eq!(p.dbname, "");
}

#[test]
fn malformed_connection_urls_are_refused() {
    for url in ["nonsense", "@host:5432", "user:@host:5432", "user@host", "user@:5432", "user@host:/db"] {
        assert_eq!(
            ConnectionParams::from_str(url),
            Err(ConfigError::InvalidConnectionUrl)
        );
    }
}

#[test]
fn driver_params_render_and_hide_the_password() {
    let config = defaults();
    assert_eq!(
        get_source_db_url(&config),
        "host='localhost' port='5432' dbname='postgres' user='postgres' password='postgres'"
    );
    assert_eq!(
        get_target_db_url(&config),
        "host='localhost' port='5555' dbname='postgres' user='postgres' password='postgres'"
    );
    assert_eq!(
        get_source_db_url_with_hiding(&config, true),
        "host='localhost' port='5432' dbname='postgres' user='postgres' password='**HIDDEN**'"
    );
}

fn defaults() -> ConfigProperties {
    populate_properties(&no_cli(), &no_env()).unwrap()
}

#[test]
fn defaults_resolve_when_nothing_is_given() {
    let config = defaults();
    assert_eq!(config.source.host, "localhost");
    assert_eq!(config.source.port, "5432");
    assert_eq!(config.target.port, "5555");
    assert_eq!(config.max_threads, DEFAULT_MAX_THREADS);
    assert_eq!(config.rows_insert, DEFAULT_ROWS_FOR_INSERT);
    assert_eq!(config.rows_select, DEFAULT_ROWS_FOR_SELECT);
    assert!(!config.error_log);
    assert_eq!(config.importer_impl, DEFAULT_IMPORTER_IMPL);
    assert_eq!(config.batch_filename, "");
}

#[test]
fn command_line_beats_environment_beats_default() {
    assert_eq!(get_value_from(Some(3), Some(5), 8), 3);
    assert_eq!(get_value_from(None, Some(5), 8), 5);
    assert_eq!(get_value_from::<i64>(None, None, 8), 8);

    let mut cli = no_cli();
    cli.max_threads = Some(2);
    let mut env = no_env();
    env.max_threads = Some(5);
    env.rows_insert = Some(25);
    let config = populate_properties(&cli, &env).unwrap();
    assert_eq!(config.max_threads, 2);
    assert_eq!(config.rows_insert, 25);
    assert_eq!(config.rows_select, DEFAULT_ROWS_FOR_SELECT);
}

#[test]
fn populate_properties_refuses_bad_winning_url() {
    let mut cli = no_cli();
    cli.source = Some(String::from("not a url"));
    assert!(matches!(
        populate_properties(&cli, &no_env()),
        Err(ConfigError::InvalidConnectionUrl)
    ));
}

#[test]
fn import_config_carries_urls_and_strategy() {
    let mut config = defaults();
    config.importer_impl = String::from("QUERY");
    let job = ImportConfig::new(
        &config,
        String::from("public"),
        String::from("table1"),
        String::from("id < 10"),
    );
    assert_eq!(job.schema, "public");
    assert_eq!(job.table, "table1");
    assert_eq!(job.where_clause, "id < 10");
    assert_eq!(job.source_db_url, get_source_db_url(&config));
    assert_eq!(job.target_db_url, get_target_db_url(&config));
    assert!(job.uses_query_importer());

    let copy_job = ImportConfig::new(
        &defaults(),
        String::from("public"),
        String::from("table1"),
        String::new(),
    );
    assert!(!copy_job.uses_query_importer());
}

#[test]
fn batch_placeholder_filter_means_no_filter() {
    assert_eq!(checked_where_clause("~"), "");
    assert_eq!(checked_where_clause("age > 30"), "age > 30");
    assert_eq!(checked_where_clause(""), "");
}

#[test]
fn schema_import_expands_to_one_request_per_table() {
    let import = SchemaImport {
        schema: String::from("public"),
        tables: vec![String::from("a"), String::from("b")],
        where_clause: Some(String::from("~")),
        truncate: Some(true),
        cascade: None,
    };
    let requests = import.table_requests();
    assert_eq!(requests.len(), 2);
    assert_eq!(requests[0].schema, "public");
    assert_eq!(requests[0].table, "a");
    assert_eq!(requests[0].where_clause, "");
    assert!(requests[0].truncate);
    assert_eq!(requests[1].table, "b");

    let plain = SchemaImport {
        schema: String::from("s"),
        tables: vec![String::from("t")],
        where_clause: None,
        truncate: None,
        cascade: None,
    };
    let requests = plain.table_requests();
    assert_eq!(requests.len(), 1);
    assert_eq!(requests[0].where_clause, "");
    assert!(!requests[0].truncate);
}

#[test]
fn populate_properties_takes_urls_from_environment() {
    let mut env = no_env();
    env.source = Some(String::from("u:p@srv:9999/mydb"));
    let config = populate_properties(&no_cli(), &env).unwrap();
    assert_eq!(config.source.user, "u");
    assert_eq!(config.source.host, "srv");
    assert_eq!(config.source.port, "9999");
    assert_eq!(config.source.dbname, "mydb");
    assert_eq!(config.target.port, "5555");
}
