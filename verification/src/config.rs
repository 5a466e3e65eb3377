//! Resolved configuration: connection descriptors, the per-table import
//! descriptor, and the rule that picks each setting from the command line
//! first, the environment second, and a built-in default last.

use vstd::prelude::*;
use vstd::pervasive::unreached;
use vstd::string::StrSliceExecFns;
use vstd::string::StringExecFns;

use crate::text::{find_char, first_pos, lemma_first_pos};

verus! {

// Default connection URLs, in `user:pass@host:port/dbname` form.
pub const SOURCE_DB_CONNECTION: &'static str = "postgres:postgres@localhost:5432/postgres";

pub const TARGET_DB_CONNECTION: &'static str = "postgres:postgres@localhost:5555/postgres";

// Other default configuration values.
pub const DEFAULT_MAX_THREADS: i64 = 8;

pub const DEFAULT_ROWS_FOR_INSERT: i64 = 10000;

pub const DEFAULT_ROWS_FOR_SELECT: i64 = 50000;

pub const ERROR_LOG_ENABLED_BY_DEFAULT: bool = false;

pub const DEFAULT_IMPORTER_IMPL: &'static str = "COPY";

/// Why a configuration could not be resolved.
#[derive(Clone, Copy, PartialEq, Eq, Structural, Debug)]
pub enum ConfigError {
    /// A connection URL did not have the `user[:pass]@host:port[/dbname]`
    /// shape.
    InvalidConnectionUrl,
}

/// The parts of one database connection URL.
#[derive(PartialEq, Eq, Hash, Debug, Clone)]
pub struct ConnectionParams {
    pub user: String,
    pub pass: String,
    pub host: String,
    pub port: String,
    pub dbname: String,
}

/// Everything one table copy needs to know, fixed before any worker starts
/// and never changed afterwards.
pub struct ImportConfig {
    pub schema: String,
    pub table: String,
    pub where_clause: String,
    pub source_db_url: String,
    pub target_db_url: String,
    pub importer_impl: String,
}

/// One resolved configuration setting.
#[derive(PartialEq, Eq, Hash, Debug)]
pub enum ConfigProperty {
    SourceDBConnection(ConnectionParams),
    TargetDBConnection(ConnectionParams),
    MaxThreads(i64),
    RowsToExecuteInsert(i64),
    RowsToExecuteSelect(i64),
    ErrorLogEnabled(bool),
    ImporterImplementation(String),
    BatchFileName(String),
}

/// Names one setting, for looking up its resolved value.
#[derive(Clone, Copy, PartialEq, Eq, Structural, Debug)]
pub enum ConfigKey {
    Source,
    Target,
    MaxThreads,
    RowsInsert,
    RowsSelect,
    ErrorLog,
    ImporterImpl,
    BatchFilename,
}

/// The whole resolved configuration.
pub struct ConfigProperties {
    pub source: ConnectionParams,
    pub target: ConnectionParams,
    pub max_threads: i64,
    pub rows_insert: i64,
    pub rows_select: i64,
    pub error_log: bool,
    pub importer_impl: String,
    pub batch_filename: String,
}

/// Settings given on the command line; `None` where the flag was absent.
pub struct CommandLineOptions {
    pub source: Option<String>,
    pub target: Option<String>,
    pub max_threads: Option<i64>,
    pub rows_insert: Option<i64>,
    pub rows_select: Option<i64>,
    pub error_log: Option<bool>,
    pub importer_impl: Option<String>,
    pub batch_filename: Option<String>,
}

/// Settings read from environment variables, already brought to their types;
/// `None` where the variable was absent.
pub struct EnvOptions {
    pub source: Option<String>,
    pub target: Option<String>,
    pub max_threads: Option<i64>,
    pub rows_insert: Option<i64>,
    pub rows_select: Option<i64>,
    pub error_log: Option<bool>,
    pub importer_impl: Option<String>,
    pub batch_filename: Option<String>,
}

/// Splits a connection URL of the shape `user[:pass]@host:port[/dbname]`
/// into its five parts, or `None` where the shape is not met. The split is
/// taken at the first `@` of the URL, at the first `:` before it, at the
/// first `:` after it, and at the first `/` after that; user, password (when
/// a `:` is present), host and port must be nonempty, the database name may
/// be absent or empty.
pub open spec fn parse_conn_url(s: Seq<char>) -> Option<
    (Seq<char>, Seq<char>, Seq<char>, Seq<char>, Seq<char>),
> {
    match first_pos(s, '@') {
        None => None,
        Some(at) => {
            let before = s.subrange(0, at);
            let after = s.subrange(at + 1, s.len() as int);
            let user = match first_pos(before, ':') {
                None => before,
                Some(c) => before.subrange(0, c),
            };
            let pass = match first_pos(before, ':') {
                None => Seq::<char>::empty(),
                Some(c) => before.subrange(c + 1, before.len() as int),
            };
            match first_pos(after, ':') {
                None => None,
                Some(c2) => {
                    let host = after.subrange(0, c2);
                    let rest = after.subrange(c2 + 1, after.len() as int);
                    let port = match first_pos(rest, '/') {
                        None => rest,
                        Some(sl) => rest.subrange(0, sl),
                    };
                    let dbname = match first_pos(rest, '/') {
                        None => Seq::<char>::empty(),
                        Some(sl) => rest.subrange(sl + 1, rest.len() as int),
                    };
                    if user.len() == 0 || (first_pos(before, ':') is Some && pass.len() == 0)
                        || host.len() == 0 || port.len() == 0 {
                        None
                    } else {
                        Some((user, pass, host, port, dbname))
                    }
                },
            }
        },
    }
}

/// The parts equal what parsing the URL yields.
pub open spec fn params_match_url(p: ConnectionParams, s: Seq<char>) -> bool {
    match parse_conn_url(s) {
        Some(t) => p.user@ == t.0 && p.pass@ == t.1 && p.host@ == t.2 && p.port@ == t.3
            && p.dbname@ == t.4,
        None => false,
    }
}

impl ConnectionParams {
    /// Parses a connection URL of the shape `user[:pass]@host:port[/dbname]`.
    pub fn from_str(s: &str) -> (r: Result<ConnectionParams, ConfigError>)
        ensures
            r is Ok <==> parse_conn_url(s@) is Some,
            r is Ok ==> params_match_url(r->Ok_0, s@),
    {
        let n: usize = s.unicode_len();
        let at: usize = match find_char(s, '@') {
            Some(a) => a,
            None => {
                return Err(ConfigError::InvalidConnectionUrl);
            },
        };
        proof {
            lemma_first_pos(s@, '@');
        }
        let before: &str = s.substring_char(0, at);
        let after: &str = s.substring_char(at + 1, n);
        let had_colon: bool;
        let user: String;
        let pass: String;
        match find_char(before, ':') {
            None => {
                had_colon = false;
                user = before.to_owned();
                pass = String::new();
            },
            Some(c) => {
                proof {
                    lemma_first_pos(before@, ':');
                }
                had_colon = true;
                user = before.substring_char(0, c).to_owned();
                pass = before.substring_char(c + 1, before.unicode_len()).to_owned();
            },
        }
        let c2: usize = match find_char(after, ':') {
            Some(c2) => c2,
            None => {
                return Err(ConfigError::InvalidConnectionUrl);
            },
        };
        proof {
            lemma_first_pos(after@, ':');
        }
        let host: String = after.substring_char(0, c2).to_owned();
        let rest: &str = after.substring_char(c2 + 1, after.unicode_len());
        let port: String;
        let dbname: String;
        match find_char(rest, '/') {
            None => {
                port = rest.to_owned();
                dbname = String::new();
            },
            Some(sl) => {
                proof {
                    lemma_first_pos(rest@, '/');
                }
                port = rest.substring_char(0, sl).to_owned();
                dbname = rest.substring_char(sl + 1, rest.unicode_len()).to_owned();
            },
        }
        if user.as_str().is_empty() || (had_colon && pass.as_str().is_empty())
            || host.as_str().is_empty() || port.as_str().is_empty() {
            Err(ConfigError::InvalidConnectionUrl)
        } else {
            Ok(ConnectionParams { user, pass, host, port, dbname })
        }
    }
}

/// The driver-parameter line handed to the database driver, with the
/// password replaced when it is to be hidden.
pub open spec fn spec_driver_params(p: ConnectionParams, hide_pass: bool) -> Seq<char> {
    "host='"@ + p.host@ + "' port='"@ + p.port@ + "' dbname='"@ + p.dbname@ + "' user='"@ + p.user@
        + "' password='"@ + (if hide_pass {
        "**HIDDEN**"@
    } else {
        p.pass@
    }) + "'"@
}

/// Renders connection parameters as the driver-parameter line.
fn to_postgres_driver_params(connection_params: &ConnectionParams, hide_pass: bool) -> (r: String)
    ensures
        r@ == spec_driver_params(*connection_params, hide_pass),
{
    let mut r = String::from_str("host='");
    r.append(connection_params.host.as_str());
    r.append("' port='");
    r.append(connection_params.port.as_str());
    r.append("' dbname='");
    r.append(connection_params.dbname.as_str());
    r.append("' user='");
    r.append(connection_params.user.as_str());
    r.append("' password='");
    if hide_pass {
        r.append("**HIDDEN**");
    } else {
        r.append(connection_params.pass.as_str());
    }
    r.append("'");
    proof {
        assert(r@ =~= spec_driver_params(*connection_params, hide_pass));
    }
    r
}

/// The source database's driver-parameter line.
pub fn get_source_db_url(properties: &ConfigProperties) -> (r: String)
    ensures
        r@ == spec_driver_params(properties.source, false),
{
    get_source_db_url_with_hiding(properties, false)
}

/// The target database's driver-parameter line.
pub fn get_target_db_url(properties: &ConfigProperties) -> (r: String)
    ensures
        r@ == spec_driver_params(properties.target, false),
{
    get_target_db_url_with_hiding(properties, false)
}

/// The source database's driver-parameter line, optionally hiding the
/// password for display.
pub fn get_source_db_url_with_hiding(properties: &ConfigProperties, hide_pass: bool) -> (r: String)
    ensures
        r@ == spec_driver_params(properties.source, hide_pass),
{
    to_postgres_driver_params(&properties.source, hide_pass)
}

/// The target database's driver-parameter line, optionally hiding the
/// password for display.
pub fn get_target_db_url_with_hiding(properties: &ConfigProperties, hide_pass: bool) -> (r: String)
    ensures
        r@ == spec_driver_params(properties.target, hide_pass),
{
    to_postgres_driver_params(&properties.target, hide_pass)
}

/// The value a setting resolves to: the command line wins, the environment
/// comes second, the default last.
pub open spec fn spec_chosen<T>(cli: Option<T>, env: Option<T>, default: T) -> T {
    if cli is Some {
        cli.unwrap()
    } else if env is Some {
        env.unwrap()
    } else {
        default
    }
}

/// Text of the string setting that wins the priority order.
pub open spec fn spec_chosen_str(cli: Option<String>, env: Option<String>, default: Seq<
    char,
>) -> Seq<char> {
    if cli is Some {
        cli.unwrap()@
    } else if env is Some {
        env.unwrap()@
    } else {
        default
    }
}

/// Picks a setting's value by priority: command line, then environment, then
/// the default.
pub fn get_value_from<T>(command_line_param: Option<T>, env_value: Option<T>, default: T) -> (r: T)
    ensures
        r == spec_chosen(command_line_param, env_value, default),
{
    match command_line_param {
        Some(v) => v,
        None => match env_value {
            Some(v) => v,
            None => default,
        },
    }
}

/// Picks a string setting's value by priority, cloning the winner.
fn chosen_string(cli: &Option<String>, env: &Option<String>, default: &str) -> (r: String)
    ensures
        r@ == spec_chosen_str(*cli, *env, default@),
{
    match cli {
        Some(v) => v.clone(),
        None => match env {
            Some(v) => v.clone(),
            None => String::from_str(default),
        },
    }
}

/// Parses the connection URL that wins the priority order for one of the two
/// databases.
pub fn parse_connection_params_from(
    command_line_param: &Option<String>,
    env_value: &Option<String>,
    default_url: &str,
) -> (r: Result<ConnectionParams, ConfigError>)
    ensures
        r is Ok <==> parse_conn_url(
            spec_chosen_str(*command_line_param, *env_value, default_url@),
        ) is Some,
        r is Ok ==> params_match_url(
            r->Ok_0,
            spec_chosen_str(*command_line_param, *env_value, default_url@),
        ),
{
    let url = chosen_string(command_line_param, env_value, default_url);
    ConnectionParams::from_str(url.as_str())
}

/// Resolves the setting `key` names, by the priority order. Only the two
/// connection settings can fail, on a malformed URL.
pub fn get_most_prioritary_value(key: ConfigKey, opts: &CommandLineOptions, env: &EnvOptions) -> (r:
    Result<ConfigProperty, ConfigError>)
    ensures
        key is Source ==> ({
            &&& r is Ok <==> parse_conn_url(
                spec_chosen_str(opts.source, env.source, SOURCE_DB_CONNECTION@),
            ) is Some
            &&& r is Ok ==> r->Ok_0 is SourceDBConnection && params_match_url(
                r->Ok_0->SourceDBConnection_0,
                spec_chosen_str(opts.source, env.source, SOURCE_DB_CONNECTION@),
            )
        }),
        key is Target ==> ({
            &&& r is Ok <==> parse_conn_url(
                spec_chosen_str(opts.target, env.target, TARGET_DB_CONNECTION@),
            ) is Some
            &&& r is Ok ==> r->Ok_0 is TargetDBConnection && params_match_url(
                r->Ok_0->TargetDBConnection_0,
                spec_chosen_str(opts.target, env.target, TARGET_DB_CONNECTION@),
            )
        }),
        key is MaxThreads ==> r == Ok::<ConfigProperty, ConfigError>(
            ConfigProperty::MaxThreads(
                spec_chosen(opts.max_threads, env.max_threads, DEFAULT_MAX_THREADS),
            ),
        ),
        key is RowsInsert ==> r == Ok::<ConfigProperty, ConfigError>(
            ConfigProperty::RowsToExecuteInsert(
                spec_chosen(opts.rows_insert, env.rows_insert, DEFAULT_ROWS_FOR_INSERT),
            ),
        ),
        key is RowsSelect ==> r == Ok::<ConfigProperty, ConfigError>(
            ConfigProperty::RowsToExecuteSelect(
                spec_chosen(opts.rows_select, env.rows_select, DEFAULT_ROWS_FOR_SELECT),
            ),
        ),
        key is ErrorLog ==> r == Ok::<ConfigProperty, ConfigError>(
            ConfigProperty::ErrorLogEnabled(
                spec_chosen(opts.error_log, env.error_log, ERROR_LOG_ENABLED_BY_DEFAULT),
            ),
        ),
        key is ImporterImpl ==> ({
            &&& r is Ok
            &&& r->Ok_0 is ImporterImplementation
            &&& r->Ok_0->ImporterImplementation_0@ == spec_chosen_str(
                opts.importer_impl,
                env.importer_impl,
                DEFAULT_IMPORTER_IMPL@,
            )
        }),
        key is BatchFilename ==> ({
            &&& r is Ok
            &&& r->Ok_0 is BatchFileName
            &&& r->Ok_0->BatchFileName_0@ == spec_chosen_str(
                opts.batch_filename,
                env.batch_filename,
                ""@,
            )
        }),
{
    match key {
        ConfigKey::Source => {
            let params = parse_connection_params_from(&opts.source, &env.source,
                SOURCE_DB_CONNECTION)?;
            Ok(ConfigProperty::SourceDBConnection(params))
        },
        ConfigKey::Target => {
            let params = parse_connection_params_from(&opts.target, &env.target,
                TARGET_DB_CONNECTION)?;
            Ok(ConfigProperty::TargetDBConnection(params))
        },
        ConfigKey::MaxThreads => Ok(
            ConfigProperty::MaxThreads(
                get_value_from(opts.max_threads, env.max_threads, DEFAULT_MAX_THREADS),
            ),
        ),
        ConfigKey::RowsInsert => Ok(
            ConfigProperty::RowsToExecuteInsert(
                get_value_from(opts.rows_insert, env.rows_insert, DEFAULT_ROWS_FOR_INSERT),
            ),
        ),
        ConfigKey::RowsSelect => Ok(
            ConfigProperty::RowsToExecuteSelect(
                get_value_from(opts.rows_select, env.rows_select, DEFAULT_ROWS_FOR_SELECT),
            ),
        ),
        ConfigKey::ErrorLog => Ok(
            ConfigProperty::ErrorLogEnabled(
                get_value_from(opts.error_log, env.error_log, ERROR_LOG_ENABLED_BY_DEFAULT),
            ),
        ),
        ConfigKey::ImporterImpl => Ok(
            ConfigProperty::ImporterImplementation(
                chosen_string(&opts.importer_impl, &env.importer_impl, DEFAULT_IMPORTER_IMPL),
            ),
        ),
        ConfigKey::BatchFilename => Ok(
            ConfigProperty::BatchFileName(
                chosen_string(&opts.batch_filename, &env.batch_filename, ""),
            ),
        ),
    }
}

/// Resolves the whole configuration: every setting by the priority order.
/// Fails exactly when the winning source or target connection URL is
/// malformed.
pub fn populate_properties(opts: &CommandLineOptions, env: &EnvOptions) -> (r: Result<
    ConfigProperties,
    ConfigError,
>)
    ensures
        r is Ok <==> (parse_conn_url(
            spec_chosen_str(opts.source, env.source, SOURCE_DB_CONNECTION@),
        ) is Some && parse_conn_url(
            spec_chosen_str(opts.target, env.target, TARGET_DB_CONNECTION@),
        ) is Some),
        r is Ok ==> ({
            let p = r->Ok_0;
            &&& params_match_url(
                p.source,
                spec_chosen_str(opts.source, env.source, SOURCE_DB_CONNECTION@),
            )
            &&& params_match_url(
                p.target,
                spec_chosen_str(opts.target, env.target, TARGET_DB_CONNECTION@),
            )
            &&& p.max_threads == spec_chosen(opts.max_threads, env.max_threads, DEFAULT_MAX_THREADS)
            &&& p.rows_insert == spec_chosen(
                opts.rows_insert,
                env.rows_insert,
                DEFAULT_ROWS_FOR_INSERT,
            )
            &&& p.rows_select == spec_chosen(
                opts.rows_select,
                env.rows_select,
                DEFAULT_ROWS_FOR_SELECT,
            )
            &&& p.error_log == spec_chosen(opts.error_log, env.error_log,
                ERROR_LOG_ENABLED_BY_DEFAULT)
            &&& p.importer_impl@ == spec_chosen_str(
                opts.importer_impl,
                env.importer_impl,
                DEFAULT_IMPORTER_IMPL@,
            )
            &&& p.batch_filename@ == spec_chosen_str(opts.batch_filename, env.batch_filename, ""@)
        }),
{
    let source = match get_most_prioritary_value(ConfigKey::Source, opts, env) {
        Ok(ConfigProperty::SourceDBConnection(c)) => c,
        Ok(_) => unreached(),
        Err(e) => {
            return Err(e);
        },
    };
    let target = match get_most_prioritary_value(ConfigKey::Target, opts, env) {
        Ok(ConfigProperty::TargetDBConnection(c)) => c,
        Ok(_) => unreached(),
        Err(e) => {
            return Err(e);
        },
    };
    let max_threads = match get_most_prioritary_value(ConfigKey::MaxThreads, opts, env) {
        Ok(ConfigProperty::MaxThreads(t)) => t,
        _ => unreached(),
    };
    let rows_insert = match get_most_prioritary_value(ConfigKey::RowsInsert, opts, env) {
        Ok(ConfigProperty::RowsToExecuteInsert(v)) => v,
        _ => unreached(),
    };
    let rows_select = match get_most_prioritary_value(ConfigKey::RowsSelect, opts, env) {
        Ok(ConfigProperty::RowsToExecuteSelect(v)) => v,
        _ => unreached(),
    };
    let error_log = match get_most_prioritary_value(ConfigKey::ErrorLog, opts, env) {
        Ok(ConfigProperty::ErrorLogEnabled(v)) => v,
        _ => unreached(),
    };
    let importer_impl = match get_most_prioritary_value(ConfigKey::ImporterImpl, opts, env) {
        Ok(ConfigProperty::ImporterImplementation(v)) => v,
        _ => unreached(),
    };
    let batch_filename = match get_most_prioritary_value(ConfigKey::BatchFilename, opts, env) {
        Ok(ConfigProperty::BatchFileName(v)) => v,
        _ => unreached(),
    };
    Ok(
        ConfigProperties {
            source,
            target,
            max_threads,
            rows_insert,
            rows_select,
            error_log,
            importer_impl,
            batch_filename,
        },
    )
}

impl ImportConfig {
    /// Builds the immutable per-table descriptor all workers share: names,
    /// filter, the two driver-parameter lines, and the chosen strategy.
    pub fn new(properties: &ConfigProperties, schema: String, table: String, where_clause: String)
        -> (r: ImportConfig)
        ensures
            r.schema@ == schema@,
            r.table@ == table@,
            r.where_clause@ == where_clause@,
            r.source_db_url@ == spec_driver_params(properties.source, false),
            r.target_db_url@ == spec_driver_params(properties.target, false),
            r.importer_impl@ == properties.importer_impl@,
    {
        let source_db_url = get_source_db_url(properties);
        let target_db_url = get_target_db_url(properties);
        let importer_impl = properties.importer_impl.clone();
        ImportConfig { schema, table, where_clause, source_db_url, target_db_url, importer_impl }
    }

    /// True when the job picked the transcoding strategy; any other strategy
    /// name means the bulk stream, the default.
    pub fn uses_query_importer(&self) -> (r: bool)
        ensures
            r == (self.importer_impl@ == "QUERY"@),
    {
        let query_name = String::from_str("QUERY");
        self.importer_impl == query_name
    }
}

} // verus!
