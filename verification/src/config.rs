//! Configuration: its sections, their defaults and the rules a loaded
//! configuration must satisfy.
use vstd::prelude::*;
use crate::storage::{join_path, joined_path};
use crate::error::AppError;
use crate::net::{dec_octet, digits_value, ip_is_loopback, ipv4_octets, is_loopback_ip, lemma_split_without_separator, split_on};
use crate::text::{ascii_lower, ascii_lowercase, concat, eq_ignore_ascii_case, is_blank, str_eq_ignore_ascii_case, trim};

verus! {

/// The smallest accepted Argon2 memory cost, in KiB.
pub const MIN_ARGON2_MEMORY_KB: u32 = 65536;
/// The smallest accepted Argon2 time cost.
pub const MIN_ARGON2_TIME_COST: u32 = 3;
/// The smallest accepted Argon2 parallelism.
pub const MIN_ARGON2_PARALLELISM: u32 = 1;

/// The whole configuration.
#[derive(Debug, Clone, PartialEq, Eq)]
pub struct Config {
    pub general: GeneralConfig,
    pub server: ServerConfig,
    pub security: SecurityConfig,
    pub crypto: CryptoConfig,
    pub storage: StorageConfig,
    pub cli: CliConfig,
}

/// Where data lives and how the service logs.
#[derive(Debug, Clone, PartialEq, Eq)]
pub struct GeneralConfig {
    pub data_dir: String,
    pub database_path: String,
    pub log_level: String,
    pub enable_file_logging: bool,
}

/// The address the HTTP API listens on and its request timeout.
#[derive(Debug, Clone, PartialEq, Eq)]
pub struct ServerConfig {
    pub host: String,
    pub port: u16,
    pub request_timeout_secs: u64,
}

/// Authentication settings.
#[derive(Debug, Clone, PartialEq, Eq)]
pub struct SecurityConfig {
    pub token_header: String,
    pub lock_timeout_secs: u64,
    pub max_failed_attempts: u32,
    pub min_master_password_length: u32,
}

/// Key-derivation costs and which optional fields are encrypted.
#[derive(Debug, Clone, PartialEq, Eq)]
pub struct CryptoConfig {
    pub argon2_memory_kb: u32,
    pub argon2_time_cost: u32,
    pub argon2_parallelism: u32,
    pub encrypt_notes: bool,
    pub encrypt_custom_fields: bool,
}

/// Database maintenance settings.
#[derive(Debug, Clone, PartialEq, Eq)]
pub struct StorageConfig {
    pub auto_migrate: bool,
    pub create_backup_before_write: bool,
    pub max_backups: u32,
    /// How long SQLite waits on a locked database, in milliseconds.
    pub sqlite_busy_timeout_ms: u64,
}

/// Command-line presentation settings.
#[derive(Debug, Clone, PartialEq, Eq)]
pub struct CliConfig {
    pub output_format: String,
    pub interactive: bool,
}

/// Values given on the command line that take precedence over the file.
#[derive(Debug, Clone, PartialEq, Eq)]
pub struct ConfigOverrides {
    pub host: Option<String>,
    pub port: Option<u16>,
}

impl Default for GeneralConfig {
    fn default() -> (r: Self)
        ensures
            r.data_dir@ == "./data"@,
            r.database_path@ == "./data/secrets.db"@,
            r.log_level@ == "info"@,
            r.enable_file_logging,
    {
        GeneralConfig {
            data_dir: String::from_str("./data"),
            database_path: String::from_str("./data/secrets.db"),
            log_level: String::from_str("info"),
            enable_file_logging: true,
        }
    }
}

impl Default for ServerConfig {
    fn default() -> (r: Self)
        ensures
            r.host@ == "127.0.0.1"@,
            r.port == 3765,
            r.request_timeout_secs == 30,
    {
        ServerConfig { host: String::from_str("127.0.0.1"), port: 3765, request_timeout_secs: 30 }
    }
}

impl Default for SecurityConfig {
    fn default() -> (r: Self)
        ensures
            r.token_header@ == "Authorization"@,
            r.lock_timeout_secs == 300,
            r.max_failed_attempts == 5,
            r.min_master_password_length == 12,
    {
        SecurityConfig {
            token_header: String::from_str("Authorization"),
            lock_timeout_secs: 300,
            max_failed_attempts: 5,
            min_master_password_length: 12,
        }
    }
}

impl Default for CryptoConfig {
    fn default() -> (r: Self)
        ensures
            r.argon2_memory_kb == 65536,
            r.argon2_time_cost == 3,
            r.argon2_parallelism == 4,
            r.encrypt_notes,
            r.encrypt_custom_fields,
    {
        CryptoConfig {
            argon2_memory_kb: 65536,
            argon2_time_cost: 3,
            argon2_parallelism: 4,
            encrypt_notes: true,
            encrypt_custom_fields: true,
        }
    }
}

impl Default for StorageConfig {
    fn default() -> (r: Self)
        ensures
            r.auto_migrate,
            r.create_backup_before_write,
            r.max_backups == 10,
            r.sqlite_busy_timeout_ms == 5000,
    {
        StorageConfig {
            auto_migrate: true,
            create_backup_before_write: true,
            max_backups: 10,
            sqlite_busy_timeout_ms: 5000,
        }
    }
}

impl Default for CliConfig {
    fn default() -> (r: Self)
        ensures
            r.output_format@ == "table"@,
            r.interactive,
    {
        CliConfig { output_format: String::from_str("table"), interactive: true }
    }
}

/// The configuration every section of which has its default values.
pub open spec fn is_default_config(c: Config) -> bool {
    &&& c.general.data_dir@ == "./data"@
    &&& c.general.database_path@ == "./data/secrets.db"@
    &&& c.general.log_level@ == "info"@
    &&& c.general.enable_file_logging
    &&& c.server.host@ == "127.0.0.1"@
    &&& c.server.port == 3765
    &&& c.server.request_timeout_secs == 30
    &&& c.security.token_header@ == "Authorization"@
    &&& c.security.lock_timeout_secs == 300
    &&& c.security.max_failed_attempts == 5
    &&& c.security.min_master_password_length == 12
    &&& c.crypto.argon2_memory_kb == 65536
    &&& c.crypto.argon2_time_cost == 3
    &&& c.crypto.argon2_parallelism == 4
    &&& c.crypto.encrypt_notes
    &&& c.crypto.encrypt_custom_fields
    &&& c.storage.auto_migrate
    &&& c.storage.create_backup_before_write
    &&& c.storage.max_backups == 10
    &&& c.storage.sqlite_busy_timeout_ms == 5000
    &&& c.cli.output_format@ == "table"@
    &&& c.cli.interactive
}

impl Default for Config {
    fn default() -> (r: Self)
        ensures
            is_default_config(r),
    {
        Config {
            general: GeneralConfig::default(),
            server: ServerConfig::default(),
            security: SecurityConfig::default(),
            crypto: CryptoConfig::default(),
            storage: StorageConfig::default(),
            cli: CliConfig::default(),
        }
    }
}

impl Default for ConfigOverrides {
    fn default() -> (r: Self)
        ensures
            r.host is None,
            r.port is None,
    {
        ConfigOverrides { host: None, port: None }
    }
}

/// `host` names this machine: `localhost` in any letter case, or a
/// loopback IP address.
pub open spec fn is_loopback_host(host: Seq<char>) -> bool {
    eq_ignore_ascii_case(host, "localhost"@) || is_loopback_ip(host)
}

/// `localhost`, in any letter case, holds no dot.
proof fn lemma_localhost_has_no_dot(host: Seq<char>, i: int)
    requires
        eq_ignore_ascii_case(host, "localhost"@),
        0 <= i < host.len(),
    ensures
        host[i] != '.',
{
    reveal_strlit("localhost");
    let l = "localhost"@;
    assert(ascii_lowercase(host).len() == host.len());
    assert(ascii_lowercase(host)[i] == ascii_lower(host[i]));
    assert(ascii_lowercase(l)[i] == ascii_lower(l[i]));
    assert(l[i] != '.' && ascii_lower(l[i]) != '.');
}

/// A host written as a dotted-decimal IPv4 address names this machine
/// exactly when its first octet is 127 (the block `127.0.0.0/8`, as
/// `IpAddr::is_loopback` has it).
pub proof fn lemma_ipv4_host_loopback(host: Seq<char>)
    ensures
        ipv4_octets(host) matches Some(o) ==> (is_loopback_host(host) <==> o[0] == 127),
{
    if ipv4_octets(host) is Some && eq_ignore_ascii_case(host, "localhost"@) {
        assert forall|i: int| 0 <= i < host.len() implies host[i] != '.' by {
            lemma_localhost_has_no_dot(host, i);
        }
        lemma_split_without_separator(host, '.');
    }
}

/// A configuration whose server host is an IPv4 address outside
/// `127.0.0.0/8` is refused, and the refusal names the host.
pub proof fn lemma_lan_host_refused(c: Config)
    requires
        ipv4_octets(c.server.host@) matches Some(o) && o[0] != 127,
    ensures
        validation_failure(c) == Some("server.host must be a loopback address, got "@ + c.server.host@),
{
    lemma_ipv4_host_loopback(c.server.host@);
}

/// The message of the first rule that `c` breaks, if it breaks one.
pub open spec fn validation_failure(c: Config) -> Option<Seq<char>> {
    if !is_loopback_host(c.server.host@) {
        Some("server.host must be a loopback address, got "@ + c.server.host@)
    } else if c.server.request_timeout_secs == 0 {
        Some("server.request_timeout_secs must be greater than 0"@)
    } else if c.security.lock_timeout_secs == 0 {
        Some("security.lock_timeout_secs must be greater than 0"@)
    } else if c.crypto.argon2_memory_kb < MIN_ARGON2_MEMORY_KB {
        Some("crypto.argon2_memory_kb must be at least 65536"@)
    } else if c.crypto.argon2_time_cost < MIN_ARGON2_TIME_COST {
        Some("crypto.argon2_time_cost must be at least 3"@)
    } else if c.crypto.argon2_parallelism < MIN_ARGON2_PARALLELISM {
        Some("crypto.argon2_parallelism must be at least 1"@)
    } else if trim(c.general.data_dir@).len() == 0 {
        Some("general.data_dir must not be empty"@)
    } else if trim(c.general.database_path@).len() == 0 {
        Some("general.database_path must not be empty"@)
    } else {
        None
    }
}

/// The default configuration passes validation.
pub proof fn lemma_default_config_valid(c: Config)
    requires
        is_default_config(c),
    ensures
        validation_failure(c) is None,
{
    reveal_strlit("127.0.0.1");
    reveal_strlit("./data");
    reveal_strlit("./data/secrets.db");
    let host = seq!['1', '2', '7', '.', '0', '.', '0', '.', '1'];
    assert(c.server.host@ =~= host);
    let parts = seq![seq!['1', '2', '7'], seq!['0'], seq!['0'], seq!['1']];
    assert(split_on(host, '.') == parts) by {
        reveal_with_fuel(split_on, 10);
        assert(host.drop_last() =~= seq!['1', '2', '7', '.', '0', '.', '0', '.']);
        assert(host.drop_last().drop_last() =~= seq!['1', '2', '7', '.', '0', '.', '0']);
        assert(host.drop_last().drop_last().drop_last() =~= seq!['1', '2', '7', '.', '0', '.']);
        assert(host.drop_last().drop_last().drop_last().drop_last() =~= seq!['1', '2', '7', '.', '0']);
        assert(host.drop_last().drop_last().drop_last().drop_last().drop_last() =~= seq!['1', '2', '7', '.']);
        assert(host.drop_last().drop_last().drop_last().drop_last().drop_last().drop_last() =~= seq!['1', '2', '7']);
        assert(seq!['1', '2', '7'].drop_last() =~= seq!['1', '2']);
        assert(seq!['1', '2'].drop_last() =~= seq!['1']);
        assert(seq!['1'].drop_last() =~= Seq::<char>::empty());
        assert(split_on(seq!['1'], '.') =~= seq![seq!['1']]);
        assert(seq!['1'].push('2') =~= seq!['1', '2']);
        assert(split_on(seq!['1', '2'], '.') =~= seq![seq!['1', '2']]);
        assert(seq!['1', '2'].push('7') =~= seq!['1', '2', '7']);
        assert(split_on(seq!['1', '2', '7'], '.') =~= seq![seq!['1', '2', '7']]);
        assert(Seq::<char>::empty().push('0') =~= seq!['0']);
        assert(Seq::<char>::empty().push('1') =~= seq!['1']);
        assert(split_on(seq!['1', '2', '7', '.'], '.') =~= seq![seq!['1', '2', '7'], Seq::<char>::empty()]);
        assert(split_on(seq!['1', '2', '7', '.', '0'], '.') =~= seq![seq!['1', '2', '7'], seq!['0']]);
        assert(split_on(seq!['1', '2', '7', '.', '0', '.'], '.') =~= seq![seq!['1', '2', '7'], seq!['0'], Seq::<char>::empty()]);
        assert(split_on(seq!['1', '2', '7', '.', '0', '.', '0'], '.') =~= seq![seq!['1', '2', '7'], seq!['0'], seq!['0']]);
        assert(split_on(seq!['1', '2', '7', '.', '0', '.', '0', '.'], '.') =~= seq![seq!['1', '2', '7'], seq!['0'], seq!['0'], Seq::<char>::empty()]);
        assert(split_on(host, '.') =~= parts);
    }
    assert(digits_value(seq!['1', '2', '7'], 10) == 127) by {
        reveal_with_fuel(digits_value, 4);
        assert(seq!['1', '2', '7'].drop_last() =~= seq!['1', '2']);
        assert(seq!['1', '2'].drop_last() =~= seq!['1']);
        assert(seq!['1'].drop_last() =~= Seq::<char>::empty());
    }
    assert(digits_value(seq!['0'], 10) == 0) by {
        reveal_with_fuel(digits_value, 2);
        assert(seq!['0'].drop_last() =~= Seq::<char>::empty());
    }
    assert(digits_value(seq!['1'], 10) == 1) by {
        reveal_with_fuel(digits_value, 2);
        assert(seq!['1'].drop_last() =~= Seq::<char>::empty());
    }
    assert(dec_octet(parts[0]) == Some(127u8));
    assert(dec_octet(parts[1]) == Some(0u8));
    assert(dec_octet(parts[3]) == Some(1u8));
    assert(is_loopback_ip(host));
    crate::text::lemma_trim_unpadded(c.general.data_dir@);
    crate::text::lemma_trim_unpadded(c.general.database_path@);
}

/// `res` is `Ok` exactly when `failure` is `None`, and otherwise a
/// validation error with that message.
pub open spec fn validation_result(res: Result<(), AppError>, failure: Option<Seq<char>>) -> bool {
    match failure {
        None => res is Ok,
        Some(m) => res matches Err(e) && e is Validation && e.message_view() == m,
    }
}

/// Checks that `host` names this machine.
pub fn validate_loopback_host(host: &str) -> (res: Result<(), AppError>)
    ensures
        validation_result(
            res,
            if is_loopback_host(host@) {
                None
            } else {
                Some("server.host must be a loopback address, got "@ + host@)
            },
        ),
{
    if str_eq_ignore_ascii_case(host, "localhost") {
        return Ok(());
    }
    if ip_is_loopback(host) {
        return Ok(());
    }
    Err(AppError::Validation(concat("server.host must be a loopback address, got ", host)))
}

impl Config {
    /// Checks the rules a configuration must satisfy, in a fixed order, and
    /// reports the first one broken.
    pub fn validate(&self) -> (res: Result<(), AppError>)
        ensures
            validation_result(res, validation_failure(*self)),
            ipv4_octets(self.server.host@) matches Some(o) ==> (o[0] != 127 ==> (res matches Err(e) && e is Validation
                && e.message_view() == "server.host must be a loopback address, got "@ + self.server.host@)),
    {
        proof {
            lemma_ipv4_host_loopback(self.server.host@);
        }
        validate_loopback_host(self.server.host.as_str())?;
        if self.server.request_timeout_secs == 0 {
            return Err(
                AppError::Validation(
                    String::from_str("server.request_timeout_secs must be greater than 0"),
                ),
            );
        }
        if self.security.lock_timeout_secs == 0 {
            return Err(
                AppError::Validation(
                    String::from_str("security.lock_timeout_secs must be greater than 0"),
                ),
            );
        }
        if self.crypto.argon2_memory_kb < MIN_ARGON2_MEMORY_KB {
            return Err(
                AppError::Validation(String::from_str("crypto.argon2_memory_kb must be at least 65536")),
            );
        }
        if self.crypto.argon2_time_cost < MIN_ARGON2_TIME_COST {
            return Err(
                AppError::Validation(String::from_str("crypto.argon2_time_cost must be at least 3")),
            );
        }
        if self.crypto.argon2_parallelism < MIN_ARGON2_PARALLELISM {
            return Err(
                AppError::Validation(String::from_str("crypto.argon2_parallelism must be at least 1")),
            );
        }
        if is_blank(self.general.data_dir.as_str()) {
            return Err(AppError::Validation(String::from_str("general.data_dir must not be empty")));
        }
        if is_blank(self.general.database_path.as_str()) {
            return Err(
                AppError::Validation(String::from_str("general.database_path must not be empty")),
            );
        }
        Ok(())
    }
}

/// `raw` with the command-line overrides put in place of its host and port.
pub open spec fn with_overrides(raw: Config, overrides: ConfigOverrides) -> Config {
    let host = match overrides.host {
        Some(h) => h,
        None => raw.server.host,
    };
    let port = match overrides.port {
        Some(p) => p,
        None => raw.server.port,
    };
    Config { server: ServerConfig { host, port, ..raw.server }, ..raw }
}

/// Finishes loading: `raw` is what the file and the environment gave; the
/// overrides take precedence, and the result must validate.
pub fn load(raw: Config, overrides: ConfigOverrides) -> (res: Result<Config, AppError>)
    ensures
        match res {
            Ok(c) => c == with_overrides(raw, overrides) && validation_failure(c) is None,
            Err(e) => validation_result(Err(e), validation_failure(with_overrides(raw, overrides)))
                && validation_failure(with_overrides(raw, overrides)) is Some,
        },
{
    let mut cfg = raw;
    if let Some(host) = overrides.host {
        cfg.server.host = host;
    }
    if let Some(port) = overrides.port {
        cfg.server.port = port;
    }
    match cfg.validate() {
        Ok(()) => Ok(cfg),
        Err(e) => Err(e),
    }
}

/// Whether the default configuration may be written where one may already
/// exist: refused, with a config error naming the place, when a file is
/// there and `force` is not set.
pub fn write_default(path_exists: bool, force: bool, path_display: &str) -> (res: Result<(), AppError>)
    ensures
        res is Ok <==> (!path_exists || force),
        res matches Err(e) ==> e is Config && e.message_view() == "config already exists at "@
            + path_display@,
{
    if path_exists && !force {
        return Err(AppError::Config(concat("config already exists at ", path_display)));
    }
    Ok(())
}

/// Whether the default configuration is to be written: only where no file
/// exists yet.
pub fn write_default_if_missing(path_exists: bool, path_display: &str) -> (res: Result<bool, AppError>)
    ensures
        res == Ok::<bool, AppError>(!path_exists),
{
    if path_exists {
        return Ok(false);
    }
    match write_default(path_exists, false, path_display) {
        Ok(()) => Ok(true),
        Err(e) => Err(e),
    }
}

/// Where the configuration is looked for under the system configuration
/// directory: `mia-secret/mia-secret.toml`.
pub fn preferred_config_path(config_dir: &str) -> (p: String)
    ensures
        p@ == joined_path(joined_path(config_dir@, "mia-secret"@), "mia-secret.toml"@),
{
    let d = join_path(config_dir, "mia-secret");
    join_path(d.as_str(), "mia-secret.toml")
}

/// Where the configuration is read from: the path given on the command
/// line; else `mia-secret.toml` in the working directory if it exists; else
/// the file in the user's configuration directory if it exists; else the
/// local name.
pub fn resolve_config_path(
    explicit: Option<String>,
    local_exists: bool,
    preferred: Option<String>,
    preferred_exists: bool,
) -> (r: String)
    ensures
        r@ == match explicit {
            Some(p) => p@,
            None => if local_exists {
                "mia-secret.toml"@
            } else {
                match preferred {
                    Some(p) => if preferred_exists {
                        p@
                    } else {
                        "mia-secret.toml"@
                    },
                    None => "mia-secret.toml"@,
                }
            },
        },
{
    if let Some(path) = explicit {
        return path;
    }
    if local_exists {
        return String::from_str("mia-secret.toml");
    }
    if let Some(p) = preferred {
        if preferred_exists {
            return p;
        }
    }
    String::from_str("mia-secret.toml")
}

} // verus!
