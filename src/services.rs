use vstd::prelude::*;
use crate::decimal::{all_digits, decimal_digits, decimal_text, digit_run, digits_value};
use crate::text::joined;

verus! {

/// What `char::to_uppercase` makes of one character (one or more characters).
pub uninterp spec fn char_upper_of(c: char) -> Seq<char>;

/// Relies on `char::to_uppercase`: the Unicode upper case of one character,
/// which depends on the character alone.
#[verifier::external_body]
fn char_to_upper(c: char) -> (r: String)
    ensures
        r@ == char_upper_of(c),
{
    c.to_uppercase().collect()
}

/// The errors of the shared services.
#[derive(Debug, Clone, PartialEq, Eq)]
pub enum CommonError {
    InvalidInput(String),
    /// A number that did not read, and the text it was read from.
    ParseError(String),
}

/// What `str::parse::<u16>` reads: an optional `+`, then decimal digits
/// worth at most 65535.
pub open spec fn port_value(s: Seq<char>) -> Option<u16> {
    let d = if s.len() > 0 && s[0] == '+' {
        s.skip(1)
    } else {
        s
    };
    if d.len() > 0 && all_digits(d) && digits_value(d) <= 65535 {
        Some(digits_value(d) as u16)
    } else {
        None
    }
}

/// Reads a port number as `str::parse::<u16>` does: an optional `+`, then
/// decimal digits and nothing else, at most 65535.
pub fn parse_port(s: &str) -> (r: Option<u16>)
    ensures
        r == port_value(s@),
{
    let n = s.unicode_len();
    let start: usize = if n > 0 && s.get_char(0) == '+' {
        1
    } else {
        0
    };
    let ghost d = if s@.len() > 0 && s@[0] == '+' {
        s@.skip(1)
    } else {
        s@
    };
    assert(d =~= s@.subrange(start as int, n as int));
    if n == start {
        return None;
    }
    match digit_run(s, start, n) {
        Some(v) => {
            if v <= 65535 {
                Some(v as u16)
            } else {
                None
            }
        },
        None => None,
    }
}

/// The errors of the service registry.
#[derive(Debug, Clone, PartialEq, Eq)]
pub enum DiError {
    ServiceNotFound(String),
    ServiceAlreadyRegistered(String),
}

/// The errors of the core service.
#[derive(Debug, Clone, PartialEq, Eq)]
pub enum CoreError {
    Common(CommonError),
    BusinessLogic(String),
}

/// `s` with its first character in upper case.
pub fn capitalize(s: &str) -> (r: String)
    ensures
        s@.len() == 0 ==> r@ == Seq::<char>::empty(),
        s@.len() > 0 ==> r@ == char_upper_of(s@[0]) + s@.skip(1),
{
    let n = s.unicode_len();
    if n == 0 {
        return String::new();
    }
    let mut r = char_to_upper(s.get_char(0));
    let rest = s.substring_char(1, n);
    r.append(rest);
    assert(s@.subrange(1, n as int) =~= s@.skip(1));
    r
}

/// Readies the shared services.
pub fn init() -> (r: Result<(), CommonError>)
    ensures
        r is Ok,
{
    Ok(())
}

pub struct User {
    pub id: u64,
    pub name: String,
    pub email: String,
}

/// The display name of the user with `id`.
pub open spec fn user_name(id: nat) -> Seq<char> {
    "User "@ + decimal_digits(id)
}

/// The address of the user with `id`.
pub open spec fn user_email(id: nat) -> Seq<char> {
    "user"@ + decimal_digits(id) + "@example.com"@
}

pub trait UserService {
    /// The user with `id`; id zero is no user.
    fn get_user(&self, id: u64) -> (r: Result<User, CommonError>)
        ensures
            id == 0 ==> r matches Err(CommonError::InvalidInput(_)),
            id != 0 ==> (r matches Ok(u) && u.id == id && u.name@ == user_name(id as nat) && u.email@
                == user_email(id as nat)),
    ;

    /// The id that the next new user gets.
    spec fn next_user_id(&self) -> u64;

    /// A new user with the next id; ids go up by one and wrap around after
    /// `u64::MAX`.
    fn create_user(&mut self, name: String, email: String) -> (r: Result<User, CommonError>)
        ensures
            r matches Ok(u) && u.id == old(self).next_user_id() && u.name@ == name@ && u.email@ == email@,
            final(self).next_user_id() == (if old(self).next_user_id() == u64::MAX {
                0
            } else {
                old(self).next_user_id() + 1
            }),
    ;
}

/// Hands out user ids from one, in order.
pub struct UserServiceImpl {
    pub next_id: u64,
}

impl UserServiceImpl {
    pub fn new() -> (r: UserServiceImpl)
        ensures
            r.next_id == 1,
    {
        UserServiceImpl { next_id: 1 }
    }

    /// Takes the next id; ids wrap around after `u64::MAX`.
    pub fn take_id(&mut self) -> (id: u64)
        ensures
            id == old(self).next_id,
            final(self).next_id == (if old(self).next_id == u64::MAX {
                0
            } else {
                old(self).next_id + 1
            }),
    {
        let id = self.next_id;
        self.next_id = if id == u64::MAX {
            0
        } else {
            id + 1
        };
        id
    }
}

impl UserService for UserServiceImpl {
    open spec fn next_user_id(&self) -> u64 {
        self.next_id
    }

    fn get_user(&self, id: u64) -> (r: Result<User, CommonError>) {
        if id == 0 {
            return Err(CommonError::InvalidInput(String::from_str("Invalid user ID")));
        }
        let digits = decimal_text(id as u128);
        let name = joined("User ", digits.as_str());
        let mut email = joined("user", digits.as_str());
        email.append("@example.com");
        Ok(User { id, name, email })
    }

    fn create_user(&mut self, name: String, email: String) -> (r: Result<User, CommonError>) {
        let id = self.take_id();
        Ok(User { id, name, email })
    }
}

pub struct ServerConfig {
    pub host: String,
    pub port: u16,
    pub workers: usize,
}

pub struct DatabaseConfig {
    pub url: String,
    pub max_connections: u32,
    pub timeout_seconds: u64,
}

pub struct LoggingConfig {
    pub level: String,
    /// A log file path, if logging goes to a file.
    pub file: Option<String>,
}

pub struct AppConfig {
    pub name: String,
    pub version: String,
    pub server: ServerConfig,
    pub database: DatabaseConfig,
    pub logging: LoggingConfig,
}

impl AppConfig {
    /// The default configuration for a build of `version` on a machine with
    /// `workers` processors.
    pub fn defaults(version: &str, workers: usize) -> (r: AppConfig)
        ensures
            r.name@ == "my-app"@,
            r.version@ == version@,
            r.server.host@ == "127.0.0.1"@,
            r.server.port == 8080,
            r.server.workers == workers,
            r.database.url@ == "postgres://localhost/db"@,
            r.database.max_connections == 10,
            r.database.timeout_seconds == 30,
            r.logging.level@ == "info"@,
            r.logging.file is None,
    {
        AppConfig {
            name: String::from_str("my-app"),
            version: String::from_str(version),
            server: ServerConfig { host: String::from_str("127.0.0.1"), port: 8080, workers },
            database: DatabaseConfig {
                url: String::from_str("postgres://localhost/db"),
                max_connections: 10,
                timeout_seconds: 30,
            },
            logging: LoggingConfig { level: String::from_str("info"), file: None },
        }
    }
}

impl AppConfig {
    /// The configuration with what the environment sets laid over it: the
    /// server host, the server port, the database address and the log level.
    /// A port that does not read fails with `ParseError`.
    pub fn with_env(
        self,
        host: Option<String>,
        port: Option<String>,
        database_url: Option<String>,
        log_level: Option<String>,
    ) -> (r: Result<AppConfig, CommonError>)
        ensures
            port matches Some(p) && port_value(p@) is None ==> r matches Err(CommonError::ParseError(_)),
            (port matches Some(p) ==> port_value(p@) is Some) ==> (r matches Ok(c) && {
                &&& c.name == self.name
                &&& c.version == self.version
                &&& c.server.host == (match host {
                    Some(h) => h,
                    None => self.server.host,
                })
                &&& c.server.port == (match port {
                    Some(p) => port_value(p@)->0,
                    None => self.server.port,
                })
                &&& c.server.workers == self.server.workers
                &&& c.database.url == (match database_url {
                    Some(u) => u,
                    None => self.database.url,
                })
                &&& c.database.max_connections == self.database.max_connections
                &&& c.database.timeout_seconds == self.database.timeout_seconds
                &&& c.logging.level == (match log_level {
                    Some(l) => l,
                    None => self.logging.level,
                })
                &&& c.logging.file == self.logging.file
            }),
    {
        let mut config = self;
        match host {
            Some(h) => config.server.host = h,
            None => {},
        }
        match port {
            Some(p) => match parse_port(p.as_str()) {
                Some(v) => config.server.port = v,
                None => return Err(CommonError::ParseError(p)),
            },
            None => {},
        }
        match database_url {
            Some(u) => config.database.url = u,
            None => {},
        }
        match log_level {
            Some(l) => config.logging.level = l,
            None => {},
        }
        Ok(config)
    }
}

/// The part of the configuration that the core service reads.
pub struct Config {
    pub name: String,
    pub version: String,
}

impl Config {
    pub fn from_app_config(app: AppConfig) -> (r: Config)
        ensures
            r.name == app.name,
            r.version == app.version,
    {
        Config { name: app.name, version: app.version }
    }
}

pub struct CoreService {
    pub config: Config,
}

impl CoreService {
    pub fn new(config: Config) -> (r: CoreService)
        ensures
            r.config == config,
    {
        CoreService { config }
    }

    /// Starts the service; starting cannot fail.
    pub fn start(&self) -> (r: Result<(), CoreError>)
        ensures
            r is Ok,
    {
        Ok(())
    }

    /// Acknowledges an input: `Processed: ` and the input.
    pub fn process(&self, input: &str) -> (r: Result<String, CoreError>)
        ensures
            r matches Ok(s) && s@ == "Processed: "@ + input@,
    {
        Ok(joined("Processed: ", input))
    }
}

} // verus!
