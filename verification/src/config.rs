//! The settings of the connection to the store, checked once at start-up.
use vstd::prelude::*;
use vstd::string::StringExecFns;
use crate::model::text_of;

verus! {

/// Where the store is and how to log in to it.
#[derive(Debug, Clone, PartialEq, Eq)]
pub struct DbConfig {
    pub user: String,
    pub password: String,
    pub host: String,
    pub port: u16,
    pub db_name: String,
}

pub ghost struct DbConfigView {
    pub user: Seq<char>,
    pub password: Seq<char>,
    pub host: Seq<char>,
    pub port: u16,
    pub db_name: Seq<char>,
}

impl View for DbConfig {
    type V = DbConfigView;

    open spec fn view(&self) -> DbConfigView {
        DbConfigView {
            user: self.user@,
            password: self.password@,
            host: self.host@,
            port: self.port,
            db_name: self.db_name@,
        }
    }
}

/// A setting that the environment has to provide.
#[derive(Debug, Clone, Copy, PartialEq, Eq, Structural)]
pub enum Setting {
    User,
    Password,
    Host,
    Port,
    DbName,
}

/// Why the settings cannot be used.
#[derive(Debug, Clone, Copy, PartialEq, Eq, Structural)]
pub enum ConfigError {
    /// The setting is absent.
    Missing(Setting),
    /// The port is present and is not a number that a port can have.
    InvalidPort,
}

/// The number that decimal digits write.
pub open spec fn digits_value(digits: Seq<char>) -> nat
    decreases digits.len(),
{
    if digits.len() == 0 {
        0
    } else {
        (10 * digits_value(digits.drop_last()) + (digits.last() as u32 - '0' as u32)) as nat
    }
}

/// The port that a text writes: decimal digits and nothing else, but for one
/// `+` that may stand before them, with a value that fits sixteen bits.
pub open spec fn port_of(text: Seq<char>) -> Option<u16> {
    let digits = if text.len() > 0 && text[0] == '+' {
        text.skip(1)
    } else {
        text
    };
    if digits.len() > 0 && (forall|i: int|
        0 <= i < digits.len() ==> '0' <= #[trigger] digits[i] <= '9') && digits_value(digits)
        <= u16::MAX {
        Some(digits_value(digits) as u16)
    } else {
        None
    }
}

/// The outcome of checking the five settings: the first one that is absent, in
/// the order user, password, host, port, database name; then a port that is
/// not a number; else the settings.
pub open spec fn checked(
    user: Option<Seq<char>>,
    password: Option<Seq<char>>,
    host: Option<Seq<char>>,
    port: Option<Seq<char>>,
    db_name: Option<Seq<char>>,
) -> Result<DbConfigView, ConfigError> {
    if user is None {
        Err(ConfigError::Missing(Setting::User))
    } else if password is None {
        Err(ConfigError::Missing(Setting::Password))
    } else if host is None {
        Err(ConfigError::Missing(Setting::Host))
    } else if port is None {
        Err(ConfigError::Missing(Setting::Port))
    } else if db_name is None {
        Err(ConfigError::Missing(Setting::DbName))
    } else {
        match port_of(port->0) {
            Some(number) => Ok(
                DbConfigView {
                    user: user->0,
                    password: password->0,
                    host: host->0,
                    port: number,
                    db_name: db_name->0,
                },
            ),
            None => Err(ConfigError::InvalidPort),
        }
    }
}

/// The view of a checked configuration.
pub open spec fn outcome_view(outcome: Result<DbConfig, ConfigError>) -> Result<
    DbConfigView,
    ConfigError,
> {
    match outcome {
        Ok(config) => Ok(config@),
        Err(error) => Err(error),
    }
}

/// `str::parse::<u16>` of the standard library. It accepts an optional `+`
/// followed by decimal digits only, with nothing before, between or after
/// them, and fails on an empty text, on any other character and on a value
/// above 65535. The contract states that, and that the digits are read as a
/// decimal number.
#[verifier::external_body]
fn parse_port(text: &str) -> (port: Option<u16>)
    ensures
        port == port_of(text@),
{
    text.parse::<u16>().ok()
}

impl Setting {
    /// The environment variable that provides this setting.
    pub open spec fn variable(&self) -> Seq<char> {
        match self {
            Setting::User => "MYSQL_USER"@,
            Setting::Password => "MYSQL_PASSWORD"@,
            Setting::Host => "MYSQL_HOST"@,
            Setting::Port => "MYSQL_PORT"@,
            Setting::DbName => "MYSQL_DBNAME"@,
        }
    }

    /// The environment variable that provides this setting.
    pub fn name(&self) -> (name: &'static str)
        ensures
            name@ == self.variable(),
    {
        match self {
            Setting::User => "MYSQL_USER",
            Setting::Password => "MYSQL_PASSWORD",
            Setting::Host => "MYSQL_HOST",
            Setting::Port => "MYSQL_PORT",
            Setting::DbName => "MYSQL_DBNAME",
        }
    }
}

impl ConfigError {
    /// The sentence that reports this error.
    pub open spec fn description(&self) -> Seq<char> {
        match self {
            ConfigError::Missing(setting) => setting.variable() + " is not set in .env file"@,
            ConfigError::InvalidPort => "MYSQL_PORT is not a valid port number"@,
        }
    }

    /// The sentence that reports this error.
    pub fn message(&self) -> (text: String)
        ensures
            text@ == self.description(),
    {
        match self {
            ConfigError::Missing(setting) => {
                let mut text = String::from_str(setting.name());
                text.append(" is not set in .env file");
                text
            },
            ConfigError::InvalidPort => String::from_str("MYSQL_PORT is not a valid port number"),
        }
    }
}

impl DbConfig {
    /// Checks the values of the five settings as the environment gave them,
    /// `None` for one that is absent.
    pub fn from_settings(
        user: Option<String>,
        password: Option<String>,
        host: Option<String>,
        port: Option<String>,
        db_name: Option<String>,
    ) -> (outcome: Result<DbConfig, ConfigError>)
        ensures
            outcome_view(outcome) == checked(
                text_of(user),
                text_of(password),
                text_of(host),
                text_of(port),
                text_of(db_name),
            ),
    {
        let user = match user {
            Some(value) => value,
            None => return Err(ConfigError::Missing(Setting::User)),
        };
        let password = match password {
            Some(value) => value,
            None => return Err(ConfigError::Missing(Setting::Password)),
        };
        let host = match host {
            Some(value) => value,
            None => return Err(ConfigError::Missing(Setting::Host)),
        };
        let port = match port {
            Some(value) => value,
            None => return Err(ConfigError::Missing(Setting::Port)),
        };
        let db_name = match db_name {
            Some(value) => value,
            None => return Err(ConfigError::Missing(Setting::DbName)),
        };
        match parse_port(port.as_str()) {
            Some(port) => Ok(DbConfig { user, password, host, port, db_name }),
            None => Err(ConfigError::InvalidPort),
        }
    }
}

} // verus!
