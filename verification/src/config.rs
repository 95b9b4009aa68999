//! The settings of the surrounding process.
//!
//! Reading the environment is left to the caller; this module checks what
//! was read and turns the port into a number.

use vstd::prelude::*;

verus! {

/// The settings that the process runs with.
#[derive(Debug, PartialEq, Eq)]
pub struct Config {
    pub port: u16,
    pub environment: String,
    pub mongo_uri: String,
    pub redis_uri: String,
}

/// What is wrong with the settings that were read.
#[derive(Debug, Clone, Copy, PartialEq, Eq, Structural)]
pub enum ConfigError {
    /// No port is set.
    MissingPort,
    /// The port is not a number between 0 and 65535.
    InvalidPort,
    /// No environment name is set.
    MissingEnvironment,
    /// No address of the document store is set.
    MissingMongoUri,
    /// No address of the key-value store is set.
    MissingRedisUri,
}

/// `c` is one of the digits `0` to `9`.
pub open spec fn is_digit(c: char) -> bool {
    '0' <= c && c <= '9'
}

/// Every character of `s` is a digit.
pub open spec fn all_digits(s: Seq<char>) -> bool {
    forall|i: int| 0 <= i < s.len() ==> is_digit(#[trigger] s[i])
}

/// The number that the digits `s` write in base ten.
pub open spec fn digits_value(s: Seq<char>) -> nat
    decreases s.len(),
{
    if s.len() == 0 {
        0
    } else {
        (digits_value(s.drop_last()) * 10 + (s.last() as u32 - '0' as u32)) as nat
    }
}

/// `s` without the plus sign that may stand in front of it.
pub open spec fn unsigned_part(s: Seq<char>) -> Seq<char> {
    if s.len() > 0 && s[0] == '+' {
        s.drop_first()
    } else {
        s
    }
}

/// The port that `s` names: an optional plus sign and then one or more
/// digits, nothing else, for a number of at most 65535.
pub open spec fn port_of(s: Seq<char>) -> Option<u16> {
    let digits = unsigned_part(s);
    if digits.len() > 0 && all_digits(digits) && digits_value(digits) <= u16::MAX {
        Some(digits_value(digits) as u16)
    } else {
        None
    }
}

/// A number written with digits is at least the number that any of its
/// beginnings writes.
proof fn lemma_digits_grow(s: Seq<char>, k: int)
    requires
        all_digits(s),
        0 <= k <= s.len(),
    ensures
        digits_value(s.take(k)) <= digits_value(s),
    decreases s.len() - k,
{
    if k == s.len() {
        assert(s.take(k) =~= s);
    } else {
        lemma_digits_grow(s, k + 1);
        let longer = s.take(k + 1);
        assert(longer.drop_last() =~= s.take(k));
        assert(is_digit(s[k]));
        assert(longer.last() == s[k]);
    }
}

/// Reads a port number.
pub fn parse_port(text: &str) -> (port: Option<u16>)
    ensures
        port == port_of(text@),
{
    let len = text.unicode_len();
    if len == 0 {
        return None;
    }
    let start: usize = if text.get_char(0) == '+' {
        1
    } else {
        0
    };
    if start == len {
        return None;
    }
    let ghost digits = unsigned_part(text@);
    proof {
        assert(digits =~= text@.subrange(start as int, len as int));
    }
    let mut value: u32 = 0;
    let mut i: usize = start;
    while i < len
        invariant
            start <= i <= len,
            len == text@.len(),
            digits == text@.subrange(start as int, len as int),
            digits == unsigned_part(text@),
            all_digits(digits.take(i - start)),
            value == digits_value(digits.take(i - start)),
            value <= u16::MAX,
        decreases len - i,
    {
        let c = text.get_char(i);
        let ghost k = i - start;
        proof {
            assert(digits[k] == c);
            assert(digits.take(k + 1).drop_last() =~= digits.take(k));
            assert(digits.take(k + 1).last() == c);
        }
        if c < '0' || c > '9' {
            proof {
                assert(!is_digit(digits[k]));
            }
            return None;
        }
        let digit: u32 = c as u32 - '0' as u32;
        value = value * 10 + digit;
        proof {
            assert forall|j: int| 0 <= j < k + 1 implies is_digit(
                #[trigger] digits.take(k + 1)[j],
            ) by {
                if j < k {
                    assert(digits.take(k + 1)[j] == digits.take(k)[j]);
                }
            }
        }
        if value > 65535 {
            proof {
                if all_digits(digits) {
                    lemma_digits_grow(digits, k + 1);
                }
            }
            return None;
        }
        i += 1;
    }
    proof {
        assert(digits.take(len - start) =~= digits);
    }
    Some(value as u16)
}

impl View for Config {
    type V = ConfigView;

    open spec fn view(&self) -> ConfigView {
        ConfigView {
            port: self.port,
            environment: self.environment@,
            mongo_uri: self.mongo_uri@,
            redis_uri: self.redis_uri@,
        }
    }
}

/// The content of a [`Config`].
pub struct ConfigView {
    pub port: u16,
    pub environment: Seq<char>,
    pub mongo_uri: Seq<char>,
    pub redis_uri: Seq<char>,
}

/// The settings that the four values make, or the first thing that is wrong
/// with them: the port is looked at first, then the environment name, then
/// the two addresses.
pub open spec fn settings_of(
    port: Option<Seq<char>>,
    environment: Option<Seq<char>>,
    mongo_uri: Option<Seq<char>>,
    redis_uri: Option<Seq<char>>,
) -> Result<ConfigView, ConfigError> {
    if port is None {
        Err(ConfigError::MissingPort)
    } else if port_of(port->0) is None {
        Err(ConfigError::InvalidPort)
    } else if environment is None {
        Err(ConfigError::MissingEnvironment)
    } else if mongo_uri is None {
        Err(ConfigError::MissingMongoUri)
    } else if redis_uri is None {
        Err(ConfigError::MissingRedisUri)
    } else {
        Ok(
            ConfigView {
                port: port_of(port->0)->0,
                environment: environment->0,
                mongo_uri: mongo_uri->0,
                redis_uri: redis_uri->0,
            },
        )
    }
}

/// The content of a result of [`Config::init`].
pub open spec fn settings_view(res: Result<Config, ConfigError>) -> Result<
    ConfigView,
    ConfigError,
> {
    match res {
        Ok(config) => Ok(config@),
        Err(e) => Err(e),
    }
}

impl Config {
    /// Checks the values read for the port, the environment name and the
    /// addresses of the two stores, each `None` where nothing was set.
    pub fn init(
        port: Option<String>,
        environment: Option<String>,
        mongo_uri: Option<String>,
        redis_uri: Option<String>,
    ) -> (res: Result<Config, ConfigError>)
        ensures
            settings_view(res) == settings_of(
                crate::messages::text_view(port),
                crate::messages::text_view(environment),
                crate::messages::text_view(mongo_uri),
                crate::messages::text_view(redis_uri),
            ),
    {
        let port = match port {
            Some(port) => port,
            None => {
                return Err(ConfigError::MissingPort);
            },
        };
        let port = match parse_port(port.as_str()) {
            Some(port) => port,
            None => {
                return Err(ConfigError::InvalidPort);
            },
        };
        let environment = match environment {
            Some(environment) => environment,
            None => {
                return Err(ConfigError::MissingEnvironment);
            },
        };
        let mongo_uri = match mongo_uri {
            Some(mongo_uri) => mongo_uri,
            None => {
                return Err(ConfigError::MissingMongoUri);
            },
        };
        let redis_uri = match redis_uri {
            Some(redis_uri) => redis_uri,
            None => {
                return Err(ConfigError::MissingRedisUri);
            },
        };
        Ok(Config { port, environment, mongo_uri, redis_uri })
    }
}

impl ConfigError {
    /// What to tell the operator.
    pub fn message(&self) -> (text: String)
        ensures
            text@ == match *self {
                ConfigError::MissingPort => "incorrect port"@,
                ConfigError::InvalidPort => "Can't parse port into number"@,
                ConfigError::MissingEnvironment => "incorrect app_env"@,
                ConfigError::MissingMongoUri => "incorrect mongo_uri"@,
                ConfigError::MissingRedisUri => "incorrect redis_uri"@,
            },
    {
        match self {
            ConfigError::MissingPort => String::from_str("incorrect port"),
            ConfigError::InvalidPort => String::from_str("Can't parse port into number"),
            ConfigError::MissingEnvironment => String::from_str("incorrect app_env"),
            ConfigError::MissingMongoUri => String::from_str("incorrect mongo_uri"),
            ConfigError::MissingRedisUri => String::from_str("incorrect redis_uri"),
        }
    }
}

} // verus!
