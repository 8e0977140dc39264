//! Adapter settings, checked from the values of the environment variables.
//!
//! Required: `MC_ID`, `MC_NAME`, `MC_LOG_DIR`, `RCON_ADDRESS`, `RCON_PASSWORD`, `MC_HOST`,
//! `MC_VERSION`, `MC_LOADER`, and `MC_LOADER_VERSION` for every loader but `vanilla`.
//! Optional: `BIND` (default `0.0.0.0:8080`), `EVENTS_TOKEN` (unset or empty: the event
//! stream needs no token), `MC_DESCRIPTION`, `MC_ICON_URL`, `MC_PORT` (default `25565`),
//! `MC_DISPLAY_NAME`, `MC_JAVA_MAJOR`, `PACKWIZ_URL`.

use vstd::prelude::*;

use crate::secret::SecretString;
use crate::text::{chars_of, parse_unsigned, parse_unsigned_in};

verus! {

broadcast use vstd::string::group_string_axioms;

/// The values of the environment variables; `None` for an unset (or non-Unicode) one.
pub struct EnvVars {
    pub bind: Option<String>,
    pub events_token: Option<String>,
    pub mc_id: Option<String>,
    pub mc_name: Option<String>,
    pub mc_description: Option<String>,
    pub mc_icon_url: Option<String>,
    pub mc_log_dir: Option<String>,
    pub rcon_address: Option<String>,
    pub rcon_password: Option<String>,
    pub mc_host: Option<String>,
    pub mc_port: Option<String>,
    pub mc_version: Option<String>,
    pub mc_loader: Option<String>,
    pub mc_loader_version: Option<String>,
    pub mc_display_name: Option<String>,
    pub mc_java_major: Option<String>,
    pub packwiz_url: Option<String>,
}

/// A required variable.
#[derive(PartialEq, Eq, Structural, Debug, Clone, Copy)]
pub enum RequiredVar {
    McId,
    McName,
    McLogDir,
    RconAddress,
    RconPassword,
    McHost,
    McVersion,
    McLoader,
    /// Required for every loader but `vanilla`.
    McLoaderVersion,
}

/// A variable that holds a number.
#[derive(PartialEq, Eq, Structural, Debug, Clone, Copy)]
pub enum NumberVar {
    McPort,
    McJavaMajor,
}

/// Why the settings were refused.
#[derive(PartialEq, Eq, Structural, Debug, Clone, Copy)]
pub enum ConfigError {
    /// A required variable is unset.
    Missing(RequiredVar),
    /// A number variable does not read as a number of its type.
    Invalid(NumberVar),
}

/// The message that explains `e`.
pub open spec fn error_message(e: ConfigError) -> Seq<char> {
    match e {
        ConfigError::Missing(RequiredVar::McId) => "MC_ID 누락"@,
        ConfigError::Missing(RequiredVar::McName) => "MC_NAME 누락"@,
        ConfigError::Missing(RequiredVar::McLogDir) => "MC_LOG_DIR 누락 — minecraft 의 logs 디렉토리를 ro mount 한 경로"@,
        ConfigError::Missing(RequiredVar::RconAddress) => "RCON_ADDRESS 누락"@,
        ConfigError::Missing(RequiredVar::RconPassword) => "RCON_PASSWORD 누락"@,
        ConfigError::Missing(RequiredVar::McHost) => "MC_HOST 누락"@,
        ConfigError::Missing(RequiredVar::McVersion) => "MC_VERSION 누락"@,
        ConfigError::Missing(RequiredVar::McLoader) => "MC_LOADER 누락"@,
        ConfigError::Missing(RequiredVar::McLoaderVersion) => "MC_LOADER_VERSION 누락 — vanilla 외에는 필수"@,
        ConfigError::Invalid(NumberVar::McPort) => "MC_PORT 파싱 실패"@,
        ConfigError::Invalid(NumberVar::McJavaMajor) => "MC_JAVA_MAJOR 파싱 실패"@,
    }
}

impl ConfigError {
    /// The message that explains the error.
    pub fn message(&self) -> (r: &'static str)
        ensures
            r@ == error_message(*self),
    {
        match self {
            ConfigError::Missing(RequiredVar::McId) => "MC_ID 누락",
            ConfigError::Missing(RequiredVar::McName) => "MC_NAME 누락",
            ConfigError::Missing(RequiredVar::McLogDir) => "MC_LOG_DIR 누락 — minecraft 의 logs 디렉토리를 ro mount 한 경로",
            ConfigError::Missing(RequiredVar::RconAddress) => "RCON_ADDRESS 누락",
            ConfigError::Missing(RequiredVar::RconPassword) => "RCON_PASSWORD 누락",
            ConfigError::Missing(RequiredVar::McHost) => "MC_HOST 누락",
            ConfigError::Missing(RequiredVar::McVersion) => "MC_VERSION 누락",
            ConfigError::Missing(RequiredVar::McLoader) => "MC_LOADER 누락",
            ConfigError::Missing(RequiredVar::McLoaderVersion) => "MC_LOADER_VERSION 누락 — vanilla 외에는 필수",
            ConfigError::Invalid(NumberVar::McPort) => "MC_PORT 파싱 실패",
            ConfigError::Invalid(NumberVar::McJavaMajor) => "MC_JAVA_MAJOR 파싱 실패",
        }
    }
}

/// The adapter's settings.
pub struct AppConfig {
    pub bind: String,
    pub events_token: Option<SecretString>,
    pub mc_id: String,
    pub mc_name: String,
    pub mc_description: Option<String>,
    pub mc_icon_url: Option<String>,
    pub log_dir: String,
    pub rcon_address: String,
    pub rcon_password: SecretString,
    pub mc_host: String,
    pub mc_port: u16,
    pub mc_version: String,
    pub mc_loader: String,
    pub mc_loader_version: Option<String>,
    pub mc_display_name: Option<String>,
    pub mc_java_major: Option<u32>,
    pub packwiz_url: Option<String>,
}

pub open spec fn opt_view(o: Option<String>) -> Option<Seq<char>> {
    match o {
        Some(s) => Some(s@),
        None => None,
    }
}

pub open spec fn secret_opt_view(o: Option<SecretString>) -> Option<Seq<char>> {
    match o {
        Some(s) => Some(s@),
        None => None,
    }
}

/// The loader that needs no loader version.
pub open spec fn vanilla_loader() -> Seq<char> {
    "vanilla"@
}

/// The event-stream token that `EVENTS_TOKEN` sets: none when unset or empty.
pub open spec fn token_of(v: Option<String>) -> Option<Seq<char>> {
    match v {
        Some(s) => if s@.len() > 0 {
            Some(s@)
        } else {
            None
        },
        None => None,
    }
}

pub open spec fn default_bind() -> Seq<char> {
    "0.0.0.0:8080"@
}

pub open spec fn default_port() -> Seq<char> {
    "25565"@
}

/// The text that `MC_PORT` is read from.
pub open spec fn port_text(v: EnvVars) -> Seq<char> {
    match v.mc_port {
        Some(s) => s@,
        None => default_port(),
    }
}

pub open spec fn java_major_value(v: EnvVars) -> Option<nat> {
    match v.mc_java_major {
        Some(s) => parse_unsigned(s@, u32::MAX as nat),
        None => None,
    }
}

/// The first problem with `v`, in the order in which the variables are read.
pub open spec fn first_config_error(v: EnvVars) -> Option<ConfigError> {
    if v.mc_id is None {
        Some(ConfigError::Missing(RequiredVar::McId))
    } else if v.mc_name is None {
        Some(ConfigError::Missing(RequiredVar::McName))
    } else if v.mc_log_dir is None {
        Some(ConfigError::Missing(RequiredVar::McLogDir))
    } else if v.rcon_address is None {
        Some(ConfigError::Missing(RequiredVar::RconAddress))
    } else if v.rcon_password is None {
        Some(ConfigError::Missing(RequiredVar::RconPassword))
    } else if v.mc_host is None {
        Some(ConfigError::Missing(RequiredVar::McHost))
    } else if parse_unsigned(port_text(v), u16::MAX as nat) is None {
        Some(ConfigError::Invalid(NumberVar::McPort))
    } else if v.mc_version is None {
        Some(ConfigError::Missing(RequiredVar::McVersion))
    } else if v.mc_loader is None {
        Some(ConfigError::Missing(RequiredVar::McLoader))
    } else if v.mc_loader->0@ != vanilla_loader() && v.mc_loader_version is None {
        Some(ConfigError::Missing(RequiredVar::McLoaderVersion))
    } else if v.mc_java_major is Some && java_major_value(v) is None {
        Some(ConfigError::Invalid(NumberVar::McJavaMajor))
    } else {
        None
    }
}

/// `c` holds the settings that the variables `v` (free of problems) describe.
pub open spec fn config_from(c: AppConfig, v: EnvVars) -> bool {
    &&& c.bind@ == (match v.bind {
        Some(s) => s@,
        None => default_bind(),
    })
    &&& secret_opt_view(c.events_token) == token_of(v.events_token)
    &&& Some(c.mc_id@) == opt_view(v.mc_id)
    &&& Some(c.mc_name@) == opt_view(v.mc_name)
    &&& opt_view(c.mc_description) == opt_view(v.mc_description)
    &&& opt_view(c.mc_icon_url) == opt_view(v.mc_icon_url)
    &&& Some(c.log_dir@) == opt_view(v.mc_log_dir)
    &&& Some(c.rcon_address@) == opt_view(v.rcon_address)
    &&& Some(c.rcon_password@) == opt_view(v.rcon_password)
    &&& Some(c.mc_host@) == opt_view(v.mc_host)
    &&& Some(c.mc_port as nat) == parse_unsigned(port_text(v), u16::MAX as nat)
    &&& Some(c.mc_version@) == opt_view(v.mc_version)
    &&& Some(c.mc_loader@) == opt_view(v.mc_loader)
    &&& opt_view(c.mc_loader_version) == opt_view(v.mc_loader_version)
    &&& opt_view(c.mc_display_name) == opt_view(v.mc_display_name)
    &&& (match c.mc_java_major {
        Some(n) => java_major_value(v) == Some(n as nat),
        None => v.mc_java_major is None,
    })
    &&& opt_view(c.packwiz_url) == opt_view(v.packwiz_url)
}

fn parse_number(s: &str, max: u64) -> (r: Option<u64>)
    requires
        max <= u32::MAX,
    ensures
        match parse_unsigned(s@, max as nat) {
            Some(n) => r == Some(n as u64),
            None => r is None,
        },
{
    let v = chars_of(s);
    assert(v@.subrange(0, v@.len() as int) =~= v@);
    parse_unsigned_in(&v, 0, v.len(), max)
}

impl AppConfig {
    /// The settings that the environment variable values `vars` describe, or the first
    /// problem with them.
    pub fn from_vars(vars: EnvVars) -> (r: Result<AppConfig, ConfigError>)
        ensures
            match r {
                Ok(c) => first_config_error(vars) is None && config_from(c, vars),
                Err(e) => first_config_error(vars) == Some(e),
            },
    {
        let ghost v = vars;
        let EnvVars {
            bind,
            events_token,
            mc_id,
            mc_name,
            mc_description,
            mc_icon_url,
            mc_log_dir,
            rcon_address,
            rcon_password,
            mc_host,
            mc_port,
            mc_version,
            mc_loader,
            mc_loader_version,
            mc_display_name,
            mc_java_major,
            packwiz_url,
        } = vars;
        let bind = match bind {
            Some(s) => s,
            None => String::from_str("0.0.0.0:8080"),
        };
        let events_token = match events_token {
            Some(s) => if s.as_str().is_empty() {
                None
            } else {
                Some(SecretString::new(s))
            },
            None => None,
        };
        let mc_id = match mc_id {
            Some(s) => s,
            None => {
                return Err(ConfigError::Missing(RequiredVar::McId));
            },
        };
        let mc_name = match mc_name {
            Some(s) => s,
            None => {
                return Err(ConfigError::Missing(RequiredVar::McName));
            },
        };
        let log_dir = match mc_log_dir {
            Some(s) => s,
            None => {
                return Err(ConfigError::Missing(RequiredVar::McLogDir));
            },
        };
        let rcon_address = match rcon_address {
            Some(s) => s,
            None => {
                return Err(ConfigError::Missing(RequiredVar::RconAddress));
            },
        };
        let rcon_password = match rcon_password {
            Some(s) => SecretString::new(s),
            None => {
                return Err(ConfigError::Missing(RequiredVar::RconPassword));
            },
        };
        let mc_host = match mc_host {
            Some(s) => s,
            None => {
                return Err(ConfigError::Missing(RequiredVar::McHost));
            },
        };
        let port_value = match &mc_port {
            Some(s) => parse_number(s.as_str(), 0xffff),
            None => parse_number("25565", 0xffff),
        };
        let mc_port: u16 = match port_value {
            Some(n) => n as u16,
            None => {
                return Err(ConfigError::Invalid(NumberVar::McPort));
            },
        };
        let mc_version = match mc_version {
            Some(s) => s,
            None => {
                return Err(ConfigError::Missing(RequiredVar::McVersion));
            },
        };
        let mc_loader = match mc_loader {
            Some(s) => s,
            None => {
                return Err(ConfigError::Missing(RequiredVar::McLoader));
            },
        };
        if mc_loader_version.is_none() && !(mc_loader == String::from_str("vanilla")) {
            return Err(ConfigError::Missing(RequiredVar::McLoaderVersion));
        }
        let mc_java_major = match &mc_java_major {
            Some(s) => match parse_number(s.as_str(), 0xffff_ffff) {
                Some(n) => Some(n as u32),
                None => {
                    return Err(ConfigError::Invalid(NumberVar::McJavaMajor));
                },
            },
            None => None,
        };
        Ok(AppConfig {
            bind,
            events_token,
            mc_id,
            mc_name,
            mc_description,
            mc_icon_url,
            log_dir,
            rcon_address,
            rcon_password,
            mc_host,
            mc_port,
            mc_version,
            mc_loader,
            mc_loader_version,
            mc_display_name,
            mc_java_major,
            packwiz_url,
        })
    }
}

/// Accepted settings keep every variable as given: each optional text variable that is
/// set comes through with its value and one that is unset stays unset, and each required
/// one is its variable's value.
pub proof fn law_accepted_settings_keep_the_values(c: AppConfig, v: EnvVars)
    requires
        first_config_error(v) is None,
        config_from(c, v),
    ensures
        (v.mc_description matches Some(d) ==> c.mc_description matches Some(e) && e@ == d@),
        (v.mc_description is None ==> c.mc_description is None),
        (v.mc_icon_url matches Some(d) ==> c.mc_icon_url matches Some(e) && e@ == d@),
        (v.mc_icon_url is None ==> c.mc_icon_url is None),
        (v.mc_loader_version matches Some(d) ==> c.mc_loader_version matches Some(e) && e@ == d@),
        (v.mc_loader_version is None ==> c.mc_loader_version is None),
        (v.mc_display_name matches Some(d) ==> c.mc_display_name matches Some(e) && e@ == d@),
        (v.mc_display_name is None ==> c.mc_display_name is None),
        (v.packwiz_url matches Some(d) ==> c.packwiz_url matches Some(e) && e@ == d@),
        (v.packwiz_url is None ==> c.packwiz_url is None),
        (v.mc_id matches Some(d) && c.mc_id@ == d@),
        (v.mc_name matches Some(d) && c.mc_name@ == d@),
        (v.mc_log_dir matches Some(d) && c.log_dir@ == d@),
        (v.rcon_address matches Some(d) && c.rcon_address@ == d@),
        (v.mc_host matches Some(d) && c.mc_host@ == d@),
        (v.mc_version matches Some(d) && c.mc_version@ == d@),
        (v.mc_loader matches Some(d) && c.mc_loader@ == d@),
{
}
} // verus!
