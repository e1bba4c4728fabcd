//! Runtime configuration: defaults, a configuration file over them, the environment over both.

use vstd::prelude::*;

use crate::common::constants::ports;
use crate::common::error::{ErrorKind, Fault, InterlinkError};
use crate::common::identity;
use crate::common::identity::SpiffeId;
use crate::number;
use crate::proxy::config::ProxyConfig;

verus! {

/// Runtime configuration.
#[derive(Debug, Clone)]
pub struct Config {
    pub trust_domain: String,
    pub identity: Option<String>,
    pub proxy_inbound_port: u16,
    pub proxy_outbound_port: u16,
    pub metrics_port: u16,
    pub log_level: String,
    pub max_connections: usize,
    /// Path to the CA bundle (DER or PEM) that peer certificates are validated against.
    pub ca_bundle_path: Option<String>,
    /// Path to the leaf certificate that this proxy presents.
    pub cert_path: Option<String>,
    /// Path to the private key of the leaf certificate.
    pub key_path: Option<String>,
    /// Where connections go whose original destination is unknown.
    pub default_upstream: Option<String>,
    /// Whether multiplexed tunnels are offered to peers.
    pub mux: bool,
}

/// What the environment sets, each from the variable `INTERLINK_` and its name.
#[derive(Debug, Clone, Default)]
pub struct Environment {
    pub trust_domain: Option<String>,
    pub identity: Option<String>,
    pub proxy_inbound_port: Option<String>,
    pub proxy_outbound_port: Option<String>,
    pub metrics_port: Option<String>,
    pub log_level: Option<String>,
    pub max_connections: Option<String>,
    pub ca_bundle_path: Option<String>,
    pub cert_path: Option<String>,
    pub key_path: Option<String>,
    pub default_upstream: Option<String>,
    pub mux: Option<String>,
}

/// The path of the configuration file: the setting `INTERLINK_CONFIG_FILE`, or the default.
pub fn config_file_path(setting: Option<String>) -> (path: String)
    ensures
        match setting {
            Some(s) => if s@.len() > 0 {
                path == s
            } else {
                path@ == "/etc/interlink/config.json"@
            },
            None => path@ == "/etc/interlink/config.json"@,
        },
{
    if let Some(path) = setting {
        if !path.as_str().is_empty() {
            return path;
        }
    }
    "/etc/interlink/config.json".to_owned()
}

/// The configuration without a file and without settings.
pub open spec fn is_default(config: Config) -> bool {
    &&& config.trust_domain@ == "cluster.local"@
    &&& config.identity is None
    &&& config.proxy_inbound_port == ports::INBOUND_PROXY
    &&& config.proxy_outbound_port == ports::OUTBOUND_PROXY
    &&& config.metrics_port == ports::METRICS
    &&& config.log_level@ == "info"@
    &&& config.max_connections == 1024
    &&& config.ca_bundle_path is None
    &&& config.cert_path is None
    &&& config.key_path is None
    &&& config.default_upstream is None
    &&& config.mux
}

impl Default for Config {
    fn default() -> (config: Self)
        ensures
            is_default(config),
    {
        Config {
            trust_domain: "cluster.local".to_owned(),
            identity: None,
            proxy_inbound_port: ports::INBOUND_PROXY,
            proxy_outbound_port: ports::OUTBOUND_PROXY,
            metrics_port: ports::METRICS,
            log_level: "info".to_owned(),
            max_connections: 1024,
            ca_bundle_path: None,
            cert_path: None,
            key_path: None,
            default_upstream: None,
            mux: true,
        }
    }
}

/// The value on top where there is one.
pub open spec fn over<T>(top: Option<T>, below: Option<T>) -> Option<T> {
    match top {
        Some(value) => Some(value),
        None => below,
    }
}

/// The value on top where there is one.
pub open spec fn set_to<T>(top: Option<T>, below: T) -> T {
    match top {
        Some(value) => value,
        None => below,
    }
}

fn lay<T>(top: Option<T>, below: Option<T>) -> (value: Option<T>)
    ensures
        value == over(top, below),
{
    match top {
        Some(value) => Some(value),
        None => below,
    }
}

fn set<T>(top: Option<T>, below: T) -> (value: T)
    ensures
        value == set_to(top, below),
{
    match top {
        Some(value) => value,
        None => below,
    }
}

/// A configuration with that of a file laid over it: what a file must hold replaces, what it may
/// hold replaces where it does.
pub open spec fn file_over(config: Config, file: Config) -> Config {
    Config {
        identity: over(file.identity, config.identity),
        ca_bundle_path: over(file.ca_bundle_path, config.ca_bundle_path),
        cert_path: over(file.cert_path, config.cert_path),
        key_path: over(file.key_path, config.key_path),
        default_upstream: over(file.default_upstream, config.default_upstream),
        ..file
    }
}

/// The port that a setting names.
pub open spec fn port_setting(setting: Option<String>, below: u16) -> Result<u16, Fault> {
    match setting {
        None => Ok(below),
        Some(s) => match number::number_value(s@, 65535) {
            Ok(port) => Ok(port as u16),
            Err(fault) => Err(
                Fault {
                    kind: ErrorKind::Config,
                    message: "invalid port '"@ + s@ + "': "@ + number::fault_text(fault),
                },
            ),
        },
    }
}

/// The number of connections that a setting names.
pub open spec fn limit_setting(setting: Option<String>, below: usize) -> Result<usize, Fault> {
    match setting {
        None => Ok(below),
        Some(s) => match number::number_value(s@, usize::MAX as nat) {
            Ok(limit) => Ok(limit as usize),
            Err(fault) => Err(
                Fault {
                    kind: ErrorKind::Config,
                    message: "INTERLINK_MAX_CONNECTIONS: "@ + number::fault_text(fault),
                },
            ),
        },
    }
}

/// What a switch is set to.
pub open spec fn mux_setting(setting: Option<String>, below: bool) -> Result<bool, Fault> {
    match setting {
        None => Ok(below),
        Some(s) => if s@ == "true"@ {
            Ok(true)
        } else if s@ == "false"@ {
            Ok(false)
        } else {
            Err(
                Fault {
                    kind: ErrorKind::Config,
                    message: "INTERLINK_MUX: provided string was not `true` or `false`"@,
                },
            )
        },
    }
}

/// A configuration with the environment laid over it, or the first setting that makes no sense.
pub open spec fn environment_over(config: Config, env: Environment) -> Result<Config, Fault> {
    match port_setting(env.proxy_inbound_port, config.proxy_inbound_port) {
        Err(fault) => Err(fault),
        Ok(inbound) => match port_setting(env.proxy_outbound_port, config.proxy_outbound_port) {
            Err(fault) => Err(fault),
            Ok(outbound) => match port_setting(env.metrics_port, config.metrics_port) {
                Err(fault) => Err(fault),
                Ok(metrics) => match limit_setting(env.max_connections, config.max_connections) {
                    Err(fault) => Err(fault),
                    Ok(limit) => match mux_setting(env.mux, config.mux) {
                        Err(fault) => Err(fault),
                        Ok(mux) => Ok(
                            Config {
                                trust_domain: set_to(env.trust_domain, config.trust_domain),
                                identity: over(env.identity, config.identity),
                                proxy_inbound_port: inbound,
                                proxy_outbound_port: outbound,
                                metrics_port: metrics,
                                log_level: set_to(env.log_level, config.log_level),
                                max_connections: limit,
                                ca_bundle_path: over(env.ca_bundle_path, config.ca_bundle_path),
                                cert_path: over(env.cert_path, config.cert_path),
                                key_path: over(env.key_path, config.key_path),
                                default_upstream: over(
                                    env.default_upstream,
                                    config.default_upstream,
                                ),
                                mux,
                            },
                        ),
                    },
                },
            },
        },
    }
}

/// What is wrong with a configuration.
pub open spec fn config_fault(config: Config) -> Option<Fault> {
    if config.trust_domain@.len() == 0 {
        Some(Fault { kind: ErrorKind::Config, message: "trust_domain must not be empty"@ })
    } else if config.max_connections == 0 {
        Some(Fault { kind: ErrorKind::Config, message: "max_connections must be > 0"@ })
    } else {
        match config.identity {
            Some(uri) => match identity::identity_of(uri@) {
                Ok(_) => None,
                Err(message) => Some(
                    Fault {
                        kind: ErrorKind::Config,
                        message: "invalid INTERLINK_IDENTITY: "@ + ("Identity error: "@ + message),
                    },
                ),
            },
            None => None,
        }
    }
}

impl Config {
    /// The configuration of a file, if there is one, over the defaults, and the environment over
    /// both. What comes out is valid.
    pub fn load(file: Option<Config>, env: Environment) -> (result: Result<Self, InterlinkError>)
        ensures
            exists|base: Config| #[trigger]
                is_default(base) && {
                    let below = match file {
                        Some(file) => file_over(base, file),
                        None => base,
                    };
                    match environment_over(below, env) {
                        Err(fault) => result matches Err(e) && e@ == fault,
                        Ok(config) => match config_fault(config) {
                            Some(fault) => result matches Err(e) && e@ == fault,
                            None => result == Ok::<Config, InterlinkError>(config),
                        },
                    }
                },
    {
        let base: Config = Config::default();
        assert(is_default(base));
        let below: Config = match file {
            Some(file) => base.with_file(file),
            None => base,
        };
        match below.with_env(env) {
            Err(error) => Err(error),
            Ok(config) => match config.validate() {
                Ok(()) => Ok(config),
                Err(error) => Err(error),
            },
        }
    }

    /// Lays the configuration of a file over this one.
    pub fn with_file(self, file: Config) -> (config: Self)
        ensures
            config == file_over(self, file),
    {
        Config {
            trust_domain: file.trust_domain,
            identity: lay(file.identity, self.identity),
            proxy_inbound_port: file.proxy_inbound_port,
            proxy_outbound_port: file.proxy_outbound_port,
            metrics_port: file.metrics_port,
            log_level: file.log_level,
            max_connections: file.max_connections,
            ca_bundle_path: lay(file.ca_bundle_path, self.ca_bundle_path),
            cert_path: lay(file.cert_path, self.cert_path),
            key_path: lay(file.key_path, self.key_path),
            default_upstream: lay(file.default_upstream, self.default_upstream),
            mux: file.mux,
        }
    }

    /// Lays the environment over this configuration.
    pub fn with_env(self, env: Environment) -> (result: Result<Self, InterlinkError>)
        ensures
            match environment_over(self, env) {
                Ok(config) => result == Ok::<Config, InterlinkError>(config),
                Err(fault) => result matches Err(e) && e@ == fault,
            },
    {
        let proxy_inbound_port: u16 = match read_port(
            &env.proxy_inbound_port,
            self.proxy_inbound_port,
        ) {
            Ok(port) => port,
            Err(error) => {
                return Err(error);
            },
        };
        let proxy_outbound_port: u16 = match read_port(
            &env.proxy_outbound_port,
            self.proxy_outbound_port,
        ) {
            Ok(port) => port,
            Err(error) => {
                return Err(error);
            },
        };
        let metrics_port: u16 = match read_port(&env.metrics_port, self.metrics_port) {
            Ok(port) => port,
            Err(error) => {
                return Err(error);
            },
        };
        let max_connections: usize = match read_limit(&env.max_connections, self.max_connections) {
            Ok(limit) => limit,
            Err(error) => {
                return Err(error);
            },
        };
        let mux: bool = match read_mux(&env.mux, self.mux) {
            Ok(mux) => mux,
            Err(error) => {
                return Err(error);
            },
        };
        Ok(
            Config {
                trust_domain: set(env.trust_domain, self.trust_domain),
                identity: lay(env.identity, self.identity),
                proxy_inbound_port,
                proxy_outbound_port,
                metrics_port,
                log_level: set(env.log_level, self.log_level),
                max_connections,
                ca_bundle_path: lay(env.ca_bundle_path, self.ca_bundle_path),
                cert_path: lay(env.cert_path, self.cert_path),
                key_path: lay(env.key_path, self.key_path),
                default_upstream: lay(env.default_upstream, self.default_upstream),
                mux,
            },
        )
    }

    /// What a proxy takes from the configuration.
    pub fn to_proxy_config(&self) -> (config: ProxyConfig)
        ensures
            config == (ProxyConfig {
                trust_domain: self.trust_domain,
                identity: self.identity,
                default_upstream: self.default_upstream,
                max_connections: Some(self.max_connections),
                mux: self.mux,
            }),
    {
        ProxyConfig {
            trust_domain: self.trust_domain.clone(),
            identity: match &self.identity {
                Some(identity) => Some(identity.clone()),
                None => None,
            },
            default_upstream: match &self.default_upstream {
                Some(upstream) => Some(upstream.clone()),
                None => None,
            },
            max_connections: Some(self.max_connections),
            mux: self.mux,
        }
    }

    /// Checks the configuration.
    pub fn validate(&self) -> (result: Result<(), InterlinkError>)
        ensures
            match config_fault(*self) {
                None => result is Ok,
                Some(fault) => result matches Err(e) && e@ == fault,
            },
    {
        if self.trust_domain.as_str().is_empty() {
            return Err(InterlinkError::Config("trust_domain must not be empty".to_owned()));
        }
        if self.max_connections == 0 {
            return Err(InterlinkError::Config("max_connections must be > 0".to_owned()));
        }
        if let Some(uri) = &self.identity {
            if let Err(error) = SpiffeId::from_uri(uri.as_str()) {
                return Err(
                    InterlinkError::Config(
                        "invalid INTERLINK_IDENTITY: ".to_owned().concat(error.message().as_str()),
                    ),
                );
            }
        }
        Ok(())
    }
}

fn read_port(setting: &Option<String>, below: u16) -> (result: Result<u16, InterlinkError>)
    ensures
        match port_setting(*setting, below) {
            Ok(port) => result == Ok::<u16, InterlinkError>(port),
            Err(fault) => result matches Err(e) && e@ == fault,
        },
{
    match setting {
        None => Ok(below),
        Some(s) => match number::parse_number(s.as_str(), 65535) {
            Ok(port) => Ok(port as u16),
            Err(fault) => Err(
                InterlinkError::Config(
                    "invalid port '".to_owned().concat(s.as_str()).concat("': ").concat(
                        fault.message(),
                    ),
                ),
            ),
        },
    }
}

fn read_limit(setting: &Option<String>, below: usize) -> (result: Result<usize, InterlinkError>)
    ensures
        match limit_setting(*setting, below) {
            Ok(limit) => result == Ok::<usize, InterlinkError>(limit),
            Err(fault) => result matches Err(e) && e@ == fault,
        },
{
    match setting {
        None => Ok(below),
        Some(s) => match number::parse_number(s.as_str(), usize::MAX as u64) {
            Ok(limit) => Ok(limit as usize),
            Err(fault) => Err(
                InterlinkError::Config(
                    "INTERLINK_MAX_CONNECTIONS: ".to_owned().concat(fault.message()),
                ),
            ),
        },
    }
}

fn read_mux(setting: &Option<String>, below: bool) -> (result: Result<bool, InterlinkError>)
    ensures
        match mux_setting(*setting, below) {
            Ok(mux) => result == Ok::<bool, InterlinkError>(mux),
            Err(fault) => result matches Err(e) && e@ == fault,
        },
{
    match setting {
        None => Ok(below),
        Some(s) => if *s == "true".to_owned() {
            Ok(true)
        } else if *s == "false".to_owned() {
            Ok(false)
        } else {
            Err(
                InterlinkError::Config(
                    "INTERLINK_MUX: provided string was not `true` or `false`".to_owned(),
                ),
            )
        },
    }
}

} // verus!
