//! The relay's configuration: the gateway's RSA public key, the monitor password, and the
//! address to listen on.
use vstd::prelude::*;

use crate::error::{owned, ConfigError};
use crate::text::{decimal, lemma_parse_decimal_u16, parse_u16, parsed_u16, push_char, push_decimal};

verus! {

/// The relay's settings.
pub struct Config {
    /// The gateway's RSA public key, as a PEM document or its Base64 body.
    pub rsa_public_key: String,
    /// The password of the monitor pages.
    pub monitor_password: String,
    /// The host to listen on.
    pub server_host: String,
    /// The port to listen on.
    pub server_port: u16,
}

/// The host that is used when none is set.
pub open spec fn default_host() -> Seq<char> {
    "0.0.0.0"@
}

/// The port that a setting gives: the parsed number, or 8080 when the setting is absent or
/// not a port number.
pub open spec fn port_of(setting: Option<Seq<char>>) -> u16 {
    match setting {
        Some(t) => match parsed_u16(t) {
            Some(p) => p,
            None => 8080,
        },
        None => 8080,
    }
}

/// The port given by a setting (`SERVER_PORT`): 8080 when it is absent or unreadable.
pub fn port_setting(setting: Option<String>) -> (r: u16)
    ensures
        r == port_of(
            match setting {
                Some(s) => Some(s@),
                None => None,
            },
        ),
{
    match setting {
        Some(s) => match parse_u16(s.as_str()) {
            Some(p) => p,
            None => 8080,
        },
        None => 8080,
    }
}

impl Config {
    /// The configuration from the values of the settings `RSA_PUBLIC_KEY`,
    /// `MONITOR_PASSWORD`, `SERVER_HOST` and `SERVER_PORT` (`None` where one is not set).
    /// The key and the password are required, in that order; the host defaults to
    /// `0.0.0.0` and the port to 8080.
    pub fn from_settings(
        rsa_public_key: Option<String>,
        monitor_password: Option<String>,
        server_host: Option<String>,
        server_port: Option<String>,
    ) -> (r: Result<Config, ConfigError>)
        ensures
            rsa_public_key is None ==> r == Err::<Config, ConfigError>(
                ConfigError::RsaPublicKeyMissing,
            ),
            rsa_public_key is Some && monitor_password is None ==> r == Err::<Config, ConfigError>(
                ConfigError::MonitorPasswordMissing,
            ),
            rsa_public_key is Some && monitor_password is Some ==> (r matches Ok(c) && {
                &&& c.rsa_public_key@ == rsa_public_key->0@
                &&& c.monitor_password@ == monitor_password->0@
                &&& c.server_host@ == match server_host {
                    Some(h) => h@,
                    None => default_host(),
                }
                &&& c.server_port == port_of(
                    match server_port {
                        Some(s) => Some(s@),
                        None => None,
                    },
                )
            }),
    {
        let rsa_public_key = match rsa_public_key {
            Some(k) => k,
            None => {
                return Err(ConfigError::RsaPublicKeyMissing);
            },
        };
        let monitor_password = match monitor_password {
            Some(p) => p,
            None => {
                return Err(ConfigError::MonitorPasswordMissing);
            },
        };
        let server_host = match server_host {
            Some(h) => h,
            None => owned("0.0.0.0"),
        };
        let server_port = port_setting(server_port);
        Ok(Config { rsa_public_key, monitor_password, server_host, server_port })
    }

    /// The address to listen on, `host:port`.
    pub fn listen_address(&self) -> (r: String)
        ensures
            r@ == self.server_host@ + seq![':'] + decimal(self.server_port as nat),
    {
        let mut r = owned(self.server_host.as_str());
        push_char(&mut r, ':');
        push_decimal(&mut r, self.server_port as u32);
        r
    }
}

/// A port that is written out in the listen address reads back as the same port when it is
/// given as the port setting.
pub proof fn lemma_port_round_trip(p: u16)
    ensures
        port_of(Some(decimal(p as nat))) == p,
{
    lemma_parse_decimal_u16(p);
}

} // verus!
