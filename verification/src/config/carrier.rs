//! Raw carrier policy.
use crate::config::error::ConfigError;
use crate::config::path::FilePath;
use crate::crypto;
use crate::faketcp::cookie;
use crate::faketcp::tuple::{FourTuple, SynDataMode};
use vstd::prelude::*;

verus! {

/// The most bytes that a cookie secret has.
pub const MAX_COOKIE_SECRET_BYTES: usize = 64;

/// Raw `FakeTCP` carrier policy shared by client and server.
#[derive(Clone, Debug, PartialEq, Eq)]
pub struct CarrierConfig {
    pub(crate) cookie_secret_file: FilePath,
    pub(crate) packet_socket: bool,
}

/// The content of a carrier policy.
pub ghost struct CarrierPolicyModel {
    /// The file of the cookie secret.
    pub cookie_secret_file: FilePath,
    /// Whether packet sockets are used in both directions.
    pub packet_socket: bool,
}

impl View for CarrierConfig {
    type V = CarrierPolicyModel;

    closed spec fn view(&self) -> CarrierPolicyModel {
        CarrierPolicyModel { cookie_secret_file: self.cookie_secret_file, packet_socket: self.packet_socket }
    }
}

/// Why a carrier policy is refused, if it is.
pub open spec fn carrier_policy_refusal(config: CarrierPolicyModel) -> Option<ConfigError> {
    if config.cookie_secret_file.absolute {
        None
    } else {
        Some(ConfigError::CookieSecretPathNotAbsolute(config.cookie_secret_file))
    }
}

impl Default for CarrierConfig {
    fn default() -> (config: Self)
        ensures
            config@.cookie_secret_file.text@ == "/etc/quicp/carrier-cookie.secret"@,
            config@.cookie_secret_file.absolute,
            !config@.packet_socket,
    {
        proof {
            reveal_strlit("/etc/quicp/carrier-cookie.secret");
        }
        CarrierConfig {
            cookie_secret_file: FilePath::unix(String::from_str("/etc/quicp/carrier-cookie.secret")),
            packet_socket: false,
        }
    }
}

impl CarrierConfig {
    /// Creates a validated raw-carrier policy.
    pub fn new(cookie_secret_file: FilePath) -> (result: Result<Self, ConfigError>)
        ensures
            ({
                let given = CarrierPolicyModel { cookie_secret_file, packet_socket: false };
                match carrier_policy_refusal(given) {
                    Some(error) => result == Err::<Self, ConfigError>(error),
                    None => result matches Ok(config) && config@ == given,
                }
            }),
    {
        let config = CarrierConfig { cookie_secret_file, packet_socket: false };
        match config.validate() {
            Ok(()) => Ok(config),
            Err(error) => Err(error),
        }
    }

    /// Takes a policy as it was read. The configuration that holds it checks it.
    pub fn from_raw(cookie_secret_file: FilePath, packet_socket: bool) -> (config: Self)
        ensures
            config@ == (CarrierPolicyModel { cookie_secret_file, packet_socket }),
    {
        CarrierConfig { cookie_secret_file, packet_socket }
    }

    /// Selects filtered Linux packet sockets for the raw carrier.
    pub fn with_packet_socket(self, packet_socket: bool) -> (config: Self)
        ensures
            config@ == (CarrierPolicyModel { packet_socket, ..self@ }),
    {
        CarrierConfig { packet_socket, ..self }
    }

    /// Takes the owner-only SYN-cookie secret as it was read from its file, with no more
    /// than one byte beyond the limit.
    pub fn load_cookie_secret(&self, bytes: Vec<u8>) -> (result: Result<Vec<u8>, ConfigError>)
        ensures
            if bytes@.len() > MAX_COOKIE_SECRET_BYTES {
                result == Err::<Vec<u8>, ConfigError>(ConfigError::FileTooLarge(self@.cookie_secret_file))
            } else if bytes@.len() == 0 {
                result == Err::<Vec<u8>, ConfigError>(ConfigError::CookieSecretEmpty(self@.cookie_secret_file))
            } else {
                result == Ok::<Vec<u8>, ConfigError>(bytes)
            },
    {
        if bytes.len() > MAX_COOKIE_SECRET_BYTES {
            return Err(ConfigError::FileTooLarge(self.cookie_secret_file.clone()));
        }
        if bytes.len() == 0 {
            return Err(ConfigError::CookieSecretEmpty(self.cookie_secret_file.clone()));
        }
        Ok(bytes)
    }

    /// Creates the tuple-bound SYN cookie used by one path.
    pub fn syn_cookie_mode(&self, cookie_secret: &[u8], given: FourTuple, epoch: u64) -> (mode: SynDataMode)
        requires
            cookie_secret@.len() <= crypto::MAX_DIGEST_INPUT,
        ensures
            mode matches SynDataMode::Cookie(bytes) && bytes@ == cookie::cookie_of(cookie_secret@, given, epoch),
    {
        SynDataMode::Cookie(cookie::issue_syn_cookie(cookie_secret, given, epoch))
    }

    /// Returns the owner-only carrier-cookie secret path.
    pub fn cookie_secret_file(&self) -> (path: &FilePath)
        ensures
            *path == self@.cookie_secret_file,
    {
        &self.cookie_secret_file
    }

    /// Returns whether Linux packet sockets are selected over IP raw sockets.
    pub fn packet_socket(&self) -> (selected: bool)
        ensures
            selected == self@.packet_socket,
    {
        self.packet_socket
    }

    /// Checks the policy.
    pub(crate) fn validate(&self) -> (result: Result<(), ConfigError>)
        ensures
            match carrier_policy_refusal(self@) {
                Some(error) => result == Err::<(), ConfigError>(error),
                None => result is Ok,
            },
    {
        if !self.cookie_secret_file.absolute {
            return Err(ConfigError::CookieSecretPathNotAbsolute(self.cookie_secret_file.clone()));
        }
        Ok(())
    }
}

}
