//! TLS settings.
use crate::config::error::ConfigError;
use crate::config::path::FilePath;
use vstd::prelude::*;

verus! {

/// TLS settings for a QUICP client.
#[derive(Clone, Debug, PartialEq, Eq)]
pub struct ClientTls {
    pub(crate) server_name: String,
    pub(crate) ca_cert: FilePath,
    pub(crate) client_cert: FilePath,
    pub(crate) client_key: FilePath,
}

/// The content of client TLS settings.
pub ghost struct ClientTlsModel {
    /// The name of the server.
    pub server_name: String,
    /// The file of the certificate authority.
    pub ca_cert: FilePath,
    /// The file of the client's certificate.
    pub client_cert: FilePath,
    /// The file of the client's key.
    pub client_key: FilePath,
}

impl View for ClientTls {
    type V = ClientTlsModel;

    closed spec fn view(&self) -> ClientTlsModel {
        ClientTlsModel {
            server_name: self.server_name,
            ca_cert: self.ca_cert,
            client_cert: self.client_cert,
            client_key: self.client_key,
        }
    }
}

/// Why one of three files of TLS material is refused, if one is: the first that has a
/// relative path.
pub open spec fn material_refusal(first: FilePath, second: FilePath, third: FilePath) -> Option<ConfigError> {
    if !first.absolute {
        Some(ConfigError::TlsPathNotAbsolute(first))
    } else if !second.absolute {
        Some(ConfigError::TlsPathNotAbsolute(second))
    } else if !third.absolute {
        Some(ConfigError::TlsPathNotAbsolute(third))
    } else {
        None
    }
}

/// Why client TLS settings are refused, if they are.
pub open spec fn client_tls_refusal(tls: ClientTlsModel) -> Option<ConfigError> {
    if tls.server_name@.len() == 0 {
        Some(ConfigError::EmptyTlsServerName)
    } else {
        material_refusal(tls.ca_cert, tls.client_cert, tls.client_key)
    }
}

fn validate_tls_paths(first: &FilePath, second: &FilePath, third: &FilePath) -> (result: Result<(), ConfigError>)
    ensures
        match material_refusal(*first, *second, *third) {
            Some(error) => result == Err::<(), ConfigError>(error),
            None => result is Ok,
        },
{
    if !first.absolute {
        return Err(ConfigError::TlsPathNotAbsolute(first.clone()));
    }
    if !second.absolute {
        return Err(ConfigError::TlsPathNotAbsolute(second.clone()));
    }
    if !third.absolute {
        return Err(ConfigError::TlsPathNotAbsolute(third.clone()));
    }
    Ok(())
}

impl ClientTls {
    /// Creates validated client TLS settings.
    pub fn new(server_name: String, ca_cert: FilePath, client_cert: FilePath, client_key: FilePath) -> (result: Result<
        Self,
        ConfigError,
    >)
        ensures
            ({
                let given = ClientTlsModel { server_name, ca_cert, client_cert, client_key };
                match client_tls_refusal(given) {
                    Some(error) => result == Err::<Self, ConfigError>(error),
                    None => result matches Ok(tls) && tls@ == given,
                }
            }),
    {
        let tls = ClientTls { server_name, ca_cert, client_cert, client_key };
        match tls.validate() {
            Ok(()) => Ok(tls),
            Err(error) => Err(error),
        }
    }

    /// Takes settings as they were read. The configuration that holds them checks them.
    pub fn from_raw(server_name: String, ca_cert: FilePath, client_cert: FilePath, client_key: FilePath) -> (tls: Self)
        ensures
            tls@ == (ClientTlsModel { server_name, ca_cert, client_cert, client_key }),
    {
        ClientTls { server_name, ca_cert, client_cert, client_key }
    }

    /// Checks the settings.
    pub(crate) fn validate(&self) -> (result: Result<(), ConfigError>)
        ensures
            match client_tls_refusal(self@) {
                Some(error) => result == Err::<(), ConfigError>(error),
                None => result is Ok,
            },
    {
        if self.server_name.as_str().unicode_len() == 0 {
            return Err(ConfigError::EmptyTlsServerName);
        }
        validate_tls_paths(&self.ca_cert, &self.client_cert, &self.client_key)
    }

    /// Returns the server name authenticated by TLS.
    pub fn server_name(&self) -> (name: &str)
        ensures
            name@ == self@.server_name@,
    {
        self.server_name.as_str()
    }

    /// Returns the trusted certificate-authority file.
    pub fn ca_cert(&self) -> (path: &FilePath)
        ensures
            *path == self@.ca_cert,
    {
        &self.ca_cert
    }

    /// Returns the client certificate-chain file.
    pub fn client_cert(&self) -> (path: &FilePath)
        ensures
            *path == self@.client_cert,
    {
        &self.client_cert
    }

    /// Returns the client private-key file.
    pub fn client_key(&self) -> (path: &FilePath)
        ensures
            *path == self@.client_key,
    {
        &self.client_key
    }
}

/// TLS settings for a QUICP server.
#[derive(Clone, Debug, PartialEq, Eq)]
pub struct ServerTls {
    pub(crate) server_cert: FilePath,
    pub(crate) server_key: FilePath,
    pub(crate) client_ca: FilePath,
}

/// The content of server TLS settings.
pub ghost struct ServerTlsModel {
    /// The file of the server's certificate.
    pub server_cert: FilePath,
    /// The file of the server's key.
    pub server_key: FilePath,
    /// The file of the clients' certificate authority.
    pub client_ca: FilePath,
}

impl View for ServerTls {
    type V = ServerTlsModel;

    closed spec fn view(&self) -> ServerTlsModel {
        ServerTlsModel { server_cert: self.server_cert, server_key: self.server_key, client_ca: self.client_ca }
    }
}

/// Why server TLS settings are refused, if they are.
pub open spec fn server_tls_refusal(tls: ServerTlsModel) -> Option<ConfigError> {
    material_refusal(tls.server_cert, tls.server_key, tls.client_ca)
}

impl ServerTls {
    /// Creates validated server TLS settings.
    pub fn new(server_cert: FilePath, server_key: FilePath, client_ca: FilePath) -> (result: Result<Self, ConfigError>)
        ensures
            ({
                let given = ServerTlsModel { server_cert, server_key, client_ca };
                match server_tls_refusal(given) {
                    Some(error) => result == Err::<Self, ConfigError>(error),
                    None => result matches Ok(tls) && tls@ == given,
                }
            }),
    {
        let tls = ServerTls { server_cert, server_key, client_ca };
        match tls.validate() {
            Ok(()) => Ok(tls),
            Err(error) => Err(error),
        }
    }

    /// Takes settings as they were read. The configuration that holds them checks them.
    pub fn from_raw(server_cert: FilePath, server_key: FilePath, client_ca: FilePath) -> (tls: Self)
        ensures
            tls@ == (ServerTlsModel { server_cert, server_key, client_ca }),
    {
        ServerTls { server_cert, server_key, client_ca }
    }

    /// Checks the settings.
    pub(crate) fn validate(&self) -> (result: Result<(), ConfigError>)
        ensures
            match server_tls_refusal(self@) {
                Some(error) => result == Err::<(), ConfigError>(error),
                None => result is Ok,
            },
    {
        validate_tls_paths(&self.server_cert, &self.server_key, &self.client_ca)
    }

    /// Returns the server certificate-chain file.
    pub fn server_cert(&self) -> (path: &FilePath)
        ensures
            *path == self@.server_cert,
    {
        &self.server_cert
    }

    /// Returns the server private-key file.
    pub fn server_key(&self) -> (path: &FilePath)
        ensures
            *path == self@.server_key,
    {
        &self.server_key
    }

    /// Returns the certificate authority used to authenticate clients.
    pub fn client_ca(&self) -> (path: &FilePath)
        ensures
            *path == self@.client_ca,
    {
        &self.client_ca
    }
}

}
