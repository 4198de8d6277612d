//! Configuration consumed by the surrounding process: transport selection,
//! bind address and the storage file path. Reading a configuration file
//! belongs to the process around the library; the types, their defaults
//! and their meaning are fixed here.

use vstd::prelude::*;
use vstd::string::StringExecFns;

verus! {

/// Transport and binding configuration of the serving process.
#[derive(Debug, Clone)]
pub struct ServerConfig {
    /// Transport mode: `stdio` or `http`.
    pub transport: String,
    /// Bind address, used only with the `http` transport.
    pub bind_address: String,
    /// Port, used only with the `http` transport.
    pub port: u16,
}

/// Storage configuration of the serving process.
#[derive(Debug, Clone)]
pub struct DatabaseConfig {
    /// Path of the storage file.
    pub path: String,
}

/// The whole configuration of the serving process.
#[derive(Debug, Clone)]
pub struct Config {
    /// Transport and binding.
    pub server: ServerConfig,
    /// Storage.
    pub database: DatabaseConfig,
}

/// The default transport mode.
pub fn default_transport() -> (r: String)
    ensures
        r@ == "stdio"@,
{
    String::from_str("stdio")
}

/// The default bind address.
pub fn default_bind_address() -> (r: String)
    ensures
        r@ == "0.0.0.0"@,
{
    String::from_str("0.0.0.0")
}

/// The default port.
pub fn default_port() -> (r: u16)
    ensures
        r == 3000,
{
    3000
}

/// The default storage file path.
pub fn default_database_path() -> (r: String)
    ensures
        r@ == "./ottershipper.db"@,
{
    String::from_str("./ottershipper.db")
}

impl Default for ServerConfig {
    /// Standard input and output as the transport, with the default
    /// address and port should a caller switch to `http`.
    fn default() -> (r: ServerConfig)
        ensures
            r.transport@ == "stdio"@,
            r.bind_address@ == "0.0.0.0"@,
            r.port == 3000,
    {
        ServerConfig {
            transport: default_transport(),
            bind_address: default_bind_address(),
            port: default_port(),
        }
    }
}

impl Default for DatabaseConfig {
    /// The default storage file path.
    fn default() -> (r: DatabaseConfig)
        ensures
            r.path@ == "./ottershipper.db"@,
    {
        DatabaseConfig { path: default_database_path() }
    }
}

impl Default for Config {
    /// Every part at its default.
    fn default() -> (r: Config)
        ensures
            r.server.transport@ == "stdio"@,
            r.server.bind_address@ == "0.0.0.0"@,
            r.server.port == 3000,
            r.database.path@ == "./ottershipper.db"@,
    {
        Config { server: ServerConfig::default(), database: DatabaseConfig::default() }
    }
}

} // verus!
