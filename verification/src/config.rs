//! Where the server listens and where its database is.
use vstd::prelude::*;

verus! {

/// The server's settings.
#[derive(Debug)]
pub struct Config {
    host: String,
    port: u16,
    db_url: String,
}

/// `Config` as mathematics.
pub struct ConfigView {
    pub host: Seq<char>,
    pub port: u16,
    pub db_url: Seq<char>,
}

impl DeepView for Config {
    type V = ConfigView;

    closed spec fn deep_view(&self) -> ConfigView {
        ConfigView { host: self.host@, port: self.port, db_url: self.db_url@ }
    }
}

impl Config {
    /// The settings with the given values.
    pub fn new(host: String, port: u16, db_url: String) -> (config: Config)
        ensures
            config.deep_view() == (ConfigView { host: host@, port, db_url: db_url@ }),
    {
        Config { host, port, db_url }
    }

    /// The host and the port to listen on.
    pub fn get_address(&self) -> (address: (&str, u16))
        ensures
            address.0@ == self.deep_view().host,
            address.1 == self.deep_view().port,
    {
        (self.host.as_str(), self.port)
    }

    /// The URL of the database.
    pub fn get_db_url(&self) -> (url: &str)
        ensures
            url@ == self.deep_view().db_url,
    {
        self.db_url.as_str()
    }
}

} // verus!
