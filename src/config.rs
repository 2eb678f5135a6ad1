use vstd::prelude::*;

use crate::Error;

verus! {

/// The run's configuration: the endpoints to race, and where the two accounts' keys lie.
#[derive(Debug, Clone)]
pub struct Config {
    pub rpc_urls: Vec<String>,
    pub keypair_path_1: String,
    pub keypair_path_2: String,
}

impl Config {
    /// Accepts a configuration that names at least two endpoints, as a race needs.
    pub fn validate(self) -> (r: Result<Config, Error>)
        ensures
            self.rpc_urls@.len() == 0 ==> r == Err::<Config, Error>(Error::NoRpcUrls),
            self.rpc_urls@.len() == 1 ==> r == Err::<Config, Error>(Error::InsufficientRpcUrls),
            self.rpc_urls@.len() >= 2 ==> r == Ok::<Config, Error>(self),
    {
        if self.rpc_urls.len() == 0 {
            return Err(Error::NoRpcUrls);
        }
        if self.rpc_urls.len() < 2 {
            return Err(Error::InsufficientRpcUrls);
        }
        Ok(self)
    }
}

} // verus!
