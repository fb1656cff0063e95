//! Client configuration: the base URL of the server.

use vstd::prelude::*;

verus! {

/// Configuration for a client: holds the base server URL, e.g.
/// `http://localhost:11434`.
#[derive(Debug, Clone)]
pub struct OllamaConfig {
    pub url: String,
}

impl OllamaConfig {
    /// Builds a configuration from a base URL.
    pub fn from_url(url: &str) -> (c: Self)
        ensures
            c.url@ == url@,
    {
        let url = url.to_owned();
        Self { url }
    }
}

} // verus!
