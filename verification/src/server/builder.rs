//! The configuration a server is built from.

use vstd::prelude::*;
use crate::server::config::ServerConfig;
use crate::strutil::{decimal, push_decimal};
use crate::unicode::push_char;

verus! {

/// Builder for constructing a server: holds the configuration until the
/// listener is bound.
pub struct ServerBuilder {
    pub config: ServerConfig,
}

impl ServerConfig {
    /// The address the server binds to: `host:port`.
    pub fn bind_address(&self) -> (r: String)
        ensures
            r@ == self.host@ + seq![':'] + decimal(self.port as nat),
    {
        let mut r = String::new();
        r.append(self.host.as_str());
        push_char(&mut r, ':');
        push_decimal(&mut r, self.port as u64);
        assert(r@ =~= self.host@ + seq![':'] + decimal(self.port as nat));
        r
    }
}

} // verus!
