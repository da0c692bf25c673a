use vstd::prelude::*;

verus! {

/// The port the server listens on when nothing else is configured.
pub const DEFAULT_PORT: u16 = 2222;

/// Seconds of silence after which a connection is dropped, by default.
pub const DEFAULT_INACTIVITY_TIMEOUT: u64 = 3600;

/// Seconds an authentication rejection is delayed, by default.
pub const DEFAULT_REJECTION_TIME: u64 = 3;

/// Startup configuration of the server.
pub struct RustTunnelConfig {
    pub port: u16,
    /// Paths of the server's private keys (OpenSSH PEM files only for now).
    pub server_keys: Vec<String>,
    pub inactivity_timeout: u64,
    pub rejection_time: u64,
    pub routes: Vec<String>,
}

impl RustTunnelConfig {
    /// The configuration in force when no file sets anything: the default
    /// port and timeouts, no key files (a fresh key is generated) and no routes.
    pub open spec fn is_default(&self) -> bool {
        &&& self.port == DEFAULT_PORT
        &&& self.server_keys@.len() == 0
        &&& self.inactivity_timeout == DEFAULT_INACTIVITY_TIMEOUT
        &&& self.rejection_time == DEFAULT_REJECTION_TIME
        &&& self.routes@.len() == 0
    }

    /// The port to listen on: one given on the command line overrides the
    /// configured one.
    pub fn listen_port(&self, requested: Option<u16>) -> (r: u16)
        ensures
            r == match requested {
                Some(p) => p,
                None => self.port,
            },
    {
        match requested {
            Some(p) => p,
            None => self.port,
        }
    }
}

impl Default for RustTunnelConfig {
    fn default() -> (r: RustTunnelConfig)
        ensures
            r.is_default(),
    {
        RustTunnelConfig {
            port: DEFAULT_PORT,
            server_keys: Vec::new(),
            inactivity_timeout: DEFAULT_INACTIVITY_TIMEOUT,
            rejection_time: DEFAULT_REJECTION_TIME,
            routes: Vec::new(),
        }
    }
}

} // verus!
