//! A bulb's address: a host together with the fixed control port.
//! The address identifies a device, not a connection; connecting to it
//! is the caller's I/O.

use vstd::prelude::*;
use vstd::string::*;

verus! {

/// The fixed TCP port every bulb listens on.
pub const BULB_PORT: u16 = 55443;

/// Address of one bulb.
#[derive(Clone, Debug)]
pub struct Bulb {
    host: String,
    port: u16,
}

impl Bulb {
    /// The host part of the address.
    pub closed spec fn spec_host(self) -> Seq<char> {
        self.host@
    }

    /// The port part of the address; always the fixed control port.
    pub closed spec fn spec_port(self) -> u16 {
        self.port
    }

    /// Addresses the bulb at `host` on the fixed control port.
    pub fn new(host: &str) -> (r: Self)
        ensures
            r.spec_host() == host@,
            r.spec_port() == 55443,
    {
        Bulb { host: host.to_owned(), port: BULB_PORT }
    }

    pub fn host(&self) -> (r: &str)
        ensures
            r@ == self.spec_host(),
    {
        self.host.as_str()
    }

    pub fn port(&self) -> (r: u16)
        ensures
            r == self.spec_port(),
    {
        self.port
    }
}

} // verus!
