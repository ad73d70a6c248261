//! The server's configuration.

use crate::text::{decimal, push_decimal};
use vstd::prelude::*;
use vstd::string::*;

verus! {

/// What the server is started with.
#[derive(Debug)]
pub struct Args {
    /// Path to the index HTML file
    pub index_path: String,
    /// Port to listen on
    pub port: u16,
    /// Address to bind to
    pub addr: String,
    /// Metrics server port
    pub metrics_port: u16,
    /// Enable TLS with self-signed certificate
    pub tls: bool,
}

/// The file the document is read from unless another is given.
pub const DEFAULT_INDEX_PATH: &'static str = "index.html";

/// The address bound to unless another is given.
pub const DEFAULT_ADDR: &'static str = "127.0.0.1";

/// The port the document is served on unless another is given.
pub const DEFAULT_PORT: u16 = 3000;

/// The port the metrics are exposed on unless another is given.
pub const DEFAULT_METRICS_PORT: u16 = 3001;

/// The address `addr` with `port`, as a socket address is written.
pub open spec fn socket_address(addr: Seq<char>, port: u16) -> Seq<char> {
    addr + seq![':'] + decimal(port as nat)
}

impl Default for Args {
    /// The configuration where nothing is given: `index.html` on
    /// `127.0.0.1:3000`, the metrics on port 3001, no TLS.
    fn default() -> (args: Args)
        ensures
            args.index_path@ == DEFAULT_INDEX_PATH@,
            args.port == DEFAULT_PORT,
            args.addr@ == DEFAULT_ADDR@,
            args.metrics_port == DEFAULT_METRICS_PORT,
            args.tls == false,
    {
        Args {
            index_path: DEFAULT_INDEX_PATH.to_owned(),
            port: DEFAULT_PORT,
            addr: DEFAULT_ADDR.to_owned(),
            metrics_port: DEFAULT_METRICS_PORT,
            tls: false,
        }
    }
}

/// Writes out the socket address of `addr` and `port`.
fn write_address(addr: &String, port: u16) -> (address: String)
    ensures
        address@ == socket_address(addr@, port),
{
    let mut address = addr.clone();
    proof {
        reveal_strlit(":");
    }
    address.append(":");
    push_decimal(&mut address, port as u64);
    proof {
        assert(":"@ =~= seq![':']);
        assert(address@ =~= socket_address(addr@, port));
    }
    address
}

impl Args {
    /// The socket address the document is served on.
    pub fn address(&self) -> (address: String)
        ensures
            address@ == socket_address(self.addr@, self.port),
    {
        write_address(&self.addr, self.port)
    }

    /// The socket address the metrics are exposed on.
    pub fn metrics_address(&self) -> (address: String)
        ensures
            address@ == socket_address(self.addr@, self.metrics_port),
    {
        write_address(&self.addr, self.metrics_port)
    }
}

} // verus!
