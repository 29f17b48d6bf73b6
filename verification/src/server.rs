//! The server's own state: the host and port it binds, and the
//! rendering of its per-request log line.  The listener around it
//! accepts connections, reads one bounded buffer per connection, and
//! drives the parser, the registry and the response writer from this
//! library; those loops block on sockets and so live with the process,
//! not here.

use vstd::prelude::*;

verus! {

/// The bind configuration of the server.
pub struct HTTPServer {
    pub port: String,
    pub host: String,
}

impl HTTPServer {
    /// The default configuration: `localhost:8080`.
    pub fn from_default() -> (r: HTTPServer)
        ensures
            r.host@ == "localhost"@,
            r.port@ == "8080"@,
    {
        HTTPServer { port: String::from_str("8080"), host: String::from_str("localhost") }
    }

    /// A configuration from optional parts; either side missing falls
    /// back to `8080`.
    pub fn new(host: Option<&str>, port: Option<&str>) -> (r: HTTPServer)
        ensures
            r.port@ == match port {
                Some(p) => p@,
                None => "8080"@,
            },
            r.host@ == match host {
                Some(h) => h@,
                None => "8080"@,
            },
    {
        HTTPServer {
            port: String::from_str(
                match port {
                    Some(p) => p,
                    None => "8080",
                },
            ),
            host: String::from_str(
                match host {
                    Some(h) => h,
                    None => "8080",
                },
            ),
        }
    }

    /// The `host:port` string the listener binds.
    pub fn bind_address(&self) -> (r: String)
        ensures
            r@ == self.host@ + ":"@ + self.port@,
    {
        let mut out = self.host.clone();
        out.append(":");
        out.append(self.port.as_str());
        out
    }
}

/// The one log line written after each dispatched request: the client
/// address, the local address with the requested path appended, and the
/// elapsed time.
pub open spec fn spec_log_line(
    client: Seq<char>,
    local: Seq<char>,
    endpoint: Seq<char>,
    elapsed: Seq<char>,
) -> Seq<char> {
    "Received request from "@ + client + " on local "@ + local + endpoint + " - "@ + elapsed
}

/// Renders the per-request log line, as [`spec_log_line`] describes.
pub fn request_log_line(client: &str, local: &str, endpoint: &str, elapsed: &str) -> (r: String)
    ensures
        r@ == spec_log_line(client@, local@, endpoint@, elapsed@),
{
    let mut out = String::from_str("Received request from ");
    out.append(client);
    out.append(" on local ");
    out.append(local);
    out.append(endpoint);
    out.append(" - ");
    out.append(elapsed);
    proof {
        assert(out@ =~= spec_log_line(client@, local@, endpoint@, elapsed@));
    }
    out
}

} // verus!
