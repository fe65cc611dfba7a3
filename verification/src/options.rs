use vstd::prelude::*;
use crate::text::{parse_u16, parse_u16_spec};

verus! {

/// Server host used when neither the command line nor the build names one.
pub open spec fn default_host() -> Seq<char> {
    "127.0.0.1"@
}

/// Address to connect to when neither the command line nor the build names one.
pub open spec fn default_connect() -> Seq<char> {
    "ws://localhost:1155"@
}

/// Server port used when neither the command line nor the build names one.
pub const DEFAULT_PORT: u16 = 1155;

/// `value`'s text if there is one, else `default`.
pub open spec fn text_or(value: Option<&str>, default: Seq<char>) -> Seq<char> {
    match value {
        Some(s) => s@,
        None => default,
    }
}

/// A text setting after normalizing: an empty one takes the value fixed
/// at build time, or the default.
pub open spec fn normalized_text(current: Seq<char>, built: Option<&str>, default: Seq<char>) -> Seq<char> {
    if current.len() == 0 {
        text_or(built, default)
    } else {
        current
    }
}

/// The port after normalizing: port 0 takes the port fixed at build time,
/// or `DEFAULT_PORT`.
pub open spec fn normalized_port(current: u16, built: Option<&str>) -> u16 {
    if current == 0 {
        match built {
            Some(s) => parse_u16_spec(s@)->0,
            None => DEFAULT_PORT,
        }
    } else {
        current
    }
}

/// A port fixed at build time, when one is needed, must be a valid port.
pub open spec fn port_is_usable(current: u16, built: Option<&str>) -> bool {
    current == 0 && built is Some ==> parse_u16_spec(built->0@) is Some
}

/// Where the server listens and where the client connects.
pub struct NetOpts {
    pub server_host: String,
    pub server_port: u16,
    pub connect: String,
}

/// Everything the program is started with.
pub struct Opts {
    pub net_opts: NetOpts,
    pub name: String,
    pub no_client: bool,
    pub start_server: bool,
}

/// The text of `value`, or of `default` when there is none.
fn owned_or(value: Option<&str>, default: &str) -> (text: String)
    ensures
        text@ == text_or(value, default@),
{
    match value {
        Some(s) => s.to_owned(),
        None => default.to_owned(),
    }
}

impl NetOpts {
    /// Fills in what was left unset (an empty text, port 0) with the value
    /// fixed at build time (`built_host`, `built_port`, `built_connect`),
    /// or else with the default.
    pub fn normalize(&mut self, built_host: Option<&str>, built_port: Option<&str>, built_connect: Option<&str>)
        requires
            port_is_usable(old(self).server_port, built_port),
        ensures
            final(self).server_host@ == normalized_text(old(self).server_host@, built_host, default_host()),
            final(self).server_port == normalized_port(old(self).server_port, built_port),
            final(self).connect@ == normalized_text(old(self).connect@, built_connect, default_connect()),
    {
        if self.server_host.as_str().is_empty() {
            self.server_host = owned_or(built_host, "127.0.0.1");
        }
        if self.server_port == 0 {
            self.server_port = match built_port {
                Some(text) => parse_u16(text).unwrap(),
                None => DEFAULT_PORT,
            };
        }
        if self.connect.as_str().is_empty() {
            self.connect = owned_or(built_connect, "ws://localhost:1155");
        }
    }
}

impl Opts {
    /// Normalizes the network options; see `NetOpts::normalize`.
    pub fn normalize(&mut self, built_host: Option<&str>, built_port: Option<&str>, built_connect: Option<&str>)
        requires
            port_is_usable(old(self).net_opts.server_port, built_port),
        ensures
            final(self).net_opts.server_host@ == normalized_text(old(self).net_opts.server_host@, built_host, default_host()),
            final(self).net_opts.server_port == normalized_port(old(self).net_opts.server_port, built_port),
            final(self).net_opts.connect@ == normalized_text(old(self).net_opts.connect@, built_connect, default_connect()),
            final(self).name@ == old(self).name@,
            final(self).no_client == old(self).no_client,
            final(self).start_server == old(self).start_server,
    {
        self.net_opts.normalize(built_host, built_port, built_connect);
    }
}

/// Normalizing twice with the same build-time values is normalizing once.
pub proof fn lemma_normalize_idempotent(
    host: Seq<char>,
    port: u16,
    connect: Seq<char>,
    built_host: Option<&str>,
    built_port: Option<&str>,
    built_connect: Option<&str>,
)
    requires
        port_is_usable(port, built_port),
    ensures
        port_is_usable(normalized_port(port, built_port), built_port),
        normalized_text(normalized_text(host, built_host, default_host()), built_host, default_host())
            == normalized_text(host, built_host, default_host()),
        normalized_port(normalized_port(port, built_port), built_port) == normalized_port(port, built_port),
        normalized_text(normalized_text(connect, built_connect, default_connect()), built_connect, default_connect())
            == normalized_text(connect, built_connect, default_connect()),
{
}

} // verus!

verus! {

/// What normalizing does to each setting, whatever was fixed at build time:
/// a text the user gave (non-empty) and a port the user gave (non-zero) are
/// kept as they are; an empty text takes the build-time text, or the
/// default when there is none; port 0 takes the build-time port, or
/// `DEFAULT_PORT` when there is none.
pub proof fn lemma_normalize_keeps_given(
    host: Seq<char>,
    port: u16,
    connect: Seq<char>,
    built_host: Option<&str>,
    built_port: Option<&str>,
    built_connect: Option<&str>,
)
    ensures
        host.len() > 0 ==> normalized_text(host, built_host, default_host()) == host,
        connect.len() > 0 ==> normalized_text(connect, built_connect, default_connect()) == connect,
        port != 0 ==> normalized_port(port, built_port) == port,
        host.len() == 0 && built_host is None ==> normalized_text(host, built_host, default_host()) == default_host(),
        host.len() == 0 && built_host is Some ==> normalized_text(host, built_host, default_host()) == built_host->0@,
        connect.len() == 0 && built_connect is None
            ==> normalized_text(connect, built_connect, default_connect()) == default_connect(),
        connect.len() == 0 && built_connect is Some
            ==> normalized_text(connect, built_connect, default_connect()) == built_connect->0@,
        port == 0 && built_port is None ==> normalized_port(port, built_port) == DEFAULT_PORT,
        port == 0 && built_port is Some && parse_u16_spec(built_port->0@) is Some
            ==> normalized_port(port, built_port) == parse_u16_spec(built_port->0@)->0,
{
}

} // verus!
