//! Options of the HTTP server.
use vstd::prelude::*;

verus! {

/// Options of the HTTP server.
#[derive(Clone, Debug)]
pub struct ServerOptions {
    /// The port.
    pub port: u16,
    /// The address that the server binds to.
    pub host: String,
    /// Whether the web interface is left out.
    pub no_ui: bool,
    /// How many rounds of tool calls a request has at most, unless it says otherwise.
    pub max_tool_rounds: Option<usize>,
    /// Where tool calls are sent to.
    pub tool_dispatch_url: Option<String>,
    /// The origins that may call the server; all of them if there is no list.
    pub cors_origins: Option<Vec<String>>,
    /// What the paths of the documentation begin with.
    pub base_path: Option<String>,
    /// Whether the server has pages of documentation.
    pub include_swagger_routes: bool,
    /// How many bytes the body of a request has at most.
    pub max_body_limit: Option<usize>,
}

/// The part of a configuration that is about the server.
#[derive(Clone, Debug)]
pub struct ServerConfig {
    pub server: Option<ServerOptions>,
}

/// The port if none is given.
pub fn default_port() -> (port: u16)
    ensures
        port == 1234,
{
    1234
}

/// The address if none is given: all of them.
pub fn default_host() -> (host: String)
    ensures
        host@ == "0.0.0.0"@,
{
    "0.0.0.0".to_owned()
}

/// What a switch is that is on if it is not given.
pub fn default_true() -> (on: bool)
    ensures
        on,
{
    true
}

impl Default for ServerOptions {
    fn default() -> (options: Self)
        ensures
            options.port == 1234,
            options.host@ == "0.0.0.0"@,
            !options.no_ui,
            options.max_tool_rounds is None,
            options.tool_dispatch_url is None,
            options.cors_origins is None,
            options.base_path is None,
            options.include_swagger_routes,
            options.max_body_limit is None,
    {
        ServerOptions {
            port: default_port(),
            host: default_host(),
            no_ui: false,
            max_tool_rounds: None,
            tool_dispatch_url: None,
            cors_origins: None,
            base_path: None,
            include_swagger_routes: default_true(),
            max_body_limit: None,
        }
    }
}

impl Default for ServerConfig {
    fn default() -> (config: Self)
        ensures
            config.server is None,
    {
        ServerConfig { server: None }
    }
}

} // verus!
