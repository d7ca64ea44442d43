use vstd::prelude::*;

verus! {

/// The environment value of `app_environment` that turns on graceful shutdown.
pub open spec fn production_name() -> Seq<char> {
    seq!['p', 'r', 'o', 'd', 'u', 'c', 't', 'i', 'o', 'n']
}

/// Settings read once at startup from the process environment.
#[derive(Clone, Debug)]
pub struct AppConfig {
    pub app_name: String,
    pub app_environment: String,
    pub log_level: String,
}

/// Name used when `app_name` is not set.
pub fn default_app_name() -> (r: String)
    ensures
        r@ == "http-file-server-example"@,
{
    "http-file-server-example".to_owned()
}

/// Environment used when `app_environment` is not set.
pub fn default_app_environment() -> (r: String)
    ensures
        r@ == "development"@,
{
    "development".to_owned()
}

/// Log filter used when `log_level` is not set.
pub fn default_log_level() -> (r: String)
    ensures
        r@ == "debug"@,
{
    "debug".to_owned()
}

impl AppConfig {
    /// Builds the configuration from the values found in the environment,
    /// substituting the default for each value that is absent.
    pub fn from_values(
        app_name: Option<String>,
        app_environment: Option<String>,
        log_level: Option<String>,
    ) -> (r: AppConfig)
        ensures
            r.app_name@ == (match app_name {
                Some(v) => v@,
                None => "http-file-server-example"@,
            }),
            r.app_environment@ == (match app_environment {
                Some(v) => v@,
                None => "development"@,
            }),
            r.log_level@ == (match log_level {
                Some(v) => v@,
                None => "debug"@,
            }),
    {
        let app_name = match app_name {
            Some(v) => v,
            None => default_app_name(),
        };
        let app_environment = match app_environment {
            Some(v) => v,
            None => default_app_environment(),
        };
        let log_level = match log_level {
            Some(v) => v,
            None => default_log_level(),
        };
        AppConfig { app_name, app_environment, log_level }
    }

    /// Whether the process runs in production mode, which installs graceful
    /// shutdown.
    pub fn is_production(&self) -> (r: bool)
        ensures
            r == (self.app_environment@ == production_name()),
    {
        let p = "production";
        proof {
            reveal_strlit("production");
        }
        let wanted = p.to_owned();
        assert(wanted@ =~= production_name());
        self.app_environment == wanted
    }
}

/// Seconds a request may take before it is answered with a timeout.
pub const REQUEST_TIMEOUT_SECS: u64 = 10;

/// Port the server listens on, on all interfaces.
pub const PORT: u16 = 8000;

/// What the server runs with, fixed for the life of the process.
pub struct ServerConfig {
    /// Directory whose files are served.
    pub root_directory: String,
    /// The resource served for every path that names no file.
    pub fallback_path: String,
    /// IPv4 address to bind, as four octets.
    pub bind_octets: [u8; 4],
    pub port: u16,
    pub request_timeout_secs: u64,
    /// Whether a shutdown waits for requests in flight.
    pub graceful_shutdown: bool,
}

impl ServerConfig {
    /// The server settings for an application configuration: files under
    /// `public`, falling back to `public/index.html`, on port 8000 of all
    /// interfaces, with a ten second timeout and graceful shutdown in
    /// production only.
    pub fn from_app_config(app: &AppConfig) -> (r: ServerConfig)
        ensures
            r.root_directory@ == "public"@,
            r.fallback_path@ == "public/index.html"@,
            r.bind_octets@ == seq![0u8, 0u8, 0u8, 0u8],
            r.port == PORT,
            r.request_timeout_secs == REQUEST_TIMEOUT_SECS,
            r.graceful_shutdown == (app.app_environment@ == production_name()),
    {
        let bind_octets: [u8; 4] = [0u8, 0u8, 0u8, 0u8];
        assert(bind_octets@ =~= seq![0u8, 0u8, 0u8, 0u8]);
        ServerConfig {
            root_directory: "public".to_owned(),
            fallback_path: "public/index.html".to_owned(),
            bind_octets,
            port: PORT,
            request_timeout_secs: REQUEST_TIMEOUT_SECS,
            graceful_shutdown: app.is_production(),
        }
    }
}

} // verus!
