//! What the application is configured with, and where that configuration comes from.

use crate::text::eq_ignore_ascii_case;
use vstd::prelude::*;

verus! {

/// The environment variable that names the configuration file.
pub const ENV_VAR_PATH: &'static str = "CONFIG_PATH";

/// The environment variable that tells development from production.
pub const ENV_VAR_MODE: &'static str = "ENV";

/// The prefix of the environment variables that override the configuration file.
pub const ENV_PREFIX: &'static str = "BUMACS";

/// What stands between the parts of such a variable's name: `BUMACS_SERVER_PORT` is `server.port`.
pub const ENV_SEPARATOR: &'static str = "_";

/// Where the server listens.
#[derive(Debug)]
pub struct ServerConfig {
    pub host: String,
    pub port: u16,
}

/// How the database is reached.
#[derive(Debug)]
pub struct DatabaseConfig {
    pub url: String,
    pub username: String,
    pub password: String,
    pub namespace: String,
    pub database: String,
}

/// Which security headers the server sends.
#[derive(Debug)]
pub struct SecurityConfig {
    /// Enable HSTS header (Strict-Transport-Security)
    pub enable_hsts: bool,
    /// HSTS max-age in seconds (default: 1 year)
    pub hsts_max_age: u32,
    /// Include subdomains in HSTS
    pub hsts_include_subdomains: bool,
    /// Enable HSTS preload
    pub hsts_preload: bool,
    /// Content Security Policy header value (empty = disabled)
    pub content_security_policy: Option<String>,
    /// CORS allowed origins (empty = disabled, "*" = all origins)
    pub cors_origins: Vec<String>,
    /// Enable additional security headers (X-Content-Type-Options, X-Frame-Options, etc.)
    pub enable_security_headers: bool,
}

/// Why there is no configuration.
#[derive(Debug)]
pub enum ConfigError {
    LoadError(String),
    NotFound(String),
    /// What the configuration reader reports, as text.
    Config(String),
}

pub struct ServerConfigView {
    pub host: Seq<char>,
    pub port: u16,
}

pub struct DatabaseConfigView {
    pub url: Seq<char>,
    pub username: Seq<char>,
    pub password: Seq<char>,
    pub namespace: Seq<char>,
    pub database: Seq<char>,
}

pub struct SecurityConfigView {
    pub enable_hsts: bool,
    pub hsts_max_age: u32,
    pub hsts_include_subdomains: bool,
    pub hsts_preload: bool,
    pub content_security_policy: Option<Seq<char>>,
    pub cors_origins: Seq<Seq<char>>,
    pub enable_security_headers: bool,
}

pub enum ConfigErrorView {
    LoadError(Seq<char>),
    NotFound(Seq<char>),
    Config(Seq<char>),
}

/// The text in `s`, if there is one.
pub open spec fn optional_text(s: Option<String>) -> Option<Seq<char>> {
    match s {
        None => None,
        Some(text) => Some(text@),
    }
}

impl View for ServerConfig {
    type V = ServerConfigView;

    open spec fn view(&self) -> ServerConfigView {
        ServerConfigView { host: self.host@, port: self.port }
    }
}

impl View for DatabaseConfig {
    type V = DatabaseConfigView;

    open spec fn view(&self) -> DatabaseConfigView {
        DatabaseConfigView {
            url: self.url@,
            username: self.username@,
            password: self.password@,
            namespace: self.namespace@,
            database: self.database@,
        }
    }
}

impl View for SecurityConfig {
    type V = SecurityConfigView;

    open spec fn view(&self) -> SecurityConfigView {
        SecurityConfigView {
            enable_hsts: self.enable_hsts,
            hsts_max_age: self.hsts_max_age,
            hsts_include_subdomains: self.hsts_include_subdomains,
            hsts_preload: self.hsts_preload,
            content_security_policy: optional_text(self.content_security_policy),
            cors_origins: self.cors_origins@.map_values(|s: String| s@),
            enable_security_headers: self.enable_security_headers,
        }
    }
}

impl View for ConfigError {
    type V = ConfigErrorView;

    open spec fn view(&self) -> ConfigErrorView {
        match self {
            ConfigError::LoadError(reason) => ConfigErrorView::LoadError(reason@),
            ConfigError::NotFound(reason) => ConfigErrorView::NotFound(reason@),
            ConfigError::Config(reason) => ConfigErrorView::Config(reason@),
        }
    }
}

impl Clone for ServerConfig {
    fn clone(&self) -> (r: Self)
        ensures
            r@ == self@,
    {
        ServerConfig { host: self.host.clone(), port: self.port }
    }
}

impl Clone for DatabaseConfig {
    fn clone(&self) -> (r: Self)
        ensures
            r@ == self@,
    {
        DatabaseConfig {
            url: self.url.clone(),
            username: self.username.clone(),
            password: self.password.clone(),
            namespace: self.namespace.clone(),
            database: self.database.clone(),
        }
    }
}

impl Clone for SecurityConfig {
    fn clone(&self) -> (r: Self)
        ensures
            r@ == self@,
    {
        let r = SecurityConfig {
            enable_hsts: self.enable_hsts,
            hsts_max_age: self.hsts_max_age,
            hsts_include_subdomains: self.hsts_include_subdomains,
            hsts_preload: self.hsts_preload,
            content_security_policy: self.content_security_policy.clone(),
            cors_origins: self.cors_origins.clone(),
            enable_security_headers: self.enable_security_headers,
        };
        assert(r@.cors_origins =~= self@.cors_origins);
        r
    }
}

/// The default HSTS max-age: one year, in seconds.
pub fn default_hsts_max_age() -> (r: u32)
    ensures
        r == 365 * 24 * 60 * 60,
{
    31536000
}

/// The default of the settings that are on unless switched off.
pub fn default_true() -> (r: bool)
    ensures
        r,
{
    true
}

impl SecurityConfigView {
    /// HSTS and CSP off, every origin allowed, the additional headers on.
    pub open spec fn defaults() -> SecurityConfigView {
        SecurityConfigView {
            enable_hsts: false,
            hsts_max_age: 31536000,
            hsts_include_subdomains: true,
            hsts_preload: false,
            content_security_policy: None,
            cors_origins: seq![seq!['*']],
            enable_security_headers: true,
        }
    }
}

impl Default for SecurityConfig {
    fn default() -> (r: Self)
        ensures
            r@ == SecurityConfigView::defaults(),
            !r.enable_hsts,
            r.hsts_max_age == 365 * 24 * 60 * 60,
            r.hsts_include_subdomains,
            !r.hsts_preload,
            r.content_security_policy is None,
            r.cors_origins@.len() == 1,
            r.cors_origins@[0]@ == seq!['*'],
            r.enable_security_headers,
    {
        let any_origin = "*".to_string();
        proof {
            reveal_strlit("*");
            assert(any_origin@ =~= seq!['*']);
        }
        let r = SecurityConfig {
            enable_hsts: false,
            hsts_max_age: default_hsts_max_age(),
            hsts_include_subdomains: true,
            hsts_preload: false,
            content_security_policy: None,
            cors_origins: vec![any_origin],
            enable_security_headers: true,
        };
        assert(r@.cors_origins =~= seq![seq!['*']]);
        r
    }
}

impl ConfigErrorView {
    /// The error as its user reads it.
    pub open spec fn text(self) -> Seq<char> {
        match self {
            ConfigErrorView::LoadError(reason) => "Failed to load configuration: "@ + reason,
            ConfigErrorView::NotFound(reason) => reason,
            ConfigErrorView::Config(reason) => reason,
        }
    }
}

impl ConfigError {
    /// The error as its user reads it.
    pub fn message(&self) -> (r: String)
        ensures
            r@ == self@.text(),
    {
        match self {
            ConfigError::LoadError(reason) => {
                "Failed to load configuration: ".to_string().concat(reason.as_str())
            },
            ConfigError::NotFound(reason) => reason.clone(),
            ConfigError::Config(reason) => reason.clone(),
        }
    }
}

/// What the process finds around itself when it looks for its configuration file.
#[derive(Debug)]
pub struct Surroundings {
    /// What `CONFIG_PATH` is set to, if it is.
    pub config_path: Option<String>,
    /// Whether there is a file at `CONFIG_PATH`.
    pub config_path_exists: bool,
    /// Whether there is a file at the default system path.
    pub system_path_exists: bool,
    /// What `ENV` is set to, if it is.
    pub mode: Option<String>,
    /// Whether there is a file at the local development path.
    pub local_path_exists: bool,
}

pub struct SurroundingsView {
    pub config_path: Option<Seq<char>>,
    pub config_path_exists: bool,
    pub system_path_exists: bool,
    pub mode: Option<Seq<char>>,
    pub local_path_exists: bool,
}

impl View for Surroundings {
    type V = SurroundingsView;

    open spec fn view(&self) -> SurroundingsView {
        SurroundingsView {
            config_path: optional_text(self.config_path),
            config_path_exists: self.config_path_exists,
            system_path_exists: self.system_path_exists,
            mode: optional_text(self.mode),
            local_path_exists: self.local_path_exists,
        }
    }
}

impl SurroundingsView {
    /// Production is the mode of a process that is not told otherwise.
    pub open spec fn is_production(self) -> bool {
        match self.mode {
            None => true,
            Some(mode) => crate::text::same_ignoring_ascii_case(mode, "production"@),
        }
    }

    /// Where the configuration file is: at `CONFIG_PATH`, else at the system path, else, outside
    /// production, at the local path.
    pub open spec fn find(
        self,
        default_system_path: Seq<char>,
        local_dev_path: Seq<char>,
    ) -> Result<Seq<char>, ConfigErrorView> {
        if self.config_path is Some && self.config_path_exists {
            Ok(self.config_path->0)
        } else if self.system_path_exists {
            Ok(default_system_path)
        } else if !self.is_production() && self.local_path_exists {
            Ok(local_dev_path)
        } else {
            Err(
                ConfigErrorView::NotFound(
                    not_found_text(default_system_path, local_dev_path, self.is_production()),
                ),
            )
        }
    }
}

/// Where the user may put the file that was not found. The local path is not suggested in
/// production.
pub open spec fn not_found_text(
    default_system_path: Seq<char>,
    local_dev_path: Seq<char>,
    is_production: bool,
) -> Seq<char> {
    let text = "Configuration file not found. Set "@ + "CONFIG_PATH"@ + " or place it at "@
        + default_system_path;
    if is_production {
        text
    } else {
        text + (" or "@ + local_dev_path)
    }
}

/// A place that configuration values are read from.
#[derive(Debug)]
pub enum ConfigSource {
    File(String),
    Environment { prefix: String, separator: String },
}

pub enum ConfigSourceView {
    File(Seq<char>),
    Environment { prefix: Seq<char>, separator: Seq<char> },
}

impl View for ConfigSource {
    type V = ConfigSourceView;

    open spec fn view(&self) -> ConfigSourceView {
        match self {
            ConfigSource::File(path) => ConfigSourceView::File(path@),
            ConfigSource::Environment { prefix, separator } => ConfigSourceView::Environment {
                prefix: prefix@,
                separator: separator@,
            },
        }
    }
}

/// The sources to read, in order, once the search for the file came to `found`: the file, if there
/// is one, and the environment. A missing file is no error.
pub open spec fn sources(found: Result<Seq<char>, ConfigErrorView>) -> Result<
    Seq<ConfigSourceView>,
    ConfigErrorView,
> {
    let environment = ConfigSourceView::Environment { prefix: "BUMACS"@, separator: "_"@ };
    match found {
        Ok(path) => Ok(seq![ConfigSourceView::File(path), environment]),
        Err(ConfigErrorView::NotFound(_)) => Ok(seq![environment]),
        Err(error) => Err(error),
    }
}

/// A path, or why there is none.
pub open spec fn path_view(r: Result<String, ConfigError>) -> Result<Seq<char>, ConfigErrorView> {
    match r {
        Ok(path) => Ok(path@),
        Err(error) => Err(error@),
    }
}

/// A list of sources, or why there is none.
pub open spec fn sources_view(r: Result<Vec<ConfigSource>, ConfigError>) -> Result<
    Seq<ConfigSourceView>,
    ConfigErrorView,
> {
    match r {
        Ok(list) => Ok(list@.map_values(|s: ConfigSource| s@)),
        Err(error) => Err(error@),
    }
}

/// Whether the process runs in production.
pub fn is_production(surroundings: &Surroundings) -> (r: bool)
    ensures
        r == surroundings@.is_production(),
{
    match &surroundings.mode {
        None => true,
        Some(mode) => eq_ignore_ascii_case(mode.as_str(), "production"),
    }
}

/// Finds the configuration file among the places where it may be.
pub fn find_config_path(
    default_system_path: &str,
    local_dev_path: &str,
    surroundings: &Surroundings,
) -> (r: Result<String, ConfigError>)
    ensures
        path_view(r) == surroundings@.find(default_system_path@, local_dev_path@),
{
    // What the environment says comes first; where there is no such file, the search goes on.
    if let Some(path) = &surroundings.config_path {
        if surroundings.config_path_exists {
            return Ok(path.clone());
        }
    }
    if surroundings.system_path_exists {
        return Ok(default_system_path.to_string());
    }
    let is_production = is_production(surroundings);
    if !is_production && surroundings.local_path_exists {
        return Ok(local_dev_path.to_string());
    }
    let mut error_msg = "Configuration file not found. Set ".to_string().concat(
        ENV_VAR_PATH,
    ).concat(" or place it at ").concat(default_system_path);
    if !is_production {
        error_msg.append(" or ".to_string().concat(local_dev_path).as_str());
    }
    Err(ConfigError::NotFound(error_msg))
}

/// The sources to read once the search for the file came to `found`.
pub fn sources_of(found: Result<String, ConfigError>) -> (r: Result<Vec<ConfigSource>, ConfigError>)
    ensures
        sources_view(r) == sources(path_view(found)),
{
    let environment = ConfigSource::Environment {
        prefix: ENV_PREFIX.to_string(),
        separator: ENV_SEPARATOR.to_string(),
    };
    match found {
        Ok(path) => {
            let list = vec![ConfigSource::File(path), environment];
            assert(list@.map_values(|s: ConfigSource| s@) =~= seq![list@[0]@, list@[1]@]);
            Ok(list)
        },
        Err(ConfigError::NotFound(_)) => {
            let list = vec![environment];
            assert(list@.map_values(|s: ConfigSource| s@) =~= seq![list@[0]@]);
            Ok(list)
        },
        Err(error) => Err(error),
    }
}

/// The configuration of an application: its parts, and where it is loaded from.
pub trait Config: Sized {
    fn get_server_config(&self) -> ServerConfig;

    fn get_database_config(&self) -> DatabaseConfig;

    fn get_security_config(&self) -> SecurityConfig;

    fn get_instance_id(&self) -> Option<String>;

    /// The sources that the configuration is read from, given where its file was found; a later one
    /// overrides an earlier one.
    fn load(
        default_system_path: &str,
        local_dev_path: &str,
        surroundings: &Surroundings,
    ) -> (r: Result<Vec<ConfigSource>, ConfigError>)
        default_ensures
            exists|found: Result<String, ConfigError>|
                {
                    &&& #[trigger] call_ensures(
                        Self::get_config_path,
                        (default_system_path, local_dev_path, surroundings),
                        found,
                    )
                    &&& sources_view(r) == sources(path_view(found))
                },
    {
        sources_of(Self::get_config_path(default_system_path, local_dev_path, surroundings))
    }

    /// Finds the configuration file path based on environment variable or default locations, unless
    /// an implementation searches elsewhere.
    fn get_config_path(
        default_system_path: &str,
        local_dev_path: &str,
        surroundings: &Surroundings,
    ) -> (r: Result<String, ConfigError>)
        default_ensures
            path_view(r) == surroundings@.find(default_system_path@, local_dev_path@),
    {
        find_config_path(default_system_path, local_dev_path, surroundings)
    }
}

/// The configuration that the program runs with.
#[derive(Debug)]
pub struct AppConfig {
    pub server: ServerConfig,
    pub database: DatabaseConfig,
    pub security: SecurityConfig,
    pub instance_id: Option<String>,
}

impl Config for AppConfig {
    fn get_server_config(&self) -> (r: ServerConfig)
        ensures
            r@ == self.server@,
    {
        self.server.clone()
    }

    fn get_database_config(&self) -> (r: DatabaseConfig)
        ensures
            r@ == self.database@,
    {
        self.database.clone()
    }

    fn get_security_config(&self) -> (r: SecurityConfig)
        ensures
            r@ == self.security@,
    {
        self.security.clone()
    }

    fn get_instance_id(&self) -> (r: Option<String>)
        ensures
            r == self.instance_id,
    {
        self.instance_id.clone()
    }
}

/// A file at `CONFIG_PATH` is used before any other.
pub proof fn environment_path_comes_first(
    surroundings: SurroundingsView,
    default_system_path: Seq<char>,
    local_dev_path: Seq<char>,
)
    requires
        surroundings.config_path is Some,
        surroundings.config_path_exists,
    ensures
        surroundings.find(default_system_path, local_dev_path) == Ok::<Seq<char>, ConfigErrorView>(
            surroundings.config_path->0,
        ),
{
}

/// In production the local development path plays no part: neither what is there nor how the path
/// reads changes the outcome.
pub proof fn production_ignores_local_path(
    surroundings: SurroundingsView,
    other: SurroundingsView,
    default_system_path: Seq<char>,
    local_dev_path: Seq<char>,
    other_dev_path: Seq<char>,
)
    requires
        surroundings.is_production(),
        other == (SurroundingsView {
            local_path_exists: other.local_path_exists,
            ..surroundings
        }),
    ensures
        surroundings.find(default_system_path, local_dev_path) == other.find(
            default_system_path,
            other_dev_path,
        ),
{
}

/// Loading fails for no surroundings: where no file is found, the environment alone is read. The
/// environment is always the last source, so that it overrides the file.
pub proof fn environment_is_always_read_last(
    surroundings: SurroundingsView,
    default_system_path: Seq<char>,
    local_dev_path: Seq<char>,
)
    ensures
        sources(surroundings.find(default_system_path, local_dev_path)) matches Ok(list) && {
            &&& 1 <= list.len() <= 2
            &&& list.last() == (ConfigSourceView::Environment {
                prefix: "BUMACS"@,
                separator: "_"@,
            })
            &&& list.len() == 2 <==> surroundings.find(
                default_system_path,
                local_dev_path,
            ) is Ok
        },
{
}

} // verus!
