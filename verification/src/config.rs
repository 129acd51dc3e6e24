//! Application configuration: the settings of every subsystem, their defaults, and the
//! values derived from them.
//!
//! Reading the file, expanding variables (see `envsubst`) and decoding YAML into these
//! types happen at the edge of the application.

use vstd::prelude::*;
use vstd::string::StringExecFns;
use crate::text::{decimal, push_char, push_decimal, trim, trim_spec};

verus! {

/// Which components the process starts: the HTTP API, the background worker, or both.
#[derive(Debug, Clone, Copy, PartialEq, Eq, Structural)]
pub enum RuntimeMode {
    Server,
    Worker,
    Shared,
}

impl Default for RuntimeMode {
    fn default() -> (m: Self)
        ensures
            m == RuntimeMode::Shared,
    {
        RuntimeMode::Shared
    }
}

/// Whether the worker process serves its own health check: only in worker mode (in
/// shared mode the API server answers it).
pub fn worker_serves_health(mode: RuntimeMode) -> (b: bool)
    ensures
        b == (mode == RuntimeMode::Worker),
{
    match mode {
        RuntimeMode::Worker => true,
        _ => false,
    }
}

/// Runtime configuration: the application mode.
pub struct Runtime {
    pub mode: RuntimeMode,
}

impl Default for Runtime {
    fn default() -> (r: Self)
        ensures
            r.mode == RuntimeMode::Shared,
    {
        Runtime { mode: RuntimeMode::Shared }
    }
}

/// Redis connection, used for caching, queues and the worker lock.
pub struct Redis {
    pub url: String,
    pub worker_lock_ttl_seconds: i64,
    pub worker_lock_renew_seconds: u64,
}

impl Default for Redis {
    fn default() -> (r: Self)
        ensures
            r.url@ == "redis://127.0.0.1:6379"@,
            r.worker_lock_ttl_seconds == 30,
            r.worker_lock_renew_seconds == 10,
    {
        Redis {
            url: String::from_str("redis://127.0.0.1:6379"),
            worker_lock_ttl_seconds: default_worker_lock_ttl_seconds(),
            worker_lock_renew_seconds: default_worker_lock_renew_seconds(),
        }
    }
}

/// HTTP server settings.
pub struct Server {
    pub address: String,
    pub port: u16,
    pub tls: Tls,
}

/// Logging settings.
pub struct Logging {
    pub level: String,
    pub data_dir: Option<String>,
    pub json: Option<bool>,
    pub log_requests_enabled: bool,
}

/// PostgreSQL connection settings.
pub struct Database {
    pub url: String,
    pub pool_size: Option<u32>,
}

/// OAuth2 / OIDC settings.
pub struct Oauth2 {
    pub issuer: String,
    pub jwks_uri: Option<String>,
    pub base_paths: Vec<String>,
}

/// Swagger UI settings.
pub struct SwaggerConfig {
    /// Host URL of the API server (such as `http://localhost:3000`), used for the server
    /// URLs of the published specifications.
    pub http_host: Option<String>,
    /// OAuth2 client with which Swagger UI authenticates.
    pub oauth2_client: Option<SwaggerOauth2Client>,
}

impl Default for SwaggerConfig {
    fn default() -> (c: Self)
        ensures
            c.http_host is None,
            c.oauth2_client is None,
    {
        SwaggerConfig { http_host: None, oauth2_client: None }
    }
}

/// OAuth2 client of Swagger UI.
pub struct SwaggerOauth2Client {
    pub token_url: Option<String>,
}

/// AWS S3 settings.
pub struct AwsS3 {
    pub region: Option<String>,
    pub force_path_style: Option<bool>,
    pub bucket: String,
    pub endpoint: Option<String>,
    pub presign_ttl_seconds: u64,
}

/// Which storage backend is used.
#[derive(Debug, Clone, Copy, PartialEq, Eq, Structural)]
pub enum StorageType {
    S3,
    Minio,
}

/// MinIO (S3-compatible) storage settings.
pub struct MinioStorage {
    pub endpoint: String,
    pub region: String,
    pub access_key: String,
    pub secret_key: String,
    pub bucket: String,
    pub force_path_style: Option<bool>,
    pub presign_ttl_seconds: u64,
}

/// Storage settings: the backend type (the `type` key) and MinIO's settings.
pub struct Storage {
    pub storage_type: StorageType,
    pub minio: Option<MinioStorage>,
}

/// AWS SNS settings.
pub struct AwsSns {
    pub region: Option<String>,
    pub max_attempts: u32,
    pub initial_backoff_seconds: u64,
}

/// Which provider delivers one-time passwords by SMS.
#[derive(Debug, Clone, Copy, PartialEq, Eq, Structural)]
pub enum SmsProviderType {
    Console,
    Sns,
    Api,
    Avlytext,
    Orange,
}

/// SMS delivery settings.
pub struct SmsConfig {
    pub provider: SmsProviderType,
    pub api: Option<SmsApi>,
    pub avlytext: Option<AvlytextConfig>,
    pub orange: Option<OrangeConfig>,
}

/// A third-party SMS API.
pub struct SmsApi {
    pub base_url: String,
    pub auth_token: Option<String>,
}

/// The Avlytext SMS provider.
pub struct AvlytextConfig {
    pub base_url: String,
    pub api_key: String,
    pub sender_id: String,
}

/// The Orange SMS provider.
pub struct OrangeConfig {
    pub client_id: String,
    pub client_secret: String,
    pub token_url: String,
    pub sms_base_url: String,
    pub contract_url: String,
    pub default_sender: String,
}

/// Where flow and session definitions are read from.
pub struct FlowConfig {
    pub flows_dir: String,
    pub sessions_dir: String,
}

impl Default for FlowConfig {
    fn default() -> (c: Self)
        ensures
            c.flows_dir@ == "flows"@,
            c.sessions_dir@ == "sessions"@,
    {
        FlowConfig { flows_dir: default_flows_dir(), sessions_dir: default_sessions_dir() }
    }
}

/// The whole application configuration.
pub struct Config {
    pub server: Server,
    pub logging: Logging,
    pub database: Database,
    pub oauth2: Oauth2,
    pub runtime: Runtime,
    pub redis: Redis,
    pub s3: Option<AwsS3>,
    pub storage: Option<Storage>,
    pub sns: Option<AwsSns>,
    pub sms: Option<SmsConfig>,
    pub kc: KcAuth,
    pub bff: BffAuth,
    pub staff: StaffAuth,
    pub auth: AuthApi,
    pub deposit_flow: Option<DepositFlow>,
    pub cuss: Cuss,
    pub flow: FlowConfig,
    pub swagger: SwaggerConfig,
}

/// TLS certificate and key files.
pub struct Tls {
    pub cert_path: String,
    pub key_path: String,
}

/// Signature authentication of the Keycloak API surface.
pub struct KcAuth {
    pub enabled: bool,
    pub base_path: String,
    pub signature_secret: String,
    pub max_clock_skew_seconds: i64,
    pub max_body_bytes: usize,
}

/// The BFF (backend-for-frontend) API surface.
pub struct BffAuth {
    pub enabled: bool,
    pub base_path: String,
}

/// The staff API surface.
pub struct StaffAuth {
    pub enabled: bool,
    pub base_path: String,
}

/// The auth API surface.
pub struct AuthApi {
    pub enabled: bool,
    pub base_path: String,
    pub token_issuer: Option<String>,
    pub token_audience: Option<String>,
    pub token_ttl_seconds: i64,
    pub max_clock_skew_seconds: i64,
}

impl Default for AuthApi {
    fn default() -> (a: Self)
        ensures
            a.enabled,
            a.base_path@ == "/auth"@,
            a.token_issuer is None,
            a.token_audience is None,
            a.token_ttl_seconds == 3600,
            a.max_clock_skew_seconds == 60,
    {
        AuthApi {
            enabled: default_true(),
            base_path: default_auth_base_path(),
            token_issuer: None,
            token_audience: None,
            token_ttl_seconds: default_token_ttl_seconds(),
            max_clock_skew_seconds: default_auth_max_clock_skew_seconds(),
        }
    }
}

/// Routing of the deposit flow to provider-specific recipients.
pub struct DepositFlow {
    pub staff: DepositFlowStaff,
}

impl Default for DepositFlow {
    fn default() -> (d: Self)
        ensures
            d.staff.recipients@.len() == 0,
    {
        DepositFlow { staff: DepositFlowStaff::default() }
    }
}

/// The staff recipients of deposits.
pub struct DepositFlowStaff {
    pub recipients: Vec<DepositRecipient>,
}

impl Default for DepositFlowStaff {
    fn default() -> (d: Self)
        ensures
            d.recipients@.len() == 0,
    {
        DepositFlowStaff { recipients: Vec::new() }
    }
}

/// A recipient of deposits, by provider.
pub struct DepositRecipient {
    pub provider: String,
    pub full_name: String,
    pub phone_number: String,
    pub regex: String,
    pub currency: String,
}

/// The customer service system.
pub struct Cuss {
    pub api_url: String,
}

/// The default directory of flow definitions.
pub fn default_flows_dir() -> (s: String)
    ensures
        s@ == "flows"@,
{
    String::from_str("flows")
}

/// The default directory of session definitions.
pub fn default_sessions_dir() -> (s: String)
    ensures
        s@ == "sessions"@,
{
    String::from_str("sessions")
}

/// The default time to live of the worker lock, in seconds.
pub fn default_worker_lock_ttl_seconds() -> (n: i64)
    ensures
        n == 30,
{
    30
}

/// The default renewal period of the worker lock, in seconds.
pub fn default_worker_lock_renew_seconds() -> (n: u64)
    ensures
        n == 10,
{
    10
}

/// Enabled by default.
pub fn default_true() -> (b: bool)
    ensures
        b,
{
    true
}

/// The default base path of the auth API.
pub fn default_auth_base_path() -> (s: String)
    ensures
        s@ == "/auth"@,
{
    String::from_str("/auth")
}

/// The default lifetime of issued tokens, in seconds.
pub fn default_token_ttl_seconds() -> (n: i64)
    ensures
        n == 3600,
{
    3600
}

/// The default clock skew allowed on tokens, in seconds.
pub fn default_auth_max_clock_skew_seconds() -> (n: i64)
    ensures
        n == 60,
{
    60
}

/// `host:port` of the HTTP listener.
pub open spec fn listen_addr_spec(address: Seq<char>, port: u16) -> Seq<char> {
    address + seq![':'] + decimal(port as nat)
}

/// The size of the database connection pool where none is configured.
pub open spec fn default_pool_size() -> u32 {
    10
}

/// The base path under which an API surface is mounted: the configured one without
/// surrounding white space; none where that is empty or `/`.
pub open spec fn mount_path_spec(base_path: Seq<char>) -> Option<Seq<char>> {
    let trimmed = trim_spec(base_path);
    if trimmed.len() == 0 || trimmed == seq!['/'] {
        None
    } else {
        Some(trimmed)
    }
}

/// The base path under which an API surface is mounted, if it is mounted.
pub fn mount_path(base_path: &str) -> (r: Option<String>)
    ensures
        r matches Some(p) ==> mount_path_spec(base_path@) == Some(p@),
        r is None ==> mount_path_spec(base_path@) is None,
{
    let trimmed = trim(base_path);
    let chars = crate::text::chars_of(trimmed.as_str());
    if chars.len() == 0 || (chars.len() == 1 && chars[0] == '/') {
        proof {
            if chars.len() == 1 {
                assert(trimmed@ =~= seq!['/']);
            }
        }
        None
    } else {
        proof {
            if trimmed@ == seq!['/'] {
                assert(chars@[0] == '/');
            }
        }
        Some(trimmed)
    }
}

/// The host URL under which the API specifications are published.
pub open spec fn swagger_http_host_spec(c: &Config) -> Seq<char> {
    match c.swagger.http_host {
        Some(h) => h@,
        None => "http://"@ + listen_addr_spec(c.server.address@, c.server.port),
    }
}

impl Config {
    /// `address:port` of the HTTP listener, as text to be read as a socket address.
    pub fn api_listen_addr(&self) -> (s: String)
        ensures
            s@ == listen_addr_spec(self.server.address@, self.server.port),
    {
        let mut s = self.server.address.clone();
        push_char(&mut s, ':');
        push_decimal(&mut s, self.server.port as u64);
        proof {
            assert(s@ =~= listen_addr_spec(self.server.address@, self.server.port));
        }
        s
    }

    /// The TLS certificate and key paths, given whether each file exists: both where both
    /// exist, none otherwise (TLS is then off).
    pub fn api_tls_files(&self, cert_exists: bool, key_exists: bool) -> (r: Option<(String, String)>)
        ensures
            r is Some <==> (cert_exists && key_exists),
            r matches Some(p) ==> p.0@ == self.server.tls.cert_path@ && p.1@
                == self.server.tls.key_path@,
    {
        if cert_exists && key_exists {
            Some((self.server.tls.cert_path.clone(), self.server.tls.key_path.clone()))
        } else {
            None
        }
    }

    /// The size of the database connection pool: the configured one, else ten.
    pub fn database_pool_size(&self) -> (n: u32)
        ensures
            n == match self.database.pool_size {
                Some(size) => size,
                None => default_pool_size(),
            },
    {
        match self.database.pool_size {
            Some(size) => size,
            None => 10,
        }
    }

    /// The host URL under which the API specifications are published: the configured
    /// Swagger host, else `http://address:port`.
    pub fn swagger_http_host(&self) -> (s: String)
        ensures
            s@ == swagger_http_host_spec(self),
    {
        match &self.swagger.http_host {
            Some(h) => h.clone(),
            None => {
                let mut s = String::from_str("http://");
                s.append(self.api_listen_addr().as_str());
                s
            },
        }
    }
}

impl Config {
    /// The server URL of the BFF specification: the publishing host followed by the BFF
    /// base path without surrounding white space.
    pub fn bff_server_url(&self) -> (s: String)
        ensures
            s@ == swagger_http_host_spec(self) + trim_spec(self.bff.base_path@),
    {
        let mut s = self.swagger_http_host();
        s.append(trim(self.bff.base_path.as_str()).as_str());
        s
    }

    /// The server URL of the staff specification: the publishing host followed by the staff
    /// base path without surrounding white space.
    pub fn staff_server_url(&self) -> (s: String)
        ensures
            s@ == swagger_http_host_spec(self) + trim_spec(self.staff.base_path@),
    {
        let mut s = self.swagger_http_host();
        s.append(trim(self.staff.base_path.as_str()).as_str());
        s
    }
}

} // verus!
