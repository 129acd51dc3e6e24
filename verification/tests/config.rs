use kyc_backend::config::{
    default_auth_base_path, default_auth_max_clock_skew_seconds, default_flows_dir,
    default_sessions_dir, default_token_ttl_seconds, default_true,
    default_worker_lock_renew_seconds, default_worker_lock_ttl_seconds, mount_path,
    worker_serves_health, AuthApi,
    BffAuth, Config, Cuss, Database, FlowConfig, KcAuth, Logging, Oauth2, Redis, Runtime,
    RuntimeMode, Server, StaffAuth, SwaggerConfig, Tls,
};
use kyc_backend::envsubst::envsubst;

fn env(pairs: &[(&str, &str)]) -> Vec<(String, String)> {
    pairs.iter().map(|(k, v)| (k.to_string(), v.to_string())).collect()
}

fn sample_config(address: &str, port: u16, pool_size: Option<u32>, http_host: Option<&str>) -> Config {
    Config {
        server: Server {
            address: address.to_string(),
            port,
            tls: Tls { cert_path: "certs/cert.pem".to_string(), key_path: "certs/key.pem".to_string() },
        },
        logging: Logging { level: "info".to_string(), data_dir: None, json: None, log_requests_enabled: false },
        database: Database { url: "postgres://localhost/db".to_string(), pool_size },
        oauth2: Oauth2 { issuer: "https://issuer".to_string(), jwks_uri: None, base_paths: Vec::new() },
        runtime: Runtime::default(),
        redis: Redis::default(),
        s3: None,
        storage: None,
        sns: None,
        sms: None,
        kc: KcAuth {
            enabled: true,
            base_path: "/kc".to_string(),
            signature_secret: "s".to_string(),
            max_clock_skew_seconds: 60,
            max_body_bytes: 1024,
        },
        bff: BffAuth { enabled: true, base_path: "/bff".to_string() },
        staff: StaffAuth { enabled: true, base_path: "/staff".to_string() },
        auth: AuthApi::default(),
        deposit_flow: None,
        cuss: Cuss { api_url: "http://cuss".to_string() },
        flow: FlowConfig::default(),
        swagger: SwaggerConfig { http_host: http_host.map(|h| h.to_string()), oauth2_client: None },
    }
}

#[test]
fn test_envsubst_expands_variables() {
    let expanded = envsubst("var1: $TEST_VAR_1, var2: ${TEST_VAR_1}", &env(&[("TEST_VAR_1", "value1")]));
    assert_eq!(expanded, "var1: value1, var2: value1");
}

#[test]
fn test_envsubst_missing_is_empty() {
    let expanded = envsubst("endpoint: $TEST_ENV_MISSING", &env(&[]));
    assert_eq!(expanded, "endpoint: ");
}

#[test]
fn test_envsubst_leaves_default_syntax_unchanged() {
    let content = "endpoint: ${TEST_VAR_WITH_DEFAULT:-http://minio:9000}";
    let expanded = envsubst(content, &env(&[("TEST_VAR_WITH_DEFAULT", "http://override:9000")]));
    assert_eq!(expanded, content);
}

#[test]
fn envsubst_edge_cases() {
    let e = env(&[("A", "1"), ("A_2", "two"), ("B", "b"), ("A", "shadowed")]);
    assert_eq!(envsubst("$A$B", &e), "1b");
    assert_eq!(envsubst("$A_2x", &e), "");
    assert_eq!(envsubst("${A}_2x", &e), "1_2x");
    assert_eq!(envsubst("cost: $5 and $ alone and $", &e), "cost: $5 and $ alone and $");
    assert_eq!(envsubst("${A", &e), "${A");
    assert_eq!(envsubst("${}", &e), "${}");
    assert_eq!(envsubst("$$A", &e), "$1");
    assert_eq!(envsubst("héllo ${B} wörld", &e), "héllo b wörld");
    assert_eq!(envsubst("", &e), "");
}

#[test]
fn defaults_match_the_documented_values() {
    assert_eq!(default_flows_dir(), "flows");
    assert_eq!(default_sessions_dir(), "sessions");
    assert_eq!(default_worker_lock_ttl_seconds(), 30);
    assert_eq!(default_worker_lock_renew_seconds(), 10);
    assert!(default_true());
    assert_eq!(default_auth_base_path(), "/auth");
    assert_eq!(default_token_ttl_seconds(), 3600);
    assert_eq!(default_auth_max_clock_skew_seconds(), 60);
    let redis = Redis::default();
    assert_eq!(redis.url, "redis://127.0.0.1:6379");
    assert_eq!(redis.worker_lock_ttl_seconds, 30);
    assert_eq!(redis.worker_lock_renew_seconds, 10);
    assert_eq!(Runtime::default().mode, RuntimeMode::Shared);
    assert_eq!(RuntimeMode::default(), RuntimeMode::Shared);
    let auth = AuthApi::default();
    assert!(auth.enabled);
    assert_eq!(auth.base_path, "/auth");
    assert_eq!(auth.token_ttl_seconds, 3600);
    assert_eq!(auth.max_clock_skew_seconds, 60);
    assert!(auth.token_issuer.is_none() && auth.token_audience.is_none());
    let flow = FlowConfig::default();
    assert_eq!(flow.flows_dir, "flows");
    assert_eq!(flow.sessions_dir, "sessions");
    let swagger = SwaggerConfig::default();
    assert!(swagger.http_host.is_none() && swagger.oauth2_client.is_none());
}

#[test]
fn database_pool_size_defaults_to_ten() {
    assert_eq!(sample_config("0.0.0.0", 80, None, None).database_pool_size(), 10);
    assert_eq!(sample_config("0.0.0.0", 80, Some(3), None).database_pool_size(), 3);
}

#[test]
fn listen_addr_joins_address_and_port() {
    assert_eq!(sample_config("0.0.0.0", 8080, None, None).api_listen_addr(), "0.0.0.0:8080");
    assert_eq!(sample_config("127.0.0.1", 0, None, None).api_listen_addr(), "127.0.0.1:0");
    assert_eq!(sample_config("localhost", 65535, None, None).api_listen_addr(), "localhost:65535");
}

#[test]
fn tls_files_need_both_files() {
    let c = sample_config("0.0.0.0", 443, None, None);
    assert_eq!(
        c.api_tls_files(true, true),
        Some(("certs/cert.pem".to_string(), "certs/key.pem".to_string()))
    );
    assert_eq!(c.api_tls_files(true, false), None);
    assert_eq!(c.api_tls_files(false, true), None);
    assert_eq!(c.api_tls_files(false, false), None);
}

#[test]
fn swagger_host_falls_back_to_the_listener() {
    assert_eq!(sample_config("0.0.0.0", 3000, None, None).swagger_http_host(), "http://0.0.0.0:3000");
    assert_eq!(
        sample_config("0.0.0.0", 3000, None, Some("https://api.example")).swagger_http_host(),
        "https://api.example"
    );
}

#[test]
fn mount_path_skips_empty_and_root() {
    assert_eq!(mount_path("  /bff \t"), Some("/bff".to_string()));
    assert_eq!(mount_path("/"), None);
    assert_eq!(mount_path(" / "), None);
    assert_eq!(mount_path("   "), None);
    assert_eq!(mount_path(""), None);
    assert_eq!(mount_path("/staff"), Some("/staff".to_string()));
}

#[test]
fn server_urls_join_host_and_base_path() {
    let mut c = sample_config("0.0.0.0", 3000, None, None);
    c.bff.base_path = " /bff ".to_string();
    assert_eq!(c.bff_server_url(), "http://0.0.0.0:3000/bff");
    assert_eq!(c.staff_server_url(), "http://0.0.0.0:3000/staff");
}

#[test]
fn only_a_worker_serves_its_own_health_endpoint() {
    assert!(worker_serves_health(RuntimeMode::Worker));
    assert!(!worker_serves_health(RuntimeMode::Server));
    assert!(!worker_serves_health(RuntimeMode::Shared));
}
