use sqldb_sqlx::config::{config_source, finish_config, Config, ConfigSource, LinkValues, PoolOptions};
use sqldb_sqlx::error::Error;

fn values(json: Option<&str>, b64: Option<&str>, uri: Option<&str>) -> LinkValues {
    LinkValues {
        config_json: json.map(|s| s.to_string()),
        config_b64: b64.map(|s| s.to_string()),
        uri: uri.map(|s| s.to_string()),
    }
}

#[test]
fn default_pool_settings() {
    let s = PoolOptions::unset().settings();
    assert_eq!(s.max_connections, 8);
    assert_eq!(s.min_connections, 0);
    assert_eq!(s.max_lifetime_secs, 7200);
    assert_eq!(s.idle_timeout_secs, 600);
    assert_eq!(s.acquire_timeout_millis, 1000);
}

#[test]
fn configured_pool_settings_win() {
    let o = PoolOptions {
        max_connections: Some(2),
        min_idle: None,
        max_lifetime_secs: None,
        idle_timeout_secs: Some(5),
        connection_timeout_millis: Some(250),
    };
    let s = o.settings();
    assert_eq!(s.max_connections, 2);
    assert_eq!(s.min_connections, 0);
    assert_eq!(s.idle_timeout_secs, 5);
    assert_eq!(s.acquire_timeout_millis, 250);
}

#[test]
fn json_config_takes_precedence() {
    let v = values(Some("{\"uri\":\"a\"}"), Some("!!"), None);
    assert_eq!(config_source(&v), Ok(ConfigSource::Text("{\"uri\":\"a\"}".to_string())));
}

#[test]
fn base64_config_is_decoded() {
    let v = values(None, Some("eyJ1cmkiOiJwb3N0Z3JlczovL2RiL2FwcCJ9"), None);
    assert_eq!(
        config_source(&v),
        Ok(ConfigSource::Bytes(b"{\"uri\":\"postgres://db/app\"}".to_vec()))
    );
}

#[test]
fn invalid_base64_config_is_refused() {
    let v = values(None, Some("not base64!"), None);
    assert_eq!(config_source(&v), Err(Error::ProviderInit("invalid config_b64 encoding".to_string())));
}

#[test]
fn no_config_leaves_everything_unset() {
    assert_eq!(config_source(&values(None, None, Some("x"))), Ok(ConfigSource::Unset));
}

#[test]
fn uri_value_overrides_configured_uri() {
    let mut c = Config::unset();
    c.uri = "postgres://old".to_string();
    let r = finish_config(c, &Some("postgres://new".to_string())).unwrap();
    assert_eq!(r.uri, "postgres://new");
}

#[test]
fn missing_uri_is_refused() {
    let r = finish_config(Config::unset(), &None);
    assert_eq!(r, Err(Error::ProviderInit("link params values are missing 'uri'".to_string())));
    let r = finish_config(Config::unset(), &Some(String::new()));
    assert!(r.is_err());
}
