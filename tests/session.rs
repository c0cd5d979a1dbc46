use metrics_proxy::config::{socket_scheme, ApiConfig, AppEnvConfig, ConfigError, KumaConnectionConfig};
use metrics_proxy::session::{
    FetchAction, FetchEvent, FetchPhase, MonitorListFetch, ServiceReceiveError, LOGIN_ACK_TIMEOUT_MS,
    SETTLE_DELAY_MS,
};
use metrics_proxy::tag_map::ServiceInfo;

fn monitor(name: &str) -> ServiceInfo {
    ServiceInfo { id: 1, name: name.to_string(), url: String::new(), tags: vec![] }
}

fn connected_and_logged_in(timeout: u64) -> MonitorListFetch {
    let (mut fetch, first) = MonitorListFetch::new(timeout);
    assert_eq!(first, FetchAction::Connect);
    assert_eq!(fetch.on_event(FetchEvent::Connected), FetchAction::Settle(SETTLE_DELAY_MS));
    assert_eq!(fetch.on_event(FetchEvent::Settled), FetchAction::Login(LOGIN_ACK_TIMEOUT_MS));
    assert_eq!(fetch.on_event(FetchEvent::LoginAcked), FetchAction::AwaitList(timeout));
    fetch
}

#[test]
fn successful_fetch_closes_then_finishes() {
    let mut fetch = connected_and_logged_in(5000);
    let action = fetch.on_event(FetchEvent::ListArrived(vec![monitor("A"), monitor("B")]));
    assert_eq!(action, FetchAction::Disconnect);
    assert_eq!(fetch.phase(), FetchPhase::Closing);
    assert_eq!(fetch.on_event(FetchEvent::Closed), FetchAction::Finish);
    match fetch.into_outcome() {
        Some(Ok(list)) => {
            assert_eq!(list.len(), 2);
            assert_eq!(list[1].name, "B");
        }
        _ => panic!("expected the monitor list"),
    }
}

#[test]
fn timeout_closes_connection() {
    let mut fetch = connected_and_logged_in(2500);
    assert_eq!(fetch.on_event(FetchEvent::ListTimedOut), FetchAction::Disconnect);
    assert_eq!(fetch.on_event(FetchEvent::Closed), FetchAction::Finish);
    assert!(matches!(fetch.into_outcome(), Some(Err(ServiceReceiveError::FetchTimedOut(2500)))));
}

#[test]
fn undecodable_list_closes_connection() {
    let mut fetch = connected_and_logged_in(5000);
    let action = fetch.on_event(FetchEvent::ListUndecodable("{\"x\":1}".to_string()));
    assert_eq!(action, FetchAction::Disconnect);
    assert_eq!(fetch.on_event(FetchEvent::Closed), FetchAction::Finish);
    match fetch.into_outcome() {
        Some(Err(ServiceReceiveError::DecodeFailed(text))) => assert_eq!(text, "{\"x\":1}"),
        _ => panic!("expected a decode failure"),
    }
}

#[test]
fn login_failure_closes_connection() {
    let (mut fetch, _) = MonitorListFetch::new(5000);
    fetch.on_event(FetchEvent::Connected);
    fetch.on_event(FetchEvent::Settled);
    assert_eq!(fetch.on_event(FetchEvent::LoginFailed("no ack".to_string())), FetchAction::Disconnect);
    assert!(fetch.into_outcome().is_none());
}

#[test]
fn connect_failure_finishes_at_once() {
    let (mut fetch, _) = MonitorListFetch::new(5000);
    assert_eq!(fetch.on_event(FetchEvent::ConnectFailed("refused".to_string())), FetchAction::Finish);
    assert_eq!(fetch.phase(), FetchPhase::Finished);
    match fetch.into_outcome() {
        Some(Err(ServiceReceiveError::ConnectionFailed(m))) => assert_eq!(m, "refused"),
        _ => panic!("expected a connection failure"),
    }
}

#[test]
fn later_list_events_are_ignored() {
    let mut fetch = connected_and_logged_in(5000);
    fetch.on_event(FetchEvent::ListArrived(vec![monitor("first")]));
    assert_eq!(fetch.on_event(FetchEvent::ListArrived(vec![monitor("second")])), FetchAction::Ignore);
    assert_eq!(fetch.on_event(FetchEvent::Closed), FetchAction::Finish);
    match fetch.into_outcome() {
        Some(Ok(list)) => assert_eq!(list[0].name, "first"),
        _ => panic!("expected the first list"),
    }
}

#[test]
fn out_of_order_event_is_ignored() {
    let (mut fetch, _) = MonitorListFetch::new(5000);
    assert_eq!(fetch.on_event(FetchEvent::LoginAcked), FetchAction::Ignore);
    assert_eq!(fetch.phase(), FetchPhase::Connecting);
}

#[test]
fn api_config_takes_http_settings() {
    let env = AppEnvConfig {
        host: "0.0.0.0".to_string(),
        port: 3001,
        tags_ttl_seconds: 600,
        url: "http://kuma:3001".to_string(),
        login: "admin".to_string(),
        password: "SECRET-REDACTED".to_string(),
    };
    let api = ApiConfig::new(env);
    assert_eq!(api.host, "0.0.0.0");
    assert_eq!(api.port, 3001);
    assert_eq!(api.tags_ttl_seconds, 600);
}

#[test]
fn socket_schemes() {
    assert_eq!(socket_scheme(&"http".to_string()), Some("ws".to_string()));
    assert_eq!(socket_scheme(&"https".to_string()), Some("wss".to_string()));
    assert_eq!(socket_scheme(&"ftp".to_string()), None);
    assert_eq!(socket_scheme(&"HTTP".to_string()), None);
}

fn env_with_url(url: &str) -> AppEnvConfig {
    AppEnvConfig {
        host: "0.0.0".to_string(),
        port: 3001,
        tags_ttl_seconds: 600,
        url: url.to_string(),
        login: "admin".to_string(),
        password: "SECRET-REDACTED".to_string(),
    }
}

#[test]
fn connection_config_for_http_backend() {
    let config = KumaConnectionConfig::new(&env_with_url("http://kuma.local:3001/metrics")).unwrap();
    assert_eq!(config.url.as_str(), "http://kuma.local:3001/metrics");
    assert_eq!(config.socket_url.as_str(), "ws://kuma.local:3001/socket.io/");
    assert_eq!(config.login, "admin");
    assert_eq!(config.password, "SECRET-REDACTED");
}

#[test]
fn connection_config_for_https_backend() {
    let config = KumaConnectionConfig::new(&env_with_url("https://kuma.example.org")).unwrap();
    assert_eq!(config.socket_url.as_str(), "wss://kuma.example.org/socket.io/");
}

#[test]
fn connection_config_rejects_bad_url() {
    match KumaConnectionConfig::new(&env_with_url("not a url")) {
        Err(ConfigError::InvalidUrl(u)) => assert_eq!(u, "not a url"),
        other => panic!("expected an invalid url, got {:?}", other.map(|c| c.url.to_string())),
    }
}

#[test]
fn connection_config_rejects_other_scheme() {
    match KumaConnectionConfig::new(&env_with_url("ftp://kuma.local/")) {
        Err(ConfigError::WrongScheme(s)) => assert_eq!(s, "ftp"),
        other => panic!("expected a wrong scheme, got {:?}", other.map(|c| c.url.to_string())),
    }
}

#[test]
fn receive_error_messages() {
    assert_eq!(
        ServiceReceiveError::ConnectionFailed("refused".to_string()).message(),
        "Connection error: refused"
    );
    assert_eq!(
        ServiceReceiveError::FetchTimedOut(5000).message(),
        "Error: Failed to fetch monitorList after 5000 ms"
    );
    assert_eq!(
        ServiceReceiveError::FetchTimedOut(0).message(),
        "Error: Failed to fetch monitorList after 0 ms"
    );
    assert_eq!(
        ServiceReceiveError::FetchTimedOut(u64::MAX).message(),
        format!("Error: Failed to fetch monitorList after {} ms", u64::MAX)
    );
    assert_eq!(
        ServiceReceiveError::DecodeFailed("[1]".to_string()).message(),
        "Error: Failed to decode monitorList: [1]"
    );
}

#[test]
fn connection_config_keeps_port_and_credentials_in_url() {
    let config =
        KumaConnectionConfig::new(&env_with_url("https://user:pw@kuma.example.org:8443/a/b?x=1")).unwrap();
    assert_eq!(config.url.as_str(), "https://user:pw@kuma.example.org:8443/a/b?x=1");
    assert_eq!(config.socket_url.as_str(), "wss://user:pw@kuma.example.org:8443/socket.io/?x=1");
}

#[test]
fn connection_config_scheme_is_case_insensitive() {
    let config = KumaConnectionConfig::new(&env_with_url("HTTP://kuma.local")).unwrap();
    assert_eq!(config.socket_url.as_str(), "ws://kuma.local/socket.io/");
}
