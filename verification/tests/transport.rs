use codexx::providers::transport::{configure_third_party_transport, is_deepseek_http_endpoint};
use toml_edit::{value, Table};

#[test]
fn deepseek_host_matching_does_not_disable_proxies() {
    assert!(is_deepseek_http_endpoint("https://api.deepseek.com/v1/"));
    assert!(is_deepseek_http_endpoint("HTTPS://API.DEEPSEEK.COM"));
    for endpoint in [
        "https://deepseek.proxy.example/v1",
        "https://api.deepseek.com.proxy.example/v1",
        "https://api.deepseek.com@proxy.example/v1",
        "https://proxy.example/api.deepseek.com",
        "invalid api.deepseek.com",
    ] {
        assert!(!is_deepseek_http_endpoint(endpoint), "{endpoint}");
    }
}

#[test]
fn endpoint_ownership_controls_websocket_inheritance() {
    for (source, destination, own, expected) in [
        (
            "https://proxy.example/v1",
            "https://proxy.example/v1/",
            true,
            true,
        ),
        (
            "https://proxy.example/v1",
            "https://proxy.example/v1",
            false,
            false,
        ),
        (
            "https://old.example/v1",
            "https://new.example/v1",
            true,
            false,
        ),
        (
            "https://api.deepseek.com",
            "https://api.deepseek.com",
            true,
            false,
        ),
    ] {
        let mut table = Table::new();
        table["base_url"] = value(source);
        table["supports_websockets"] = value(true);
        table["request_max_retries"] = value(9);
        configure_third_party_transport(&mut table, destination, own);
        assert_eq!(table["supports_websockets"].as_bool(), Some(expected));
        assert_eq!(table["request_max_retries"].as_integer(), Some(9));
    }
}
