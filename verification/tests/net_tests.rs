use transfer_engine::net;
use transfer_engine::paths::{
    archive_file_name, config_file_name, content_dir_name, record_file_name, resolve_executable,
    transfer_dir,
};
use transfer_engine::webnet;

#[test]
fn host_and_port_build_a_plain_http_url() {
    assert_eq!(
        net::build_http_url_checked("localhost", "2121", "/admin/apps/upload"),
        Ok("http://localhost:2121/admin/apps/upload".to_string())
    );
}

#[test]
fn explicit_scheme_is_trusted_and_port_ignored() {
    assert_eq!(
        net::build_http_url_checked("https://example.net", "2121", "api/me"),
        Ok("https://example.net/api/me".to_string())
    );
}

#[test]
fn broken_scheme_is_repaired() {
    assert_eq!(
        net::build_http_url_checked("http//localhost:9000", "1", "x"),
        Ok("http://localhost:9000/x".to_string())
    );
}

#[test]
fn embedded_port_wins_over_separate_port() {
    assert_eq!(
        net::build_http_url_checked("localhost:2121", "9999", "a/b"),
        Ok("http://localhost:2121/a/b".to_string())
    );
}

#[test]
fn missing_port_defaults_to_eighty() {
    // The default port is dropped from the rendered URL.
    assert_eq!(
        net::build_http_url_checked("example.net", "  ", "p"),
        Ok("http://example.net/p".to_string())
    );
    assert_eq!(
        net::build_http_url_checked("example.net", "8080", "p"),
        Ok("http://example.net:8080/p".to_string())
    );
}

#[test]
fn empty_address_is_rejected() {
    assert_eq!(
        net::build_http_url_checked("   ", "80", "p"),
        Err("Server address is empty.".to_string())
    );
    assert_eq!(net::build_http_url("  ", "80", "p"), "http://localhost/");
}

#[test]
fn unparsable_address_reports_which_input_failed() {
    assert_eq!(
        net::build_http_url_checked("http://exa mple", "80", "p"),
        Err("Invalid server URL: http://exa mple".to_string())
    );
}

#[test]
fn ws_url_follows_the_http_scheme() {
    assert_eq!(
        net::build_ws_url("https://example.net/", "80", "/chat/ws"),
        "wss://example.net/chat/ws"
    );
    assert_eq!(net::build_ws_url("http://example.net", "80", "chat/ws"), "ws://example.net/chat/ws");
    assert_eq!(net::build_ws_url("myhost", "9001", "chat/ws"), "ws://myhost:9001/chat/ws");
}

#[test]
fn normalize_base_url_requires_a_scheme() {
    assert_eq!(
        net::normalize_base_url(" https://example.net// "),
        Some("https://example.net".to_string())
    );
    assert_eq!(net::normalize_base_url("example.net"), None);
}

#[test]
fn client_bare_host_defaults_to_secure_schemes() {
    assert_eq!(
        webnet::build_http_url_checked("example.net", "9999", "p"),
        Ok("https://example.net/p".to_string())
    );
    assert_eq!(webnet::build_ws_url("example.net", "9999", "chat"), "wss://example.net/chat");
}

#[test]
fn client_embedded_port_stays_plain() {
    assert_eq!(
        webnet::build_http_url_checked("localhost:2121", "1", "p"),
        Ok("http://localhost:2121/p".to_string())
    );
    assert_eq!(webnet::build_ws_url("localhost:2121", "1", "chat"), "ws://localhost:2121/chat");
}

#[test]
fn client_explicit_scheme_maps_to_matching_ws_scheme() {
    assert_eq!(
        webnet::build_ws_url("https://example.net", "1", "/chat"),
        "wss://example.net/chat"
    );
    assert_eq!(webnet::build_ws_url("http//localhost:3000", "1", "chat"), "ws://localhost:3000/chat");
}

#[test]
fn transfer_layout_names_are_fixed() {
    assert_eq!(transfer_dir("/apps", "a"), "/apps/a");
    assert_eq!(archive_file_name("a"), "a.tar.gz");
    assert_eq!(config_file_name("a"), "a.cfg");
    assert_eq!(record_file_name(), "download.json");
    assert_eq!(content_dir_name(), "content");
}

#[test]
fn executable_paths_are_sanitized() {
    assert_eq!(resolve_executable("bin/app"), Ok(vec!["bin".to_string(), "app".to_string()]));
    assert_eq!(resolve_executable("app"), Ok(vec!["app".to_string()]));
    // Repeated separators collapse.
    assert_eq!(resolve_executable("bin//app"), Ok(vec!["bin".to_string(), "app".to_string()]));
    assert_eq!(resolve_executable("  "), Err("Missing executable path.".to_string()));
    assert_eq!(resolve_executable("/bin/app"), Err("Executable must be a relative path.".to_string()));
    assert_eq!(resolve_executable("../escape"), Err("Executable path is not safe.".to_string()));
    assert_eq!(resolve_executable("bin/./app"), Err("Executable path is not safe.".to_string()));
}
