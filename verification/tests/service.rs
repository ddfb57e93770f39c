use whoami::collect_headers;
use whoami::extract_client_ip;
use whoami::extract_user_agent;
use whoami::get_port;
use whoami::handle_request;
use whoami::html_escape;
use whoami::serve_404;
use whoami::serve_health;
use whoami::serve_html;
use whoami::serve_json;
use whoami::serve_text;

fn h(name: &str, value: &str) -> (String, Option<String>) {
    (name.to_string(), Some(value.to_string()))
}

fn raw(name: &str) -> (String, Option<String>) {
    (name.to_string(), None)
}

fn peer(ip: &str) -> String {
    ip.to_string()
}

#[test]
fn forwarded_for_first_entry_wins() {
    let headers = vec![h("x-forwarded-for", "1.2.3.4, 5.6.7.8"), h("x-real-ip", "9.9.9.9")];
    let ip = extract_client_ip(&headers, &peer("10.0.0.1"));
    assert_eq!(ip, "1.2.3.4");
}

#[test]
fn forwarded_for_matches_case_insensitively() {
    let headers = vec![h("X-Forwarded-For", "1.2.3.4, 5.6.7.8")];
    let ip = extract_client_ip(&headers, &peer("10.0.0.1"));
    assert_eq!(ip, "1.2.3.4");
}

#[test]
fn forwarded_for_entry_is_trimmed() {
    let headers = vec![h("x-forwarded-for", "  7.7.7.7\t, 8.8.8.8")];
    let ip = extract_client_ip(&headers, &peer("10.0.0.1"));
    assert_eq!(ip, "7.7.7.7");
}

#[test]
fn forwarded_for_trims_unicode_whitespace() {
    let headers = vec![h("x-forwarded-for", "\u{a0}\u{2003}1.2.3.4\u{a0} , 5.6.7.8")];
    let ip = extract_client_ip(&headers, &peer("10.0.0.1"));
    assert_eq!(ip, "1.2.3.4");
}

#[test]
fn forwarded_for_empty_value_passes_through() {
    let headers = vec![h("x-forwarded-for", "")];
    let ip = extract_client_ip(&headers, &peer("10.0.0.1"));
    assert_eq!(ip, "");
}

#[test]
fn real_ip_when_no_forwarded_for() {
    let headers = vec![h("x-real-ip", "9.9.9.9")];
    let ip = extract_client_ip(&headers, &peer("10.0.0.1"));
    assert_eq!(ip, "9.9.9.9");
}

#[test]
fn peer_ip_when_no_forwarding_headers() {
    let headers = vec![h("accept", "*/*")];
    let ip = extract_client_ip(&headers, &peer("203.0.113.7"));
    assert_eq!(ip, "203.0.113.7");
}

#[test]
fn undecodable_forwarded_for_falls_through() {
    let headers = vec![raw("x-forwarded-for"), h("x-real-ip", "9.9.9.9")];
    let ip = extract_client_ip(&headers, &peer("10.0.0.1"));
    assert_eq!(ip, "9.9.9.9");
}

#[test]
fn user_agent_exact_when_present() {
    let headers = vec![h("user-agent", "curl/8.0")];
    assert_eq!(extract_user_agent(&headers), "curl/8.0");
}

#[test]
fn user_agent_unknown_when_absent() {
    let headers = vec![h("accept", "*/*")];
    assert_eq!(extract_user_agent(&headers), "Unknown");
}

#[test]
fn user_agent_unknown_when_undecodable() {
    let headers = vec![raw("user-agent")];
    assert_eq!(extract_user_agent(&headers), "Unknown");
}

#[test]
fn collect_keeps_names_and_last_value() {
    let headers = vec![h("X-Tag", "one"), h("accept", "*/*"), h("X-Tag", "two"), raw("bad")];
    let pairs = collect_headers(&headers);
    assert_eq!(pairs.len(), 2);
    assert_eq!(pairs[0], ("X-Tag".to_string(), "two".to_string()));
    assert_eq!(pairs[1], ("accept".to_string(), "*/*".to_string()));
}

#[test]
fn html_escape_exact() {
    assert_eq!(html_escape("<b>&'\""), "&lt;b&gt;&amp;&#39;&quot;");
    assert_eq!(html_escape("plain text"), "plain text");
}

#[test]
fn html_body_escapes_header_values() {
    let headers = vec![h("X", "<b>&'\"")];
    let resp = serve_html(&headers, &peer("10.0.0.1"));
    assert_eq!(resp.status_code, 200);
    assert_eq!(resp.content_type, "text/html; charset=utf-8");
    assert!(resp.body.contains("&lt;b&gt;&amp;&#39;&quot;"));
}

#[test]
fn html_body_is_the_filled_page() {
    let headers = vec![h("user-agent", "TestBot/1.0")];
    let resp = serve_html(&headers, &peer("203.0.113.5"));
    assert!(resp.body.starts_with("<!DOCTYPE html>"));
    assert!(resp.body.ends_with("</html>"));
    assert!(resp.body.contains("203.0.113.5"));
    assert!(resp.body.contains("TestBot/1.0"));
}

#[test]
fn json_round_trips_through_a_parser() {
    let headers = vec![h("user-agent", "TestBot/1.0"), h("X-Odd", "a\"b\\c\nd")];
    let resp = serve_json(&headers, &peer("203.0.113.5"));
    assert_eq!(resp.status_code, 200);
    assert_eq!(resp.content_type, "application/json");
    assert!(resp.cors_allow_all);
    let v: serde_json::Value = serde_json::from_str(&resp.body).unwrap();
    assert_eq!(v["ip"], serde_json::Value::String("203.0.113.5".to_string()));
    assert_eq!(v["userAgent"], serde_json::Value::String("TestBot/1.0".to_string()));
    let hs = v["headers"].as_object().unwrap();
    assert_eq!(hs.len(), 2);
    assert_eq!(hs["user-agent"], serde_json::Value::String("TestBot/1.0".to_string()));
    assert_eq!(hs["X-Odd"], serde_json::Value::String("a\"b\\c\nd".to_string()));
}

#[test]
fn json_quoting_escapes_special_characters() {
    let headers = vec![h("X-Odd", "a\"b")];
    let resp = serve_json(&headers, &peer("10.0.0.1"));
    assert!(resp.body.contains("a\\\"b"));
}

#[test]
fn json_of_no_headers_has_empty_object() {
    let headers: Vec<(String, Option<String>)> = vec![];
    let resp = serve_json(&headers, &peer("10.0.0.1"));
    let v: serde_json::Value = serde_json::from_str(&resp.body).unwrap();
    assert_eq!(v["ip"], serde_json::Value::String("10.0.0.1".to_string()));
    assert_eq!(v["userAgent"], serde_json::Value::String("Unknown".to_string()));
    assert!(v["headers"].as_object().unwrap().is_empty());
}

#[test]
fn text_body_lists_headers() {
    let headers = vec![h("Accept", "*/*"), h("User-Agent", "curl/8.0")];
    let resp = serve_text(&headers, &peer("10.0.0.1"));
    assert_eq!(resp.status_code, 200);
    assert_eq!(resp.content_type, "text/plain; charset=utf-8");
    assert!(resp.body.starts_with("Client IP: 10.0.0.1\nUser-Agent: curl/8.0\n\nRequest Headers:\n"));
    assert!(resp.body.contains("  Accept: */*\n"));
    assert!(resp.body.contains("  User-Agent: curl/8.0\n"));
}

#[test]
fn health_scenario() {
    let headers: Vec<(String, Option<String>)> = vec![];
    let resp = handle_request("GET", "/health", &headers, &peer("1.2.3.4"));
    assert_eq!(resp.status_code, 200);
    assert_eq!(resp.content_type, "text/plain");
    assert_eq!(resp.body, "OK");
}

#[test]
fn json_scenario() {
    let headers = vec![h("user-agent", "TestBot/1.0")];
    let resp = handle_request("GET", "/json", &headers, &peer("203.0.113.5"));
    assert_eq!(resp.status_code, 200);
    let v: serde_json::Value = serde_json::from_str(&resp.body).unwrap();
    assert_eq!(v["ip"], serde_json::Value::String("203.0.113.5".to_string()));
    assert_eq!(v["userAgent"], serde_json::Value::String("TestBot/1.0".to_string()));
}

#[test]
fn api_alias_serves_json() {
    let headers: Vec<(String, Option<String>)> = vec![];
    let resp = handle_request("GET", "/api", &headers, &peer("10.0.0.1"));
    assert_eq!(resp.status_code, 200);
    assert_eq!(resp.content_type, "application/json");
    assert!(resp.cors_allow_all);
}

#[test]
fn root_serves_html() {
    let headers: Vec<(String, Option<String>)> = vec![];
    let resp = handle_request("GET", "/", &headers, &peer("10.0.0.1"));
    assert_eq!(resp.status_code, 200);
    assert_eq!(resp.content_type, "text/html; charset=utf-8");
}

#[test]
fn unknown_path_is_not_found() {
    let headers: Vec<(String, Option<String>)> = vec![];
    let resp = handle_request("GET", "/nonexistent", &headers, &peer("1.2.3.4"));
    assert_eq!(resp.status_code, 404);
    assert_eq!(resp.content_type, "text/plain");
    assert_eq!(resp.body, "404 Not Found");
}

#[test]
fn unknown_method_is_not_found() {
    let headers: Vec<(String, Option<String>)> = vec![];
    let resp = handle_request("POST", "/", &headers, &peer("1.2.3.4"));
    assert_eq!(resp.status_code, 404);
    assert_eq!(resp.body, "404 Not Found");
}

#[test]
fn fixed_responses() {
    let ok = serve_health();
    assert_eq!(ok.status_code, 200);
    assert_eq!(ok.body, "OK");
    let nf = serve_404();
    assert_eq!(nf.status_code, 404);
    assert_eq!(nf.body, "404 Not Found");
}

#[test]
fn port_parsing() {
    assert_eq!(get_port(&None), 3000);
    assert_eq!(get_port(&Some("8080".to_string())), 8080);
    assert_eq!(get_port(&Some("+80".to_string())), 80);
    assert_eq!(get_port(&Some("65535".to_string())), 65535);
    assert_eq!(get_port(&Some("65536".to_string())), 3000);
    assert_eq!(get_port(&Some("abc".to_string())), 3000);
    assert_eq!(get_port(&Some("".to_string())), 3000);
    assert_eq!(get_port(&Some("+".to_string())), 3000);
    assert_eq!(get_port(&Some("-1".to_string())), 3000);
    assert_eq!(get_port(&Some("80 ".to_string())), 3000);
}
