use cgi_gateway::cgi_env::{build_cgi_env, EnvVar};
use cgi_gateway::resolve::{classify, normalize_request_path, resolve_target, TargetKind};
use cgi_gateway::response::{error_response, GatewayError};

fn normalize(raw: &str) -> Option<String> {
    let r = normalize_request_path(&raw.as_bytes().to_vec(), &b"main.html".to_vec());
    r.map(|p| String::from_utf8(p).unwrap())
}

#[test]
fn normalize_strips_leading_separators() {
    assert_eq!(normalize("/index.html").as_deref(), Some("index.html"));
    assert_eq!(normalize("//x").as_deref(), Some("x"));
}

#[test]
fn normalize_appends_default_document() {
    assert_eq!(normalize("/").as_deref(), Some("main.html"));
    assert_eq!(normalize("").as_deref(), Some("main.html"));
    assert_eq!(normalize("/dir/").as_deref(), Some("dir/main.html"));
}

#[test]
fn normalize_rejects_parent_directory_segments() {
    assert_eq!(normalize("/../etc/passwd"), None);
    assert_eq!(normalize("/a/../b"), None);
    assert_eq!(normalize("/a/.."), None);
    assert_eq!(normalize(".."), None);
}

#[test]
fn normalize_keeps_dots_inside_segments() {
    assert_eq!(normalize("/a..b").as_deref(), Some("a..b"));
    assert_eq!(normalize("/..hidden").as_deref(), Some("..hidden"));
    assert_eq!(normalize("/x/y.tar.gz").as_deref(), Some("x/y.tar.gz"));
}

#[test]
fn classify_prefers_static_then_cgi() {
    assert_eq!(classify(true, true), TargetKind::Static);
    assert_eq!(classify(true, false), TargetKind::Static);
    assert_eq!(classify(false, true), TargetKind::Cgi);
    assert_eq!(classify(false, false), TargetKind::NotFound);
}

#[test]
fn resolved_target_keeps_path_and_kind() {
    let t = resolve_target(b"dir/main.html".to_vec(), false, true);
    assert_eq!(t.kind, TargetKind::Cgi);
    assert_eq!(t.path, b"dir/main.html".to_vec());
}

#[test]
fn unmatched_path_yields_404() {
    assert_eq!(classify(false, false), TargetKind::NotFound);
    let r = error_response(GatewayError::TargetNotFound);
    assert_eq!(r.status, 404);
    assert_eq!(r.body, b"Not found".to_vec());
}

fn var(name: &str, value: &str) -> EnvVar {
    EnvVar {
        name: name.to_owned(),
        value: value.to_owned(),
    }
}

fn effective(env: &[EnvVar], key: &str) -> Option<String> {
    env.iter()
        .rev()
        .find(|e| e.name == key)
        .map(|e| e.value.clone())
}

#[test]
fn post_sets_content_vars_verbatim() {
    let env = build_cgi_env(
        vec![var("PATH", "/usr/bin")],
        "POST",
        None,
        Some("10"),
        Some("application/x-www-form-urlencoded"),
    );
    // The body `name=world` is 10 bytes; its length header reaches the
    // child exactly.
    assert_eq!("name=world".len(), 10);
    assert_eq!(effective(&env, "CONTENT_LENGTH").as_deref(), Some("10"));
    assert_eq!(
        effective(&env, "CONTENT_TYPE").as_deref(),
        Some("application/x-www-form-urlencoded")
    );
    assert_eq!(effective(&env, "REQUEST_METHOD").as_deref(), Some("POST"));
    assert_eq!(effective(&env, "PATH").as_deref(), Some("/usr/bin"));
}

#[test]
fn non_post_omits_content_vars() {
    let env = build_cgi_env(
        Vec::new(),
        "GET",
        Some("a=b"),
        Some("10"),
        Some("text/plain"),
    );
    assert_eq!(effective(&env, "CONTENT_LENGTH"), None);
    assert_eq!(effective(&env, "CONTENT_TYPE"), None);
    assert_eq!(effective(&env, "QUERY_STRING").as_deref(), Some("a=b"));
    assert_eq!(effective(&env, "REQUEST_METHOD").as_deref(), Some("GET"));
}

#[test]
fn missing_query_omits_query_string() {
    let env = build_cgi_env(Vec::new(), "GET", None, None, None);
    assert_eq!(effective(&env, "QUERY_STRING"), None);
    assert_eq!(env.len(), 1);
}

#[test]
fn request_vars_override_inherited_ones() {
    let env = build_cgi_env(
        vec![var("REQUEST_METHOD", "stale"), var("CONTENT_LENGTH", "999")],
        "POST",
        None,
        Some("4"),
        None,
    );
    assert_eq!(effective(&env, "REQUEST_METHOD").as_deref(), Some("POST"));
    assert_eq!(effective(&env, "CONTENT_LENGTH").as_deref(), Some("4"));
    // The inherited entries are still present, earlier in the order.
    assert_eq!(env[0].value, "stale");
    assert_eq!(env[1].value, "999");
}
