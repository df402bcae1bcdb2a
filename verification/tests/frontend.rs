use std::sync::Arc;
use tracing_web_console::frontend::{
    asset_path, asset_response, inject_base_href, serve_index, serve_placeholder, serve_static,
    Body, FrontendState, PLACEHOLDER_PAGE,
};

fn content_type_of(path: &str) -> String {
    serve_static(path, Some(Vec::new())).content_type.unwrap()
}

#[test]
fn test_mime_type_guessing() {
    assert_eq!(content_type_of("app.js"), "text/javascript");
    assert_eq!(content_type_of("style.css"), "text/css");
    assert_eq!(content_type_of("index.html"), "text/html");
    assert_eq!(content_type_of("image.png"), "image/png");
}

#[test]
fn test_placeholder() {
    let response = serve_placeholder();
    assert_eq!(response.status, 200);
}

#[test]
fn unknown_extension_is_an_octet_stream() {
    assert_eq!(content_type_of("assets/blob.zzzunknown"), "application/octet-stream");
    assert_eq!(content_type_of("assets/noextension"), "application/octet-stream");
}

#[test]
fn extension_is_matched_without_regard_to_case() {
    assert_eq!(content_type_of("assets/Logo.PNG"), "image/png");
}

#[test]
fn base_element_follows_the_head_tag() {
    let page = inject_base_href("<html><head><title>t</title></head></html>", "/tracing");
    assert_eq!(
        page,
        "<html><head>\n    <base href=\"/tracing/\"><title>t</title></head></html>"
    );
}

#[test]
fn base_element_goes_after_the_first_head_tag_only() {
    let page = inject_base_href("<head>a<head>b", "/x");
    assert_eq!(page, "<head>\n    <base href=\"/x/\">a<head>b");
}

#[test]
fn page_without_head_is_served_unchanged() {
    assert_eq!(
        inject_base_href("<html><body>hi</body></html>", "/t"),
        "<html><body>hi</body></html>"
    );
    assert_eq!(inject_base_href("", "/t"), "");
    assert_eq!(inject_base_href("<HEAD></HEAD>", "/t"), "<HEAD></HEAD>");
    assert_eq!(inject_base_href("<head lang=\"en\">", "/t"), "<head lang=\"en\">");
}

#[test]
fn base_element_works_on_text_beyond_ascii() {
    let page = inject_base_href("<!-- é✓ --><head>ü</head>", "/päth");
    assert_eq!(page, "<!-- é✓ --><head>\n    <base href=\"/päth/\">ü</head>");
}

#[test]
fn asset_paths_lie_under_assets() {
    assert_eq!(asset_path("index-Dm3cA5i_.js"), "assets/index-Dm3cA5i_.js");
    assert_eq!(asset_path(""), "assets/");
    assert_eq!(asset_path("fonts/a.woff2"), "assets/fonts/a.woff2");
}

#[test]
fn index_is_served_with_an_hour_of_cache() {
    let state = FrontendState { base_path: Arc::new("/tracing".to_string()) };
    let response = serve_index(&state, Some("<head></head>"));
    assert_eq!(response.status, 200);
    assert_eq!(response.content_type.as_deref(), Some("text/html; charset=utf-8"));
    assert_eq!(response.cache_control.as_deref(), Some("public, max-age=3600"));
    match response.body {
        Body::Text(page) => assert_eq!(page, "<head>\n    <base href=\"/tracing/\"></head>"),
        other => panic!("unexpected body {:?}", other),
    }
}

#[test]
fn index_without_frontend_is_the_placeholder() {
    let state = FrontendState { base_path: Arc::new("/tracing".to_string()) };
    let response = serve_index(&state, None);
    assert_eq!(response.status, 200);
    assert_eq!(response.content_type.as_deref(), Some("text/html; charset=utf-8"));
    assert!(response.cache_control.is_none());
    match response.body {
        Body::Text(page) => assert_eq!(page, PLACEHOLDER_PAGE),
        other => panic!("unexpected body {:?}", other),
    }
}

#[test]
fn placeholder_names_the_api_endpoints() {
    for endpoint in ["api/logs", "api/ws", "api/targets"] {
        assert!(PLACEHOLDER_PAGE.contains(endpoint));
    }
}

#[test]
fn asset_is_served_with_a_year_of_cache() {
    let response = serve_static("assets/app.css", Some(vec![1, 2, 3]));
    assert_eq!(response.status, 200);
    assert_eq!(response.content_type.as_deref(), Some("text/css"));
    assert_eq!(
        response.cache_control.as_deref(),
        Some("public, max-age=31536000, immutable")
    );
    match response.body {
        Body::Bytes(bytes) => assert_eq!(bytes, vec![1, 2, 3]),
        other => panic!("unexpected body {:?}", other),
    }
}

#[test]
fn missing_asset_is_not_found() {
    let response = serve_static("assets/nope.js", None);
    assert_eq!(response.status, 404);
    assert!(response.content_type.is_none());
    assert!(response.cache_control.is_none());
    match response.body {
        Body::Text(text) => assert_eq!(text, "Asset not found: assets/nope.js"),
        other => panic!("unexpected body {:?}", other),
    }
}

#[test]
fn asset_response_keeps_the_given_type() {
    let response = asset_response("font/woff2".to_string(), vec![7]);
    assert_eq!(response.status, 200);
    assert_eq!(response.content_type.as_deref(), Some("font/woff2"));
}
