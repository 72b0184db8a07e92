use wa_core::media::link_preview::{
    collapse_whitespace, decode_html_entities, find_meta_content, find_title_text,
    html_attr_value, html_tag_segments, normalize_html_text,
};
use wa_core::media::{
    check_link_preview_body_chunk, check_link_preview_image_response, check_link_preview_response,
    link_preview_from_body, link_preview_from_html, parse_link_preview_fetch_url,
    resolve_link_preview_url, validate_link_preview_fetch_options,
    validate_link_preview_image_content_type, validate_link_preview_image_fetch_options,
    LinkPreviewFetchOptions, LinkPreviewImageFetchOptions,
};

fn chars(s: &str) -> Vec<char> {
    s.chars().collect()
}

fn text(cs: &[char]) -> String {
    cs.iter().collect()
}

#[test]
fn reads_link_preview_metadata_from_html() {
    let html = r#"<!doctype html>
            <html>
              <head>
                <meta property="og:title" content="Example &amp; Preview">
                <meta name="description" content="A compact description">
                <meta property="og:image" content="/images/card.jpg">
              </head>
            </html>"#;
    let url = "http://127.0.0.1:8080/post";
    let fetched = link_preview_from_html(url, url, html).unwrap();
    assert_eq!(fetched.final_url, url);
    assert_eq!(fetched.image_url.as_deref(), Some("http://127.0.0.1:8080/images/card.jpg"));
    assert_eq!(fetched.content.matched_text, url);
    assert_eq!(fetched.content.title, "Example & Preview");
    assert_eq!(fetched.content.description.as_deref(), Some("A compact description"));
    assert_eq!(fetched.content.jpeg_thumbnail, None);
}

#[test]
fn title_falls_back_to_twitter_and_title_element() {
    let twitter = r#"<meta name="twitter:title" content="From Twitter"><title>Ignored</title>"#;
    assert_eq!(link_preview_from_html("m", "https://a.example/", twitter).unwrap().content.title, "From Twitter");
    let title = "<html><TITLE lang=en>\n  Plain   Title </Title></html>";
    let fetched = link_preview_from_html("m", "https://a.example/", title).unwrap();
    assert_eq!(fetched.content.title, "Plain Title");
    assert_eq!(fetched.content.description, None);
    assert_eq!(fetched.image_url, None);
    let err = link_preview_from_html("m", "https://a.example/", "<p>no title</p>").unwrap_err();
    assert_eq!(err.message(), "payload error: link preview HTML missing title");
}

#[test]
fn description_prefers_og_then_name_then_twitter() {
    let html = r#"<title>T</title><meta name="twitter:description" content="tw"><meta name="description" content="plain">"#;
    assert_eq!(link_preview_from_html("m", "https://a/", html).unwrap().content.description.as_deref(), Some("plain"));
    let html = r#"<title>T</title><meta name="twitter:description" content="tw">"#;
    assert_eq!(link_preview_from_html("m", "https://a/", html).unwrap().content.description.as_deref(), Some("tw"));
}

#[test]
fn body_bytes_are_decoded_lossily() {
    let body = b"<title>Caf\xc3\xa9 \xff</title>";
    let fetched = link_preview_from_body("m", "https://a/", body).unwrap();
    assert_eq!(fetched.content.title, "Caf\u{e9} \u{fffd}");
}

#[test]
fn segments_skip_longer_tag_names_and_stop_at_unclosed_tags() {
    let html = chars("<metadata x><META a=1><meta b=2><meta c");
    let segs: Vec<String> = html_tag_segments(&html, "meta").iter().map(|s| text(s)).collect();
    assert_eq!(segs, vec!["<META a=1>".to_owned(), "<meta b=2>".to_owned()]);
}

#[test]
fn attribute_values_follow_html_quoting() {
    let tag = chars(r#"<meta Content='a "b"' flag name = "x" other=plain/ last=q&amp;r/>"#);
    assert_eq!(html_attr_value(&tag, &chars("content")).map(|v| text(&v)).as_deref(), Some(r#"a "b""#));
    assert_eq!(html_attr_value(&tag, &chars("NAME")).map(|v| text(&v)).as_deref(), Some("x"));
    assert_eq!(html_attr_value(&tag, &chars("other")).map(|v| text(&v)).as_deref(), Some("plain"));
    assert_eq!(html_attr_value(&tag, &chars("last")).map(|v| text(&v)).as_deref(), Some("q&r"));
    assert_eq!(html_attr_value(&tag, &chars("flag")), None);
    assert_eq!(html_attr_value(&tag, &chars("missing")), None);
    let unterminated = chars("<meta content=\"open");
    assert_eq!(html_attr_value(&unterminated, &chars("content")).map(|v| text(&v)).as_deref(), Some("open"));
}

#[test]
fn decodes_named_and_numeric_references() {
    let decoded = decode_html_entities(&chars("&lt;a&gt; &quot;q&quot; &apos;&#39; &#x41;&#X42;&#67; &amp;"));
    assert_eq!(text(&decoded), "<a> \"q\" '' ABC &");
    let kept = decode_html_entities(&chars("&bogus; &#xD800; &#99999999999; a & b"));
    assert_eq!(text(&kept), "&bogus; &#xD800; &#99999999999; a & b");
}

#[test]
fn normalizes_whitespace_after_decoding() {
    assert_eq!(text(&collapse_whitespace(&chars("  a \t b\n\nc  "))), "a b c");
    assert_eq!(normalize_html_text(&chars(" x&#32;&#32;y ")).as_deref(), Some("x y"));
    assert_eq!(normalize_html_text(&chars(" \u{a0}\t")), None);
}

#[test]
fn meta_and_title_lookups() {
    let html = chars(r#"<meta property="og:title" content="  "><meta PROPERTY="OG:TITLE" content="Second">"#);
    assert_eq!(find_meta_content(&html, "property", "og:title").as_deref(), Some("Second"));
    assert_eq!(find_title_text(&chars("<title>a</title>")).as_deref(), Some("a"));
    assert_eq!(find_title_text(&chars("<title>unclosed")), None);
}

#[test]
fn resolves_image_urls_against_the_page() {
    assert_eq!(
        resolve_link_preview_url("https://a.example/dir/page", "img.png").as_deref(),
        Some("https://a.example/dir/img.png")
    );
    assert_eq!(
        resolve_link_preview_url("https://a.example/", "http://b.example/x").as_deref(),
        Some("http://b.example/x")
    );
    assert_eq!(resolve_link_preview_url("https://a.example/", "javascript:alert(1)"), None);
    assert_eq!(resolve_link_preview_url("not a url", "/x"), None);
    assert_eq!(resolve_link_preview_url("https://a.example/", "   "), None);
}

#[test]
fn fetch_urls_must_be_web_urls() {
    assert_eq!(parse_link_preview_fetch_url("https://a.example").unwrap(), "https://a.example/");
    assert_eq!(
        parse_link_preview_fetch_url("ftp://a.example/").unwrap_err().message(),
        "payload error: unsupported link preview URL scheme: ftp"
    );
    assert!(parse_link_preview_fetch_url("nope").unwrap_err().message().starts_with("payload error: invalid link preview URL: "));
}

#[test]
fn fetch_options_defaults_and_checks() {
    let options = LinkPreviewFetchOptions::default();
    assert_eq!(options.max_html_bytes, 512 * 1024);
    assert_eq!(options.timeout_ms, 10_000);
    assert_eq!(options.max_redirects, 5);
    assert_eq!(options.user_agent.as_deref(), Some("Mozilla/5.0 (WhatsAppAgent link-preview)"));
    assert!(validate_link_preview_fetch_options(&options).is_ok());
    let zero = LinkPreviewFetchOptions { max_html_bytes: 0, ..options.clone() };
    assert_eq!(
        validate_link_preview_fetch_options(&zero).unwrap_err().message(),
        "payload error: link preview max HTML bytes must be greater than zero"
    );
    let no_time = LinkPreviewFetchOptions { timeout_ms: 0, ..options };
    assert_eq!(
        validate_link_preview_fetch_options(&no_time).unwrap_err().message(),
        "payload error: link preview fetch timeout must be non-zero"
    );
    let image = LinkPreviewImageFetchOptions::default();
    assert_eq!(image.max_image_bytes, 16 * 1024 * 1024);
    assert!(validate_link_preview_image_fetch_options(&image).is_ok());
    let zero = LinkPreviewImageFetchOptions { max_image_bytes: 0, ..image.clone() };
    assert!(validate_link_preview_image_fetch_options(&zero).is_err());
    let no_time = LinkPreviewImageFetchOptions { timeout_ms: 0, ..image };
    assert_eq!(
        validate_link_preview_image_fetch_options(&no_time).unwrap_err().message(),
        "payload error: link preview image fetch timeout must be non-zero"
    );
}

#[test]
fn image_content_types() {
    assert!(validate_link_preview_image_content_type("image/png").is_ok());
    assert!(validate_link_preview_image_content_type(" IMAGE/JPEG ; q=1").is_ok());
    assert_eq!(
        validate_link_preview_image_content_type("Image/SVG+XML").unwrap_err().message(),
        "protocol error: link preview image fetch returned unsupported content-type image/svg+xml"
    );
    assert!(validate_link_preview_image_content_type("text/html").is_err());
    assert!(validate_link_preview_image_content_type("").is_err());
}

#[test]
fn response_headers_decide_before_the_body() {
    assert!(check_link_preview_response(200, "200 OK", Some(10), Some(Some("Text/HTML; charset=utf-8")), 10).is_ok());
    assert!(check_link_preview_response(204, "204 No Content", None, None, 10).is_ok());
    assert_eq!(
        check_link_preview_response(404, "404 Not Found", None, None, 10).unwrap_err().message(),
        "protocol error: link preview fetch failed with HTTP status 404 Not Found"
    );
    assert_eq!(
        check_link_preview_response(200, "200 OK", Some(11), None, 10).unwrap_err().message(),
        "payload error: link preview HTML exceeds 10 bytes"
    );
    assert_eq!(
        check_link_preview_response(200, "200 OK", None, Some(Some("Application/JSON")), 10).unwrap_err().message(),
        "protocol error: link preview fetch returned unsupported content-type application/json"
    );
    assert!(check_link_preview_response(200, "200 OK", None, Some(Some("application/xhtml+xml")), 10).is_ok());
    assert!(check_link_preview_response(200, "200 OK", None, Some(None), 10).is_err());
    assert!(check_link_preview_image_response(200, "200 OK", Some(5), Some(Some("image/webp")), 5).is_ok());
    assert_eq!(
        check_link_preview_image_response(200, "200 OK", Some(6), None, 5).unwrap_err().message(),
        "payload error: link preview image exceeds 5 bytes"
    );
    assert!(check_link_preview_image_response(500, "500 Internal Server Error", None, None, 5).is_err());
}

#[test]
fn body_chunks_are_bounded() {
    assert!(check_link_preview_body_chunk(4, 4, 8, "link preview HTML").is_ok());
    assert_eq!(
        check_link_preview_body_chunk(4, 5, 8, "link preview HTML").unwrap_err().message(),
        "payload error: link preview HTML exceeds 8 bytes"
    );
    assert!(check_link_preview_body_chunk(usize::MAX, 1, usize::MAX, "x").is_ok());
}
