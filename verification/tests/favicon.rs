use webapps::favicon::{
    base64_decode, build_favicon_capture_js, check_downloaded_icon, decode_data_uri,
    decode_html_entities, detect_image_format, extract_favicon_urls, extract_title,
    favicon_attempts, favicon_choice, icon_file_name, parse_icon_size, resolve_url, site_title,
};

#[test]
fn bakes_in_app_id_as_quoted_literal() {
    let js = build_favicon_capture_js("app-123");
    assert!(js.contains(r#"var APP_ID = "app-123";"#));
}

#[test]
fn invokes_capture_favicon_done_command() {
    let js = build_favicon_capture_js("app-1");
    assert!(js.contains("capture_favicon_done"));
    assert!(js.contains("appId"));
    assert!(js.contains("urls"));
}

#[test]
fn has_idempotency_guard() {
    let js = build_favicon_capture_js("app-1");
    assert!(js.contains("__webapps_icon_captured"));
}

#[test]
fn waits_for_load_with_debounce() {
    let js = build_favicon_capture_js("app-1");
    assert!(js.contains("readyState"));
    assert!(js.contains("800"));
}

#[test]
fn prioritizes_apple_touch_and_larger_sizes() {
    let js = build_favicon_capture_js("app-1");
    assert!(js.contains("apple-touch-icon"));
    assert!(js.contains("return 10"));
    assert!(js.contains("sort"));
}

#[test]
fn resolves_relative_urls_and_includes_og_image() {
    let js = build_favicon_capture_js("app-1");
    assert!(js.contains("new URL("));
    assert!(js.contains("og:image"));
}

#[test]
fn titles_are_trimmed_and_decoded() {
    assert_eq!(
        extract_title("<html><TITLE lang=en>  Tom &amp; Jerry </title></html>"),
        Some("Tom & Jerry".to_string())
    );
    assert_eq!(extract_title("<title>   </title>"), None);
    assert_eq!(extract_title("<p>no title</p>"), None);
    assert_eq!(decode_html_entities("&lt;a&gt; &quot;b&quot; &#39;c&apos;"), "<a> \"b\" 'c'");
}

#[test]
fn site_title_falls_back_to_host_then_untitled() {
    assert_eq!(site_title("<title>Mail</title>", "https://mail.example.com/"), "Mail");
    assert_eq!(site_title("", "https://mail.example.com/x"), "mail.example.com");
    assert_eq!(site_title("", "not a url"), "Untitled");
}

#[test]
fn icon_sizes() {
    assert_eq!(parse_icon_size(""), 0);
    assert_eq!(parse_icon_size("ANY"), 8);
    assert_eq!(parse_icon_size("192x192"), 7);
    assert_eq!(parse_icon_size("64x64"), 5);
    assert_eq!(parse_icon_size(" 32 x32"), 3);
    assert_eq!(parse_icon_size("16x16"), 1);
    assert_eq!(parse_icon_size("-5x5"), 1);
    assert_eq!(parse_icon_size("16x16x16"), 0);
    assert_eq!(parse_icon_size("big"), 0);
}

#[test]
fn urls_resolve_against_the_page() {
    assert_eq!(resolve_url("https://x.com/a.png", "https://y.com/"), "https://x.com/a.png");
    assert_eq!(resolve_url("//cdn.x.com/a.png", "https://y.com/"), "https://cdn.x.com/a.png");
    assert_eq!(resolve_url("data:image/png;base64,AAAA", "https://y.com/"), "data:image/png;base64,AAAA");
    assert_eq!(resolve_url("/img/a.png", "https://y.com/p/q"), "https://y.com/img/a.png");
    assert_eq!(resolve_url("a.png", "not a url"), "a.png");
}

#[test]
fn favicon_candidates_are_sorted_by_priority() {
    let html = r#"<html><head>
        <link rel="icon" href="/small.png" sizes="16x16">
        <link rel='shortcut icon' href='/any.svg' sizes='any'>
        <link rel="stylesheet" href="/style.css">
        <link rel="apple-touch-icon" href="/touch.png">
        <link rel="icon" href="/big.png" sizes="128x128">
        <meta property="og:image" content="/og.png">
        </head></html>"#;
    let urls = extract_favicon_urls(html, "https://site.com/page");
    assert_eq!(
        urls,
        vec![
            "https://site.com/touch.png".to_string(),
            "https://site.com/any.svg".to_string(),
            "https://site.com/big.png".to_string(),
            "https://site.com/small.png".to_string(),
            "https://site.com/og.png".to_string(),
        ]
    );
}

#[test]
fn favicon_fallbacks_follow_the_candidates() {
    let urls = vec!["https://site.com/a.png".to_string()];
    assert_eq!(
        favicon_attempts(&urls, "https://site.com/page"),
        vec![
            "https://site.com/a.png".to_string(),
            "https://site.com/favicon.ico".to_string(),
            "https://www.google.com/s2/favicons?domain=site.com&sz=64".to_string(),
        ]
    );
    let listed = vec!["https://site.com/favicon.ico".to_string()];
    assert_eq!(favicon_attempts(&listed, "https://site.com/").len(), 2);
    assert_eq!(favicon_attempts(&listed, "nope").len(), 1);
}

#[test]
fn base64_decodes_and_stops_at_padding() {
    assert_eq!(base64_decode("aGVsbG8="), Ok(b"hello".to_vec()));
    assert_eq!(base64_decode("aGVs bG8"), Ok(b"hello".to_vec()));
    assert_eq!(base64_decode("TWE=TWE="), Ok(b"Ma".to_vec()));
    assert_eq!(base64_decode(""), Ok(vec![]));
}

#[test]
fn image_formats_by_magic_bytes() {
    assert_eq!(detect_image_format(&[0x89, 0x50, 0x4E, 0x47, 0, 0]), Some("png"));
    assert_eq!(detect_image_format(&[0xFF, 0xD8, 0xFF, 0xE0]), Some("jpg"));
    assert_eq!(detect_image_format(b"GIF89a"), Some("gif"));
    assert_eq!(detect_image_format(&[0, 0, 1, 0, 1]), Some("ico"));
    assert_eq!(detect_image_format(b"RIFF\0\0\0\0WEBPVP8 "), Some("webp"));
    assert_eq!(detect_image_format(b"BM\0\0\0\0"), Some("bmp"));
    assert_eq!(detect_image_format("\u{feff}  <?xml version=\"1.0\"?>".as_bytes()), Some("svg"));
    assert_eq!(detect_image_format(b"<!-- c --><svg/>"), Some("svg"));
    assert_eq!(detect_image_format(b"abc"), None);
    assert_eq!(detect_image_format(b"hello world"), None);
}

#[test]
fn data_uris_decode_to_icons() {
    let (bytes, ext) = decode_data_uri("data:image/png;base64,iVBORw0KGgo=").unwrap();
    assert_eq!(ext, "png");
    assert_eq!(&bytes[..4], &[0x89, 0x50, 0x4E, 0x47]);
    let (bytes, ext) = decode_data_uri("data:image/svg+xml,%3Csvg%20xmlns%3D'x'%3E%3C/svg%3E").unwrap();
    assert_eq!(ext, "svg");
    assert!(bytes.starts_with(b"<svg"));
    let (_, ext) = decode_data_uri("data:image/x-icon;base64,AAAAAAAA").unwrap();
    assert_eq!(ext, "ico");
    assert_eq!(decode_data_uri("data:image/png"), Err("Invalid data URI".to_string()));
    assert_eq!(decode_data_uri("data:image/png;base64,AA"), Err("Data URI too small".to_string()));
    assert_eq!(
        decode_data_uri("data:text/plain,hello"),
        Err("Unknown image format in data URI".to_string())
    );
}

#[test]
fn downloaded_icons_are_checked() {
    assert_eq!(
        check_downloaded_icon(&[1, 2]),
        Err("Downloaded file too small to be a valid image".to_string())
    );
    assert_eq!(check_downloaded_icon(b"hello"), Err("Not a recognized image format".to_string()));
    assert_eq!(check_downloaded_icon(&[0x42, 0x4D, 0, 0]), Ok("bmp"));
}

#[test]
fn icon_file_names_are_safe() {
    assert_eq!(
        icon_file_name("My Mail: Inbox!", "0123abcd-ffff", "png"),
        "My_Mail__Inbox__0123abcd.png"
    );
    let long = "x".repeat(60);
    let name = icon_file_name(&long, "aaaaaaaa", "ico");
    assert_eq!(name, format!("{}_aaaaaaaa.ico", "x".repeat(50)));
}

#[test]
fn first_saved_icon_wins_else_auto() {
    let results = vec![None, Some("/icons/a.png".to_string()), Some("/icons/b.png".to_string())];
    assert_eq!(favicon_choice(&results), "/icons/a.png");
    assert_eq!(favicon_choice(&vec![None, None]), "auto");
    assert_eq!(favicon_choice(&Vec::new()), "auto");
}

#[test]
fn title_offsets_are_bytes_of_the_lowercased_page() {
    // 'İ' (2 bytes) lower-cases to "i\u{307}" (3 bytes): the offsets found in
    // the lower-cased page are one byte further on than in the page itself.
    assert_eq!(extract_title("İ<title>Hi</title>"), Some("i<".to_string()));
    // Without such characters the title reads as written.
    assert_eq!(extract_title("é<TITLE>Héllo</TITLE>"), Some("Héllo".to_string()));
}
