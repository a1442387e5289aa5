use snow_devil::repo::{
    code_search_url, content_ref, content_request_url, decimal_text, encode_content_path,
    image_mime_type, inline_image_content, plan_code_search, readme_fallback_needed,
    should_fetch_image_bytes,
    MAX_INLINE_IMAGE_BYTES,
};

#[test]
fn content_paths_encode_each_segment() {
    assert_eq!(encode_content_path("docs/My File.md"), "docs/My+File.md");
    assert_eq!(encode_content_path("a/b%c/é"), "a/b%25c/%C3%A9");
    assert_eq!(encode_content_path("img/logo_v2-final.png"), "img/logo_v2-final.png");
    assert_eq!(encode_content_path(""), "");
    assert_eq!(encode_content_path("/x/"), "/x/");
}

#[test]
fn content_urls_name_the_reference_of_the_expression() {
    assert_eq!(content_ref("main:src/lib.rs"), "main");
    assert_eq!(content_ref("feature/x:a:b"), "feature/x");
    assert_eq!(content_ref("HEAD"), "HEAD");
    assert_eq!(content_ref("README.md"), "HEAD");
    assert_eq!(
        content_request_url("octo", "repo", "feature/x:img/a b.png", "img/a b.png"),
        "https://api.github.com/repos/octo/repo/contents/img/a+b.png?ref=feature%2Fx"
    );
}

#[test]
fn image_types_follow_the_last_extension() {
    assert_eq!(image_mime_type("a/b.PNG"), Some("image/png"));
    assert_eq!(image_mime_type("x.tar.jpeg"), Some("image/jpeg"));
    assert_eq!(image_mime_type("x.jpg"), Some("image/jpeg"));
    assert_eq!(image_mime_type("icon.svg"), Some("image/svg+xml"));
    assert_eq!(image_mime_type("pic.webp"), Some("image/webp"));
    assert_eq!(image_mime_type("png"), Some("image/png"));
    assert_eq!(image_mime_type("notes.txt"), None);
    assert_eq!(image_mime_type("archive.png.zip"), None);
}

#[test]
fn only_small_raster_images_are_fetched() {
    assert!(should_fetch_image_bytes("a.png", Some(10)));
    assert!(should_fetch_image_bytes("a.png", None));
    assert!(should_fetch_image_bytes("a.png", Some(MAX_INLINE_IMAGE_BYTES)));
    assert!(!should_fetch_image_bytes("a.png", Some(MAX_INLINE_IMAGE_BYTES + 1)));
    assert!(!should_fetch_image_bytes("a.svg", Some(10)));
    assert!(!should_fetch_image_bytes("a.rs", Some(10)));
}

#[test]
fn inline_images_are_standard_base64() {
    assert_eq!(inline_image_content(b""), Some(String::new()));
    assert_eq!(inline_image_content(b"f"), Some("Zg==".to_string()));
    assert_eq!(inline_image_content(b"fo"), Some("Zm8=".to_string()));
    assert_eq!(inline_image_content(b"foobar"), Some("Zm9vYmFy".to_string()));
    assert_eq!(inline_image_content(&[0xfb, 0xff]), Some("+/8=".to_string()));
    let large = vec![0u8; (MAX_INLINE_IMAGE_BYTES + 1) as usize];
    assert_eq!(inline_image_content(&large), None);
}

#[test]
fn code_search_is_scoped_to_the_repository() {
    let request = plan_code_search("octo", "repo", "fn main", 0, 500);
    assert_eq!(request.query, "fn main repo:octo/repo");
    assert_eq!(request.page, 1);
    assert_eq!(request.per_page, 100);
    let scoped = plan_code_search("octo", "repo", "x repo:octo/repo", 3, 0);
    assert_eq!(scoped.query, "x repo:octo/repo");
    assert_eq!(scoped.page, 3);
    assert_eq!(scoped.per_page, 1);
    assert_eq!(
        code_search_url(&request).unwrap(),
        "https://api.github.com/search/code?q=fn+main+repo%3Aocto%2Frepo&page=1&per_page=100"
    );
}

#[test]
fn numbers_are_written_in_decimal() {
    assert_eq!(decimal_text(0), "0");
    assert_eq!(decimal_text(7), "7");
    assert_eq!(decimal_text(1030), "1030");
    assert_eq!(decimal_text(u32::MAX), "4294967295");
}

#[test]
fn readme_is_asked_again_only_when_missing() {
    assert!(readme_fallback_needed(false));
    assert!(!readme_fallback_needed(true));
}
