use garbg::commands::{
    github_listing, github_listing_images, github_listing_on_error, github_to_raw_url, http_direct_listing,
    http_index_images, listing_kind, local_images, normalize_github_url, plan_local_set, GitHubItem, ListingKind, SetPlan,
};
use garbg::config::ScaleMode;
use garbg::sources::file::FoundFile;

#[test]
fn normalize_github_web_urls() {
    assert_eq!(normalize_github_url("https://github.com/user/repo/tree/main/walls/dark"), "github://user/repo/walls/dark");
    assert_eq!(normalize_github_url("https://github.com/user/repo/blob/main/a.png"), "github://user/repo/a.png");
    assert_eq!(normalize_github_url("http://github.com/user/repo"), "github://user/repo");
    assert_eq!(normalize_github_url("https://github.com/user/repo/tree/main"), "github://user/repo");
    assert_eq!(normalize_github_url("https://github.com/user"), "https://github.com/user");
    assert_eq!(normalize_github_url("/home/me/walls"), "/home/me/walls");
}

#[test]
fn raw_urls_need_a_file_path() {
    assert_eq!(
        github_to_raw_url("github://user/repo/dir/a.png").unwrap(),
        "https://raw.githubusercontent.com/user/repo/HEAD/dir/a.png"
    );
    assert_eq!(
        github_to_raw_url("github://user/repo").unwrap_err(),
        "GitHub URI must include a file path: github://user/repo/path/to/file"
    );
    assert_eq!(github_to_raw_url("https://x").unwrap_err(), "Invalid GitHub URI");
}

#[test]
fn listing_kinds() {
    assert_eq!(listing_kind("https://github.com/u/r").0, ListingKind::GitHub);
    assert_eq!(listing_kind("https://example.com/w/").0, ListingKind::Http);
    let (k, n) = listing_kind("~/walls");
    assert_eq!(k, ListingKind::Local);
    assert_eq!(n, "~/walls");
}

#[test]
fn http_index_page_images() {
    assert_eq!(http_direct_listing("https://x/a.png"), Some(vec!["https://x/a.png".to_string()]));
    assert_eq!(http_direct_listing("https://x/w/"), None);
    let html = r#"<a href="../">up</a><a href="a.PNG">a</a><a href="/abs.png">b</a><a href="?C=M">s</a><a href="doc.txt">d</a><a href="b.webp">"#;
    let imgs = http_index_images("https://x/w/", html);
    assert_eq!(imgs, vec!["https://x/w/a.PNG".to_string(), "https://x/w/b.webp".to_string()]);
}

#[test]
fn github_listing_plan_and_fallback() {
    let l = github_listing("github://u/r/walls").unwrap();
    assert_eq!(l.api_url, "https://api.github.com/repos/u/r/contents/walls");
    assert_eq!(github_listing_on_error(&l, 500, "500 Internal Server Error").unwrap_err(),
        "GitHub API error 500 Internal Server Error: https://api.github.com/repos/u/r/contents/walls");
    assert_eq!(github_listing_on_error(&l, 404, "404 Not Found").unwrap(),
        vec!["https://raw.githubusercontent.com/u/r/HEAD/walls".to_string()]);
    let f = github_listing("github://u/r/a.png").unwrap();
    assert_eq!(github_listing_on_error(&f, 403, "403 Forbidden").unwrap(),
        vec!["https://raw.githubusercontent.com/u/r/HEAD/a.png".to_string()]);
    assert!(github_listing("github://u").is_err());
    let items = vec![
        GitHubItem { item_type: Some("file".into()), name: Some("x.JPEG".into()), download_url: Some("https://dl/x".into()) },
        GitHubItem { item_type: Some("dir".into()), name: Some("y.png".into()), download_url: Some("https://dl/y".into()) },
        GitHubItem { item_type: Some("file".into()), name: Some("z.tiff".into()), download_url: Some("https://dl/z".into()) },
        GitHubItem { item_type: Some("file".into()), name: Some("w.png".into()), download_url: None },
    ];
    assert_eq!(github_listing_images(items), vec!["https://dl/x".to_string()]);
}

#[test]
fn local_images_sorted() {
    let found = vec![
        FoundFile { path: "/w/b.png".into(), is_file: true, size: None },
        FoundFile { path: "/w/a.png".into(), is_file: true, size: None },
        FoundFile { path: "/w/c.txt".into(), is_file: true, size: None },
        FoundFile { path: "/w/d.png".into(), is_file: false, size: None },
    ];
    assert_eq!(local_images(found), vec!["/w/a.png".to_string(), "/w/b.png".to_string()]);
}

#[test]
fn set_plans() {
    let e = plan_local_set("src", "src", Vec::new(), false, ScaleMode::Fill);
    assert_eq!(e.err(), Some("No images found in source: src".to_string()));
    match plan_local_set("/w", "/w", vec!["/w/a.png".into()], false, ScaleMode::Fit) {
        Ok(SetPlan::Single(s)) => assert_eq!(s, "/w/a.png"),
        _ => panic!("expected a single image"),
    }
    match plan_local_set("https://github.com/u/r/blob/main/a.png", "github://u/r/a.png", vec!["x".into()], false, ScaleMode::Fit) {
        Ok(SetPlan::Single(s)) => assert_eq!(s, "https://raw.githubusercontent.com/u/r/HEAD/a.png"),
        _ => panic!("expected a raw URL"),
    }
    match plan_local_set("/w", "/w", vec!["/w/a.png".into(), "/w/b.png".into()], false, ScaleMode::Center) {
        Ok(SetPlan::Playlist(p)) => {
            assert_eq!(p.images, vec!["/w/a.png".to_string(), "/w/b.png".to_string()]);
            assert_eq!(p.current_index, 0);
            assert_eq!(p.source, "/w");
        }
        _ => panic!("expected a playlist"),
    }
    match plan_local_set("/w", "/w", vec!["/w/a.png".into(), "/w/b.png".into(), "/w/c.png".into()], true, ScaleMode::Center) {
        Ok(SetPlan::Playlist(p)) => {
            let mut imgs = p.images.clone();
            imgs.sort();
            assert_eq!(imgs, vec!["/w/a.png".to_string(), "/w/b.png".to_string(), "/w/c.png".to_string()]);
            assert!(p.shuffled);
        }
        _ => panic!("expected a playlist"),
    }
}

#[test]
fn normalizing_twice_is_normalizing_once() {
    for s in [
        "https://github.com/u/r/tree/main/walls",
        "http://github.com/u/r",
        "https://github.com/https://github.com/u/r",
        "/home/me",
        "github://u/r",
    ] {
        let once = normalize_github_url(s);
        assert_eq!(normalize_github_url(&once), once);
    }
    assert_eq!(normalize_github_url("https://github.com/https://github.com/u/r"), "github://u/r");
}
