use garbg::sources::directory::DirectoryIndexProvider;
use garbg::sources::file::{FileProvider, FoundFile};
use garbg::sources::github::{GitHubContent, GitHubProvider};
use garbg::sources::http::HttpProvider;
use garbg::sources::provider::{MediaType, ProviderKind, ProviderRegistry};
use garbg::sources::s3::{S3Object, S3Provider};

#[test]
fn test_parse_uri() {
    let (bucket, prefix) = S3Provider::parse_uri("s3://my-bucket/wallpapers/").unwrap();
    assert_eq!(bucket, "my-bucket");
    assert_eq!(prefix, "wallpapers/");

    let (bucket, prefix) = S3Provider::parse_uri("s3://bucket").unwrap();
    assert_eq!(bucket, "bucket");
    assert_eq!(prefix, "");

    let (bucket, prefix) = S3Provider::parse_uri("s3://bucket/path/to/file.png").unwrap();
    assert_eq!(bucket, "bucket");
    assert_eq!(prefix, "path/to/file.png");
}

#[test]
fn test_invalid_uri() {
    assert!(S3Provider::parse_uri("http://example.com").is_err());
    assert!(S3Provider::parse_uri("s3://").is_err());
}

#[test]
fn s3_parse_errors_are_distinct() {
    assert_eq!(S3Provider::parse_uri("http://example.com").unwrap_err(), "Invalid S3 URI");
    assert_eq!(S3Provider::parse_uri("s3:///x").unwrap_err(), "S3 URI must include a bucket: s3://bucket/prefix");
}

#[test]
fn s3_listing_skips_markers_and_non_images() {
    let objects = vec![
        S3Object { key: Some("walls/".to_string()), size: Some(0) },
        S3Object { key: Some("walls/a.png".to_string()), size: Some(42) },
        S3Object { key: Some("walls/notes.txt".to_string()), size: Some(3) },
        S3Object { key: None, size: None },
        S3Object { key: Some("walls/b.GIF".to_string()), size: None },
    ];
    let entries = S3Provider::entries_from_objects("bucket", objects);
    assert_eq!(entries.len(), 2);
    assert_eq!(entries[0].uri, "s3://bucket/walls/a.png");
    assert_eq!(entries[0].name, "a.png");
    assert_eq!(entries[0].size, Some(42));
    assert_eq!(entries[0].media_type, MediaType::StaticImage);
    assert_eq!(entries[1].name, "b.GIF");
    assert_eq!(entries[1].media_type, MediaType::AnimatedImage);
    assert!(S3Provider::has_more(Some(true)));
    assert!(!S3Provider::has_more(None));
}

#[test]
fn github_parse_uri_parts() {
    let (u, r, p) = GitHubProvider::parse_uri("github://user/repo/path/to/dir").unwrap();
    assert_eq!((u.as_str(), r.as_str(), p.as_str()), ("user", "repo", "path/to/dir"));
    let (u, r, p) = GitHubProvider::parse_uri("github://user/repo").unwrap();
    assert_eq!((u.as_str(), r.as_str(), p.as_str()), ("user", "repo", ""));
    assert_eq!(GitHubProvider::parse_uri("github://user").unwrap_err(), "GitHub URI must be github://user/repo[/path]");
    assert_eq!(GitHubProvider::parse_uri("https://x").unwrap_err(), "Invalid GitHub URI");
    assert_eq!(
        GitHubProvider::api_url("u", "r", "p"),
        "https://api.github.com/repos/u/r/contents/p"
    );
    assert_eq!(GitHubProvider::with_token(Some("abc".to_string())).auth_header(), Some("token abc".to_string()));
    assert_eq!(GitHubProvider::new().auth_header(), None);
}

#[test]
fn github_contents_filtered() {
    let contents = vec![
        GitHubContent { name: "a.png".into(), path: "w/a.png".into(), content_type: "file".into(), size: Some(7), download_url: Some("https://raw/a.png".into()) },
        GitHubContent { name: "sub".into(), path: "w/sub".into(), content_type: "dir".into(), size: None, download_url: None },
        GitHubContent { name: "b.jpg".into(), path: "w/b.jpg".into(), content_type: "file".into(), size: None, download_url: None },
        GitHubContent { name: "c.md".into(), path: "w/c.md".into(), content_type: "file".into(), size: None, download_url: Some("https://raw/c.md".into()) },
    ];
    let entries = GitHubProvider::entries_from_contents(contents);
    assert_eq!(entries.len(), 1);
    assert_eq!(entries[0].uri, "https://raw/a.png");
    assert_eq!(entries[0].size, Some(7));
}

#[test]
fn http_provider_names_and_types() {
    let p = HttpProvider::new();
    assert!(p.can_handle("https://example.com/a.png"));
    assert!(!p.can_handle("ftp://example.com/a.png"));
    assert_eq!(HttpProvider::media_type_from_url("https://x/y/clip.MKV?token=1"), MediaType::Video);
    assert_eq!(HttpProvider::media_type_from_url("https://x/y/anim.gif"), MediaType::AnimatedImage);
    assert_eq!(HttpProvider::media_type_from_url("https://x/y/pic.avi"), MediaType::StaticImage);
    let entries = p.list("https://example.com/walls/sky.jpg?size=large");
    assert_eq!(entries.len(), 1);
    assert_eq!(entries[0].name, "sky.jpg");
    assert_eq!(entries[0].uri, "https://example.com/walls/sky.jpg?size=large");
    assert!(entries[0].metadata.is_empty());
}

#[test]
fn directory_links_resolved() {
    let html = r#"<html><body>
        <a href="../">Parent Directory</a>
        <a href="?C=N;O=D">Name</a>
        <a href="sky.png"> sky.png </a>
        <a href="/abs/moon.jpg"></a>
        <a href="https://cdn.example.com/sun.gif">sun.gif</a>
        <a href="notes.txt">notes.txt</a>
    </body></html>"#;
    let links = DirectoryIndexProvider::parse_directory_html(html, "https://example.com/walls");
    assert_eq!(links.len(), 4);
    assert_eq!(links[0], ("sky.png".to_string(), "https://example.com/walls/sky.png".to_string()));
    assert_eq!(links[1], ("/abs/moon.jpg".to_string(), "https://example.com/abs/moon.jpg".to_string()));
    assert_eq!(links[2].1, "https://cdn.example.com/sun.gif");
    let entries = DirectoryIndexProvider::entries_from_links(links);
    assert_eq!(entries.len(), 3);
    assert_eq!(entries[2].media_type, MediaType::AnimatedImage);
    let d = DirectoryIndexProvider::new();
    assert!(d.can_handle("http://host/walls/"));
    assert!(d.can_handle("https://host/autoindex.html"));
    assert!(!d.can_handle("https://host/walls"));
}

#[test]
fn file_provider_lists_sorted_images() {
    let found = vec![
        FoundFile { path: "/w/zeta.png".into(), is_file: true, size: Some(3) },
        FoundFile { path: "/w/alpha.jpg".into(), is_file: true, size: Some(1) },
        FoundFile { path: "/w/sub".into(), is_file: false, size: None },
        FoundFile { path: "/w/readme.txt".into(), is_file: true, size: Some(9) },
        FoundFile { path: "/w/Beta.gif".into(), is_file: true, size: None },
    ];
    let entries = FileProvider::directory_entries(found);
    let names: Vec<&str> = entries.iter().map(|e| e.name.as_str()).collect();
    assert_eq!(names, vec!["Beta.gif", "alpha.jpg", "zeta.png"]);
    assert_eq!(entries[0].media_type, MediaType::AnimatedImage);
    assert_eq!(FileProvider::media_type_from_path("/x/movie.AVI"), MediaType::Video);
    assert_eq!(FileProvider::media_type_from_path("/x/spin.APNG"), MediaType::AnimatedImage);
    assert_eq!(HttpProvider::media_type_from_url("https://x/y/spin.apng?v=2"), MediaType::AnimatedImage);
    assert_eq!(FileProvider::path_of("file:///home/a.png"), "/home/a.png");
    assert_eq!(FileProvider::path_of("~/a.png"), "~/a.png");
    let single = FileProvider::single_entry("file:///home/a.png", "/home/a.png", Some(5));
    assert_eq!(single.name, "a.png");
    assert_eq!(single.uri, "file:///home/a.png");
    assert_eq!(FileProvider::display_name("/"), "unknown");
}

#[test]
fn registry_finds_first_handler() {
    let reg = ProviderRegistry::default();
    assert_eq!(reg.find_provider("/home/me/pic.png"), Some(ProviderKind::File));
    assert_eq!(reg.find_provider("https://x/y.png"), None);
    let mut reg = ProviderRegistry::new();
    assert_eq!(reg.providers(), &[ProviderKind::File]);
    reg.register(ProviderKind::Directory);
    reg.register(ProviderKind::Http);
    reg.register(ProviderKind::S3);
    assert_eq!(reg.find_provider("https://x/walls/"), Some(ProviderKind::Directory));
    assert_eq!(reg.find_provider("https://x/y.png"), Some(ProviderKind::Http));
    assert_eq!(reg.find_provider("s3://b/p"), Some(ProviderKind::S3));
    assert_eq!(reg.find_provider("/home/me/pic.png"), Some(ProviderKind::File));
    assert_eq!(reg.providers().len(), 4);
    assert_eq!(ProviderKind::GitHub.id(), "github");
    assert!(!ProviderKind::Http.supports_streaming());
}
