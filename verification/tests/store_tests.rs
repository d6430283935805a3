use drumkit::RemoteKit;
use drumkit::StoreRow;
use drumkit::build_store_rows;
use drumkit::format_size;
use drumkit::normalize_repo_input;
use drumkit::raw_base;
use drumkit::tree_url;

#[test]
fn normalize_plain_owner_repo() {
    assert_eq!(normalize_repo_input("owner/repo"), Some("owner/repo".to_string()));
}

#[test]
fn normalize_https_url() {
    assert_eq!(
        normalize_repo_input("https://github.com/owner/repo"),
        Some("owner/repo".to_string())
    );
}

#[test]
fn normalize_http_url() {
    assert_eq!(
        normalize_repo_input("http://github.com/owner/repo"),
        Some("owner/repo".to_string())
    );
}

#[test]
fn normalize_www_url() {
    assert_eq!(
        normalize_repo_input("https://www.github.com/owner/repo"),
        Some("owner/repo".to_string())
    );
}

#[test]
fn normalize_trailing_slash() {
    assert_eq!(normalize_repo_input("owner/repo/"), Some("owner/repo".to_string()));
    assert_eq!(
        normalize_repo_input("https://github.com/owner/repo/"),
        Some("owner/repo".to_string())
    );
}

#[test]
fn normalize_github_com_prefix_no_protocol() {
    assert_eq!(
        normalize_repo_input("github.com/owner/repo"),
        Some("owner/repo".to_string())
    );
    assert_eq!(
        normalize_repo_input("github.com/owner/repo/"),
        Some("owner/repo".to_string())
    );
}

#[test]
fn normalize_with_whitespace() {
    assert_eq!(normalize_repo_input("  owner/repo  "), Some("owner/repo".to_string()));
}

#[test]
fn normalize_rejects_empty() {
    assert_eq!(normalize_repo_input(""), None);
    assert_eq!(normalize_repo_input("   "), None);
}

#[test]
fn normalize_rejects_no_slash() {
    assert_eq!(normalize_repo_input("just-a-name"), None);
}

#[test]
fn normalize_rejects_too_many_parts() {
    // After stripping github.com/, "owner/repo/extra" has 3 parts.
    assert_eq!(normalize_repo_input("owner/repo/extra"), None);
}

#[test]
fn store_urls() {
    assert_eq!(
        tree_url("owner/repo"),
        "https://api.github.com/repos/owner/repo/git/trees/main?recursive=1"
    );
    assert_eq!(raw_base("owner/repo"), "https://raw.githubusercontent.com/owner/repo/main");
}

fn kit(repo: &str, name: &str) -> RemoteKit {
    RemoteKit {
        name: name.to_string(),
        repo: repo.to_string(),
        file_count: 1,
        total_bytes: 1000,
        installed: false,
    }
}

#[test]
fn store_rows_insert_repo_headers() {
    let kits = vec![kit("a/a", "one"), kit("a/a", "two"), kit("b/b", "three")];
    let rows = build_store_rows(&kits);
    assert_eq!(rows.len(), 5);
    assert_eq!(rows[0], StoreRow::RepoHeader("a/a".to_string()));
    assert_eq!(rows[1], StoreRow::Kit(0));
    assert_eq!(rows[2], StoreRow::Kit(1));
    assert_eq!(rows[3], StoreRow::RepoHeader("b/b".to_string()));
    assert_eq!(rows[4], StoreRow::Kit(2));
}

#[test]
fn store_rows_empty() {
    let rows = build_store_rows(&[]);
    assert!(rows.is_empty());
}

#[test]
fn format_size_units() {
    assert_eq!(format_size(0), "0 B");
    assert_eq!(format_size(512), "512 B");
    assert_eq!(format_size(1023), "1023 B");
    assert_eq!(format_size(1024), "1.0 KB");
    assert_eq!(format_size(1536), "1.5 KB");
    assert_eq!(format_size(1048576), "1.0 MB");
    assert_eq!(format_size(5 * 1048576 + 1048576 / 2), "5.5 MB");
}

#[test]
fn format_size_matches_float_formatting() {
    // The same rounding as {:.1} of the float quotient, including the
    // half-to-even case: 1280 / 1024 = 1.25 displays as "1.2".
    assert_eq!(format_size(1280), format!("{:.1} KB", 1280f64 / 1024.0));
    for &b in &[1024u64, 1100, 1280, 1536, 2047, 9999, 123456, 1048575] {
        assert_eq!(format_size(b), format!("{:.1} KB", b as f64 / 1024.0), "bytes {}", b);
    }
    for &b in &[1048576u64, 1500000, 2097152, 10485760] {
        assert_eq!(
            format_size(b),
            format!("{:.1} MB", b as f64 / (1024.0 * 1024.0)),
            "bytes {}",
            b
        );
    }
}
