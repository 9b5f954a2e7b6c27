use tweakers::cosmic_apps::{
    color_picker_install_hint, cosmic_tweaks_bins, cosmic_tweaks_install_hint, detect_apps,
    fan_control_install_hint, first_found, search_plan, Probe,
};
use tweakers::cosmic_themes::{
    archive_writes, cache_is_fresh, extract_csrf, listings_from_parts, extract_next_text_value, is_zip_archive, listing_from_parts,
    parse_themes_html, rgba_components, sanitize_zip_path, sort_by_downloads, theme_download_url,
    theme_install_dir, theme_page_url, CosmicTheme, ThemeListing, ThemeParts, CACHE_TTL_SECS,
};

fn probe_text(p: &Probe) -> String {
    match p {
        Probe::OnPath(n) => format!("path:{}", n),
        Probe::File(f) => format!("file:{}", f),
    }
}

#[test]
fn search_order() {
    let plan = search_plan(&cosmic_tweaks_bins(), Some("/home/u"));
    let texts: Vec<String> = plan.iter().map(probe_text).collect();
    assert_eq!(
        texts,
        vec![
            "path:cosmic-tweaks",
            "path:cosmic_tweaks",
            "file:/usr/local/bin/cosmic-tweaks",
            "file:/usr/local/bin/cosmic_tweaks",
            "file:/usr/bin/cosmic-tweaks",
            "file:/usr/bin/cosmic_tweaks",
            "file:/home/u/.cargo/bin/cosmic-tweaks",
            "file:/home/u/.cargo/bin/cosmic_tweaks",
            "file:/home/u/.local/bin/cosmic-tweaks",
            "file:/home/u/.local/bin/cosmic_tweaks",
        ]
    );
    assert_eq!(search_plan(&cosmic_tweaks_bins(), None).len(), 6);
}

#[test]
fn first_hit_wins() {
    assert_eq!(first_found(&vec![None, Some("/b".into()), Some("/c".into())]), Some("/b".into()));
    assert_eq!(first_found(&vec![None, None]), None);
    let a = detect_apps(Some("/t".into()), None, Some("/p".into()));
    assert_eq!(a.cosmic_tweaks_path.as_deref(), Some("/t"));
    assert!(a.fan_control_path.is_none());
}

#[test]
fn hints() {
    assert!(cosmic_tweaks_install_hint().starts_with("cosmic-tweaks not found.\nInstall from: "));
    assert_eq!(
        fan_control_install_hint(),
        "fan-control not found.\nInstall from: https://github.com/wiiznokes/fan-control\nOr try: cargo install fan-control"
    );
    assert!(color_picker_install_hint().ends_with("Or try: cargo install cosmic-color-picker"));
}

#[test]
fn cache_freshness() {
    assert!(cache_is_fresh(Some(10)));
    assert!(cache_is_fresh(Some(0)));
    assert!(cache_is_fresh(Some(CACHE_TTL_SECS - 1)));
    assert!(!cache_is_fresh(Some(CACHE_TTL_SECS)));
    assert!(!cache_is_fresh(None));
}

#[test]
fn text_values() {
    let html = "<div>Author</div>\n<div class=\"text-end\"> jane </div><div>Downloads</div><div class=\"text-end\">42</div>";
    assert_eq!(extract_next_text_value(html, "Author"), Some("jane".to_string()));
    assert_eq!(extract_next_text_value(html, "Downloads"), Some("42".to_string()));
    assert_eq!(extract_next_text_value(html, "Missing"), None);
    assert_eq!(extract_next_text_value("Author only", "Author"), None);
}

#[test]
fn rgba() {
    let css = ":root { --accent-color: rgba(62, 160.5, 255, 1); --bg-color: rgba(1,2); }";
    assert_eq!(
        rgba_components(css, "--accent-color"),
        Some(("62".to_string(), "160.5".to_string(), "255".to_string()))
    );
    assert_eq!(rgba_components(css, "--bg-color"), None);
    assert_eq!(rgba_components(css, "--other"), None);
}

#[test]
fn csrf() {
    let page = "<input type=\"hidden\" name=\"csrfmiddlewaretoken\" value=\"abc123\">";
    assert_eq!(extract_csrf(page), Some("abc123".to_string()));
    assert_eq!(extract_csrf("<form></form>"), None);
}

#[test]
fn zip_entry_names() {
    assert_eq!(sanitize_zip_path("theme/colors.ron"), Some("colors.ron".to_string()));
    assert_eq!(sanitize_zip_path("/abs/path/file"), Some("file".to_string()));
    assert_eq!(sanitize_zip_path("../../etc/passwd"), Some("passwd".to_string()));
    assert_eq!(sanitize_zip_path("plain"), Some("plain".to_string()));
    assert_eq!(sanitize_zip_path("dir/"), None);
    assert_eq!(sanitize_zip_path(".."), None);
    assert_eq!(sanitize_zip_path("a/.."), None);
    assert_eq!(sanitize_zip_path("."), None);
    assert_eq!(sanitize_zip_path("x/./"), None);
    assert_eq!(sanitize_zip_path(""), None);
    for n in ["a/b/c", "///x", "x/", "../y", "a/..", "..", "."] {
        if let Some(r) = sanitize_zip_path(n) {
            assert!(!r.contains('/') && r != ".." && r != "." && !r.is_empty() && n.ends_with(&r));
        }
    }
}

fn zip_of(entries: &[(&str, &[u8])]) -> Vec<u8> {
    let mut w = zip::ZipWriter::new(std::io::Cursor::new(Vec::new()));
    for (name, data) in entries {
        if name.ends_with('/') {
            w.add_directory(*name, zip::write::SimpleFileOptions::default()).unwrap();
        } else {
            let stored = zip::write::SimpleFileOptions::default().compression_method(zip::CompressionMethod::Stored);
            w.start_file(*name, stored).unwrap();
            std::io::Write::write_all(&mut w, data).unwrap();
        }
    }
    w.finish().unwrap().into_inner()
}

#[test]
fn archive_entries_written() {
    let bytes = zip_of(&[
        ("theme/", b""),
        ("theme/colors.ron", b"(dark: true)"),
        ("../../evil", b"x"),
        ("theme/..", b"y"),
        ("readme", b"hi"),
    ]);
    assert!(is_zip_archive(&bytes));
    let (got, error) = archive_writes(&bytes);
    assert_eq!(error, None);
    assert_eq!(
        got,
        vec![
            ("colors.ron".to_string(), false, b"(dark: true)".to_vec()),
            ("evil".to_string(), false, b"x".to_vec()),
            ("readme".to_string(), false, b"hi".to_vec()),
        ]
    );
    let (none, error) = archive_writes(b"PK not really a zip");
    assert!(none.is_empty());
    assert!(error.is_some());
}

#[test]
fn urls_and_dirs() {
    assert_eq!(theme_page_url(17), "https://cosmic-themes.org/17/");
    assert_eq!(theme_download_url(17), "https://cosmic-themes.org/17/download/");
    assert_eq!(
        theme_install_dir(Some("/home/u/.local/share"), "Dark"),
        "/home/u/.local/share/themes/cosmic/Dark"
    );
    assert_eq!(theme_install_dir(None, "Dark"), "/tmp/themes/cosmic/Dark");
    assert!(is_zip_archive(b"PK\x03\x04"));
    assert!(!is_zip_archive(b"\x1f\x8b"));
    assert!(!is_zip_archive(b"P"));
}

fn parts(id: Option<&str>, heading: Option<&str>, html: &str) -> ThemeParts {
    ThemeParts {
        preview_id: id.map(|s| s.to_string()),
        heading: heading.map(|s| s.to_string()),
        html: html.to_string(),
        homepage: Some("https://example.org".into()),
        style: Some("--is-dark: 1;".into()),
    }
}

#[test]
fn listing_of_sections() {
    let l = listing_from_parts(&parts(
        Some("theme-preview-12"),
        Some("  Nord  "),
        "Downloads <div class=\"text-end\">77</div>",
    ))
    .unwrap();
    assert_eq!(l.id, 12);
    assert_eq!(l.name, "Nord");
    assert_eq!(l.downloads, 77);
    assert_eq!(l.author, "");
    assert!(l.is_dark);
    assert_eq!(l.homepage, "https://example.org");
    assert!(listing_from_parts(&parts(Some("theme-preview-0"), Some("X"), "")).is_none());
    assert!(listing_from_parts(&parts(Some("other-12"), Some("X"), "")).is_none());
    assert!(listing_from_parts(&parts(None, Some("X"), "")).is_none());
    assert!(listing_from_parts(&parts(Some("theme-preview-3"), Some("   "), "")).is_none());
}

fn listing(id: u32, downloads: u32) -> ThemeListing {
    ThemeListing {
        id,
        name: format!("t{}", id),
        author: String::new(),
        homepage: String::new(),
        downloads,
        is_dark: false,
        style: String::new(),
    }
}

#[test]
fn sort_is_stable_and_descending() {
    let v = vec![listing(1, 5), listing(2, 9), listing(3, 5), listing(4, 0), listing(5, 9)];
    let ids: Vec<u32> = sort_by_downloads(v).iter().map(|t| t.id).collect();
    assert_eq!(ids, vec![2, 5, 1, 3, 4]);
    assert!(sort_by_downloads(vec![]).is_empty());
}

#[test]
fn listing_page() {
    let html = r#"<html><body>
<section><div id="theme-preview-3"></div><h3> Alpha </h3>
<div>Author</div><div class="text-end">ann</div>
<div>Downloads</div><div class="text-end">10</div>
<a href="https://alpha.example">home</a>
<style>:root { --accent-color: rgba(10, 20, 30, 1); --is-dark: 1; }</style></section>
<section><div id="theme-preview-7"></div><h3>Beta</h3>
<div>Downloads</div><div class="text-end">25</div></section>
<section><h3>No preview</h3></section>
<section><div id="theme-preview-9"></div></section>
</body></html>"#;
    let themes = parse_themes_html(html).unwrap();
    let ids: Vec<u32> = themes.iter().map(|t| t.id).collect();
    assert_eq!(ids, vec![7, 3]);
    assert_eq!(themes[1].name, "Alpha");
    assert_eq!(themes[1].author, "ann");
    assert_eq!(themes[1].downloads, 10);
    assert_eq!(themes[1].homepage, "https://alpha.example");
    assert!(themes[1].is_dark);
    assert!(!themes[0].is_dark);
    let _ = CosmicTheme::default();
}

#[test]
fn corrupt_entry_keeps_earlier_ones() {
    let mut bytes = zip_of(&[("first.ron", b"one"), ("second.ron", b"two-two-two")]);
    // Damage the stored content of the second entry so that its checksum fails.
    let pos = bytes.windows(11).position(|w| w == b"two-two-two").unwrap();
    bytes[pos] = b'X';
    let (got, error) = archive_writes(&bytes);
    assert_eq!(got, vec![("first.ron".to_string(), false, b"one".to_vec())]);
    assert!(error.is_some());
}

#[test]
fn page_sections_in_download_order() {
    let html = "<section><div id='theme-preview-1'></div><h3>A</h3><div>Downloads</div><div class='text-end'>5</div></section><section><div id='theme-preview-2'></div><h3>B</h3><div>Downloads</div><div class='text-end'>9</div></section>";
    let got: Vec<(u32, String, u32)> =
        parse_themes_html(html).unwrap().iter().map(|t| (t.id, t.name.clone(), t.downloads)).collect();
    assert_eq!(got, vec![(2, "B".to_string(), 9), (1, "A".to_string(), 5)]);
}

#[test]
fn malformed_sections_dropped() {
    let html = "<section><div id='theme-preview-0'></div><h3>Zero</h3></section><section><div id='theme-preview-x'></div><h3>Bad</h3></section><section><div id='theme-preview-7'></div></section><section><h3>NoPreview</h3></section>";
    assert!(parse_themes_html(html).unwrap().is_empty());
}

#[test]
fn listings_of_parts_sorted() {
    let ps = vec![
        parts(Some("theme-preview-1"), Some("A"), "Downloads <div class=\"text-end\">5</div>"),
        parts(None, Some("skipped"), ""),
        parts(Some("theme-preview-2"), Some("B"), "Downloads <div class=\"text-end\">9</div>"),
        parts(Some("theme-preview-3"), Some("C"), "Downloads <div class=\"text-end\">5</div>"),
    ];
    let ids: Vec<u32> = listings_from_parts(&ps).iter().map(|t| t.id).collect();
    assert_eq!(ids, vec![2, 1, 3]);
}
