use boinc::markdown::{markdown_document, normalize};
use boinc::update::{asset_suffix, install_kind, is_newer, parse_version, select_update, InstallKind};
use boinc::libreoffice::Os;

#[test]
fn version_is_set() {
    assert!(!boinc::version().is_empty());
    assert_eq!(boinc::version(), "0.4.1");
}

#[test]
fn normalize_collapses_gaps_and_trailing_whitespace() {
    assert_eq!(
        normalize("Title  \n\n\n\nBody line one\nline two\n\x0C\nNext page\n"),
        "Title\n\nBody line one\nline two\n\nNext page\n"
    );
    assert_eq!(normalize(""), "");
    assert_eq!(normalize("\n\n\n"), "");
}

#[test]
fn normalize_handles_crlf_and_leading_blanks() {
    assert_eq!(normalize("\n\n  \nA\r\nB\r\n\r\n\r\nC"), "A\nB\n\nC\n");
    assert_eq!(normalize("one line"), "one line\n");
}

#[test]
fn version_parsing_and_ordering() {
    assert_eq!(parse_version("v0.2.0"), Some((0, 2, 0)));
    assert_eq!(parse_version("1.12.3"), Some((1, 12, 3)));
    assert_eq!(parse_version("v0.2"), None);
    assert_eq!(parse_version("nightly"), None);
    // Tuple ordering is the semver ordering for numeric triples.
    assert!(parse_version("v0.10.0") > parse_version("v0.9.9"));
    assert!(parse_version("v1.0.0") > parse_version("v0.99.0"));
}

#[test]
fn version_parsing_edges() {
    assert_eq!(parse_version("  v1.2.3\n"), Some((1, 2, 3)));
    assert_eq!(parse_version("1.2.3.4"), None);
    assert_eq!(parse_version("1.2.x"), None);
    assert_eq!(parse_version("+1.2.3"), Some((1, 2, 3)));
    assert_eq!(parse_version("18446744073709551615.0.0"), Some((u64::MAX, 0, 0)));
    assert_eq!(parse_version("18446744073709551616.0.0"), None);
    assert!(is_newer((0, 10, 0), (0, 9, 9)));
    assert!(!is_newer((1, 0, 0), (1, 0, 0)));
}

#[test]
fn asset_suffixes_match_release_artifact_names() {
    // Names as the release workflow produces them, e.g.
    // boinc_0.2.0-1_arm64.deb / boinc-0.2.0-1.aarch64.rpm.
    for arch in ["x86_64", "aarch64"] {
        assert_eq!(
            asset_suffix(InstallKind::Deb, arch).unwrap(),
            if arch == "aarch64" {
                "_arm64.deb"
            } else {
                "_amd64.deb"
            }
        );
        assert_eq!(
            asset_suffix(InstallKind::Rpm, arch).unwrap(),
            format!(".{arch}.rpm")
        );
        assert!(asset_suffix(InstallKind::Msi, arch).unwrap().ends_with(".msi"));
        assert_eq!(asset_suffix(InstallKind::Unpackaged, arch), None);
    }
}

#[test]
fn install_kind_by_platform() {
    assert_eq!(install_kind(Os::Windows, true, true), InstallKind::Msi);
    assert_eq!(install_kind(Os::MacOs, true, false), InstallKind::Dmg);
    assert_eq!(install_kind(Os::Linux, true, true), InstallKind::Deb);
    assert_eq!(install_kind(Os::Linux, false, true), InstallKind::Rpm);
    assert_eq!(install_kind(Os::Linux, false, false), InstallKind::Unpackaged);
    assert_eq!(asset_suffix(InstallKind::Deb, "aarch64").unwrap(), "_arm64.deb");
}

#[test]
fn update_offered_only_when_newer() {
    let assets = vec![
        ("boinc_0.5.0-1_amd64.deb".to_string(), "https://x/deb".to_string()),
        ("boinc-0.5.0-1.x86_64.rpm".to_string(), "https://x/rpm".to_string()),
    ];
    let info = select_update("v0.5.0", "0.4.1", &assets, None, Some(".x86_64.rpm")).unwrap();
    assert_eq!(info.version, "0.5.0");
    assert_eq!(info.release_url, "https://github.com/bartbeecoders/boinc/releases/latest");
    assert_eq!(info.asset_name.as_deref(), Some("boinc-0.5.0-1.x86_64.rpm"));
    assert_eq!(info.asset_url.as_deref(), Some("https://x/rpm"));

    let none = select_update("v0.5.0", "0.4.1", &assets, Some("https://page"), Some(".msi")).unwrap();
    assert_eq!(none.release_url, "https://page");
    assert_eq!(none.asset_name, None);

    assert!(select_update("v0.4.1", "0.4.1", &assets, None, None).is_none());
    assert!(select_update("v0.3.9", "0.4.1", &assets, None, None).is_none());
    assert!(select_update("nightly", "0.4.1", &assets, None, None).is_none());
}

#[test]
fn markdown_page_wraps_rendered_html() {
    let doc = markdown_document("# Hi\n\n*there*\n", Some("/home/me/docs"));
    assert_eq!(
        doc,
        "<!DOCTYPE html>\n<html><head><meta charset=\"utf-8\"><base href=\"file:///home/me/docs/\"></head><body>\n<h1>Hi</h1>\n<p><em>there</em></p>\n</body></html>\n"
    );
    let plain = markdown_document("| a |\n|---|\n| b |\n", None);
    assert!(plain.contains("<table>"));
    assert!(plain.starts_with("<!DOCTYPE html>\n<html><head><meta charset=\"utf-8\"></head>"));
}

#[test]
fn html_page_around_a_body() {
    assert_eq!(
        boinc::markdown::html_document("<p>x</p>\n", Some("/tmp/notes")),
        "<!DOCTYPE html>\n<html><head><meta charset=\"utf-8\"><base href=\"file:///tmp/notes/\"></head><body>\n<p>x</p>\n</body></html>\n"
    );
    assert_eq!(
        boinc::markdown::html_document("", None),
        "<!DOCTYPE html>\n<html><head><meta charset=\"utf-8\"></head><body>\n</body></html>\n"
    );
}

#[test]
fn normalized_text_has_single_blank_lines_and_no_trailing_space() {
    let out = normalize("\n\n  lead\t \r\n\u{a0}\n\n\x0C\n\nnext  \nlast\u{3000}");
    assert_eq!(out, "  lead\n\nnext\nlast\n");
    assert!(!out.contains("\n\n\n"));
    assert!(!out.starts_with('\n'));
    assert!(out.ends_with('\n') && !out.ends_with("\n\n"));
    assert_eq!(normalize(" \t \n \n"), "");
}

#[test]
fn normalizing_twice_changes_nothing_and_keeps_lines() {
    let text = "\n  Title \t\n\n\n\x0C\nBody one  \nbody two\n\n\u{a0}\nEnd";
    let once = normalize(text);
    assert_eq!(normalize(&once), once);
    let kept: Vec<&str> = text.lines().map(str::trim_end).filter(|l| !l.is_empty()).collect();
    let out: Vec<&str> = once.lines().filter(|l| !l.is_empty()).collect();
    assert_eq!(out, kept);
    assert_eq!(normalize(" \n\t\n"), "");
}

#[test]
fn windows_extensions_parse_back() {
    for f in boinc::format::ALL {
        let exts = boinc::entries::windows_extensions(f);
        assert!(!exts.is_empty());
        for e in exts {
            assert!(e.starts_with('.'));
            assert_eq!(boinc::format::Format::from_extension(e), Some(f));
        }
    }
    assert_eq!(boinc::entries::windows_extensions(boinc::format::Format::Jpg), vec![".jpg", ".jpeg"]);
}
