use immunipy::manifest::{
    manifest_kind, parse_lock_manifest, parse_requirements_manifest, pinned_split, ManifestKind,
};

#[test]
fn pinned_line_yields_declaration() {
    let decls = parse_requirements_manifest("flask==1.0");
    assert_eq!(decls.len(), 1);
    assert_eq!(decls[0].pkg_name, "flask");
    assert_eq!(decls[0].pkg_version, "1.0");
}

#[test]
fn unpinned_line_yields_nothing() {
    let decls = parse_requirements_manifest("flask>=1.0");
    assert_eq!(decls.len(), 0);
}

#[test]
fn commented_line_yields_nothing() {
    let decls = parse_requirements_manifest("# flask==1.0");
    assert_eq!(decls.len(), 0);
}

#[test]
fn requirements_mixed_lines() {
    let text = "# deps\nflask==1.0\n\nrequests>=2.0\ndjango==4.2.1\nhttps://example.com/pkg.whl\n";
    let decls = parse_requirements_manifest(text);
    assert_eq!(decls.len(), 2);
    assert_eq!(decls[0].pkg_name, "flask");
    assert_eq!(decls[0].pkg_version, "1.0");
    assert_eq!(decls[1].pkg_name, "django");
    assert_eq!(decls[1].pkg_version, "4.2.1");
}

#[test]
fn requirements_crlf_lines() {
    let decls = parse_requirements_manifest("flask==1.0\r\nurllib3==2.0.7\r\n");
    assert_eq!(decls.len(), 2);
    assert_eq!(decls[0].pkg_version, "1.0");
    assert_eq!(decls[1].pkg_name, "urllib3");
}

#[test]
fn requirements_empty_text() {
    assert_eq!(parse_requirements_manifest("").len(), 0);
}

#[test]
fn pinned_split_takes_text_between_first_two_markers() {
    let (name, version) = pinned_split("a==1==2").unwrap();
    assert_eq!(name, "a");
    assert_eq!(version, "1");
    assert!(pinned_split("==1.0").is_none());
    assert!(pinned_split("").is_none());
    assert!(pinned_split("3pkg==1.0").is_none());
}

#[test]
fn lock_manifest_entries() {
    let text = "[[package]]\nname = \"flask\"\nversion = \"1.0\"\n\n[[package]]\nname = \"jinja2\"\nversion = \"3.1.2\"\n";
    let decls = parse_lock_manifest(text).unwrap();
    assert_eq!(decls.len(), 2);
    assert_eq!(decls[0].pkg_name, "flask");
    assert_eq!(decls[0].pkg_version, "1.0");
    assert_eq!(decls[1].pkg_name, "jinja2");
    assert_eq!(decls[1].pkg_version, "3.1.2");
}

#[test]
fn lock_manifest_skips_malformed_entries() {
    let text = "[[package]]\nname = \"flask\"\n\n[[package]]\nname = \"jinja2\"\nversion = \"3.1.2\"\n\n[[package]]\nversion = \"9.9\"\n";
    let decls = parse_lock_manifest(text).unwrap();
    assert_eq!(decls.len(), 1);
    assert_eq!(decls[0].pkg_name, "jinja2");
}

#[test]
fn lock_manifest_without_package_array() {
    let decls = parse_lock_manifest("title = \"nothing\"\n").unwrap();
    assert_eq!(decls.len(), 0);
}

#[test]
fn lock_manifest_invalid_toml_is_an_error() {
    assert!(parse_lock_manifest("[[package\n").is_none());
}

#[test]
fn spaces_around_the_marker_stay_in_name_and_version() {
    let (name, version) = pinned_split("flask == 1.0").unwrap();
    assert_eq!(name, "flask ");
    assert_eq!(version, " 1.0");
}

#[test]
fn manifest_kind_by_suffix() {
    assert!(matches!(manifest_kind("a/b/requirements.txt"), ManifestKind::Requirements));
    assert!(matches!(manifest_kind("a/b/poetry.lock"), ManifestKind::Lock));
    assert!(matches!(manifest_kind("a/b/Cargo.toml"), ManifestKind::Other));
    assert!(matches!(manifest_kind("requirements.txt"), ManifestKind::Requirements));
}
