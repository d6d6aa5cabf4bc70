use immunipy::engine::{
    base_name, build_query, get_repo_name, relative_path, resolve_manifest,
};
use immunipy::manifest::{parse_requirements_manifest, DependencyDeclaration};

fn decl(name: &str, version: &str) -> DependencyDeclaration {
    DependencyDeclaration { pkg_name: name.to_string(), pkg_version: version.to_string() }
}

#[test]
fn query_body_shape() {
    let q = build_query(&decl("flask", "1.0"));
    assert_eq!(
        q,
        "{\"version\": \"1.0\", \"package\": {\"name\": \"flask\", \"ecosystem\": \"PyPI\"}}"
    );
    let parsed: serde_json::Value = serde_json::from_str(&q).unwrap();
    assert_eq!(parsed["version"], "1.0");
    assert_eq!(parsed["package"]["name"], "flask");
    assert_eq!(parsed["package"]["ecosystem"], "PyPI");
}

#[test]
fn empty_payload_yields_no_finding() {
    let decls = vec![decl("flask", "1.0")];
    let responses = vec![Some("{}".to_string())];
    let findings = resolve_manifest(&decls, &responses, "/proj/requirements.txt", "/proj");
    assert_eq!(findings.len(), 0);
}

#[test]
fn one_advisory_yields_one_finding() {
    let body = "{\"vulns\": [{\"id\": \"VULN-1\", \"published\": \"2022-01-01T00:00:00Z\", \
        \"summary\": \"bad\", \"aliases\": [\"CVE-2022-1\"], \
        \"database_specific\": {\"cwe_ids\": [\"CWE-20\"]}, \
        \"severity\": [{\"type\": \"CVSS_V3\", \"score\": \"9.8\"}], \
        \"affected\": [{\"ranges\": [{\"events\": [{\"introduced\": \"0\"}, {\"fixed\": \"1.2.0\"}, {\"fixed\": \"1.3.0\"}]}]}]}]}";
    let decls = vec![decl("flask", "1.0")];
    let responses = vec![Some(body.to_string())];
    let findings = resolve_manifest(&decls, &responses, "/proj/sub/requirements.txt", "/proj");
    assert_eq!(findings.len(), 1);
    let f = &findings[0];
    assert_eq!(f.pkg_name, "flask");
    assert_eq!(f.vuln_version, "1.0");
    assert_eq!(f.vuln_id, "VULN-1");
    assert_eq!(f.vuln_summary, "bad");
    assert_eq!(f.vuln_aliases, vec!["CVE-2022-1".to_string()]);
    assert_eq!(f.cwe_ids, vec!["CWE-20".to_string()]);
    assert_eq!(f.severity, vec![("9.8".to_string(), "CVSS_V3".to_string())]);
    assert_eq!(f.fixed_version, "1.3.0");
    assert_eq!(f.published_date, "2022-01-01T00:00:00Z");
    assert_eq!(f.path, "sub/requirements.txt");
    assert_eq!(f.file_name, "requirements.txt");
}

#[test]
fn failed_or_malformed_answers_cost_only_their_declaration() {
    let good = "{\"vulns\": [{\"id\": \"VULN-2\", \"published\": \"2021-01-01T00:00:00Z\"}]}";
    let decls = vec![decl("a", "1.0"), decl("b", "2.0"), decl("c", "3.0")];
    let responses = vec![None, Some("not json".to_string()), Some(good.to_string())];
    let findings = resolve_manifest(&decls, &responses, "/r/poetry.lock", "/r");
    assert_eq!(findings.len(), 1);
    assert_eq!(findings[0].pkg_name, "c");
    assert_eq!(findings[0].vuln_id, "VULN-2");
}

#[test]
fn resolving_twice_yields_identical_findings() {
    let body = "{\"vulns\": [{\"id\": \"VULN-1\", \"published\": \"2022-01-01T00:00:00Z\"}]}";
    let decls = parse_requirements_manifest("flask==1.0\njinja2==3.1.2\n");
    let responses = vec![Some(body.to_string()), Some("{}".to_string())];
    let first = resolve_manifest(&decls, &responses, "/p/requirements.txt", "/p");
    let second = resolve_manifest(&decls, &responses, "/p/requirements.txt", "/p");
    assert_eq!(first.len(), second.len());
    for (a, b) in first.iter().zip(second.iter()) {
        assert_eq!(a.path, b.path);
        assert_eq!(a.file_name, b.file_name);
        assert_eq!(a.pkg_name, b.pkg_name);
        assert_eq!(a.vuln_summary, b.vuln_summary);
        assert_eq!(a.vuln_version, b.vuln_version);
        assert_eq!(a.vuln_id, b.vuln_id);
        assert_eq!(a.vuln_aliases, b.vuln_aliases);
        assert_eq!(a.fixed_version, b.fixed_version);
        assert_eq!(a.cwe_ids, b.cwe_ids);
        assert_eq!(a.published_date, b.published_date);
        assert_eq!(a.severity, b.severity);
    }
}

#[test]
fn relative_paths_join_back_to_the_scanned_file() {
    let root = "/proj";
    let path = "/proj/sub/dir/requirements.txt";
    let rel = relative_path(path, root);
    assert_eq!(rel, "sub/dir/requirements.txt");
    assert_eq!(format!("{}/{}", root, rel), path);
}

#[test]
fn path_not_under_root_is_kept_whole() {
    assert_eq!(relative_path("/other/poetry.lock", "/proj"), "/other/poetry.lock");
    assert_eq!(relative_path("/proj", "/proj"), "/proj");
}

#[test]
fn base_name_is_the_last_segment() {
    assert_eq!(base_name("/a/b/poetry.lock"), "poetry.lock");
    assert_eq!(base_name("poetry.lock"), "poetry.lock");
    assert_eq!(base_name("/a/b/"), "");
}

#[test]
fn repo_name_from_url() {
    assert_eq!(get_repo_name("https://example.com/owner/repo.git"), "repo");
    assert_eq!(get_repo_name("https://example.com/owner/repo"), "repo");
    assert_eq!(get_repo_name("https://example.com/owner/repo/"), "repo");
    assert_eq!(get_repo_name("https://example.com/owner/repo.git//"), "repo");
    assert_eq!(get_repo_name("repo.git"), "repo");
}
