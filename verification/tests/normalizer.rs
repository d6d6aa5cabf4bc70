use immunipy::advisory::{normalize, published_key, resolve_fixed_version, VulnerablePackage};
use immunipy::doc::DocValue;
use immunipy::manifest::DependencyDeclaration;
use immunipy::semver_cmp::max_fixed_version;

fn txt(s: &str) -> DocValue {
    DocValue::Text(s.to_string())
}

fn obj(pairs: Vec<(&str, DocValue)>) -> DocValue {
    DocValue::Object(pairs.into_iter().map(|(k, v)| (k.to_string(), v)).collect())
}

fn arr(items: Vec<DocValue>) -> DocValue {
    DocValue::Array(items)
}

fn decl(name: &str, version: &str) -> DependencyDeclaration {
    DependencyDeclaration { pkg_name: name.to_string(), pkg_version: version.to_string() }
}

fn record(id: &str, published: &str) -> DocValue {
    obj(vec![("id", txt(id)), ("published", txt(published))])
}

fn payload(records: Vec<DocValue>) -> DocValue {
    obj(vec![("vulns", arr(records))])
}

fn run(payload_doc: &DocValue) -> Option<VulnerablePackage> {
    normalize(payload_doc, &decl("flask", "1.0"), "sub/requirements.txt", "requirements.txt")
}

#[test]
fn latest_published_record_is_selected() {
    let p = payload(vec![
        record("VULN-T2", "2022-06-15T10:00:00Z"),
        record("VULN-T3", "2023-01-01T00:00:00Z"),
        record("VULN-T1", "2021-03-04T05:06:07Z"),
    ]);
    let f = run(&p).unwrap();
    assert_eq!(f.vuln_id, "VULN-T3");
    assert_eq!(f.published_date, "2023-01-01T00:00:00Z");
}

#[test]
fn equal_timestamps_keep_the_last_record() {
    let p = payload(vec![
        record("VULN-A", "2022-06-15T10:00:00Z"),
        record("VULN-B", "2022-06-15T10:00:00Z"),
    ]);
    let f = run(&p).unwrap();
    assert_eq!(f.vuln_id, "VULN-B");
}

#[test]
fn offset_timestamps_compare_as_instants() {
    // 09:00 at offset -02:00 is 11:00 UTC, later than 10:00 UTC.
    let p = payload(vec![
        record("VULN-UTC", "2022-06-15T10:00:00Z"),
        record("VULN-OFF", "2022-06-15T09:00:00-02:00"),
    ]);
    let f = run(&p).unwrap();
    assert_eq!(f.vuln_id, "VULN-OFF");
}

#[test]
fn unparsable_timestamp_sorts_earliest() {
    let p = payload(vec![
        record("VULN-GOOD", "2020-01-01T00:00:00Z"),
        record("VULN-BAD", "not a timestamp"),
    ]);
    let f = run(&p).unwrap();
    assert_eq!(f.vuln_id, "VULN-GOOD");
}

#[test]
fn empty_vulns_array_yields_no_finding() {
    assert!(run(&payload(vec![])).is_none());
}

#[test]
fn payload_without_vulns_key_yields_no_finding() {
    assert!(run(&obj(vec![])).is_none());
    assert!(run(&obj(vec![("other", txt("x"))])).is_none());
}

fn fixed_event(v: &str) -> DocValue {
    obj(vec![("fixed", txt(v))])
}

fn range_of(events: Vec<DocValue>) -> DocValue {
    obj(vec![("type", txt("ECOSYSTEM")), ("events", arr(events))])
}

fn affected_of(ranges: Vec<DocValue>) -> DocValue {
    obj(vec![("ranges", arr(ranges))])
}

#[test]
fn highest_fixed_version_across_all_ranges() {
    let mut rec = record("VULN-1", "2022-01-01T00:00:00Z");
    if let DocValue::Object(ref mut pairs) = rec {
        pairs.push((
            "affected".to_string(),
            arr(vec![
                affected_of(vec![range_of(vec![
                    obj(vec![("introduced", txt("0"))]),
                    fixed_event("1.2.0"),
                ])]),
                affected_of(vec![
                    range_of(vec![fixed_event("1.3.0")]),
                    range_of(vec![fixed_event("1.2.5")]),
                ]),
            ]),
        ));
    }
    let f = run(&payload(vec![rec])).unwrap();
    assert_eq!(f.fixed_version, "1.3.0");
}

#[test]
fn no_fixed_events_anywhere() {
    let mut rec = record("VULN-1", "2022-01-01T00:00:00Z");
    if let DocValue::Object(ref mut pairs) = rec {
        pairs.push((
            "affected".to_string(),
            arr(vec![affected_of(vec![range_of(vec![obj(vec![("introduced", txt("0"))])])])]),
        ));
    }
    let f = run(&payload(vec![rec])).unwrap();
    assert_eq!(f.fixed_version, "no fixed version available");
}

#[test]
fn record_without_affected_has_no_fixed_version() {
    let f = run(&payload(vec![record("VULN-1", "2022-01-01T00:00:00Z")])).unwrap();
    assert_eq!(f.fixed_version, "no fixed version available");
}

#[test]
fn unparsable_fixed_strings_are_excluded() {
    let mut rec = record("VULN-1", "2022-01-01T00:00:00Z");
    if let DocValue::Object(ref mut pairs) = rec {
        pairs.push((
            "affected".to_string(),
            arr(vec![affected_of(vec![range_of(vec![
                fixed_event("not-a-version"),
                fixed_event("2.0.1"),
                fixed_event("1.9"),
            ])])]),
        ));
    }
    let f = run(&payload(vec![rec])).unwrap();
    assert_eq!(f.fixed_version, "2.0.1");
}

#[test]
fn resolve_fixed_version_on_bare_record() {
    let rec = obj(vec![(
        "affected",
        arr(vec![affected_of(vec![range_of(vec![
            fixed_event("0.9.0"),
            fixed_event("0.10.0"),
        ])])]),
    )]);
    assert_eq!(resolve_fixed_version(&rec), "0.10.0");
}

#[test]
fn max_fixed_version_orders_prereleases() {
    let cands = vec![
        "1.0.0-alpha".to_string(),
        "1.0.0".to_string(),
        "1.0.0-rc.1".to_string(),
    ];
    assert_eq!(max_fixed_version(&cands).unwrap(), "1.0.0");
    let none: Vec<String> = vec!["nope".to_string()];
    assert!(max_fixed_version(&none).is_none());
    assert!(max_fixed_version(&Vec::new()).is_none());
}

#[test]
fn defaults_for_absent_fields() {
    let f = run(&payload(vec![record("VULN-1", "2022-01-01T00:00:00Z")])).unwrap();
    assert_eq!(f.vuln_summary, "no summary available");
    assert_eq!(f.vuln_aliases, Vec::<String>::new());
    assert_eq!(f.cwe_ids, Vec::<String>::new());
    assert_eq!(f.severity, Vec::<(String, String)>::new());
    assert_eq!(f.fixed_version, "no fixed version available");
    assert_eq!(f.pkg_name, "flask");
    assert_eq!(f.vuln_version, "1.0");
    assert_eq!(f.path, "sub/requirements.txt");
    assert_eq!(f.file_name, "requirements.txt");
}

#[test]
fn populated_fields_are_extracted() {
    let rec = obj(vec![
        ("id", txt("GHSA-xxxx")),
        ("summary", txt("Things break")),
        ("published", txt("2022-01-01T00:00:00Z")),
        ("aliases", arr(vec![txt("CVE-2022-0001"), txt("CVE-2022-0002")])),
        (
            "database_specific",
            obj(vec![("cwe_ids", arr(vec![txt("CWE-79")]))]),
        ),
        (
            "severity",
            arr(vec![obj(vec![
                ("type", txt("CVSS_V3")),
                ("score", txt("CVSS:3.1/AV:N")),
            ])]),
        ),
    ]);
    let f = run(&payload(vec![rec])).unwrap();
    assert_eq!(f.vuln_id, "GHSA-xxxx");
    assert_eq!(f.vuln_summary, "Things break");
    assert_eq!(f.vuln_aliases, vec!["CVE-2022-0001".to_string(), "CVE-2022-0002".to_string()]);
    assert_eq!(f.cwe_ids, vec!["CWE-79".to_string()]);
    assert_eq!(f.severity, vec![("CVSS:3.1/AV:N".to_string(), "CVSS_V3".to_string())]);
}

#[test]
fn mismatched_field_shapes_degrade_to_defaults() {
    let rec = obj(vec![
        ("id", txt("VULN-1")),
        ("published", txt("2022-01-01T00:00:00Z")),
        ("summary", arr(vec![])),
        ("aliases", txt("CVE-2022-0001")),
        ("database_specific", txt("nope")),
        ("severity", obj(vec![])),
        ("affected", txt("nope")),
    ]);
    let f = run(&payload(vec![rec])).unwrap();
    assert_eq!(f.vuln_summary, "no summary available");
    assert_eq!(f.vuln_aliases, Vec::<String>::new());
    assert_eq!(f.cwe_ids, Vec::<String>::new());
    assert_eq!(f.severity, Vec::<(String, String)>::new());
    assert_eq!(f.fixed_version, "no fixed version available");
}

#[test]
fn published_key_parses_real_timestamps() {
    let rec = record("VULN-1", "1970-01-01T00:01:00Z");
    assert_eq!(published_key(&rec), Some((60, 0)));
    let bad = record("VULN-1", "yesterday");
    assert_eq!(published_key(&bad), None);
}
