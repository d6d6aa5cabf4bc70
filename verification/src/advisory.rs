//! Normalization of an advisory payload into one canonical finding.
//!
//! The advisory service answers one query with a payload that may hold many
//! advisory records. The normalizer selects the record with the latest
//! `published` timestamp, extracts its remediation-relevant fields with a
//! documented default for each absent or ill-shaped one, and resolves the
//! highest fixed version across all affected ranges.

use vstd::prelude::*;

use crate::doc::{texts_from, DocValue};
use crate::manifest::DependencyDeclaration;
use crate::semver_cmp::{max_fixed_version, spec_max_valid, sv_ok, sv_render};

verus! {

/// The instant an RFC 3339 timestamp text names: seconds since the epoch
/// and the nanosecond within the second, or `None` when `chrono` rejects
/// the text.
pub uninterp spec fn rfc3339_instant(s: Seq<char>) -> Option<(i64, u32)>;

/// Relies on `chrono::DateTime::parse_from_rfc3339` with the accessors
/// `timestamp` and `timestamp_subsec_nanos`: parsing succeeds exactly on
/// RFC 3339 text, and the two numbers carry the parsed UTC instant, which
/// `DateTime`'s own order compares by.
#[verifier::external_body]
fn parse_rfc3339(s: &str) -> (r: Option<(i64, u32)>)
    ensures
        r == rfc3339_instant(s@),
{
    match chrono::DateTime::parse_from_rfc3339(s) {
        Ok(d) => Some((d.timestamp(), d.timestamp_subsec_nanos())),
        Err(_) => None,
    }
}

/// The `published` text of a record; a record without one sorts earliest,
/// since no instant parses out of the empty default.
pub open spec fn spec_published(rec: DocValue) -> Seq<char> {
    rec.spec_text_field_or("published"@, Seq::empty())
}

/// The selection key of a record: the instant its `published` text names.
pub open spec fn spec_key(rec: DocValue) -> Option<(i64, u32)> {
    rfc3339_instant(spec_published(rec))
}

/// Orders selection keys: an unparsable timestamp before every parsable
/// one, and instants by seconds, then nanoseconds.
pub open spec fn key_le(a: Option<(i64, u32)>, b: Option<(i64, u32)>) -> bool {
    match a {
        None => true,
        Some(x) => match b {
            None => false,
            Some(y) => x.0 < y.0 || (x.0 == y.0 && x.1 <= y.1),
        },
    }
}

fn key_le_exec(a: Option<(i64, u32)>, b: Option<(i64, u32)>) -> (r: bool)
    ensures
        r == key_le(a, b),
{
    match a {
        None => true,
        Some(x) => match b {
            None => false,
            Some(y) => x.0 < y.0 || (x.0 == y.0 && x.1 <= y.1),
        },
    }
}

/// Reads the selection key of a record.
pub fn published_key(rec: &DocValue) -> (r: Option<(i64, u32)>)
    ensures
        r == spec_key(*rec),
{
    let p = rec.text_field_or("published", "");
    proof {
        reveal_strlit("");
        assert(""@ =~= Seq::<char>::empty());
    }
    parse_rfc3339(p.as_str())
}

/// The record selected among `recs` from index `i` on, starting from
/// `best`: the one with the latest key, a later record winning ties.
pub open spec fn select_from(recs: Seq<DocValue>, i: int, best: DocValue) -> DocValue
    decreases recs.len() - i,
{
    if i < 0 || i >= recs.len() {
        best
    } else {
        select_from(
            recs,
            i + 1,
            if key_le(spec_key(best), spec_key(recs[i])) {
                recs[i]
            } else {
                best
            },
        )
    }
}

/// The advisory record with the latest `published` timestamp. Of records
/// with equal timestamps the last one encountered is kept: the tie-break is
/// arbitrary but stable.
pub open spec fn spec_select_latest(recs: Seq<DocValue>) -> DocValue {
    select_from(recs, 1, recs[0])
}

/// Picks the index of the record with the latest `published` timestamp.
pub fn select_latest_advisory(records: &Vec<DocValue>) -> (r: usize)
    requires
        records@.len() > 0,
    ensures
        r < records@.len(),
        records@[r as int] == spec_select_latest(records@),
        forall|j: int|
            0 <= j < records@.len() ==> key_le(
                spec_key(#[trigger] records@[j]),
                spec_key(records@[r as int]),
            ),
{
    let n = records.len();
    let mut best: usize = 0;
    let mut best_key: Option<(i64, u32)> = published_key(&records[0]);
    let mut i: usize = 1;
    while i < n
        invariant
            n == records@.len(),
            1 <= i <= n,
            best < i,
            best_key == spec_key(records@[best as int]),
            select_from(records@, i as int, records@[best as int]) == spec_select_latest(records@),
            forall|j: int|
                0 <= j < i ==> key_le(
                    spec_key(#[trigger] records@[j]),
                    spec_key(records@[best as int]),
                ),
        decreases n - i,
    {
        let k = published_key(&records[i]);
        if key_le_exec(best_key, k) {
            best = i;
            best_key = k;
        }
        i += 1;
    }
    best
}

/// The `fixed` version texts among the events of one range, from index `i`
/// on: one per event whose `fixed` field is text.
pub open spec fn fixed_from_events(events: Seq<DocValue>, i: int) -> Seq<Seq<char>>
    decreases events.len() - i,
{
    if i < 0 || i >= events.len() {
        Seq::empty()
    } else {
        let rest = fixed_from_events(events, i + 1);
        match events[i].spec_field("fixed"@) {
            Some(f) => match f.spec_text() {
                Some(t) => seq![t] + rest,
                None => rest,
            },
            None => rest,
        }
    }
}

/// The `fixed` version texts of one range: those of its `events` array.
pub open spec fn spec_range_fixed(range: DocValue) -> Seq<Seq<char>> {
    match range.spec_field("events"@) {
        Some(e) => match e.spec_items() {
            Some(evs) => fixed_from_events(evs, 0),
            None => Seq::empty(),
        },
        None => Seq::empty(),
    }
}

pub open spec fn fixed_from_ranges(ranges: Seq<DocValue>, i: int) -> Seq<Seq<char>>
    decreases ranges.len() - i,
{
    if i < 0 || i >= ranges.len() {
        Seq::empty()
    } else {
        spec_range_fixed(ranges[i]) + fixed_from_ranges(ranges, i + 1)
    }
}

/// The `fixed` version texts of one affected entry: those of its `ranges`.
pub open spec fn spec_entry_fixed(entry: DocValue) -> Seq<Seq<char>> {
    match entry.spec_field("ranges"@) {
        Some(rs) => match rs.spec_items() {
            Some(ranges) => fixed_from_ranges(ranges, 0),
            None => Seq::empty(),
        },
        None => Seq::empty(),
    }
}

pub open spec fn fixed_from_affected(entries: Seq<DocValue>, i: int) -> Seq<Seq<char>>
    decreases entries.len() - i,
{
    if i < 0 || i >= entries.len() {
        Seq::empty()
    } else {
        spec_entry_fixed(entries[i]) + fixed_from_affected(entries, i + 1)
    }
}

/// Every `fixed` version text across every range of every affected entry of
/// a record, in document order.
pub open spec fn spec_fixed_candidates(rec: DocValue) -> Seq<Seq<char>> {
    match rec.spec_field("affected"@) {
        Some(a) => match a.spec_items() {
            Some(entries) => fixed_from_affected(entries, 0),
            None => Seq::empty(),
        },
        None => Seq::empty(),
    }
}

fn push_events_fixed(events: &Vec<DocValue>, out: &mut Vec<String>)
    ensures
        final(out).deep_view() == old(out).deep_view() + fixed_from_events(events@, 0),
{
    let ghost base = out.deep_view();
    let n = events.len();
    let mut i: usize = 0;
    while i < n
        invariant
            n == events@.len(),
            i <= n,
            out.deep_view() + fixed_from_events(events@, i as int) == base + fixed_from_events(
                events@,
                0,
            ),
        decreases n - i,
    {
        match events[i].field("fixed") {
            Some(f) => match f.text() {
                Some(t) => {
                    let t = t.clone();
                    out.push(t);
                    proof {
                        assert(out.deep_view() + fixed_from_events(events@, i + 1) =~= base
                            + fixed_from_events(events@, 0));
                    }
                },
                None => {},
            },
            None => {},
        }
        i += 1;
    }
    proof {
        assert(out.deep_view() =~= base + fixed_from_events(events@, 0));
    }
}

fn push_range_fixed(range: &DocValue, out: &mut Vec<String>)
    ensures
        final(out).deep_view() == old(out).deep_view() + spec_range_fixed(*range),
{
    match range.field("events") {
        Some(e) => match e.items() {
            Some(evs) => {
                push_events_fixed(evs, out);
            },
            None => {
                proof {
                    assert(out.deep_view() =~= out.deep_view() + spec_range_fixed(*range));
                }
            },
        },
        None => {
            proof {
                assert(out.deep_view() =~= out.deep_view() + spec_range_fixed(*range));
            }
        },
    }
}

fn push_entry_fixed(entry: &DocValue, out: &mut Vec<String>)
    ensures
        final(out).deep_view() == old(out).deep_view() + spec_entry_fixed(*entry),
{
    let ghost base = out.deep_view();
    match entry.field("ranges") {
        Some(rs) => match rs.items() {
            Some(ranges) => {
                let n = ranges.len();
                let mut i: usize = 0;
                while i < n
                    invariant
                        n == ranges@.len(),
                        i <= n,
                        out.deep_view() + fixed_from_ranges(ranges@, i as int) == base
                            + fixed_from_ranges(ranges@, 0),
                    decreases n - i,
                {
                    push_range_fixed(&ranges[i], out);
                    proof {
                        assert(out.deep_view() + fixed_from_ranges(ranges@, i + 1) =~= base
                            + fixed_from_ranges(ranges@, 0));
                    }
                    i += 1;
                }
                proof {
                    assert(out.deep_view() =~= base + fixed_from_ranges(ranges@, 0));
                }
            },
            None => {
                proof {
                    assert(out.deep_view() =~= base + spec_entry_fixed(*entry));
                }
            },
        },
        None => {
            proof {
                assert(out.deep_view() =~= base + spec_entry_fixed(*entry));
            }
        },
    }
}

/// Gathers every `fixed` version text of a record, in document order.
pub fn collect_fixed_candidates(rec: &DocValue) -> (r: Vec<String>)
    ensures
        r.deep_view() == spec_fixed_candidates(*rec),
{
    let mut out: Vec<String> = Vec::new();
    match rec.field("affected") {
        Some(a) => match a.items() {
            Some(entries) => {
                let n = entries.len();
                let mut i: usize = 0;
                while i < n
                    invariant
                        n == entries@.len(),
                        i <= n,
                        out.deep_view() + fixed_from_affected(entries@, i as int)
                            == fixed_from_affected(entries@, 0),
                        spec_fixed_candidates(*rec) == fixed_from_affected(entries@, 0),
                    decreases n - i,
                {
                    push_entry_fixed(&entries[i], &mut out);
                    proof {
                        assert(out.deep_view() + fixed_from_affected(entries@, i + 1)
                            =~= fixed_from_affected(entries@, 0));
                    }
                    i += 1;
                }
                proof {
                    assert(out.deep_view() =~= fixed_from_affected(entries@, 0));
                }
                out
            },
            None => out,
        },
        None => out,
    }
}

/// The resolved fixed version of a record: the highest fixed version named
/// anywhere in its affected ranges, canonically rendered; or the literal
/// `no fixed version available` when no candidate parses as a version.
pub open spec fn spec_fixed_version(rec: DocValue) -> Seq<char> {
    match spec_max_valid(spec_fixed_candidates(rec)) {
        Some(m) => sv_render(m),
        None => "no fixed version available"@,
    }
}

/// Resolves the fixed version of a record, as `spec_fixed_version` says.
pub fn resolve_fixed_version(rec: &DocValue) -> (r: String)
    ensures
        r@ == spec_fixed_version(*rec),
        spec_fixed_candidates(*rec).len() == 0 ==> r@ == "no fixed version available"@,
{
    let cands = collect_fixed_candidates(rec);
    match max_fixed_version(&cands) {
        Some(s) => s,
        None => "no fixed version available".to_owned(),
    }
}

/// The severity pairs (score, type) among `items` from index `i` on: one
/// per element carrying both fields as text.
pub open spec fn severities_from(items: Seq<DocValue>, i: int) -> Seq<(Seq<char>, Seq<char>)>
    decreases items.len() - i,
{
    if i < 0 || i >= items.len() {
        Seq::empty()
    } else {
        let rest = severities_from(items, i + 1);
        match items[i].spec_field("score"@) {
            Some(sv) => match sv.spec_text() {
                Some(score) => match items[i].spec_field("type"@) {
                    Some(tv) => match tv.spec_text() {
                        Some(ty) => seq![(score, ty)] + rest,
                        None => rest,
                    },
                    None => rest,
                },
                None => rest,
            },
            None => rest,
        }
    }
}

fn collect_severities(items: &Vec<DocValue>) -> (r: Vec<(String, String)>)
    ensures
        r.deep_view() == severities_from(items@, 0),
{
    let n = items.len();
    let mut r: Vec<(String, String)> = Vec::new();
    let mut i: usize = 0;
    while i < n
        invariant
            n == items@.len(),
            i <= n,
            r.deep_view() + severities_from(items@, i as int) == severities_from(items@, 0),
        decreases n - i,
    {
        match items[i].field("score") {
            Some(sv) => match sv.text() {
                Some(score) => match items[i].field("type") {
                    Some(tv) => match tv.text() {
                        Some(ty) => {
                            let score = score.clone();
                            let ty = ty.clone();
                            r.push((score, ty));
                            proof {
                                assert(r.deep_view() + severities_from(items@, i + 1)
                                    =~= severities_from(items@, 0));
                            }
                        },
                        None => {},
                    },
                    None => {},
                },
                None => {},
            },
            None => {},
        }
        i += 1;
    }
    proof {
        assert(r.deep_view() =~= severities_from(items@, 0));
    }
    r
}

/// The summary of a record, or the documented default.
pub open spec fn spec_summary(rec: DocValue) -> Seq<char> {
    rec.spec_text_field_or("summary"@, "no summary available"@)
}

/// The identifier of a record; empty when absent or not text.
pub open spec fn spec_advisory_id(rec: DocValue) -> Seq<char> {
    rec.spec_text_field_or("id"@, Seq::empty())
}

/// The alias identifiers of a record; empty when absent or not an array.
pub open spec fn spec_aliases(rec: DocValue) -> Seq<Seq<char>> {
    match rec.spec_field("aliases"@) {
        Some(v) => match v.spec_items() {
            Some(items) => texts_from(items, 0),
            None => Seq::empty(),
        },
        None => Seq::empty(),
    }
}

/// The CWE identifiers of a record, under its database-specific section;
/// empty when absent at any level.
pub open spec fn spec_cwe_ids(rec: DocValue) -> Seq<Seq<char>> {
    match rec.spec_field("database_specific"@) {
        Some(db) => match db.spec_field("cwe_ids"@) {
            Some(v) => match v.spec_items() {
                Some(items) => texts_from(items, 0),
                None => Seq::empty(),
            },
            None => Seq::empty(),
        },
        None => Seq::empty(),
    }
}

/// The severity pairs of a record; empty when absent or not an array.
pub open spec fn spec_severity(rec: DocValue) -> Seq<(Seq<char>, Seq<char>)> {
    match rec.spec_field("severity"@) {
        Some(v) => match v.spec_items() {
            Some(items) => severities_from(items, 0),
            None => Seq::empty(),
        },
        None => Seq::empty(),
    }
}

/// One vulnerable package of the final report, with its remediation
/// metadata and file provenance.
#[derive(Clone)]
pub struct VulnerablePackage {
    pub path: String,
    pub file_name: String,
    pub pkg_name: String,
    pub vuln_summary: String,
    pub vuln_version: String,
    pub vuln_id: String,
    pub vuln_aliases: Vec<String>,
    pub fixed_version: String,
    pub cwe_ids: Vec<String>,
    pub published_date: String,
    pub severity: Vec<(String, String)>,
}

/// The mathematical content of a finding.
#[verifier::ext_equal]
pub ghost struct FindingModel {
    pub path: Seq<char>,
    pub file_name: Seq<char>,
    pub pkg_name: Seq<char>,
    pub vuln_summary: Seq<char>,
    pub vuln_version: Seq<char>,
    pub vuln_id: Seq<char>,
    pub vuln_aliases: Seq<Seq<char>>,
    pub fixed_version: Seq<char>,
    pub cwe_ids: Seq<Seq<char>>,
    pub published_date: Seq<char>,
    pub severity: Seq<(Seq<char>, Seq<char>)>,
}

impl View for VulnerablePackage {
    type V = FindingModel;

    open spec fn view(&self) -> FindingModel {
        FindingModel {
            path: self.path@,
            file_name: self.file_name@,
            pkg_name: self.pkg_name@,
            vuln_summary: self.vuln_summary@,
            vuln_version: self.vuln_version@,
            vuln_id: self.vuln_id@,
            vuln_aliases: self.vuln_aliases.deep_view(),
            fixed_version: self.fixed_version@,
            cwe_ids: self.cwe_ids.deep_view(),
            published_date: self.published_date@,
            severity: self.severity.deep_view(),
        }
    }
}

impl DeepView for VulnerablePackage {
    type V = FindingModel;

    open spec fn deep_view(&self) -> FindingModel {
        self@
    }
}

/// The advisory records of a payload, when it carries a `vulns` array.
pub open spec fn spec_vulns(payload: DocValue) -> Option<Seq<DocValue>> {
    match payload.spec_field("vulns"@) {
        Some(v) => v.spec_items(),
        None => None,
    }
}

/// The finding normalized out of one selected record, for one declaration
/// with its file provenance.
pub open spec fn spec_finding_of_record(
    rec: DocValue,
    pkg_name: Seq<char>,
    pkg_version: Seq<char>,
    path: Seq<char>,
    file_name: Seq<char>,
) -> FindingModel {
    FindingModel {
        path: path,
        file_name: file_name,
        pkg_name: pkg_name,
        vuln_summary: spec_summary(rec),
        vuln_version: pkg_version,
        vuln_id: spec_advisory_id(rec),
        vuln_aliases: spec_aliases(rec),
        fixed_version: spec_fixed_version(rec),
        cwe_ids: spec_cwe_ids(rec),
        published_date: spec_published(rec),
        severity: spec_severity(rec),
    }
}

/// The finding of one payload: none when the payload carries no advisory
/// records, else the normalization of the latest-published record.
pub open spec fn spec_normalize(
    payload: DocValue,
    pkg_name: Seq<char>,
    pkg_version: Seq<char>,
    path: Seq<char>,
    file_name: Seq<char>,
) -> Option<FindingModel> {
    match spec_vulns(payload) {
        Some(recs) => if recs.len() == 0 {
            None
        } else {
            Some(
                spec_finding_of_record(
                    spec_select_latest(recs),
                    pkg_name,
                    pkg_version,
                    path,
                    file_name,
                ),
            )
        },
        None => None,
    }
}

/// Normalizes one advisory payload for one declaration into at most one
/// finding: exactly one when the payload carries advisory records, never
/// more, and the selected record is one with the latest `published`
/// timestamp.
pub fn normalize(
    payload: &DocValue,
    decl: &DependencyDeclaration,
    rel_path: &str,
    file_name: &str,
) -> (r: Option<VulnerablePackage>)
    ensures
        match r {
            Some(f) => spec_normalize(
                *payload,
                decl.pkg_name@,
                decl.pkg_version@,
                rel_path@,
                file_name@,
            ) == Some(f@),
            None => spec_normalize(
                *payload,
                decl.pkg_name@,
                decl.pkg_version@,
                rel_path@,
                file_name@,
            ) is None,
        },
        r is Some <==> (spec_vulns(*payload) matches Some(recs) && recs.len() > 0),
        r is Some ==> (spec_vulns(*payload) matches Some(recs) && (forall|j: int|
            0 <= j < recs.len() ==> key_le(
                spec_key(#[trigger] recs[j]),
                spec_key(spec_select_latest(recs)),
            ))),
{
    let records = match payload.field("vulns") {
        Some(v) => match v.items() {
            Some(records) => records,
            None => {
                return None;
            },
        },
        None => {
            return None;
        },
    };
    if records.len() == 0 {
        return None;
    }
    let idx = select_latest_advisory(records);
    let rec = &records[idx];

    let vuln_summary = rec.text_field_or("summary", "no summary available");
    let vuln_id = rec.text_field_or("id", "");
    let published_date = rec.text_field_or("published", "");
    proof {
        reveal_strlit("");
        assert(""@ =~= Seq::<char>::empty());
    }
    let vuln_aliases = match rec.field("aliases") {
        Some(v) => match v.items() {
            Some(items) => crate::doc::collect_texts(items),
            None => Vec::new(),
        },
        None => Vec::new(),
    };
    let cwe_ids = match rec.field("database_specific") {
        Some(db) => match db.field("cwe_ids") {
            Some(v) => match v.items() {
                Some(items) => crate::doc::collect_texts(items),
                None => Vec::new(),
            },
            None => Vec::new(),
        },
        None => Vec::new(),
    };
    let severity = match rec.field("severity") {
        Some(v) => match v.items() {
            Some(items) => collect_severities(items),
            None => Vec::new(),
        },
        None => Vec::new(),
    };
    let fixed_version = resolve_fixed_version(rec);

    let finding = VulnerablePackage {
        path: rel_path.to_owned(),
        file_name: file_name.to_owned(),
        pkg_name: decl.pkg_name.clone(),
        vuln_summary,
        vuln_version: decl.pkg_version.clone(),
        vuln_id,
        vuln_aliases,
        fixed_version,
        cwe_ids,
        published_date,
        severity,
    };
    proof {
        assert(finding@ =~~= spec_finding_of_record(
            spec_select_latest(records@),
            decl.pkg_name@,
            decl.pkg_version@,
            rel_path@,
            file_name@,
        ));
    }
    Some(finding)
}

} // verus!
