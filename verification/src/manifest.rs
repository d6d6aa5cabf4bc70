//! Manifest parsing: dependency declarations out of manifest text.
//!
//! Two formats are read. A pinned-requirement manifest is line-oriented: a
//! line declares a dependency only when it starts with an ASCII letter and
//! pins an exact version with `==`; every other line (a comment, an unpinned
//! requirement, a URL, a blank line) is passed over. A structured lock
//! manifest is a TOML table whose `package` array lists entries with `name`
//! and `version` fields; malformed entries are skipped, never fatal.

use vstd::prelude::*;

use crate::doc::DocValue;
use crate::strutil::{
    ends_with_str, find_eqeq, is_ascii_alpha, spec_ends_with, spec_find_eqeq, spec_is_ascii_alpha,
    spec_lines, split_lines,
};

verus! {

/// A dependency declared by a manifest: one package pinned to one version.
pub struct DependencyDeclaration {
    pub pkg_name: String,
    pub pkg_version: String,
}

impl View for DependencyDeclaration {
    type V = (Seq<char>, Seq<char>);

    open spec fn view(&self) -> (Seq<char>, Seq<char>) {
        (self.pkg_name@, self.pkg_version@)
    }
}

impl DeepView for DependencyDeclaration {
    type V = (Seq<char>, Seq<char>);

    open spec fn deep_view(&self) -> (Seq<char>, Seq<char>) {
        self@
    }
}

impl Clone for DependencyDeclaration {
    fn clone(&self) -> (r: Self)
        ensures
            r@ == self@,
    {
        DependencyDeclaration {
            pkg_name: self.pkg_name.clone(),
            pkg_version: self.pkg_version.clone(),
        }
    }
}

/// The declaration a pinned requirement line carries, if any: the line must
/// start with an ASCII letter and contain the marker `==` after it; the name
/// is the text before the first marker, the version the text between the
/// first marker and the next one (or the end of the line).
pub open spec fn spec_pinned_split(line: Seq<char>) -> Option<(Seq<char>, Seq<char>)> {
    if line.len() > 0 && spec_is_ascii_alpha(line[0]) {
        match spec_find_eqeq(line, 1) {
            Some(i) => {
                let end = match spec_find_eqeq(line, i + 2) {
                    Some(j) => j,
                    None => line.len() as int,
                };
                Some((line.subrange(0, i), line.subrange(i + 2, end)))
            },
            None => None,
        }
    } else {
        None
    }
}

/// Splits one pinned requirement line as `spec_pinned_split` describes.
pub fn pinned_split(line: &str) -> (r: Option<(String, String)>)
    ensures
        match r {
            Some(p) => spec_pinned_split(line@) == Some((p.0@, p.1@)),
            None => spec_pinned_split(line@) is None,
        },
{
    let n = line.unicode_len();
    if n == 0 {
        return None;
    }
    if !is_ascii_alpha(line.get_char(0)) {
        return None;
    }
    match find_eqeq(line, 1) {
        Some(i) => {
            let end: usize = match find_eqeq(line, i + 2) {
                Some(j) => j,
                None => n,
            };
            let name = line.substring_char(0, i).to_owned();
            let version = line.substring_char(i + 2, end).to_owned();
            Some((name, version))
        },
        None => None,
    }
}

/// The declarations of the pinned lines among `lines`, from index `i` on.
pub open spec fn pinned_from(lines: Seq<Seq<char>>, i: int) -> Seq<(Seq<char>, Seq<char>)>
    decreases lines.len() - i,
{
    if i < 0 || i >= lines.len() {
        Seq::empty()
    } else {
        match spec_pinned_split(lines[i]) {
            Some(p) => seq![p] + pinned_from(lines, i + 1),
            None => pinned_from(lines, i + 1),
        }
    }
}

/// The declarations of a pinned-requirement manifest: one per qualifying
/// line, in line order.
pub open spec fn spec_requirement_declarations(content: Seq<char>) -> Seq<(Seq<char>, Seq<char>)> {
    pinned_from(spec_lines(content), 0)
}

/// Parses a pinned-requirement manifest. Lines that do not pin an exact
/// version are passed over, deliberately: they cannot be resolved to one
/// version.
pub fn parse_requirements_manifest(content: &str) -> (r: Vec<DependencyDeclaration>)
    ensures
        r.deep_view() == spec_requirement_declarations(content@),
{
    let lines = split_lines(content);
    let ghost ls = lines.deep_view();
    let n = lines.len();
    let mut r: Vec<DependencyDeclaration> = Vec::new();
    let mut i: usize = 0;
    while i < n
        invariant
            n == lines@.len(),
            ls == lines.deep_view(),
            ls.len() == n,
            i <= n,
            r.deep_view() + pinned_from(ls, i as int) == pinned_from(ls, 0),
        decreases n - i,
    {
        proof {
            assert(ls[i as int] == lines@[i as int]@);
        }
        match pinned_split(lines[i].as_str()) {
            Some(p) => {
                r.push(DependencyDeclaration { pkg_name: p.0, pkg_version: p.1 });
                proof {
                    assert(r.deep_view() + pinned_from(ls, i + 1) =~= pinned_from(ls, 0));
                }
            },
            None => {},
        }
        i += 1;
    }
    proof {
        assert(r.deep_view() =~= pinned_from(ls, 0));
        assert(ls == spec_lines(content@));
    }
    r
}

#[verifier::external_type_specification]
#[verifier::external_body]
pub struct ExTomlValue(toml::Value);

/// The document tree that a `toml::Value` holds.
pub uninterp spec fn toml_tree(v: toml::Value) -> DocValue;

/// The document tree that the `toml` crate reads out of the text `s`, or
/// `None` when it rejects the text.
pub uninterp spec fn parsed_toml(s: Seq<char>) -> Option<DocValue>;

/// Relies on `str::parse::<toml::Value>` (the `toml` crate's deserializer):
/// a function of the text alone, `Ok` exactly on text it accepts as one TOML
/// document, with the document's table.
#[verifier::external_body]
fn parse_toml_value(s: &str) -> (r: Option<toml::Value>)
    ensures
        r matches Some(v) ==> parsed_toml(s@) == Some(toml_tree(v)),
        r is None <==> parsed_toml(s@) is None,
{
    match s.parse::<toml::Value>() {
        Ok(v) => Some(v),
        Err(_) => None,
    }
}

/// Relies on the variants of `toml::Value`: strings and arrays are copied
/// into the tree as they stand, a table contributes one pair per key in the
/// map's own order, and every other variant becomes an unread scalar.
#[verifier::external_body]
fn toml_value_tree(v: &toml::Value) -> (r: DocValue)
    ensures
        r == toml_tree(*v),
{
    match v {
        toml::Value::String(s) => DocValue::Text(s.clone()),
        toml::Value::Integer(_) => DocValue::Scalar,
        toml::Value::Float(_) => DocValue::Scalar,
        toml::Value::Boolean(_) => DocValue::Scalar,
        toml::Value::Datetime(_) => DocValue::Scalar,
        toml::Value::Array(a) => DocValue::Array(a.iter().map(toml_value_tree).collect()),
        toml::Value::Table(t) => DocValue::Object(
            t.iter().map(|(k, x)| (k.clone(), toml_value_tree(x))).collect(),
        ),
    }
}

/// Parses TOML text into the resolver's document tree.
pub fn parse_toml_document(s: &str) -> (r: Option<DocValue>)
    ensures
        r == parsed_toml(s@),
{
    match parse_toml_value(s) {
        Some(v) => Some(toml_value_tree(&v)),
        None => None,
    }
}

/// The declarations among the entries of a lock manifest's `package` array,
/// from index `i` on: one per entry whose `name` and `version` are both
/// text; other entries are malformed and skipped.
pub open spec fn lock_entries_from(entries: Seq<DocValue>, i: int) -> Seq<(Seq<char>, Seq<char>)>
    decreases entries.len() - i,
{
    if i < 0 || i >= entries.len() {
        Seq::empty()
    } else {
        let rest = lock_entries_from(entries, i + 1);
        match entries[i].spec_field("name"@) {
            Some(nv) => match nv.spec_text() {
                Some(name) => match entries[i].spec_field("version"@) {
                    Some(vv) => match vv.spec_text() {
                        Some(version) => seq![(name, version)] + rest,
                        None => rest,
                    },
                    None => rest,
                },
                None => rest,
            },
            None => rest,
        }
    }
}

/// The declarations of a parsed lock document: the entries of its `package`
/// array. A document without such an array declares nothing.
pub open spec fn spec_lock_declarations(lock_doc: DocValue) -> Seq<(Seq<char>, Seq<char>)> {
    match lock_doc.spec_field("package"@) {
        Some(p) => match p.spec_items() {
            Some(entries) => lock_entries_from(entries, 0),
            None => Seq::empty(),
        },
        None => Seq::empty(),
    }
}

/// Reads the declarations out of a parsed lock document.
pub fn lock_declarations(lock_doc: &DocValue) -> (r: Vec<DependencyDeclaration>)
    ensures
        r.deep_view() == spec_lock_declarations(*lock_doc),
{
    let mut r: Vec<DependencyDeclaration> = Vec::new();
    let entries = match lock_doc.field("package") {
        Some(p) => match p.items() {
            Some(entries) => entries,
            None => {
                return r;
            },
        },
        None => {
            return r;
        },
    };
    let n = entries.len();
    let mut i: usize = 0;
    while i < n
        invariant
            n == entries@.len(),
            spec_lock_declarations(*lock_doc) == lock_entries_from(entries@, 0),
            i <= n,
            r.deep_view() + lock_entries_from(entries@, i as int) == lock_entries_from(entries@, 0),
        decreases n - i,
    {
        let entry = &entries[i];
        match entry.field("name") {
            Some(nv) => match nv.text() {
                Some(name) => match entry.field("version") {
                    Some(vv) => match vv.text() {
                        Some(version) => {
                            let name = name.clone();
                            let version = version.clone();
                            r.push(DependencyDeclaration { pkg_name: name, pkg_version: version });
                            proof {
                                assert(r.deep_view() + lock_entries_from(entries@, i + 1)
                                    =~= lock_entries_from(entries@, 0));
                            }
                        },
                        None => {},
                    },
                    None => {},
                },
                None => {},
            },
            None => {},
        }
        i += 1;
    }
    proof {
        assert(r.deep_view() =~= lock_entries_from(entries@, 0));
    }
    r
}

/// Parses a structured lock manifest. `None` exactly when the text is not a
/// valid TOML document: that one manifest is unreadable, which aborts it
/// alone, not a broader scan.
pub fn parse_lock_manifest(content: &str) -> (r: Option<Vec<DependencyDeclaration>>)
    ensures
        match r {
            Some(ds) => parsed_toml(content@) matches Some(doc) && ds.deep_view()
                == spec_lock_declarations(doc),
            None => parsed_toml(content@) is None,
        },
{
    match parse_toml_document(content) {
        Some(doc) => Some(lock_declarations(&doc)),
        None => None,
    }
}

/// The kind of manifest a file path names, by its file name suffix.
pub enum ManifestKind {
    /// A structured lock manifest.
    Lock,
    /// A pinned-requirement manifest.
    Requirements,
    /// Not a manifest the resolver reads.
    Other,
}

pub open spec fn spec_manifest_kind(path: Seq<char>) -> ManifestKind {
    if spec_ends_with(path, "requirements.txt"@) {
        ManifestKind::Requirements
    } else if spec_ends_with(path, "poetry.lock"@) {
        ManifestKind::Lock
    } else {
        ManifestKind::Other
    }
}

/// Classifies a file path as one of the two manifest formats, or neither.
pub fn manifest_kind(path: &str) -> (r: ManifestKind)
    ensures
        r == spec_manifest_kind(path@),
{
    if ends_with_str(path, "requirements.txt") {
        ManifestKind::Requirements
    } else if ends_with_str(path, "poetry.lock") {
        ManifestKind::Lock
    } else {
        ManifestKind::Other
    }
}

} // verus!
