//! The resolution engine: file provenance, the advisory query body, and the
//! assembly of one manifest's findings out of the advisory answers.
//!
//! The engine is given, for each declaration of a manifest, the text the
//! advisory service answered (or nothing, when that one query failed) and
//! assembles the findings. A failed or unreadable answer costs that one
//! declaration its finding and nothing else.

use vstd::prelude::*;

use crate::advisory::{normalize, spec_normalize, FindingModel, VulnerablePackage};
use crate::json::{parse_json_document, parsed_json};
use crate::manifest::DependencyDeclaration;
use crate::strutil::{ends_with_str, spec_ends_with};

verus! {

/// The last index before `i` where a separator stands, if any.
pub open spec fn last_slash_before(s: Seq<char>, i: int) -> Option<int>
    decreases i,
{
    if i <= 0 || i > s.len() {
        None
    } else if s[i - 1] == '/' {
        Some(i - 1)
    } else {
        last_slash_before(s, i - 1)
    }
}

/// The file name a path names: what follows its last separator.
pub open spec fn spec_base_name(s: Seq<char>) -> Seq<char> {
    match last_slash_before(s, s.len() as int) {
        Some(k) => s.subrange(k + 1, s.len() as int),
        None => s,
    }
}

/// The file name of a path.
pub fn base_name(path: &str) -> (r: String)
    ensures
        r@ == spec_base_name(path@),
{
    let n = path.unicode_len();
    let mut i: usize = n;
    while i > 0
        invariant
            n == path@.len(),
            i <= n,
            last_slash_before(path@, n as int) == last_slash_before(path@, i as int),
        decreases i,
    {
        if path.get_char(i - 1) == '/' {
            return path.substring_char(i, n).to_owned();
        }
        i -= 1;
    }
    path.substring_char(0, n).to_owned()
}

/// The remainder of `path` under the root `root`: what follows the root and
/// one separator, when `path` lies under `root`.
pub open spec fn spec_strip_root(path: Seq<char>, root: Seq<char>) -> Option<Seq<char>> {
    if path.len() > root.len() && path.subrange(0, root.len() as int) == root && path[root.len() as int]
        == '/' {
        Some(path.subrange(root.len() as int + 1, path.len() as int))
    } else {
        None
    }
}

/// The path of a finding relative to the scan root; a path that does not
/// lie under the root is kept whole rather than failing the finding.
pub open spec fn spec_rel_path(path: Seq<char>, root: Seq<char>) -> Seq<char> {
    match spec_strip_root(path, root) {
        Some(r) => r,
        None => path,
    }
}

/// A stripped path joined back to the root gives the path it was stripped
/// from: provenance loses nothing.
pub proof fn lemma_rel_path_round_trip(path: Seq<char>, root: Seq<char>)
    requires
        spec_strip_root(path, root) is Some,
    ensures
        root + seq!['/'] + spec_rel_path(path, root) == path,
{
    assert(root + seq!['/'] + spec_rel_path(path, root) =~= path);
}

/// Relativizes `path` against `root`, as `spec_rel_path` says.
pub fn relative_path(path: &str, root: &str) -> (r: String)
    ensures
        r@ == spec_rel_path(path@, root@),
{
    let n = path.unicode_len();
    let m = root.unicode_len();
    if m >= n {
        return path.substring_char(0, n).to_owned();
    }
    if path.get_char(m) != '/' {
        return path.substring_char(0, n).to_owned();
    }
    let mut i: usize = 0;
    while i < m
        invariant
            n == path@.len(),
            m == root@.len(),
            m < n,
            i <= m,
            forall|j: int| 0 <= j < i ==> path@[j] == root@[j],
        decreases m - i,
    {
        if path.get_char(i) != root.get_char(i) {
            proof {
                assert(path@.subrange(0, m as int)[i as int] != root@[i as int]);
            }
            return path.substring_char(0, n).to_owned();
        }
        i += 1;
    }
    proof {
        assert(path@.subrange(0, m as int) =~= root@);
    }
    path.substring_char(m + 1, n).to_owned()
}

/// The JSON body of one advisory query, for one declared package, version
/// and the PyPI ecosystem.
pub open spec fn spec_query_body(name: Seq<char>, version: Seq<char>) -> Seq<char> {
    "{\"version\": \""@ + version + "\", \"package\": {\"name\": \""@ + name
        + "\", \"ecosystem\": \"PyPI\"}}"@
}

/// Builds the JSON body of the advisory query for one declaration.
pub fn build_query(decl: &DependencyDeclaration) -> (r: String)
    ensures
        r@ == spec_query_body(decl.pkg_name@, decl.pkg_version@),
{
    let mut q = String::from_str("{\"version\": \"");
    q.append(decl.pkg_version.as_str());
    q.append("\", \"package\": {\"name\": \"");
    q.append(decl.pkg_name.as_str());
    q.append("\", \"ecosystem\": \"PyPI\"}}");
    proof {
        assert(q@ =~= spec_query_body(decl.pkg_name@, decl.pkg_version@));
    }
    q
}

/// The findings of one manifest from declaration `i` on: one finding per
/// declaration whose query was answered, whose answer is valid JSON, and
/// whose payload carries advisory records.
pub open spec fn spec_resolved(
    decls: Seq<(Seq<char>, Seq<char>)>,
    responses: Seq<Option<Seq<char>>>,
    path: Seq<char>,
    file_name: Seq<char>,
    i: int,
) -> Seq<FindingModel>
    decreases decls.len() - i,
{
    if i < 0 || i >= decls.len() || decls.len() != responses.len() {
        Seq::empty()
    } else {
        let rest = spec_resolved(decls, responses, path, file_name, i + 1);
        match responses[i] {
            Some(body) => match parsed_json(body) {
                Some(doc) => match spec_normalize(doc, decls[i].0, decls[i].1, path, file_name) {
                    Some(f) => seq![f] + rest,
                    None => rest,
                },
                None => rest,
            },
            None => rest,
        }
    }
}

/// Assembles the findings of one manifest: declaration by declaration, the
/// answered payloads are parsed and normalized, and each finding is stamped
/// with the manifest's file name and its path relative to the scan root.
pub fn resolve_manifest(
    decls: &Vec<DependencyDeclaration>,
    responses: &Vec<Option<String>>,
    manifest_path: &str,
    scan_root: &str,
) -> (r: Vec<VulnerablePackage>)
    requires
        decls@.len() == responses@.len(),
    ensures
        r.deep_view() == spec_resolved(
            decls.deep_view(),
            responses.deep_view(),
            spec_rel_path(manifest_path@, scan_root@),
            spec_base_name(manifest_path@),
            0,
        ),
{
    let rel = relative_path(manifest_path, scan_root);
    let fname = base_name(manifest_path);
    let ghost ds = decls.deep_view();
    let ghost rs = responses.deep_view();
    let n = decls.len();
    let mut out: Vec<VulnerablePackage> = Vec::new();
    let mut i: usize = 0;
    while i < n
        invariant
            n == decls@.len(),
            n == responses@.len(),
            ds == decls.deep_view(),
            rs == responses.deep_view(),
            ds.len() == n,
            rs.len() == n,
            i <= n,
            rel@ == spec_rel_path(manifest_path@, scan_root@),
            fname@ == spec_base_name(manifest_path@),
            out.deep_view() + spec_resolved(ds, rs, rel@, fname@, i as int) == spec_resolved(
                ds,
                rs,
                rel@,
                fname@,
                0,
            ),
        decreases n - i,
    {
        proof {
            assert(ds[i as int] == decls@[i as int].deep_view());
            assert(rs[i as int] == responses@[i as int].deep_view());
        }
        match &responses[i] {
            Some(body) => {
                match parse_json_document(body.as_str()) {
                    Some(doc) => {
                        match normalize(&doc, &decls[i], rel.as_str(), fname.as_str()) {
                            Some(f) => {
                                out.push(f);
                                proof {
                                    assert(out.deep_view() + spec_resolved(
                                        ds,
                                        rs,
                                        rel@,
                                        fname@,
                                        i + 1,
                                    ) =~= spec_resolved(ds, rs, rel@, fname@, 0));
                                }
                            },
                            None => {},
                        }
                    },
                    None => {},
                }
            },
            None => {},
        }
        i += 1;
    }
    proof {
        assert(out.deep_view() =~= spec_resolved(ds, rs, rel@, fname@, 0));
    }
    out
}

proof fn lemma_resolved_len(
    decls: Seq<(Seq<char>, Seq<char>)>,
    responses: Seq<Option<Seq<char>>>,
    path: Seq<char>,
    file_name: Seq<char>,
    i: int,
)
    requires
        0 <= i <= decls.len(),
    ensures
        spec_resolved(decls, responses, path, file_name, i).len() <= decls.len() - i,
    decreases decls.len() - i,
{
    if i < decls.len() {
        lemma_resolved_len(decls, responses, path, file_name, i + 1);
    }
}

/// However many advisory records one payload carries, a declaration
/// contributes at most one finding to the report, never more.
pub proof fn lemma_at_most_one_finding_per_declaration(
    decls: Seq<(Seq<char>, Seq<char>)>,
    responses: Seq<Option<Seq<char>>>,
    path: Seq<char>,
    file_name: Seq<char>,
)
    ensures
        spec_resolved(decls, responses, path, file_name, 0).len() <= decls.len(),
{
    lemma_resolved_len(decls, responses, path, file_name, 0);
}

/// Resolution is a function of the declarations and the advisory answers
/// alone: resolving the same manifest twice against unchanged answers yields
/// the identical finding sequence.
pub proof fn lemma_resolution_idempotent(
    decls: Seq<(Seq<char>, Seq<char>)>,
    responses: Seq<Option<Seq<char>>>,
    path: Seq<char>,
    file_name: Seq<char>,
    r1: Seq<FindingModel>,
    r2: Seq<FindingModel>,
)
    requires
        r1 == spec_resolved(decls, responses, path, file_name, 0),
        r2 == spec_resolved(decls, responses, path, file_name, 0),
    ensures
        r1 == r2,
{
}

/// The characters of a repository URL that name the repository: the last
/// segment once trailing separators are gone, a `.git` suffix dropped.
pub open spec fn trim_trailing_slashes(s: Seq<char>) -> Seq<char>
    decreases s.len(),
{
    if s.len() > 0 && s.last() == '/' {
        trim_trailing_slashes(s.drop_last())
    } else {
        s
    }
}

pub open spec fn spec_repo_name(url: Seq<char>) -> Seq<char> {
    let base = spec_base_name(trim_trailing_slashes(url));
    if spec_ends_with(base, ".git"@) {
        base.subrange(0, base.len() - 4)
    } else {
        base
    }
}

/// The repository name a clone URL names.
pub fn get_repo_name(url: &str) -> (r: String)
    ensures
        r@ == spec_repo_name(url@),
{
    let n = url.unicode_len();
    let mut e: usize = n;
    proof {
        assert(url@.subrange(0, n as int) =~= url@);
    }
    while e > 0 && url.get_char(e - 1) == '/'
        invariant
            n == url@.len(),
            e <= n,
            trim_trailing_slashes(url@) == trim_trailing_slashes(url@.subrange(0, e as int)),
        decreases e,
    {
        proof {
            assert(url@.subrange(0, e as int).drop_last() =~= url@.subrange(0, e as int - 1));
        }
        e -= 1;
    }
    proof {
        assert(trim_trailing_slashes(url@.subrange(0, e as int)) == url@.subrange(0, e as int));
    }
    let trimmed = url.substring_char(0, e);
    let base = base_name(trimmed);
    let blen = base.as_str().unicode_len();
    if ends_with_str(base.as_str(), ".git") {
        proof {
            reveal_strlit(".git");
        }
        base.as_str().substring_char(0, blen - 4).to_owned()
    } else {
        base
    }
}

} // verus!
