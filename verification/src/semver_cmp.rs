//! Semantic-version comparison for fixed-version resolution.
//!
//! Parsing, ordering and rendering of version strings are delegated to the
//! `semver` crate. The selection of the highest fixed version among the
//! candidates of an advisory is verified here against those three names.

use vstd::prelude::*;

verus! {

/// Whether `s` is valid semantic-version text, as `semver::Version::parse`
/// accepts it.
pub uninterp spec fn sv_ok(s: Seq<char>) -> bool;

/// The order of two valid version texts: whether the version `a` names
/// precedes or equals the version `b` names, under `semver::Version`'s total
/// order.
pub uninterp spec fn sv_le(a: Seq<char>, b: Seq<char>) -> bool;

/// The canonical rendering of the version that the valid text `s` names.
pub uninterp spec fn sv_render(s: Seq<char>) -> Seq<char>;

/// Relies on `semver::Version::parse`: it answers `Ok` exactly on valid
/// semantic-version text.
#[verifier::external_body]
fn semver_is_valid(s: &str) -> (r: bool)
    ensures
        r == sv_ok(s@),
{
    semver::Version::parse(s).is_ok()
}

/// Relies on `semver::Version`'s `Ord`: a total order (semantic-version
/// precedence, build metadata as the last tiebreak), so it is transitive and
/// one of two versions always precedes or equals the other.
#[verifier::external_body]
fn semver_le(a: &str, b: &str) -> (r: bool)
    requires
        sv_ok(a@),
        sv_ok(b@),
    ensures
        r == sv_le(a@, b@),
        !r ==> sv_le(b@, a@),
        r ==> forall|c: Seq<char>| sv_ok(c) && #[trigger] sv_le(c, a@) ==> sv_le(c, b@),
{
    let va = semver::Version::parse(a).unwrap();
    let vb = semver::Version::parse(b).unwrap();
    va <= vb
}

/// Relies on `semver::Version`'s `Display`: the canonical
/// `major.minor.patch[-pre][+build]` rendering of the parsed version.
#[verifier::external_body]
fn semver_canonical(s: &str) -> (r: String)
    requires
        sv_ok(s@),
    ensures
        r@ == sv_render(s@),
{
    semver::Version::parse(s).unwrap().to_string()
}

/// The running maximum of the valid versions among `cands` from index `i`
/// on, starting from `best`; later candidates win ties.
pub open spec fn max_valid_from(cands: Seq<Seq<char>>, i: int, best: Option<Seq<char>>) -> Option<
    Seq<char>,
>
    decreases cands.len() - i,
{
    if i < 0 || i >= cands.len() {
        best
    } else {
        let c = cands[i];
        let next = if !sv_ok(c) {
            best
        } else {
            match best {
                None => Some(c),
                Some(b) => if sv_le(b, c) {
                    Some(c)
                } else {
                    Some(b)
                },
            }
        };
        max_valid_from(cands, i + 1, next)
    }
}

/// The candidate with the highest version among the valid candidates, if
/// any; of candidates naming equal versions, the last one encountered.
pub open spec fn spec_max_valid(cands: Seq<Seq<char>>) -> Option<Seq<char>> {
    max_valid_from(cands, 0, None)
}

/// Picks the valid candidate naming the highest version and renders it
/// canonically; `None` when no candidate is valid version text.
pub fn max_fixed_version(cands: &Vec<String>) -> (r: Option<String>)
    ensures
        match spec_max_valid(cands.deep_view()) {
            Some(m) => {
                &&& r matches Some(s) && s@ == sv_render(m)
                &&& sv_ok(m)
                &&& exists|k: int| 0 <= k < cands.deep_view().len() && cands.deep_view()[k] == m
                &&& forall|j: int|
                    0 <= j < cands.deep_view().len() && sv_ok(#[trigger] cands.deep_view()[j])
                        ==> sv_le(cands.deep_view()[j], m)
            },
            None => {
                &&& r is None
                &&& forall|j: int|
                    0 <= j < cands.deep_view().len() ==> !sv_ok(#[trigger] cands.deep_view()[j])
            },
        },
{
    let ghost cs = cands.deep_view();
    let n = cands.len();
    let mut best: Option<String> = None;
    let ghost mut best_k: int = 0;
    let mut i: usize = 0;
    while i < n
        invariant
            n == cands@.len(),
            cs == cands.deep_view(),
            cs.len() == n,
            i <= n,
            max_valid_from(cs, 0, None) == max_valid_from(
                cs,
                i as int,
                match best {
                    Some(b) => Some(b@),
                    None => None,
                },
            ),
            best matches Some(b) ==> sv_ok(b@) && 0 <= best_k < i && cs[best_k] == b@,
            best matches Some(b) ==> forall|j: int|
                0 <= j < i && j != best_k && sv_ok(#[trigger] cs[j]) ==> sv_le(cs[j], b@),
            best is None ==> forall|j: int| 0 <= j < i ==> !sv_ok(#[trigger] cs[j]),
        decreases n - i,
    {
        proof {
            assert(cs[i as int] == cands@[i as int]@);
        }
        let c = &cands[i];
        if semver_is_valid(c.as_str()) {
            match best {
                None => {
                    best = Some(c.clone());
                    proof {
                        best_k = i as int;
                    }
                },
                Some(b) => {
                    if semver_le(b.as_str(), c.as_str()) {
                        best = Some(c.clone());
                        proof {
                            best_k = i as int;
                        }
                    } else {
                        best = Some(b);
                    }
                },
            }
        }
        i += 1;
    }
    match best {
        Some(b) => {
            // One self-comparison settles that the chosen candidate precedes
            // or equals itself, so it belongs to the quantified bound too.
            let _refl = semver_le(b.as_str(), b.as_str());
            let rendered = semver_canonical(b.as_str());
            Some(rendered)
        },
        None => None,
    }
}

} // verus!
