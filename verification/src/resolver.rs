//! From what a user asks for to one version.
use crate::errors::{CyreneError, ErrorView};
use crate::version::{
    core_descending, semver_accepts, semver_parse, spec_core, spec_core_less, SemVer,
};
use vstd::prelude::*;

verus! {

/// Calls `semver::VersionReq::parse` on the requirement,
/// `semver::Version::parse` on the version, and `VersionReq::matches` on the
/// two. Trusted: the answer is the one that `semver_accepts` names, and there
/// is none where the version does not parse.
#[verifier::external_body]
fn requirement_accepts(requirement: &str, version: &str) -> (r: Option<bool>)
    ensures
        r == semver_accepts(requirement@, version@),
        r is Some ==> semver_parse(version@) is Some,
{
    match (semver::VersionReq::parse(requirement), semver::Version::parse(version)) {
        (Ok(req), Ok(v)) => Some(req.matches(&v)),
        _ => None,
    }
}

/// The first position from `from` on whose version meets the requirement, or
/// the length of the list.
pub open spec fn spec_first_match(versions: Seq<Seq<char>>, range: Seq<char>, from: int) -> int
    decreases versions.len() - from,
{
    if from >= versions.len() {
        versions.len() as int
    } else if semver_accepts(range, versions[from]) == Some(true) {
        from
    } else {
        spec_first_match(versions, range, from + 1)
    }
}

/// The first version of the list that meets the requirement.
pub open spec fn spec_search(versions: Seq<Seq<char>>, range: Seq<char>) -> Option<Seq<char>> {
    let i = spec_first_match(versions, range, 0);
    if i < versions.len() {
        Some(versions[i])
    } else {
        None
    }
}

pub proof fn lemma_first_match(versions: Seq<Seq<char>>, range: Seq<char>, from: int)
    requires
        0 <= from <= versions.len(),
    ensures
        from <= spec_first_match(versions, range, from) <= versions.len(),
        spec_first_match(versions, range, from) < versions.len() ==> semver_accepts(
            range,
            versions[spec_first_match(versions, range, from)],
        ) == Some(true),
        forall|j: int|
            from <= j < spec_first_match(versions, range, from) ==> semver_accepts(
                range,
                #[trigger] versions[j],
            ) != Some(true),
    decreases versions.len() - from,
{
    if from < versions.len() && semver_accepts(range, versions[from]) != Some(true) {
        lemma_first_match(versions, range, from + 1);
    }
}

/// Of the versions of the list that meet the requirement, none has higher
/// numbers than the one found; and one is found where any meets it.
pub open spec fn spec_highest_numbers(
    versions: Seq<Seq<char>>,
    range: Seq<char>,
    found: Option<Seq<char>>,
) -> bool {
    forall|j: int|
        0 <= j < versions.len() && semver_accepts(range, #[trigger] versions[j]) == Some(true)
            ==> found is Some && !spec_core_less(spec_core(found.unwrap()), spec_core(versions[j]))
}

/// In a list along which the numbers never rise, the first version that meets
/// the requirement has the highest numbers of all that meet it.
pub proof fn lemma_first_is_highest(versions: Seq<Seq<char>>, range: Seq<char>)
    requires
        core_descending(versions),
    ensures
        spec_highest_numbers(versions, range, spec_search(versions, range)),
{
    lemma_first_match(versions, range, 0);
}

/// Whether a version meets a requirement. It does not where either is not
/// what it has to be: only a semantic version meets anything.
pub fn version_matches(range: &str, version: &str) -> (r: bool)
    ensures
        r == (semver_accepts(range@, version@) == Some(true)),
        r ==> semver_parse(version@) is Some,
{
    match requirement_accepts(range, version) {
        Some(b) => b,
        None => false,
    }
}

/// The first version of the list that meets the requirement: with the list
/// in descending order, the highest one. Entries that are no semantic
/// versions are passed over.
pub fn search_in_version(versions: &Vec<String>, version_range: &str) -> (r: Option<String>)
    ensures
        r is Some <==> spec_search(versions.deep_view(), version_range@) is Some,
        r matches Some(v) ==> Some(v@) == spec_search(versions.deep_view(), version_range@),
        r matches Some(v) ==> semver_parse(v@) is Some,
        core_descending(versions.deep_view()) ==> spec_highest_numbers(
            versions.deep_view(),
            version_range@,
            r.deep_view(),
        ),
{
    proof {
        if core_descending(versions.deep_view()) {
            lemma_first_is_highest(versions.deep_view(), version_range@);
        }
    }
    let mut i: usize = 0;
    while i < versions.len()
        invariant
            i <= versions.len(),
            spec_first_match(versions.deep_view(), version_range@, 0) == spec_first_match(
                versions.deep_view(),
                version_range@,
                i as int,
            ),
            core_descending(versions.deep_view()) ==> spec_highest_numbers(
                versions.deep_view(),
                version_range@,
                spec_search(versions.deep_view(), version_range@),
            ),
        decreases versions.len() - i,
    {
        assert(versions.deep_view()[i as int] == versions[i as int]@);
        if version_matches(version_range, versions[i].as_str()) {
            return Some(versions[i].clone());
        }
        i += 1;
    }
    None
}

/// What a user asks for.
pub enum VersionRequirement {
    /// This version and no other.
    Exact(String),
    /// The highest version that meets a constraint.
    Range(String),
    /// The newest version.
    Latest,
}

/// A requirement as contracts see it.
pub enum RequirementView {
    Exact(Seq<char>),
    Range(Seq<char>),
    Latest,
}

impl View for VersionRequirement {
    type V = RequirementView;

    open spec fn view(&self) -> RequirementView {
        match self {
            VersionRequirement::Exact(v) => RequirementView::Exact(v@),
            VersionRequirement::Range(r) => RequirementView::Range(r@),
            VersionRequirement::Latest => RequirementView::Latest,
        }
    }
}

/// How the text behind the `@` of a request is read.
pub open spec fn spec_requirement(text: Option<Seq<char>>) -> RequirementView {
    match text {
        None => RequirementView::Latest,
        Some(t) => if semver_parse(t) is Some {
            RequirementView::Exact(t)
        } else {
            RequirementView::Range(t)
        },
    }
}

/// The version that a requirement resolves to, given the cached versions of
/// the app, newest first.
pub open spec fn spec_resolve(
    app: Seq<char>,
    requirement: RequirementView,
    cached: Seq<Seq<char>>,
) -> Result<Seq<char>, ErrorView> {
    match requirement {
        RequirementView::Exact(v) => Ok(v),
        RequirementView::Latest => if cached.len() > 0 {
            Ok(cached[0])
        } else {
            Err(ErrorView::AppVersionNotInCacheError(app))
        },
        RequirementView::Range(r) => match spec_search(cached, r) {
            Some(v) => Ok(v),
            None => Err(ErrorView::AppVersionNotFoundError(r, app)),
        },
    }
}

impl VersionRequirement {
    /// Reads a requirement: none asks for the newest version, a semantic
    /// version for itself, anything else is taken for a constraint.
    pub fn parse(text: Option<&str>) -> (r: Self)
        ensures
            r@ == spec_requirement(
                match text {
                    Some(t) => Some(t@),
                    None => None,
                },
            ),
    {
        match text {
            None => VersionRequirement::Latest,
            Some(t) => if SemVer::is_valid(t) {
                VersionRequirement::Exact(t.to_owned())
            } else {
                VersionRequirement::Range(t.to_owned())
            },
        }
    }

    /// Whether the versions of the app have to be known to resolve this.
    pub fn needs_versions(&self) -> (r: bool)
        ensures
            r == !(self@ is Exact),
    {
        match self {
            VersionRequirement::Exact(_) => false,
            _ => true,
        }
    }
}

/// Resolves a requirement against the cached versions of an app. An exact
/// version is taken as it is; the newest is the first of the list; a
/// constraint gives the first that meets it, which has the highest numbers of
/// all that meet it where the numbers never rise along the list, as they do
/// in a list that the host has made.
pub fn resolve(app: &str, requirement: &VersionRequirement, cached: &Vec<String>) -> (r: Result<
    String,
    CyreneError,
>)
    ensures
        r is Ok <==> spec_resolve(app@, requirement@, cached.deep_view()) is Ok,
        r matches Ok(v) ==> Ok::<Seq<char>, ErrorView>(v@) == spec_resolve(
            app@,
            requirement@,
            cached.deep_view(),
        ),
        r matches Err(e) ==> Err::<Seq<char>, ErrorView>(e@) == spec_resolve(
            app@,
            requirement@,
            cached.deep_view(),
        ),
        (requirement@ matches RequirementView::Range(range) && core_descending(cached.deep_view()))
            ==> spec_highest_numbers(
            cached.deep_view(),
            requirement@->Range_0,
            match r {
                Ok(v) => Some(v@),
                Err(_) => None,
            },
        ),
{
    match requirement {
        VersionRequirement::Exact(v) => Ok(v.clone()),
        VersionRequirement::Latest => {
            if cached.len() > 0 {
                assert(cached.deep_view()[0] == cached[0]@);
                Ok(cached[0].clone())
            } else {
                Err(CyreneError::AppVersionNotInCacheError(app.to_owned()))
            }
        },
        VersionRequirement::Range(range) => {
            match search_in_version(cached, range.as_str()) {
                Some(v) => Ok(v),
                None => Err(CyreneError::AppVersionNotFoundError(range.clone(), app.to_owned())),
            }
        },
    }
}

} // verus!
