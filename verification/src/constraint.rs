//! The constraint resolver: the first listed version that a semantic-version
//! range admits.
use crate::error::Error;
use crate::text::views;
use vstd::prelude::*;
use vstd::string::StringExecFns;

verus! {

/// Why `semver` refuses `text` as a version requirement: the message of the
/// error that `semver::VersionReq::parse` returns for it, or `None` where it
/// accepts the text.
pub uninterp spec fn semver_requirement_fault(text: Seq<char>) -> Option<Seq<char>>;

/// Why `semver` refuses `text` as a version: the message of the error that
/// `semver::Version::parse` returns for it, or `None` where it accepts the
/// text.
pub uninterp spec fn semver_version_fault(text: Seq<char>) -> Option<Seq<char>>;

/// Whether `semver` accepts `requirement` as a version requirement and
/// `version` as a version, and `semver::VersionReq::matches` finds that the
/// second satisfies the first.
pub uninterp spec fn semver_satisfies(requirement: Seq<char>, version: Seq<char>) -> bool;

/// `semver::VersionReq::parse`: whether the text is a version requirement,
/// and the parser's message where it is not. The requirement itself is
/// dropped.
#[verifier::external_body]
fn requirement_fault(text: &str) -> (fault: Option<String>)
    ensures
        match fault {
            Some(reason) => semver_requirement_fault(text@) == Some(reason@),
            None => semver_requirement_fault(text@) is None,
        },
{
    match semver::VersionReq::parse(text) {
        Ok(_) => None,
        Err(error) => Some(error.to_string()),
    }
}

/// `semver::Version::parse`: whether the text is a version, and the parser's
/// message where it is not. The version itself is dropped.
#[verifier::external_body]
fn version_fault(text: &str) -> (fault: Option<String>)
    ensures
        match fault {
            Some(reason) => semver_version_fault(text@) == Some(reason@),
            None => semver_version_fault(text@) is None,
        },
{
    match semver::Version::parse(text) {
        Ok(_) => None,
        Err(error) => Some(error.to_string()),
    }
}

/// `semver::VersionReq::matches` on what the two texts parse to; `false`
/// where either does not parse.
#[verifier::external_body]
fn satisfies(requirement: &str, version: &str) -> (yes: bool)
    ensures
        yes == semver_satisfies(requirement@, version@),
{
    match (semver::VersionReq::parse(requirement), semver::Version::parse(version)) {
        (Ok(range), Ok(point)) => range.matches(&point),
        _ => false,
    }
}

/// The version settles the search: it is malformed, or it satisfies the
/// requirement.
pub open spec fn is_decisive(requirement: Seq<char>, version: Seq<char>) -> bool {
    semver_version_fault(version) is Some || semver_satisfies(requirement, version)
}

/// The position at or after `from` of the first version that settles the
/// search, or the length of the list where none does.
pub open spec fn first_decisive(requirement: Seq<char>, versions: Seq<Seq<char>>, from: int) -> int
    decreases versions.len() - from,
{
    if from < 0 || from >= versions.len() {
        versions.len() as int
    } else if is_decisive(requirement, versions[from]) {
        from
    } else {
        first_decisive(requirement, versions, from + 1)
    }
}

/// The first decisive version stands where the search stops: nothing before
/// it is malformed or satisfies the requirement.
pub proof fn lemma_first_decisive(requirement: Seq<char>, versions: Seq<Seq<char>>, from: int)
    requires
        0 <= from <= versions.len(),
    ensures
        from <= first_decisive(requirement, versions, from) <= versions.len(),
        forall|j: int|
            from <= j < first_decisive(requirement, versions, from) ==> !is_decisive(
                requirement,
                #[trigger] versions[j],
            ),
        first_decisive(requirement, versions, from) < versions.len() ==> is_decisive(
            requirement,
            versions[first_decisive(requirement, versions, from)],
        ),
    decreases versions.len() - from,
{
    if from < versions.len() && !is_decisive(requirement, versions[from]) {
        lemma_first_decisive(requirement, versions, from + 1);
    }
}

/// What the resolver answers for the constraint `requirement`, given as a
/// relation between the input and the answer.
///
/// A malformed constraint is an error whatever the list holds. Otherwise the
/// list is walked in order up to the first version that is malformed, which
/// is an error, or satisfies the constraint, which is the answer. Where the
/// walk finds neither, there is no selection.
pub open spec fn resolves(
    requirement: Seq<char>,
    versions: Seq<Seq<char>>,
    answer: Result<Option<String>, Error>,
) -> bool {
    let stop = first_decisive(requirement, versions, 0);
    match answer {
        Err(Error::InvalidConstraint { constraint, reason }) => {
            &&& constraint@ == requirement
            &&& semver_requirement_fault(requirement) == Some(reason@)
        },
        Err(Error::InvalidVersion { version, reason }) => {
            &&& semver_requirement_fault(requirement) is None
            &&& stop < versions.len()
            &&& version@ == versions[stop]
            &&& semver_version_fault(versions[stop]) == Some(reason@)
        },
        Err(_) => false,
        Ok(Some(version)) => {
            &&& semver_requirement_fault(requirement) is None
            &&& stop < versions.len()
            &&& semver_version_fault(versions[stop]) is None
            &&& semver_satisfies(requirement, versions[stop])
            &&& version@ == versions[stop]
        },
        Ok(None) => {
            &&& semver_requirement_fault(requirement) is None
            &&& stop == versions.len()
        },
    }
}

/// A version that the resolver selects is one of the list, it satisfies the
/// constraint, and no version before it is malformed or satisfies the
/// constraint.
pub proof fn lemma_selected_version_is_listed(
    requirement: Seq<char>,
    versions: Seq<Seq<char>>,
    version: String,
)
    requires
        resolves(requirement, versions, Ok(Some(version))),
    ensures
        versions.contains(version@),
        semver_satisfies(requirement, version@),
        exists|k: int|
            0 <= k < versions.len() && #[trigger] versions[k] == version@ && forall|j: int|
                0 <= j < k ==> !is_decisive(requirement, #[trigger] versions[j]),
{
    lemma_first_decisive(requirement, versions, 0);
    let stop = first_decisive(requirement, versions, 0);
    assert(versions[stop] == version@);
}

/// Where the resolver selects nothing, no version of the list satisfies the
/// constraint, and all of them are semantic versions.
pub proof fn lemma_no_selection_means_no_match(requirement: Seq<char>, versions: Seq<Seq<char>>)
    requires
        resolves(requirement, versions, Ok(None)),
    ensures
        forall|k: int|
            0 <= k < versions.len() ==> semver_version_fault(#[trigger] versions[k]) is None
                && !semver_satisfies(requirement, versions[k]),
{
    lemma_first_decisive(requirement, versions, 0);
}

/// Picks the version to install from what the project asks for.
///
/// `constraint` is the version constraint that the project declares, if it
/// declares one. Without one there is no selection. With one, the answer is
/// the first of `versions`, in the order given, that satisfies it; no
/// selection where none does. A constraint that is not a semantic-version
/// range is an error, and so is a version that is not a semantic version and
/// stands before the first that satisfies the constraint.
pub fn get_version_from_module(constraint: Option<&str>, versions: &[String]) -> (answer: Result<
    Option<String>,
    Error,
>)
    ensures
        match constraint {
            None => answer == Ok::<Option<String>, Error>(None),
            Some(requirement) => resolves(requirement@, views(versions@), answer),
        },
{
    let requirement = match constraint {
        None => { return Ok(None); },
        Some(requirement) => requirement,
    };
    if let Some(reason) = requirement_fault(requirement) {
        return Err(Error::InvalidConstraint { constraint: String::from_str(requirement), reason });
    }
    let mut k: usize = 0;
    while k < versions.len()
        invariant
            k <= versions.len(),
            constraint == Some(requirement),
            semver_requirement_fault(requirement@) is None,
            first_decisive(requirement@, views(versions@), 0) == first_decisive(
                requirement@,
                views(versions@),
                k as int,
            ),
        decreases versions.len() - k,
    {
        let version = &versions[k];
        assert(views(versions@)[k as int] == version@);
        if let Some(reason) = version_fault(version.as_str()) {
            return Err(Error::InvalidVersion { version: version.clone(), reason });
        }
        if satisfies(requirement, version.as_str()) {
            return Ok(Some(version.clone()));
        }
        k += 1;
    }
    Ok(None)
}

} // verus!
