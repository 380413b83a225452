//! The version resolution orchestrator.
//!
//! Which version to install is settled by the first of three sources that
//! gives one: the caller's explicit request, the project's version
//! constraint applied to the release index, the user's choice from the
//! release index. The library never fetches or asks by itself. It says what
//! has to happen next as a [`Step`], and the caller reports back what came of
//! it.
use crate::args::Args;
use crate::constraint::{get_version_from_module, lemma_selected_version_is_listed, resolves};
use crate::error::Error;
use crate::http::{get_http, is_success, Reply};
use crate::listing::{capture_terraform_versions, listing};
use crate::text::views;
use vstd::prelude::*;
use vstd::string::StringExecFns;

verus! {

/// Where the release index is published.
pub const ARCHIVE_URL: &'static str = "https://releases.hashicorp.com/terraform";

/// What the user is told above the list of versions.
pub const PROMPT: &'static str = "select a terraform version to install";

/// What the caller has to do next.
#[derive(Debug, PartialEq, Eq)]
pub enum Step {
    /// Install this version: the resolution is over.
    Install { version: String },
    /// Fetch the release index from `url` and hand the reply, together with
    /// the project's version constraint, to [`resolve_from_index`].
    FetchIndex { url: String },
    /// Put `prompt` to the user and hand the pick, with the choices that
    /// were offered, to [`get_version_from_user_prompt`].
    Select { prompt: Prompt },
}

/// A question for the user: a list to choose from.
#[derive(Debug, PartialEq, Eq)]
pub struct Prompt {
    /// The line shown above the list.
    pub message: String,
    /// The versions to choose from, in the order of the release index.
    pub choices: Vec<String>,
    /// The position of the choice that is highlighted at first.
    pub default: usize,
}

/// The first step of a resolution.
///
/// A version that the caller names is installed as it stands: it is not held
/// against the release index, and neither the index nor the user is asked.
/// Without one, the release index has to be fetched.
pub fn get_version_to_install(args: Args) -> (step: Step)
    ensures
        match args.version {
            Some(version) => step == (Step::Install { version }),
            None => step matches Step::FetchIndex { url } && url@ == ARCHIVE_URL@,
        },
{
    match args.version {
        Some(version) => Step::Install { version },
        None => Step::FetchIndex { url: String::from_str(ARCHIVE_URL) },
    }
}

/// The versions that the fetched release index advertises.
///
/// A reply whose status is not a success is an error that carries the
/// status. Otherwise the body is read as the index: see
/// [`capture_terraform_versions`].
pub fn get_terraform_versions(args: Args, reply: Reply<String>) -> (answer: Result<
    Vec<String>,
    Error,
>)
    ensures
        match answer {
            Ok(versions) => is_success(reply.status) && views(versions@) == listing(
                reply.body@,
                args.list_all,
            ),
            Err(error) => !is_success(reply.status) && error == (Error::HttpStatus {
                status: reply.status,
            }),
        },
{
    match get_http(reply) {
        Ok(contents) => Ok(capture_terraform_versions(args, contents.as_str())),
        Err(error) => Err(error),
    }
}

/// The question to put to the user: which of `versions`, the first being
/// highlighted.
pub fn prompt_version_to_user(versions: Vec<String>) -> (prompt: Prompt)
    ensures
        prompt.message@ == PROMPT@,
        prompt.choices == versions,
        prompt.default == 0,
{
    Prompt { message: String::from_str(PROMPT), choices: versions, default: 0 }
}

/// The version that the user picked.
///
/// `selection` is the position in `versions` that the user chose, or `None`
/// where no choice could be had: no terminal, or the user backed out. That,
/// and a position that is not on the list, is an error.
pub fn get_version_from_user_prompt(versions: &[String], selection: Option<usize>) -> (answer:
    Result<String, Error>)
    ensures
        match selection {
            Some(index) if index < versions.len() => answer == Ok::<String, Error>(
                versions[index as int],
            ),
            _ => answer == Err::<String, Error>(Error::NoSelection),
        },
{
    match selection {
        Some(index) => {
            if index < versions.len() {
                Ok(versions[index].clone())
            } else {
                Err(Error::NoSelection)
            }
        },
        None => Err(Error::NoSelection),
    }
}

/// `prompt` asks the user to choose among `versions`, the first being
/// highlighted.
pub open spec fn asks_for(prompt: Prompt, versions: Seq<Seq<char>>) -> bool {
    &&& prompt.message@ == PROMPT@
    &&& views(prompt.choices@) == versions
    &&& prompt.default == 0
}

/// What follows the fetch of the release index, as a relation between what
/// came back and the answer.
///
/// A reply that does not report success is an error. Otherwise the versions
/// are listed, and the project's constraint, where there is one, is held
/// against them: a version that it selects is installed, and an error of the
/// resolver is an error here. Where there is no constraint or it selects
/// nothing, the user is asked to choose from the whole listing.
pub open spec fn follows_index(
    list_all: bool,
    reply: Reply<String>,
    constraint: Option<String>,
    answer: Result<Step, Error>,
) -> bool {
    let versions = listing(reply.body@, list_all);
    if !is_success(reply.status) {
        answer == Err::<Step, Error>(Error::HttpStatus { status: reply.status })
    } else {
        match answer {
            Ok(Step::Install { version }) => constraint matches Some(requirement) && resolves(
                requirement@,
                versions,
                Ok(Some(version)),
            ),
            Ok(Step::Select { prompt }) => asks_for(prompt, versions) && (constraint matches Some(
                requirement,
            ) ==> resolves(requirement@, versions, Ok(None))),
            Ok(Step::FetchIndex { .. }) => false,
            Err(error) => constraint matches Some(requirement) && resolves(
                requirement@,
                versions,
                Err(error),
            ),
        }
    }
}

/// A version that is installed on the strength of the release index is one
/// that the index lists, and the user is offered exactly what it lists.
pub proof fn lemma_resolved_version_is_listed(
    list_all: bool,
    reply: Reply<String>,
    constraint: Option<String>,
    answer: Result<Step, Error>,
)
    requires
        follows_index(list_all, reply, constraint, answer),
    ensures
        answer matches Ok(Step::Install { version }) ==> listing(reply.body@, list_all).contains(
            version@,
        ),
        answer matches Ok(Step::Select { prompt }) ==> views(prompt.choices@) == listing(
            reply.body@,
            list_all,
        ),
{
    if let Ok(Step::Install { version }) = answer {
        lemma_selected_version_is_listed(
            constraint->0@,
            listing(reply.body@, list_all),
            version,
        );
    }
}

/// The step that follows the fetch of the release index.
///
/// `reply` is what the request for the index was answered with, and
/// `constraint` the version constraint that the project declares, if it
/// declares one. The answer is to install the first listed version that the
/// constraint admits, or else to let the user choose from the listing.
pub fn resolve_from_index(args: Args, reply: Reply<String>, constraint: Option<String>) -> (answer:
    Result<Step, Error>)
    ensures
        follows_index(args.list_all, reply, constraint, answer),
{
    let versions = match get_terraform_versions(args, reply) {
        Ok(versions) => versions,
        Err(error) => { return Err(error); },
    };
    let found = match &constraint {
        Some(requirement) => get_version_from_module(
            Some(requirement.as_str()),
            versions.as_slice(),
        ),
        None => Ok(None),
    };
    match found {
        Ok(Some(version)) => Ok(Step::Install { version }),
        Ok(None) => Ok(Step::Select { prompt: prompt_version_to_user(versions) }),
        Err(error) => Err(error),
    }
}

} // verus!
