//! The install target: where the program is, or is to be.
use crate::fetch::{DEFAULT_LOCATION, PROGRAM_NAME};
use crate::text::{chars_of, split, split_text, text_of, views};
use vstd::prelude::*;
use vstd::string::StringExecFns;

verus! {

/// What separates the directories of a search path.
pub const SEARCH_PATH_SEPARATOR: char = ':';

/// The path `name` as seen from the directory `dir`: `name` itself where it
/// starts at the root, else `dir` and `name` with one slash between them,
/// which `dir` may bring along or, being empty, do without.
pub open spec fn joined(dir: Seq<char>, name: Seq<char>) -> Seq<char> {
    if name.len() > 0 && name[0] == '/' {
        name
    } else if dir.len() == 0 || dir.last() == '/' {
        dir + name
    } else {
        dir + "/"@ + name
    }
}

/// The places where a program called `name` may lie according to the search
/// path `path_var`: one in each directory of the search path, in its order.
pub open spec fn candidates_of(path_var: Seq<char>, name: Seq<char>) -> Seq<Seq<char>> {
    Seq::new(
        split(path_var, SEARCH_PATH_SEPARATOR).len(),
        |k: int| joined(split(path_var, SEARCH_PATH_SEPARATOR)[k], name),
    )
}

/// Where the program is installed below the home directory `home` when it
/// is not found on the search path.
pub open spec fn default_target(home: Seq<char>) -> Seq<char> {
    joined(home, DEFAULT_LOCATION@ + "/"@ + PROGRAM_NAME@)
}

/// The position of the first of `count` candidates, looking from `from`
/// on, that `present` marks as present. One that `present` is too short to
/// speak of is absent.
pub open spec fn first_present(present: Seq<bool>, count: int, from: int) -> Option<int>
    decreases present.len() - from,
{
    if from < 0 || from >= count || from >= present.len() {
        None
    } else if present[from] {
        Some(from)
    } else {
        first_present(present, count, from + 1)
    }
}

/// The first candidate marked present is marked present, and none before it
/// is.
pub proof fn lemma_first_present(present: Seq<bool>, count: int, from: int)
    requires
        0 <= from,
    ensures
        match first_present(present, count, from) {
            Some(k) => from <= k < count && k < present.len() && present[k] && forall|j: int|
                from <= j < k ==> !present[j],
            None => forall|j: int| from <= j < count && j < present.len() ==> !present[j],
        },
    decreases present.len() - from,
{
    if from < count && from < present.len() && !present[from] {
        lemma_first_present(present, count, from + 1);
    }
}

/// Joins a directory and a path below it.
pub fn join_path(dir: &str, name: &str) -> (path: String)
    ensures
        path@ == joined(dir@, name@),
{
    let head = chars_of(dir);
    let tail = chars_of(name);
    if tail.len() > 0 && tail[0] == '/' {
        return String::from_str(name);
    }
    let mut path = String::from_str(dir);
    if head.len() > 0 && head[head.len() - 1] != '/' {
        path.append("/");
    }
    path.append(name);
    path
}

/// The places to look for the program `program_name`, given the search path
/// `path_var`.
pub fn program_candidates(path_var: &str, program_name: &str) -> (candidates: Vec<String>)
    ensures
        views(candidates@) == candidates_of(path_var@, program_name@),
{
    let directories = split_text(path_var, SEARCH_PATH_SEPARATOR);
    let mut candidates: Vec<String> = Vec::new();
    let mut k: usize = 0;
    while k < directories.len()
        invariant
            k <= directories.len(),
            views(directories@) == split(path_var@, SEARCH_PATH_SEPARATOR),
            views(candidates@) == candidates_of(path_var@, program_name@).take(k as int),
        decreases directories.len() - k,
    {
        let ghost before = views(candidates@);
        let directory = text_of(&directories[k], 0, directories[k].len());
        assert(directory@ == directories@[k as int]@);
        assert(views(directories@)[k as int] == directories@[k as int]@);
        let candidate = join_path(directory.as_str(), program_name);
        candidates.push(candidate);
        proof {
            assert(views(candidates@) =~= before.push(candidate@));
            assert(candidates_of(path_var@, program_name@).take(k + 1)
                =~= candidates_of(path_var@, program_name@).take(k as int).push(candidate@));
        }
        k += 1;
    }
    proof {
        assert(candidates_of(path_var@, program_name@).take(directories.len() as int)
            =~= candidates_of(path_var@, program_name@));
    }
    candidates
}

/// The program on the search path: the first of `candidates` that exists.
///
/// `present` says of each candidate, by position, whether a file exists
/// there. A candidate that it says nothing of counts as absent.
pub fn find_program_path(candidates: &[String], present: &[bool]) -> (found: Option<String>)
    ensures
        match first_present(present@, candidates.len() as int, 0) {
            Some(k) => found == Some(candidates[k]),
            None => found is None,
        },
{
    let mut k: usize = 0;
    while k < candidates.len() && k < present.len()
        invariant
            k <= candidates.len(),
            k <= present.len(),
            first_present(present@, candidates.len() as int, 0) == first_present(
                present@,
                candidates.len() as int,
                k as int,
            ),
        decreases candidates.len() - k,
    {
        if present[k] {
            return Some(candidates[k].clone());
        }
        k += 1;
    }
    None
}

/// The file to install the program to: where it is found on the search
/// path, else the default place below the user's home directory. Without
/// either there is none.
pub fn find_terraform_program_path(found: Option<String>, home: Option<String>) -> (target: Option<
    String,
>)
    ensures
        match (found, home) {
            (Some(path), _) => target == Some(path),
            (None, Some(home)) => target matches Some(path) && path@ == default_target(home@),
            (None, None) => target is None,
        },
{
    match found {
        Some(path) => Some(path),
        None => match home {
            Some(home) => {
                let mut location = String::from_str(DEFAULT_LOCATION);
                location.append("/");
                location.append(PROGRAM_NAME);
                Some(join_path(home.as_str(), location.as_str()))
            },
            None => None,
        },
    }
}

} // verus!
