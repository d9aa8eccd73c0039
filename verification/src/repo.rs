//! The repository that the tool works in.

use crate::paths::{join_path, joined};
use crate::strings::{same, trim};
use crate::text::{opt_text, trimmed};
use vstd::prelude::*;
use vstd::string::*;

verus! {

/// The places of a repository.
#[derive(Debug)]
pub struct RepoInfo {
    /// The working tree, or the repository itself where it is bare.
    pub root: String,
    pub git_dir: String,
    /// Where the workflows are.
    pub ci_dir: String,
    /// Where the tool keeps its own files.
    pub state_dir: String,
    pub runs_dir: String,
    pub artifact_store: String,
    pub actions_cache: String,
    pub branch: Option<String>,
    pub is_bare: bool,
    pub current_exe: String,
}

/// What `git` says of a repository, seen from the directory that it was asked in.
#[derive(Debug)]
pub struct GitAnswers {
    /// The answer to `rev-parse --git-dir`.
    pub git_dir: String,
    /// The answer to `rev-parse --is-bare-repository`.
    pub is_bare: String,
}

/// Where the Git directory is: as `git` says, seen from the directory that it was asked in.
pub open spec fn git_dir_from(asked_in: Seq<char>, answer: Seq<char>) -> Seq<char> {
    joined(asked_in, trimmed(answer))
}

/// Where the Git directory is, and whether the repository is bare.
pub fn locate_git_dir(asked_in: &str, answers: &GitAnswers) -> (r: (String, bool))
    ensures
        r.0@ == git_dir_from(asked_in@, answers.git_dir@),
        r.1 == (trimmed(answers.is_bare@) == "true"@),
{
    let dir = join_path(asked_in, trim(answers.git_dir.as_str()));
    (dir, same(trim(answers.is_bare.as_str()), "true"))
}

impl RepoInfo {
    /// The places of a repository with a Git directory. A bare repository is its own
    /// root; any other has the given working tree. Everything that the tool keeps is
    /// below `ci` in the Git directory.
    pub fn new(
        git_dir: String,
        top_level: Option<String>,
        ci_dir: &str,
        artifact_store: &str,
        actions_cache: &str,
        branch: Option<String>,
        current_exe: String,
    ) -> (r: Self)
        ensures
            r.git_dir@ == git_dir@,
            r.is_bare == (top_level is None),
            r.root@ == match top_level {
                Some(top) => top@,
                None => git_dir@,
            },
            r.ci_dir@ == joined(r.root@, ci_dir@),
            r.state_dir@ == joined(git_dir@, "ci"@),
            r.runs_dir@ == joined(r.state_dir@, "runs"@),
            r.artifact_store@ == joined(r.state_dir@, artifact_store@),
            r.actions_cache@ == joined(r.state_dir@, actions_cache@),
            opt_text(r.branch) == opt_text(branch),
            r.current_exe@ == current_exe@,
    {
        let is_bare = top_level.is_none();
        let root = match top_level {
            Some(top) => top,
            None => git_dir.clone(),
        };
        let state_dir = join_path(git_dir.as_str(), "ci");
        RepoInfo {
            ci_dir: join_path(root.as_str(), ci_dir),
            runs_dir: join_path(state_dir.as_str(), "runs"),
            artifact_store: join_path(state_dir.as_str(), artifact_store),
            actions_cache: join_path(state_dir.as_str(), actions_cache),
            root,
            git_dir,
            state_dir,
            branch,
            is_bare,
            current_exe,
        }
    }
}

} // verus!
