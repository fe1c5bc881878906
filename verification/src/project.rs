//! Project bookkeeping records and the rules for accepting one. The host
//! looks at the file system and hands in what it saw; the decision of what
//! counts as a valid project is made and verified here.

use vstd::prelude::*;

use vstd::slice::slice_index_get;
use vstd::utf8::encode_utf8;

verus! {

/// A worktree as listed under a project.
#[derive(Debug, Clone)]
pub struct Worktree {
    pub id: String,
    pub branch: String,
    pub path: String,
}

/// A project the user registered: a Git repository or a workspace file.
#[derive(Debug, Clone)]
pub struct Project {
    pub id: String,
    pub name: String,
    pub path: String,
    pub project_type: String,
    pub default_branch: Option<String>,
    pub created_at: String,
    pub worktrees: Vec<Worktree>,
}

/// What a caller supplies to register a project.
#[derive(Debug, Clone)]
pub struct AddProjectRequest {
    pub name: String,
    pub path: String,
    pub project_type: String,
    pub default_branch: Option<String>,
}

/// Why a project was refused.
#[derive(Clone, Copy, Debug, PartialEq, Eq, Structural)]
pub enum ProjectError {
    /// The project path does not exist.
    PathMissing,
    /// A repository project whose folder holds no Git repository.
    NotARepository,
    /// A workspace project whose path is not a workspace file.
    NotAWorkspaceFile,
}

impl ProjectError {
    /// A human-readable description of the refusal.
    pub fn message(&self) -> (r: &'static str) {
        match self {
            ProjectError::PathMissing => "Project path does not exist",
            ProjectError::NotARepository => "Selected folder is not a Git repository",
            ProjectError::NotAWorkspaceFile => "Selected file is not a valid workspace file",
        }
    }
}

/// True when `s` ends in `suffix`.
pub open spec fn spec_ends_with(s: Seq<u8>, suffix: Seq<u8>) -> bool {
    s.len() >= suffix.len() && s.subrange(s.len() - suffix.len(), s.len() as int) == suffix
}

/// Whether the byte string `s` ends in `suffix`.
pub fn bytes_end_with(s: &[u8], suffix: &[u8]) -> (r: bool)
    ensures
        r == spec_ends_with(s@, suffix@),
{
    let n = s.len();
    let m = suffix.len();
    if n < m {
        return false;
    }
    let mut i: usize = 0;
    while i < m
        invariant
            0 <= i <= m,
            m <= n,
            n == s@.len(),
            m == suffix@.len(),
            forall|k: int| 0 <= k < i ==> s@[n - m + k] == suffix@[k],
        decreases m - i,
    {
        if *slice_index_get(s, n - m + i) != *slice_index_get(suffix, i) {
            proof {
                if spec_ends_with(s@, suffix@) {
                    assert(s@.subrange(n - m, n as int)[i as int] == suffix@[i as int]);
                }
            }
            return false;
        }
        i = i + 1;
    }
    proof {
        assert(s@.subrange(n - m, n as int) =~= suffix@);
    }
    true
}

/// True of a path that counts as a workspace file.
pub open spec fn spec_is_workspace_file(path: Seq<char>) -> bool {
    spec_ends_with(encode_utf8(path), encode_utf8(".code-workspace"@)) || spec_ends_with(
        encode_utf8(path),
        encode_utf8(".json"@),
    )
}

/// True of the ASCII whitespace bytes that trimming removes.
pub open spec fn spec_is_ws(b: u8) -> bool {
    b == 32 || b == 9 || b == 10 || b == 13
}

/// True when `a` and `b` bound the whitespace-trimmed middle of `s`.
pub open spec fn spec_trimmed(s: Seq<u8>, a: int, b: int) -> bool {
    &&& 0 <= a <= b <= s.len()
    &&& forall|k: int| 0 <= k < a ==> spec_is_ws(s[k])
    &&& forall|k: int| b <= k < s.len() ==> spec_is_ws(s[k])
    &&& (a == b || (!spec_is_ws(s[a]) && !spec_is_ws(s[b - 1])))
}

fn is_ws(b: u8) -> (r: bool)
    ensures
        r == spec_is_ws(b),
{
    b == 32 || b == 9 || b == 10 || b == 13
}

/// A copy of `s` with leading and trailing ASCII whitespace removed.
pub fn trim_bytes(s: &[u8]) -> (r: Vec<u8>)
    ensures
        exists|a: int, b: int| spec_trimmed(s@, a, b) && r@ == s@.subrange(a, b),
{
    let n = s.len();
    let mut a: usize = 0;
    while a < n && is_ws(*slice_index_get(s, a))
        invariant
            0 <= a <= n,
            n == s@.len(),
            forall|k: int| 0 <= k < a ==> spec_is_ws(s@[k]),
        decreases n - a,
    {
        a = a + 1;
    }
    let mut b: usize = n;
    while b > a && is_ws(*slice_index_get(s, b - 1))
        invariant
            a <= b <= n,
            n == s@.len(),
            forall|k: int| b <= k < n ==> spec_is_ws(s@[k]),
        decreases b,
    {
        b = b - 1;
    }
    let mut out: Vec<u8> = Vec::new();
    let mut i: usize = a;
    while i < b
        invariant
            a <= i <= b <= s@.len(),
            out@.len() == i - a,
            forall|j: int| 0 <= j < out@.len() ==> out@[j] == s@[a + j],
        decreases b - i,
    {
        out.push(*slice_index_get(s, i));
        i = i + 1;
    }
    proof {
        assert(out@ =~= s@.subrange(a as int, b as int));
        assert(spec_trimmed(s@, a as int, b as int));
    }
    out
}

/// The branch named by the output of a symbolic-ref query for the remote
/// HEAD: the output trimmed of whitespace, with a leading
/// `refs/remotes/origin/` taken off where it is there. `None` when nothing
/// is left, and the caller must fall back to another strategy.
pub fn parse_head_branch(output: &[u8]) -> (r: Option<Vec<u8>>)
    ensures
        exists|a: int, b: int|
            spec_trimmed(output@, a, b) && {
                let t = output@.subrange(a, b);
                let p = encode_utf8("refs/remotes/origin/"@);
                let stripped = if crate::worktree::spec_starts_with(t, p) {
                    t.skip(p.len() as int)
                } else {
                    t
                };
                if stripped.len() > 0 {
                    r matches Some(branch) && branch@ == stripped
                } else {
                    r is None
                }
            },
{
    let trimmed = trim_bytes(output);
    let ghost (ga, gb) = choose|a: int, b: int|
        spec_trimmed(output@, a, b) && trimmed@ == output@.subrange(a, b);
    let prefix = "refs/remotes/origin/".as_bytes();
    let stripped = if crate::worktree::bytes_start_with(trimmed.as_slice(), prefix) {
        crate::worktree::bytes_from(trimmed.as_slice(), prefix.len())
    } else {
        trimmed
    };
    proof {
        assert(spec_trimmed(output@, ga, gb));
    }
    if stripped.len() > 0 {
        Some(stripped)
    } else {
        None
    }
}

/// The default branch, decided from the two queries' outcomes: the branch
/// named by the remote HEAD where that query yielded one, else the current
/// branch (its output trimmed, when the query ran and left something), else
/// `main`.
pub fn select_default_branch(head: Option<Vec<u8>>, current_output: Option<&[u8]>) -> (r: Vec<
    u8,
>)
    ensures
        head matches Some(b) ==> r@ == b@,
        head is None && current_output is None ==> r@ == encode_utf8("main"@),
        head is None && current_output is Some ==> exists|a: int, b: int|
            spec_trimmed(current_output->Some_0@, a, b) && {
                let t = current_output->Some_0@.subrange(a, b);
                if t.len() > 0 {
                    r@ == t
                } else {
                    r@ == encode_utf8("main"@)
                }
            },
{
    match head {
        Some(branch) => branch,
        None => match current_output {
            Some(output) => {
                let trimmed = trim_bytes(output);
                let ghost (ga, gb) = choose|a: int, b: int|
                    spec_trimmed(output@, a, b) && trimmed@ == output@.subrange(a, b);
                proof {
                    assert(spec_trimmed(output@, ga, gb));
                }
                if trimmed.len() > 0 {
                    trimmed
                } else {
                    let fallback = crate::worktree::bytes_from("main".as_bytes(), 0);
                    proof {
                        assert(fallback@ =~= encode_utf8("main"@));
                    }
                    fallback
                }
            },
            None => {
                let fallback = crate::worktree::bytes_from("main".as_bytes(), 0);
                proof {
                    assert(fallback@ =~= encode_utf8("main"@));
                }
                fallback
            },
        },
    }
}

/// Decides whether a project may be registered. The host reports whether the
/// path exists and whether it holds a `.git` entry; the rules are: the path
/// must exist, a repository project must hold a Git repository, and a
/// workspace project must name a workspace file. A project of any other type
/// is accepted on existence alone.
pub fn validate_add_project(request: &AddProjectRequest, path_exists: bool, has_git_dir: bool) -> (r:
    Result<(), ProjectError>)
    ensures
        !path_exists ==> r == Err::<(), ProjectError>(ProjectError::PathMissing),
        path_exists && request.project_type@ == "repository"@ && !has_git_dir ==> r == Err::<
            (),
            ProjectError,
        >(ProjectError::NotARepository),
        path_exists && request.project_type@ == "workspace"@ && !spec_is_workspace_file(
            request.path@,
        ) ==> r == Err::<(), ProjectError>(ProjectError::NotAWorkspaceFile),
        r is Ok <==> path_exists && (request.project_type@ == "repository"@ ==> has_git_dir) && (
        request.project_type@ == "workspace"@ ==> spec_is_workspace_file(request.path@)),
{
    proof {
        reveal_strlit("repository");
        reveal_strlit("workspace");
        assert("repository"@.len() == 10);
        assert("workspace"@.len() == 9);
    }
    if !path_exists {
        return Err(ProjectError::PathMissing);
    }
    if crate::ids::str_eq(request.project_type.as_str(), "repository") {
        if !has_git_dir {
            return Err(ProjectError::NotARepository);
        }
    } else if crate::ids::str_eq(request.project_type.as_str(), "workspace") {
        let path_bytes = request.path.as_str().as_bytes();
        let is_workspace = bytes_end_with(path_bytes, ".code-workspace".as_bytes())
            || bytes_end_with(path_bytes, ".json".as_bytes());
        if !is_workspace {
            return Err(ProjectError::NotAWorkspaceFile);
        }
    }
    Ok(())
}

} // verus!
