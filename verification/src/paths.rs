//! Workspace paths, held as text with `/` as the separator.
use vstd::prelude::*;
use crate::model::{DEFAULT_WORKFLOW_CONFIG_RELATIVE_PATH, DEFAULT_WORKFLOW_STATE_RELATIVE_PATH};
use crate::text::{chars_of, owned};

verus! {

/// Whether `p` is absolute: it starts at the root.
pub open spec fn is_absolute_path(p: Seq<char>) -> bool {
    p.len() > 0 && p[0] == '/'
}

/// `rel` adjoined to `base`: an absolute `rel` replaces `base`; otherwise a
/// separator goes between them unless `base` is empty or already ends with one.
pub open spec fn path_joined(base: Seq<char>, rel: Seq<char>) -> Seq<char> {
    if is_absolute_path(rel) {
        rel
    } else if base.len() == 0 || base.last() == '/' {
        base + rel
    } else {
        base + seq!['/'] + rel
    }
}

/// Whether `p` has a `..` component, one that climbs to a parent directory.
pub open spec fn has_parent_component(p: Seq<char>) -> bool {
    exists|i: int| #[trigger] is_parent_component_at(p, i)
}

/// Whether a `..` component starts at index `i` of `p`.
pub open spec fn is_parent_component_at(p: Seq<char>, i: int) -> bool {
    &&& 0 <= i
    &&& i + 2 <= p.len()
    &&& p[i] == '.'
    &&& p[i + 1] == '.'
    &&& (i == 0 || p[i - 1] == '/')
    &&& (i + 2 == p.len() || p[i + 2] == '/')
}

/// Whether `p` is absolute.
pub fn path_is_absolute(p: &str) -> (b: bool)
    ensures
        b == is_absolute_path(p@),
{
    let cs = chars_of(p);
    cs.len() > 0 && cs[0] == '/'
}

/// Whether `p` has a `..` component.
pub fn path_has_parent_component(p: &str) -> (b: bool)
    ensures
        b == has_parent_component(p@),
{
    let cs = chars_of(p);
    let n = cs.len();
    let mut i: usize = 0;
    while i < n && n - i >= 2
        invariant
            i <= n,
            cs@ == p@,
            n == cs@.len(),
            forall|k: int| 0 <= k < i ==> !is_parent_component_at(p@, k),
        decreases n - i,
    {
        if cs[i] == '.' && cs[i + 1] == '.' && (i == 0 || cs[i - 1] == '/') && (i + 2 == n || cs[i
            + 2] == '/') {
            assert(is_parent_component_at(p@, i as int));
            return true;
        }
        i = i + 1;
    }
    assert forall|k: int| !is_parent_component_at(p@, k) by {
        if 0 <= k && k + 2 <= n {
            assert(k < i);
        }
    }
    false
}

/// `rel` adjoined to `base`.
pub fn join_path(base: &str, rel: &str) -> (r: String)
    ensures
        r@ == path_joined(base@, rel@),
{
    if path_is_absolute(rel) {
        return owned(rel);
    }
    let cs = chars_of(base);
    let mut out = owned(base);
    if cs.len() > 0 && cs[cs.len() - 1] != '/' {
        out.append("/");
        proof {
            reveal_strlit("/");
        }
        assert(out@ =~= base@ + seq!['/']);
    }
    out.append(rel);
    out
}

/// What `Path::strip_prefix` leaves of `path` once the components of `cwd`
/// are taken off its front, as displayed; `path` itself when `cwd` is not a
/// prefix of it.
pub uninterp spec fn shown_relative_to(cwd: Seq<char>, path: Seq<char>) -> Seq<char>;

/// `path` as shown to a user working in `cwd`.
///
/// Trusted: calls `Path::strip_prefix` and displays the rest, or `path`
/// unchanged when it does not start with `cwd`. The contract claims only
/// that the text depends on the two paths alone; it does not state how
/// components are compared and normalized.
#[verifier::external_body]
pub(crate) fn display_path(cwd: &str, path: &str) -> (r: String)
    ensures
        r@ == shown_relative_to(cwd@, path@),
{
    let full = std::path::Path::new(path);
    full.strip_prefix(cwd).unwrap_or(full).display().to_string()
}

/// Where a workspace keeps its workflow configuration and state.
#[derive(Debug, Clone, PartialEq, Eq)]
pub struct WorkflowPaths {
    pub config_path: String,
    pub state_path: String,
}

impl WorkflowPaths {
    /// The workflow files of the workspace at `cwd`.
    pub fn for_workspace(cwd: &str) -> (r: Self)
        ensures
            r.config_path@ == path_joined(cwd@, DEFAULT_WORKFLOW_CONFIG_RELATIVE_PATH@),
            r.state_path@ == path_joined(cwd@, DEFAULT_WORKFLOW_STATE_RELATIVE_PATH@),
    {
        WorkflowPaths {
            config_path: join_path(cwd, DEFAULT_WORKFLOW_CONFIG_RELATIVE_PATH),
            state_path: join_path(cwd, DEFAULT_WORKFLOW_STATE_RELATIVE_PATH),
        }
    }
}

} // verus!
