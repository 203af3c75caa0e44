//! Path conventions of the monitored tree, and resolution of a changed path
//! to the logical entity (the project) that owns it.
//!
//! Paths are handled as strings with `/` separators. One entity lives in each
//! top-level subdirectory of the projects directory; a path directly at the
//! directory's root belongs to no entity.

use vstd::prelude::*;
use crate::text::str_matches_prefix;

verus! {

/// Index of the first `/` in `s`, or `s.len()` when there is none.
pub open spec fn first_slash(s: Seq<char>) -> int
    decreases s.len(),
{
    if s.len() == 0 {
        0
    } else if s[0] == '/' {
        0
    } else {
        1 + first_slash(s.drop_first())
    }
}

/// `first_slash` finds exactly the first slash: if nothing before `i` is a
/// slash and `i` is either a slash or the end, then `first_slash` is `i`.
proof fn lemma_first_slash_at(s: Seq<char>, i: int)
    requires
        0 <= i <= s.len(),
        forall|j: int| 0 <= j < i ==> s[j] != '/',
        i < s.len() ==> s[i] == '/',
    ensures
        first_slash(s) == i,
    decreases s.len(),
{
    if s.len() != 0 && s[0] != '/' {
        lemma_first_slash_at(s.drop_first(), i - 1);
    }
}

/// The entity that owns `path` under the root `root`: the first path
/// component below `root`, provided the path lies strictly below a
/// subdirectory of `root`. A path directly in `root` (no subdirectory), a
/// path outside `root`, and `root` itself resolve to nothing.
pub open spec fn spec_entity_of(path: Seq<char>, root: Seq<char>) -> Option<Seq<char>> {
    if path.len() > root.len() && path.subrange(0, root.len() as int) == root && path[root.len()
        as int] == '/' {
        let rel = path.subrange(root.len() + 1 as int, path.len() as int);
        let k = first_slash(rel);
        if 0 < k < rel.len() {
            Some(rel.subrange(0, k))
        } else {
            None
        }
    } else {
        None
    }
}

/// Resolve a changed path against the watched projects directory: the first
/// path component under the root names the project, and only paths inside a
/// project subdirectory resolve.
pub fn extract_project_id(path: &str, projects_path: &str) -> (r: Option<String>)
    ensures
        r.deep_view() == spec_entity_of(path@, projects_path@),
{
    let n = path.unicode_len();
    let m = projects_path.unicode_len();
    if n <= m {
        return None;
    }
    if !str_matches_prefix(path, projects_path) {
        return None;
    }
    if path.get_char(m) != '/' {
        return None;
    }
    let ghost rel = path@.subrange(m + 1, n as int);
    // scan for the slash that closes the first component
    let mut i: usize = m + 1;
    while i < n
        invariant
            m + 1 <= i <= n,
            n == path@.len(),
            m == projects_path@.len(),
            path@.subrange(0, m as int) == projects_path@,
            path@[m as int] == '/',
            rel == path@.subrange(m + 1, n as int),
            forall|j: int| m + 1 <= j < i ==> path@[j] != '/',
        decreases n - i,
    {
        if path.get_char(i) == '/' {
            proof {
                assert(forall|j: int| 0 <= j < i - (m + 1) ==> rel[j] == path@[m + 1 + j]);
                assert(rel[i - (m + 1)] == path@[i as int]);
                lemma_first_slash_at(rel, i - (m + 1));
            }
            if i == m + 1 {
                return None;
            }
            let id = path.substring_char(m + 1, i).to_owned();
            proof {
                assert(id@ =~= rel.subrange(0, i - (m + 1)));
            }
            return Some(id);
        }
        i += 1;
    }
    proof {
        assert(forall|j: int| 0 <= j < rel.len() ==> rel[j] == path@[m + 1 + j]);
        lemma_first_slash_at(rel, rel.len() as int);
    }
    None
}

/// The configuration directory under a chosen base directory.
pub fn orchay_root_path(base: &str) -> (r: String)
    ensures
        r@ == base@ + "/.orchay"@,
{
    String::from_str(base).concat("/.orchay")
}

/// The directory holding one subdirectory per project; this is the tree a
/// watch session observes.
pub fn projects_dir_path(base: &str) -> (r: String)
    ensures
        r@ == base@ + "/.orchay/projects"@,
{
    String::from_str(base).concat("/.orchay/projects")
}

/// The directory holding the settings files.
pub fn settings_dir_path(base: &str) -> (r: String)
    ensures
        r@ == base@ + "/.orchay/settings"@,
{
    String::from_str(base).concat("/.orchay/settings")
}

/// The directory holding the templates.
pub fn templates_dir_path(base: &str) -> (r: String)
    ensures
        r@ == base@ + "/.orchay/templates"@,
{
    String::from_str(base).concat("/.orchay/templates")
}

/// The work-breakdown file of one project.
pub fn wbs_path_for(base: &str, project_id: &str) -> (r: String)
    ensures
        r@ == base@ + "/.orchay/projects/"@ + project_id@ + "/wbs.yaml"@,
{
    String::from_str(base).concat("/.orchay/projects/").concat(project_id).concat("/wbs.yaml")
}

/// The folder holding one task's documents inside a project.
pub fn task_dir_path(base: &str, project_id: &str, task_id: &str) -> (r: String)
    ensures
        r@ == base@ + "/.orchay/projects/"@ + project_id@ + "/tasks/"@ + task_id@,
{
    String::from_str(base).concat("/.orchay/projects/").concat(project_id).concat(
        "/tasks/",
    ).concat(task_id)
}

/// The settings file of one settings kind.
pub fn settings_file_path(base: &str, setting_type: &str) -> (r: String)
    ensures
        r@ == base@ + "/.orchay/settings/"@ + setting_type@ + ".json"@,
{
    String::from_str(base).concat("/.orchay/settings/").concat(setting_type).concat(".json")
}

/// The path of a task document as reported to consumers, relative to the
/// project directory.
pub fn task_document_rel_path(task_id: &str, name: &str) -> (r: String)
    ensures
        r@ == "tasks/"@ + task_id@ + "/"@ + name@,
{
    String::from_str("tasks/").concat(task_id).concat("/").concat(name)
}

} // verus!
