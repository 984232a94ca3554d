//! Where the scripts of projects are.

use crate::ports::venv::VENVS_DIR;
use crate::strmap::StrSet;
#[allow(unused_imports)]
use crate::text::Text;
use crate::text::{cat2, cat3};
use vstd::prelude::*;

verus! {

/// A path that does not depend on where the process runs.
pub open spec fn absolute(path: Text) -> bool {
    path.len() > 0 && path[0] == '/'
}

/// A path below another. An absolute one stays as it is.
pub open spec fn below(dir: Text, path: Text) -> Text {
    if absolute(path) || dir.len() == 0 {
        path
    } else if dir.last() == '/' {
        dir + path
    } else {
        dir + "/"@ + path
    }
}

/// Where a script would be in the checkout of its project.
pub open spec fn in_checkout(projects_dir: Text, project_id: Text, script_path: Text) -> Text {
    below(below(projects_dir, project_id), script_path)
}

/// Where a script is: in the checkout where there is such a file, else where the
/// configuration says.
pub open spec fn script_found(projects_dir: Text, project_id: Text, script_path: Text, files: Set<Text>) -> Text {
    if !absolute(script_path) && files.contains(in_checkout(projects_dir, project_id, script_path)) {
        in_checkout(projects_dir, project_id, script_path)
    } else {
        script_path
    }
}

/// Where the programs of a project's virtualenv would be.
pub open spec fn venv_bin(projects_dir: Text, project_id: Text) -> Text {
    below(below(below(projects_dir, ".venvs"@), project_id), "bin"@)
}

/// A configuration that says where the programs of the project's virtualenv are,
/// where there is one.
pub open spec fn with_venv(config: Map<Text, Text>, projects_dir: Text, project_id: Text, dirs: Set<Text>) -> Map<
    Text,
    Text,
> {
    if dirs.contains(venv_bin(projects_dir, project_id)) {
        config.insert("python_venv_bin"@, venv_bin(projects_dir, project_id))
    } else {
        config
    }
}

fn is_absolute(path: &str) -> (yes: bool)
    ensures
        yes == absolute(path@),
{
    path.unicode_len() > 0 && path.get_char(0) == '/'
}

fn join_path(dir: &str, path: &str) -> (joined: String)
    ensures
        joined@ == below(dir@, path@),
{
    let n: usize = dir.unicode_len();
    if is_absolute(path) || n == 0 {
        path.to_owned()
    } else if dir.get_char(n - 1) == '/' {
        cat2(dir, path)
    } else {
        cat3(dir, "/", path)
    }
}

/// Where a script would be in the checkout of its project. A script that is named by
/// an absolute path is in none.
pub fn script_candidate(projects_dir: &str, project_id: &str, script_path: &str) -> (candidate: Option<String>)
    ensures
        match candidate {
            Some(path) => !absolute(script_path@) && path@ == in_checkout(projects_dir@, project_id@, script_path@),
            None => absolute(script_path@),
        },
{
    if is_absolute(script_path) {
        None
    } else {
        Some(join_path(join_path(projects_dir, project_id).as_str(), script_path))
    }
}

/// Where a script is, of all the files there are: in the checkout of its project, else
/// where the configuration says.
pub fn resolve_script_path(projects_dir: &str, project_id: &str, script_path: &str, files: &StrSet) -> (path: String)
    ensures
        path@ == script_found(projects_dir@, project_id@, script_path@, files@),
{
    match script_candidate(projects_dir, project_id, script_path) {
        Some(candidate) => if files.contains(candidate.as_str()) {
            candidate
        } else {
            script_path.to_owned()
        },
        None => script_path.to_owned(),
    }
}

/// Where the programs of a project's virtualenv would be.
pub fn venv_bin_candidate(projects_dir: &str, project_id: &str) -> (candidate: String)
    ensures
        candidate@ == venv_bin(projects_dir@, project_id@),
{
    let venvs = join_path(projects_dir, VENVS_DIR);
    join_path(join_path(venvs.as_str(), project_id).as_str(), "bin")
}

/// Where the programs of a project's virtualenv are, of all the directories there are.
pub fn venv_bin_dir(projects_dir: &str, project_id: &str, dirs: &StrSet) -> (bin: Option<String>)
    ensures
        match bin {
            Some(path) => dirs@.contains(venv_bin(projects_dir@, project_id@)) && path@ == venv_bin(
                projects_dir@,
                project_id@,
            ),
            None => !dirs@.contains(venv_bin(projects_dir@, project_id@)),
        },
{
    let candidate = venv_bin_candidate(projects_dir, project_id);
    if dirs.contains(candidate.as_str()) {
        Some(candidate)
    } else {
        None
    }
}

} // verus!
