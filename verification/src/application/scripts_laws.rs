//! What holds of where scripts and virtualenvs are.

#[allow(unused_imports)]
use crate::application::scripts::{below, in_checkout, script_found, venv_bin, with_venv};
#[allow(unused_imports)]
use crate::text::Text;
use vstd::prelude::*;

verus! {

/// A relative path below a directory is the directory, one slash, and the path; an
/// absolute one stays as it is.
pub proof fn law_a_path_is_below_its_directory(dir: Text, path: Text)
    ensures
        path.len() > 0 && path[0] == '/' ==> below(dir, path) == path,
        dir.len() == 0 ==> below(dir, path) == path,
        !(path.len() > 0 && path[0] == '/') && dir.len() > 0 && dir.last() != '/' ==> below(dir, path) == dir.push('/')
            + path,
        !(path.len() > 0 && path[0] == '/') && dir.len() > 0 && dir.last() == '/' ==> below(dir, path) == dir + path,
{
    reveal_strlit("/");
    assert("/"@ =~= seq!['/']);
    assert(dir + "/"@ + path =~= dir.push('/') + path);
}

/// A script is run from the checkout of its project where it is there, and else from
/// where the configuration says. A script with an absolute path is where that says.
pub proof fn law_a_script_in_the_checkout_comes_first(
    projects_dir: Text,
    project: Text,
    script: Text,
    files: Set<Text>,
)
    ensures
        ({
            let checked_out = below(below(projects_dir, project), script);
            let found = script_found(projects_dir, project, script, files);
            &&& script.len() > 0 && script[0] == '/' ==> found == script
            &&& !files.contains(checked_out) ==> found == script
            &&& !(script.len() > 0 && script[0] == '/') && files.contains(checked_out) ==> found == checked_out
            &&& found != script ==> files.contains(found)
            &&& in_checkout(projects_dir, project, script) == checked_out
        }),
{
}

/// The virtualenv of a project is in a directory of its own beside the checkouts. A script
/// is told of it where it is there, and its other settings stay.
pub proof fn law_a_script_is_told_of_a_virtualenv_that_is_there(
    config: Map<Text, Text>,
    projects_dir: Text,
    project: Text,
    dirs: Set<Text>,
)
    ensures
        ({
            let bin = below(below(below(projects_dir, ".venvs"@), project), "bin"@);
            &&& venv_bin(projects_dir, project) == bin
            &&& dirs.contains(bin) ==> with_venv(config, projects_dir, project, dirs) == config.insert(
                "python_venv_bin"@,
                bin,
            )
            &&& !dirs.contains(bin) ==> with_venv(config, projects_dir, project, dirs) == config
        }),
{
}

} // verus!
