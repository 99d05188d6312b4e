//! Classification of installation targets.
use vstd::prelude::*;
use crate::errors::RixError;
use crate::text::{chars_of, contains, contains_exec, starts_with, starts_with_exec};

verus! {

/// Where the recipe of an installation target comes from.
#[derive(Debug, Clone, PartialEq, Eq)]
pub enum RecipeSource {
    /// Normal nixpkgs stable/unstable
    StandardChannel,
    /// A directory on this machine, e.g. `./projects/my-app`
    LocalDirectory(String),
    /// A Git remote, e.g. `github:owner/repo` or a standard git link
    RemoteGit(String),
}

/// The target names a directory on this machine.
pub open spec fn is_local_target(t: Seq<char>) -> bool {
    starts_with(t, "./"@) || starts_with(t, "/"@) || starts_with(t, "../"@)
}

/// The target names a Git remote.
pub open spec fn is_remote_target(t: Seq<char>) -> bool {
    contains(t, "://"@) || starts_with(t, "github:"@) || starts_with(t, "git@"@)
}

/// Sniffs an incoming installation target string to determine how rix should process it.
pub fn determine_recipe_source(target: &str) -> (r: RecipeSource)
    ensures
        is_local_target(target@) ==> (r matches RecipeSource::LocalDirectory(s) && s@ == target@),
        !is_local_target(target@) && is_remote_target(target@) ==> (r matches RecipeSource::RemoteGit(
            s,
        ) && s@ == target@),
        !is_local_target(target@) && !is_remote_target(target@) ==> r
            is StandardChannel,
{
    let t = chars_of(target);
    if starts_with_exec(&t, &chars_of("./")) || starts_with_exec(&t, &chars_of("/"))
        || starts_with_exec(&t, &chars_of("../")) {
        RecipeSource::LocalDirectory(String::from_str(target))
    } else if contains_exec(&t, &chars_of("://")) || starts_with_exec(&t, &chars_of("github:"))
        || starts_with_exec(&t, &chars_of("git@")) {
        RecipeSource::RemoteGit(String::from_str(target))
    } else {
        RecipeSource::StandardChannel
    }
}

/// Builds a custom flake for a recipe source. The builder is not written yet:
/// every source yields the same placeholder package name.
pub fn compile_custom_flake(_source: RecipeSource, _local_groups_dir: &str) -> (r: Result<
    String,
    RixError,
>)
    ensures
        r matches Ok(name) && name@ == "placeholder_package_name"@,
{
    Ok(String::from_str("placeholder_package_name"))
}

} // verus!
