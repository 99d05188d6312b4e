//! Decisions around the Git repository of the configuration and the
//! checks run on generated files: which settings to add, which key to push
//! with, and the messages reported when a tool fails.
use vstd::prelude::*;
use crate::text::{chars_of, concat, seq_eq, string_of, trim, trim_exec};

verus! {

/// The configuration directory is not yet among the `safe.directory`
/// entries of a Git configuration, and must be added.
pub fn needs_safe_directory(entries: &Vec<String>, path: &str) -> (b: bool)
    ensures
        b == !(exists|i: int| 0 <= i < entries@.len() && (#[trigger] entries@[i])@ == path@),
{
    let p = chars_of(path);
    let mut i: usize = 0;
    while i < entries.len()
        invariant
            i <= entries@.len(),
            p@ == path@,
            forall|j: int| 0 <= j < i ==> (#[trigger] entries@[j])@ != path@,
        decreases entries.len() - i,
    {
        if seq_eq(chars_of(entries[i].as_str()).as_slice(), p.as_slice()) {
            return false;
        }
        i = i + 1;
    }
    true
}

/// A repository on the legacy `master` branch is moved to `main`, unless
/// a `main` branch exists already.
pub fn rename_master_to_main(master_exists: bool, main_exists: bool) -> (b: bool)
    ensures
        b == (master_exists && !main_exists),
{
    master_exists && !main_exists
}

/// The private keys of the user that Rix runs for under `sudo`, in the
/// order in which they are tried.
pub fn ssh_key_candidates(sudo_user: &str) -> (r: (String, String))
    ensures
        r.0@ == "/home/"@ + sudo_user@ + "/.ssh/id_ed25519"@,
        r.1@ == "/home/"@ + sudo_user@ + "/.ssh/id_rsa"@,
{
    let u = chars_of(sudo_user);
    (
        string_of(&concat(&concat(&chars_of("/home/"), &u), &chars_of("/.ssh/id_ed25519"))),
        string_of(&concat(&concat(&chars_of("/home/"), &u), &chars_of("/.ssh/id_rsa"))),
    )
}

/// The `GIT_SSH_COMMAND` that pushes with a given key and accepts hosts
/// seen for the first time.
pub fn git_ssh_command(key_path: &str) -> (r: String)
    ensures
        r@ == "ssh -i "@ + key_path@ + " -o IdentitiesOnly=yes -o StrictHostKeyChecking=accept-new"@,
{
    string_of(
        &concat(
            &concat(&chars_of("ssh -i "), &chars_of(key_path)),
            &chars_of(" -o IdentitiesOnly=yes -o StrictHostKeyChecking=accept-new"),
        ),
    )
}

/// The message reported when a push to the remote fails.
pub fn sync_failure_message(stderr: &str) -> (r: String)
    ensures
        r@ == "Failed to sync with the remote repository. Ensure you have permissions and the remote is reachable.\nGit output: "@
            + trim(stderr@),
{
    string_of(
        &concat(
            &chars_of(
                "Failed to sync with the remote repository. Ensure you have permissions and the remote is reachable.\nGit output: ",
            ),
            &trim_exec(&chars_of(stderr)),
        ),
    )
}

/// The message reported when `nix-instantiate --parse` rejects a file.
pub fn syntax_failure_message(stderr: &str) -> (r: String)
    ensures
        r@ == "Generated file failed syntax validation: "@ + trim(stderr@),
{
    string_of(
        &concat(
            &chars_of("Generated file failed syntax validation: "),
            &trim_exec(&chars_of(stderr)),
        ),
    )
}

/// The message reported when `nix flake metadata` rejects a flake.
pub fn flake_failure_message(uri: &str, stderr: &str) -> (r: String)
    ensures
        r@ == "Flake validation failed. The target '"@ + uri@
            + "' may not be a valid Nix flake.\n"@ + stderr@,
{
    string_of(
        &concat(
            &concat(
                &concat(&chars_of("Flake validation failed. The target '"), &chars_of(uri)),
                &chars_of("' may not be a valid Nix flake.\n"),
            ),
            &chars_of(stderr),
        ),
    )
}

} // verus!
