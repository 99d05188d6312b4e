//! Where the configuration lives and which scope it defaults to.
//!
//! The application reads the environment variables and `rix.toml`; these
//! functions decide from what it read.
use vstd::prelude::*;
use crate::context::{join_path, join_path_exec};
use crate::text::{
    chars_of, concat, contains, contains_exec, find, lead_from, lemma_find_from_match,
    lemma_match_found, lines, lines_exec, lines_scan, match_at, seq_eq, starts_with,
    starts_with_exec, string_of, tail_from, trim, trim_exec, views,
};

verus! {

/// The home directory of the real user: `/home/<SUDO_USER>` under `sudo`,
/// else `HOME`, else `/root`.
pub open spec fn home_dir_spec(sudo_user: Option<Seq<char>>, home: Option<Seq<char>>) -> Seq<char> {
    match sudo_user {
        Some(u) => "/home/"@ + u,
        None => match home {
            Some(h) => h,
            None => "/root"@,
        },
    }
}

/// The home directory of the real user.
pub fn home_dir(sudo_user: &Option<String>, home: &Option<String>) -> (r: String)
    ensures
        r@ == home_dir_spec(
            match sudo_user {
                Some(u) => Some(u@),
                None => None,
            },
            match home {
                Some(h) => Some(h@),
                None => None,
            },
        ),
{
    match sudo_user {
        Some(u) => string_of(&concat(&chars_of("/home/"), &chars_of(u.as_str()))),
        None => match home {
            Some(h) => h.clone(),
            None => String::from_str("/root"),
        },
    }
}

/// The user configuration directory under a home directory.
pub open spec fn user_config_dir_spec(home: Seq<char>) -> Seq<char> {
    join_path(join_path(home, ".config"@), "rix"@)
}

/// The user configuration directory (`<home>/.config/rix`).
pub fn user_config_dir(home: &str) -> (r: String)
    ensures
        r@ == user_config_dir_spec(home@),
{
    let c = join_path_exec(home, ".config");
    join_path_exec(c.as_str(), "rix")
}

/// A line of `rix.toml` that selects the system scope.
pub open spec fn selects_system(line: Seq<char>) -> bool {
    starts_with(trim(line), "default_scope"@) && contains(trim(line), "\"system\""@)
}

/// `rix.toml` selects the system scope: one of its lines starts with
/// `default_scope` and holds `"system"`.
pub open spec fn toml_selects_system_spec(content: Seq<char>) -> bool {
    exists|i: int| 0 <= i < lines(content).len() && selects_system(#[trigger] lines(content)[i])
}

/// Whether `rix.toml` selects the system scope.
pub fn toml_selects_system(content: &str) -> (b: bool)
    ensures
        b == toml_selects_system_spec(content@),
{
    let ls = lines_exec(&chars_of(content));
    let ghost lv = views(ls@);
    let mut i: usize = 0;
    while i < ls.len()
        invariant
            i <= ls@.len(),
            lv == views(ls@),
            lv == lines(content@),
            forall|j: int| 0 <= j < i ==> !selects_system(#[trigger] lv[j]),
        decreases ls.len() - i,
    {
        assert(lv[i as int] == ls@[i as int]@);
        let t = trim_exec(&ls[i]);
        if starts_with_exec(&t, &chars_of("default_scope")) && contains_exec(
            &t,
            &chars_of("\"system\""),
        ) {
            assert(selects_system(lv[i as int]));
            return true;
        }
        i = i + 1;
    }
    false
}

/// The configuration directory: `RIX_CONFIG_DIR` when it is set; else
/// `/etc/rix` when the default scope is the system's, and the user
/// configuration directory otherwise. The default scope comes from
/// `rix.toml` when it can be read, else from the privileges Rix runs with
/// (`USER` is root or `SUDO_USER` is set).
pub open spec fn config_dir_spec(
    custom: Option<Seq<char>>,
    sudo_user: Option<Seq<char>>,
    home: Option<Seq<char>>,
    toml: Option<Seq<char>>,
    user: Option<Seq<char>>,
) -> Seq<char> {
    match custom {
        Some(c) => c,
        None => {
            let system = match toml {
                Some(t) => toml_selects_system_spec(t),
                None => user == Some("root"@) || sudo_user is Some,
            };
            if system {
                "/etc/rix"@
            } else {
                user_config_dir_spec(home_dir_spec(sudo_user, home))
            }
        },
    }
}

/// Views of optional texts.
pub open spec fn opt_text(o: Option<String>) -> Option<Seq<char>> {
    match o {
        Some(s) => Some(s@),
        None => None,
    }
}

/// The configuration directory, from the environment (`RIX_CONFIG_DIR`,
/// `SUDO_USER`, `HOME`, `USER`) and the text of `rix.toml` (`None` when it
/// cannot be read).
pub fn get_config_dir(
    custom: &Option<String>,
    sudo_user: &Option<String>,
    home: &Option<String>,
    toml: &Option<String>,
    user: &Option<String>,
) -> (r: String)
    ensures
        r@ == config_dir_spec(
            opt_text(*custom),
            opt_text(*sudo_user),
            opt_text(*home),
            opt_text(*toml),
            opt_text(*user),
        ),
{
    match custom {
        Some(c) => {
            return c.clone();
        },
        None => {},
    }
    let system = match toml {
        Some(t) => toml_selects_system(t.as_str()),
        None => {
            let is_root = match user {
                Some(u) => seq_eq(chars_of(u.as_str()).as_slice(), chars_of("root").as_slice()),
                None => false,
            };
            proof {
                if opt_text(*user) == Some("root"@) {
                    assert(is_root);
                }
            }
            is_root || sudo_user.is_some()
        },
    };
    if system {
        String::from_str("/etc/rix")
    } else {
        let h = home_dir(sudo_user, home);
        user_config_dir(h.as_str())
    }
}

/// The scope chosen at `rix init`: the answer `2` chooses the system scope,
/// anything else the user scope.
pub fn scope_choice_is_system(input: &str) -> (b: bool)
    ensures
        b == (trim(input@) == "2"@),
{
    seq_eq(trim_exec(&chars_of(input)).as_slice(), chars_of("2").as_slice())
}

/// The text of `rix.toml` for a default scope.
pub open spec fn scope_toml_spec(system: bool) -> Seq<char> {
    "[core]\ndefault_scope = \""@ + (if system {
        "system"@
    } else {
        "user"@
    }) + "\"\n"@
}

/// The text of `rix.toml` that records the default scope.
pub fn scope_toml(system: bool) -> (r: String)
    ensures
        r@ == scope_toml_spec(system),
{
    let scope = if system {
        chars_of("system")
    } else {
        chars_of("user")
    };
    string_of(&concat(&concat(&chars_of("[core]\ndefault_scope = \""), &scope), &chars_of("\"\n")))
}

/// After an interactive `rix init`, the configuration asks for the system
/// scope (and the initialisation goes on with raised privileges).
pub fn init_wants_system(content: &str) -> (b: bool)
    ensures
        b == (contains(content@, "scope = 'system'"@) || contains(
            content@,
            "scope = \"system\""@,
        )),
{
    let c = chars_of(content);
    contains_exec(&c, &chars_of("scope = 'system'")) || contains_exec(
        &c,
        &chars_of("scope = \"system\""),
    )
}

/// The default scope that `rix init` records in `rix.toml` is the one that
/// the configuration directory is then chosen by: the recorded text selects
/// the system scope exactly when the system scope was chosen.
pub proof fn law_scope_read_back(system: bool)
    ensures
        toml_selects_system_spec(scope_toml_spec(system)) == system,
{
    reveal_strlit("[core]\ndefault_scope = \"");
    reveal_strlit("system");
    reveal_strlit("user");
    reveal_strlit("\"\n");
    reveal_strlit("default_scope");
    reveal_strlit("\"system\"");
    let c = scope_toml_spec(system);
    reveal_with_fuel(lines_scan, 40);
    let ls = lines(c);
    let first = "[core]"@;
    reveal_strlit("[core]");
    assert(ls.len() == 2);
    assert(ls[0] =~= first);
    assert(!selects_system(ls[0])) by {
        assert(lead_from(ls[0], 0) == 0);
        assert(tail_from(ls[0], 6) == 6);
        assert(trim(ls[0]) =~= ls[0]);
    }
    let l = ls[1];
    let n = l.len() as int;
    assert(lead_from(l, 0) == 0);
    assert(tail_from(l, n) == n);
    assert(trim(l) =~= l);
    assert(l.take(13) =~= "default_scope"@);
    let p = "\"system\""@;
    if system {
        assert(l.subrange(16, 24) =~= p);
        assert(match_at(l, p, 16));
        lemma_match_found(l, p, 0, 16);
        assert(selects_system(ls[1]));
        assert(toml_selects_system_spec(c));
    } else {
        assert(forall|i: int| 0 <= i < l.len() ==> l[i] != 'y');
        lemma_find_from_match(l, p, 0);
        if contains(l, p) {
            let k = find(l, p)->0;
            assert(l.subrange(k, k + 8) == p);
            assert(l[k + 2] == p[2]);
        }
        assert(!selects_system(ls[1]));
        assert(forall|i: int| 0 <= i < ls.len() ==> !selects_system(#[trigger] ls[i]));
    }
}

/// After an interactive `rix init`, the scope recorded in `rix.toml` is
/// read back by the check that decides whether to go on with raised
/// privileges: it asks for them exactly when the system scope was chosen.
pub proof fn law_init_scope_read_back(system: bool)
    ensures
        (contains(scope_toml_spec(system), "scope = 'system'"@) || contains(
            scope_toml_spec(system),
            "scope = \"system\""@,
        )) == system,
{
    reveal_strlit("[core]\ndefault_scope = \"");
    reveal_strlit("system");
    reveal_strlit("user");
    reveal_strlit("\"\n");
    reveal_strlit("scope = 'system'");
    reveal_strlit("scope = \"system\"");
    let c = scope_toml_spec(system);
    let p1 = "scope = 'system'"@;
    let p2 = "scope = \"system\""@;
    if system {
        assert(c.subrange(15, 31) =~= p2);
        assert(match_at(c, p2, 15));
        lemma_match_found(c, p2, 0, 15);
    } else {
        assert(forall|i: int| 0 <= i < c.len() ==> c[i] != 'y');
        lemma_find_from_match(c, p1, 0);
        lemma_find_from_match(c, p2, 0);
        if contains(c, p1) {
            let k = find(c, p1)->0;
            assert(c.subrange(k, k + 16) == p1);
            assert(c[k + 10] == p1[10]);
        }
        if contains(c, p2) {
            let k = find(c, p2)->0;
            assert(c.subrange(k, k + 16) == p2);
            assert(c[k + 10] == p2[10]);
        }
    }
}

} // verus!
