//! Decisions of the command handlers: how installables, package names,
//! search results, history lines and user choices are read and shown.
use vstd::prelude::*;
use crate::context::Package;
use crate::flake::{alias_spec, infer_flake_alias, normalize_flake_uri, normalize_spec};
use crate::numbers::{parse_uint, parse_uint_exec};
use crate::search::{byte_len, third_segment, third_segment_exec};
use crate::text::{
    chars_of, concat, contains, contains_exec, find, find_exec, lines, lines_exec, seq_eq, slice,
    starts_with, starts_with_exec, string_of, trim, trim_exec, views,
};

verus! {

// ---------------------------------------------------------------------------
// Package names in tables
// ---------------------------------------------------------------------------

/// What the `regex` crate finds for a pattern in a text: `None` when the
/// pattern does not compile or the text holds no match; otherwise the text
/// of each capture group of the leftmost-first match, group 0 being the
/// whole match and `None` standing for a group that took no part.
pub uninterp spec fn regex_groups(pattern: Seq<char>, haystack: Seq<char>) -> Option<
    Seq<Option<Seq<char>>>,
>;

/// Views of capture groups.
pub open spec fn groups_view(g: Option<Vec<Option<String>>>) -> Option<Seq<Option<Seq<char>>>> {
    match g {
        Some(v) => Some(
            v@.map_values(
                |m: Option<String>|
                    match m {
                        Some(s) => Some(s@),
                        None => None,
                    },
            ),
        ),
        None => None,
    }
}

/// `Regex::new(pattern)` and `Regex::captures(haystack)` of the `regex`
/// crate, with the text of each group.
///
/// Trusted: the result is `regex_groups` of the pattern and the text; a
/// match always has its group 0 (the crate documents that the groups of a
/// match start with the whole match).
#[verifier::external_body]
fn regex_captures(pattern: &str, haystack: &str) -> (r: Option<Vec<Option<String>>>)
    ensures
        groups_view(r) == regex_groups(pattern@, haystack@),
        r matches Some(g) ==> g@.len() >= 1 && g@[0] is Some,
{
    let re = regex::Regex::new(pattern).ok()?;
    let caps = re.captures(haystack)?;
    Some(caps.iter().map(|m| m.map(|m| m.as_str().to_string())).collect())
}

/// The pattern of an external flake entry; group 1 is the flake alias.
pub open spec fn ext_pattern() -> Seq<char> {
    "__ext_flake or \\(([^.]+)\\.packages"@
}

/// The pattern of a platform conditional entry; group 1 is the Linux
/// package, group 2 the other branch (`null` or `pkgs.<name>`), group 3 the
/// name in that branch.
pub open spec fn cond_pattern() -> Seq<char> {
    "if\\s+pkgs\\.stdenv\\.isLinux\\s+then\\s+pkgs\\.([^\\s]+)\\s+else\\s+(pkgs\\.([^\\s]+)|null)"@
}

/// A parenthesis.
pub open spec fn is_paren(c: char) -> bool {
    c == '(' || c == ')'
}

/// Index of the first character at or after `i` that is not a parenthesis.
pub open spec fn paren_lead(s: Seq<char>, i: int) -> int
    decreases s.len() - i,
{
    if 0 <= i < s.len() && is_paren(s[i]) {
        paren_lead(s, i + 1)
    } else {
        i
    }
}

/// End of `s.take(j)` once trailing parentheses are removed.
pub open spec fn paren_tail(s: Seq<char>, j: int) -> int
    decreases j,
{
    if 0 < j <= s.len() && is_paren(s[j - 1]) {
        paren_tail(s, j - 1)
    } else {
        j
    }
}

/// The text without surrounding parentheses (`str::trim_matches` with
/// `(` and `)`).
pub open spec fn trim_parens(s: Seq<char>) -> Seq<char> {
    let a = paren_lead(s, 0);
    let e = paren_tail(s, s.len() as int);
    if a < e {
        s.subrange(a, e)
    } else {
        Seq::empty()
    }
}

fn trim_parens_exec(s: &Vec<char>) -> (r: Vec<char>)
    ensures
        r@ == trim_parens(s@),
{
    let mut a: usize = 0;
    while a < s.len() && (s[a] == '(' || s[a] == ')')
        invariant
            a <= s@.len(),
            paren_lead(s@, 0) == paren_lead(s@, a as int),
        decreases s.len() - a,
    {
        a = a + 1;
    }
    let mut e: usize = s.len();
    while e > 0 && (s[e - 1] == '(' || s[e - 1] == ')')
        invariant
            e <= s@.len(),
            paren_tail(s@, s@.len() as int) == paren_tail(s@, e as int),
        decreases e,
    {
        e = e - 1;
    }
    if a < e {
        slice(s, a, e)
    } else {
        Vec::new()
    }
}

/// The name under which a group file entry is shown in tables.
pub open spec fn display_name_spec(
    raw: Seq<char>,
    ext: Option<Seq<Option<Seq<char>>>>,
    cond: Option<Seq<Option<Seq<char>>>>,
) -> Seq<char> {
    let clean = trim_parens(raw);
    if ext is Some {
        ext->0[1]->0
    } else if cond is Some && cond->0[2]->0 == "null"@ {
        cond->0[1]->0 + " (Linux only)"@
    } else if cond is Some && cond->0[3] is Some {
        cond->0[1]->0 + " (Linux) / "@ + cond->0[3]->0 + " (macOS)"@
    } else if starts_with(clean, "pkgs."@) {
        clean.skip(5)
    } else if byte_len(clean) > 40 {
        clean.take(if clean.len() < 35 {
            clean.len() as int
        } else {
            35
        }) + "..."@
    } else {
        clean
    }
}

/// The capture groups have the shape that the name formatting reads: the
/// alias group of an external flake match, and the Linux and other branch
/// groups of a conditional match (looked at only when the first pattern
/// found nothing).
pub open spec fn groups_usable(
    ext: Option<Seq<Option<Seq<char>>>>,
    cond: Option<Seq<Option<Seq<char>>>>,
) -> bool {
    &&& ext matches Some(g) ==> g.len() >= 2 && g[1] is Some
    &&& ext is None ==> (cond matches Some(g) ==> g.len() >= 4 && g[1] is Some && g[2] is Some)
}

fn group_text(g: &Vec<Option<String>>, i: usize) -> (r: Vec<char>)
    requires
        i < g@.len(),
        g@[i as int] is Some,
    ensures
        g@[i as int] matches Some(s) && r@ == s@,
{
    match &g[i] {
        Some(s) => chars_of(s.as_str()),
        None => Vec::new(),
    }
}

/// Formats a group file entry for tables from the matches of the two
/// patterns: the alias of an external flake, the branches of a platform
/// conditional, the name without `pkgs.`, or the entry cut to 35
/// characters when it is longer than 40 bytes.
pub fn format_from_matches(
    raw_name: &str,
    ext: &Option<Vec<Option<String>>>,
    cond: &Option<Vec<Option<String>>>,
) -> (r: String)
    requires
        groups_usable(groups_view(*ext), groups_view(*cond)),
    ensures
        r@ == display_name_spec(raw_name@, groups_view(*ext), groups_view(*cond)),
{
    let clean = trim_parens_exec(&chars_of(raw_name));
    match ext {
        Some(g) => {
            return string_of(&group_text(g, 1));
        },
        None => {},
    }
    match cond {
        Some(g) => {
            let linux = group_text(g, 1);
            let other = group_text(g, 2);
            if seq_eq(other.as_slice(), chars_of("null").as_slice()) {
                return string_of(&concat(&linux, &chars_of(" (Linux only)")));
            }
            match &g[3] {
                Some(o) => {
                    let v = concat(
                        &concat(&concat(&linux, &chars_of(" (Linux) / ")), &chars_of(o.as_str())),
                        &chars_of(" (macOS)"),
                    );
                    return string_of(&v);
                },
                None => {},
            }
        },
        None => {},
    }
    if starts_with_exec(&clean, &chars_of("pkgs.")) {
        proof {
            reveal_strlit("pkgs.");
        }
        return string_of(&slice(&clean, 5, clean.len()));
    }
    let cs = string_of(&clean);
    if cs.as_str().as_bytes().len() > 40 {
        let n: usize = if clean.len() < 35 {
            clean.len()
        } else {
            35
        };
        let v = concat(&slice(&clean, 0, n), &chars_of("..."));
        assert(clean@.subrange(0, n as int) =~= clean@.take(n as int));
        return string_of(&v);
    }
    cs
}

/// Formats a group file entry for tables (see `format_from_matches`), or
/// `None` when the `regex` crate reports capture groups of another shape
/// than the two patterns have.
pub fn format_package_name(raw_name: &str) -> (r: Option<String>)
    ensures
        ({
            let ext = regex_groups(ext_pattern(), raw_name@);
            let cond = regex_groups(cond_pattern(), trim_parens(raw_name@));
            match r {
                Some(s) => groups_usable(ext, cond) && s@ == display_name_spec(
                    raw_name@,
                    ext,
                    cond,
                ),
                None => !groups_usable(ext, cond),
            }
        }),
{
    let ext = regex_captures("__ext_flake or \\(([^.]+)\\.packages", raw_name);
    let clean = string_of(&trim_parens_exec(&chars_of(raw_name)));
    let cond = regex_captures(
        "if\\s+pkgs\\.stdenv\\.isLinux\\s+then\\s+pkgs\\.([^\\s]+)\\s+else\\s+(pkgs\\.([^\\s]+)|null)",
        clean.as_str(),
    );
    let ext_ok = match &ext {
        Some(g) => g.len() >= 2 && g[1].is_some(),
        None => true,
    };
    let cond_ok = match &cond {
        Some(g) => g.len() >= 4 && g[1].is_some() && g[2].is_some(),
        None => true,
    };
    if ext_ok && (ext.is_some() || cond_ok) {
        Some(format_from_matches(raw_name, &ext, &cond))
    } else {
        None
    }
}

// ---------------------------------------------------------------------------
// Installables
// ---------------------------------------------------------------------------

/// The text before and after the first occurrence of `c`
/// (`str::split_once` with a character).
pub open spec fn split_once(s: Seq<char>, c: char) -> Option<(Seq<char>, Seq<char>)> {
    match find(s, seq![c]) {
        Some(i) => Some((s.take(i), s.skip(i + 1))),
        None => None,
    }
}

fn split_once_exec(s: &Vec<char>, c: char) -> (r: Option<(Vec<char>, Vec<char>)>)
    ensures
        match r {
            Some((a, b)) => split_once(s@, c) == Some((a@, b@)),
            None => split_once(s@, c) is None,
        },
{
    let p = vec![c];
    assert(p@ =~= seq![c]);
    match find_exec(s, &p) {
        Some(i) => {
            let a = slice(s, 0, i);
            let b = slice(s, i + 1, s.len());
            assert(a@ =~= s@.take(i as int));
            assert(b@ =~= s@.skip(i + 1));
            Some((a, b))
        },
        None => None,
    }
}

/// The target and the group of an installable `target@group`; the group
/// is `default` when there is no `@`.
pub open spec fn installable_parts(inst: Seq<char>) -> (Seq<char>, Seq<char>) {
    match split_once(inst, '@') {
        Some((t, g)) => (t, g),
        None => (inst, "default"@),
    }
}

/// The package of a target `flake#package`; the whole target when there
/// is no `#`.
pub open spec fn target_package(t: Seq<char>) -> Seq<char> {
    match split_once(t, '#') {
        Some((_, p)) => p,
        None => t,
    }
}

fn installable_parts_exec(inst: &str) -> (r: (Vec<char>, Vec<char>))
    ensures
        (r.0@, r.1@) == installable_parts(inst@),
{
    let v = chars_of(inst);
    match split_once_exec(&v, '@') {
        Some((t, g)) => (t, g),
        None => (v, chars_of("default")),
    }
}

fn target_package_exec(t: &Vec<char>) -> (r: Vec<char>)
    ensures
        r@ == target_package(t@),
{
    match split_once_exec(t, '#') {
        Some((_, p)) => p,
        None => slice(t, 0, t.len()),
    }
}

/// The package that `rix profile add <installable>` adds: the package of
/// the target, in the group of the installable, a local recipe when the
/// target holds a `:`.
pub fn handle_add(installable: &str, description: Option<String>) -> (r: Package)
    ensures
        r.name@ == target_package(installable_parts(installable@).0),
        r.group@ == installable_parts(installable@).1,
        r.description == description,
        r.is_local_recipe == contains(installable_parts(installable@).0, ":"@),
{
    let (t, g) = installable_parts_exec(installable);
    let name = target_package_exec(&t);
    let local = contains_exec(&t, &chars_of(":"));
    Package { name: string_of(&name), description, group: string_of(&g), is_local_recipe: local }
}

/// The package that `rix profile remove <installable>` looks for.
pub fn handle_remove(installable: &str) -> (r: String)
    ensures
        r@ == target_package(installable_parts(installable@).0),
{
    let (t, _) = installable_parts_exec(installable);
    string_of(&target_package_exec(&t))
}

/// A name given to `rix install` that designates an external flake.
pub open spec fn is_external_target(name: Seq<char>) -> bool {
    starts_with(name, "http://"@) || starts_with(name, "https://"@) || contains(name, ":"@)
}

/// Whether a name given to `rix install` designates an external flake.
pub fn is_external_target_exec(name: &str) -> (b: bool)
    ensures
        b == is_external_target(name@),
{
    let n = chars_of(name);
    starts_with_exec(&n, &chars_of("http://")) || starts_with_exec(&n, &chars_of("https://"))
        || contains_exec(&n, &chars_of(":"))
}

/// The group file entry of an external flake, by its alias.
pub open spec fn external_entry(alias: Seq<char>) -> Seq<char> {
    "__ext_flake or ("@ + alias + ".packages.${pkgs.system}.default)"@
}

/// The package that `rix install` adds for an external flake: its default
/// package under the alias inferred from the normalised URI, described by
/// the given description or by the URI.
pub fn external_flake_package(name: &str, group: &str, description: &Option<String>) -> (r: Package)
    ensures
        r.name@ == external_entry(alias_spec(normalize_spec(name@))),
        r.group@ == group@,
        r.description matches Some(d) && d@ == match description {
            Some(d) => d@,
            None => "External flake: "@ + normalize_spec(name@),
        },
        !r.is_local_recipe,
{
    let uri = normalize_flake_uri(name);
    let alias = infer_flake_alias(uri.as_str());
    let entry = concat(
        &concat(&chars_of("__ext_flake or ("), &chars_of(alias.as_str())),
        &chars_of(".packages.${pkgs.system}.default)"),
    );
    let desc = match description {
        Some(d) => d.clone(),
        None => string_of(&concat(&chars_of("External flake: "), &chars_of(uri.as_str()))),
    };
    Package {
        name: string_of(&entry),
        description: Some(desc),
        group: String::from_str(group),
        is_local_recipe: false,
    }
}

/// The names joined with `, ` (`[String]::join`).
pub open spec fn joined(names: Seq<Seq<char>>) -> Seq<char>
    decreases names.len(),
{
    if names.len() == 0 {
        seq![]
    } else if names.len() == 1 {
        names[0]
    } else {
        joined(names.drop_last()) + ", "@ + names.last()
    }
}

/// Views of texts.
pub open spec fn texts_view(v: Seq<String>) -> Seq<Seq<char>> {
    v.map_values(|s: String| s@)
}

fn joined_exec(names: &Vec<String>) -> (r: Vec<char>)
    ensures
        r@ == joined(texts_view(names@)),
{
    let ghost nv = texts_view(names@);
    let mut r: Vec<char> = Vec::new();
    let mut i: usize = 0;
    assert(nv.take(0) =~= Seq::<Seq<char>>::empty());
    while i < names.len()
        invariant
            i <= names@.len(),
            nv == texts_view(names@),
            r@ == joined(nv.take(i as int)),
        decreases names.len() - i,
    {
        assert(nv.take(i + 1).drop_last() =~= nv.take(i as int));
        assert(nv.take(i + 1).last() == names@[i as int]@);
        if i == 0 {
            r = chars_of(names[i].as_str());
        } else {
            r = concat(&concat(&r, &chars_of(", ")), &chars_of(names[i].as_str()));
        }
        i = i + 1;
    }
    assert(nv.take(names.len() as int) =~= nv);
    r
}

/// The commit message that records an installation or a removal.
pub fn packages_commit_message(installed: bool, names: &Vec<String>) -> (r: String)
    ensures
        r@ == (if installed {
            "rix: installed "@
        } else {
            "rix: removed "@
        }) + joined(texts_view(names@)),
{
    let head = if installed {
        chars_of("rix: installed ")
    } else {
        chars_of("rix: removed ")
    };
    string_of(&concat(&head, &joined_exec(names)))
}

// ---------------------------------------------------------------------------
// Choices and summaries
// ---------------------------------------------------------------------------

/// The package chosen among `count` matches: the answer is a number from 1
/// to `count` (an unreadable answer counts as 0), giving its index.
pub open spec fn selection_spec(input: Seq<char>, count: int) -> Option<int> {
    let choice = match parse_uint(trim(input), usize::MAX as int) {
        Some(n) => n,
        None => 0,
    };
    if choice < 1 || choice > count {
        None
    } else {
        Some(choice - 1)
    }
}

/// Reads the answer to "Select package to remove (1-count)".
pub fn parse_selection(input: &str, count: usize) -> (r: Option<usize>)
    ensures
        match r {
            Some(i) => selection_spec(input@, count as int) == Some(i as int),
            None => selection_spec(input@, count as int) is None,
        },
{
    let t = trim_exec(&chars_of(input));
    let choice: u64 = match parse_uint_exec(t.as_slice(), usize::MAX as u64) {
        Some(n) => n,
        None => 0,
    };
    if choice < 1 || choice > count as u64 {
        None
    } else {
        Some((choice - 1) as usize)
    }
}

/// The last non-empty line of the garbage collector's report, or a
/// default summary.
pub open spec fn gc_summary_spec(stdout: Seq<char>) -> Seq<char> {
    let ls = lines(stdout);
    if exists|i: int| 0 <= i < ls.len() && ls[i].len() > 0 {
        let k = choose|k: int|
            0 <= k < ls.len() && ls[k].len() > 0 && forall|j: int|
                k < j < ls.len() ==> (#[trigger] ls[j]).len() == 0;
        ls[k]
    } else {
        "Garbage collection complete."@
    }
}

/// The summary shown after a garbage collection.
pub fn gc_summary(stdout: &str) -> (r: String)
    ensures
        r@ == gc_summary_spec(stdout@),
{
    let ls = lines_exec(&chars_of(stdout));
    let ghost lv = views(ls@);
    let mut i: usize = ls.len();
    while i > 0 && ls[i - 1].len() == 0
        invariant
            i <= ls@.len(),
            lv == views(ls@),
            forall|j: int| i <= j < lv.len() ==> (#[trigger] lv[j]).len() == 0,
        decreases i,
    {
        assert(lv[i - 1] == ls@[i - 1]@);
        i = i - 1;
    }
    if i == 0 {
        assert(!exists|j: int| 0 <= j < lv.len() && lv[j].len() > 0);
        String::from_str("Garbage collection complete.")
    } else {
        let k = i - 1;
        assert(lv[k as int] == ls@[k as int]@);
        assert(exists|j: int| 0 <= j < lv.len() && lv[j].len() > 0) by {
            assert(lv[k as int].len() > 0);
        }
        let ghost c = choose|c: int|
            0 <= c < lv.len() && lv[c].len() > 0 && forall|j: int|
                c < j < lv.len() ==> (#[trigger] lv[j]).len() == 0;
        assert(c == k) by {
            if c < k {
                assert(lv[k as int].len() == 0);
            } else if c > k {
                assert(lv[c].len() == 0);
            }
        }
        string_of(&ls[k])
    }
}

/// What a rollback does: the Git revision to restore, the progress
/// message, and the commit message that records it.
pub struct RollbackPlan {
    pub target: String,
    pub progress: String,
    pub commit_message: String,
}

/// The plan of `rix rollback [version]`; without a version the previous
/// state (`HEAD~1`) is restored.
pub fn rollback_plan(version: &Option<String>) -> (r: RollbackPlan)
    ensures
        match version {
            Some(v) => {
                &&& r.target@ == v@
                &&& r.progress@ == "Rolling back environment state to '"@ + v@ + "'..."@
                &&& r.commit_message@ == "rix: rolled back declarative state to "@ + v@
            },
            None => {
                &&& r.target@ == "HEAD~1"@
                &&& r.progress@ == "Rolling back environment state to previous generation..."@
                &&& r.commit_message@
                    == "rix: rolled back declarative state to previous generation"@
            },
        },
{
    match version {
        Some(v) => {
            let vc = chars_of(v.as_str());
            RollbackPlan {
                target: v.clone(),
                progress: string_of(
                    &concat(
                        &concat(&chars_of("Rolling back environment state to '"), &vc),
                        &chars_of("'..."),
                    ),
                ),
                commit_message: string_of(
                    &concat(&chars_of("rix: rolled back declarative state to "), &vc),
                ),
            }
        },
        None => RollbackPlan {
            target: String::from_str("HEAD~1"),
            progress: String::from_str("Rolling back environment state to previous generation..."),
            commit_message: String::from_str(
                "rix: rolled back declarative state to previous generation",
            ),
        },
    }
}

// ---------------------------------------------------------------------------
// Search results
// ---------------------------------------------------------------------------

/// How many search results are shown.
pub open spec fn display_limit() -> int {
    15
}

/// The shown form of an attribute path: the part after its second dot,
/// the whole path when it has fewer dots.
pub open spec fn short_path(path: Seq<char>) -> Seq<char> {
    match third_segment(path) {
        Some(x) => x,
        None => path,
    }
}

/// The shown form of a description: longer than 60 bytes, it is cut to 57
/// characters and marked with `...`.
pub open spec fn short_description(d: Seq<char>) -> Seq<char> {
    if byte_len(d) > 60 {
        d.take(if d.len() < 57 {
            d.len() as int
        } else {
            57
        }) + "..."@
    } else {
        d
    }
}

/// Views of (path, description) pairs.
pub open spec fn results_view(v: Seq<(String, String)>) -> Seq<(Seq<char>, Seq<char>)> {
    v.map_values(|r: (String, String)| (r.0@, r.1@))
}

/// The rows of the search table: the first results, shortened, and the
/// number of results left out.
pub fn search_display(results: &Vec<(String, String)>) -> (r: (Vec<(String, String)>, usize))
    ensures
        r.0@.len() == if results@.len() < display_limit() {
            results@.len() as int
        } else {
            display_limit()
        },
        forall|i: int|
            0 <= i < r.0@.len() ==> (#[trigger] results_view(r.0@)[i]) == (
                short_path(results@[i].0@),
                short_description(results@[i].1@),
            ),
        r.1 == if results@.len() > display_limit() {
            results@.len() - display_limit()
        } else {
            0
        },
{
    let n: usize = if results.len() < 15 {
        results.len()
    } else {
        15
    };
    let mut rows: Vec<(String, String)> = Vec::new();
    let mut i: usize = 0;
    while i < n
        invariant
            n <= results@.len(),
            i <= n,
            rows@.len() == i,
            forall|j: int|
                0 <= j < i ==> (#[trigger] results_view(rows@)[j]) == (
                    short_path(results@[j].0@),
                    short_description(results@[j].1@),
                ),
        decreases n - i,
    {
        let pc = chars_of(results[i].0.as_str());
        let path = match third_segment_exec(&pc) {
            Some(x) => string_of(&x),
            None => results[i].0.clone(),
        };
        let d = &results[i].1;
        let desc = if d.as_str().as_bytes().len() > 60 {
            let dc = chars_of(d.as_str());
            let m: usize = if dc.len() < 57 {
                dc.len()
            } else {
                57
            };
            assert(dc@.subrange(0, m as int) =~= dc@.take(m as int));
            string_of(&concat(&slice(&dc, 0, m), &chars_of("...")))
        } else {
            d.clone()
        };
        let ghost before = rows@;
        rows.push((path, desc));
        assert forall|j: int| 0 <= j < i + 1 implies (#[trigger] results_view(rows@)[j]) == (
            short_path(results@[j].0@),
            short_description(results@[j].1@),
        ) by {
            if j < i {
                assert(rows@[j] == before[j]);
                assert(results_view(rows@)[j] == results_view(before)[j]);
            }
        }
        i = i + 1;
    }
    let hidden: usize = if results.len() > 15 {
        results.len() - 15
    } else {
        0
    };
    (rows, hidden)
}

// ---------------------------------------------------------------------------
// History
// ---------------------------------------------------------------------------

/// One state of the environment, as `git log` reports it.
#[derive(Debug, Clone, PartialEq, Eq)]
pub struct HistoryEntry {
    pub state_num: usize,
    pub hash: String,
    pub date: String,
    pub message: String,
    pub is_active: bool,
}

/// The three `|`-separated fields of a log line (`splitn(3, '|')`), when
/// there are three; the last one keeps any further `|`.
pub open spec fn log_fields(line: Seq<char>) -> Option<(Seq<char>, Seq<char>, Seq<char>)> {
    match split_once(line, '|') {
        Some((a, rest)) => match split_once(rest, '|') {
            Some((b, c)) => Some((a, b, c)),
            None => None,
        },
        None => None,
    }
}

/// View of a history entry: state number, hash, date, message, active.
pub open spec fn entry_view(e: HistoryEntry) -> (int, Seq<char>, Seq<char>, Seq<char>, bool) {
    (e.state_num as int, e.hash@, e.date@, e.message@, e.is_active)
}

/// The states read from the log lines before `k`: line `i` of `n` lines is
/// state `n - i`, the first line being the active state; lines without
/// three fields are passed over.
pub open spec fn history_spec(ls: Seq<Seq<char>>, k: int) -> Seq<
    (int, Seq<char>, Seq<char>, Seq<char>, bool),
>
    decreases k,
{
    if k <= 0 || k > ls.len() {
        seq![]
    } else {
        let r = history_spec(ls, k - 1);
        match log_fields(ls[k - 1]) {
            Some((h, d, m)) => r.push((ls.len() - (k - 1), h, d, m, k - 1 == 0)),
            None => r,
        }
    }
}

/// The states of the environment in the output of
/// `git log --pretty=format:%h|%ad|%s`, newest first.
pub fn parse_history(stdout: &str) -> (r: Vec<HistoryEntry>)
    ensures
        r@.map_values(|e: HistoryEntry| entry_view(e)) == history_spec(
            lines(stdout@),
            lines(stdout@).len() as int,
        ),
{
    let ls = lines_exec(&chars_of(stdout));
    let ghost lv = views(ls@);
    let total = ls.len();
    let mut r: Vec<HistoryEntry> = Vec::new();
    let mut i: usize = 0;
    while i < total
        invariant
            total == ls@.len(),
            lv == views(ls@),
            lv == lines(stdout@),
            i <= total,
            r@.map_values(|e: HistoryEntry| entry_view(e)) == history_spec(lv, i as int),
        decreases total - i,
    {
        assert(lv[i as int] == ls@[i as int]@);
        let ghost before = r@.map_values(|e: HistoryEntry| entry_view(e));
        match split_once_exec(&ls[i], '|') {
            Some((a, rest)) => {
                match split_once_exec(&rest, '|') {
                    Some((b, c)) => {
                        let e = HistoryEntry {
                            state_num: total - i,
                            hash: string_of(&a),
                            date: string_of(&b),
                            message: string_of(&c),
                            is_active: i == 0,
                        };
                        r.push(e);
                        assert(r@.map_values(|e: HistoryEntry| entry_view(e)) =~= before.push(
                            entry_view(e),
                        ));
                    },
                    None => {},
                }
            },
            None => {},
        }
        i = i + 1;
    }
    r
}

/// The states read from a log count down: each entry has a smaller state
/// number than the entries before it, every number lies between 1 and the
/// number of lines, and only the newest line can be the active state.
pub proof fn law_history_counts_down(ls: Seq<Seq<char>>, k: int)
    requires
        0 <= k <= ls.len(),
    ensures
        forall|i: int, j: int|
            0 <= i < j < history_spec(ls, k).len() ==> (#[trigger] history_spec(ls, k)[i]).0
                > (#[trigger] history_spec(ls, k)[j]).0,
        forall|i: int|
            0 <= i < history_spec(ls, k).len() ==> ls.len() - k + 1 <= (
            #[trigger] history_spec(ls, k)[i]).0 <= ls.len(),
        forall|i: int|
            0 <= i < history_spec(ls, k).len() && (#[trigger] history_spec(ls, k)[i]).4 ==> i == 0
                && history_spec(ls, k)[i].0 == ls.len(),
    decreases k,
{
    if k > 0 {
        law_history_counts_down(ls, k - 1);
        let r = history_spec(ls, k - 1);
        if k - 1 == 0 {
            assert(r.len() == 0);
        }
    }
}

} // verus!
