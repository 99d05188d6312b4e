//! The Rix configuration context and the package records it manages.
//!
//! A context is a configuration directory and a scope (user or system).
//! Its operations work on the texts of the files in that directory, which
//! the application reads and writes: each operation says what to write, or
//! which command to run, and which error to report.
use vstd::prelude::*;
use crate::errors::{ErrorView, RixError};
use crate::flake::{link_group_to_flake, link_spec};
use crate::nix_list::{
    add_package as add_to_group, add_spec, edit_view, file_packages,
    packages_in_file, pairs_view, remove_package_from_file as remove_from_group, remove_spec,
};
use crate::platform::TargetPlatform;
use crate::search::{
    lemma_lex_lt_irrefl, lemma_lex_lt_total, lemma_lex_lt_trans, lex_lt, lex_lt_exec,
    str_to_lowercase, to_lowercase,
};
use crate::text::{
    chars_of, concat, contains, contains_exec, rfind_char, rfind_char_exec, seq_eq, slice,
    split_char, split_char_exec, starts_with, starts_with_exec, string_of, strip_prefix_or_keep,
    strip_prefix_or_keep_exec, views,
};

verus! {

/// A package to place in a group file.
#[derive(Debug, Clone)]
pub struct Package {
    pub name: String,
    pub description: Option<String>,
    pub group: String,
    pub is_local_recipe: bool,
}

/// A package found in a group file.
#[derive(Debug, Clone)]
pub struct FoundPackage {
    pub name: String,
    pub file_path: String,
}

/// The configuration directory and scope Rix works in.
#[derive(Debug, Clone)]
pub struct RixContext {
    pub config_dir: String,
    pub is_system: bool,
}

// ---------------------------------------------------------------------------
// Paths
// ---------------------------------------------------------------------------

/// `PathBuf::join` of a relative path: a separator goes between the two
/// unless the base is empty or already ends with one.
pub open spec fn join_path(base: Seq<char>, rel: Seq<char>) -> Seq<char> {
    if base.len() > 0 && base.last() != '/' {
        base + "/"@ + rel
    } else {
        base + rel
    }
}

/// Joins a relative path to a directory.
pub fn join_path_exec(base: &str, rel: &str) -> (r: String)
    ensures
        r@ == join_path(base@, rel@),
{
    let b = chars_of(base);
    let v = if b.len() > 0 && b[b.len() - 1] != '/' {
        concat(&concat(&b, &chars_of("/")), &chars_of(rel))
    } else {
        concat(&b, &chars_of(rel))
    };
    string_of(&v)
}

/// The normal components of a path: the pieces between separators that
/// are neither empty nor `.` (what `Path::components` yields after the
/// root).
pub open spec fn normal_parts(ps: Seq<Seq<char>>) -> Seq<Seq<char>>
    decreases ps.len(),
{
    if ps.len() == 0 {
        seq![]
    } else {
        let r = normal_parts(ps.drop_last());
        let x = ps.last();
        if x.len() > 0 && x != "."@ {
            r.push(x)
        } else {
            r
        }
    }
}

/// The path lies in `/etc/rix` (`Path::starts_with("/etc/rix")`, which
/// compares whole components).
pub open spec fn in_system_dir(p: Seq<char>) -> bool {
    let parts = normal_parts(split_char(p, '/'));
    &&& p.len() > 0
    &&& p[0] == '/'
    &&& parts.len() >= 2
    &&& parts[0] == "etc"@
    &&& parts[1] == "rix"@
}

fn in_system_dir_exec(p: &str) -> (b: bool)
    ensures
        b == in_system_dir(p@),
{
    let c = chars_of(p);
    if c.len() == 0 || c[0] != '/' {
        return false;
    }
    let pieces = split_char_exec(&c, '/');
    let ghost ps = views(pieces@);
    let dot = chars_of(".");
    let mut parts: Vec<Vec<char>> = Vec::new();
    let mut k: usize = 0;
    assert(ps.take(0) =~= Seq::<Seq<char>>::empty());
    while k < pieces.len()
        invariant
            k <= pieces@.len(),
            ps == views(pieces@),
            dot@ == "."@,
            views(parts@) == normal_parts(ps.take(k as int)),
        decreases pieces.len() - k,
    {
        assert(ps.take(k + 1).drop_last() =~= ps.take(k as int));
        assert(ps.take(k + 1).last() == pieces@[k as int]@);
        if pieces[k].len() > 0 && !seq_eq(pieces[k].as_slice(), dot.as_slice()) {
            let ghost before = views(parts@);
            let piece = slice(pieces[k].as_slice(), 0, pieces[k].len());
            assert(piece@ =~= pieces@[k as int]@);
            parts.push(piece);
            assert(views(parts@) =~= before.push(pieces@[k as int]@));
        }
        k = k + 1;
    }
    assert(ps.take(pieces.len() as int) =~= ps);
    parts.len() >= 2 && seq_eq(parts[0].as_slice(), chars_of("etc").as_slice()) && seq_eq(
        parts[1].as_slice(),
        chars_of("rix").as_slice(),
    )
}

/// The directory of the group files.
pub open spec fn upstream_dir_spec(config_dir: Seq<char>) -> Seq<char> {
    join_path(config_dir, "groups/upstream"@)
}

/// The group file of a group.
pub open spec fn group_file_spec(config_dir: Seq<char>, group: Seq<char>) -> Seq<char> {
    join_path(config_dir, "groups/upstream/"@ + group + ".nix"@)
}

/// The directory that holds the NixOS default profile binaries.
pub open spec fn nix_bin_dir() -> Seq<char> {
    "/nix/var/nix/profiles/default/bin"@
}

/// The value `PATH` takes for a system scope: the default profile's
/// binaries are appended when `PATH` does not mention them, else `PATH`
/// stays (`None`).
pub open spec fn path_update_spec(current: Seq<char>) -> Option<Seq<char>> {
    if contains(current, nix_bin_dir()) {
        None
    } else {
        Some(current + ":"@ + nix_bin_dir())
    }
}

/// New value of `PATH` for a system scope, or `None` to leave it.
pub fn nix_path_update(current: &str) -> (r: Option<String>)
    ensures
        match r {
            Some(p) => path_update_spec(current@) == Some(p@),
            None => path_update_spec(current@) is None,
        },
{
    let c = chars_of(current);
    let bin = chars_of("/nix/var/nix/profiles/default/bin");
    if contains_exec(&c, &bin) {
        None
    } else {
        let v = concat(&concat(&c, &chars_of(":")), &bin);
        Some(string_of(&v))
    }
}

/// The message of the error reported when `nix` is not on the `PATH`.
pub open spec fn missing_nix_message() -> Seq<char> {
    "Critical dependency 'nix' not found on system PATH. Ensure modern Nix is installed."@
}

/// A package name that refers to an external flake, which is checked to
/// resolve before it is added.
pub open spec fn is_flake_reference(name: Seq<char>) -> bool {
    contains(name, "://"@) || starts_with(name, "github:"@) || starts_with(name, "gitlab:"@)
}

/// Whether a package name refers to an external flake.
pub fn needs_flake_check(name: &str) -> (b: bool)
    ensures
        b == is_flake_reference(name@),
{
    let n = chars_of(name);
    contains_exec(&n, &chars_of("://")) || starts_with_exec(&n, &chars_of("github:"))
        || starts_with_exec(&n, &chars_of("gitlab:"))
}

// ---------------------------------------------------------------------------
// Looking packages up
// ---------------------------------------------------------------------------

/// `Path::extension` of a file name is `nix`: the text after its last dot,
/// when that dot is not its first character.
pub open spec fn has_nix_extension(name: Seq<char>) -> bool {
    match rfind_char(name, '.') {
        Some(i) => i > 0 && name.skip(i + 1) == "nix"@,
        None => false,
    }
}

/// `Path::file_stem` of a file name with an extension: the text before its
/// last dot.
pub open spec fn file_stem(name: Seq<char>) -> Seq<char> {
    match rfind_char(name, '.') {
        Some(i) => name.take(i),
        None => name,
    }
}

/// Position of the dot that starts the `nix` extension of a file name.
fn nix_extension_dot(name: &Vec<char>) -> (r: Option<usize>)
    ensures
        r is Some <==> has_nix_extension(name@),
        r matches Some(i) ==> rfind_char(name@, '.') == Some(i as int) && i < name@.len(),
{
    match rfind_char_exec(name, '.') {
        Some(i) => {
            proof {
                crate::text::lemma_rfind_from(name@, '.', name@.len() as int);
                assert(rfind_char(name@, '.') == crate::text::rfind_from(name@, '.', name@.len() as int));
                assert(i < name@.len());
            }
            if i > 0 && i < name.len() {
                let ext = slice(name, i + 1, name.len());
                assert(ext@ =~= name@.skip(i + 1));
                if seq_eq(ext.as_slice(), chars_of("nix").as_slice()) {
                    return Some(i);
                }
            }
            None
        },
        None => None,
    }
}

/// Whether a file of the group directory is a group file: its extension
/// is `nix`.
pub fn is_group_file(name: &str) -> (b: bool)
    ensures
        b == has_nix_extension(name@),
{
    nix_extension_dot(&chars_of(name)).is_some()
}

/// Names in a group file's entries whose lowercase form starts with the
/// lowercase query; a leading `pkgs.` is removed from each name first.
pub open spec fn matching_names(pkgs: Seq<(Seq<char>, Seq<char>)>, q: Seq<char>) -> Seq<Seq<char>>
    decreases pkgs.len(),
{
    if pkgs.len() == 0 {
        seq![]
    } else {
        let c = strip_prefix_or_keep(pkgs.last().0, "pkgs."@);
        let r = matching_names(pkgs.drop_last(), q);
        if starts_with(str_to_lowercase(c), str_to_lowercase(q)) {
            r.push(c)
        } else {
            r
        }
    }
}

/// Packages found in one file of the group directory.
pub open spec fn found_in_file(dir: Seq<char>, name: Seq<char>, content: Seq<char>, q: Seq<char>) -> Seq<
    (Seq<char>, Seq<char>),
> {
    if has_nix_extension(name) {
        match file_packages(content) {
            Some(pk) => matching_names(pk, q).map_values(|n: Seq<char>| (n, join_path(dir, name))),
            None => seq![],
        }
    } else {
        seq![]
    }
}

/// Packages found in the group directory, file after file.
pub open spec fn lookup_spec(dir: Seq<char>, files: Seq<(Seq<char>, Seq<char>)>, q: Seq<char>) -> Seq<
    (Seq<char>, Seq<char>),
>
    decreases files.len(),
{
    if files.len() == 0 {
        seq![]
    } else {
        lookup_spec(dir, files.drop_last(), q) + found_in_file(
            dir,
            files.last().0,
            files.last().1,
            q,
        )
    }
}

proof fn lemma_matching_names_prefix(pkgs: Seq<(Seq<char>, Seq<char>)>, q: Seq<char>)
    ensures
        forall|i: int|
            0 <= i < matching_names(pkgs, q).len() ==> starts_with(
                str_to_lowercase(#[trigger] matching_names(pkgs, q)[i]),
                str_to_lowercase(q),
            ),
    decreases pkgs.len(),
{
    if pkgs.len() > 0 {
        lemma_matching_names_prefix(pkgs.drop_last(), q);
        let r = matching_names(pkgs.drop_last(), q);
        let c = strip_prefix_or_keep(pkgs.last().0, "pkgs."@);
        let m = matching_names(pkgs, q);
        assert forall|i: int| 0 <= i < m.len() implies starts_with(
            str_to_lowercase(#[trigger] m[i]),
            str_to_lowercase(q),
        ) by {
            if i < r.len() {
                assert(m[i] == r[i]);
            } else {
                assert(m[i] == c);
            }
        }
    }
}

/// A lookup finds packages by prefix: every package it returns has a name
/// that starts with the query, ignoring case.
pub proof fn law_lookup_matches_prefix(
    dir: Seq<char>,
    files: Seq<(Seq<char>, Seq<char>)>,
    q: Seq<char>,
)
    ensures
        forall|i: int|
            0 <= i < lookup_spec(dir, files, q).len() ==> starts_with(
                str_to_lowercase((#[trigger] lookup_spec(dir, files, q)[i]).0),
                str_to_lowercase(q),
            ),
    decreases files.len(),
{
    if files.len() > 0 {
        law_lookup_matches_prefix(dir, files.drop_last(), q);
        let prev = lookup_spec(dir, files.drop_last(), q);
        let (name, content) = files.last();
        let here = found_in_file(dir, name, content, q);
        assert forall|i: int| 0 <= i < here.len() implies starts_with(
            str_to_lowercase((#[trigger] here[i]).0),
            str_to_lowercase(q),
        ) by {
            let pk = file_packages(content)->0;
            lemma_matching_names_prefix(pk, q);
            assert(here[i].0 == matching_names(pk, q)[i]);
        }
        assert forall|i: int| 0 <= i < lookup_spec(dir, files, q).len() implies starts_with(
            str_to_lowercase((#[trigger] lookup_spec(dir, files, q)[i]).0),
            str_to_lowercase(q),
        ) by {
            if i < prev.len() {
                assert(lookup_spec(dir, files, q)[i] == prev[i]);
            } else {
                assert(lookup_spec(dir, files, q)[i] == here[i - prev.len()]);
            }
        }
    }
}

/// Names of a group file's entries, each without a leading `pkgs.`.
pub open spec fn entry_names(pk: Seq<(Seq<char>, Seq<char>)>) -> Seq<Seq<char>> {
    pk.map_values(|p: (Seq<char>, Seq<char>)| strip_prefix_or_keep(p.0, "pkgs."@))
}

/// Whether a name starts with the query, ignoring case.
pub open spec fn prefix_match(q: Seq<char>) -> spec_fn(Seq<char>) -> bool {
    |n: Seq<char>| starts_with(str_to_lowercase(n), str_to_lowercase(q))
}

proof fn lemma_matching_is_filter(pk: Seq<(Seq<char>, Seq<char>)>, q: Seq<char>)
    ensures
        matching_names(pk, q) == entry_names(pk).filter(prefix_match(q)),
    decreases pk.len(),
{
    reveal(Seq::filter);
    if pk.len() == 0 {
        assert(entry_names(pk) =~= Seq::<Seq<char>>::empty());
    } else {
        lemma_matching_is_filter(pk.drop_last(), q);
        assert(entry_names(pk).drop_last() =~= entry_names(pk.drop_last()));
        assert(entry_names(pk).last() == strip_prefix_or_keep(pk.last().0, "pkgs."@));
    }
}

/// Looking packages up in one group file gives exactly its entries whose
/// name starts with the query, ignoring case, in file order, each with the
/// file's path: no matching entry is left out.
pub proof fn law_lookup_one_file_is_filter(
    dir: Seq<char>,
    name: Seq<char>,
    content: Seq<char>,
    q: Seq<char>,
    pk: Seq<(Seq<char>, Seq<char>)>,
)
    requires
        has_nix_extension(name),
        file_packages(content) == Some(pk),
    ensures
        lookup_spec(dir, seq![(name, content)], q) == entry_names(pk).filter(prefix_match(q)).map_values(
            |n: Seq<char>| (n, join_path(dir, name)),
        ),
{
    lemma_matching_is_filter(pk, q);
    let files = seq![(name, content)];
    assert(files.drop_last() =~= Seq::<(Seq<char>, Seq<char>)>::empty());
    assert(lookup_spec(dir, files.drop_last(), q) =~= Seq::<(Seq<char>, Seq<char>)>::empty());
    assert(lookup_spec(dir, files, q) =~= found_in_file(dir, name, content, q));
}

/// A lookup over several files is the lookups of the files one after
/// the other; a file that is not a `.nix` file, or that does not parse,
/// gives nothing.
pub proof fn law_lookup_file_by_file(
    dir: Seq<char>,
    files: Seq<(Seq<char>, Seq<char>)>,
    name: Seq<char>,
    content: Seq<char>,
    q: Seq<char>,
)
    ensures
        lookup_spec(dir, files.push((name, content)), q) == lookup_spec(dir, files, q) + lookup_spec(
            dir,
            seq![(name, content)],
            q,
        ),
        !has_nix_extension(name) || file_packages(content) is None ==> lookup_spec(
            dir,
            seq![(name, content)],
            q,
        ) == Seq::<(Seq<char>, Seq<char>)>::empty(),
{
    let one = seq![(name, content)];
    assert(one.drop_last() =~= Seq::<(Seq<char>, Seq<char>)>::empty());
    assert(lookup_spec(dir, one.drop_last(), q) =~= Seq::<(Seq<char>, Seq<char>)>::empty());
    assert(one.last() == (name, content));
    assert(lookup_spec(dir, one, q) =~= found_in_file(dir, name, content, q));
    assert(files.push((name, content)).drop_last() =~= files);
}

/// A lookup leaves no match out: every entry of every parsed group file
/// whose name starts with the query, ignoring case, is in the result with
/// the path of its file.
pub proof fn law_lookup_finds_every_match(
    dir: Seq<char>,
    files: Seq<(Seq<char>, Seq<char>)>,
    q: Seq<char>,
    f: int,
    pk: Seq<(Seq<char>, Seq<char>)>,
    e: int,
)
    requires
        0 <= f < files.len(),
        has_nix_extension(files[f].0),
        file_packages(files[f].1) == Some(pk),
        0 <= e < pk.len(),
        starts_with(
            str_to_lowercase(strip_prefix_or_keep(pk[e].0, "pkgs."@)),
            str_to_lowercase(q),
        ),
    ensures
        lookup_spec(dir, files, q).contains(
            (strip_prefix_or_keep(pk[e].0, "pkgs."@), join_path(dir, files[f].0)),
        ),
    decreases files.len(),
{
    let x = (strip_prefix_or_keep(pk[e].0, "pkgs."@), join_path(dir, files[f].0));
    let prev = lookup_spec(dir, files.drop_last(), q);
    let here = found_in_file(dir, files.last().0, files.last().1, q);
    let all = lookup_spec(dir, files, q);
    assert(all == prev + here);
    if f < files.len() - 1 {
        assert(files.drop_last()[f] == files[f]);
        law_lookup_finds_every_match(dir, files.drop_last(), q, f, pk, e);
        let j = choose|j: int| 0 <= j < prev.len() && prev[j] == x;
        assert(all[j] == x);
    } else {
        lemma_matching_is_filter(pk, q);
        let names = entry_names(pk);
        assert(names[e] == strip_prefix_or_keep(pk[e].0, "pkgs."@));
        assert(prefix_match(q)(names[e]));
        names.lemma_filter_contains(prefix_match(q), e);
        let fl = names.filter(prefix_match(q));
        let k = choose|k: int| 0 <= k < fl.len() && fl[k] == names[e];
        assert(here[k] == x);
        assert(all[prev.len() + k] == x);
    }
}

/// Views of (name, content) pairs.
pub open spec fn files_view(files: Seq<(String, String)>) -> Seq<(Seq<char>, Seq<char>)> {
    files.map_values(|f: (String, String)| (f.0@, f.1@))
}

/// Views of found packages.
pub open spec fn found_view(v: Seq<FoundPackage>) -> Seq<(Seq<char>, Seq<char>)> {
    v.map_values(|f: FoundPackage| (f.name@, f.file_path@))
}

// ---------------------------------------------------------------------------
// Listing packages
// ---------------------------------------------------------------------------

/// A listed package: name, group and comment.
pub open spec fn row_view(r: (String, String, String)) -> (Seq<char>, Seq<char>, Seq<char>) {
    (r.0@, r.1@, r.2@)
}

/// Views of listed packages.
pub open spec fn rows_view(v: Seq<(String, String, String)>) -> Seq<(Seq<char>, Seq<char>, Seq<char>)> {
    v.map_values(|r: (String, String, String)| row_view(r))
}

/// Packages listed by one file of the group directory: the group is the
/// file's stem, a leading `pkgs.` is removed from each name.
pub open spec fn rows_of_file(name: Seq<char>, content: Seq<char>) -> Seq<
    (Seq<char>, Seq<char>, Seq<char>),
> {
    if has_nix_extension(name) {
        match file_packages(content) {
            Some(pk) => pk.map_values(
                |p: (Seq<char>, Seq<char>)|
                    (strip_prefix_or_keep(p.0, "pkgs."@), file_stem(name), p.1),
            ),
            None => seq![],
        }
    } else {
        seq![]
    }
}

/// Packages listed by the group directory, file after file.
pub open spec fn rows_spec(files: Seq<(Seq<char>, Seq<char>)>) -> Seq<
    (Seq<char>, Seq<char>, Seq<char>),
>
    decreases files.len(),
{
    if files.len() == 0 {
        seq![]
    } else {
        rows_spec(files.drop_last()) + rows_of_file(files.last().0, files.last().1)
    }
}

/// Rows in order of their names.
pub open spec fn sorted_by_name(r: Seq<(Seq<char>, Seq<char>, Seq<char>)>) -> bool {
    forall|i: int, j: int| 0 <= i < j < r.len() ==> !lex_lt(#[trigger] r[j].0, #[trigger] r[i].0)
}

/// The rows named `k`, in their order.
pub open spec fn with_name(r: Seq<(Seq<char>, Seq<char>, Seq<char>)>, k: Seq<char>) -> Seq<
    (Seq<char>, Seq<char>, Seq<char>),
>
    decreases r.len(),
{
    if r.len() == 0 {
        seq![]
    } else {
        let w = with_name(r.drop_last(), k);
        if r.last().0 == k {
            w.push(r.last())
        } else {
            w
        }
    }
}

proof fn lemma_with_name_concat(
    a: Seq<(Seq<char>, Seq<char>, Seq<char>)>,
    b: Seq<(Seq<char>, Seq<char>, Seq<char>)>,
    k: Seq<char>,
)
    ensures
        with_name(a + b, k) == with_name(a, k) + with_name(b, k),
    decreases b.len(),
{
    if b.len() == 0 {
        assert(a + b =~= a);
        assert(with_name(a, k) + with_name(b, k) =~= with_name(a, k));
    } else {
        lemma_with_name_concat(a, b.drop_last(), k);
        assert((a + b).drop_last() =~= a + b.drop_last());
        assert((a + b).last() == b.last());
        if b.last().0 == k {
            assert(with_name(a, k) + with_name(b.drop_last(), k).push(b.last()) =~= (with_name(
                a,
                k,
            ) + with_name(b.drop_last(), k)).push(b.last()));
        }
    }
}

proof fn lemma_with_name_absent(r: Seq<(Seq<char>, Seq<char>, Seq<char>)>, k: Seq<char>)
    requires
        forall|i: int| 0 <= i < r.len() ==> (#[trigger] r[i]).0 != k,
    ensures
        with_name(r, k) == Seq::<(Seq<char>, Seq<char>, Seq<char>)>::empty(),
    decreases r.len(),
{
    if r.len() > 0 {
        assert(r.last() == r[r.len() - 1]);
        lemma_with_name_absent(r.drop_last(), k);
    }
}

proof fn lemma_insert_sorted(
    o: Seq<(Seq<char>, Seq<char>, Seq<char>)>,
    x: (Seq<char>, Seq<char>, Seq<char>),
    p: int,
)
    requires
        sorted_by_name(o),
        0 <= p <= o.len(),
        forall|j: int| 0 <= j < p ==> !lex_lt(x.0, #[trigger] o[j].0),
        p < o.len() ==> lex_lt(x.0, o[p].0),
    ensures
        sorted_by_name(o.insert(p, x)),
        forall|k: Seq<char>| #[trigger]
            with_name(o.insert(p, x), k) == if x.0 == k {
                with_name(o, k).push(x)
            } else {
                with_name(o, k)
            },
{
    let n = o.insert(p, x);
    assert forall|j: int| p <= j < o.len() implies lex_lt(x.0, #[trigger] o[j].0) by {
        if j > p {
            assert(!lex_lt(o[j].0, o[p].0));
            lemma_lex_lt_total(o[p].0, o[j].0);
            if lex_lt(o[p].0, o[j].0) {
                lemma_lex_lt_trans(x.0, o[p].0, o[j].0);
            }
        }
    }
    assert forall|i: int, j: int| 0 <= i < j < n.len() implies !lex_lt(
        #[trigger] n[j].0,
        #[trigger] n[i].0,
    ) by {
        if i == p {
            assert(n[j] == o[j - 1]);
            if lex_lt(o[j - 1].0, x.0) {
                lemma_lex_lt_trans(x.0, o[j - 1].0, x.0);
                lemma_lex_lt_irrefl(x.0);
            }
        } else if j == p {
            assert(n[i] == o[i]);
        } else if i < p && j < p {
            assert(n[i] == o[i] && n[j] == o[j]);
        } else if i < p {
            assert(n[i] == o[i] && n[j] == o[j - 1]);
        } else {
            assert(n[i] == o[i - 1] && n[j] == o[j - 1]);
        }
    }
    assert forall|k: Seq<char>| #[trigger]
        with_name(o.insert(p, x), k) == if x.0 == k {
            with_name(o, k).push(x)
        } else {
            with_name(o, k)
        } by {
        let a = o.take(p);
        let b = o.skip(p);
        assert(n =~= a + seq![x] + b);
        assert(o =~= a + b);
        lemma_with_name_concat(a + seq![x], b, k);
        lemma_with_name_concat(a, seq![x], k);
        lemma_with_name_concat(a, b, k);
        let one = seq![x];
        assert(one.drop_last() =~= Seq::<(Seq<char>, Seq<char>, Seq<char>)>::empty());
        assert(one.last() == x);
        assert(with_name(one.drop_last(), k) =~= Seq::<(Seq<char>, Seq<char>, Seq<char>)>::empty());
        if x.0 == k {
            assert(with_name(one, k) =~= seq![x]);
        } else {
            assert(with_name(one, k) =~= Seq::<(Seq<char>, Seq<char>, Seq<char>)>::empty());
        }
        if x.0 == k {
            assert forall|i: int| 0 <= i < b.len() implies (#[trigger] b[i]).0 != k by {
                assert(b[i] == o[p + i]);
                assert(lex_lt(x.0, o[p + i].0));
                lemma_lex_lt_irrefl(x.0);
            }
            lemma_with_name_absent(b, k);
            assert(with_name(a, k) + with_name(seq![x], k) + with_name(b, k) =~= with_name(a, k)
                .push(x));
            assert(with_name(a, k) + with_name(b, k) =~= with_name(a, k));
        } else {
            assert(with_name(a, k) + with_name(seq![x], k) =~= with_name(a, k));
        }
    }
}

/// Sorts listed packages by name, keeping the order of packages of the
/// same name (a stable sort, as `slice::sort_by` is).
pub fn sort_rows_by_name(rows: Vec<(String, String, String)>) -> (r: Vec<(String, String, String)>)
    ensures
        sorted_by_name(rows_view(r@)),
        forall|k: Seq<char>| #[trigger]
            with_name(rows_view(r@), k) == with_name(rows_view(rows@), k),
{
    let ghost inp = rows_view(rows@);
    let mut out: Vec<(String, String, String)> = Vec::new();
    let mut i: usize = 0;
    assert(inp.take(0) =~= Seq::<(Seq<char>, Seq<char>, Seq<char>)>::empty());
    while i < rows.len()
        invariant
            i <= rows@.len(),
            inp == rows_view(rows@),
            sorted_by_name(rows_view(out@)),
            forall|k: Seq<char>| #[trigger]
                with_name(rows_view(out@), k) == with_name(inp.take(i as int), k),
        decreases rows.len() - i,
    {
        let x = (rows[i].0.clone(), rows[i].1.clone(), rows[i].2.clone());
        let ghost xv = inp[i as int];
        assert(row_view(x) == xv);
        let xk = chars_of(x.0.as_str());
        let mut p: usize = 0;
        while p < out.len() && !lex_lt_exec(&xk, &chars_of(out[p].0.as_str()))
            invariant
                p <= out@.len(),
                xk@ == xv.0,
                forall|j: int| 0 <= j < p ==> !lex_lt(xv.0, #[trigger] rows_view(out@)[j].0),
            decreases out.len() - p,
        {
            p = p + 1;
        }
        let ghost o = rows_view(out@);
        proof {
            lemma_insert_sorted(o, xv, p as int);
        }
        out.insert(p, x);
        assert(rows_view(out@) =~= o.insert(p as int, xv));
        proof {
            assert(inp.take(i + 1).drop_last() =~= inp.take(i as int));
            assert(inp.take(i + 1).last() == xv);
        }
        i = i + 1;
    }
    assert(inp.take(rows.len() as int) =~= inp);
    out
}

// ---------------------------------------------------------------------------
// Package index rows
// ---------------------------------------------------------------------------

/// A package of the Nixpkgs channel dump: its attribute key and the fields
/// the index keeps (`meta.description` as `description`).
#[derive(Debug, Clone)]
pub struct IndexEntry {
    pub key: String,
    pub pname: Option<String>,
    pub name: Option<String>,
    pub version: Option<String>,
    pub description: Option<String>,
}

/// The row (name, version, description) stored for a package: the name is
/// `pname`, else `name`, else the key; a missing version or description is
/// stored empty.
pub open spec fn index_row_spec(e: IndexEntry) -> (Seq<char>, Seq<char>, Seq<char>) {
    (
        match e.pname {
            Some(p) => p@,
            None => match e.name {
                Some(n) => n@,
                None => e.key@,
            },
        },
        match e.version {
            Some(v) => v@,
            None => seq![],
        },
        match e.description {
            Some(d) => d@,
            None => seq![],
        },
    )
}

/// The rows of the package index, one per package of the dump.
pub fn index_rows(entries: &Vec<IndexEntry>) -> (r: Vec<(String, String, String)>)
    ensures
        r@.len() == entries@.len(),
        forall|i: int| 0 <= i < r@.len() ==> row_view(#[trigger] r@[i]) == index_row_spec(entries@[i]),
{
    let mut r: Vec<(String, String, String)> = Vec::new();
    let mut i: usize = 0;
    while i < entries.len()
        invariant
            i <= entries@.len(),
            r@.len() == i,
            forall|j: int| 0 <= j < i ==> row_view(#[trigger] r@[j]) == index_row_spec(entries@[j]),
        decreases entries.len() - i,
    {
        let e = &entries[i];
        let name = match &e.pname {
            Some(p) => p.clone(),
            None => match &e.name {
                Some(n) => n.clone(),
                None => e.key.clone(),
            },
        };
        let version = match &e.version {
            Some(v) => v.clone(),
            None => String::new(),
        };
        let desc = match &e.description {
            Some(d) => d.clone(),
            None => String::new(),
        };
        r.push((name, version, desc));
        i = i + 1;
    }
    r
}

/// The outcome of adding a package: the new text of its group file (`None`
/// when the package is listed already) and the outcome of linking the group
/// into the master flake (`Ok(None)` when there is nothing to change).
pub struct PackageEdit {
    pub group_file: Option<String>,
    pub flake: Result<Option<String>, RixError>,
}

/// A command to run: program, arguments and environment variables.
#[derive(Debug, Clone)]
pub struct CommandSpec {
    pub program: String,
    pub args: Vec<String>,
    pub env: Vec<(String, String)>,
}

/// The Nix settings with which Rix runs Nix.
pub open spec fn rix_nix_config() -> Seq<char> {
    "experimental-features = nix-command flakes\nextra-substituters = https://nix-community.cachix.org\nextra-trusted-public-keys = nix-community.cachix.org-1:mB9FSh9qf2dCimDSUo8Zy7bkq5CX+/rkCWyvRCYg3Fs="@
}

/// Views of texts.
pub open spec fn strings_view(v: Seq<String>) -> Seq<Seq<char>> {
    v.map_values(|s: String| s@)
}

/// The command of an environment upgrade: `nixos-rebuild` through `sudo`
/// for a system scope on NixOS, else Home Manager.
pub open spec fn upgrade_command_spec(
    config_dir: Seq<char>,
    is_system: bool,
    platform: TargetPlatform,
    dry_run: bool,
) -> (Seq<char>, Seq<Seq<char>>) {
    if is_system && platform == TargetPlatform::NixOS {
        (
            "sudo"@,
            seq![
                "nixos-rebuild"@,
                if dry_run {
                    "dry-build"@
                } else {
                    "switch"@
                },
                "--flake"@,
                config_dir + "#system"@,
            ],
        )
    } else {
        let base = seq![
            "run"@,
            "nixpkgs#home-manager"@,
            "--"@,
            "switch"@,
            "--flake"@,
            config_dir,
        ];
        ("nix"@, if dry_run {
            base.push("-n"@)
        } else {
            base
        })
    }
}

/// An upgrade previews only when asked: the dry-run command is the real
/// one with the preview flag. On NixOS for a system scope, `nixos-rebuild`
/// gets `dry-build` in place of `switch`; everywhere else the Home Manager
/// switch gets `-n` appended, and the real switch ends with the flake
/// directory, with no flag after it.
pub proof fn law_upgrade_dry_run_only_when_asked(
    config_dir: Seq<char>,
    is_system: bool,
    platform: TargetPlatform,
)
    ensures
        upgrade_command_spec(config_dir, is_system, platform, true).0 == upgrade_command_spec(
            config_dir,
            is_system,
            platform,
            false,
        ).0,
        is_system && platform == TargetPlatform::NixOS ==> {
            let run_args = upgrade_command_spec(config_dir, is_system, platform, false).1;
            let dry_args = upgrade_command_spec(config_dir, is_system, platform, true).1;
            &&& run_args[1] == "switch"@
            &&& dry_args == run_args.update(1, "dry-build"@)
        },
        !(is_system && platform == TargetPlatform::NixOS) ==> {
            let run_args = upgrade_command_spec(config_dir, is_system, platform, false).1;
            let dry_args = upgrade_command_spec(config_dir, is_system, platform, true).1;
            &&& run_args.len() > 0 && run_args.last() == config_dir
            &&& run_args[3] == "switch"@
            &&& dry_args == run_args.push("-n"@)
        },
{
    let run_args = upgrade_command_spec(config_dir, is_system, platform, false).1;
    let dry_args = upgrade_command_spec(config_dir, is_system, platform, true).1;
    if is_system && platform == TargetPlatform::NixOS {
        assert(dry_args =~= run_args.update(1, "dry-build"@));
    }
}

/// What follows an upgrade: lock the new state into Git, bridge the system
/// binaries, or roll the configuration back. A dry run does none of them.
#[derive(Debug, Clone, Copy, PartialEq, Eq)]
pub struct UpgradeFollowUp {
    pub commit: bool,
    pub bridge_binaries: bool,
    pub rollback: bool,
}

fn nix_config_env() -> (r: (String, String))
    ensures
        r.0@ == "NIX_CONFIG"@,
        r.1@ == rix_nix_config(),
{
    (
        String::from_str("NIX_CONFIG"),
        String::from_str(
            "experimental-features = nix-command flakes\nextra-substituters = https://nix-community.cachix.org\nextra-trusted-public-keys = nix-community.cachix.org-1:mB9FSh9qf2dCimDSUo8Zy7bkq5CX+/rkCWyvRCYg3Fs=",
        ),
    )
}

impl RixContext {
    /// A context for a configuration directory. The scope is the system's
    /// when the directory lies in `/etc/rix`, when the user (`USER`) is
    /// root, or when Rix runs under `sudo` (`SUDO_USER` is set).
    pub fn new(config_dir: String, user: Option<String>, sudo_user_set: bool) -> (r: RixContext)
        ensures
            r.config_dir@ == config_dir@,
            r.is_system == (in_system_dir(config_dir@) || (user matches Some(u) && u@ == "root"@)
                || sudo_user_set),
    {
        let by_dir = in_system_dir_exec(config_dir.as_str());
        let by_user = match &user {
            Some(u) => seq_eq(chars_of(u.as_str()).as_slice(), chars_of("root").as_slice()),
            None => false,
        };
        RixContext { config_dir, is_system: by_dir || by_user || sudo_user_set }
    }

    /// Checks that Nix is available (`nix_on_path` tells whether `nix` is
    /// found on the `PATH`).
    pub fn verify_system(&self, nix_on_path: bool) -> (r: Result<(), RixError>)
        ensures
            nix_on_path <==> r is Ok,
            r matches Err(e) ==> e@ == ErrorView::MissingSystemDependency(missing_nix_message()),
    {
        if nix_on_path {
            Ok(())
        } else {
            Err(
                RixError::MissingSystemDependency(
                    String::from_str(
                        "Critical dependency 'nix' not found on system PATH. Ensure modern Nix is installed.",
                    ),
                ),
            )
        }
    }

    /// The directory of the group files.
    pub fn upstream_dir(&self) -> (r: String)
        ensures
            r@ == upstream_dir_spec(self.config_dir@),
    {
        join_path_exec(self.config_dir.as_str(), "groups/upstream")
    }

    /// The group file of a group.
    pub fn group_file_path(&self, group: &str) -> (r: String)
        ensures
            r@ == group_file_spec(self.config_dir@, group@),
    {
        let rel = concat(&concat(&chars_of("groups/upstream/"), &chars_of(group)), &chars_of(".nix"));
        join_path_exec(self.config_dir.as_str(), string_of(&rel).as_str())
    }

    /// A file of the configuration directory.
    pub fn config_file(&self, name: &str) -> (r: String)
        ensures
            r@ == join_path(self.config_dir@, name@),
    {
        join_path_exec(self.config_dir.as_str(), name)
    }

    /// Adds a package to the text of its group file (`None`: the file is
    /// missing and the new-file template stands in for it) and links the
    /// group into the master flake (`None`: there is no flake, nothing to
    /// link). `wrapper` is the NixGL wrapper of this machine, if any.
    pub fn add_package(
        &self,
        package: &Package,
        group_file: &Option<String>,
        flake: &Option<String>,
        wrapper: &Option<String>,
    ) -> (r: Result<PackageEdit, RixError>)
        ensures
            ({
                let content = match group_file {
                    Some(c) => c@,
                    None => crate::writer::empty_group_template(),
                };
                let added = add_spec(
                    content,
                    package.name@,
                    crate::nix_list::opt_chars(package.description),
                    wrapper is Some,
                );
                match r {
                    Err(e) => added == Err::<Option<Seq<char>>, ErrorView>(e@),
                    Ok(edit) => {
                        &&& added is Ok
                        &&& added->Ok_0 == match edit.group_file {
                            Some(s) => Some(s@),
                            None => None,
                        }
                        &&& edit_view(edit.flake) == match flake {
                            Some(f) => link_spec(f@, package.group@),
                            None => Ok(None),
                        }
                    },
                }
            }),
    {
        let added = match group_file {
            Some(c) => add_to_group(c.as_str(), package, wrapper),
            None => add_to_group(crate::writer::get_empty_group_template(), package, wrapper),
        };
        let new_group = match added {
            Err(e) => {
                return Err(e);
            },
            Ok(g) => g,
        };
        let linked = match flake {
            Some(f) => link_group_to_flake(f.as_str(), package.group.as_str()),
            None => Ok(None),
        };
        Ok(PackageEdit { group_file: new_group, flake: linked })
    }

    /// Packages of the group directory whose name starts with the query,
    /// ignoring case. `files` holds the name and text of the group files, in
    /// the order in which the directory lists them; files without the `nix`
    /// extension and texts that do not parse are passed over.
    pub fn lookup_packages(&self, files: &Vec<(String, String)>, query: &str) -> (r: Vec<
        FoundPackage,
    >)
        ensures
            found_view(r@) == lookup_spec(
                upstream_dir_spec(self.config_dir@),
                files_view(files@),
                query@,
            ),
    {
        let dir = self.upstream_dir();
        let q = to_lowercase(query);
        let ghost fv = files_view(files@);
        let mut r: Vec<FoundPackage> = Vec::new();
        let mut k: usize = 0;
        assert(fv.take(0) =~= Seq::<(Seq<char>, Seq<char>)>::empty());
        while k < files.len()
            invariant
                k <= files@.len(),
                fv == files_view(files@),
                dir@ == upstream_dir_spec(self.config_dir@),
                q@ == str_to_lowercase(query@),
                found_view(r@) == lookup_spec(dir@, fv.take(k as int), query@),
            decreases files.len() - k,
        {
            assert(fv.take(k + 1).drop_last() =~= fv.take(k as int));
            let (name, content) = &files[k];
            assert(fv.take(k + 1).last() == (name@, content@));
            let nc = chars_of(name.as_str());
            let ghost before = found_view(r@);
            if nix_extension_dot(&nc).is_some() {
                match packages_in_file(content.as_str()) {
                    Some(pk) => {
                        let path = join_path_exec(dir.as_str(), name.as_str());
                        let ghost pv = pairs_view(pk@);
                        let mut j: usize = 0;
                        assert(pv.take(0) =~= Seq::<(Seq<char>, Seq<char>)>::empty());
                        assert(before + matching_names(pv.take(0), query@).map_values(
                            |n: Seq<char>| (n, path@),
                        ) =~= before);
                        while j < pk.len()
                            invariant
                                j <= pk@.len(),
                                pv == pairs_view(pk@),
                                q@ == str_to_lowercase(query@),
                                found_view(r@) == before + matching_names(
                                    pv.take(j as int),
                                    query@,
                                ).map_values(|n: Seq<char>| (n, path@)),
                            decreases pk.len() - j,
                        {
                            assert(pv.take(j + 1).drop_last() =~= pv.take(j as int));
                            assert(pv.take(j + 1).last() == (pk@[j as int].0@, pk@[j as int].1@));
                            let c = strip_prefix_or_keep_exec(
                                &chars_of(pk[j].0.as_str()),
                                &chars_of("pkgs."),
                            );
                            let cs = string_of(&c);
                            let lc = to_lowercase(cs.as_str());
                            let ghost mid = matching_names(pv.take(j as int), query@);
                            if starts_with_exec(&chars_of(lc.as_str()), &chars_of(q.as_str())) {
                                let ghost old_r = found_view(r@);
                                r.push(FoundPackage { name: cs, file_path: path.clone() });
                                assert(found_view(r@) =~= old_r.push((c@, path@)));
                                assert(matching_names(pv.take(j + 1), query@) == mid.push(c@));
                                assert(mid.push(c@).map_values(|n: Seq<char>| (n, path@))
                                    =~= mid.map_values(|n: Seq<char>| (n, path@)).push(
                                    (c@, path@),
                                ));
                            } else {
                                assert(matching_names(pv.take(j + 1), query@) == mid);
                            }
                            j = j + 1;
                        }
                        assert(pv.take(pk.len() as int) =~= pv);
                    },
                    None => {},
                }
            }
            assert(found_in_file(dir@, name@, content@, query@) == found_view(r@).skip(
                before.len() as int,
            ));
            assert(found_view(r@) =~= before + found_view(r@).skip(before.len() as int));
            k = k + 1;
        }
        assert(fv.take(files.len() as int) =~= fv);
        r
    }

    /// Every package of the group directory with its group and comment,
    /// sorted by name; packages of the same name keep the order of the
    /// files. `files` holds the name and text of the group files, in the
    /// order in which the directory lists them.
    pub fn list_all_packages(&self, files: &Vec<(String, String)>) -> (r: Vec<
        (String, String, String),
    >)
        ensures
            sorted_by_name(rows_view(r@)),
            forall|k: Seq<char>| #[trigger]
                with_name(rows_view(r@), k) == with_name(rows_spec(files_view(files@)), k),
    {
        let ghost fv = files_view(files@);
        let mut rows: Vec<(String, String, String)> = Vec::new();
        let mut k: usize = 0;
        assert(fv.take(0) =~= Seq::<(Seq<char>, Seq<char>)>::empty());
        while k < files.len()
            invariant
                k <= files@.len(),
                fv == files_view(files@),
                rows_view(rows@) == rows_spec(fv.take(k as int)),
            decreases files.len() - k,
        {
            assert(fv.take(k + 1).drop_last() =~= fv.take(k as int));
            let (name, content) = &files[k];
            assert(fv.take(k + 1).last() == (name@, content@));
            let nc = chars_of(name.as_str());
            let ghost before = rows_view(rows@);
            match nix_extension_dot(&nc) {
                Some(dot) => {
                    match packages_in_file(content.as_str()) {
                        Some(pk) => {
                            let stem = string_of(&slice(&nc, 0, dot));
                            assert(stem@ =~= file_stem(name@));
                            let ghost pv = pairs_view(pk@);
                            let ghost f = |p: (Seq<char>, Seq<char>)|
                                (strip_prefix_or_keep(p.0, "pkgs."@), file_stem(name@), p.1);
                            let mut j: usize = 0;
                            assert(before + pv.take(0).map_values(f) =~= before);
                            while j < pk.len()
                                invariant
                                    j <= pk@.len(),
                                    pv == pairs_view(pk@),
                                    stem@ == file_stem(name@),
                                    f == (|p: (Seq<char>, Seq<char>)|
                                        (strip_prefix_or_keep(p.0, "pkgs."@), file_stem(name@), p.1)),
                                    rows_view(rows@) == before + pv.take(j as int).map_values(f),
                                decreases pk.len() - j,
                            {
                                assert(pv[j as int] == (pk@[j as int].0@, pk@[j as int].1@));
                                let c = strip_prefix_or_keep_exec(
                                    &chars_of(pk[j].0.as_str()),
                                    &chars_of("pkgs."),
                                );
                                let ghost old_r = rows_view(rows@);
                                rows.push((string_of(&c), stem.clone(), pk[j].1.clone()));
                                assert(rows_view(rows@) =~= old_r.push(f(pv[j as int])));
                                assert(pv.take(j + 1).map_values(f) =~= pv.take(j as int).map_values(
                                    f,
                                ).push(f(pv[j as int])));
                                j = j + 1;
                            }
                            assert(pv.take(pk.len() as int) =~= pv);
                        },
                        None => {},
                    }
                },
                None => {},
            }
            assert(rows_view(rows@) =~= before + rows_of_file(name@, content@));
            k = k + 1;
        }
        assert(fv.take(files.len() as int) =~= fv);
        sort_rows_by_name(rows)
    }

    /// Removes a package from the text of one of its group files.
    pub fn remove_package_from_file(&self, name: &str, content: &str) -> (r: Result<
        Option<String>,
        RixError,
    >)
        ensures
            edit_view(r) == remove_spec(content@, name@),
    {
        remove_from_group(content, name)
    }

    /// Checks that Nix is available and gives the command that updates the
    /// flake lock file, the first step of an index update.
    pub fn update_indexes(&self, nix_on_path: bool) -> (r: Result<CommandSpec, RixError>)
        ensures
            nix_on_path <==> r is Ok,
            r matches Err(e) ==> e@ == ErrorView::MissingSystemDependency(missing_nix_message()),
            r matches Ok(c) ==> {
                &&& c.program@ == "nix"@
                &&& strings_view(c.args@) == seq!["flake"@, "update"@]
                &&& c.env@.len() == 1
                &&& c.env@[0].0@ == "NIX_CONFIG"@
                &&& c.env@[0].1@ == rix_nix_config()
            },
    {
        self.verify_system(nix_on_path)?;
        let args = vec![String::from_str("flake"), String::from_str("update")];
        assert(strings_view(args@) =~= seq!["flake"@, "update"@]);
        Ok(CommandSpec { program: String::from_str("nix"), args, env: vec![nix_config_env()] })
    }

    /// Checks that Nix is available and gives the command that builds and
    /// activates the environment (or only previews it, for a dry run). The
    /// commit or rollback that follows the command, once it has run, is
    /// decided by `upgrade_follow_up`.
    pub fn apply_upgrade(&self, nix_on_path: bool, platform: TargetPlatform, dry_run: bool) -> (r:
        Result<CommandSpec, RixError>)
        ensures
            nix_on_path <==> r is Ok,
            r matches Err(e) ==> e@ == ErrorView::MissingSystemDependency(missing_nix_message()),
            r matches Ok(c) ==> {
                &&& (c.program@, strings_view(c.args@)) == upgrade_command_spec(
                    self.config_dir@,
                    self.is_system,
                    platform,
                    dry_run,
                )
                &&& c.env@.len() == 1
                &&& c.env@[0].0@ == "NIX_CONFIG"@
                &&& c.env@[0].1@ == rix_nix_config()
            },
    {
        self.verify_system(nix_on_path)?;
        let cfg = self.config_dir.clone();
        let is_nixos = match platform {
            TargetPlatform::NixOS => true,
            _ => false,
        };
        if self.is_system && is_nixos {
            let action = if dry_run {
                String::from_str("dry-build")
            } else {
                String::from_str("switch")
            };
            let target = string_of(&concat(&chars_of(cfg.as_str()), &chars_of("#system")));
            let args = vec![String::from_str("nixos-rebuild"), action, String::from_str("--flake"), target];
            assert(strings_view(args@) =~= upgrade_command_spec(
                self.config_dir@,
                self.is_system,
                platform,
                dry_run,
            ).1);
            Ok(CommandSpec { program: String::from_str("sudo"), args, env: vec![nix_config_env()] })
        } else {
            let mut args = vec![
                String::from_str("run"),
                String::from_str("nixpkgs#home-manager"),
                String::from_str("--"),
                String::from_str("switch"),
                String::from_str("--flake"),
                cfg,
            ];
            if dry_run {
                args.push(String::from_str("-n"));
            }
            assert(strings_view(args@) =~= upgrade_command_spec(
                self.config_dir@,
                self.is_system,
                platform,
                dry_run,
            ).1);
            Ok(CommandSpec { program: String::from_str("nix"), args, env: vec![nix_config_env()] })
        }
    }

    /// What follows an upgrade that succeeded or failed: a real upgrade
    /// that succeeded is committed (and, for a system scope, its binaries
    /// are bridged into `/usr/local/bin`); one that failed is rolled back.
    pub fn upgrade_follow_up(&self, dry_run: bool, succeeded: bool) -> (r: UpgradeFollowUp)
        ensures
            r.commit == (!dry_run && succeeded),
            r.bridge_binaries == (!dry_run && succeeded && self.is_system),
            r.rollback == (!dry_run && !succeeded),
    {
        UpgradeFollowUp {
            commit: !dry_run && succeeded,
            bridge_binaries: !dry_run && succeeded && self.is_system,
            rollback: !dry_run && !succeeded,
        }
    }
}

} // verus!
