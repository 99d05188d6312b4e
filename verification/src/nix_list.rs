//! Package lists in Nix group files: reading the entries, adding one,
//! removing one.
//!
//! A group file is a Nix function whose body is a list of packages, one
//! element per package, each optionally followed by a `# comment` that
//! describes it.
use vstd::prelude::*;
use crate::errors::{ErrorView, RixError};
use crate::nix_syntax::{
    ChildView, ListChild, ListModelView, NixKind, SyntaxEvent, children_view, list_model, list_model_spec, parse_nix,
    rnix_parse, source_text, events_view, ordered_children,
};
use crate::context::Package;
use crate::text::{
    chars_of, concat, contains, contains_exec, find, find_exec, rfind_char, rfind_char_exec,
    slice, split_char, split_char_exec, starts_with, starts_with_exec, strip_prefix_or_keep,
    strip_prefix_or_keep_exec, string_of, trim, trim_exec, trim_start_matches,
    trim_start_matches_exec, views, lemma_rfind_from, seq_eq,
};

verus! {

/// The comment that an entry gets when no comment follows it.
pub open spec fn default_comment() -> Seq<char> {
    "Managed via Rix"@
}

/// The comment that follows the element at `j - 1`: the first comment token
/// before the next element node, stripped of `#` and whitespace.
pub open spec fn comment_after(ch: Seq<ChildView>, j: int) -> Seq<char>
    decreases ch.len() - j,
{
    if j < 0 || j >= ch.len() || ch[j].is_node {
        default_comment()
    } else if ch[j].kind == NixKind::Comment {
        let cleaned = trim(trim_start_matches(ch[j].text, "#"@));
        if cleaned.len() > 0 {
            cleaned
        } else {
            default_comment()
        }
    } else {
        comment_after(ch, j + 1)
    }
}

/// The package name of a list element: its text, trimmed, without a leading
/// `pkgs.`.
pub open spec fn entry_name(c: ChildView) -> Seq<char> {
    strip_prefix_or_keep(trim(c.text), "pkgs."@)
}

/// Entries of the list elements from index `i` on.
pub open spec fn packages_scan(ch: Seq<ChildView>, i: int) -> Seq<(Seq<char>, Seq<char>)>
    decreases ch.len() - i,
{
    if i < 0 || i >= ch.len() {
        Seq::empty()
    } else if ch[i].is_node {
        seq![(entry_name(ch[i]), comment_after(ch, i + 1))] + packages_scan(ch, i + 1)
    } else {
        packages_scan(ch, i + 1)
    }
}

/// Entries (package name, comment) of a list, one per element node.
pub open spec fn packages_of(ch: Seq<ChildView>) -> Seq<(Seq<char>, Seq<char>)> {
    packages_scan(ch, 0)
}

/// Views of entries.
pub open spec fn pairs_view(v: Seq<(String, String)>) -> Seq<(Seq<char>, Seq<char>)> {
    v.map_values(|p: (String, String)| (p.0@, p.1@))
}

fn comment_after_exec(ch: &Vec<ListChild>, j: usize) -> (r: Vec<char>)
    ensures
        r@ == comment_after(children_view(ch@), j as int),
{
    let ghost cv = children_view(ch@);
    let mut k: usize = j;
    while k < ch.len()
        invariant
            cv == children_view(ch@),
            j <= k,
            comment_after(cv, j as int) == comment_after(cv, k as int),
        ensures
            comment_after(cv, j as int) == default_comment(),
        decreases ch.len() - k,
    {
        if ch[k].is_node {
            break;
        }
        if ch[k].kind == NixKind::Comment {
            let cleaned = trim_exec(&trim_start_matches_exec(&ch[k].text, &chars_of("#")));
            if cleaned.len() > 0 {
                return cleaned;
            } else {
                break;
            }
        }
        k = k + 1;
    }
    chars_of("Managed via Rix")
}

/// Entries (package name, comment) of the elements of a list node
/// (`extract_packages_from_list`).
pub fn extract_packages_from_list(ch: &Vec<ListChild>) -> (r: Vec<(String, String)>)
    ensures
        pairs_view(r@) == packages_of(children_view(ch@)),
{
    let ghost cv = children_view(ch@);
    let mut r: Vec<(String, String)> = Vec::new();
    let mut i: usize = 0;
    while i < ch.len()
        invariant
            cv == children_view(ch@),
            i <= ch.len(),
            packages_of(cv) == pairs_view(r@) + packages_scan(cv, i as int),
        decreases ch.len() - i,
    {
        if ch[i].is_node {
            let text = trim_exec(&ch[i].text);
            let name = strip_prefix_or_keep_exec(&text, &chars_of("pkgs."));
            let comment = comment_after_exec(ch, i + 1);
            let ghost before = pairs_view(r@);
            r.push((string_of(&name), string_of(&comment)));
            assert(pairs_view(r@) =~= before.push((name@, comment@)));
            assert(pairs_view(r@) + packages_scan(cv, i + 1) =~= before + packages_scan(
                cv,
                i as int,
            ));
        }
        i = i + 1;
    }
    assert(pairs_view(r@) + packages_scan(cv, i as int) =~= pairs_view(r@));
    r
}

/// Entries of a group file's text: `None` when rnix reports an error or the
/// text holds no list.
pub open spec fn file_packages(content: Seq<char>) -> Option<Seq<(Seq<char>, Seq<char>)>> {
    match rnix_parse(content) {
        Err(_) => None,
        Ok(evs) => match list_model_spec(evs) {
            None => None,
            Some(m) => Some(packages_of(m.children)),
        },
    }
}

/// Entries of a group file's text (`parse_root_node`, `find_list_node` and
/// `extract_packages_from_list` in turn); `None` when the text does not parse
/// or holds no list.
pub fn packages_in_file(content: &str) -> (r: Option<Vec<(String, String)>>)
    ensures
        match r {
            None => file_packages(content@) is None,
            Some(v) => file_packages(content@) == Some(pairs_view(v@)),
        },
{
    match parse_nix(content) {
        Err(_) => None,
        Ok(evs) => match list_model(&evs) {
            None => None,
            Some(m) => Some(extract_packages_from_list(&m.children)),
        },
    }
}

/// Text of the error that a failed pre-write validation reports.
pub open spec fn validation_message(listed: Seq<char>) -> Seq<char> {
    "rnix AST validation failed before write: "@ + listed
}

/// Checks, before a write, that a text is valid Nix (the check of
/// `write_content_to_file`).
pub fn validate_nix(content: &str) -> (r: Result<(), RixError>)
    ensures
        r is Ok <==> rnix_parse(content@) is Ok,
        r matches Err(e) ==> (rnix_parse(content@) matches Err((_, listed)) && e@
            == ErrorView::InvalidNixSyntax(validation_message(listed))),
{
    match parse_nix(content) {
        Ok(_) => Ok(()),
        Err(f) => {
            let msg = String::from_str("rnix AST validation failed before write: ");
            Err(RixError::InvalidNixSyntax(msg.concat(f.listed.as_str())))
        },
    }
}

// ---------------------------------------------------------------------------
// External flake entries
// ---------------------------------------------------------------------------

/// The marker with which an external flake entry starts.
pub open spec fn ext_marker() -> Seq<char> {
    "__ext_flake or ("@
}

/// The input alias of an external flake entry: what follows the marker up
/// to the first `.`.
pub open spec fn extract_alias_spec(s: Seq<char>) -> Option<Seq<char>> {
    match find(s, ext_marker()) {
        None => None,
        Some(idx) => {
            let rest = s.skip(idx + ext_marker().len());
            match find(rest, seq!['.']) {
                None => None,
                Some(d) => Some(rest.take(d)),
            }
        },
    }
}

/// Helper to parse the raw alias name out of an external flake entry.
pub fn extract_alias(s: &[char]) -> (r: Option<Vec<char>>)
    ensures
        match r {
            None => extract_alias_spec(s@) is None,
            Some(a) => extract_alias_spec(s@) == Some(a@),
        },
{
    let m = chars_of("__ext_flake or (");
    match find_exec(s, &m) {
        None => None,
        Some(idx) => {
            let rest = slice(s, idx + m.len(), s.len());
            assert(rest@ =~= s@.skip(idx + ext_marker().len()));
            let dot = vec!['.'];
            assert(dot@ =~= seq!['.']);
            match find_exec(&rest, &dot) {
                None => None,
                Some(d) => {
                    let a = slice(&rest, 0, d);
                    assert(a@ =~= rest@.take(d as int));
                    Some(a)
                },
            }
        },
    }
}

/// The fallback chain that resolves an external flake's package under any of
/// its usual output names.
pub open spec fn armored(a: Seq<char>) -> Seq<char> {
    ext_marker() + a + ".packages.${pkgs.system}.default or "@ + a
        + ".defaultPackage.${pkgs.system} or "@ + a + ".packages.${pkgs.system}."@ + a + ")"@
}

/// The name that is written for a package: an external flake entry of the
/// form `__ext_flake or (ALIAS.packages. ...` becomes the fallback chain of
/// ALIAS; any other name stays as it is.
pub open spec fn armored_name(n: Seq<char>) -> Seq<char> {
    match find(n, ext_marker()) {
        None => n,
        Some(st) => {
            let inner = n.skip(st + ext_marker().len());
            match find(inner, ".packages."@) {
                Some(d) => armored(inner.take(d)),
                None => n,
            }
        },
    }
}

fn armored_exec(a: &[char]) -> (r: Vec<char>)
    ensures
        r@ == armored(a@),
{
    let mut r = chars_of("__ext_flake or (");
    crate::text::extend(&mut r, a);
    crate::text::extend(&mut r, &chars_of(".packages.${pkgs.system}.default or "));
    crate::text::extend(&mut r, a);
    crate::text::extend(&mut r, &chars_of(".defaultPackage.${pkgs.system} or "));
    crate::text::extend(&mut r, a);
    crate::text::extend(&mut r, &chars_of(".packages.${pkgs.system}."));
    crate::text::extend(&mut r, a);
    crate::text::extend(&mut r, &chars_of(")"));
    r
}

fn armored_name_exec(n: &[char]) -> (r: Vec<char>)
    ensures
        r@ == armored_name(n@),
{
    let m = chars_of("__ext_flake or (");
    match find_exec(n, &m) {
        None => slice(n, 0, n.len()),
        Some(st) => {
            let inner = slice(n, st + m.len(), n.len());
            assert(inner@ =~= n@.skip(st + ext_marker().len()));
            match find_exec(&inner, &chars_of(".packages.")) {
                Some(d) => {
                    let a = slice(&inner, 0, d);
                    assert(a@ =~= inner@.take(d as int));
                    armored_exec(&a)
                },
                None => slice(n, 0, n.len()),
            }
        },
    }
}

/// A listed entry stands for the package `n`: same name, or external flake
/// entries of the same alias.
pub open spec fn same_entry(listed: Seq<char>, n: Seq<char>) -> bool {
    listed == n || (extract_alias_spec(listed) is Some && extract_alias_spec(listed)
        == extract_alias_spec(n))
}

fn same_entry_exec(listed: &[char], n: &[char]) -> (b: bool)
    ensures
        b == same_entry(listed@, n@),
{
    if seq_eq(listed, n) {
        return true;
    }
    match (extract_alias(listed), extract_alias(n)) {
        (Some(a), Some(b)) => seq_eq(a.as_slice(), b.as_slice()),
        _ => false,
    }
}

/// Index of the first element from `i` on that stands for package `n`,
/// an element being read through its wrapper, if it has one (`entry_key`).
pub open spec fn listed_from(ch: Seq<ChildView>, n: Seq<char>, i: int) -> Option<int>
    decreases ch.len() - i,
{
    if i < 0 || i >= ch.len() {
        None
    } else if ch[i].is_node && same_entry(entry_key(ch[i].text), n) {
        Some(i)
    } else {
        listed_from(ch, n, i + 1)
    }
}

proof fn lemma_listed_from(ch: Seq<ChildView>, n: Seq<char>, i: int)
    ensures
        listed_from(ch, n, i) matches Some(k) ==> i <= k < ch.len() && ch[k].is_node,
    decreases ch.len() - i,
{
    if 0 <= i < ch.len() && !(ch[i].is_node && same_entry(entry_key(ch[i].text), n)) {
        lemma_listed_from(ch, n, i + 1);
    }
}

fn listed_at_exec(ch: &Vec<ListChild>, n: &[char]) -> (r: Option<usize>)
    ensures
        match r {
            Some(i) => listed_from(children_view(ch@), n@, 0) == Some(i as int) && i < ch@.len(),
            None => listed_from(children_view(ch@), n@, 0) is None,
        },
{
    let ghost cv = children_view(ch@);
    let mut i: usize = 0;
    while i < ch.len()
        invariant
            cv == children_view(ch@),
            i <= ch@.len(),
            listed_from(cv, n@, 0) == listed_from(cv, n@, i as int),
        decreases ch.len() - i,
    {
        if ch[i].is_node {
            let key = entry_key_exec(&ch[i].text);
            if same_entry_exec(&key, n) {
                return Some(i);
            }
        }
        i = i + 1;
    }
    None
}

/// Index of the comment token that follows the element at `j - 1`: the
/// first comment among the tokens before the next element.
pub open spec fn comment_index(ch: Seq<ChildView>, j: int) -> Option<int>
    decreases ch.len() - j,
{
    if j < 0 || j >= ch.len() || ch[j].is_node {
        None
    } else if ch[j].kind == NixKind::Comment {
        Some(j)
    } else {
        comment_index(ch, j + 1)
    }
}

proof fn lemma_comment_index(ch: Seq<ChildView>, j: int)
    ensures
        comment_index(ch, j) matches Some(k) ==> j <= k < ch.len() && !ch[k].is_node,
    decreases ch.len() - j,
{
    if 0 <= j < ch.len() && !ch[j].is_node && ch[j].kind != NixKind::Comment {
        lemma_comment_index(ch, j + 1);
    }
}

fn comment_index_exec(ch: &Vec<ListChild>, j: usize) -> (r: Option<usize>)
    ensures
        match r {
            Some(k) => comment_index(children_view(ch@), j as int) == Some(k as int) && k < ch@.len(),
            None => comment_index(children_view(ch@), j as int) is None,
        },
{
    let ghost cv = children_view(ch@);
    let mut k: usize = j;
    while k < ch.len()
        invariant
            cv == children_view(ch@),
            j <= k,
            comment_index(cv, j as int) == comment_index(cv, k as int),
        decreases ch.len() - k,
    {
        if ch[k].is_node {
            return None;
        }
        if ch[k].kind == NixKind::Comment {
            return Some(k);
        }
        k = k + 1;
    }
    None
}

// ---------------------------------------------------------------------------
// Adding a package
// ---------------------------------------------------------------------------

pub open spec fn wrap_head() -> Seq<char> {
    "  (pkgs.symlinkJoin { name = \""@
}

pub open spec fn wrap_paths() -> Seq<char> {
    "-rix-wrap\"; paths = [ pkgs."@
}

pub open spec fn wrap_script() -> Seq<char> {
    " ]; postBuild = ''\n    if [ -d $out/bin ]; then\n      for bin in $out/bin/*; do\n        filename=$(basename \"$bin\")\n        rm \"$bin\"\n        echo \"#!/bin/sh\" > \"$bin\"\n        echo \"exec ${pkgs.nixgl.${import ../../hardware-state.nix}}/bin/${import ../../hardware-state.nix} ${pkgs."@
}

pub open spec fn wrap_tail() -> Seq<char> {
    "}/bin/$filename \\\"\\$@\\\"\" >> \"$bin\"\n        chmod +x \"$bin\"\n      done\n    fi\n  ''; }) # "@
}

/// The line that lists package `n` with comment `d`: a plain `pkgs.` entry,
/// or, on machines with a NixGL wrapper, a `symlinkJoin` that runs every
/// binary of the package through the wrapper.
pub open spec fn entry_line(n: Seq<char>, d: Seq<char>, wrapped: bool) -> Seq<char> {
    if wrapped {
        wrap_head() + n + wrap_paths() + n + wrap_script() + n + wrap_tail() + d + "\n"@
    } else {
        "  pkgs."@ + n + " # "@ + d + "\n"@
    }
}

fn entry_line_exec(n: &[char], d: &[char], wrapped: bool) -> (r: Vec<char>)
    ensures
        r@ == entry_line(n@, d@, wrapped),
{
    if wrapped {
        let mut r = chars_of("  (pkgs.symlinkJoin { name = \"");
        crate::text::extend(&mut r, n);
        crate::text::extend(&mut r, &chars_of("-rix-wrap\"; paths = [ pkgs."));
        crate::text::extend(&mut r, n);
        crate::text::extend(&mut r, &chars_of(" ]; postBuild = ''\n    if [ -d $out/bin ]; then\n      for bin in $out/bin/*; do\n        filename=$(basename \"$bin\")\n        rm \"$bin\"\n        echo \"#!/bin/sh\" > \"$bin\"\n        echo \"exec ${pkgs.nixgl.${import ../../hardware-state.nix}}/bin/${import ../../hardware-state.nix} ${pkgs."));
        crate::text::extend(&mut r, n);
        crate::text::extend(&mut r, &chars_of("}/bin/$filename \\\"\\$@\\\"\" >> \"$bin\"\n        chmod +x \"$bin\"\n      done\n    fi\n  ''; }) # "));
        crate::text::extend(&mut r, d);
        crate::text::extend(&mut r, &chars_of("\n"));
        r
    } else {
        let mut r = chars_of("  pkgs.");
        crate::text::extend(&mut r, n);
        crate::text::extend(&mut r, &chars_of(" # "));
        crate::text::extend(&mut r, d);
        crate::text::extend(&mut r, &chars_of("\n"));
        r
    }
}

/// Outcome of an edit of a group file: the new text, or `None` when the file
/// stays as it is.
pub open spec fn edit_view(r: Result<Option<String>, RixError>) -> Result<Option<Seq<char>>, ErrorView> {
    match r {
        Ok(None) => Ok(None),
        Ok(Some(s)) => Ok(Some(s@)),
        Err(e) => Err(e@),
    }
}

/// Views of optional texts.
pub open spec fn opt_chars(o: Option<String>) -> Option<Seq<char>> {
    match o {
        Some(s) => Some(s@),
        None => None,
    }
}

/// Giving the listed element at `i` the comment `d`: nothing when its
/// comment reads `d` already; otherwise its comment token becomes `# d`, or
/// ` # d` follows the element when no comment does.
pub open spec fn comment_update(content: Seq<char>, ch: Seq<ChildView>, i: int, d: Seq<char>) -> Option<
    Seq<char>,
> {
    match comment_index(ch, i + 1) {
        Some(c) => if trim(trim_start_matches(ch[c].text, "#"@)) == d {
            None
        } else {
            Some(content.take(ch[c].start) + "# "@ + d + content.skip(ch[c].end))
        },
        None => Some(content.take(ch[i].end) + " # "@ + d + content.skip(ch[i].end)),
    }
}

/// Adding package `name` to a group file's text: the entry line, with the
/// given description or the default one as its comment, goes right before
/// the rightmost token of the first list (its closing bracket). When an
/// entry already stands for the package, only a given description changes
/// anything: it becomes the comment of the first such entry.
pub open spec fn add_spec(content: Seq<char>, name: Seq<char>, desc: Option<Seq<char>>, wrapped: bool) -> Result<
    Option<Seq<char>>,
    ErrorView,
> {
    match rnix_parse(content) {
        Err((dbg, _)) => Err(ErrorView::ParseError(dbg)),
        Ok(evs) => add_parsed_spec(content, evs, name, desc, wrapped),
    }
}

/// Adding package `name` to a group file's text, given the walk of its
/// syntax tree (see `add_spec`).
pub open spec fn add_parsed_spec(
    content: Seq<char>,
    evs: Seq<crate::nix_syntax::EventView>,
    name: Seq<char>,
    desc: Option<Seq<char>>,
    wrapped: bool,
) -> Result<Option<Seq<char>>, ErrorView> {
    match list_model_spec(evs) {
            None => Err(ErrorView::ParseError("No list block [ ... ] found in target file"@)),
            Some(m) => {
                let n = armored_name(name);
                match listed_from(m.children, n, 0) {
                    Some(i) => match desc {
                        None => Ok(None),
                        Some(d) => Ok(comment_update(content, m.children, i, d)),
                    },
                    None => {
                        let d = match desc {
                            Some(d) => d,
                            None => "Installed via Rix"@,
                        };
                        match m.last_token_start {
                            None => Err(ErrorView::ParseError("Could not find closing bracket of list"@)),
                            Some(t) => Ok(Some(content.take(t) + entry_line(n, d, wrapped) + content.skip(t))),
                        }
                    },
                }
            },
    }
}

fn splice(c: &Vec<char>, a: usize, b: usize, mid: &Vec<char>) -> (r: String)
    requires
        a <= b <= c@.len(),
    ensures
        r@ == c@.take(a as int) + mid@ + c@.skip(b as int),
{
    let head = slice(c, 0, a);
    let tail = slice(c, b, c.len());
    let out = concat(&concat(&head, mid), &tail);
    assert(out@ =~= c@.take(a as int) + mid@ + c@.skip(b as int));
    string_of(&out)
}

/// Adds a package to the text of its group file (the new-file template
/// stands in for a missing file), or updates the comment of its entry when
/// it is listed already and a description is given. `None`: the file stays
/// as it is. `wrapper` is the NixGL wrapper of this machine, if any.
pub fn add_package(content: &str, package: &Package, wrapper: &Option<String>) -> (r: Result<
    Option<String>,
    RixError,
>)
    ensures
        edit_view(r) == add_spec(
            content@,
            package.name@,
            opt_chars(package.description),
            wrapper is Some,
        ),
{
    let evs = match parse_nix(content) {
        Err(f) => return Err(RixError::ParseError(f.debug)),
        Ok(evs) => evs,
    };
    add_to_parsed(content, &evs, package, wrapper)
}

/// Adds a package to the text of its group file, given the walk of the
/// text's syntax tree (what `parse_nix` returns for it).
pub fn add_to_parsed(content: &str, evs: &Vec<SyntaxEvent>, package: &Package, wrapper: &Option<String>) -> (r: Result<
    Option<String>,
    RixError,
>)
    requires
        source_text(events_view(evs@)) == content@,
    ensures
        edit_view(r) == add_parsed_spec(
            content@,
            events_view(evs@),
            package.name@,
            opt_chars(package.description),
            wrapper is Some,
        ),
{
    let m = match list_model(evs) {
        None => return Err(RixError::ParseError(String::from_str("No list block [ ... ] found in target file"))),
        Some(m) => m,
    };
    let ghost cv = children_view(m.children@);
    let c = chars_of(content);
    let n = armored_name_exec(&chars_of(package.name.as_str()));
    match listed_at_exec(&m.children, &n) {
        Some(i) => {
            let d = match &package.description {
                None => return Ok(None),
                Some(s) => chars_of(s.as_str()),
            };
            proof {
                lemma_listed_from(cv, n@, 0);
            }
            assert(i < m.children.len());
            assert(0 <= cv[i as int].start <= cv[i as int].end <= c@.len());
            match comment_index_exec(&m.children, i + 1) {
                Some(k) => {
                    proof {
                        lemma_comment_index(cv, i + 1);
                    }
                    let cleaned = trim_exec(&trim_start_matches_exec(&m.children[k].text, &chars_of("#")));
                    if seq_eq(cleaned.as_slice(), d.as_slice()) {
                        return Ok(None);
                    }
                    let mid = concat(&chars_of("# "), &d);
                    assert(0 <= cv[k as int].start <= cv[k as int].end <= c@.len());
                    let out = splice(&c, m.children[k].start, m.children[k].end, &mid);
                    assert(out@ =~= content@.take(cv[k as int].start) + "# "@ + d@ + content@.skip(
                        cv[k as int].end,
                    ));
                    Ok(Some(out))
                },
                None => {
                    let mid = concat(&chars_of(" # "), &d);
                    let out = splice(&c, m.children[i].end, m.children[i].end, &mid);
                    assert(out@ =~= content@.take(cv[i as int].end) + " # "@ + d@ + content@.skip(
                        cv[i as int].end,
                    ));
                    Ok(Some(out))
                },
            }
        },
        None => {
            let d = match &package.description {
                Some(s) => chars_of(s.as_str()),
                None => chars_of("Installed via Rix"),
            };
            let t = match m.last_token_start {
                None => return Err(RixError::ParseError(String::from_str("Could not find closing bracket of list"))),
                Some(t) => t,
            };
            let line = entry_line_exec(&n, &d, wrapper.is_some());
            Ok(Some(splice(&c, t, t, &line)))
        },
    }
}

proof fn lemma_comment_follows(x: Seq<char>, d: Seq<char>, y: Seq<char>)
    requires
        x.len() >= 2,
        x.skip(x.len() - 2) == "# "@,
    ensures
        contains(x + d + y, "# "@ + d),
{
    let s = x + d + y;
    let p = "# "@ + d;
    let k = x.len() - 2;
    assert(s.subrange(k, k + p.len()) =~= p);
    assert(crate::text::match_at(s, p, k));
    crate::text::lemma_match_found(s, p, 0, k);
}

/// What an addition writes carries the comment it was asked for: when the
/// text of the group file changes, the new text holds `# ` and the given
/// description (the default one for a new entry without one), whether a
/// new entry was written or the comment of an existing one was replaced.
pub proof fn law_added_comment_in_text(
    content: Seq<char>,
    name: Seq<char>,
    desc: Option<Seq<char>>,
    wrapped: bool,
)
    ensures
        add_spec(content, name, desc, wrapped) matches Ok(Some(t)) ==> contains(
            t,
            "# "@ + match desc {
                Some(d) => d,
                None => "Installed via Rix"@,
            },
        ),
{
    reveal_strlit("# ");
    reveal_strlit(" # ");
    reveal_strlit("  pkgs.");
    reveal_strlit("}/bin/$filename \\\"\\$@\\\"\" >> \"$bin\"\n        chmod +x \"$bin\"\n      done\n    fi\n  ''; }) # ");
    let d = match desc {
        Some(d) => d,
        None => "Installed via Rix"@,
    };
    if let Ok(evs) = rnix_parse(content) {
        if let Some(m) = list_model_spec(evs) {
            let n = armored_name(name);
            match listed_from(m.children, n, 0) {
                Some(i) => {
                    if let Some(dd) = desc {
                        let ch = m.children;
                        match comment_index(ch, i + 1) {
                            Some(c) => {
                                let x = content.take(ch[c].start) + "# "@;
                                assert(x.skip(x.len() - 2) =~= "# "@);
                                lemma_comment_follows(x, dd, content.skip(ch[c].end));
                                assert(x + dd + content.skip(ch[c].end) =~= content.take(ch[c].start)
                                    + "# "@ + dd + content.skip(ch[c].end));
                            },
                            None => {
                                let x = content.take(ch[i].end) + " # "@;
                                assert(x.skip(x.len() - 2) =~= "# "@);
                                lemma_comment_follows(x, dd, content.skip(ch[i].end));
                                assert(x + dd + content.skip(ch[i].end) =~= content.take(ch[i].end)
                                    + " # "@ + dd + content.skip(ch[i].end));
                            },
                        }
                    }
                },
                None => {
                    if let Some(t) = m.last_token_start {
                        let x = if wrapped {
                            wrap_head() + n + wrap_paths() + n + wrap_script() + n + wrap_tail()
                        } else {
                            "  pkgs."@ + n + " # "@
                        };
                        assert(x.skip(x.len() - 2) =~= "# "@);
                        lemma_comment_follows(x, d, "\n"@);
                        assert(entry_line(n, d, wrapped) =~= x + d + "\n"@);
                        crate::text::lemma_contains_concat(
                            content.take(t),
                            entry_line(n, d, wrapped),
                            content.skip(t),
                            "# "@ + d,
                        );
                    }
                },
            }
        }
    }
}

// ---------------------------------------------------------------------------
// Removing a package
// ---------------------------------------------------------------------------

/// The package that a list element stands for, as removal matches it: the
/// script name of a `writeShellScriptBin` wrapper, the wrapped package of a
/// `symlinkJoin` wrapper, else the element without a leading `pkgs.`.
pub open spec fn entry_key(text: Seq<char>) -> Seq<char> {
    let t = trim(text);
    if starts_with(t, "(pkgs.writeShellScriptBin"@) {
        let parts = split_char(t, '"');
        if parts.len() >= 3 {
            parts[1]
        } else {
            t
        }
    } else if starts_with(t, "(pkgs.symlinkJoin"@) {
        match find(t, "paths = [ pkgs."@) {
            Some(st) => {
                let rest = t.skip(st + "paths = [ pkgs."@.len());
                let end = match find(rest, " ]"@) {
                    Some(e) => e,
                    None => rest.len() as int,
                };
                rest.take(end)
            },
            None => t,
        }
    } else {
        strip_prefix_or_keep(t, "pkgs."@)
    }
}

fn entry_key_exec(text: &[char]) -> (r: Vec<char>)
    ensures
        r@ == entry_key(text@),
{
    let t = trim_exec(text);
    if starts_with_exec(&t, &chars_of("(pkgs.writeShellScriptBin")) {
        let parts = split_char_exec(&t, '"');
        if parts.len() >= 3 {
            assert(views(parts@)[1] == parts@[1]@);
            slice(&parts[1], 0, parts[1].len())
        } else {
            t
        }
    } else if starts_with_exec(&t, &chars_of("(pkgs.symlinkJoin")) {
        let pat = chars_of("paths = [ pkgs.");
        match find_exec(&t, &pat) {
            Some(st) => {
                let rest = slice(&t, st + pat.len(), t.len());
                assert(rest@ =~= t@.skip(st + "paths = [ pkgs."@.len()));
                let end = match find_exec(&rest, &chars_of(" ]")) {
                    Some(e) => e,
                    None => rest.len(),
                };
                let r = slice(&rest, 0, end);
                assert(r@ =~= rest@.take(end as int));
                r
            },
            None => t,
        }
    } else {
        strip_prefix_or_keep_exec(&t, &chars_of("pkgs."))
    }
}

/// An element key matches the requested name: equal, or an external flake
/// entry whose alias is the name or the alias of the name.
pub open spec fn entry_matches(key: Seq<char>, name: Seq<char>) -> bool {
    key == name || match extract_alias_spec(key) {
        Some(a) => a == name || extract_alias_spec(name) == Some(a),
        None => false,
    }
}

fn entry_matches_exec(key: &[char], name: &[char]) -> (r: bool)
    ensures
        r == entry_matches(key@, name@),
{
    if seq_eq(key, name) {
        return true;
    }
    match extract_alias(key) {
        None => false,
        Some(a) => {
            if seq_eq(&a, name) {
                true
            } else {
                match extract_alias(name) {
                    Some(b) => seq_eq(&b, &a),
                    None => false,
                }
            }
        },
    }
}

/// Where the removed span ends: it takes in the comment and whitespace tokens
/// that follow the element, up to and including the first whitespace token
/// that holds a line break.
pub open spec fn removal_end(ch: Seq<ChildView>, j: int, end: int) -> int
    decreases ch.len() - j,
{
    if j < 0 || j >= ch.len() || ch[j].is_node {
        end
    } else if ch[j].kind == NixKind::Comment {
        removal_end(ch, j + 1, ch[j].end)
    } else if ch[j].kind == NixKind::Whitespace {
        if contains(ch[j].text, "\n"@) {
            ch[j].end
        } else {
            removal_end(ch, j + 1, ch[j].end)
        }
    } else {
        end
    }
}

/// Where the removed span starts: it takes in the indentation before the
/// element, back to the last line break of the whitespace before it.
pub open spec fn removal_start(ch: Seq<ChildView>, j: int, start: int) -> int
    decreases j + 1,
{
    if j < 0 || j >= ch.len() || ch[j].is_node {
        start
    } else if ch[j].kind == NixKind::Whitespace {
        match rfind_char(ch[j].text, '\n') {
            Some(p) => ch[j].start + p + 1,
            None => removal_start(ch, j - 1, ch[j].start),
        }
    } else {
        start
    }
}

/// Whether the scan of `removal_end` from `j` stops at a line break.
pub open spec fn end_breaks(ch: Seq<ChildView>, j: int) -> bool
    decreases ch.len() - j,
{
    if j < 0 || j >= ch.len() || ch[j].is_node {
        false
    } else if ch[j].kind == NixKind::Comment {
        end_breaks(ch, j + 1)
    } else if ch[j].kind == NixKind::Whitespace {
        contains(ch[j].text, "\n"@) || end_breaks(ch, j + 1)
    } else {
        false
    }
}

/// Whether the scan of `removal_start` back from `j` stops at a line break.
pub open spec fn start_breaks(ch: Seq<ChildView>, j: int) -> bool
    decreases j + 1,
{
    if j < 0 || j >= ch.len() || ch[j].is_node {
        false
    } else if ch[j].kind == NixKind::Whitespace {
        rfind_char(ch[j].text, '\n') is Some || start_breaks(ch, j - 1)
    } else {
        false
    }
}

/// The span cut out for the element at `i`: its trailing comment and
/// whitespace up to the first line break, and its indentation back to the
/// last line break. When no line break bounds the element on either side,
/// the whitespace before it stays, so that its neighbours stay apart.
pub open spec fn removal_span(ch: Seq<ChildView>, i: int) -> (int, int) {
    let a = if start_breaks(ch, i - 1) || end_breaks(ch, i + 1) {
        removal_start(ch, i - 1, ch[i].start)
    } else {
        ch[i].start
    };
    (a, removal_end(ch, i + 1, ch[i].end))
}

/// The span of the first element node, from index `i` on, that matches the
/// name.
pub open spec fn removal_scan(ch: Seq<ChildView>, name: Seq<char>, i: int) -> Option<(int, int)>
    decreases ch.len() - i,
{
    if i < 0 || i >= ch.len() {
        None
    } else if ch[i].is_node && entry_matches(entry_key(ch[i].text), name) {
        Some(removal_span(ch, i))
    } else {
        removal_scan(ch, name, i + 1)
    }
}

proof fn lemma_removal_start(ch: Seq<ChildView>, n: int, j: int, s: int)
    requires
        ordered_children(ch, n),
        -1 <= j < ch.len(),
        0 <= s,
        j >= 0 ==> ch[j].end <= s,
    ensures
        0 <= removal_start(ch, j, s) <= s,
    decreases j + 1,
{
    if j < 0 || ch[j].is_node {
    } else if ch[j].kind == NixKind::Whitespace {
        match rfind_char(ch[j].text, '\n') {
            Some(p) => {
                lemma_rfind_from(ch[j].text, '\n', ch[j].text.len() as int);
                assert(ch[j].start + p + 1 <= ch[j].end);
            },
            None => {
                if j >= 1 {
                    assert(ch[j - 1].end <= ch[j].start);
                }
                lemma_removal_start(ch, n, j - 1, ch[j].start);
            },
        }
    } else {
    }
}

proof fn lemma_removal_end(ch: Seq<ChildView>, n: int, j: int, e: int)
    requires
        ordered_children(ch, n),
        0 <= j <= ch.len(),
        e <= n,
        j < ch.len() ==> e <= ch[j].start,
    ensures
        e <= removal_end(ch, j, e) <= n,
    decreases ch.len() - j,
{
    if j >= ch.len() || ch[j].is_node {
    } else if ch[j].kind == NixKind::Comment {
        if j + 1 < ch.len() {
            assert(ch[j].end <= ch[j + 1].start);
        }
        lemma_removal_end(ch, n, j + 1, ch[j].end);
    } else if ch[j].kind == NixKind::Whitespace {
        if !contains(ch[j].text, "\n"@) {
            if j + 1 < ch.len() {
                assert(ch[j].end <= ch[j + 1].start);
            }
            lemma_removal_end(ch, n, j + 1, ch[j].end);
        }
    } else {
    }
}

proof fn lemma_removal_start_after_nodes(ch: Seq<ChildView>, n: int, j: int, s: int, k: int)
    requires
        ordered_children(ch, n),
        -1 <= j < ch.len(),
        j >= 0 ==> ch[j].end <= s,
        0 <= k <= j,
        ch[k].is_node,
    ensures
        ch[k].end <= removal_start(ch, j, s),
    decreases j + 1,
{
    if k < j {
        assert(ch[k].end <= ch[j].start);
    }
    assert(ch[j].start <= ch[j].end);
    if k == j || ch[j].is_node {
    } else if ch[j].kind == NixKind::Whitespace {
        match rfind_char(ch[j].text, '\n') {
            Some(p) => {
                lemma_rfind_from(ch[j].text, '\n', ch[j].text.len() as int);
            },
            None => {
                assert(ch[j - 1].end <= ch[j].start);
                lemma_removal_start_after_nodes(ch, n, j - 1, ch[j].start, k);
            },
        }
    } else {
    }
}

proof fn lemma_removal_end_before_nodes(ch: Seq<ChildView>, n: int, j: int, e: int, k: int)
    requires
        ordered_children(ch, n),
        0 <= j <= ch.len(),
        j < ch.len() ==> e <= ch[j].start,
        j <= k < ch.len(),
        ch[k].is_node,
    ensures
        removal_end(ch, j, e) <= ch[k].start,
    decreases ch.len() - j,
{
    if k == j || ch[j].is_node {
    } else if ch[j].kind == NixKind::Comment {
        assert(ch[j].end <= ch[j + 1].start);
        lemma_removal_end_before_nodes(ch, n, j + 1, ch[j].end, k);
    } else if ch[j].kind == NixKind::Whitespace {
        if !contains(ch[j].text, "\n"@) {
            assert(ch[j].end <= ch[j + 1].start);
            lemma_removal_end_before_nodes(ch, n, j + 1, ch[j].end, k);
        }
    } else {
    }
}

/// Removal cuts out one element and nothing of the others: the span cut
/// for the first element that matches holds that element, no other element
/// node of the list reaches into it, and when no line break bounds the
/// element on either side, everything before the element stays, so the
/// separator between its neighbours stays too.
pub proof fn law_removal_keeps_other_elements(ch: Seq<ChildView>, n: int, name: Seq<char>, i: int)
    requires
        ordered_children(ch, n),
        0 <= i < ch.len(),
        ch[i].is_node,
        entry_matches(entry_key(ch[i].text), name),
        forall|k: int| 0 <= k < i ==> !(ch[k].is_node && entry_matches(entry_key(ch[k].text), name)),
    ensures
        removal_scan(ch, name, 0) == Some(removal_span(ch, i)),
        removal_span(ch, i).0 <= ch[i].start,
        ch[i].end <= removal_span(ch, i).1 <= n,
        forall|k: int|
            0 <= k < ch.len() && k != i && #[trigger] ch[k].is_node ==> ch[k].end <= removal_span(
                ch,
                i,
            ).0 || removal_span(ch, i).1 <= ch[k].start,
        !start_breaks(ch, i - 1) && !end_breaks(ch, i + 1) ==> removal_span(ch, i).0 == ch[i].start,
{
    assert forall|j: int| 0 <= j <= i implies removal_scan(ch, name, j) == removal_scan(ch, name, i) by {
        lemma_removal_scan_skips(ch, name, j, i);
    }
    if i >= 1 {
        assert(ch[i - 1].end <= ch[i].start);
    }
    if i + 1 < ch.len() {
        assert(ch[i].end <= ch[i + 1].start);
    }
    lemma_removal_start(ch, n, i - 1, ch[i].start);
    lemma_removal_end(ch, n, i + 1, ch[i].end);
    let (a, b) = removal_span(ch, i);
    assert forall|k: int|
        0 <= k < ch.len() && k != i && #[trigger] ch[k].is_node implies ch[k].end <= a || b <= ch[k].start by {
        if k < i {
            assert(ch[k].end <= ch[i].start);
            if start_breaks(ch, i - 1) || end_breaks(ch, i + 1) {
                lemma_removal_start_after_nodes(ch, n, i - 1, ch[i].start, k);
            }
        } else {
            lemma_removal_end_before_nodes(ch, n, i + 1, ch[i].end, k);
        }
    }
}

proof fn lemma_removal_scan_skips(ch: Seq<ChildView>, name: Seq<char>, j: int, i: int)
    requires
        0 <= j <= i < ch.len(),
        forall|k: int| 0 <= k < i ==> !(ch[k].is_node && entry_matches(entry_key(ch[k].text), name)),
    ensures
        removal_scan(ch, name, j) == removal_scan(ch, name, i),
    decreases i - j,
{
    if j < i {
        lemma_removal_scan_skips(ch, name, j + 1, i);
    }
}

fn removal_end_exec(ch: &Vec<ListChild>, j: usize, end: usize) -> (r: (usize, bool))
    ensures
        r.0 as int == removal_end(children_view(ch@), j as int, end as int),
        r.1 == end_breaks(children_view(ch@), j as int),
{
    let ghost cv = children_view(ch@);
    let mut k: usize = j;
    let mut e: usize = end;
    while k < ch.len()
        invariant
            cv == children_view(ch@),
            j <= k,
            removal_end(cv, j as int, end as int) == removal_end(cv, k as int, e as int),
            end_breaks(cv, j as int) == end_breaks(cv, k as int),
        ensures
            removal_end(cv, j as int, end as int) == e as int,
            !end_breaks(cv, j as int),
        decreases ch.len() - k,
    {
        if ch[k].is_node {
            break;
        }
        if ch[k].kind == NixKind::Comment {
            e = ch[k].end;
        } else if ch[k].kind == NixKind::Whitespace {
            if contains_exec(&ch[k].text, &chars_of("\n")) {
                return (ch[k].end, true);
            }
            e = ch[k].end;
        } else {
            break;
        }
        k = k + 1;
    }
    (e, false)
}

fn removal_start_exec(ch: &Vec<ListChild>, i: usize, start: usize) -> (r: (usize, bool))
    requires
        i <= ch@.len(),
        ordered_children(children_view(ch@), usize::MAX as int),
        i < ch@.len() ==> start <= ch@[i as int].start,
    ensures
        r.0 as int == removal_start(children_view(ch@), i - 1, start as int),
        r.1 == start_breaks(children_view(ch@), i - 1),
{
    let ghost cv = children_view(ch@);
    let mut j: usize = i;
    let mut s: usize = start;
    while j > 0
        invariant
            cv == children_view(ch@),
            j <= i,
            i <= ch@.len(),
            ordered_children(cv, usize::MAX as int),
            removal_start(cv, i - 1, start as int) == removal_start(cv, j - 1, s as int),
            start_breaks(cv, i - 1) == start_breaks(cv, j - 1),
        ensures
            removal_start(cv, i - 1, start as int) == s as int,
            !start_breaks(cv, i - 1),
        decreases j,
    {
        let k = j - 1;
        if ch[k].is_node {
            break;
        }
        if ch[k].kind == NixKind::Whitespace {
            match rfind_char_exec(&ch[k].text, '\n') {
                Some(p) => {
                    proof {
                        lemma_rfind_from(ch@[k as int].text@, '\n', ch@[k as int].text@.len() as int);
                        assert(cv[k as int].end == cv[k as int].start + cv[k as int].text.len());
                        assert(cv[k as int].end <= usize::MAX);
                    }
                    return (ch[k].start + p + 1, true);
                },
                None => {
                    s = ch[k].start;
                },
            }
        } else {
            break;
        }
        j = j - 1;
    }
    (s, false)
}

/// Removing package `name` from a group file's text: the span of the first
/// matching element (see `removal_span`) is cut out.
pub open spec fn remove_spec(content: Seq<char>, name: Seq<char>) -> Result<Option<Seq<char>>, ErrorView> {
    match rnix_parse(content) {
        Err((dbg, _)) => Err(ErrorView::ParseError(dbg)),
        Ok(evs) => remove_parsed_spec(content, evs, name),
    }
}

/// Removing package `name` from a group file's text, given the walk of its
/// syntax tree.
pub open spec fn remove_parsed_spec(
    content: Seq<char>,
    evs: Seq<crate::nix_syntax::EventView>,
    name: Seq<char>,
) -> Result<Option<Seq<char>>, ErrorView> {
    match list_model_spec(evs) {
        None => Err(ErrorView::ParseError("No list block [ ... ] found"@)),
        Some(m) => match removal_scan(m.children, name, 0) {
            None => Ok(None),
            Some((a, b)) => Ok(Some(content.take(a) + content.skip(b))),
        },
    }
}

/// Removes a package from the text of its group file. `None`: no element
/// matches, the file stays as it is.
pub fn remove_package_from_file(content: &str, name: &str) -> (r: Result<Option<String>, RixError>)
    ensures
        edit_view(r) == remove_spec(content@, name@),
{
    let evs = match parse_nix(content) {
        Err(f) => return Err(RixError::ParseError(f.debug)),
        Ok(evs) => evs,
    };
    remove_from_parsed(content, &evs, name)
}

/// Removes a package from the text of its group file, given the walk of the
/// text's syntax tree (what `parse_nix` returns for it).
pub fn remove_from_parsed(content: &str, evs: &Vec<SyntaxEvent>, name: &str) -> (r: Result<Option<String>, RixError>)
    requires
        source_text(events_view(evs@)) == content@,
    ensures
        edit_view(r) == remove_parsed_spec(content@, events_view(evs@), name@),
{
    let m = match list_model(evs) {
        None => return Err(RixError::ParseError(String::from_str("No list block [ ... ] found"))),
        Some(m) => m,
    };
    let ghost cv = children_view(m.children@);
    let ghost n = source_text(events_view(evs@)).len() as int;
    let c = chars_of(content);
    let name_c = chars_of(name);
    let ch = &m.children;
    let mut i: usize = 0;
    while i < ch.len()
        invariant
            cv == children_view(ch@),
            ch == &m.children,
            list_model_spec(events_view(evs@)) == Some(crate::nix_syntax::list_model_view(m)),
            ordered_children(cv, n),
            n == c@.len(),
            c@ == content@,
            name_c@ == name@,
            removal_scan(cv, name@, 0) == removal_scan(cv, name@, i as int),
        decreases ch.len() - i,
    {
        if ch[i].is_node && entry_matches_exec(&entry_key_exec(&ch[i].text), &name_c) {
            proof {
                assert(ordered_children(cv, usize::MAX as int));
                lemma_removal_start(cv, n, i - 1, cv[i as int].start);
                lemma_removal_end(cv, n, i + 1, cv[i as int].end);
            }
            let (lead, start_br) = removal_start_exec(ch, i, ch[i].start);
            let (b, end_br) = removal_end_exec(ch, i + 1, ch[i].end);
            let a = if start_br || end_br {
                lead
            } else {
                ch[i].start
            };
            let out = concat(&slice(&c, 0, a), &slice(&c, b, c.len()));
            assert(out@ =~= content@.take(a as int) + content@.skip(b as int));
            return Ok(Some(string_of(&out)));
        }
        i = i + 1;
    }
    Ok(None)
}

// ---------------------------------------------------------------------------
// Adding and removing again
// ---------------------------------------------------------------------------

/// The list element that an addition writes for package `n`, without its
/// indentation and comment: `pkgs.n`, or the `symlinkJoin` wrapper.
pub open spec fn written_element(n: Seq<char>, wrapped: bool) -> Seq<char> {
    if wrapped {
        "(pkgs.symlinkJoin { name = \""@ + n + wrap_paths() + n + wrap_script() + n
            + "}/bin/$filename \\\"\\$@\\\"\" >> \"$bin\"\n        chmod +x \"$bin\"\n      done\n    fi\n  ''; })"@
    } else {
        "pkgs."@ + n
    }
}

/// The line an addition writes is the element, indented by two spaces and
/// followed by its comment.
pub proof fn lemma_entry_line_parts(n: Seq<char>, d: Seq<char>, wrapped: bool)
    ensures
        entry_line(n, d, wrapped) == "  "@ + written_element(n, wrapped) + " # "@ + d + "\n"@,
{
    reveal_strlit("  ");
    reveal_strlit(" # ");
    reveal_strlit("pkgs.");
    reveal_strlit("  pkgs.");
    reveal_strlit("  (pkgs.symlinkJoin { name = \"");
    reveal_strlit("(pkgs.symlinkJoin { name = \"");
    reveal_strlit("}/bin/$filename \\\"\\$@\\\"\" >> \"$bin\"\n        chmod +x \"$bin\"\n      done\n    fi\n  ''; }) # ");
    reveal_strlit("}/bin/$filename \\\"\\$@\\\"\" >> \"$bin\"\n        chmod +x \"$bin\"\n      done\n    fi\n  ''; })");
    assert(entry_line(n, d, wrapped) =~= "  "@ + written_element(n, wrapped) + " # "@ + d + "\n"@);
}

proof fn lemma_trim_keeps(s: Seq<char>)
    requires
        s.len() > 0,
        !crate::text::is_ws(s[0]),
        !crate::text::is_ws(s[s.len() - 1]),
    ensures
        trim(s) == s,
{
    assert(crate::text::lead_from(s, 0) == 0);
    assert(crate::text::tail_from(s, s.len() as int) == s.len());
    assert(s.subrange(0, s.len() as int) =~= s);
}

proof fn lemma_find_first(s: Seq<char>, p: Seq<char>, i: int, k: int)
    requires
        0 <= i <= k,
        crate::text::match_at(s, p, k),
        forall|q: int| i <= q < k ==> !crate::text::match_at(s, p, q),
    ensures
        crate::text::find_from(s, p, i) == Some(k),
    decreases k - i,
{
    if i < k {
        if p.len() == 0 {
            assert(s.subrange(i, i) =~= p);
        }
        lemma_find_first(s, p, i + 1, k);
    }
}

/// The package that removal reads off a written plain element is the
/// package written.
proof fn lemma_plain_key(n: Seq<char>)
    requires
        n.len() > 0 ==> !crate::text::is_ws(n[n.len() - 1]),
    ensures
        entry_key(written_element(n, false)) == n,
{
    reveal_strlit("pkgs.");
    reveal_strlit("(pkgs.writeShellScriptBin");
    reveal_strlit("(pkgs.symlinkJoin");
    let e = "pkgs."@ + n;
    assert(!crate::text::is_ws('p') && !crate::text::is_ws('.'));
    assert(e[e.len() - 1] == if n.len() > 0 { n[n.len() - 1] } else { '.' });
    lemma_trim_keeps(e);
    assert(e.take(5) =~= "pkgs."@);
    assert(e.skip(5) =~= n);
    if starts_with(e, "(pkgs.writeShellScriptBin"@) {
        assert(e.take(25)[0] == e[0]);
    }
    if starts_with(e, "(pkgs.symlinkJoin"@) {
        assert(e.take(17)[0] == e[0]);
    }
}

proof fn lemma_no_paths_before(n: Seq<char>, tail: Seq<char>, q: int)
    requires
        crate::flake::no_whitespace(n),
        0 <= q < 28 + n.len() + 12,
    ensures
        !crate::text::match_at(
            "(pkgs.symlinkJoin { name = \""@ + n + "-rix-wrap\"; "@ + "paths = [ pkgs."@ + tail,
            "paths = [ pkgs."@,
            q,
        ),
{
    let h = "(pkgs.symlinkJoin { name = \""@;
    let g = "-rix-wrap\"; "@;
    let p = "paths = [ pkgs."@;
    reveal_strlit("(pkgs.symlinkJoin { name = \"");
    reveal_strlit("-rix-wrap\"; ");
    reveal_strlit("paths = [ pkgs.");
    let w = h + n + g + p + tail;
    let hn: int = h.len() as int + n.len();
    if crate::text::match_at(w, p, q) {
        let sub = w.subrange(q, q + p.len());
        assert(sub[0] == w[q] && sub[1] == w[q + 1] && sub[5] == w[q + 5]);
        assert(w[q] == 'p' && w[q + 1] == 'a' && w[q + 5] == ' ');
        if q < h.len() {
            assert(w[q] == h[q]);
            assert(w[2] == h[2]);
        } else if q < hn {
            if q + 5 < hn {
                assert(w[q + 5] == n[q + 5 - h.len()]);
            } else {
                assert(w[q + 5] == g[q + 5 - hn]);
            }
        } else {
            assert(w[q] == g[q - hn]);
            assert(w[q + 1] == g[q + 1 - hn]);
        }
    }
}

proof fn lemma_paths_found(n: Seq<char>, tail: Seq<char>)
    requires
        crate::flake::no_whitespace(n),
    ensures
        find(
            "(pkgs.symlinkJoin { name = \""@ + n + "-rix-wrap\"; "@ + "paths = [ pkgs."@ + tail,
            "paths = [ pkgs."@,
        ) == Some(28 + n.len() as int + 12),
{
    let h = "(pkgs.symlinkJoin { name = \""@;
    let g = "-rix-wrap\"; "@;
    let p = "paths = [ pkgs."@;
    reveal_strlit("(pkgs.symlinkJoin { name = \"");
    reveal_strlit("-rix-wrap\"; ");
    reveal_strlit("paths = [ pkgs.");
    let w = h + n + g + p + tail;
    let k: int = h.len() as int + n.len() + g.len();
    assert(w.subrange(k, k + p.len() as int) =~= p);
    assert forall|q: int| 0 <= q < k implies !crate::text::match_at(w, p, q) by {
        lemma_no_paths_before(n, tail, q);
    }
    lemma_find_first(w, p, 0, k);
}

proof fn lemma_close_found(n: Seq<char>, rest: Seq<char>)
    requires
        crate::flake::no_whitespace(n),
    ensures
        find(n + " ]"@ + rest, " ]"@) == Some(n.len() as int),
{
    reveal_strlit(" ]");
    let s = n + " ]"@ + rest;
    assert(s.subrange(n.len() as int, n.len() as int + 2) =~= " ]"@);
    assert forall|q: int| 0 <= q < n.len() implies !crate::text::match_at(s, " ]"@, q) by {
        if crate::text::match_at(s, " ]"@, q) {
            assert(s.subrange(q, q + 2)[0] == s[q]);
            assert(s[q] == n[q]);
        }
    }
    lemma_find_first(s, " ]"@, 0, n.len() as int);
}

/// The package that removal and addition read off a written wrapper is
/// the package written, when its name holds no whitespace.
proof fn lemma_wrapped_key(n: Seq<char>)
    requires
        crate::flake::no_whitespace(n),
    ensures
        entry_key(written_element(n, true)) == n,
{
    let h = "(pkgs.symlinkJoin { name = \""@;
    let g = "-rix-wrap\"; "@;
    let p = "paths = [ pkgs."@;
    let z = "}/bin/$filename \\\"\\$@\\\"\" >> \"$bin\"\n        chmod +x \"$bin\"\n      done\n    fi\n  ''; })"@;
    let sc = wrap_script();
    reveal_strlit("(pkgs.symlinkJoin { name = \"");
    reveal_strlit("-rix-wrap\"; ");
    reveal_strlit("paths = [ pkgs.");
    reveal_strlit("-rix-wrap\"; paths = [ pkgs.");
    reveal_strlit(" ]; postBuild = ''\n    if [ -d $out/bin ]; then\n      for bin in $out/bin/*; do\n        filename=$(basename \"$bin\")\n        rm \"$bin\"\n        echo \"#!/bin/sh\" > \"$bin\"\n        echo \"exec ${pkgs.nixgl.${import ../../hardware-state.nix}}/bin/${import ../../hardware-state.nix} ${pkgs.");
    reveal_strlit(" ]");
    assert(wrap_paths() =~= g + p);
    assert(sc =~= " ]"@ + sc.skip(2));
    let w = written_element(n, true);
    let tail = n + sc + n + z;
    assert(w =~= h + n + g + p + tail);
    lemma_paths_found(n, tail);
    let k: int = 28 + n.len() as int + 12;
    let rest = w.skip(k + 15);
    assert(rest =~= n + " ]"@ + (sc.skip(2) + n + z));
    lemma_close_found(n, sc.skip(2) + n + z);
    assert(rest.take(n.len() as int) =~= n);
    assert(w.take(28) =~= h);
    assert(w.skip(w.len() - z.len()) =~= z);
    lemma_wrapper_shape(w, z);
}

proof fn lemma_wrapper_shape(w: Seq<char>, z: Seq<char>)
    requires
        z == "}/bin/$filename \\\"\\$@\\\"\" >> \"$bin\"\n        chmod +x \"$bin\"\n      done\n    fi\n  ''; })"@,
        w.len() >= 28 + z.len(),
        w.take(28) == "(pkgs.symlinkJoin { name = \""@,
        w.skip(w.len() - z.len()) == z,
    ensures
        trim(w) == w,
        starts_with(w, "(pkgs.symlinkJoin"@),
        !starts_with(w, "(pkgs.writeShellScriptBin"@),
{
    reveal_strlit("(pkgs.symlinkJoin { name = \"");
    reveal_strlit("}/bin/$filename \\\"\\$@\\\"\" >> \"$bin\"\n        chmod +x \"$bin\"\n      done\n    fi\n  ''; })");
    reveal_strlit("(pkgs.writeShellScriptBin");
    reveal_strlit("(pkgs.symlinkJoin");
    assert(w[0] == w.take(28)[0]);
    assert(w[w.len() - 1] == w.skip(w.len() - z.len())[z.len() - 1]);
    lemma_trim_keeps(w);
    assert(w.take(17) =~= "(pkgs.symlinkJoin"@);
    if starts_with(w, "(pkgs.writeShellScriptBin"@) {
        assert(w.take(25)[6] == w[6]);
        assert(w.take(28)[6] == w[6]);
    }
}

/// The first list of a text as rnix reads it, when it parses.
pub open spec fn list_model_of(t: Seq<char>) -> Option<ListModelView> {
    match rnix_parse(t) {
        Ok(evs) => list_model_spec(evs),
        Err(_) => None,
    }
}

/// The list holds, at `i`, the element `elem` followed by whitespace and
/// the comment `# d`.
pub open spec fn lists_element(ch: Seq<ChildView>, i: int, elem: Seq<char>, d: Seq<char>) -> bool {
    &&& 0 <= i && i + 2 < ch.len()
    &&& ch[i].is_node && ch[i].text == elem
    &&& !ch[i + 1].is_node && ch[i + 1].kind == NixKind::Whitespace
    &&& !ch[i + 2].is_node && ch[i + 2].kind == NixKind::Comment && ch[i + 2].text == "# "@ + d
}

/// The list of text `t` reads the line written at offset `at` as an
/// addition writes it: the two spaces of indentation end the whitespace
/// that holds the line break before them, then come the element `elem`, a
/// space, the comment `# d` and the line break, each as one token.
pub open spec fn reads_written_line(
    ch: Seq<ChildView>,
    t: Seq<char>,
    i: int,
    at: int,
    elem: Seq<char>,
    d: Seq<char>,
) -> bool {
    &&& lists_element(ch, i, elem, d)
    &&& 1 <= i && i + 3 < ch.len()
    &&& !ch[i - 1].is_node && ch[i - 1].kind == NixKind::Whitespace
    &&& 0 <= ch[i - 1].start < at && ch[i - 1].end == at + 2 && at + 2 <= t.len()
    &&& ch[i - 1].text == t.subrange(ch[i - 1].start, at + 2)
    &&& ch[i].start == at + 2 && ch[i].end == at + 2 + elem.len()
    &&& ch[i + 1].text == " "@ && ch[i + 1].start == ch[i].end && ch[i + 1].end == ch[i + 1].start + 1
    &&& ch[i + 2].start == ch[i + 1].end && ch[i + 2].end == ch[i + 2].start + ch[i + 2].text.len()
    &&& !ch[i + 3].is_node && ch[i + 3].kind == NixKind::Whitespace && ch[i + 3].text == "\n"@
    &&& ch[i + 3].start == ch[i + 2].end && ch[i + 3].end == ch[i + 3].start + 1
}

proof fn lemma_listed_somewhere(ch: Seq<ChildView>, n: Seq<char>, j: int, i: int)
    requires
        0 <= j <= i < ch.len(),
        ch[i].is_node && same_entry(entry_key(ch[i].text), n),
    ensures
        listed_from(ch, n, j) is Some,
        (forall|k: int|
            j <= k < i ==> !(#[trigger] ch[k].is_node && same_entry(entry_key(ch[k].text), n)))
            ==> listed_from(ch, n, j) == Some(i),
    decreases i - j,
{
    if j < i {
        lemma_listed_somewhere(ch, n, j + 1, i);
    }
}

proof fn lemma_trim_after_space(d: Seq<char>)
    requires
        d.len() > 0 ==> !crate::text::is_ws(d[0]) && !crate::text::is_ws(d[d.len() - 1]),
    ensures
        trim(trim_start_matches("# "@ + d, "#"@)) == d,
{
    reveal_strlit("# ");
    reveal_strlit("#");
    reveal_strlit(" ");
    let c = "# "@ + d;
    assert(c.take(1) =~= "#"@);
    assert(c.skip(1) =~= " "@ + d);
    let x = " "@ + d;
    reveal_strlit(" ");
    if starts_with(x, "#"@) {
        assert(x.take(1)[0] == x[0]);
    }
    assert(trim_start_matches(x, "#"@) == x);
    assert(trim_start_matches(c, "#"@) == trim_start_matches(x, "#"@));
    assert(crate::text::is_ws(' '));
    assert(crate::text::lead_from(x, 1) == 1);
    assert(crate::text::lead_from(x, 0) == 1);
    if d.len() > 0 {
        assert(x[x.len() - 1] == d[d.len() - 1]);
        assert(crate::text::tail_from(x, x.len() as int) == x.len());
        assert(x.subrange(1, x.len() as int) =~= d);
    } else {
        assert(x.len() == 1 && x[0] == ' ');
        assert(crate::text::tail_from(x, 0) == 0);
        assert(crate::text::tail_from(x, 1) == 0);
        assert(d =~= Seq::<char>::empty());
    }
}

/// Adding a package that the file already lists changes nothing, when no
/// description is given, or when the given one is the comment the entry
/// already has: so adding the same package twice, wrapped or not, writes
/// it once. Here `ch` is the list of the file as rnix reads it, and `i` an
/// element that an addition of the package wrote (see `written_element`);
/// when a description is given, `i` is the first element that stands for
/// the package. A wrapped element is read back through its wrapper when
/// the package name holds no whitespace.
pub proof fn law_add_again_changes_nothing(
    t: Seq<char>,
    ch: Seq<ChildView>,
    name: Seq<char>,
    desc: Option<Seq<char>>,
    wrapped: bool,
    wrapped_now: bool,
    i: int,
    d0: Seq<char>,
)
    requires
        list_model_of(t) matches Some(m) && m.children == ch,
        lists_element(ch, i, written_element(armored_name(name), wrapped), d0),
        wrapped ==> crate::flake::no_whitespace(armored_name(name)),
        armored_name(name).len() > 0 ==> !crate::text::is_ws(
            armored_name(name)[armored_name(name).len() - 1],
        ),
        desc matches Some(d) ==> d == d0 && (d.len() > 0 ==> !crate::text::is_ws(d[0])
            && !crate::text::is_ws(d[d.len() - 1])) && forall|k: int|
            0 <= k < i ==> !(#[trigger] ch[k].is_node && same_entry(entry_key(ch[k].text), armored_name(name))),
    ensures
        add_spec(t, name, desc, wrapped_now) == Ok::<Option<Seq<char>>, ErrorView>(None),
{
    let n = armored_name(name);
    if wrapped {
        lemma_wrapped_key(n);
    } else {
        lemma_plain_key(n);
    }
    assert(same_entry(entry_key(ch[i].text), n));
    lemma_listed_somewhere(ch, n, 0, i);
    if let Some(d) = desc {
        assert(listed_from(ch, n, 0) == Some(i));
        assert(comment_index(ch, i + 2) == Some(i + 2));
        assert(comment_index(ch, i + 1) == Some(i + 2));
        lemma_trim_after_space(d);
    }
}

/// Removing a package right after adding it gives the file back as it
/// was: in a file whose list closes with `]` at the start of a line and
/// lists no element for the package, an addition writes its line before
/// the `]`, and the removal of the package cuts out exactly that line.
/// The package is a plain name (no external flake entry) that does not
/// end in whitespace; `m2` is the list of the written text as rnix reads
/// it, which reads the new line as `reads_written_line` says, with no
/// element before it that removal would take for the package.
pub proof fn law_remove_undoes_add(
    c: Seq<char>,
    m: ListModelView,
    name: Seq<char>,
    desc: Option<Seq<char>>,
    at: int,
    m2: ListModelView,
    i: int,
)
    requires
        list_model_of(c) == Some(m),
        listed_from(m.children, name, 0) is None,
        m.last_token_start == Some(at),
        1 <= at <= c.len(),
        c[at - 1] == '\n',
        find(name, ext_marker()) is None,
        name.len() > 0 ==> !crate::text::is_ws(name[name.len() - 1]),
        list_model_of(
            c.take(at) + entry_line(
                name,
                match desc {
                    Some(d) => d,
                    None => "Installed via Rix"@,
                },
                false,
            ) + c.skip(at),
        ) == Some(m2),
        reads_written_line(
            m2.children,
            c.take(at) + entry_line(
                name,
                match desc {
                    Some(d) => d,
                    None => "Installed via Rix"@,
                },
                false,
            ) + c.skip(at),
            i,
            at,
            written_element(name, false),
            match desc {
                Some(d) => d,
                None => "Installed via Rix"@,
            },
        ),
        forall|k: int|
            0 <= k < i ==> !(#[trigger] m2.children[k].is_node && entry_matches(
                entry_key(m2.children[k].text),
                name,
            )),
    ensures
        ({
            let d = match desc {
                Some(d) => d,
                None => "Installed via Rix"@,
            };
            let t = c.take(at) + entry_line(name, d, false) + c.skip(at);
            &&& add_spec(c, name, desc, false) == Ok::<Option<Seq<char>>, ErrorView>(Some(t))
            &&& remove_spec(t, name) == Ok::<Option<Seq<char>>, ErrorView>(Some(c))
        }),
{
    let d = match desc {
        Some(d) => d,
        None => "Installed via Rix"@,
    };
    let line = entry_line(name, d, false);
    let t = c.take(at) + line + c.skip(at);
    let ch = m2.children;
    assert(armored_name(name) == name);
    reveal_strlit("  pkgs.");
    reveal_strlit(" # ");
    reveal_strlit("\n");
    reveal_strlit(" ");
    reveal_strlit("# ");
    // The removal finds the new element first.
    lemma_plain_key(name);
    assert(entry_matches(entry_key(ch[i].text), name));
    lemma_removal_scan_skips(ch, name, 0, i);
    // Its span starts at the line break before the indentation ...
    let w = ch[i - 1].text;
    let s0 = ch[i - 1].start;
    let len = at + 2 - s0;
    assert(t[at - 1] == c[at - 1]);
    assert(t[at] == line[0] && t[at + 1] == line[1]);
    assert(w[len - 1] == t[at + 1] && w[len - 2] == t[at] && w[len - 3] == t[at - 1]);
    assert(w.len() == len);
    assert(line[0] == ' ' && line[1] == ' ');
    assert(crate::text::rfind_from(w, '\n', len - 2) == Some(len - 3));
    assert(crate::text::rfind_from(w, '\n', len - 1) == Some(len - 3));
    assert(crate::text::rfind_from(w, '\n', len) == Some(len - 3));
    assert(rfind_char(w, '\n') == Some(len - 3));
    assert(start_breaks(ch, i - 1));
    assert(removal_start(ch, i - 1, ch[i].start) == at);
    // ... and ends after the line break that follows its comment.
    assert(!contains(" "@, "\n"@)) by {
        assert(!crate::text::match_at(" "@, "\n"@, 0)) by {
            assert(" "@.subrange(0, 1)[0] == ' ');
        }
        assert(crate::text::find_from(" "@, "\n"@, 1) is None);
    }
    assert(contains("\n"@, "\n"@)) by {
        assert("\n"@.subrange(0, 1) =~= "\n"@);
        assert(crate::text::match_at("\n"@, "\n"@, 0));
    }
    assert(removal_end(ch, i + 3, ch[i + 2].end) == ch[i + 3].end);
    assert(removal_end(ch, i + 2, ch[i + 1].end) == removal_end(ch, i + 3, ch[i + 2].end));
    assert(removal_end(ch, i + 1, ch[i].end) == removal_end(ch, i + 2, ch[i + 1].end));
    assert(removal_end(ch, i + 1, ch[i].end) == ch[i + 3].end);
    reveal_strlit("pkgs.");
    assert(written_element(name, false).len() == 5 + name.len());
    assert(ch[i + 2].text.len() == 2 + d.len());
    assert(line.len() == 11 + name.len() + d.len());
    assert(ch[i + 3].end == at + line.len());
    assert(removal_span(ch, i) == (at, at + line.len()));
    assert(t.take(at) + t.skip(at + line.len()) =~= c);
}

// ---------------------------------------------------------------------------
// External flakes by alias
// ---------------------------------------------------------------------------

proof fn lemma_alias_of_armored(a: Seq<char>)
    requires
        forall|k: int| 0 <= k < a.len() ==> #[trigger] a[k] != '.',
    ensures
        extract_alias_spec(armored(a)) == Some(a),
        armored(a).len() > 0 && armored(a)[armored(a).len() - 1] == ')',
{
    reveal_strlit("__ext_flake or (");
    reveal_strlit(".packages.${pkgs.system}.default or ");
    reveal_strlit(".defaultPackage.${pkgs.system} or ");
    reveal_strlit(".packages.${pkgs.system}.");
    reveal_strlit(")");
    let m = ext_marker();
    let w = armored(a);
    let tail = ".packages.${pkgs.system}.default or "@ + a + ".defaultPackage.${pkgs.system} or "@ + a
        + ".packages.${pkgs.system}."@ + a + ")"@;
    assert(w =~= m + a + tail);
    assert(w.subrange(0, m.len() as int) =~= m);
    lemma_find_first(w, m, 0, 0);
    let rest = w.skip(m.len() as int);
    assert(rest =~= a + tail);
    let dot = seq!['.'];
    assert(rest.subrange(a.len() as int, a.len() as int + 1) =~= dot);
    assert forall|q: int| 0 <= q < a.len() implies !crate::text::match_at(rest, dot, q) by {
        if crate::text::match_at(rest, dot, q) {
            assert(rest.subrange(q, q + 1)[0] == rest[q]);
            assert(rest[q] == a[q]);
        }
    }
    lemma_find_first(rest, dot, 0, a.len() as int);
    assert(rest.take(a.len() as int) =~= a);
}

proof fn lemma_removal_scan_finds(ch: Seq<ChildView>, name: Seq<char>, j: int, i: int)
    requires
        0 <= j <= i < ch.len(),
        ch[i].is_node && entry_matches(entry_key(ch[i].text), name),
    ensures
        removal_scan(ch, name, j) is Some,
    decreases i - j,
{
    if j < i {
        lemma_removal_scan_finds(ch, name, j + 1, i);
    }
}

/// An external flake entry is removed by its alias: an element whose key
/// names the alias `a` matches `a`, so removing `a` from a list that holds
/// such an element cuts an element out. In particular the entry that an
/// addition writes for the flake with alias `a` (its fallback chain) reads
/// back with that alias, and removing `a` finds it.
pub proof fn law_external_flake_removed_by_alias(ch: Seq<ChildView>, a: Seq<char>, i: int)
    requires
        0 <= i < ch.len(),
        ch[i].is_node,
        extract_alias_spec(entry_key(ch[i].text)) == Some(a),
    ensures
        entry_matches(entry_key(ch[i].text), a),
        removal_scan(ch, a, 0) is Some,
        (forall|k: int| 0 <= k < a.len() ==> #[trigger] a[k] != '.') ==> {
            &&& entry_key(written_element(armored(a), false)) == armored(a)
            &&& extract_alias_spec(armored(a)) == Some(a)
            &&& entry_matches(armored(a), a)
        },
{
    lemma_removal_scan_finds(ch, a, 0, i);
    if forall|k: int| 0 <= k < a.len() ==> #[trigger] a[k] != '.' {
        lemma_alias_of_armored(a);
        lemma_plain_key(armored(a));
    }
}

/// An external flake that the file already lists under the same alias is
/// not added again: adding it without a description leaves the file as it
/// is, whatever form its listed entry takes.
pub proof fn law_listed_flake_not_added_again(
    t: Seq<char>,
    ch: Seq<ChildView>,
    name: Seq<char>,
    wrapped: bool,
    i: int,
)
    requires
        list_model_of(t) matches Some(m) && m.children == ch,
        0 <= i < ch.len(),
        ch[i].is_node,
        extract_alias_spec(entry_key(ch[i].text)) is Some,
        extract_alias_spec(entry_key(ch[i].text)) == extract_alias_spec(armored_name(name)),
    ensures
        add_spec(t, name, None, wrapped) == Ok::<Option<Seq<char>>, ErrorView>(None),
{
    lemma_listed_somewhere(ch, armored_name(name), 0, i);
}

} // verus!
