//! The master flake: linking groups into it, and flake URIs.
use vstd::prelude::*;
use crate::errors::{ErrorView, RixError};
use crate::text::{
    chars_of, contains, contains_exec, extend, lines, lines_exec, split_char, split_char_exec,
    starts_with, starts_with_exec, string_of, trim, trim_end_matches, trim_end_matches_exec,
    trim_exec, views, lemma_contains_concat,
};

verus! {

/// The import of a group's package list.
pub open spec fn import_statement(g: Seq<char>) -> Seq<char> {
    "import ./groups/upstream/"@ + g + ".nix"@
}

/// The module that adds a group's packages to the home configuration.
pub open spec fn module_inject(g: Seq<char>) -> Seq<char> {
    "         { home.packages = "@ + import_statement(g) + " { inherit pkgs; }; }"@
}

/// The line that opens the modules array.
pub open spec fn modules_open() -> Seq<char> {
    "modules = ["@
}

/// The flake text rebuilt from its lines from index `i` on, with the module
/// inserted after the first line that opens the modules array.
pub open spec fn linked_lines(ls: Seq<Seq<char>>, g: Seq<char>, i: int, injected: bool) -> Seq<char>
    decreases ls.len() - i,
{
    if i < 0 || i >= ls.len() {
        Seq::empty()
    } else {
        let hit = !injected && contains(ls[i], modules_open());
        ls[i] + "\n"@ + (if hit {
            module_inject(g) + "\n"@
        } else {
            Seq::empty()
        }) + linked_lines(ls, g, i + 1, injected || hit)
    }
}

/// Some line of the flake opens the modules array.
pub open spec fn has_modules_line(ls: Seq<Seq<char>>) -> bool {
    exists|i: int| 0 <= i < ls.len() && contains(#[trigger] ls[i], modules_open())
}

/// Linking group `g` into a flake's text: nothing when the import is there
/// already, else the module goes right after the first line that opens the
/// modules array (an error when there is none).
pub open spec fn link_spec(content: Seq<char>, g: Seq<char>) -> Result<Option<Seq<char>>, ErrorView> {
    if contains(content, import_statement(g)) {
        Ok(None)
    } else if !has_modules_line(lines(content)) {
        Err(
            ErrorView::ParseError(
                "Could not find 'modules = [' array in flake.nix to auto-link group"@,
            ),
        )
    } else {
        Ok(Some(linked_lines(lines(content), g, 0, false)))
    }
}

/// Injects a group import into the modules array of the master flake's
/// text (`None`: the group is linked already).
pub fn link_group_to_flake(content: &str, group: &str) -> (r: Result<Option<String>, RixError>)
    ensures
        crate::nix_list::edit_view(r) == link_spec(content@, group@),
{
    let c = chars_of(content);
    let g = chars_of(group);
    let mut stmt = chars_of("import ./groups/upstream/");
    extend(&mut stmt, &g);
    extend(&mut stmt, &chars_of(".nix"));
    if contains_exec(&c, &stmt) {
        return Ok(None);
    }
    let mut inject = chars_of("         { home.packages = ");
    extend(&mut inject, &stmt);
    extend(&mut inject, &chars_of(" { inherit pkgs; }; }"));
    let open = chars_of("modules = [");
    let ls = lines_exec(&c);
    let ghost lv = views(ls@);
    let mut out: Vec<char> = Vec::new();
    let mut injected = false;
    let mut i: usize = 0;
    while i < ls.len()
        invariant
            lv == views(ls@),
            i <= ls.len(),
            inject@ == module_inject(g@),
            open@ == modules_open(),
            linked_lines(lv, g@, 0, false) == out@ + linked_lines(lv, g@, i as int, injected),
            injected <==> exists|k: int| 0 <= k < i && contains(#[trigger] lv[k], modules_open()),
        decreases ls.len() - i,
    {
        let line = &ls[i];
        assert(lv[i as int] == line@);
        let ghost before = out@;
        let ghost inj0 = injected;
        extend(&mut out, line);
        extend(&mut out, &chars_of("\n"));
        let hit = !injected && contains_exec(line, &open);
        if hit {
            extend(&mut out, &inject);
            extend(&mut out, &chars_of("\n"));
            injected = true;
        }
        assert(before + linked_lines(lv, g@, i as int, inj0) =~= out@
            + linked_lines(lv, g@, i + 1, injected));
        i = i + 1;
    }
    if !injected {
        return Err(RixError::ParseError(String::from_str("Could not find 'modules = [' array in flake.nix to auto-link group")));
    }
    assert(out@ =~= out@ + linked_lines(lv, g@, i as int, injected));
    Ok(Some(string_of(&out)))
}

proof fn lemma_linked_contains(ls: Seq<Seq<char>>, g: Seq<char>, i: int, k: int)
    requires
        0 <= i <= k < ls.len(),
        contains(ls[k], modules_open()),
    ensures
        contains(linked_lines(ls, g, i, false), import_statement(g)),
    decreases k - i,
{
    let stmt = import_statement(g);
    let head = ls[i] + "\n"@;
    if contains(ls[i], modules_open()) {
        let a = "         { home.packages = "@;
        let b = " { inherit pkgs; }; }"@ + "\n"@;
        assert(stmt.subrange(0, stmt.len() as int) =~= stmt);
        crate::text::lemma_match_found(stmt, stmt, 0, 0);
        crate::text::lemma_contains_concat(a, stmt, b, stmt);
        let x = module_inject(g) + "\n"@;
        assert(a + stmt + b =~= x);
        crate::text::lemma_contains_concat(head, x, linked_lines(ls, g, i + 1, true), stmt);
        assert(linked_lines(ls, g, i, false) =~= head + x + linked_lines(ls, g, i + 1, true));
    } else {
        lemma_linked_contains(ls, g, i + 1, k);
        let rest = linked_lines(ls, g, i + 1, false);
        crate::text::lemma_contains_concat(head, rest, Seq::empty(), stmt);
        assert(linked_lines(ls, g, i, false) =~= head + rest + Seq::<char>::empty());
    }
}

/// Linking a group into the flake twice changes nothing the second time:
/// once linked, the flake holds the group's import.
pub proof fn law_link_idempotent(content: Seq<char>, g: Seq<char>, linked: Seq<char>)
    requires
        link_spec(content, g) == Ok::<Option<Seq<char>>, ErrorView>(Some(linked)),
    ensures
        link_spec(linked, g) == Ok::<Option<Seq<char>>, ErrorView>(None),
{
    let ls = lines(content);
    let k = choose|k: int| 0 <= k < ls.len() && contains(#[trigger] ls[k], modules_open());
    lemma_linked_contains(ls, g, 0, k);
}

// ---------------------------------------------------------------------------
// Flake URIs
// ---------------------------------------------------------------------------

/// `owner/repo` of a forge URL path, as `SCHEME:owner/repo`; `None` when the
/// path has fewer than two segments.
pub open spec fn forge_uri(scheme: Seq<char>, path: Seq<char>) -> Option<Seq<char>> {
    let parts = split_char(trim_end_matches(path, seq!['/']), '/');
    if parts.len() >= 2 {
        Some(scheme + parts[0] + "/"@ + parts[1])
    } else {
        None
    }
}

/// Raw HTTPS URLs of GitHub and GitLab repositories become `github:` and
/// `gitlab:` flake URIs; anything else is returned trimmed.
pub open spec fn normalize_spec(input: Seq<char>) -> Seq<char> {
    let t = trim(input);
    let gh = "https://github.com/"@;
    let gl = "https://gitlab.com/"@;
    if starts_with(t, gh) {
        match forge_uri("github:"@, t.skip(gh.len() as int)) {
            Some(u) => u,
            None => t,
        }
    } else if starts_with(t, gl) {
        match forge_uri("gitlab:"@, t.skip(gl.len() as int)) {
            Some(u) => u,
            None => t,
        }
    } else {
        t
    }
}

fn forge_uri_exec(scheme: &str, path: &[char]) -> (r: Option<Vec<char>>)
    ensures
        match r {
            Some(u) => forge_uri(scheme@, path@) == Some(u@),
            None => forge_uri(scheme@, path@) is None,
        },
{
    let slash = vec!['/'];
    assert(slash@ =~= seq!['/']);
    let parts = split_char_exec(&trim_end_matches_exec(path, &slash), '/');
    if parts.len() >= 2 {
        assert(views(parts@)[0] == parts@[0]@ && views(parts@)[1] == parts@[1]@);
        let mut u = chars_of(scheme);
        extend(&mut u, &parts[0]);
        extend(&mut u, &chars_of("/"));
        extend(&mut u, &parts[1]);
        Some(u)
    } else {
        None
    }
}

/// Normalizes raw HTTPS URLs into standard Nix Flake URIs.
pub fn normalize_flake_uri(input: &str) -> (r: String)
    ensures
        r@ == normalize_spec(input@),
{
    let t = trim_exec(&chars_of(input));
    let gh = chars_of("https://github.com/");
    let gl = chars_of("https://gitlab.com/");
    if starts_with_exec(&t, &gh) {
        let rest = crate::text::slice(&t, gh.len(), t.len());
        assert(rest@ =~= t@.skip(gh@.len() as int));
        match forge_uri_exec("github:", &rest) {
            Some(u) => string_of(&u),
            None => string_of(&t),
        }
    } else if starts_with_exec(&t, &gl) {
        let rest = crate::text::slice(&t, gl.len(), t.len());
        assert(rest@ =~= t@.skip(gl@.len() as int));
        match forge_uri_exec("gitlab:", &rest) {
            Some(u) => string_of(&u),
            None => string_of(&t),
        }
    } else {
        string_of(&t)
    }
}

/// A URI that is already in flake form, without surrounding whitespace, is
/// left as it is.
pub proof fn law_normalize_keeps_flake_uris(input: Seq<char>)
    requires
        trim(input) == input,
        !starts_with(input, "https://github.com/"@),
        !starts_with(input, "https://gitlab.com/"@),
    ensures
        normalize_spec(input) == input,
{
}

/// Start of the last segment of `s.take(j)`, the segments being separated
/// by `/` or `:`.
pub open spec fn segment_start(s: Seq<char>, j: int) -> int
    decreases j,
{
    if j <= 0 || j > s.len() {
        0
    } else if s[j - 1] == '/' || s[j - 1] == ':' {
        j
    } else {
        segment_start(s, j - 1)
    }
}

/// The flake input name inferred from a URI: its last `/`- or
/// `:`-separated segment without trailing `.git`, or `custom-flake` when
/// that leaves nothing.
pub open spec fn alias_spec(uri: Seq<char>) -> Seq<char> {
    let last = uri.skip(segment_start(uri, uri.len() as int));
    let cleaned = trim_end_matches(last, ".git"@);
    if cleaned.len() == 0 {
        "custom-flake"@
    } else {
        cleaned
    }
}

/// Infers a safe default flake input name from a URI.
pub fn infer_flake_alias(uri: &str) -> (r: String)
    ensures
        r@ == alias_spec(uri@),
{
    let u = chars_of(uri);
    let mut j: usize = u.len();
    while j > 0 && u[j - 1] != '/' && u[j - 1] != ':'
        invariant
            j <= u@.len(),
            segment_start(u@, u@.len() as int) == segment_start(u@, j as int),
        decreases j,
    {
        j = j - 1;
    }
    let last = crate::text::slice(&u, j, u.len());
    assert(last@ =~= u@.skip(j as int));
    let cleaned = trim_end_matches_exec(&last, &chars_of(".git"));
    if cleaned.len() == 0 {
        String::from_str("custom-flake")
    } else {
        string_of(&cleaned)
    }
}


/// `s` holds no whitespace character.
pub open spec fn no_whitespace(s: Seq<char>) -> bool {
    forall|k: int| 0 <= k < s.len() ==> !crate::text::is_ws(#[trigger] s[k])
}

proof fn lemma_trim_no_whitespace(s: Seq<char>)
    requires
        no_whitespace(s),
    ensures
        trim(s) == s,
{
    assert(crate::text::lead_from(s, 0) == 0);
    assert(crate::text::tail_from(s, s.len() as int) == s.len());
    assert(s.subrange(0, s.len() as int) =~= s);
}

proof fn lemma_trim_end_matches_prefix(s: Seq<char>, p: Seq<char>)
    ensures
        trim_end_matches(s, p).len() <= s.len(),
        trim_end_matches(s, p) == s.take(trim_end_matches(s, p).len() as int),
    decreases s.len(),
{
    if p.len() > 0 && crate::text::ends_with(s, p) {
        let t = s.take(s.len() - p.len());
        lemma_trim_end_matches_prefix(t, p);
        assert(t.take(trim_end_matches(t, p).len() as int) =~= s.take(
            trim_end_matches(t, p).len() as int,
        ));
    } else {
        assert(s.take(s.len() as int) =~= s);
    }
}

proof fn lemma_split_no_whitespace(s: Seq<char>, c: char, start: int, i: int)
    requires
        no_whitespace(s),
        0 <= start <= i <= s.len(),
    ensures
        forall|k: int|
            0 <= k < crate::text::split_scan(s, c, start, i).len() ==> no_whitespace(
                #[trigger] crate::text::split_scan(s, c, start, i)[k],
            ),
    decreases s.len() - i,
{
    let out = crate::text::split_scan(s, c, start, i);
    if i >= s.len() {
        let piece = s.subrange(start, s.len() as int);
        assert(out == seq![piece]);
        assert forall|k: int| 0 <= k < out.len() implies no_whitespace(#[trigger] out[k]) by {
            assert(out[k] == piece);
            assert forall|m: int| 0 <= m < piece.len() implies !crate::text::is_ws(
                #[trigger] piece[m],
            ) by {
                assert(piece[m] == s[start + m]);
            }
        }
    } else if s[i] == c {
        lemma_split_no_whitespace(s, c, i + 1, i + 1);
        let piece = s.subrange(start, i);
        let rest = crate::text::split_scan(s, c, i + 1, i + 1);
        assert(out == seq![piece] + rest);
        assert forall|k: int| 0 <= k < out.len() implies no_whitespace(#[trigger] out[k]) by {
            if k == 0 {
                assert(out[k] == piece);
                assert forall|m: int| 0 <= m < piece.len() implies !crate::text::is_ws(
                    #[trigger] piece[m],
                ) by {
                    assert(piece[m] == s[start + m]);
                }
            } else {
                assert(out[k] == rest[k - 1]);
            }
        }
    } else {
        lemma_split_no_whitespace(s, c, start, i + 1);
        assert(out == crate::text::split_scan(s, c, start, i + 1));
    }
}

proof fn lemma_forge_no_whitespace(scheme: Seq<char>, path: Seq<char>)
    requires
        no_whitespace(scheme),
        no_whitespace(path),
    ensures
        forge_uri(scheme, path) matches Some(u) ==> no_whitespace(u) && u.take(scheme.len() as int)
            == scheme,
{
    let tp = trim_end_matches(path, seq!['/']);
    lemma_trim_end_matches_prefix(path, seq!['/']);
    assert forall|m: int| 0 <= m < tp.len() implies !crate::text::is_ws(#[trigger] tp[m]) by {
        assert(tp[m] == path[m]);
    }
    lemma_split_no_whitespace(tp, '/', 0, 0);
    let parts = split_char(tp, '/');
    if parts.len() >= 2 {
        reveal_strlit("/");
        let u = scheme + parts[0] + "/"@ + parts[1];
        assert(no_whitespace(parts[0]));
        assert(no_whitespace(parts[1]));
        assert(!crate::text::is_ws('/'));
        assert forall|m: int| 0 <= m < u.len() implies !crate::text::is_ws(#[trigger] u[m]) by {
            if m < scheme.len() {
                assert(u[m] == scheme[m]);
            } else if m < scheme.len() + parts[0].len() {
                assert(u[m] == parts[0][m - scheme.len()]);
            } else if m == scheme.len() + parts[0].len() {
                assert(u[m] == '/');
            } else {
                assert(u[m] == parts[1][m - scheme.len() - parts[0].len() - 1]);
            }
        }
        assert(u.take(scheme.len() as int) =~= scheme);
    }
}

/// Normalizing is idempotent on URIs without whitespace: what
/// `normalize_flake_uri` returns is returned unchanged when normalized
/// again.
pub proof fn law_normalize_idempotent(input: Seq<char>)
    requires
        no_whitespace(input),
    ensures
        normalize_spec(normalize_spec(input)) == normalize_spec(input),
{
    reveal_strlit("https://github.com/");
    reveal_strlit("https://gitlab.com/");
    reveal_strlit("github:");
    reveal_strlit("gitlab:");
    lemma_trim_no_whitespace(input);
    let t = input;
    let gh = "https://github.com/"@;
    let gl = "https://gitlab.com/"@;
    assert(!crate::text::is_ws('g') && !crate::text::is_ws('i') && !crate::text::is_ws('t')
        && !crate::text::is_ws('h') && !crate::text::is_ws('u') && !crate::text::is_ws('b')
        && !crate::text::is_ws(':') && !crate::text::is_ws('l') && !crate::text::is_ws('a'));
    assert(no_whitespace("github:"@));
    assert(no_whitespace("gitlab:"@));
    let forge = if starts_with(t, gh) {
        assert forall|m: int| 0 <= m < t.skip(gh.len() as int).len() implies !crate::text::is_ws(
            #[trigger] t.skip(gh.len() as int)[m],
        ) by {
            assert(t.skip(gh.len() as int)[m] == t[m + gh.len()]);
        }
        lemma_forge_no_whitespace("github:"@, t.skip(gh.len() as int));
        forge_uri("github:"@, t.skip(gh.len() as int))
    } else if starts_with(t, gl) {
        assert forall|m: int| 0 <= m < t.skip(gl.len() as int).len() implies !crate::text::is_ws(
            #[trigger] t.skip(gl.len() as int)[m],
        ) by {
            assert(t.skip(gl.len() as int)[m] == t[m + gl.len()]);
        }
        lemma_forge_no_whitespace("gitlab:"@, t.skip(gl.len() as int));
        forge_uri("gitlab:"@, t.skip(gl.len() as int))
    } else {
        None
    };
    match forge {
        Some(u) => {
            assert(normalize_spec(input) == u);
            lemma_trim_no_whitespace(u);
            assert(u[0] == 'g');
            assert(gh[0] == 'h' && gl[0] == 'h');
            if starts_with(u, gh) {
                assert(u.take(gh.len() as int)[0] == u[0]);
            }
            if starts_with(u, gl) {
                assert(u.take(gl.len() as int)[0] == u[0]);
            }
        },
        None => {
            assert(normalize_spec(input) == t);
        },
    }
}

proof fn lemma_segment_start(s: Seq<char>, j: int)
    requires
        0 <= j <= s.len(),
    ensures
        0 <= segment_start(s, j) <= j,
        forall|m: int| segment_start(s, j) <= m < j ==> #[trigger] s[m] != '/' && s[m] != ':',
    decreases j,
{
    if j > 0 && !(s[j - 1] == '/' || s[j - 1] == ':') {
        lemma_segment_start(s, j - 1);
    }
}

/// The inferred alias of any URI is a usable input name: it is never
/// empty and holds neither `/` nor `:`.
pub proof fn law_alias_is_one_segment(uri: Seq<char>)
    ensures
        alias_spec(uri).len() > 0,
        forall|m: int| 0 <= m < alias_spec(uri).len() ==> #[trigger] alias_spec(uri)[m] != '/'
            && alias_spec(uri)[m] != ':',
{
    reveal_strlit("custom-flake");
    let ss = segment_start(uri, uri.len() as int);
    lemma_segment_start(uri, uri.len() as int);
    let last = uri.skip(ss);
    let cleaned = trim_end_matches(last, ".git"@);
    lemma_trim_end_matches_prefix(last, ".git"@);
    assert forall|m: int| 0 <= m < cleaned.len() implies #[trigger] cleaned[m] != '/' && cleaned[m]
        != ':' by {
        assert(cleaned[m] == last[m]);
        assert(last[m] == uri[ss + m]);
    }
}

proof fn lemma_split_skip(s: Seq<char>, c: char, start: int, i: int, j: int)
    requires
        0 <= start <= i <= j <= s.len(),
        forall|k: int| i <= k < j ==> s[k] != c,
    ensures
        crate::text::split_scan(s, c, start, i) == crate::text::split_scan(s, c, start, j),
    decreases j - i,
{
    if i < j {
        lemma_split_skip(s, c, start, i + 1, j);
    }
}

proof fn lemma_segment_after(s: Seq<char>, k: int, j: int)
    requires
        1 <= k <= j <= s.len(),
        s[k - 1] == '/' || s[k - 1] == ':',
        forall|m: int| k <= m < j ==> s[m] != '/' && s[m] != ':',
    ensures
        segment_start(s, j) == k,
    decreases j,
{
    if j > k {
        lemma_segment_after(s, k, j - 1);
    }
}

/// Neither `/` nor `:` nor whitespace occurs in `s`.
pub open spec fn plain_segment(s: Seq<char>) -> bool {
    forall|k: int|
        0 <= k < s.len() ==> #[trigger] s[k] != '/' && s[k] != ':' && !crate::text::is_ws(s[k])
}

proof fn lemma_alias_after_slash(prefix: Seq<char>, repo: Seq<char>)
    requires
        plain_segment(repo),
        repo.len() > 0,
        !crate::text::ends_with(repo, ".git"@),
    ensures
        alias_spec(prefix + "/"@ + repo) == repo,
{
    reveal_strlit("/");
    let u = prefix + "/"@ + repo;
    let k: int = u.len() - repo.len();
    assert(u[k - 1] == '/');
    assert forall|m: int| k <= m < u.len() implies u[m] != '/' && u[m] != ':' by {
        assert(u[m] == repo[m - k]);
    }
    lemma_segment_after(u, k, u.len() as int);
    assert(u.skip(k) =~= repo);
}

proof fn lemma_owner_repo_split(owner: Seq<char>, repo: Seq<char>)
    requires
        plain_segment(owner),
        plain_segment(repo),
        repo.len() > 0,
    ensures
        trim_end_matches(owner + "/"@ + repo, seq!['/']) == owner + "/"@ + repo,
        split_char(owner + "/"@ + repo, '/') == seq![owner, repo],
{
    reveal_strlit("/");
    let path = owner + "/"@ + repo;
    assert(path[path.len() - 1] == repo[repo.len() - 1]);
    assert(!crate::text::ends_with(path, seq!['/'])) by {
        if crate::text::ends_with(path, seq!['/']) {
            assert(path.skip(path.len() - 1)[0] == path[path.len() - 1]);
        }
    }
    assert forall|k: int| 0 <= k < owner.len() implies path[k] != '/' by {
        assert(path[k] == owner[k]);
    }
    lemma_split_skip(path, '/', 0, 0, owner.len() as int);
    let o1: int = owner.len() as int + 1;
    assert forall|k: int| o1 <= k < path.len() implies path[k] != '/' by {
        assert(path[k] == repo[k - o1]);
    }
    lemma_split_skip(path, '/', o1, o1, path.len() as int);
    assert(path.subrange(0, owner.len() as int) =~= owner);
    assert(path.subrange(o1, path.len() as int) =~= repo);
    assert(split_char(path, '/') =~= seq![owner, repo]);
}

proof fn lemma_github_url_plain(owner: Seq<char>, repo: Seq<char>)
    requires
        plain_segment(owner),
        plain_segment(repo),
    ensures
        trim("https://github.com/"@ + owner + "/"@ + repo) == "https://github.com/"@ + owner + "/"@ + repo,
{
    reveal_strlit("https://github.com/");
    reveal_strlit("/");
    let gh = "https://github.com/"@;
    let url = gh + owner + "/"@ + repo;
    assert(!crate::text::is_ws('h') && !crate::text::is_ws('t') && !crate::text::is_ws('p')
        && !crate::text::is_ws('s') && !crate::text::is_ws(':') && !crate::text::is_ws('/')
        && !crate::text::is_ws('g') && !crate::text::is_ws('i') && !crate::text::is_ws('u')
        && !crate::text::is_ws('b') && !crate::text::is_ws('.') && !crate::text::is_ws('c')
        && !crate::text::is_ws('o') && !crate::text::is_ws('m'));
    assert forall|m: int| 0 <= m < url.len() implies !crate::text::is_ws(#[trigger] url[m]) by {
        if m < gh.len() {
        } else if m < gh.len() + owner.len() {
            assert(url[m] == owner[m - gh.len()]);
        } else if m == gh.len() + owner.len() {
        } else {
            assert(url[m] == repo[m - gh.len() - owner.len() - 1]);
        }
    }
    lemma_trim_no_whitespace(url);
}

/// The alias of a GitHub repository URL is the repository's name, whether
/// it is inferred from the URL or from the flake URI that the URL
/// normalizes to.
pub proof fn law_alias_of_github_repository(owner: Seq<char>, repo: Seq<char>)
    requires
        plain_segment(owner),
        plain_segment(repo),
        repo.len() > 0,
        !crate::text::ends_with(repo, ".git"@),
    ensures
        normalize_spec("https://github.com/"@ + owner + "/"@ + repo) == "github:"@ + owner + "/"@ + repo,
        alias_spec(normalize_spec("https://github.com/"@ + owner + "/"@ + repo)) == repo,
        alias_spec("https://github.com/"@ + owner + "/"@ + repo) == repo,
{
    reveal_strlit("https://github.com/");
    let gh = "https://github.com/"@;
    let url = gh + owner + "/"@ + repo;
    let path = owner + "/"@ + repo;
    lemma_github_url_plain(owner, repo);
    assert(url.take(gh.len() as int) =~= gh);
    assert(url.skip(gh.len() as int) =~= path);
    lemma_owner_repo_split(owner, repo);
    assert(normalize_spec(url) == "github:"@ + owner + "/"@ + repo);
    lemma_alias_after_slash("github:"@ + owner, repo);
    assert("github:"@ + owner + "/"@ + repo == ("github:"@ + owner) + "/"@ + repo);
    lemma_alias_after_slash(gh + owner, repo);
}

} // verus!
