//! Filtering of the output of Nix builds.
//!
//! While Nix evaluates, fetches and builds, Rix reads its diagnostic output
//! line by line and turns each line into one progress event: a message on
//! the spinner, a switch to a progress bar, a step of that bar, a line to
//! show, or nothing. The filter keeps a little state between lines: the
//! number of paths announced for fetching, the number fetched so far, and
//! the warnings already shown, so that each warning is shown once.
use vstd::prelude::*;
use crate::numbers::{is_digit, parse_uint, parse_uint_exec};
use crate::text::{
    chars_of, concat, contains, contains_exec, ends_with, ends_with_exec, find, find_exec, is_ws,
    char_is_ws, seq_eq, slice, split_char, split_char_exec, starts_with, starts_with_exec,
    string_of, trim, trim_end_matches, trim_end_matches_exec, trim_exec, views,
};

verus! {

// ---------------------------------------------------------------------------
// Store path names
// ---------------------------------------------------------------------------

/// Number of bytes of the UTF-8 encoding of a character (`char::len_utf8`).
pub open spec fn utf8_width(c: char) -> int {
    let u = c as u32;
    if u < 0x80 {
        1
    } else if u < 0x800 {
        2
    } else if u < 0x10000 {
        3
    } else {
        4
    }
}

/// The text that follows the first `n` bytes of the UTF-8 encoding of `s`,
/// when byte offset `n` falls on a character boundary.
pub open spec fn rest_after_bytes(s: Seq<char>, n: int) -> Option<Seq<char>>
    decreases s.len(),
{
    if n == 0 {
        Some(s)
    } else if n < 0 || s.len() == 0 {
        None
    } else {
        rest_after_bytes(s.drop_first(), n - utf8_width(s[0]))
    }
}

/// The name of a store path entry without its hash: for `<hash>-<name>`,
/// where the byte at offset 32 is a dash and more bytes follow it, the text
/// after that dash (`&s[33..]`); otherwise the whole entry.
pub open spec fn store_name(s: Seq<char>) -> Seq<char> {
    match rest_after_bytes(s, 32) {
        Some(r) => if r.len() >= 2 && r[0] == '-' {
            r.drop_first()
        } else {
            s
        },
        None => s,
    }
}

fn utf8_width_exec(c: char) -> (w: usize)
    ensures
        w == utf8_width(c),
{
    let u = c as u32;
    if u < 0x80 {
        1
    } else if u < 0x800 {
        2
    } else if u < 0x10000 {
        3
    } else {
        4
    }
}

/// Removes the hash from a store path entry.
pub fn store_name_exec(s: &Vec<char>) -> (r: Vec<char>)
    ensures
        r@ == store_name(s@),
{
    let mut i: usize = 0;
    let mut off: usize = 0;
    assert(s@.skip(0) =~= s@);
    while off < 32 && i < s.len()
        invariant
            i <= s.len(),
            off <= 35,
            rest_after_bytes(s@, 32) == rest_after_bytes(s@.skip(i as int), 32 - off),
        decreases s.len() - i,
    {
        let w = utf8_width_exec(s[i]);
        proof {
            let t = s@.skip(i as int);
            assert(t.drop_first() =~= s@.skip(i + 1));
            assert(t[0] == s@[i as int]);
        }
        off = off + w;
        i = i + 1;
    }
    if off == 32 && i < s.len() && s.len() - i >= 2 && s[i] == '-' {
        assert(s@.skip(i as int)[0] == s@[i as int]);
        let r = slice(s, i + 1, s.len());
        assert(r@ =~= s@.skip(i as int).drop_first());
        r
    } else {
        proof {
            if off == 32 {
                assert(rest_after_bytes(s@, 32) == Some(s@.skip(i as int)));
            } else if off > 32 {
                assert(rest_after_bytes(s@, 32) is None);
            } else {
                assert(s@.skip(i as int).len() == 0);
            }
        }
        let r = slice(s, 0, s.len());
        assert(r@ =~= s@);
        r
    }
}

// ---------------------------------------------------------------------------
// Words
// ---------------------------------------------------------------------------

/// Words of `s`, scanning from `i` with the current word starting at
/// `start` (`str::split_whitespace`).
pub open spec fn words_scan(s: Seq<char>, start: int, i: int) -> Seq<Seq<char>>
    decreases s.len() - i,
{
    if i >= s.len() || i < start || start < 0 {
        if 0 <= start < s.len() {
            seq![s.subrange(start, s.len() as int)]
        } else {
            seq![]
        }
    } else if is_ws(s[i]) {
        (if start < i {
            seq![s.subrange(start, i)]
        } else {
            seq![]
        }) + words_scan(s, i + 1, i + 1)
    } else {
        words_scan(s, start, i + 1)
    }
}

/// `str::split_whitespace`, collected.
pub open spec fn words(s: Seq<char>) -> Seq<Seq<char>> {
    words_scan(s, 0, 0)
}

/// The words of a text.
pub fn words_exec(s: &Vec<char>) -> (r: Vec<Vec<char>>)
    ensures
        views(r@) == words(s@),
{
    let mut r: Vec<Vec<char>> = Vec::new();
    let mut start: usize = 0;
    let mut i: usize = 0;
    while i < s.len()
        invariant
            start <= i <= s@.len(),
            views(r@) + words_scan(s@, start as int, i as int) == words(s@),
        decreases s.len() - i,
    {
        if char_is_ws(s[i]) {
            if start < i {
                let w = slice(s, start, i);
                proof {
                    assert(views(r@.push(w)) =~= views(r@).push(w@));
                    assert(views(r@) + words_scan(s@, start as int, i as int) =~= views(r@.push(w))
                        + words_scan(s@, i + 1, i + 1));
                }
                r.push(w);
            } else {
                assert(views(r@) + words_scan(s@, start as int, i as int) =~= views(r@)
                    + words_scan(s@, i + 1, i + 1));
            }
            i = i + 1;
            start = i;
        } else {
            i = i + 1;
        }
    }
    if start < i {
        let w = slice(s, start, i);
        proof {
            assert(views(r@.push(w)) =~= views(r@).push(w@));
            assert(views(r@) + words_scan(s@, start as int, i as int) =~= views(r@.push(w)));
        }
        r.push(w);
    } else {
        assert(views(r@) + words_scan(s@, start as int, i as int) =~= views(r@));
    }
    r
}

/// Value of the first word that reads as a `u64` (`Iterator::find` with
/// `str::parse`).
pub open spec fn first_number(ws: Seq<Seq<char>>) -> Option<int>
    decreases ws.len(),
{
    if ws.len() == 0 {
        None
    } else {
        match parse_uint(ws[0], u64::MAX as int) {
            Some(n) => Some(n),
            None => first_number(ws.drop_first()),
        }
    }
}

fn first_number_exec(ws: &Vec<Vec<char>>) -> (r: Option<u64>)
    ensures
        match r {
            Some(n) => first_number(views(ws@)) == Some(n as int),
            None => first_number(views(ws@)) is None,
        },
{
    let mut k: usize = 0;
    assert(views(ws@).skip(0) =~= views(ws@));
    while k < ws.len()
        invariant
            k <= ws@.len(),
            first_number(views(ws@)) == first_number(views(ws@).skip(k as int)),
        decreases ws.len() - k,
    {
        let ghost t = views(ws@).skip(k as int);
        assert(t[0] == ws@[k as int]@);
        assert(t.drop_first() =~= views(ws@).skip(k + 1));
        match parse_uint_exec(ws[k].as_slice(), u64::MAX) {
            Some(n) => {
                return Some(n);
            },
            None => {},
        }
        k = k + 1;
    }
    None
}

// ---------------------------------------------------------------------------
// Classification of one line
// ---------------------------------------------------------------------------

/// What `char::is_alphanumeric` says of a character (the Unicode
/// `Alphabetic` or `Numeric` property).
pub uninterp spec fn char_alphanumeric(c: char) -> bool;

/// `char::is_alphanumeric`.
///
/// Trusted: the result is `char_alphanumeric` of the character.
#[verifier::external_body]
fn is_alphanumeric(c: char) -> (b: bool)
    ensures
        b == char_alphanumeric(c),
{
    c.is_alphanumeric()
}

/// Lines of lock file changelogs and build chatter that are never shown.
pub open spec fn is_noise(line: Seq<char>, t: Seq<char>) -> bool {
    ||| starts_with(t, "•"@)
    ||| starts_with(t, "'github:"@)
    ||| starts_with(t, "follows "@)
    ||| starts_with(t, "'git+file:"@)
    ||| contains(line, "%]"@)
    ||| contains(line, "Built target"@)
    ||| contains(line, "Install the project..."@)
    ||| contains(line, "-- Install configuration:"@)
    ||| contains(line, "separating debug info"@)
    ||| contains(line, "shrinking RPATHs"@)
    ||| contains(line, "stripping (with command"@)
    ||| contains(line, "making symlink relative"@)
    ||| contains(line, "checking for references"@)
    ||| contains(line, "gzipping man pages"@)
    ||| contains(line, "fetching path input"@)
    ||| contains(line, "fetching github input"@)
    ||| contains(line, "fetching git input"@)
    ||| contains(line, "warning: Git tree"@)
    ||| contains(line, "warning: 'system' has been renamed"@)
    ||| contains(line, "warning: using or as an identifier is deprecated"@)
    ||| contains(line, "warning: Ignoring setting"@)
    ||| starts_with(t, "at /nix/store/"@)
}

/// A line of the source excerpts that Nix prints with its errors
/// (`12| ...` or `| ...`).
pub open spec fn is_code_snippet(t: Seq<char>) -> bool {
    contains(t, "|"@) && ((t.len() > 0 && is_digit(t[0])) || starts_with(t, "|"@))
}

/// A character allowed in the name of a build phase prefix.
pub open spec fn phase_char(c: char) -> bool {
    char_alphanumeric(c) || c == '-' || c == '_'
}

/// Position of the `>` that ends a build log prefix such as `hello>`: the
/// first `>` of the line, preceded by at least one character and only by
/// alphanumeric characters, `-` and `_`.
pub open spec fn phase_split(t: Seq<char>) -> Option<int> {
    match find(t, ">"@) {
        Some(idx) => if idx > 0 && (forall|j: int| 0 <= j < idx ==> phase_char(#[trigger] t[j])) {
            Some(idx)
        } else {
            None
        },
        None => None,
    }
}

/// Name of the derivation in a `building '/nix/store/<hash>-<name>...'`
/// line: the second dash-separated piece without its `.drv'...` ending.
pub open spec fn build_name(piece: Seq<char>) -> Seq<char> {
    trim_end_matches(trim_end_matches(piece, ".drv'..."@), ".drv'"@)
}

/// Mathematical view of the filter state.
pub struct QuietView {
    pub total: int,
    pub current: int,
    pub seen: Seq<Seq<char>>,
}

/// What is done with one line of output.
pub enum ActionView {
    Skip,
    Status(Seq<char>),
    FetchBar(int),
    Fetched { position: Option<int>, message: Option<Seq<char>> },
    BuildBar(int),
    Built(Option<Seq<char>>),
    Print(Seq<char>),
}

/// One step of the filter: the new state and the action for `line`.
pub open spec fn quiet_step(st: QuietView, line: Seq<char>) -> (QuietView, ActionView) {
    let t = trim(line);
    if contains(line, "warning: updating lock file"@) {
        (st, ActionView::Status("Updating flake.lock inputs..."@))
    } else if is_noise(line, t) || is_code_snippet(t) || (starts_with(line, "  /nix/store/"@)
        && ends_with(line, ".drv"@)) {
        (st, ActionView::Skip)
    } else if contains(line, "paths will be fetched"@) {
        match first_number(words(line)) {
            Some(n) => (QuietView { total: n, current: 0, seen: st.seen }, ActionView::FetchBar(n)),
            None => (st, ActionView::Skip),
        }
    } else if starts_with(line, "copying path '/nix/store/"@) {
        let c = st.current + 1;
        let rest = line.skip("copying path '/nix/store/"@.len() as int);
        let message = match find(rest, "'"@) {
            Some(e) => Some("Downloading "@ + store_name(rest.take(e)) + "..."@),
            None => None,
        };
        (
            QuietView { total: st.total, current: c, seen: st.seen },
            ActionView::Fetched {
                position: if st.total > 0 {
                    Some(c)
                } else {
                    None
                },
                message,
            },
        )
    } else if starts_with(t, "/nix/store/"@) && !ends_with(t, ".drv"@) {
        let c = st.current + 1;
        (
            QuietView { total: st.total, current: c, seen: st.seen },
            ActionView::Fetched {
                position: if st.total > 0 {
                    Some(c)
                } else {
                    None
                },
                message: Some(
                    "Fetching "@ + store_name(t.skip("/nix/store/"@.len() as int)) + "..."@,
                ),
            },
        )
    } else if contains(line, "these "@) && contains(line, " derivations will be built:"@) {
        let ws = words(line);
        if ws.len() >= 2 && parse_uint(ws[1], u64::MAX as int) is Some {
            (st, ActionView::BuildBar(parse_uint(ws[1], u64::MAX as int)->0))
        } else {
            (st, ActionView::Skip)
        }
    } else if starts_with(line, "building '/nix/store/"@) {
        let pieces = split_char(line, '-');
        (
            st,
            ActionView::Built(
                if pieces.len() >= 2 {
                    Some("Building "@ + build_name(pieces[1]) + "..."@)
                } else {
                    None
                },
            ),
        )
    } else if phase_split(t) is Some {
        let idx = phase_split(t)->0;
        let log = trim(t.skip(idx + 1));
        if log.len() > 0 {
            (st, ActionView::Status(t.take(idx) + ": "@ + log))
        } else {
            (st, ActionView::Skip)
        }
    } else if t.len() == 0 {
        (st, ActionView::Skip)
    } else if starts_with(t, "warning:"@) && st.seen.contains(t) {
        (st, ActionView::Skip)
    } else if starts_with(t, "warning:"@) {
        (
            QuietView { total: st.total, current: st.current, seen: st.seen.push(t) },
            ActionView::Print(line),
        )
    } else {
        (st, ActionView::Print(line))
    }
}

// ---------------------------------------------------------------------------
// The filter
// ---------------------------------------------------------------------------

/// State of the filter between lines.
pub struct QuietState {
    total_fetches: u64,
    current_fetches: u64,
    seen: Vec<Vec<char>>,
}

impl View for QuietState {
    type V = QuietView;

    closed spec fn view(&self) -> QuietView {
        QuietView {
            total: self.total_fetches as int,
            current: self.current_fetches as int,
            seen: views(self.seen@),
        }
    }
}

/// No warning is recorded twice.
pub open spec fn distinct_texts(s: Seq<Seq<char>>) -> bool {
    forall|i: int, j: int| 0 <= i < s.len() && 0 <= j < s.len() && i != j ==> s[i] != s[j]
}

/// What is done with one line of output.
#[derive(Debug, Clone, PartialEq, Eq)]
pub enum LineAction {
    /// Nothing is shown.
    Skip,
    /// The spinner or bar shows this message.
    Status(String),
    /// A fetch progress bar of this length starts at zero.
    FetchBar(u64),
    /// One more path was fetched: the bar moves to `position` when a fetch
    /// total is known, and shows `message` when there is one.
    Fetched { position: Option<u64>, message: Option<String> },
    /// A build progress bar of this length starts at zero.
    BuildBar(u64),
    /// One more derivation is being built: the bar advances by one and
    /// shows the message when there is one.
    Built(Option<String>),
    /// The line is printed above the bar.
    Print(String),
}

impl View for LineAction {
    type V = ActionView;

    open spec fn view(&self) -> ActionView {
        match self {
            LineAction::Skip => ActionView::Skip,
            LineAction::Status(m) => ActionView::Status(m@),
            LineAction::FetchBar(n) => ActionView::FetchBar(*n as int),
            LineAction::Fetched { position, message } => ActionView::Fetched {
                position: match position {
                    Some(p) => Some(*p as int),
                    None => None,
                },
                message: match message {
                    Some(m) => Some(m@),
                    None => None,
                },
            },
            LineAction::BuildBar(n) => ActionView::BuildBar(*n as int),
            LineAction::Built(m) => ActionView::Built(
                match m {
                    Some(m) => Some(m@),
                    None => None,
                },
            ),
            LineAction::Print(l) => ActionView::Print(l@),
        }
    }
}

fn has(l: &Vec<char>, p: &str) -> (b: bool)
    ensures
        b == contains(l@, p@),
{
    contains_exec(l, &chars_of(p))
}

fn begins(l: &Vec<char>, p: &str) -> (b: bool)
    ensures
        b == starts_with(l@, p@),
{
    starts_with_exec(l, &chars_of(p))
}

fn finishes(l: &Vec<char>, p: &str) -> (b: bool)
    ensures
        b == ends_with(l@, p@),
{
    ends_with_exec(l, &chars_of(p))
}

fn is_noise_exec(line: &Vec<char>, t: &Vec<char>) -> (b: bool)
    ensures
        b == is_noise(line@, t@),
{
    begins(t, "•") || begins(t, "'github:") || begins(t, "follows ") || begins(t, "'git+file:")
        || has(line, "%]") || has(line, "Built target") || has(line, "Install the project...")
        || has(line, "-- Install configuration:") || has(line, "separating debug info") || has(
        line,
        "shrinking RPATHs",
    ) || has(line, "stripping (with command") || has(line, "making symlink relative") || has(
        line,
        "checking for references",
    ) || has(line, "gzipping man pages") || has(line, "fetching path input") || has(
        line,
        "fetching github input",
    ) || has(line, "fetching git input") || has(line, "warning: Git tree") || has(
        line,
        "warning: 'system' has been renamed",
    ) || has(line, "warning: using or as an identifier is deprecated") || has(
        line,
        "warning: Ignoring setting",
    ) || begins(t, "at /nix/store/")
}

fn is_code_snippet_exec(t: &Vec<char>) -> (b: bool)
    ensures
        b == is_code_snippet(t@),
{
    has(t, "|") && ((t.len() > 0 && '0' <= t[0] && t[0] <= '9') || begins(t, "|"))
}

fn phase_split_exec(t: &Vec<char>) -> (r: Option<usize>)
    ensures
        match r {
            Some(i) => phase_split(t@) == Some(i as int) && i < t@.len(),
            None => phase_split(t@) is None,
        },
{
    let gt = chars_of(">");
    proof {
        reveal_strlit(">");
    }
    match find_exec(t, &gt) {
        Some(idx) => {
            if idx == 0 {
                return None;
            }
            let mut j: usize = 0;
            while j < idx
                invariant
                    j <= idx,
                    idx < t@.len(),
                    find(t@, ">"@) == Some(idx as int),
                    forall|k: int| 0 <= k < j ==> phase_char(#[trigger] t@[k]),
                decreases idx - j,
            {
                let c = t[j];
                if !(is_alphanumeric(c) || c == '-' || c == '_') {
                    assert(!phase_char(t@[j as int]));
                    return None;
                }
                j = j + 1;
            }
            Some(idx)
        },
        None => None,
    }
}

fn seen_contains(seen: &Vec<Vec<char>>, t: &Vec<char>) -> (b: bool)
    ensures
        b == views(seen@).contains(t@),
{
    let mut k: usize = 0;
    while k < seen.len()
        invariant
            k <= seen@.len(),
            forall|i: int| 0 <= i < k ==> views(seen@)[i] != t@,
        decreases seen.len() - k,
    {
        if seq_eq(seen[k].as_slice(), t.as_slice()) {
            assert(views(seen@)[k as int] == t@);
            return true;
        }
        k = k + 1;
    }
    false
}

fn join3(a: &str, b: &[char], c: &str) -> (r: String)
    ensures
        r@ == a@ + b@ + c@,
{
    let v = concat(&concat(&chars_of(a), b), &chars_of(c));
    string_of(&v)
}

fn fetched_action(total: u64, c: u64, message: Option<String>) -> (r: LineAction)
    ensures
        r == (LineAction::Fetched {
            position: if total > 0 {
                Some(c)
            } else {
                None
            },
            message,
        }),
{
    LineAction::Fetched {
        position: if total > 0 {
            Some(c)
        } else {
            None
        },
        message,
    }
}

impl QuietState {
    /// The state before the first line: no fetch announced, nothing seen.
    pub fn new() -> (s: Self)
        ensures
            s@.total == 0,
            s@.current == 0,
            s@.seen == Seq::<Seq<char>>::empty(),
            s.wf(),
    {
        let s = QuietState { total_fetches: 0, current_fetches: 0, seen: Vec::new() };
        assert(views(s.seen@) =~= Seq::<Seq<char>>::empty());
        s
    }

    /// The state keeps each shown warning once.
    pub open spec fn wf(&self) -> bool {
        distinct_texts(self@.seen)
    }

    /// Number of paths announced by the last fetch announcement.
    pub fn total_fetches(&self) -> (n: u64)
        ensures
            n == self@.total,
    {
        self.total_fetches
    }

    /// Number of paths fetched since the last fetch announcement.
    pub fn current_fetches(&self) -> (n: u64)
        ensures
            n == self@.current,
    {
        self.current_fetches
    }

    /// Decides what to do with one line of output and updates the state.
    /// The count of fetched paths must fit in a `u64`.
    #[verifier::rlimit(50)]
    pub fn process_line(&mut self, line: &str) -> (a: LineAction)
        requires
            old(self).wf(),
            quiet_step(old(self)@, line@).0.current <= u64::MAX,
        ensures
            final(self).wf(),
            final(self)@ == quiet_step(old(self)@, line@).0,
            a@ == quiet_step(old(self)@, line@).1,
    {
        let l = chars_of(line);
        let t = trim_exec(&l);
        let ghost st = self@;
        if has(&l, "warning: updating lock file") {
            return LineAction::Status(String::from_str("Updating flake.lock inputs..."));
        }
        if is_noise_exec(&l, &t) || is_code_snippet_exec(&t) || (begins(&l, "  /nix/store/")
            && finishes(&l, ".drv")) {
            return LineAction::Skip;
        }
        if has(&l, "paths will be fetched") {
            let ws = words_exec(&l);
            match first_number_exec(&ws) {
                Some(n) => {
                    self.total_fetches = n;
                    self.current_fetches = 0;
                    return LineAction::FetchBar(n);
                },
                None => {
                    return LineAction::Skip;
                },
            }
        }
        let copy_prefix = chars_of("copying path '/nix/store/");
        if starts_with_exec(&l, &copy_prefix) {
            self.current_fetches = self.current_fetches + 1;
            let c = self.current_fetches;
            let rest = slice(&l, copy_prefix.len(), l.len());
            assert(rest@ =~= l@.skip("copying path '/nix/store/"@.len() as int));
            let message = match find_exec(&rest, &chars_of("'")) {
                Some(e) => {
                    let name = store_name_exec(&slice(&rest, 0, e));
                    assert(rest@.subrange(0, e as int) =~= rest@.take(e as int));
                    Some(join3("Downloading ", &name, "..."))
                },
                None => None,
            };
            return fetched_action(self.total_fetches, c, message);
        }
        let store_prefix = chars_of("/nix/store/");
        if starts_with_exec(&t, &store_prefix) && !finishes(&t, ".drv") {
            self.current_fetches = self.current_fetches + 1;
            let c = self.current_fetches;
            let rest = slice(&t, store_prefix.len(), t.len());
            assert(rest@ =~= t@.skip("/nix/store/"@.len() as int));
            let name = store_name_exec(&rest);
            let message = Some(join3("Fetching ", &name, "..."));
            return fetched_action(self.total_fetches, c, message);
        }
        if has(&l, "these ") && has(&l, " derivations will be built:") {
            let ws = words_exec(&l);
            if ws.len() >= 2 {
                assert(views(ws@)[1] == ws@[1]@);
                match parse_uint_exec(ws[1].as_slice(), u64::MAX) {
                    Some(n) => {
                        return LineAction::BuildBar(n);
                    },
                    None => {
                        return LineAction::Skip;
                    },
                }
            }
            return LineAction::Skip;
        }
        if begins(&l, "building '/nix/store/") {
            let pieces = split_char_exec(&l, '-');
            if pieces.len() >= 2 {
                assert(views(pieces@)[1] == pieces@[1]@);
                let name = trim_end_matches_exec(
                    &trim_end_matches_exec(pieces[1].as_slice(), &chars_of(".drv'...")),
                    &chars_of(".drv'"),
                );
                return LineAction::Built(Some(join3("Building ", &name, "...")));
            }
            return LineAction::Built(None);
        }
        match phase_split_exec(&t) {
            Some(idx) => {
                assert(idx < t.len());
                let log = trim_exec(&slice(&t, idx + 1, t.len()));
                assert(t@.subrange(idx + 1, t@.len() as int) =~= t@.skip(idx + 1));
                if log.len() > 0 {
                    let head = slice(&t, 0, idx);
                    assert(head@ =~= t@.take(idx as int));
                    let v = concat(&concat(&head, &chars_of(": ")), &log);
                    return LineAction::Status(string_of(&v));
                }
                return LineAction::Skip;
            },
            None => {},
        }
        if t.len() == 0 {
            return LineAction::Skip;
        }
        if begins(&t, "warning:") {
            if seen_contains(&self.seen, &t) {
                return LineAction::Skip;
            }
            let ghost old_seen = views(self.seen@);
            self.seen.push(t);
            proof {
                assert(views(self.seen@) =~= old_seen.push(t@));
                assert forall|i: int, j: int|
                    0 <= i < views(self.seen@).len() && 0 <= j < views(self.seen@).len() && i
                        != j implies views(self.seen@)[i] != views(self.seen@)[j] by {
                    if i < old_seen.len() && j < old_seen.len() {
                    } else if i == old_seen.len() {
                        assert(!old_seen.contains(t@));
                        assert(old_seen[j] == views(self.seen@)[j]);
                    } else {
                        assert(!old_seen.contains(t@));
                        assert(old_seen[i] == views(self.seen@)[i]);
                    }
                }
            }
            return LineAction::Print(String::from_str(line));
        }
        LineAction::Print(String::from_str(line))
    }
}

/// Each warning is shown once: a line whose trimmed text starts with
/// `warning:` is never printed when it comes again right after itself,
/// whatever the state of the filter.
pub proof fn law_warning_shown_once(st: QuietView, line: Seq<char>)
    requires
        starts_with(trim(line), "warning:"@),
    ensures
        !(quiet_step(quiet_step(st, line).0, line).1 is Print),
{
    let s1 = quiet_step(st, line).0;
    let t = trim(line);
    if quiet_step(st, line).1 is Print {
        assert(s1.seen == st.seen.push(t));
        assert(s1.seen[st.seen.len() as int] == t);
        assert(s1.seen.contains(t));
    }
}

/// A fetch announcement restarts the count: when a line starts a fetch bar
/// of `n` paths, the filter then expects `n` paths and has fetched none,
/// whatever it counted before, and it remembers the same warnings.
pub proof fn law_fetch_announcement_restarts(st: QuietView, line: Seq<char>)
    ensures
        quiet_step(st, line).1 matches ActionView::FetchBar(n) ==> {
            &&& quiet_step(st, line).0.total == n
            &&& quiet_step(st, line).0.current == 0
            &&& quiet_step(st, line).0.seen == st.seen
        },
{
}

/// A line that announces `n` paths to fetch, and is neither the lock file
/// update, noise, a source excerpt nor a derivation path, starts a fetch
/// bar of `n` paths with nothing fetched yet.
pub proof fn law_announcement_starts_bar(st: QuietView, line: Seq<char>, n: int)
    requires
        contains(line, "paths will be fetched"@),
        first_number(words(line)) == Some(n),
        !contains(line, "warning: updating lock file"@),
        !is_noise(line, trim(line)),
        !is_code_snippet(trim(line)),
        !(starts_with(line, "  /nix/store/"@) && ends_with(line, ".drv"@)),
    ensures
        quiet_step(st, line).1 == ActionView::FetchBar(n),
        quiet_step(st, line).0 == (QuietView { total: n, current: 0, seen: st.seen }),
{
}

/// Each fetched path advances the count by one and keeps the expected
/// total; its position on the bar, when there is a bar, is the new count.
/// So the first path after an announcement is at position 1.
pub proof fn law_fetched_path_advances(st: QuietView, line: Seq<char>)
    ensures
        quiet_step(st, line).1 matches ActionView::Fetched { position, message } ==> {
            &&& quiet_step(st, line).0.current == st.current + 1
            &&& quiet_step(st, line).0.total == st.total
            &&& (st.total > 0 <==> position == Some(st.current + 1))
            &&& position matches Some(p) ==> p == st.current + 1
        },
{
}

/// After an announcement of `n > 0` paths, the next fetched path stands at
/// position 1 of the bar.
pub proof fn law_first_fetch_after_announcement(st: QuietView, announce: Seq<char>, line: Seq<char>)
    requires
        quiet_step(st, announce).1 matches ActionView::FetchBar(n) && n > 0,
        quiet_step(quiet_step(st, announce).0, line).1 is Fetched,
    ensures
        quiet_step(quiet_step(st, announce).0, line).1 matches ActionView::Fetched { position, .. }
            && position == Some(1int),
{
    law_fetch_announcement_restarts(st, announce);
    law_fetched_path_advances(quiet_step(st, announce).0, line);
}

/// The state of the filter after the first `k` lines of a run from `st`.
pub open spec fn quiet_state_after(st: QuietView, lines: Seq<Seq<char>>, k: int) -> QuietView
    decreases k,
{
    if k <= 0 || k > lines.len() {
        st
    } else {
        quiet_step(quiet_state_after(st, lines, k - 1), lines[k - 1]).0
    }
}

/// The action taken for each line of a run from `st`.
pub open spec fn quiet_actions(st: QuietView, lines: Seq<Seq<char>>) -> Seq<ActionView> {
    Seq::new(lines.len(), |k: int| quiet_step(quiet_state_after(st, lines, k), lines[k]).1)
}

proof fn lemma_step_seen(st: QuietView, line: Seq<char>)
    ensures
        quiet_step(st, line).0.seen == st.seen || quiet_step(st, line).0.seen == st.seen.push(
            trim(line),
        ),
        quiet_step(st, line).1 is Print && starts_with(trim(line), "warning:"@) ==> !st.seen.contains(
            trim(line),
        ) && quiet_step(st, line).0.seen == st.seen.push(trim(line)),
{
}

proof fn lemma_seen_kept(st: QuietView, lines: Seq<Seq<char>>, a: int, b: int, x: Seq<char>)
    requires
        0 <= a <= b <= lines.len(),
        quiet_state_after(st, lines, a).seen.contains(x),
    ensures
        quiet_state_after(st, lines, b).seen.contains(x),
    decreases b - a,
{
    if a < b {
        let s = quiet_state_after(st, lines, a);
        lemma_step_seen(s, lines[a]);
        assert(quiet_state_after(st, lines, a + 1) == quiet_step(s, lines[a]).0);
        if quiet_step(s, lines[a]).0.seen != s.seen {
            let i = s.seen.index_of(x);
            assert(s.seen.push(trim(lines[a]))[i] == x);
        }
        lemma_seen_kept(st, lines, a + 1, b, x);
    }
}

/// Each warning is shown once over a whole run: when a line whose trimmed
/// text starts with `warning:` has been printed, no later line with the
/// same trimmed text is printed, whatever came in between.
pub proof fn law_warning_shown_once_per_run(st: QuietView, lines: Seq<Seq<char>>, i: int, j: int)
    requires
        0 <= i < j < lines.len(),
        trim(lines[i]) == trim(lines[j]),
        starts_with(trim(lines[i]), "warning:"@),
    ensures
        !(quiet_actions(st, lines)[i] is Print && quiet_actions(st, lines)[j] is Print),
{
    let t = trim(lines[i]);
    let si = quiet_state_after(st, lines, i);
    let sj = quiet_state_after(st, lines, j);
    if quiet_actions(st, lines)[i] is Print {
        lemma_step_seen(si, lines[i]);
        assert(quiet_state_after(st, lines, i + 1) == quiet_step(si, lines[i]).0);
        assert(si.seen.push(t)[si.seen.len() as int] == t);
        lemma_seen_kept(st, lines, i + 1, j, t);
        lemma_step_seen(sj, lines[j]);
    }
}


/// How a quiet run of a command ends. `status` is `None` when the command
/// could not be started or waited for, else whether it exited with success.
/// Success is `Ok`; every other outcome is a parse error that carries the
/// message given for the command.
pub fn run_outcome(status: Option<bool>, error_msg: &str) -> (r: Result<(), crate::errors::RixError>)
    ensures
        r is Ok <==> status == Some(true),
        r matches Err(e) ==> e@ == crate::errors::ErrorView::ParseError(error_msg@),
{
    match status {
        Some(true) => Ok(()),
        _ => Err(crate::errors::RixError::ParseError(String::from_str(error_msg))),
    }
}

} // verus!
