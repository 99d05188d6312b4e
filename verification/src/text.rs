//! Character-level text model shared by the whole library.
//!
//! Text is handled as sequences of Unicode scalar values (`Seq<char>` in
//! specifications, `Vec<char>` in executable code). The spec functions here
//! state what the corresponding `str` methods of std compute.
use vstd::prelude::*;

verus! {

/// The Unicode `White_Space` property, which `char::is_whitespace` and
/// `str::trim` use.
pub open spec fn is_ws(c: char) -> bool {
    let u = c as u32;
    ||| (0x09 <= u && u <= 0x0D)
    ||| u == 0x20
    ||| u == 0x85
    ||| u == 0xA0
    ||| u == 0x1680
    ||| (0x2000 <= u && u <= 0x200A)
    ||| u == 0x2028
    ||| u == 0x2029
    ||| u == 0x202F
    ||| u == 0x205F
    ||| u == 0x3000
}

/// Index of the first non-whitespace character at or after `i`.
pub open spec fn lead_from(s: Seq<char>, i: int) -> int
    decreases s.len() - i,
{
    if 0 <= i < s.len() && is_ws(s[i]) {
        lead_from(s, i + 1)
    } else {
        i
    }
}

/// End of `s.take(j)` once trailing whitespace is removed.
pub open spec fn tail_from(s: Seq<char>, j: int) -> int
    decreases j,
{
    if 0 < j <= s.len() && is_ws(s[j - 1]) {
        tail_from(s, j - 1)
    } else {
        j
    }
}

/// `str::trim_start`
pub open spec fn trim_start(s: Seq<char>) -> Seq<char> {
    s.skip(lead_from(s, 0))
}

/// `str::trim_end`
pub open spec fn trim_end(s: Seq<char>) -> Seq<char> {
    s.take(tail_from(s, s.len() as int))
}

/// `str::trim`
pub open spec fn trim(s: Seq<char>) -> Seq<char> {
    let a = lead_from(s, 0);
    let e = tail_from(s, s.len() as int);
    if a < e {
        s.subrange(a, e)
    } else {
        Seq::empty()
    }
}

/// `p` occurs in `s` at index `i`.
pub open spec fn match_at(s: Seq<char>, p: Seq<char>, i: int) -> bool {
    0 <= i && i + p.len() <= s.len() && s.subrange(i, i + p.len()) == p
}

/// First index at or after `i` where `p` occurs in `s` (`str::find`).
pub open spec fn find_from(s: Seq<char>, p: Seq<char>, i: int) -> Option<int>
    decreases s.len() - i,
{
    if i < 0 || i + p.len() > s.len() {
        None
    } else if match_at(s, p, i) {
        Some(i)
    } else if i >= s.len() {
        None
    } else {
        find_from(s, p, i + 1)
    }
}

/// `str::find`
pub open spec fn find(s: Seq<char>, p: Seq<char>) -> Option<int> {
    find_from(s, p, 0)
}

/// `str::contains`
pub open spec fn contains(s: Seq<char>, p: Seq<char>) -> bool {
    find(s, p) is Some
}

/// `str::starts_with`
pub open spec fn starts_with(s: Seq<char>, p: Seq<char>) -> bool {
    p.len() <= s.len() && s.take(p.len() as int) == p
}

/// `str::ends_with`
pub open spec fn ends_with(s: Seq<char>, p: Seq<char>) -> bool {
    p.len() <= s.len() && s.skip(s.len() - p.len()) == p
}

/// `str::strip_prefix(p).unwrap_or(s)`
pub open spec fn strip_prefix_or_keep(s: Seq<char>, p: Seq<char>) -> Seq<char> {
    if starts_with(s, p) {
        s.skip(p.len() as int)
    } else {
        s
    }
}

/// `str::trim_end_matches` with a non-empty string pattern.
pub open spec fn trim_end_matches(s: Seq<char>, p: Seq<char>) -> Seq<char>
    decreases s.len(),
{
    if p.len() > 0 && ends_with(s, p) {
        trim_end_matches(s.take(s.len() - p.len()), p)
    } else {
        s
    }
}

/// `str::trim_start_matches` with a non-empty string pattern.
pub open spec fn trim_start_matches(s: Seq<char>, p: Seq<char>) -> Seq<char>
    decreases s.len(),
{
    if p.len() > 0 && starts_with(s, p) {
        trim_start_matches(s.skip(p.len() as int), p)
    } else {
        s
    }
}

/// `str::trim_matches` with a single character.
pub open spec fn trim_matches_char(s: Seq<char>, c: char) -> Seq<char> {
    trim_end_matches(trim_start_matches(s, seq![c]), seq![c])
}

/// Pieces of `s` between occurrences of `c`, scanning from `i` with the
/// current piece starting at `start` (`str::split` with a character).
pub open spec fn split_scan(s: Seq<char>, c: char, start: int, i: int) -> Seq<Seq<char>>
    decreases s.len() - i,
{
    if i >= s.len() || i < start || start < 0 {
        seq![s.subrange(start, s.len() as int)]
    } else if s[i] == c {
        seq![s.subrange(start, i)] + split_scan(s, c, i + 1, i + 1)
    } else {
        split_scan(s, c, start, i + 1)
    }
}

/// `str::split` with a character, collected.
pub open spec fn split_char(s: Seq<char>, c: char) -> Seq<Seq<char>> {
    split_scan(s, c, 0, 0)
}

/// Last index before `j` where `c` occurs in `s` (`str::rfind` with a character).
pub open spec fn rfind_from(s: Seq<char>, c: char, j: int) -> Option<int>
    decreases j,
{
    if j <= 0 || j > s.len() {
        None
    } else if s[j - 1] == c {
        Some(j - 1)
    } else {
        rfind_from(s, c, j - 1)
    }
}

/// `str::rfind` with a character.
pub open spec fn rfind_char(s: Seq<char>, c: char) -> Option<int> {
    rfind_from(s, c, s.len() as int)
}

/// What `find_from` finds is a match at or after the start.
pub proof fn lemma_find_from_match(s: Seq<char>, p: Seq<char>, i: int)
    ensures
        find_from(s, p, i) matches Some(k) ==> (i <= k && match_at(s, p, k)),
    decreases s.len() - i,
{
    if i < 0 || i + p.len() > s.len() {
    } else if match_at(s, p, i) {
    } else if i >= s.len() {
    } else {
        lemma_find_from_match(s, p, i + 1);
    }
}

/// What `rfind_char` finds lies inside the text and holds the character.
pub proof fn lemma_rfind_from(s: Seq<char>, c: char, j: int)
    ensures
        rfind_from(s, c, j) matches Some(k) ==> (0 <= k < j && k < s.len() && s[k] == c),
    decreases j,
{
    if j <= 0 || j > s.len() {
    } else if s[j - 1] == c {
    } else {
        lemma_rfind_from(s, c, j - 1);
    }
}

/// A line without the carriage return of a `\r\n` ending.
pub open spec fn strip_cr(l: Seq<char>) -> Seq<char> {
    if l.len() > 0 && l.last() == '\r' {
        l.drop_last()
    } else {
        l
    }
}

/// Lines of `s` from index `i` on, the current line starting at `start`
/// (`str::lines`).
pub open spec fn lines_scan(s: Seq<char>, start: int, i: int) -> Seq<Seq<char>>
    decreases s.len() - i,
{
    if i >= s.len() || i < start || start < 0 {
        if 0 <= start < s.len() {
            seq![s.subrange(start, s.len() as int)]
        } else {
            Seq::empty()
        }
    } else if s[i] == '\n' {
        seq![strip_cr(s.subrange(start, i))] + lines_scan(s, i + 1, i + 1)
    } else {
        lines_scan(s, start, i + 1)
    }
}

/// `str::lines`, collected.
pub open spec fn lines(s: Seq<char>) -> Seq<Seq<char>> {
    lines_scan(s, 0, 0)
}

/// A match at `k` is found by any search that starts at or before `k`.
pub proof fn lemma_match_found(s: Seq<char>, p: Seq<char>, i: int, k: int)
    requires
        0 <= i <= k,
        match_at(s, p, k),
    ensures
        find_from(s, p, i) is Some,
    decreases k - i,
{
    if match_at(s, p, i) {
    } else {
        assert(i + p.len() <= s.len());
        if i >= s.len() {
            assert(p.len() == 0);
            assert(s.subrange(i, i) =~= p);
        }
        lemma_match_found(s, p, i + 1, k);
    }
}

/// A text contains whatever a piece of it contains.
pub proof fn lemma_contains_concat(a: Seq<char>, x: Seq<char>, b: Seq<char>, p: Seq<char>)
    requires
        contains(x, p),
    ensures
        contains(a + x + b, p),
{
    lemma_find_from_match(x, p, 0);
    let k = find(x, p)->0;
    let s = a + x + b;
    assert(s.subrange(a.len() + k, a.len() + k + p.len()) =~= x.subrange(k, k + p.len()));
    lemma_match_found(s, p, 0, a.len() + k);
}

/// Views of a sequence of character vectors.
pub open spec fn views(v: Seq<Vec<char>>) -> Seq<Seq<char>> {
    v.map_values(|x: Vec<char>| x@)
}

// ---------------------------------------------------------------------------
// Executable counterparts
// ---------------------------------------------------------------------------

/// Appends one character to a string (`String::push`).
///
/// Trusted: the string gains the character at its end.
#[verifier::external_body]
fn push_char(s: &mut String, c: char)
    ensures
        final(s)@ == old(s)@.push(c),
{
    s.push(c)
}

/// The characters of a string slice.
pub fn chars_of(s: &str) -> (v: Vec<char>)
    ensures
        v@ == s@,
{
    let n = s.unicode_len();
    let mut v: Vec<char> = Vec::new();
    let mut i: usize = 0;
    while i < n
        invariant
            n == s@.len(),
            i <= n,
            v@ == s@.take(i as int),
        decreases n - i,
    {
        let c = s.get_char(i);
        v.push(c);
        assert(s@.take(i as int).push(c) =~= s@.take(i + 1));
        i = i + 1;
    }
    assert(s@.take(n as int) =~= s@);
    v
}

/// A string holding the given characters.
pub fn string_of(v: &[char]) -> (s: String)
    ensures
        s@ == v@,
{
    let mut s = String::new();
    let mut i: usize = 0;
    while i < v.len()
        invariant
            i <= v.len(),
            s@ == v@.take(i as int),
        decreases v.len() - i,
    {
        push_char(&mut s, v[i]);
        assert(v@.take(i as int).push(v@[i as int]) =~= v@.take(i + 1));
        i = i + 1;
    }
    assert(v@.take(v.len() as int) =~= v@);
    s
}

/// `char::is_whitespace`
pub fn char_is_ws(c: char) -> (b: bool)
    ensures
        b == is_ws(c),
{
    let u = c as u32;
    (0x09 <= u && u <= 0x0D) || u == 0x20 || u == 0x85 || u == 0xA0 || u == 0x1680 || (0x2000
        <= u && u <= 0x200A) || u == 0x2028 || u == 0x2029 || u == 0x202F || u == 0x205F || u
        == 0x3000
}

/// Copy of `v[a..b]`.
pub fn slice(v: &[char], a: usize, b: usize) -> (r: Vec<char>)
    requires
        a <= b <= v@.len(),
    ensures
        r@ == v@.subrange(a as int, b as int),
{
    let mut r: Vec<char> = Vec::new();
    let mut i: usize = a;
    while i < b
        invariant
            a <= i <= b,
            b <= v@.len(),
            r@ == v@.subrange(a as int, i as int),
        decreases b - i,
    {
        r.push(v[i]);
        assert(v@.subrange(a as int, i as int).push(v@[i as int]) =~= v@.subrange(
            a as int,
            i + 1,
        ));
        i = i + 1;
    }
    r
}

/// Appends `w` to `v`.
pub fn extend(v: &mut Vec<char>, w: &[char])
    ensures
        final(v)@ == old(v)@ + w@,
{
    let ghost v0 = v@;
    let mut i: usize = 0;
    while i < w.len()
        invariant
            i <= w.len(),
            v@ == v0 + w@.take(i as int),
        decreases w.len() - i,
    {
        v.push(w[i]);
        assert(v0 + w@.take(i as int) + seq![w@[i as int]] =~= v0 + w@.take(i + 1));
        i = i + 1;
    }
    assert(w@.take(w.len() as int) =~= w@);
}

/// Concatenation of two character sequences.
pub fn concat(a: &[char], b: &[char]) -> (r: Vec<char>)
    ensures
        r@ == a@ + b@,
{
    let mut r = slice(a, 0, a.len());
    assert(a@.subrange(0, a@.len() as int) =~= a@);
    extend(&mut r, b);
    r
}

/// Whether `p` occurs in `s` at index `i`.
pub fn match_at_exec(s: &[char], p: &[char], i: usize) -> (b: bool)
    ensures
        b == match_at(s@, p@, i as int),
{
    if i > s.len() || p.len() > s.len() - i {
        return false;
    }
    let mut k: usize = 0;
    while k < p.len()
        invariant
            i + p@.len() <= s@.len(),
            k <= p@.len(),
            s@.len() == s.len(),
            p@.len() == p.len(),
            forall|j: int| 0 <= j < k ==> s@[i + j] == p@[j],
        decreases p.len() - k,
    {
        if s[i + k] != p[k] {
            assert(s@.subrange(i as int, i + p@.len())[k as int] != p@[k as int]);
            return false;
        }
        k = k + 1;
    }
    assert(s@.subrange(i as int, i + p@.len()) =~= p@);
    true
}

/// `str::find` starting at `i`.
pub fn find_from_exec(s: &[char], p: &[char], i: usize) -> (r: Option<usize>)
    ensures
        r matches Some(k) ==> find_from(s@, p@, i as int) == Some(k as int),
        r is None ==> find_from(s@, p@, i as int) is None,
{
    let mut k: usize = i;
    while k <= s.len() && p.len() <= s.len() - k
        invariant
            i <= k,
            find_from(s@, p@, i as int) == find_from(s@, p@, k as int),
        decreases s.len() + 1 - k,
    {
        if match_at_exec(s, p, k) {
            return Some(k);
        }
        if k == s.len() {
            assert(s@.subrange(k as int, k as int) =~= p@);
            return None;
        }
        k = k + 1;
    }
    None
}

/// `str::find`
pub fn find_exec(s: &[char], p: &[char]) -> (r: Option<usize>)
    ensures
        r matches Some(k) ==> find(s@, p@) == Some(k as int),
        r matches Some(k) ==> k + p.len() <= s.len() && match_at(s@, p@, k as int),
        r is None ==> find(s@, p@) is None,
{
    proof {
        lemma_find_from_match(s@, p@, 0);
    }
    find_from_exec(s, p, 0)
}

/// `str::rfind` with a character.
pub fn rfind_char_exec(s: &[char], c: char) -> (r: Option<usize>)
    ensures
        r matches Some(k) ==> rfind_char(s@, c) == Some(k as int),
        r is None ==> rfind_char(s@, c) is None,
{
    let mut j: usize = s.len();
    while j > 0
        invariant
            j <= s@.len(),
            rfind_char(s@, c) == rfind_from(s@, c, j as int),
        decreases j,
    {
        if s[j - 1] == c {
            return Some(j - 1);
        }
        j = j - 1;
    }
    None
}

/// `str::contains`
pub fn contains_exec(s: &[char], p: &[char]) -> (b: bool)
    ensures
        b == contains(s@, p@),
{
    find_exec(s, p).is_some()
}

/// `str::starts_with`
pub fn starts_with_exec(s: &[char], p: &[char]) -> (b: bool)
    ensures
        b == starts_with(s@, p@),
{
    let b = match_at_exec(s, p, 0);
    proof {
        if b {
            assert(s@.take(p@.len() as int) =~= s@.subrange(0, p@.len() as int));
        }
        if starts_with(s@, p@) {
            assert(s@.take(p@.len() as int) =~= s@.subrange(0, p@.len() as int));
        }
    }
    b
}

/// `str::ends_with`
pub fn ends_with_exec(s: &[char], p: &[char]) -> (b: bool)
    ensures
        b == ends_with(s@, p@),
{
    if p.len() > s.len() {
        return false;
    }
    let b = match_at_exec(s, p, s.len() - p.len());
    proof {
        assert(s@.skip(s@.len() - p@.len()) =~= s@.subrange(
            s@.len() - p@.len(),
            s@.len() as int,
        ));
    }
    b
}

/// Start and end of the trimmed part of `s` (`str::trim`).
pub fn trim_bounds(s: &[char]) -> (r: (usize, usize))
    ensures
        r.0 <= r.1 <= s@.len(),
        s@.subrange(r.0 as int, r.1 as int) == trim(s@),
{
    let mut a: usize = 0;
    while a < s.len() && char_is_ws(s[a])
        invariant
            a <= s@.len(),
            lead_from(s@, 0) == lead_from(s@, a as int),
        decreases s.len() - a,
    {
        a = a + 1;
    }
    let mut e: usize = s.len();
    while e > 0 && char_is_ws(s[e - 1])
        invariant
            e <= s@.len(),
            tail_from(s@, s@.len() as int) == tail_from(s@, e as int),
        decreases e,
    {
        e = e - 1;
    }
    if a < e {
        (a, e)
    } else {
        (0, 0)
    }
}

/// `str::trim`
pub fn trim_exec(s: &[char]) -> (r: Vec<char>)
    ensures
        r@ == trim(s@),
{
    let (a, e) = trim_bounds(s);
    slice(s, a, e)
}

/// `str::trim_start`
pub fn trim_start_exec(s: &[char]) -> (r: Vec<char>)
    ensures
        r@ == trim_start(s@),
{
    let mut a: usize = 0;
    while a < s.len() && char_is_ws(s[a])
        invariant
            a <= s@.len(),
            lead_from(s@, 0) == lead_from(s@, a as int),
        decreases s.len() - a,
    {
        a = a + 1;
    }
    let r = slice(s, a, s.len());
    assert(r@ =~= s@.skip(a as int));
    r
}

/// `str::strip_prefix(p).unwrap_or(s)`
pub fn strip_prefix_or_keep_exec(s: &[char], p: &[char]) -> (r: Vec<char>)
    ensures
        r@ == strip_prefix_or_keep(s@, p@),
{
    if starts_with_exec(s, p) {
        let r = slice(s, p.len(), s.len());
        assert(r@ =~= s@.skip(p@.len() as int));
        r
    } else {
        let r = slice(s, 0, s.len());
        assert(r@ =~= s@);
        r
    }
}

/// `str::trim_end_matches` with a non-empty string pattern.
pub fn trim_end_matches_exec(s: &[char], p: &[char]) -> (r: Vec<char>)
    ensures
        r@ == trim_end_matches(s@, p@),
{
    let mut e: usize = s.len();
    let mut cur = slice(s, 0, s.len());
    assert(cur@ =~= s@);
    while p.len() > 0 && ends_with_exec(&cur, p)
        invariant
            e == cur@.len(),
            trim_end_matches(s@, p@) == trim_end_matches(cur@, p@),
        decreases e,
    {
        e = e - p.len();
        cur = slice(&cur, 0, e);
        assert(cur@ =~= cur@.take(e as int));
    }
    cur
}

/// `str::trim_start_matches` with a non-empty string pattern.
pub fn trim_start_matches_exec(s: &[char], p: &[char]) -> (r: Vec<char>)
    ensures
        r@ == trim_start_matches(s@, p@),
{
    let mut cur = slice(s, 0, s.len());
    assert(cur@ =~= s@);
    while p.len() > 0 && starts_with_exec(&cur, p)
        invariant
            trim_start_matches(s@, p@) == trim_start_matches(cur@, p@),
        decreases cur@.len(),
    {
        let n = cur.len();
        cur = slice(&cur, p.len(), n);
    }
    cur
}

/// `str::trim_matches` with a single character.
pub fn trim_matches_char_exec(s: &[char], c: char) -> (r: Vec<char>)
    ensures
        r@ == trim_matches_char(s@, c),
{
    let pat = vec![c];
    assert(pat@ =~= seq![c]);
    let t = trim_start_matches_exec(s, &pat);
    trim_end_matches_exec(&t, &pat)
}

/// `str::lines`, collected.
pub fn lines_exec(s: &[char]) -> (r: Vec<Vec<char>>)
    ensures
        views(r@) == lines(s@),
{
    let mut r: Vec<Vec<char>> = Vec::new();
    let mut start: usize = 0;
    let mut i: usize = 0;
    while i < s.len()
        invariant
            start <= i <= s@.len(),
            views(r@) + lines_scan(s@, start as int, i as int) == lines(s@),
        decreases s.len() - i,
    {
        if s[i] == '\n' {
            let mut piece = slice(s, start, i);
            if piece.len() > 0 && piece[piece.len() - 1] == '\r' {
                let n = piece.len() - 1;
                piece = slice(&piece, 0, n);
                assert(piece@ =~= s@.subrange(start as int, i as int).drop_last());
            }
            let ghost before = views(r@);
            r.push(piece);
            assert(views(r@) =~= before.push(piece@));
            assert(before + lines_scan(s@, start as int, i as int) =~= views(r@) + lines_scan(
                s@,
                i + 1,
                i + 1,
            ));
            start = i + 1;
        }
        i = i + 1;
    }
    if start < s.len() {
        let piece = slice(s, start, s.len());
        let ghost before = views(r@);
        r.push(piece);
        assert(views(r@) =~= before.push(piece@));
        assert(views(r@) =~= before + lines_scan(s@, start as int, i as int));
    } else {
        assert(views(r@) =~= views(r@) + lines_scan(s@, start as int, i as int));
    }
    r
}

/// `str::split` with a character, collected.
pub fn split_char_exec(s: &[char], c: char) -> (r: Vec<Vec<char>>)
    ensures
        views(r@) == split_char(s@, c),
{
    let mut r: Vec<Vec<char>> = Vec::new();
    let mut start: usize = 0;
    let mut i: usize = 0;
    while i < s.len()
        invariant
            start <= i <= s@.len(),
            views(r@) + split_scan(s@, c, start as int, i as int) == split_char(s@, c),
        decreases s.len() - i,
    {
        if s[i] == c {
            let piece = slice(s, start, i);
            let ghost before = views(r@);
            r.push(piece);
            assert(views(r@) =~= before.push(piece@));
            assert(before + split_scan(s@, c, start as int, i as int) =~= views(r@)
                + split_scan(s@, c, i + 1, i + 1));
            start = i + 1;
        }
        i = i + 1;
    }
    let piece = slice(s, start, s.len());
    let ghost before = views(r@);
    r.push(piece);
    assert(views(r@) =~= before.push(piece@));
    assert(views(r@) =~= before + split_scan(s@, c, start as int, i as int));
    r
}

/// Whether two character sequences are equal.
pub fn seq_eq(a: &[char], b: &[char]) -> (r: bool)
    ensures
        r == (a@ == b@),
{
    let r = a.len() == b.len() && match_at_exec(a, b, 0);
    proof {
        if a@.len() == b@.len() {
            if match_at(a@, b@, 0) {
                assert(a@ =~= b@);
            }
            if a@ == b@ {
                assert(a@.subrange(0, b@.len() as int) =~= b@);
            }
        }
    }
    r
}

} // verus!
