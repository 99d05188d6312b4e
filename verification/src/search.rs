//! Ranking of package search results and resolution of installable
//! attribute paths.
use vstd::prelude::*;
use crate::errors::{ErrorView, RixError};
use crate::text::{chars_of, ends_with, ends_with_exec, extend, find, find_exec, slice, string_of};

verus! {

broadcast use vstd::seq_lib::group_to_multiset_ensures;

/// What `str::to_lowercase` yields for a text (full Unicode lowercase
/// mapping).
pub uninterp spec fn str_to_lowercase(s: Seq<char>) -> Seq<char>;

/// `str::to_lowercase`.
///
/// Trusted: the result is `str_to_lowercase` of the text.
#[verifier::external_body]
pub fn to_lowercase(s: &str) -> (r: String)
    ensures
        r@ == str_to_lowercase(s@),
{
    s.to_lowercase()
}

/// Length in bytes of the UTF-8 encoding of a text (`str::len`).
pub open spec fn byte_len(s: Seq<char>) -> int {
    vstd::utf8::encode_utf8(s).len() as int
}

/// Strict lexicographic order of texts by code point, which is the order
/// of `String::cmp` (UTF-8 preserves code point order).
pub open spec fn lex_lt(a: Seq<char>, b: Seq<char>) -> bool
    decreases a.len(),
{
    if a.len() == 0 {
        b.len() > 0
    } else if b.len() == 0 {
        false
    } else if a[0] < b[0] {
        true
    } else if a[0] == b[0] {
        lex_lt(a.drop_first(), b.drop_first())
    } else {
        false
    }
}

pub(crate) proof fn lemma_lex_lt_trans(a: Seq<char>, b: Seq<char>, c: Seq<char>)
    requires
        lex_lt(a, b),
        lex_lt(b, c),
    ensures
        lex_lt(a, c),
    decreases a.len(),
{
    if a.len() > 0 && b.len() > 0 && c.len() > 0 && a[0] == b[0] && b[0] == c[0] {
        lemma_lex_lt_trans(a.drop_first(), b.drop_first(), c.drop_first());
    }
}

pub(crate) proof fn lemma_lex_lt_irrefl(a: Seq<char>)
    ensures
        !lex_lt(a, a),
    decreases a.len(),
{
    if a.len() > 0 {
        lemma_lex_lt_irrefl(a.drop_first());
    }
}

/// Strict lexicographic comparison of texts by code point.
pub fn lex_lt_exec(a: &[char], b: &[char]) -> (r: bool)
    ensures
        r == lex_lt(a@, b@),
{
    let mut i: usize = 0;
    assert(a@.skip(0) =~= a@);
    assert(b@.skip(0) =~= b@);
    while i < a.len() && i < b.len() && a[i] == b[i]
        invariant
            i <= a@.len(),
            i <= b@.len(),
            lex_lt(a@, b@) == lex_lt(a@.skip(i as int), b@.skip(i as int)),
        decreases a.len() - i,
    {
        assert(a@.skip(i as int).drop_first() =~= a@.skip(i + 1));
        assert(b@.skip(i as int).drop_first() =~= b@.skip(i + 1));
        i = i + 1;
    }
    if i == a.len() {
        i < b.len()
    } else if i == b.len() {
        false
    } else {
        a[i] < b[i]
    }
}

/// Two different texts are ordered one way or the other.
pub(crate) proof fn lemma_lex_lt_total(a: Seq<char>, b: Seq<char>)
    ensures
        lex_lt(a, b) || lex_lt(b, a) || a == b,
    decreases a.len(),
{
    if a.len() > 0 && b.len() > 0 && a[0] == b[0] {
        lemma_lex_lt_total(a.drop_first(), b.drop_first());
        if a.drop_first() == b.drop_first() {
            assert(a =~= seq![a[0]] + a.drop_first());
            assert(b =~= seq![b[0]] + b.drop_first());
        }
    } else if a.len() == 0 && b.len() == 0 {
        assert(a =~= b);
    } else if a.len() > 0 && b.len() > 0 {
        assert(a[0] != b[0]);
    }
}

/// The part of a text after its last `.` (all of it when it has none).
pub open spec fn dot_tail(s: Seq<char>) -> Seq<char> {
    match crate::text::rfind_char(s, '.') {
        Some(k) => s.skip(k + 1),
        None => s,
    }
}

fn dot_tail_exec(s: &[char]) -> (r: Vec<char>)
    ensures
        r@ == dot_tail(s@),
{
    match crate::text::rfind_char_exec(s, '.') {
        Some(k) => {
            proof {
                crate::text::lemma_rfind_from(s@, '.', s@.len() as int);
                assert(k < s.len());
            }
            let r = slice(s, k + 1, s.len());
            assert(r@ =~= s@.skip(k + 1));
            r
        },
        None => {
            let r = slice(s, 0, s.len());
            assert(r@ =~= s@);
            r
        },
    }
}

/// The ranking key of a result: exact match first, then shorter key (in
/// bytes), then key order.
pub struct Rank {
    pub exact: bool,
    pub len: int,
    pub key: Seq<char>,
}

/// Whether a result key matches the query exactly, ignoring case; with
/// `by_segment` only the last `.`-separated segment of the key counts.
pub open spec fn exact_match(key: Seq<char>, query: Seq<char>, by_segment: bool) -> bool {
    let k = if by_segment {
        dot_tail(key)
    } else {
        key
    };
    str_to_lowercase(k) == str_to_lowercase(query)
}

/// Rank of a result key.
pub open spec fn rank_of(key: Seq<char>, query: Seq<char>, by_segment: bool) -> Rank {
    Rank { exact: exact_match(key, query, by_segment), len: byte_len(key), key }
}

/// Rank `a` comes strictly before rank `b`.
pub open spec fn rank_lt(a: Rank, b: Rank) -> bool {
    ||| (a.exact && !b.exact)
    ||| (a.exact == b.exact && a.len < b.len)
    ||| (a.exact == b.exact && a.len == b.len && lex_lt(a.key, b.key))
}

proof fn lemma_rank_lt_trans(a: Rank, b: Rank, c: Rank)
    requires
        rank_lt(a, b),
        rank_lt(b, c),
    ensures
        rank_lt(a, c),
{
    if a.exact == b.exact && b.exact == c.exact && a.len == b.len && b.len == c.len {
        lemma_lex_lt_trans(a.key, b.key, c.key);
    }
}

/// Rank of a result (its key is the first component).
pub open spec fn item_rank<T>(item: (String, T), query: Seq<char>, by_segment: bool) -> Rank {
    rank_of(item.0@, query, by_segment)
}

/// Results in ranking order: no result ranks strictly before an earlier one.
pub open spec fn ranked<T>(s: Seq<(String, T)>, query: Seq<char>, by_segment: bool) -> bool {
    forall|i: int, j: int|
        0 <= i < j < s.len() ==> !rank_lt(
            #[trigger] item_rank(s[j], query, by_segment),
            #[trigger] item_rank(s[i], query, by_segment),
        )
}

proof fn lemma_rank_lt_irrefl(a: Rank)
    ensures
        !rank_lt(a, a),
{
    lemma_lex_lt_irrefl(a.key);
}

proof fn lemma_insert_ranked<T>(
    s: Seq<(String, T)>,
    p: int,
    x: (String, T),
    q: Seq<char>,
    seg: bool,
)
    requires
        ranked(s, q, seg),
        0 <= p <= s.len(),
        forall|k: int| 0 <= k < p ==> !rank_lt(item_rank(x, q, seg), #[trigger] item_rank(s[k], q, seg)),
        p < s.len() ==> rank_lt(item_rank(x, q, seg), item_rank(s[p], q, seg)),
    ensures
        ranked(s.insert(p, x), q, seg),
        forall|j: int| p <= j < s.len() ==> rank_lt(item_rank(x, q, seg), #[trigger] item_rank(s[j], q, seg)),
{
    let t = s.insert(p, x);
    let rx = item_rank(x, q, seg);
    assert forall|j: int| p <= j < s.len() implies rank_lt(rx, #[trigger] item_rank(s[j], q, seg)) by {
        if j > p {
            let rp = item_rank(s[p], q, seg);
            let rj = item_rank(s[j], q, seg);
            assert(!rank_lt(rj, rp));
            lemma_lex_lt_total(rp.key, rj.key);
            if rank_lt(rp, rj) {
                lemma_rank_lt_trans(rx, rp, rj);
            } else {
                assert(rp.key == rj.key);
            }
        }
    }
    assert forall|i: int, j: int| 0 <= i < j < t.len() implies !rank_lt(
        #[trigger] item_rank(t[j], q, seg),
        #[trigger] item_rank(t[i], q, seg),
    ) by {
        if j < p {
            assert(t[i] == s[i] && t[j] == s[j]);
        } else if j == p {
            assert(t[i] == s[i] && t[j] == x);
        } else if i < p {
            assert(t[i] == s[i] && t[j] == s[j - 1]);
        } else if i == p {
            assert(t[i] == x && t[j] == s[j - 1]);
            let rp = item_rank(s[p], q, seg);
            let rj = item_rank(s[j - 1], q, seg);
            if rank_lt(rj, rx) {
                if j - 1 == p {
                    lemma_rank_lt_trans(rj, rx, rp);
                    lemma_rank_lt_irrefl(rp);
                } else {
                    lemma_rank_lt_trans(rj, rx, rp);
                }
            }
        } else {
            assert(t[i] == s[i - 1] && t[j] == s[j - 1]);
        }
    }
}

/// The entries with key `k`, in their order.
pub open spec fn with_key<V>(s: Seq<(Seq<char>, V)>, k: Seq<char>) -> Seq<(Seq<char>, V)>
    decreases s.len(),
{
    if s.len() == 0 {
        seq![]
    } else {
        let w = with_key(s.drop_last(), k);
        if s.last().0 == k {
            w.push(s.last())
        } else {
            w
        }
    }
}

proof fn lemma_with_key_concat<V>(a: Seq<(Seq<char>, V)>, b: Seq<(Seq<char>, V)>, k: Seq<char>)
    ensures
        with_key(a + b, k) == with_key(a, k) + with_key(b, k),
    decreases b.len(),
{
    if b.len() == 0 {
        assert(a + b =~= a);
        assert(with_key(a, k) + with_key(b, k) =~= with_key(a, k));
    } else {
        lemma_with_key_concat(a, b.drop_last(), k);
        assert((a + b).drop_last() =~= a + b.drop_last());
        assert((a + b).last() == b.last());
        if b.last().0 == k {
            assert(with_key(a, k) + with_key(b.drop_last(), k).push(b.last()) =~= (with_key(a, k)
                + with_key(b.drop_last(), k)).push(b.last()));
        }
    }
}

proof fn lemma_with_key_absent<V>(s: Seq<(Seq<char>, V)>, k: Seq<char>)
    requires
        forall|i: int| 0 <= i < s.len() ==> (#[trigger] s[i]).0 != k,
    ensures
        with_key(s, k) == Seq::<(Seq<char>, V)>::empty(),
    decreases s.len(),
{
    if s.len() > 0 {
        assert(s.last() == s[s.len() - 1]);
        lemma_with_key_absent(s.drop_last(), k);
    }
}

proof fn lemma_with_key_insert<V>(s: Seq<(Seq<char>, V)>, p: int, x: (Seq<char>, V))
    requires
        0 <= p <= s.len(),
        forall|j: int| p <= j < s.len() ==> (#[trigger] s[j]).0 != x.0,
    ensures
        forall|k: Seq<char>| #[trigger]
            with_key(s.insert(p, x), k) == if x.0 == k {
                with_key(s, k).push(x)
            } else {
                with_key(s, k)
            },
{
    assert forall|k: Seq<char>| #[trigger]
        with_key(s.insert(p, x), k) == if x.0 == k {
            with_key(s, k).push(x)
        } else {
            with_key(s, k)
        } by {
        let a = s.take(p);
        let b = s.skip(p);
        let one = seq![x];
        assert(s.insert(p, x) =~= a + one + b);
        assert(s =~= a + b);
        lemma_with_key_concat(a + one, b, k);
        lemma_with_key_concat(a, one, k);
        lemma_with_key_concat(a, b, k);
        assert(one.drop_last() =~= Seq::<(Seq<char>, V)>::empty());
        assert(one.last() == x);
        assert(with_key(one.drop_last(), k) =~= Seq::<(Seq<char>, V)>::empty());
        if x.0 == k {
            assert(with_key(one, k) =~= seq![x]);
            assert forall|i: int| 0 <= i < b.len() implies (#[trigger] b[i]).0 != k by {
                assert(b[i] == s[p + i]);
            }
            lemma_with_key_absent(b, k);
            assert(with_key(a, k) + with_key(one, k) + with_key(b, k) =~= with_key(a, k).push(x));
            assert(with_key(a, k) + with_key(b, k) =~= with_key(a, k));
        } else {
            assert(with_key(one, k) =~= Seq::<(Seq<char>, V)>::empty());
            assert(with_key(a, k) + with_key(one, k) =~= with_key(a, k));
        }
    }
}

/// Executable rank of a result.
struct RankExec {
    exact: bool,
    len: usize,
    key: Vec<char>,
}

spec fn rank_exec_view(r: RankExec) -> Rank {
    Rank { exact: r.exact, len: r.len as int, key: r.key@ }
}

fn rank_exec(key: &String, q_lower: &String, query: &str, by_segment: bool) -> (r: RankExec)
    requires
        q_lower@ == str_to_lowercase(query@),
    ensures
        rank_exec_view(r) == rank_of(key@, query@, by_segment),
{
    let kc = chars_of(key.as_str());
    let seg = if by_segment {
        dot_tail_exec(&kc)
    } else {
        slice(&kc, 0, kc.len())
    };
    assert(!by_segment ==> seg@ =~= key@);
    let lowered = to_lowercase(string_of(&seg).as_str());
    let exact = lowered == *q_lower;
    let len = key.as_str().as_bytes().len();
    RankExec { exact, len, key: kc }
}

fn rank_lt_exec(a: &RankExec, b: &RankExec) -> (r: bool)
    ensures
        r == rank_lt(rank_exec_view(*a), rank_exec_view(*b)),
{
    (a.exact && !b.exact) || (a.exact == b.exact && a.len < b.len) || (a.exact == b.exact && a.len
        == b.len && lex_lt_exec(&a.key, &b.key))
}

/// Views of results.
pub open spec fn kv_views<T: View>(s: Seq<(String, T)>) -> Seq<(Seq<char>, T::V)> {
    s.map_values(|x: (String, T)| (x.0@, x.1@))
}

/// Sorts results so that exact matches of the query come first, then
/// shorter keys, then keys in order (the comparator of `run_nix_search` and
/// `search_local_db`). The results are a permutation of the input, and
/// results with the same key keep their order (the sort is stable).
pub fn sort_by_rank<T: View>(items: Vec<(String, T)>, query: &str, by_segment: bool) -> (r: Vec<(String, T)>)
    ensures
        kv_views(r@).to_multiset() == kv_views(items@).to_multiset(),
        ranked(r@, query@, by_segment),
        forall|k: Seq<char>| #[trigger] with_key(kv_views(r@), k) == with_key(kv_views(items@), k),
{
    let q_lower = to_lowercase(query);
    let mut rest = items;
    let ghost all = rest@;
    let mut out: Vec<(String, T)> = Vec::new();
    let mut ranks: Vec<RankExec> = Vec::new();
    while rest.len() > 0
        invariant
            q_lower@ == str_to_lowercase(query@),
            rest@.len() <= all.len(),
            all == all.take(all.len() - rest@.len()) + rest@,
            kv_views(out@).to_multiset() == kv_views(all.take(all.len() - rest@.len())).to_multiset(),
            forall|k: Seq<char>| #[trigger] with_key(kv_views(out@), k) == with_key(
                kv_views(all.take(all.len() - rest@.len())),
                k,
            ),
            ranked(out@, query@, by_segment),
            ranks@.len() == out@.len(),
            forall|k: int| 0 <= k < out@.len() ==> rank_exec_view(#[trigger] ranks@[k]) == item_rank(out@[k], query@, by_segment),
        decreases rest.len(),
    {
        let ghost done = all.len() - rest@.len();
        let ghost rest0 = rest@;
        let x = rest.remove(0);
        assert(all.take(done + 1) =~= all.take(done).push(x)) by {
            assert(all[done] == rest0[0]);
        }
        assert(kv_views(all.take(done + 1)) =~= kv_views(all.take(done)).push((x.0@, x.1@)));
        assert(all =~= all.take(done + 1) + rest@) by {
            assert(all.take(done) + rest0 =~= all.take(done) + seq![x] + rest@);
        }
        let rx = rank_exec(&x.0, &q_lower, query, by_segment);
        let mut p: usize = 0;
        while p < out.len() && !rank_lt_exec(&rx, &ranks[p])
            invariant
                p <= out@.len(),
                ranks@.len() == out@.len(),
                forall|k: int| 0 <= k < out@.len() ==> rank_exec_view(#[trigger] ranks@[k]) == item_rank(out@[k], query@, by_segment),
                rank_exec_view(rx) == item_rank(x, query@, by_segment),
                forall|k: int| 0 <= k < p ==> !rank_lt(item_rank(x, query@, by_segment), #[trigger] item_rank(out@[k], query@, by_segment)),
            decreases out.len() - p,
        {
            p = p + 1;
        }
        proof {
            lemma_insert_ranked(out@, p as int, x, query@, by_segment);
            let kv = kv_views(out@);
            assert forall|j: int| p <= j < kv.len() implies (#[trigger] kv[j]).0 != x.0@ by {
                let rx = item_rank(x, query@, by_segment);
                let rj = item_rank(out@[j], query@, by_segment);
                assert(rank_lt(rx, rj));
                if kv[j].0 == x.0@ {
                    assert(rj == rx);
                    lemma_rank_lt_irrefl(rx);
                }
            }
            lemma_with_key_insert(kv, p as int, (x.0@, x.1@));
            assert(kv_views(all.take(done + 1)).drop_last() =~= kv_views(all.take(done)));
            assert(kv_views(all.take(done + 1)).last() == (x.0@, x.1@));
        }
        let ghost out0 = out@;
        let ghost ranks0 = ranks@;
        out.insert(p, x);
        ranks.insert(p, rx);
        assert(kv_views(out@) =~= kv_views(out0).insert(p as int, (out@[p as int].0@, out@[p as int].1@)));
        assert forall|k: int| 0 <= k < out@.len() implies rank_exec_view(#[trigger] ranks@[k]) == item_rank(out@[k], query@, by_segment) by {
            if k < p {
                assert(ranks@[k] == ranks0[k] && out@[k] == out0[k]);
            } else if k > p {
                assert(ranks@[k] == ranks0[k - 1] && out@[k] == out0[k - 1]);
            }
        }
    }
    assert(all.take(all.len() - rest@.len()) =~= all);
    out
}

// ---------------------------------------------------------------------------
// `nix search --json` output
// ---------------------------------------------------------------------------

/// What serde_json reads from `nix search --json` output: the error
/// message when the text is not JSON; `None` when it is not an object; else
/// the object's members in the order serde_json's map keeps them, each with
/// its `description` member when that is a string.
pub uninterp spec fn json_search_entries(json: Seq<char>) -> Result<
    Option<Seq<(Seq<char>, Option<Seq<char>>)>>,
    Seq<char>,
>;

/// Views of parsed search entries.
pub open spec fn entries_view(v: Seq<(String, Option<String>)>) -> Seq<(Seq<char>, Option<Seq<char>>)> {
    v.map_values(
        |p: (String, Option<String>)|
            (
                p.0@,
                match p.1 {
                    Some(d) => Some(d@),
                    None => None,
                },
            ),
    )
}

/// View of a parsed search payload.
pub open spec fn json_entries_view(r: Result<Option<Vec<(String, Option<String>)>>, String>) -> Result<
    Option<Seq<(Seq<char>, Option<Seq<char>>)>>,
    Seq<char>,
> {
    match r {
        Err(e) => Err(e@),
        Ok(None) => Ok(None),
        Ok(Some(v)) => Ok(Some(entries_view(v@))),
    }
}

/// Reads `nix search --json` output with `serde_json::from_str` into a
/// `serde_json::Value`.
///
/// Trusted: the result is `json_search_entries` of the text, and the
/// members of an object have distinct names.
#[verifier::external_body]
fn parse_search_json(json: &str) -> (r: Result<Option<Vec<(String, Option<String>)>>, String>)
    ensures
        json_entries_view(r) == json_search_entries(json@),
        r matches Ok(Some(v)) ==> forall|i: int, j: int|
            0 <= i < j < v@.len() ==> (#[trigger] v@[i]).0@ != (#[trigger] v@[j]).0@,
{
    match serde_json::from_str::<serde_json::Value>(json) {
        Err(e) => Err(e.to_string()),
        Ok(v) => Ok(v.as_object().map(|o| o.iter().map(|(k, val)| (k.clone(), val["description"].as_str().map(|d| d.to_string()))).collect())),
    }
}

/// Search results (attribute path, description) of parsed entries; an
/// entry without a string description gets a placeholder.
pub open spec fn entries_with_descriptions(es: Seq<(Seq<char>, Option<Seq<char>>)>) -> Seq<(Seq<char>, Seq<char>)> {
    es.map_values(
        |e: (Seq<char>, Option<Seq<char>>)|
            (
                e.0,
                match e.1 {
                    Some(d) => d,
                    None => "No description available."@,
                },
            ),
    )
}

/// The search results of `nix search --json` output, in ranking order:
/// exact matches of the query (on the last segment of the attribute path,
/// ignoring case) first, then shorter paths, then paths in order.
pub fn search_results_from_json(json: &str, query: &str) -> (r: Result<Vec<(String, String)>, RixError>)
    ensures
        match json_search_entries(json@) {
            Err(msg) => r matches Err(e) && e@ == ErrorView::ParseError(
                "Failed parsing Nix search payload: "@ + msg,
            ),
            Ok(None) => r matches Ok(v) && v@.len() == 0,
            Ok(Some(es)) => r matches Ok(v) && kv_views(v@).to_multiset() == entries_with_descriptions(
                es,
            ).to_multiset() && ranked(v@, query@, true) && forall|k: Seq<char>| #[trigger]
                with_key(kv_views(v@), k) == with_key(entries_with_descriptions(es), k),
        },
{
    match parse_search_json(json) {
        Err(msg) => {
            let m = String::from_str("Failed parsing Nix search payload: ");
            Err(RixError::ParseError(m.concat(msg.as_str())))
        },
        Ok(None) => Ok(Vec::new()),
        Ok(Some(entries)) => Ok(results_from_entries(&entries, query)),
    }
}

/// The search results of the entries read from `nix search --json` output
/// (attribute path, description if it is a string), in ranking order; an
/// entry without a description gets a placeholder.
pub fn results_from_entries(entries: &Vec<(String, Option<String>)>, query: &str) -> (r: Vec<(String, String)>)
    ensures
        kv_views(r@).to_multiset() == entries_with_descriptions(entries_view(entries@)).to_multiset(),
        ranked(r@, query@, true),
        forall|k: Seq<char>| #[trigger]
            with_key(kv_views(r@), k) == with_key(entries_with_descriptions(entries_view(entries@)), k),
{
    let ghost es = entries_view(entries@);
    let mut items: Vec<(String, String)> = Vec::new();
    let mut i: usize = 0;
    while i < entries.len()
        invariant
            i <= entries@.len(),
            es == entries_view(entries@),
            kv_views(items@) == entries_with_descriptions(es).take(i as int),
        decreases entries.len() - i,
    {
        let d = match &entries[i].1 {
            Some(d) => d.clone(),
            None => String::from_str("No description available."),
        };
        let k = entries[i].0.clone();
        assert(es[i as int].0 == k@);
        assert(entries_with_descriptions(es)[i as int] == (k@, d@));
        let ghost items0 = kv_views(items@);
        items.push((k, d));
        assert(kv_views(items@) =~= items0.push((k@, d@)));
        assert(kv_views(items@) =~= entries_with_descriptions(es).take(i + 1));
        i = i + 1;
    }
    assert(entries_with_descriptions(es).take(i as int) =~= entries_with_descriptions(es));
    sort_by_rank(items, query, true)
}

// ---------------------------------------------------------------------------
// Resolving an installable name
// ---------------------------------------------------------------------------

/// The third `.`-separated part of an attribute path with at most three
/// parts (`splitn(3, '.')`), when there are three.
pub open spec fn third_segment(s: Seq<char>) -> Option<Seq<char>> {
    match find(s, seq!['.']) {
        None => None,
        Some(i) => {
            let r = s.skip(i + 1);
            match find(r, seq!['.']) {
                None => None,
                Some(j) => Some(r.skip(j + 1)),
            }
        },
    }
}

pub(crate) fn third_segment_exec(s: &[char]) -> (r: Option<Vec<char>>)
    ensures
        match r {
            Some(x) => third_segment(s@) == Some(x@),
            None => third_segment(s@) is None,
        },
{
    let dot = vec!['.'];
    assert(dot@ =~= seq!['.']);
    match find_exec(s, &dot) {
        None => None,
        Some(i) => {
            let r = slice(s, i + 1, s.len());
            assert(r@ =~= s@.skip(i + 1));
            match find_exec(&r, &dot) {
                None => None,
                Some(j) => {
                    let x = slice(&r, j + 1, r.len());
                    assert(x@ =~= r@.skip(j + 1));
                    Some(x)
                },
            }
        },
    }
}

/// The attribute path of a result stands for the package: its last segment
/// is the name, or it ends in `.NAME`.
pub open spec fn names_package(x: Seq<char>, name: Seq<char>) -> bool {
    dot_tail(x) == name || ends_with(x, "."@ + name)
}

/// The first result, from index `i` on, whose attribute path (past system
/// and package set) stands for the package.
pub open spec fn resolve_scan(ms: Seq<Seq<char>>, name: Seq<char>, i: int) -> Option<Seq<char>>
    decreases ms.len() - i,
{
    if i < 0 || i >= ms.len() {
        None
    } else {
        match third_segment(ms[i]) {
            Some(x) => if names_package(x, name) {
                Some(x)
            } else {
                resolve_scan(ms, name, i + 1)
            },
            None => resolve_scan(ms, name, i + 1),
        }
    }
}

/// The attribute name to install for a package, given the ranked search
/// results: the first result that stands for the package, else the first
/// result, else the name itself; an error when there are no results.
pub open spec fn resolve_spec(name: Seq<char>, ms: Seq<Seq<char>>) -> Result<Seq<char>, ErrorView> {
    if ms.len() == 0 {
        Err(
            ErrorView::ParseError(
                "Package '"@ + name
                    + "' is not available in the nixpkgs flake for your architecture."@,
            ),
        )
    } else {
        match resolve_scan(ms, name, 0) {
            Some(x) => Ok(x),
            None => match third_segment(ms[0]) {
                Some(x) => Ok(x),
                None => Ok(name),
            },
        }
    }
}

/// Attribute paths of search results.
pub open spec fn result_paths(ms: Seq<(String, String)>) -> Seq<Seq<char>> {
    ms.map_values(|p: (String, String)| p.0@)
}

/// Picks the attribute name to install for a package from the ranked
/// results of a search for it (`run_nix_search`).
pub fn verify_online_package_architecture(package_name: &str, matches: &Vec<(String, String)>) -> (r:
    Result<String, RixError>)
    ensures
        match r {
            Ok(s) => resolve_spec(package_name@, result_paths(matches@)) == Ok::<Seq<char>, ErrorView>(s@),
            Err(e) => resolve_spec(package_name@, result_paths(matches@)) == Err::<Seq<char>, ErrorView>(e@),
        },
{
    let ghost ms = result_paths(matches@);
    if matches.len() == 0 {
        let mut m = chars_of("Package '");
        extend(&mut m, &chars_of(package_name));
        extend(&mut m, &chars_of("' is not available in the nixpkgs flake for your architecture."));
        return Err(RixError::ParseError(string_of(&m)));
    }
    let name = chars_of(package_name);
    let mut dotted = chars_of(".");
    extend(&mut dotted, &name);
    let mut i: usize = 0;
    while i < matches.len()
        invariant
            ms == result_paths(matches@),
            i <= matches@.len(),
            name@ == package_name@,
            dotted@ == "."@ + package_name@,
            resolve_scan(ms, name@, 0) == resolve_scan(ms, name@, i as int),
        decreases matches.len() - i,
    {
        if let Some(x) = third_segment_exec(&chars_of(matches[i].0.as_str())) {
            let tail = dot_tail_exec(&x);
            let same = tail.len() == name.len() && crate::text::match_at_exec(&tail, &name, 0);
            proof {
                if tail@.len() == name@.len() {
                    if crate::text::match_at(tail@, name@, 0) {
                        assert(tail@ =~= name@);
                    }
                    if tail@ == name@ {
                        assert(tail@.subrange(0, name@.len() as int) =~= name@);
                    }
                }
            }
            if same || ends_with_exec(&x, &dotted) {
                return Ok(string_of(&x));
            }
        }
        i = i + 1;
    }
    match third_segment_exec(&chars_of(matches[0].0.as_str())) {
        Some(x) => Ok(string_of(&x)),
        None => Ok(String::from_str(package_name)),
    }
}

} // verus!
