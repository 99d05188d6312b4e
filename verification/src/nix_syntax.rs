//! A flat model of the syntax trees that rnix builds for Nix source text,
//! and the element list of the first list expression in a file.
//!
//! rnix parses text into a rowan tree. The library reads that tree as the
//! sequence of events of its preorder walk: entering and leaving each node,
//! entering and leaving each token. Only the kinds that Rix distinguishes
//! are kept.
use vstd::prelude::*;
use crate::text::{chars_of, extend, slice};
use rnix::NodeOrToken::{Node, Token};
use rnix::Root;
use rnix::SyntaxKind::{NODE_LIST, TOKEN_COMMENT, TOKEN_WHITESPACE};
use rnix::WalkEvent::{Enter, Leave};
use crate::nix_syntax::NixKind::{Comment, List, Other, Whitespace};
use crate::nix_syntax::SyntaxEvent::{EnterNode, EnterToken, LeaveNode, LeaveToken};

verus! {

/// The syntax kinds that Rix tells apart.
#[derive(Debug, Clone, Copy, PartialEq, Eq, Structural)]
pub enum NixKind {
    /// A list expression `[ ... ]`
    List,
    /// A comment token
    Comment,
    /// A whitespace token
    Whitespace,
    /// Any other node or token
    Other,
}

/// One step of the preorder walk of a syntax tree.
#[derive(Debug, Clone)]
pub enum SyntaxEvent {
    EnterNode(NixKind),
    LeaveNode,
    EnterToken(NixKind, String),
    LeaveToken,
}

/// Mathematical view of a walk step.
pub enum EventView {
    EnterNode(NixKind),
    LeaveNode,
    EnterToken(NixKind, Seq<char>),
    LeaveToken,
}

impl View for SyntaxEvent {
    type V = EventView;

    open spec fn view(&self) -> EventView {
        match self {
            SyntaxEvent::EnterNode(k) => EventView::EnterNode(*k),
            SyntaxEvent::LeaveNode => EventView::LeaveNode,
            SyntaxEvent::EnterToken(k, t) => EventView::EnterToken(*k, t@),
            SyntaxEvent::LeaveToken => EventView::LeaveToken,
        }
    }
}

/// Views of a sequence of walk steps.
pub open spec fn events_view(evs: Seq<SyntaxEvent>) -> Seq<EventView> {
    evs.map_values(|e: SyntaxEvent| e@)
}

/// The errors that rnix reported for a text, formatted twice: as the
/// `Debug` rendering of the error list, and as the `Debug` rendering of the
/// list of their `Display` messages.
#[derive(Debug, Clone)]
pub struct NixParseFailure {
    pub debug: String,
    pub listed: String,
}

/// Mathematical view of a parse result.
pub open spec fn parse_view(r: Result<Vec<SyntaxEvent>, NixParseFailure>) -> Result<
    Seq<EventView>,
    (Seq<char>, Seq<char>),
> {
    match r {
        Ok(evs) => Ok(events_view(evs@)),
        Err(f) => Err((f.debug@, f.listed@)),
    }
}

/// What rnix yields for a text: the preorder walk of the syntax tree when
/// it reported no error, else the formatted errors.
pub uninterp spec fn rnix_parse(content: Seq<char>) -> Result<
    Seq<EventView>,
    (Seq<char>, Seq<char>),
>;

/// Parses Nix source text with `rnix::Root::parse` and walks the tree in
/// preorder (`preorder_with_tokens`), keeping of each kind only whether it
/// is a list node, a comment, whitespace or something else.
///
/// Trusted: the result is `rnix_parse` of the text, and when rnix reports no
/// error the tokens of the walk spell out the text (rowan trees are
/// lossless).
#[verifier::external_body]
pub fn parse_nix(content: &str) -> (r: Result<Vec<SyntaxEvent>, NixParseFailure>)
    ensures
        parse_view(r) == rnix_parse(content@),
        r matches Ok(evs) ==> source_text(events_view(evs@)) == content@,
{
    let parse = Root::parse(content);
    let errs = parse.errors();
    if !errs.is_empty() {
        let listed: Vec<_> = errs.iter().map(|e| e.to_string()).collect();
        return Err(NixParseFailure { debug: format!("{errs:?}"), listed: format!("{listed:?}") });
    }
    let kind = |k| match k { NODE_LIST => List, TOKEN_COMMENT => Comment, TOKEN_WHITESPACE => Whitespace, _ => Other };
    Ok(parse.syntax().preorder_with_tokens().map(|ev| match ev {
        Enter(Node(n)) => EnterNode(kind(n.kind())),
        Enter(Token(t)) => EnterToken(kind(t.kind()), t.to_string()),
        Leave(Node(_)) => LeaveNode,
        Leave(Token(_)) => LeaveToken,
    }).collect())
}

// ---------------------------------------------------------------------------
// Text positions
// ---------------------------------------------------------------------------

/// Text of a walk step: a token's text, empty for the other steps.
pub open spec fn tok_text(e: EventView) -> Seq<char> {
    match e {
        EventView::EnterToken(_, t) => t,
        _ => Seq::empty(),
    }
}

/// Text spelled by the first `i` walk steps.
pub open spec fn text_upto(evs: Seq<EventView>, i: int) -> Seq<char>
    decreases i,
{
    if i <= 0 || i > evs.len() {
        Seq::empty()
    } else {
        text_upto(evs, i - 1) + tok_text(evs[i - 1])
    }
}

/// Text spelled by the whole walk.
pub open spec fn source_text(evs: Seq<EventView>) -> Seq<char> {
    text_upto(evs, evs.len() as int)
}

/// Character offset in the source of walk step `i`.
pub open spec fn off(evs: Seq<EventView>, i: int) -> int {
    text_upto(evs, i).len() as int
}

/// Earlier steps spell a prefix of what later steps spell.
pub proof fn lemma_text_prefix(evs: Seq<EventView>, a: int, b: int)
    requires
        0 <= a <= b <= evs.len(),
    ensures
        off(evs, a) <= off(evs, b),
        text_upto(evs, b).take(off(evs, a)) == text_upto(evs, a),
    decreases b - a,
{
    if a < b {
        lemma_text_prefix(evs, a, b - 1);
        let t = text_upto(evs, b - 1);
        assert((t + tok_text(evs[b - 1])).take(off(evs, a)) =~= t.take(off(evs, a)));
    } else {
        assert(text_upto(evs, b).take(off(evs, a)) =~= text_upto(evs, a));
    }
}

// ---------------------------------------------------------------------------
// The first list expression and its elements
// ---------------------------------------------------------------------------

/// Index of the first list node at or after step `i`, in preorder.
pub open spec fn first_list_from(evs: Seq<EventView>, i: int) -> Option<int>
    decreases evs.len() - i,
{
    if i < 0 || i >= evs.len() {
        None
    } else if evs[i] == EventView::EnterNode(NixKind::List) {
        Some(i)
    } else {
        first_list_from(evs, i + 1)
    }
}

/// One direct element of a node: a child node or a token.
pub struct ChildView {
    pub is_node: bool,
    pub kind: NixKind,
    pub text: Seq<char>,
    pub start: int,
    pub end: int,
}

/// Kind of a walk step that enters a node or a token.
pub open spec fn step_kind(e: EventView) -> NixKind {
    match e {
        EventView::EnterNode(k) => k,
        EventView::EnterToken(k, _) => k,
        _ => NixKind::Other,
    }
}

/// The child node entered at step `s` and left at step `e`.
pub open spec fn node_child(evs: Seq<EventView>, s: int, e: int) -> ChildView {
    ChildView {
        is_node: true,
        kind: step_kind(evs[s]),
        text: text_upto(evs, e).subrange(off(evs, s), off(evs, e)),
        start: off(evs, s),
        end: off(evs, e),
    }
}

/// The token entered at step `i`.
pub open spec fn token_child(evs: Seq<EventView>, i: int) -> ChildView {
    ChildView {
        is_node: false,
        kind: step_kind(evs[i]),
        text: tok_text(evs[i]),
        start: off(evs, i),
        end: off(evs, i) + tok_text(evs[i]).len(),
    }
}

/// Direct elements of a node, scanning from step `i` at nesting `depth`
/// below it; `ns` is where the child node being read was entered.
pub open spec fn children_scan(evs: Seq<EventView>, i: int, depth: int, ns: int) -> Seq<ChildView>
    decreases evs.len() - i,
{
    if i < 0 || i >= evs.len() {
        Seq::empty()
    } else {
        match evs[i] {
            EventView::EnterNode(_) => {
                if depth == 0 {
                    children_scan(evs, i + 1, 1, i)
                } else {
                    children_scan(evs, i + 1, depth + 1, ns)
                }
            },
            EventView::LeaveNode => {
                if depth <= 0 {
                    Seq::empty()
                } else if depth == 1 {
                    seq![node_child(evs, ns, i)] + children_scan(evs, i + 1, 0, ns)
                } else {
                    children_scan(evs, i + 1, depth - 1, ns)
                }
            },
            EventView::EnterToken(_, _) => {
                if depth == 0 {
                    seq![token_child(evs, i)] + children_scan(evs, i + 1, 0, ns)
                } else {
                    children_scan(evs, i + 1, depth, ns)
                }
            },
            EventView::LeaveToken => children_scan(evs, i + 1, depth, ns),
        }
    }
}

/// Step of the rightmost token inside a node, scanning from step `i` at
/// nesting `depth` below it, with `acc` the rightmost one seen so far.
pub open spec fn last_token_scan(evs: Seq<EventView>, i: int, depth: int, acc: Option<int>) -> Option<
    int,
>
    decreases evs.len() - i,
{
    if i < 0 || i >= evs.len() {
        acc
    } else {
        match evs[i] {
            EventView::EnterNode(_) => last_token_scan(evs, i + 1, depth + 1, acc),
            EventView::LeaveNode => {
                if depth <= 0 {
                    acc
                } else {
                    last_token_scan(evs, i + 1, depth - 1, acc)
                }
            },
            EventView::EnterToken(_, _) => last_token_scan(evs, i + 1, depth, Some(i)),
            EventView::LeaveToken => last_token_scan(evs, i + 1, depth, acc),
        }
    }
}

/// The first list of a walk, read as its direct elements and the offset of
/// its rightmost token.
pub struct ListModelView {
    pub children: Seq<ChildView>,
    pub last_token_start: Option<int>,
}

/// The first list of a walk (`None` when there is none).
pub open spec fn list_model_spec(evs: Seq<EventView>) -> Option<ListModelView> {
    match first_list_from(evs, 0) {
        None => None,
        Some(o) => Some(
            ListModelView {
                children: children_scan(evs, o + 1, 0, 0),
                last_token_start: match last_token_scan(evs, o + 1, 0, None) {
                    Some(t) => Some(off(evs, t)),
                    None => None,
                },
            },
        ),
    }
}

/// Elements lie in order within the first `n` characters of the source,
/// and a token spans exactly its text.
pub open spec fn ordered_children(cs: Seq<ChildView>, n: int) -> bool {
    &&& forall|k: int| 0 <= k < cs.len() ==> 0 <= #[trigger] cs[k].start <= cs[k].end <= n
    &&& forall|k: int| 0 <= k < cs.len() && !cs[k].is_node ==> #[trigger] cs[k].end == cs[k].start + cs[k].text.len()
    &&& forall|k: int, l: int| 0 <= k < l < cs.len() ==> #[trigger] cs[k].end <= #[trigger] cs[l].start
}

/// One direct element of the list node.
#[derive(Debug, Clone)]
pub struct ListChild {
    pub is_node: bool,
    pub kind: NixKind,
    pub text: Vec<char>,
    pub start: usize,
    pub end: usize,
}

impl View for ListChild {
    type V = ChildView;

    open spec fn view(&self) -> ChildView {
        ChildView {
            is_node: self.is_node,
            kind: self.kind,
            text: self.text@,
            start: self.start as int,
            end: self.end as int,
        }
    }
}

/// Views of list elements.
pub open spec fn children_view(cs: Seq<ListChild>) -> Seq<ChildView> {
    cs.map_values(|c: ListChild| c@)
}

/// The first list of a parsed file.
#[derive(Debug, Clone)]
pub struct ListModel {
    pub children: Vec<ListChild>,
    pub last_token_start: Option<usize>,
}

/// Mathematical view of a list model.
pub open spec fn list_model_view(m: ListModel) -> ListModelView {
    ListModelView {
        children: children_view(m.children@),
        last_token_start: match m.last_token_start {
            Some(t) => Some(t as int),
            None => None,
        },
    }
}

/// The text of step `i`.
fn step_text(e: &SyntaxEvent) -> (t: Vec<char>)
    ensures
        t@ == tok_text(e@),
{
    match e {
        SyntaxEvent::EnterToken(_, s) => chars_of(s.as_str()),
        _ => Vec::new(),
    }
}

/// Reads the first list node of a walk (`rowan::SyntaxNode::children_with_tokens`
/// of the node that `find_list_node` finds, and the start of its `last_token`).
pub fn list_model(evs: &Vec<SyntaxEvent>) -> (r: Option<ListModel>)
    ensures
        match r {
            None => list_model_spec(events_view(evs@)) is None,
            Some(m) => list_model_spec(events_view(evs@)) == Some(list_model_view(m)),
        },
        r matches Some(m) ==> ordered_children(
            children_view(m.children@),
            source_text(events_view(evs@)).len() as int,
        ),
        r matches Some(m) ==> (m.last_token_start matches Some(t) ==> t <= source_text(
            events_view(evs@),
        ).len()),
{
    let ghost ev = events_view(evs@);
    // Find the first list node.
    let mut o: usize = 0;
    while o < evs.len()
        invariant
            ev == events_view(evs@),
            o <= evs.len(),
            first_list_from(ev, 0) == first_list_from(ev, o as int),
        ensures
            o < evs.len() ==> ev[o as int] == EventView::EnterNode(NixKind::List),
        decreases evs.len() - o,
    {
        let is_list = match &evs[o] {
            SyntaxEvent::EnterNode(NixKind::List) => true,
            _ => false,
        };
        if is_list {
            break;
        }
        o = o + 1;
    }
    if o >= evs.len() {
        return None;
    }
    assert(ev[o as int] == EventView::EnterNode(NixKind::List));
    assert(first_list_from(ev, 0) == Some(o as int));
    // Text up to and including the list step.
    let mut full: Vec<char> = Vec::new();
    let mut i: usize = 0;
    while i <= o
        invariant
            ev == events_view(evs@),
            o < evs.len(),
            i <= o + 1,
            full@ == text_upto(ev, i as int),
        decreases o + 1 - i,
    {
        let t = step_text(&evs[i]);
        extend(&mut full, &t);
        i = i + 1;
    }
    // Read the direct elements.
    let mut children: Vec<ListChild> = Vec::new();
    let mut depth: usize = 0;
    let mut ns: usize = 0;
    let mut ns_off: usize = 0;
    let mut last: Option<usize> = None;
    let ghost mut last_step: Option<int> = None;
    let ghost o1 = o as int + 1;
    while i < evs.len()
        invariant
            ev == events_view(evs@),
            o1 == o + 1,
            o < evs.len(),
            first_list_from(ev, 0) == Some(o as int),
            o1 <= i <= evs.len(),
            depth <= i - o1,
            full@ == text_upto(ev, i as int),
            ns_off <= full.len(),
            ordered_children(children_view(children@), full.len() as int),
            forall|k: int| 0 <= k < children@.len() ==> #[trigger] children@[k].end <= (if depth > 0 { ns_off as int } else { full.len() as int }),
            depth > 0 ==> o1 <= ns < i && ns_off == off(ev, ns as int),
            children_scan(ev, o1, 0, 0) == children_view(children@) + children_scan(
                ev,
                i as int,
                depth as int,
                ns as int,
            ),
            last_token_scan(ev, o1, 0, None) == last_token_scan(
                ev,
                i as int,
                depth as int,
                last_step,
            ),
            match last_step {
                Some(t) => last == Some(off(ev, t) as usize) && 0 <= t < i && off(ev, t) <= full.len(),
                None => last is None,
            },
        ensures
            i >= evs.len() || (ev[i as int] == EventView::LeaveNode && depth == 0),
        decreases evs.len() - i,
    {
        let ghost before = children@;
        match &evs[i] {
            SyntaxEvent::EnterNode(_) => {
                if depth == 0 {
                    ns = i;
                    ns_off = full.len();
                }
                depth = depth + 1;
            },
            SyntaxEvent::LeaveNode => {
                if depth == 0 {
                    break;
                }
                if depth == 1 {
                    proof {
                        lemma_text_prefix(ev, ns as int, i as int);
                    }
                    let kind = match &evs[ns] {
                        SyntaxEvent::EnterNode(k) => *k,
                        SyntaxEvent::EnterToken(k, _) => *k,
                        _ => NixKind::Other,
                    };
                    let text = slice(&full, ns_off, full.len());
                    let child = ListChild { is_node: true, kind, text, start: ns_off, end: full.len() };
                    children.push(child);
                    assert(children_view(children@) =~= children_view(before).push(node_child(ev, ns as int, i as int)));
                    assert(children_view(children@) + children_scan(ev, i + 1, 0, ns as int)
                        =~= children_view(before) + children_scan(ev, i as int, depth as int, ns as int));
                }
                depth = depth - 1;
            },
            SyntaxEvent::EnterToken(k, s) => {
                let t = chars_of(s.as_str());
                let start = full.len();
                extend(&mut full, &t);
                last = Some(start);
                proof {
                    last_step = Some(i as int);
                }
                if depth == 0 {
                    let child = ListChild { is_node: false, kind: *k, text: t, start, end: full.len() };
                    children.push(child);
                    assert(children_view(children@) =~= children_view(before).push(token_child(ev, i as int)));
                    assert(children_view(children@) + children_scan(ev, i + 1, 0, ns as int)
                        =~= children_view(before) + children_scan(ev, i as int, depth as int, ns as int));
                }
            },
            SyntaxEvent::LeaveToken => {},
        }
        i = i + 1;
    }
    assert(children_view(children@) + children_scan(ev, i as int, depth as int, ns as int)
        =~= children_view(children@));
    assert(last_token_scan(ev, i as int, depth as int, last_step) == last_step);
    proof {
        lemma_text_prefix(ev, i as int, ev.len() as int);
    }
    let m = ListModel { children, last_token_start: last };
    assert(list_model_view(m).children == children_scan(ev, o as int + 1, 0, 0));
    assert(list_model_view(m).last_token_start == match last_token_scan(ev, o as int + 1, 0, None) {
        Some(t) => Some(off(ev, t)),
        None => None,
    });
    assert(list_model_spec(ev) == Some(list_model_view(m)));
    Some(m)
}

} // verus!
