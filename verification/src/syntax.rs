//! The lossless syntax tree of a Nix file, as `rnix` parses it.
//!
//! `rnix` hands its tree out as a preorder walk; this module rebuilds an
//! owned tree from that walk and offers the few structural accessors the
//! option extractor needs (the n-th child expression of a node, its
//! identifier token, and so on), each stated over the tree itself.

use vstd::prelude::*;
use vstd::string::StrSliceExecFns;

verus! {

broadcast use vstd::string::group_string_axioms;

// ---------------------------------------------------------------------
// Kinds
// ---------------------------------------------------------------------
// `rnix::SyntaxKind` is `#[repr(u16)]`; these are its discriminants.

pub const TOKEN_ADD: u16 = 0;
pub const TOKEN_AND_AND: u16 = 1;
pub const TOKEN_CONCAT: u16 = 8;
pub const TOKEN_DIV: u16 = 10;
pub const TOKEN_EQUAL: u16 = 14;
pub const TOKEN_IDENT: u16 = 17;
pub const TOKEN_IMPLICATION: u16 = 19;
pub const TOKEN_INTERPOL_END: u16 = 23;
pub const TOKEN_INTERPOL_START: u16 = 24;
pub const TOKEN_LESS: u16 = 29;
pub const TOKEN_LESS_OR_EQ: u16 = 30;
pub const TOKEN_MORE: u16 = 32;
pub const TOKEN_MORE_OR_EQ: u16 = 33;
pub const TOKEN_MUL: u16 = 34;
pub const TOKEN_NOT_EQUAL: u16 = 35;
pub const TOKEN_OR_OR: u16 = 37;
pub const TOKEN_PIPE_LEFT: u16 = 42;
pub const TOKEN_PIPE_RIGHT: u16 = 43;
pub const TOKEN_STRING_CONTENT: u16 = 50;
pub const TOKEN_STRING_END: u16 = 51;
pub const TOKEN_STRING_START: u16 = 52;
pub const TOKEN_SUB: u16 = 53;
pub const TOKEN_UPDATE: u16 = 55;

pub const NODE_APPLY: u16 = 59;
pub const NODE_ASSERT: u16 = 60;
pub const NODE_ATTR_SET: u16 = 61;
pub const NODE_ATTRPATH: u16 = 62;
pub const NODE_ATTRPATH_VALUE: u16 = 63;
pub const NODE_BIN_OP: u16 = 64;
pub const NODE_CUR_POS: u16 = 65;
pub const NODE_DYNAMIC: u16 = 66;
pub const NODE_ERROR: u16 = 67;
pub const NODE_HAS_ATTR: u16 = 68;
pub const NODE_IDENT: u16 = 69;
pub const NODE_IF_ELSE: u16 = 71;
pub const NODE_INTERPOL: u16 = 74;
pub const NODE_LAMBDA: u16 = 75;
pub const NODE_LEGACY_LET: u16 = 76;
pub const NODE_LET_IN: u16 = 77;
pub const NODE_LIST: u16 = 78;
pub const NODE_LITERAL: u16 = 79;
pub const NODE_PAREN: u16 = 80;
pub const NODE_PATH_ABS: u16 = 84;
pub const NODE_PATH_HOME: u16 = 85;
pub const NODE_PATH_REL: u16 = 86;
pub const NODE_PATH_SEARCH: u16 = 87;
pub const NODE_ROOT: u16 = 88;
pub const NODE_SELECT: u16 = 89;
pub const NODE_STRING: u16 = 90;
pub const NODE_UNARY_OP: u16 = 91;
pub const NODE_WITH: u16 = 92;

// ---------------------------------------------------------------------
// The tree
// ---------------------------------------------------------------------

/// A leaf of the tree: a token and its source text.
pub struct SyntaxToken {
    pub kind: u16,
    pub text: String,
}

/// A child of a node: a node or a token.
pub enum SyntaxElement {
    Node(SyntaxNode),
    Token(SyntaxToken),
}

/// An inner node of the tree.
pub struct SyntaxNode {
    pub kind: u16,
    /// The character offset in the source at which the node begins.
    pub start: usize,
    /// The node's children, tokens included, in source order.
    pub children: Vec<SyntaxElement>,
}

/// One step of a preorder walk over the tree.
pub enum SyntaxEvent {
    /// Entering a node of the given kind.
    Open(u16),
    /// Entering a token of the given kind and text.
    Token(u16, String),
    /// Leaving a node.
    Close,
    /// Leaving a token.
    TokenEnd,
}

/// A walk step with its text taken by its characters.
pub enum EventView {
    Open(u16),
    Token(u16, Seq<char>),
    Close,
    TokenEnd,
}

impl View for SyntaxEvent {
    type V = EventView;

    open spec fn view(&self) -> EventView {
        match self {
            SyntaxEvent::Open(k) => EventView::Open(*k),
            SyntaxEvent::Token(k, t) => EventView::Token(*k, t@),
            SyntaxEvent::Close => EventView::Close,
            SyntaxEvent::TokenEnd => EventView::TokenEnd,
        }
    }
}

/// The preorder walk of the tree `rnix::Root::parse` builds for `src`
/// (named, not described: it is `rnix`'s parser).
pub uninterp spec fn nix_parse_events(src: Seq<char>) -> Seq<EventView>;

/// `rnix::Root::parse(src)`, walked in preorder with its tokens, one step
/// per `rowan::WalkEvent`, each node or token kind taken by its `u16`
/// discriminant.
#[verifier::external_body]
fn parse_events(src: &str) -> (r: Vec<SyntaxEvent>)
    ensures
        r@.map_values(|e: SyntaxEvent| e@) == nix_parse_events(src@),
{
    rnix::Root::parse(src).syntax().preorder_with_tokens().map(|ev| match ev {
        rowan::WalkEvent::Enter(rowan::NodeOrToken::Node(n)) => SyntaxEvent::Open(n.kind() as u16),
        rowan::WalkEvent::Enter(rowan::NodeOrToken::Token(t)) => SyntaxEvent::Token(
            t.kind() as u16,
            t.text().to_string(),
        ),
        rowan::WalkEvent::Leave(rowan::NodeOrToken::Node(_)) => SyntaxEvent::Close,
        rowan::WalkEvent::Leave(rowan::NodeOrToken::Token(_)) => SyntaxEvent::TokenEnd,
    }).collect()
}

/// The walk of a node.
pub open spec fn node_events(n: SyntaxNode) -> Seq<EventView>
    decreases n, 1int,
{
    seq![EventView::Open(n.kind)] + elems_events(n.children@) + seq![EventView::Close]
}

/// The walk of a sequence of children.
pub open spec fn elems_events(es: Seq<SyntaxElement>) -> Seq<EventView>
    decreases es, 0int,
{
    if es.len() == 0 {
        seq![]
    } else {
        elems_events(es.drop_last()) + match es.last() {
            SyntaxElement::Node(c) => node_events(c),
            SyntaxElement::Token(t) => seq![EventView::Token(t.kind, t.text@), EventView::TokenEnd],
        }
    }
}

/// The source text a node spans: its tokens' texts, in order.
pub open spec fn node_text(n: SyntaxNode) -> Seq<char>
    decreases n, 1int,
{
    elems_text(n.children@)
}

/// The source text a sequence of children spans.
pub open spec fn elems_text(es: Seq<SyntaxElement>) -> Seq<char>
    decreases es, 0int,
{
    if es.len() == 0 {
        seq![]
    } else {
        elems_text(es.drop_last()) + match es.last() {
            SyntaxElement::Node(c) => node_text(c),
            SyntaxElement::Token(t) => t.text@,
        }
    }
}

/// Every node below `n` records the offset at which its text begins,
/// counted from `n`'s own start.
pub open spec fn node_offsets_ok(n: SyntaxNode) -> bool
    decreases n, 1int,
{
    elems_offsets_ok(n.children@, n.start as int)
}

/// The nodes among `es` begin where the text before them ends, counted
/// from `start`.
pub open spec fn elems_offsets_ok(es: Seq<SyntaxElement>, start: int) -> bool
    decreases es, 0int,
{
    if es.len() == 0 {
        true
    } else {
        elems_offsets_ok(es.drop_last(), start) && match es.last() {
            SyntaxElement::Node(c) => c.start == start + elems_text(es.drop_last()).len()
                && node_offsets_ok(c),
            SyntaxElement::Token(_) => true,
        }
    }
}

/// The walk steps of `events` from `from` up to (not including) `to`, by
/// their views.
pub open spec fn event_views(events: Seq<SyntaxEvent>) -> Seq<EventView> {
    events.map_values(|e: SyntaxEvent| e@)
}

// ---------------------------------------------------------------------
// Facts about walks
// ---------------------------------------------------------------------

/// The walk steps of one child.
pub open spec fn elem_events(e: SyntaxElement) -> Seq<EventView> {
    match e {
        SyntaxElement::Node(c) => node_events(c),
        SyntaxElement::Token(t) => seq![EventView::Token(t.kind, t.text@), EventView::TokenEnd],
    }
}

/// How a step changes the nesting depth.
pub open spec fn event_depth(e: EventView) -> int {
    match e {
        EventView::Open(_) => 1,
        EventView::Close => -1,
        _ => 0,
    }
}

/// The nesting depth at the end of a walk.
pub open spec fn walk_depth(evs: Seq<EventView>) -> int
    decreases evs.len(),
{
    if evs.len() == 0 {
        0
    } else {
        walk_depth(evs.drop_last()) + event_depth(evs.last())
    }
}

/// The text of the tokens of a walk, in order.
pub open spec fn events_text(evs: Seq<EventView>) -> Seq<char>
    decreases evs.len(),
{
    if evs.len() == 0 {
        seq![]
    } else {
        events_text(evs.drop_last()) + match evs.last() {
            EventView::Token(_, t) => t,
            _ => seq![],
        }
    }
}

proof fn lemma_walk_concat(a: Seq<EventView>, b: Seq<EventView>)
    ensures
        walk_depth(a + b) == walk_depth(a) + walk_depth(b),
        events_text(a + b) == events_text(a) + events_text(b),
    decreases b.len(),
{
    if b.len() > 0 {
        lemma_walk_concat(a, b.drop_last());
        assert((a + b).drop_last() =~= a + b.drop_last());
        assert((a + b).last() == b.last());
    } else {
        assert(a + b =~= a);
    }
}

/// A node's walk is balanced, strictly nested inside, and spells its text.
proof fn lemma_node_walk(n: SyntaxNode)
    ensures
        walk_depth(node_events(n)) == 0,
        events_text(node_events(n)) == node_text(n),
        forall|i: int| 0 < i < node_events(n).len() ==> walk_depth(#[trigger] node_events(n).take(i)) > 0,
    decreases n, 1int,
{
    let es = n.children@;
    lemma_elems_walk(es);
    let e = elems_events(es);
    let open = seq![EventView::Open(n.kind)];
    let close = seq![EventView::Close];
    lemma_walk_concat(open, e);
    lemma_walk_concat(open + e, close);
    assert(open.drop_last() =~= Seq::<EventView>::empty());
    assert(close.drop_last() =~= Seq::<EventView>::empty());
    assert(walk_depth(Seq::<EventView>::empty()) == 0);
    assert(events_text(Seq::<EventView>::empty()) == Seq::<char>::empty());
    assert(walk_depth(open) == 1);
    assert(walk_depth(close) == -1);
    assert(events_text(open) =~= Seq::<char>::empty());
    assert(events_text(close) =~= Seq::<char>::empty());
    assert(events_text(node_events(n)) =~= node_text(n));
    let w = node_events(n);
    assert forall|i: int| 0 < i < w.len() implies walk_depth(#[trigger] w.take(i)) > 0 by {
        assert(w.take(i) =~= open + e.take(i - 1));
        lemma_walk_concat(open, e.take(i - 1));
    }
}

/// A sequence of children walks to depth zero, never below it on the way,
/// and spells the children's text.
proof fn lemma_elems_walk(es: Seq<SyntaxElement>)
    ensures
        walk_depth(elems_events(es)) == 0,
        events_text(elems_events(es)) == elems_text(es),
        forall|i: int| 0 <= i <= elems_events(es).len() ==> walk_depth(#[trigger] elems_events(es).take(i)) >= 0,
    decreases es, 0int,
{
    if es.len() == 0 {
        assert forall|i: int| 0 <= i <= elems_events(es).len() implies walk_depth(
            #[trigger] elems_events(es).take(i),
        ) >= 0 by {
            assert(elems_events(es).take(i) =~= Seq::<EventView>::empty());
        }
    } else {
        let init = es.drop_last();
        lemma_elems_walk(init);
        let a = elems_events(init);
        let b = elem_events(es.last());
        match es.last() {
            SyntaxElement::Node(c) => {
                lemma_node_walk(c);
            },
            SyntaxElement::Token(t) => {
                let x = seq![EventView::Token(t.kind, t.text@), EventView::TokenEnd];
                let x1 = seq![EventView::Token(t.kind, t.text@)];
                assert(x.drop_last() =~= x1);
                assert(x1.drop_last() =~= Seq::<EventView>::empty());
                assert(walk_depth(Seq::<EventView>::empty()) == 0);
                assert(events_text(Seq::<EventView>::empty()) == Seq::<char>::empty());
                assert(walk_depth(x1) == 0);
                assert(events_text(x1) =~= t.text@);
                assert(walk_depth(x) == 0);
                assert(events_text(x) =~= t.text@);
            },
        }
        assert(elems_events(es) == a + b);
        lemma_walk_concat(a, b);
        assert forall|i: int| 0 <= i <= elems_events(es).len() implies walk_depth(
            #[trigger] elems_events(es).take(i),
        ) >= 0 by {
            if i <= a.len() {
                assert(elems_events(es).take(i) =~= a.take(i));
            } else {
                let j = i - a.len();
                assert(elems_events(es).take(i) =~= a + b.take(j));
                lemma_walk_concat(a, b.take(j));
                assert(a.take(a.len() as int) =~= a);
                match es.last() {
                    SyntaxElement::Node(c) => {
                        if j == b.len() {
                            assert(b.take(j) =~= b);
                        } else if j == 0 {
                            assert(b.take(j) =~= Seq::<EventView>::empty());
                        }
                    },
                    SyntaxElement::Token(t) => {
                        if j == 1 {
                            assert(b.take(1).drop_last() =~= Seq::<EventView>::empty());
                        } else {
                            assert(b.take(j) =~= b);
                        }
                    },
                }
            }
        }
    }
}

/// Two node walks at the head of the same steps are the same length: a
/// node's walk is never a proper prefix of another's.
proof fn lemma_walk_unique(n: SyntaxNode, c: SyntaxNode, evs: Seq<EventView>, p: int, next: int)
    requires
        0 <= p < next <= evs.len(),
        node_events(n) == evs.subrange(p, next),
        p + node_events(c).len() <= evs.len(),
        evs.subrange(p, p + node_events(c).len()) == node_events(c),
    ensures
        next == p + node_events(c).len(),
        node_text(n) == node_text(c),
{
    lemma_node_walk(n);
    lemma_node_walk(c);
    let ln = next - p;
    let lc = node_events(c).len() as int;
    if ln < lc {
        assert(node_events(c).take(ln) =~= node_events(n));
    } else if lc < ln {
        assert(node_events(n).take(lc) =~= node_events(c));
    }
    assert(node_events(n) =~= node_events(c));
}

/// The walk of the first `k` children is a prefix of the walk of all of
/// them, and their text a prefix of all of it.
proof fn lemma_elems_prefix(es: Seq<SyntaxElement>, k: int)
    requires
        0 <= k <= es.len(),
    ensures
        elems_events(es.take(k)).len() <= elems_events(es).len(),
        elems_events(es.take(k)) == elems_events(es).take(elems_events(es.take(k)).len() as int),
        elems_text(es.take(k)).len() <= elems_text(es).len(),
    decreases es.len() - k,
{
    if k < es.len() {
        lemma_elems_prefix(es, k + 1);
        assert(es.take(k + 1).drop_last() =~= es.take(k));
        let a = elems_events(es.take(k));
        let b = elems_events(es.take(k + 1));
        assert(b == a + elem_events(es[k]));
        assert(elems_events(es).take(a.len() as int) =~= b.take(a.len() as int));
        assert(b.take(a.len() as int) =~= a);
    } else {
        assert(es.take(k) =~= es);
        assert(elems_events(es).take(elems_events(es).len() as int) =~= elems_events(es));
    }
}

/// The node children among `es` begin where the text before them ends.
proof fn lemma_child_offset(es: Seq<SyntaxElement>, s: int, k: int)
    requires
        elems_offsets_ok(es, s),
        0 <= k < es.len(),
    ensures
        es[k] matches SyntaxElement::Node(c) ==> c.start == s + elems_text(es.take(k)).len()
            && node_offsets_ok(c),
    decreases es.len(),
{
    if k < es.len() - 1 {
        lemma_child_offset(es.drop_last(), s, k);
        assert(es.drop_last().take(k) =~= es.take(k));
    } else {
        assert(es.take(k) =~= es.drop_last());
    }
}

/// The walk of `t` stands in `evs` at `pos`, `t` begins at offset `start`,
/// its offsets are consistent and its text ends within `usize`.
pub open spec fn walk_at(t: SyntaxNode, evs: Seq<EventView>, pos: int, start: int) -> bool {
    &&& t.start == start
    &&& node_offsets_ok(t)
    &&& start + node_text(t).len() <= usize::MAX
    &&& 0 <= pos
    &&& pos + node_events(t).len() <= evs.len()
    &&& evs.subrange(pos, pos + node_events(t).len()) == node_events(t)
}

/// What the walk of `t` holds after the walks of its first `k` children.
proof fn lemma_walk_step(t: SyntaxNode, evs: Seq<EventView>, pos: int, start: int, k: int)
    requires
        walk_at(t, evs, pos, start),
        0 <= k <= t.children@.len(),
    ensures
        ({
            let es = t.children@;
            let p = pos + 1 + elems_events(es.take(k)).len();
            let off = start + elems_text(es.take(k)).len();
            &&& p < evs.len()
            &&& k == es.len() ==> evs[p] == EventView::Close
            &&& k < es.len() ==> elems_events(es.take(k + 1)) == elems_events(es.take(k)) + elem_events(es[k])
            &&& k < es.len() ==> match es[k] {
                SyntaxElement::Token(tok) => {
                    &&& p + 1 < evs.len()
                    &&& evs[p] == EventView::Token(tok.kind, tok.text@)
                    &&& evs[p + 1] == EventView::TokenEnd
                    &&& off + tok.text@.len() <= usize::MAX
                    &&& elems_text(es.take(k + 1)).len() == elems_text(es.take(k)).len() + tok.text@.len()
                },
                SyntaxElement::Node(c) => {
                    &&& evs[p] == EventView::Open(c.kind)
                    &&& walk_at(c, evs, p, off)
                    &&& elems_text(es.take(k + 1)).len() == elems_text(es.take(k)).len() + node_text(c).len()
                },
            }
        }),
{
    let es = t.children@;
    let e = elems_events(es);
    let w = node_events(t);
    let p = pos + 1 + elems_events(es.take(k)).len();
    let off = start + elems_text(es.take(k)).len();
    lemma_elems_prefix(es, k);
    assert(es.take(es.len() as int) =~= es);
    assert forall|i: int| 0 <= i < e.len() implies #[trigger] evs[pos + 1 + i] == e[i] by {
        assert(evs.subrange(pos, pos + w.len())[1 + i] == w[1 + i]);
    }
    let le = e.len() as int;
    assert(evs[pos + 1 + le] == EventView::Close) by {
        assert(evs.subrange(pos, pos + w.len())[1 + le] == w[1 + le]);
    }
    if k < es.len() {
        lemma_elems_prefix(es, k + 1);
        assert(es.take(k + 1).drop_last() =~= es.take(k));
        let a = elems_events(es.take(k));
        let x = elem_events(es[k]);
        assert(elems_events(es.take(k + 1)) == a + x);
        assert forall|j: int| 0 <= j < x.len() implies #[trigger] evs[p + j] == x[j] by {
            let idx = a.len() + j;
            assert(idx < e.len());
            assert(evs[pos + 1 + idx] == e[idx]);
            assert(e.take((a + x).len() as int)[idx] == (a + x)[idx]);
        }
        lemma_child_offset(es, start, k);
        assert(elems_text(es.take(k + 1)).len() <= elems_text(es).len());
        assert(x.len() >= 2);
        assert(evs[p + 0] == x[0]);
        match es[k] {
            SyntaxElement::Token(tok) => {
                assert(evs[p + 1] == x[1]);
            },
            SyntaxElement::Node(c) => {
                assert(a.len() + x.len() <= e.len());
                assert(p + x.len() <= evs.len());
                assert forall|j: int| 0 <= j < x.len() implies #[trigger] evs.subrange(p, p + x.len())[j]
                    == x[j] by {
                    assert(evs[p + j] == x[j]);
                }
                assert(evs.subrange(p, p + x.len()) =~= x);
            },
        }
    }
}

/// Rebuilds the node whose walk begins at `pos` (an `Open` step), giving
/// it and its descendants their character offsets from `start`. Returns the
/// node, the position after its `Close` step and the offset after its
/// text; `None` exactly when no node's walk stands there with an end
/// offset that fits in `usize`.
pub fn build_node(events: &Vec<SyntaxEvent>, pos: usize, start: usize) -> (r: Option<(SyntaxNode, usize, usize)>)
    requires
        pos < events.len(),
    ensures
        r matches Some((n, next, end)) ==> {
            &&& pos < next <= events.len()
            &&& node_events(n) == event_views(events@).subrange(pos as int, next as int)
            &&& n.start == start
            &&& node_offsets_ok(n)
            &&& end == start + node_text(n).len()
        },
        r is None ==> forall|t: SyntaxNode| !walk_at(t, event_views(events@), pos as int, start as int),
    decreases events.len() - pos,
{
    let ghost evs = event_views(events@);
    let ghost tt: Option<SyntaxNode> = if exists|t: SyntaxNode| walk_at(t, evs, pos as int, start as int) {
        Some(choose|t: SyntaxNode| walk_at(t, evs, pos as int, start as int))
    } else {
        None
    };
    proof {
        if let Some(t) = tt {
            assert(evs[pos as int] == node_events(t)[0]) by {
                assert(evs.subrange(pos as int, pos + node_events(t).len())[0] == node_events(t)[0]);
            }
        }
    }
    let kind = match &events[pos] {
        SyntaxEvent::Open(k) => *k,
        _ => return None,
    };
    let mut children: Vec<SyntaxElement> = Vec::new();
    let mut p: usize = pos + 1;
    let mut off: usize = start;
    let ghost mut k: int = 0;
    proof {
        if let Some(t) = tt {
            assert(t.children@.take(0) =~= Seq::<SyntaxElement>::empty());
        }
    }
    loop
        invariant
            evs == event_views(events@),
            pos < p <= events.len(),
            evs[pos as int] == EventView::Open(kind),
            elems_events(children@) == evs.subrange(pos + 1, p as int),
            elems_offsets_ok(children@, start as int),
            off == start + elems_text(children@).len(),
            tt is None ==> forall|t: SyntaxNode| !walk_at(t, evs, pos as int, start as int),
            tt matches Some(t) ==> {
                &&& walk_at(t, evs, pos as int, start as int)
                &&& 0 <= k <= t.children@.len()
                &&& p == pos + 1 + elems_events(t.children@.take(k)).len()
                &&& off == start + elems_text(t.children@.take(k)).len()
            },
        decreases events.len() - p,
    {
        proof {
            if let Some(t) = tt {
                lemma_walk_step(t, evs, pos as int, start as int, k);
            }
        }
        if p >= events.len() {
            return None;
        }
        let ghost before = children@;
        match &events[p] {
            SyntaxEvent::Open(_) => {
                match build_node(events, p, off) {
                    Some((c, next, end)) => {
                        proof {
                            if let Some(t) = tt {
                                if let SyntaxElement::Node(tc) = t.children@[k] {
                                    lemma_walk_unique(c, tc, evs, p as int, next as int);
                                }
                                k = k + 1;
                            }
                        }
                        children.push(SyntaxElement::Node(c));
                        assert(children@.drop_last() =~= before);
                        assert(evs.subrange(pos + 1, next as int) =~= evs.subrange(pos + 1, p as int)
                            + evs.subrange(p as int, next as int));
                        p = next;
                        off = end;
                    },
                    None => {
                        return None;
                    },
                }
            },
            SyntaxEvent::Token(tk, text) => {
                if p + 1 < events.len() {
                    if let SyntaxEvent::TokenEnd = &events[p + 1] {
                        let n = text.as_str().unicode_len();
                        if off > usize::MAX - n {
                            return None;
                        }
                        children.push(SyntaxElement::Token(SyntaxToken { kind: *tk, text: text.clone() }));
                        assert(children@.drop_last() =~= before);
                        assert(evs.subrange(pos + 1, p + 2) =~= evs.subrange(pos + 1, p as int)
                            + seq![evs[p as int], evs[p + 1]]);
                        p = p + 2;
                        off = off + n;
                        proof {
                            if tt is Some {
                                k = k + 1;
                            }
                        }
                    } else {
                        return None;
                    }
                } else {
                    return None;
                }
            },
            SyntaxEvent::Close => {
                let node = SyntaxNode { kind, start, children };
                assert(evs.subrange(pos as int, p + 1) =~= seq![EventView::Open(kind)]
                    + evs.subrange(pos + 1, p as int) + seq![EventView::Close]);
                return Some((node, p + 1, off));
            },
            SyntaxEvent::TokenEnd => {
                return None;
            },
        }
    }
}

/// `t` is a tree whose walk is `evs`, beginning at offset 0, with
/// consistent offsets and a text whose length fits in `usize`.
pub open spec fn tree_of_walk(t: SyntaxNode, evs: Seq<EventView>) -> bool {
    &&& node_events(t) == evs
    &&& t.start == 0
    &&& node_offsets_ok(t)
    &&& node_text(t).len() <= usize::MAX
}

/// Rebuilds the tree `rnix` parses `src` into; `None` exactly when no tree
/// has that walk.
pub fn parse_tree(src: &str) -> (r: Option<SyntaxNode>)
    ensures
        r matches Some(n) ==> tree_of_walk(n, nix_parse_events(src@)),
        r is None ==> forall|t: SyntaxNode| !tree_of_walk(t, nix_parse_events(src@)),
{
    let events = parse_events(src);
    let ghost evs = event_views(events@);
    assert(evs == nix_parse_events(src@));
    proof {
        assert forall|t: SyntaxNode| tree_of_walk(t, evs) implies walk_at(t, evs, 0, 0) by {
            assert(evs.subrange(0, node_events(t).len() as int) =~= evs);
        }
    }
    if events.len() == 0 {
        return None;
    }
    match build_node(&events, 0, 0) {
        Some((n, next, _)) => {
            if next == events.len() {
                assert(evs.subrange(0, next as int) =~= evs);
                Some(n)
            } else {
                proof {
                    assert forall|t: SyntaxNode| !tree_of_walk(t, evs) by {
                        if tree_of_walk(t, evs) {
                            lemma_walk_unique(n, t, evs, 0, next as int);
                        }
                    }
                }
                None
            }
        },
        None => None,
    }
}

// ---------------------------------------------------------------------
// Kinds of nodes and tokens
// ---------------------------------------------------------------------

/// The node kinds `rnix::ast::Expr` casts from.
pub open spec fn is_expr_kind(k: u16) -> bool {
    ||| k == NODE_APPLY
    ||| k == NODE_ASSERT
    ||| k == NODE_ERROR
    ||| k == NODE_IF_ELSE
    ||| k == NODE_SELECT
    ||| k == NODE_STRING
    ||| k == NODE_PATH_ABS
    ||| k == NODE_PATH_REL
    ||| k == NODE_PATH_HOME
    ||| k == NODE_PATH_SEARCH
    ||| k == NODE_LITERAL
    ||| k == NODE_LAMBDA
    ||| k == NODE_LEGACY_LET
    ||| k == NODE_LET_IN
    ||| k == NODE_LIST
    ||| k == NODE_BIN_OP
    ||| k == NODE_PAREN
    ||| k == NODE_ROOT
    ||| k == NODE_ATTR_SET
    ||| k == NODE_UNARY_OP
    ||| k == NODE_IDENT
    ||| k == NODE_WITH
    ||| k == NODE_HAS_ATTR
    ||| k == NODE_CUR_POS
}

/// The node kinds `rnix::ast::Attr` casts from.
pub open spec fn is_attr_kind(k: u16) -> bool {
    k == NODE_IDENT || k == NODE_DYNAMIC || k == NODE_STRING
}

/// The token kinds `rnix::ast::BinOpKind::from_kind` recognises.
pub open spec fn is_bin_op_token(k: u16) -> bool {
    ||| k == TOKEN_CONCAT
    ||| k == TOKEN_UPDATE
    ||| k == TOKEN_ADD
    ||| k == TOKEN_SUB
    ||| k == TOKEN_MUL
    ||| k == TOKEN_DIV
    ||| k == TOKEN_AND_AND
    ||| k == TOKEN_EQUAL
    ||| k == TOKEN_IMPLICATION
    ||| k == TOKEN_LESS
    ||| k == TOKEN_LESS_OR_EQ
    ||| k == TOKEN_MORE
    ||| k == TOKEN_MORE_OR_EQ
    ||| k == TOKEN_NOT_EQUAL
    ||| k == TOKEN_OR_OR
    ||| k == TOKEN_PIPE_RIGHT
    ||| k == TOKEN_PIPE_LEFT
}

pub fn is_expr_kind_exec(k: u16) -> (r: bool)
    ensures
        r == is_expr_kind(k),
{
    k == NODE_APPLY || k == NODE_ASSERT || k == NODE_ERROR || k == NODE_IF_ELSE || k
        == NODE_SELECT || k == NODE_STRING || k == NODE_PATH_ABS || k == NODE_PATH_REL || k
        == NODE_PATH_HOME || k == NODE_PATH_SEARCH || k == NODE_LITERAL || k == NODE_LAMBDA || k
        == NODE_LEGACY_LET || k == NODE_LET_IN || k == NODE_LIST || k == NODE_BIN_OP || k
        == NODE_PAREN || k == NODE_ROOT || k == NODE_ATTR_SET || k == NODE_UNARY_OP || k
        == NODE_IDENT || k == NODE_WITH || k == NODE_HAS_ATTR || k == NODE_CUR_POS
}

/// Which child nodes a search counts.
#[derive(Clone, Copy)]
pub enum NodeFilter {
    /// Every child node.
    Any,
    /// Child nodes that are expressions.
    Expr,
    /// Child nodes that are attribute-path segments.
    Attr,
    /// Child nodes of one kind.
    Kind(u16),
}

/// `c` is counted by `f`.
pub open spec fn node_matches(f: NodeFilter, c: SyntaxNode) -> bool {
    match f {
        NodeFilter::Any => true,
        NodeFilter::Expr => is_expr_kind(c.kind),
        NodeFilter::Attr => is_attr_kind(c.kind),
        NodeFilter::Kind(k) => c.kind == k,
    }
}

fn node_matches_exec(f: NodeFilter, c: &SyntaxNode) -> (r: bool)
    ensures
        r == node_matches(f, *c),
{
    match f {
        NodeFilter::Any => true,
        NodeFilter::Expr => is_expr_kind_exec(c.kind),
        NodeFilter::Attr => c.kind == NODE_IDENT || c.kind == NODE_DYNAMIC || c.kind == NODE_STRING,
        NodeFilter::Kind(k) => c.kind == k,
    }
}

// ---------------------------------------------------------------------
// Children
// ---------------------------------------------------------------------

/// The nodes among `es`, in order.
pub open spec fn elems_nodes(es: Seq<SyntaxElement>) -> Seq<SyntaxNode>
    decreases es.len(),
{
    if es.len() == 0 {
        seq![]
    } else {
        let rest = elems_nodes(es.drop_last());
        match es.last() {
            SyntaxElement::Node(c) => rest.push(c),
            SyntaxElement::Token(_) => rest,
        }
    }
}

/// The `i`-th (from zero) node among `es` that `f` counts.
pub open spec fn nth_matching(es: Seq<SyntaxElement>, f: NodeFilter, i: nat) -> Option<SyntaxNode>
    decreases es.len(),
{
    if es.len() == 0 {
        None
    } else {
        match es[0] {
            SyntaxElement::Node(c) => if node_matches(f, c) {
                if i == 0 {
                    Some(c)
                } else {
                    nth_matching(es.skip(1), f, (i - 1) as nat)
                }
            } else {
                nth_matching(es.skip(1), f, i)
            },
            SyntaxElement::Token(_) => nth_matching(es.skip(1), f, i),
        }
    }
}

/// The `i`-th child node of `n` that `f` counts (`rnix`'s `nth` accessor
/// when `f` is the accessor's node type).
pub open spec fn nth_child(n: SyntaxNode, f: NodeFilter, i: nat) -> Option<SyntaxNode> {
    nth_matching(n.children@, f, i)
}

/// The `i`-th child node of `n` that `f` counts.
pub fn nth_child_exec<'a>(n: &'a SyntaxNode, f: NodeFilter, i: usize) -> (r: Option<&'a SyntaxNode>)
    ensures
        match r {
            Some(c) => nth_child(*n, f, i as nat) == Some(*c),
            None => nth_child(*n, f, i as nat) is None,
        },
{
    let es = &n.children;
    let mut k: usize = 0;
    let mut left: usize = i;
    assert(es@.skip(0) =~= es@);
    while k < es.len()
        invariant
            k <= es.len(),
            es@ == n.children@,
            left <= i,
            nth_matching(es@, f, i as nat) == nth_matching(es@.skip(k as int), f, left as nat),
        decreases es.len() - k,
    {
        let ghost rest = es@.skip(k as int);
        assert(rest.skip(1) =~= es@.skip(k + 1));
        assert(rest.len() > 0 && rest[0] == es@[k as int]);
        match &es[k] {
            SyntaxElement::Node(c) => {
                if node_matches_exec(f, c) {
                    assert(nth_matching(rest, f, left as nat) == if left == 0 {
                        Some(*c)
                    } else {
                        nth_matching(rest.skip(1), f, (left - 1) as nat)
                    });
                    if left == 0 {
                        return Some(c);
                    }
                    left = left - 1;
                }
            },
            SyntaxElement::Token(_) => {},
        }
        k = k + 1;
    }
    None
}

/// The last node among `es` that `f` counts.
pub open spec fn last_matching(es: Seq<SyntaxElement>, f: NodeFilter) -> Option<SyntaxNode>
    decreases es.len(),
{
    if es.len() == 0 {
        None
    } else {
        match es.last() {
            SyntaxElement::Node(c) => if node_matches(f, c) {
                Some(c)
            } else {
                last_matching(es.drop_last(), f)
            },
            SyntaxElement::Token(_) => last_matching(es.drop_last(), f),
        }
    }
}

/// The last child node of `n` that `f` counts.
pub fn last_child_exec<'a>(n: &'a SyntaxNode, f: NodeFilter) -> (r: Option<&'a SyntaxNode>)
    ensures
        match r {
            Some(c) => last_matching(n.children@, f) == Some(*c),
            None => last_matching(n.children@, f) is None,
        },
{
    let es = &n.children;
    let mut found: Option<&SyntaxNode> = None;
    for k in 0..es.len()
        invariant
            es@ == n.children@,
            match found {
                Some(c) => last_matching(es@.take(k as int), f) == Some(*c),
                None => last_matching(es@.take(k as int), f) is None,
            },
    {
        assert(es@.take(k + 1).drop_last() =~= es@.take(k as int));
        match &es[k] {
            SyntaxElement::Node(c) => {
                if node_matches_exec(f, c) {
                    found = Some(c);
                }
            },
            SyntaxElement::Token(_) => {},
        }
    }
    assert(es@.take(es@.len() as int) =~= es@);
    found
}

/// Which tokens a search counts.
#[derive(Clone, Copy)]
pub enum TokenFilter {
    /// Tokens of one kind.
    Kind(u16),
    /// Binary-operator tokens.
    BinOp,
}

/// A token of kind `k` is counted by `p`.
pub open spec fn token_matches(p: TokenFilter, k: u16) -> bool {
    match p {
        TokenFilter::Kind(want) => k == want,
        TokenFilter::BinOp => is_bin_op_token(k),
    }
}

/// The first token among `es` that `p` counts.
pub open spec fn first_token(es: Seq<SyntaxElement>, p: TokenFilter) -> Option<SyntaxToken>
    decreases es.len(),
{
    if es.len() == 0 {
        None
    } else {
        match es[0] {
            SyntaxElement::Token(t) => if token_matches(p, t.kind) {
                Some(t)
            } else {
                first_token(es.skip(1), p)
            },
            SyntaxElement::Node(_) => first_token(es.skip(1), p),
        }
    }
}

/// The first token child of `n` of kind `k` (`rnix`'s token accessors).
pub open spec fn token_of_kind(n: SyntaxNode, k: u16) -> Option<SyntaxToken> {
    first_token(n.children@, TokenFilter::Kind(k))
}

/// The first token child of `n` of kind `k`.
pub fn token_of_kind_exec<'a>(n: &'a SyntaxNode, k: u16) -> (r: Option<&'a SyntaxToken>)
    ensures
        match r {
            Some(t) => token_of_kind(*n, k) == Some(*t),
            None => token_of_kind(*n, k) is None,
        },
{
    let es = &n.children;
    let ghost p = TokenFilter::Kind(k);
    let mut j: usize = 0;
    assert(es@.skip(0) =~= es@);
    while j < es.len()
        invariant
            j <= es.len(),
            es@ == n.children@,
            p == TokenFilter::Kind(k),
            first_token(es@, p) == first_token(es@.skip(j as int), p),
        decreases es.len() - j,
    {
        let ghost rest = es@.skip(j as int);
        assert(rest.skip(1) =~= es@.skip(j + 1));
        assert(rest.len() > 0 && rest[0] == es@[j as int]);
        match &es[j] {
            SyntaxElement::Token(t) => {
                if t.kind == k {
                    assert(first_token(rest, p) == Some(*t));
                    return Some(t);
                }
            },
            SyntaxElement::Node(_) => {},
        }
        j = j + 1;
    }
    None
}

/// The operator token of a binary operation (`rnix::ast::BinOp::operator`):
/// its first token child that is an operator.
pub open spec fn bin_op_token(n: SyntaxNode) -> Option<SyntaxToken> {
    first_token(n.children@, TokenFilter::BinOp)
}

/// The kind of a binary operation's operator token.
pub fn bin_op_kind(n: &SyntaxNode) -> (r: Option<u16>)
    ensures
        r == (match bin_op_token(*n) {
            Some(t) => Some(t.kind),
            None => None,
        }),
{
    let es = &n.children;
    let ghost p = TokenFilter::BinOp;
    let mut j: usize = 0;
    assert(es@.skip(0) =~= es@);
    while j < es.len()
        invariant
            j <= es.len(),
            es@ == n.children@,
            p == TokenFilter::BinOp,
            first_token(es@, p) == first_token(es@.skip(j as int), p),
        decreases es.len() - j,
    {
        let ghost rest = es@.skip(j as int);
        assert(rest.skip(1) =~= es@.skip(j + 1));
        assert(rest.len() > 0 && rest[0] == es@[j as int]);
        match &es[j] {
            SyntaxElement::Token(t) => {
                let k = t.kind;
                if k == TOKEN_CONCAT || k == TOKEN_UPDATE || k == TOKEN_ADD || k == TOKEN_SUB || k
                    == TOKEN_MUL || k == TOKEN_DIV || k == TOKEN_AND_AND || k == TOKEN_EQUAL || k
                    == TOKEN_IMPLICATION || k == TOKEN_LESS || k == TOKEN_LESS_OR_EQ || k
                    == TOKEN_MORE || k == TOKEN_MORE_OR_EQ || k == TOKEN_NOT_EQUAL || k
                    == TOKEN_OR_OR || k == TOKEN_PIPE_RIGHT || k == TOKEN_PIPE_LEFT {
                    assert(first_token(rest, p) == Some(*t));
                    return Some(k);
                }
            },
            SyntaxElement::Node(_) => {},
        }
        j = j + 1;
    }
    None
}

// ---------------------------------------------------------------------
// Text
// ---------------------------------------------------------------------

/// Appends the text `n` spans to `out`.
pub fn push_node_text(n: &SyntaxNode, out: &mut Vec<char>)
    ensures
        final(out)@ == old(out)@ + node_text(*n),
    decreases n,
{
    let es = &n.children;
    let ghost base = out@;
    for k in 0..es.len()
        invariant
            es@ == n.children@,
            out@ == base + elems_text(es@.take(k as int)),
    {
        assert(es@.take(k + 1).drop_last() =~= es@.take(k as int));
        match &es[k] {
            SyntaxElement::Node(c) => {
                assert(decreases_to!(n => n.children));
                assert(decreases_to!(n.children => n.children@));
                assert(decreases_to!(n.children@ => n.children@[k as int]));
                push_node_text(c, out);
            },
            SyntaxElement::Token(t) => {
                crate::text::push_str(out, t.text.as_str());
            },
        }
        assert(out@ =~= base + elems_text(es@.take(k + 1)));
    }
    assert(es@.take(es@.len() as int) =~= es@);
}

/// The text `n` spans (`SyntaxNode::text`).
pub fn node_text_exec(n: &SyntaxNode) -> (r: Vec<char>)
    ensures
        r@ == node_text(*n),
{
    let mut out: Vec<char> = Vec::new();
    push_node_text(n, &mut out);
    assert(out@ =~= node_text(*n));
    out
}

} // verus!
