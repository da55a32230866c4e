//! Resolving (possibly curried) Nix function applications, and collecting
//! simple local aliases (`let mkOpt = lib.mkOption; in ...`) and `let`
//! bindings so that calls through a renamed binding can still be
//! recognised.

use vstd::prelude::*;

use crate::syntax::{
    last_child_exec, last_matching, nth_child, nth_child_exec, token_of_kind, token_of_kind_exec,
    NodeFilter, SyntaxElement, SyntaxNode, NODE_APPLY, NODE_ATTRPATH, NODE_ATTRPATH_VALUE,
    NODE_ATTR_SET, NODE_IDENT, NODE_LET_IN, NODE_PAREN, NODE_SELECT, TOKEN_IDENT,
};
use crate::text::chars_of;
use crate::types::MAX_TRAVERSAL_DEPTH;

verus! {

broadcast use vstd::string::group_string_axioms;

// ---------------------------------------------------------------------
// Identifiers
// ---------------------------------------------------------------------

/// The text of an identifier node's identifier token.
pub open spec fn ident_token_text(n: SyntaxNode) -> Option<Seq<char>> {
    match token_of_kind(n, TOKEN_IDENT) {
        Some(t) => Some(t.text@),
        None => None,
    }
}

/// The bare identifier an expression refers to, looking through at most
/// `fuel` parentheses and taking the last segment of an attribute
/// selection (`lib.mkOption` -> `mkOption`).
pub open spec fn ident_name(e: SyntaxNode, fuel: nat) -> Option<Seq<char>>
    decreases fuel,
{
    if e.kind == NODE_IDENT {
        ident_token_text(e)
    } else if e.kind == NODE_SELECT {
        match nth_child(e, NodeFilter::Kind(NODE_ATTRPATH), 0) {
            Some(path) => match last_matching(path.children@, NodeFilter::Attr) {
                Some(a) => if a.kind == NODE_IDENT {
                    ident_token_text(a)
                } else {
                    None
                },
                None => None,
            },
            None => None,
        }
    } else if e.kind == NODE_PAREN && fuel > 0 {
        match nth_child(e, NodeFilter::Expr, 0) {
            Some(inner) => ident_name(inner, (fuel - 1) as nat),
            None => None,
        }
    } else {
        None
    }
}

fn ident_token_text_exec(n: &SyntaxNode) -> (r: Option<Vec<char>>)
    ensures
        match ident_token_text(*n) {
            Some(t) => r matches Some(x) && x@ == t,
            None => r is None,
        },
{
    match token_of_kind_exec(n, TOKEN_IDENT) {
        Some(t) => Some(chars_of(t.text.as_str())),
        None => None,
    }
}

/// The bare identifier an expression refers to (see `ident_name`).
pub fn ident_name_exec(e: &SyntaxNode, fuel: usize) -> (r: Option<Vec<char>>)
    ensures
        match ident_name(*e, fuel as nat) {
            Some(t) => r matches Some(x) && x@ == t,
            None => r is None,
        },
    decreases fuel,
{
    if e.kind == NODE_IDENT {
        ident_token_text_exec(e)
    } else if e.kind == NODE_SELECT {
        match nth_child_exec(e, NodeFilter::Kind(NODE_ATTRPATH), 0) {
            Some(path) => match last_child_exec(path, NodeFilter::Attr) {
                Some(a) => if a.kind == NODE_IDENT {
                    ident_token_text_exec(a)
                } else {
                    None
                },
                None => None,
            },
            None => None,
        }
    } else if e.kind == NODE_PAREN && fuel > 0 {
        match nth_child_exec(e, NodeFilter::Expr, 0) {
            Some(inner) => ident_name_exec(inner, fuel - 1),
            None => None,
        }
    } else {
        None
    }
}

// ---------------------------------------------------------------------
// Name pairs
// ---------------------------------------------------------------------

/// Name pairs taken by their characters.
pub open spec fn pairs_view(p: Seq<(String, String)>) -> Seq<(Seq<char>, Seq<char>)> {
    p.map_values(|e: (String, String)| (e.0@, e.1@))
}

/// What `key` is bound to in `pairs`; a later pair wins over an earlier
/// one, as inserting them into a map in order would have it.
pub open spec fn lookup_pair(pairs: Seq<(Seq<char>, Seq<char>)>, key: Seq<char>) -> Option<
    Seq<char>,
>
    decreases pairs.len(),
{
    if pairs.len() == 0 {
        None
    } else if pairs.last().0 == key {
        Some(pairs.last().1)
    } else {
        lookup_pair(pairs.drop_last(), key)
    }
}

/// The canonical name of a function called through `name`.
pub open spec fn canonical_name(aliases: Seq<(Seq<char>, Seq<char>)>, name: Seq<char>) -> Seq<char> {
    match lookup_pair(aliases, name) {
        Some(t) => t,
        None => name,
    }
}

fn canonical_name_exec(aliases: &Vec<(String, String)>, name: Vec<char>) -> (r: Vec<char>)
    ensures
        r@ == canonical_name(pairs_view(aliases@), name@),
{
    let ghost ps = pairs_view(aliases@);
    let mut n = aliases.len();
    assert(ps.take(ps.len() as int) =~= ps);
    while n > 0
        invariant
            n <= aliases@.len(),
            ps == pairs_view(aliases@),
            lookup_pair(ps, name@) == lookup_pair(ps.take(n as int), name@),
        decreases n,
    {
        let ghost t = ps.take(n as int);
        let k = chars_of(aliases[n - 1].0.as_str());
        if crate::text::chars_eq(k.as_slice(), name.as_slice()) {
            assert(t.last() == ps[n - 1]);
            return chars_of(aliases[n - 1].1.as_str());
        }
        assert(t.drop_last() =~= ps.take(n - 1));
        n = n - 1;
    }
    name
}

// ---------------------------------------------------------------------
// Calls
// ---------------------------------------------------------------------

/// A curried application `f a b c` (nested `NODE_APPLY`s) taken apart into
/// the identifier `f` names and its arguments in order, looking through at
/// most `fuel` nested applications.
pub open spec fn call_chain(node: SyntaxNode, fuel: nat) -> Option<(Seq<char>, Seq<SyntaxNode>)>
    decreases fuel,
{
    if node.kind != NODE_APPLY {
        None
    } else {
        match (nth_child(node, NodeFilter::Expr, 1), nth_child(node, NodeFilter::Expr, 0)) {
            (Some(arg), Some(lam)) => if lam.kind == NODE_APPLY {
                if fuel == 0 {
                    None
                } else {
                    match call_chain(lam, (fuel - 1) as nat) {
                        Some((name, args)) => Some((name, args.push(arg))),
                        None => None,
                    }
                }
            } else {
                match ident_name(lam, MAX_TRAVERSAL_DEPTH as nat) {
                    Some(name) => Some((name, seq![arg])),
                    None => None,
                }
            },
            _ => None,
        }
    }
}

/// The call `node` makes: the canonical name of the function (through
/// `aliases`) and its arguments in order; `None` when `node` is not an
/// application of a named function.
pub open spec fn resolve_call_spec(node: SyntaxNode, aliases: Seq<(Seq<char>, Seq<char>)>) -> Option<
    (Seq<char>, Seq<SyntaxNode>),
> {
    match call_chain(node, MAX_TRAVERSAL_DEPTH as nat) {
        Some((name, args)) => Some((canonical_name(aliases, name), args)),
        None => None,
    }
}

/// The nodes a sequence of node references points at.
pub open spec fn derefs<'a>(s: Seq<&'a SyntaxNode>) -> Seq<SyntaxNode> {
    s.map_values(|r: &'a SyntaxNode| *r)
}

fn call_chain_exec<'a>(node: &'a SyntaxNode, fuel: usize) -> (r: Option<(Vec<char>, Vec<&'a SyntaxNode>)>)
    ensures
        match call_chain(*node, fuel as nat) {
            Some((name, args)) => r matches Some((n, a)) && n@ == name && derefs(a@) == args,
            None => r is None,
        },
    decreases fuel,
{
    if node.kind != NODE_APPLY {
        return None;
    }
    let arg = match nth_child_exec(node, NodeFilter::Expr, 1) {
        Some(a) => a,
        None => return None,
    };
    let lam = match nth_child_exec(node, NodeFilter::Expr, 0) {
        Some(l) => l,
        None => return None,
    };
    if lam.kind == NODE_APPLY {
        if fuel == 0 {
            return None;
        }
        match call_chain_exec(lam, fuel - 1) {
            Some((name, args)) => {
                let mut args = args;
                let ghost before = args@;
                args.push(arg);
                assert(derefs(args@) =~= derefs(before).push(*arg));
                Some((name, args))
            },
            None => None,
        }
    } else {
        match ident_name_exec(lam, MAX_TRAVERSAL_DEPTH) {
            Some(name) => {
                let mut args: Vec<&SyntaxNode> = Vec::new();
                args.push(arg);
                assert(derefs(args@) =~= seq![*arg]);
                Some((name, args))
            },
            None => None,
        }
    }
}

/// Resolves a curried function application into the canonical function
/// name (through `aliases`, see `collect_aliases`) and its ordered
/// arguments.
pub fn resolve_call<'a>(node: &'a SyntaxNode, aliases: &Vec<(String, String)>) -> (r: Option<
    (Vec<char>, Vec<&'a SyntaxNode>),
>)
    ensures
        match resolve_call_spec(*node, pairs_view(aliases@)) {
            Some((name, args)) => r matches Some((n, a)) && n@ == name && derefs(a@) == args,
            None => r is None,
        },
{
    match call_chain_exec(node, MAX_TRAVERSAL_DEPTH) {
        Some((name, args)) => Some((canonical_name_exec(aliases, name), args)),
        None => None,
    }
}

// ---------------------------------------------------------------------
// Attribute-set entries
// ---------------------------------------------------------------------

/// The key of an attrset entry when it is a single plain identifier
/// (`name = ...;`, not `a.b = ...;` nor a quoted or interpolated key).
pub open spec fn entry_key(entry: SyntaxNode) -> Option<Seq<char>> {
    match nth_child(entry, NodeFilter::Kind(NODE_ATTRPATH), 0) {
        Some(path) => match (nth_child(path, NodeFilter::Attr, 0), nth_child(path, NodeFilter::Attr, 1)) {
            (Some(a), None) => if a.kind == NODE_IDENT {
                ident_token_text(a)
            } else {
                None
            },
            _ => None,
        },
        None => None,
    }
}

fn entry_key_exec(entry: &SyntaxNode) -> (r: Option<Vec<char>>)
    ensures
        match entry_key(*entry) {
            Some(k) => r matches Some(x) && x@ == k,
            None => r is None,
        },
{
    match nth_child_exec(entry, NodeFilter::Kind(NODE_ATTRPATH), 0) {
        Some(path) => {
            let first = nth_child_exec(path, NodeFilter::Attr, 0);
            let second = nth_child_exec(path, NodeFilter::Attr, 1);
            match (first, second) {
                (Some(a), None) => if a.kind == NODE_IDENT {
                    ident_token_text_exec(a)
                } else {
                    None
                },
                _ => None,
            }
        },
        None => None,
    }
}

/// The value of the first entry among `es` keyed by exactly `key`.
pub open spec fn find_attr_in(es: Seq<SyntaxElement>, key: Seq<char>) -> Option<SyntaxNode>
    decreases es.len(),
{
    if es.len() == 0 {
        None
    } else {
        let here = match es[0] {
            SyntaxElement::Node(c) => if c.kind == NODE_ATTRPATH_VALUE && entry_key(c) == Some(key) {
                nth_child(c, NodeFilter::Expr, 0)
            } else {
                None
            },
            SyntaxElement::Token(_) => None,
        };
        match here {
            Some(v) => Some(v),
            None => find_attr_in(es.skip(1), key),
        }
    }
}

/// The value of the top-level, single-segment entry `key` of an attrset
/// node (`default` in `{ default = ...; }`); dotted keys are not matched.
pub open spec fn find_attr_spec(attrset: SyntaxNode, key: Seq<char>) -> Option<SyntaxNode> {
    if attrset.kind == NODE_ATTR_SET {
        find_attr_in(attrset.children@, key)
    } else {
        None
    }
}

/// Finds the value of a top-level, single-segment attrset entry by key.
pub fn find_attr<'a>(attrset: &'a SyntaxNode, key: &str) -> (r: Option<&'a SyntaxNode>)
    ensures
        match find_attr_spec(*attrset, key@) {
            Some(v) => r matches Some(x) && *x == v,
            None => r is None,
        },
{
    if attrset.kind != NODE_ATTR_SET {
        return None;
    }
    let es = &attrset.children;
    let k = chars_of(key);
    let mut j: usize = 0;
    assert(es@.skip(0) =~= es@);
    while j < es.len()
        invariant
            j <= es.len(),
            es@ == attrset.children@,
            attrset.kind == NODE_ATTR_SET,
            k@ == key@,
            find_attr_in(es@, key@) == find_attr_in(es@.skip(j as int), key@),
        decreases es.len() - j,
    {
        let ghost rest = es@.skip(j as int);
        assert(rest.skip(1) =~= es@.skip(j + 1));
        assert(rest.len() > 0 && rest[0] == es@[j as int]);
        if let SyntaxElement::Node(c) = &es[j] {
            if c.kind == NODE_ATTRPATH_VALUE {
                if let Some(name) = entry_key_exec(c) {
                    if crate::text::chars_eq(name.as_slice(), k.as_slice()) {
                        if let Some(v) = nth_child_exec(c, NodeFilter::Expr, 0) {
                            assert(name@ == key@);
                            assert(entry_key(*c) == Some(key@));
                            assert(find_attr_in(rest, key@) == Some(*v));
                            return Some(v);
                        }
                    }
                }
            }
        }
        j = j + 1;
    }
    None
}

// ---------------------------------------------------------------------
// Local aliases and `let` bindings
// ---------------------------------------------------------------------

/// The alias a `let` entry defines: its key and the identifier its value
/// names (`mkOpt = lib.mkOption;` gives `(mkOpt, mkOption)`).
pub open spec fn entry_alias(entry: SyntaxNode) -> Option<(Seq<char>, Seq<char>)> {
    match (entry_key(entry), nth_child(entry, NodeFilter::Expr, 0)) {
        (Some(k), Some(v)) => match ident_name(v, MAX_TRAVERSAL_DEPTH as nat) {
            Some(t) => Some((k, t)),
            None => None,
        },
        _ => None,
    }
}

/// The binding a `let` entry defines: its key and its value expression.
pub open spec fn entry_binding(entry: SyntaxNode) -> Option<(Seq<char>, SyntaxNode)> {
    match (entry_key(entry), nth_child(entry, NodeFilter::Expr, 0)) {
        (Some(k), Some(v)) => Some((k, v)),
        _ => None,
    }
}

/// The aliases the entries among `es` define, in order.
pub open spec fn entries_aliases(es: Seq<SyntaxElement>) -> Seq<(Seq<char>, Seq<char>)>
    decreases es.len(),
{
    if es.len() == 0 {
        seq![]
    } else {
        let rest = entries_aliases(es.drop_last());
        match es.last() {
            SyntaxElement::Node(c) => if c.kind == NODE_ATTRPATH_VALUE {
                match entry_alias(c) {
                    Some(p) => rest.push(p),
                    None => rest,
                }
            } else {
                rest
            },
            SyntaxElement::Token(_) => rest,
        }
    }
}

/// The bindings the entries among `es` define, in order.
pub open spec fn entries_bindings(es: Seq<SyntaxElement>) -> Seq<(Seq<char>, SyntaxNode)>
    decreases es.len(),
{
    if es.len() == 0 {
        seq![]
    } else {
        let rest = entries_bindings(es.drop_last());
        match es.last() {
            SyntaxElement::Node(c) => if c.kind == NODE_ATTRPATH_VALUE {
                match entry_binding(c) {
                    Some(p) => rest.push(p),
                    None => rest,
                }
            } else {
                rest
            },
            SyntaxElement::Token(_) => rest,
        }
    }
}

/// The aliases defined in `let ... in` blocks at or below `node`, in
/// preorder, where `node` lies `depth` levels down a walk that stops at
/// `MAX_TRAVERSAL_DEPTH`.
pub open spec fn aliases_in(node: SyntaxNode, depth: nat) -> Seq<(Seq<char>, Seq<char>)>
    decreases MAX_TRAVERSAL_DEPTH - depth, 1nat, 0nat,
{
    if depth >= MAX_TRAVERSAL_DEPTH {
        seq![]
    } else {
        (if node.kind == NODE_LET_IN {
            entries_aliases(node.children@)
        } else {
            seq![]
        }) + aliases_in_elems(node.children@, depth)
    }
}

/// The aliases defined at or below the child nodes among `es` of a node
/// `depth` levels down.
pub open spec fn aliases_in_elems(es: Seq<SyntaxElement>, depth: nat) -> Seq<(Seq<char>, Seq<char>)>
    decreases MAX_TRAVERSAL_DEPTH - depth, 0nat, es.len(),
{
    if depth >= MAX_TRAVERSAL_DEPTH || es.len() == 0 {
        seq![]
    } else {
        aliases_in_elems(es.drop_last(), depth) + match es.last() {
            SyntaxElement::Node(c) => aliases_in(c, depth + 1),
            SyntaxElement::Token(_) => seq![],
        }
    }
}

/// The `let` bindings at or below `node`, in preorder (see `aliases_in`).
pub open spec fn bindings_in(node: SyntaxNode, depth: nat) -> Seq<(Seq<char>, SyntaxNode)>
    decreases MAX_TRAVERSAL_DEPTH - depth, 1nat, 0nat,
{
    if depth >= MAX_TRAVERSAL_DEPTH {
        seq![]
    } else {
        (if node.kind == NODE_LET_IN {
            entries_bindings(node.children@)
        } else {
            seq![]
        }) + bindings_in_elems(node.children@, depth)
    }
}

/// The `let` bindings at or below the child nodes among `es`.
pub open spec fn bindings_in_elems(es: Seq<SyntaxElement>, depth: nat) -> Seq<(Seq<char>, SyntaxNode)>
    decreases MAX_TRAVERSAL_DEPTH - depth, 0nat, es.len(),
{
    if depth >= MAX_TRAVERSAL_DEPTH || es.len() == 0 {
        seq![]
    } else {
        bindings_in_elems(es.drop_last(), depth) + match es.last() {
            SyntaxElement::Node(c) => bindings_in(c, depth + 1),
            SyntaxElement::Token(_) => seq![],
        }
    }
}

/// `let` bindings taken by their keys' characters and the nodes bound.
pub open spec fn bindings_view<'a>(b: Seq<(String, &'a SyntaxNode)>) -> Seq<(Seq<char>, SyntaxNode)> {
    b.map_values(|e: (String, &'a SyntaxNode)| (e.0@, *e.1))
}

/// The node `key` is bound to; a later binding wins over an earlier one.
pub open spec fn lookup_binding(b: Seq<(Seq<char>, SyntaxNode)>, key: Seq<char>) -> Option<SyntaxNode>
    decreases b.len(),
{
    if b.len() == 0 {
        None
    } else if b.last().0 == key {
        Some(b.last().1)
    } else {
        lookup_binding(b.drop_last(), key)
    }
}

/// The node bound to `key`.
pub fn lookup_binding_exec<'a>(b: &Vec<(String, &'a SyntaxNode)>, key: &[char]) -> (r: Option<&'a SyntaxNode>)
    ensures
        match lookup_binding(bindings_view(b@), key@) {
            Some(v) => r matches Some(x) && *x == v,
            None => r is None,
        },
{
    let ghost bs = bindings_view(b@);
    let mut n = b.len();
    assert(bs.take(bs.len() as int) =~= bs);
    while n > 0
        invariant
            n <= b@.len(),
            bs == bindings_view(b@),
            lookup_binding(bs, key@) == lookup_binding(bs.take(n as int), key@),
        decreases n,
    {
        let ghost t = bs.take(n as int);
        let k = chars_of(b[n - 1].0.as_str());
        if crate::text::chars_eq(k.as_slice(), key) {
            assert(t.last() == bs[n - 1]);
            return Some(b[n - 1].1);
        }
        assert(t.drop_last() =~= bs.take(n - 1));
        n = n - 1;
    }
    None
}

fn push_entry_aliases(node: &SyntaxNode, aliases: &mut Vec<(String, String)>)
    ensures
        pairs_view(final(aliases)@) == pairs_view(old(aliases)@) + entries_aliases(node.children@),
{
    let es = &node.children;
    let ghost base = pairs_view(aliases@);
    for j in 0..es.len()
        invariant
            es@ == node.children@,
            pairs_view(aliases@) == base + entries_aliases(es@.take(j as int)),
    {
        assert(es@.take(j + 1).drop_last() =~= es@.take(j as int));
        let ghost before = aliases@;
        if let SyntaxElement::Node(c) = &es[j] {
            if c.kind == NODE_ATTRPATH_VALUE {
                if let Some(k) = entry_key_exec(c) {
                    if let Some(v) = nth_child_exec(c, NodeFilter::Expr, 0) {
                        if let Some(t) = ident_name_exec(v, MAX_TRAVERSAL_DEPTH) {
                            let ks = crate::text::string_of(k.as_slice());
                            let ts = crate::text::string_of(t.as_slice());
                            aliases.push((ks, ts));
                            assert(pairs_view(aliases@) =~= pairs_view(before).push((k@, t@)));
                        }
                    }
                }
            }
        }
    }
    assert(es@.take(es@.len() as int) =~= es@);
}

fn push_entry_bindings<'a>(node: &'a SyntaxNode, bindings: &mut Vec<(String, &'a SyntaxNode)>)
    ensures
        bindings_view(final(bindings)@) == bindings_view(old(bindings)@) + entries_bindings(
            node.children@,
        ),
{
    let es = &node.children;
    let ghost base = bindings_view(bindings@);
    for j in 0..es.len()
        invariant
            es@ == node.children@,
            bindings_view(bindings@) == base + entries_bindings(es@.take(j as int)),
    {
        assert(es@.take(j + 1).drop_last() =~= es@.take(j as int));
        let ghost before = bindings@;
        if let SyntaxElement::Node(c) = &es[j] {
            if c.kind == NODE_ATTRPATH_VALUE {
                if let Some(k) = entry_key_exec(c) {
                    if let Some(v) = nth_child_exec(c, NodeFilter::Expr, 0) {
                        let ks = crate::text::string_of(k.as_slice());
                        bindings.push((ks, v));
                        assert(bindings_view(bindings@) =~= bindings_view(before).push((k@, *v)));
                    }
                }
            }
        }
    }
    assert(es@.take(es@.len() as int) =~= es@);
}

fn collect_aliases_rec(depth: usize, node: &SyntaxNode, aliases: &mut Vec<(String, String)>)
    ensures
        pairs_view(final(aliases)@) == pairs_view(old(aliases)@) + aliases_in(*node, depth as nat),
    decreases MAX_TRAVERSAL_DEPTH - depth,
{
    if depth >= MAX_TRAVERSAL_DEPTH {
        assert(pairs_view(aliases@) =~= pairs_view(aliases@) + aliases_in(*node, depth as nat));
        return;
    }
    let ghost base = pairs_view(aliases@);
    if node.kind == NODE_LET_IN {
        push_entry_aliases(node, aliases);
    }
    let ghost mid = pairs_view(aliases@);
    let es = &node.children;
    for j in 0..es.len()
        invariant
            es@ == node.children@,
            depth < MAX_TRAVERSAL_DEPTH,
            pairs_view(aliases@) == mid + aliases_in_elems(es@.take(j as int), depth as nat),
    {
        assert(es@.take(j + 1).drop_last() =~= es@.take(j as int));
        if let SyntaxElement::Node(c) = &es[j] {
            collect_aliases_rec(depth + 1, c, aliases);
        }
        assert(pairs_view(aliases@) =~= mid + aliases_in_elems(es@.take(j + 1), depth as nat));
    }
    assert(es@.take(es@.len() as int) =~= es@);
    assert(pairs_view(aliases@) =~= base + aliases_in(*node, depth as nat));
}

/// Collects the simple local aliases (`<name> = <ident-or-select>;` inside
/// `let ... in` blocks) anywhere in a file, in preorder; looking a name up
/// takes the last alias collected for it.
pub fn collect_aliases(root: &SyntaxNode) -> (r: Vec<(String, String)>)
    ensures
        pairs_view(r@) == aliases_in(*root, 0),
{
    let mut aliases: Vec<(String, String)> = Vec::new();
    collect_aliases_rec(0, root, &mut aliases);
    assert(pairs_view(aliases@) =~= aliases_in(*root, 0));
    aliases
}

fn collect_let_bindings_rec<'a>(depth: usize, node: &'a SyntaxNode, bindings: &mut Vec<(String, &'a SyntaxNode)>)
    ensures
        bindings_view(final(bindings)@) == bindings_view(old(bindings)@) + bindings_in(*node, depth as nat),
    decreases MAX_TRAVERSAL_DEPTH - depth,
{
    if depth >= MAX_TRAVERSAL_DEPTH {
        assert(bindings_view(bindings@) =~= bindings_view(bindings@) + bindings_in(*node, depth as nat));
        return;
    }
    let ghost base = bindings_view(bindings@);
    if node.kind == NODE_LET_IN {
        push_entry_bindings(node, bindings);
    }
    let ghost mid = bindings_view(bindings@);
    let es = &node.children;
    for j in 0..es.len()
        invariant
            es@ == node.children@,
            depth < MAX_TRAVERSAL_DEPTH,
            bindings_view(bindings@) == mid + bindings_in_elems(es@.take(j as int), depth as nat),
    {
        assert(es@.take(j + 1).drop_last() =~= es@.take(j as int));
        if let SyntaxElement::Node(c) = &es[j] {
            collect_let_bindings_rec(depth + 1, c, bindings);
        }
        assert(bindings_view(bindings@) =~= mid + bindings_in_elems(es@.take(j + 1), depth as nat));
    }
    assert(es@.take(es@.len() as int) =~= es@);
    assert(bindings_view(bindings@) =~= base + bindings_in(*node, depth as nat));
}

/// Collects the local `let <name> = <value>;` bindings anywhere in a file,
/// in preorder, each with its whole value expression; looking a name up
/// takes the last binding collected for it.
pub fn collect_let_bindings<'a>(root: &'a SyntaxNode) -> (r: Vec<(String, &'a SyntaxNode)>)
    ensures
        bindings_view(r@) == bindings_in(*root, 0),
{
    let mut bindings: Vec<(String, &'a SyntaxNode)> = Vec::new();
    collect_let_bindings_rec(0, root, &mut bindings);
    assert(bindings_view(bindings@) =~= bindings_in(*root, 0));
    bindings
}

} // verus!
