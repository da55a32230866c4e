//! Formats Nix type expressions (as used in `mkOption { type = ...; }`)
//! into human-readable strings, the way nixpkgs' `optionType.description`
//! composes them for the manual, without evaluating anything.
//!
//! Type combinators (`nullOr`, `listOf`, `attrsOf`, ...) are almost always
//! written directly as syntax rather than computed, so this is a purely
//! syntactic, best-effort formatter: anything it does not recognise falls
//! back to the original (dedented) source text rather than guessing.

use vstd::prelude::*;

use crate::nix_call::{
    bindings_view, derefs, find_attr, find_attr_spec, ident_name, ident_name_exec, ident_token_text,
    lookup_binding, lookup_binding_exec, pairs_view, resolve_call, resolve_call_spec,
};
use crate::syntax::{
    node_text, node_text_exec, nth_child, nth_child_exec, NodeFilter, SyntaxElement,
    SyntaxNode, NODE_APPLY, NODE_ATTR_SET, NODE_IDENT, NODE_LAMBDA, NODE_LIST, NODE_PAREN,
    NODE_SELECT, NODE_WITH,
};
use crate::text::{chars_eq, chars_of, push_all, push_str, string_of, trim, trim_exec};
use crate::utils::{custom_dedent_chars, custom_dedent_spec};

verus! {

broadcast use vstd::string::group_string_axioms;

/// How deep any walk over a syntax tree goes before it stops: a backstop
/// so that no tree walk in this crate is unbounded.
pub const MAX_TRAVERSAL_DEPTH: usize = 1024;

/// How many submodule bodies may be nested inside one another on a single
/// path before expansion stops.
pub const MAX_SUBMODULE_DEPTH: usize = 32;

/// How many options one file may emit before submodule expansion stops.
pub const MAX_SUBMODULE_EXPANSION_OPTIONS: usize = 10000;

/// How many bytes of submodule bodies one file may re-walk before
/// submodule expansion stops.
pub const MAX_SUBMODULE_EXPANSION_BYTES: usize = 33554432;

// ---------------------------------------------------------------------
// Formatting type expressions
// ---------------------------------------------------------------------

/// The human-readable description nixpkgs uses for a bare type identifier
/// (`str`, `bool`, the last segment of `types.package`); other identifiers
/// stand for themselves.
pub open spec fn format_ident_spec(name: Seq<char>) -> Seq<char> {
    if name == "bool"@ {
        "boolean"@
    } else if name == "str"@ || name == "string"@ {
        "string"@
    } else if name == "nonEmptyStr"@ {
        "non-empty string"@
    } else if name == "int"@ {
        "signed integer"@
    } else if name == "float"@ {
        "floating point number"@
    } else if name == "number"@ {
        "number"@
    } else if name == "path"@ {
        "path"@
    } else if name == "package"@ {
        "package"@
    } else if name == "attrs"@ {
        "attribute set"@
    } else if name == "lines"@ {
        "strings concatenated with \"\\n\""@
    } else if name == "anything"@ || name == "any"@ || name == "unspecified"@ {
        "anything"@
    } else if name == "raw"@ {
        "raw value"@
    } else {
        name
    }
}

fn is(name: &[char], lit: &str) -> (r: bool)
    ensures
        r == (name@ == lit@),
{
    let l = chars_of(lit);
    chars_eq(name, l.as_slice())
}

/// Maps a bare type identifier to its human-readable description.
pub fn format_ident(name: &str) -> (r: String)
    ensures
        r@ == format_ident_spec(name@),
{
    let n = chars_of(name);
    let v = format_ident_chars(n.as_slice());
    string_of(v.as_slice())
}

fn format_ident_chars(name: &[char]) -> (r: Vec<char>)
    ensures
        r@ == format_ident_spec(name@),
{
    if is(name, "bool") {
        chars_of("boolean")
    } else if is(name, "str") || is(name, "string") {
        chars_of("string")
    } else if is(name, "nonEmptyStr") {
        chars_of("non-empty string")
    } else if is(name, "int") {
        chars_of("signed integer")
    } else if is(name, "float") {
        chars_of("floating point number")
    } else if is(name, "number") {
        chars_of("number")
    } else if is(name, "path") {
        chars_of("path")
    } else if is(name, "package") {
        chars_of("package")
    } else if is(name, "attrs") {
        chars_of("attribute set")
    } else if is(name, "lines") {
        chars_of("strings concatenated with \"\\n\"")
    } else if is(name, "anything") || is(name, "any") || is(name, "unspecified") {
        chars_of("anything")
    } else if is(name, "raw") {
        chars_of("raw value")
    } else {
        crate::text::slice_to_vec(name, 0, name.len())
    }
}

/// The last segment of an attribute selection when it is a plain
/// identifier (`types.str` -> `str`).
pub open spec fn select_last_segment(n: SyntaxNode) -> Option<Seq<char>> {
    match nth_child(n, NodeFilter::Kind(crate::syntax::NODE_ATTRPATH), 0) {
        Some(path) => match crate::syntax::last_matching(path.children@, NodeFilter::Attr) {
            Some(a) => if a.kind == NODE_IDENT {
                ident_token_text(a)
            } else {
                None
            },
            None => None,
        },
        None => None,
    }
}

/// A node's own source text, trimmed and dedented: what a type is shown
/// as when it is not recognised.
pub open spec fn fallback_text(n: SyntaxNode) -> Seq<char> {
    custom_dedent_spec(trim(node_text(n)))
}

/// `parts` joined with `sep` between each two.
pub open spec fn join_with(parts: Seq<Seq<char>>, sep: Seq<char>) -> Seq<char>
    decreases parts.len(),
{
    if parts.len() == 0 {
        seq![]
    } else if parts.len() == 1 {
        parts[0]
    } else {
        join_with(parts.drop_last(), sep) + sep + parts.last()
    }
}

/// The description of a type expression, looking at most `fuel` levels
/// into nested type expressions; `None` when it is not recognised.
pub open spec fn format_node(n: SyntaxNode, al: Seq<(Seq<char>, Seq<char>)>, fuel: nat) -> Option<
    Seq<char>,
>
    decreases fuel, 3nat, 0nat,
{
    if fuel == 0 {
        None
    } else if n.kind == NODE_WITH {
        match nth_child(n, NodeFilter::Expr, 1) {
            Some(b) => format_node(b, al, (fuel - 1) as nat),
            None => None,
        }
    } else if n.kind == NODE_PAREN {
        match nth_child(n, NodeFilter::Expr, 0) {
            Some(e) => format_node(e, al, (fuel - 1) as nat),
            None => None,
        }
    } else if n.kind == NODE_APPLY {
        match resolve_call_spec(n, al) {
            Some((name, args)) => call_description(name, args, al, fuel),
            None => None,
        }
    } else if n.kind == NODE_IDENT {
        match ident_token_text(n) {
            Some(t) => Some(format_ident_spec(t)),
            None => None,
        }
    } else if n.kind == NODE_SELECT {
        match select_last_segment(n) {
            Some(t) => Some(format_ident_spec(t)),
            None => None,
        }
    } else {
        None
    }
}

/// The names of the number types are described as nixpkgs describes them:
/// `float` as a floating point number and `int` as a signed integer, and
/// no other identifier (nor any name that is not itself the text "signed
/// integer") is described as a signed integer.
pub proof fn number_type_descriptions(name: Seq<char>)
    ensures
        format_ident_spec("float"@) == "floating point number"@,
        format_ident_spec("int"@) == "signed integer"@,
        format_ident_spec(name) == "signed integer"@ ==> name == "int"@ || name == "signed integer"@,
{
    reveal_strlit("bool");
    reveal_strlit("boolean");
    reveal_strlit("str");
    reveal_strlit("string");
    reveal_strlit("nonEmptyStr");
    reveal_strlit("non-empty string");
    reveal_strlit("int");
    reveal_strlit("signed integer");
    reveal_strlit("float");
    reveal_strlit("floating point number");
    reveal_strlit("number");
    reveal_strlit("path");
    reveal_strlit("package");
    reveal_strlit("attrs");
    reveal_strlit("attribute set");
    reveal_strlit("anything");
    reveal_strlit("any");
    reveal_strlit("unspecified");
    reveal_strlit("raw");
    reveal_strlit("raw value");
    reveal_strlit("strings concatenated with \"\\n\"");
    reveal_strlit("lines");
    assert("float"@.len() == 5 && "int"@.len() == 3);
    assert("bool"@.len() == 4 && "str"@.len() == 3 && "string"@.len() == 6);
    assert("nonEmptyStr"@.len() == 11);
    assert("str"@[0] == 's' && "int"@[0] == 'i');
    assert("float"@ != "bool"@ && "float"@ != "str"@ && "float"@ != "string"@);
    assert("float"@ != "nonEmptyStr"@ && "float"@ != "int"@);
    assert("int"@ != "bool"@ && "int"@ != "string"@ && "int"@ != "nonEmptyStr"@);
    assert("int"@ != "str"@);
}

/// Each type name nixpkgs describes is described as nixpkgs does, and a
/// name it does not know is shown as it is.
pub proof fn known_type_descriptions(name: Seq<char>)
    ensures
        format_ident_spec("bool"@) == "boolean"@,
        format_ident_spec("str"@) == "string"@,
        format_ident_spec("string"@) == "string"@,
        format_ident_spec("nonEmptyStr"@) == "non-empty string"@,
        format_ident_spec("int"@) == "signed integer"@,
        format_ident_spec("float"@) == "floating point number"@,
        format_ident_spec("number"@) == "number"@,
        format_ident_spec("path"@) == "path"@,
        format_ident_spec("package"@) == "package"@,
        format_ident_spec("attrs"@) == "attribute set"@,
        format_ident_spec("anything"@) == "anything"@,
        format_ident_spec("any"@) == "anything"@,
        format_ident_spec("unspecified"@) == "anything"@,
        format_ident_spec("raw"@) == "raw value"@,
        format_ident_spec("lines"@) == "strings concatenated with \"\\n\""@,
        !(name == "bool"@ || name == "str"@ || name == "string"@ || name == "nonEmptyStr"@ || name == "int"@ || name == "float"@ || name == "number"@ || name == "path"@ || name == "package"@ || name == "attrs"@ || name == "anything"@ || name == "any"@ || name == "unspecified"@ || name == "raw"@ || name == "lines"@) ==> format_ident_spec(name) == name,
{
    reveal_strlit("any");
    reveal_strlit("anything");
    reveal_strlit("attribute set");
    reveal_strlit("attrs");
    reveal_strlit("bool");
    reveal_strlit("boolean");
    reveal_strlit("float");
    reveal_strlit("floating point number");
    reveal_strlit("int");
    reveal_strlit("lines");
    reveal_strlit("non-empty string");
    reveal_strlit("nonEmptyStr");
    reveal_strlit("number");
    reveal_strlit("package");
    reveal_strlit("path");
    reveal_strlit("raw");
    reveal_strlit("raw value");
    reveal_strlit("signed integer");
    reveal_strlit("str");
    reveal_strlit("string");
    reveal_strlit("unspecified");
    reveal_strlit("strings concatenated with \"\\n\"");
    assert("str"@.len() != "bool"@.len());
    assert("string"@.len() != "bool"@.len());
    assert("string"@.len() != "str"@.len());
    assert("nonEmptyStr"@.len() != "bool"@.len());
    assert("nonEmptyStr"@.len() != "str"@.len());
    assert("nonEmptyStr"@.len() != "string"@.len());
    assert("int"@.len() != "bool"@.len());
    assert("int"@[0] != "str"@[0]);
    assert("int"@.len() != "string"@.len());
    assert("int"@.len() != "nonEmptyStr"@.len());
    assert("float"@.len() != "bool"@.len());
    assert("float"@.len() != "str"@.len());
    assert("float"@.len() != "string"@.len());
    assert("float"@.len() != "nonEmptyStr"@.len());
    assert("float"@.len() != "int"@.len());
    assert("number"@.len() != "bool"@.len());
    assert("number"@.len() != "str"@.len());
    assert("number"@[0] != "string"@[0]);
    assert("number"@.len() != "nonEmptyStr"@.len());
    assert("number"@.len() != "int"@.len());
    assert("number"@.len() != "float"@.len());
    assert("path"@[0] != "bool"@[0]);
    assert("path"@.len() != "str"@.len());
    assert("path"@.len() != "string"@.len());
    assert("path"@.len() != "nonEmptyStr"@.len());
    assert("path"@.len() != "int"@.len());
    assert("path"@.len() != "float"@.len());
    assert("path"@.len() != "number"@.len());
    assert("package"@.len() != "bool"@.len());
    assert("package"@.len() != "str"@.len());
    assert("package"@.len() != "string"@.len());
    assert("package"@.len() != "nonEmptyStr"@.len());
    assert("package"@.len() != "int"@.len());
    assert("package"@.len() != "float"@.len());
    assert("package"@.len() != "number"@.len());
    assert("package"@.len() != "path"@.len());
    assert("attrs"@.len() != "bool"@.len());
    assert("attrs"@.len() != "str"@.len());
    assert("attrs"@.len() != "string"@.len());
    assert("attrs"@.len() != "nonEmptyStr"@.len());
    assert("attrs"@.len() != "int"@.len());
    assert("attrs"@[0] != "float"@[0]);
    assert("attrs"@.len() != "number"@.len());
    assert("attrs"@.len() != "path"@.len());
    assert("attrs"@.len() != "package"@.len());
    assert("anything"@.len() != "bool"@.len());
    assert("anything"@.len() != "str"@.len());
    assert("anything"@.len() != "string"@.len());
    assert("anything"@.len() != "nonEmptyStr"@.len());
    assert("anything"@.len() != "int"@.len());
    assert("anything"@.len() != "float"@.len());
    assert("anything"@.len() != "number"@.len());
    assert("anything"@.len() != "path"@.len());
    assert("anything"@.len() != "package"@.len());
    assert("anything"@.len() != "attrs"@.len());
    assert("any"@.len() != "bool"@.len());
    assert("any"@[0] != "str"@[0]);
    assert("any"@.len() != "string"@.len());
    assert("any"@.len() != "nonEmptyStr"@.len());
    assert("any"@[0] != "int"@[0]);
    assert("any"@.len() != "float"@.len());
    assert("any"@.len() != "number"@.len());
    assert("any"@.len() != "path"@.len());
    assert("any"@.len() != "package"@.len());
    assert("any"@.len() != "attrs"@.len());
    assert("any"@.len() != "anything"@.len());
    assert("unspecified"@.len() != "bool"@.len());
    assert("unspecified"@.len() != "str"@.len());
    assert("unspecified"@.len() != "string"@.len());
    assert("unspecified"@[0] != "nonEmptyStr"@[0]);
    assert("unspecified"@.len() != "int"@.len());
    assert("unspecified"@.len() != "float"@.len());
    assert("unspecified"@.len() != "number"@.len());
    assert("unspecified"@.len() != "path"@.len());
    assert("unspecified"@.len() != "package"@.len());
    assert("unspecified"@.len() != "attrs"@.len());
    assert("unspecified"@.len() != "anything"@.len());
    assert("unspecified"@.len() != "any"@.len());
    assert("raw"@.len() != "bool"@.len());
    assert("raw"@[0] != "str"@[0]);
    assert("raw"@.len() != "string"@.len());
    assert("raw"@.len() != "nonEmptyStr"@.len());
    assert("raw"@[0] != "int"@[0]);
    assert("raw"@.len() != "float"@.len());
    assert("raw"@.len() != "number"@.len());
    assert("raw"@.len() != "path"@.len());
    assert("raw"@.len() != "package"@.len());
    assert("raw"@.len() != "attrs"@.len());
    assert("raw"@.len() != "anything"@.len());
    assert("raw"@[0] != "any"@[0]);
    assert("raw"@.len() != "unspecified"@.len());
    assert("lines"@.len() != "bool"@.len());
    assert("lines"@.len() != "str"@.len());
    assert("lines"@.len() != "string"@.len());
    assert("lines"@.len() != "nonEmptyStr"@.len());
    assert("lines"@.len() != "int"@.len());
    assert("lines"@[0] != "float"@[0]);
    assert("lines"@.len() != "number"@.len());
    assert("lines"@.len() != "path"@.len());
    assert("lines"@.len() != "package"@.len());
    assert("lines"@[0] != "attrs"@[0]);
    assert("lines"@.len() != "anything"@.len());
    assert("lines"@.len() != "any"@.len());
    assert("lines"@.len() != "unspecified"@.len());
    assert("lines"@.len() != "raw"@.len());
}

/// A type written as the identifier `float`, or as any selection whose last
/// segment is `float` (`types.float`, `lib.types.float`), is described as a
/// floating point number; one described as a signed integer is `int` (or
/// the name that reads "signed integer" itself).
pub proof fn float_type_is_floating_point(n: SyntaxNode, al: Seq<(Seq<char>, Seq<char>)>)
    ensures
        (n.kind == NODE_IDENT && ident_token_text(n) == Some("float"@)) ==> format_type_spec(n, al)
            == "floating point number"@,
        (n.kind == NODE_SELECT && select_last_segment(n) == Some("float"@)) ==> format_type_spec(n, al)
            == "floating point number"@,
        n.kind == NODE_SELECT ==> (select_last_segment(n) matches Some(t) ==> (format_type_spec(n, al)
            == "signed integer"@ ==> (t == "int"@ || t == "signed integer"@))),
{
    number_type_descriptions(seq![]);
    if n.kind == NODE_SELECT {
        if let Some(t) = select_last_segment(n) {
            number_type_descriptions(t);
        }
    }
    assert(NODE_IDENT != NODE_WITH && NODE_IDENT != NODE_PAREN && NODE_IDENT != NODE_APPLY);
    assert(NODE_SELECT != NODE_WITH && NODE_SELECT != NODE_PAREN && NODE_SELECT != NODE_APPLY
        && NODE_SELECT != NODE_IDENT);
}

/// The description of a nested type expression, or its own text when it
/// is not recognised.
pub open spec fn type_or_fallback(n: SyntaxNode, al: Seq<(Seq<char>, Seq<char>)>, fuel: nat) -> Seq<char>
    decreases fuel, 4nat, 0nat,
{
    match format_node(n, al, fuel) {
        Some(t) => t,
        None => fallback_text(n),
    }
}

/// The descriptions of the items of a list, each a nested type.
pub open spec fn items_descriptions(items: Seq<SyntaxNode>, al: Seq<(Seq<char>, Seq<char>)>, fuel: nat) -> Seq<
    Seq<char>,
>
    decreases fuel, 0nat, items.len(),
{
    if fuel == 0 || items.len() == 0 {
        seq![]
    } else {
        items_descriptions(items.drop_last(), al, fuel).push(
            type_or_fallback(items.last(), al, (fuel - 1) as nat),
        )
    }
}

/// The expression nodes among `es` (`rnix::ast::List::items` of a list
/// node's children), in order.
pub open spec fn expr_nodes(es: Seq<SyntaxElement>) -> Seq<SyntaxNode>
    decreases es.len(),
{
    if es.len() == 0 {
        seq![]
    } else {
        let rest = expr_nodes(es.drop_last());
        match es.last() {
            SyntaxElement::Node(c) => if crate::syntax::is_expr_kind(c.kind) {
                rest.push(c)
            } else {
                rest
            },
            SyntaxElement::Token(_) => rest,
        }
    }
}

/// The expression items of a list node.
pub open spec fn list_items(n: SyntaxNode) -> Seq<SyntaxNode> {
    expr_nodes(n.children@)
}

/// The description of a list of types (`oneOf`, `enum`): its items joined
/// with `sep` after `prefix`; `None` for a non-list or an empty list.
pub open spec fn list_description(n: SyntaxNode, al: Seq<(Seq<char>, Seq<char>)>, sep: Seq<char>, prefix: Seq<char>, fuel: nat) -> Option<
    Seq<char>,
>
    decreases fuel, 1nat, 0nat,
{
    if n.kind != NODE_LIST || list_items(n).len() == 0 || fuel == 0 {
        None
    } else {
        Some(prefix + join_with(items_descriptions(list_items(n), al, fuel), sep))
    }
}

/// The description of a call of a type combinator named `name`.
pub open spec fn call_description(name: Seq<char>, args: Seq<SyntaxNode>, al: Seq<(Seq<char>, Seq<char>)>, fuel: nat) -> Option<
    Seq<char>,
>
    decreases fuel, 2nat, 0nat,
{
    if fuel == 0 || args.len() == 0 {
        None
    } else {
        let a0 = type_or_fallback(args[0], al, (fuel - 1) as nat);
        if name == "nullOr"@ {
            Some("null or "@ + a0)
        } else if name == "listOf"@ {
            Some("list of "@ + a0)
        } else if name == "nonEmptyListOf"@ {
            Some("non-empty list of "@ + a0)
        } else if name == "attrsOf"@ {
            Some("attribute set of "@ + a0)
        } else if name == "lazyAttrsOf"@ {
            Some("lazy attribute set of "@ + a0)
        } else if name == "uniq"@ || name == "coercedTo"@ || name == "addCheck"@ {
            Some(a0)
        } else if name == "functionTo"@ {
            Some("function that evaluates to "@ + a0)
        } else if name == "either"@ {
            if args.len() > 1 {
                Some(a0 + " or "@ + type_or_fallback(args[1], al, (fuel - 1) as nat))
            } else {
                None
            }
        } else if name == "oneOf"@ {
            list_description(args[0], al, " or "@, seq![], fuel)
        } else if name == "enum"@ {
            list_description(args[0], al, ", "@, "one of "@, fuel)
        } else if name == "submodule"@ || name == "submoduleWith"@ {
            Some("submodule"@)
        } else {
            None
        }
    }
}

/// What `format_type` makes of a type expression: its description, or its
/// own trimmed, dedented text when it is not recognised.
pub open spec fn format_type_spec(n: SyntaxNode, al: Seq<(Seq<char>, Seq<char>)>) -> Seq<char> {
    type_or_fallback(n, al, MAX_TRAVERSAL_DEPTH as nat)
}

fn fallback_text_exec(n: &SyntaxNode) -> (r: Vec<char>)
    ensures
        r@ == fallback_text(*n),
{
    let t = node_text_exec(n);
    let tt = trim_exec(t.as_slice());
    custom_dedent_chars(tt.as_slice())
}

fn select_last_segment_exec(n: &SyntaxNode) -> (r: Option<Vec<char>>)
    ensures
        match select_last_segment(*n) {
            Some(t) => r matches Some(x) && x@ == t,
            None => r is None,
        },
{
    match nth_child_exec(n, NodeFilter::Kind(crate::syntax::NODE_ATTRPATH), 0) {
        Some(path) => match crate::syntax::last_child_exec(path, NodeFilter::Attr) {
            Some(a) => if a.kind == NODE_IDENT {
                ident_token_text_exec(a)
            } else {
                None
            },
            None => None,
        },
        None => None,
    }
}

fn ident_token_text_exec(n: &SyntaxNode) -> (r: Option<Vec<char>>)
    ensures
        match ident_token_text(*n) {
            Some(t) => r matches Some(x) && x@ == t,
            None => r is None,
        },
{
    match crate::syntax::token_of_kind_exec(n, crate::syntax::TOKEN_IDENT) {
        Some(t) => Some(chars_of(t.text.as_str())),
        None => None,
    }
}

fn format_node_exec(n: &SyntaxNode, al: &Vec<(String, String)>, fuel: usize) -> (r: Option<Vec<char>>)
    ensures
        match format_node(*n, pairs_view(al@), fuel as nat) {
            Some(t) => r matches Some(x) && x@ == t,
            None => r is None,
        },
    decreases fuel, 3nat, 0nat,
{
    if fuel == 0 {
        None
    } else if n.kind == NODE_WITH {
        match nth_child_exec(n, NodeFilter::Expr, 1) {
            Some(b) => format_node_exec(b, al, fuel - 1),
            None => None,
        }
    } else if n.kind == NODE_PAREN {
        match nth_child_exec(n, NodeFilter::Expr, 0) {
            Some(e) => format_node_exec(e, al, fuel - 1),
            None => None,
        }
    } else if n.kind == NODE_APPLY {
        match resolve_call(n, al) {
            Some((name, args)) => call_description_exec(name.as_slice(), &args, al, fuel),
            None => None,
        }
    } else if n.kind == NODE_IDENT {
        match ident_token_text_exec(n) {
            Some(t) => Some(format_ident_chars(t.as_slice())),
            None => None,
        }
    } else if n.kind == NODE_SELECT {
        match select_last_segment_exec(n) {
            Some(t) => Some(format_ident_chars(t.as_slice())),
            None => None,
        }
    } else {
        None
    }
}

fn type_or_fallback_exec(n: &SyntaxNode, al: &Vec<(String, String)>, fuel: usize) -> (r: Vec<char>)
    ensures
        r@ == type_or_fallback(*n, pairs_view(al@), fuel as nat),
    decreases fuel, 4nat, 0nat,
{
    match format_node_exec(n, al, fuel) {
        Some(t) => t,
        None => fallback_text_exec(n),
    }
}

fn list_description_exec(n: &SyntaxNode, al: &Vec<(String, String)>, sep: &str, prefix: &str, fuel: usize) -> (r: Option<
    Vec<char>,
>)
    ensures
        match list_description(*n, pairs_view(al@), sep@, prefix@, fuel as nat) {
            Some(t) => r matches Some(x) && x@ == t,
            None => r is None,
        },
    decreases fuel, 1nat, 0nat,
{
    if n.kind != NODE_LIST || fuel == 0 {
        return None;
    }
    let ghost alv = pairs_view(al@);
    let es = &n.children;
    let mut out: Vec<char> = Vec::new();
    let mut count: usize = 0;
    for k in 0..es.len()
        invariant
            es@ == n.children@,
            fuel > 0,
            alv == pairs_view(al@),
            count == expr_nodes(es@.take(k as int)).len(),
            count <= k,
            out@ == join_with(items_descriptions(expr_nodes(es@.take(k as int)), alv, fuel as nat), sep@),
    {
        let ghost items = expr_nodes(es@.take(k as int));
        assert(es@.take(k + 1).drop_last() =~= es@.take(k as int));
        if let SyntaxElement::Node(c) = &es[k] {
            if crate::syntax::is_expr_kind_exec(c.kind) {
                let d = type_or_fallback_exec(c, al, fuel - 1);
                let ghost next = items.push(*c);
                assert(next.drop_last() =~= items);
                assert(items_descriptions(next, alv, fuel as nat) == items_descriptions(items, alv, fuel as nat).push(d@));
                if count > 0 {
                    push_str(&mut out, sep);
                }
                push_all(&mut out, d.as_slice());
                assert(items_descriptions(items, alv, fuel as nat).len() == items.len()) by {
                    lemma_items_descriptions_len(items, alv, fuel as nat);
                }
                let ghost parts = items_descriptions(next, alv, fuel as nat);
                assert(parts.drop_last() =~= items_descriptions(items, alv, fuel as nat));
                count = count + 1;
            }
        }
    }
    assert(es@.take(es@.len() as int) =~= es@);
    if count == 0 {
        return None;
    }
    let mut r = chars_of(prefix);
    push_all(&mut r, out.as_slice());
    Some(r)
}

proof fn lemma_items_descriptions_len(items: Seq<SyntaxNode>, al: Seq<(Seq<char>, Seq<char>)>, fuel: nat)
    requires
        fuel > 0,
    ensures
        items_descriptions(items, al, fuel).len() == items.len(),
    decreases items.len(),
{
    if items.len() > 0 {
        lemma_items_descriptions_len(items.drop_last(), al, fuel);
    }
}

fn call_description_exec(name: &[char], args: &Vec<&SyntaxNode>, al: &Vec<(String, String)>, fuel: usize) -> (r: Option<
    Vec<char>,
>)
    ensures
        match call_description(name@, derefs(args@), pairs_view(al@), fuel as nat) {
            Some(t) => r matches Some(x) && x@ == t,
            None => r is None,
        },
    decreases fuel, 2nat, 0nat,
{
    if fuel == 0 || args.len() == 0 {
        return None;
    }
    let a0 = type_or_fallback_exec(args[0], al, fuel - 1);
    if is(name, "nullOr") {
        let mut r = chars_of("null or ");
        push_all(&mut r, a0.as_slice());
        Some(r)
    } else if is(name, "listOf") {
        let mut r = chars_of("list of ");
        push_all(&mut r, a0.as_slice());
        Some(r)
    } else if is(name, "nonEmptyListOf") {
        let mut r = chars_of("non-empty list of ");
        push_all(&mut r, a0.as_slice());
        Some(r)
    } else if is(name, "attrsOf") {
        let mut r = chars_of("attribute set of ");
        push_all(&mut r, a0.as_slice());
        Some(r)
    } else if is(name, "lazyAttrsOf") {
        let mut r = chars_of("lazy attribute set of ");
        push_all(&mut r, a0.as_slice());
        Some(r)
    } else if is(name, "uniq") || is(name, "coercedTo") || is(name, "addCheck") {
        Some(a0)
    } else if is(name, "functionTo") {
        let mut r = chars_of("function that evaluates to ");
        push_all(&mut r, a0.as_slice());
        Some(r)
    } else if is(name, "either") {
        if args.len() > 1 {
            let a1 = type_or_fallback_exec(args[1], al, fuel - 1);
            let mut r = a0;
            push_str(&mut r, " or ");
            push_all(&mut r, a1.as_slice());
            Some(r)
        } else {
            None
        }
    } else if is(name, "oneOf") {
        let r = list_description_exec(args[0], al, " or ", "", fuel);
        proof {
            reveal_strlit("");
        }
        r
    } else if is(name, "enum") {
        list_description_exec(args[0], al, ", ", "one of ", fuel)
    } else if is(name, "submodule") || is(name, "submoduleWith") {
        Some(chars_of("submodule"))
    } else {
        None
    }
}

/// Formats a type expression node into a human-readable description, or
/// its own trimmed, dedented text when it is not recognised.
pub fn format_type(node: &SyntaxNode, aliases: &Vec<(String, String)>) -> (r: String)
    ensures
        r@ == format_type_spec(*node, pairs_view(aliases@)),
{
    let v = type_or_fallback_exec(node, aliases, MAX_TRAVERSAL_DEPTH);
    string_of(v.as_slice())
}

// ---------------------------------------------------------------------
// Submodules
// ---------------------------------------------------------------------

/// `n` with at most `fuel` enclosing parentheses removed.
pub open spec fn unwrap_paren_spec(n: SyntaxNode, fuel: nat) -> SyntaxNode
    decreases fuel,
{
    if fuel > 0 && n.kind == NODE_PAREN {
        match nth_child(n, NodeFilter::Expr, 0) {
            Some(e) => unwrap_paren_spec(e, (fuel - 1) as nat),
            None => n,
        }
    } else {
        n
    }
}

/// `n` with its enclosing parentheses removed (up to `MAX_TRAVERSAL_DEPTH`
/// of them), e.g. the `(types.submodule { ... })` in
/// `attrsOf (types.submodule { ... })`.
pub open spec fn unwrap_paren_all(n: SyntaxNode) -> SyntaxNode {
    unwrap_paren_spec(n, MAX_TRAVERSAL_DEPTH as nat)
}

/// Removes the enclosing parentheses of a node.
pub fn unwrap_paren<'a>(n: &'a SyntaxNode) -> (r: &'a SyntaxNode)
    ensures
        *r == unwrap_paren_all(*n),
{
    let mut cur = n;
    let mut fuel: usize = MAX_TRAVERSAL_DEPTH;
    while fuel > 0 && cur.kind == NODE_PAREN
        invariant
            unwrap_paren_spec(*n, MAX_TRAVERSAL_DEPTH as nat) == unwrap_paren_spec(*cur, fuel as nat),
        decreases fuel,
    {
        match nth_child_exec(cur, NodeFilter::Expr, 0) {
            Some(e) => {
                cur = e;
                fuel = fuel - 1;
            },
            None => {
                return cur;
            },
        }
    }
    cur
}

/// Whether a type combinator named `name` wraps a submodule in a
/// container whose nested options get a `<name>` placeholder segment.
pub open spec fn is_container_combinator(name: Seq<char>) -> bool {
    name == "attrsOf"@ || name == "listOf"@ || name == "nonEmptyListOf"@ || name
        == "lazyAttrsOf"@
}

/// Whether a type combinator named `name` is looked through when looking
/// for a submodule.
pub open spec fn is_wrapping_combinator(name: Seq<char>) -> bool {
    is_container_combinator(name) || name == "nullOr"@ || name == "uniq"@
}

/// The submodule body a type expression resolves to (`submodule ...`,
/// possibly under `attrsOf`, `listOf`, `nonEmptyListOf`, `lazyAttrsOf`,
/// `nullOr` or `uniq`, possibly through `let`-bound names), and whether its
/// outermost wrapper is a container; at most `fuel` steps are taken, so a
/// cyclic chain of names resolves to nothing.
pub open spec fn submodule_body(n: SyntaxNode, al: Seq<(Seq<char>, Seq<char>)>, lets: Seq<(Seq<char>, SyntaxNode)>, fuel: nat) -> Option<
    (SyntaxNode, bool),
>
    decreases fuel,
{
    let m = unwrap_paren_all(n);
    if fuel == 0 {
        None
    } else if m.kind == NODE_IDENT {
        match ident_token_text(m) {
            Some(name) => match lookup_binding(lets, name) {
                Some(b) => submodule_body(b, al, lets, (fuel - 1) as nat),
                None => None,
            },
            None => None,
        }
    } else {
        match resolve_call_spec(m, al) {
            Some((name, args)) => if args.len() == 0 {
                None
            } else if name == "submodule"@ || name == "submoduleWith"@ {
                Some((unwrap_paren_all(args[0]), false))
            } else if is_wrapping_combinator(name) {
                match submodule_body(args[0], al, lets, (fuel - 1) as nat) {
                    Some((b, _)) => Some((b, is_container_combinator(name))),
                    None => None,
                }
            } else {
                None
            },
            None => None,
        }
    }
}

/// The submodule body of a type expression (see `submodule_body`), looking
/// through at most `MAX_TRAVERSAL_DEPTH` wrappers and names.
pub open spec fn find_submodule_body_spec(n: SyntaxNode, al: Seq<(Seq<char>, Seq<char>)>, lets: Seq<(Seq<char>, SyntaxNode)>) -> Option<
    (SyntaxNode, bool),
> {
    submodule_body(n, al, lets, MAX_TRAVERSAL_DEPTH as nat)
}

fn submodule_body_exec<'a>(n: &'a SyntaxNode, al: &Vec<(String, String)>, lets: &Vec<(String, &'a SyntaxNode)>, fuel: usize) -> (r: Option<(&'a SyntaxNode, bool)>)
    ensures
        match submodule_body(*n, pairs_view(al@), bindings_view(lets@), fuel as nat) {
            Some((b, c)) => r matches Some((x, y)) && *x == b && y == c,
            None => r is None,
        },
    decreases fuel,
{
    let m = unwrap_paren(n);
    if fuel == 0 {
        return None;
    }
    if m.kind == NODE_IDENT {
        match ident_token_text_exec(m) {
            Some(name) => match lookup_binding_exec(lets, name.as_slice()) {
                Some(b) => submodule_body_exec(b, al, lets, fuel - 1),
                None => None,
            },
            None => None,
        }
    } else {
        match resolve_call(m, al) {
            Some((name, args)) => {
                if args.len() == 0 {
                    None
                } else if is(name.as_slice(), "submodule") || is(name.as_slice(), "submoduleWith") {
                    Some((unwrap_paren(args[0]), false))
                } else {
                    let container = is(name.as_slice(), "attrsOf") || is(name.as_slice(), "listOf")
                        || is(name.as_slice(), "nonEmptyListOf") || is(name.as_slice(), "lazyAttrsOf");
                    if container || is(name.as_slice(), "nullOr") || is(name.as_slice(), "uniq") {
                        match submodule_body_exec(args[0], al, lets, fuel - 1) {
                            Some((b, _)) => Some((b, container)),
                            None => None,
                        }
                    } else {
                        None
                    }
                }
            },
            None => None,
        }
    }
}

/// Detects whether a type expression resolves to a submodule (directly,
/// wrapped in `attrsOf`/`listOf`/... , or through a `let`-bound name),
/// returning the submodule's body expression and whether its wrapper is a
/// container whose nested options get a `<name>` placeholder segment.
pub fn find_submodule_body<'a>(node: &'a SyntaxNode, aliases: &Vec<(String, String)>, let_bindings: &Vec<(String, &'a SyntaxNode)>) -> (r: Option<(&'a SyntaxNode, bool)>)
    ensures
        match find_submodule_body_spec(*node, pairs_view(aliases@), bindings_view(let_bindings@)) {
            Some((b, c)) => r matches Some((x, y)) && *x == b && y == c,
            None => r is None,
        },
{
    submodule_body_exec(node, aliases, let_bindings, MAX_TRAVERSAL_DEPTH)
}

/// The attrset a submodule body stands for: the body itself, or the body
/// of a module function (`{ config, ... }: { ... }`).
pub open spec fn submodule_attrset(body: SyntaxNode) -> Option<SyntaxNode> {
    if body.kind == NODE_ATTR_SET {
        Some(body)
    } else if body.kind == NODE_LAMBDA {
        match nth_child(body, NodeFilter::Expr, 0) {
            Some(b) => if b.kind == NODE_ATTR_SET {
                Some(b)
            } else {
                None
            },
            None => None,
        }
    } else {
        None
    }
}

fn submodule_attrset_exec<'a>(body: &'a SyntaxNode) -> (r: Option<&'a SyntaxNode>)
    ensures
        match submodule_attrset(*body) {
            Some(s) => r matches Some(x) && *x == s,
            None => r is None,
        },
{
    if body.kind == NODE_ATTR_SET {
        Some(body)
    } else if body.kind == NODE_LAMBDA {
        match nth_child_exec(body, NodeFilter::Expr, 0) {
            Some(b) => if b.kind == NODE_ATTR_SET {
                Some(b)
            } else {
                None
            },
            None => None,
        }
    } else {
        None
    }
}

/// The `options = { ... };` attrset of a submodule body.
pub open spec fn submodule_options_attrset_spec(body: SyntaxNode) -> Option<SyntaxNode> {
    match submodule_attrset(body) {
        Some(s) => find_attr_spec(s, "options"@),
        None => None,
    }
}

/// The `freeformType = ...;` of a submodule body.
pub open spec fn find_freeform_type_spec(body: SyntaxNode) -> Option<SyntaxNode> {
    match submodule_attrset(body) {
        Some(s) => find_attr_spec(s, "freeformType"@),
        None => None,
    }
}

/// Resolves a submodule body (an inline attrset, or a module function
/// whose body is an attrset) to its `options = { ... };` attrset.
pub fn submodule_options_attrset<'a>(body: &'a SyntaxNode) -> (r: Option<&'a SyntaxNode>)
    ensures
        match submodule_options_attrset_spec(*body) {
            Some(s) => r matches Some(x) && *x == s,
            None => r is None,
        },
{
    match submodule_attrset_exec(body) {
        Some(s) => find_attr(s, "options"),
        None => None,
    }
}

/// Resolves a submodule body to its `freeformType = ...;` type expression.
pub fn find_freeform_type<'a>(body: &'a SyntaxNode) -> (r: Option<&'a SyntaxNode>)
    ensures
        match find_freeform_type_spec(*body) {
            Some(s) => r matches Some(x) && *x == s,
            None => r is None,
        },
{
    match submodule_attrset_exec(body) {
        Some(s) => find_attr(s, "freeformType"),
        None => None,
    }
}

} // verus!
