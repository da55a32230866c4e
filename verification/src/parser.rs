//! Walks the syntax tree of a Nix file to find module option declarations
//! (`mkOption`, `mkEnableOption`, `mkPackageOption`, nested attrsets,
//! `mkIf`/`mkMerge`, statically-analysable submodules) and rename or
//! removal shims, and turns them into `OptionDoc` entries.

use rowan::ast::AstNode;
use vstd::prelude::*;

use crate::markup::{apply_replacements_chars, apply_replacements_spec};
use crate::nix_call::{
    bindings_view, derefs, find_attr, find_attr_spec, pairs_view, resolve_call, resolve_call_spec,
};
use crate::syntax::{
    node_text, node_text_exec, nth_child, nth_child_exec, NodeFilter, SyntaxElement, SyntaxNode,
    NODE_INTERPOL, NODE_LIST, NODE_STRING, TOKEN_STRING_CONTENT, TOKEN_STRING_END,
    TOKEN_STRING_START,
};
use crate::text::{all_ws, chars_of, push_all, push_str, string_of, trim, trim_exec};
use crate::types::{
    expr_nodes, fallback_text, join_with, list_items, MAX_SUBMODULE_EXPANSION_BYTES,
    MAX_SUBMODULE_EXPANSION_OPTIONS, MAX_TRAVERSAL_DEPTH,
};
use crate::utils::{
    clean_description_chars, clean_description_spec, clean_literal_expr_chars,
    clean_literal_expr_spec, custom_dedent_chars, custom_dedent_spec,
};
use crate::{opt_view, Declaration, DeclarationView, OptionDoc, OptionDocView};

verus! {

broadcast use vstd::string::group_string_axioms;

// ---------------------------------------------------------------------
// The per-file expansion budget
// ---------------------------------------------------------------------

/// Per-file accounting of how much submodule expansion parsing has done so
/// far (the options it has emitted and the body text it has re-walked),
/// used to stop expansion before it fans out combinatorially or re-walks
/// one padded body without bound.
///
/// One value is threaded through the whole traversal of one file, shared
/// by every branch: the hazard is the cumulative total.
pub struct ExpansionBudget {
    pub emitted: usize,
    pub expanded_bytes: usize,
    /// Whether expansion was cut short (and the warning given).
    pub warned: bool,
    /// Whether, when expansion was first cut short, the emitted-option cap
    /// was the one reached (otherwise it was the re-walked-bytes cap).
    pub options_cap_hit: bool,
}

/// The budget after one more option was emitted (saturating).
pub open spec fn recorded_option(b: ExpansionBudget) -> ExpansionBudget {
    ExpansionBudget {
        emitted: if b.emitted < usize::MAX {
            (b.emitted + 1) as usize
        } else {
            b.emitted
        },
        ..b
    }
}

/// The budget after a body of `len` bytes was charged (saturating).
pub open spec fn recorded_expansion(b: ExpansionBudget, len: nat) -> ExpansionBudget {
    ExpansionBudget {
        expanded_bytes: if b.expanded_bytes + len <= usize::MAX {
            (b.expanded_bytes + len) as usize
        } else {
            usize::MAX
        },
        ..b
    }
}

/// Either cap has been reached.
pub open spec fn budget_exhausted(b: ExpansionBudget) -> bool {
    b.emitted >= MAX_SUBMODULE_EXPANSION_OPTIONS || b.expanded_bytes
        >= MAX_SUBMODULE_EXPANSION_BYTES
}

/// Once a file's budget is spent it stays spent: recording another option
/// or another expanded body never makes it available again.
pub proof fn budget_exhaustion_is_permanent(b: ExpansionBudget, len: nat)
    requires
        budget_exhausted(b),
    ensures
        budget_exhausted(recorded_option(b)),
        budget_exhausted(recorded_expansion(b, len)),
        budget_exhausted(warned(b)),
{
}

impl ExpansionBudget {
    /// A fresh budget for one file.
    pub fn new() -> (r: Self)
        ensures
            r.emitted == 0 && r.expanded_bytes == 0 && !r.warned && !r.options_cap_hit,
    {
        ExpansionBudget { emitted: 0, expanded_bytes: 0, warned: false, options_cap_hit: false }
    }

    /// Records that one more option has been emitted for this file.
    pub fn record_option(&mut self)
        ensures
            *final(self) == recorded_option(*old(self)),
    {
        if self.emitted < usize::MAX {
            self.emitted = self.emitted + 1;
        }
    }

    /// Records that a submodule body of `len` source bytes is about to be
    /// re-walked, charging the re-walk to this file's work budget.
    pub fn record_expansion(&mut self, len: usize)
        ensures
            *final(self) == recorded_expansion(*old(self), len as nat),
    {
        self.expanded_bytes = self.expanded_bytes.saturating_add(len);
    }

    /// Whether enough of either budget is spent that further submodule
    /// expansion should stop.
    pub fn is_exhausted(&self) -> (r: bool)
        ensures
            r == budget_exhausted(*self),
    {
        self.options_exhausted() || self.work_exhausted()
    }

    /// Whether the emitted-option cap has been reached.
    pub fn options_exhausted(&self) -> (r: bool)
        ensures
            r == (self.emitted >= MAX_SUBMODULE_EXPANSION_OPTIONS),
    {
        self.emitted >= MAX_SUBMODULE_EXPANSION_OPTIONS
    }

    /// Whether the re-walked-bytes cap has been reached.
    pub fn work_exhausted(&self) -> (r: bool)
        ensures
            r == (self.expanded_bytes >= MAX_SUBMODULE_EXPANSION_BYTES),
    {
        self.expanded_bytes >= MAX_SUBMODULE_EXPANSION_BYTES
    }

    /// The warning that expansion was truncated, naming the budget that
    /// tripped, the first time it is asked for in a file; `None` after.
    pub fn warn_once(&mut self, file_path: &str) -> (r: Option<String>)
        ensures
            *final(self) == warned(*old(self)),
            r is Some <==> !old(self).warned,
            r matches Some(m) ==> m@ == truncation_message(
                file_path@,
                old(self).emitted >= MAX_SUBMODULE_EXPANSION_OPTIONS,
            ),
    {
        if self.warned {
            return None;
        }
        self.warned = true;
        self.options_cap_hit = self.options_exhausted();
        self.truncation_warning(file_path)
    }

    /// The warning this budget calls for once a file is walked: the one
    /// `warn_once` gave, if expansion was cut short; `None` otherwise.
    pub fn truncation_warning(&self, file_path: &str) -> (r: Option<String>)
        ensures
            opt_view(r) == truncation_warning_spec(file_path@, *self),
    {
        if !self.warned {
            return None;
        }
        let mut m = chars_of(file_path);
        if self.options_cap_hit {
            push_str(
                &mut m,
                ": stopped expanding submodule options after 10000 entries; output for this file is truncated",
            );
        } else {
            push_str(
                &mut m,
                ": stopped expanding submodules after re-walking 33554432 bytes of submodule bodies; output for this file is truncated",
            );
        }
        proof {
            reveal_strlit(": stopped expanding submodule options after 10000 entries; output for this file is truncated");
            reveal_strlit(": stopped expanding submodules after re-walking 33554432 bytes of submodule bodies; output for this file is truncated");
        }
        Some(string_of(m.as_slice()))
    }
}

/// The budget after expansion was cut short: the first time, it records
/// which cap had been reached; after that it stays as it is.
pub open spec fn warned(b: ExpansionBudget) -> ExpansionBudget {
    if b.warned {
        b
    } else {
        ExpansionBudget {
            warned: true,
            options_cap_hit: b.emitted >= MAX_SUBMODULE_EXPANSION_OPTIONS,
            ..b
        }
    }
}

/// The text of the truncation warning, by which cap was reached.
pub open spec fn truncation_message(file_path: Seq<char>, options_cap_hit: bool) -> Seq<char> {
    file_path + if options_cap_hit {
        ": stopped expanding submodule options after 10000 entries; output for this file is truncated"@
    } else {
        ": stopped expanding submodules after re-walking 33554432 bytes of submodule bodies; output for this file is truncated"@
    }
}

/// The warning a file's final budget calls for: one when expansion was
/// cut short, none otherwise.
pub open spec fn truncation_warning_spec(file_path: Seq<char>, b: ExpansionBudget) -> Option<Seq<char>> {
    if b.warned {
        Some(truncation_message(file_path, b.options_cap_hit))
    } else {
        None
    }
}

// ---------------------------------------------------------------------
// Line numbers
// ---------------------------------------------------------------------

/// How many line breaks `s` holds.
pub open spec fn count_newlines(s: Seq<char>) -> nat
    decreases s.len(),
{
    if s.len() == 0 {
        0
    } else {
        count_newlines(s.drop_last()) + if s.last() == '\n' {
            1nat
        } else {
            0nat
        }
    }
}

/// The 1-based line on which character offset `start` of `source` lies
/// (an offset past the end counts as the end).
pub open spec fn line_number_spec(source: Seq<char>, start: int) -> usize {
    let c = count_newlines(source.take(if start <= source.len() {
        start
    } else {
        source.len() as int
    }));
    if c < usize::MAX {
        (c + 1) as usize
    } else {
        usize::MAX
    }
}

proof fn count_newlines_grows(s: Seq<char>, a: int, b: int)
    requires
        0 <= a <= b <= s.len(),
    ensures
        count_newlines(s.take(a)) <= count_newlines(s.take(b)),
    decreases b - a,
{
    if a < b {
        count_newlines_grows(s, a, b - 1);
        assert(s.take(b).drop_last() =~= s.take(b - 1));
    }
}

/// Line numbers start at 1 and never decrease along the text.
pub proof fn line_numbers_are_monotone(source: Seq<char>, a: int, b: int)
    requires
        0 <= a <= b,
    ensures
        1 <= line_number_spec(source, a) <= line_number_spec(source, b),
{
    let ca = if a <= source.len() {
        a
    } else {
        source.len() as int
    };
    let cb = if b <= source.len() {
        b
    } else {
        source.len() as int
    };
    count_newlines_grows(source, ca, cb);
}

/// For each character offset of a source text, how many line breaks come
/// before it, so that the line of a node is found without rescanning.
pub struct LineIndex {
    pub breaks_before: Vec<usize>,
    /// The text indexed.
    pub source: Ghost<Seq<char>>,
}

impl LineIndex {
    /// `self` indexes `source`.
    pub open spec fn indexes(&self, source: Seq<char>) -> bool {
        &&& self.breaks_before@.len() == source.len() + 1
        &&& forall|i: int|
            0 <= i <= source.len() ==> self.breaks_before@[i] == count_newlines(
                #[trigger] source.take(i),
            )
    }

    /// `self` indexes the text it records.
    pub open spec fn wf(&self) -> bool {
        self.indexes(self.source@)
    }

    /// Indexes `source`.
    pub fn new(source: &str) -> (r: Self)
        ensures
            r.wf(),
            r.source@ == source@,
    {
        let cs = chars_of(source);
        let mut v: Vec<usize> = Vec::new();
        let mut c: usize = 0;
        v.push(0);
        assert(cs@.take(0) =~= seq![]);
        for i in 0..cs.len()
            invariant
                cs@ == source@,
                v@.len() == i + 1,
                c <= i,
                c == count_newlines(cs@.take(i as int)),
                forall|j: int| 0 <= j <= i ==> v@[j] == count_newlines(#[trigger] cs@.take(j)),
        {
            assert(cs@.take(i + 1).drop_last() =~= cs@.take(i as int));
            if cs[i] == '\n' {
                c = c + 1;
            }
            v.push(c);
        }
        LineIndex { breaks_before: v, source: Ghost(source@) }
    }

    /// The 1-based line on which character offset `start` lies.
    pub fn line_number(&self, start: usize) -> (r: usize)
        requires
            self.wf(),
        ensures
            r == line_number_spec(self.source@, start as int),
    {
        let k = if start < self.breaks_before.len() {
            start
        } else {
            self.breaks_before.len() - 1
        };
        let c = self.breaks_before[k];
        if c < usize::MAX {
            c + 1
        } else {
            c
        }
    }
}

/// The 1-based line on which a node starts.
pub open spec fn node_line(source: Seq<char>, n: SyntaxNode) -> usize {
    line_number_spec(source, n.start as int)
}

// ---------------------------------------------------------------------
// String literals
// ---------------------------------------------------------------------

/// The parts of a Nix string literal whose source text is `text`, with
/// Nix's own string semantics (one delimiter pair removed, escapes
/// interpreted, a `''` string's common indentation stripped): each literal
/// run as its text and each interpolation as its `${...}` source text;
/// `None` when `text` does not parse as one string expression (named, not
/// described: it is `rnix`'s `Str::normalized_parts`).
pub uninterp spec fn nix_string_parts(text: Seq<char>) -> Option<Seq<Seq<char>>>;

/// Parses `text` with `rnix::Root::parse` and, when it parses without
/// error to a string expression, hands out that string's
/// `normalized_parts`, each literal part as its text and each
/// interpolation as its source text.
#[verifier::external_body]
fn string_literal_parts(text: &str) -> (r: Option<Vec<String>>)
    ensures
        match r {
            Some(ps) => nix_string_parts(text@) == Some(ps@.map_values(|p: String| p@)),
            None => nix_string_parts(text@) is None,
        },
{
    let parse = rnix::Root::parse(text);
    if !parse.errors().is_empty() {
        return None;
    }
    match parse.tree().expr() {
        Some(rnix::ast::Expr::Str(s)) => Some(s.normalized_parts().into_iter().map(|p| match p {
            rnix::ast::InterpolPart::Literal(t) => t,
            rnix::ast::InterpolPart::Interpolation(i) => i.syntax().text().to_string(),
        }).collect()),
        _ => None,
    }
}

/// The parts of a string, one after another.
pub open spec fn concat_parts(ps: Seq<Seq<char>>) -> Seq<char>
    decreases ps.len(),
{
    if ps.len() == 0 {
        seq![]
    } else {
        concat_parts(ps.drop_last()) + ps.last()
    }
}

/// The value of a Nix string literal whose source text is `text`: its
/// parts joined; `None` when `text` is not one string expression.
pub open spec fn nix_string_value(text: Seq<char>) -> Option<Seq<char>> {
    match nix_string_parts(text) {
        Some(ps) => Some(concat_parts(ps)),
        None => None,
    }
}

/// The value of the string literal whose source text is `text`.
fn string_literal_value(text: &str) -> (r: Option<String>)
    ensures
        opt_view(r) == nix_string_value(text@),
{
    match string_literal_parts(text) {
        Some(ps) => {
            let ghost views = ps@.map_values(|p: String| p@);
            let mut out: Vec<char> = Vec::new();
            for i in 0..ps.len()
                invariant
                    views == ps@.map_values(|p: String| p@),
                    out@ == concat_parts(views.take(i as int)),
            {
                assert(views.take(i + 1).drop_last() =~= views.take(i as int));
                push_str(&mut out, ps[i].as_str());
            }
            assert(views.take(ps.len() as int) =~= views);
            Some(string_of(out.as_slice()))
        },
        None => None,
    }
}

/// A child a well-formed string node may have.
pub open spec fn is_string_part(e: SyntaxElement) -> bool {
    match e {
        SyntaxElement::Token(t) => t.kind == TOKEN_STRING_START || t.kind == TOKEN_STRING_END
            || t.kind == TOKEN_STRING_CONTENT,
        SyntaxElement::Node(c) => c.kind == NODE_INTERPOL,
    }
}

/// `n` is a string node with nothing but delimiters, content and
/// interpolations below it (no error-recovery nodes).
pub open spec fn is_well_formed_string(n: SyntaxNode) -> bool {
    n.kind == NODE_STRING && forall|i: int|
        0 <= i < n.children@.len() ==> is_string_part(#[trigger] n.children@[i])
}

/// The text of a string literal node with Nix's string semantics applied;
/// anything else (another expression, or a malformed string) falls back to
/// its trimmed, dedented source text.
pub open spec fn string_text_spec(n: SyntaxNode) -> Seq<char> {
    if is_well_formed_string(n) {
        match nix_string_value(node_text(n)) {
            Some(v) => v,
            None => fallback_text(n),
        }
    } else {
        fallback_text(n)
    }
}

fn is_well_formed_string_exec(n: &SyntaxNode) -> (r: bool)
    ensures
        r == is_well_formed_string(*n),
{
    if n.kind != NODE_STRING {
        return false;
    }
    let es = &n.children;
    for i in 0..es.len()
        invariant
            es@ == n.children@,
            forall|j: int| 0 <= j < i ==> is_string_part(#[trigger] es@[j]),
    {
        let ok = match &es[i] {
            SyntaxElement::Token(t) => t.kind == TOKEN_STRING_START || t.kind == TOKEN_STRING_END
                || t.kind == TOKEN_STRING_CONTENT,
            SyntaxElement::Node(c) => c.kind == NODE_INTERPOL,
        };
        if !ok {
            return false;
        }
    }
    true
}

fn fallback_chars(n: &SyntaxNode) -> (r: Vec<char>)
    ensures
        r@ == fallback_text(*n),
{
    let t = node_text_exec(n);
    let tt = trim_exec(t.as_slice());
    custom_dedent_chars(tt.as_slice())
}

/// Extracts the text of a string literal node (see `string_text_spec`).
pub fn string_text(n: &SyntaxNode) -> (r: Vec<char>)
    ensures
        r@ == string_text_spec(*n),
{
    if is_well_formed_string_exec(n) {
        let t = node_text_exec(n);
        let ts = string_of(t.as_slice());
        match string_literal_value(ts.as_str()) {
            Some(v) => chars_of(v.as_str()),
            None => fallback_chars(n),
        }
    } else {
        fallback_chars(n)
    }
}

/// The unquoted texts of the items of a list of strings.
pub open spec fn strings_of(items: Seq<SyntaxNode>) -> Seq<Seq<char>>
    decreases items.len(),
{
    if items.len() == 0 {
        seq![]
    } else {
        strings_of(items.drop_last()).push(string_text_spec(items.last()))
    }
}

/// The unquoted text of each item of a list node; `None` for a non-list.
pub open spec fn list_of_strings_spec(n: SyntaxNode) -> Option<Seq<Seq<char>>> {
    if n.kind == NODE_LIST {
        Some(strings_of(list_items(n)))
    } else {
        None
    }
}

/// Extracts the unquoted text of each string item of a list node.
pub fn list_of_strings(n: &SyntaxNode) -> (r: Option<Vec<Vec<char>>>)
    ensures
        match list_of_strings_spec(*n) {
            Some(l) => r matches Some(v) && v@.map_values(|x: Vec<char>| x@) == l,
            None => r is None,
        },
{
    if n.kind != NODE_LIST {
        return None;
    }
    let es = &n.children;
    let mut out: Vec<Vec<char>> = Vec::new();
    for k in 0..es.len()
        invariant
            es@ == n.children@,
            out@.map_values(|x: Vec<char>| x@) == strings_of(expr_nodes(es@.take(k as int))),
    {
        let ghost items = expr_nodes(es@.take(k as int));
        assert(es@.take(k + 1).drop_last() =~= es@.take(k as int));
        if let SyntaxElement::Node(c) = &es[k] {
            if crate::syntax::is_expr_kind_exec(c.kind) {
                let s = string_text(c);
                let ghost before = out@;
                out.push(s);
                assert(items.push(*c).drop_last() =~= items);
                assert(out@.map_values(|x: Vec<char>| x@) =~= before.map_values(|x: Vec<char>| x@).push(
                    s@,
                ));
            }
        }
    }
    assert(es@.take(es@.len() as int) =~= es@);
    Some(out)
}

// ---------------------------------------------------------------------
// What a file's options are
// ---------------------------------------------------------------------

/// What stays the same over the whole walk of one file.
pub struct FileContext {
    /// The file's relative path.
    pub file: Seq<char>,
    /// The `--replace` pairs.
    pub reps: Seq<(String, String)>,
    /// The file's text.
    pub source: Seq<char>,
    /// The file's local aliases.
    pub aliases: Seq<(Seq<char>, Seq<char>)>,
    /// The file's `let` bindings.
    pub lets: Seq<(Seq<char>, SyntaxNode)>,
}

/// Where in the option hierarchy the walk is.
pub struct Scope {
    /// The dotted option name so far.
    pub prefix: Seq<char>,
    /// The `mkIf` conditions in scope, joined with `&&`.
    pub cond: Option<Seq<char>>,
    /// The (start, length) ranges of the submodule bodies being expanded
    /// on this path, innermost last.
    pub stack: Seq<(int, int)>,
}

/// `key` below `prefix` in the dotted hierarchy.
pub open spec fn dotted(prefix: Seq<char>, key: Seq<char>) -> Seq<char> {
    if prefix.len() == 0 {
        key
    } else {
        prefix + "."@ + key
    }
}

/// A newly found `mkIf` condition folded into the one in scope.
pub open spec fn combine_condition_spec(existing: Option<Seq<char>>, new: Seq<char>) -> Seq<char> {
    match existing {
        Some(e) => e + " && "@ + new,
        None => new,
    }
}

/// An `mkIf` condition's source text as shown.
pub open spec fn format_condition_spec(n: SyntaxNode) -> Seq<char> {
    trim(node_text(n))
}

/// A description with `${name}` references replaced and Nix formatting
/// cleaned up.
pub open spec fn process_description_spec(d: Seq<char>, reps: Seq<(String, String)>) -> Seq<char> {
    clean_description_spec(apply_replacements_spec(d, reps))
}

/// The segments of an attribute path, each with `${name}` references
/// replaced.
pub open spec fn attrpath_parts(es: Seq<SyntaxElement>, reps: Seq<(String, String)>) -> Seq<Seq<char>>
    decreases es.len(),
{
    if es.len() == 0 {
        seq![]
    } else {
        let rest = attrpath_parts(es.drop_last(), reps);
        match es.last() {
            SyntaxElement::Node(c) => rest.push(apply_replacements_spec(node_text(c), reps)),
            SyntaxElement::Token(_) => rest,
        }
    }
}

/// The dotted name an attribute path node stands for.
pub open spec fn attrpath_name(p: SyntaxNode, reps: Seq<(String, String)>) -> Seq<char> {
    join_with(attrpath_parts(p.children@, reps), "."@)
}

/// The condition and the guarded value of an `mkIf cond value` call.
pub open spec fn as_mkif(n: SyntaxNode, al: Seq<(Seq<char>, Seq<char>)>) -> Option<(SyntaxNode, SyntaxNode)> {
    match resolve_call_spec(n, al) {
        Some((name, args)) => if name == "mkIf"@ && args.len() >= 2 {
            Some((args[0], args[1]))
        } else {
            None
        },
        None => None,
    }
}

/// The value inside `mkDefault`/`mkForce`/`mkOverride` (their last
/// argument) or `mkIf` (its second), or the node itself.
pub open spec fn unwrap_value_wrapper_spec(n: SyntaxNode, al: Seq<(Seq<char>, Seq<char>)>) -> SyntaxNode {
    match resolve_call_spec(n, al) {
        Some((name, args)) => if (name == "mkDefault"@ || name == "mkForce"@ || name
            == "mkOverride"@) && args.len() > 0 {
            args.last()
        } else if name == "mkIf"@ && args.len() > 1 {
            args[1]
        } else {
            n
        },
        None => n,
    }
}

/// A value expression as shown: wrappers unwrapped, cleaned, dedented.
pub open spec fn render_value_spec(n: SyntaxNode, al: Seq<(Seq<char>, Seq<char>)>) -> Seq<char> {
    custom_dedent_spec(clean_literal_expr_spec(node_text(unwrap_value_wrapper_spec(n, al))))
}

/// The fields an option-declaring attrset sets.
pub struct OptionFields {
    pub nix_type: Option<Seq<char>>,
    pub type_node: Option<SyntaxNode>,
    pub description: Option<Seq<char>>,
    pub default_value: Option<Seq<char>>,
    pub example: Option<Seq<char>>,
}

/// No fields set.
pub open spec fn no_fields() -> OptionFields {
    OptionFields { nix_type: None, type_node: None, description: None, default_value: None, example: None }
}

/// The text of the first segment of an entry's key.
pub open spec fn field_key(attr: SyntaxNode) -> Option<Seq<char>> {
    match nth_child(attr, NodeFilter::Kind(crate::syntax::NODE_ATTRPATH), 0) {
        Some(p) => match nth_child(p, NodeFilter::Any, 0) {
            Some(c) => Some(node_text(c)),
            None => None,
        },
        None => None,
    }
}

/// `f` with the entry `key = v;` taken into account.
pub open spec fn with_field(c: FileContext, f: OptionFields, key: Seq<char>, v: SyntaxNode) -> OptionFields {
    if key == "type"@ {
        OptionFields { nix_type: Some(crate::types::format_type_spec(v, c.aliases)), type_node: Some(v), ..f }
    } else if key == "description"@ {
        OptionFields { description: Some(process_description_spec(string_text_spec(v), c.reps)), ..f }
    } else if key == "default"@ {
        OptionFields { default_value: Some(render_value_spec(v, c.aliases)), ..f }
    } else if key == "example"@ {
        OptionFields { example: Some(render_value_spec(v, c.aliases)), ..f }
    } else {
        f
    }
}

/// The `type`/`description`/`default`/`example` entries among `es` (a
/// later entry wins).
pub open spec fn scan_fields(c: FileContext, es: Seq<SyntaxElement>) -> OptionFields
    decreases es.len(),
{
    if es.len() == 0 {
        no_fields()
    } else {
        let f = scan_fields(c, es.drop_last());
        match es.last() {
            SyntaxElement::Node(attr) => if attr.kind == crate::syntax::NODE_ATTRPATH_VALUE {
                match (field_key(attr), nth_child(attr, NodeFilter::Any, 1)) {
                    (Some(k), Some(v)) => with_field(c, f, k, v),
                    _ => f,
                }
            } else {
                f
            },
            SyntaxElement::Token(_) => f,
        }
    }
}

/// An option with the fields an override attrset sets replaced.
pub open spec fn overridden(o: OptionDocView, f: OptionFields) -> OptionDocView {
    OptionDocView {
        nix_type: match f.nix_type {
            Some(t) => t,
            None => o.nix_type,
        },
        description: if f.description is Some {
            f.description
        } else {
            o.description
        },
        default_value: if f.default_value is Some {
            f.default_value
        } else {
            o.default_value
        },
        example: if f.example is Some {
            f.example
        } else {
            o.example
        },
        ..o
    }
}

/// The one declaration of an option found at node `n`.
pub open spec fn declaration_at(c: FileContext, n: SyntaxNode, cond: Option<Seq<char>>) -> DeclarationView {
    DeclarationView { file_path: c.file, line_number: node_line(c.source, n), description: None, condition: cond }
}

/// An option found at node `n`.
pub open spec fn option_at(
    c: FileContext,
    n: SyntaxNode,
    name: Seq<char>,
    description: Option<Seq<char>>,
    nix_type: Seq<char>,
    default_value: Option<Seq<char>>,
    example: Option<Seq<char>>,
    cond: Option<Seq<char>>,
) -> OptionDocView {
    OptionDocView {
        name,
        description,
        nix_type,
        default_value,
        example,
        renamed_to: None,
        declarations: seq![declaration_at(c, n, cond)],
    }
}

/// The part of a dotted name after its last dot.
pub open spec fn last_segment(p: Seq<char>) -> Seq<char> {
    if crate::text::has_char(p, '.') {
        p.skip(crate::text::last_occurrence(p, seq!['.']) + 1)
    } else {
        p
    }
}

/// `mkEnableOption desc`: a boolean option defaulting to `false`, whose
/// description names what it enables (the option's own leaf name when the
/// description is missing or blank).
pub open spec fn enable_option_spec(c: FileContext, n: SyntaxNode, args: Seq<SyntaxNode>, s: Scope, b: ExpansionBudget) -> (
    Seq<OptionDocView>,
    ExpansionBudget,
) {
    let d = if args.len() > 0 && args[0].kind == NODE_STRING {
        let t = process_description_spec(string_text_spec(args[0]), c.reps);
        if !all_ws(t) {
            Some(t)
        } else {
            None
        }
    } else {
        None
    };
    let subject = match d {
        Some(t) => t,
        None => {
            let leaf = last_segment(s.prefix);
            if leaf.len() > 0 {
                crate::utils::inline_code_spec(leaf)
            } else {
                seq![]
            }
        },
    };
    (
        seq![
            option_at(
                c,
                n,
                s.prefix,
                Some("Whether to enable "@ + subject + "."@),
                "boolean"@,
                Some("false"@),
                Some("true"@),
                s.cond,
            ),
        ],
        recorded_option(b),
    )
}

/// The override attrset of an `mkPackageOption` call, when it is one.
pub open spec fn package_overrides(args: Seq<SyntaxNode>) -> Option<SyntaxNode> {
    if args.len() > 2 && args[2].kind == crate::syntax::NODE_ATTR_SET {
        Some(args[2])
    } else {
        None
    }
}

/// The string-valued entry `key` of an optional override attrset.
pub open spec fn string_override(o: Option<SyntaxNode>, key: Seq<char>) -> Option<SyntaxNode> {
    match o {
        Some(set) => match find_attr_spec(set, key) {
            Some(v) => if v.kind == NODE_STRING {
                Some(v)
            } else {
                None
            },
            None => None,
        },
        None => None,
    }
}

/// `mkPackageOption pkgs name { default?; example?; description?;
/// extraDescription?; }`: a package option whose name is a string or a
/// list of attribute-path segments.
pub open spec fn package_option_spec(c: FileContext, n: SyntaxNode, args: Seq<SyntaxNode>, s: Scope, b: ExpansionBudget) -> (
    Seq<OptionDocView>,
    ExpansionBudget,
) {
    let segments = if args.len() > 1 {
        if args[1].kind == NODE_STRING {
            seq![string_text_spec(args[1])]
        } else if args[1].kind == NODE_LIST {
            strings_of(list_items(args[1]))
        } else {
            seq![]
        }
    } else {
        seq![]
    };
    let o = package_overrides(args);
    let default_segments = match o {
        Some(set) => match find_attr_spec(set, "default"@) {
            Some(v) => match list_of_strings_spec(v) {
                Some(l) => l,
                None => segments,
            },
            None => segments,
        },
        None => segments,
    };
    let default_value = if default_segments.len() == 0 {
        None
    } else {
        Some("pkgs."@ + join_with(default_segments, "."@))
    };
    let base = match string_override(o, "description"@) {
        Some(v) => process_description_spec(string_text_spec(v), c.reps),
        None => "The "@ + join_with(segments, " "@) + " package to use."@,
    };
    let description = match string_override(o, "extraDescription"@) {
        Some(v) => base + " "@ + process_description_spec(string_text_spec(v), c.reps),
        None => base,
    };
    let example = match o {
        Some(set) => match find_attr_spec(set, "example"@) {
            Some(v) => Some(render_value_spec(v, c.aliases)),
            None => None,
        },
        None => None,
    };
    (
        seq![option_at(c, n, s.prefix, Some(description), "package"@, default_value, example, s.cond)],
        recorded_option(b),
    )
}

/// The UTF-8 width of a character.
pub open spec fn utf8_width(ch: char) -> nat {
    if (ch as u32) < 0x80 {
        1
    } else if (ch as u32) < 0x800 {
        2
    } else if (ch as u32) < 0x10000 {
        3
    } else {
        4
    }
}

/// The UTF-8 length of a text.
pub open spec fn utf8_len(t: Seq<char>) -> nat
    decreases t.len(),
{
    if t.len() == 0 {
        0
    } else {
        utf8_len(t.drop_last()) + utf8_width(t.last())
    }
}

/// The range a submodule body covers, identifying it.
pub open spec fn body_range(body: SyntaxNode) -> (int, int) {
    (body.start as int, node_text(body).len() as int)
}

/// The placeholder entry for a submodule's `freeformType`.
pub open spec fn freeform_option(c: FileContext, n: SyntaxNode, prefix: Seq<char>, ft: SyntaxNode, cond: Option<Seq<char>>) -> OptionDocView {
    option_at(
        c,
        n,
        prefix + ".<freeform>"@,
        Some("Any additional option accepted by this module's freeform type."@),
        crate::types::format_type_spec(ft, c.aliases),
        None,
        None,
        cond,
    )
}

/// The options found at `n` and below, visited `depth` levels down a walk
/// that stops at `MAX_TRAVERSAL_DEPTH`, and the budget after them: an
/// attrset entry `key = value;` descends into its value under `key`, an
/// `mkIf cond value` into its value under `cond`, anything else into its
/// children.
pub open spec fn visit_spec(c: FileContext, n: SyntaxNode, s: Scope, b: ExpansionBudget, depth: nat) -> (
    Seq<OptionDocView>,
    ExpansionBudget,
)
    decreases MAX_TRAVERSAL_DEPTH - depth, 2nat, 0nat,
{
    if depth >= MAX_TRAVERSAL_DEPTH {
        (seq![], b)
    } else if n.kind == crate::syntax::NODE_ATTRPATH_VALUE {
        match (
            nth_child(n, NodeFilter::Kind(crate::syntax::NODE_ATTRPATH), 0),
            nth_child(n, NodeFilter::Any, 1),
        ) {
            (Some(p), Some(v)) => attrset_spec(
                c,
                v,
                Scope { prefix: dotted(s.prefix, attrpath_name(p, c.reps)), ..s },
                b,
                depth + 1,
            ),
            _ => (seq![], b),
        }
    } else {
        match as_mkif(n, c.aliases) {
            Some((cn, v)) => visit_spec(
                c,
                v,
                Scope {
                    cond: Some(combine_condition_spec(s.cond, format_condition_spec(cn))),
                    ..s
                },
                b,
                depth + 1,
            ),
            None => visit_elems(c, n.children@, s, b, depth),
        }
    }
}

/// The options found at the child nodes among `es` (children of a node
/// `depth` levels down), in order, threading the budget.
pub open spec fn visit_elems(c: FileContext, es: Seq<SyntaxElement>, s: Scope, b: ExpansionBudget, depth: nat) -> (
    Seq<OptionDocView>,
    ExpansionBudget,
)
    decreases MAX_TRAVERSAL_DEPTH - depth, 0nat, es.len(),
{
    if depth >= MAX_TRAVERSAL_DEPTH || es.len() == 0 {
        (seq![], b)
    } else {
        let (o1, b1) = visit_elems(c, es.drop_last(), s, b, depth);
        match es.last() {
            SyntaxElement::Node(ch) => {
                let (o2, b2) = visit_spec(c, ch, s, b1, depth + 1);
                (o1 + o2, b2)
            },
            SyntaxElement::Token(_) => (o1, b1),
        }
    }
}

/// The options an attribute value declares (visited `depth` levels down):
/// a nested attrset's entries, an option-constructor call, the body of a
/// `with` or `let ... in`, or an option with `// { ... }` overrides.
pub open spec fn attrset_spec(c: FileContext, node: SyntaxNode, s: Scope, b: ExpansionBudget, depth: nat) -> (
    Seq<OptionDocView>,
    ExpansionBudget,
)
    decreases MAX_TRAVERSAL_DEPTH - depth, 2nat, 0nat,
{
    let n = crate::types::unwrap_paren_all(node);
    if depth >= MAX_TRAVERSAL_DEPTH {
        (seq![], b)
    } else if n.kind == crate::syntax::NODE_ATTR_SET {
        visit_elems(c, n.children@, s, b, depth)
    } else if n.kind == crate::syntax::NODE_APPLY {
        match resolve_call_spec(n, c.aliases) {
            Some((name, args)) => call_spec(c, n, name, args, s, b, depth),
            None => (seq![], b),
        }
    } else if n.kind == crate::syntax::NODE_WITH {
        match nth_child(n, NodeFilter::Any, 1) {
            Some(body) => visit_spec(c, body, s, b, depth + 1),
            None => (seq![], b),
        }
    } else if n.kind == crate::syntax::NODE_LET_IN {
        match nth_child(n, NodeFilter::Expr, 0) {
            Some(body) => attrset_spec(c, body, s, b, depth + 1),
            None => (seq![], b),
        }
    } else if n.kind == crate::syntax::NODE_BIN_OP && (crate::syntax::bin_op_token(n) matches Some(
        t,
    ) && t.kind == crate::syntax::TOKEN_UPDATE) {
        match (nth_child(n, NodeFilter::Expr, 0), nth_child(n, NodeFilter::Expr, 1)) {
            (Some(l), Some(r)) => {
                let (base, b1) = attrset_spec(c, l, s, b, depth + 1);
                let rn = crate::types::unwrap_paren_all(r);
                if rn.kind == crate::syntax::NODE_ATTR_SET {
                    let f = scan_fields(c, rn.children@);
                    (base.map_values(|o: OptionDocView| overridden(o, f)), b1)
                } else {
                    (base, b1)
                }
            },
            _ => (seq![], b),
        }
    } else {
        (seq![], b)
    }
}

/// The options the items of an `mkMerge` list declare, each at the same
/// level, in order.
pub open spec fn attrset_items(c: FileContext, items: Seq<SyntaxNode>, s: Scope, b: ExpansionBudget, depth: nat) -> (
    Seq<OptionDocView>,
    ExpansionBudget,
)
    decreases MAX_TRAVERSAL_DEPTH - depth, 0nat, items.len(),
{
    if depth >= MAX_TRAVERSAL_DEPTH || items.len() == 0 {
        (seq![], b)
    } else {
        let (o1, b1) = attrset_items(c, items.drop_last(), s, b, depth);
        let (o2, b2) = attrset_spec(c, items.last(), s, b1, depth + 1);
        (o1 + o2, b2)
    }
}

/// The options a call of the function `name` with `args` at node `n`
/// declares.
pub open spec fn call_spec(c: FileContext, n: SyntaxNode, name: Seq<char>, args: Seq<SyntaxNode>, s: Scope, b: ExpansionBudget, depth: nat) -> (
    Seq<OptionDocView>,
    ExpansionBudget,
)
    decreases MAX_TRAVERSAL_DEPTH - depth, 1nat, 0nat,
{
    if depth >= MAX_TRAVERSAL_DEPTH {
        (seq![], b)
    } else if name == "mkMerge"@ {
        if args.len() > 0 && args[0].kind == NODE_LIST {
            attrset_items(c, list_items(args[0]), s, b, depth)
        } else {
            (seq![], b)
        }
    } else if name == "mkIf"@ {
        if args.len() > 1 {
            attrset_spec(
                c,
                args[1],
                Scope {
                    cond: Some(combine_condition_spec(s.cond, format_condition_spec(args[0]))),
                    ..s
                },
                b,
                depth + 1,
            )
        } else {
            (seq![], b)
        }
    } else if name == "mkEnableOption"@ {
        enable_option_spec(c, n, args, s, b)
    } else if name == "mkOption"@ {
        option_spec(c, n, args, s, b, depth)
    } else if name == "mkPackageOption"@ || name == "mkPackageOptionMD"@ {
        package_option_spec(c, n, args, s, b)
    } else {
        (seq![], b)
    }
}

/// `mkOption { type; description; default; example; }`: the option itself
/// and, when its type is a statically analysable submodule not already
/// being expanded on this path, not too deeply nested and within the
/// file's budget, the submodule's own options below it (under `<name>` for
/// a container type) and a placeholder for its `freeformType`.
pub open spec fn option_spec(c: FileContext, n: SyntaxNode, args: Seq<SyntaxNode>, s: Scope, b: ExpansionBudget, depth: nat) -> (
    Seq<OptionDocView>,
    ExpansionBudget,
)
    decreases MAX_TRAVERSAL_DEPTH - depth, 0nat, 0nat,
{
    let f = if args.len() > 0 && args[0].kind == crate::syntax::NODE_ATTR_SET {
        scan_fields(c, args[0].children@)
    } else {
        no_fields()
    };
    let opt = option_at(
        c,
        n,
        s.prefix,
        f.description,
        match f.nix_type {
            Some(t) => t,
            None => "any"@,
        },
        f.default_value,
        f.example,
        s.cond,
    );
    let b1 = recorded_option(b);
    if depth >= MAX_TRAVERSAL_DEPTH {
        (seq![opt], b1)
    } else {
        match f.type_node {
            None => (seq![opt], b1),
            Some(t) => match crate::types::find_submodule_body_spec(t, c.aliases, c.lets) {
                None => (seq![opt], b1),
                Some((body, is_container)) => {
                    let range = body_range(body);
                    if s.stack.contains(range) || s.stack.len() >= crate::types::MAX_SUBMODULE_DEPTH {
                        (seq![opt], b1)
                    } else if budget_exhausted(b1) {
                        (seq![opt], warned(b1))
                    } else {
                        let b2 = recorded_expansion(b1, utf8_len(node_text(body)));
                        let np = if is_container {
                            s.prefix + ".<name>"@
                        } else {
                            s.prefix
                        };
                        let ns = Scope { prefix: np, cond: s.cond, stack: s.stack.push(range) };
                        let (nested, b3) = match crate::types::submodule_options_attrset_spec(body) {
                            Some(oa) => attrset_spec(c, oa, ns, b2, depth + 1),
                            None => (seq![], b2),
                        };
                        match crate::types::find_freeform_type_spec(body) {
                            Some(ft) => (
                                seq![opt] + nested + seq![freeform_option(c, n, np, ft, s.cond)],
                                recorded_option(b3),
                            ),
                            None => (seq![opt] + nested, b3),
                        }
                    }
                },
            },
        }
    }
}

// ---------------------------------------------------------------------
// Walking a file
// ---------------------------------------------------------------------

/// Option entries taken by their views.
pub open spec fn docs_view(v: Seq<OptionDoc>) -> Seq<OptionDocView> {
    v.map_values(|o: OptionDoc| o@)
}

/// An optional character vector taken by its characters.
pub open spec fn opt_chars(o: Option<Vec<char>>) -> Option<Seq<char>> {
    match o {
        Some(v) => Some(v@),
        None => None,
    }
}

/// What stays the same over the walk of one file.
pub struct Walk<'a> {
    pub file_path: &'a str,
    pub replacements: &'a [(String, String)],
    pub lines: &'a LineIndex,
    pub aliases: &'a Vec<(String, String)>,
    pub let_bindings: &'a Vec<(String, &'a SyntaxNode)>,
}

impl<'a> Walk<'a> {
    /// The walk's constant context.
    pub open spec fn ctx(&self) -> FileContext {
        FileContext {
            file: self.file_path@,
            reps: self.replacements@,
            source: self.lines.source@,
            aliases: pairs_view(self.aliases@),
            lets: bindings_view(self.let_bindings@),
        }
    }
}

/// Where in the option hierarchy the walk is.
pub struct WalkScope {
    pub prefix: Vec<char>,
    pub cond: Option<Vec<char>>,
    pub stack: Vec<(usize, usize)>,
}

impl View for WalkScope {
    type V = Scope;

    open spec fn view(&self) -> Scope {
        Scope {
            prefix: self.prefix@,
            cond: opt_chars(self.cond),
            stack: self.stack@.map_values(|r: (usize, usize)| (r.0 as int, r.1 as int)),
        }
    }
}

fn clone_chars(v: &Vec<char>) -> (r: Vec<char>)
    ensures
        r@ == v@,
{
    crate::text::slice_to_vec(v.as_slice(), 0, v.len())
}

fn clone_opt_chars(o: &Option<Vec<char>>) -> (r: Option<Vec<char>>)
    ensures
        opt_chars(r) == opt_chars(*o),
{
    match o {
        Some(v) => Some(clone_chars(v)),
        None => None,
    }
}

fn opt_string(o: &Option<Vec<char>>) -> (r: Option<String>)
    ensures
        opt_view(r) == opt_chars(*o),
{
    match o {
        Some(v) => Some(string_of(v.as_slice())),
        None => None,
    }
}

/// Cleans and formats a description: `${name}` references replaced, Nix
/// formatting cleaned up.
pub fn process_description(description: &[char], replacements: &[(String, String)]) -> (r: Vec<char>)
    ensures
        r@ == process_description_spec(description@, replacements@),
{
    let replaced = apply_replacements_chars(description, replacements);
    clean_description_chars(replaced.as_slice())
}

/// Folds a newly found `mkIf` condition into the one already in scope.
pub fn combine_condition(existing: Option<&str>, new: &str) -> (r: String)
    ensures
        r@ == combine_condition_spec(
            match existing {
                Some(e) => Some(e@),
                None => None,
            },
            new@,
        ),
{
    match existing {
        Some(e) => {
            let mut v = chars_of(e);
            push_str(&mut v, " && ");
            push_str(&mut v, new);
            string_of(v.as_slice())
        },
        None => {
            let v = chars_of(new);
            string_of(v.as_slice())
        },
    }
}

fn combine_condition_chars(existing: &Option<Vec<char>>, new: &[char]) -> (r: Vec<char>)
    ensures
        r@ == combine_condition_spec(opt_chars(*existing), new@),
{
    match existing {
        Some(e) => {
            let mut v = clone_chars(e);
            push_str(&mut v, " && ");
            push_all(&mut v, new);
            v
        },
        None => crate::text::slice_to_vec(new, 0, new.len()),
    }
}

fn format_condition(n: &SyntaxNode) -> (r: Vec<char>)
    ensures
        r@ == format_condition_spec(*n),
{
    let t = node_text_exec(n);
    trim_exec(t.as_slice())
}

fn attrpath_name_exec(p: &SyntaxNode, replacements: &[(String, String)]) -> (r: Vec<char>)
    ensures
        r@ == attrpath_name(*p, replacements@),
{
    let es = &p.children;
    let mut out: Vec<char> = Vec::new();
    let mut count: usize = 0;
    for k in 0..es.len()
        invariant
            es@ == p.children@,
            count == attrpath_parts(es@.take(k as int), replacements@).len(),
            count <= k,
            out@ == join_with(attrpath_parts(es@.take(k as int), replacements@), "."@),
    {
        let ghost parts = attrpath_parts(es@.take(k as int), replacements@);
        assert(es@.take(k + 1).drop_last() =~= es@.take(k as int));
        if let SyntaxElement::Node(c) = &es[k] {
            let t = node_text_exec(c);
            let seg = apply_replacements_chars(t.as_slice(), replacements);
            let ghost next = parts.push(seg@);
            assert(next.drop_last() =~= parts);
            if count > 0 {
                push_str(&mut out, ".");
            }
            push_all(&mut out, seg.as_slice());
            count = count + 1;
        }
    }
    assert(es@.take(es@.len() as int) =~= es@);
    out
}

fn dotted_exec(prefix: &Vec<char>, key: &Vec<char>) -> (r: Vec<char>)
    ensures
        r@ == dotted(prefix@, key@),
{
    if prefix.len() == 0 {
        clone_chars(key)
    } else {
        let mut v = clone_chars(prefix);
        push_str(&mut v, ".");
        push_all(&mut v, key.as_slice());
        v
    }
}

fn is(name: &[char], lit: &str) -> (r: bool)
    ensures
        r == (name@ == lit@),
{
    let l = chars_of(lit);
    crate::text::chars_eq(name, l.as_slice())
}

fn as_mkif_exec<'a>(n: &'a SyntaxNode, aliases: &Vec<(String, String)>) -> (r: Option<(&'a SyntaxNode, &'a SyntaxNode)>)
    ensures
        match as_mkif(*n, pairs_view(aliases@)) {
            Some((c, v)) => r matches Some((x, y)) && *x == c && *y == v,
            None => r is None,
        },
{
    match resolve_call(n, aliases) {
        Some((name, args)) => {
            if is(name.as_slice(), "mkIf") && args.len() >= 2 {
                Some((args[0], args[1]))
            } else {
                None
            }
        },
        None => None,
    }
}

fn unwrap_value_wrapper<'a>(n: &'a SyntaxNode, aliases: &Vec<(String, String)>) -> (r: &'a SyntaxNode)
    ensures
        *r == unwrap_value_wrapper_spec(*n, pairs_view(aliases@)),
{
    match resolve_call(n, aliases) {
        Some((name, args)) => {
            if (is(name.as_slice(), "mkDefault") || is(name.as_slice(), "mkForce") || is(
                name.as_slice(),
                "mkOverride",
            )) && args.len() > 0 {
                args[args.len() - 1]
            } else if is(name.as_slice(), "mkIf") && args.len() > 1 {
                args[1]
            } else {
                n
            }
        },
        None => n,
    }
}

fn render_value(n: &SyntaxNode, aliases: &Vec<(String, String)>) -> (r: Vec<char>)
    ensures
        r@ == render_value_spec(*n, pairs_view(aliases@)),
{
    let effective = unwrap_value_wrapper(n, aliases);
    let t = node_text_exec(effective);
    let cleaned = clean_literal_expr_chars(t.as_slice());
    custom_dedent_chars(cleaned.as_slice())
}

/// The fields an option-declaring attrset sets, as found.
pub struct FoundFields<'a> {
    pub nix_type: Option<Vec<char>>,
    pub type_node: Option<&'a SyntaxNode>,
    pub description: Option<Vec<char>>,
    pub default_value: Option<Vec<char>>,
    pub example: Option<Vec<char>>,
}

impl<'a> View for FoundFields<'a> {
    type V = OptionFields;

    open spec fn view(&self) -> OptionFields {
        OptionFields {
            nix_type: opt_chars(self.nix_type),
            type_node: match self.type_node {
                Some(t) => Some(*t),
                None => None,
            },
            description: opt_chars(self.description),
            default_value: opt_chars(self.default_value),
            example: opt_chars(self.example),
        }
    }
}

fn field_key_exec(attr: &SyntaxNode) -> (r: Option<Vec<char>>)
    ensures
        opt_chars(r) == field_key(*attr),
{
    match nth_child_exec(attr, NodeFilter::Kind(crate::syntax::NODE_ATTRPATH), 0) {
        Some(p) => match nth_child_exec(p, NodeFilter::Any, 0) {
            Some(c) => Some(node_text_exec(c)),
            None => None,
        },
        None => None,
    }
}

/// Scans an attrset's `type`/`description`/`default`/`example` entries,
/// the fields `mkOption { ... }` accepts.
fn scan_fields_exec<'a>(w: &Walk<'a>, set: &'a SyntaxNode) -> (r: FoundFields<'a>)
    ensures
        r@ == scan_fields(w.ctx(), set.children@),
{
    let es = &set.children;
    let mut f = FoundFields { nix_type: None, type_node: None, description: None, default_value: None, example: None };
    for k in 0..es.len()
        invariant
            es@ == set.children@,
            f@ == scan_fields(w.ctx(), es@.take(k as int)),
    {
        assert(es@.take(k + 1).drop_last() =~= es@.take(k as int));
        if let SyntaxElement::Node(attr) = &es[k] {
            if attr.kind == crate::syntax::NODE_ATTRPATH_VALUE {
                let key = field_key_exec(attr);
                let value = nth_child_exec(attr, NodeFilter::Any, 1);
                match (key, value) {
                    (Some(key), Some(v)) => {
                        if is(key.as_slice(), "type") {
                            let t = crate::types::format_type(v, w.aliases);
                            f.nix_type = Some(chars_of(t.as_str()));
                            f.type_node = Some(v);
                        } else if is(key.as_slice(), "description") {
                            let d = string_text(v);
                            f.description = Some(process_description(d.as_slice(), w.replacements));
                        } else if is(key.as_slice(), "default") {
                            f.default_value = Some(render_value(v, w.aliases));
                        } else if is(key.as_slice(), "example") {
                            f.example = Some(render_value(v, w.aliases));
                        }
                    },
                    _ => {},
                }
            }
        }
    }
    assert(es@.take(es@.len() as int) =~= es@);
    f
}

fn make_option(
    w: &Walk,
    n: &SyntaxNode,
    name: &[char],
    description: Option<Vec<char>>,
    nix_type: &[char],
    default_value: Option<Vec<char>>,
    example: Option<Vec<char>>,
    cond: &Option<Vec<char>>,
) -> (r: OptionDoc)
    requires
        w.lines.wf(),
    ensures
        r@ == option_at(
            w.ctx(),
            *n,
            name@,
            opt_chars(description),
            nix_type@,
            opt_chars(default_value),
            opt_chars(example),
            opt_chars(*cond),
        ),
{
    let fp = chars_of(w.file_path);
    let decl = Declaration {
        file_path: string_of(fp.as_slice()),
        line_number: w.lines.line_number(n.start),
        description: None,
        condition: opt_string(cond),
    };
    let mut declarations: Vec<Declaration> = Vec::new();
    declarations.push(decl);
    let r = OptionDoc {
        name: string_of(name),
        description: opt_string(&description),
        nix_type: string_of(nix_type),
        default_value: opt_string(&default_value),
        example: opt_string(&example),
        renamed_to: None,
        declarations,
    };
    assert(r@.declarations =~= seq![declaration_at(w.ctx(), *n, opt_chars(*cond))]);
    r
}

fn last_segment_exec(p: &[char]) -> (r: Vec<char>)
    ensures
        r@ == last_segment(p@),
{
    let dot: Vec<char> = vec!['.'];
    assert(dot@ =~= seq!['.']);
    proof {
        crate::text::lemma_has_char_contains(p@, '.');
    }
    match crate::text::last_index(p, dot.as_slice()) {
        Some(i) => {
            let plen = p.len();
            assert(dot@.len() == 1);
            assert(i + 1 <= plen);
            crate::text::slice_to_vec(p, i + 1, plen)
        },
        None => crate::text::slice_to_vec(p, 0, p.len()),
    }
}

fn enable_option_exec(w: &Walk, n: &SyntaxNode, args: &Vec<&SyntaxNode>, sc: &WalkScope, b: &mut ExpansionBudget) -> (r: Vec<OptionDoc>)
    requires
        w.lines.wf(),
    ensures
        (docs_view(r@), *final(b)) == enable_option_spec(w.ctx(), *n, derefs(args@), sc@, *old(b)),
{
    let d = if args.len() > 0 && args[0].kind == NODE_STRING {
        let st = string_text(args[0]);
        let t = process_description(st.as_slice(), w.replacements);
        if !crate::text::all_ws_exec(t.as_slice()) {
            Some(t)
        } else {
            None
        }
    } else {
        None
    };
    let subject = match d {
        Some(t) => t,
        None => {
            let leaf = last_segment_exec(sc.prefix.as_slice());
            if leaf.len() > 0 {
                crate::utils::inline_code_chars(leaf.as_slice())
            } else {
                Vec::new()
            }
        },
    };
    let mut desc = chars_of("Whether to enable ");
    push_all(&mut desc, subject.as_slice());
    push_str(&mut desc, ".");
    let bt = chars_of("boolean");
    let o = make_option(
        w,
        n,
        sc.prefix.as_slice(),
        Some(desc),
        bt.as_slice(),
        Some(chars_of("false")),
        Some(chars_of("true")),
        &sc.cond,
    );
    b.record_option();
    let mut r: Vec<OptionDoc> = Vec::new();
    r.push(o);
    assert(docs_view(r@) =~= seq![o@]);
    r
}

fn join_exec(parts: &Vec<Vec<char>>, sep: &str) -> (r: Vec<char>)
    ensures
        r@ == join_with(parts@.map_values(|x: Vec<char>| x@), sep@),
{
    let ghost ps = parts@.map_values(|x: Vec<char>| x@);
    let mut out: Vec<char> = Vec::new();
    for k in 0..parts.len()
        invariant
            ps == parts@.map_values(|x: Vec<char>| x@),
            out@ == join_with(ps.take(k as int), sep@),
    {
        assert(ps.take(k + 1).drop_last() =~= ps.take(k as int));
        if k > 0 {
            push_str(&mut out, sep);
        }
        push_all(&mut out, parts[k].as_slice());
        assert(ps.take(k + 1).last() == parts@[k as int]@);
    }
    assert(ps.take(ps.len() as int) =~= ps);
    out
}

fn string_override_exec<'a>(o: Option<&'a SyntaxNode>, key: &str) -> (r: Option<&'a SyntaxNode>)
    ensures
        match string_override(
            match o {
                Some(x) => Some(*x),
                None => None,
            },
            key@,
        ) {
            Some(v) => r matches Some(x) && *x == v,
            None => r is None,
        },
{
    match o {
        Some(set) => match find_attr(set, key) {
            Some(v) => if v.kind == NODE_STRING {
                Some(v)
            } else {
                None
            },
            None => None,
        },
        None => None,
    }
}

fn package_option_exec(w: &Walk, n: &SyntaxNode, args: &Vec<&SyntaxNode>, sc: &WalkScope, b: &mut ExpansionBudget) -> (r: Vec<OptionDoc>)
    requires
        w.lines.wf(),
    ensures
        (docs_view(r@), *final(b)) == package_option_spec(w.ctx(), *n, derefs(args@), sc@, *old(b)),
{
    let ghost sargs = derefs(args@);
    let segments: Vec<Vec<char>> = if args.len() > 1 {
        if args[1].kind == NODE_STRING {
            let mut v: Vec<Vec<char>> = Vec::new();
            v.push(string_text(args[1]));
            assert(v@.map_values(|x: Vec<char>| x@) =~= seq![string_text_spec(sargs[1])]);
            v
        } else if args[1].kind == NODE_LIST {
            match list_of_strings(args[1]) {
                Some(l) => l,
                None => Vec::new(),
            }
        } else {
            Vec::new()
        }
    } else {
        Vec::new()
    };
    assert(Seq::<Vec<char>>::empty().map_values(|x: Vec<char>| x@) =~= Seq::<Seq<char>>::empty());
    let o: Option<&SyntaxNode> = if args.len() > 2 && args[2].kind == crate::syntax::NODE_ATTR_SET {
        Some(args[2])
    } else {
        None
    };
    let default_list: Option<Vec<Vec<char>>> = match o {
        Some(set) => match find_attr(set, "default") {
            Some(v) => list_of_strings(v),
            None => None,
        },
        None => None,
    };
    let default_value = match default_list {
        Some(l) => {
            if l.len() == 0 {
                None
            } else {
                let mut v = chars_of("pkgs.");
                let j = join_exec(&l, ".");
                push_all(&mut v, j.as_slice());
                Some(v)
            }
        },
        None => {
            if segments.len() == 0 {
                None
            } else {
                let mut v = chars_of("pkgs.");
                let j = join_exec(&segments, ".");
                push_all(&mut v, j.as_slice());
                Some(v)
            }
        },
    };
    let base = match string_override_exec(o, "description") {
        Some(v) => {
            let st = string_text(v);
            process_description(st.as_slice(), w.replacements)
        },
        None => {
            let mut v = chars_of("The ");
            let j = join_exec(&segments, " ");
            push_all(&mut v, j.as_slice());
            push_str(&mut v, " package to use.");
            v
        },
    };
    let description = match string_override_exec(o, "extraDescription") {
        Some(v) => {
            let st = string_text(v);
            let extra = process_description(st.as_slice(), w.replacements);
            let mut d = base;
            push_str(&mut d, " ");
            push_all(&mut d, extra.as_slice());
            d
        },
        None => base,
    };
    let example = match o {
        Some(set) => match find_attr(set, "example") {
            Some(v) => Some(render_value(v, w.aliases)),
            None => None,
        },
        None => None,
    };
    let pt = chars_of("package");
    let opt = make_option(w, n, sc.prefix.as_slice(), Some(description), pt.as_slice(), default_value, example, &sc.cond);
    b.record_option();
    let mut r: Vec<OptionDoc> = Vec::new();
    r.push(opt);
    assert(docs_view(r@) =~= seq![opt@]);
    r
}

fn empty_docs() -> (r: Vec<OptionDoc>)
    ensures
        docs_view(r@) == Seq::<OptionDocView>::empty(),
{
    let r: Vec<OptionDoc> = Vec::new();
    assert(docs_view(r@) =~= Seq::<OptionDocView>::empty());
    r
}

fn append_docs(out: &mut Vec<OptionDoc>, more: Vec<OptionDoc>)
    ensures
        docs_view(final(out)@) == docs_view(old(out)@) + docs_view(more@),
{
    let mut more = more;
    let ghost m = more@;
    let ghost before = out@;
    out.append(&mut more);
    assert(docs_view(out@) =~= docs_view(before) + docs_view(m));
}

fn clone_stack(v: &Vec<(usize, usize)>) -> (r: Vec<(usize, usize)>)
    ensures
        r@ == v@,
{
    let mut r: Vec<(usize, usize)> = Vec::new();
    for i in 0..v.len()
        invariant
            r@ == v@.take(i as int),
    {
        r.push(v[i]);
        assert(r@ =~= v@.take(i + 1));
    }
    assert(v@.take(v@.len() as int) =~= v@);
    r
}

fn stack_contains(stack: &Vec<(usize, usize)>, range: (usize, usize)) -> (r: bool)
    ensures
        r == stack@.map_values(|x: (usize, usize)| (x.0 as int, x.1 as int)).contains(
            (range.0 as int, range.1 as int),
        ),
{
    let ghost sv = stack@.map_values(|x: (usize, usize)| (x.0 as int, x.1 as int));
    for i in 0..stack.len()
        invariant
            sv == stack@.map_values(|x: (usize, usize)| (x.0 as int, x.1 as int)),
            forall|j: int| 0 <= j < i ==> sv[j] != (range.0 as int, range.1 as int),
    {
        if stack[i].0 == range.0 && stack[i].1 == range.1 {
            assert(sv[i as int] == (range.0 as int, range.1 as int));
            return true;
        }
    }
    false
}

pub fn utf8_len_exec(t: &[char]) -> (r: usize)
    ensures
        utf8_len(t@) <= usize::MAX ==> r == utf8_len(t@),
        utf8_len(t@) > usize::MAX ==> r == usize::MAX,
{
    let mut total: usize = 0;
    let mut saturated = false;
    for i in 0..t.len()
        invariant
            !saturated ==> total == utf8_len(t@.take(i as int)),
            saturated ==> total == usize::MAX && utf8_len(t@.take(i as int)) > usize::MAX,
    {
        assert(t@.take(i + 1).drop_last() =~= t@.take(i as int));
        let cv = t[i] as u32;
        let wdt: usize = if cv < 0x80 {
            1
        } else if cv < 0x800 {
            2
        } else if cv < 0x10000 {
            3
        } else {
            4
        };
        if !saturated {
            if total > usize::MAX - wdt {
                total = usize::MAX;
                saturated = true;
            } else {
                total = total + wdt;
            }
        }
    }
    assert(t@.take(t@.len() as int) =~= t@);
    total
}

fn apply_overrides(base: Vec<OptionDoc>, f: &FoundFields) -> (r: Vec<OptionDoc>)
    ensures
        docs_view(r@) == docs_view(base@).map_values(|o: OptionDocView| overridden(o, f@)),
{
    let ghost target = docs_view(base@).map_values(|o: OptionDocView| overridden(o, f@));
    let mut out: Vec<OptionDoc> = Vec::new();
    for i in 0..base.len()
        invariant
            target == docs_view(base@).map_values(|o: OptionDocView| overridden(o, f@)),
            docs_view(out@) == target.take(i as int),
    {
        let mut o = base[i].clone();
        if let Some(t) = &f.nix_type {
            o.nix_type = string_of(t.as_slice());
        }
        if f.description.is_some() {
            o.description = opt_string(&f.description);
        }
        if f.default_value.is_some() {
            o.default_value = opt_string(&f.default_value);
        }
        if f.example.is_some() {
            o.example = opt_string(&f.example);
        }
        assert(o@ == target[i as int]);
        let ghost before = out@;
        out.push(o);
        assert(docs_view(out@) =~= docs_view(before).push(o@));
        assert(target.take(i + 1) =~= target.take(i as int).push(target[i as int]));
    }
    out
}

fn visit<'a>(w: &Walk<'a>, n: &'a SyntaxNode, sc: &WalkScope, b: &mut ExpansionBudget, depth: usize) -> (r: Vec<OptionDoc>)
    requires
        w.lines.wf(),
    ensures
        (docs_view(r@), *final(b)) == visit_spec(w.ctx(), *n, sc@, *old(b), depth as nat),
    decreases MAX_TRAVERSAL_DEPTH - depth, 2nat, 0nat,
{
    if depth >= MAX_TRAVERSAL_DEPTH {
        return empty_docs();
    }
    if n.kind == crate::syntax::NODE_ATTRPATH_VALUE {
        let path = nth_child_exec(n, NodeFilter::Kind(crate::syntax::NODE_ATTRPATH), 0);
        let value = nth_child_exec(n, NodeFilter::Any, 1);
        match (path, value) {
            (Some(p), Some(v)) => {
                let key = attrpath_name_exec(p, w.replacements);
                let nsc = WalkScope {
                    prefix: dotted_exec(&sc.prefix, &key),
                    cond: clone_opt_chars(&sc.cond),
                    stack: clone_stack(&sc.stack),
                };
                attrset(w, v, &nsc, b, depth + 1)
            },
            _ => empty_docs(),
        }
    } else {
        match as_mkif_exec(n, w.aliases) {
            Some((cn, v)) => {
                let fc = format_condition(cn);
                let nc = combine_condition_chars(&sc.cond, fc.as_slice());
                let nsc = WalkScope {
                    prefix: clone_chars(&sc.prefix),
                    cond: Some(nc),
                    stack: clone_stack(&sc.stack),
                };
                visit(w, v, &nsc, b, depth + 1)
            },
            None => visit_children(w, n, sc, b, depth),
        }
    }
}

fn visit_children<'a>(w: &Walk<'a>, n: &'a SyntaxNode, sc: &WalkScope, b: &mut ExpansionBudget, depth: usize) -> (r: Vec<OptionDoc>)
    requires
        w.lines.wf(),
        depth < MAX_TRAVERSAL_DEPTH,
    ensures
        (docs_view(r@), *final(b)) == visit_elems(w.ctx(), n.children@, sc@, *old(b), depth as nat),
    decreases MAX_TRAVERSAL_DEPTH - depth, 1nat, 0nat,
{
    let es = &n.children;
    let ghost b0 = *b;
    let mut out = empty_docs();
    for k in 0..es.len()
        invariant
            es@ == n.children@,
            w.lines.wf(),
            depth < MAX_TRAVERSAL_DEPTH,
            (docs_view(out@), *b) == visit_elems(w.ctx(), es@.take(k as int), sc@, b0, depth as nat),
    {
        assert(es@.take(k + 1).drop_last() =~= es@.take(k as int));
        if let SyntaxElement::Node(c) = &es[k] {
            let more = visit(w, c, sc, b, depth + 1);
            append_docs(&mut out, more);
        }
    }
    assert(es@.take(es@.len() as int) =~= es@);
    out
}

fn attrset<'a>(w: &Walk<'a>, node: &'a SyntaxNode, sc: &WalkScope, b: &mut ExpansionBudget, depth: usize) -> (r: Vec<OptionDoc>)
    requires
        w.lines.wf(),
    ensures
        (docs_view(r@), *final(b)) == attrset_spec(w.ctx(), *node, sc@, *old(b), depth as nat),
    decreases MAX_TRAVERSAL_DEPTH - depth, 2nat, 0nat,
{
    let n = crate::types::unwrap_paren(node);
    if depth >= MAX_TRAVERSAL_DEPTH {
        return empty_docs();
    }
    if n.kind == crate::syntax::NODE_ATTR_SET {
        visit_children(w, n, sc, b, depth)
    } else if n.kind == crate::syntax::NODE_APPLY {
        match resolve_call(n, w.aliases) {
            Some((name, args)) => call(w, n, &name, &args, sc, b, depth),
            None => empty_docs(),
        }
    } else if n.kind == crate::syntax::NODE_WITH {
        match nth_child_exec(n, NodeFilter::Any, 1) {
            Some(body) => visit(w, body, sc, b, depth + 1),
            None => empty_docs(),
        }
    } else if n.kind == crate::syntax::NODE_LET_IN {
        match nth_child_exec(n, NodeFilter::Expr, 0) {
            Some(body) => attrset(w, body, sc, b, depth + 1),
            None => empty_docs(),
        }
    } else if n.kind == crate::syntax::NODE_BIN_OP && crate::syntax::bin_op_kind(n) == Some(
        crate::syntax::TOKEN_UPDATE,
    ) {
        match (nth_child_exec(n, NodeFilter::Expr, 0), nth_child_exec(n, NodeFilter::Expr, 1)) {
            (Some(l), Some(r)) => {
                let base = attrset(w, l, sc, b, depth + 1);
                let rn = crate::types::unwrap_paren(r);
                if rn.kind == crate::syntax::NODE_ATTR_SET {
                    let f = scan_fields_exec(w, rn);
                    apply_overrides(base, &f)
                } else {
                    base
                }
            },
            _ => empty_docs(),
        }
    } else {
        empty_docs()
    }
}

fn call<'a>(w: &Walk<'a>, n: &'a SyntaxNode, name: &Vec<char>, args: &Vec<&'a SyntaxNode>, sc: &WalkScope, b: &mut ExpansionBudget, depth: usize) -> (r: Vec<OptionDoc>)
    requires
        w.lines.wf(),
    ensures
        (docs_view(r@), *final(b)) == call_spec(w.ctx(), *n, name@, derefs(args@), sc@, *old(b), depth as nat),
    decreases MAX_TRAVERSAL_DEPTH - depth, 1nat, 0nat,
{
    let ghost sargs = derefs(args@);
    if depth >= MAX_TRAVERSAL_DEPTH {
        return empty_docs();
    }
    if is(name.as_slice(), "mkMerge") {
        if args.len() > 0 && args[0].kind == NODE_LIST {
            let list = args[0];
            let es = &list.children;
            let ghost b0 = *b;
            let mut out = empty_docs();
            for k in 0..es.len()
                invariant
                    es@ == list.children@,
                    w.lines.wf(),
                    depth < MAX_TRAVERSAL_DEPTH,
                    (docs_view(out@), *b) == attrset_items(
                        w.ctx(),
                        expr_nodes(es@.take(k as int)),
                        sc@,
                        b0,
                        depth as nat,
                    ),
            {
                let ghost items = expr_nodes(es@.take(k as int));
                assert(es@.take(k + 1).drop_last() =~= es@.take(k as int));
                if let SyntaxElement::Node(c) = &es[k] {
                    if crate::syntax::is_expr_kind_exec(c.kind) {
                        assert(items.push(*c).drop_last() =~= items);
                        let more = attrset(w, c, sc, b, depth + 1);
                        append_docs(&mut out, more);
                    }
                }
            }
            assert(es@.take(es@.len() as int) =~= es@);
            out
        } else {
            empty_docs()
        }
    } else if is(name.as_slice(), "mkIf") {
        if args.len() > 1 {
            let fc = format_condition(args[0]);
            let nc = combine_condition_chars(&sc.cond, fc.as_slice());
            let nsc = WalkScope {
                prefix: clone_chars(&sc.prefix),
                cond: Some(nc),
                stack: clone_stack(&sc.stack),
            };
            attrset(w, args[1], &nsc, b, depth + 1)
        } else {
            empty_docs()
        }
    } else if is(name.as_slice(), "mkEnableOption") {
        enable_option_exec(w, n, args, sc, b)
    } else if is(name.as_slice(), "mkOption") {
        option(w, n, args, sc, b, depth)
    } else if is(name.as_slice(), "mkPackageOption") || is(name.as_slice(), "mkPackageOptionMD") {
        package_option_exec(w, n, args, sc, b)
    } else {
        empty_docs()
    }
}

fn option<'a>(w: &Walk<'a>, n: &'a SyntaxNode, args: &Vec<&'a SyntaxNode>, sc: &WalkScope, b: &mut ExpansionBudget, depth: usize) -> (r: Vec<OptionDoc>)
    requires
        w.lines.wf(),
    ensures
        (docs_view(r@), *final(b)) == option_spec(w.ctx(), *n, derefs(args@), sc@, *old(b), depth as nat),
    decreases MAX_TRAVERSAL_DEPTH - depth, 0nat, 0nat,
{
    let ghost sargs = derefs(args@);
    let f = if args.len() > 0 && args[0].kind == crate::syntax::NODE_ATTR_SET {
        scan_fields_exec(w, args[0])
    } else {
        FoundFields { nix_type: None, type_node: None, description: None, default_value: None, example: None }
    };
    let nt = match &f.nix_type {
        Some(t) => clone_chars(t),
        None => chars_of("any"),
    };
    let opt = make_option(
        w,
        n,
        sc.prefix.as_slice(),
        clone_opt_chars(&f.description),
        nt.as_slice(),
        clone_opt_chars(&f.default_value),
        clone_opt_chars(&f.example),
        &sc.cond,
    );
    b.record_option();
    let mut out: Vec<OptionDoc> = Vec::new();
    out.push(opt);
    assert(docs_view(out@) =~= seq![opt@]);
    if depth >= MAX_TRAVERSAL_DEPTH {
        return out;
    }
    match f.type_node {
        None => out,
        Some(t) => match crate::types::find_submodule_body(t, w.aliases, w.let_bindings) {
            None => out,
            Some((body, is_container)) => {
                let btext = node_text_exec(body);
                let range = (body.start, btext.len());
                if stack_contains(&sc.stack, range) || sc.stack.len()
                    >= crate::types::MAX_SUBMODULE_DEPTH {
                    out
                } else if b.is_exhausted() {
                    let _ = b.warn_once(w.file_path);
                    out
                } else {
                    let blen = utf8_len_exec(btext.as_slice());
                    b.record_expansion(blen);
                    let np = if is_container {
                        let mut v = clone_chars(&sc.prefix);
                        push_str(&mut v, ".<name>");
                        v
                    } else {
                        clone_chars(&sc.prefix)
                    };
                    let mut nstack = clone_stack(&sc.stack);
                    nstack.push(range);
                    let nsc = WalkScope { prefix: clone_chars(&np), cond: clone_opt_chars(&sc.cond), stack: nstack };
                    assert(nsc@.stack =~= sc@.stack.push(body_range(*body)));
                    let nested = match crate::types::submodule_options_attrset(body) {
                        Some(oa) => attrset(w, oa, &nsc, b, depth + 1),
                        None => empty_docs(),
                    };
                    append_docs(&mut out, nested);
                    match crate::types::find_freeform_type(body) {
                        Some(ft) => {
                            let tt = crate::types::format_type(ft, w.aliases);
                            let ttc = chars_of(tt.as_str());
                            let mut fname = clone_chars(&np);
                            push_str(&mut fname, ".<freeform>");
                            let fo = make_option(
                                w,
                                n,
                                fname.as_slice(),
                                Some(chars_of("Any additional option accepted by this module's freeform type.")),
                                ttc.as_slice(),
                                None,
                                None,
                                &sc.cond,
                            );
                            b.record_option();
                            let ghost before = out@;
                            out.push(fo);
                            assert(docs_view(out@) =~= docs_view(before).push(fo@));
                            out
                        },
                        None => out,
                    }
                }
            },
        },
    }
}

/// The walk's context for the given parameters.
pub open spec fn file_context(
    file_path: Seq<char>,
    replacements: Seq<(String, String)>,
    source: Seq<char>,
    aliases: Seq<(Seq<char>, Seq<char>)>,
    lets: Seq<(Seq<char>, SyntaxNode)>,
) -> FileContext {
    FileContext { file: file_path, reps: replacements, source, aliases, lets }
}

/// Recursively traverses the syntax tree of a Nix file to extract option
/// definitions (see `visit_spec`): `depth` is how far down the walk
/// `node` lies, `prefix` the option name so far, `condition` the `mkIf`
/// conditions in scope, `submodule_stack` the (start, length) ranges of
/// the submodule bodies being expanded on this path, and `budget` the
/// file's expansion budget, shared by every branch.
pub fn visit_node<'a>(
    depth: usize,
    node: &'a SyntaxNode,
    file_path: &'a str,
    prefix: &str,
    replacements: &'a [(String, String)],
    line_index: &'a LineIndex,
    aliases: &'a Vec<(String, String)>,
    let_bindings: &'a Vec<(String, &'a SyntaxNode)>,
    condition: Option<&str>,
    submodule_stack: &[(usize, usize)],
    budget: &mut ExpansionBudget,
) -> (r: Vec<OptionDoc>)
    requires
        line_index.wf(),
    ensures
        (docs_view(r@), *final(budget)) == visit_spec(
            file_context(
                file_path@,
                replacements@,
                line_index.source@,
                pairs_view(aliases@),
                bindings_view(let_bindings@),
            ),
            *node,
            Scope {
                prefix: prefix@,
                cond: match condition {
                    Some(c) => Some(c@),
                    None => None,
                },
                stack: submodule_stack@.map_values(|x: (usize, usize)| (x.0 as int, x.1 as int)),
            },
            *old(budget),
            depth as nat,
        ),
{
    let w = Walk { file_path, replacements, lines: line_index, aliases, let_bindings };
    let mut stack: Vec<(usize, usize)> = Vec::new();
    for i in 0..submodule_stack.len()
        invariant
            stack@ == submodule_stack@.take(i as int),
    {
        stack.push(submodule_stack[i]);
        assert(stack@ =~= submodule_stack@.take(i + 1));
    }
    assert(submodule_stack@.take(submodule_stack@.len() as int) =~= submodule_stack@);
    let sc = WalkScope {
        prefix: chars_of(prefix),
        cond: match condition {
            Some(c) => Some(chars_of(c)),
            None => None,
        },
        stack,
    };
    visit(&w, node, &sc, budget, depth)
}

// ---------------------------------------------------------------------
// Rename and removal shims
// ---------------------------------------------------------------------

/// A synthetic entry standing for a rename or removal shim.
pub open spec fn deprecation_doc(c: FileContext, n: SyntaxNode, name: Seq<char>, description: Seq<char>, nix_type: Seq<char>, renamed_to: Option<Seq<char>>) -> OptionDocView {
    OptionDocView {
        name,
        description: Some(description),
        nix_type,
        default_value: None,
        example: None,
        renamed_to,
        declarations: seq![
            DeclarationView {
                file_path: c.file,
                line_number: node_line(c.source, n),
                description: None,
                condition: None,
            },
        ],
    }
}

/// The shims at a node that calls `mkRenamedOptionModule` or
/// `mkRemovedOptionModule` (`name`) with `args`.
pub open spec fn shim_docs(c: FileContext, n: SyntaxNode, name: Seq<char>, args: Seq<SyntaxNode>) -> Seq<OptionDocView> {
    if name == "mkRenamedOptionModule"@ {
        if args.len() > 1 {
            match (list_of_strings_spec(args[0]), list_of_strings_spec(args[1])) {
                (Some(old), Some(new)) => {
                    let new_path = join_with(new, "."@);
                    seq![
                        deprecation_doc(
                            c,
                            n,
                            "options."@ + join_with(old, "."@),
                            "> [!WARNING]\n> This option was renamed. Use "@
                                + crate::utils::inline_code_spec(new_path) + " instead."@,
                            "renamed option"@,
                            Some(new_path),
                        ),
                    ]
                },
                _ => seq![],
            }
        } else {
            seq![]
        }
    } else {
        if args.len() > 0 {
            match list_of_strings_spec(args[0]) {
                Some(old) => {
                    let detail = if args.len() > 1 && args[1].kind == NODE_STRING && !all_ws(
                        string_text_spec(args[1]),
                    ) {
                        " "@ + string_text_spec(args[1])
                    } else {
                        seq![]
                    };
                    seq![
                        deprecation_doc(
                            c,
                            n,
                            "options."@ + join_with(old, "."@),
                            "> [!WARNING]\n> This option has been removed."@ + detail,
                            "removed option"@,
                            None,
                        ),
                    ]
                },
                None => seq![],
            }
        } else {
            seq![]
        }
    }
}

/// The rename or removal shim called at `n`, if it calls one: its name and
/// arguments.
pub open spec fn shim_call(n: SyntaxNode, al: Seq<(Seq<char>, Seq<char>)>) -> Option<(Seq<char>, Seq<SyntaxNode>)> {
    if n.kind == crate::syntax::NODE_APPLY {
        match resolve_call_spec(n, al) {
            Some((name, args)) => if name == "mkRenamedOptionModule"@ || name
                == "mkRemovedOptionModule"@ {
                Some((name, args))
            } else {
                None
            },
            None => None,
        }
    } else {
        None
    }
}

/// The shims at and below `n` (`depth` levels down), in preorder; a shim
/// call's own curried sub-applications are not visited again.
pub open spec fn deprecations_spec(c: FileContext, n: SyntaxNode, depth: nat) -> Seq<OptionDocView>
    decreases MAX_TRAVERSAL_DEPTH - depth, 1nat, 0nat,
{
    if depth >= MAX_TRAVERSAL_DEPTH {
        seq![]
    } else {
        match shim_call(n, c.aliases) {
            Some((name, args)) => shim_docs(c, n, name, args),
            None => deprecations_elems(c, n.children@, depth),
        }
    }
}

/// The shims at and below the child nodes among `es`.
pub open spec fn deprecations_elems(c: FileContext, es: Seq<SyntaxElement>, depth: nat) -> Seq<OptionDocView>
    decreases MAX_TRAVERSAL_DEPTH - depth, 0nat, es.len(),
{
    if depth >= MAX_TRAVERSAL_DEPTH || es.len() == 0 {
        seq![]
    } else {
        deprecations_elems(c, es.drop_last(), depth) + match es.last() {
            SyntaxElement::Node(ch) => deprecations_spec(c, ch, depth + 1),
            SyntaxElement::Token(_) => seq![],
        }
    }
}

fn deprecation_doc_exec(w: &Walk, n: &SyntaxNode, name: Vec<char>, description: Vec<char>, nix_type: &str, renamed_to: Option<Vec<char>>) -> (r: OptionDoc)
    requires
        w.lines.wf(),
    ensures
        r@ == deprecation_doc(w.ctx(), *n, name@, description@, nix_type@, opt_chars(renamed_to)),
{
    let fp = chars_of(w.file_path);
    let decl = Declaration {
        file_path: string_of(fp.as_slice()),
        line_number: w.lines.line_number(n.start),
        description: None,
        condition: None,
    };
    let mut declarations: Vec<Declaration> = Vec::new();
    declarations.push(decl);
    let nt = chars_of(nix_type);
    let r = OptionDoc {
        name: string_of(name.as_slice()),
        description: Some(string_of(description.as_slice())),
        nix_type: string_of(nt.as_slice()),
        default_value: None,
        example: None,
        renamed_to: opt_string(&renamed_to),
        declarations,
    };
    assert(r@.declarations =~= deprecation_doc(w.ctx(), *n, name@, description@, nix_type@, opt_chars(renamed_to)).declarations);
    r
}

fn options_name(old: &Vec<Vec<char>>) -> (r: Vec<char>)
    ensures
        r@ == "options."@ + join_with(old@.map_values(|x: Vec<char>| x@), "."@),
{
    let mut v = chars_of("options.");
    let j = join_exec(old, ".");
    push_all(&mut v, j.as_slice());
    v
}

fn shim_docs_exec(w: &Walk, n: &SyntaxNode, name: &Vec<char>, args: &Vec<&SyntaxNode>) -> (r: Vec<OptionDoc>)
    requires
        w.lines.wf(),
    ensures
        docs_view(r@) == shim_docs(w.ctx(), *n, name@, derefs(args@)),
{
    let ghost sargs = derefs(args@);
    let mut out: Vec<OptionDoc> = Vec::new();
    if is(name.as_slice(), "mkRenamedOptionModule") {
        if args.len() > 1 {
            match (list_of_strings(args[0]), list_of_strings(args[1])) {
                (Some(old), Some(new)) => {
                    let new_path = join_exec(&new, ".");
                    let mut d = chars_of("> [!WARNING]\n> This option was renamed. Use ");
                    let code = crate::utils::inline_code_chars(new_path.as_slice());
                    push_all(&mut d, code.as_slice());
                    push_str(&mut d, " instead.");
                    let doc = deprecation_doc_exec(w, n, options_name(&old), d, "renamed option", Some(new_path));
                    out.push(doc);
                },
                _ => {},
            }
        }
    } else {
        if args.len() > 0 {
            match list_of_strings(args[0]) {
                Some(old) => {
                    let detail = if args.len() > 1 && args[1].kind == NODE_STRING {
                        let m = string_text(args[1]);
                        if !crate::text::all_ws_exec(m.as_slice()) {
                            let mut v = chars_of(" ");
                            push_all(&mut v, m.as_slice());
                            v
                        } else {
                            Vec::new()
                        }
                    } else {
                        Vec::new()
                    };
                    let mut d = chars_of("> [!WARNING]\n> This option has been removed.");
                    push_all(&mut d, detail.as_slice());
                    let doc = deprecation_doc_exec(w, n, options_name(&old), d, "removed option", None);
                    out.push(doc);
                },
                None => {},
            }
        }
    }
    assert(docs_view(out@) =~= shim_docs(w.ctx(), *n, name@, sargs));
    out
}

fn deprecations<'a>(w: &Walk<'a>, n: &'a SyntaxNode, depth: usize) -> (r: Vec<OptionDoc>)
    requires
        w.lines.wf(),
    ensures
        docs_view(r@) == deprecations_spec(w.ctx(), *n, depth as nat),
    decreases MAX_TRAVERSAL_DEPTH - depth, 1nat, 0nat,
{
    if depth >= MAX_TRAVERSAL_DEPTH {
        return empty_docs();
    }
    if n.kind == crate::syntax::NODE_APPLY {
        if let Some((name, args)) = resolve_call(n, w.aliases) {
            if is(name.as_slice(), "mkRenamedOptionModule") || is(name.as_slice(), "mkRemovedOptionModule") {
                return shim_docs_exec(w, n, &name, &args);
            }
        }
    }
    let es = &n.children;
    let mut out = empty_docs();
    for k in 0..es.len()
        invariant
            es@ == n.children@,
            w.lines.wf(),
            depth < MAX_TRAVERSAL_DEPTH,
            docs_view(out@) == deprecations_elems(w.ctx(), es@.take(k as int), depth as nat),
    {
        assert(es@.take(k + 1).drop_last() =~= es@.take(k as int));
        if let SyntaxElement::Node(c) = &es[k] {
            let more = deprecations(w, c, depth + 1);
            append_docs(&mut out, more);
        }
    }
    assert(es@.take(es@.len() as int) =~= es@);
    out
}

/// Scans a whole file (wherever in the tree they appear, typically inside
/// `imports = [ ... ];`) for `mkRenamedOptionModule` and
/// `mkRemovedOptionModule` shims, each as a synthetic entry at the old
/// option's name whose description is a warning callout.
pub fn find_deprecations<'a>(
    node: &'a SyntaxNode,
    file_path: &'a str,
    line_index: &'a LineIndex,
    aliases: &'a Vec<(String, String)>,
) -> (r: Vec<OptionDoc>)
    requires
        line_index.wf(),
    ensures
        docs_view(r@) == deprecations_spec(
            file_context(file_path@, seq![], line_index.source@, pairs_view(aliases@), seq![]),
            *node,
            0,
        ),
{
    let no_replacements: Vec<(String, String)> = Vec::new();
    let no_bindings: Vec<(String, &SyntaxNode)> = Vec::new();
    let w = Walk {
        file_path,
        replacements: no_replacements.as_slice(),
        lines: line_index,
        aliases,
        let_bindings: &no_bindings,
    };
    assert(no_replacements@ =~= Seq::<(String, String)>::empty());
    assert(bindings_view(no_bindings@) =~= Seq::<(Seq<char>, SyntaxNode)>::empty());
    assert(w.ctx() == file_context(file_path@, seq![], line_index.source@, pairs_view(aliases@), seq![]));
    deprecations(&w, node, 0)
}

// ---------------------------------------------------------------------
// A whole file
// ---------------------------------------------------------------------

/// `t` is the tree `rnix` parses `src` into.
pub open spec fn is_tree_of(t: SyntaxNode, src: Seq<char>) -> bool {
    crate::syntax::tree_of_walk(t, crate::syntax::nix_parse_events(src))
}

/// The options a file whose tree is `t` and whose text is `src`
/// documents: those its option declarations declare (walked from the root
/// with an empty prefix, no condition and a fresh budget), then its rename
/// and removal shims.
pub open spec fn file_options_spec(t: SyntaxNode, src: Seq<char>, path: Seq<char>, reps: Seq<(String, String)>) -> Seq<OptionDocView> {
    let al = crate::nix_call::aliases_in(t, 0);
    let c = file_context(path, reps, src, al, crate::nix_call::bindings_in(t, 0));
    let fresh = ExpansionBudget { emitted: 0, expanded_bytes: 0, warned: false, options_cap_hit: false };
    visit_spec(c, t, Scope { prefix: seq![], cond: None, stack: seq![] }, fresh, 0).0
        + deprecations_spec(file_context(path, seq![], src, al, seq![]), t, 0)
}

/// The expansion budget the walk of a file whose tree is `t` ends with.
pub open spec fn file_budget_spec(t: SyntaxNode, src: Seq<char>, path: Seq<char>, reps: Seq<(String, String)>) -> ExpansionBudget {
    let al = crate::nix_call::aliases_in(t, 0);
    let c = file_context(path, reps, src, al, crate::nix_call::bindings_in(t, 0));
    let fresh = ExpansionBudget { emitted: 0, expanded_bytes: 0, warned: false, options_cap_hit: false };
    visit_spec(c, t, Scope { prefix: seq![], cond: None, stack: seq![] }, fresh, 0).1
}

/// The truncation warning the walk of a file whose tree is `t` gives, if
/// its submodule expansion was cut short.
pub open spec fn file_warning_spec(t: SyntaxNode, src: Seq<char>, path: Seq<char>, reps: Seq<(String, String)>) -> Option<Seq<char>> {
    truncation_warning_spec(path, file_budget_spec(t, src, path, reps))
}

/// The options of one file and its truncation warning, given its tree and
/// text.
fn walk_file(root: &SyntaxNode, content: &str, relative_path: &str, replacements: &[(String, String)]) -> (r: (Vec<OptionDoc>, Option<String>))
    ensures
        docs_view(r.0@) == file_options_spec(*root, content@, relative_path@, replacements@),
        opt_view(r.1) == file_warning_spec(*root, content@, relative_path@, replacements@),
{
    let line_index = LineIndex::new(content);
    let aliases = crate::nix_call::collect_aliases(root);
    let let_bindings = crate::nix_call::collect_let_bindings(root);
    let mut budget = ExpansionBudget::new();
    let empty_stack: Vec<(usize, usize)> = Vec::new();
    proof {
        reveal_strlit("");
    }
    assert(""@ =~= Seq::<char>::empty());
    assert(empty_stack@.map_values(|x: (usize, usize)| (x.0 as int, x.1 as int)) =~= Seq::<(int, int)>::empty());
    let mut options = visit_node(
        0,
        root,
        relative_path,
        "",
        replacements,
        &line_index,
        &aliases,
        &let_bindings,
        None,
        empty_stack.as_slice(),
        &mut budget,
    );
    let warning = budget.truncation_warning(relative_path);
    let shims = find_deprecations(root, relative_path, &line_index, &aliases);
    append_docs(&mut options, shims);
    (options, warning)
}

/// The options of one file, given its tree and text.
pub fn file_options(root: &SyntaxNode, content: &str, relative_path: &str, replacements: &[(String, String)]) -> (r: Vec<OptionDoc>)
    ensures
        docs_view(r@) == file_options_spec(*root, content@, relative_path@, replacements@),
{
    walk_file(root, content, relative_path, replacements).0
}

/// Extracts the option documentation of one Nix file from its text and
/// its path relative to the scanned directory, with the warning to give
/// when the file's submodule expansion was cut short: the options of the
/// tree `rnix` parses the text into, or none (and no warning) when no tree
/// has that walk.
pub fn process_nix_source_with_warning(content: &str, relative_path: &str, replacements: &[(String, String)]) -> (r: (
    Vec<OptionDoc>,
    Option<String>,
))
    ensures
        (exists|t: SyntaxNode| is_tree_of(t, content@)) ==> exists|t: SyntaxNode|
            {
                &&& is_tree_of(t, content@)
                &&& docs_view(r.0@) == file_options_spec(t, content@, relative_path@, replacements@)
                &&& opt_view(r.1) == file_warning_spec(t, content@, relative_path@, replacements@)
            },
        (forall|t: SyntaxNode| !is_tree_of(t, content@)) ==> docs_view(r.0@) == Seq::<
            OptionDocView,
        >::empty() && r.1 is None,
{
    match crate::syntax::parse_tree(content) {
        Some(root) => {
            let r = walk_file(&root, content, relative_path, replacements);
            assert(is_tree_of(root, content@));
            r
        },
        None => (empty_docs(), None),
    }
}

/// Extracts the option documentation of one Nix file from its text and
/// its path relative to the scanned directory: the options of the tree
/// `rnix` parses the text into, or none when no tree has that walk.
pub fn process_nix_source(content: &str, relative_path: &str, replacements: &[(String, String)]) -> (r: Vec<OptionDoc>)
    ensures
        (exists|t: SyntaxNode| is_tree_of(t, content@)) ==> exists|t: SyntaxNode|
            is_tree_of(t, content@) && docs_view(r@) == file_options_spec(
                t,
                content@,
                relative_path@,
                replacements@,
            ),
        (forall|t: SyntaxNode| !is_tree_of(t, content@)) ==> docs_view(r@) == Seq::<
            OptionDocView,
        >::empty(),
{
    process_nix_source_with_warning(content, relative_path, replacements).0
}

// ---------------------------------------------------------------------
// Every entry the walk finds is named under the scope it was found in
// ---------------------------------------------------------------------

/// `name` lies under `prefix`: it is the prefix itself or continues it
/// after a dot (any name lies under the empty prefix).
pub open spec fn name_extends(name: Seq<char>, prefix: Seq<char>) -> bool {
    prefix.len() == 0 || name == prefix || crate::text::starts_with(name, prefix + "."@)
}

/// Every entry of `opts` is named under `prefix` and is no rename shim.
pub open spec fn entries_extend(opts: Seq<OptionDocView>, prefix: Seq<char>) -> bool {
    forall|i: int|
        0 <= i < opts.len() ==> name_extends((#[trigger] opts[i]).name, prefix) && opts[i].renamed_to
            is None
}

proof fn entries_extend_concat(a: Seq<OptionDocView>, b: Seq<OptionDocView>, p: Seq<char>)
    requires
        entries_extend(a, p),
        entries_extend(b, p),
    ensures
        entries_extend(a + b, p),
{
    assert forall|i: int| 0 <= i < (a + b).len() implies name_extends((#[trigger] (a + b)[i]).name, p)
        && (a + b)[i].renamed_to is None by {
        if i < a.len() {
            assert((a + b)[i] == a[i]);
        } else {
            assert((a + b)[i] == b[i - a.len()]);
        }
    }
}

proof fn extends_transitive(a: Seq<char>, q: Seq<char>, p: Seq<char>)
    requires
        name_extends(a, q),
        name_extends(q, p),
    ensures
        name_extends(a, p),
{
    reveal_strlit(".");
    if p.len() > 0 && q != p {
        let pd = p + "."@;
        let qd = q + "."@;
        assert(q.take(pd.len() as int) == pd);
        if a != q {
            assert(a.take(qd.len() as int) == qd);
            assert(a.take(pd.len() as int) =~= pd) by {
                assert forall|k: int| 0 <= k < pd.len() implies a.take(pd.len() as int)[k] == pd[k] by {
                    assert(a[k] == qd[k]);
                    assert(qd[k] == q[k]);
                    assert(q[k] == pd[k]);
                }
            }
        }
    }
}

proof fn entries_extend_weaken(opts: Seq<OptionDocView>, q: Seq<char>, p: Seq<char>)
    requires
        entries_extend(opts, q),
        name_extends(q, p),
    ensures
        entries_extend(opts, p),
{
    assert forall|i: int| 0 <= i < opts.len() implies name_extends((#[trigger] opts[i]).name, p)
        && opts[i].renamed_to is None by {
        extends_transitive(opts[i].name, q, p);
    }
}

proof fn dotted_extends(p: Seq<char>, key: Seq<char>)
    ensures
        name_extends(dotted(p, key), p),
{
    reveal_strlit(".");
    if p.len() > 0 {
        assert((p + "."@ + key).take((p + "."@).len() as int) =~= p + "."@);
    }
}

proof fn suffix_extends(p: Seq<char>, suffix: Seq<char>)
    requires
        suffix.len() > 0,
        suffix[0] == '.',
    ensures
        name_extends(p + suffix, p),
{
    reveal_strlit(".");
    if p.len() > 0 {
        assert((p + suffix).take((p + "."@).len() as int) =~= p + "."@);
    }
}

proof fn visit_named_under(c: FileContext, n: SyntaxNode, s: Scope, b: ExpansionBudget, depth: nat)
    ensures
        entries_extend(visit_spec(c, n, s, b, depth).0, s.prefix),
    decreases MAX_TRAVERSAL_DEPTH - depth, 2nat, 0nat,
{
    if depth < MAX_TRAVERSAL_DEPTH {
        if n.kind == crate::syntax::NODE_ATTRPATH_VALUE {
            match (
                nth_child(n, NodeFilter::Kind(crate::syntax::NODE_ATTRPATH), 0),
                nth_child(n, NodeFilter::Any, 1),
            ) {
                (Some(p), Some(v)) => {
                    let ns = Scope { prefix: dotted(s.prefix, attrpath_name(p, c.reps)), ..s };
                    attrset_named_under(c, v, ns, b, depth + 1);
                    dotted_extends(s.prefix, attrpath_name(p, c.reps));
                    entries_extend_weaken(attrset_spec(c, v, ns, b, depth + 1).0, ns.prefix, s.prefix);
                },
                _ => {},
            }
        } else {
            match as_mkif(n, c.aliases) {
                Some((cn, v)) => {
                    visit_named_under(
                        c,
                        v,
                        Scope {
                            cond: Some(combine_condition_spec(s.cond, format_condition_spec(cn))),
                            ..s
                        },
                        b,
                        depth + 1,
                    );
                },
                None => {
                    visit_elems_named_under(c, n.children@, s, b, depth);
                },
            }
        }
    }
}

proof fn visit_elems_named_under(c: FileContext, es: Seq<SyntaxElement>, s: Scope, b: ExpansionBudget, depth: nat)
    ensures
        entries_extend(visit_elems(c, es, s, b, depth).0, s.prefix),
    decreases MAX_TRAVERSAL_DEPTH - depth, 0nat, es.len(),
{
    if depth < MAX_TRAVERSAL_DEPTH && es.len() > 0 {
        visit_elems_named_under(c, es.drop_last(), s, b, depth);
        let (o1, b1) = visit_elems(c, es.drop_last(), s, b, depth);
        match es.last() {
            SyntaxElement::Node(ch) => {
                visit_named_under(c, ch, s, b1, depth + 1);
                entries_extend_concat(o1, visit_spec(c, ch, s, b1, depth + 1).0, s.prefix);
            },
            SyntaxElement::Token(_) => {},
        }
    }
}

proof fn attrset_named_under(c: FileContext, node: SyntaxNode, s: Scope, b: ExpansionBudget, depth: nat)
    ensures
        entries_extend(attrset_spec(c, node, s, b, depth).0, s.prefix),
    decreases MAX_TRAVERSAL_DEPTH - depth, 2nat, 0nat,
{
    let n = crate::types::unwrap_paren_all(node);
    if depth < MAX_TRAVERSAL_DEPTH {
        if n.kind == crate::syntax::NODE_ATTR_SET {
            visit_elems_named_under(c, n.children@, s, b, depth);
        } else if n.kind == crate::syntax::NODE_APPLY {
            match resolve_call_spec(n, c.aliases) {
                Some((name, args)) => {
                    call_named_under(c, n, name, args, s, b, depth);
                },
                None => {},
            }
        } else if n.kind == crate::syntax::NODE_WITH {
            match nth_child(n, NodeFilter::Any, 1) {
                Some(body) => {
                    visit_named_under(c, body, s, b, depth + 1);
                },
                None => {},
            }
        } else if n.kind == crate::syntax::NODE_LET_IN {
            match nth_child(n, NodeFilter::Expr, 0) {
                Some(body) => {
                    attrset_named_under(c, body, s, b, depth + 1);
                },
                None => {},
            }
        } else if n.kind == crate::syntax::NODE_BIN_OP && (crate::syntax::bin_op_token(n) matches Some(
            t,
        ) && t.kind == crate::syntax::TOKEN_UPDATE) {
            match (nth_child(n, NodeFilter::Expr, 0), nth_child(n, NodeFilter::Expr, 1)) {
                (Some(l), Some(r)) => {
                    attrset_named_under(c, l, s, b, depth + 1);
                    let base = attrset_spec(c, l, s, b, depth + 1).0;
                    let f = scan_fields(c, crate::types::unwrap_paren_all(r).children@);
                    let m = base.map_values(|o: OptionDocView| overridden(o, f));
                    assert forall|i: int| 0 <= i < m.len() implies name_extends(
                        (#[trigger] m[i]).name,
                        s.prefix,
                    ) && m[i].renamed_to is None by {
                        assert(m[i].name == base[i].name && m[i].renamed_to == base[i].renamed_to);
                    }
                },
                _ => {},
            }
        }
    }
}

proof fn attrset_items_named_under(c: FileContext, items: Seq<SyntaxNode>, s: Scope, b: ExpansionBudget, depth: nat)
    ensures
        entries_extend(attrset_items(c, items, s, b, depth).0, s.prefix),
    decreases MAX_TRAVERSAL_DEPTH - depth, 0nat, items.len(),
{
    if depth < MAX_TRAVERSAL_DEPTH && items.len() > 0 {
        attrset_items_named_under(c, items.drop_last(), s, b, depth);
        let (o1, b1) = attrset_items(c, items.drop_last(), s, b, depth);
        attrset_named_under(c, items.last(), s, b1, depth + 1);
        entries_extend_concat(o1, attrset_spec(c, items.last(), s, b1, depth + 1).0, s.prefix);
    }
}

proof fn call_named_under(c: FileContext, n: SyntaxNode, name: Seq<char>, args: Seq<SyntaxNode>, s: Scope, b: ExpansionBudget, depth: nat)
    ensures
        entries_extend(call_spec(c, n, name, args, s, b, depth).0, s.prefix),
    decreases MAX_TRAVERSAL_DEPTH - depth, 1nat, 0nat,
{
    if depth < MAX_TRAVERSAL_DEPTH {
        if name == "mkMerge"@ {
            if args.len() > 0 && args[0].kind == NODE_LIST {
                attrset_items_named_under(c, list_items(args[0]), s, b, depth);
            }
        } else if name == "mkIf"@ {
            if args.len() > 1 {
                attrset_named_under(
                    c,
                    args[1],
                    Scope {
                        cond: Some(combine_condition_spec(s.cond, format_condition_spec(args[0]))),
                        ..s
                    },
                    b,
                    depth + 1,
                );
            }
        } else if name == "mkOption"@ {
            option_named_under(c, n, args, s, b, depth);
        }
    }
}

proof fn option_named_under(c: FileContext, n: SyntaxNode, args: Seq<SyntaxNode>, s: Scope, b: ExpansionBudget, depth: nat)
    ensures
        entries_extend(option_spec(c, n, args, s, b, depth).0, s.prefix),
    decreases MAX_TRAVERSAL_DEPTH - depth, 0nat, 0nat,
{
    let f = if args.len() > 0 && args[0].kind == crate::syntax::NODE_ATTR_SET {
        scan_fields(c, args[0].children@)
    } else {
        no_fields()
    };
    let b1 = recorded_option(b);
    if depth < MAX_TRAVERSAL_DEPTH {
        match f.type_node {
            None => {},
            Some(t) => match crate::types::find_submodule_body_spec(t, c.aliases, c.lets) {
                None => {},
                Some((body, is_container)) => {
                    let range = body_range(body);
                    if !(s.stack.contains(range) || s.stack.len() >= crate::types::MAX_SUBMODULE_DEPTH)
                        && !budget_exhausted(b1) {
                        let b2 = recorded_expansion(b1, utf8_len(node_text(body)));
                        let np = if is_container {
                            s.prefix + ".<name>"@
                        } else {
                            s.prefix
                        };
                        let ns = Scope { prefix: np, cond: s.cond, stack: s.stack.push(range) };
                        let nested = match crate::types::submodule_options_attrset_spec(body) {
                            Some(oa) => attrset_spec(c, oa, ns, b2, depth + 1).0,
                            None => seq![],
                        };
                        match crate::types::submodule_options_attrset_spec(body) {
                            Some(oa) => {
                                attrset_named_under(c, oa, ns, b2, depth + 1);
                            },
                            None => {},
                        }
                        reveal_strlit(".<name>");
                        reveal_strlit(".<freeform>");
                        suffix_extends(s.prefix, ".<name>"@);
                        assert(name_extends(np, s.prefix));
                        entries_extend_weaken(nested, np, s.prefix);
                        suffix_extends(np, ".<freeform>"@);
                        extends_transitive(np + ".<freeform>"@, np, s.prefix);
                        let r = option_spec(c, n, args, s, b, depth).0;
                        assert forall|i: int| 0 <= i < r.len() implies name_extends(
                            (#[trigger] r[i]).name,
                            s.prefix,
                        ) && r[i].renamed_to is None by {
                            if 1 <= i < 1 + nested.len() {
                                assert(r[i] == nested[i - 1]);
                            }
                        }
                    }
                },
            },
        }
    }
}

/// The walk finds options only under the scope it starts in: every entry
/// it gives for a node walked under `s.prefix` is named by that prefix or
/// continues it after a dot, and none is a rename shim (those come only
/// from the separate scan for `mkRenamedOptionModule`).
pub proof fn visit_names_extend_prefix(c: FileContext, n: SyntaxNode, s: Scope, b: ExpansionBudget, depth: nat)
    ensures
        entries_extend(visit_spec(c, n, s, b, depth).0, s.prefix),
{
    visit_named_under(c, n, s, b, depth);
}

// ---------------------------------------------------------------------
// Every entry found is declared once, in the file it was found in
// ---------------------------------------------------------------------

/// Every entry of `opts` has exactly one declaration, in `file`.
pub open spec fn declared_once_in(opts: Seq<OptionDocView>, file: Seq<char>) -> bool {
    forall|i: int|
        0 <= i < opts.len() ==> (#[trigger] opts[i]).declarations.len() == 1
            && opts[i].declarations[0].file_path == file
}

proof fn declared_once_concat(a: Seq<OptionDocView>, b: Seq<OptionDocView>, file: Seq<char>)
    requires
        declared_once_in(a, file),
        declared_once_in(b, file),
    ensures
        declared_once_in(a + b, file),
{
    assert forall|i: int| 0 <= i < (a + b).len() implies (#[trigger] (a + b)[i]).declarations.len() == 1
        && (a + b)[i].declarations[0].file_path == file by {
        if i < a.len() {
            assert((a + b)[i] == a[i]);
        } else {
            assert((a + b)[i] == b[i - a.len()]);
        }
    }
}

proof fn visit_declared_once(c: FileContext, n: SyntaxNode, s: Scope, b: ExpansionBudget, depth: nat)
    ensures
        declared_once_in(visit_spec(c, n, s, b, depth).0, c.file),
    decreases MAX_TRAVERSAL_DEPTH - depth, 2nat, 0nat,
{
    if depth < MAX_TRAVERSAL_DEPTH {
        if n.kind == crate::syntax::NODE_ATTRPATH_VALUE {
            match (
                nth_child(n, NodeFilter::Kind(crate::syntax::NODE_ATTRPATH), 0),
                nth_child(n, NodeFilter::Any, 1),
            ) {
                (Some(p), Some(v)) => {
                    attrset_declared_once(
                        c,
                        v,
                        Scope { prefix: dotted(s.prefix, attrpath_name(p, c.reps)), ..s },
                        b,
                        depth + 1,
                    );
                },
                _ => {},
            }
        } else {
            match as_mkif(n, c.aliases) {
                Some((cn, v)) => {
                    visit_declared_once(
                        c,
                        v,
                        Scope {
                            cond: Some(combine_condition_spec(s.cond, format_condition_spec(cn))),
                            ..s
                        },
                        b,
                        depth + 1,
                    );
                },
                None => {
                    visit_elems_declared_once(c, n.children@, s, b, depth);
                },
            }
        }
    }
}

proof fn visit_elems_declared_once(c: FileContext, es: Seq<SyntaxElement>, s: Scope, b: ExpansionBudget, depth: nat)
    ensures
        declared_once_in(visit_elems(c, es, s, b, depth).0, c.file),
    decreases MAX_TRAVERSAL_DEPTH - depth, 0nat, es.len(),
{
    if depth < MAX_TRAVERSAL_DEPTH && es.len() > 0 {
        visit_elems_declared_once(c, es.drop_last(), s, b, depth);
        let (o1, b1) = visit_elems(c, es.drop_last(), s, b, depth);
        match es.last() {
            SyntaxElement::Node(ch) => {
                visit_declared_once(c, ch, s, b1, depth + 1);
                declared_once_concat(o1, visit_spec(c, ch, s, b1, depth + 1).0, c.file);
            },
            SyntaxElement::Token(_) => {},
        }
    }
}

proof fn attrset_declared_once(c: FileContext, node: SyntaxNode, s: Scope, b: ExpansionBudget, depth: nat)
    ensures
        declared_once_in(attrset_spec(c, node, s, b, depth).0, c.file),
    decreases MAX_TRAVERSAL_DEPTH - depth, 2nat, 0nat,
{
    let n = crate::types::unwrap_paren_all(node);
    if depth < MAX_TRAVERSAL_DEPTH {
        if n.kind == crate::syntax::NODE_ATTR_SET {
            visit_elems_declared_once(c, n.children@, s, b, depth);
        } else if n.kind == crate::syntax::NODE_APPLY {
            match resolve_call_spec(n, c.aliases) {
                Some((name, args)) => {
                    call_declared_once(c, n, name, args, s, b, depth);
                },
                None => {},
            }
        } else if n.kind == crate::syntax::NODE_WITH {
            match nth_child(n, NodeFilter::Any, 1) {
                Some(body) => {
                    visit_declared_once(c, body, s, b, depth + 1);
                },
                None => {},
            }
        } else if n.kind == crate::syntax::NODE_LET_IN {
            match nth_child(n, NodeFilter::Expr, 0) {
                Some(body) => {
                    attrset_declared_once(c, body, s, b, depth + 1);
                },
                None => {},
            }
        } else if n.kind == crate::syntax::NODE_BIN_OP && (crate::syntax::bin_op_token(n) matches Some(
            t,
        ) && t.kind == crate::syntax::TOKEN_UPDATE) {
            match (nth_child(n, NodeFilter::Expr, 0), nth_child(n, NodeFilter::Expr, 1)) {
                (Some(l), Some(r)) => {
                    attrset_declared_once(c, l, s, b, depth + 1);
                    let base = attrset_spec(c, l, s, b, depth + 1).0;
                    let f = scan_fields(c, crate::types::unwrap_paren_all(r).children@);
                    let m = base.map_values(|o: OptionDocView| overridden(o, f));
                    assert forall|i: int| 0 <= i < m.len() implies (#[trigger] m[i]).declarations.len() == 1
                        && m[i].declarations[0].file_path == c.file by {
                        assert(m[i].declarations == base[i].declarations);
                    }
                },
                _ => {},
            }
        }
    }
}

proof fn attrset_items_declared_once(c: FileContext, items: Seq<SyntaxNode>, s: Scope, b: ExpansionBudget, depth: nat)
    ensures
        declared_once_in(attrset_items(c, items, s, b, depth).0, c.file),
    decreases MAX_TRAVERSAL_DEPTH - depth, 0nat, items.len(),
{
    if depth < MAX_TRAVERSAL_DEPTH && items.len() > 0 {
        attrset_items_declared_once(c, items.drop_last(), s, b, depth);
        let (o1, b1) = attrset_items(c, items.drop_last(), s, b, depth);
        attrset_declared_once(c, items.last(), s, b1, depth + 1);
        declared_once_concat(o1, attrset_spec(c, items.last(), s, b1, depth + 1).0, c.file);
    }
}

proof fn call_declared_once(c: FileContext, n: SyntaxNode, name: Seq<char>, args: Seq<SyntaxNode>, s: Scope, b: ExpansionBudget, depth: nat)
    ensures
        declared_once_in(call_spec(c, n, name, args, s, b, depth).0, c.file),
    decreases MAX_TRAVERSAL_DEPTH - depth, 1nat, 0nat,
{
    if depth < MAX_TRAVERSAL_DEPTH {
        if name == "mkMerge"@ {
            if args.len() > 0 && args[0].kind == NODE_LIST {
                attrset_items_declared_once(c, list_items(args[0]), s, b, depth);
            }
        } else if name == "mkIf"@ {
            if args.len() > 1 {
                attrset_declared_once(
                    c,
                    args[1],
                    Scope {
                        cond: Some(combine_condition_spec(s.cond, format_condition_spec(args[0]))),
                        ..s
                    },
                    b,
                    depth + 1,
                );
            }
        } else if name == "mkOption"@ {
            option_declared_once(c, n, args, s, b, depth);
        }
    }
}

proof fn option_declared_once(c: FileContext, n: SyntaxNode, args: Seq<SyntaxNode>, s: Scope, b: ExpansionBudget, depth: nat)
    ensures
        declared_once_in(option_spec(c, n, args, s, b, depth).0, c.file),
    decreases MAX_TRAVERSAL_DEPTH - depth, 0nat, 0nat,
{
    let f = if args.len() > 0 && args[0].kind == crate::syntax::NODE_ATTR_SET {
        scan_fields(c, args[0].children@)
    } else {
        no_fields()
    };
    let b1 = recorded_option(b);
    if depth < MAX_TRAVERSAL_DEPTH {
        match f.type_node {
            None => {},
            Some(t) => match crate::types::find_submodule_body_spec(t, c.aliases, c.lets) {
                None => {},
                Some((body, is_container)) => {
                    let range = body_range(body);
                    if !(s.stack.contains(range) || s.stack.len() >= crate::types::MAX_SUBMODULE_DEPTH)
                        && !budget_exhausted(b1) {
                        let b2 = recorded_expansion(b1, utf8_len(node_text(body)));
                        let np = if is_container {
                            s.prefix + ".<name>"@
                        } else {
                            s.prefix
                        };
                        let ns = Scope { prefix: np, cond: s.cond, stack: s.stack.push(range) };
                        match crate::types::submodule_options_attrset_spec(body) {
                            Some(oa) => {
                                attrset_declared_once(c, oa, ns, b2, depth + 1);
                            },
                            None => {},
                        }
                        let r = option_spec(c, n, args, s, b, depth).0;
                        assert forall|i: int| 0 <= i < r.len() implies (#[trigger] r[i]).declarations.len()
                            == 1 && r[i].declarations[0].file_path == c.file by {
                            let nested = match crate::types::submodule_options_attrset_spec(body) {
                                Some(oa) => attrset_spec(c, oa, ns, b2, depth + 1).0,
                                None => seq![],
                            };
                            if 1 <= i < 1 + nested.len() {
                                assert(r[i] == nested[i - 1]);
                            }
                        }
                    }
                },
            },
        }
    }
}

proof fn deprecations_declared_once(c: FileContext, n: SyntaxNode, depth: nat)
    ensures
        declared_once_in(deprecations_spec(c, n, depth), c.file),
    decreases MAX_TRAVERSAL_DEPTH - depth, 1nat, 0nat,
{
    if depth < MAX_TRAVERSAL_DEPTH {
        match shim_call(n, c.aliases) {
            Some(_) => {},
            None => {
                deprecations_elems_declared_once(c, n.children@, depth);
            },
        }
    }
}

proof fn deprecations_elems_declared_once(c: FileContext, es: Seq<SyntaxElement>, depth: nat)
    ensures
        declared_once_in(deprecations_elems(c, es, depth), c.file),
    decreases MAX_TRAVERSAL_DEPTH - depth, 0nat, es.len(),
{
    if depth < MAX_TRAVERSAL_DEPTH && es.len() > 0 {
        deprecations_elems_declared_once(c, es.drop_last(), depth);
        match es.last() {
            SyntaxElement::Node(ch) => {
                deprecations_declared_once(c, ch, depth + 1);
                declared_once_concat(
                    deprecations_elems(c, es.drop_last(), depth),
                    deprecations_spec(c, ch, depth + 1),
                    c.file,
                );
            },
            SyntaxElement::Token(_) => {
                assert(deprecations_elems(c, es, depth) =~= deprecations_elems(c, es.drop_last(), depth));
            },
        }
    }
}

/// Every entry a file documents (an option or a rename or removal shim)
/// has exactly one declaration, and that declaration is in the file.
pub proof fn file_options_declared_once(t: SyntaxNode, src: Seq<char>, path: Seq<char>, reps: Seq<(String, String)>)
    ensures
        declared_once_in(file_options_spec(t, src, path, reps), path),
{
    let al = crate::nix_call::aliases_in(t, 0);
    let c = file_context(path, reps, src, al, crate::nix_call::bindings_in(t, 0));
    let fresh = ExpansionBudget { emitted: 0, expanded_bytes: 0, warned: false, options_cap_hit: false };
    visit_declared_once(c, t, Scope { prefix: seq![], cond: None, stack: seq![] }, fresh, 0);
    deprecations_declared_once(file_context(path, seq![], src, al, seq![]), t, 0);
    declared_once_concat(
        visit_spec(c, t, Scope { prefix: seq![], cond: None, stack: seq![] }, fresh, 0).0,
        deprecations_spec(file_context(path, seq![], src, al, seq![]), t, 0),
        path,
    );
}

} // verus!
