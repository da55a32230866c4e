//! HTML output: a self-contained page with a type legend, instant search
//! and one article per option.

use vstd::prelude::*;

pub use crate::generate::template::{HTML_TEMPLATE_HEAD, SEARCH_SCRIPT_TEMPLATE};
use crate::parser::{utf8_len, utf8_len_exec};
use crate::text::{
    chars_of, contains, contains_char, contains_seq, has_char, push_all, push_str, replace_all, starts_with,
    replace_all_exec, string_of,
};
use crate::utils::{anchor_slug_spec, sanitize_link_target_chars, sanitize_link_target_spec};
use crate::generate::markdown::{decimal, decimal_exec, declaration_target};
use crate::{lowercased, opt_view, options_view, Declaration, DeclarationView, OptionDoc, OptionDocView};

verus! {

broadcast use vstd::string::group_string_axioms;

// ---------------------------------------------------------------------
// Escaping
// ---------------------------------------------------------------------

/// What `html_escape::encode_text` makes of one character.
pub open spec fn text_escape_char(c: char) -> Seq<char> {
    if c == '&' {
        "&amp;"@
    } else if c == '<' {
        "&lt;"@
    } else if c == '>' {
        "&gt;"@
    } else {
        seq![c]
    }
}

/// `s` escaped for use as HTML text (`&`, `<` and `>` as entities).
pub open spec fn text_escaped(s: Seq<char>) -> Seq<char>
    decreases s.len(),
{
    if s.len() == 0 {
        seq![]
    } else {
        text_escaped(s.drop_last()) + text_escape_char(s.last())
    }
}

/// What `html_escape::encode_double_quoted_attribute` makes of one
/// character.
pub open spec fn attribute_escape_char(c: char) -> Seq<char> {
    if c == '"' {
        "&quot;"@
    } else {
        text_escape_char(c)
    }
}

/// `s` escaped for use inside a double-quoted HTML attribute (`&`, `<`,
/// `>` and `"` as entities).
pub open spec fn attribute_escaped(s: Seq<char>) -> Seq<char>
    decreases s.len(),
{
    if s.len() == 0 {
        seq![]
    } else {
        attribute_escaped(s.drop_last()) + attribute_escape_char(s.last())
    }
}

/// `html_escape::encode_text`: replaces `&`, `<` and `>` by their entities
/// and leaves every other character as it is.
#[verifier::external_body]
fn encode_text(s: &str) -> (r: String)
    ensures
        r@ == text_escaped(s@),
{
    html_escape::encode_text(s).into_owned()
}

/// `html_escape::encode_double_quoted_attribute`: replaces `&`, `<`, `>`
/// and `"` by their entities and leaves every other character as it is.
#[verifier::external_body]
fn encode_double_quoted_attribute(s: &str) -> (r: String)
    ensures
        r@ == attribute_escaped(s@),
{
    html_escape::encode_double_quoted_attribute(s).into_owned()
}

fn encode_text_chars(s: &[char]) -> (r: Vec<char>)
    ensures
        r@ == text_escaped(s@),
{
    let t = string_of(s);
    let e = encode_text(t.as_str());
    chars_of(e.as_str())
}

fn encode_attribute_chars(s: &[char]) -> (r: Vec<char>)
    ensures
        r@ == attribute_escaped(s@),
{
    let t = string_of(s);
    let e = encode_double_quoted_attribute(t.as_str());
    chars_of(e.as_str())
}

// ---------------------------------------------------------------------
// Markdown and JSON
// ---------------------------------------------------------------------

/// The HTML `comrak` renders the CommonMark text `md` to, with the GitHub
/// extensions (strikethrough, tables, autolinks, task lists, alerts) on,
/// raw HTML escaped as text when `escape_html` holds, and dangerous link
/// schemes dropped (named, not described: it is `comrak`'s renderer).
pub uninterp spec fn markdown_html(md: Seq<char>, escape_html: bool) -> Seq<char>;

/// Descriptions come from the scanned files, so raw HTML in them is shown
/// as text, never passed through into the page.
pub const ESCAPE_RAW_HTML: bool = true;

/// `comrak::markdown_to_html` with strikethrough, tables, autolinks, task
/// lists and alerts enabled, `render.escape` set to `escape_html` and
/// `render.unsafe` off.
#[verifier::external_body]
fn render_markdown(md: &str, escape_html: bool) -> (r: String)
    ensures
        r@ == markdown_html(md@, escape_html),
{
    let mut options = comrak::Options::default();
    options.extension.strikethrough = true;
    options.extension.table = true;
    options.extension.autolink = true;
    options.extension.tasklist = true;
    options.extension.alerts = true;
    options.render.escape = escape_html;
    comrak::markdown_to_html(md, &options)
}

/// The JSON text `serde_json` serializes an array of strings to (named,
/// not described: it is `serde_json`'s serializer).
pub uninterp spec fn json_string_array(items: Seq<Seq<char>>) -> Seq<char>;

/// The JSON text of an empty array.
pub open spec fn empty_json_array() -> Seq<char> {
    seq!['[', ']']
}

#[verifier::external_type_specification]
#[verifier::external_body]
pub struct ExJsonError(serde_json::Error);

/// `serde_json::to_string` of a list of strings. It always succeeds: the
/// text is written into memory and strings have no failing case; an empty
/// list is written `[]`.
#[verifier::external_body]
fn to_json(items: &Vec<String>) -> (r: Result<String, serde_json::Error>)
    ensures
        r is Ok,
        r matches Ok(s) ==> s@ == json_string_array(items@.map_values(|x: String| x@)),
        r matches Ok(s) ==> (items@.len() == 0 ==> s@ == empty_json_array()),
{
    serde_json::to_string(items)
}

/// JSON text with every `<` written as `\u003c`, so that it can sit inside
/// a `<script>` element without changing how the page is tokenized.
pub open spec fn script_safe(json: Seq<char>) -> Seq<char> {
    replace_all(json, seq!['<'], "\\u003c"@)
}

proof fn lemma_replace_lt(s: Seq<char>, rep: Seq<char>)
    requires
        !has_char(rep, '<'),
    ensures
        !has_char(replace_all(s, seq!['<'], rep), '<'),
    decreases s.len(),
{
    let r = replace_all(s, seq!['<'], rep);
    if s.len() > 0 {
        if starts_with(s, seq!['<']) {
            lemma_replace_lt(s.skip(1), rep);
            let rest = replace_all(s.skip(1), seq!['<'], rep);
            assert(r == rep + rest);
            assert forall|i: int| 0 <= i < r.len() implies r[i] != '<' by {
                if i < rep.len() {
                    assert(r[i] == rep[i]);
                } else {
                    assert(r[i] == rest[i - rep.len()]);
                }
            }
        } else {
            lemma_replace_lt(s.drop_first(), rep);
            let rest = replace_all(s.drop_first(), seq!['<'], rep);
            assert(r == seq![s[0]] + rest);
            assert(s[0] != '<') by {
                if s[0] == '<' {
                    assert(s.take(1) =~= seq!['<']);
                }
            }
            assert forall|i: int| 0 <= i < r.len() implies r[i] != '<' by {
                if i > 0 {
                    assert(r[i] == rest[i - 1]);
                }
            }
        }
    }
}

/// Script-safe JSON holds no `<`, so the search and category indexes
/// embedded in the page can never close or open a tag inside its script.
pub proof fn script_safe_has_no_angle_bracket(json: Seq<char>)
    ensures
        !has_char(script_safe(json), '<'),
{
    reveal_strlit("\\u003c");
    let rep = "\\u003c"@;
    assert(!has_char(rep, '<')) by {
        assert forall|i: int| 0 <= i < rep.len() implies rep[i] != '<' by {}
    }
    lemma_replace_lt(json, rep);
}

// ---------------------------------------------------------------------
// Type categories
// ---------------------------------------------------------------------

/// The CSS class of type category `k` (in legend order).
pub open spec fn category_class(k: int) -> Seq<char> {
    if k == 0 {
        "bool"@
    } else if k == 1 {
        "choice"@
    } else if k == 2 {
        "string"@
    } else if k == 3 {
        "number"@
    } else if k == 4 {
        "package"@
    } else if k == 5 {
        "list"@
    } else if k == 6 {
        "set"@
    } else if k == 7 {
        "submodule"@
    } else {
        "any"@
    }
}

/// The label of type category `k`.
pub open spec fn category_label(k: int) -> Seq<char> {
    if k == 0 {
        "boolean"@
    } else if k == 8 {
        "other"@
    } else {
        category_class(k)
    }
}

fn category_class_str(k: usize) -> (r: &'static str)
    ensures
        r@ == category_class(k as int),
{
    if k == 0 {
        "bool"
    } else if k == 1 {
        "choice"
    } else if k == 2 {
        "string"
    } else if k == 3 {
        "number"
    } else if k == 4 {
        "package"
    } else if k == 5 {
        "list"
    } else if k == 6 {
        "set"
    } else if k == 7 {
        "submodule"
    } else {
        "any"
    }
}

fn category_label_str(k: usize) -> (r: &'static str)
    ensures
        r@ == category_label(k as int),
{
    if k == 0 {
        "boolean"
    } else if k == 8 {
        "other"
    } else {
        category_class_str(k)
    }
}

/// The display category of a formatted type (a presentation heuristic
/// over the lower-cased text, not a structural analysis), as an index in
/// legend order.
pub open spec fn category_of(nix_type: Seq<char>) -> int {
    let t = lowercased(nix_type);
    if contains(t, "list of"@) {
        5
    } else if contains(t, "attribute set"@) {
        6
    } else if contains(t, "submodule"@) {
        7
    } else if contains(t, "one of"@) {
        1
    } else if contains(t, "boolean"@) {
        0
    } else if contains(t, "package"@) {
        4
    } else if contains(t, "integer"@) || contains(t, "number"@) || contains(t, "port"@) || contains(
        t,
        "floating point"@,
    ) {
        3
    } else if contains(t, "string"@) || contains(t, "path"@) || contains(t, "raw value"@) {
        2
    } else {
        8
    }
}

fn has(t: &[char], lit: &str) -> (r: bool)
    ensures
        r == contains(t@, lit@),
{
    let l = chars_of(lit);
    contains_seq(t, l.as_slice())
}

fn category_index(nix_type: &str) -> (r: usize)
    ensures
        r == category_of(nix_type@),
        r < 9,
{
    let lower = crate::to_lowercase(nix_type);
    let t = chars_of(lower.as_str());
    let t = t.as_slice();
    if has(t, "list of") {
        5
    } else if has(t, "attribute set") {
        6
    } else if has(t, "submodule") {
        7
    } else if has(t, "one of") {
        1
    } else if has(t, "boolean") {
        0
    } else if has(t, "package") {
        4
    } else if has(t, "integer") || has(t, "number") || has(t, "port") || has(t, "floating point") {
        3
    } else if has(t, "string") || has(t, "path") || has(t, "raw value") {
        2
    } else {
        8
    }
}

/// Categorizes a formatted type into its CSS class and label.
pub fn classify_type(nix_type: &str) -> (r: (&'static str, &'static str))
    ensures
        r.0@ == category_class(category_of(nix_type@)),
        r.1@ == category_label(category_of(nix_type@)),
{
    let k = category_index(nix_type);
    (category_class_str(k), category_label_str(k))
}

// ---------------------------------------------------------------------
// One option
// ---------------------------------------------------------------------

/// A dotted name split into its shared prefix (up to and including the
/// last dot) and its final segment; a name without a dot is all leaf.
pub open spec fn split_leaf_spec(name: Seq<char>) -> (Seq<char>, Seq<char>) {
    if has_char(name, '.') {
        let i = crate::text::last_occurrence(name, seq!['.']);
        (name.take(i + 1), name.skip(i + 1))
    } else {
        (seq![], name)
    }
}

/// Splits a dotted option name into its prefix and leaf.
pub fn split_leaf(name: &str) -> (r: (String, String))
    ensures
        (r.0@, r.1@) == split_leaf_spec(name@),
{
    let n = chars_of(name);
    let dot: Vec<char> = vec!['.'];
    assert(dot@ =~= seq!['.']);
    proof {
        crate::text::lemma_has_char_contains(n@, '.');
    }
    match crate::text::last_index(n.as_slice(), dot.as_slice()) {
        Some(i) => {
            let len = n.len();
            assert(i + 1 <= len);
            let p = crate::text::slice_to_vec(n.as_slice(), 0, i + 1);
            let l = crate::text::slice_to_vec(n.as_slice(), i + 1, len);
            (string_of(p.as_slice()), string_of(l.as_slice()))
        },
        None => {
            let e: Vec<char> = Vec::new();
            (string_of(e.as_slice()), string_of(n.as_slice()))
        },
    }
}

/// A labelled metadata row: values spanning lines or longer than 60 bytes
/// get a full-width block with a code panel, shorter ones stay inline.
pub open spec fn meta_row_spec(label: Seq<char>, content: Seq<char>) -> Seq<char> {
    let escaped = text_escaped(content);
    if has_char(content, '\n') || utf8_len(content) > 60 {
        "            <div class=\"meta-row block\">\n                <span class=\"meta-label\">"@
            + label + "</span>\n                <pre><code>"@ + escaped
            + "</code></pre>\n            </div>\n"@
    } else {
        "            <div class=\"meta-row\">\n                <span class=\"meta-label\">"@ + label
            + "</span>\n                <code>"@ + escaped + "</code>\n            </div>\n"@
    }
}

fn meta_row_chars(label: &str, content: &str) -> (r: Vec<char>)
    ensures
        r@ == meta_row_spec(label@, content@),
{
    let c = chars_of(content);
    let escaped = encode_text_chars(c.as_slice());
    proof {
        crate::text::lemma_has_char_contains(c@, '\n');
    }
    let multi = contains_char(c.as_slice(), '\n');
    let len = utf8_len_exec(c.as_slice());
    if multi || len > 60 {
        let mut out = chars_of("            <div class=\"meta-row block\">\n                <span class=\"meta-label\">");
        push_str(&mut out, label);
        push_str(&mut out, "</span>\n                <pre><code>");
        push_all(&mut out, escaped.as_slice());
        push_str(&mut out, "</code></pre>\n            </div>\n");
        out
    } else {
        let mut out = chars_of("            <div class=\"meta-row\">\n                <span class=\"meta-label\">");
        push_str(&mut out, label);
        push_str(&mut out, "</span>\n                <code>");
        push_all(&mut out, escaped.as_slice());
        push_str(&mut out, "</code>\n            </div>\n");
        out
    }
}

/// Renders a labelled key/value metadata row.
pub fn format_meta_row(label: &str, content: &str) -> (r: String)
    ensures
        r@ == meta_row_spec(label@, content@),
{
    let v = meta_row_chars(label, content);
    string_of(v.as_slice())
}

/// The parts of an option's search text: name, description, type,
/// default and example, those present.
pub open spec fn search_parts(o: OptionDocView) -> Seq<Seq<char>> {
    seq![o.name] + (match o.description {
        Some(d) => seq![d],
        None => seq![],
    }) + seq![o.nix_type] + (match o.default_value {
        Some(d) => seq![d],
        None => seq![],
    }) + (match o.example {
        Some(e) => seq![e],
        None => seq![],
    })
}

/// The text an option contributes to the search index: its search parts
/// joined by single spaces.
pub open spec fn search_entry_spec(o: OptionDocView) -> Seq<char> {
    crate::types::join_with(search_parts(o), " "@)
}

/// The text an option contributes to the client-side search index.
pub fn search_index_entry(o: &OptionDoc) -> (r: String)
    ensures
        r@ == search_entry_spec(o@),
{
    let mut parts: Vec<String> = Vec::new();
    parts.push(o.name.clone());
    if let Some(d) = &o.description {
        parts.push(d.clone());
    }
    parts.push(o.nix_type.clone());
    if let Some(d) = &o.default_value {
        parts.push(d.clone());
    }
    if let Some(e) = &o.example {
        parts.push(e.clone());
    }
    assert(parts@.map_values(|x: String| x@) =~= search_parts(o@));
    let ghost ps = parts@.map_values(|x: String| x@);
    let mut out: Vec<char> = Vec::new();
    for k in 0..parts.len()
        invariant
            ps == parts@.map_values(|x: String| x@),
            out@ == crate::types::join_with(ps.take(k as int), " "@),
    {
        assert(ps.take(k + 1).drop_last() =~= ps.take(k as int));
        if k > 0 {
            push_str(&mut out, " ");
        }
        push_str(&mut out, parts[k].as_str());
        assert(ps.take(k + 1).last() == parts@[k as int]@);
    }
    assert(ps.take(ps.len() as int) =~= ps);
    string_of(out.as_slice())
}

/// The `href` of a declaration's link: its target (`path#L<line>`)
/// sanitized against dangerous schemes, escaped for the attribute.
pub open spec fn declaration_href(d: DeclarationView) -> Seq<char> {
    attribute_escaped(sanitize_link_target_spec(declaration_target(d)))
}

/// The link to a declaration, showing `path:line`.
#[verifier::opaque]
pub open spec fn declaration_link(d: DeclarationView) -> Seq<char> {
    "<a href=\""@ + declaration_href(d) + "\">"@ + text_escaped(d.file_path) + ":"@ + decimal(
        d.line_number as nat,
    ) + "</a>"@
}

/// The head of an option's article: its anchor, its name linking to its
/// first declaration, and its type badge.
#[verifier::opaque]
pub open spec fn article_head(o: OptionDocView) -> Seq<char> {
    let k = category_of(o.nix_type);
    let (prefix, leaf) = split_leaf_spec(o.name);
    "    <article class=\"option\" id=\""@ + anchor_slug_spec(o.name) + "\" data-category=\""@
        + category_class(k) + "\">\n        <div class=\"option-head\">\n            <h2 class=\"option-path\">\n                <a href=\""@
        + declaration_href(o.declarations[0]) + "\"><span class=\"path-prefix\">"@
        + text_escaped(prefix) + "</span><span class=\"path-leaf\">"@ + text_escaped(leaf)
        + "</span></a>\n            </h2>\n            <span class=\"type-badge t-"@
        + category_class(k) + "\">"@ + category_label(k) + "</span>\n        </div>\n"@
}

/// The rendered description of an option, if it has one.
#[verifier::opaque]
pub open spec fn article_description(d: Option<Seq<char>>) -> Seq<char> {
    match d {
        Some(t) => "        <div class=\"option-desc\">"@ + markdown_html(t, ESCAPE_RAW_HTML) + "</div>\n"@,
        None => seq![],
    }
}

/// The metadata rows of an option: type, default and example.
#[verifier::opaque]
pub open spec fn article_meta(o: OptionDocView) -> Seq<char> {
    "        <div class=\"option-meta\">\n"@ + meta_row_spec("Type"@, o.nix_type) + match o.default_value {
        Some(d) => meta_row_spec("Default"@, d),
        None => seq![],
    } + match o.example {
        Some(e) => meta_row_spec("Example"@, e),
        None => seq![],
    } + "        </div>\n"@
}

/// An option's metadata rows show its default and its example under their
/// own labels: a default `d` gives the row labelled `Default` holding `d`,
/// an example `e` the row labelled `Example` holding `e`; without a
/// default, the type row is followed directly by the example row (if any),
/// so no `Default` row appears. Every row carries its label and the
/// escaped value.
pub proof fn article_shows_default_and_example(o: OptionDocView, label: Seq<char>, content: Seq<char>)
    ensures
        contains(article_meta(o), meta_row_spec("Type"@, o.nix_type)),
        o.default_value matches Some(d) ==> contains(article_meta(o), meta_row_spec("Default"@, d)),
        o.example matches Some(e) ==> contains(article_meta(o), meta_row_spec("Example"@, e)),
        o.default_value is None ==> contains(
            article_meta(o),
            meta_row_spec("Type"@, o.nix_type) + match o.example {
                Some(e) => meta_row_spec("Example"@, e),
                None => seq![],
            } + "        </div>\n"@,
        ),
        contains(meta_row_spec(label, content), "<span class=\"meta-label\">"@ + label + "</span>"@),
        contains(meta_row_spec(label, content), text_escaped(content)),
{
    reveal(article_meta);
    let open = "        <div class=\"option-meta\">\n"@;
    let ty = meta_row_spec("Type"@, o.nix_type);
    let df = match o.default_value {
        Some(d) => meta_row_spec("Default"@, d),
        None => seq![],
    };
    let ex = match o.example {
        Some(e) => meta_row_spec("Example"@, e),
        None => seq![],
    };
    let close = "        </div>\n"@;
    assert(article_meta(o) == open + ty + df + ex + close);
    assert(open + ty + df + ex + close =~= open + ty + (df + ex + close));
    crate::text::lemma_contains_middle(open, ty, df + ex + close);
    if let Some(d) = o.default_value {
        assert(open + ty + df + ex + close =~= (open + ty) + df + (ex + close));
        crate::text::lemma_contains_middle(open + ty, df, ex + close);
    }
    if let Some(e) = o.example {
        assert(open + ty + df + ex + close =~= (open + ty + df) + ex + close);
        crate::text::lemma_contains_middle(open + ty + df, ex, close);
    }
    if o.default_value is None {
        assert(open + ty + df + ex + close =~= open + (ty + ex + close) + Seq::<char>::empty());
        crate::text::lemma_contains_middle(open, ty + ex + close, Seq::<char>::empty());
    }
    let esc = text_escaped(content);
    let lab = "<span class=\"meta-label\">"@ + label + "</span>"@;
    reveal_strlit("            <div class=\"meta-row block\">\n                <span class=\"meta-label\">");
    reveal_strlit("            <div class=\"meta-row\">\n                <span class=\"meta-label\">");
    reveal_strlit("<span class=\"meta-label\">");
    reveal_strlit("</span>");
    reveal_strlit("</span>\n                <pre><code>");
    reveal_strlit("</span>\n                <code>");
    if has_char(content, '\n') || utf8_len(content) > 60 {
        let a = "            <div class=\"meta-row block\">\n                <span class=\"meta-label\">"@;
        let b = "</span>\n                <pre><code>"@;
        let c = "</code></pre>\n            </div>\n"@;
        let w = meta_row_spec(label, content);
        assert(w == a + label + b + esc + c);
        let k = a.len() - "<span class=\"meta-label\">"@.len();
        assert(w.skip(k).take(lab.len() as int) =~= lab);
        assert(crate::text::occurs_at(w, lab, k));
        assert(w =~= (a + label + b) + esc + c);
        crate::text::lemma_contains_middle(a + label + b, esc, c);
    } else {
        let a = "            <div class=\"meta-row\">\n                <span class=\"meta-label\">"@;
        let b = "</span>\n                <code>"@;
        let c = "</code>\n            </div>\n"@;
        let w = meta_row_spec(label, content);
        assert(w == a + label + b + esc + c);
        let k = a.len() - "<span class=\"meta-label\">"@.len();
        assert(w.skip(k).take(lab.len() as int) =~= lab);
        assert(crate::text::occurs_at(w, lab, k));
        assert(w =~= (a + label + b) + esc + c);
        crate::text::lemma_contains_middle(a + label + b, esc, c);
    }
}

/// The list item of a further declaration, with its own description
/// rendered when it has one.
#[verifier::opaque]
pub open spec fn other_declaration_item(d: DeclarationView) -> Seq<char> {
    "            <li>"@ + declaration_link(d) + match d.description {
        Some(a) => "<div class=\"alt-desc\">"@ + markdown_html(a, ESCAPE_RAW_HTML) + "</div>"@,
        None => seq![],
    } + "</li>\n"@
}

/// The list items of further declarations.
pub open spec fn other_declaration_items(ds: Seq<DeclarationView>) -> Seq<char>
    decreases ds.len(),
{
    if ds.len() == 0 {
        seq![]
    } else {
        other_declaration_items(ds.drop_last()) + other_declaration_item(ds.last())
    }
}

/// The declarations block of an option: its first declaration, then the
/// list of the others when there are any.
#[verifier::opaque]
pub open spec fn article_declarations(o: OptionDocView) -> Seq<char> {
    "        <div class=\"option-decl\">"@ + declaration_link(o.declarations[0]) + "</div>\n"@
        + if o.declarations.len() > 1 {
        "        <ul class=\"also-declared\">\n"@ + other_declaration_items(o.declarations.skip(1))
            + "        </ul>\n"@
    } else {
        seq![]
    }
}

/// One option as an `<article class="option">` block.
pub open spec fn article_spec(o: OptionDocView) -> Seq<char> {
    article_head(o) + article_description(o.description) + article_meta(o) + article_declarations(o)
        + "    </article>\n\n"@
}

fn declaration_link_chars(d: &Declaration) -> (r: Vec<char>)
    ensures
        r@ == declaration_link(d@),
{
    reveal(declaration_link);
    let t = crate::generate::markdown::declaration_target_chars(d);
    let sanitized = sanitize_link_target_chars(t.as_slice());
    let href = encode_attribute_chars(sanitized.as_slice());
    let fp = chars_of(d.file_path.as_str());
    let text = encode_text_chars(fp.as_slice());
    let mut out = chars_of("<a href=\"");
    push_all(&mut out, href.as_slice());
    push_str(&mut out, "\">");
    push_all(&mut out, text.as_slice());
    push_str(&mut out, ":");
    let n = decimal_exec(d.line_number);
    push_all(&mut out, n.as_slice());
    push_str(&mut out, "</a>");
    out
}

#[verifier::rlimit(40)]
fn push_article_head(out: &mut Vec<char>, o: &OptionDoc, k: usize)
    requires
        o@.declarations.len() >= 1,
        k == category_of(o@.nix_type),
    ensures
        final(out)@ == old(out)@ + article_head(o@),
{
    reveal(article_head);
    let ghost start = out@;
    let p = &o.declarations[0];
    assert(o@.declarations[0] == p@);
    let class = category_class_str(k);
    let label = category_label_str(k);
    let (prefix, leaf) = split_leaf(o.name.as_str());
    let t = crate::generate::markdown::declaration_target_chars(p);
    let sanitized = sanitize_link_target_chars(t.as_slice());
    let href = encode_attribute_chars(sanitized.as_slice());
    let slug = crate::utils::anchor_slug(o.name.as_str());
    let pc = chars_of(prefix.as_str());
    let lc = chars_of(leaf.as_str());
    let pe = encode_text_chars(pc.as_slice());
    let le = encode_text_chars(lc.as_slice());
    push_str(out, "    <article class=\"option\" id=\"");
    push_str(out, slug.as_str());
    push_str(out, "\" data-category=\"");
    push_str(out, class);
    push_str(
        out,
        "\">\n        <div class=\"option-head\">\n            <h2 class=\"option-path\">\n                <a href=\"",
    );
    push_all(out, href.as_slice());
    push_str(out, "\"><span class=\"path-prefix\">");
    push_all(out, pe.as_slice());
    push_str(out, "</span><span class=\"path-leaf\">");
    push_all(out, le.as_slice());
    push_str(out, "</span></a>\n            </h2>\n            <span class=\"type-badge t-");
    push_str(out, class);
    push_str(out, "\">");
    push_str(out, label);
    push_str(out, "</span>\n        </div>\n");
    assert(out@ =~= start + article_head(o@));
}

fn push_article_description(out: &mut Vec<char>, d: &Option<String>)
    ensures
        final(out)@ == old(out)@ + article_description(opt_view(*d)),
{
    reveal(article_description);
    let ghost start = out@;
    if let Some(t) = d {
        push_str(out, "        <div class=\"option-desc\">");
        let h = render_markdown(t.as_str(), ESCAPE_RAW_HTML);
        push_str(out, h.as_str());
        push_str(out, "</div>\n");
    }
    assert(out@ =~= start + article_description(opt_view(*d)));
}

fn push_article_meta(out: &mut Vec<char>, o: &OptionDoc)
    ensures
        final(out)@ == old(out)@ + article_meta(o@),
{
    reveal(article_meta);
    let ghost start = out@;
    push_str(out, "        <div class=\"option-meta\">\n");
    let r = meta_row_chars("Type", o.nix_type.as_str());
    push_all(out, r.as_slice());
    let ghost s1 = out@;
    if let Some(d) = &o.default_value {
        let r = meta_row_chars("Default", d.as_str());
        push_all(out, r.as_slice());
    }
    let ghost s2 = out@;
    if let Some(e) = &o.example {
        let r = meta_row_chars("Example", e.as_str());
        push_all(out, r.as_slice());
    }
    let ghost s3 = out@;
    push_str(out, "        </div>\n");
    assert(out@ =~= start + article_meta(o@));
}

fn push_other_declaration_item(out: &mut Vec<char>, d: &Declaration)
    ensures
        final(out)@ == old(out)@ + other_declaration_item(d@),
{
    reveal(other_declaration_item);
    let ghost start = out@;
    push_str(out, "            <li>");
    let l = declaration_link_chars(d);
    push_all(out, l.as_slice());
    if let Some(a) = &d.description {
        push_str(out, "<div class=\"alt-desc\">");
        let h = render_markdown(a.as_str(), ESCAPE_RAW_HTML);
        push_str(out, h.as_str());
        push_str(out, "</div>");
    }
    push_str(out, "</li>\n");
    assert(out@ =~= start + other_declaration_item(d@));
}

fn push_article_declarations(out: &mut Vec<char>, o: &OptionDoc)
    requires
        o@.declarations.len() >= 1,
    ensures
        final(out)@ == old(out)@ + article_declarations(o@),
{
    reveal(article_declarations);
    let ghost start = out@;
    let p = &o.declarations[0];
    assert(o@.declarations[0] == p@);
    push_str(out, "        <div class=\"option-decl\">");
    let l = declaration_link_chars(p);
    push_all(out, l.as_slice());
    push_str(out, "</div>\n");
    let ghost s1 = out@;
    let ghost ds = o@.declarations;
    if o.declarations.len() > 1 {
        push_str(out, "        <ul class=\"also-declared\">\n");
        let ghost base = out@;
        let n = o.declarations.len();
        assert(ds.subrange(1, 1) =~= Seq::<DeclarationView>::empty());
        for k in 1..n
            invariant
                n == o.declarations.len(),
                ds == o@.declarations,
                out@ == base + other_declaration_items(ds.subrange(1, k as int)),
        {
            assert(ds.subrange(1, k + 1).drop_last() =~= ds.subrange(1, k as int));
            assert(ds.subrange(1, k + 1).last() == o.declarations@[k as int]@);
            push_other_declaration_item(out, &o.declarations[k]);
        }
        assert(ds.subrange(1, n as int) =~= ds.skip(1));
        push_str(out, "        </ul>\n");
    }
    assert(out@ =~= start + article_declarations(o@));
}

fn push_article(out: &mut Vec<char>, o: &OptionDoc, k: usize)
    requires
        o@.declarations.len() >= 1,
        k == category_of(o@.nix_type),
    ensures
        final(out)@ == old(out)@ + article_spec(o@),
{
    let ghost start = out@;
    push_article_head(out, o, k);
    push_article_description(out, &o.description);
    push_article_meta(out, o);
    push_article_declarations(out, o);
    push_str(out, "    </article>\n\n");
    assert(out@ =~= start + article_spec(o@));
}

/// Renders one option as an `<article class="option">` block, with the
/// type category it was classified into.
pub fn render_option(o: &OptionDoc) -> (r: (String, (&'static str, &'static str)))
    requires
        o@.declarations.len() >= 1,
    ensures
        r.0@ == article_spec(o@),
        r.1.0@ == category_class(category_of(o@.nix_type)),
        r.1.1@ == category_label(category_of(o@.nix_type)),
{
    let k = category_index(o.nix_type.as_str());
    let mut out: Vec<char> = Vec::new();
    push_article(&mut out, o, k);
    assert(out@ =~= article_spec(o@));
    (string_of(out.as_slice()), (category_class_str(k), category_label_str(k)))
}

// ---------------------------------------------------------------------
// The document
// ---------------------------------------------------------------------

/// The articles of a sequence of options.
pub open spec fn articles_spec(opts: Seq<OptionDocView>) -> Seq<char>
    decreases opts.len(),
{
    if opts.len() == 0 {
        seq![]
    } else {
        articles_spec(opts.drop_last()) + article_spec(opts.last())
    }
}

/// Some option of `opts` falls in category `k`.
pub open spec fn category_present(opts: Seq<OptionDocView>, k: int) -> bool {
    exists|i: int| 0 <= i < opts.len() && category_of(#[trigger] opts[i].nix_type) == k
}

/// The legend chip of category `k`.
pub open spec fn legend_chip(k: int) -> Seq<char> {
    "            <button type=\"button\" class=\"legend-chip t-"@ + category_class(k)
        + "\" data-category=\""@ + category_class(k) + "\">"@ + category_label(k)
        + "</button>\n"@
}

/// The chips of the categories below `n` that some option falls in, in
/// legend order.
pub open spec fn legend_upto(opts: Seq<OptionDocView>, n: int) -> Seq<char>
    decreases n,
{
    if n <= 0 {
        seq![]
    } else {
        legend_upto(opts, n - 1) + if category_present(opts, n - 1) {
            legend_chip(n - 1)
        } else {
            seq![]
        }
    }
}

/// The masthead and toolbar: the option count, the theme toggle, the
/// search box and the legend.
#[verifier::opaque]
pub open spec fn masthead(opts: Seq<OptionDocView>) -> Seq<char> {
    MASTHEAD_START@ + decimal(opts.len()) + "</strong> option"@ + (if opts.len() == 1 {
        seq![]
    } else {
        "s"@
    }) + MASTHEAD_MIDDLE@ + legend_upto(opts, 9) + "        </div>\n    </div>\n"@
}

/// The masthead up to the option count.
pub const MASTHEAD_START: &'static str = "    <div class=\"masthead-top\">\n        <h1 class=\"eyebrow\">Nix Options</h1>\n        <div class=\"masthead-right\">\n            <p class=\"opt-count\"><strong>";

/// The masthead from after the option count to the legend.
pub const MASTHEAD_MIDDLE: &'static str = r#"</p>
            <button type="button" id="theme-toggle" class="theme-toggle" aria-label="Switch to dark theme">
                <svg class="icon-sun" viewBox="0 0 16 16" fill="none" aria-hidden="true">
                    <circle cx="8" cy="8" r="3" stroke="currentColor" stroke-width="1.3"/>
                    <path d="M8 1v2M8 13v2M1 8h2M13 8h2M3.5 3.5l1.4 1.4M11.1 11.1l1.4 1.4M3.5 12.5l1.4-1.4M11.1 4.9l1.4-1.4" stroke="currentColor" stroke-width="1.3" stroke-linecap="round"/>
                </svg>
                <svg class="icon-moon" viewBox="0 0 16 16" fill="none" aria-hidden="true">
                    <path d="M13.5 9.5A5.5 5.5 0 1 1 6.5 2.5a4.25 4.25 0 1 0 7 7Z" fill="currentColor"/>
                </svg>
            </button>
        </div>
    </div>
    <div class="toolbar">
        <div class="search-row">
            <svg class="search-icon" viewBox="0 0 16 16" fill="none" aria-hidden="true">
                <circle cx="7" cy="7" r="5.25" stroke="currentColor" stroke-width="1.5"/>
                <path d="M11 11L14.5 14.5" stroke="currentColor" stroke-width="1.5" stroke-linecap="round"/>
            </svg>
            <input type="text" id="search-input" placeholder="Search options" autocomplete="off" aria-label="Search options">
            <kbd class="search-kbd">/</kbd>
        </div>
        <div id="search-status" role="status"></div>
        <div class="legend" role="group" aria-label="Filter by type">
"#;

/// The page's closing footer, naming and linking the generator.
pub const HTML_FOOTER: &'static str = "    <p class=\"footer\">generated with <a href=\"https://github.com/calebstewart/nix-options-doc\">nix-options-doc</a></p>\n</body>\n</html>";

/// The search script with the two index arrays spliced in, each in place
/// of its placeholder in the pristine template (so that inserted text is
/// never scanned again); the template as it is when a placeholder is
/// missing.
#[verifier::opaque]
pub open spec fn inject_indexes(template: Seq<char>, search: Seq<char>, categories: Seq<char>) -> Seq<char> {
    let m1 = "__SEARCH_INDEX__"@;
    let m2 = "__CATEGORY_INDEX__"@;
    if contains(template, m1) {
        let i = crate::text::first_occurrence(template, m1);
        let rest = template.skip(i + m1.len());
        if contains(rest, m2) {
            let j = crate::text::first_occurrence(rest, m2);
            template.take(i) + search + rest.take(j) + categories + rest.skip(j + m2.len())
        } else {
            template
        }
    } else {
        template
    }
}

/// The whole HTML page for `opts`, given the search index and category
/// index as script-safe JSON.
pub open spec fn html_document(opts: Seq<OptionDocView>, search: Seq<char>, categories: Seq<char>) -> Seq<char> {
    HTML_TEMPLATE_HEAD@ + masthead(opts) + articles_spec(opts) + inject_indexes(
        SEARCH_SCRIPT_TEMPLATE@,
        search,
        categories,
    ) + HTML_FOOTER@
}

fn inject_indexes_chars(template: &[char], search: &[char], categories: &[char]) -> (r: Vec<char>)
    ensures
        r@ == inject_indexes(template@, search@, categories@),
{
    reveal(inject_indexes);
    let m1 = chars_of("__SEARCH_INDEX__");
    let m2 = chars_of("__CATEGORY_INDEX__");
    match crate::text::first_index(template, m1.as_slice()) {
        Some(i) => {
            let len = template.len();
            let rest = crate::text::slice_to_vec(template, i + m1.len(), len);
            assert(rest@ =~= template@.skip(i + m1@.len()));
            match crate::text::first_index(rest.as_slice(), m2.as_slice()) {
                Some(j) => {
                    let mut out = crate::text::slice_to_vec(template, 0, i);
                    push_all(&mut out, search);
                    let rlen = rest.len();
                    let mid = crate::text::slice_to_vec(rest.as_slice(), 0, j);
                    push_all(&mut out, mid.as_slice());
                    push_all(&mut out, categories);
                    let tail = crate::text::slice_to_vec(rest.as_slice(), j + m2.len(), rlen);
                    push_all(&mut out, tail.as_slice());
                    assert(mid@ =~= rest@.take(j as int));
                    assert(tail@ =~= rest@.skip(j + m2@.len()));
                    out
                },
                None => crate::text::slice_to_vec(template, 0, len),
            }
        },
        None => crate::text::slice_to_vec(template, 0, template.len()),
    }
}

#[verifier::rlimit(40)]
fn push_masthead(out: &mut Vec<char>, options: &[OptionDoc], present: &Vec<bool>)
    requires
        present@.len() == 9,
        forall|k: int| 0 <= k < 9 ==> present@[k] == category_present(options_view(options@), k),
    ensures
        final(out)@ == old(out)@ + masthead(options_view(options@)),
{
    reveal(masthead);
    let ghost start = out@;
    let ghost views = options_view(options@);
    push_str(out, MASTHEAD_START);
    let n = decimal_exec(options.len());
    push_all(out, n.as_slice());
    push_str(out, "</strong> option");
    if options.len() != 1 {
        push_str(out, "s");
    }
    push_str(out, MASTHEAD_MIDDLE);
    let ghost base = out@;
    for k in 0..9usize
        invariant
            present@.len() == 9,
            views == options_view(options@),
            forall|q: int| 0 <= q < 9 ==> present@[q] == category_present(views, q),
            out@ == base + legend_upto(views, k as int),
    {
        if present[k] {
            let class = category_class_str(k);
            let label = category_label_str(k);
            push_str(out, "            <button type=\"button\" class=\"legend-chip t-");
            push_str(out, class);
            push_str(out, "\" data-category=\"");
            push_str(out, class);
            push_str(out, "\">");
            push_str(out, label);
            push_str(out, "</button>\n");
        }
        assert(out@ =~= base + legend_upto(views, k + 1));
    }
    push_str(out, "        </div>\n    </div>\n");
    assert(out@ =~= start + masthead(views));
}

/// Assembles the HTML page for the given options from the script-safe
/// JSON of its search index and category index.
pub fn assemble_html(options: &[OptionDoc], search_json: &str, category_json: &str) -> (r: String)
    requires
        crate::generate::markdown::all_declared(options_view(options@)),
    ensures
        r@ == html_document(options_view(options@), search_json@, category_json@),
{
    let ghost views = options_view(options@);
    let mut present: Vec<bool> = vec![false, false, false, false, false, false, false, false, false];
    let mut body: Vec<char> = Vec::new();
    for i in 0..options.len()
        invariant
            views == options_view(options@),
            crate::generate::markdown::all_declared(views),
            present@.len() == 9,
            forall|k: int| 0 <= k < 9 ==> present@[k] == category_present(views.take(i as int), k),
            body@ == articles_spec(views.take(i as int)),
    {
        assert(views.take(i + 1).drop_last() =~= views.take(i as int));
        assert(views[i as int].declarations.len() >= 1);
        let k = category_index(options[i].nix_type.as_str());
        push_article(&mut body, &options[i], k);
        let ghost before = present@;
        assert(views[i as int] == options@[i as int]@);
        assert(k == category_of(views[i as int].nix_type));
        present.set(k, true);
        assert forall|q: int| 0 <= q < 9 implies present@[q] == category_present(views.take(i + 1), q) by {
            let t = views.take(i + 1);
            assert(t[i as int] == views[i as int]);
            if q == k {
                assert(category_of(t[i as int].nix_type) == q);
            }
            if category_present(views.take(i as int), q) {
                let w = choose|w: int| 0 <= w < i && category_of(#[trigger] views.take(i as int)[w].nix_type) == q;
                assert(t[w] == views.take(i as int)[w]);
            }
            if category_present(t, q) {
                let w = choose|w: int| 0 <= w < t.len() && category_of(#[trigger] t[w].nix_type) == q;
                if w < i {
                    assert(views.take(i as int)[w] == t[w]);
                }
            }
        }
    }
    assert(views.take(views.len() as int) =~= views);
    let mut out = chars_of(HTML_TEMPLATE_HEAD);
    push_masthead(&mut out, options, &present);
    push_all(&mut out, body.as_slice());
    let t = chars_of(SEARCH_SCRIPT_TEMPLATE);
    let s = chars_of(search_json);
    let c = chars_of(category_json);
    let script = inject_indexes_chars(t.as_slice(), s.as_slice(), c.as_slice());
    push_all(&mut out, script.as_slice());
    push_str(&mut out, HTML_FOOTER);
    string_of(out.as_slice())
}

/// The search texts of a sequence of options.
pub open spec fn search_entries(opts: Seq<OptionDocView>) -> Seq<Seq<char>> {
    opts.map_values(|o: OptionDocView| search_entry_spec(o))
}

/// The category classes of a sequence of options.
pub open spec fn category_entries(opts: Seq<OptionDocView>) -> Seq<Seq<char>> {
    opts.map_values(|o: OptionDocView| category_class(category_of(o.nix_type)))
}

fn script_safe_json(items: &Vec<String>) -> (r: Vec<char>)
    ensures
        r@ == script_safe(json_string_array(items@.map_values(|x: String| x@))),
        items@.len() == 0 ==> r@ == empty_json_array(),
{
    match to_json(items) {
        Ok(j) => {
            let jc = chars_of(j.as_str());
            let lt: Vec<char> = vec!['<'];
            assert(lt@ =~= seq!['<']);
            let rep = chars_of("\\u003c");
            proof {
                if items@.len() == 0 {
                    let e = seq!['[', ']'];
                    assert(e.take(1) =~= seq!['[']);
                    assert(e.drop_first() =~= seq![']']);
                    assert(e.drop_first().take(1) =~= seq![']']);
                    assert(e.drop_first().drop_first() =~= Seq::<char>::empty());
                    reveal_with_fuel(replace_all, 3);
                    assert(replace_all(e, seq!['<'], "\\u003c"@) =~= e);
                }
            }
            replace_all_exec(jc.as_slice(), lt.as_slice(), rep.as_slice())
        },
        Err(_) => Vec::new(),
    }
}

/// The page documenting `opts`, with its search and category indexes.
pub open spec fn html_page(opts: Seq<OptionDocView>) -> Seq<char> {
    html_document(
        opts,
        script_safe(json_string_array(search_entries(opts))),
        script_safe(json_string_array(category_entries(opts))),
    )
}

/// The page documenting no options: both indexes empty.
pub open spec fn empty_html_page() -> Seq<char> {
    html_document(Seq::<OptionDocView>::empty(), empty_json_array(), empty_json_array())
}

/// Generates the HTML page documenting the given options; it always
/// succeeds, and for no options it is the empty page with both indexes `[]`.
pub fn generate_html(options: &[OptionDoc]) -> (r: Result<String, crate::error::NixDocError>)
    requires
        crate::generate::markdown::all_declared(options_view(options@)),
    ensures
        r matches Ok(s) && s@ == html_page(options_view(options@)),
        options@.len() == 0 ==> (r matches Ok(s) && s@ == empty_html_page()),
{
    let ghost views = options_view(options@);
    let mut entries: Vec<String> = Vec::new();
    let mut categories: Vec<String> = Vec::new();
    for i in 0..options.len()
        invariant
            views == options_view(options@),
            entries@.map_values(|x: String| x@) == search_entries(views.take(i as int)),
            categories@.map_values(|x: String| x@) == category_entries(views.take(i as int)),
    {
        let e = search_index_entry(&options[i]);
        let k = category_index(options[i].nix_type.as_str());
        assert(views[i as int] == options@[i as int]@);
        assert(views.take(i + 1) =~= views.take(i as int).push(views[i as int]));
        let cls = chars_of(category_class_str(k));
        let ghost eb = entries@;
        let ghost cb = categories@;
        entries.push(e);
        categories.push(string_of(cls.as_slice()));
        assert(entries@.map_values(|x: String| x@) =~= eb.map_values(|x: String| x@).push(e@));
        assert(search_entries(views.take(i + 1)) =~= search_entries(views.take(i as int)).push(
            search_entry_spec(views[i as int]),
        ));
        assert(entries@.map_values(|x: String| x@) =~= search_entries(views.take(i + 1)));
        assert(categories@.map_values(|x: String| x@) =~= cb.map_values(|x: String| x@).push(cls@));
        assert(category_entries(views.take(i + 1)) =~= category_entries(views.take(i as int)).push(
            category_class(category_of(views[i as int].nix_type)),
        ));
        assert(categories@.map_values(|x: String| x@) =~= category_entries(views.take(i + 1)));
    }
    assert(views.take(views.len() as int) =~= views);
    let s = script_safe_json(&entries);
    let c = script_safe_json(&categories);
    proof {
        if options@.len() == 0 {
            assert(views =~= Seq::<OptionDocView>::empty());
        }
    }
    let ss = string_of(s.as_slice());
    let cs = string_of(c.as_slice());
    Ok(assemble_html(options, ss.as_str(), cs.as_str()))
}

} // verus!
