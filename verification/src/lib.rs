//! Generates documentation for NixOS module options by reading Nix source
//! files as syntax, without evaluating them.

pub mod error;
pub mod generate;
pub mod markup;
pub mod nix_call;
pub mod parser;
pub mod syntax;
pub mod text;
pub mod types;
pub mod utils;

use vstd::prelude::*;

use crate::text::{chars_of, push_all, push_str, slice_to_vec, string_of};
use vstd::hash_map::StringHashMap;
use vstd::pervasive::VecAdditionalExecFns;

verus! {

broadcast use vstd::string::group_string_axioms;

/// The output formats documentation can be generated in.
#[derive(Debug, Clone, Copy, PartialEq, Eq)]
pub enum OutputFormat {
    Markdown,
    Json,
    Html,
    Csv,
}

/// The shells a completion script can be generated for.
#[derive(Debug, Clone, Copy, PartialEq, Eq)]
pub enum Shell {
    Bash,
    Elvish,
    Fish,
    PowerShell,
    Zsh,
}

/// Command-line configuration, grouped by functionality.
pub struct Cli {
    /// Generate a shell completion script for the given shell and exit.
    pub generate_completions: Option<Shell>,
    pub io: IoOptions,
    pub git: GitOptions,
    pub filter: FilterOptions,
    pub util: UtilityOptions,
}

/// Where Nix files are read from and how documentation is written.
pub struct IoOptions {
    /// Local path or remote git repository URL to the Nix configuration.
    pub path: String,
    /// Path to the output file, or `stdout`.
    pub out: String,
    /// Output format.
    pub format: OutputFormat,
    /// Whether the output is sorted by option name.
    pub sort: bool,
    /// Prefix path or URL for declaration links.
    pub out_prefix: Option<String>,
}

/// How a git repository is fetched.
pub struct GitOptions {
    /// Branch or tag to use (for a repository URL).
    pub branch: Option<String>,
    /// Commit depth for a shallow clone.
    pub depth: u32,
}

/// Which options are documented, and how their names are shown.
pub struct FilterOptions {
    /// Keep options whose name starts with this prefix.
    pub filter_by_prefix: Option<String>,
    /// Keep options whose type mentions this text (case-insensitively).
    pub filter_by_type: Option<String>,
    /// Keep options whose name or description matches this regular expression.
    pub search: Option<String>,
    /// Keep only options that have a default value.
    pub has_default: bool,
    /// Keep only options that have a description.
    pub has_description: bool,
    /// `KEY=VALUE` replacements for `${KEY}` references.
    pub replace: Vec<(String, String)>,
    /// Remove this prefix from option names; a bare prefix means
    /// `options.<PREFIX>`, and an empty one `options.`.
    pub strip_prefix: Option<String>,
}

/// Traversal and progress options.
pub struct UtilityOptions {
    /// Directories to exclude from processing.
    pub exclude_dir: Vec<String>,
    /// Whether symbolic links are followed.
    pub follow_symlinks: bool,
    /// Whether a progress bar is shown.
    pub progress: bool,
}

/// A single source location where an option is declared.
#[derive(Debug)]
pub struct Declaration {
    /// The relative path to the file where the option is defined.
    pub file_path: String,
    /// The line number where the option is defined in the file.
    pub line_number: usize,
    /// This declaration's own description, set only when an option is
    /// declared more than once and this declaration's description differs
    /// from the option's primary (first-found) one.
    pub description: Option<String>,
    /// The `mkIf` condition(s) this declaration is guarded by, joined with
    /// `&&` when nested; source text, not an evaluated result.
    pub condition: Option<String>,
}

/// A documented NixOS module option.
#[derive(Debug)]
pub struct OptionDoc {
    /// The full dotted name of the option.
    pub name: String,
    /// The description text.
    pub description: Option<String>,
    /// The option's type, human-formatted.
    pub nix_type: String,
    /// The default value, if any.
    pub default_value: Option<String>,
    /// An example value, if any.
    pub example: Option<String>,
    /// For a `mkRenamedOptionModule` shim entry, the bare config path of
    /// the option it was renamed to.
    pub renamed_to: Option<String>,
    /// The source location(s) where this option is declared.
    pub declarations: Vec<Declaration>,
}

/// An optional string taken by its characters.
pub open spec fn opt_view(o: Option<String>) -> Option<Seq<char>> {
    match o {
        Some(s) => Some(s@),
        None => None,
    }
}

/// The abstract value of a `Declaration`.
pub struct DeclarationView {
    pub file_path: Seq<char>,
    pub line_number: usize,
    pub description: Option<Seq<char>>,
    pub condition: Option<Seq<char>>,
}

/// The abstract value of an `OptionDoc`.
pub struct OptionDocView {
    pub name: Seq<char>,
    pub description: Option<Seq<char>>,
    pub nix_type: Seq<char>,
    pub default_value: Option<Seq<char>>,
    pub example: Option<Seq<char>>,
    pub renamed_to: Option<Seq<char>>,
    pub declarations: Seq<DeclarationView>,
}

impl View for Declaration {
    type V = DeclarationView;

    open spec fn view(&self) -> DeclarationView {
        DeclarationView {
            file_path: self.file_path@,
            line_number: self.line_number,
            description: opt_view(self.description),
            condition: opt_view(self.condition),
        }
    }
}

impl View for OptionDoc {
    type V = OptionDocView;

    open spec fn view(&self) -> OptionDocView {
        OptionDocView {
            name: self.name@,
            description: opt_view(self.description),
            nix_type: self.nix_type@,
            default_value: opt_view(self.default_value),
            example: opt_view(self.example),
            renamed_to: opt_view(self.renamed_to),
            declarations: self.declarations@.map_values(|d: Declaration| d@),
        }
    }
}

/// Copies an optional string.
pub fn clone_opt(o: &Option<String>) -> (r: Option<String>)
    ensures
        opt_view(r) == opt_view(*o),
{
    match o {
        Some(s) => Some(s.clone()),
        None => None,
    }
}

impl Clone for Declaration {
    fn clone(&self) -> (r: Self)
        ensures
            r@ == self@,
    {
        Declaration {
            file_path: self.file_path.clone(),
            line_number: self.line_number,
            description: clone_opt(&self.description),
            condition: clone_opt(&self.condition),
        }
    }
}

/// Copies a list of declarations.
pub fn clone_declarations(v: &Vec<Declaration>) -> (r: Vec<Declaration>)
    ensures
        r@.map_values(|d: Declaration| d@) == v@.map_values(|d: Declaration| d@),
{
    let mut out: Vec<Declaration> = Vec::new();
    for i in 0..v.len()
        invariant
            out@.map_values(|d: Declaration| d@) == v@.take(i as int).map_values(
                |d: Declaration| d@,
            ),
    {
        out.push(v[i].clone());
        assert(v@.take(i + 1).map_values(|d: Declaration| d@) =~= v@.take(i as int).map_values(
            |d: Declaration| d@,
        ).push(v@[i as int]@));
        assert(out@.map_values(|d: Declaration| d@) =~= v@.take(i + 1).map_values(
            |d: Declaration| d@,
        ));
    }
    assert(v@.take(v@.len() as int) =~= v@);
    out
}

impl Clone for OptionDoc {
    fn clone(&self) -> (r: Self)
        ensures
            r@ == self@,
    {
        OptionDoc {
            name: self.name.clone(),
            description: clone_opt(&self.description),
            nix_type: self.nix_type.clone(),
            default_value: clone_opt(&self.default_value),
            example: clone_opt(&self.example),
            renamed_to: clone_opt(&self.renamed_to),
            declarations: clone_declarations(&self.declarations),
        }
    }
}

} // verus!

verus! {

// ---------------------------------------------------------------------
// Filtering
// ---------------------------------------------------------------------

/// What `str::to_lowercase` makes of `s` (Unicode lower-casing; named,
/// not described).
pub uninterp spec fn lowercased(s: Seq<char>) -> Seq<char>;

/// `str::to_lowercase`.
#[verifier::external_body]
pub(crate) fn to_lowercase(s: &str) -> (r: String)
    ensures
        r@ == lowercased(s@),
{
    s.to_lowercase()
}

/// Whether the regular expression `pattern` (`regex` crate syntax) matches
/// somewhere in `text`; `None` when `pattern` is not a valid expression.
pub uninterp spec fn regex_search(pattern: Seq<char>, text: Seq<char>) -> Option<bool>;

/// `regex::Regex::new(pattern)` followed by `is_match(text)`.
#[verifier::external_body]
fn regex_is_match(pattern: &str, text: &str) -> (r: Option<bool>)
    ensures
        r == regex_search(pattern@, text@),
{
    match regex::Regex::new(pattern) {
        Ok(re) => Some(re.is_match(text)),
        Err(_) => None,
    }
}

/// The `--search` decision from the match against the name (`None` when
/// the pattern is not a valid regular expression) and whether the
/// description matched: an invalid pattern filters nothing out.
pub open spec fn search_outcome(name_match: Option<bool>, description_match: bool) -> bool {
    match name_match {
        None => true,
        Some(b) => b || description_match,
    }
}

/// Decides `--search` from the outcomes of the regular-expression match
/// against an option's name and against its description.
pub fn search_passes(name_match: Option<bool>, description_match: bool) -> (r: bool)
    ensures
        r == search_outcome(name_match, description_match),
{
    match name_match {
        None => true,
        Some(b) => b || description_match,
    }
}

/// An option passes the `--search` filter: the pattern matches its name or
/// description; an invalid pattern filters nothing out.
pub open spec fn search_keeps(pattern: Seq<char>, o: OptionDocView) -> bool {
    search_outcome(
        regex_search(pattern, o.name),
        o.description matches Some(d) && regex_search(pattern, d) == Some(true),
    )
}

/// An option passes every filter that is set.
pub open spec fn keeps(o: OptionDocView, f: FilterOptions) -> bool {
    &&& (f.filter_by_prefix matches Some(p) ==> crate::text::starts_with(o.name, p@))
    &&& (f.filter_by_type matches Some(t) ==> crate::text::contains(
        lowercased(o.nix_type),
        lowercased(t@),
    ))
    &&& (f.search matches Some(p) ==> search_keeps(p@, o))
    &&& (f.has_default ==> o.default_value is Some)
    &&& (f.has_description ==> o.description is Some)
}

/// The leading pattern `--strip-prefix` removes: `options.` for an empty
/// value, the value with a trailing dot when it already starts with
/// `options.`, and `options.<PREFIX>.` for a bare value (whose own
/// trailing dot, if any, is not doubled).
pub open spec fn strip_pattern(sp: Seq<char>) -> Seq<char> {
    if sp.len() == 0 {
        "options."@
    } else if crate::text::starts_with(sp, "options."@) {
        if crate::text::ends_with(sp, seq!['.']) {
            sp
        } else {
            sp + seq!['.']
        }
    } else {
        let q = if crate::text::ends_with(sp, seq!['.']) {
            sp.drop_last()
        } else {
            sp
        };
        if q.len() == 0 {
            "options."@
        } else {
            "options."@ + q + seq!['.']
        }
    }
}

/// `name` without one leading occurrence of `pat`.
pub open spec fn strip_name(name: Seq<char>, pat: Seq<char>) -> Seq<char> {
    if crate::text::starts_with(name, pat) {
        name.skip(pat.len() as int)
    } else {
        name
    }
}

/// The full option name a rename target is documented under.
pub open spec fn renamed_target_name(target: Seq<char>, pat: Option<Seq<char>>) -> Seq<char> {
    match pat {
        Some(p) => strip_name("options."@ + target, p),
        None => "options."@ + target,
    }
}

/// A shim description with its first mention of the rename target turned
/// into a link to the target's anchor.
pub open spec fn link_renamed(desc: Seq<char>, target: Seq<char>, pat: Option<Seq<char>>) -> Seq<
    char,
> {
    let span = crate::utils::inline_code_spec(target);
    crate::text::replace_first(
        desc,
        span,
        "["@ + span + "](#"@ + crate::utils::anchor_slug_spec(renamed_target_name(target, pat))
            + ")"@,
    )
}

/// The directory `--out-prefix` joins declaration paths to.
pub open spec fn link_prefix(op: Seq<char>) -> Seq<char> {
    if crate::text::ends_with(op, seq!['/']) {
        op.drop_last()
    } else {
        op
    }
}

/// A declaration with its path placed under the `--out-prefix`.
pub open spec fn prefixed_declaration(d: DeclarationView, op: Option<Seq<char>>) -> DeclarationView {
    match op {
        Some(p) => DeclarationView {
            file_path: link_prefix(p) + seq!['/'] + d.file_path,
            line_number: d.line_number,
            description: d.description,
            condition: d.condition,
        },
        None => d,
    }
}

/// What filtering makes of one kept option.
pub open spec fn transform_option(o: OptionDocView, pat: Option<Seq<char>>, op: Option<Seq<char>>) -> OptionDocView {
    OptionDocView {
        name: match pat {
            Some(p) => strip_name(o.name, p),
            None => o.name,
        },
        description: match (o.renamed_to, o.description) {
            (Some(t), Some(d)) => Some(link_renamed(d, t, pat)),
            _ => o.description,
        },
        nix_type: o.nix_type,
        default_value: o.default_value,
        example: o.example,
        renamed_to: o.renamed_to,
        declarations: o.declarations.map_values(|d: DeclarationView| prefixed_declaration(d, op)),
    }
}

/// The strip pattern selected by the command line, if any.
pub open spec fn cli_strip_pattern(f: FilterOptions) -> Option<Seq<char>> {
    match f.strip_prefix {
        Some(sp) => Some(strip_pattern(sp@)),
        None => None,
    }
}

/// The result of `filter_options`: the kept options, in order, transformed.
pub open spec fn filter_options_spec(opts: Seq<OptionDocView>, cli: Cli) -> Seq<OptionDocView> {
    opts.filter(|o: OptionDocView| keeps(o, cli.filter)).map_values(
        |o: OptionDocView| transform_option(o, cli_strip_pattern(cli.filter), opt_view(cli.io.out_prefix)),
    )
}

fn starts_with_str(s: &String, p: &String) -> (r: bool)
    ensures
        r == crate::text::starts_with(s@, p@),
{
    let a = chars_of(s.as_str());
    let b = chars_of(p.as_str());
    crate::text::has_prefix(a.as_slice(), b.as_slice())
}

fn keeps_exec(o: &OptionDoc, f: &FilterOptions) -> (r: bool)
    ensures
        r == keeps(o@, *f),
{
    if let Some(p) = &f.filter_by_prefix {
        if !starts_with_str(&o.name, p) {
            return false;
        }
    }
    if let Some(t) = &f.filter_by_type {
        let a = to_lowercase(o.nix_type.as_str());
        let b = to_lowercase(t.as_str());
        let ac = chars_of(a.as_str());
        let bc = chars_of(b.as_str());
        if !crate::text::contains_seq(ac.as_slice(), bc.as_slice()) {
            return false;
        }
    }
    if let Some(p) = &f.search {
        let name_match = regex_is_match(p.as_str(), o.name.as_str());
        // The description is only searched when the name did not match.
        let in_description = match name_match {
            Some(false) => match &o.description {
                Some(d) => regex_is_match(p.as_str(), d.as_str()) == Some(true),
                None => false,
            },
            _ => false,
        };
        if !search_passes(name_match, in_description) {
            return false;
        }
    }
    if f.has_default && o.default_value.is_none() {
        return false;
    }
    if f.has_description && o.description.is_none() {
        return false;
    }
    true
}

/// The `--strip-prefix` pattern for a given value.
pub fn strip_pattern_exec(sp: &str) -> (r: Vec<char>)
    ensures
        r@ == strip_pattern(sp@),
{
    let s = chars_of(sp);
    let opts = chars_of("options.");
    let dot: Vec<char> = vec!['.'];
    assert(dot@ =~= seq!['.']);
    if s.len() == 0 {
        opts
    } else if crate::text::has_prefix(s.as_slice(), opts.as_slice()) {
        if crate::text::has_suffix(s.as_slice(), dot.as_slice()) {
            s
        } else {
            let mut v = s;
            v.push('.');
            v
        }
    } else {
        let q = if crate::text::has_suffix(s.as_slice(), dot.as_slice()) {
            slice_to_vec(s.as_slice(), 0, s.len() - 1)
        } else {
            s
        };
        if q.len() == 0 {
            opts
        } else {
            let mut v = opts;
            push_all(&mut v, q.as_slice());
            v.push('.');
            v
        }
    }
}

fn strip_name_exec(name: &[char], pat: &[char]) -> (r: Vec<char>)
    ensures
        r@ == strip_name(name@, pat@),
{
    if crate::text::has_prefix(name, pat) {
        slice_to_vec(name, pat.len(), name.len())
    } else {
        slice_to_vec(name, 0, name.len())
    }
}

fn link_renamed_exec(desc: &[char], target: &[char], pat: &Option<Vec<char>>) -> (r: Vec<char>)
    ensures
        r@ == link_renamed(desc@, target@, match pat {
            Some(p) => Some(p@),
            None => None,
        }),
{
    let mut full = chars_of("options.");
    push_all(&mut full, target);
    let target_name = match pat {
        Some(p) => strip_name_exec(full.as_slice(), p.as_slice()),
        None => full,
    };
    let tn = string_of(target_name.as_slice());
    let anchor = crate::utils::anchor_slug(tn.as_str());
    let span = crate::utils::inline_code_chars(target);
    let mut linked: Vec<char> = vec!['['];
    assert(linked@ =~= "["@) by {
        reveal_strlit("[");
    }
    push_all(&mut linked, span.as_slice());
    push_str(&mut linked, "](#");
    push_str(&mut linked, anchor.as_str());
    push_str(&mut linked, ")");
    assert(span@.len() > 0) by {
        let body = crate::utils::code_span_body(target@);
        if body.len() != 0 {
            assert(span@.len() >= 1);
        }
    }
    crate::text::replace_first_exec(desc, span.as_slice(), linked.as_slice())
}

fn prefixed_declarations(decls: &Vec<Declaration>, op: &Option<String>) -> (r: Vec<Declaration>)
    ensures
        r@.map_values(|d: Declaration| d@) == decls@.map_values(|d: Declaration| d@).map_values(
            |d: DeclarationView| prefixed_declaration(d, opt_view(*op)),
        ),
{
    let ghost target = decls@.map_values(|d: Declaration| d@).map_values(
        |d: DeclarationView| prefixed_declaration(d, opt_view(*op)),
    );
    let prefix: Option<Vec<char>> = match op {
        Some(p) => {
            let pc = chars_of(p.as_str());
            let slash: Vec<char> = vec!['/'];
            assert(slash@ =~= seq!['/']);
            let mut base = if crate::text::has_suffix(pc.as_slice(), slash.as_slice()) {
                slice_to_vec(pc.as_slice(), 0, pc.len() - 1)
            } else {
                pc
            };
            base.push('/');
            Some(base)
        },
        None => None,
    };
    let mut out: Vec<Declaration> = Vec::new();
    for i in 0..decls.len()
        invariant
            target == decls@.map_values(|d: Declaration| d@).map_values(
                |d: DeclarationView| prefixed_declaration(d, opt_view(*op)),
            ),
            match op {
                Some(p) => prefix matches Some(b) && b@ == link_prefix(p@) + seq!['/'],
                None => prefix is None,
            },
            out@.map_values(|d: Declaration| d@) == target.take(i as int),
    {
        let d = &decls[i];
        let mut nd = d.clone();
        if let Some(b) = &prefix {
            let mut path = b.clone();
            push_str(&mut path, d.file_path.as_str());
            nd.file_path = string_of(path.as_slice());
        }
        assert(nd@ == target[i as int]);
        let ghost before = out@;
        out.push(nd);
        assert(out@.map_values(|d: Declaration| d@) =~= before.map_values(|d: Declaration| d@).push(
            target[i as int],
        ));
        assert(target.take(i + 1) =~= target.take(i as int).push(target[i as int]));
    }
    out
}

fn transform_option_exec(o: &OptionDoc, pat: &Option<Vec<char>>, op: &Option<String>) -> (r: OptionDoc)
    ensures
        r@ == transform_option(o@, match pat {
            Some(p) => Some(p@),
            None => None,
        }, opt_view(*op)),
{
    let name = match pat {
        Some(p) => {
            let n = chars_of(o.name.as_str());
            let s = strip_name_exec(n.as_slice(), p.as_slice());
            string_of(s.as_slice())
        },
        None => o.name.clone(),
    };
    let description = match (&o.renamed_to, &o.description) {
        (Some(t), Some(d)) => {
            let dc = chars_of(d.as_str());
            let tc = chars_of(t.as_str());
            let linked = link_renamed_exec(dc.as_slice(), tc.as_slice(), pat);
            Some(string_of(linked.as_slice()))
        },
        _ => clone_opt(&o.description),
    };
    OptionDoc {
        name,
        description,
        nix_type: o.nix_type.clone(),
        default_value: clone_opt(&o.default_value),
        example: clone_opt(&o.example),
        renamed_to: clone_opt(&o.renamed_to),
        declarations: prefixed_declarations(&o.declarations, op),
    }
}

/// Filters option entries by the command line's criteria (prefix, type,
/// search pattern, presence of a default or description), strips the
/// `--strip-prefix` pattern from the kept names, links rename shims to
/// their targets' anchors, and places declaration paths under the
/// `--out-prefix`.
pub fn filter_options(options: &[OptionDoc], cli: &Cli) -> (r: Vec<OptionDoc>)
    ensures
        r@.map_values(|o: OptionDoc| o@) == filter_options_spec(
            options@.map_values(|o: OptionDoc| o@),
            *cli,
        ),
{
    let ghost views = options@.map_values(|o: OptionDoc| o@);
    let ghost pred = |o: OptionDocView| keeps(o, cli.filter);
    let ghost tf = |o: OptionDocView| transform_option(o, cli_strip_pattern(cli.filter), opt_view(cli.io.out_prefix));
    let pat: Option<Vec<char>> = match &cli.filter.strip_prefix {
        Some(sp) => Some(strip_pattern_exec(sp.as_str())),
        None => None,
    };
    let mut out: Vec<OptionDoc> = Vec::new();
    for i in 0..options.len()
        invariant
            views == options@.map_values(|o: OptionDoc| o@),
            pred == (|o: OptionDocView| keeps(o, cli.filter)),
            tf == (|o: OptionDocView| transform_option(o, cli_strip_pattern(cli.filter), opt_view(cli.io.out_prefix))),
            match pat {
                Some(p) => cli_strip_pattern(cli.filter) == Some(p@),
                None => cli_strip_pattern(cli.filter) is None,
            },
            out@.map_values(|o: OptionDoc| o@) == views.take(i as int).filter(pred).map_values(tf),
    {
        let ghost before = views.take(i as int);
        assert(views.take(i + 1).drop_last() =~= before);
        assert(views.take(i + 1).last() == options@[i as int]@);
        if keeps_exec(&options[i], &cli.filter) {
            let t = transform_option_exec(&options[i], &pat, &cli.io.out_prefix);
            assert(t@ == tf(options@[i as int]@));
            let ghost prev = out@;
            out.push(t);
            assert(out@.map_values(|o: OptionDoc| o@) =~= prev.map_values(|o: OptionDoc| o@).push(
                t@,
            ));
            assert(views.take(i + 1).filter(pred) == before.filter(pred).push(options@[i as int]@))
                by {
                reveal(Seq::filter);
            }
            assert(out@.map_values(|o: OptionDoc| o@) =~= views.take(i + 1).filter(pred).map_values(tf));
        } else {
            assert(views.take(i + 1).filter(pred) == before.filter(pred)) by {
                reveal(Seq::filter);
            }
        }
    }
    assert(views.take(options@.len() as int) =~= views);
    out
}

} // verus!

verus! {

// ---------------------------------------------------------------------
// Merging options declared more than once
// ---------------------------------------------------------------------

/// Some entry of `opts` is named `name`.
pub open spec fn has_name(opts: Seq<OptionDocView>, name: Seq<char>) -> bool {
    exists|i: int| 0 <= i < opts.len() && #[trigger] opts[i].name == name
}

/// No two entries of `opts` share a name.
pub open spec fn names_unique(opts: Seq<OptionDocView>) -> bool {
    forall|i: int, j: int|
        0 <= i < opts.len() && 0 <= j < opts.len() && i != j ==> #[trigger] opts[i].name
            != #[trigger] opts[j].name
}

/// `ds` with each of `news` appended, carrying `alt` as its own
/// description, unless an equal declaration is already there.
pub open spec fn push_declarations(ds: Seq<DeclarationView>, news: Seq<DeclarationView>, alt: Option<Seq<char>>) -> Seq<
    DeclarationView,
>
    decreases news.len(),
{
    if news.len() == 0 {
        ds
    } else {
        let acc = push_declarations(ds, news.drop_last(), alt);
        let d = DeclarationView { description: alt, ..news.last() };
        if acc.contains(d) {
            acc
        } else {
            acc.push(d)
        }
    }
}

/// The primary entry `p` with the declarations of a later entry `o` of the
/// same name added; those carry `o`'s description only when it differs
/// from the primary one.
pub open spec fn with_declarations_of(p: OptionDocView, o: OptionDocView) -> OptionDocView {
    let alt = if p.description != o.description {
        o.description
    } else {
        None
    };
    OptionDocView { declarations: push_declarations(p.declarations, o.declarations, alt), ..p }
}

/// `acc` with one more entry merged in: added to the entry of the same
/// name if there is one, appended otherwise.
pub open spec fn merge_one(acc: Seq<OptionDocView>, o: OptionDocView) -> Seq<OptionDocView> {
    if has_name(acc, o.name) {
        acc.map_values(|p: OptionDocView| if p.name == o.name {
            with_declarations_of(p, o)
        } else {
            p
        })
    } else {
        acc.push(o)
    }
}

/// The entries of `opts` with those declared more than once merged into
/// the first-found one, in order of first appearance.
pub open spec fn merge_spec(opts: Seq<OptionDocView>) -> Seq<OptionDocView>
    decreases opts.len(),
{
    if opts.len() == 0 {
        seq![]
    } else {
        merge_one(merge_spec(opts.drop_last()), opts.last())
    }
}

/// Merging keeps names unique: no two merged entries share a name.
pub proof fn merge_names_unique(opts: Seq<OptionDocView>)
    ensures
        names_unique(merge_spec(opts)),
    decreases opts.len(),
{
    if opts.len() > 0 {
        merge_names_unique(opts.drop_last());
        let acc = merge_spec(opts.drop_last());
        let o = opts.last();
        let r = merge_spec(opts);
        if has_name(acc, o.name) {
            assert forall|i: int, j: int|
                0 <= i < r.len() && 0 <= j < r.len() && i != j implies #[trigger] r[i].name
                != #[trigger] r[j].name by {
                assert(r[i].name == acc[i].name);
                assert(r[j].name == acc[j].name);
            }
        } else {
            assert forall|i: int, j: int|
                0 <= i < r.len() && 0 <= j < r.len() && i != j implies #[trigger] r[i].name
                != #[trigger] r[j].name by {
                if i < acc.len() && j < acc.len() {
                    assert(r[i] == acc[i] && r[j] == acc[j]);
                } else if i < acc.len() {
                    assert(r[i] == acc[i]);
                } else {
                    assert(r[j] == acc[j]);
                }
            }
        }
    }
}

/// Merging loses no name and invents none: a name is merged exactly when
/// some entry carries it.
pub proof fn merge_keeps_names(opts: Seq<OptionDocView>, name: Seq<char>)
    ensures
        has_name(merge_spec(opts), name) == has_name(opts, name),
    decreases opts.len(),
{
    if opts.len() > 0 {
        merge_keeps_names(opts.drop_last(), name);
        let acc = merge_spec(opts.drop_last());
        let o = opts.last();
        let r = merge_spec(opts);
        let init = opts.drop_last();
        if has_name(init, name) {
            let k = choose|k: int| 0 <= k < init.len() && #[trigger] init[k].name == name;
            assert(opts[k].name == name);
        }
        if has_name(opts, name) {
            let k = choose|k: int| 0 <= k < opts.len() && #[trigger] opts[k].name == name;
            if k < init.len() {
                assert(init[k].name == name);
            }
        }
        if o.name == name {
            assert(opts[opts.len() - 1].name == name);
        }
        if has_name(acc, o.name) {
            if has_name(acc, name) {
                let k = choose|k: int| 0 <= k < acc.len() && #[trigger] acc[k].name == name;
                assert(r[k].name == name);
            }
            if has_name(r, name) {
                let k = choose|k: int| 0 <= k < r.len() && #[trigger] r[k].name == name;
                assert(acc[k].name == name);
            }
        } else {
            if o.name == name {
                assert(r[acc.len() as int].name == name);
            }
            if has_name(acc, name) {
                let k = choose|k: int| 0 <= k < acc.len() && #[trigger] acc[k].name == name;
                assert(r[k].name == name);
            }
            if has_name(r, name) {
                let k = choose|k: int| 0 <= k < r.len() && #[trigger] r[k].name == name;
                if k < acc.len() {
                    assert(acc[k].name == name);
                } else {
                    assert(opts[opts.len() - 1].name == name);
                }
            }
        }
    }
}

/// Option entries taken by their views.
pub open spec fn options_view(v: Seq<OptionDoc>) -> Seq<OptionDocView> {
    v.map_values(|o: OptionDoc| o@)
}

fn str_eq(a: &String, b: &String) -> (r: bool)
    ensures
        r == (a@ == b@),
{
    let x = chars_of(a.as_str());
    let y = chars_of(b.as_str());
    crate::text::chars_eq(x.as_slice(), y.as_slice())
}

fn opt_str_eq(a: &Option<String>, b: &Option<String>) -> (r: bool)
    ensures
        r == (opt_view(*a) == opt_view(*b)),
{
    match (a, b) {
        (Some(x), Some(y)) => str_eq(x, y),
        (None, None) => true,
        _ => false,
    }
}

fn declaration_eq(a: &Declaration, b: &Declaration) -> (r: bool)
    ensures
        r == (a@ == b@),
{
    str_eq(&a.file_path, &b.file_path) && a.line_number == b.line_number && opt_str_eq(
        &a.description,
        &b.description,
    ) && opt_str_eq(&a.condition, &b.condition)
}

fn contains_declaration(ds: &Vec<Declaration>, d: &Declaration) -> (r: bool)
    ensures
        r == ds@.map_values(|x: Declaration| x@).contains(d@),
{
    let ghost dv = ds@.map_values(|x: Declaration| x@);
    for i in 0..ds.len()
        invariant
            dv == ds@.map_values(|x: Declaration| x@),
            forall|j: int| 0 <= j < i ==> dv[j] != d@,
    {
        if declaration_eq(&ds[i], d) {
            assert(dv[i as int] == d@);
            return true;
        }
    }
    false
}

fn with_declarations_of_exec(p: &OptionDoc, o: &OptionDoc) -> (r: OptionDoc)
    ensures
        r@ == with_declarations_of(p@, o@),
{
    let alt = if !opt_str_eq(&p.description, &o.description) {
        clone_opt(&o.description)
    } else {
        None
    };
    let mut decls = clone_declarations(&p.declarations);
    let ghost news = o@.declarations;
    for j in 0..o.declarations.len()
        invariant
            news == o@.declarations,
            decls@.map_values(|x: Declaration| x@) == push_declarations(
                p@.declarations,
                news.take(j as int),
                opt_view(alt),
            ),
    {
        assert(news.take(j + 1).drop_last() =~= news.take(j as int));
        let mut d = o.declarations[j].clone();
        d.description = clone_opt(&alt);
        assert(d@ == DeclarationView { description: opt_view(alt), ..news.take(j + 1).last() });
        if !contains_declaration(&decls, &d) {
            let ghost before = decls@;
            decls.push(d);
            assert(decls@.map_values(|x: Declaration| x@) =~= before.map_values(|x: Declaration| x@).push(d@));
        }
    }
    assert(news.take(news.len() as int) =~= news);
    OptionDoc {
        name: p.name.clone(),
        description: clone_opt(&p.description),
        nix_type: p.nix_type.clone(),
        default_value: clone_opt(&p.default_value),
        example: clone_opt(&p.example),
        renamed_to: clone_opt(&p.renamed_to),
        declarations: decls,
    }
}

/// Merges option entries declared more than once (the same name in
/// separate module fragments) into the first-found entry, which gains the
/// later entries' declarations (each carrying its own description only
/// when that differs from the primary one, and none repeated); entries
/// keep the order in which their names first appear.
pub fn merge_options(options: &Vec<OptionDoc>) -> (r: Vec<OptionDoc>)
    ensures
        options_view(r@) == merge_spec(options_view(options@)),
{
    let ghost views = options_view(options@);
    let mut unique: Vec<OptionDoc> = Vec::new();
    let mut index: StringHashMap<usize> = StringHashMap::new();
    for i in 0..options.len()
        invariant
            views == options_view(options@),
            options_view(unique@) == merge_spec(views.take(i as int)),
            forall|n: Seq<char>| #[trigger] index@.contains_key(n) <==> has_name(options_view(unique@), n),
            forall|n: Seq<char>|
                #[trigger] index@.contains_key(n) ==> index@[n] < unique@.len() && unique@[index@[n] as int].name@ == n,
    {
        let ghost acc = options_view(unique@);
        proof {
            merge_names_unique(views.take(i as int));
        }
        assert(views.take(i + 1).drop_last() =~= views.take(i as int));
        assert(views.take(i + 1).last() == options@[i as int]@);
        let o = &options[i];
        match index.get(o.name.as_str()) {
            Some(idx_ref) => {
                let idx = *idx_ref;
                assert(acc[idx as int].name == o@.name);
                let np = with_declarations_of_exec(&unique[idx], o);
                unique.set(idx, np);
                assert(options_view(unique@) =~= merge_one(acc, o@)) by {
                    assert(has_name(acc, o@.name));
                    assert forall|k: int| 0 <= k < acc.len() implies #[trigger] options_view(unique@)[k] == (
                    if acc[k].name == o@.name {
                        with_declarations_of(acc[k], o@)
                    } else {
                        acc[k]
                    }) by {
                        if k != idx {
                            assert(acc[k].name != acc[idx as int].name);
                        }
                    }
                }
                assert forall|n: Seq<char>| #[trigger] index@.contains_key(n) <==> has_name(options_view(unique@), n) by {
                    if has_name(acc, n) {
                        let k = choose|k: int| 0 <= k < acc.len() && #[trigger] acc[k].name == n;
                        assert(options_view(unique@)[k].name == n);
                    }
                    if has_name(options_view(unique@), n) {
                        let k = choose|k: int| 0 <= k < unique@.len() && #[trigger] options_view(unique@)[k].name == n;
                        assert(acc[k].name == n);
                    }
                }
            },
            None => {
                let ghost len = unique@.len();
                index.insert(o.name.clone(), unique.len());
                unique.push(o.clone());
                assert(options_view(unique@) =~= acc.push(o@));
                assert forall|n: Seq<char>| #[trigger] index@.contains_key(n) <==> has_name(options_view(unique@), n) by {
                    if has_name(acc, n) {
                        let k = choose|k: int| 0 <= k < acc.len() && #[trigger] acc[k].name == n;
                        assert(options_view(unique@)[k].name == n);
                    }
                    if n == o@.name {
                        assert(options_view(unique@)[len as int].name == n);
                    }
                    if has_name(options_view(unique@), n) {
                        let k = choose|k: int| 0 <= k < unique@.len() && #[trigger] options_view(unique@)[k].name == n;
                        if k < len {
                            assert(acc[k].name == n);
                        }
                    }
                }
            },
        }
    }
    assert(views.take(views.len() as int) =~= views);
    unique
}

} // verus!

verus! {

// ---------------------------------------------------------------------
// Ordering by name
// ---------------------------------------------------------------------

/// `a` sorts no later than `b` in `String`'s order (character by
/// character, by code point, a proper prefix first).
pub open spec fn name_le(a: Seq<char>, b: Seq<char>) -> bool
    decreases a.len(),
{
    if a.len() == 0 {
        true
    } else if b.len() == 0 {
        false
    } else if a[0] != b[0] {
        a[0] < b[0]
    } else {
        name_le(a.skip(1), b.skip(1))
    }
}

/// `name_le` over characters.
pub fn name_le_exec(a: &[char], b: &[char]) -> (r: bool)
    ensures
        r == name_le(a@, b@),
{
    let mut i: usize = 0;
    assert(a@.skip(0) =~= a@);
    assert(b@.skip(0) =~= b@);
    while i < a.len() && i < b.len()
        invariant
            i <= a.len(),
            i <= b.len(),
            name_le(a@, b@) == name_le(a@.skip(i as int), b@.skip(i as int)),
        decreases a.len() - i,
    {
        assert(a@.skip(i as int)[0] == a@[i as int]);
        assert(b@.skip(i as int)[0] == b@[i as int]);
        if a[i] != b[i] {
            return a[i] < b[i];
        }
        assert(a@.skip(i as int).skip(1) =~= a@.skip(i + 1));
        assert(b@.skip(i as int).skip(1) =~= b@.skip(i + 1));
        i = i + 1;
    }
    i == a.len()
}

/// `sorted` with `o` inserted after every entry whose name sorts no later
/// than its own.
pub open spec fn insert_by_name(sorted: Seq<OptionDocView>, o: OptionDocView) -> Seq<OptionDocView>
    decreases sorted.len(),
{
    if sorted.len() == 0 || name_le(sorted.last().name, o.name) {
        sorted.push(o)
    } else {
        insert_by_name(sorted.drop_last(), o).push(sorted.last())
    }
}

/// `opts` stably sorted by name: entries of equal name keep their order.
pub open spec fn sort_by_name(opts: Seq<OptionDocView>) -> Seq<OptionDocView>
    decreases opts.len(),
{
    if opts.len() == 0 {
        seq![]
    } else {
        insert_by_name(sort_by_name(opts.drop_last()), opts.last())
    }
}

/// Sorts option entries by name, stably.
pub fn sort_options(options: &[OptionDoc]) -> (r: Vec<OptionDoc>)
    ensures
        options_view(r@) == sort_by_name(options_view(options@)),
{
    let ghost views = options_view(options@);
    let mut out: Vec<OptionDoc> = Vec::new();
    for i in 0..options.len()
        invariant
            views == options_view(options@),
            options_view(out@) == sort_by_name(views.take(i as int)),
    {
        assert(views.take(i + 1).drop_last() =~= views.take(i as int));
        let o = options[i].clone();
        let oname = chars_of(o.name.as_str());
        let ghost s = options_view(out@);
        let mut j = out.len();
        assert(s.take(j as int) =~= s);
        assert(s.skip(j as int) =~= Seq::<OptionDocView>::empty());
        while j > 0
            invariant
                j <= out@.len(),
                s == options_view(out@),
                oname@ == o@.name,
                insert_by_name(s, o@) == insert_by_name(s.take(j as int), o@) + s.skip(j as int),
            ensures
                j == 0 || name_le(s[j - 1].name, o@.name),
            decreases j,
        {
            let pname = chars_of(out[j - 1].name.as_str());
            assert(s.take(j as int).last() == s[j - 1]);
            if name_le_exec(pname.as_slice(), oname.as_slice()) {
                break;
            }
            assert(s.take(j as int).drop_last() =~= s.take(j - 1));
            assert(s.skip(j - 1) =~= seq![s[j - 1]] + s.skip(j as int));
            j = j - 1;
        }
        assert(insert_by_name(s.take(j as int), o@) == s.take(j as int).push(o@));
        let ghost o_view = o@;
        out.insert(j, o);
        assert(options_view(out@) =~= s.take(j as int).push(o_view) + s.skip(j as int));
    }
    assert(views.take(views.len() as int) =~= views);
    out
}

} // verus!

verus! {

// ---------------------------------------------------------------------
// Laws of the name order and of sorting
// ---------------------------------------------------------------------

/// Any two names are ordered one way or the other.
pub proof fn name_le_total(a: Seq<char>, b: Seq<char>)
    ensures
        name_le(a, b) || name_le(b, a),
    decreases a.len(),
{
    if a.len() > 0 && b.len() > 0 {
        if a[0] == b[0] {
            name_le_total(a.skip(1), b.skip(1));
        }
    }
}

/// The name order is transitive.
pub proof fn name_le_transitive(a: Seq<char>, b: Seq<char>, c: Seq<char>)
    requires
        name_le(a, b),
        name_le(b, c),
    ensures
        name_le(a, c),
    decreases a.len(),
{
    if a.len() > 0 && b.len() > 0 && c.len() > 0 && a[0] == b[0] && b[0] == c[0] {
        name_le_transitive(a.skip(1), b.skip(1), c.skip(1));
    }
}

/// Entries are in name order.
pub open spec fn sorted_by_name(s: Seq<OptionDocView>) -> bool {
    forall|i: int, j: int| 0 <= i < j < s.len() ==> name_le(#[trigger] s[i].name, #[trigger] s[j].name)
}

proof fn insert_by_name_facts(s: Seq<OptionDocView>, o: OptionDocView)
    requires
        sorted_by_name(s),
    ensures
        sorted_by_name(insert_by_name(s, o)),
        insert_by_name(s, o).to_multiset() == s.to_multiset().insert(o),
    decreases s.len(),
{
    broadcast use vstd::seq_lib::group_seq_properties;
    let r = insert_by_name(s, o);
    if s.len() == 0 || name_le(s.last().name, o.name) {
        assert forall|i: int, j: int| 0 <= i < j < r.len() implies name_le(
            #[trigger] r[i].name,
            #[trigger] r[j].name,
        ) by {
            if j == s.len() {
                if i < s.len() - 1 {
                    name_le_transitive(s[i].name, s.last().name, o.name);
                }
            }
        }
    } else {
        let init = s.drop_last();
        assert(sorted_by_name(init)) by {
            assert forall|i: int, j: int| 0 <= i < j < init.len() implies name_le(
                #[trigger] init[i].name,
                #[trigger] init[j].name,
            ) by {
                assert(init[i] == s[i] && init[j] == s[j]);
            }
        }
        insert_by_name_facts(init, o);
        let mid = insert_by_name(init, o);
        name_le_total(s.last().name, o.name);
        assert(mid.to_multiset() == init.to_multiset().insert(o));
        assert forall|i: int| 0 <= i < mid.len() implies name_le(#[trigger] mid[i].name, s.last().name) by {
            assert(mid.to_multiset().count(mid[i]) > 0);
            assert(init.to_multiset().insert(o).count(mid[i]) > 0);
            if mid[i] != o {
                assert(init.to_multiset().count(mid[i]) > 0);
                assert(init.contains(mid[i]));
                let w = choose|w: int| 0 <= w < init.len() && init[w] == mid[i];
                assert(s[w] == init[w]);
                assert(name_le(s[w].name, s[s.len() - 1].name));
            }
        }
        assert forall|i: int, j: int| 0 <= i < j < r.len() implies name_le(
            #[trigger] r[i].name,
            #[trigger] r[j].name,
        ) by {
            if j == r.len() - 1 {
                assert(r[i] == mid[i]);
            } else {
                assert(r[i] == mid[i] && r[j] == mid[j]);
            }
        }
        assert(s =~= init.push(s.last()));
        assert(r.to_multiset() == mid.to_multiset().insert(s.last()));
        assert(s.to_multiset() == init.to_multiset().insert(s.last()));
        assert(r.to_multiset() =~= s.to_multiset().insert(o));
    }
}

/// Sorting by name orders the entries by name and neither loses nor
/// invents one: the result is a permutation of the input in name order.
pub proof fn sort_by_name_sorted(opts: Seq<OptionDocView>)
    ensures
        sorted_by_name(sort_by_name(opts)),
        sort_by_name(opts).to_multiset() == opts.to_multiset(),
    decreases opts.len(),
{
    broadcast use vstd::seq_lib::group_seq_properties;
    if opts.len() > 0 {
        sort_by_name_sorted(opts.drop_last());
        insert_by_name_facts(sort_by_name(opts.drop_last()), opts.last());
        assert(opts =~= opts.drop_last().push(opts.last()));
    }
}

} // verus!

verus! {

// ---------------------------------------------------------------------
// Every entry keeps at least one declaration
// ---------------------------------------------------------------------

proof fn push_declarations_grows(ds: Seq<DeclarationView>, news: Seq<DeclarationView>, alt: Option<Seq<char>>)
    ensures
        push_declarations(ds, news, alt).len() >= ds.len(),
        forall|i: int| 0 <= i < ds.len() ==> #[trigger] push_declarations(ds, news, alt)[i] == ds[i],
    decreases news.len(),
{
    if news.len() > 0 {
        push_declarations_grows(ds, news.drop_last(), alt);
    }
}

/// Merging keeps every entry declared: when each input entry has a
/// declaration, so does each merged one.
pub proof fn merge_keeps_declarations(opts: Seq<OptionDocView>)
    requires
        crate::generate::markdown::all_declared(opts),
    ensures
        crate::generate::markdown::all_declared(merge_spec(opts)),
    decreases opts.len(),
{
    if opts.len() > 0 {
        let init = opts.drop_last();
        assert(crate::generate::markdown::all_declared(init)) by {
            assert forall|i: int| 0 <= i < init.len() implies #[trigger] init[i].declarations.len() >= 1 by {
                assert(init[i] == opts[i]);
            }
        }
        merge_keeps_declarations(init);
        let acc = merge_spec(init);
        let o = opts.last();
        assert(o.declarations.len() >= 1);
        let r = merge_spec(opts);
        assert forall|i: int| 0 <= i < r.len() implies #[trigger] r[i].declarations.len() >= 1 by {
            if has_name(acc, o.name) {
                if acc[i].name == o.name {
                    let alt = if acc[i].description != o.description {
                        o.description
                    } else {
                        None
                    };
                    push_declarations_grows(acc[i].declarations, o.declarations, alt);
                }
            }
        }
    }
}

/// `m` is `o` with possibly more declarations after `o`'s own: every other
/// field is `o`'s.
pub open spec fn extends_entry(m: OptionDocView, o: OptionDocView) -> bool {
    &&& m.name == o.name
    &&& m.description == o.description
    &&& m.nix_type == o.nix_type
    &&& m.default_value == o.default_value
    &&& m.example == o.example
    &&& m.renamed_to == o.renamed_to
    &&& o.declarations.len() <= m.declarations.len()
    &&& m.declarations.take(o.declarations.len() as int) == o.declarations
}

/// The first-found entry of a name stays primary: the merged entry of that
/// name keeps its description, type, default, example and rename target,
/// and its declarations come first.
pub proof fn merge_keeps_first_entry(opts: Seq<OptionDocView>, i: int)
    requires
        0 <= i < opts.len(),
        forall|j: int| 0 <= j < i ==> #[trigger] opts[j].name != opts[i].name,
    ensures
        exists|k: int| 0 <= k < merge_spec(opts).len() && extends_entry(#[trigger] merge_spec(opts)[k], opts[i]),
    decreases opts.len(),
{
    let init = opts.drop_last();
    let acc = merge_spec(init);
    let o = opts.last();
    let r = merge_spec(opts);
    if i == opts.len() - 1 {
        if has_name(init, o.name) {
            let j = choose|j: int| 0 <= j < init.len() && #[trigger] init[j].name == o.name;
            assert(opts[j].name == opts[i].name);
        }
        merge_keeps_names(init, o.name);
        assert(r == acc.push(o));
        let k = acc.len() as int;
        assert(o.declarations.take(o.declarations.len() as int) =~= o.declarations);
        assert(extends_entry(r[k], opts[i]));
    } else {
        assert forall|j: int| 0 <= j < i implies #[trigger] init[j].name != init[i].name by {
            assert(init[j] == opts[j] && init[i] == opts[i]);
        }
        merge_keeps_first_entry(init, i);
        let k = choose|k: int| 0 <= k < acc.len() && extends_entry(#[trigger] acc[k], init[i]);
        assert(init[i] == opts[i]);
        let p = acc[k];
        if has_name(acc, o.name) {
            if p.name == o.name {
                let alt = if p.description != o.description {
                    o.description
                } else {
                    None
                };
                push_declarations_grows(p.declarations, o.declarations, alt);
                let m = with_declarations_of(p, o);
                assert(r[k] == m);
                assert(m.declarations.take(opts[i].declarations.len() as int) =~= opts[i].declarations) by {
                    assert forall|x: int| 0 <= x < opts[i].declarations.len() implies #[trigger] m.declarations[x]
                        == opts[i].declarations[x] by {
                        assert(m.declarations[x] == p.declarations[x]);
                        assert(p.declarations.take(opts[i].declarations.len() as int)[x] == p.declarations[x]);
                    }
                }
                assert(extends_entry(r[k], opts[i]));
            } else {
                assert(r[k] == p);
            }
        } else {
            assert(r == acc.push(o));
            assert(r[k] == p);
        }
    }
}

/// No declaration is listed twice.
pub open spec fn distinct_declarations(ds: Seq<DeclarationView>) -> bool {
    forall|i: int, j: int| 0 <= i < j < ds.len() ==> #[trigger] ds[i] != #[trigger] ds[j]
}

proof fn push_declarations_distinct(ds: Seq<DeclarationView>, news: Seq<DeclarationView>, alt: Option<Seq<char>>)
    requires
        distinct_declarations(ds),
    ensures
        distinct_declarations(push_declarations(ds, news, alt)),
    decreases news.len(),
{
    if news.len() > 0 {
        push_declarations_distinct(ds, news.drop_last(), alt);
        let acc = push_declarations(ds, news.drop_last(), alt);
        let d = DeclarationView { description: alt, ..news.last() };
        if !acc.contains(d) {
            let r = acc.push(d);
            assert forall|i: int, j: int| 0 <= i < j < r.len() implies #[trigger] r[i] != #[trigger] r[j] by {
                if j == acc.len() {
                    assert(r[i] == acc[i]);
                    if r[i] == r[j] {
                        assert(acc.contains(d));
                    }
                } else {
                    assert(r[i] == acc[i] && r[j] == acc[j]);
                }
            }
        }
    }
}

/// Merging never lists a declaration twice: when no input entry repeats a
/// declaration, no merged entry does, however often a name recurs.
pub proof fn merge_declarations_distinct(opts: Seq<OptionDocView>)
    requires
        forall|i: int| 0 <= i < opts.len() ==> distinct_declarations(#[trigger] opts[i].declarations),
    ensures
        forall|k: int|
            0 <= k < merge_spec(opts).len() ==> distinct_declarations(#[trigger] merge_spec(opts)[k].declarations),
    decreases opts.len(),
{
    if opts.len() > 0 {
        let init = opts.drop_last();
        assert forall|i: int| 0 <= i < init.len() implies distinct_declarations(#[trigger] init[i].declarations) by {
            assert(init[i] == opts[i]);
        }
        merge_declarations_distinct(init);
        let acc = merge_spec(init);
        let o = opts.last();
        assert(distinct_declarations(opts[opts.len() - 1].declarations));
        let r = merge_spec(opts);
        assert forall|k: int| 0 <= k < r.len() implies distinct_declarations(#[trigger] r[k].declarations) by {
            if has_name(acc, o.name) {
                assert(distinct_declarations(acc[k].declarations));
                if acc[k].name == o.name {
                    let alt = if acc[k].description != o.description {
                        o.description
                    } else {
                        None
                    };
                    push_declarations_distinct(acc[k].declarations, o.declarations, alt);
                }
            } else if k < acc.len() {
                assert(r[k] == acc[k]);
                assert(distinct_declarations(acc[k].declarations));
            }
        }
    }
}

/// The entries named `n`, in order.
pub open spec fn named(opts: Seq<OptionDocView>, n: Seq<char>) -> Seq<OptionDocView> {
    opts.filter(|o: OptionDocView| o.name == n)
}

/// Appending one entry to a sequence appends it to the entries of its name.
proof fn named_push(s: Seq<OptionDocView>, o: OptionDocView, n: Seq<char>)
    ensures
        named(s.push(o), n) == if o.name == n {
            named(s, n).push(o)
        } else {
            named(s, n)
        },
{
    reveal(Seq::filter);
    let p = |x: OptionDocView| x.name == n;
    assert(s.push(o).drop_last() =~= s);
    assert(s.push(o).last() == o);
    assert(named(s.push(o), n) == s.push(o).filter(p));
    assert(named(s, n) == s.filter(p));
}

proof fn insert_by_name_named(s: Seq<OptionDocView>, o: OptionDocView, n: Seq<char>)
    ensures
        named(insert_by_name(s, o), n) == if o.name == n {
            named(s, n).push(o)
        } else {
            named(s, n)
        },
    decreases s.len(),
{
    if s.len() == 0 || name_le(s.last().name, o.name) {
        named_push(s, o, n);
    } else {
        insert_by_name_named(s.drop_last(), o, n);
        let x = insert_by_name(s.drop_last(), o);
        named_push(x, s.last(), n);
        named_push(s.drop_last(), s.last(), n);
        assert(s.drop_last().push(s.last()) =~= s);
        name_le_total(o.name, o.name);
        assert(s.last().name != o.name);
    }
}

/// Sorting is stable: the entries of any one name come out in the order
/// in which they went in.
pub proof fn sort_is_stable(opts: Seq<OptionDocView>, n: Seq<char>)
    ensures
        named(sort_by_name(opts), n) == named(opts, n),
    decreases opts.len(),
{
    if opts.len() > 0 {
        sort_is_stable(opts.drop_last(), n);
        insert_by_name_named(sort_by_name(opts.drop_last()), opts.last(), n);
        named_push(opts.drop_last(), opts.last(), n);
        assert(opts.drop_last().push(opts.last()) =~= opts);
    }
}

/// Every spelling of a `--strip-prefix` value names the same pattern: a
/// bare prefix, with or without a trailing dot, and the same prefix with
/// `options.` in front, with or without a trailing dot, all strip
/// `options.<PREFIX>.`; an empty value, a lone dot and `options.` all strip
/// `options.`, while a bare `options` strips `options.options.`.
pub proof fn strip_prefix_spellings_agree(q: Seq<char>)
    requires
        q.len() > 0,
        !crate::text::ends_with(q, seq!['.']),
        !crate::text::starts_with(q + seq!['.'], "options."@),
    ensures
        strip_pattern(q) == "options."@ + q + seq!['.'],
        strip_pattern(q + seq!['.']) == "options."@ + q + seq!['.'],
        strip_pattern("options."@ + q) == "options."@ + q + seq!['.'],
        strip_pattern("options."@ + q + seq!['.']) == "options."@ + q + seq!['.'],
        strip_pattern(seq![]) == "options."@,
        strip_pattern(seq!['.']) == "options."@,
        strip_pattern("options."@) == "options."@,
        strip_pattern("options"@) == "options.options."@,
{
    reveal_strlit("options.");
    reveal_strlit("options");
    reveal_strlit("options.options.");
    let bare = "options"@;
    assert(!crate::text::starts_with(bare, "options."@));
    assert(!crate::text::ends_with(bare, seq!['.'])) by {
        assert(bare.len() == 7);
        assert(bare[6] == 's');
        assert(bare.skip(6)[0] == 's');
    }
    assert("options."@ + bare + seq!['.'] =~= "options.options."@);
    let o = "options."@;
    let d = seq!['.'];
    assert(!crate::text::starts_with(q, o)) by {
        if crate::text::starts_with(q, o) {
            assert((q + d).take(o.len() as int) =~= q.take(o.len() as int));
        }
    }
    assert((q + d).drop_last() =~= q);
    assert(crate::text::ends_with(q + d, d)) by {
        assert((q + d).skip((q + d).len() - 1) =~= d);
    }
    assert(crate::text::starts_with(o + q, o)) by {
        assert((o + q).take(o.len() as int) =~= o);
    }
    assert(!crate::text::ends_with(o + q, d)) by {
        assert((o + q).skip((o + q).len() - 1) =~= q.skip(q.len() - 1));
    }
    assert(crate::text::starts_with(o + q + d, o)) by {
        assert((o + q + d).take(o.len() as int) =~= o);
    }
    assert(crate::text::ends_with(o + q + d, d)) by {
        assert((o + q + d).skip((o + q + d).len() - 1) =~= d);
    }
    assert(!crate::text::starts_with(d, o));
    assert(crate::text::ends_with(d, d)) by {
        assert(d.skip(0) =~= d);
    }
    assert(d.drop_last() =~= Seq::<char>::empty());
    assert(crate::text::starts_with(o, o)) by {
        assert(o.take(o.len() as int) =~= o);
    }
    assert(crate::text::ends_with(o, d)) by {
        assert(o.skip(o.len() - 1) =~= d);
    }
}

/// The filter reads `--strip-prefix` only through its pattern: two
/// command lines that agree on every filter and on `--out-prefix`, and
/// whose `--strip-prefix` values name the same pattern, keep and rename
/// the same options.
pub proof fn filter_reads_only_the_strip_pattern(opts: Seq<OptionDocView>, c1: Cli, c2: Cli)
    requires
        c1.filter.filter_by_prefix == c2.filter.filter_by_prefix,
        c1.filter.filter_by_type == c2.filter.filter_by_type,
        c1.filter.search == c2.filter.search,
        c1.filter.has_default == c2.filter.has_default,
        c1.filter.has_description == c2.filter.has_description,
        c1.io.out_prefix == c2.io.out_prefix,
        cli_strip_pattern(c1.filter) == cli_strip_pattern(c2.filter),
    ensures
        filter_options_spec(opts, c1) == filter_options_spec(opts, c2),
{
    let p1 = |o: OptionDocView| keeps(o, c1.filter);
    let p2 = |o: OptionDocView| keeps(o, c2.filter);
    assert(p1 =~= p2);
    let t1 = |o: OptionDocView| transform_option(o, cli_strip_pattern(c1.filter), opt_view(c1.io.out_prefix));
    let t2 = |o: OptionDocView| transform_option(o, cli_strip_pattern(c2.filter), opt_view(c2.io.out_prefix));
    assert(t1 =~= t2);
}

/// Sorting inside `generate_doc` is sorting beforehand: the document of
/// `opts` with sorting asked for is the document of the sorted entries
/// without it, in every format written here.
pub proof fn sorted_document_is_document_of_sorted(opts: Seq<OptionDocView>, format: OutputFormat)
    ensures
        doc_text(doc_entries(opts, true), format) == doc_text(doc_entries(sort_by_name(opts), false), format),
{
}

/// `--has-description` and `--has-default` each test their own field: with
/// only `--has-description` set, an option is kept exactly when it has a
/// description, whatever its default; with only `--has-default` set,
/// exactly when it has a default, whatever its description; with no
/// filter set, every option is kept.
pub proof fn presence_filters_test_their_own_field(o: OptionDocView, f: FilterOptions)
    requires
        f.filter_by_prefix is None,
        f.filter_by_type is None,
        f.search is None,
    ensures
        (f.has_description && !f.has_default) ==> (keeps(o, f) <==> o.description is Some),
        (f.has_default && !f.has_description) ==> (keeps(o, f) <==> o.default_value is Some),
        (!f.has_default && !f.has_description) ==> keeps(o, f),
        (f.has_default && f.has_description) ==> (keeps(o, f) <==> (o.default_value is Some
            && o.description is Some)),
{
}

/// Each value filter tests its own condition: with only
/// `--filter-by-prefix` set an option is kept exactly when its name starts
/// with the prefix; with only `--filter-by-type`, exactly when its type,
/// lowercased, contains the given text lowercased; with only `--search`,
/// exactly when the pattern is invalid or matches the name or the
/// description.
pub proof fn value_filters_test_their_own_condition(o: OptionDocView, f: FilterOptions)
    requires
        !f.has_default,
        !f.has_description,
    ensures
        (f.filter_by_type is None && f.search is None) ==> (f.filter_by_prefix matches Some(p) ==> (
        keeps(o, f) <==> crate::text::starts_with(o.name, p@))),
        (f.filter_by_prefix is None && f.search is None) ==> (f.filter_by_type matches Some(t) ==> (
        keeps(o, f) <==> crate::text::contains(lowercased(o.nix_type), lowercased(t@)))),
        (f.filter_by_prefix is None && f.filter_by_type is None) ==> (f.search matches Some(p) ==> (
        keeps(o, f) <==> (regex_search(p@, o.name) is None || regex_search(p@, o.name) == Some(true)
            || (o.description matches Some(d) && regex_search(p@, d) == Some(true))))),
{
}

/// Sorting keeps every entry declared.
pub proof fn sort_keeps_declarations(opts: Seq<OptionDocView>)
    requires
        crate::generate::markdown::all_declared(opts),
    ensures
        crate::generate::markdown::all_declared(sort_by_name(opts)),
{
    broadcast use vstd::seq_lib::group_seq_properties;
    sort_by_name_sorted(opts);
    let r = sort_by_name(opts);
    assert forall|i: int| 0 <= i < r.len() implies #[trigger] r[i].declarations.len() >= 1 by {
        assert(r.to_multiset().count(r[i]) > 0);
        assert(opts.to_multiset().count(r[i]) > 0);
        assert(opts.contains(r[i]));
        let w = choose|w: int| 0 <= w < opts.len() && opts[w] == r[i];
        assert(opts[w].declarations.len() >= 1);
    }
}

/// Filtering keeps every kept entry's declarations (only their paths may
/// move under `--out-prefix`).
pub proof fn filter_keeps_declarations(opts: Seq<OptionDocView>, cli: Cli)
    requires
        crate::generate::markdown::all_declared(opts),
    ensures
        crate::generate::markdown::all_declared(filter_options_spec(opts, cli)),
{
    broadcast use vstd::seq_lib::group_seq_properties;
    let pred = |o: OptionDocView| keeps(o, cli.filter);
    let kept = opts.filter(pred);
    let r = filter_options_spec(opts, cli);
    assert forall|i: int| 0 <= i < r.len() implies #[trigger] r[i].declarations.len() >= 1 by {
        assert(kept.contains(kept[i]));
        opts.lemma_filter_contains_rev(pred, kept[i]);
        assert(opts.contains(kept[i]));
        let w = choose|w: int| 0 <= w < opts.len() && opts[w] == kept[i];
        assert(opts[w].declarations.len() >= 1);
    }
}

} // verus!

verus! {

/// The entries a document is generated from: sorted by name when asked.
pub open spec fn doc_entries(opts: Seq<OptionDocView>, sorted: bool) -> Seq<OptionDocView> {
    if sorted {
        sort_by_name(opts)
    } else {
        opts
    }
}

fn copy_options(options: &[OptionDoc]) -> (r: Vec<OptionDoc>)
    ensures
        options_view(r@) == options_view(options@),
{
    let mut out: Vec<OptionDoc> = Vec::new();
    for i in 0..options.len()
        invariant
            out@.len() == i,
            options_view(out@) == options_view(options@.take(i as int)),
    {
        let ghost before = out@;
        out.push(options[i].clone());
        assert(options@.take(i + 1) =~= options@.take(i as int).push(options@[i as int]));
        assert forall|j: int| 0 <= j < i + 1 implies #[trigger] out@[j]@ == options@[j]@ by {
            if j < i {
                assert(out@[j] == before[j]);
                assert(options_view(before)[j] == options_view(options@.take(i as int))[j]);
            }
        }
        assert(options_view(out@) =~= options_view(options@.take(i + 1)));
    }
    assert(options@.take(options.len() as int) =~= options@);
    out
}

/// The document of `es` in `format` (JSON is written by the command-line
/// tool).
pub open spec fn doc_text(es: Seq<OptionDocView>, format: OutputFormat) -> Seq<char> {
    match format {
        OutputFormat::Markdown => crate::generate::markdown::markdown_spec(es),
        OutputFormat::Html => crate::generate::html::html_page(es),
        OutputFormat::Csv => crate::generate::csv_document(es),
        OutputFormat::Json => seq![],
    }
}

/// The documentation of `options` in `format`, sorted by name first when
/// `sorted` is set.
///
/// JSON is not among the formats written here: it is the serde encoding
/// of the option type, which the command-line tool produces from its own
/// serialisable copy of these types.
pub fn generate_doc(options: &[OptionDoc], format: OutputFormat, sorted: bool) -> (r: Result<
    String,
    crate::error::NixDocError,
>)
    requires
        !(format is Json),
        crate::generate::markdown::all_declared(options_view(options@)),
    ensures
        r is Ok,
        r matches Ok(t) ==> t@ == doc_text(doc_entries(options_view(options@), sorted), format),
        (options@.len() == 0 && (format is Html)) ==> (r matches Ok(t) && t@
            == crate::generate::html::empty_html_page()),
{
    let entries: Vec<OptionDoc> = if sorted {
        proof {
            sort_keeps_declarations(options_view(options@));
        }
        sort_options(options)
    } else {
        copy_options(options)
    };
    proof {
        if options@.len() == 0 {
            assert(options_view(options@) =~= Seq::<OptionDocView>::empty());
            assert(options_view(entries@).len() == 0);
        }
    }
    match format {
        OutputFormat::Markdown => Ok(crate::generate::markdown::generate_markdown(entries.as_slice())),
        OutputFormat::Html => crate::generate::html::generate_html(entries.as_slice()),
        OutputFormat::Csv => crate::generate::generate_csv(entries.as_slice()),
        OutputFormat::Json => Ok(String::new()),
    }
}

} // verus!
