//! Markdown output.

use vstd::prelude::*;

use crate::parser::{utf8_len, utf8_len_exec};
use crate::text::{
    chars_of, contains_char, has_char, push_all, push_str, repeat, repeat_exec, replace_all,
    replace_all_exec, string_of,
};
use crate::utils::{
    anchor_slug, anchor_slug_spec, inline_code_chars, inline_code_spec, longest_backtick_run_spec,
    longest_run_chars, sanitize_link_target_chars, sanitize_link_target_spec,
};
use crate::{options_view, Declaration, DeclarationView, OptionDoc, OptionDocView};

verus! {

broadcast use vstd::string::group_string_axioms;

/// The decimal digits of `n`.
pub open spec fn decimal(n: nat) -> Seq<char>
    decreases n,
{
    if n < 10 {
        seq![(n + 48) as char]
    } else {
        decimal(n / 10).push(((n % 10) + 48) as char)
    }
}

/// The decimal digits of `n`.
pub fn decimal_exec(n: usize) -> (r: Vec<char>)
    ensures
        r@ == decimal(n as nat),
    decreases n,
{
    if n < 10 {
        let c = ((n as u8) + 48) as char;
        let mut v: Vec<char> = Vec::new();
        v.push(c);
        assert(v@ =~= decimal(n as nat));
        v
    } else {
        let mut v = decimal_exec(n / 10);
        let d = ((n % 10) as u8 + 48) as char;
        v.push(d);
        v
    }
}

/// A fenced ```` ```nix ```` block around `content` whose fence is longer
/// than any backtick run inside it (and at least three backticks).
pub open spec fn nix_code_block_spec(content: Seq<char>) -> Seq<char> {
    let n = longest_backtick_run_spec(content);
    let fence = repeat('`', if n < 2 {
        2
    } else {
        n
    }).push('`');
    fence + "nix\n"@ + content + "\n"@ + fence
}

fn nix_code_block_chars(content: &[char]) -> (r: Vec<char>)
    ensures
        r@ == nix_code_block_spec(content@),
{
    let run = longest_run_chars(content);
    let n = if run < 2 {
        2
    } else {
        run
    };
    let mut fence = repeat_exec('`', n);
    fence.push('`');
    let mut out = fence.clone();
    push_str(&mut out, "nix\n");
    push_all(&mut out, content);
    push_str(&mut out, "\n");
    push_all(&mut out, fence.as_slice());
    out
}

/// Renders `content` as a fenced `nix` code block that survives arbitrary
/// input: the fence is at least three backticks long, and longer than any
/// backtick run in `content`.
pub fn nix_code_block(content: &str) -> (r: String)
    ensures
        r@ == nix_code_block_spec(content@),
{
    let c = chars_of(content);
    let v = nix_code_block_chars(c.as_slice());
    string_of(v.as_slice())
}

/// What one character of a link destination becomes inside `<...>`.
pub open spec fn escape_destination_char(c: char) -> Seq<char> {
    if c == '\\' {
        seq!['\\', '\\']
    } else if c == '<' {
        seq!['\\', '<']
    } else if c == '>' {
        seq!['\\', '>']
    } else if c == '\n' {
        seq!['%', '0', 'A']
    } else if c == '\r' {
        seq!['%', '0', 'D']
    } else {
        seq![c]
    }
}

/// A text escaped for use inside a `<...>` link destination.
pub open spec fn escape_destination(s: Seq<char>) -> Seq<char>
    decreases s.len(),
{
    if s.len() == 0 {
        seq![]
    } else {
        escape_destination(s.drop_last()) + escape_destination_char(s.last())
    }
}

/// The `<...>` link destination for a declaration path: sanitized against
/// dangerous schemes, then escaped.
pub open spec fn link_destination_spec(target: Seq<char>) -> Seq<char> {
    seq!['<'] + escape_destination(sanitize_link_target_spec(target)) + seq!['>']
}

/// Escaping leaves no line break in a destination.
proof fn escape_destination_has_no_line_break(s: Seq<char>)
    ensures
        forall|i: int|
            0 <= i < escape_destination(s).len() ==> #[trigger] escape_destination(s)[i] != '\n'
                && escape_destination(s)[i] != '\r',
    decreases s.len(),
{
    if s.len() > 0 {
        escape_destination_has_no_line_break(s.drop_last());
        let a = escape_destination(s.drop_last());
        let b = escape_destination_char(s.last());
        assert forall|i: int| 0 <= i < (a + b).len() implies #[trigger] (a + b)[i] != '\n' && (a
            + b)[i] != '\r' by {
            if i >= a.len() {
                assert((a + b)[i] == b[i - a.len()]);
            }
        }
    }
}

/// A link destination stays on one line: it holds no line feed or carriage
/// return, whatever the declaration path holds.
pub proof fn link_destination_is_one_line(target: Seq<char>)
    ensures
        forall|i: int|
            0 <= i < link_destination_spec(target).len() ==> #[trigger] link_destination_spec(target)[i]
                != '\n' && link_destination_spec(target)[i] != '\r',
{
    let e = escape_destination(sanitize_link_target_spec(target));
    escape_destination_has_no_line_break(sanitize_link_target_spec(target));
    let d = link_destination_spec(target);
    assert forall|i: int| 0 <= i < d.len() implies #[trigger] d[i] != '\n' && d[i] != '\r' by {
        if 0 < i < d.len() - 1 {
            assert(d[i] == e[i - 1]);
        }
    }
}

fn link_destination_chars(target: &[char]) -> (r: Vec<char>)
    ensures
        r@ == link_destination_spec(target@),
{
    let sanitized = sanitize_link_target_chars(target);
    let mut out: Vec<char> = Vec::new();
    out.push('<');
    for i in 0..sanitized.len()
        invariant
            out@ == seq!['<'] + escape_destination(sanitized@.take(i as int)),
    {
        assert(sanitized@.take(i + 1).drop_last() =~= sanitized@.take(i as int));
        let c = sanitized[i];
        if c == '\\' {
            out.push('\\');
            out.push('\\');
        } else if c == '<' {
            out.push('\\');
            out.push('<');
        } else if c == '>' {
            out.push('\\');
            out.push('>');
        } else if c == '\n' {
            out.push('%');
            out.push('0');
            out.push('A');
        } else if c == '\r' {
            out.push('%');
            out.push('0');
            out.push('D');
        } else {
            out.push(c);
        }
        assert(out@ =~= seq!['<'] + escape_destination(sanitized@.take(i + 1)));
    }
    assert(sanitized@.take(sanitized@.len() as int) =~= sanitized@);
    out.push('>');
    out
}

/// Wraps a sanitized link target in a CommonMark angle-bracket link
/// destination (`<...>`), escaping `\`, `<` and `>` and percent-encoding
/// line breaks, which a destination cannot hold.
pub fn link_destination(target: &str) -> (r: String)
    ensures
        r@ == link_destination_spec(target@),
{
    let t = chars_of(target);
    let v = link_destination_chars(t.as_slice());
    string_of(v.as_slice())
}

/// A value is shown in a code block rather than inline when it spans
/// lines or is longer than 72 bytes.
pub open spec fn needs_block(v: Seq<char>) -> bool {
    has_char(v, '\n') || utf8_len(v) > 72
}

/// The `**Label:**` line of a value.
#[verifier::opaque]
pub open spec fn value_md(label: Seq<char>, v: Seq<char>) -> Seq<char> {
    if needs_block(v) {
        "\n**"@ + label + ":**\n\n"@ + nix_code_block_spec(v) + "\n"@
    } else {
        "\n**"@ + label + ":** "@ + inline_code_spec(v) + "\n"@
    }
}

/// Where a declaration links to: its path and `#L<line>`.
pub open spec fn declaration_target(d: DeclarationView) -> Seq<char> {
    d.file_path + "#L"@ + decimal(d.line_number as nat)
}

/// The list item of a further declaration.
pub open spec fn other_declaration_md(d: DeclarationView) -> Seq<char> {
    "- ["@ + inline_code_spec(d.file_path) + "]("@ + link_destination_spec(declaration_target(d))
        + ")\n"@ + match d.description {
        Some(a) => "  > "@ + replace_all(a, seq!['\n'], "\n  > "@) + "\n"@,
        None => seq![],
    } + match d.condition {
        Some(c) => "  > Only declared when "@ + inline_code_spec(c) + "\n"@,
        None => seq![],
    }
}

/// The list items of further declarations.
pub open spec fn other_declarations_md(ds: Seq<DeclarationView>) -> Seq<char>
    decreases ds.len(),
{
    if ds.len() == 0 {
        seq![]
    } else {
        other_declarations_md(ds.drop_last()) + other_declaration_md(ds.last())
    }
}

/// The anchor and heading of an option's section.
pub open spec fn option_head_md(o: OptionDocView) -> Seq<char> {
    "\n<a id=\""@ + anchor_slug_spec(o.name) + "\"></a>\n"@ + "## ["@ + inline_code_spec(o.name)
        + "]("@ + link_destination_spec(declaration_target(o.declarations[0])) + ")\n"@
}

/// A description paragraph, if any.
#[verifier::opaque]
pub open spec fn description_md(d: Option<Seq<char>>) -> Seq<char> {
    match d {
        Some(t) => "\n"@ + t + "\n"@,
        None => seq![],
    }
}

/// The `**Label:**` line of an optional value.
#[verifier::opaque]
pub open spec fn opt_value_md(label: Seq<char>, v: Option<Seq<char>>) -> Seq<char> {
    match v {
        Some(t) => value_md(label, t),
        None => seq![],
    }
}

/// The condition line of a declaration, if it has a condition.
#[verifier::opaque]
pub open spec fn condition_md(c: Option<Seq<char>>) -> Seq<char> {
    match c {
        Some(t) => "\n**Condition:** only declared when "@ + inline_code_spec(t) + "\n"@,
        None => seq![],
    }
}

/// The description, type, default, example and condition of an option's
/// section.
pub open spec fn option_fields_md(o: OptionDocView) -> Seq<char> {
    description_md(o.description) + value_md("Type"@, o.nix_type) + opt_value_md(
        "Default"@,
        o.default_value,
    ) + opt_value_md("Example"@, o.example) + condition_md(o.declarations[0].condition)
}

/// An option's Markdown section shows its default under a `**Default:**`
/// line and its example under an `**Example:**` line: a default `d` is
/// shown as the `Default` value line of `d`, an example `e` as the
/// `Example` value line of `e`, and without a default the type line is
/// followed directly by the example (if any), so no `Default` line stands
/// between them. Every value line begins with its bold label.
pub proof fn option_section_shows_default_and_example(o: OptionDocView, label: Seq<char>, v: Seq<char>)
    ensures
        crate::text::contains(option_md(o), value_md("Type"@, o.nix_type)),
        o.default_value matches Some(d) ==> crate::text::contains(option_md(o), value_md("Default"@, d)),
        o.example matches Some(e) ==> crate::text::contains(option_md(o), value_md("Example"@, e)),
        o.default_value is None ==> crate::text::contains(
            option_md(o),
            value_md("Type"@, o.nix_type) + opt_value_md("Example"@, o.example),
        ),
        crate::text::starts_with(value_md(label, v), "\n**"@ + label + ":**"@),
{
    let h = option_head_md(o);
    let de = description_md(o.description);
    let ty = value_md("Type"@, o.nix_type);
    let df = opt_value_md("Default"@, o.default_value);
    let ex = opt_value_md("Example"@, o.example);
    let co = condition_md(o.declarations[0].condition);
    let ot = option_others_md(o);
    reveal(opt_value_md);
    let pre = h + de + ty;
    let tail = co + ot;
    assert(option_md(o) == h + (de + ty + df + ex + co) + ot);
    assert(h + (de + ty + df + ex + co) + ot =~= pre + df + (ex + tail));
    assert(pre + df + (ex + tail) =~= (pre + df) + ex + tail);
    assert(pre + df + (ex + tail) =~= (h + de) + ty + (df + ex + tail));
    crate::text::lemma_contains_middle(h + de, ty, df + ex + tail);
    if let Some(d) = o.default_value {
        assert(df == value_md("Default"@, d));
        crate::text::lemma_contains_middle(pre, df, ex + tail);
    }
    if let Some(e) = o.example {
        assert(ex == value_md("Example"@, e));
        crate::text::lemma_contains_middle(pre + df, ex, tail);
    }
    if o.default_value is None {
        assert(df =~= Seq::<char>::empty());
        assert(pre + df + (ex + tail) =~= (h + de) + (ty + ex) + tail);
        crate::text::lemma_contains_middle(h + de, ty + ex, tail);
    }
    reveal(value_md);
    reveal_strlit("\n**");
    reveal_strlit(":**");
    reveal_strlit(":**\n\n");
    reveal_strlit(":** ");
    let head = "\n**"@ + label + ":**"@;
    if needs_block(v) {
        assert(value_md(label, v).take(head.len() as int) =~= head);
    } else {
        assert(value_md(label, v).take(head.len() as int) =~= head);
    }
}

/// The list of an option's other declarations, if it has any.
pub open spec fn option_others_md(o: OptionDocView) -> Seq<char> {
    if o.declarations.len() > 1 {
        "\n**Also declared in:**\n"@ + other_declarations_md(o.declarations.skip(1))
    } else {
        seq![]
    }
}

/// The Markdown section of one option: an explicit anchor, a heading
/// linking to its first declaration, its description, type, default,
/// example and condition, and its other declarations.
pub open spec fn option_md(o: OptionDocView) -> Seq<char> {
    option_head_md(o) + option_fields_md(o) + option_others_md(o)
}

/// The sections of a sequence of options.
pub open spec fn options_md(opts: Seq<OptionDocView>) -> Seq<char>
    decreases opts.len(),
{
    if opts.len() == 0 {
        seq![]
    } else {
        options_md(opts.drop_last()) + option_md(opts.last())
    }
}

/// The document's first line.
pub open spec fn markdown_header() -> Seq<char> {
    "# NixOS Module Options\n\n"@
}

/// The document's footer, naming and linking the generator.
pub open spec fn markdown_footer() -> Seq<char> {
    "\n---\n*Generated with [nix-options-doc](https://github.com/calebstewart/nix-options-doc)*\n"@
}

/// The whole Markdown document for `opts`.
pub open spec fn markdown_spec(opts: Seq<OptionDocView>) -> Seq<char> {
    markdown_header() + options_md(opts) + markdown_footer()
}

/// Every option has at least one declaration.
pub open spec fn all_declared(opts: Seq<OptionDocView>) -> bool {
    forall|i: int| 0 <= i < opts.len() ==> #[trigger] opts[i].declarations.len() >= 1
}

fn push_value_md(out: &mut Vec<char>, label: &str, v: &String)
    ensures
        final(out)@ == old(out)@ + value_md(label@, v@),
{
    reveal(value_md);
    let vc = chars_of(v.as_str());
    let multi = contains_char(vc.as_slice(), '\n');
    let len = utf8_len_exec(vc.as_slice());
    proof {
        crate::text::lemma_has_char_contains(vc@, '\n');
    }
    if multi || len > 72 {
        push_str(out, "\n**");
        push_str(out, label);
        push_str(out, ":**\n\n");
        let b = nix_code_block_chars(vc.as_slice());
        push_all(out, b.as_slice());
        push_str(out, "\n");
    } else {
        push_str(out, "\n**");
        push_str(out, label);
        push_str(out, ":** ");
        let c = inline_code_chars(vc.as_slice());
        push_all(out, c.as_slice());
        push_str(out, "\n");
    }
}

pub fn declaration_target_chars(d: &Declaration) -> (r: Vec<char>)
    ensures
        r@ == declaration_target(d@),
{
    let mut t = chars_of(d.file_path.as_str());
    push_str(&mut t, "#L");
    let n = decimal_exec(d.line_number);
    push_all(&mut t, n.as_slice());
    t
}

fn push_other_declaration_md(out: &mut Vec<char>, d: &Declaration)
    ensures
        final(out)@ == old(out)@ + other_declaration_md(d@),
{
    let ghost start = out@;
    push_str(out, "- [");
    let fp = chars_of(d.file_path.as_str());
    let code = inline_code_chars(fp.as_slice());
    push_all(out, code.as_slice());
    push_str(out, "](");
    let t = declaration_target_chars(d);
    let dest = link_destination_chars(t.as_slice());
    push_all(out, dest.as_slice());
    push_str(out, ")\n");
    let ghost mid = out@;
    if let Some(a) = &d.description {
        push_str(out, "  > ");
        let ac = chars_of(a.as_str());
        let nl: Vec<char> = vec!['\n'];
        assert(nl@ =~= seq!['\n']);
        let rep = chars_of("\n  > ");
        let replaced = replace_all_exec(ac.as_slice(), nl.as_slice(), rep.as_slice());
        push_all(out, replaced.as_slice());
        push_str(out, "\n");
    }
    let ghost mid2 = out@;
    if let Some(c) = &d.condition {
        push_str(out, "  > Only declared when ");
        let cc = chars_of(c.as_str());
        let code = inline_code_chars(cc.as_slice());
        push_all(out, code.as_slice());
        push_str(out, "\n");
    }
    assert(out@ =~= start + other_declaration_md(d@));
}

fn push_option_head_md(out: &mut Vec<char>, o: &OptionDoc)
    requires
        o@.declarations.len() >= 1,
    ensures
        final(out)@ == old(out)@ + option_head_md(o@),
{
    let ghost start = out@;
    let p = &o.declarations[0];
    assert(o@.declarations[0] == p@);
    push_str(out, "\n<a id=\"");
    let slug = anchor_slug(o.name.as_str());
    push_str(out, slug.as_str());
    push_str(out, "\"></a>\n");
    push_str(out, "## [");
    let nc = chars_of(o.name.as_str());
    let code = inline_code_chars(nc.as_slice());
    push_all(out, code.as_slice());
    push_str(out, "](");
    let t = declaration_target_chars(p);
    let dest = link_destination_chars(t.as_slice());
    push_all(out, dest.as_slice());
    push_str(out, ")\n");
    assert(out@ =~= start + option_head_md(o@));
}

fn push_opt_value_md(out: &mut Vec<char>, label: &str, v: &Option<String>)
    ensures
        final(out)@ == old(out)@ + opt_value_md(label@, crate::opt_view(*v)),
{
    reveal(opt_value_md);
    let ghost start = out@;
    if let Some(t) = v {
        push_value_md(out, label, t);
    }
    assert(out@ =~= start + opt_value_md(label@, crate::opt_view(*v)));
}

fn push_option_fields_md(out: &mut Vec<char>, o: &OptionDoc)
    requires
        o@.declarations.len() >= 1,
    ensures
        final(out)@ == old(out)@ + option_fields_md(o@),
{
    let ghost s0 = out@;
    let p = &o.declarations[0];
    assert(o@.declarations[0] == p@);
    if let Some(d) = &o.description {
        push_str(out, "\n");
        push_str(out, d.as_str());
        push_str(out, "\n");
    }
    assert(out@ =~= s0 + description_md(o@.description)) by {
        reveal(description_md);
    }
    let ghost s1 = out@;
    push_value_md(out, "Type", &o.nix_type);
    let ghost s2 = out@;
    push_opt_value_md(out, "Default", &o.default_value);
    let ghost s3 = out@;
    push_opt_value_md(out, "Example", &o.example);
    let ghost s4 = out@;
    if let Some(c) = &p.condition {
        push_str(out, "\n**Condition:** only declared when ");
        let cc = chars_of(c.as_str());
        let code = inline_code_chars(cc.as_slice());
        push_all(out, code.as_slice());
        push_str(out, "\n");
    }
    assert(out@ =~= s4 + condition_md(p@.condition)) by {
        reveal(condition_md);
    }
    assert(out@ =~= s0 + option_fields_md(o@));
}

fn push_option_others_md(out: &mut Vec<char>, o: &OptionDoc)
    ensures
        final(out)@ == old(out)@ + option_others_md(o@),
{
    let ghost start = out@;
    let ghost ds = o@.declarations;
    if o.declarations.len() > 1 {
        push_str(out, "\n**Also declared in:**\n");
        let ghost base = out@;
        let n = o.declarations.len();
        assert(ds.subrange(1, 1) =~= Seq::<DeclarationView>::empty());
        for k in 1..n
            invariant
                n == o.declarations.len(),
                ds == o@.declarations,
                out@ == base + other_declarations_md(ds.subrange(1, k as int)),
        {
            assert(ds.subrange(1, k + 1).drop_last() =~= ds.subrange(1, k as int));
            assert(ds.subrange(1, k + 1).last() == o.declarations@[k as int]@);
            push_other_declaration_md(out, &o.declarations[k]);
        }
        assert(ds.subrange(1, n as int) =~= ds.skip(1));
    }
    assert(out@ =~= start + option_others_md(o@));
}

fn push_option_md(out: &mut Vec<char>, o: &OptionDoc)
    requires
        o@.declarations.len() >= 1,
    ensures
        final(out)@ == old(out)@ + option_md(o@),
{
    let ghost start = out@;
    push_option_head_md(out, o);
    push_option_fields_md(out, o);
    push_option_others_md(out, o);
    assert(out@ =~= start + option_md(o@));
}

/// Generates the Markdown document for the given options: a heading, one
/// section per option in order, and a footer naming the generator.
pub fn generate_markdown(options: &[OptionDoc]) -> (r: String)
    requires
        all_declared(options_view(options@)),
    ensures
        r@ == markdown_spec(options_view(options@)),
{
    let ghost views = options_view(options@);
    let mut out = chars_of("# NixOS Module Options\n\n");
    for i in 0..options.len()
        invariant
            views == options_view(options@),
            all_declared(views),
            out@ == markdown_header() + options_md(views.take(i as int)),
    {
        assert(views.take(i + 1).drop_last() =~= views.take(i as int));
        assert(views[i as int].declarations.len() >= 1);
        push_option_md(&mut out, &options[i]);
        assert(out@ =~= markdown_header() + options_md(views.take(i + 1)));
    }
    assert(views.take(views.len() as int) =~= views);
    push_str(
        &mut out,
        "\n---\n*Generated with [nix-options-doc](https://github.com/calebstewart/nix-options-doc)*\n",
    );
    string_of(out.as_slice())
}

} // verus!
