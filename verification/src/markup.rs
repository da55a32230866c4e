//! The fixed text patterns the library rewrites in descriptions:
//! `${name}` variable references, `{role}`...`` directives, Pandoc
//! `::: {.type}` admonition fences and `> **Type:**` blockquotes.

use vstd::prelude::*;

use crate::text::{
    ascii_upper, ascii_upper_exec, ascii_lowercase, ascii_lowercase_exec, chars_eq, chars_of,
    contains, first_index_from, first_occurrence, lemma_first_occurrence_exists, has_char, leading_ws, leading_ws_from,
    ends_with, has_prefix, lemma_leading_ws_bound, push_str,
    lemma_has_char_contains, lemma_lower_run_bound, lower_run, lower_run_exec, push_all,
    replace_all, replace_all_exec, slice_to_vec, starts_with, trim, trim_exec,
};

verus! {

broadcast use vstd::string::group_string_axioms;

/// Rewrites `s` from the left: wherever the matcher `m` recognizes a
/// prefix of the rest (a length and a replacement), that prefix is
/// replaced; elsewhere one character is copied and the scan moves on.
pub open spec fn rewrite(s: Seq<char>, m: spec_fn(Seq<char>) -> Option<(nat, Seq<char>)>) -> Seq<
    char,
>
    decreases s.len(),
{
    if s.len() == 0 {
        s
    } else {
        match m(s) {
            Some(hit) => if 0 < hit.0 <= s.len() {
                hit.1 + rewrite(s.skip(hit.0 as int), m)
            } else {
                seq![s[0]] + rewrite(s.drop_first(), m)
            },
            None => seq![s[0]] + rewrite(s.drop_first(), m),
        }
    }
}

// ---------------------------------------------------------------------
// `${name}` variable references
// ---------------------------------------------------------------------

/// The value bound to `key` by the `KEY=VALUE` pairs; a later pair wins
/// over an earlier one, as inserting them into a map in order would have it.
pub open spec fn lookup_replacement(pairs: Seq<(String, String)>, key: Seq<char>) -> Option<
    Seq<char>,
>
    decreases pairs.len(),
{
    if pairs.len() == 0 {
        None
    } else if pairs.last().0@ == key {
        Some(pairs.last().1@)
    } else {
        lookup_replacement(pairs.drop_last(), key)
    }
}

/// A `${name}` reference (`\$\{([^}]+)\}`) at the start of `s`: its
/// length and what replaces it (the bound value, or the reference itself
/// when `name` is unbound).
pub open spec fn var_ref_match(s: Seq<char>, pairs: Seq<(String, String)>) -> Option<
    (nat, Seq<char>),
> {
    if starts_with(s, seq!['$', '{']) && has_char(s.skip(2), '}') && first_occurrence(
        s.skip(2),
        seq!['}'],
    ) > 0 {
        let k = first_occurrence(s.skip(2), seq!['}']);
        let name = s.subrange(2, 2 + k);
        Some(
            (
                (k + 3) as nat,
                match lookup_replacement(pairs, name) {
                    Some(v) => v,
                    None => s.take(k + 3),
                },
            ),
        )
    } else {
        None
    }
}

/// `text` with every `${name}` reference replaced by its bound value;
/// unchanged when there are no pairs.
pub open spec fn apply_replacements_spec(text: Seq<char>, pairs: Seq<(String, String)>) -> Seq<
    char,
> {
    if pairs.len() == 0 {
        text
    } else {
        rewrite(text, |s: Seq<char>| var_ref_match(s, pairs))
    }
}

fn lookup_replacement_exec(pairs: &[(String, String)], key: &[char]) -> (r: Option<Vec<char>>)
    ensures
        match lookup_replacement(pairs@, key@) {
            Some(v) => r matches Some(x) && x@ == v,
            None => r is None,
        },
{
    let mut n = pairs.len();
    assert(pairs@.take(pairs@.len() as int) =~= pairs@);
    while n > 0
        invariant
            n <= pairs@.len(),
            lookup_replacement(pairs@, key@) == lookup_replacement(pairs@.take(n as int), key@),
        decreases n,
    {
        let ghost t = pairs@.take(n as int);
        let k = chars_of(pairs[n - 1].0.as_str());
        if chars_eq(k.as_slice(), key) {
            assert(t.last() == pairs@[n - 1]);
            return Some(chars_of(pairs[n - 1].1.as_str()));
        }
        assert(t.drop_last() =~= pairs@.take(n - 1));
        n = n - 1;
    }
    None
}

/// The one-character pattern `c`.
pub fn single(c: char) -> (r: Vec<char>)
    ensures
        r@ == seq![c],
{
    let v: Vec<char> = vec![c];
    assert(v@ =~= seq![c]);
    v
}

/// The variable-reference match at `s[i..]`.
fn var_ref_match_at(s: &[char], i: usize, pairs: &[(String, String)]) -> (r: Option<(usize, Vec<char>)>)
    requires
        i < s@.len(),
    ensures
        match var_ref_match(s@.skip(i as int), pairs@) {
            Some(hit) => r matches Some(x) && x.0 == hit.0 && x.1@ == hit.1,
            None => r is None,
        },
{
    let ghost t = s@.skip(i as int);
    if !(s.len() - i > 1 && s[i] == '$' && s[i + 1] == '{') {
        assert(!starts_with(t, seq!['$', '{'])) by {
            if starts_with(t, seq!['$', '{']) {
                assert(t.take(2)[0] == t[0] && t.take(2)[1] == t[1]);
            }
        }
        return None;
    }
    assert(t.take(2) =~= seq!['$', '{']);
    assert(t.skip(2) =~= s@.skip(i + 2));
    let close = single('}');
    proof {
        lemma_has_char_contains(t.skip(2), '}');
    }
    let found = first_index_from(s, close.as_slice(), i + 2);
    match found {
        Some(k) => {
            if k == 0 {
                return None;
            }
            assert(i + 2 + k + 1 <= s.len());
            assert(k + 3 <= s.len());
            let name = slice_to_vec(s, i + 2, i + 2 + k);
            assert(name@ =~= t.subrange(2, 2 + k));
            let rep = match lookup_replacement_exec(pairs, name.as_slice()) {
                Some(v) => v,
                None => {
                    let w = slice_to_vec(s, i, i + k + 3);
                    assert(w@ =~= t.take(k + 3));
                    w
                },
            };
            Some((k + 3, rep))
        },
        None => None,
    }
}

/// `apply_replacements` over characters.
pub fn apply_replacements_chars(text: &[char], pairs: &[(String, String)]) -> (r: Vec<char>)
    ensures
        r@ == apply_replacements_spec(text@, pairs@),
{
    if pairs.len() == 0 {
        let v = slice_to_vec(text, 0, text.len());
        assert(text@.subrange(0, text@.len() as int) =~= text@);
        return v;
    }
    let ghost m = |s: Seq<char>| var_ref_match(s, pairs@);
    let mut out: Vec<char> = Vec::new();
    let mut i: usize = 0;
    assert(text@.skip(0) =~= text@);
    while i < text.len()
        invariant
            i <= text@.len(),
            m == (|s: Seq<char>| var_ref_match(s, pairs@)),
            out@ + rewrite(text@.skip(i as int), m) == rewrite(text@, m),
        decreases text.len() - i,
    {
        let ghost rest = text@.skip(i as int);
        let ghost out0 = out@;
        assert(rest.drop_first() =~= text@.skip(i + 1));
        match var_ref_match_at(text, i, pairs) {
            Some((n, rep)) => {
                assert(m(rest) == var_ref_match(rest, pairs@));
                assert(0 < n <= rest.len()) by {
                    lemma_has_char_contains(rest.skip(2), '}');
                    lemma_first_occurrence_exists(rest.skip(2), seq!['}']);
                }
                push_all(&mut out, rep.as_slice());
                assert(rest.skip(n as int) =~= text@.skip(i + n));
                assert(rewrite(rest, m) == rep@ + rewrite(rest.skip(n as int), m));
                assert(out@ + rewrite(text@.skip(i + n), m) =~= out0 + rewrite(rest, m));
                i = i + n;
            },
            None => {
                out.push(text[i]);
                assert(out@ + rewrite(text@.skip(i + 1), m) =~= out0 + rewrite(rest, m));
                i = i + 1;
            },
        }
    }
    assert(out@ + rewrite(text@.skip(i as int), m) =~= out@);
    out
}

} // verus!

verus! {

// ---------------------------------------------------------------------
// `{role}`...`` directives
// ---------------------------------------------------------------------

/// A directive (`\{[a-z]+\}(`[^`]+`)`) at the start of `s`: its length
/// and the backtick span it is replaced by.
pub open spec fn directive_match(s: Seq<char>) -> Option<(nat, Seq<char>)> {
    let m: int = lower_run(s.skip(1)) as int;
    if s.len() > 0 && s[0] == '{' && m > 0 && 2 + m < s.len() && s[1 + m] == '}' && s[2 + m]
        == '`' && has_char(s.skip(3 + m), '`') && first_occurrence(s.skip(3 + m), seq!['`'])
        > 0 {
        let k = first_occurrence(s.skip(3 + m), seq!['`']);
        Some(((m + k + 4) as nat, s.subrange(2 + m, m + k + 4)))
    } else {
        None
    }
}

/// `text` with every `{role}`code`` directive reduced to its `code` span.
pub open spec fn strip_directives_spec(text: Seq<char>) -> Seq<char> {
    rewrite(text, |s: Seq<char>| directive_match(s))
}

fn directive_match_at(s: &[char], i: usize) -> (r: Option<(usize, Vec<char>)>)
    requires
        i < s.len(),
    ensures
        match directive_match(s@.skip(i as int)) {
            Some(hit) => r matches Some(x) && x.0 == hit.0 && x.1@ == hit.1,
            None => r is None,
        },
{
    let ghost t = s@.skip(i as int);
    if s[i] != '{' {
        return None;
    }
    let m = lower_run_exec(s, i + 1);
    assert(t.skip(1) =~= s@.skip(i + 1));
    if m == 0 || s.len() - (i + 1) - m < 2 {
        return None;
    }
    if s[i + 1 + m] != '}' || s[i + 2 + m] != '`' {
        return None;
    }
    let tick = single('`');
    assert(t.skip(3 + m) =~= s@.skip(i + 3 + m));
    proof {
        lemma_has_char_contains(t.skip(3 + m), '`');
    }
    match first_index_from(s, tick.as_slice(), i + 3 + m) {
        Some(k) => {
            if k == 0 {
                return None;
            }
            assert(i + 3 + m + k + 1 <= s.len());
            let rep = slice_to_vec(s, i + 2 + m, i + m + k + 4);
            assert(rep@ =~= t.subrange(2 + m, m + k + 4));
            Some((m + k + 4, rep))
        },
        None => None,
    }
}

/// `clean_description`'s directive pass over characters.
pub fn strip_directives(text: &[char]) -> (r: Vec<char>)
    ensures
        r@ == strip_directives_spec(text@),
{
    let ghost m = |s: Seq<char>| directive_match(s);
    let mut out: Vec<char> = Vec::new();
    let mut i: usize = 0;
    assert(text@.skip(0) =~= text@);
    while i < text.len()
        invariant
            i <= text@.len(),
            m == (|s: Seq<char>| directive_match(s)),
            out@ + rewrite(text@.skip(i as int), m) == rewrite(text@, m),
        decreases text.len() - i,
    {
        let ghost rest = text@.skip(i as int);
        let ghost out0 = out@;
        assert(rest.drop_first() =~= text@.skip(i + 1));
        match directive_match_at(text, i) {
            Some((n, rep)) => {
                assert(m(rest) == directive_match(rest));
                assert(0 < n <= rest.len()) by {
                    let mm: int = lower_run(rest.skip(1)) as int;
                    lemma_has_char_contains(rest.skip(3 + mm), '`');
                    lemma_first_occurrence_exists(rest.skip(3 + mm), seq!['`']);
                }
                push_all(&mut out, rep.as_slice());
                assert(rest.skip(n as int) =~= text@.skip(i + n));
                assert(rewrite(rest, m) == rep@ + rewrite(rest.skip(n as int), m));
                assert(out@ + rewrite(text@.skip(i + n), m) =~= out0 + rewrite(rest, m));
                i = i + n;
            },
            None => {
                out.push(text[i]);
                assert(out@ + rewrite(text@.skip(i + 1), m) =~= out0 + rewrite(rest, m));
                i = i + 1;
            },
        }
    }
    assert(out@ + rewrite(text@.skip(i as int), m) =~= out@);
    out
}

// ---------------------------------------------------------------------
// `::: {.type}` admonition fences
// ---------------------------------------------------------------------

/// The GitHub alert type a Pandoc admonition class maps to.
pub open spec fn github_alert_type(kind: Seq<char>) -> Seq<char> {
    if kind == "warning"@ || kind == "caution"@ {
        "WARNING"@
    } else if kind == "important"@ {
        "IMPORTANT"@
    } else if kind == "tip"@ {
        "TIP"@
    } else {
        "NOTE"@
    }
}

/// The GitHub alert block a fence of class `kind` holding `content` becomes.
pub open spec fn github_alert_block(kind: Seq<char>, content: Seq<char>) -> Seq<char> {
    "> [!"@ + github_alert_type(kind) + "]  \n> "@ + replace_all(trim(content), seq!['\n'], seq!['\n', '>', ' '])
}

/// A fence (`:::\s*\{\.([a-z]+)\}([\s\S]*?):::`) at the start of `s`: its
/// length and the alert block it becomes.
pub open spec fn admonition_match(s: Seq<char>) -> Option<(nat, Seq<char>)> {
    let a: int = 3 + leading_ws(s.skip(3)) as int;
    let m: int = lower_run(s.skip(a + 2)) as int;
    let b: int = a + 2 + m;
    if starts_with(s, seq![':', ':', ':']) && a + 1 < s.len() && s[a] == '{' && s[a + 1] == '.'
        && m > 0 && b < s.len() && s[b] == '}' && contains(s.skip(b + 1), seq![':', ':', ':']) {
        let k = first_occurrence(s.skip(b + 1), seq![':', ':', ':']);
        Some(
            (
                (b + 1 + k + 3) as nat,
                github_alert_block(s.subrange(a + 2, b), s.subrange(b + 1, b + 1 + k)),
            ),
        )
    } else {
        None
    }
}

/// `text` with every Pandoc admonition fence rewritten as a GitHub alert.
pub open spec fn convert_admonitions_spec(text: Seq<char>) -> Seq<char> {
    rewrite(text, |s: Seq<char>| admonition_match(s))
}

fn github_alert_type_exec(kind: &[char]) -> (r: Vec<char>)
    ensures
        r@ == github_alert_type(kind@),
{
    let warning = chars_of("warning");
    let caution = chars_of("caution");
    let important = chars_of("important");
    let tip = chars_of("tip");
    if chars_eq(kind, warning.as_slice()) || chars_eq(kind, caution.as_slice()) {
        chars_of("WARNING")
    } else if chars_eq(kind, important.as_slice()) {
        chars_of("IMPORTANT")
    } else if chars_eq(kind, tip.as_slice()) {
        chars_of("TIP")
    } else {
        chars_of("NOTE")
    }
}

fn github_alert_block_exec(kind: &[char], content: &[char]) -> (r: Vec<char>)
    ensures
        r@ == github_alert_block(kind@, content@),
{
    let mut out = chars_of("> [!");
    let t = github_alert_type_exec(kind);
    push_all(&mut out, t.as_slice());
    let mid = chars_of("]  \n> ");
    push_all(&mut out, mid.as_slice());
    let trimmed = trim_exec(content);
    let nl = single('\n');
    let quoted_nl: Vec<char> = vec!['\n', '>', ' '];
    assert(quoted_nl@ =~= seq!['\n', '>', ' ']);
    let body = replace_all_exec(trimmed.as_slice(), nl.as_slice(), quoted_nl.as_slice());
    push_all(&mut out, body.as_slice());
    out
}

fn admonition_match_at(s: &[char], i: usize) -> (r: Option<(usize, Vec<char>)>)
    requires
        i < s.len(),
    ensures
        match admonition_match(s@.skip(i as int)) {
            Some(hit) => r matches Some(x) && x.0 == hit.0 && x.1@ == hit.1,
            None => r is None,
        },
{
    let ghost t = s@.skip(i as int);
    if s.len() - i < 3 || s[i] != ':' || s[i + 1] != ':' || s[i + 2] != ':' {
        assert(!starts_with(t, seq![':', ':', ':'])) by {
            if starts_with(t, seq![':', ':', ':']) {
                assert(t.take(3)[0] == t[0] && t.take(3)[1] == t[1] && t.take(3)[2] == t[2]);
            }
        }
        return None;
    }
    assert(t.take(3) =~= seq![':', ':', ':']);
    let w = leading_ws_from(s, i + 3);
    assert(t.skip(3) =~= s@.skip(i + 3));
    let a = 3 + w;
    if s.len() - i - a < 2 || s[i + a] != '{' || s[i + a + 1] != '.' {
        return None;
    }
    let m = lower_run_exec(s, i + a + 2);
    assert(t.skip(a + 2) =~= s@.skip(i + a + 2));
    let b = a + 2 + m;
    if m == 0 || s.len() - i <= b || s[i + b] != '}' {
        return None;
    }
    let fence = chars_of(":::");
    proof {
        reveal_strlit(":::");
    }
    assert(fence@ =~= seq![':', ':', ':']);
    assert(t.skip(b + 1) =~= s@.skip(i + b + 1));
    match first_index_from(s, fence.as_slice(), i + b + 1) {
        Some(k) => {
            let kind = slice_to_vec(s, i + a + 2, i + b);
            let content = slice_to_vec(s, i + b + 1, i + b + 1 + k);
            assert(kind@ =~= t.subrange(a + 2, b as int));
            assert(content@ =~= t.subrange(b + 1, b + 1 + k));
            let block = github_alert_block_exec(kind.as_slice(), content.as_slice());
            Some((b + 1 + k + 3, block))
        },
        None => None,
    }
}

/// `convert_admonitions` over characters.
pub fn convert_admonitions_chars(text: &[char]) -> (r: Vec<char>)
    ensures
        r@ == convert_admonitions_spec(text@),
{
    let ghost m = |s: Seq<char>| admonition_match(s);
    let mut out: Vec<char> = Vec::new();
    let mut i: usize = 0;
    assert(text@.skip(0) =~= text@);
    while i < text.len()
        invariant
            i <= text@.len(),
            m == (|s: Seq<char>| admonition_match(s)),
            out@ + rewrite(text@.skip(i as int), m) == rewrite(text@, m),
        decreases text.len() - i,
    {
        let ghost rest = text@.skip(i as int);
        let ghost out0 = out@;
        assert(rest.drop_first() =~= text@.skip(i + 1));
        match admonition_match_at(text, i) {
            Some((n, rep)) => {
                assert(m(rest) == admonition_match(rest));
                assert(0 < n <= rest.len()) by {
                    let a: int = 3 + leading_ws(rest.skip(3)) as int;
                    let mm: int = lower_run(rest.skip(a + 2)) as int;
                    lemma_first_occurrence_exists(rest.skip(a + 2 + mm + 1), seq![':', ':', ':']);
                }
                push_all(&mut out, rep.as_slice());
                assert(rest.skip(n as int) =~= text@.skip(i + n));
                assert(rewrite(rest, m) == rep@ + rewrite(rest.skip(n as int), m));
                assert(out@ + rewrite(text@.skip(i + n), m) =~= out0 + rewrite(rest, m));
                i = i + n;
            },
            None => {
                out.push(text[i]);
                assert(out@ + rewrite(text@.skip(i + 1), m) =~= out0 + rewrite(rest, m));
                i = i + 1;
            },
        }
    }
    assert(out@ + rewrite(text@.skip(i as int), m) =~= out@);
    out
}

} // verus!

verus! {

// ---------------------------------------------------------------------
// `> **Type:**` blockquotes
// ---------------------------------------------------------------------

/// Length of the admonition keyword (`note`, `warning`, `important`,
/// `tip`, `caution`, in any ASCII case) at the start of `t`, or 0.
pub open spec fn keyword_len(t: Seq<char>) -> nat {
    let l = ascii_lowercase(t);
    if starts_with(l, "note"@) {
        "note"@.len()
    } else if starts_with(l, "warning"@) {
        "warning"@.len()
    } else if starts_with(l, "important"@) {
        "important"@.len()
    } else if starts_with(l, "tip"@) {
        "tip"@.len()
    } else if starts_with(l, "caution"@) {
        "caution"@.len()
    } else {
        0
    }
}

/// A blockquote admonition prefix
/// (`>\s*\*\*(note|warning|important|tip|caution)\.?:?\*\*\s*`, ASCII case
/// ignored) at the start of `s`: its length and the keyword as written.
pub open spec fn blockquote_prefix(s: Seq<char>) -> Option<(nat, Seq<char>)> {
    let a: int = 1 + leading_ws(s.skip(1)) as int;
    let kl: int = keyword_len(s.skip(a + 2)) as int;
    let b: int = a + 2 + kl;
    let d: int = if b < s.len() && s[b] == '.' {
        1
    } else {
        0
    };
    let c: int = if b + d < s.len() && s[b + d] == ':' {
        1
    } else {
        0
    };
    let e: int = b + d + c;
    if s.len() > 0 && s[0] == '>' && starts_with(s.skip(a), seq!['*', '*']) && kl > 0
        && starts_with(s.skip(e), seq!['*', '*']) {
        let w2: int = leading_ws(s.skip(e + 2)) as int;
        Some(((e + 2 + w2) as nat, s.subrange(a + 2, b)))
    } else {
        None
    }
}

/// Some line of `text` (a start of text or a position after a newline)
/// begins with a blockquote admonition prefix.
pub open spec fn has_blockquote_admonition(text: Seq<char>) -> bool {
    exists|p: int|
        0 <= p <= text.len() && (p == 0 || text[p - 1] == '\n') && (#[trigger] blockquote_prefix(
            text.skip(p),
        )) is Some
}

/// A line without the carriage return of a `\r\n` ending.
pub open spec fn strip_cr(l: Seq<char>) -> Seq<char> {
    if l.len() > 0 && l.last() == '\r' {
        l.drop_last()
    } else {
        l
    }
}

/// The lines of `s` as `str::lines` yields them.
pub open spec fn lines_of(s: Seq<char>) -> Seq<Seq<char>>
    decreases s.len(),
{
    if s.len() == 0 {
        seq![]
    } else if has_char(s, '\n') {
        let i = first_occurrence(s, seq!['\n']);
        proof {
            lemma_has_char_contains(s, '\n');
            lemma_first_occurrence_exists(s, seq!['\n']);
        }
        seq![strip_cr(s.take(i))] + lines_of(s.skip(i + 1))
    } else {
        seq![s]
    }
}

/// The lines joined by newlines.
pub open spec fn join_lines(ls: Seq<Seq<char>>) -> Seq<char>
    decreases ls.len(),
{
    if ls.len() == 0 {
        seq![]
    } else if ls.len() == 1 {
        ls[0]
    } else {
        join_lines(ls.drop_last()) + seq!['\n'] + ls.last()
    }
}

/// `s` with ASCII letters in upper case.
pub open spec fn ascii_uppercase(s: Seq<char>) -> Seq<char> {
    s.map_values(|c: char| ascii_upper(c))
}

/// What one line becomes: a line opening with a blockquote admonition
/// prefix turns into a `> [!TYPE]` alert line.
pub open spec fn convert_quote_line(l: Seq<char>) -> Seq<char> {
    match blockquote_prefix(l) {
        Some(hit) => {
            let rest = l.skip(hit.0 as int);
            let head = "> [!"@ + ascii_uppercase(hit.1) + "]"@;
            if trim(rest).len() == 0 {
                head
            } else {
                head + "\n> "@ + rest
            }
        },
        None => l,
    }
}

/// `text` with its blockquote admonitions converted; unchanged, byte for
/// byte, when it has none.
pub open spec fn convert_blockquote_admonitions_spec(text: Seq<char>) -> Seq<char> {
    if !has_blockquote_admonition(text) {
        text
    } else {
        join_lines(lines_of(text).map_values(|l: Seq<char>| convert_quote_line(l))) + if ends_with_nl(
            text,
        ) {
            seq!['\n']
        } else {
            seq![]
        }
    }
}

pub open spec fn ends_with_nl(s: Seq<char>) -> bool {
    s.len() > 0 && s.last() == '\n'
}

fn keyword_len_exec(t: &[char]) -> (r: usize)
    ensures
        r == keyword_len(t@),
        r <= t@.len(),
{
    let l = ascii_lowercase_exec(t);
    let note = chars_of("note");
    let warning = chars_of("warning");
    let important = chars_of("important");
    let tip = chars_of("tip");
    let caution = chars_of("caution");
    if has_prefix(l.as_slice(), note.as_slice()) {
        note.len()
    } else if has_prefix(l.as_slice(), warning.as_slice()) {
        warning.len()
    } else if has_prefix(l.as_slice(), important.as_slice()) {
        important.len()
    } else if has_prefix(l.as_slice(), tip.as_slice()) {
        tip.len()
    } else if has_prefix(l.as_slice(), caution.as_slice()) {
        caution.len()
    } else {
        0
    }
}

/// The blockquote prefix match at the start of `s`.
fn blockquote_prefix_exec(s: &[char]) -> (r: Option<(usize, Vec<char>)>)
    ensures
        match blockquote_prefix(s@) {
            Some(hit) => r matches Some(x) && x.0 == hit.0 && x.1@ == hit.1,
            None => r is None,
        },
        r matches Some(x) ==> x.0 <= s@.len(),
{
    if s.len() == 0 || s[0] != '>' {
        return None;
    }
    let w1 = leading_ws_from(s, 1);
    let a = 1 + w1;
    let stars: Vec<char> = vec!['*', '*'];
    assert(stars@ =~= seq!['*', '*']);
    let after_a = slice_to_vec(s, a, s.len());
    assert(after_a@ =~= s@.skip(a as int));
    if !has_prefix(after_a.as_slice(), stars.as_slice()) {
        return None;
    }
    let after_stars = slice_to_vec(s, a + 2, s.len());
    assert(after_stars@ =~= s@.skip(a + 2));
    let kl = keyword_len_exec(after_stars.as_slice());
    if kl == 0 {
        return None;
    }
    let b = a + 2 + kl;
    let d: usize = if b < s.len() && s[b] == '.' {
        1
    } else {
        0
    };
    let c: usize = if b + d < s.len() && s[b + d] == ':' {
        1
    } else {
        0
    };
    let e = b + d + c;
    let after_e = slice_to_vec(s, e, s.len());
    assert(after_e@ =~= s@.skip(e as int));
    if !has_prefix(after_e.as_slice(), stars.as_slice()) {
        return None;
    }
    let w2 = leading_ws_from(s, e + 2);
    let kw = slice_to_vec(s, a + 2, b);
    Some((e + 2 + w2, kw))
}

/// Whether some line of `text` opens with a blockquote admonition prefix.
fn has_blockquote_admonition_exec(text: &[char]) -> (r: bool)
    ensures
        r == has_blockquote_admonition(text@),
{
    let mut p: usize = 0;
    while p < text.len()
        invariant
            p <= text@.len(),
            forall|q: int|
                0 <= q < p && (q == 0 || text@[q - 1] == '\n') ==> (#[trigger] blockquote_prefix(
                    text@.skip(q),
                )) is None,
        decreases text.len() - p,
    {
        if p == 0 || text[p - 1] == '\n' {
            let suffix = slice_to_vec(text, p, text.len());
            assert(suffix@ =~= text@.skip(p as int));
            if blockquote_prefix_exec(suffix.as_slice()).is_some() {
                return true;
            }
        }
        p = p + 1;
    }
    assert(blockquote_prefix(text@.skip(text@.len() as int)) is None);
    false
}

/// The lines of `text`, as `str::lines` yields them.
pub fn lines_exec(text: &[char]) -> (r: Vec<Vec<char>>)
    ensures
        r@.map_values(|l: Vec<char>| l@) == lines_of(text@),
{
    let mut out: Vec<Vec<char>> = Vec::new();
    let mut pos: usize = 0;
    let nl = single('\n');
    assert(text@.skip(0) =~= text@);
    while pos < text.len()
        invariant
            pos <= text@.len(),
            nl@ == seq!['\n'],
            out@.map_values(|l: Vec<char>| l@) + lines_of(text@.skip(pos as int)) == lines_of(
                text@,
            ),
        decreases text.len() - pos,
    {
        let ghost rest = text@.skip(pos as int);
        let ghost before = out@.map_values(|l: Vec<char>| l@);
        proof {
            lemma_has_char_contains(rest, '\n');
        }
        match first_index_from(text, nl.as_slice(), pos) {
            Some(k) => {
                let mut line = slice_to_vec(text, pos, pos + k);
                assert(line@ =~= rest.take(k as int));
                if line.len() > 0 && line[line.len() - 1] == '\r' {
                    line.pop();
                }
                assert(line@ =~= strip_cr(rest.take(k as int)));
                out.push(line);
                assert(rest.skip(k + 1) =~= text@.skip(pos + k + 1));
                assert(out@.map_values(|l: Vec<char>| l@) =~= before.push(strip_cr(rest.take(k as int))));
                assert(lines_of(rest) == seq![strip_cr(rest.take(k as int))] + lines_of(rest.skip(k + 1)));
                assert(out@.map_values(|l: Vec<char>| l@) + lines_of(text@.skip(pos + k + 1))
                    =~= before + lines_of(rest));
                pos = pos + k + 1;
            },
            None => {
                let line = slice_to_vec(text, pos, text.len());
                assert(line@ =~= rest);
                out.push(line);
                assert(out@.map_values(|l: Vec<char>| l@) =~= before.push(rest));
                assert(lines_of(rest) == seq![rest]);
                assert(lines_of(text@.skip(text@.len() as int)) =~= seq![]) by {
                    assert(text@.skip(text@.len() as int).len() == 0);
                }
                assert(out@.map_values(|l: Vec<char>| l@) + lines_of(text@.skip(text@.len() as int))
                    =~= before + lines_of(rest));
                pos = text.len();
            },
        }
    }
    assert(lines_of(text@.skip(pos as int)) =~= seq![]) by {
        assert(text@.skip(pos as int).len() == 0);
    }
    assert(out@.map_values(|l: Vec<char>| l@) =~= out@.map_values(|l: Vec<char>| l@) + lines_of(text@.skip(pos as int)));
    out
}

fn ascii_uppercase_exec(s: &[char]) -> (r: Vec<char>)
    ensures
        r@ == ascii_uppercase(s@),
{
    let mut out: Vec<char> = Vec::new();
    for i in 0..s.len()
        invariant
            out@ == ascii_uppercase(s@.take(i as int)),
    {
        out.push(ascii_upper_exec(s[i]));
        assert(ascii_uppercase(s@.take(i + 1)) =~= ascii_uppercase(s@.take(i as int)).push(
            ascii_upper(s@[i as int]),
        ));
    }
    assert(s@.take(s@.len() as int) =~= s@);
    out
}

fn convert_quote_line_exec(l: &[char]) -> (r: Vec<char>)
    ensures
        r@ == convert_quote_line(l@),
{
    match blockquote_prefix_exec(l) {
        Some((n, kw)) => {
            let rest = slice_to_vec(l, n, l.len());
            assert(rest@ =~= l@.skip(n as int));
            let mut out = chars_of("> [!");
            let upper = ascii_uppercase_exec(kw.as_slice());
            push_all(&mut out, upper.as_slice());
            push_str(&mut out, "]");
            let t = trim_exec(rest.as_slice());
            if t.len() != 0 {
                push_str(&mut out, "\n> ");
                push_all(&mut out, rest.as_slice());
            }
            out
        },
        None => slice_to_vec(l, 0, l.len()),
    }
}

/// `convert_blockquote_admonitions` over characters.
pub fn convert_blockquote_admonitions_chars(text: &[char]) -> (r: Vec<char>)
    ensures
        r@ == convert_blockquote_admonitions_spec(text@),
{
    if !has_blockquote_admonition_exec(text) {
        let v = slice_to_vec(text, 0, text.len());
        assert(text@.subrange(0, text@.len() as int) =~= text@);
        return v;
    }
    let ls = lines_exec(text);
    let ghost lv = ls@.map_values(|l: Vec<char>| l@);
    let ghost conv = lv.map_values(|l: Seq<char>| convert_quote_line(l));
    let mut out: Vec<char> = Vec::new();
    for j in 0..ls.len()
        invariant
            lv == ls@.map_values(|l: Vec<char>| l@),
            conv == lv.map_values(|l: Seq<char>| convert_quote_line(l)),
            out@ == join_lines(conv.take(j as int)),
    {
        let line = convert_quote_line_exec(ls[j].as_slice());
        assert(line@ == conv[j as int]);
        if j > 0 {
            out.push('\n');
        }
        push_all(&mut out, line.as_slice());
        assert(conv.take(j + 1).drop_last() =~= conv.take(j as int));
        assert(out@ =~= join_lines(conv.take(j + 1)));
    }
    assert(conv.take(ls@.len() as int) =~= conv);
    if text.len() > 0 && text[text.len() - 1] == '\n' {
        out.push('\n');
    }
    out
}

} // verus!
