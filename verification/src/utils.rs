//! Helper functions used throughout the library: text manipulation,
//! link-target sanitizing and variable substitution.

use vstd::prelude::*;

use crate::markup::{
    apply_replacements_chars, apply_replacements_spec, convert_admonitions_chars,
    convert_admonitions_spec, convert_blockquote_admonitions_chars,
    convert_blockquote_admonitions_spec, has_blockquote_admonition, strip_directives,
    strip_directives_spec,
};
use crate::text::{
    has_suffix,
    ascii_lowercase, ascii_lowercase_exec, chars_eq, contains, contains_seq, first_index, occurs_at, last_index, last_occurrence, trim, trim_exec, push_str,
    first_occurrence, has_prefix, is_ascii_ws, is_ascii_ws_exec, is_control, is_control_exec,
    lemma_has_char_contains, lemma_first_occurrence_unique, lemma_occurs_single, chars_of, collapse_ws, collapse_ws_exec, contains_char, ends_with, has_char, is_ascii_alpha,
    is_ascii_digit, push_all, repeat, repeat_exec, slice_to_vec, starts_with, string_of,
};

verus! {

broadcast use vstd::string::group_string_axioms;

// ---------------------------------------------------------------------
// Anchors
// ---------------------------------------------------------------------

/// The characters an anchor slug may contain: `[A-Za-z0-9_-]`.
pub open spec fn is_slug_char(c: char) -> bool {
    is_ascii_alpha(c) || is_ascii_digit(c) || c == '_' || c == '-'
}

/// A slug character is kept, anything else becomes `-`.
pub open spec fn slug_char(c: char) -> char {
    if is_slug_char(c) {
        c
    } else {
        '-'
    }
}

/// The anchor slug of a dotted option name.
pub open spec fn anchor_slug_spec(name: Seq<char>) -> Seq<char> {
    name.map_values(|c: char| slug_char(c))
}

/// Produces a stable per-option anchor slug from its full dotted name
/// (e.g. `services.nginx.enable` -> `services-nginx-enable`): every
/// character outside `[A-Za-z0-9_-]` becomes `-`.
pub fn anchor_slug(name: &str) -> (r: String)
    ensures
        r@ == anchor_slug_spec(name@),
{
    let chars = chars_of(name);
    let mut out: Vec<char> = Vec::new();
    for i in 0..chars.len()
        invariant
            chars@ == name@,
            out@ == anchor_slug_spec(name@.take(i as int)),
    {
        let c = chars[i];
        let d = if ('A' <= c && c <= 'Z') || ('a' <= c && c <= 'z') || ('0' <= c && c <= '9')
            || c == '_' || c == '-' {
            c
        } else {
            '-'
        };
        out.push(d);
        assert(anchor_slug_spec(name@.take(i + 1)) =~= anchor_slug_spec(name@.take(i as int)).push(
            slug_char(name@[i as int]),
        ));
    }
    assert(name@.take(name@.len() as int) =~= name@);
    string_of(out.as_slice())
}

/// An anchor slug has one character per character of the name, and only
/// ever contains `[A-Za-z0-9_-]`.
pub proof fn anchor_slug_charset(name: Seq<char>)
    ensures
        anchor_slug_spec(name).len() == name.len(),
        forall|i: int|
            0 <= i < name.len() ==> #[trigger] is_slug_char(anchor_slug_spec(name)[i]),
{
}

/// Slugging is idempotent: a slug is its own slug.
pub proof fn anchor_slug_idempotent(name: Seq<char>)
    ensures
        anchor_slug_spec(anchor_slug_spec(name)) == anchor_slug_spec(name),
{
    assert(anchor_slug_spec(anchor_slug_spec(name)) =~= anchor_slug_spec(name));
}

// ---------------------------------------------------------------------
// Backtick runs and code spans
// ---------------------------------------------------------------------

/// Length of the run of backticks ending just before index `k` of `s`.
pub open spec fn run_ending(s: Seq<char>, k: int) -> nat
    decreases k,
{
    if k <= 0 || k > s.len() {
        0
    } else if s[k - 1] == '`' {
        run_ending(s, k - 1) + 1
    } else {
        0
    }
}

/// Length of the longest run of backticks within the first `k` characters.
pub open spec fn longest_run_upto(s: Seq<char>, k: int) -> nat
    decreases k,
{
    if k <= 0 {
        0
    } else {
        let a = longest_run_upto(s, k - 1);
        let b = run_ending(s, k);
        if a >= b {
            a
        } else {
            b
        }
    }
}

/// Length of the longest run of consecutive backticks in `s`.
pub open spec fn longest_backtick_run_spec(s: Seq<char>) -> nat {
    longest_run_upto(s, s.len() as int)
}

/// `s[i..i + n]` consists of backticks only.
pub open spec fn backtick_run_at(s: Seq<char>, i: int, n: nat) -> bool {
    0 <= i && i + n <= s.len() && forall|j: int| i <= j < i + n ==> #[trigger] s[j] == '`'
}

/// `s` holds `n` consecutive backticks somewhere.
pub open spec fn has_backtick_run(s: Seq<char>, n: nat) -> bool {
    exists|i: int| #[trigger] backtick_run_at(s, i, n)
}

proof fn lemma_run_ending(s: Seq<char>, k: int)
    requires
        0 <= k <= s.len(),
    ensures
        run_ending(s, k) <= k,
        backtick_run_at(s, k - run_ending(s, k), run_ending(s, k)),
        k - run_ending(s, k) == 0 || s[k - run_ending(s, k) - 1] != '`',
    decreases k,
{
    if k > 0 && s[k - 1] == '`' {
        lemma_run_ending(s, k - 1);
    }
}

proof fn lemma_longest_run_upto(s: Seq<char>, k: int)
    requires
        0 <= k <= s.len(),
    ensures
        exists|i: int| #[trigger] backtick_run_at(s, i, longest_run_upto(s, k)) && i
            + longest_run_upto(s, k) <= k,
        forall|i: int|
            i + longest_run_upto(s, k) + 1 <= k ==> !#[trigger] backtick_run_at(
                s,
                i,
                longest_run_upto(s, k) + 1,
            ),
    decreases k,
{
    if k == 0 {
        assert(backtick_run_at(s, 0, longest_run_upto(s, k)) && 0 + longest_run_upto(s, k) <= k);
    } else {
        lemma_longest_run_upto(s, k - 1);
        lemma_run_ending(s, k);
        let a = longest_run_upto(s, k - 1);
        let b = run_ending(s, k);
        let l = longest_run_upto(s, k);
        if a >= b {
            let w = choose|i: int| #[trigger] backtick_run_at(s, i, a) && i + a <= k - 1;
            assert(backtick_run_at(s, w, l) && w + l <= k);
            assert(backtick_run_at(s, w, longest_run_upto(s, k)) && w + longest_run_upto(s, k) <= k);
        } else {
            assert(backtick_run_at(s, k - b, l) && (k - b) + l <= k);
            assert(backtick_run_at(s, k - b, longest_run_upto(s, k)) && (k - b) + longest_run_upto(s, k) <= k);
        }
        assert forall|i: int| i + l + 1 <= k implies !#[trigger] backtick_run_at(s, i, l + 1) by {
            if backtick_run_at(s, i, l + 1) {
                if i + l + 1 <= k - 1 {
                    assert(backtick_run_at(s, i, a + 1)) by {
                        assert forall|j: int| i <= j < i + a + 1 implies #[trigger] s[j]
                            == '`' by {
                            assert(s[j] == '`');
                        }
                    }
                } else {
                    // the run ends at k - 1, so it lies within the run ending at k
                    if k - b - 1 >= i {
                        assert(s[k - b - 1] == '`');
                    }
                }
            }
        }
    }
}

/// The spec value is the length of the longest backtick run: such a run
/// exists, and no longer one does.
pub proof fn longest_backtick_run_is_max(s: Seq<char>)
    ensures
        has_backtick_run(s, longest_backtick_run_spec(s)),
        !has_backtick_run(s, longest_backtick_run_spec(s) + 1),
{
    lemma_longest_run_upto(s, s.len() as int);
}

/// Length of the longest run of consecutive backticks in `content`, or `0`
/// if it has none.
pub fn longest_backtick_run(content: &str) -> (r: usize)
    ensures
        r == longest_backtick_run_spec(content@),
        has_backtick_run(content@, r as nat),
        !has_backtick_run(content@, r as nat + 1),
{
    let chars = chars_of(content);
    let r = longest_run_chars(chars.as_slice());
    proof {
        longest_backtick_run_is_max(content@);
    }
    r
}

/// `longest_backtick_run` over a character slice.
pub fn longest_run_chars(s: &[char]) -> (r: usize)
    ensures
        r == longest_backtick_run_spec(s@),
{
    let mut longest: usize = 0;
    let mut current: usize = 0;
    for k in 0..s.len()
        invariant
            current == run_ending(s@, k as int),
            longest == longest_run_upto(s@, k as int),
            current <= k,
            longest <= k,
    {
        if s[k] == '`' {
            current = current + 1;
            if current > longest {
                longest = current;
            }
        } else {
            current = 0;
        }
    }
    longest
}

/// The body an inline code span is built around: line breaks cannot
/// appear in a code span, so content holding one has its whitespace
/// collapsed.
pub open spec fn code_span_body(content: Seq<char>) -> Seq<char> {
    if has_char(content, '\n') || has_char(content, '\r') {
        collapse_ws(content)
    } else {
        content
    }
}

/// Whether the body needs a space of padding inside the fence.
pub open spec fn code_span_needs_padding(body: Seq<char>) -> bool {
    starts_with(body, seq!['`']) || ends_with(body, seq!['`']) || (starts_with(body, seq![' '])
        && ends_with(body, seq![' ']) && exists|i: int| 0 <= i < body.len() && body[i] != ' ')
}

/// The CommonMark inline code span for `content`.
pub open spec fn inline_code_spec(content: Seq<char>) -> Seq<char> {
    let body = code_span_body(content);
    if body.len() == 0 {
        seq!['`', ' ', '`']
    } else {
        let fence = repeat('`', longest_backtick_run_spec(body) + 1);
        let pad = if code_span_needs_padding(body) {
            seq![' ']
        } else {
            seq![]
        };
        fence + pad + body + pad + fence
    }
}

/// Renders `content` as a CommonMark inline code span that survives
/// arbitrary input: the delimiter run is one backtick longer than the
/// longest run inside the body, padded with a space on each side when the
/// body would otherwise fuse with it.
pub fn inline_code(content: &str) -> (r: String)
    ensures
        r@ == inline_code_spec(content@),
{
    let chars = chars_of(content);
    let v = inline_code_chars(chars.as_slice());
    string_of(v.as_slice())
}

/// `inline_code` over characters.
pub fn inline_code_chars(content: &[char]) -> (r: Vec<char>)
    ensures
        r@ == inline_code_spec(content@),
{
    let body: Vec<char> = if contains_char(content, '\n') || contains_char(content, '\r') {
        collapse_ws_exec(content)
    } else {
        slice_to_vec(content, 0, content.len())
    };
    assert(content@.subrange(0, content@.len() as int) =~= content@);
    if body.len() == 0 {
        let v: Vec<char> = vec!['`', ' ', '`'];
        assert(v@ =~= seq!['`', ' ', '`']);
        return v;
    }
    let run = longest_run_chars(body.as_slice());
    let mut fence = repeat_exec('`', run);
    fence.push('`');
    assert(fence@ =~= repeat('`', run as nat + 1));
    let n = body.len();
    let mut any_non_space = false;
    let mut i: usize = 0;
    while i < n
        invariant
            n == body@.len(),
            i <= n,
            any_non_space == exists|j: int| 0 <= j < i && body@[j] != ' ',
        decreases n - i,
    {
        if body[i] != ' ' {
            any_non_space = true;
        }
        i = i + 1;
    }
    let needs_padding = body[0] == '`' || body[n - 1] == '`' || (body[0] == ' ' && body[n - 1]
        == ' ' && any_non_space);
    proof {
        assert(starts_with(body@, seq!['`']) == (body@[0] == '`')) by {
            assert(body@.take(1) =~= seq![body@[0]]);
            if body@.take(1) == seq!['`'] {
                assert(body@.take(1)[0] == body@[0]);
            }
        }
        assert(ends_with(body@, seq!['`']) == (body@[n - 1] == '`')) by {
            assert(body@.skip(n - 1) =~= seq![body@[n - 1]]);
            if body@.skip(n - 1) == seq!['`'] {
                assert(body@.skip(n - 1)[0] == body@[n - 1]);
            }
        }
        assert(starts_with(body@, seq![' ']) == (body@[0] == ' ')) by {
            assert(body@.take(1) =~= seq![body@[0]]);
            if body@.take(1) == seq![' '] {
                assert(body@.take(1)[0] == body@[0]);
            }
        }
        assert(ends_with(body@, seq![' ']) == (body@[n - 1] == ' ')) by {
            assert(body@.skip(n - 1) =~= seq![body@[n - 1]]);
            if body@.skip(n - 1) == seq![' '] {
                assert(body@.skip(n - 1)[0] == body@[n - 1]);
            }
        }
    }
    let mut out: Vec<char> = Vec::new();
    push_all(&mut out, fence.as_slice());
    if needs_padding {
        out.push(' ');
    }
    push_all(&mut out, body.as_slice());
    if needs_padding {
        out.push(' ');
    }
    push_all(&mut out, fence.as_slice());
    proof {
        let pad: Seq<char> = if needs_padding {
            seq![' ']
        } else {
            seq![]
        };
        assert(out@ =~= fence@ + pad + body@ + pad + fence@);
    }
    out
}

} // verus!

verus! {

// ---------------------------------------------------------------------
// Link targets
// ---------------------------------------------------------------------

/// `s` without its ASCII tab, newline and carriage-return characters
/// (browsers strip these anywhere in a URL before reading its scheme).
pub open spec fn drop_tab_nl_cr(s: Seq<char>) -> Seq<char>
    decreases s.len(),
{
    if s.len() == 0 {
        s
    } else if s[0] == '\t' || s[0] == '\n' || s[0] == '\r' {
        drop_tab_nl_cr(s.drop_first())
    } else {
        seq![s[0]] + drop_tab_nl_cr(s.drop_first())
    }
}

/// ASCII whitespace or a control character.
pub open spec fn is_blank_or_control(c: char) -> bool {
    is_ascii_ws(c) || is_control(c)
}

/// Number of leading blank or control characters of `s`.
pub open spec fn leading_blank_control(s: Seq<char>) -> nat
    decreases s.len(),
{
    if s.len() > 0 && is_blank_or_control(s[0]) {
        1 + leading_blank_control(s.drop_first())
    } else {
        0
    }
}

/// What a browser reads a scheme from: the target without tab, newline
/// and carriage return, and without leading blanks or control characters.
pub open spec fn scheme_view(t: Seq<char>) -> Seq<char> {
    let c = drop_tab_nl_cr(t);
    c.skip(leading_blank_control(c) as int)
}

/// RFC 3986 scheme syntax: `ALPHA *( ALPHA / DIGIT / "+" / "-" / "." )`.
pub open spec fn looks_like_scheme(s: Seq<char>) -> bool {
    s.len() > 0 && is_ascii_alpha(s[0]) && forall|i: int|
        0 <= i < s.len() ==> #[trigger] is_scheme_char(s[i])
}

pub open spec fn is_scheme_char(c: char) -> bool {
    is_ascii_alpha(c) || is_ascii_digit(c) || c == '+' || c == '-' || c == '.'
}

/// `s` equals `http` or `https`, ignoring ASCII case.
pub open spec fn is_http_scheme_name(s: Seq<char>) -> bool {
    ascii_lowercase(s) == seq!['h', 't', 't', 'p'] || ascii_lowercase(s) == seq![
        'h',
        't',
        't',
        'p',
        's',
    ]
}

/// `target` begins with a URI scheme other than a real `http://` or
/// `https://` authority.
pub open spec fn scheme_is_dangerous_spec(target: Seq<char>) -> bool {
    let v = scheme_view(target);
    has_char(v, ':') && {
        let colon = first_occurrence(v, seq![':']);
        let scheme = v.take(colon);
        let rest = v.skip(colon + 1);
        looks_like_scheme(scheme) && !(starts_with(rest, seq!['/', '/']) && is_http_scheme_name(
            scheme,
        ))
    }
}

/// `s` contains `http://` or `https://`.
pub open spec fn has_http_authority(s: Seq<char>) -> bool {
    contains(s, seq!['h', 't', 't', 'p', ':', '/', '/']) || contains(
        s,
        seq!['h', 't', 't', 'p', 's', ':', '/', '/'],
    )
}

/// Whether `decoded`, one or more entity-decode passes over `literal`, is
/// dangerous as a link target: a protocol-relative `//` prefix, a
/// dangerous scheme, or an `http(s)://` authority that decoding produced
/// rather than one already present literally.
pub open spec fn decoded_form_is_dangerous_spec(literal: Seq<char>, decoded: Seq<char>) -> bool {
    starts_with(scheme_view(decoded), seq!['/', '/']) || scheme_is_dangerous_spec(decoded) || (
    has_http_authority(ascii_lowercase(decoded)) && !has_http_authority(ascii_lowercase(literal)))
}

/// What `html_escape::decode_html_entities` makes of `text`.
pub uninterp spec fn html_entities_decoded(text: Seq<char>) -> Seq<char>;

/// How many decode passes are tried before failing closed.
pub const MAX_ENTITY_DECODE_PASSES: usize = 3;

/// Decodes `candidate` up to `passes` more times, reporting whether a
/// dangerous form turns up; still decoding to something new after the
/// last pass counts as dangerous.
pub open spec fn decode_passes_dangerous(literal: Seq<char>, candidate: Seq<char>, passes: nat) -> bool
    decreases passes,
{
    if passes == 0 {
        true
    } else {
        let d = html_entities_decoded(candidate);
        if d == candidate {
            false
        } else if decoded_form_is_dangerous_spec(literal, d) || contains(d, seq!['&', '#']) {
            true
        } else {
            decode_passes_dangerous(literal, d, (passes - 1) as nat)
        }
    }
}

/// `target` is dangerous as a link target, literally or in any
/// entity-decoded form.
pub open spec fn has_dangerous_scheme_spec(target: Seq<char>) -> bool {
    scheme_is_dangerous_spec(target) || (has_char(target, '&') && decode_passes_dangerous(
        target,
        target,
        MAX_ENTITY_DECODE_PASSES as nat,
    ))
}

/// The link target `sanitize_link_target` produces.
pub open spec fn sanitize_link_target_spec(target: Seq<char>) -> Seq<char> {
    if has_dangerous_scheme_spec(target) {
        seq!['#']
    } else {
        target
    }
}

/// `html_escape::decode_html_entities`: decodes the named and numeric
/// character references in `text` (the result is named, not described).
#[verifier::external_body]
fn decode_html_entities(text: &str) -> (r: String)
    ensures
        r@ == html_entities_decoded(text@),
{
    html_escape::decode_html_entities(text).into_owned()
}

/// `s` with tab, newline and carriage return removed.
fn drop_tab_nl_cr_exec(s: &[char]) -> (r: Vec<char>)
    ensures
        r@ == drop_tab_nl_cr(s@),
{
    let mut out: Vec<char> = Vec::new();
    let mut i: usize = 0;
    assert(s@.skip(0) =~= s@);
    while i < s.len()
        invariant
            i <= s.len(),
            out@ + drop_tab_nl_cr(s@.skip(i as int)) == drop_tab_nl_cr(s@),
        decreases s.len() - i,
    {
        let ghost rest = s@.skip(i as int);
        assert(rest.drop_first() =~= s@.skip(i + 1));
        let c = s[i];
        if !(c == '\t' || c == '\n' || c == '\r') {
            out.push(c);
            assert(out@ + drop_tab_nl_cr(s@.skip(i + 1)) =~= out@.drop_last() + drop_tab_nl_cr(
                rest,
            ));
        }
        i = i + 1;
    }
    assert(out@ + drop_tab_nl_cr(s@.skip(i as int)) =~= out@);
    out
}

/// The scheme view of a target.
fn scheme_view_exec(t: &[char]) -> (r: Vec<char>)
    ensures
        r@ == scheme_view(t@),
{
    let c = drop_tab_nl_cr_exec(t);
    let mut i: usize = 0;
    assert(c@.skip(0) =~= c@);
    while i < c.len() && (is_ascii_ws_exec(c[i]) || is_control_exec(c[i]))
        invariant
            i <= c@.len(),
            leading_blank_control(c@) == i + leading_blank_control(c@.skip(i as int)),
        decreases c.len() - i,
    {
        assert(c@.skip(i as int).drop_first() =~= c@.skip(i + 1));
        i = i + 1;
    }
    slice_to_vec(c.as_slice(), i, c.len())
}

/// Whether `s` satisfies `looks_like_scheme`.
fn looks_like_scheme_exec(s: &[char]) -> (r: bool)
    ensures
        r == looks_like_scheme(s@),
{
    if s.len() == 0 {
        return false;
    }
    let c0 = s[0];
    if !(('A' <= c0 && c0 <= 'Z') || ('a' <= c0 && c0 <= 'z')) {
        return false;
    }
    let mut i: usize = 0;
    while i < s.len()
        invariant
            i <= s.len(),
            forall|j: int| 0 <= j < i ==> #[trigger] is_scheme_char(s@[j]),
        decreases s.len() - i,
    {
        let c = s[i];
        if !(('A' <= c && c <= 'Z') || ('a' <= c && c <= 'z') || ('0' <= c && c <= '9') || c
            == '+' || c == '-' || c == '.') {
            assert(!is_scheme_char(s@[i as int]));
            return false;
        }
        i = i + 1;
    }
    true
}

/// Whether `s` is `http` or `https` up to ASCII case.
fn is_http_scheme_name_exec(s: &[char]) -> (r: bool)
    ensures
        r == is_http_scheme_name(s@),
{
    let l = ascii_lowercase_exec(s);
    let http: Vec<char> = vec!['h', 't', 't', 'p'];
    let https: Vec<char> = vec!['h', 't', 't', 'p', 's'];
    assert(http@ =~= seq!['h', 't', 't', 'p']);
    assert(https@ =~= seq!['h', 't', 't', 'p', 's']);
    chars_eq(l.as_slice(), http.as_slice()) || chars_eq(l.as_slice(), https.as_slice())
}

/// Reports whether `target` begins with a URI scheme other than a real
/// `http://`/`https://` authority - i.e. whether it is dangerous to use as
/// a link target rather than an ordinary relative/absolute path.
pub fn scheme_is_dangerous(target: &[char]) -> (r: bool)
    ensures
        r == scheme_is_dangerous_spec(target@),
{
    let v = scheme_view_exec(target);
    let colon_pat: Vec<char> = vec![':'];
    assert(colon_pat@ =~= seq![':']);
    proof {
        lemma_has_char_contains(v@, ':');
    }
    let found = first_index(v.as_slice(), colon_pat.as_slice());
    match found {
        None => false,
        Some(colon) => {
            assert(occurs_at(v@, colon_pat@, colon as int));
            proof {
                lemma_occurs_single(v@, ':', colon as int);
            }
            assert(colon < v.len());
            let scheme = slice_to_vec(v.as_slice(), 0, colon);
            let rest = slice_to_vec(v.as_slice(), colon + 1, v.len());
            assert(scheme@ =~= v@.take(colon as int));
            assert(rest@ =~= v@.skip(colon + 1));
            if !looks_like_scheme_exec(scheme.as_slice()) {
                return false;
            }
            let slashes: Vec<char> = vec!['/', '/'];
            assert(slashes@ =~= seq!['/', '/']);
            let is_real_http_url = has_prefix(rest.as_slice(), slashes.as_slice())
                && is_http_scheme_name_exec(scheme.as_slice());
            !is_real_http_url
        },
    }
}

/// Whether `s` contains `http://` or `https://`.
fn has_http_authority_exec(s: &[char]) -> (r: bool)
    ensures
        r == has_http_authority(s@),
{
    let a: Vec<char> = vec!['h', 't', 't', 'p', ':', '/', '/'];
    let b: Vec<char> = vec!['h', 't', 't', 'p', 's', ':', '/', '/'];
    assert(a@ =~= seq!['h', 't', 't', 'p', ':', '/', '/']);
    assert(b@ =~= seq!['h', 't', 't', 'p', 's', ':', '/', '/']);
    contains_seq(s, a.as_slice()) || contains_seq(s, b.as_slice())
}

/// Reports whether `decoded` - the result of one or more entity-decode
/// passes over `literal` - is dangerous to use as a link target.
pub fn decoded_form_is_dangerous(literal: &[char], decoded: &[char]) -> (r: bool)
    ensures
        r == decoded_form_is_dangerous_spec(literal@, decoded@),
{
    let v = scheme_view_exec(decoded);
    let slashes: Vec<char> = vec!['/', '/'];
    assert(slashes@ =~= seq!['/', '/']);
    if has_prefix(v.as_slice(), slashes.as_slice()) {
        return true;
    }
    if scheme_is_dangerous(decoded) {
        return true;
    }
    let decoded_lower = ascii_lowercase_exec(decoded);
    if !has_http_authority_exec(decoded_lower.as_slice()) {
        return false;
    }
    let literal_lower = ascii_lowercase_exec(literal);
    !has_http_authority_exec(literal_lower.as_slice())
}

/// Reports whether `target` is dangerous to use as a link target, testing
/// both its literal text and every HTML-entity-decoded form of it.
pub fn has_dangerous_scheme(target: &[char]) -> (r: bool)
    ensures
        r == has_dangerous_scheme_spec(target@),
{
    if scheme_is_dangerous(target) {
        return true;
    }
    if !contains_char(target, '&') {
        return false;
    }
    let amp_hash: Vec<char> = vec!['&', '#'];
    assert(amp_hash@ =~= seq!['&', '#']);
    let mut candidate = slice_to_vec(target, 0, target.len());
    assert(target@.subrange(0, target@.len() as int) =~= target@);
    let mut pass: usize = 0;
    while pass < MAX_ENTITY_DECODE_PASSES
        invariant
            pass <= MAX_ENTITY_DECODE_PASSES,
            amp_hash@ == seq!['&', '#'],
            has_char(target@, '&'),
            !scheme_is_dangerous_spec(target@),
            decode_passes_dangerous(target@, target@, MAX_ENTITY_DECODE_PASSES as nat)
                == decode_passes_dangerous(
                target@,
                candidate@,
                (MAX_ENTITY_DECODE_PASSES - pass) as nat,
            ),
        decreases MAX_ENTITY_DECODE_PASSES - pass,
    {
        let s = string_of(candidate.as_slice());
        let decoded_s = decode_html_entities(s.as_str());
        let decoded = chars_of(decoded_s.as_str());
        let ghost n = (MAX_ENTITY_DECODE_PASSES - pass) as nat;
        assert(n > 0);
        assert(decoded@ == html_entities_decoded(candidate@));
        assert(decode_passes_dangerous(target@, candidate@, n) == {
            let d = html_entities_decoded(candidate@);
            if d == candidate@ {
                false
            } else if decoded_form_is_dangerous_spec(target@, d) || contains(d, seq!['&', '#']) {
                true
            } else {
                decode_passes_dangerous(target@, d, (n - 1) as nat)
            }
        });
        if chars_eq(decoded.as_slice(), candidate.as_slice()) {
            return false;
        }
        if decoded_form_is_dangerous(target, decoded.as_slice()) || contains_seq(
            decoded.as_slice(),
            amp_hash.as_slice(),
        ) {
            return true;
        }
        candidate = decoded;
        pass = pass + 1;
    }
    true
}

/// Sanitizes a value before it is used as a link target: ordinary
/// relative/absolute paths and `http(s)://` URLs pass through unchanged,
/// and anything else (a `javascript:`, `data:` or other URI scheme,
/// literally or after entity decoding) becomes the inert anchor `#`.
///
/// A literal `&#` is not by itself a reason to fail closed: a target such
/// as `&#106avascript:alert(1)` (no terminating `;`) is kept as it is,
/// because entity decoding leaves it unchanged. (The rule that any literal
/// `&#` fails closed is deliberately not kept.) What counts is decoding:
/// a target that decoding changes is dangerous when a decoded form carries
/// a dangerous scheme or still holds `&#`, or when it keeps changing after
/// `MAX_ENTITY_DECODE_PASSES` passes.
pub fn sanitize_link_target(target: &str) -> (r: String)
    ensures
        r@ == sanitize_link_target_spec(target@),
        r@ == target@ || r@ == seq!['#'],
{
    let chars = chars_of(target);
    if has_dangerous_scheme(chars.as_slice()) {
        let v: Vec<char> = vec!['#'];
        assert(v@ =~= seq!['#']);
        string_of(v.as_slice())
    } else {
        string_of(chars.as_slice())
    }
}

/// `sanitize_link_target` over characters.
pub fn sanitize_link_target_chars(target: &[char]) -> (r: Vec<char>)
    ensures
        r@ == sanitize_link_target_spec(target@),
{
    if has_dangerous_scheme(target) {
        let v: Vec<char> = vec!['#'];
        assert(v@ =~= seq!['#']);
        v
    } else {
        let v = slice_to_vec(target, 0, target.len());
        assert(target@.subrange(0, target@.len() as int) =~= target@);
        v
    }
}

/// The inert anchor `#` is itself a safe link target.
proof fn lemma_hash_is_safe()
    ensures
        !has_dangerous_scheme_spec(seq!['#']),
{
    let h = seq!['#'];
    assert(drop_tab_nl_cr(h.drop_first()) =~= seq![]) by {
        assert(h.drop_first().len() == 0);
    }
    assert(drop_tab_nl_cr(h) =~= h);
    assert(leading_blank_control(h) == 0);
    assert(scheme_view(h) =~= h);
    assert(!has_char(h, ':'));
    assert(!has_char(h, '&'));
}

/// A sanitized target never carries a dangerous scheme, literally or
/// after entity decoding.
pub proof fn sanitized_target_is_safe(target: Seq<char>)
    ensures
        !has_dangerous_scheme_spec(sanitize_link_target_spec(target)),
{
    lemma_hash_is_safe();
}

/// Sanitizing is idempotent: a sanitized target passes through unchanged.
pub proof fn sanitize_link_target_idempotent(target: Seq<char>)
    ensures
        sanitize_link_target_spec(sanitize_link_target_spec(target)) == sanitize_link_target_spec(
            target,
        ),
{
    lemma_hash_is_safe();
}

} // verus!

verus! {

// ---------------------------------------------------------------------
// key=value arguments, literal expressions, dedenting
// ---------------------------------------------------------------------

/// The outcome `parse_key_value` reports for `s`: the text before the
/// first `=` and the text after it, when that key is non-empty.
pub open spec fn parse_key_value_spec(s: Seq<char>) -> Option<(Seq<char>, Seq<char>)> {
    if has_char(s, '=') && first_occurrence(s, seq!['=']) > 0 {
        let i = first_occurrence(s, seq!['=']);
        Some((s.take(i), s.skip(i + 1)))
    } else {
        None
    }
}

/// Parses a string in the format `key=value`: splits at the first `=`,
/// and fails unless there is one and the key before it is non-empty.
pub fn parse_key_value(s: &str) -> (r: Result<(String, String), String>)
    ensures
        match parse_key_value_spec(s@) {
            Some((k, v)) => r matches Ok((key, value)) && key@ == k && value@ == v,
            None => r matches Err(msg) && msg@ == "Invalid key=value format: "@ + s@,
        },
        r matches Ok((key, value)) ==> key@.len() > 0 && !has_char(key@, '=') && key@ + seq![
            '=',
        ] + value@ == s@,
{
    let chars = chars_of(s);
    let eq: Vec<char> = vec!['='];
    assert(eq@ =~= seq!['=']);
    proof {
        lemma_has_char_contains(s@, '=');
    }
    let found = first_index(chars.as_slice(), eq.as_slice());
    if let Some(i) = found {
        if i > 0 {
            proof {
                lemma_occurs_single(s@, '=', i as int);
                assert forall|j: int| 0 <= j < i implies s@[j] != '=' by {
                    lemma_occurs_single(s@, '=', j);
                    assert(!occurs_at(s@, seq!['='], j));
                }
            }
            assert(found matches Some(i) && i + eq@.len() <= chars@.len());
            assert(i + 1 <= chars.len());
            let key = slice_to_vec(chars.as_slice(), 0, i);
            let value = slice_to_vec(chars.as_slice(), i + 1, chars.len());
            assert(key@ + seq!['='] + value@ =~= s@);
            return Ok((string_of(key.as_slice()), string_of(value.as_slice())));
        }
    }
    let mut msg = chars_of("Invalid key=value format: ");
    push_all(&mut msg, chars.as_slice());
    Err(string_of(msg.as_slice()))
}

/// A non-empty key without `=`, joined to any value with `=`, parses back
/// to that key and that value.
pub proof fn parse_key_value_round_trip(k: Seq<char>, v: Seq<char>)
    requires
        k.len() > 0,
        !has_char(k, '='),
    ensures
        parse_key_value_spec(k + seq!['='] + v) == Some((k, v)),
{
    let s = k + seq!['='] + v;
    let i = k.len() as int;
    assert(s[i] == '=');
    assert(has_char(s, '='));
    assert(s.skip(i).take(1) =~= seq!['=']);
    assert(occurs_at(s, seq!['='], i));
    assert forall|j: int| 0 <= j < i implies !#[trigger] occurs_at(s, seq!['='], j) by {
        assert(s[j] == k[j]);
        if occurs_at(s, seq!['='], j) {
            assert(s.skip(j).take(1)[0] == s[j]);
        }
    }
    lemma_first_occurrence_unique(s, seq!['='], i);
    assert(s.take(i) =~= k);
    assert(s.skip(i + 1) =~= v);
}

/// Whether `v` starts with `lib.literalExpression` or `literalExpression`.
pub open spec fn is_literal_expression(v: Seq<char>) -> bool {
    starts_with(v, "lib.literalExpression"@) || starts_with(v, "literalExpression"@)
}

/// The content `clean_literal_expr` extracts from `value`.
pub open spec fn clean_literal_expr_spec(value: Seq<char>) -> Seq<char> {
    let v = trim(value);
    let q2 = seq!['\'', '\''];
    let dq = seq!['"'];
    if is_literal_expression(v) && contains(v, q2) && last_occurrence(v, q2) > first_occurrence(
        v,
        q2,
    ) + 2 {
        trim(v.subrange(first_occurrence(v, q2) + 2, last_occurrence(v, q2)))
    } else if is_literal_expression(v) && !contains(v, q2) && contains(v, dq) && last_occurrence(
        v,
        dq,
    ) > first_occurrence(v, dq) + 1 {
        trim(v.subrange(first_occurrence(v, dq) + 1, last_occurrence(v, dq)))
    } else {
        v
    }
}

/// `trim` leaves a text alone that neither begins nor ends with whitespace.
proof fn trim_of_unpadded(w: Seq<char>)
    requires
        w.len() > 0,
        !crate::text::is_ws(w[0]),
        !crate::text::is_ws(w.last()),
    ensures
        trim(w) == w,
{
    assert(crate::text::leading_ws(w) == 0);
    assert(crate::text::trim_start(w) =~= w);
    assert(crate::text::trailing_ws(w) == 0);
    assert(crate::text::trim_end(w) =~= w);
}

/// The value a literal-expression wrapper `p` around the string `"s"`
/// shows: `s` trimmed.
proof fn literal_wrapper_value(p: Seq<char>, s: Seq<char>)
    requires
        is_literal_expression(p),
        !crate::text::is_ws(p[0]),
        !has_char(p, '"'),
        !has_char(p, '\''),
        s.len() > 0,
        !has_char(s, '"'),
        !contains(s, seq!['\'', '\'']),
    ensures
        clean_literal_expr_spec(p + seq!['"'] + s + seq!['"']) == trim(s),
{
    reveal_strlit("lib.literalExpression");
    reveal_strlit("literalExpression");
    let dq = seq!['"'];
    let q2 = seq!['\'', '\''];
    let w = p + dq + s + dq;
    let lp = p.len() as int;
    let ls = s.len() as int;
    assert(p.len() > 0) by {
        assert(starts_with(p, "lib.literalExpression"@) || starts_with(p, "literalExpression"@));
    }
    assert(w[0] == p[0]);
    assert(w.last() == '"');
    trim_of_unpadded(w);
    assert(is_literal_expression(w)) by {
        if starts_with(p, "lib.literalExpression"@) {
            assert(w.take("lib.literalExpression"@.len() as int) =~= p.take(
                "lib.literalExpression"@.len() as int,
            ));
        } else {
            assert(w.take("literalExpression"@.len() as int) =~= p.take(
                "literalExpression"@.len() as int,
            ));
        }
    }
    assert forall|i: int| !#[trigger] occurs_at(w, q2, i) by {
        if occurs_at(w, q2, i) {
            assert(w.skip(i).take(2)[0] == w[i]);
            assert(w.skip(i).take(2)[1] == w[i + 1]);
            assert(w[i] == '\'' && w[i + 1] == '\'');
            if i < lp {
                assert(w[i] == p[i]);
                assert(has_char(p, '\''));
            } else if i == lp {
                assert(w[i] == '"');
            } else if i + 1 <= lp + ls {
                assert(w[i] == s[i - lp - 1]);
                assert(w[i + 1] == s[i - lp]);
                assert(s.skip(i - lp - 1).take(2) =~= q2);
                assert(occurs_at(s, q2, i - lp - 1));
            } else {
                assert(w[i + 1] == '"');
            }
        }
    }
    assert(!contains(w, q2));
    lemma_occurs_single(w, '"', lp);
    assert(occurs_at(w, dq, lp));
    assert forall|j: int| 0 <= j < lp implies !#[trigger] occurs_at(w, dq, j) by {
        lemma_occurs_single(w, '"', j);
        assert(w[j] == p[j]);
        if w[j] == '"' {
            assert(has_char(p, '"'));
        }
    }
    crate::text::lemma_first_occurrence_unique(w, dq, lp);
    let last = lp + ls + 1;
    lemma_occurs_single(w, '"', last);
    assert forall|j: int| last < j implies !#[trigger] occurs_at(w, dq, j) by {
        lemma_occurs_single(w, '"', j);
    }
    crate::text::lemma_last_occurrence_unique(w, dq, last);
    assert(w.subrange(lp + 1, last) =~= s);
}

/// The value a literal-expression wrapper `p` around the indented string
/// `''s''` shows: `s` trimmed, whatever `s` holds.
proof fn literal_wrapper_indented_value(p: Seq<char>, s: Seq<char>)
    requires
        is_literal_expression(p),
        !crate::text::is_ws(p[0]),
        !has_char(p, '\''),
        s.len() > 0,
    ensures
        clean_literal_expr_spec(p + seq!['\'', '\''] + s + seq!['\'', '\'']) == trim(s),
{
    reveal_strlit("lib.literalExpression");
    reveal_strlit("literalExpression");
    let q2 = seq!['\'', '\''];
    let w = p + q2 + s + q2;
    let lp = p.len() as int;
    let ls = s.len() as int;
    assert(p.len() > 0) by {
        assert(starts_with(p, "lib.literalExpression"@) || starts_with(p, "literalExpression"@));
    }
    assert(w[0] == p[0]);
    assert(w.last() == '\'');
    trim_of_unpadded(w);
    assert(is_literal_expression(w)) by {
        if starts_with(p, "lib.literalExpression"@) {
            assert(w.take("lib.literalExpression"@.len() as int) =~= p.take(
                "lib.literalExpression"@.len() as int,
            ));
        } else {
            assert(w.take("literalExpression"@.len() as int) =~= p.take(
                "literalExpression"@.len() as int,
            ));
        }
    }
    assert(w.skip(lp).take(2) =~= q2);
    assert(occurs_at(w, q2, lp));
    assert forall|j: int| 0 <= j < lp implies !#[trigger] occurs_at(w, q2, j) by {
        if occurs_at(w, q2, j) {
            assert(w.skip(j).take(2)[0] == w[j]);
            assert(w[j] == p[j]);
            assert(has_char(p, '\''));
        }
    }
    crate::text::lemma_first_occurrence_unique(w, q2, lp);
    let last = lp + ls + 2;
    assert(w.skip(last).take(2) =~= q2);
    assert(occurs_at(w, q2, last));
    assert forall|j: int| last < j implies !#[trigger] occurs_at(w, q2, j) by {}
    crate::text::lemma_last_occurrence_unique(w, q2, last);
    assert(w.subrange(lp + 2, last) =~= s);
}

/// A literal expression written with an indented string shows its content,
/// trimmed, with or without the `lib.` qualifier: for any non-empty `s`,
/// `lib.literalExpression ''s''` and `literalExpression ''s''` both show
/// `s` trimmed. A value that is no literal expression is shown trimmed and
/// otherwise as it is.
pub proof fn literal_expression_indented_strings(s: Seq<char>, v: Seq<char>)
    requires
        s.len() > 0,
    ensures
        clean_literal_expr_spec("lib.literalExpression "@ + seq!['\'', '\''] + s + seq!['\'', '\''])
            == trim(s),
        clean_literal_expr_spec("literalExpression "@ + seq!['\'', '\''] + s + seq!['\'', '\''])
            == trim(s),
        !starts_with(trim(v), "literalExpression"@) && !starts_with(trim(v), "lib.literalExpression"@)
            ==> clean_literal_expr_spec(v) == trim(v),
{
    reveal_strlit("lib.literalExpression ");
    reveal_strlit("literalExpression ");
    reveal_strlit("lib.literalExpression");
    reveal_strlit("literalExpression");
    let a = "lib.literalExpression "@;
    let b = "literalExpression "@;
    assert(a.take("lib.literalExpression"@.len() as int) =~= "lib.literalExpression"@);
    assert(b.take("literalExpression"@.len() as int) =~= "literalExpression"@);
    assert(!has_char(a, '\''));
    assert(!has_char(b, '\''));
    literal_wrapper_indented_value(a, s);
    literal_wrapper_indented_value(b, s);
}

/// A `lib.`-qualified literal expression shows what the bare one shows:
/// for any non-empty string `s` holding no `"` and no `''`, both
/// `lib.literalExpression "s"` and `literalExpression "s"` show `s`,
/// trimmed.
pub proof fn literal_expression_wrappers_agree(s: Seq<char>)
    requires
        s.len() > 0,
        !has_char(s, '"'),
        !contains(s, seq!['\'', '\'']),
    ensures
        clean_literal_expr_spec("lib.literalExpression "@ + seq!['"'] + s + seq!['"']) == trim(s),
        clean_literal_expr_spec("literalExpression "@ + seq!['"'] + s + seq!['"']) == trim(s),
{
    reveal_strlit("lib.literalExpression ");
    reveal_strlit("literalExpression ");
    reveal_strlit("lib.literalExpression");
    reveal_strlit("literalExpression");
    let a = "lib.literalExpression "@;
    let b = "literalExpression "@;
    assert(a.take("lib.literalExpression"@.len() as int) =~= "lib.literalExpression"@);
    assert(b.take("literalExpression"@.len() as int) =~= "literalExpression"@);
    assert(!has_char(a, '"') && !has_char(a, '\''));
    assert(!has_char(b, '"') && !has_char(b, '\''));
    literal_wrapper_value(a, s);
    literal_wrapper_value(b, s);
}

/// Extracts the actual content from Nix `literalExpression` wrappers: the
/// trimmed text between the first and last `''` (or, when there is no
/// `''`, between the first and last `"`); anything else is returned
/// trimmed but otherwise as it is.
pub fn clean_literal_expr(value: &str) -> (r: String)
    ensures
        r@ == clean_literal_expr_spec(value@),
{
    let chars = chars_of(value);
    let v = clean_literal_expr_chars(chars.as_slice());
    string_of(v.as_slice())
}

/// `clean_literal_expr` over characters.
pub fn clean_literal_expr_chars(value: &[char]) -> (r: Vec<char>)
    ensures
        r@ == clean_literal_expr_spec(value@),
{
    let v = trim_exec(value);
    let lib_le = chars_of("lib.literalExpression");
    let le = chars_of("literalExpression");
    let is_le = has_prefix(v.as_slice(), lib_le.as_slice()) || has_prefix(
        v.as_slice(),
        le.as_slice(),
    );
    if is_le {
        let q2: Vec<char> = vec!['\'', '\''];
        assert(q2@ =~= seq!['\'', '\'']);
        let dq: Vec<char> = vec!['"'];
        assert(dq@ =~= seq!['"']);
        let f1 = first_index(v.as_slice(), q2.as_slice());
        if let Some(start_pos) = f1 {
            assert(f1 matches Some(start_pos) && start_pos + q2@.len() <= v@.len());
            assert(start_pos + 2 <= v.len());
            let start = start_pos + 2;
            if let Some(end_pos) = last_index(v.as_slice(), q2.as_slice()) {
                if end_pos > start {
                    let inner = slice_to_vec(v.as_slice(), start, end_pos);
                    return trim_exec(inner.as_slice());
                }
            }
        } else {
            let f2 = first_index(v.as_slice(), dq.as_slice());
            if let Some(start_pos) = f2 {
            assert(f2 matches Some(start_pos) && start_pos + dq@.len() <= v@.len());
            assert(start_pos + 1 <= v.len());
            let start = start_pos + 1;
            if let Some(end_pos) = last_index(v.as_slice(), dq.as_slice()) {
                if end_pos > start {
                    let inner = slice_to_vec(v.as_slice(), start, end_pos);
                    return trim_exec(inner.as_slice());
                }
            }
            }
        }
    }
    v
}

/// What `textwrap::dedent` makes of `text`: the whitespace prefix common
/// to its non-blank lines removed (the result is named, not described).
pub uninterp spec fn dedented(text: Seq<char>) -> Seq<char>;

/// `textwrap::dedent`.
#[verifier::external_body]
fn dedent(text: &str) -> (r: String)
    ensures
        r@ == dedented(text@),
{
    textwrap::dedent(text)
}

/// What `custom_dedent` makes of `text`: the first line as it is, the
/// rest (from the first line break on) dedented.
pub open spec fn custom_dedent_spec(text: Seq<char>) -> Seq<char> {
    if has_char(text, '\n') {
        let pos = first_occurrence(text, seq!['\n']);
        text.take(pos) + dedented(text.skip(pos))
    } else {
        text
    }
}

/// Dedent that preserves the first line and only dedents the lines after
/// it.
pub fn custom_dedent(text: &str) -> (r: String)
    ensures
        r@ == custom_dedent_spec(text@),
{
    let chars = chars_of(text);
    let v = custom_dedent_chars(chars.as_slice());
    string_of(v.as_slice())
}

/// `custom_dedent` over characters.
pub fn custom_dedent_chars(text: &[char]) -> (r: Vec<char>)
    ensures
        r@ == custom_dedent_spec(text@),
{
    let nl: Vec<char> = vec!['\n'];
    assert(nl@ =~= seq!['\n']);
    proof {
        lemma_has_char_contains(text@, '\n');
    }
    match first_index(text, nl.as_slice()) {
        Some(pos) => {
            let mut out = slice_to_vec(text, 0, pos);
            let rest = slice_to_vec(text, pos, text.len());
            let rest_s = string_of(rest.as_slice());
            let d = dedent(rest_s.as_str());
            push_str(&mut out, d.as_str());
            assert(rest@ =~= text@.skip(pos as int));
            out
        },
        None => {
            let out = slice_to_vec(text, 0, text.len());
            assert(text@.subrange(0, text@.len() as int) =~= text@);
            out
        },
    }
}

} // verus!

verus! {

// ---------------------------------------------------------------------
// Description text
// ---------------------------------------------------------------------

/// Replaces `${name}` references in `text` using the `KEY=VALUE` pairs (a
/// later pair for the same key wins); a reference to an unbound name is
/// left as it is, and with no pairs the text is returned unchanged.
pub fn apply_replacements(text: &str, replacements: &[(String, String)]) -> (r: String)
    ensures
        r@ == apply_replacements_spec(text@, replacements@),
{
    let chars = chars_of(text);
    let v = apply_replacements_chars(chars.as_slice(), replacements);
    string_of(v.as_slice())
}

/// Converts Pandoc-style admonition blocks (`::: {.type} ... :::`) to
/// GitHub-style alerts (`> [!TYPE]`).
pub fn convert_admonitions(text: &str) -> (r: String)
    ensures
        r@ == convert_admonitions_spec(text@),
{
    let chars = chars_of(text);
    let v = convert_admonitions_chars(chars.as_slice());
    string_of(v.as_slice())
}

/// Converts a blockquote whose line starts with a bold admonition keyword
/// (`> **Warning:** ...`) into a GitHub-style alert; text without one is
/// returned byte for byte.
pub fn convert_blockquote_admonitions(text: &str) -> (r: String)
    ensures
        r@ == convert_blockquote_admonitions_spec(text@),
        !has_blockquote_admonition(text@) ==> r@ == text@,
{
    let chars = chars_of(text);
    let v = convert_blockquote_admonitions_chars(chars.as_slice());
    string_of(v.as_slice())
}

/// The cleaned form of a description.
pub open spec fn clean_description_spec(text: Seq<char>) -> Seq<char> {
    convert_admonitions_spec(convert_blockquote_admonitions_spec(strip_directives_spec(text)))
}

/// Cleans up Nix-specific formatting directives (`{role}`code`` becomes
/// `code`) and converts admonitions to GitHub-compatible alerts.
pub fn clean_description(text: &str) -> (r: String)
    ensures
        r@ == clean_description_spec(text@),
{
    let chars = chars_of(text);
    let v = clean_description_chars(chars.as_slice());
    string_of(v.as_slice())
}

/// `clean_description` over characters.
pub fn clean_description_chars(text: &[char]) -> (r: Vec<char>)
    ensures
        r@ == clean_description_spec(text@),
{
    let a = strip_directives(text);
    let b = convert_blockquote_admonitions_chars(a.as_slice());
    convert_admonitions_chars(b.as_slice())
}

// ---------------------------------------------------------------------
// Where the documented tree comes from
// ---------------------------------------------------------------------

/// What git makes of a `--path` value read as a URL.
#[derive(Debug, Clone, Copy, PartialEq, Eq)]
pub enum GitUrlKind {
    /// A local file path or `file://` URL.
    File,
    /// A URL naming a remote repository (https, ssh, git, scp-like).
    Remote,
}

/// The kind of URL `gix::url::parse` reads `path` as; `None` when it does
/// not parse (named, not described: it is gix's URL grammar).
pub uninterp spec fn git_url_kind_of(path: Seq<char>) -> Option<GitUrlKind>;

/// `gix::url::parse(path)`, taken by its scheme: `File` for the file
/// scheme, `Remote` for any other, `None` for a parse error.
#[verifier::external_body]
fn git_url_kind(path: &str) -> (r: Option<GitUrlKind>)
    ensures
        r == git_url_kind_of(path@),
{
    match gix::url::parse(path.as_bytes()) {
        Ok(url) => match url.scheme {
            gix::url::Scheme::File => Some(GitUrlKind::File),
            _ => Some(GitUrlKind::Remote),
        },
        Err(_) => None,
    }
}

/// How a `--path` value is to be read.
#[derive(Debug, Clone, Copy, PartialEq, Eq)]
pub enum PathSource {
    /// An existing local path, scanned as it is.
    Local,
    /// A local path that does not exist (never handed to git).
    MissingLocal,
    /// Neither an existing path nor a URL git can read.
    InvalidUrl,
    /// A repository to clone.
    Remote,
}

/// The reading of a `--path` value: an existing path is local; a missing
/// one that is absolute, or that git reads as a file URL, is a missing
/// local path; otherwise it is an invalid URL when git cannot read it, and
/// a repository to clone when it can.
pub open spec fn classify_path_spec(exists: bool, absolute: bool, kind: Option<GitUrlKind>) -> PathSource {
    if exists {
        PathSource::Local
    } else if absolute || kind == Some(GitUrlKind::File) {
        PathSource::MissingLocal
    } else if kind is None {
        PathSource::InvalidUrl
    } else {
        PathSource::Remote
    }
}

/// Decides how `path` is read, given whether it exists on disk and whether
/// it is absolute.
pub fn classify_path(path: &str, exists: bool, absolute: bool) -> (r: PathSource)
    ensures
        r == classify_path_spec(exists, absolute, git_url_kind_of(path@)),
{
    if exists {
        return PathSource::Local;
    }
    let kind = git_url_kind(path);
    if absolute {
        return PathSource::MissingLocal;
    }
    match kind {
        Some(GitUrlKind::File) => PathSource::MissingLocal,
        Some(GitUrlKind::Remote) => PathSource::Remote,
        None => PathSource::InvalidUrl,
    }
}

// ---------------------------------------------------------------------
// Directory traversal decisions
// ---------------------------------------------------------------------

/// A directory entry is hidden when its own name starts with a dot.
pub open spec fn is_hidden_name(file_name: Seq<char>) -> bool {
    file_name.len() > 0 && file_name[0] == '.'
}

/// Whether the directory walker should yield and descend into an entry:
/// the root (depth 0) always, anything else only when its name is not
/// hidden.
pub fn should_traverse_entry(depth: usize, file_name: &str) -> (r: bool)
    ensures
        r == (depth == 0 || !is_hidden_name(file_name@)),
{
    if depth == 0 {
        return true;
    }
    let chars = chars_of(file_name);
    !(chars.len() > 0 && chars[0] == '.')
}

/// Whether a walked entry is a file to process: not under an excluded
/// path, not hidden, a regular file, and named `*.nix` (an extension, so
/// the bare name `.nix` does not count).
pub fn should_process_file(file_name: &str, is_file: bool, excluded: bool) -> (r: bool)
    ensures
        r == (!excluded && !is_hidden_name(file_name@) && is_file && ends_with(
            file_name@,
            seq!['.', 'n', 'i', 'x'],
        )),
{
    if excluded {
        return false;
    }
    let chars = chars_of(file_name);
    let hidden = chars.len() > 0 && chars[0] == '.';
    let ext: Vec<char> = vec!['.', 'n', 'i', 'x'];
    assert(ext@ =~= seq!['.', 'n', 'i', 'x']);
    !hidden && is_file && has_suffix(chars.as_slice(), ext.as_slice())
}

} // verus!
