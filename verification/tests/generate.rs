use std::collections::HashMap;

use nix_options_doc::generate::html::generate_html;
use nix_options_doc::generate::markdown::generate_markdown;
use nix_options_doc::parser::process_nix_source;
use nix_options_doc::generate::generate_csv;
use nix_options_doc::{generate_doc, merge_options, Declaration, OptionDoc, OutputFormat};

/// Collects the options of the given files the way a directory scan does:
/// each file in path order, then entries of the same name merged.
fn collect(
    files: &[(&str, String)],
    replacements: &HashMap<String, String>,
) -> Result<Vec<OptionDoc>, Box<dyn std::error::Error + Send + Sync>> {
    let mut sorted: Vec<&(&str, String)> = files.iter().collect();
    sorted.sort_by(|a, b| a.0.cmp(b.0));
    let reps: Vec<(String, String)> =
        replacements.iter().map(|(k, v)| (k.clone(), v.clone())).collect();
    let mut all = Vec::new();
    for (name, content) in sorted {
        all.extend(process_nix_source(content, name, &reps));
    }
    Ok(merge_options(&all))
}


/// Extracts the JS array literal from `const <name> = ...;` in the
/// generated page.
fn extract_js_array_literal<'a>(html: &'a str, decl: &str) -> &'a str {
    let start = html.find(decl).expect("declaration should be present") + decl.len();
    let end = start
        + html[start..]
            .find(";\n")
            .expect("declaration should be terminated");
    &html[start..end]
}



#[test]
fn test_html_escapes_raw_html_in_description(
) -> Result<(), Box<dyn std::error::Error + Send + Sync>> {
    let mut files: Vec<(&str, String)> = Vec::new();
    let content = r#"
{
  options.services.evil.enable = lib.mkOption {
    type = lib.types.bool;
    default = false;
    description = ''
      Valid raw HTML: <img src="x" onerror="alert(1)">
      <script>alert('raw-script')</script>

      [click me](javascript:alert(2))

      *markdown* **bold** `code` [link](https://example.com)

      | a | b |
      | --- | --- |
      | 1 | 2 |

      ~~strike~~

      ::: {.note}
      A note.
      :::
    '';
  };
}
"#;
    files.push(("flake.nix", String::from(content)));

    let options = collect(&files, &HashMap::new())?;
    assert_eq!(options.len(), 1);

    let html = generate_html(&options).map_err(|e| e.message())?;

    // Only the rendered description block must be free of live markup;
    // the search index also carries the raw description, but as a JSON
    // string inside a script block, where it is never parsed as HTML.
    let desc_start = html
        .find(r#"<div class="option-desc">"#)
        .expect("option-desc block should be present");
    let desc_end = html[desc_start..]
        .find(r#"<div class="option-meta">"#)
        .map(|i| desc_start + i)
        .expect("option-meta block should follow option-desc");
    let desc_html = &html[desc_start..desc_end];

    // The raw <script> and <img onerror> must not appear live, and the
    // javascript: URL scheme must be filtered out of the rendered href.
    assert!(!desc_html.contains("<script>alert("));
    assert!(!desc_html.contains("<img"));
    assert!(!desc_html.contains("javascript:"));

    // The raw HTML source must still be visible as literal text rather
    // than silently dropped.
    assert!(desc_html.contains("&lt;script&gt;"));
    assert!(html.contains("&lt;script&gt;"));

    // Legitimate Markdown formatting must be preserved.
    assert!(html.contains("<em>markdown</em>"));
    assert!(html.contains("<strong>bold</strong>"));
    assert!(html.contains("<code>code</code>"));
    assert!(html.contains("<table>"));
    assert!(html.contains("<del>strike</del>"));
    assert!(html.contains("markdown-alert"));
    assert!(html.contains(r#"<a href="https://example.com">link</a>"#));

    Ok(())
}



#[test]
fn test_html_escapes_raw_html_in_alternate_declaration_description(
) -> Result<(), Box<dyn std::error::Error + Send + Sync>> {
    let mut files: Vec<(&str, String)> = Vec::new();
    let content_a = r#"
{
  options.services.shared.enable = lib.mkOption {
    type = lib.types.bool;
    default = false;
    description = "Primary description.";
  };
}
"#;
    let content_b = r#"
{
  options.services.shared.enable = lib.mkOption {
    type = lib.types.bool;
    default = false;
    description = ''
      Alternate: <script>alert('alt')</script>
    '';
  };
}
"#;
    files.push(("a.nix", String::from(content_a)));
    files.push(("b.nix", String::from(content_b)));

    let options = collect(&files, &HashMap::new())?;
    assert_eq!(options.len(), 1);
    assert_eq!(options[0].declarations.len(), 2);

    let html = generate_html(&options).map_err(|e| e.message())?;

    // The alt-desc branch is exercised at all.
    assert!(html.contains("alt-desc"));
    // The hostile script from the secondary declaration's description
    // must not appear live, only as escaped literal text.
    assert!(!html.contains("<script>alert('alt')"));
    assert!(html.contains("&lt;script&gt;"));

    Ok(())
}



#[test]
fn test_html_escapes_quotes_in_attributes() -> Result<(), Box<dyn std::error::Error + Send + Sync>>
{
    let mut files: Vec<(&str, String)> = Vec::new();
    let content = r#"
{
  options.services."evil\" onmouseover=alert(1) x=\"".enable = lib.mkOption {
    type = lib.types.bool;
    default = false;
    description = "An option with a hostile quoted attribute name.";
  };
}
"#;
    files.push(("flake.nix", String::from(content)));

    let options = collect(&files, &HashMap::new())?;
    assert_eq!(options.len(), 1);

    let html = generate_html(&options).map_err(|e| e.message())?;

    // The quote must not terminate the id attribute early.
    assert!(!html.contains(r#"id="options-services-""#));

    // Scope the injection check to the `<article ...>` opening tag itself
    // (not the whole document): the hostile text legitimately appears
    // later as visible, harmless text-node content in
    // `<span class="path-prefix">` (encode_text correctly leaves quotes
    // alone there - they don't need escaping outside an attribute value)
    // and inside the JSON-encoded search index string. Only its presence
    // inside the tag's own attribute list would mean the quote broke out
    // of `id="..."` and got tokenized as a real `onmouseover` attribute.
    let article_start = html
        .find("<article")
        .expect("an <article> element should be present");
    let article_tag_end = html[article_start..]
        .find('>')
        .map(|i| article_start + i)
        .expect("the <article> opening tag should be closed");
    let article_open_tag = &html[article_start..=article_tag_end];
    // Check for the live attribute-assignment form specifically (not the
    // bare word "onmouseover"): the sanitized id value legitimately
    // contains "onmouseover" as harmless dash-separated slug text (the
    // hardened `anchor_slug` maps `=` to `-`, so "onmouseover=" can never
    // survive into it), and only "onmouseover=" would mean the quote
    // broke out and a browser tokenized this as a real event handler.
    assert!(!article_open_tag.contains("onmouseover="));

    // Extract the id attribute's value - from `article_open_tag`, not the
    // whole document: searching `html` directly would find the unrelated
    // static `id="theme-toggle"` in the masthead, which appears before
    // any option article and would make this assertion vacuous - and
    // confirm it is restricted to the anchor_slug character set, i.e. it
    // contains no stray quote, space, or `=` that could break out of the
    // attribute.
    let marker = "id=\"";
    let start = article_open_tag
        .find(marker)
        .expect("article's opening tag should have an id attribute")
        + marker.len();
    let end = article_open_tag[start..]
        .find('"')
        .expect("id attribute should be closed")
        + start;
    let id_value = &article_open_tag[start..end];
    assert!(
        id_value
            .chars()
            .all(|c| c.is_ascii_alphanumeric() || matches!(c, '_' | '-')),
        "id attribute value {id_value:?} contains characters outside [A-Za-z0-9_-]"
    );

    Ok(())
}



#[test]
fn test_dangerous_url_scheme_in_declaration_path_is_neutralized(
) -> Result<(), Box<dyn std::error::Error + Send + Sync>> {
    let scheme_payload =
        "javascript:document.querySelector('title').append('-PWNED')<!--/x.nix".to_string();
    let quote_payload = "q\" onmouseover=alert(1)/x.nix".to_string();

    let options = vec![OptionDoc {
        name: "options.test.evil".to_string(),
        description: None,
        nix_type: "boolean".to_string(),
        default_value: Some("false".to_string()),
        example: None,
        renamed_to: None,
        declarations: vec![
            Declaration {
                file_path: scheme_payload.clone(),
                line_number: 1,
                description: None,
                condition: None,
            },
            Declaration {
                file_path: scheme_payload.clone(),
                line_number: 2,
                description: None,
                condition: None,
            },
            Declaration {
                file_path: quote_payload.clone(),
                line_number: 3,
                description: None,
                condition: None,
            },
        ],
    }];

    let html = generate_html(&options).map_err(|e| e.message())?;
    // Covers all three HTML href sites at once: the option-path heading
    // link and the primary "option-decl" link both use the first
    // (primary) declaration, and the "also declared in" list uses the
    // second and third.
    assert!(!html.to_lowercase().contains("href=\"javascript:"));

    // The quote-payload declaration's own `<a>` opening tag: locate it by
    // its distinctive href prefix, then check only that tag rather than
    // the whole document (the raw payload also appears, harmlessly, as
    // link *text* elsewhere).
    let quote_anchor_start = html
        .find(r#"<a href="q"#)
        .expect("the quote-payload declaration's <a> tag should be present");
    let quote_anchor_end = html[quote_anchor_start..]
        .find('>')
        .map(|i| quote_anchor_start + i)
        .expect("the <a> opening tag should be closed");
    let quote_anchor_tag = &html[quote_anchor_start..=quote_anchor_end];
    assert!(quote_anchor_tag.contains("&quot;"));
    // Note: the payload's " onmouseover=alert(1)" text is still present
    // literally in the escaped output - encode_double_quoted_attribute
    // only escapes `&`/`<`/`>`/`"`, not spaces or `=` - and that is fine:
    // once the payload's own `"` is entity-encoded to `&quot;`, that text
    // is inert, sitting entirely inside the href attribute's value, never
    // tokenized as a separate attribute. So `.contains(" onmouseover=")`
    // is not a meaningful check here (it holds on both correctly-escaped
    // *and* broken output). What actually matters is that the tag has
    // exactly the two raw `"` bytes delimiting `href="..."` and no third,
    // leaked one from the payload - which is exactly what would open a
    // real, separate `onmouseover` attribute for the browser to parse.
    assert_eq!(
        quote_anchor_tag.matches('"').count(),
        2,
        "expected exactly the two href-delimiting quotes in {quote_anchor_tag:?}; \
         a third means the payload's own `\"` leaked through unescaped and broke out \
         of the attribute"
    );

    let markdown = generate_markdown(&options);
    // Covers both Markdown link-target sites: the heading (primary
    // declaration) and the "Also declared in" list (second declaration).
    assert!(!markdown.to_lowercase().contains("](javascript:"));

    Ok(())
}



#[test]
fn test_link_target_requires_real_http_authority(
) -> Result<(), Box<dyn std::error::Error + Send + Sync>> {
    let single_slash_payload = "http:/evil.example/x.nix".to_string();
    let real_https_url = "https://github.com/user/repo/blob/main/modules/foo.nix".to_string();

    let options = vec![
        OptionDoc {
            name: "options.test.singleSlash".to_string(),
            description: None,
            nix_type: "boolean".to_string(),
            default_value: Some("false".to_string()),
            example: None,
            renamed_to: None,
            declarations: vec![Declaration {
                file_path: single_slash_payload,
                line_number: 1,
                description: None,
                condition: None,
            }],
        },
        OptionDoc {
            name: "options.test.realHttps".to_string(),
            description: None,
            nix_type: "boolean".to_string(),
            default_value: Some("false".to_string()),
            example: None,
            renamed_to: None,
            declarations: vec![Declaration {
                file_path: real_https_url.clone(),
                line_number: 7,
                description: None,
                condition: None,
            }],
        },
    ];

    let html = generate_html(&options).map_err(|e| e.message())?;
    // The bare-scheme, single-slash form must be neutralized...
    assert!(!html.contains(r#"href="http:/evil.example"#));
    // ...while a genuine https:// URL, as --out-prefix produces, must
    // survive untouched.
    assert!(html.contains(&format!(r#"href="{real_https_url}#L7""#)));

    Ok(())
}



#[test]
fn test_html_search_index_survives_placeholder_text_in_description(
) -> Result<(), Box<dyn std::error::Error + Send + Sync>> {
    let mut files: Vec<(&str, String)> = Vec::new();
    let content = r#"
{
  options.services.testA.enable = lib.mkOption {
    type = lib.types.bool;
    default = false;
    description = "See __CATEGORY_INDEX__ marker here";
  };
  options.services.testB.enable = lib.mkOption {
    type = lib.types.bool;
    default = false;
    description = "Second option description.";
  };
}
"#;
    files.push(("flake.nix", String::from(content)));

    let options = collect(&files, &HashMap::new())?;
    assert_eq!(options.len(), 2);

    let html = generate_html(&options).map_err(|e| e.message())?;

    let literal = extract_js_array_literal(&html, "const searchText = ");
    // Pre-fix, the injected raw JSON in the middle of the literal breaks
    // JSON parsing entirely.
    let entries: Vec<String> =
        serde_json::from_str(literal).expect("searchText literal should be valid JSON");
    assert!(
        entries[0].contains("__CATEGORY_INDEX__"),
        "expected the placeholder text to survive verbatim in {:?}",
        entries[0]
    );

    Ok(())
}



#[test]
fn test_html_search_index_placeholder_text_in_both_markers(
) -> Result<(), Box<dyn std::error::Error + Send + Sync>> {
    let mut files: Vec<(&str, String)> = Vec::new();
    let content = r#"
{
  options.services.test.enable = lib.mkOption {
    type = lib.types.bool;
    default = false;
    description = "Mentions __SEARCH_INDEX__ and __CATEGORY_INDEX__ plus <\/script> and non-ascii é中.";
  };
}
"#;
    files.push(("flake.nix", String::from(content)));

    let options = collect(&files, &HashMap::new())?;
    assert_eq!(options.len(), 1);
    let description = options[0]
        .description
        .clone()
        .expect("description should be present");

    let html = generate_html(&options).map_err(|e| e.message())?;

    let literal = extract_js_array_literal(&html, "const searchText = ");
    let entries: Vec<String> =
        serde_json::from_str(literal).expect("searchText literal should be valid JSON");
    assert!(
        entries[0].contains(&description),
        "expected the full description to round-trip verbatim in {:?}",
        entries[0]
    );

    Ok(())
}



#[test]
fn test_html_search_index_escapes_angle_brackets(
) -> Result<(), Box<dyn std::error::Error + Send + Sync>> {
    let mut files: Vec<(&str, String)> = Vec::new();
    let content = r#"
{
  options.services.test.enable = lib.mkOption {
    type = lib.types.bool;
    default = false;
    description = "Payload: <!--<script>";
  };
}
"#;
    files.push(("flake.nix", String::from(content)));

    let options = collect(&files, &HashMap::new())?;
    assert_eq!(options.len(), 1);

    let html = generate_html(&options).map_err(|e| e.message())?;

    let search_literal = extract_js_array_literal(&html, "const searchText = ");
    let category_literal = extract_js_array_literal(&html, "const categoryIndex = ");

    // (a) The emitted JS literal must contain no raw `<` at all - that is
    // what makes `<!--`, `<script`, and `</script` unrepresentable.
    assert!(
        !search_literal.contains('<'),
        "searchText literal should contain no raw '<': {search_literal:?}"
    );
    assert!(
        !category_literal.contains('<'),
        "categoryIndex literal should contain no raw '<': {category_literal:?}"
    );

    // (b) The escape is data-preserving: the entry still parses and still
    // contains the literal payload text once JSON-decoded.
    let entries: Vec<String> =
        serde_json::from_str(search_literal).expect("searchText literal should be valid JSON");
    assert!(entries[0].contains("<!--<script>"));

    // (c) The dangerous sequence must not appear anywhere in the document
    // at all - i.e. it never reached the tokenizer as raw markup.
    assert!(!html.contains("<!--<script>"));

    Ok(())
}



/// Guards the `.expect()` calls at the `SEARCH_SCRIPT_TEMPLATE` injection
/// site in `generate_html`, which assume each placeholder occurs exactly
/// once so `split_once` cleanly separates the template into head/middle/
/// tail. If a future template edit accidentally duplicated a placeholder,
/// `split_once` would silently treat only the first occurrence as the
/// marker and leave the rest as literal dead text; this test turns that
/// into a loud, immediate test failure instead.
///
/// The injection site also assumes `__SEARCH_INDEX__` appears *before*
/// `__CATEGORY_INDEX__` - it calls `split_once("__SEARCH_INDEX__")` first,
/// then `split_once("__CATEGORY_INDEX__")` on the remainder. A template
/// edit that swapped their order would still pass the uniqueness checks
/// above yet panic at runtime (the second `split_once` would find nothing
/// to split on), so assert the order explicitly too.
#[test]
fn test_search_script_template_placeholders_are_unique() {
    assert_eq!(
        nix_options_doc::generate::html::SEARCH_SCRIPT_TEMPLATE
            .matches("__SEARCH_INDEX__")
            .count(),
        1
    );
    assert_eq!(
        nix_options_doc::generate::html::SEARCH_SCRIPT_TEMPLATE
            .matches("__CATEGORY_INDEX__")
            .count(),
        1
    );

    let search_pos = nix_options_doc::generate::html::SEARCH_SCRIPT_TEMPLATE
        .find("__SEARCH_INDEX__")
        .expect("__SEARCH_INDEX__ should be present");
    let category_pos = nix_options_doc::generate::html::SEARCH_SCRIPT_TEMPLATE
        .find("__CATEGORY_INDEX__")
        .expect("__CATEGORY_INDEX__ should be present");
    assert!(
        search_pos < category_pos,
        "generate_html's split_once chain assumes __SEARCH_INDEX__ precedes \
         __CATEGORY_INDEX__ in the template"
    );
}


#[test]
fn test_generate_doc_empty_options_markdown() -> Result<(), Box<dyn std::error::Error + Send + Sync>>
{
    let output = generate_doc(&[], OutputFormat::Markdown, false).map_err(|e| e.message())?;
    assert!(output.contains("# NixOS Module Options"));
    assert!(output.contains("*Generated with [nix-options-doc]"));
    Ok(())
}

#[test]
fn test_generate_doc_empty_options_csv() -> Result<(), Box<dyn std::error::Error + Send + Sync>> {
    let output = generate_doc(&[], OutputFormat::Csv, false).map_err(|e| e.message())?;
    let mut lines = output.lines();
    assert_eq!(
        lines.next(),
        Some("Option,Type,Default,Example,Description,Declarations")
    );
    let non_empty_lines = output.lines().filter(|line| !line.is_empty()).count();
    assert_eq!(non_empty_lines, 1);
    Ok(())
}

#[test]
fn test_generate_doc_empty_options_html() -> Result<(), Box<dyn std::error::Error + Send + Sync>> {
    let html = generate_doc(&[], OutputFormat::Html, false).map_err(|e| e.message())?;
    assert!(html.contains("<!DOCTYPE html>"));
    assert!(html.contains("<strong>0</strong> options"));
    assert!(!html.contains("__SEARCH_INDEX__"));
    assert!(!html.contains("__CATEGORY_INDEX__"));

    let search_literal = extract_js_array_literal(&html, "const searchText = ");
    let category_literal = extract_js_array_literal(&html, "const categoryIndex = ");
    assert_eq!(search_literal, "[]");
    assert_eq!(category_literal, "[]");

    Ok(())
}

fn sample_option(name: &str, declarations: Vec<Declaration>) -> OptionDoc {
    OptionDoc {
        name: name.to_string(),
        description: Some("Says \"hi\", twice.".to_string()),
        nix_type: "boolean".to_string(),
        default_value: Some("false".to_string()),
        example: None,
        renamed_to: None,
        declarations,
    }
}

fn declaration(file_path: &str, line_number: usize) -> Declaration {
    Declaration {
        file_path: file_path.to_string(),
        line_number,
        description: None,
        condition: None,
    }
}

#[test]
fn csv_rows_follow_the_header_and_quote_where_needed() {
    let options = vec![sample_option(
        "services.a.enable",
        vec![declaration("a.nix", 3), declaration("b.nix", 12)],
    )];
    let output = generate_csv(&options).map_err(|e| e.message()).unwrap();
    assert_eq!(
        output,
        "Option,Type,Default,Example,Description,Declarations\n\
         services.a.enable,boolean,false,,\"Says \"\"hi\"\", twice.\",a.nix:3; b.nix:12\n"
    );
}

#[test]
fn generate_doc_sorts_by_name_when_asked() {
    let options = vec![
        sample_option("b.opt", vec![declaration("b.nix", 1)]),
        sample_option("a.opt", vec![declaration("a.nix", 2)]),
    ];
    let sorted = generate_doc(&options, OutputFormat::Csv, true).map_err(|e| e.message()).unwrap();
    let rows: Vec<&str> = sorted.lines().skip(1).map(|l| l.split(',').next().unwrap()).collect();
    assert_eq!(rows, vec!["a.opt", "b.opt"]);
    let unsorted = generate_doc(&options, OutputFormat::Csv, false).map_err(|e| e.message()).unwrap();
    let rows: Vec<&str> = unsorted.lines().skip(1).map(|l| l.split(',').next().unwrap()).collect();
    assert_eq!(rows, vec!["b.opt", "a.opt"]);
}

#[test]
fn generate_doc_markdown_matches_generate_markdown_after_sorting() {
    let options = vec![
        sample_option("b.opt", vec![declaration("b.nix", 1)]),
        sample_option("a.opt", vec![declaration("a.nix", 2)]),
    ];
    let doc = generate_doc(&options, OutputFormat::Markdown, true).map_err(|e| e.message()).unwrap();
    let reordered = vec![options[1].clone(), options[0].clone()];
    assert_eq!(doc, generate_markdown(&reordered));
}
