use nix_options_doc::generate::markdown::link_destination;
use nix_options_doc::nix_call::{collect_aliases, collect_let_bindings};
use nix_options_doc::parser::{
    process_nix_source, process_nix_source_with_warning, visit_node, ExpansionBudget, LineIndex,
};
use nix_options_doc::syntax::parse_tree;
use nix_options_doc::types::MAX_SUBMODULE_EXPANSION_OPTIONS;
use nix_options_doc::utils::{
    classify_path, PathSource, anchor_slug, inline_code, longest_backtick_run, parse_key_value, sanitize_link_target,
};
use nix_options_doc::{
    filter_options, merge_options, sort_options, Cli, Declaration, FilterOptions, GitOptions,
    IoOptions, OptionDoc, OutputFormat, UtilityOptions,
};

fn decl(file: &str, line: usize) -> Declaration {
    Declaration {
        file_path: file.to_string(),
        line_number: line,
        description: None,
        condition: None,
    }
}

fn opt(name: &str, description: &str, decls: Vec<Declaration>) -> OptionDoc {
    OptionDoc {
        name: name.to_string(),
        description: Some(description.to_string()),
        nix_type: "boolean".to_string(),
        default_value: None,
        example: None,
        renamed_to: None,
        declarations: decls,
    }
}

fn cli() -> Cli {
    Cli {
        generate_completions: None,
        io: IoOptions {
            path: ".".to_string(),
            out: "stdout".to_string(),
            format: OutputFormat::Markdown,
            sort: false,
            out_prefix: None,
        },
        git: GitOptions { branch: None, depth: 1 },
        filter: FilterOptions {
            filter_by_prefix: None,
            filter_by_type: None,
            search: None,
            has_default: false,
            has_description: false,
            replace: Vec::new(),
            strip_prefix: None,
        },
        util: UtilityOptions { exclude_dir: Vec::new(), follow_symlinks: false, progress: false },
    }
}

#[test]
fn merged_names_are_unique_and_none_is_lost() {
    let input = vec![
        opt("a", "first", vec![decl("x.nix", 1)]),
        opt("b", "only", vec![decl("y.nix", 2)]),
        opt("a", "second", vec![decl("z.nix", 3)]),
    ];
    let merged = merge_options(&input);
    let names: Vec<&str> = merged.iter().map(|o| o.name.as_str()).collect();
    assert_eq!(names, vec!["a", "b"]);
}

#[test]
fn merged_entry_keeps_the_first_declaration_primary() {
    let input = vec![
        opt("a", "first", vec![decl("x.nix", 1)]),
        opt("a", "second", vec![decl("z.nix", 3)]),
    ];
    let merged = merge_options(&input);
    assert_eq!(merged.len(), 1);
    assert_eq!(merged[0].description.as_deref(), Some("first"));
    assert_eq!(merged[0].declarations[0].file_path, "x.nix");
    assert_eq!(merged[0].declarations[1].file_path, "z.nix");
    assert_eq!(merged[0].declarations[1].description.as_deref(), Some("second"));
    assert!(merged.iter().all(|o| !o.declarations.is_empty()));
}

#[test]
fn sorting_orders_by_name_and_keeps_every_entry() {
    let input = vec![
        opt("c", "1", vec![decl("c.nix", 1)]),
        opt("a", "2", vec![decl("a.nix", 1)]),
        opt("b", "3", vec![decl("b.nix", 1)]),
        opt("a", "4", vec![decl("a2.nix", 1)]),
    ];
    let sorted = sort_options(&input);
    let names: Vec<&str> = sorted.iter().map(|o| o.name.as_str()).collect();
    assert_eq!(names, vec!["a", "a", "b", "c"]);
    let descriptions: Vec<&str> = sorted.iter().map(|o| o.description.as_deref().unwrap()).collect();
    assert_eq!(descriptions, vec!["2", "4", "3", "1"]);
    assert!(sorted.iter().all(|o| !o.declarations.is_empty()));
}

#[test]
fn filtering_keeps_declarations_of_kept_entries() {
    let input = vec![
        opt("services.a.enable", "x", vec![decl("a.nix", 1)]),
        opt("programs.b.enable", "y", vec![decl("b.nix", 2)]),
    ];
    let mut c = cli();
    c.filter.filter_by_prefix = Some("services".to_string());
    let kept = filter_options(&input, &c);
    assert_eq!(kept.len(), 1);
    assert_eq!(kept[0].declarations.len(), 1);
    assert_eq!(kept[0].declarations[0].file_path, "a.nix");
}

#[test]
fn anchor_slugs_use_only_safe_characters_and_are_fixed_points() {
    let slug = anchor_slug("services.\"my app\".<name>.enable");
    assert_eq!(slug.chars().count(), "services.\"my app\".<name>.enable".chars().count());
    assert!(slug.chars().all(|c| c.is_ascii_alphanumeric() || c == '_' || c == '-'));
    assert_eq!(anchor_slug(&slug), slug);
}

#[test]
fn sanitized_targets_are_safe_and_stable() {
    for target in ["javascript:alert(1)", "modules/a.nix#L3", "https://example.org/x", "data:text/html,hi"] {
        let once = sanitize_link_target(target);
        assert_eq!(sanitize_link_target(&once), once);
        assert!(!once.to_ascii_lowercase().starts_with("javascript:"));
        assert!(!once.to_ascii_lowercase().starts_with("data:"));
    }
    assert_eq!(sanitize_link_target("javascript:alert(1)"), "#");
}

#[test]
fn key_value_pairs_round_trip() {
    for (k, v) in [("namespace", "snowflake"), ("a", ""), ("x", "y=z")] {
        let joined = format!("{k}={v}");
        assert_eq!(parse_key_value(&joined), Ok((k.to_string(), v.to_string())));
    }
}

#[test]
fn an_exhausted_budget_stays_exhausted() {
    let mut budget = ExpansionBudget::new();
    budget.emitted = MAX_SUBMODULE_EXPANSION_OPTIONS;
    assert!(budget.is_exhausted());
    budget.record_option();
    assert!(budget.is_exhausted());
    budget.record_expansion(10);
    assert!(budget.is_exhausted());
    assert!(budget.warn_once("f.nix").is_some());
    assert!(budget.warn_once("f.nix").is_none());
    assert!(budget.is_exhausted());
}

#[test]
fn link_destinations_stay_on_one_line() {
    let d = link_destination("modules/a\nb\r<c>.nix#L1");
    assert!(!d.contains('\n'));
    assert!(!d.contains('\r'));
    assert!(d.starts_with('<') && d.ends_with('>'));
}

#[test]
fn code_span_fence_outruns_the_longest_backtick_run() {
    let content = "a ``` b ` c";
    assert_eq!(longest_backtick_run(content), 3);
    let span = inline_code(content);
    assert!(span.starts_with("````"));
    assert!(!span.starts_with("`````"));
}

#[test]
fn every_file_entry_is_declared_once_in_that_file() {
    let content = r#"{ lib, ... }: {
  imports = [ (lib.mkRenamedOptionModule [ "old" "name" ] [ "new" "name" ]) ];
  options.services.foo = {
    enable = lib.mkEnableOption "foo";
    port = lib.mkOption { type = lib.types.port; default = 80; };
  };
}
"#;
    let options = process_nix_source(content, "modules/foo.nix", &[]);
    assert_eq!(options.len(), 3);
    for o in &options {
        assert_eq!(o.declarations.len(), 1);
        assert_eq!(o.declarations[0].file_path, "modules/foo.nix");
    }
}

#[test]
fn merging_never_repeats_a_declaration() {
    let input = vec![
        opt("a", "same", vec![decl("x.nix", 1)]),
        opt("a", "same", vec![decl("x.nix", 1)]),
        opt("a", "same", vec![decl("y.nix", 4)]),
    ];
    let merged = merge_options(&input);
    assert_eq!(merged.len(), 1);
    let places: Vec<(&str, usize)> = merged[0]
        .declarations
        .iter()
        .map(|d| (d.file_path.as_str(), d.line_number))
        .collect();
    assert_eq!(places, vec![("x.nix", 1), ("y.nix", 4)]);
}

#[test]
fn line_numbers_start_at_one_and_never_decrease() {
    let index = LineIndex::new("a\nb\nc");
    let lines: Vec<usize> = (0..8).map(|i| index.line_number(i)).collect();
    assert_eq!(lines, vec![1, 1, 2, 2, 3, 3, 3, 3]);
}

#[test]
fn truncated_expansion_is_reported_once_per_file() {
    let mut content = String::from("{ lib, ... }:\nlet\n");
    content.push_str(
        "  m0 = lib.types.submodule {\n    options = {\n      leaf = lib.mkOption {\n        type = lib.types.str;\n        description = \"Leaf value.\";\n      };\n    };\n  };\n",
    );
    for i in 1..=9 {
        let prev = i - 1;
        content.push_str(&format!(
            "  m{i} = lib.types.submodule {{\n    options = {{\n      o0 = lib.mkOption {{ type = m{prev}; description = \"o0\"; }};\n      o1 = lib.mkOption {{ type = m{prev}; description = \"o1\"; }};\n      o2 = lib.mkOption {{ type = m{prev}; description = \"o2\"; }};\n    }};\n  }};\n"
        ));
    }
    content.push_str(
        "in\n{\n  options.services.demo.root = lib.mkOption {\n    type = m9;\n    description = \"Root option.\";\n  };\n}\n",
    );
    let (options, warning) = process_nix_source_with_warning(&content, "fanout.nix", &[]);
    assert_eq!(options.len(), process_nix_source(&content, "fanout.nix", &[]).len());
    assert_eq!(
        warning.as_deref(),
        Some("fanout.nix: stopped expanding submodule options after 10000 entries; output for this file is truncated")
    );

    let (_, none) = process_nix_source_with_warning(
        "{ lib, ... }: { options.a = lib.mkEnableOption \"a\"; }",
        "small.nix",
        &[],
    );
    assert_eq!(none, None);
}

#[test]
fn path_values_are_classified_before_any_clone() {
    assert_eq!(classify_path("/anything", true, true), PathSource::Local);
    assert_eq!(classify_path("/definitely/not/here", false, true), PathSource::MissingLocal);
    assert_eq!(classify_path("./nix-options-doc-missing", false, false), PathSource::MissingLocal);
    assert_eq!(classify_path("nix-options-doc-missing", false, false), PathSource::MissingLocal);
    for url in [
        "https://example.invalid/owner/repo.git",
        "git@example.invalid:owner/repo.git",
        "ssh://git@example.invalid/owner/repo.git",
        "git://example.invalid/owner/repo.git",
    ] {
        assert_eq!(classify_path(url, false, false), PathSource::Remote, "{url}");
    }
}

#[test]
fn every_strip_prefix_spelling_strips_the_same_names() {
    let input = vec![
        opt("options.services.foo.enable", "x", vec![decl("a.nix", 1)]),
        opt("options.services.bar.enable", "y", vec![decl("a.nix", 2)]),
        opt("options.options.deep", "z", vec![decl("a.nix", 3)]),
    ];
    let names = |sp: &str| -> Vec<String> {
        let mut c = cli();
        c.filter.strip_prefix = Some(sp.to_string());
        filter_options(&input, &c).into_iter().map(|o| o.name).collect()
    };
    for sp in ["services.foo", "services.foo.", "options.services.foo", "options.services.foo."] {
        assert_eq!(
            names(sp),
            vec!["enable", "options.services.bar.enable", "options.options.deep"],
            "{sp}"
        );
    }
    for sp in ["", ".", "options."] {
        assert_eq!(names(sp), vec!["services.foo.enable", "services.bar.enable", "options.deep"], "{sp}");
    }
    assert_eq!(names("options"), vec!["options.services.foo.enable", "options.services.bar.enable", "deep"]);
}

#[test]
fn walked_entries_are_named_under_their_prefix() {
    let content = r#"{ lib, ... }: {
  foo = {
    enable = lib.mkEnableOption "foo";
    port = lib.mkOption { type = lib.types.port; default = 80; };
    users = lib.mkOption {
      type = lib.types.attrsOf (lib.types.submodule { options.name = lib.mkOption { type = lib.types.str; }; });
    };
  };
}
"#;
    let root = parse_tree(content).unwrap();
    let index = LineIndex::new(content);
    let aliases = collect_aliases(&root);
    let lets = collect_let_bindings(&root);
    let mut budget = ExpansionBudget::new();
    let entries = visit_node(0, &root, "m.nix", "pre", &[], &index, &aliases, &lets, None, &[], &mut budget);
    assert!(!entries.is_empty());
    for e in &entries {
        assert!(e.name == "pre" || e.name.starts_with("pre."), "{}", e.name);
        assert!(e.renamed_to.is_none());
    }
}
