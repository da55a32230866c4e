use nix_options_doc::parser::process_nix_source;
use nix_options_doc::utils::anchor_slug;
use nix_options_doc::{
    filter_options, merge_options, Cli, FilterOptions, GitOptions, IoOptions, OptionDoc,
    OutputFormat, UtilityOptions, search_passes,
};

/// Collects the options of the given files the way a directory scan does:
/// in path order, then merged.
fn collect(files: &[(&str, &str)]) -> Vec<OptionDoc> {
    let mut sorted = files.to_vec();
    sorted.sort_by(|a, b| a.0.cmp(b.0));
    let mut all = Vec::new();
    for (name, content) in sorted {
        all.extend(process_nix_source(content, name, &[]));
    }
    merge_options(&all)
}

fn cli(strip_prefix: Option<&str>) -> Cli {
    Cli {
        generate_completions: None,
        io: IoOptions {
            path: ".".to_string(),
            out: "stdout".to_string(),
            format: OutputFormat::Markdown,
            sort: false,
            out_prefix: None,
        },
        git: GitOptions { branch: None, depth: 1 },
        filter: FilterOptions {
            filter_by_prefix: None,
            filter_by_type: None,
            search: None,
            has_default: false,
            has_description: false,
            replace: Vec::new(),
            strip_prefix: strip_prefix.map(|s| s.to_string()),
        },
        util: UtilityOptions { exclude_dir: Vec::new(), follow_symlinks: false, progress: false },
    }
}

fn names(options: &[OptionDoc], strip_prefix: Option<&str>) -> Vec<String> {
    filter_options(options, &cli(strip_prefix)).into_iter().map(|o| o.name).collect()
}

#[test]
fn filter_test_renamed_option_link_resolution() {
    let options = collect(&[(
        "deprecations.nix",
        r#"
{
  imports = [
    (lib.mkRenamedOptionModule [ "services" "oldName" ] [ "services" "newName" ])
  ];
}
"#,
    )]);

    let filtered = filter_options(&options, &cli(None));
    let renamed = filtered
        .iter()
        .find(|o| o.name == "options.services.oldName")
        .expect("renamed option shim should be found");
    assert!(renamed
        .description
        .as_deref()
        .unwrap()
        .contains("Use [`services.newName`](#options-services-newName) instead."));

    let filtered = filter_options(&options, &cli(Some("options.")));
    let renamed = filtered
        .iter()
        .find(|o| o.name == "services.oldName")
        .expect("renamed option shim should be found, with options. stripped from its own name");
    assert!(renamed
        .description
        .as_deref()
        .unwrap()
        .contains("Use [`services.newName`](#services-newName) instead."));
}

#[test]
fn test_strip_prefix_matches_only_at_start() {
    let options = collect(&[(
        "strip.nix",
        r#"
{ lib, ... }:
{
  options.services.foo.options.services.bar = lib.mkOption {
    type = lib.types.str;
    default = "x";
    description = "Interior occurrence, also a leading match.";
  };

  options.programs.options.services.baz = lib.mkOption {
    type = lib.types.bool;
    default = false;
    description = "Interior occurrence only, no leading match.";
  };

  options.services.plain = lib.mkOption {
    type = lib.types.bool;
    default = false;
    description = "Control.";
  };
}
"#,
    )]);
    let names = names(&options, Some("options.services"));
    assert!(names.iter().any(|n| n == "foo.options.services.bar"), "got: {names:?}");
    assert!(names.iter().any(|n| n == "options.programs.options.services.baz"), "got: {names:?}");
    assert!(names.iter().any(|n| n == "plain"), "got: {names:?}");
    assert!(!names.iter().any(|n| n == "foo.bar"));
    assert!(!names.iter().any(|n| n == "options.programs.baz"));
}

#[test]
fn test_strip_prefix_strips_only_one_leading_occurrence() {
    let options = collect(&[(
        "dup.nix",
        r#"
{ lib, ... }:
{
  options.options.foo = lib.mkOption {
    type = lib.types.str;
    default = "y";
    description = "Repeated prefix.";
  };

  options.services = lib.mkOption {
    type = lib.types.bool;
    default = false;
    description = "Name equals the pattern minus its trailing dot.";
  };
}
"#,
    )]);
    let names = names(&options, Some("options."));
    assert!(names.iter().any(|n| n == "options.foo"), "got: {names:?}");
    assert!(names.iter().any(|n| n == "services"), "got: {names:?}");
}

#[test]
fn test_renamed_option_anchor_uses_leading_strip_only() {
    let options = collect(&[(
        "ren.nix",
        r#"
{ lib, ... }:
{
  imports = [
    (lib.mkRenamedOptionModule [ "services" "old" ] [ "services" "foo" "options" "services" "new" ])
  ];

  options.services.foo.options.services.new = lib.mkOption {
    type = lib.types.str;
    default = "z";
    description = "The rename target.";
  };
}
"#,
    )]);
    let filtered = filter_options(&options, &cli(Some("options.services")));
    let target = filtered
        .iter()
        .find(|o| o.name == "foo.options.services.new")
        .expect("rename target should keep its interior `options.services.` occurrence");
    let expected = anchor_slug(&target.name);
    let shim = filtered
        .iter()
        .find(|o| o.name == "old")
        .expect("renamed option shim should be found, with the leading prefix stripped");
    assert!(shim
        .description
        .as_deref()
        .unwrap()
        .contains(&format!("[`services.foo.options.services.new`](#{expected})")));
}

#[test]
fn test_strip_prefix_accepts_bare_prefix() {
    let options = collect(&[(
        "bare.nix",
        r#"
{ lib, ... }:
{
  options.services.foo.enable = lib.mkOption {
    type = lib.types.bool;
    default = false;
    description = "Enable foo.";
  };

  options.services.bar.enable = lib.mkOption {
    type = lib.types.bool;
    default = false;
    description = "Enable bar.";
  };
}
"#,
    )]);
    let bare = names(&options, Some("services.foo"));
    assert!(bare.iter().any(|n| n == "enable"), "got: {bare:?}");
    assert!(bare.iter().any(|n| n == "options.services.bar.enable"), "got: {bare:?}");
    let explicit = names(&options, Some("options.services.foo"));
    assert_eq!(explicit, bare);
    let empty = names(&options, Some(""));
    assert!(empty.iter().any(|n| n == "services.foo.enable"), "got: {empty:?}");
}

#[test]
fn test_strip_prefix_normalizes_trailing_dot() {
    let options = collect(&[(
        "dot.nix",
        r#"
{ lib, ... }:
{
  options.services.foo.enable = lib.mkOption {
    type = lib.types.bool;
    default = false;
    description = "Enable foo.";
  };

  options.services.bar.enable = lib.mkOption {
    type = lib.types.bool;
    default = false;
    description = "Enable bar.";
  };

  options.options.deep = lib.mkOption {
    type = lib.types.bool;
    default = false;
    description = "Literally under options.options.";
  };
}
"#,
    )]);
    for value in ["services.foo", "services.foo.", "options.services.foo", "options.services.foo."] {
        let got = names(&options, Some(value));
        assert!(got.iter().any(|n| n == "enable"), "--strip-prefix {value:?}: {got:?}");
        assert!(
            got.iter().any(|n| n == "options.services.bar.enable"),
            "--strip-prefix {value:?}: {got:?}"
        );
    }
    for value in ["options.", "."] {
        let got = names(&options, Some(value));
        assert!(got.iter().any(|n| n == "services.foo.enable"), "--strip-prefix {value:?}: {got:?}");
    }
    let default_flag = names(&options, Some("options."));
    assert!(default_flag.iter().any(|n| n == "services.foo.enable"));
    let empty = names(&options, Some(""));
    assert_eq!(empty, default_flag);
    let bare_options = names(&options, Some("options"));
    assert!(bare_options.iter().any(|n| n == "deep"), "got: {bare_options:?}");
    assert!(
        bare_options.iter().any(|n| n == "options.services.foo.enable"),
        "got: {bare_options:?}"
    );
}

#[test]
fn test_strip_prefix_trailing_dot_applies_to_renamed_anchor() {
    let options = collect(&[(
        "ren_dot.nix",
        r#"
{ lib, ... }:
{
  imports = [
    (lib.mkRenamedOptionModule [ "services" "foo" "old" ] [ "services" "foo" "new" ])
  ];

  options.services.foo.new = lib.mkOption {
    type = lib.types.str;
    default = "z";
    description = "The rename target.";
  };
}
"#,
    )]);
    let filtered = filter_options(&options, &cli(Some("services.foo.")));
    let target = filtered.iter().find(|o| o.name == "new").expect("target stripped");
    let expected = anchor_slug(&target.name);
    let shim = filtered.iter().find(|o| o.name == "old").expect("shim stripped");
    assert!(shim
        .description
        .as_deref()
        .unwrap()
        .contains(&format!("[`services.foo.new`](#{expected})")));
}

#[test]
fn test_renamed_option_link_survives_backtick_in_target() {
    let options = collect(&[(
        "deprecations.nix",
        r#"
{ lib, ... }:
{
  imports = [
    (lib.mkRenamedOptionModule [ "services" "old" ] [ "services" "new`tick" ])
    (lib.mkRenamedOptionModule [ "services" "plain" ] [ "services" "newName" ])
  ];
}
"#,
    )]);
    let filtered = filter_options(&options, &cli(None));
    let ticked = filtered
        .iter()
        .find(|o| o.name == "options.services.old")
        .expect("renamed option shim (backtick target) should be found");
    let ticked_description = ticked.description.as_deref().expect("description");
    assert!(
        ticked_description.contains("[``services.new`tick``](#options-services-new-tick)"),
        "got: {ticked_description}"
    );
    assert!(!ticked_description.contains("[`services.new`tick`]"));
    assert!(ticked_description.contains("](#"));
    let plain = filtered
        .iter()
        .find(|o| o.name == "options.services.plain")
        .expect("renamed option shim (plain target) should be found");
    assert!(plain
        .description
        .as_deref()
        .unwrap()
        .contains("[`services.newName`](#options-services-newName)"));
    let html = comrak::markdown_to_html(ticked_description, &comrak::Options::default());
    assert!(html.contains("<code>services.new`tick</code>"), "got: {html}");
    assert!(!html.contains("</code>tick"), "got: {html}");
}

#[test]
fn test_renamed_option_link_survives_newline_and_bracket_in_target() {
    let options = collect(&[(
        "deprecations.nix",
        r#"
{ lib, ... }:
{
  imports = [
    (lib.mkRenamedOptionModule [ "services" "b1" ] [ "services" "line\nbreak" ])
    (lib.mkRenamedOptionModule [ "services" "b2" ] [ "services" "br]acket" ])
  ];
}
"#,
    )]);
    let newline_target = options
        .iter()
        .find(|o| o.name == "options.services.b1")
        .expect("b1 shim should be found");
    assert_eq!(newline_target.renamed_to.as_deref(), Some("services.line\nbreak"));

    let filtered = filter_options(&options, &cli(None));
    let b1 = filtered.iter().find(|o| o.name == "options.services.b1").expect("b1");
    let b1_description = b1.description.as_deref().expect("b1 description");
    assert!(b1_description.contains("[`services.line break`](#"), "got: {b1_description}");
    assert!(
        !b1_description.contains("Use `services.line\nbreak`")
            && !b1_description.contains("Use [`services.line\nbreak`")
    );
    let b2 = filtered.iter().find(|o| o.name == "options.services.b2").expect("b2");
    let b2_description = b2.description.as_deref().expect("b2 description");
    let html = comrak::markdown_to_html(b2_description, &comrak::Options::default());
    assert!(html.contains("<code>services.br]acket</code>"), "got: {html}");
}

#[test]
fn search_decision_keeps_on_invalid_pattern_or_any_match() {
    assert!(search_passes(None, false));
    assert!(search_passes(Some(true), false));
    assert!(search_passes(Some(false), true));
    assert!(!search_passes(Some(false), false));
}

#[test]
fn search_filter_matches_names_or_descriptions_and_ignores_invalid_patterns() {
    let options = collect(&[(
        "m.nix",
        r#"{ lib, ... }: {
  options.services.nginx.enable = lib.mkOption { type = lib.types.bool; description = "Web server."; };
  options.services.web.port = lib.mkOption { type = lib.types.port; description = "Port of the nginx proxy."; };
  options.programs.git.enable = lib.mkOption { type = lib.types.bool; description = "Version control."; };
}
"#,
    )]);
    let mut c = cli(None);
    c.filter.search = Some("nginx".to_string());
    let kept: Vec<String> = filter_options(&options, &c).into_iter().map(|o| o.name).collect();
    assert_eq!(kept, vec!["options.services.nginx.enable", "options.services.web.port"]);

    c.filter.search = Some("(".to_string());
    assert_eq!(filter_options(&options, &c).len(), 3);

    c.filter.search = None;
    c.filter.filter_by_type = Some("BOOL".to_string());
    let kept: Vec<String> = filter_options(&options, &c).into_iter().map(|o| o.name).collect();
    assert_eq!(kept, vec!["options.services.nginx.enable", "options.programs.git.enable"]);
}
