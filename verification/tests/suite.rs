use std::collections::HashMap;

use nix_options_doc::parser::process_nix_source;
use nix_options_doc::utils;
use nix_options_doc::{merge_options, OptionDoc};

/// Collects the options of the given files the way a directory scan does:
/// each file in path order, then entries of the same name merged.
fn collect(
    files: &[(&str, String)],
    replacements: &HashMap<String, String>,
) -> Result<Vec<OptionDoc>, Box<dyn std::error::Error + Send + Sync>> {
    let mut sorted: Vec<&(&str, String)> = files.iter().collect();
    sorted.sort_by(|a, b| a.0.cmp(b.0));
    let reps: Vec<(String, String)> =
        replacements.iter().map(|(k, v)| (k.clone(), v.clone())).collect();
    let mut all = Vec::new();
    for (name, content) in sorted {
        all.extend(process_nix_source(content, name, &reps));
    }
    Ok(merge_options(&all))
}


fn cli_from(args: &[&str]) -> nix_options_doc::Cli {
    let mut strip_prefix = None;
    let mut i = 1;
    while i < args.len() {
        if args[i] == "--strip-prefix" {
            if i + 1 < args.len() && !args[i + 1].starts_with("--") {
                strip_prefix = Some(args[i + 1].to_string());
                i += 1;
            } else {
                strip_prefix = Some("options.".to_string());
            }
        }
        i += 1;
    }
    nix_options_doc::Cli {
        generate_completions: None,
        io: nix_options_doc::IoOptions {
            path: ".".to_string(),
            out: "stdout".to_string(),
            format: nix_options_doc::OutputFormat::Markdown,
            sort: false,
            out_prefix: None,
        },
        git: nix_options_doc::GitOptions { branch: None, depth: 1 },
        filter: nix_options_doc::FilterOptions {
            filter_by_prefix: None,
            filter_by_type: None,
            search: None,
            has_default: false,
            has_description: false,
            replace: Vec::new(),
            strip_prefix,
        },
        util: nix_options_doc::UtilityOptions {
            exclude_dir: Vec::new(),
            follow_symlinks: false,
            progress: false,
        },
    }
}



/// Tests that a simple option is parsed correctly from a Nix file.
#[test]
fn tests_test_basic_option_parsing() -> Result<(), Box<dyn std::error::Error + Send + Sync>> {
    let mut files: Vec<(&str, String)> = Vec::new();
    let content = r#"
{
  options.test.simple = {
    enable = lib.mkEnableOption "Simple test option";
  };
}
"#;
    files.push(("flake.nix", String::from(content)));

    let options = collect(&files, &HashMap::new())?;

    assert_eq!(options.len(), 1);
    assert_eq!(options[0].name, "options.test.simple.enable");
    assert_eq!(options[0].nix_type.to_string(), "boolean");
    assert_eq!(
        options[0].description,
        Some("Whether to enable Simple test option.".to_string())
    );
    assert_eq!(options[0].default_value, Some("false".to_string()));

    Ok(())
}



/// Tests parsing of complex options including nested attributes.
#[test]
fn tests_test_complex_option_parsing() -> Result<(), Box<dyn std::error::Error + Send + Sync>> {
    let mut files: Vec<(&str, String)> = Vec::new();
    let content = r#"
{
  options.test.complex = {
    stringOpt = lib.mkOption {
      type = lib.types.str;
      default = "test";
      description = "A string option";
    };

    nested.value = lib.mkOption {
      type = lib.types.int;
      description = "A nested number option";
    };
  };
}
"#;
    files.push(("test.nix", String::from(content)));

    let options = collect(&files, &HashMap::new())?;

    assert_eq!(options.len(), 2);

    let string_opt = options
        .iter()
        .find(|o| o.name == "options.test.complex.stringOpt")
        .unwrap();
    assert_eq!(string_opt.nix_type.to_string(), "string");
    assert_eq!(string_opt.description, Some("A string option".to_string()));
    assert_eq!(string_opt.default_value, Some("\"test\"".to_string()));

    let nested_opt = options
        .iter()
        .find(|o| o.name == "options.test.complex.nested.value")
        .unwrap();
    assert_eq!(nested_opt.nix_type.to_string(), "signed integer");
    assert_eq!(
        nested_opt.description,
        Some("A nested number option".to_string())
    );
    assert_eq!(nested_opt.default_value, None);

    Ok(())
}



/// Tests the parsing of multi-line description in option definition.
#[test]
fn tests_test_multiline_description_parsing() -> Result<(), Box<dyn std::error::Error + Send + Sync>> {
    let mut files: Vec<(&str, String)> = Vec::new();
    let content = r#"
{
  options.test.complex = {
    packages = lib.mkOption {
      type = with lib.types; listOf str;
      description = ''
        A multi-line description
        with multiple lines
        and some indentation.
      '';
      default = [];
    };
    values = lib.mkOption {
      type = with lib.types; listOf int;
      description = ''
        A multi-line description
        with multiple lines.

        And some more text across
        another paragraph.
      '';
      default = [1, 2];
    };
  };
}
"#;
    files.push(("flake.nix", String::from(content)));

    let options = collect(&files, &HashMap::new())?;

    assert_eq!(options.len(), 2);

    // Sort the options by name to ensure consistent order
    let mut sorted_options = options.clone();
    sorted_options.sort_by(|a, b| a.name.cmp(&b.name));

    assert_eq!(sorted_options[0].name, "options.test.complex.packages");
    assert_eq!(sorted_options[1].name, "options.test.complex.values");

    assert_eq!(sorted_options[0].nix_type.to_string(), "list of string");
    assert_eq!(
        sorted_options[1].nix_type.to_string(),
        "list of signed integer"
    );

    // Check multi-line description - trim any extra whitespace at beginning/end
    let desc0 = sorted_options[0]
        .description
        .as_ref()
        .map(|s| s.trim().to_string());
    let desc1 = sorted_options[1]
        .description
        .as_ref()
        .map(|s| s.trim().to_string());

    assert_eq!(
        desc0,
        Some("A multi-line description\nwith multiple lines\nand some indentation.".to_string())
    );
    assert_eq!(
        desc1,
        Some("A multi-line description\nwith multiple lines.\n\nAnd some more text across\nanother paragraph.".to_string())
    );
    assert_eq!(sorted_options[0].default_value, Some("[]".to_string()));
    assert_eq!(sorted_options[1].default_value, Some("[1, 2]".to_string()));

    Ok(())
}



/// Tests that duplicate option definitions are handled correctly.
#[test]
fn tests_test_duplicate_prevention() -> Result<(), Box<dyn std::error::Error + Send + Sync>> {
    let mut files: Vec<(&str, String)> = Vec::new();
    let content = r#"
{
  options.test = {
    enable = lib.mkEnableOption "Test option";
    enable = lib.mkEnableOption "Duplicate test option";
  };
}
"#;
    files.push(("test.nix", String::from(content)));

    let options = collect(&files, &HashMap::new())?;

    let enable_options: Vec<_> = options
        .iter()
        .filter(|o| o.name == "options.test.enable")
        .collect();

    assert_eq!(
        enable_options.len(),
        1,
        "Should only have one enable option"
    );

    Ok(())
}



/// Tests variable replacement functionality in option names and descriptions.
#[test]
fn tests_test_variable_replacements() -> Result<(), Box<dyn std::error::Error + Send + Sync>> {
    let mut files: Vec<(&str, String)> = Vec::new();

    // Create a file with variable interpolation
    let content = r#"
{
  options.${namespace}.hardware.bluetooth = {
    enable = lib.mkEnableOption "Enable ${namespace} bluetooth";
  };
  
  options.${system}.networking = {
    enable = lib.mkEnableOption "Enable networking for ${system}";
  };
}
"#;
    files.push(("config.nix", String::from(content)));

    // Set up replacements
    let mut replacements = HashMap::new();
    replacements.insert("namespace".to_string(), "snowflake".to_string());
    replacements.insert("system".to_string(), "x86_64-linux".to_string());

    let options = collect(&files, &replacements)?;

    // Check if options contain the replaced values
    let bluetooth_options: Vec<_> = options
        .iter()
        .filter(|o| o.name.contains("bluetooth"))
        .collect();

    let networking_options: Vec<_> = options
        .iter()
        .filter(|o| o.name.contains("networking"))
        .collect();

    if !bluetooth_options.is_empty() {
        let bluetooth_opt = &bluetooth_options[0];
        assert!(bluetooth_opt.name.contains("snowflake"));
        assert!(!bluetooth_opt.name.contains("${namespace}"));

        // Check if description also had replacements
        if let Some(desc) = &bluetooth_opt.description {
            assert!(desc.contains("snowflake"));
            assert!(!desc.contains("${namespace}"));
        }
    }

    if !networking_options.is_empty() {
        let networking_opt = &networking_options[0];
        assert!(networking_opt.name.contains("x86_64-linux"));
        assert!(!networking_opt.name.contains("${system}"));

        // Check if description also had replacements
        if let Some(desc) = &networking_opt.description {
            assert!(desc.contains("x86_64-linux"));
            assert!(!desc.contains("${system}"));
        }
    }

    Ok(())
}

#[test]
fn tests_test_admonition_conversion() {
    let input = r#"
Here is some text.

::: {.important}
This is an important notice.
With multiple lines.
:::

More text here.

::: {.warning}
This is a warning.
:::

::: {.note}
This is a note with code:
```rust
fn main() {
    println!("Hello");
}
```
:::
"#;

    let expected = r#"
Here is some text.

> [!IMPORTANT]  
> This is an important notice.
> With multiple lines.

More text here.

> [!WARNING]  
> This is a warning.

> [!NOTE]  
> This is a note with code:
> ```rust
> fn main() {
>     println!("Hello");
> }
> ```
"#;

    assert_eq!(utils::convert_admonitions(input), expected);
}

#[test]
fn tests_test_clean_description_with_admonitions() {
    let input = r#"
This is a description with {code}`example` and an admonition:

::: {.important}
Critical security information.
:::
"#;

    let expected = r#"
This is a description with `example` and an admonition:

> [!IMPORTANT]  
> Critical security information.
"#;

    assert_eq!(utils::clean_description(input), expected);
}



/// Tests that common type combinators are formatted into human-readable
/// descriptions instead of being dumped as raw source text.
#[test]
fn tests_test_type_formatter_combinators() -> Result<(), Box<dyn std::error::Error + Send + Sync>> {
    let mut files: Vec<(&str, String)> = Vec::new();
    let content = r#"
{
  options.test = {
    a = lib.mkOption { type = lib.types.nullOr lib.types.bool; };
    b = lib.mkOption { type = lib.types.listOf lib.types.str; };
    c = lib.mkOption { type = lib.types.attrsOf lib.types.int; };
    d = lib.mkOption { type = lib.types.either lib.types.str lib.types.int; };
    e = lib.mkOption { type = lib.types.enum [ "a" "b" "c" ]; };
    f = lib.mkOption { type = lib.types.functionTo lib.types.str; };
  };
}
"#;
    files.push(("types.nix", String::from(content)));

    let options = collect(&files, &HashMap::new())?;
    let find = |name: &str| {
        options
            .iter()
            .find(|o| o.name == format!("options.test.{name}"))
            .unwrap()
            .nix_type
            .clone()
    };

    assert_eq!(find("a"), "null or boolean");
    assert_eq!(find("b"), "list of string");
    assert_eq!(find("c"), "attribute set of signed integer");
    assert_eq!(find("d"), "string or signed integer");
    assert_eq!(find("e"), "one of \"a\", \"b\", \"c\"");
    assert_eq!(find("f"), "function that evaluates to string");

    Ok(())
}



/// Tests that inline submodules (including behind `attrsOf`/`listOf`) are
/// recursed into so their nested options show up in the output, using a
/// `<name>` placeholder segment for container types.
#[test]
fn tests_test_inline_submodule_recursion() -> Result<(), Box<dyn std::error::Error + Send + Sync>> {
    let mut files: Vec<(&str, String)> = Vec::new();
    let content = r#"
{
  options.test.settings = lib.mkOption {
    type = lib.types.attrsOf (lib.types.submodule {
      options = {
        weight = lib.mkOption {
          type = lib.types.int;
          default = 1;
          description = "The weight.";
        };
      };
    });
    default = { };
    description = "Per-entry settings.";
  };

  options.test.server = lib.mkOption {
    type = lib.types.submodule {
      options = {
        host = lib.mkOption {
          type = lib.types.str;
          description = "The host.";
        };
      };
    };
    description = "Server config.";
  };
}
"#;
    files.push(("submodule.nix", String::from(content)));

    let options = collect(&files, &HashMap::new())?;

    assert!(options
        .iter()
        .any(|o| o.name == "options.test.settings" && o.nix_type == "attribute set of submodule"));
    let weight = options
        .iter()
        .find(|o| o.name == "options.test.settings.<name>.weight")
        .expect("nested attrsOf-submodule option should be present");
    assert_eq!(weight.nix_type, "signed integer");
    assert_eq!(weight.default_value, Some("1".to_string()));

    // A non-container submodule's nested options are not placed behind
    // a `<name>` placeholder.
    let host = options
        .iter()
        .find(|o| o.name == "options.test.server.host")
        .expect("nested plain-submodule option should be present");
    assert_eq!(host.nix_type, "string");

    Ok(())
}



/// Tests that `mkDefault`/`mkForce`/`mkIf` wrappers around a default value
/// are unwrapped to the guarded value rather than shown as raw source text.
#[test]
fn tests_test_default_wrapper_unwrapping() -> Result<(), Box<dyn std::error::Error + Send + Sync>> {
    let mut files: Vec<(&str, String)> = Vec::new();
    let content = r#"
{
  options.test = {
    a = lib.mkOption {
      type = lib.types.str;
      default = lib.mkDefault "hello";
    };
    b = lib.mkOption {
      type = lib.types.int;
      default = lib.mkIf true 8080;
    };
    c = lib.mkOption {
      type = lib.types.int;
      default = lib.mkForce 42;
    };
  };
}
"#;
    files.push(("wrappers.nix", String::from(content)));

    let options = collect(&files, &HashMap::new())?;
    let find = |name: &str| {
        options
            .iter()
            .find(|o| o.name == format!("options.test.{name}"))
            .unwrap()
            .default_value
            .clone()
    };

    assert_eq!(find("a"), Some("\"hello\"".to_string()));
    assert_eq!(find("b"), Some("8080".to_string()));
    assert_eq!(find("c"), Some("42".to_string()));

    Ok(())
}



/// Tests that calls through a locally-aliased binding (`let mkOpt =
/// lib.mkOption; in ...`) are still recognized as `mkOption`.
#[test]
fn tests_test_alias_resolution() -> Result<(), Box<dyn std::error::Error + Send + Sync>> {
    let mut files: Vec<(&str, String)> = Vec::new();
    let content = r#"
{ lib, ... }:
let
  mkOpt = lib.mkOption;
in
{
  options.test.aliased = mkOpt {
    type = lib.types.bool;
    default = false;
    description = "An option declared through an alias.";
  };
}
"#;
    files.push(("alias.nix", String::from(content)));

    let options = collect(&files, &HashMap::new())?;
    let aliased = options
        .iter()
        .find(|o| o.name == "options.test.aliased")
        .expect("option declared via aliased mkOption should be recognized");

    assert_eq!(aliased.nix_type, "boolean");
    assert_eq!(aliased.default_value, Some("false".to_string()));

    Ok(())
}



/// Tests `mkPackageOption`, both with and without overrides.
#[test]
fn tests_test_mk_package_option() -> Result<(), Box<dyn std::error::Error + Send + Sync>> {
    let mut files: Vec<(&str, String)> = Vec::new();
    let content = r#"
{
  options.test = {
    plain = lib.mkPackageOption pkgs "hello" { };
    withOverrides = lib.mkPackageOption pkgs "flask" {
      default = [ "python3Packages" "flask" ];
      example = "pkgs.python3Packages.flask";
    };
  };
}
"#;
    files.push(("package.nix", String::from(content)));

    let options = collect(&files, &HashMap::new())?;

    let plain = options
        .iter()
        .find(|o| o.name == "options.test.plain")
        .unwrap();
    assert_eq!(plain.nix_type, "package");
    assert_eq!(plain.default_value, Some("pkgs.hello".to_string()));
    assert_eq!(plain.description, Some("The hello package to use.".to_string()));

    let overridden = options
        .iter()
        .find(|o| o.name == "options.test.withOverrides")
        .unwrap();
    assert_eq!(
        overridden.default_value,
        Some("pkgs.python3Packages.flask".to_string())
    );

    Ok(())
}



/// Tests that an option declared more than once (e.g. across separate
/// module fragments) keeps all of its declarations instead of silently
/// dropping every one after the first.
#[test]
fn tests_test_multiple_declarations_are_merged() -> Result<(), Box<dyn std::error::Error + Send + Sync>>
{
    let mut files: Vec<(&str, String)> = Vec::new();
    files.push(("a.nix", String::from(r#"
{
  options.test.shared = lib.mkOption {
    type = lib.types.bool;
    default = false;
  };
}
"#,
    )));
    files.push(("b.nix", String::from(r#"
{
  options.test.shared = lib.mkOption {
    type = lib.types.bool;
    default = false;
  };
}
"#,
    )));

    let options = collect(&files, &HashMap::new())?;
    let shared: Vec<_> = options
        .iter()
        .filter(|o| o.name == "options.test.shared")
        .collect();

    assert_eq!(shared.len(), 1, "should merge into a single entry");
    assert_eq!(shared[0].declarations.len(), 2, "should keep both declarations");

    let files: std::collections::HashSet<_> = shared[0]
        .declarations
        .iter()
        .map(|d| d.file_path.as_str())
        .collect();
    assert!(files.contains("a.nix"));
    assert!(files.contains("b.nix"));

    Ok(())
}



#[test]
fn tests_test_top_level_with_lib() -> Result<(), Box<dyn std::error::Error + Send + Sync>> {
    let mut files: Vec<(&str, String)> = Vec::new();
    let content = r#"
{ config, lib, pkgs, ... }:
with lib;
{
  options.foo = {
    enable = mkEnableOption "foo";
    bar = mkOption {
      type = with types; nullOr (listOf str);
      default = null;
      description = "A list of strings, or null.";
    };
    pkg = mkPackageOption pkgs "foo" { };
  };
}
"#;
    files.push(("module.nix", String::from(content)));

    let options = collect(&files, &HashMap::new())?;

    let enable = options
        .iter()
        .find(|o| o.name == "options.foo.enable")
        .expect("mkEnableOption under top-level `with lib;` should be found");
    assert_eq!(enable.nix_type, "boolean");

    let bar = options
        .iter()
        .find(|o| o.name == "options.foo.bar")
        .expect("mkOption with a nested `with types;` type should be found");
    assert_eq!(bar.nix_type, "null or list of string");

    let pkg = options
        .iter()
        .find(|o| o.name == "options.foo.pkg")
        .expect("mkPackageOption under top-level `with lib;` should be found");
    assert_eq!(pkg.nix_type, "package");

    Ok(())
}



/// Tests that options declared underneath `mkIf`/`mkMerge` record the
/// guarding condition(s) on their declaration, including nested `mkIf`s
/// combining with `&&`, while options declared outside any `mkIf` (even
/// alongside one inside the same `mkMerge` list) get no condition at all.
#[test]
fn tests_test_mkif_condition_tracking() -> Result<(), Box<dyn std::error::Error + Send + Sync>> {
    let mut files: Vec<(&str, String)> = Vec::new();
    let content = r#"
{
  options.test = lib.mkMerge [
    (lib.mkIf cfg.enable {
      guarded = lib.mkOption {
        type = lib.types.bool;
        default = false;
      };
    })
    (lib.mkIf cfg.enable (lib.mkIf cfg.extraFeature {
      doublyGuarded = lib.mkOption {
        type = lib.types.bool;
        default = false;
      };
    }))
    {
      unguarded = lib.mkOption {
        type = lib.types.bool;
        default = false;
      };
    }
  ];
}
"#;
    files.push(("conditional.nix", String::from(content)));

    let options = collect(&files, &HashMap::new())?;
    let find = |name: &str| {
        options
            .iter()
            .find(|o| o.name == format!("options.test.{name}"))
            .unwrap_or_else(|| panic!("option {name} should be found"))
            .declarations[0]
            .condition
            .clone()
    };

    assert_eq!(find("guarded"), Some("cfg.enable".to_string()));
    assert_eq!(
        find("doublyGuarded"),
        Some("cfg.enable && cfg.extraFeature".to_string())
    );
    assert_eq!(find("unguarded"), None);

    Ok(())
}



/// Tests that `mkRenamedOptionModule`/`mkRemovedOptionModule` shims
/// (typically found in `imports`, not `options`) surface as synthetic
/// entries at the old option's name, pointing at the replacement or
/// explaining the removal.
#[test]
fn tests_test_deprecated_options() -> Result<(), Box<dyn std::error::Error + Send + Sync>> {
    let mut files: Vec<(&str, String)> = Vec::new();
    let content = r#"
{
  imports = [
    (lib.mkRenamedOptionModule [ "services" "oldName" ] [ "services" "newName" ])
    (lib.mkRemovedOptionModule [ "services" "goneName" ] "Use services.newName instead.")
    (lib.mkRemovedOptionModule [ "services" "silentlyGone" ] "")
  ];
}
"#;
    files.push(("deprecations.nix", String::from(content)));

    let options = collect(&files, &HashMap::new())?;

    // The shim's own name is prefixed with "options." to match how real
    // options in the rest of the document are named (from the literal
    // attrset structure, which by convention starts with "options"),
    // even though mkRenamedOptionModule/mkRemovedOptionModule's own
    // arguments are bare config paths.
    let renamed = options
        .iter()
        .find(|o| o.name == "options.services.oldName")
        .expect("renamed option shim should be found");
    assert_eq!(renamed.nix_type, "renamed option");
    assert_eq!(renamed.renamed_to.as_deref(), Some("services.newName"));
    // collect_options alone leaves the mention as plain text - turning
    // it into a link happens in filter_options (see
    // test_renamed_option_link_resolution), since the target's actual
    // anchor depends on whether --strip-prefix is used, which isn't
    // known yet at this point.
    assert!(renamed
        .description
        .as_deref()
        .unwrap()
        .contains("Use `services.newName` instead."));

    let removed = options
        .iter()
        .find(|o| o.name == "options.services.goneName")
        .expect("removed option shim should be found");
    assert_eq!(removed.nix_type, "removed option");
    assert!(removed
        .description
        .as_deref()
        .unwrap()
        .contains("Use services.newName instead."));

    let silently_removed = options
        .iter()
        .find(|o| o.name == "options.services.silentlyGone")
        .expect("removed option shim with an empty message should still be found");
    assert!(silently_removed
        .description
        .as_deref()
        .unwrap()
        .contains("This option has been removed."));

    Ok(())
}



/// Tests that a blockquote written as `> **Warning:** ...` (a common
/// informal convention outside nixpkgs' own Pandoc-based docs tooling)
/// is recognized as an admonition, not left as a plain blockquote.
#[test]
fn tests_test_blockquote_admonition_conversion() {
    let input = "Expose the service to the internet.\n\n> **Warning:** Do *not* enable this without setting up authentication first!\n";

    let expected = "Expose the service to the internet.\n\n> [!WARNING]\n> Do *not* enable this without setting up authentication first!\n";

    assert_eq!(utils::convert_blockquote_admonitions(input), expected);

    // Descriptions with no such blockquote are returned byte-for-byte
    // unchanged (not just semantically equivalent).
    let plain = "Just a normal description.\n";
    assert_eq!(utils::convert_blockquote_admonitions(plain), plain);
}



/// Tests that `freeformType` on a submodule (with or without an explicit
/// `options` attrset alongside it) surfaces as a `<freeform>` placeholder
/// entry, rather than silently dropping the fact that undeclared options
/// are also accepted there.
#[test]
fn tests_test_freeform_type() -> Result<(), Box<dyn std::error::Error + Send + Sync>> {
    let mut files: Vec<(&str, String)> = Vec::new();
    let content = r#"
{
  options.test.settings = lib.mkOption {
    type = lib.types.submodule {
      freeformType = lib.types.attrsOf lib.types.str;
      options = {
        enable = lib.mkEnableOption "the setting";
      };
    };
    default = { };
  };

  options.test.freeformOnly = lib.mkOption {
    type = lib.types.submodule {
      freeformType = lib.types.attrsOf lib.types.int;
    };
    default = { };
  };
}
"#;
    files.push(("freeform.nix", String::from(content)));

    let options = collect(&files, &HashMap::new())?;

    // The explicitly declared option is still found alongside freeformType.
    assert!(options
        .iter()
        .any(|o| o.name == "options.test.settings.enable"));

    let freeform = options
        .iter()
        .find(|o| o.name == "options.test.settings.<freeform>")
        .expect("freeformType alongside explicit options should be surfaced");
    assert_eq!(freeform.nix_type, "attribute set of string");

    let freeform_only = options
        .iter()
        .find(|o| o.name == "options.test.freeformOnly.<freeform>")
        .expect("freeformType with no explicit options attrset should still be surfaced");
    assert_eq!(freeform_only.nix_type, "attribute set of signed integer");

    Ok(())
}



/// Tests that `options.foo = let x = ...; in { ... };` (a local helper
/// binding before the options attrset) is still walked into, instead of
/// silently dropping every option inside it.
#[test]
fn tests_test_let_in_attrset_value() -> Result<(), Box<dyn std::error::Error + Send + Sync>> {
    let mut files: Vec<(&str, String)> = Vec::new();
    let content = r#"
{
  options.test =
    let
      settingsFormat = { };
    in
    {
      enable = lib.mkEnableOption "the test module";
      port = lib.mkOption {
        type = lib.types.port;
        default = 8080;
      };
    };
}
"#;
    files.push(("letin.nix", String::from(content)));

    let options = collect(&files, &HashMap::new())?;

    assert!(options.iter().any(|o| o.name == "options.test.enable"));
    assert!(options.iter().any(|o| o.name == "options.test.port"));

    Ok(())
}



/// Tests that `<option-constructor> // { field = ...; }` (the standard
/// nixpkgs idiom for e.g. an enable option that defaults to true) is
/// parsed as the base option with the override attrset's fields applied
/// on top, rather than being dropped entirely.
#[test]
fn tests_test_attrset_update_override() -> Result<(), Box<dyn std::error::Error + Send + Sync>> {
    let mut files: Vec<(&str, String)> = Vec::new();
    let content = r#"
{
  options.test = {
    assertUnique = lib.mkEnableOption "" // {
      default = true;
    };
    named = lib.mkEnableOption "the named thing" // {
      default = true;
      example = false;
    };
  };
}
"#;
    files.push(("override.nix", String::from(content)));

    let options = collect(&files, &HashMap::new())?;

    let assert_unique = options
        .iter()
        .find(|o| o.name == "options.test.assertUnique")
        .expect("mkEnableOption \"\" // { default = true; } should still be found");
    assert_eq!(assert_unique.default_value, Some("true".to_string()));
    // With no explicit description, falls back to the option's own leaf
    // name instead of nixpkgs' bare "Whether to enable ." text.
    assert_eq!(
        assert_unique.description,
        Some("Whether to enable `assertUnique`.".to_string())
    );

    let named = options
        .iter()
        .find(|o| o.name == "options.test.named")
        .expect("mkEnableOption with a description, overridden, should still be found");
    assert_eq!(named.default_value, Some("true".to_string()));
    assert_eq!(named.example, Some("false".to_string()));
    assert_eq!(
        named.description,
        Some("Whether to enable the named thing.".to_string())
    );

    Ok(())
}



#[test]
fn tests_test_let_bound_submodule_type() -> Result<(), Box<dyn std::error::Error + Send + Sync>> {
    let mut files: Vec<(&str, String)> = Vec::new();
    let content = r#"
{ lib, ... }:
let
  includeModule = lib.types.submodule {
    options = {
      condition = lib.mkOption {
        type = lib.types.nullOr lib.types.str;
        default = null;
      };
      path = lib.mkOption {
        type = lib.types.str;
      };
    };
  };
in
{
  options.programs.git.includes = lib.mkOption {
    type = lib.types.listOf includeModule;
    default = [ ];
  };
}
"#;
    files.push(("letbound.nix", String::from(content)));

    let options = collect(&files, &HashMap::new())?;

    assert!(options
        .iter()
        .any(|o| o.name == "options.programs.git.includes.<name>.condition"));
    assert!(options
        .iter()
        .any(|o| o.name == "options.programs.git.includes.<name>.path"));

    Ok(())
}



#[test]
fn tests_test_renamed_option_link_resolution() -> Result<(), Box<dyn std::error::Error + Send + Sync>> {
    let mut files: Vec<(&str, String)> = Vec::new();
    files.push(("deprecations.nix", String::from(r#"
{
  imports = [
    (lib.mkRenamedOptionModule [ "services" "oldName" ] [ "services" "newName" ])
  ];
}
"#,
    )));

    let options = collect(&files, &HashMap::new())?;

    // Without --strip-prefix, the target keeps its options. prefix, so
    // the link's anchor needs it too.
    let cli = cli_from(&["program"]);
    let filtered = nix_options_doc::filter_options(&options, &cli);
    let renamed = filtered
        .iter()
        .find(|o| o.name == "options.services.oldName")
        .expect("renamed option shim should be found");
    assert!(renamed
        .description
        .as_deref()
        .unwrap()
        .contains("Use [`services.newName`](#options-services-newName) instead."));

    // With --strip-prefix (the default, stripping "options."), the
    // target's own anchor loses that prefix once its name is stripped -
    // the link must follow, not point at the now-nonexistent
    // options-prefixed anchor.
    let cli = cli_from(&["program", "--strip-prefix"]);
    let filtered = nix_options_doc::filter_options(&options, &cli);
    let renamed = filtered
        .iter()
        .find(|o| o.name == "services.oldName")
        .expect("renamed option shim should be found, with options. stripped from its own name");
    assert!(renamed
        .description
        .as_deref()
        .unwrap()
        .contains("Use [`services.newName`](#services-newName) instead."));

    Ok(())
}



#[test]
fn tests_test_recursive_let_bound_submodule_terminates(
) -> Result<(), Box<dyn std::error::Error + Send + Sync>> {
    let mut files: Vec<(&str, String)> = Vec::new();
    let content = r#"
{ lib, ... }:
let
  filterModule = lib.types.submodule {
    options = {
      name = lib.mkOption {
        type = lib.types.str;
        description = "Filter name";
      };
      children = lib.mkOption {
        type = lib.types.listOf filterModule;
        default = [ ];
        description = "Nested child filters";
      };
    };
  };
in
{
  options.services.demo.filters = lib.mkOption {
    type = lib.types.listOf filterModule;
    default = [ ];
    description = "Tree of filters";
  };
}
"#;
    files.push(("recursive.nix", String::from(content)));

    let options = collect(&files, &HashMap::new())?;

    assert_eq!(options.len(), 3);

    let filters = options
        .iter()
        .find(|o| o.name == "options.services.demo.filters")
        .expect("filters option should be present");
    assert_eq!(filters.nix_type, "list of filterModule");

    let name = options
        .iter()
        .find(|o| o.name == "options.services.demo.filters.<name>.name")
        .expect("filters.<name>.name should be present");
    assert_eq!(name.nix_type, "string");

    let children = options
        .iter()
        .find(|o| o.name == "options.services.demo.filters.<name>.children")
        .expect("filters.<name>.children should be present");
    assert_eq!(children.nix_type, "list of filterModule");

    assert!(!options
        .iter()
        .any(|o| o.name.starts_with("options.services.demo.filters.<name>.children.")));

    Ok(())
}



#[test]
fn tests_test_mutually_recursive_submodule_types_terminate(
) -> Result<(), Box<dyn std::error::Error + Send + Sync>> {
    let mut files: Vec<(&str, String)> = Vec::new();
    let content = r#"
{ lib, ... }:
let
  nodeModule = lib.types.submodule {
    options = {
      label = lib.mkOption {
        type = lib.types.str;
        description = "Node label.";
      };
      edge = lib.mkOption {
        type = lib.types.nullOr edgeModule;
        default = null;
        description = "Outgoing edge, if any.";
      };
    };
  };
  edgeModule = lib.types.submodule {
    options = {
      weight = lib.mkOption {
        type = lib.types.int;
        default = 1;
        description = "Edge weight.";
      };
      target = lib.mkOption {
        type = lib.types.nullOr nodeModule;
        default = null;
        description = "Target node.";
      };
    };
  };
in
{
  options.services.demo.root = lib.mkOption {
    type = lib.types.nullOr nodeModule;
    default = null;
    description = "Root of the graph.";
  };
}
"#;
    files.push(("mutual.nix", String::from(content)));

    let options = collect(&files, &HashMap::new())?;

    assert_eq!(options.len(), 5);

    let names = [
        "options.services.demo.root",
        "options.services.demo.root.label",
        "options.services.demo.root.edge",
        "options.services.demo.root.edge.weight",
        "options.services.demo.root.edge.target",
    ];
    for name in names {
        assert!(
            options.iter().any(|o| o.name == name),
            "expected option {name} to be present"
        );
    }

    assert!(!options
        .iter()
        .any(|o| o.name.starts_with("options.services.demo.root.edge.target.")));

    Ok(())
}



#[test]
fn tests_test_cyclic_let_binding_type_reference() -> Result<(), Box<dyn std::error::Error + Send + Sync>>
{
    let mut files: Vec<(&str, String)> = Vec::new();
    let content = r#"
{ lib, ... }:
let
  a = b;
  b = a;
in
{
  options.services.demo.thing = lib.mkOption {
    type = lib.types.listOf a;
    default = [ ];
    description = "Uses a cyclic let-bound type alias.";
  };
}
"#;
    files.push(("cyclic.nix", String::from(content)));

    let options = collect(&files, &HashMap::new())?;

    assert_eq!(options.len(), 1);
    assert_eq!(options[0].name, "options.services.demo.thing");
    assert_eq!(options[0].nix_type, "list of a");

    Ok(())
}



#[test]
fn tests_test_reused_let_bound_submodule_not_flagged_as_cycle(
) -> Result<(), Box<dyn std::error::Error + Send + Sync>> {
    let mut files: Vec<(&str, String)> = Vec::new();
    let content = r#"
{ lib, ... }:
let
  leafModule = lib.types.submodule {
    options = {
      leaf = lib.mkOption {
        type = lib.types.str;
        description = "A leaf value.";
      };
    };
  };
  midModule = lib.types.submodule {
    options = {
      down = lib.mkOption {
        type = lib.types.listOf leafModule;
        default = [ ];
        description = "Nested leaves, one level down.";
      };
    };
  };
in
{
  options.services.demo.reuseA = lib.mkOption {
    type = lib.types.listOf leafModule;
    default = [ ];
    description = "First sibling reusing leafModule.";
  };
  options.services.demo.reuseB = lib.mkOption {
    type = lib.types.listOf leafModule;
    default = [ ];
    description = "Second sibling reusing leafModule.";
  };
  options.services.demo.deep = lib.mkOption {
    type = midModule;
    description = "Deep nesting through midModule.";
  };
}
"#;
    files.push(("reused.nix", String::from(content)));

    let options = collect(&files, &HashMap::new())?;

    assert!(options
        .iter()
        .any(|o| o.name == "options.services.demo.reuseA.<name>.leaf"));
    assert!(options
        .iter()
        .any(|o| o.name == "options.services.demo.reuseB.<name>.leaf"));
    assert!(options
        .iter()
        .any(|o| o.name == "options.services.demo.deep.down.<name>.leaf"));

    Ok(())
}
