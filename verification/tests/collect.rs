use std::collections::HashMap;

use nix_options_doc::parser::process_nix_source;
use nix_options_doc::{merge_options, OptionDoc};

/// Collects the options of the given files the way a directory scan does:
/// each file in path order, then entries of the same name merged.
fn collect(
    files: &[(&str, String)],
    replacements: &HashMap<String, String>,
) -> Result<Vec<OptionDoc>, Box<dyn std::error::Error + Send + Sync>> {
    let mut sorted: Vec<&(&str, String)> = files.iter().collect();
    sorted.sort_by(|a, b| a.0.cmp(b.0));
    let reps: Vec<(String, String)> =
        replacements.iter().map(|(k, v)| (k.clone(), v.clone())).collect();
    let mut all = Vec::new();
    for (name, content) in sorted {
        all.extend(process_nix_source(content, name, &reps));
    }
    Ok(merge_options(&all))
}




/// Tests that duplicate option definitions are handled correctly.
#[test]
fn collect_test_duplicate_prevention() -> Result<(), Box<dyn std::error::Error + Send + Sync>> {
    let mut files: Vec<(&str, String)> = Vec::new();
    let content = r#"
{
  options.test = {
    enable = lib.mkEnableOption "Test option";
    enable = lib.mkEnableOption "Duplicate test option";
  };
}
"#;
    files.push(("test.nix", String::from(content)));

    let options = collect(&files, &HashMap::new())?;

    let enable_options: Vec<_> = options
        .iter()
        .filter(|o| o.name == "options.test.enable")
        .collect();

    assert_eq!(
        enable_options.len(),
        1,
        "Should only have one enable option"
    );

    Ok(())
}



/// Tests that an option declared more than once (e.g. across separate
/// module fragments) keeps all of its declarations instead of silently
/// dropping every one after the first.
#[test]
fn collect_test_multiple_declarations_are_merged() -> Result<(), Box<dyn std::error::Error + Send + Sync>> {
    let mut files: Vec<(&str, String)> = Vec::new();
    files.push(("a.nix", String::from(r#"
{
  options.test.shared = lib.mkOption {
    type = lib.types.bool;
    default = false;
  };
}
"#,
    )));
    files.push(("b.nix", String::from(r#"
{
  options.test.shared = lib.mkOption {
    type = lib.types.bool;
    default = false;
  };
}
"#,
    )));

    let options = collect(&files, &HashMap::new())?;
    let shared: Vec<_> = options
        .iter()
        .filter(|o| o.name == "options.test.shared")
        .collect();

    assert_eq!(shared.len(), 1, "should merge into a single entry");
    assert_eq!(
        shared[0].declarations.len(),
        2,
        "should keep both declarations"
    );

    let files: std::collections::HashSet<_> = shared[0]
        .declarations
        .iter()
        .map(|d| d.file_path.as_str())
        .collect();
    assert!(files.contains("a.nix"));
    assert!(files.contains("b.nix"));

    Ok(())
}



#[test]
fn test_duplicate_option_merge_keeps_first_declaration_primary(
) -> Result<(), Box<dyn std::error::Error + Send + Sync>> {
    let mut files: Vec<(&str, String)> = Vec::new();
    files.push(("a.nix", String::from(r#"
{
  options.test.shared = lib.mkOption {
    type = lib.types.bool;
    default = false;
    description = "Description from a.nix.";
  };
}
"#,
    )));
    files.push(("b.nix", String::from(r#"
{
  options.test.shared = lib.mkOption {
    type = lib.types.bool;
    default = false;
    description = "Description from b.nix.";
  };
}
"#,
    )));

    let options = collect(&files, &HashMap::new())?;
    let shared: Vec<_> = options
        .iter()
        .filter(|o| o.name == "options.test.shared")
        .collect();

    assert_eq!(shared.len(), 1, "should merge into a single entry");
    assert_eq!(
        shared[0].description,
        Some("Description from a.nix.".to_string()),
        "first-found (a.nix, per nix_files.sort()) should win as primary"
    );

    let declarations = &shared[0].declarations;
    assert_eq!(declarations.len(), 2);
    assert!(
        declarations[0].file_path.ends_with("a.nix"),
        "declarations[0] should be a.nix: {:?}",
        declarations[0].file_path
    );
    assert!(
        declarations[1].file_path.ends_with("b.nix"),
        "declarations[1] should be b.nix: {:?}",
        declarations[1].file_path
    );
    assert_eq!(
        declarations[0].description, None,
        "primary declaration's description matches the OptionDoc's own, so \
         it should not be repeated per-declaration"
    );
    assert_eq!(
        declarations[1].description,
        Some("Description from b.nix.".to_string()),
        "the differing declaration should carry its own description"
    );

    Ok(())
}
