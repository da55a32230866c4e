use std::collections::HashMap;

use nix_options_doc::parser::process_nix_source;
use nix_options_doc::{merge_options, OptionDoc};

/// Collects the options of the given files the way a directory scan does:
/// each file in path order, then entries of the same name merged.
fn collect(
    files: &[(&str, String)],
    replacements: &HashMap<String, String>,
) -> Result<Vec<OptionDoc>, Box<dyn std::error::Error + Send + Sync>> {
    let mut sorted: Vec<&(&str, String)> = files.iter().collect();
    sorted.sort_by(|a, b| a.0.cmp(b.0));
    let reps: Vec<(String, String)> =
        replacements.iter().map(|(k, v)| (k.clone(), v.clone())).collect();
    let mut all = Vec::new();
    for (name, content) in sorted {
        all.extend(process_nix_source(content, name, &reps));
    }
    Ok(merge_options(&all))
}




/// Tests that common type combinators are formatted into human-readable
/// descriptions instead of being dumped as raw source text.
#[test]
fn types_test_type_formatter_combinators() -> Result<(), Box<dyn std::error::Error + Send + Sync>> {
    let mut files: Vec<(&str, String)> = Vec::new();
    let content = r#"
{
  options.test = {
    a = lib.mkOption { type = lib.types.nullOr lib.types.bool; };
    b = lib.mkOption { type = lib.types.listOf lib.types.str; };
    c = lib.mkOption { type = lib.types.attrsOf lib.types.int; };
    d = lib.mkOption { type = lib.types.either lib.types.str lib.types.int; };
    e = lib.mkOption { type = lib.types.enum [ "a" "b" "c" ]; };
    f = lib.mkOption { type = lib.types.functionTo lib.types.str; };
  };
}
"#;
    files.push(("types.nix", String::from(content)));

    let options = collect(&files, &HashMap::new())?;
    let find = |name: &str| {
        options
            .iter()
            .find(|o| o.name == format!("options.test.{name}"))
            .unwrap()
            .nix_type
            .clone()
    };

    assert_eq!(find("a"), "null or boolean");
    assert_eq!(find("b"), "list of string");
    assert_eq!(find("c"), "attribute set of signed integer");
    assert_eq!(find("d"), "string or signed integer");
    assert_eq!(find("e"), "one of \"a\", \"b\", \"c\"");
    assert_eq!(find("f"), "function that evaluates to string");

    Ok(())
}
