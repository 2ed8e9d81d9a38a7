use hook_advisor::config::Config;
use hook_advisor::config::ConfigError;
use hook_advisor::hooks::check_command_mappings;

fn config_of(pairs: &[(&str, &str)]) -> Config {
    let mut commands: Vec<(String, String)> = Vec::new();
    for (k, v) in pairs {
        commands.push((k.to_string(), v.to_string()));
    }
    Config { commands, semantic_directories: Vec::new() }
}

#[test]
fn test_command_mapping() {
    let config = config_of(&[("npm", "bun"), ("yarn", "bun"), ("npx", "bunx")]);

    // Test npm mapping
    let result = check_command_mappings(&config, "npm install").unwrap();
    assert!(result.is_some());
    let (suggestion, replacement) = result.unwrap();
    assert!(suggestion.contains("bun install"));
    assert_eq!(replacement, "bun install");

    // Test yarn mapping
    let result = check_command_mappings(&config, "yarn start").unwrap();
    assert!(result.is_some());
    let (suggestion, replacement) = result.unwrap();
    assert!(suggestion.contains("bun start"));
    assert_eq!(replacement, "bun start");
}

#[test]
fn test_command_mapping_edge_cases() {
    let config = config_of(&[("npm", "bun")]);

    // Word boundaries are substring-permissive: "npm" inside "my-npm-tool"
    // matches, because the hyphens are non-word characters.
    let result = check_command_mappings(&config, "my-npm-tool install").unwrap();
    if result.is_some() {
        let (_, replacement) = result.unwrap();
        assert!(replacement.contains("bun"));
    }

    // Test empty command
    let result = check_command_mappings(&config, "").unwrap();
    assert!(result.is_none());

    // Test command with multiple spaces
    let result = check_command_mappings(&config, "npm   install   --verbose").unwrap();
    assert!(result.is_some());
    let (_, replacement) = result.unwrap();
    assert_eq!(replacement, "bun   install   --verbose");
}

#[test]
fn hyphen_is_a_word_boundary() {
    let config = config_of(&[("npm", "bun")]);
    let result = check_command_mappings(&config, "my-npm-tool install").unwrap();
    assert!(result.is_some());
    let (_, replacement) = result.unwrap();
    assert_eq!(replacement, "my-bun-tool install");
}

#[test]
fn no_match_inside_a_word() {
    let config = config_of(&[("npm", "bun")]);
    assert!(check_command_mappings(&config, "npmx install").unwrap().is_none());
    assert!(check_command_mappings(&config, "xnpm install").unwrap().is_none());
    assert!(check_command_mappings(&config, "npm_install").unwrap().is_none());
}

#[test]
fn every_bounded_occurrence_is_rewritten() {
    let config = config_of(&[("npm", "bun")]);
    let result = check_command_mappings(&config, "npm install && npm test && npm run x").unwrap();
    let (_, replacement) = result.unwrap();
    assert_eq!(replacement, "bun install && bun test && bun run x");
}

#[test]
fn surrounding_characters_are_preserved() {
    let config = config_of(&[("rm", "trash")]);
    let result = check_command_mappings(&config, "  rm -rf /tmp/x  ").unwrap();
    let (_, replacement) = result.unwrap();
    assert_eq!(replacement, "  trash -rf /tmp/x  ");
}

#[test]
fn first_matching_rule_wins() {
    let config = config_of(&[("npm", "bun"), ("install", "add")]);
    let (_, replacement) = check_command_mappings(&config, "npm install").unwrap().unwrap();
    assert_eq!(replacement, "bun install");
}

#[test]
fn match_at_string_edges() {
    let config = config_of(&[("npm", "bun")]);
    let (_, replacement) = check_command_mappings(&config, "npm").unwrap().unwrap();
    assert_eq!(replacement, "bun");
}

#[test]
fn multi_word_pattern_matches() {
    let config = config_of(&[("pip install", "uv add")]);
    let (_, replacement) = check_command_mappings(&config, "pip install requests").unwrap().unwrap();
    assert_eq!(replacement, "uv add requests");
}

#[test]
fn empty_pattern_fails_pattern_invalid() {
    let config = config_of(&[("", "bun")]);
    let result = check_command_mappings(&config, "npm install");
    assert!(matches!(result, Err(ConfigError::PatternInvalid(_))));
}

#[test]
fn one_invalid_rule_disables_the_whole_check() {
    // The valid first rule would match, but the malformed second rule
    // disables mapping for the invocation.
    let config = config_of(&[("npm", "bun"), ("", "x")]);
    let result = check_command_mappings(&config, "npm install");
    assert!(matches!(result, Err(ConfigError::PatternInvalid(_))));
}
