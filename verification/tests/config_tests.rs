use hook_advisor::config::find_config_file;
use hook_advisor::config::get_commands_for_project_type;
use hook_advisor::config::load_config_auto;
use hook_advisor::config::needs_migration;
use hook_advisor::config::ConfigError;
use hook_advisor::config::ConfigFileName;
use hook_advisor::parser::parse_config;

#[test]
fn test_config_loading_missing_file() {
    // No configuration file found: the documented default is an empty
    // configuration, not an error.
    let result = load_config_auto(None, "non-existent-file.toml");
    assert!(result.is_ok());
    let config = result.unwrap();
    assert!(config.commands.is_empty());
}

#[test]
fn find_config_prefers_current_name() {
    assert_eq!(find_config_file(true, false).unwrap(), ConfigFileName::Current);
    assert_eq!(find_config_file(true, true).unwrap(), ConfigFileName::Current);
}

#[test]
fn find_config_falls_back_to_legacy_name() {
    assert_eq!(find_config_file(false, true).unwrap(), ConfigFileName::Legacy);
}

#[test]
fn find_config_not_found_names_both_files() {
    let r = find_config_file(false, false);
    match r {
        Err(ConfigError::NotFound(m)) => {
            assert!(m.contains(".advisor.toml"));
            assert!(m.contains(".hook-advisor.toml"));
        },
        _ => panic!("expected NotFound"),
    }
}

#[test]
fn migration_needed_only_when_legacy_alone_exists() {
    assert_eq!(needs_migration(false, true), Some(ConfigFileName::Legacy));
    assert_eq!(needs_migration(true, true), None);
    assert_eq!(needs_migration(true, false), None);
    assert_eq!(needs_migration(false, false), None);
}

#[test]
fn parse_one_mapping() {
    let config = parse_config("[commands]\nnpm = \"bun\"", ".advisor.toml").unwrap();
    assert_eq!(config.commands, vec![("npm".to_string(), "bun".to_string())]);
    assert!(config.semantic_directories.is_empty());
}

#[test]
fn parse_preserves_declaration_order() {
    let text = "[commands]\nnpm = \"bun\"\nyarn = \"bun\"\nnpx = \"bunx\"\n";
    let config = parse_config(text, ".advisor.toml").unwrap();
    let keys: Vec<&str> = config.commands.iter().map(|p| p.0.as_str()).collect();
    assert_eq!(keys, vec!["npm", "yarn", "npx"]);
}

#[test]
fn parse_both_tables_comments_and_blank_lines() {
    let text = "# A configuration\n\n[commands]\nnpm = \"bun\"   # prefer bun\n\n[semantic_directories]\n\"project docs\" = \"~/Documents/my-project\"\ndocs = \"~/Documents\"\n";
    let config = parse_config(text, ".advisor.toml").unwrap();
    assert_eq!(config.commands, vec![("npm".to_string(), "bun".to_string())]);
    assert_eq!(
        config.semantic_directories,
        vec![
            ("project docs".to_string(), "~/Documents/my-project".to_string()),
            ("docs".to_string(), "~/Documents".to_string()),
        ]
    );
}

#[test]
fn parse_decodes_escapes() {
    let text = "[commands]\n\"a b\" = \"x \\\"y\\\" \\\\ \\n\"\n";
    let config = parse_config(text, ".advisor.toml").unwrap();
    assert_eq!(config.commands, vec![("a b".to_string(), "x \"y\" \\ \n".to_string())]);
}

#[test]
fn parse_empty_text_is_empty_config() {
    let config = parse_config("", ".advisor.toml").unwrap();
    assert!(config.commands.is_empty());
    assert!(config.semantic_directories.is_empty());
}

#[test]
fn parse_ignores_unrecognised_tables() {
    let text = "[other]\nx = \"1\"\n[commands]\nnpm = \"bun\"\n";
    let config = parse_config(text, ".advisor.toml").unwrap();
    assert_eq!(config.commands, vec![("npm".to_string(), "bun".to_string())]);
}

#[test]
fn parse_failure_names_the_origin() {
    let r = parse_config("not a valid line", "here.toml");
    match r {
        Err(ConfigError::ParseFailed(m)) => {
            assert_eq!(m, "Failed to parse config file: here.toml");
        },
        _ => panic!("expected ParseFailed"),
    }
}

#[test]
fn parse_rejects_duplicate_keys() {
    let r = parse_config("[commands]\nnpm = \"bun\"\nnpm = \"pnpm\"\n", ".advisor.toml");
    assert!(matches!(r, Err(ConfigError::ParseFailed(_))));
}

#[test]
fn parse_rejects_duplicate_tables() {
    let r = parse_config("[commands]\n[commands]\n", ".advisor.toml");
    assert!(matches!(r, Err(ConfigError::ParseFailed(_))));
}

#[test]
fn parse_rejects_unterminated_value() {
    let r = parse_config("[commands]\nnpm = \"bun\n", ".advisor.toml");
    assert!(matches!(r, Err(ConfigError::ParseFailed(_))));
}

#[test]
fn load_config_auto_parses_found_content() {
    let content = "[commands]\nnpm = \"bun\"".to_string();
    let config = load_config_auto(Some(&content), ".advisor.toml").unwrap();
    assert_eq!(config.commands, vec![("npm".to_string(), "bun".to_string())]);
}

#[test]
fn node_project_commands() {
    let commands = get_commands_for_project_type("Node.js");
    assert_eq!(commands[0], ("npm".to_string(), "bun".to_string()));
    assert!(commands.contains(&("npx".to_string(), "bunx".to_string())));
    // The common safety mappings close the list for every project type.
    let n = commands.len();
    assert_eq!(commands[n - 3], ("curl".to_string(), "curl -L".to_string()));
    assert_eq!(commands[n - 2], ("rm".to_string(), "trash".to_string()));
}

#[test]
fn general_project_commands() {
    let commands = get_commands_for_project_type("General");
    assert!(commands.contains(&("cat".to_string(), "bat".to_string())));
    assert!(commands.contains(&("grep".to_string(), "rg".to_string())));
    assert!(commands.contains(&("rm".to_string(), "trash".to_string())));
}
