use hook_advisor::config::Config;
use hook_advisor::hooks::dispatch_event;
use hook_advisor::hooks::hook_output_json;
use hook_advisor::hooks::HookInput;
use hook_advisor::hooks::HookOutcome;
use hook_advisor::hooks::HookOutput;
use hook_advisor::hooks::ToolInput;
use hook_advisor::hooks::ToolResponse;

fn npm_config() -> Config {
    Config {
        commands: vec![("npm".to_string(), "bun".to_string())],
        semantic_directories: Vec::new(),
    }
}

fn pre_tool_use(command: &str) -> HookInput {
    HookInput {
        hook_event_name: "PreToolUse".to_string(),
        tool_name: Some("Bash".to_string()),
        tool_input: Some(ToolInput { command: Some(command.to_string()) }),
        tool_response: None,
        prompt: None,
    }
}

#[test]
fn scenario_npm_install_is_rewritten() {
    let outcome = dispatch_event(&npm_config(), &pre_tool_use("npm install --save-dev foo"), true)
        .unwrap();
    match outcome {
        HookOutcome::Decision(d) => {
            assert_eq!(d.replacement_command.as_deref(), Some("bun install --save-dev foo"));
        },
        _ => panic!("expected a decision"),
    }
}

#[test]
fn scenario_internal_spacing_is_preserved() {
    let outcome = dispatch_event(&npm_config(), &pre_tool_use("npm   install"), true).unwrap();
    match outcome {
        HookOutcome::Decision(d) => {
            assert_eq!(d.replacement_command.as_deref(), Some("bun   install"));
        },
        _ => panic!("expected a decision"),
    }
}

#[test]
fn scenario_block_decision_without_replacement_field() {
    let outcome = dispatch_event(&npm_config(), &pre_tool_use("npm install"), false).unwrap();
    match outcome {
        HookOutcome::Decision(d) => {
            assert_eq!(d.decision, "block");
            assert!(d.reason.contains("bun install"));
            assert!(d.replacement_command.is_none());
            let json = hook_output_json(&d);
            assert!(json.starts_with("{\"decision\":\"block\",\"reason\":\""));
            assert!(!json.contains("replacementCommand"));
        },
        _ => panic!("expected a decision"),
    }
}

#[test]
fn scenario_replace_decision_carries_the_replacement() {
    let outcome = dispatch_event(&npm_config(), &pre_tool_use("npm install"), true).unwrap();
    match outcome {
        HookOutcome::Decision(d) => {
            assert_eq!(d.decision, "replace");
            assert_eq!(d.replacement_command.as_deref(), Some("bun install"));
            let json = hook_output_json(&d);
            assert!(json.starts_with("{\"decision\":\"replace\",\"reason\":\""));
            assert!(json.contains("\"replacementCommand\":\"bun install\""));
        },
        _ => panic!("expected a decision"),
    }
}

#[test]
fn unmatched_command_is_allowed_silently() {
    let outcome = dispatch_event(&npm_config(), &pre_tool_use("cargo build"), false).unwrap();
    assert!(matches!(outcome, HookOutcome::Silent));
}

#[test]
fn non_bash_tools_are_ignored() {
    let mut input = pre_tool_use("npm install");
    input.tool_name = Some("Write".to_string());
    let outcome = dispatch_event(&npm_config(), &input, false).unwrap();
    assert!(matches!(outcome, HookOutcome::Silent));
}

#[test]
fn scenario_unknown_event_warns_and_does_nothing() {
    let input = HookInput {
        hook_event_name: "SomethingElse".to_string(),
        tool_name: None,
        tool_input: None,
        tool_response: None,
        prompt: None,
    };
    let outcome = dispatch_event(&npm_config(), &input, false).unwrap();
    match outcome {
        HookOutcome::Warn(w) => assert_eq!(w, "Warning: Unknown hook event type: SomethingElse"),
        _ => panic!("expected a warning"),
    }
}

#[test]
fn prompt_scan_hands_back_the_prompt() {
    let input = HookInput {
        hook_event_name: "UserPromptSubmit".to_string(),
        tool_name: None,
        tool_input: None,
        tool_response: None,
        prompt: Some("put it in project docs".to_string()),
    };
    let outcome = dispatch_event(&npm_config(), &input, false).unwrap();
    match outcome {
        HookOutcome::ScanPrompt(p) => assert_eq!(p, "put it in project docs"),
        _ => panic!("expected a prompt scan"),
    }
}

#[test]
fn prompt_scan_without_prompt_is_silent() {
    let input = HookInput {
        hook_event_name: "UserPromptSubmit".to_string(),
        tool_name: None,
        tool_input: None,
        tool_response: None,
        prompt: None,
    };
    let outcome = dispatch_event(&npm_config(), &input, false).unwrap();
    assert!(matches!(outcome, HookOutcome::Silent));
}

fn post_tool_use(command: Option<&str>, exit_code: Option<i64>) -> HookInput {
    HookInput {
        hook_event_name: "PostToolUse".to_string(),
        tool_name: Some("Bash".to_string()),
        tool_input: command.map(|c| ToolInput { command: Some(c.to_string()) }),
        tool_response: Some(ToolResponse { exit_code }),
        prompt: None,
    }
}

#[test]
fn execution_tracking_line() {
    let outcome = dispatch_event(&npm_config(), &post_tool_use(Some("npm install"), Some(0)), false)
        .unwrap();
    match outcome {
        HookOutcome::Track(line) => {
            assert_eq!(line, "Command execution tracked: npm install (exit_code: 0, success: true)");
        },
        _ => panic!("expected a tracking line"),
    }
}

#[test]
fn missing_exit_code_counts_as_failure() {
    let outcome = dispatch_event(&npm_config(), &post_tool_use(Some("make"), None), false).unwrap();
    match outcome {
        HookOutcome::Track(line) => {
            assert_eq!(line, "Command execution tracked: make (exit_code: -1, success: false)");
        },
        _ => panic!("expected a tracking line"),
    }
}

#[test]
fn tracking_without_command_is_silent() {
    let outcome = dispatch_event(&npm_config(), &post_tool_use(None, Some(0)), false).unwrap();
    assert!(matches!(outcome, HookOutcome::Silent));
}

#[test]
fn test_hook_output_serialization() {
    // Test blocking output
    let output = HookOutput {
        decision: "block".to_string(),
        reason: "Test reason".to_string(),
        replacement_command: Some("test command".to_string()),
    };

    let json = hook_output_json(&output);
    assert!(json.contains("\"decision\":\"block\""));
    assert!(json.contains("\"reason\":\"Test reason\""));
    assert!(json.contains("\"replacementCommand\":\"test command\""));

    // Test allowing output (no replacement)
    let output = HookOutput {
        decision: "allow".to_string(),
        reason: "No mapping found".to_string(),
        replacement_command: None,
    };

    let json = hook_output_json(&output);
    assert!(json.contains("\"decision\":\"allow\""));
    assert!(json.contains("\"reason\":\"No mapping found\""));
    // The replacement field is absent when there is no replacement.
    assert!(!json.contains("replacementCommand"));
}

#[test]
fn json_escaping_of_special_characters() {
    let output = HookOutput {
        decision: "block".to_string(),
        reason: "say \"hi\" \\ twice\n".to_string(),
        replacement_command: None,
    };
    let json = hook_output_json(&output);
    assert!(json.contains("say \\\"hi\\\" \\\\ twice\\n"));
}

#[test]
fn pattern_invalid_propagates_from_dispatch() {
    let config = Config {
        commands: vec![("".to_string(), "x".to_string())],
        semantic_directories: Vec::new(),
    };
    let r = dispatch_event(&config, &pre_tool_use("npm install"), false);
    assert!(matches!(r, Err(hook_advisor::config::ConfigError::PatternInvalid(_))));
}
