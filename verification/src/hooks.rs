//! Event dispatch and command-mapping checks.
//!
//! One inbound event is routed to one of three handlers: command
//! interception (`PreToolUse`), prompt scanning (`UserPromptSubmit`), or
//! execution tracking (`PostToolUse`). The handlers perform no output
//! themselves: each returns a typed outcome, and the outer driver alone
//! serialises it and decides whether to stop further processing.

use vstd::prelude::*;

use crate::cache::PatternCache;
use crate::config::pairs_view;
use crate::config::Config;
use crate::config::ConfigError;
use crate::matcher::has_bounded_match;
use crate::matcher::replace_all_spec;
use crate::text::dec_int;
use crate::text::i64_to_string;
use crate::text::str_eq;

verus! {

broadcast use vstd::string::group_string_axioms;

/// The suggestion message built for a matched rule: it names the pattern,
/// the replacement, and the fully rewritten command.
pub open spec fn suggestion_text(p: Seq<char>, r: Seq<char>, rewritten: Seq<char>) -> Seq<char> {
    "Command '"@ + p + "' is mapped to use '"@ + r + "' instead. Try: "@ + rewritten
}

/// The reason message of a `replace` decision.
pub open spec fn replace_reason_text(rewritten: Seq<char>) -> Seq<char> {
    "Command mapped: using '"@ + rewritten + "' instead"@
}

/// The diagnostic emitted for an unrecognised event tag.
pub open spec fn warn_text(tag: Seq<char>) -> Seq<char> {
    "Warning: Unknown hook event type: "@ + tag
}

/// The execution-tracking line for a command and its exit code.
pub open spec fn track_text(cmd: Seq<char>, exit_code: int) -> Seq<char> {
    "Command execution tracked: "@ + cmd + " (exit_code: "@ + dec_int(exit_code) + ", success: "@
        + (if exit_code == 0 {
        "true"@
    } else {
        "false"@
    }) + ")"@
}

/// Every rule's pattern is nonempty, so each can be compiled into a
/// word-bounded matcher.
pub open spec fn all_patterns_valid(rules: Seq<(Seq<char>, Seq<char>)>) -> bool {
    forall|k: int| 0 <= k < rules.len() ==> (#[trigger] rules[k]).0.len() > 0
}

/// First-match evaluation of the rules from index `k` on: the suggestion and
/// the rewritten command of the first rule whose pattern has a bounded
/// occurrence in `cmd`, or nothing when no rule from `k` on matches.
pub open spec fn match_from(rules: Seq<(Seq<char>, Seq<char>)>, cmd: Seq<char>, k: int) -> Option<
    (Seq<char>, Seq<char>),
>
    decreases rules.len() - k,
{
    if k < 0 || k >= rules.len() {
        None
    } else if has_bounded_match(cmd, rules[k].0) {
        let rewritten = replace_all_spec(cmd, rules[k].0, rules[k].1);
        Some((suggestion_text(rules[k].0, rules[k].1, rewritten), rewritten))
    } else {
        match_from(rules, cmd, k + 1)
    }
}

/// What a command-mapping check owes: failure exactly when some rule's
/// pattern is invalid — a single malformed rule disables mapping for the
/// whole invocation — and otherwise the first matching rule's result in
/// declaration order.
pub open spec fn check_spec(rules: Seq<(Seq<char>, Seq<char>)>, cmd: Seq<char>) -> Result<
    Option<(Seq<char>, Seq<char>)>,
    (),
> {
    if !all_patterns_valid(rules) {
        Err(())
    } else {
        Ok(match_from(rules, cmd, 0))
    }
}

proof fn lemma_match_from_hit(rules: Seq<(Seq<char>, Seq<char>)>, cmd: Seq<char>, i: int, k: int)
    requires
        0 <= i <= k < rules.len(),
        has_bounded_match(cmd, rules[k].0),
    ensures
        match_from(rules, cmd, i) is Some,
        (forall|j: int| i <= j < k ==> !has_bounded_match(cmd, (#[trigger] rules[j]).0))
            ==> match_from(rules, cmd, i) == Some(
            (
                suggestion_text(rules[k].0, rules[k].1, replace_all_spec(cmd, rules[k].0, rules[k].1)),
                replace_all_spec(cmd, rules[k].0, rules[k].1),
            ),
        ),
    decreases k - i,
{
    if i < k && !has_bounded_match(cmd, rules[i].0) {
        lemma_match_from_hit(rules, cmd, i + 1, k);
    }
}

/// Every command holding a bounded occurrence of some valid rule's pattern
/// is matched: the check yields a suggestion, and when no earlier rule also
/// matches, it is exactly the occurring rule's suggestion and its rewrite
/// of the command.
pub proof fn lemma_bounded_occurrence_yields_match(
    rules: Seq<(Seq<char>, Seq<char>)>,
    cmd: Seq<char>,
    k: int,
)
    requires
        all_patterns_valid(rules),
        0 <= k < rules.len(),
        has_bounded_match(cmd, rules[k].0),
    ensures
        check_spec(rules, cmd) matches Ok(m) && m is Some,
        (forall|j: int| 0 <= j < k ==> !has_bounded_match(cmd, (#[trigger] rules[j]).0))
            ==> check_spec(rules, cmd) == Ok::<Option<(Seq<char>, Seq<char>)>, ()>(
            Some(
                (
                    suggestion_text(
                        rules[k].0,
                        rules[k].1,
                        replace_all_spec(cmd, rules[k].0, rules[k].1),
                    ),
                    replace_all_spec(cmd, rules[k].0, rules[k].1),
                ),
            ),
        ),
{
    lemma_match_from_hit(rules, cmd, 0, k);
}

/// Builds the suggestion message for a matched rule.
fn build_suggestion(p: &str, r: &str, rewritten: &str) -> (s: String)
    ensures
        s@ == suggestion_text(p@, r@, rewritten@),
{
    let mut s = String::from_str("Command '");
    s.append(p);
    s.append("' is mapped to use '");
    s.append(r);
    s.append("' instead. Try: ");
    s.append(rewritten);
    proof {
        assert(s@ =~= suggestion_text(p@, r@, rewritten@));
    }
    s
}

/// Builds the reason message of a `replace` decision.
fn build_replace_reason(rewritten: &str) -> (s: String)
    ensures
        s@ == replace_reason_text(rewritten@),
{
    let mut s = String::from_str("Command mapped: using '");
    s.append(rewritten);
    s.append("' instead");
    proof {
        assert(s@ =~= replace_reason_text(rewritten@));
    }
    s
}

/// Checks a command against the configured mapping rules, using (and
/// warming) the given matcher cache. All patterns are compiled first; a
/// single invalid pattern fails the whole check with `PatternInvalid` and no
/// rule is consulted. Otherwise the rules are evaluated first-match in
/// declaration order, and a match yields the suggestion message and the
/// command with every bounded occurrence of the pattern rewritten.
pub fn check_command_mappings_cached(
    config: &Config,
    command: &str,
    cache: &mut PatternCache,
) -> (r: Result<Option<(String, String)>, ConfigError>)
    requires
        old(cache).wf(),
    ensures
        final(cache).wf(),
        r is Err <==> check_spec(pairs_view(config.commands@), command@) is Err,
        r matches Err(e) ==> e is PatternInvalid,
        r matches Ok(o) ==> {
            let m = check_spec(pairs_view(config.commands@), command@)->Ok_0;
            &&& o is Some <==> m is Some
            &&& o matches Some(p) ==> m matches Some(q) && p.0@ == q.0 && p.1@ == q.1
        },
{
    let ghost rules = pairs_view(config.commands@);
    let n = config.commands.len();
    let mut k: usize = 0;
    while k < n
        invariant
            cache.wf(),
            n == config.commands@.len(),
            rules == pairs_view(config.commands@),
            k <= n,
            forall|j: int| 0 <= j < k ==> (#[trigger] rules[j]).0.len() > 0,
        decreases n - k,
    {
        match cache.get_or_compile(config.commands[k].0.as_str()) {
            Err(e) => {
                proof {
                    assert(rules[k as int].0.len() == 0);
                    assert(!all_patterns_valid(rules));
                }
                return Err(e);
            },
            Ok(_) => {
                proof {
                    assert(rules[k as int].0.len() > 0);
                }
            },
        }
        k = k + 1;
    }
    proof {
        assert(all_patterns_valid(rules));
    }
    let mut i: usize = 0;
    while i < n
        invariant
            cache.wf(),
            n == config.commands@.len(),
            rules == pairs_view(config.commands@),
            all_patterns_valid(rules),
            i <= n,
            match_from(rules, command@, 0) == match_from(rules, command@, i as int),
        decreases n - i,
    {
        proof {
            assert(rules[i as int].0.len() > 0);
        }
        match cache.get_or_compile(config.commands[i].0.as_str()) {
            Err(_) => {
                assert(false);
                return Err(ConfigError::PatternInvalid(String::new()));
            },
            Ok(m) => {
                if m.is_match(command) {
                    let rewritten = m.replace_all(command, config.commands[i].1.as_str());
                    let sugg = build_suggestion(
                        config.commands[i].0.as_str(),
                        config.commands[i].1.as_str(),
                        rewritten.as_str(),
                    );
                    proof {
                        assert(match_from(rules, command@, i as int) matches Some(q) && sugg@
                            == q.0 && rewritten@ == q.1);
                    }
                    return Ok(Some((sugg, rewritten)));
                }
                proof {
                    assert(match_from(rules, command@, i as int) == match_from(
                        rules,
                        command@,
                        i + 1,
                    ));
                }
            },
        }
        i = i + 1;
    }
    proof {
        assert(match_from(rules, command@, i as int) is None);
    }
    Ok(None)
}

/// The tool-specific input of an inbound event.
pub struct ToolInput {
    /// The shell command the host tool is about to run, if any.
    pub command: Option<String>,
}

/// The tool's reported result in an execution-tracking event.
pub struct ToolResponse {
    /// The exit code of the executed command; absent is treated as failure.
    pub exit_code: Option<i64>,
}

/// One inbound event document, already parsed into plain values.
pub struct HookInput {
    /// The event tag: `PreToolUse`, `UserPromptSubmit`, `PostToolUse`, or
    /// an unrecognised tag.
    pub hook_event_name: String,
    /// The tool the event concerns, if any.
    pub tool_name: Option<String>,
    /// The tool input, if any.
    pub tool_input: Option<ToolInput>,
    /// The tool's execution result, if any.
    pub tool_response: Option<ToolResponse>,
    /// The submitted prompt text, if any.
    pub prompt: Option<String>,
}

/// The outbound decision document of a matched interception event.
pub struct HookOutput {
    /// `block` or `replace`.
    pub decision: String,
    /// The human-readable reason.
    pub reason: String,
    /// The rewritten command; present only for a `replace` decision.
    pub replacement_command: Option<String>,
}

/// What one event dispatch asks the outer driver to do. The driver alone
/// performs output and decides whether the invocation stops.
pub enum HookOutcome {
    /// Emit this decision document on the response channel and stop: the
    /// host expects exactly one decision per intercepted command.
    Decision(HookOutput),
    /// Hand this prompt text to the external directory-reference resolver.
    ScanPrompt(String),
    /// Emit this execution-tracking line.
    Track(String),
    /// Record this diagnostic warning; an unrecognised tag is not an error.
    Warn(String),
    /// Nothing to do: the event is allowed implicitly.
    Silent,
}

/// The shell command of an interception event, provided the event names the
/// shell-execution tool and carries a command.
pub open spec fn bash_command_of(input: HookInput) -> Option<Seq<char>> {
    match input.tool_name {
        Some(t) => if t@ == "Bash"@ {
            match input.tool_input {
                Some(ti) => match ti.command {
                    Some(c) => Some(c@),
                    None => None,
                },
                None => None,
            }
        } else {
            None
        },
        None => None,
    }
}

/// The command and effective exit code of an execution-tracking event,
/// provided the event names the shell-execution tool and carries a result;
/// an absent exit code counts as the failure sentinel -1.
pub open spec fn tracked_command_of(input: HookInput) -> Option<(Seq<char>, int)> {
    match input.tool_name {
        Some(t) => if t@ == "Bash"@ {
            match input.tool_response {
                Some(tr) => match input.tool_input {
                    Some(ti) => match ti.command {
                        Some(c) => Some(
                            (
                                c@,
                                match tr.exit_code {
                                    Some(e) => e as int,
                                    None => -1,
                                },
                            ),
                        ),
                        None => None,
                    },
                    None => None,
                },
                None => None,
            }
        } else {
            None
        },
        None => None,
    }
}

/// The decision document owed for a matched rule: `replace` carries the
/// rewritten command, `block` carries the suggestion as its reason and no
/// replacement field.
pub open spec fn decision_for(
    d: HookOutput,
    sugg: Seq<char>,
    rewritten: Seq<char>,
    replace_mode: bool,
) -> bool {
    if replace_mode {
        &&& d.decision@ == "replace"@
        &&& d.reason@ == replace_reason_text(rewritten)
        &&& d.replacement_command matches Some(rc) && rc@ == rewritten
    } else {
        &&& d.decision@ == "block"@
        &&& d.reason@ == sugg
        &&& d.replacement_command is None
    }
}

/// What a command-interception event owes, as a relation between the
/// dispatch result and the event and configuration.
pub open spec fn pre_tool_use_post(
    config: Config,
    input: HookInput,
    replace_mode: bool,
    r: Result<HookOutcome, ConfigError>,
) -> bool {
    match bash_command_of(input) {
        None => r matches Ok(o) && o is Silent,
        Some(cmd) => {
            let cs = check_spec(pairs_view(config.commands@), cmd);
            &&& cs is Err ==> (r matches Err(e) && e is PatternInvalid)
            &&& cs matches Ok(m) ==> match m {
                None => r matches Ok(o) && o is Silent,
                Some(sr) => r matches Ok(o) && o matches HookOutcome::Decision(d)
                    && decision_for(d, sr.0, sr.1, replace_mode),
            }
        },
    }
}

/// Handles a command-interception event: consults the mapping rules for the
/// shell command, and turns a match into a `block` or `replace` decision
/// according to the caller's mode. Events that do not concern the
/// shell-execution tool, or carry no command, are allowed silently.
pub fn handle_pre_tool_use(config: &Config, input: &HookInput, replace_mode: bool) -> (r: Result<
    HookOutcome,
    ConfigError,
>)
    ensures
        pre_tool_use_post(*config, *input, replace_mode, r),
{
    let tool_is_bash = match &input.tool_name {
        Some(t) => str_eq(t.as_str(), "Bash"),
        None => false,
    };
    if !tool_is_bash {
        return Ok(HookOutcome::Silent);
    }
    match &input.tool_input {
        None => Ok(HookOutcome::Silent),
        Some(ti) => match &ti.command {
            None => Ok(HookOutcome::Silent),
            Some(cmd) => match check_command_mappings(config, cmd.as_str()) {
                Err(e) => Err(e),
                Ok(None) => Ok(HookOutcome::Silent),
                Ok(Some((sugg, rewritten))) => {
                    let d = if replace_mode {
                        let reason = build_replace_reason(rewritten.as_str());
                        HookOutput {
                            decision: String::from_str("replace"),
                            reason,
                            replacement_command: Some(rewritten),
                        }
                    } else {
                        HookOutput {
                            decision: String::from_str("block"),
                            reason: sugg,
                            replacement_command: None,
                        }
                    };
                    Ok(HookOutcome::Decision(d))
                },
            },
        },
    }
}

/// Handles a prompt-scan event: the prompt text, when present, is handed
/// back for the external directory-reference resolver; otherwise nothing
/// happens.
pub fn handle_user_prompt_submit(input: &HookInput) -> (r: Result<HookOutcome, ConfigError>)
    ensures
        match input.prompt {
            Some(p) => r matches Ok(o) && o matches HookOutcome::ScanPrompt(sp) && sp@ == p@,
            None => r matches Ok(o) && o is Silent,
        },
{
    match &input.prompt {
        Some(p) => Ok(HookOutcome::ScanPrompt(p.clone())),
        None => Ok(HookOutcome::Silent),
    }
}

/// Handles an execution-tracking event: emits one observational line with
/// the command, the exit code (absent counts as -1) and a success flag.
pub fn handle_post_tool_use(input: &HookInput) -> (r: Result<HookOutcome, ConfigError>)
    ensures
        match tracked_command_of(*input) {
            Some(ce) => r matches Ok(o) && o matches HookOutcome::Track(line) && line@
                == track_text(ce.0, ce.1),
            None => r matches Ok(o) && o is Silent,
        },
{
    let tool_is_bash = match &input.tool_name {
        Some(t) => str_eq(t.as_str(), "Bash"),
        None => false,
    };
    if !tool_is_bash {
        return Ok(HookOutcome::Silent);
    }
    let exit_code: i64 = match &input.tool_response {
        Some(tr) => match tr.exit_code {
            Some(e) => e,
            None => -1,
        },
        None => {
            return Ok(HookOutcome::Silent);
        },
    };
    match &input.tool_input {
        None => Ok(HookOutcome::Silent),
        Some(ti) => match &ti.command {
            None => Ok(HookOutcome::Silent),
            Some(cmd) => {
                let mut line = String::from_str("Command execution tracked: ");
                line.append(cmd.as_str());
                line.append(" (exit_code: ");
                let code_text = i64_to_string(exit_code);
                line.append(code_text.as_str());
                line.append(", success: ");
                let flag: &str = if exit_code == 0 {
                    "true"
                } else {
                    "false"
                };
                line.append(flag);
                line.append(")");
                proof {
                    assert(line@ =~= track_text(cmd@, exit_code as int));
                }
                Ok(HookOutcome::Track(line))
            },
        },
    }
}

/// Routes one inbound event to its handler. A recognised tag is handled as
/// its handler's contract says; an unrecognised tag yields a diagnostic
/// warning naming the tag and is not an error.
pub fn dispatch_event(config: &Config, input: &HookInput, replace_mode: bool) -> (r: Result<
    HookOutcome,
    ConfigError,
>)
    ensures
        input.hook_event_name@ == "PreToolUse"@ ==> pre_tool_use_post(
            *config,
            *input,
            replace_mode,
            r,
        ),
        input.hook_event_name@ == "UserPromptSubmit"@ ==> match input.prompt {
            Some(p) => r matches Ok(o) && o matches HookOutcome::ScanPrompt(sp) && sp@ == p@,
            None => r matches Ok(o) && o is Silent,
        },
        input.hook_event_name@ == "PostToolUse"@ ==> match tracked_command_of(*input) {
            Some(ce) => r matches Ok(o) && o matches HookOutcome::Track(line) && line@
                == track_text(ce.0, ce.1),
            None => r matches Ok(o) && o is Silent,
        },
        input.hook_event_name@ != "PreToolUse"@ && input.hook_event_name@ != "UserPromptSubmit"@
            && input.hook_event_name@ != "PostToolUse"@ ==> (r matches Ok(o) && o matches
            HookOutcome::Warn(w) && w@ == warn_text(input.hook_event_name@)),
{
    proof {
        reveal_strlit("PreToolUse");
        reveal_strlit("UserPromptSubmit");
        reveal_strlit("PostToolUse");
        assert("PreToolUse"@.len() == 10);
        assert("UserPromptSubmit"@.len() == 16);
        assert("PostToolUse"@.len() == 11);
    }
    if str_eq(input.hook_event_name.as_str(), "PreToolUse") {
        handle_pre_tool_use(config, input, replace_mode)
    } else if str_eq(input.hook_event_name.as_str(), "UserPromptSubmit") {
        handle_user_prompt_submit(input)
    } else if str_eq(input.hook_event_name.as_str(), "PostToolUse") {
        handle_post_tool_use(input)
    } else {
        let mut w = String::from_str("Warning: Unknown hook event type: ");
        w.append(input.hook_event_name.as_str());
        proof {
            assert(w@ =~= warn_text(input.hook_event_name@));
        }
        Ok(HookOutcome::Warn(w))
    }
}

/// Checks a command against the configured mapping rules with a cache built
/// fresh for this invocation.
pub fn check_command_mappings(config: &Config, command: &str) -> (r: Result<
    Option<(String, String)>,
    ConfigError,
>)
    ensures
        r is Err <==> check_spec(pairs_view(config.commands@), command@) is Err,
        r matches Err(e) ==> e is PatternInvalid,
        r matches Ok(o) ==> {
            let m = check_spec(pairs_view(config.commands@), command@)->Ok_0;
            &&& o is Some <==> m is Some
            &&& o matches Some(p) ==> m matches Some(q) && p.0@ == q.0 && p.1@ == q.1
        },
{
    let mut cache = PatternCache::new();
    check_command_mappings_cached(config, command, &mut cache)
}

/// The JSON escaping of one character inside a string literal: quote and
/// backslash get a backslash escape, the named control characters their
/// two-character escape, any other control character a `\u00XX` escape, and
/// everything else stands as itself.
pub open spec fn json_esc_char(c: char) -> Seq<char> {
    if c == '"' {
        seq!['\\', '"']
    } else if c == '\\' {
        seq!['\\', '\\']
    } else if c == '\n' {
        seq!['\\', 'n']
    } else if c == '\t' {
        seq!['\\', 't']
    } else if c == '\r' {
        seq!['\\', 'r']
    } else if (c as u32) < 32 {
        seq![
            '\\',
            'u',
            '0',
            '0',
            crate::text::hex_digit_char((c as u32) as int / 16),
            crate::text::hex_digit_char((c as u32) as int % 16),
        ]
    } else {
        seq![c]
    }
}

/// The JSON escaping of a whole string body.
pub open spec fn json_escape(s: Seq<char>) -> Seq<char>
    decreases s.len(),
{
    if s.len() == 0 {
        Seq::empty()
    } else {
        json_esc_char(s[0]) + json_escape(s.drop_first())
    }
}

/// The single-line JSON document serialising a decision: the `decision` and
/// `reason` fields always, and `replacementCommand` exactly when a
/// replacement is present.
pub open spec fn hook_output_json_text(o: HookOutput) -> Seq<char> {
    "{\"decision\":\""@ + json_escape(o.decision@) + "\",\"reason\":\""@ + json_escape(o.reason@)
        + (match o.replacement_command {
        Some(rc) => "\",\"replacementCommand\":\""@ + json_escape(rc@) + "\"}"@,
        None => "\"}"@,
    })
}

/// Appends the JSON escaping of one character.
fn push_esc_char(out: &mut Vec<char>, c: char)
    ensures
        final(out)@ == old(out)@ + json_esc_char(c),
{
    let u = c as u32;
    if c == '"' {
        out.push('\\');
        out.push('"');
    } else if c == '\\' {
        out.push('\\');
        out.push('\\');
    } else if c == '\n' {
        out.push('\\');
        out.push('n');
    } else if c == '\t' {
        out.push('\\');
        out.push('t');
    } else if c == '\r' {
        out.push('\\');
        out.push('r');
    } else if u < 32 {
        out.push('\\');
        out.push('u');
        out.push('0');
        out.push('0');
        out.push(crate::text::hex_digit_char_exec(u / 16));
        out.push(crate::text::hex_digit_char_exec(u % 16));
    } else {
        out.push(c);
    }
    proof {
        assert(out@ =~= old(out)@ + json_esc_char(c));
    }
}

/// Appends the JSON escaping of a string body.
fn append_json_escaped(s: &mut String, part: &str)
    ensures
        final(s)@ == old(s)@ + json_escape(part@),
{
    let chars = crate::text::chars_of(part);
    let mut out: Vec<char> = Vec::new();
    let mut i: usize = 0;
    proof {
        assert(part@.skip(0) =~= part@);
        assert(Seq::<char>::empty() + json_escape(part@) =~= json_escape(part@));
    }
    while i < chars.len()
        invariant
            i <= chars@.len(),
            chars@ == part@,
            json_escape(part@) == out@ + json_escape(part@.skip(i as int)),
        decreases chars@.len() - i,
    {
        let ghost out_before = out@;
        push_esc_char(&mut out, chars[i]);
        proof {
            let rest = part@.skip(i as int);
            assert(rest[0] == part@[i as int]);
            assert(rest.drop_first() =~= part@.skip(i + 1));
            assert(json_escape(rest) == json_esc_char(part@[i as int]) + json_escape(
                part@.skip(i + 1),
            ));
            assert(out_before + (json_esc_char(part@[i as int]) + json_escape(part@.skip(i + 1)))
                =~= out@ + json_escape(part@.skip(i + 1)));
        }
        i = i + 1;
    }
    proof {
        assert(part@.skip(part@.len() as int) =~= Seq::<char>::empty());
        assert(out@ + Seq::<char>::empty() =~= out@);
    }
    let esc = crate::text::string_of_chars(&out);
    s.append(esc.as_str());
}

/// Serialises a decision document to its single-line JSON form.
pub fn hook_output_json(o: &HookOutput) -> (s: String)
    ensures
        s@ == hook_output_json_text(*o),
{
    let mut s = String::from_str("{\"decision\":\"");
    append_json_escaped(&mut s, o.decision.as_str());
    s.append("\",\"reason\":\"");
    append_json_escaped(&mut s, o.reason.as_str());
    match &o.replacement_command {
        Some(rc) => {
            s.append("\",\"replacementCommand\":\"");
            append_json_escaped(&mut s, rc.as_str());
            s.append("\"}");
        },
        None => {
            s.append("\"}");
        },
    }
    proof {
        assert(s@ =~= hook_output_json_text(*o));
    }
    s
}

} // verus!
