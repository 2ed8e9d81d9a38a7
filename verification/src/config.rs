//! Configuration data model, the error taxonomy, and the file-discovery
//! decisions.
//!
//! The configuration lives in one of two files in the working directory,
//! searched in a fixed priority: the current name `.advisor.toml` first, then
//! the legacy name `.hook-advisor.toml`. The file-system reads
//! themselves happen outside the library; the decision functions here take
//! the observed facts (which files exist, what a file holds) as plain values.

use vstd::prelude::*;

use crate::text::str_eq;

verus! {

/// The error taxonomy of the configuration lifecycle.
#[derive(Debug)]
pub enum ConfigError {
    /// No configuration file exists under either supported name.
    NotFound(String),
    /// A configuration file exists but is not valid configuration text.
    ParseFailed(String),
    /// A migration precondition or step failed.
    MigrationFailed(String),
    /// The backup copy step of a migration failed.
    BackupFailed(String),
    /// A configured rule's pattern cannot be compiled into a word-bounded
    /// matcher.
    PatternInvalid(String),
}

/// The two supported configuration file names, in search priority order.
#[derive(Debug, Clone, Copy, PartialEq, Eq, Structural)]
pub enum ConfigFileName {
    /// The current file name, `.advisor.toml`.
    Current,
    /// The legacy file name, `.hook-advisor.toml`.
    Legacy,
}

/// The current configuration file name.
pub fn default_config_file() -> (s: &'static str)
    ensures
        s@ == ".advisor.toml"@,
{
    ".advisor.toml"
}

/// The legacy configuration file name.
pub fn legacy_config_file() -> (s: &'static str)
    ensures
        s@ == ".hook-advisor.toml"@,
{
    ".hook-advisor.toml"
}

/// The suffix appended to the legacy file name to form the backup file name.
pub fn backup_suffix() -> (s: &'static str)
    ensures
        s@ == ".backup"@,
{
    ".backup"
}

/// A loaded configuration: command mapping rules and semantic directory
/// aliases, each an ordered list of (key, value) pairs in declaration order.
/// Rules are evaluated first-match in this order.
pub struct Config {
    /// Command pattern to replacement text, in declaration order.
    pub commands: Vec<(String, String)>,
    /// Directory alias to path template, in declaration order.
    pub semantic_directories: Vec<(String, String)>,
}

/// The pairs of a mapping as sequences of characters.
pub open spec fn pairs_view(v: Seq<(String, String)>) -> Seq<(Seq<char>, Seq<char>)> {
    v.map_values(|p: (String, String)| (p.0@, p.1@))
}

/// No two pairs share a key.
pub open spec fn keys_unique(v: Seq<(Seq<char>, Seq<char>)>) -> bool {
    forall|j: int, k: int| 0 <= j < k < v.len() ==> v[j].0 != v[k].0
}

impl Config {
    /// Both mappings empty: the default when no configuration file exists.
    pub fn empty() -> (c: Config)
        ensures
            c.commands@.len() == 0,
            c.semantic_directories@.len() == 0,
    {
        Config { commands: Vec::new(), semantic_directories: Vec::new() }
    }
}

/// Picks the configuration file to use from the observed facts: the current
/// name wins over the legacy name, and `NotFound` reports both searched
/// names when neither file exists.
pub fn find_config_file(current_exists: bool, legacy_exists: bool) -> (r: Result<
    ConfigFileName,
    ConfigError,
>)
    ensures
        current_exists ==> r == Ok::<ConfigFileName, ConfigError>(ConfigFileName::Current),
        !current_exists && legacy_exists ==> r == Ok::<ConfigFileName, ConfigError>(
            ConfigFileName::Legacy,
        ),
        !current_exists && !legacy_exists ==> (r matches Err(e) && e is NotFound),
{
    if current_exists {
        Ok(ConfigFileName::Current)
    } else if legacy_exists {
        Ok(ConfigFileName::Legacy)
    } else {
        Err(
            ConfigError::NotFound(
                String::from_str(
                    "No configuration file found. Searched for: .advisor.toml, .hook-advisor.toml",
                ),
            ),
        )
    }
}

/// Migration is needed exactly when the legacy file exists and the current
/// file does not; the legacy name is then the file to migrate from.
pub fn needs_migration(current_exists: bool, legacy_exists: bool) -> (r: Option<ConfigFileName>)
    ensures
        r == (if legacy_exists && !current_exists {
            Some(ConfigFileName::Legacy)
        } else {
            None::<ConfigFileName>
        }),
{
    if legacy_exists && !current_exists {
        Some(ConfigFileName::Legacy)
    } else {
        None
    }
}

/// Loads the configuration from the content of the discovered file, or
/// yields the empty configuration when no file was found: that is the
/// documented default, not an error. The caller reads the file and emits
/// the no-file diagnostic; `origin` names the file in a parse failure.
pub fn load_config_auto(found: Option<&String>, origin: &str) -> (r: Result<Config, ConfigError>)
    ensures
        found is None ==> (r matches Ok(c) && c.commands@.len() == 0
            && c.semantic_directories@.len() == 0),
        found matches Some(content) ==> {
            &&& r is Ok <==> crate::parser::parse_config_spec(content@) is Some
            &&& r matches Ok(c) ==> (crate::parser::parse_config_spec(content@) matches Some(st)
                && pairs_view(c.commands@) == st.commands && pairs_view(c.semantic_directories@)
                == st.dirs)
            &&& r matches Err(e) ==> e is ParseFailed
        },
{
    match found {
        None => Ok(Config::empty()),
        Some(content) => crate::parser::parse_config(content.as_str(), origin),
    }
}

/// The safety and modern-tool mappings shared by every project type.
pub open spec fn common_command_pairs() -> Seq<(Seq<char>, Seq<char>)> {
    seq![
        ("curl"@, "curl -L"@),
        ("rm"@, "trash"@),
        ("rm -rf"@, "echo 'Use trash command for safety'"@),
    ]
}

/// The command mappings specific to one detected project type; a type not
/// recognised here gets the general modern-CLI alternatives.
pub open spec fn project_command_pairs(t: Seq<char>) -> Seq<(Seq<char>, Seq<char>)> {
    if t == "Node.js"@ {
        seq![
            ("npm"@, "bun"@),
            ("yarn"@, "bun"@),
            ("pnpm"@, "bun"@),
            ("npx"@, "bunx"@),
            ("npm start"@, "bun dev"@),
            ("npm test"@, "bun test"@),
            ("npm run build"@, "bun run build"@),
        ]
    } else if t == "Python"@ {
        seq![
            ("pip"@, "uv pip"@),
            ("pip install"@, "uv add"@),
            ("pip uninstall"@, "uv remove"@),
            ("python"@, "uv run python"@),
            ("python -m"@, "uv run python -m"@),
        ]
    } else if t == "Rust"@ {
        seq![("cargo check"@, "cargo clippy"@), ("cargo test"@, "cargo test -- --nocapture"@)]
    } else if t == "Go"@ {
        seq![("go run"@, "go run -race"@), ("go test"@, "go test -v"@)]
    } else if t == "Java"@ {
        seq![("mvn"@, "./mvnw"@), ("gradle"@, "./gradlew"@)]
    } else if t == "Docker"@ {
        seq![("docker"@, "podman"@), ("docker-compose"@, "podman-compose"@)]
    } else {
        seq![("cat"@, "bat"@), ("ls"@, "eza"@), ("grep"@, "rg"@), ("find"@, "fd"@)]
    }
}

/// Appends one (key, value) pair built from the given texts.
fn push_pair(v: &mut Vec<(String, String)>, k: &str, val: &str)
    ensures
        pairs_view(final(v)@) == pairs_view(old(v)@).push((k@, val@)),
{
    v.push((String::from_str(k), String::from_str(val)));
    proof {
        assert(pairs_view(v@) =~= pairs_view(old(v)@).push((k@, val@)));
    }
}

/// The command mappings generated for a detected project type: the
/// type-specific pairs in declaration order, followed by the common safety
/// mappings.
pub fn get_commands_for_project_type(project_type: &str) -> (r: Vec<(String, String)>)
    ensures
        pairs_view(r@) == project_command_pairs(project_type@) + common_command_pairs(),
{
    let mut v: Vec<(String, String)> = Vec::new();
    if str_eq(project_type, "Node.js") {
        push_pair(&mut v, "npm", "bun");
        push_pair(&mut v, "yarn", "bun");
        push_pair(&mut v, "pnpm", "bun");
        push_pair(&mut v, "npx", "bunx");
        push_pair(&mut v, "npm start", "bun dev");
        push_pair(&mut v, "npm test", "bun test");
        push_pair(&mut v, "npm run build", "bun run build");
    } else if str_eq(project_type, "Python") {
        push_pair(&mut v, "pip", "uv pip");
        push_pair(&mut v, "pip install", "uv add");
        push_pair(&mut v, "pip uninstall", "uv remove");
        push_pair(&mut v, "python", "uv run python");
        push_pair(&mut v, "python -m", "uv run python -m");
    } else if str_eq(project_type, "Rust") {
        push_pair(&mut v, "cargo check", "cargo clippy");
        push_pair(&mut v, "cargo test", "cargo test -- --nocapture");
    } else if str_eq(project_type, "Go") {
        push_pair(&mut v, "go run", "go run -race");
        push_pair(&mut v, "go test", "go test -v");
    } else if str_eq(project_type, "Java") {
        push_pair(&mut v, "mvn", "./mvnw");
        push_pair(&mut v, "gradle", "./gradlew");
    } else if str_eq(project_type, "Docker") {
        push_pair(&mut v, "docker", "podman");
        push_pair(&mut v, "docker-compose", "podman-compose");
    } else {
        push_pair(&mut v, "cat", "bat");
        push_pair(&mut v, "ls", "eza");
        push_pair(&mut v, "grep", "rg");
        push_pair(&mut v, "find", "fd");
    }
    proof {
        assert(pairs_view(v@) =~= project_command_pairs(project_type@));
    }
    let ghost base = pairs_view(v@);
    push_pair(&mut v, "curl", "curl -L");
    push_pair(&mut v, "rm", "trash");
    push_pair(&mut v, "rm -rf", "echo 'Use trash command for safety'");
    proof {
        assert(pairs_view(v@) =~= base + common_command_pairs());
    }
    v
}

} // verus!
