//! The configuration text format and its parser.
//!
//! A configuration file is line-oriented key-value text. A line is blank, a
//! comment introduced by `#`, a table header `[name]`, or an entry
//! `key = "value"` with an optional trailing comment. Keys are bare
//! (letters, digits, `-`, `_`) or double-quoted; values are double-quoted;
//! quoted texts take the escapes `\"`, `\\`, `\n`, `\t` and `\r`. The
//! tables `[commands]` and `[semantic_directories]` fill the two mappings
//! of the configuration, in declaration order; entries of other tables and
//! of the top level are ignored. A repeated table name, or a repeated key
//! within one of the two recognised tables, is a parse failure.

use vstd::prelude::*;

use crate::config::pairs_view;
use crate::config::Config;
use crate::config::ConfigError;

verus! {

broadcast use vstd::string::group_string_axioms;

/// Horizontal whitespace inside a line; a carriage return counts as
/// whitespace so that lines ending `\r\n` parse as their `\n`-ended form.
pub open spec fn is_line_ws(c: char) -> bool {
    c == ' ' || c == '\t' || c == '\r'
}

/// A character allowed in a bare key: an ASCII letter or digit, a hyphen,
/// or an underscore.
pub open spec fn is_bare_key_char(c: char) -> bool {
    crate::text::is_word_char(c) || c == '-'
}

/// The first position at or after `i` holding a non-whitespace character,
/// or the end of the line.
pub open spec fn skip_ws(s: Seq<char>, i: int) -> int
    decreases s.len() - i,
{
    if i < 0 || i >= s.len() {
        i
    } else if is_line_ws(s[i]) {
        skip_ws(s, i + 1)
    } else {
        i
    }
}

/// The end of the bare-key run starting at `i`: the first position at or
/// after `i` holding no bare-key character, or the end of the line.
pub open spec fn bare_run_end(s: Seq<char>, i: int) -> int
    decreases s.len() - i,
{
    if i < 0 || i >= s.len() {
        i
    } else if is_bare_key_char(s[i]) {
        bare_run_end(s, i + 1)
    } else {
        i
    }
}

/// The decoded character of an escape sequence, or nothing for an escape
/// the format does not take.
pub open spec fn esc_decode(c: char) -> Option<char> {
    if c == '"' {
        Some('"')
    } else if c == '\\' {
        Some('\\')
    } else if c == 'n' {
        Some('\n')
    } else if c == 't' {
        Some('\t')
    } else if c == 'r' {
        Some('\r')
    } else {
        None
    }
}

/// Scans a double-quoted text from position `i` (just after the opening
/// quote): the decoded content and the position after the closing quote,
/// or nothing when the text is unterminated or holds a bad escape.
pub open spec fn scan_quoted(s: Seq<char>, i: int) -> Option<(Seq<char>, int)>
    decreases s.len() - i,
{
    if i < 0 || i >= s.len() {
        None
    } else if s[i] == '"' {
        Some((Seq::empty(), i + 1))
    } else if s[i] == '\\' {
        if i + 1 >= s.len() {
            None
        } else {
            match esc_decode(s[i + 1]) {
                None => None,
                Some(c) => match scan_quoted(s, i + 2) {
                    None => None,
                    Some(rest) => Some((seq![c] + rest.0, rest.1)),
                },
            }
        }
    } else {
        match scan_quoted(s, i + 1) {
            None => None,
            Some(rest) => Some((seq![s[i]] + rest.0, rest.1)),
        }
    }
}

pub proof fn lemma_scan_quoted_bounds(s: Seq<char>, i: int)
    requires
        0 <= i <= s.len(),
    ensures
        scan_quoted(s, i) matches Some(r) ==> i < r.1 <= s.len(),
    decreases s.len() - i,
{
    if i < s.len() {
        if s[i] == '"' {
        } else if s[i] == '\\' {
            if i + 2 <= s.len() {
                lemma_scan_quoted_bounds(s, i + 2);
            }
        } else {
            lemma_scan_quoted_bounds(s, i + 1);
        }
    }
}

/// What one line of configuration text means.
pub enum LineKind {
    /// Nothing: a blank line or a comment.
    Blank,
    /// A table header naming this table.
    Header(Seq<char>),
    /// One key-value entry.
    Entry(Seq<char>, Seq<char>),
    /// A line the format does not take.
    Bad,
}

/// The meaning of the remainder of an entry line after its key: whitespace,
/// `=`, whitespace, a quoted value, then only whitespace or a comment.
pub open spec fn classify_after_key(s: Seq<char>, key: Seq<char>, j: int) -> LineKind {
    let j2 = skip_ws(s, j);
    if j2 < s.len() && s[j2] == '=' {
        let j3 = skip_ws(s, j2 + 1);
        if j3 < s.len() && s[j3] == '"' {
            match scan_quoted(s, j3 + 1) {
                None => LineKind::Bad,
                Some(val) => {
                    let j5 = skip_ws(s, val.1);
                    if j5 == s.len() || s[j5] == '#' {
                        LineKind::Entry(key, val.0)
                    } else {
                        LineKind::Bad
                    }
                },
            }
        } else {
            LineKind::Bad
        }
    } else {
        LineKind::Bad
    }
}

/// What one line means: blank or comment, a header `[name]` with a nonempty
/// bare name and nothing but whitespace after it, or a key-value entry.
pub open spec fn classify_line(s: Seq<char>) -> LineKind {
    let a = skip_ws(s, 0);
    if a >= s.len() {
        LineKind::Blank
    } else if s[a] == '#' {
        LineKind::Blank
    } else if s[a] == '[' {
        let b = bare_run_end(s, a + 1);
        if b > a + 1 && b < s.len() && s[b] == ']' && skip_ws(s, b + 1) == s.len() {
            LineKind::Header(s.subrange(a + 1, b))
        } else {
            LineKind::Bad
        }
    } else if s[a] == '"' {
        match scan_quoted(s, a + 1) {
            None => LineKind::Bad,
            Some(key) => classify_after_key(s, key.0, key.1),
        }
    } else {
        let b = bare_run_end(s, a);
        if b == a {
            LineKind::Bad
        } else {
            classify_after_key(s, s.subrange(a, b), b)
        }
    }
}

/// Which table the entries of the current section land in.
pub enum TableSel {
    /// Before any header: entries are ignored.
    Top,
    /// Inside `[commands]`.
    Commands,
    /// Inside `[semantic_directories]`.
    Dirs,
    /// Inside a table this library does not read: entries are ignored.
    Other,
}

/// The parse state after some prefix of the lines.
pub struct ParseState {
    /// The table the current section's entries land in.
    pub table: TableSel,
    /// Every table name seen so far, in order.
    pub seen: Seq<Seq<char>>,
    /// The command mapping entries, in declaration order.
    pub commands: Seq<(Seq<char>, Seq<char>)>,
    /// The directory alias entries, in declaration order.
    pub dirs: Seq<(Seq<char>, Seq<char>)>,
}

/// The state before any line.
pub open spec fn init_state() -> ParseState {
    ParseState { table: TableSel::Top, seen: Seq::empty(), commands: Seq::empty(), dirs: Seq::empty() }
}

/// Some pair carries this key.
pub open spec fn pairs_contain_key(v: Seq<(Seq<char>, Seq<char>)>, key: Seq<char>) -> bool {
    exists|k: int| 0 <= k < v.len() && (#[trigger] v[k]).0 == key
}

/// The table a header name selects.
pub open spec fn table_for(name: Seq<char>) -> TableSel {
    if name == "commands"@ {
        TableSel::Commands
    } else if name == "semantic_directories"@ {
        TableSel::Dirs
    } else {
        TableSel::Other
    }
}

/// One line applied to the parse state: a repeated table name, a repeated
/// key within a recognised table, or a bad line fails the parse; entries
/// outside the two recognised tables are ignored.
pub open spec fn apply_line(st: ParseState, k: LineKind) -> Option<ParseState> {
    match k {
        LineKind::Blank => Some(st),
        LineKind::Bad => None,
        LineKind::Header(name) => if st.seen.contains(name) {
            None
        } else {
            Some(
                ParseState {
                    table: table_for(name),
                    seen: st.seen.push(name),
                    commands: st.commands,
                    dirs: st.dirs,
                },
            )
        },
        LineKind::Entry(key, val) => match st.table {
            TableSel::Commands => if pairs_contain_key(st.commands, key) {
                None
            } else {
                Some(
                    ParseState {
                        table: st.table,
                        seen: st.seen,
                        commands: st.commands.push((key, val)),
                        dirs: st.dirs,
                    },
                )
            },
            TableSel::Dirs => if pairs_contain_key(st.dirs, key) {
                None
            } else {
                Some(
                    ParseState {
                        table: st.table,
                        seen: st.seen,
                        commands: st.commands,
                        dirs: st.dirs.push((key, val)),
                    },
                )
            },
            _ => Some(st),
        },
    }
}

/// The first position at or after `i` holding a newline, or the end of the
/// text.
pub open spec fn line_end(s: Seq<char>, i: int) -> int
    decreases s.len() - i,
{
    if i < 0 || i >= s.len() {
        s.len() as int
    } else if s[i] == '\n' {
        i
    } else {
        line_end(s, i + 1)
    }
}

pub proof fn lemma_line_end_bounds(s: Seq<char>, i: int)
    requires
        0 <= i <= s.len(),
    ensures
        i <= line_end(s, i) <= s.len(),
    decreases s.len() - i,
{
    if i < s.len() && s[i] != '\n' {
        lemma_line_end_bounds(s, i + 1);
    }
}

/// The parse of the text from position `i` on, line by line, starting in
/// the given state; nothing when some line fails.
pub open spec fn parse_from(s: Seq<char>, i: int, st: ParseState) -> Option<ParseState>
    decreases s.len() - i + 1,
    when 0 <= i
    via parse_from_decreases
{
    if i >= s.len() {
        Some(st)
    } else {
        let e = line_end(s, i);
        match apply_line(st, classify_line(s.subrange(i, e))) {
            None => None,
            Some(st2) => parse_from(s, e + 1, st2),
        }
    }
}

#[via_fn]
proof fn parse_from_decreases(s: Seq<char>, i: int, st: ParseState) {
    if 0 <= i && i < s.len() {
        lemma_line_end_bounds(s, i);
    }
}

/// The meaning of a whole configuration text: the two mappings read in
/// declaration order, or nothing when the text is not valid configuration
/// text.
pub open spec fn parse_config_spec(s: Seq<char>) -> Option<ParseState> {
    parse_from(s, 0, init_state())
}

fn line_ws(c: char) -> (b: bool)
    ensures
        b == is_line_ws(c),
{
    c == ' ' || c == '\t' || c == '\r'
}

fn bare_key_char(c: char) -> (b: bool)
    ensures
        b == is_bare_key_char(c),
{
    crate::text::word_char(c) || c == '-'
}

fn skip_ws_exec(line: &Vec<char>, i: usize) -> (r: usize)
    requires
        i <= line@.len(),
    ensures
        r == skip_ws(line@, i as int),
        i <= r <= line@.len(),
{
    let mut j = i;
    while j < line.len() && line_ws(line[j])
        invariant
            i <= j <= line@.len(),
            skip_ws(line@, i as int) == skip_ws(line@, j as int),
        decreases line@.len() - j,
    {
        j = j + 1;
    }
    j
}

fn bare_run_end_exec(line: &Vec<char>, i: usize) -> (r: usize)
    requires
        i <= line@.len(),
    ensures
        r == bare_run_end(line@, i as int),
        i <= r <= line@.len(),
{
    let mut j = i;
    while j < line.len() && bare_key_char(line[j])
        invariant
            i <= j <= line@.len(),
            bare_run_end(line@, i as int) == bare_run_end(line@, j as int),
        decreases line@.len() - j,
    {
        j = j + 1;
    }
    j
}

fn line_end_exec(text: &Vec<char>, i: usize) -> (e: usize)
    requires
        i <= text@.len(),
    ensures
        e == line_end(text@, i as int),
        i <= e <= text@.len(),
        e < text@.len() ==> text@[e as int] == '\n',
{
    let mut j = i;
    while j < text.len() && text[j] != '\n'
        invariant
            i <= j <= text@.len(),
            line_end(text@, i as int) == line_end(text@, j as int),
        decreases text@.len() - j,
    {
        j = j + 1;
    }
    j
}

/// The characters of `text` from `i` up to `e`, as their own vector.
fn copy_range(text: &Vec<char>, i: usize, e: usize) -> (out: Vec<char>)
    requires
        i <= e <= text@.len(),
    ensures
        out@ == text@.subrange(i as int, e as int),
{
    let mut out: Vec<char> = Vec::new();
    let mut j = i;
    while j < e
        invariant
            i <= j <= e <= text@.len(),
            out@ =~= text@.subrange(i as int, j as int),
        decreases e - j,
    {
        out.push(text[j]);
        j = j + 1;
    }
    proof {
        assert(out@ =~= text@.subrange(i as int, e as int));
    }
    out
}

fn esc_decode_exec(c: char) -> (r: Option<char>)
    ensures
        r == esc_decode(c),
{
    if c == '"' {
        Some('"')
    } else if c == '\\' {
        Some('\\')
    } else if c == 'n' {
        Some('\n')
    } else if c == 't' {
        Some('\t')
    } else if c == 'r' {
        Some('\r')
    } else {
        None
    }
}

/// The scan result of the text from `j` with the already-decoded prefix
/// prepended to its content.
spec fn scan_cont(s: Seq<char>, j: int, pre: Seq<char>) -> Option<(Seq<char>, int)> {
    match scan_quoted(s, j) {
        None => None,
        Some(p) => Some((pre + p.0, p.1)),
    }
}

fn scan_quoted_exec(line: &Vec<char>, i: usize) -> (r: Option<(Vec<char>, usize)>)
    requires
        i <= line@.len(),
    ensures
        match r {
            None => scan_quoted(line@, i as int) is None,
            Some(p) => scan_quoted(line@, i as int) matches Some(sp) && p.0@ == sp.0 && p.1 == sp.1
                && i < p.1 <= line@.len(),
        },
{
    let mut j = i;
    let mut out: Vec<char> = Vec::new();
    proof {
        assert(Seq::<char>::empty() + out@ =~= out@);
        lemma_scan_quoted_bounds(line@, i as int);
    }
    loop
        invariant
            i <= j <= line@.len(),
            scan_quoted(line@, i as int) == scan_cont(line@, j as int, out@),
        decreases line@.len() - j,
    {
        if j >= line.len() {
            return None;
        }
        let c = line[j];
        if c == '"' {
            proof {
                assert(out@ + Seq::<char>::empty() =~= out@);
                lemma_scan_quoted_bounds(line@, i as int);
            }
            return Some((out, j + 1));
        }
        if c == '\\' {
            if j + 1 >= line.len() {
                return None;
            }
            match esc_decode_exec(line[j + 1]) {
                None => {
                    return None;
                },
                Some(d) => {
                    let ghost out_before = out@;
                    out.push(d);
                    proof {
                        if scan_quoted(line@, j + 2) is Some {
                            let q = scan_quoted(line@, j + 2)->Some_0;
                            assert(out_before + (seq![d] + q.0) =~= out@ + q.0);
                        }
                    }
                    j = j + 2;
                },
            }
        } else {
            let ghost out_before = out@;
            out.push(c);
            proof {
                if scan_quoted(line@, j + 1) is Some {
                    let q = scan_quoted(line@, j + 1)->Some_0;
                    assert(out_before + (seq![c] + q.0) =~= out@ + q.0);
                }
            }
            j = j + 1;
        }
    }
}

/// One classified line, holding its texts as vectors of characters.
enum ParsedLine {
    Blank,
    Header(Vec<char>),
    Entry(Vec<char>, Vec<char>),
    Bad,
}

/// The exec classification agrees with the line's meaning.
spec fn parsed_matches(r: ParsedLine, k: LineKind) -> bool {
    match r {
        ParsedLine::Blank => k is Blank,
        ParsedLine::Header(n) => k matches LineKind::Header(sn) && n@ == sn,
        ParsedLine::Entry(a, b) => k matches LineKind::Entry(sa, sb) && a@ == sa && b@ == sb,
        ParsedLine::Bad => k is Bad,
    }
}

fn classify_after_key_exec(line: &Vec<char>, key: Vec<char>, j: usize) -> (r: ParsedLine)
    requires
        j <= line@.len(),
    ensures
        parsed_matches(r, classify_after_key(line@, key@, j as int)),
{
    let j2 = skip_ws_exec(line, j);
    if j2 < line.len() && line[j2] == '=' {
        let j3 = skip_ws_exec(line, j2 + 1);
        if j3 < line.len() && line[j3] == '"' {
            match scan_quoted_exec(line, j3 + 1) {
                None => ParsedLine::Bad,
                Some((val, j4)) => {
                    let j5 = skip_ws_exec(line, j4);
                    if j5 == line.len() || line[j5] == '#' {
                        ParsedLine::Entry(key, val)
                    } else {
                        ParsedLine::Bad
                    }
                },
            }
        } else {
            ParsedLine::Bad
        }
    } else {
        ParsedLine::Bad
    }
}

fn classify_line_exec(line: &Vec<char>) -> (r: ParsedLine)
    ensures
        parsed_matches(r, classify_line(line@)),
{
    let a = skip_ws_exec(line, 0);
    if a >= line.len() {
        return ParsedLine::Blank;
    }
    let c = line[a];
    if c == '#' {
        ParsedLine::Blank
    } else if c == '[' {
        let b = bare_run_end_exec(line, a + 1);
        if b > a + 1 && b < line.len() && line[b] == ']' {
            let after = skip_ws_exec(line, b + 1);
            if after == line.len() {
                ParsedLine::Header(copy_range(line, a + 1, b))
            } else {
                ParsedLine::Bad
            }
        } else {
            ParsedLine::Bad
        }
    } else if c == '"' {
        match scan_quoted_exec(line, a + 1) {
            None => ParsedLine::Bad,
            Some((key, j)) => classify_after_key_exec(line, key, j),
        }
    } else {
        let b = bare_run_end_exec(line, a);
        if b == a {
            ParsedLine::Bad
        } else {
            classify_after_key_exec(line, copy_range(line, a, b), b)
        }
    }
}

/// The views of the seen table names.
pub open spec fn names_view(v: Seq<String>) -> Seq<Seq<char>> {
    v.map_values(|x: String| x@)
}

/// The abstract parse state carried by the parser's concrete accumulators.
pub open spec fn state_of(
    table: TableSel,
    seen: Seq<String>,
    cmds: Seq<(String, String)>,
    dirs: Seq<(String, String)>,
) -> ParseState {
    ParseState {
        table,
        seen: names_view(seen),
        commands: pairs_view(cmds),
        dirs: pairs_view(dirs),
    }
}

fn seen_contains(seen: &Vec<String>, name: &str) -> (b: bool)
    ensures
        b == names_view(seen@).contains(name@),
{
    let mut k: usize = 0;
    while k < seen.len()
        invariant
            k <= seen@.len(),
            forall|j: int| 0 <= j < k ==> (#[trigger] seen@[j])@ != name@,
        decreases seen@.len() - k,
    {
        if crate::text::str_eq(seen[k].as_str(), name) {
            proof {
                assert(names_view(seen@)[k as int] == name@);
            }
            return true;
        }
        k = k + 1;
    }
    proof {
        if names_view(seen@).contains(name@) {
            let j = choose|j: int|
                0 <= j < names_view(seen@).len() && names_view(seen@)[j] == name@;
            assert(seen@[j]@ == name@);
        }
    }
    false
}

fn pairs_have_key(v: &Vec<(String, String)>, key: &str) -> (b: bool)
    ensures
        b == pairs_contain_key(pairs_view(v@), key@),
{
    let mut k: usize = 0;
    while k < v.len()
        invariant
            k <= v@.len(),
            forall|j: int| 0 <= j < k ==> (#[trigger] v@[j]).0@ != key@,
        decreases v@.len() - k,
    {
        if crate::text::str_eq(v[k].0.as_str(), key) {
            proof {
                assert(pairs_view(v@)[k as int].0 == key@);
            }
            return true;
        }
        k = k + 1;
    }
    proof {
        if pairs_contain_key(pairs_view(v@), key@) {
            let j = choose|j: int|
                0 <= j < pairs_view(v@).len() && (#[trigger] pairs_view(v@)[j]).0 == key@;
            assert(v@[j].0@ == key@);
        }
    }
    false
}

proof fn lemma_keys_unique_push(v: Seq<(Seq<char>, Seq<char>)>, p: (Seq<char>, Seq<char>))
    requires
        crate::config::keys_unique(v),
        !pairs_contain_key(v, p.0),
    ensures
        crate::config::keys_unique(v.push(p)),
{
    let w = v.push(p);
    assert forall|j: int, k: int| 0 <= j < k < w.len() implies w[j].0 != w[k].0 by {
        if k < v.len() {
            assert(w[j] == v[j] && w[k] == v[k]);
        } else {
            assert(w[k] == p);
            assert(w[j] == v[j]);
            if v[j].0 == p.0 {
                assert(pairs_contain_key(v, p.0));
            }
        }
    }
}

/// Parses configuration text into a configuration. `origin` names the
/// source of the text in the failure message. A success carries the two
/// mappings in declaration order, each with unique keys; any other text
/// fails with `ParseFailed`.
pub fn parse_config(content: &str, origin: &str) -> (r: Result<Config, ConfigError>)
    ensures
        r is Ok <==> parse_config_spec(content@) is Some,
        r matches Ok(c) ==> (parse_config_spec(content@) matches Some(st)
            && pairs_view(c.commands@) == st.commands && pairs_view(c.semantic_directories@)
            == st.dirs && crate::config::keys_unique(st.commands) && crate::config::keys_unique(
            st.dirs,
        )),
        r matches Err(e) ==> (e matches ConfigError::ParseFailed(m) && m@
            == "Failed to parse config file: "@ + origin@),
{
    let text = crate::text::chars_of(content);
    let mut table = TableSel::Top;
    let mut seen: Vec<String> = Vec::new();
    let mut cmds: Vec<(String, String)> = Vec::new();
    let mut dirs: Vec<(String, String)> = Vec::new();
    let mut i: usize = 0;
    proof {
        assert(names_view(seen@) =~= Seq::<Seq<char>>::empty());
        assert(pairs_view(cmds@) =~= Seq::<(Seq<char>, Seq<char>)>::empty());
        assert(pairs_view(dirs@) =~= Seq::<(Seq<char>, Seq<char>)>::empty());
        assert(state_of(table, seen@, cmds@, dirs@) == init_state());
    }
    while i < text.len()
        invariant
            i <= text@.len(),
            text@ == content@,
            parse_config_spec(content@) == parse_from(
                text@,
                i as int,
                state_of(table, seen@, cmds@, dirs@),
            ),
            crate::config::keys_unique(pairs_view(cmds@)),
            crate::config::keys_unique(pairs_view(dirs@)),
        decreases text@.len() - i,
    {
        let ghost st = state_of(table, seen@, cmds@, dirs@);
        let e = line_end_exec(&text, i);
        let line = copy_range(&text, i, e);
        let ghost kind = classify_line(line@);
        let ghost next_i: int = e + 1;
        match classify_line_exec(&line) {
            ParsedLine::Bad => {
                proof {
                    assert(apply_line(st, kind) is None);
                    assert(parse_from(text@, i as int, st) is None);
                }
                let mut m = String::from_str("Failed to parse config file: ");
                m.append(origin);
                proof {
                    assert(m@ =~= "Failed to parse config file: "@ + origin@);
                }
                return Err(ConfigError::ParseFailed(m));
            },
            ParsedLine::Blank => {
                proof {
                    assert(apply_line(st, kind) == Some(st));
                    assert(parse_from(text@, i as int, st) == parse_from(text@, next_i, st));
                }
            },
            ParsedLine::Header(n) => {
                let name = crate::text::string_of_chars(&n);
                if seen_contains(&seen, name.as_str()) {
                    proof {
                        assert(apply_line(st, kind) is None);
                        assert(parse_from(text@, i as int, st) is None);
                    }
                    let mut m = String::from_str("Failed to parse config file: ");
                    m.append(origin);
                    proof {
                        assert(m@ =~= "Failed to parse config file: "@ + origin@);
                    }
                    return Err(ConfigError::ParseFailed(m));
                }
                let ghost seen_before = seen@;
                seen.push(name.clone());
                table =
                if crate::text::str_eq(name.as_str(), "commands") {
                    TableSel::Commands
                } else if crate::text::str_eq(name.as_str(), "semantic_directories") {
                    TableSel::Dirs
                } else {
                    TableSel::Other
                };
                proof {
                    assert(names_view(seen@) =~= names_view(seen_before).push(n@));
                    assert(state_of(table, seen@, cmds@, dirs@) == apply_line(st, kind)->Some_0);
                    assert(parse_from(text@, i as int, st) == parse_from(
                        text@,
                        next_i,
                        state_of(table, seen@, cmds@, dirs@),
                    ));
                }
            },
            ParsedLine::Entry(k, v) => {
                match table {
                    TableSel::Commands => {
                        let key = crate::text::string_of_chars(&k);
                        if pairs_have_key(&cmds, key.as_str()) {
                            proof {
                                assert(apply_line(st, kind) is None);
                                assert(parse_from(text@, i as int, st) is None);
                            }
                            let mut m = String::from_str("Failed to parse config file: ");
                            m.append(origin);
                            proof {
                                assert(m@ =~= "Failed to parse config file: "@ + origin@);
                            }
                            return Err(ConfigError::ParseFailed(m));
                        }
                        let val = crate::text::string_of_chars(&v);
                        let ghost cmds_before = cmds@;
                        proof {
                            lemma_keys_unique_push(pairs_view(cmds@), (k@, v@));
                        }
                        cmds.push((key, val));
                        proof {
                            assert(pairs_view(cmds@) =~= pairs_view(cmds_before).push((k@, v@)));
                            assert(state_of(table, seen@, cmds@, dirs@) == apply_line(
                                st,
                                kind,
                            )->Some_0);
                            assert(parse_from(text@, i as int, st) == parse_from(
                                text@,
                                next_i,
                                state_of(table, seen@, cmds@, dirs@),
                            ));
                        }
                    },
                    TableSel::Dirs => {
                        let key = crate::text::string_of_chars(&k);
                        if pairs_have_key(&dirs, key.as_str()) {
                            proof {
                                assert(apply_line(st, kind) is None);
                                assert(parse_from(text@, i as int, st) is None);
                            }
                            let mut m = String::from_str("Failed to parse config file: ");
                            m.append(origin);
                            proof {
                                assert(m@ =~= "Failed to parse config file: "@ + origin@);
                            }
                            return Err(ConfigError::ParseFailed(m));
                        }
                        let val = crate::text::string_of_chars(&v);
                        let ghost dirs_before = dirs@;
                        proof {
                            lemma_keys_unique_push(pairs_view(dirs@), (k@, v@));
                        }
                        dirs.push((key, val));
                        proof {
                            assert(pairs_view(dirs@) =~= pairs_view(dirs_before).push((k@, v@)));
                            assert(state_of(table, seen@, cmds@, dirs@) == apply_line(
                                st,
                                kind,
                            )->Some_0);
                            assert(parse_from(text@, i as int, st) == parse_from(
                                text@,
                                next_i,
                                state_of(table, seen@, cmds@, dirs@),
                            ));
                        }
                    },
                    _ => {
                        proof {
                            assert(apply_line(st, kind) == Some(st));
                            assert(parse_from(text@, i as int, st) == parse_from(
                                text@,
                                next_i,
                                st,
                            ));
                        }
                    },
                }
            },
        }
        if e < text.len() {
            i = e + 1;
        } else {
            proof {
                assert(parse_from(text@, e + 1, state_of(table, seen@, cmds@, dirs@))
                    == parse_from(
                    text@,
                    text@.len() as int,
                    state_of(table, seen@, cmds@, dirs@),
                ));
            }
            i = e;
        }
    }
    proof {
        assert(parse_config_spec(content@) == Some(state_of(table, seen@, cmds@, dirs@)));
    }
    Ok(Config { commands: cmds, semantic_directories: dirs })
}

} // verus!
