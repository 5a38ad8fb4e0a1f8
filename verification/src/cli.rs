//! Command-line level decisions that need no terminal and no process:
//! human-readable byte counts, file-extension analysis, shebang parsing,
//! and the priority ladder that picks an interpreter for a gist file.
//! Argument parsing, printing and process spawning live in the
//! surrounding program.

use crate::config::{kv_lookup, kvs_view, Config, InterpreterSetting, UserConfig};
use crate::error::GistCacheError;
use crate::text::{
    contains_str, dec_string, digit_str, ends_with_str, has_substring, is_suffix_of, is_white,
    is_white_char, spec_dec, spec_digit, str_eq,
};
use crate::types::{GistFile, GistFileV, GistInfo};
use vstd::prelude::*;
use vstd::string::*;

verus! {

/// Shells for which completion scripts can be generated.
#[derive(Debug, Copy, Clone, PartialEq, Eq, Structural)]
pub enum Shell {
    /// Bash.
    Bash,
    /// Zsh.
    Zsh,
    /// Fish.
    Fish,
    /// PowerShell.
    PowerShell,
}

/// How listings are rendered.
#[derive(Debug, Copy, Clone, PartialEq, Eq, Structural)]
pub enum OutputFormat {
    /// Human-readable text.
    Text,
    /// JSON for scripting.
    Json,
}

/// Arguments of the cache-update command.
pub struct UpdateArgs {
    /// Force a full resync instead of a differential one.
    pub force: bool,
    /// Narrate each step.
    pub verbose: bool,
}

/// Arguments of the run command.
pub struct RunArgs {
    /// Search keyword: an id, a filename or a description.
    pub query: Option<String>,
    /// Keep stdin attached.
    pub interactive: bool,
    /// Display the content instead of executing it.
    pub preview: bool,
    /// Refresh the cache before running.
    pub force: bool,
    /// Save the files to the download folder.
    pub download: bool,
    /// Treat the query as an id.
    pub id: bool,
    /// Search filenames only.
    pub filename: bool,
    /// Search descriptions only.
    pub description: bool,
    /// Interpreter override.
    pub interpreter: Option<String>,
    /// Arguments handed to the script.
    pub script_args: Vec<String>,
}

/// Arguments of the listing subcommand.
pub struct ListArgs {
    /// Output format.
    pub format: OutputFormat,
}

/// Arguments of the retention-sweep subcommand.
pub struct CleanArgs {
    /// Remove entries older than this many days.
    pub older_than: Option<u32>,
    /// Remove entries without an index record.
    pub orphaned: bool,
    /// Report without deleting.
    pub dry_run: bool,
}

/// One kibibyte.
pub const KB: u64 = 1024;

/// One mebibyte.
pub const MB: u64 = 1048576;

/// One gibibyte.
pub const GB: u64 = 1073741824;

/// One hundred times `n / d`, rounded to the nearest whole number with
/// ties going to the even value - the rounding a fixed two-decimal
/// rendering of the exact quotient performs.
pub open spec fn centi_round(n: nat, d: nat) -> nat
    recommends
        d > 0,
{
    let q = (n * 100) / d;
    let r = (n * 100) % d;
    if 2 * r > d {
        q + 1
    } else if 2 * r < d {
        q
    } else if q % 2 == 0 {
        q
    } else {
        q + 1
    }
}

/// A centi-scaled value rendered with two decimals: whole part, a dot,
/// and exactly two fraction digits.
pub open spec fn spec_fixed2(v: nat) -> Seq<char> {
    spec_dec(v / 100) + seq!['.', spec_digit(((v / 10) % 10) as int), spec_digit((v % 10) as int)]
}

/// The human-readable rendering of a byte count: binary units with two
/// decimals from one kibibyte up, plain bytes below.
pub open spec fn spec_format_bytes(b: nat) -> Seq<char> {
    if b >= GB {
        spec_fixed2(centi_round(b, GB as nat)) + " GB"@
    } else if b >= MB {
        spec_fixed2(centi_round(b, MB as nat)) + " MB"@
    } else if b >= KB {
        spec_fixed2(centi_round(b, KB as nat)) + " KB"@
    } else {
        spec_dec(b) + " bytes"@
    }
}

/// One hundred times `n / d`, rounded half to even.
fn centi_round_u64(n: u64, d: u64) -> (r: u128)
    requires
        d > 0,
    ensures
        r == centi_round(n as nat, d as nat),
{
    let n100: u128 = (n as u128) * 100;
    let dd: u128 = d as u128;
    let q = n100 / dd;
    let rem = n100 % dd;
    if 2 * rem > dd {
        q + 1
    } else if 2 * rem < dd {
        q
    } else if q % 2 == 0 {
        q
    } else {
        q + 1
    }
}

/// Two-decimal rendering of a centi-scaled value.
fn fixed2_string(v: u128) -> (r: String)
    ensures
        r@ == spec_fixed2(v as nat),
{
    let mut s = dec_string(v / 100);
    proof {
        reveal_strlit(".");
    }
    s.append(".");
    s.append(digit_str(((v / 10) % 10) as u8));
    s.append(digit_str((v % 10) as u8));
    proof {
        assert(s@ =~= spec_fixed2(v as nat));
    }
    s
}

/// Render a byte count for humans: `GB`, `MB` or `KB` with two decimals,
/// or a plain count below one kibibyte.
pub fn format_bytes(bytes: u64) -> (r: String)
    ensures
        r@ == spec_format_bytes(bytes as nat),
{
    if bytes >= GB {
        let mut s = fixed2_string(centi_round_u64(bytes, GB));
        s.append(" GB");
        s
    } else if bytes >= MB {
        let mut s = fixed2_string(centi_round_u64(bytes, MB));
        s.append(" MB");
        s
    } else if bytes >= KB {
        let mut s = fixed2_string(centi_round_u64(bytes, KB));
        s.append(" KB");
        s
    } else {
        let mut s = dec_string(bytes as u128);
        s.append(" bytes");
        s
    }
}

/// The position of the last occurrence of `c`, or -1.
pub open spec fn last_pos(s: Seq<char>, c: char) -> int
    decreases s.len(),
{
    if s.len() == 0 {
        -1
    } else if s.last() == c {
        s.len() - 1
    } else {
        last_pos(s.drop_last(), c)
    }
}

/// The last occurrence of `c`, if any.
fn last_pos_exec(s: &str, c: char) -> (r: Option<usize>)
    ensures
        match r {
            Option::Some(p) => p < s@.len() && last_pos(s@, c) == p as int,
            Option::None => last_pos(s@, c) == -1,
        },
{
    let len = s.unicode_len();
    let mut j: usize = len;
    proof {
        assert(s@.take(len as int) =~= s@);
    }
    while j > 0
        invariant
            j <= len,
            len == s@.len(),
            last_pos(s@, c) == last_pos(s@.take(j as int), c),
        decreases j,
    {
        proof {
            assert(s@.take(j as int).last() == s@[j - 1]);
            assert(s@.take(j as int).drop_last() =~= s@.take(j - 1));
        }
        if s.get_char(j - 1) == c {
            return Some(j - 1);
        }
        j = j - 1;
    }
    proof {
        assert(s@.take(0) =~= Seq::<char>::empty());
    }
    None
}

/// The extension of a filename: what follows the last dot, or nothing
/// when the name has no dot at all.
pub open spec fn spec_file_extension(f: Seq<char>) -> Option<Seq<char>> {
    let p = last_pos(f, '.');
    if p >= 0 {
        Option::Some(f.subrange(p + 1, f.len() as int))
    } else {
        Option::None
    }
}

/// Extract a filename's extension, if it has one.
pub fn get_file_extension(filename: &str) -> (r: Option<String>)
    ensures
        match r {
            Option::Some(e) => spec_file_extension(filename@) == Option::Some(e@),
            Option::None => spec_file_extension(filename@) is None,
        },
{
    match last_pos_exec(filename, '.') {
        Option::Some(p) => {
            let len = filename.unicode_len();
            Some(filename.substring_char(p + 1, len).to_owned())
        },
        Option::None => None,
    }
}

/// The interpreter a filename suggests: known special names first, then
/// common extensions.
pub open spec fn spec_interpreter_for_filename(f: Seq<char>) -> Option<Seq<char>> {
    if f == "Makefile"@ || f == "makefile"@ {
        Option::Some("make"@)
    } else {
        match spec_file_extension(f) {
            Option::Some(e) => if e == "py"@ {
                Option::Some("python3"@)
            } else if e == "rb"@ {
                Option::Some("ruby"@)
            } else if e == "js"@ {
                Option::Some("node"@)
            } else if e == "sh"@ {
                Option::Some("bash"@)
            } else if e == "pl"@ {
                Option::Some("perl"@)
            } else if e == "php"@ {
                Option::Some("php"@)
            } else if e == "ts"@ {
                Option::Some("ts-node"@)
            } else {
                Option::None
            },
            Option::None => Option::None,
        }
    }
}

/// Guess an interpreter from the filename alone.
pub fn detect_interpreter_from_filename(filename: &str) -> (r: Option<String>)
    ensures
        match r {
            Option::Some(v) => spec_interpreter_for_filename(filename@) == Option::Some(v@),
            Option::None => spec_interpreter_for_filename(filename@) is None,
        },
{
    if str_eq(filename, "Makefile") || str_eq(filename, "makefile") {
        return Some(String::from_str("make"));
    }
    match get_file_extension(filename) {
        Option::Some(ext) => {
            let e = ext.as_str();
            if str_eq(e, "py") {
                Some(String::from_str("python3"))
            } else if str_eq(e, "rb") {
                Some(String::from_str("ruby"))
            } else if str_eq(e, "js") {
                Some(String::from_str("node"))
            } else if str_eq(e, "sh") {
                Some(String::from_str("bash"))
            } else if str_eq(e, "pl") {
                Some(String::from_str("perl"))
            } else if str_eq(e, "php") {
                Some(String::from_str("php"))
            } else if str_eq(e, "ts") {
                Some(String::from_str("ts-node"))
            } else {
                None
            }
        },
        Option::None => None,
    }
}

/// The interpreter a detected language name maps to.
pub open spec fn spec_interpreter_for_language(l: Seq<char>) -> Option<Seq<char>> {
    if l == "Python"@ {
        Option::Some("python3"@)
    } else if l == "Ruby"@ {
        Option::Some("ruby"@)
    } else if l == "JavaScript"@ || l == "TypeScript"@ {
        Option::Some("node"@)
    } else if l == "Sh"@ || l == "Bash"@ {
        Option::Some("bash"@)
    } else if l == "Perl"@ {
        Option::Some("perl"@)
    } else if l == "Php"@ {
        Option::Some("php"@)
    } else {
        Option::None
    }
}

/// Map a detected language name to an interpreter.
pub fn language_to_interpreter(language: &str) -> (r: Option<String>)
    ensures
        match r {
            Option::Some(v) => spec_interpreter_for_language(language@) == Option::Some(v@),
            Option::None => spec_interpreter_for_language(language@) is None,
        },
{
    if str_eq(language, "Python") {
        Some(String::from_str("python3"))
    } else if str_eq(language, "Ruby") {
        Some(String::from_str("ruby"))
    } else if str_eq(language, "JavaScript") || str_eq(language, "TypeScript") {
        Some(String::from_str("node"))
    } else if str_eq(language, "Sh") || str_eq(language, "Bash") {
        Some(String::from_str("bash"))
    } else if str_eq(language, "Perl") {
        Some(String::from_str("perl"))
    } else if str_eq(language, "Php") {
        Some(String::from_str("php"))
    } else {
        None
    }
}

/// The views of a list of static names.
pub open spec fn strs_view(s: Seq<&str>) -> Seq<Seq<char>> {
    s.map_values(|x: &str| x@)
}

/// The interpreters accepted for a configuration extension key; the `*`
/// key accepts everything.
pub open spec fn spec_valid_interpreters(ext: Seq<char>) -> Seq<Seq<char>> {
    if ext == "py"@ {
        seq!["uv"@, "python3"@]
    } else if ext == "rb"@ {
        seq!["ruby"@]
    } else if ext == "js"@ {
        seq!["node"@]
    } else if ext == "ts"@ {
        seq!["ts-node"@, "deno"@, "bun"@]
    } else if ext == "sh"@ {
        seq!["bash"@, "sh"@, "zsh"@, "fish"@]
    } else if ext == "php"@ {
        seq!["php"@]
    } else if ext == "pl"@ {
        seq!["perl"@]
    } else if ext == "ps1"@ {
        seq!["pwsh"@]
    } else if ext == "*"@ {
        seq![
            "bash"@,
            "sh"@,
            "zsh"@,
            "fish"@,
            "python3"@,
            "uv"@,
            "ruby"@,
            "node"@,
            "ts-node"@,
            "deno"@,
            "bun"@,
            "php"@,
            "perl"@,
            "pwsh"@,
            "make"@,
        ]
    } else {
        Seq::empty()
    }
}

/// The interpreters that may be configured for an extension key.
pub fn get_valid_interpreters_for_extension(extension: &str) -> (r: Vec<&'static str>)
    ensures
        strs_view(r@) == spec_valid_interpreters(extension@),
{
    let r: Vec<&'static str> = if str_eq(extension, "py") {
        vec!["uv", "python3"]
    } else if str_eq(extension, "rb") {
        vec!["ruby"]
    } else if str_eq(extension, "js") {
        vec!["node"]
    } else if str_eq(extension, "ts") {
        vec!["ts-node", "deno", "bun"]
    } else if str_eq(extension, "sh") {
        vec!["bash", "sh", "zsh", "fish"]
    } else if str_eq(extension, "php") {
        vec!["php"]
    } else if str_eq(extension, "pl") {
        vec!["perl"]
    } else if str_eq(extension, "ps1") {
        vec!["pwsh"]
    } else if str_eq(extension, "*") {
        vec![
            "bash",
            "sh",
            "zsh",
            "fish",
            "python3",
            "uv",
            "ruby",
            "node",
            "ts-node",
            "deno",
            "bun",
            "php",
            "perl",
            "pwsh",
            "make",
        ]
    } else {
        Vec::new()
    };
    proof {
        assert(strs_view(r@) =~= spec_valid_interpreters(extension@));
    }
    r
}

/// The interpreter names the run command understands without consulting
/// the machine.
pub open spec fn is_known_interpreter(n: Seq<char>) -> bool {
    ||| n == "bash"@
    ||| n == "sh"@
    ||| n == "zsh"@
    ||| n == "python"@
    ||| n == "python3"@
    ||| n == "ruby"@
    ||| n == "node"@
    ||| n == "perl"@
    ||| n == "php"@
    ||| n == "pwsh"@
    ||| n == "powershell"@
    ||| n == "ts-node"@
    ||| n == "deno"@
    ||| n == "bun"@
    ||| n == "uv"@
    ||| n == "poetry"@
}

/// Whether the run command knows this interpreter name. Names outside the
/// list may still denote installed commands; resolving those against the
/// machine is the caller's concern.
pub fn is_valid_interpreter_name(name: &str) -> (r: bool)
    ensures
        r == is_known_interpreter(name@),
{
    str_eq(name, "bash") || str_eq(name, "sh") || str_eq(name, "zsh") || str_eq(name, "python")
        || str_eq(name, "python3") || str_eq(name, "ruby") || str_eq(name, "node") || str_eq(
        name,
        "perl",
    ) || str_eq(name, "php") || str_eq(name, "pwsh") || str_eq(name, "powershell") || str_eq(
        name,
        "ts-node",
    ) || str_eq(name, "deno") || str_eq(name, "bun") || str_eq(name, "uv") || str_eq(name, "poetry")
}

/// How a known interpreter is run: the command, an optional wrapper
/// invocation, whether it is a shell, and whether it needs a file rather
/// than a pipe. `None` for names the run command does not know.
pub open spec fn spec_parse_interpreter(n: Seq<char>) -> Option<
    (Seq<char>, Option<Seq<char>>, bool, bool),
> {
    if n == "bash"@ || n == "sh"@ || n == "zsh"@ {
        Option::Some((n, Option::None, true, false))
    } else if n == "python"@ || n == "python3"@ || n == "ruby"@ || n == "node"@ || n == "perl"@ {
        Option::Some((n, Option::None, false, false))
    } else if n == "php"@ {
        Option::Some(("php"@, Option::None, false, true))
    } else if n == "pwsh"@ || n == "powershell"@ {
        Option::Some((n, Option::None, false, true))
    } else if n == "ts-node"@ {
        Option::Some(("ts-node"@, Option::None, false, true))
    } else if n == "deno"@ {
        Option::Some(("deno"@, Option::Some("deno run"@), false, true))
    } else if n == "bun"@ {
        Option::Some(("bun"@, Option::None, false, true))
    } else if n == "uv"@ {
        Option::Some(("python3"@, Option::Some("uv run"@), false, true))
    } else if n == "poetry"@ {
        Option::Some(("python3"@, Option::None, false, false))
    } else {
        Option::None
    }
}

/// The view of an optional name.
pub open spec fn opt_str_view(o: Option<&str>) -> Option<Seq<char>> {
    match o {
        Option::Some(s) => Option::Some(s@),
        Option::None => Option::None,
    }
}

/// Turn an interpreter name (or the default, or the bash fallback) into a
/// run plan: `(command, wrapper, is_shell, file_based)`. Unknown names
/// are rejected with `InvalidInterpreter`; whether such a name denotes an
/// installed command is the caller's concern.
pub fn parse_interpreter(interpreter: Option<&str>, default_interpreter: Option<&str>) -> (r:
    Result<(String, Option<String>, bool, bool), GistCacheError>)
    ensures
        ({
            let fi = if opt_str_view(interpreter) is Some {
                opt_str_view(interpreter)
            } else {
                opt_str_view(default_interpreter)
            };
            match fi {
                Option::None => r matches Ok(t) && t.0@ == "bash"@ && t.1 is None && t.2 == true
                    && t.3 == false,
                Option::Some(n) => match spec_parse_interpreter(n) {
                    Option::Some(sp) => r matches Ok(t) && t.0@ == sp.0 && (match t.1 {
                        Option::Some(c) => sp.1 matches Option::Some(d) && c@ == d,
                        Option::None => sp.1 is None,
                    }) && t.2 == sp.2 && t.3 == sp.3,
                    Option::None => r matches Err(e) && e matches
                        GistCacheError::InvalidInterpreter(s) && s@ == n,
                },
            }
        }),
{
    let name: Option<&str> = match interpreter {
        Option::Some(s) => Some(s),
        Option::None => default_interpreter,
    };
    match name {
        Option::None => Ok((String::from_str("bash"), None, true, false)),
        Option::Some(n) => {
            if str_eq(n, "bash") || str_eq(n, "sh") || str_eq(n, "zsh") {
                Ok((n.to_owned(), None, true, false))
            } else if str_eq(n, "python") || str_eq(n, "python3") || str_eq(n, "ruby") || str_eq(
                n,
                "node",
            ) || str_eq(n, "perl") {
                Ok((n.to_owned(), None, false, false))
            } else if str_eq(n, "php") {
                Ok((String::from_str("php"), None, false, true))
            } else if str_eq(n, "pwsh") || str_eq(n, "powershell") {
                Ok((n.to_owned(), None, false, true))
            } else if str_eq(n, "ts-node") {
                Ok((String::from_str("ts-node"), None, false, true))
            } else if str_eq(n, "deno") {
                Ok((String::from_str("deno"), Some(String::from_str("deno run")), false, true))
            } else if str_eq(n, "bun") {
                Ok((String::from_str("bun"), None, false, true))
            } else if str_eq(n, "uv") {
                Ok((String::from_str("python3"), Some(String::from_str("uv run")), false, true))
            } else if str_eq(n, "poetry") {
                Ok((String::from_str("python3"), None, false, false))
            } else {
                Err(GistCacheError::InvalidInterpreter(n.to_owned()))
            }
        },
    }
}


// ---------------------------------------------------------------------
// Shebang analysis.
// ---------------------------------------------------------------------

/// The position of the first newline at or after `i`, or the end.
pub open spec fn line_break(s: Seq<char>, i: int) -> int
    decreases s.len() - i,
    when 0 <= i <= s.len()
{
    if i >= s.len() {
        i
    } else if s[i] == '\n' {
        i
    } else {
        line_break(s, i + 1)
    }
}

/// A line with any trailing carriage return removed.
pub open spec fn strip_cr(l: Seq<char>) -> Seq<char> {
    if l.len() > 0 && l.last() == '\r' {
        l.drop_last()
    } else {
        l
    }
}

/// The first line of a text, or nothing when the text is empty.
pub open spec fn first_line_of(s: Seq<char>) -> Option<Seq<char>> {
    if s.len() == 0 {
        Option::None
    } else {
        Option::Some(strip_cr(s.take(line_break(s, 0))))
    }
}

/// The position after every leading `#!` pair starting at `i`.
pub open spec fn marks_end(l: Seq<char>, i: int) -> int
    decreases l.len() - i,
    when 0 <= i <= l.len()
{
    if i + 2 <= l.len() && l[i] == '#' && l[i + 1] == '!' {
        marks_end(l, i + 2)
    } else {
        i
    }
}

/// The first non-whitespace position at or after `i`, or the end.
pub open spec fn ws_start(l: Seq<char>, i: int) -> int
    decreases l.len() - i,
    when 0 <= i <= l.len()
{
    if i < l.len() && is_white(l[i]) {
        ws_start(l, i + 1)
    } else {
        i
    }
}

/// The end of the non-whitespace run starting at `i`.
pub open spec fn tok_end(l: Seq<char>, i: int) -> int
    decreases l.len() - i,
    when 0 <= i <= l.len()
{
    if i < l.len() && !is_white(l[i]) {
        tok_end(l, i + 1)
    } else {
        i
    }
}

/// The end position after trailing whitespace is trimmed back to `lo`.
pub open spec fn ws_rstrip(l: Seq<char>, lo: int, j: int) -> int
    decreases j - lo,
    when 0 <= lo <= j <= l.len()
{
    if j > lo && is_white(l[j - 1]) {
        ws_rstrip(l, lo, j - 1)
    } else {
        j
    }
}

/// Where whitespace skipping lands: within bounds, on a non-whitespace
/// character or the end, with only whitespace behind it.
pub proof fn lemma_ws_start_bounds(l: Seq<char>, i: int)
    requires
        0 <= i <= l.len(),
    ensures
        i <= ws_start(l, i) <= l.len(),
        ws_start(l, i) < l.len() ==> !is_white(l[ws_start(l, i)]),
    decreases l.len() - i,
{
    if i < l.len() && is_white(l[i]) {
        lemma_ws_start_bounds(l, i + 1);
    }
}

/// Where a token ends: within bounds, past its non-whitespace start.
pub proof fn lemma_tok_end_bounds(l: Seq<char>, i: int)
    requires
        0 <= i <= l.len(),
    ensures
        i <= tok_end(l, i) <= l.len(),
        (i < l.len() && !is_white(l[i])) ==> tok_end(l, i) > i,
    decreases l.len() - i,
{
    if i < l.len() && !is_white(l[i]) {
        lemma_tok_end_bounds(l, i + 1);
    }
}

/// The whitespace-separated token after the first one ending in `env`,
/// scanning from position `i`.
pub open spec fn env_next_token(l: Seq<char>, i: int) -> Option<Seq<char>>
    decreases l.len() - i,
    when 0 <= i <= l.len()
    via env_next_token_dec
{
    let s = ws_start(l, i);
    if s >= l.len() {
        Option::None
    } else {
        let e = tok_end(l, s);
        if is_suffix_of("env"@, l.subrange(s, e)) {
            let s2 = ws_start(l, e);
            if s2 >= l.len() {
                Option::None
            } else {
                Option::Some(l.subrange(s2, tok_end(l, s2)))
            }
        } else {
            env_next_token(l, e)
        }
    }
}

#[via_fn]
proof fn env_next_token_dec(l: Seq<char>, i: int) {
    lemma_ws_start_bounds(l, i);
    let s = ws_start(l, i);
    if s < l.len() {
        lemma_tok_end_bounds(l, s);
    }
}

/// The first whitespace-separated token, or nothing.
pub open spec fn first_token(l: Seq<char>) -> Option<Seq<char>> {
    let s = ws_start(l, 0);
    if s >= l.len() {
        Option::None
    } else {
        Option::Some(l.subrange(s, tok_end(l, s)))
    }
}

/// What a shebang line names as the interpreter. The first line must open
/// with `#!`; after the markers and surrounding whitespace are dropped, an
/// `env` invocation yields the token after the one ending in `env`, and a
/// direct path yields the first token of its last `/`-separated component.
pub open spec fn spec_detect_shebang(content: Seq<char>) -> Option<Seq<char>> {
    match first_line_of(content) {
        Option::None => Option::None,
        Option::Some(line) => {
            if !(line.len() >= 2 && line[0] == '#' && line[1] == '!') {
                Option::None
            } else {
                let m = marks_end(line, 0);
                let s = ws_start(line, m);
                let e = ws_rstrip(line, s, line.len() as int);
                let sb = line.subrange(s, e);
                if has_substring(sb, "env"@) && env_next_token(sb, 0) is Some {
                    env_next_token(sb, 0)
                } else {
                    first_token(sb.subrange(last_pos(sb, '/') + 1, sb.len() as int))
                }
            }
        },
    }
}

/// Skip whitespace forward.
fn ws_start_exec(s: &str, from: usize) -> (r: usize)
    requires
        from <= s@.len(),
    ensures
        r == ws_start(s@, from as int),
        from <= r <= s@.len(),
{
    let len = s.unicode_len();
    let mut i = from;
    while i < len && is_white_char(s.get_char(i))
        invariant
            from <= i <= len,
            len == s@.len(),
            ws_start(s@, from as int) == ws_start(s@, i as int),
        decreases len - i,
    {
        i = i + 1;
    }
    i
}

/// Advance to the end of the token at `from`.
fn tok_end_exec(s: &str, from: usize) -> (r: usize)
    requires
        from <= s@.len(),
    ensures
        r == tok_end(s@, from as int),
        from <= r <= s@.len(),
{
    let len = s.unicode_len();
    let mut i = from;
    while i < len && !is_white_char(s.get_char(i))
        invariant
            from <= i <= len,
            len == s@.len(),
            tok_end(s@, from as int) == tok_end(s@, i as int),
        decreases len - i,
    {
        i = i + 1;
    }
    i
}

/// Scan an `env`-style shebang tail for the token after the one ending in
/// `env`.
fn env_token_exec(sb: &str) -> (r: Option<String>)
    ensures
        match r {
            Option::Some(x) => env_next_token(sb@, 0) == Option::Some(x@),
            Option::None => env_next_token(sb@, 0) is None,
        },
{
    let len = sb.unicode_len();
    let mut i: usize = 0;
    loop
        invariant
            i <= len,
            len == sb@.len(),
            env_next_token(sb@, 0) == env_next_token(sb@, i as int),
        decreases len - i,
    {
        let s = ws_start_exec(sb, i);
        if s >= len {
            return None;
        }
        let e = tok_end_exec(sb, s);
        proof {
            lemma_ws_start_bounds(sb@, i as int);
            lemma_tok_end_bounds(sb@, s as int);
        }
        let tok = sb.substring_char(s, e);
        if ends_with_str(tok, "env") {
            let s2 = ws_start_exec(sb, e);
            if s2 >= len {
                return None;
            }
            let e2 = tok_end_exec(sb, s2);
            return Some(sb.substring_char(s2, e2).to_owned());
        }
        proof {
            assert(env_next_token(sb@, i as int) == env_next_token(sb@, e as int));
        }
        i = e;
    }
}

/// Read the interpreter out of a text's shebang line, if it has one.
pub fn detect_shebang(content: &str) -> (r: Option<String>)
    ensures
        match r {
            Option::Some(x) => spec_detect_shebang(content@) == Option::Some(x@),
            Option::None => spec_detect_shebang(content@) is None,
        },
{
    let clen = content.unicode_len();
    if clen == 0 {
        return None;
    }
    // find the end of the first line
    let mut lb: usize = 0;
    while lb < clen && content.get_char(lb) != '\n'
        invariant
            lb <= clen,
            clen == content@.len(),
            line_break(content@, 0) == line_break(content@, lb as int),
        decreases clen - lb,
    {
        lb = lb + 1;
    }
    let mut ll = lb;
    if ll > 0 && content.get_char(ll - 1) == '\r' {
        ll = ll - 1;
    }
    let ghost line = strip_cr(content@.take(lb as int));
    proof {
        assert(line =~= content@.take(ll as int));
        assert(forall|k: int| 0 <= k < ll ==> line[k] == content@[k]);
    }
    if ll < 2 || content.get_char(0) != '#' || content.get_char(1) != '!' {
        return None;
    }
    // skip every leading `#!` pair
    let mut m: usize = 0;
    while m <= ll - 2 && content.get_char(m) == '#' && content.get_char(m + 1) == '!'
        invariant
            m <= ll,
            ll >= 2,
            ll <= clen,
            clen == content@.len(),
            line == content@.take(ll as int),
            line.len() == ll,
            marks_end(line, 0) == marks_end(line, m as int),
        decreases ll - m,
    {
        m = m + 2;
    }
    // trim surrounding whitespace
    let mut s = m;
    while s < ll && is_white_char(content.get_char(s))
        invariant
            m <= s <= ll,
            ll <= clen,
            clen == content@.len(),
            line == content@.take(ll as int),
            line.len() == ll,
            ws_start(line, m as int) == ws_start(line, s as int),
        decreases ll - s,
    {
        s = s + 1;
    }
    let mut e = ll;
    while e > s && is_white_char(content.get_char(e - 1))
        invariant
            s <= e <= ll,
            ll <= clen,
            clen == content@.len(),
            line == content@.take(ll as int),
            line.len() == ll,
            ws_rstrip(line, s as int, ll as int) == ws_rstrip(line, s as int, e as int),
        decreases e,
    {
        e = e - 1;
    }
    let sb = content.substring_char(s, e);
    proof {
        assert(sb@ =~= line.subrange(s as int, e as int));
    }
    if contains_str(sb, "env") {
        match env_token_exec(sb) {
            Option::Some(x) => {
                return Some(x);
            },
            Option::None => {},
        }
    }
    // direct path: the last `/`-separated component's first token
    let sblen = sb.unicode_len();
    let tail = match last_pos_exec(sb, '/') {
        Option::Some(p) => sb.substring_char(p + 1, sblen),
        Option::None => sb,
    };
    proof {
        assert(tail@ =~= sb@.subrange(last_pos(sb@, '/') + 1, sb@.len() as int));
    }
    let tlen = tail.unicode_len();
    let ts = ws_start_exec(tail, 0);
    if ts >= tlen {
        return None;
    }
    let te = tok_end_exec(tail, ts);
    Some(tail.substring_char(ts, te).to_owned())
}


// ---------------------------------------------------------------------
// The interpreter priority ladder.
// ---------------------------------------------------------------------

/// The interpreter the configuration names for a file: a whole-filename
/// entry wins over an extension entry; a single-interpreter setting does
/// not take part here.
pub open spec fn spec_interp_from_config(c: UserConfig, f: Seq<char>) -> Option<Seq<char>> {
    match c.defaults {
        Option::Some(d) => match d.interpreter {
            Option::Some(InterpreterSetting::Multiple(m)) => match kv_lookup(kvs_view(m@), f) {
                Option::Some(v) => Option::Some(v),
                Option::None => match spec_file_extension(f) {
                    Option::Some(e) => kv_lookup(kvs_view(m@), e),
                    Option::None => Option::None,
                },
            },
            _ => Option::None,
        },
        Option::None => Option::None,
    }
}

/// The interpreter the user configuration names for a file, if any.
pub fn detect_interpreter_from_config(config: &Config, filename: &str) -> (r: Option<String>)
    ensures
        match r {
            Option::Some(v) => spec_interp_from_config(config.user_config, filename@)
                == Option::Some(v@),
            Option::None => spec_interp_from_config(config.user_config, filename@) is None,
        },
{
    match &config.user_config.defaults {
        Option::Some(d) => match &d.interpreter {
            Option::Some(InterpreterSetting::Multiple(m)) => {
                match Config::table_get(m, filename) {
                    Option::Some(v) => Some(v),
                    Option::None => match get_file_extension(filename) {
                        Option::Some(e) => Config::table_get(m, e.as_str()),
                        Option::None => None,
                    },
                }
            },
            Option::Some(InterpreterSetting::Single(_)) => None,
            Option::None => None,
        },
        Option::None => None,
    }
}

/// What the language table answers for a filename. The answer depends on
/// the name alone, so it carries a name rather than a definition.
pub uninterp spec fn tokei_extension_language(f: Seq<char>) -> Option<Seq<char>>;

/// Relies on tokei's `LanguageType::from_file_extension` and the debug
/// rendering of its variants: the looked-up language of a name, a
/// function of the name alone.
#[verifier::external_body]
fn extension_language(filename: &str) -> (r: Option<String>)
    ensures
        match r {
            Option::Some(l) => tokei_extension_language(filename@) == Option::Some(l@),
            Option::None => tokei_extension_language(filename@) is None,
        },
{
    tokei::LanguageType::from_file_extension(filename).map(|lt| format!("{:?}", lt))
}

/// The language a file's content suggests: the language table first, then
/// coarse content heuristics.
pub open spec fn spec_language_from_content(content: Seq<char>, f: Seq<char>) -> Option<Seq<char>> {
    match tokei_extension_language(f) {
        Option::Some(l) => Option::Some(l),
        Option::None => {
            if has_substring(content, "def "@) && has_substring(content, "import "@) {
                Option::Some("Python"@)
            } else if has_substring(content, "function "@) || has_substring(content, "const "@)
                || has_substring(content, "let "@) {
                Option::Some("JavaScript"@)
            } else if has_substring(content, "class "@) && has_substring(content, "def "@) {
                Option::Some("Ruby"@)
            } else {
                Option::None
            }
        },
    }
}

/// Guess the language of a file from its name and content.
fn detect_language_from_content(content: &str, filename: &str) -> (r: Option<String>)
    ensures
        match r {
            Option::Some(l) => spec_language_from_content(content@, filename@) == Option::Some(l@),
            Option::None => spec_language_from_content(content@, filename@) is None,
        },
{
    match extension_language(filename) {
        Option::Some(l) => Some(l),
        Option::None => {
            if contains_str(content, "def ") && contains_str(content, "import ") {
                Some(String::from_str("Python"))
            } else if contains_str(content, "function ") || contains_str(content, "const ")
                || contains_str(content, "let ") {
                Some(String::from_str("JavaScript"))
            } else if contains_str(content, "class ") && contains_str(content, "def ") {
                Some(String::from_str("Ruby"))
            } else {
                None
            }
        },
    }
}

/// Whether a run-plan result matches what `spec_parse_interpreter` says
/// of the chosen name (`None` standing for the bash fallback).
pub open spec fn parse_result_matches(
    r: Result<(String, Option<String>, bool, bool), GistCacheError>,
    fi: Option<Seq<char>>,
) -> bool {
    match fi {
        Option::None => r matches Ok(t) && t.0@ == "bash"@ && t.1 is None && t.2 == true && t.3
            == false,
        Option::Some(n) => match spec_parse_interpreter(n) {
            Option::Some(sp) => r matches Ok(t) && t.0@ == sp.0 && (match t.1 {
                Option::Some(c) => sp.1 matches Option::Some(d) && c@ == d,
                Option::None => sp.1 is None,
            }) && t.2 == sp.2 && t.3 == sp.3,
            Option::None => r matches Err(e) && e matches GistCacheError::InvalidInterpreter(s)
                && s@ == n,
        },
    }
}

/// The name the priority ladder picks: the explicit argument, a known
/// shebang interpreter, the configuration table, filename heuristics,
/// content heuristics, then the configured global default. `None` means
/// the bash fallback.
pub open spec fn spec_resolve_name(
    arg: Option<Seq<char>>,
    f: Seq<char>,
    content: Option<Seq<char>>,
    c: UserConfig,
) -> Option<Seq<char>> {
    if arg is Some {
        arg
    } else if content matches Option::Some(txt) && spec_detect_shebang(txt) matches Option::Some(
        sb,
    ) && is_known_interpreter(sb) {
        spec_detect_shebang(content->0)
    } else if spec_interp_from_config(c, f) is Some {
        spec_interp_from_config(c, f)
    } else if spec_interpreter_for_filename(f) is Some {
        spec_interpreter_for_filename(f)
    } else if content matches Option::Some(txt) && spec_language_from_content(txt, f) matches
        Option::Some(l) && spec_interpreter_for_language(l) is Some {
        spec_interpreter_for_language(spec_language_from_content(content->0, f)->0)
    } else {
        match c.defaults {
            Option::Some(d) => match d.interpreter {
                Option::Some(InterpreterSetting::Single(s)) => Option::Some(s@),
                Option::Some(InterpreterSetting::Multiple(m)) => kv_lookup(kvs_view(m@), "*"@),
                Option::None => Option::None,
            },
            Option::None => Option::None,
        }
    }
}

/// Resolve the interpreter for a file by priority: explicit argument,
/// shebang, configuration, filename heuristics, content heuristics,
/// configured default, and finally bash.
pub fn resolve_interpreter(
    interpreter_arg: Option<&str>,
    filename: &str,
    content: Option<&str>,
    config: &Config,
) -> (r: Result<(String, Option<String>, bool, bool), GistCacheError>)
    ensures
        parse_result_matches(
            r,
            spec_resolve_name(
                opt_str_view(interpreter_arg),
                filename@,
                opt_str_view(content),
                config.user_config,
            ),
        ),
{
    if let Option::Some(interp) = interpreter_arg {
        return parse_interpreter(Some(interp), None);
    }
    if let Option::Some(text) = content {
        match detect_shebang(text) {
            Option::Some(sb) => {
                if is_valid_interpreter_name(sb.as_str()) {
                    return parse_interpreter(Some(sb.as_str()), None);
                }
            },
            Option::None => {},
        }
    }
    match detect_interpreter_from_config(config, filename) {
        Option::Some(ci) => {
            return parse_interpreter(Some(ci.as_str()), None);
        },
        Option::None => {},
    }
    match detect_interpreter_from_filename(filename) {
        Option::Some(hi) => {
            return parse_interpreter(Some(hi.as_str()), None);
        },
        Option::None => {},
    }
    if let Option::Some(text) = content {
        match detect_language_from_content(text, filename) {
            Option::Some(lang) => {
                match language_to_interpreter(lang.as_str()) {
                    Option::Some(li) => {
                        return parse_interpreter(Some(li.as_str()), None);
                    },
                    Option::None => {},
                }
            },
            Option::None => {},
        }
    }
    match &config.user_config.defaults {
        Option::Some(d) => match &d.interpreter {
            Option::Some(InterpreterSetting::Single(s)) => parse_interpreter(Some(s.as_str()), None),
            Option::Some(InterpreterSetting::Multiple(m)) => {
                match Config::table_get(m, "*") {
                    Option::Some(w) => parse_interpreter(Some(w.as_str()), None),
                    Option::None => Ok((String::from_str("bash"), None, true, false)),
                }
            },
            Option::None => Ok((String::from_str("bash"), None, true, false)),
        },
        Option::None => Ok((String::from_str("bash"), None, true, false)),
    }
}

/// Whether a file's extension marks it as a script.
pub open spec fn is_script_extension(e: Seq<char>) -> bool {
    ||| e == "py"@
    ||| e == "rb"@
    ||| e == "js"@
    ||| e == "sh"@
    ||| e == "pl"@
    ||| e == "php"@
    ||| e == "ts"@
}

/// Whether a file looks like a script by extension.
pub open spec fn file_is_script(f: GistFileV) -> bool {
    match spec_file_extension(f.filename) {
        Option::Some(e) => is_script_extension(e),
        Option::None => false,
    }
}

/// The first script-looking file, if any.
pub open spec fn first_script_file(files: Seq<GistFileV>) -> Option<GistFileV>
    decreases files.len(),
{
    if files.len() == 0 {
        Option::None
    } else if file_is_script(files[0]) {
        Option::Some(files[0])
    } else {
        first_script_file(files.drop_first())
    }
}

/// The file a multi-file gist is judged by: the only file, else the first
/// script-looking one, else the first file.
pub open spec fn spec_main_file_for_gist(files: Seq<GistFileV>) -> GistFileV
    recommends
        files.len() > 0,
{
    if files.len() == 1 {
        files[0]
    } else {
        match first_script_file(files) {
            Option::Some(f) => f,
            Option::None => files[0],
        }
    }
}

/// A first match at index `i` settles `first_script_file`.
proof fn lemma_first_script_at(files: Seq<GistFileV>, i: int)
    requires
        0 <= i < files.len(),
        file_is_script(files[i]),
        forall|k: int| 0 <= k < i ==> !file_is_script(files[k]),
    ensures
        first_script_file(files) == Option::Some(files[i]),
    decreases i,
{
    if i > 0 {
        lemma_first_script_at(files.drop_first(), i - 1);
    }
}

/// No match anywhere settles `first_script_file` to `None`.
proof fn lemma_first_script_none(files: Seq<GistFileV>)
    requires
        forall|k: int| 0 <= k < files.len() ==> !file_is_script(files[k]),
    ensures
        first_script_file(files) is None,
    decreases files.len(),
{
    if files.len() > 0 {
        lemma_first_script_none(files.drop_first());
    }
}

/// Whether this file's extension marks it as a script.
fn file_is_script_exec(f: &GistFile) -> (r: bool)
    ensures
        r == file_is_script(f@),
{
    match get_file_extension(f.filename.as_str()) {
        Option::Some(e) => {
            let s = e.as_str();
            str_eq(s, "py") || str_eq(s, "rb") || str_eq(s, "js") || str_eq(s, "sh") || str_eq(
                s,
                "pl",
            ) || str_eq(s, "php") || str_eq(s, "ts")
        },
        Option::None => false,
    }
}

/// Pick the file that decides a gist's interpreter.
pub fn select_main_file_for_gist(gist: &GistInfo) -> (r: Result<&GistFile, GistCacheError>)
    requires
        gist.files@.len() > 0,
    ensures
        r matches Ok(f) && f@ == spec_main_file_for_gist(gist@.files),
{
    let ghost fv = gist@.files;
    if gist.files.len() == 1 {
        proof {
            assert(fv[0] == gist.files@[0]@);
        }
        return Ok(&gist.files[0]);
    }
    let mut i: usize = 0;
    while i < gist.files.len()
        invariant
            i <= gist.files.len(),
            fv == gist@.files,
            fv.len() == gist.files.len(),
            fv.len() >= 2,
            forall|k: int| 0 <= k < i ==> !file_is_script(fv[k]),
        decreases gist.files.len() - i,
    {
        proof {
            assert(fv[i as int] == gist.files@[i as int]@);
        }
        if file_is_script_exec(&gist.files[i]) {
            proof {
                lemma_first_script_at(fv, i as int);
            }
            return Ok(&gist.files[i]);
        }
        i = i + 1;
    }
    proof {
        lemma_first_script_none(fv);
        assert(fv[0] == gist.files@[0]@);
    }
    Ok(&gist.files[0])
}

} // verus!