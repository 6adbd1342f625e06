//! The admin command protocol: command parsing and response framing.
//!
//! A client sends one command line — `version`, `reload [path]`, `apply`
//! (followed by a configuration body up to a blank line), or `stats` —
//! and receives one JSON object `{"success":...,"message":"..."}`. The
//! socket handling runs outside the library; it hands lines in and sends
//! the rendered response back. Parsing, body collection and rendering are
//! verified here, character by character.

use vstd::prelude::*;
use crate::config::{config_error_text, ConfigError};
use crate::text::concat_str;
use crate::text::str_eq;

verus! {

/// The whitespace that separates command words.
pub open spec fn is_ws(c: char) -> bool {
    c == ' ' || c == '\t' || c == '\r' || c == '\n'
}

/// The first index at or after `i` holding a non-whitespace character
/// (the length when there is none).
pub open spec fn skip_ws(s: Seq<char>, i: int) -> int
    recommends
        0 <= i <= s.len(),
    decreases s.len() - i,
{
    if i < 0 || i >= s.len() {
        s.len() as int
    } else if is_ws(s[i]) {
        skip_ws(s, i + 1)
    } else {
        i
    }
}

/// The first index at or after `i` holding whitespace (the length when
/// there is none): the end of the token starting at `i`.
pub open spec fn scan_token(s: Seq<char>, i: int) -> int
    recommends
        0 <= i <= s.len(),
    decreases s.len() - i,
{
    if i < 0 || i >= s.len() {
        s.len() as int
    } else if is_ws(s[i]) {
        i
    } else {
        scan_token(s, i + 1)
    }
}

/// One parsed admin command.
#[derive(Debug)]
pub enum AdminCommand {
    /// Report the server version.
    Version,
    /// Reload the configuration, from the given path if one was named.
    Reload(Option<String>),
    /// Apply the configuration body that follows the command line.
    Apply,
    /// Report per-room health records.
    Stats,
    /// Any other first word.
    Unknown(String),
    /// A line holding nothing but whitespace.
    Empty,
}

/// What `parse_command` returns for a line: the command named by the
/// line's first word; for `reload`, the second word as the path when
/// there is one.
pub open spec fn parse_command_matches(s: Seq<char>, r: AdminCommand) -> bool {
    let a0 = skip_ws(s, 0);
    let a1 = scan_token(s, a0);
    let tok1 = s.subrange(a0, a1);
    let b0 = skip_ws(s, a1);
    let b1 = scan_token(s, b0);
    if a0 == s.len() {
        r is Empty
    } else if tok1 == "version"@ {
        r is Version
    } else if tok1 == "reload"@ {
        r is Reload && (if b0 == s.len() {
            r->Reload_0 is None
        } else {
            r->Reload_0 is Some && r->Reload_0->Some_0@ == s.subrange(b0, b1)
        })
    } else if tok1 == "apply"@ {
        r is Apply
    } else if tok1 == "stats"@ {
        r is Stats
    } else {
        r is Unknown && r->Unknown_0@ == tok1
    }
}

/// Whether this character separates command words.
fn is_ws_char(c: char) -> (r: bool)
    ensures
        r == is_ws(c),
{
    c == ' ' || c == '\t' || c == '\r' || c == '\n'
}

/// Parses one admin command line.
pub fn parse_command(line: &str) -> (r: AdminCommand)
    ensures
        parse_command_matches(line@, r),
{
    let n = line.unicode_len();
    let mut i: usize = 0;
    while i < n && is_ws_char(line.get_char(i))
        invariant
            0 <= i <= n,
            n == line@.len(),
            skip_ws(line@, 0) == skip_ws(line@, i as int),
        decreases n - i,
    {
        i = i + 1;
    }
    let a0 = i;
    proof {
        assert(skip_ws(line@, 0) == a0 as int);
    }
    if a0 == n {
        return AdminCommand::Empty;
    }
    let mut j: usize = a0;
    while j < n && !is_ws_char(line.get_char(j))
        invariant
            a0 <= j <= n,
            n == line@.len(),
            scan_token(line@, a0 as int) == scan_token(line@, j as int),
        decreases n - j,
    {
        j = j + 1;
    }
    let a1 = j;
    proof {
        assert(scan_token(line@, a0 as int) == a1 as int);
    }
    let tok1 = line.substring_char(a0, a1);
    if str_eq(tok1, "version") {
        return AdminCommand::Version;
    }
    if str_eq(tok1, "reload") {
        let mut i2: usize = a1;
        while i2 < n && is_ws_char(line.get_char(i2))
            invariant
                a1 <= i2 <= n,
                n == line@.len(),
                skip_ws(line@, a1 as int) == skip_ws(line@, i2 as int),
            decreases n - i2,
        {
            i2 = i2 + 1;
        }
        let b0 = i2;
        proof {
            assert(skip_ws(line@, a1 as int) == b0 as int);
        }
        if b0 == n {
            return AdminCommand::Reload(None);
        }
        let mut j2: usize = b0;
        while j2 < n && !is_ws_char(line.get_char(j2))
            invariant
                b0 <= j2 <= n,
                n == line@.len(),
                scan_token(line@, b0 as int) == scan_token(line@, j2 as int),
            decreases n - j2,
        {
            j2 = j2 + 1;
        }
        let b1 = j2;
        proof {
            assert(scan_token(line@, b0 as int) == b1 as int);
        }
        let path = String::from_str(line.substring_char(b0, b1));
        return AdminCommand::Reload(Some(path));
    }
    if str_eq(tok1, "apply") {
        return AdminCommand::Apply;
    }
    if str_eq(tok1, "stats") {
        return AdminCommand::Stats;
    }
    AdminCommand::Unknown(String::from_str(tok1))
}

/// A line holding nothing but whitespace.
pub open spec fn is_blank(s: Seq<char>) -> bool {
    forall|i: int| 0 <= i < s.len() ==> is_ws(#[trigger] s[i])
}

/// True when the line holds nothing but whitespace.
pub fn line_is_blank(line: &str) -> (r: bool)
    ensures
        r == is_blank(line@),
{
    let n = line.unicode_len();
    let mut i: usize = 0;
    while i < n
        invariant
            0 <= i <= n,
            n == line@.len(),
            forall|j: int| 0 <= j < i ==> is_ws(#[trigger] line@[j]),
        decreases n - i,
    {
        if !is_ws_char(line.get_char(i)) {
            return false;
        }
        i = i + 1;
    }
    true
}

/// The first line at or after `i` that is not blank (the count when
/// there is none).
pub open spec fn first_nonblank_from(ls: Seq<Seq<char>>, i: int) -> int
    recommends
        0 <= i <= ls.len(),
    decreases ls.len() - i,
{
    if i < 0 || i >= ls.len() {
        ls.len() as int
    } else if is_blank(ls[i]) {
        first_nonblank_from(ls, i + 1)
    } else {
        i
    }
}

/// The first blank line at or after `i` (the count when there is none).
pub open spec fn first_blank_from(ls: Seq<Seq<char>>, i: int) -> int
    recommends
        0 <= i <= ls.len(),
    decreases ls.len() - i,
{
    if i < 0 || i >= ls.len() {
        ls.len() as int
    } else if is_blank(ls[i]) {
        i
    } else {
        first_blank_from(ls, i + 1)
    }
}

/// Lines `i` to `j` joined, each with a newline after it.
pub open spec fn joined_lines(ls: Seq<Seq<char>>, i: int, j: int) -> Seq<char>
    decreases j - i,
{
    if i < 0 || i >= j || j > ls.len() {
        Seq::empty()
    } else {
        ls[i] + "\n"@ + joined_lines(ls, i + 1, j)
    }
}

/// The configuration body of an `apply` exchange: the lines after the
/// command, skipping leading blank lines, up to the first blank line
/// that follows the body.
pub open spec fn apply_body(ls: Seq<Seq<char>>) -> Seq<char> {
    let f = first_nonblank_from(ls, 0);
    let e = first_blank_from(ls, f);
    joined_lines(ls, f, e)
}

/// Collects the configuration body of an `apply` exchange from the lines
/// that followed the command.
pub fn collect_apply_body(lines: &Vec<String>) -> (r: String)
    ensures
        r@ == apply_body(lines@.map_values(|l: String| l@)),
{
    let ghost ls = lines@.map_values(|l: String| l@);
    let n = lines.len();
    let mut i: usize = 0;
    while i < n && line_is_blank(lines[i].as_str())
        invariant
            0 <= i <= n,
            n == ls.len(),
            ls == lines@.map_values(|l: String| l@),
            first_nonblank_from(ls, 0) == first_nonblank_from(ls, i as int),
        decreases n - i,
    {
        i = i + 1;
    }
    let f = i;
    proof {
        assert(first_nonblank_from(ls, 0) == f as int);
    }
    let mut out = String::new();
    let mut j: usize = f;
    while j < n && !line_is_blank(lines[j].as_str())
        invariant
            f <= j <= n,
            n == ls.len(),
            ls == lines@.map_values(|l: String| l@),
            first_blank_from(ls, f as int) == first_blank_from(ls, j as int),
            out@ + joined_lines(ls, j as int, first_blank_from(ls, j as int)) == joined_lines(
                ls,
                f as int,
                first_blank_from(ls, f as int),
            ),
        decreases n - j,
    {
        let ghost prev_out = out@;
        proof {
            lemma_first_blank_lb(ls, j as int + 1);
        }
        out.append(lines[j].as_str());
        out.append("\n");
        proof {
            let fb = first_blank_from(ls, j as int);
            assert(fb == first_blank_from(ls, j as int + 1));
            assert(fb >= j as int + 1);
            assert(joined_lines(ls, j as int, fb) == ls[j as int] + "\n"@ + joined_lines(
                ls,
                j as int + 1,
                fb,
            ));
            assert(out@ + joined_lines(ls, j as int + 1, fb) =~= prev_out + joined_lines(
                ls,
                j as int,
                fb,
            ));
        }
        j = j + 1;
    }
    proof {
        assert(first_blank_from(ls, j as int) == j as int);
        assert(joined_lines(ls, j as int, j as int) =~= Seq::<char>::empty());
        assert(out@ =~= apply_body(ls));
    }
    out
}

/// The blank-line scan never answers before its starting point.
proof fn lemma_first_blank_lb(ls: Seq<Seq<char>>, i: int)
    requires
        0 <= i <= ls.len(),
    ensures
        i <= first_blank_from(ls, i) <= ls.len(),
    decreases ls.len() - i,
{
    if i < ls.len() && !is_blank(ls[i]) {
        lemma_first_blank_lb(ls, i + 1);
    }
}

/// One admin response: whether the command succeeded, and its message.
#[derive(Debug)]
pub struct AdminResponse {
    pub success: bool,
    pub message: String,
}

/// A character as it appears inside a JSON string: quotes, backslashes
/// and the common control characters escaped, everything else verbatim.
pub open spec fn json_escaped_char(c: char) -> Seq<char> {
    if c == '"' {
        "\\\""@
    } else if c == '\\' {
        "\\\\"@
    } else if c == '\n' {
        "\\n"@
    } else if c == '\r' {
        "\\r"@
    } else if c == '\t' {
        "\\t"@
    } else {
        seq![c]
    }
}

/// A whole string as it appears inside a JSON string.
pub open spec fn json_escaped(s: Seq<char>) -> Seq<char>
    decreases s.len(),
{
    if s.len() == 0 {
        Seq::empty()
    } else {
        json_escaped(s.drop_last()) + json_escaped_char(s.last())
    }
}

/// The JSON rendering of a response:
/// `{"success":...,"message":"..."}` with the message escaped.
pub open spec fn admin_response_json(r: AdminResponse) -> Seq<char> {
    "{\"success\":"@ + (if r.success {
        "true"@
    } else {
        "false"@
    }) + ",\"message\":\""@ + json_escaped(r.message@) + "\"}"@
}

impl AdminResponse {
    /// Renders the response as the one-object JSON the protocol answers
    /// with.
    pub fn to_json(&self) -> (r: String)
        ensures
            r@ == admin_response_json(*self),
    {
        let mut out = String::from_str("{\"success\":");
        if self.success {
            out.append("true");
        } else {
            out.append("false");
        }
        out.append(",\"message\":\"");
        let msg = self.message.as_str();
        let n = msg.unicode_len();
        let mut i: usize = 0;
        while i < n
            invariant
                0 <= i <= n,
                n == msg@.len(),
                msg@ == self.message@,
                out@ == "{\"success\":"@ + (if self.success {
                    "true"@
                } else {
                    "false"@
                }) + ",\"message\":\""@ + json_escaped(msg@.take(i as int)),
            decreases n - i,
        {
            proof {
                assert(msg@.take(i as int + 1).drop_last() =~= msg@.take(i as int));
                assert(msg@.take(i as int + 1).last() == msg@[i as int]);
            }
            let c = msg.get_char(i);
            if c == '"' {
                out.append("\\\"");
            } else if c == '\\' {
                out.append("\\\\");
            } else if c == '\n' {
                out.append("\\n");
            } else if c == '\r' {
                out.append("\\r");
            } else if c == '\t' {
                out.append("\\t");
            } else {
                let piece = msg.substring_char(i, i + 1);
                out.append(piece);
                proof {
                    assert(piece@ =~= json_escaped_char(c));
                }
            }
            i = i + 1;
        }
        proof {
            assert(msg@.take(n as int) =~= msg@);
        }
        out.append("\"}");
        out
    }
}

/// The response to `version`.
pub fn version_response() -> (r: AdminResponse)
    ensures
        r.success,
        r.message@ == "sonos-mux v"@ + "0.1.0"@,
{
    AdminResponse { success: true, message: concat_str("sonos-mux v", crate::version()) }
}

/// The response to an unknown command word.
pub fn unknown_command_response(word: &str) -> (r: AdminResponse)
    ensures
        !r.success,
        r.message@ == "Unknown command: "@ + word@,
{
    AdminResponse { success: false, message: concat_str("Unknown command: ", word) }
}

/// The response to `reload` when no path was given and the server was
/// started without a configuration file.
pub fn no_config_response() -> (r: AdminResponse)
    ensures
        !r.success,
        r.message@ == "No config file specified"@,
{
    AdminResponse { success: false, message: String::from_str("No config file specified") }
}

/// The response to `apply` when the body held no configuration.
pub fn no_body_response() -> (r: AdminResponse)
    ensures
        !r.success,
        r.message@ == "No configuration provided"@,
{
    AdminResponse { success: false, message: String::from_str("No configuration provided") }
}

/// The response to `reload`, from the outcome of loading and validating
/// the configuration: success exactly when the load succeeded.
pub fn reload_response(outcome: &Result<(), ConfigError>) -> (r: AdminResponse)
    ensures
        r.success == (outcome is Ok),
        match outcome {
            Ok(_) => r.message@ == "Configuration reloaded successfully"@,
            Err(e) => r.message@ == "Failed to load config: "@ + config_error_text(*e),
        },
{
    match outcome {
        Ok(_) => AdminResponse {
            success: true,
            message: String::from_str("Configuration reloaded successfully"),
        },
        Err(e) => {
            let m = e.message();
            AdminResponse { success: false, message: concat_str("Failed to load config: ", m.as_str()) }
        },
    }
}

/// The response to `apply`, from the outcome of parsing and validating
/// the body: success exactly when the body was accepted. On rejection
/// the running graph stays as it was; the caller applies a configuration
/// only on success.
pub fn apply_response(outcome: &Result<(), ConfigError>) -> (r: AdminResponse)
    ensures
        r.success == (outcome is Ok),
        match outcome {
            Ok(_) => r.message@ == "Configuration applied successfully"@,
            Err(e) => r.message@ == "Failed to parse config: "@ + config_error_text(*e),
        },
{
    match outcome {
        Ok(_) => AdminResponse {
            success: true,
            message: String::from_str("Configuration applied successfully"),
        },
        Err(e) => {
            let m = e.message();
            AdminResponse { success: false, message: concat_str("Failed to parse config: ", m.as_str()) }
        },
    }
}

/// The response to `stats`: the rendered health records.
pub fn stats_response(records: String) -> (r: AdminResponse)
    ensures
        r.success,
        r.message@ == records@,
{
    AdminResponse { success: true, message: records }
}

} // verus!
