//! The search tool: the `rg` or `grep` command line it runs, and how their
//! output and exit status become its result.
use vstd::prelude::*;
use std::time::Duration;
use crate::strs::{chars_of, decimal, push_decimal, push_str, string_of, to_owned_string, copy_string, opt_slice_view};
use crate::context::lines::{split_lines, text_lines};
use crate::context::skills::scalars::{trim, trim_bounds};
use crate::context::skills::frontmatter::sub_chars;
use crate::tools::{ToolError, ToolErrorV, ToolResult, text_result, text_tool_result};
use crate::tools::bash::{duration_from_secs, duration_of_secs};

verus! {

broadcast use vstd::string::group_string_axioms;

/// Searches files for a pattern with `rg`, or `grep` where `rg` is missing.
pub struct SearchTool {
    /// The directory searched when the call names none; the current one when absent.
    pub root: Option<String>,
    /// How many matches are reported.
    pub max_results: usize,
    /// How long a search may run.
    pub timeout: Duration,
}

impl SearchTool {
    /// Defaults: no root, 50 matches, a 30 s timeout.
    pub fn new() -> (r: SearchTool)
        ensures
            r.root is None,
            r.max_results == 50,
            r.timeout == duration_of_secs(30),
    {
        SearchTool { root: None, max_results: 50, timeout: duration_from_secs(30) }
    }

    /// The same tool, searching `root` by default.
    pub fn with_root(self, root: String) -> (r: SearchTool)
        ensures
            r.root == Some(root),
            r.max_results == self.max_results,
            r.timeout == self.timeout,
    {
        SearchTool { root: Some(root), ..self }
    }

    /// The path to search: the one the call names, else the tool's root, else `.`.
    pub fn search_path(&self, path: Option<String>) -> (r: String)
        ensures
            r@ == match path {
                Some(p) => p@,
                None => match self.root {
                    Some(x) => x@,
                    None => "."@,
                },
            },
    {
        match path {
            Some(p) => p,
            None => match &self.root {
                Some(x) => copy_string(x),
                None => to_owned_string("."),
            },
        }
    }
}

impl Default for SearchTool {
    fn default() -> (r: Self)
        ensures
            r.root is None,
            r.max_results == 50,
            r.timeout == duration_of_secs(30),
    {
        SearchTool::new()
    }
}

/// The values of a list of strings.
pub open spec fn args_view(v: Seq<String>) -> Seq<Seq<char>> {
    v.map_values(|s: String| s@)
}

/// The arguments of `rg`: line numbers without headings, at most `max`
/// matches per file, case-insensitive unless asked, an optional glob, then
/// the pattern and the path.
pub open spec fn rg_args(pattern: Seq<char>, path: Seq<char>, file_glob: Option<Seq<char>>, case_sensitive: bool, max: nat) -> Seq<Seq<char>> {
    seq!["--line-number"@, "--no-heading"@, "--max-count="@ + decimal(max)]
        + (if case_sensitive { seq![] } else { seq!["--ignore-case"@] })
        + match file_glob {
            Some(g) => seq!["--glob="@ + g],
            None => seq![],
        } + seq![pattern, path]
}

/// The arguments of `grep`: recursive with line numbers, at most `max`
/// matches per file, case-insensitive unless asked, an optional file
/// glob, then the pattern and the path.
pub open spec fn grep_args(pattern: Seq<char>, path: Seq<char>, file_glob: Option<Seq<char>>, case_sensitive: bool, max: nat) -> Seq<Seq<char>> {
    seq!["-r"@, "-n"@, "-m"@ + decimal(max)]
        + (if case_sensitive { seq![] } else { seq!["-i"@] })
        + match file_glob {
            Some(g) => seq!["--include="@ + g],
            None => seq![],
        } + seq![pattern, path]
}

/// The `rg` command line for a search.
pub fn build_rg_args(pattern: &str, path: &str, file_glob: Option<&str>, case_sensitive: bool, max_results: usize) -> (r: (String, Vec<String>))
    ensures
        r.0@ == "rg"@,
        args_view(r.1@) == rg_args(pattern@, path@, opt_slice_view(file_glob), case_sensitive, max_results as nat),
{
    let mut args: Vec<String> = Vec::new();
    args.push(to_owned_string("--line-number"));
    args.push(to_owned_string("--no-heading"));
    let mut mc = to_owned_string("--max-count=");
    push_decimal(&mut mc, max_results as u64);
    args.push(mc);
    if !case_sensitive {
        args.push(to_owned_string("--ignore-case"));
    }
    if let Some(g) = file_glob {
        let mut a = to_owned_string("--glob=");
        push_str(&mut a, g);
        args.push(a);
    }
    args.push(to_owned_string(pattern));
    args.push(to_owned_string(path));
    assert(args_view(args@) =~= rg_args(pattern@, path@, opt_slice_view(file_glob), case_sensitive, max_results as nat));
    (to_owned_string("rg"), args)
}

/// The `grep` command line for a search.
pub fn build_grep_args(pattern: &str, path: &str, file_glob: Option<&str>, case_sensitive: bool, max_results: usize) -> (r: (String, Vec<String>))
    ensures
        r.0@ == "grep"@,
        args_view(r.1@) == grep_args(pattern@, path@, opt_slice_view(file_glob), case_sensitive, max_results as nat),
{
    let mut args: Vec<String> = Vec::new();
    args.push(to_owned_string("-r"));
    args.push(to_owned_string("-n"));
    let mut m = to_owned_string("-m");
    push_decimal(&mut m, max_results as u64);
    args.push(m);
    if !case_sensitive {
        args.push(to_owned_string("-i"));
    }
    if let Some(g) = file_glob {
        let mut a = to_owned_string("--include=");
        push_str(&mut a, g);
        args.push(a);
    }
    args.push(to_owned_string(pattern));
    args.push(to_owned_string(path));
    assert(args_view(args@) =~= grep_args(pattern@, path@, opt_slice_view(file_glob), case_sensitive, max_results as nat));
    (to_owned_string("grep"), args)
}

/// The pattern named in the arguments, or the error for its absence.
pub fn require_pattern(pattern: Option<String>) -> (r: Result<String, ToolError>)
    ensures
        match pattern {
            Some(p) => r == Ok::<String, ToolError>(p),
            None => r matches Err(e) && e@ == ToolErrorV::InvalidArgs("missing 'pattern' parameter"@),
        },
{
    match pattern {
        Some(p) => Ok(p),
        None => Err(ToolError::InvalidArgs(to_owned_string("missing 'pattern' parameter"))),
    }
}

/// The search failed: exit status 2, or anything on stderr with a status other than 1.
pub open spec fn search_failed(stderr: Seq<char>, code: Option<i32>) -> bool {
    code == Some(2i32) || (stderr.len() > 0 && code != Some(1i32))
}

/// The text reporting the matches in `stdout`.
pub open spec fn matches_text(stdout: Seq<char>, max: nat) -> Seq<char> {
    let n = text_lines(stdout).len();
    if n >= max {
        trim(stdout) + "\n... (showing first "@ + decimal(max) + " matches)"@
    } else {
        trim(stdout) + "\n("@ + decimal(n) + " matches)"@
    }
}

/// The outcome of a search that ran: an error when it failed, a note when
/// nothing matched, else the matches (capped at `max_results`) and their count.
pub fn search_outcome(pattern: &str, stdout: &str, stderr: &str, code: Option<i32>, max_results: usize) -> (r: Result<ToolResult, ToolError>)
    ensures
        search_failed(stderr@, code) ==> (r matches Err(e) && e@ == ToolErrorV::Failed("Search error: "@ + stderr@)),
        !search_failed(stderr@, code) && trim(stdout@).len() == 0 ==> (r matches Ok(t)
            && text_result(t, "No matches found for '"@ + pattern@ + "'"@, "{\"matches\":0}"@)),
        !search_failed(stderr@, code) && trim(stdout@).len() > 0 ==> (r matches Ok(t)
            && text_result(t, matches_text(stdout@, max_results as nat),
                "{\"matches\":"@ + decimal(text_lines(stdout@).len()) + "}"@)),
{
    let errv = chars_of(stderr);
    let failed = match code {
        Some(c) => c == 2 || (errv.len() > 0 && c != 1),
        None => errv.len() > 0,
    };
    if failed {
        let mut m = to_owned_string("Search error: ");
        push_str(&mut m, stderr);
        return Err(ToolError::Failed(m));
    }
    let outv = chars_of(stdout);
    let (a, b) = trim_bounds(&outv, 0, outv.len());
    proof {
        assert(outv@.subrange(0, outv.len() as int) =~= outv@);
    }
    if a == b {
        let mut t = to_owned_string("No matches found for '");
        push_str(&mut t, pattern);
        push_str(&mut t, "'");
        return Ok(text_tool_result(t, to_owned_string("{\"matches\":0}")));
    }
    let lines = split_lines(&outv);
    let n = lines.len();
    proof {
        assert(lines@.map_values(|x: Vec<char>| x@).len() == n);
    }
    let trimmed = string_of(&sub_chars(&outv, a, b));
    let mut t = trimmed;
    if n >= max_results {
        push_str(&mut t, "\n... (showing first ");
        push_decimal(&mut t, max_results as u64);
        push_str(&mut t, " matches)");
    } else {
        push_str(&mut t, "\n(");
        push_decimal(&mut t, n as u64);
        push_str(&mut t, " matches)");
    }
    let mut d = to_owned_string("{\"matches\":");
    push_decimal(&mut d, n as u64);
    push_str(&mut d, "}");
    Ok(text_tool_result(t, d))
}

/// The error when a search outlives its timeout.
pub fn search_timed_out() -> (e: ToolError)
    ensures
        e@ == ToolErrorV::Failed("Search timed out"@),
{
    ToolError::Failed(to_owned_string("Search timed out"))
}

} // verus!
