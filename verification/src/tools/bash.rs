//! The bash tool: its settings, the safety check of a command, and the
//! rendering of what the command printed.
use vstd::prelude::*;
use std::time::Duration;
use crate::strs::{chars_of, contains_chars, has_substring, push_char, push_decimal, push_str, to_owned_string,
    decimal, utf8_len, char_utf8_len};
use crate::tools::{ToolError, ToolErrorV, ToolResult, text_result, text_tool_result};

verus! {

broadcast use vstd::string::group_string_axioms;

/// The confirmation of a bash tool that asks for none.
pub struct NoConfirm;

/// The duration of `secs` seconds, as `Duration::from_secs` builds it.
pub uninterp spec fn duration_of_secs(secs: u64) -> Duration;

/// `Duration::from_secs`.
#[verifier::external_body]
pub(crate) fn duration_from_secs(secs: u64) -> (d: Duration)
    ensures
        d == duration_of_secs(secs),
{
    Duration::from_secs(secs)
}

/// Runs shell commands. `C` is the check that approves each command, when
/// the tool has one.
pub struct BashTool<C> {
    /// The directory commands run in; the current one when absent.
    pub cwd: Option<String>,
    /// How long a command may run.
    pub timeout: Duration,
    /// How many bytes of each output stream are kept.
    pub max_output_bytes: usize,
    /// Commands containing any of these are refused.
    pub deny_patterns: Vec<String>,
    /// Asked to approve each command, if present.
    pub confirm_fn: Option<C>,
}

/// The patterns refused by default: wiping the root, making file systems,
/// raw disk writes and the fork bomb.
pub open spec fn default_deny_patterns() -> Seq<Seq<char>> {
    seq!["rm -rf /"@, "mkfs"@, "dd if="@, ":(){:|:&};:"@]
}

/// The values of a list of strings.
pub open spec fn patterns_view(v: Seq<String>) -> Seq<Seq<char>> {
    v.map_values(|s: String| s@)
}

impl BashTool<NoConfirm> {
    /// Defaults: the current directory, a 120 s timeout, 256 KiB per output
    /// stream, the default deny patterns and no confirmation.
    pub fn new() -> (r: BashTool<NoConfirm>)
        ensures
            r.cwd is None,
            r.timeout == duration_of_secs(120),
            r.max_output_bytes == 256 * 1024,
            patterns_view(r.deny_patterns@) == default_deny_patterns(),
            r.confirm_fn is None,
    {
        let deny = vec![
            to_owned_string("rm -rf /"),
            to_owned_string("mkfs"),
            to_owned_string("dd if="),
            to_owned_string(":(){:|:&};:"),
        ];
        assert(patterns_view(deny@) =~= default_deny_patterns());
        BashTool { cwd: None, timeout: duration_from_secs(120), max_output_bytes: 256 * 1024, deny_patterns: deny, confirm_fn: None }
    }
}

impl<C> BashTool<C> {
    /// The same tool, running commands in `cwd`.
    pub fn with_cwd(self, cwd: String) -> (r: BashTool<C>)
        ensures
            r.cwd == Some(cwd),
            r.timeout == self.timeout,
            r.max_output_bytes == self.max_output_bytes,
            r.deny_patterns == self.deny_patterns,
            r.confirm_fn == self.confirm_fn,
    {
        BashTool { cwd: Some(cwd), ..self }
    }

    /// The same tool, with another timeout.
    pub fn with_timeout(self, timeout: Duration) -> (r: BashTool<C>)
        ensures
            r.timeout == timeout,
            r.cwd == self.cwd,
            r.max_output_bytes == self.max_output_bytes,
            r.deny_patterns == self.deny_patterns,
            r.confirm_fn == self.confirm_fn,
    {
        BashTool { timeout, ..self }
    }

    /// The same tool, refusing commands that contain any of `patterns` instead.
    pub fn with_deny_patterns(self, patterns: Vec<String>) -> (r: BashTool<C>)
        ensures
            r.deny_patterns == patterns,
            r.cwd == self.cwd,
            r.timeout == self.timeout,
            r.max_output_bytes == self.max_output_bytes,
            r.confirm_fn == self.confirm_fn,
    {
        BashTool { deny_patterns: patterns, ..self }
    }

    /// The same tool, asking `f` to approve each command.
    pub fn with_confirm<F>(self, f: F) -> (r: BashTool<F>)
        ensures
            r.confirm_fn == Some(f),
            r.cwd == self.cwd,
            r.timeout == self.timeout,
            r.max_output_bytes == self.max_output_bytes,
            r.deny_patterns == self.deny_patterns,
    {
        BashTool {
            cwd: self.cwd,
            timeout: self.timeout,
            max_output_bytes: self.max_output_bytes,
            deny_patterns: self.deny_patterns,
            confirm_fn: Some(f),
        }
    }

    /// Refuses a command that contains one of the deny patterns, naming the
    /// first such pattern.
    pub fn check_command(&self, command: &str) -> (r: Result<(), ToolError>)
        ensures
            match first_denied(patterns_view(self.deny_patterns@), command@) {
                None => r is Ok,
                Some(i) => r matches Err(e) && e@ == ToolErrorV::Failed(blocked_message(patterns_view(self.deny_patterns@)[i as int])),
            },
    {
        let ghost ps = patterns_view(self.deny_patterns@);
        let cv = chars_of(command);
        let mut i: usize = 0;
        while i < self.deny_patterns.len()
            invariant
                0 <= i <= self.deny_patterns.len(),
                ps == patterns_view(self.deny_patterns@),
                cv@ == command@,
                first_denied(ps, command@) == first_denied_from(ps, command@, i as nat),
            decreases self.deny_patterns.len() - i,
        {
            let p = chars_of(self.deny_patterns[i].as_str());
            assert(p@ == ps[i as int]);
            if contains_chars(&cv, &p) {
                let mut m = to_owned_string("Command blocked by safety policy: contains '");
                push_str(&mut m, self.deny_patterns[i].as_str());
                push_str(&mut m, "'. This pattern is denied for safety.");
                return Err(ToolError::Failed(m));
            }
            i = i + 1;
        }
        Ok(())
    }

    /// Admits a command before it runs: a command with a deny pattern is refused
    /// whatever the confirmation would say; otherwise, when a confirmation is given,
    /// it is asked, and the command is admitted exactly when it approves.
    pub fn vet_command<F: Fn(&str) -> bool>(&self, command: &str, confirm: Option<&F>) -> (r: Result<(), ToolError>)
        requires
            confirm matches Some(f) ==> f.requires((command,)),
        ensures
            match first_denied(patterns_view(self.deny_patterns@), command@) {
                Some(i) => r matches Err(e) && e@ == ToolErrorV::Failed(
                    blocked_message(patterns_view(self.deny_patterns@)[i as int]),
                ),
                None => match confirm {
                    None => r is Ok,
                    Some(f) => (r is Ok && f.ensures((command,), true)) || (r matches Err(e) && e@
                        == not_confirmed_message() && f.ensures((command,), false)),
                },
            },
    {
        self.check_command(command)?;
        match confirm {
            None => Ok(()),
            Some(f) => {
                if f(command) {
                    Ok(())
                } else {
                    Err(not_confirmed())
                }
            },
        }
    }
}

impl Default for BashTool<NoConfirm> {
    fn default() -> (r: Self)
        ensures
            r.cwd is None,
            r.timeout == duration_of_secs(120),
            r.max_output_bytes == 256 * 1024,
            patterns_view(r.deny_patterns@) == default_deny_patterns(),
            r.confirm_fn is None,
    {
        BashTool::new()
    }
}

/// The first index at or after `i` of a pattern that occurs in `command`.
pub open spec fn first_denied_from(ps: Seq<Seq<char>>, command: Seq<char>, i: nat) -> Option<nat>
    decreases ps.len() - i,
{
    if i >= ps.len() {
        None
    } else if has_substring(command, ps[i as int]) {
        Some(i)
    } else {
        first_denied_from(ps, command, i + 1)
    }
}

/// The first pattern that occurs in `command`.
pub open spec fn first_denied(ps: Seq<Seq<char>>, command: Seq<char>) -> Option<nat> {
    first_denied_from(ps, command, 0)
}

/// The refusal of a command containing `p`.
pub open spec fn blocked_message(p: Seq<char>) -> Seq<char> {
    "Command blocked by safety policy: contains '"@ + p + "'. This pattern is denied for safety."@
}

/// The command named in the arguments, or the error for its absence.
pub fn require_command(command: Option<String>) -> (r: Result<String, ToolError>)
    ensures
        match command {
            Some(c) => r == Ok::<String, ToolError>(c),
            None => r matches Err(e) && e@ == ToolErrorV::InvalidArgs("missing 'command' parameter"@),
        },
{
    match command {
        Some(c) => Ok(c),
        None => Err(ToolError::InvalidArgs(to_owned_string("missing 'command' parameter"))),
    }
}

/// The value of the error when the user does not approve a command.
pub open spec fn not_confirmed_message() -> ToolErrorV {
    ToolErrorV::Failed("Command was not confirmed by the user."@)
}

/// The error when the user does not approve a command.
pub fn not_confirmed() -> (e: ToolError)
    ensures
        e@ == not_confirmed_message(),
{
    ToolError::Failed(to_owned_string("Command was not confirmed by the user."))
}

/// The error when a command outlives its timeout of `secs` seconds.
pub fn timed_out(secs: u64) -> (e: ToolError)
    ensures
        e@ == ToolErrorV::Failed("Command timed out after "@ + decimal(secs as nat) + "s"@),
{
    let mut m = to_owned_string("Command timed out after ");
    push_decimal(&mut m, secs);
    push_str(&mut m, "s");
    ToolError::Failed(m)
}

/// `k` characters of `s` fit in `n` bytes and one more would not (or there is none).
pub open spec fn fits_at(s: Seq<char>, n: nat, k: int) -> bool {
    &&& 0 <= k <= s.len()
    &&& utf8_len(s.take(k)) <= n
    &&& (k == s.len() || utf8_len(s.take(k + 1)) > n)
}

/// The longest run of whole characters from the start of `s` that fits in `n` bytes.
pub open spec fn prefix_within(s: Seq<char>, n: nat) -> Seq<char> {
    s.take(choose|k: int| #[trigger] fits_at(s, n, k))
}

/// An output stream cut to at most `max` bytes, at the last character that fits,
/// with a note that it was cut, when it is longer.
pub open spec fn clipped_output(s: Seq<char>, max: nat) -> Seq<char> {
    if utf8_len(s) > max {
        prefix_within(s, max) + "\n... (output truncated)"@
    } else {
        s
    }
}

/// The decimal rendering of a signed number.
pub open spec fn signed_decimal(x: int) -> Seq<char> {
    if x < 0 {
        seq!['-'] + decimal((-x) as nat)
    } else {
        decimal(x as nat)
    }
}

/// The text the model sees after a command ran.
pub open spec fn bash_output_text(stdout: Seq<char>, stderr: Seq<char>, code: int) -> Seq<char> {
    if stderr.len() == 0 {
        "Exit code: "@ + signed_decimal(code) + seq!['\n'] + stdout
    } else {
        "Exit code: "@ + signed_decimal(code) + seq!['\n'] + "STDOUT:\n"@ + stdout + seq!['\n'] + "STDERR:\n"@ + stderr
    }
}

/// The details of a run: its exit code and whether it succeeded, as JSON.
pub open spec fn bash_details(code: int) -> Seq<char> {
    "{\"exit_code\":"@ + signed_decimal(code) + ",\"success\":"@ + (if code == 0 { "true"@ } else { "false"@ }) + seq!['}']
}

fn char_len(c: char) -> (n: usize)
    ensures
        n == char_utf8_len(c),
{
    let u = c as u32;
    if u < 0x80 { 1 } else if u < 0x800 { 2 } else if u < 0x10000 { 3 } else { 4 }
}

proof fn lemma_prefix_len_monotone(s: Seq<char>, a: int, b: int)
    requires
        0 <= a <= b <= s.len(),
    ensures
        utf8_len(s.take(a)) <= utf8_len(s.take(b)),
        a < b ==> utf8_len(s.take(a)) < utf8_len(s.take(b)),
    decreases b - a,
{
    if a < b {
        lemma_prefix_len_monotone(s, a, b - 1);
        assert(s.take(b).drop_last() =~= s.take(b - 1));
    }
}

/// At most one count of characters fits `n` bytes exactly in the sense of [`fits_at`].
proof fn lemma_fits_unique(s: Seq<char>, n: nat, a: int, b: int)
    requires
        fits_at(s, n, a),
        fits_at(s, n, b),
    ensures
        a == b,
{
    if a < b {
        lemma_prefix_len_monotone(s, a + 1, b);
    }
    if b < a {
        lemma_prefix_len_monotone(s, b + 1, a);
    }
}

/// The longest run of whole characters from the start of `s` that fits in `n` bytes.
fn clip(s: &str, n: usize) -> (r: String)
    ensures
        r@ == prefix_within(s@, n as nat),
{
    let v = chars_of(s);
    let mut out = String::new();
    let mut k: usize = 0;
    let mut acc: usize = 0;
    let mut full = false;
    proof {
        assert(v@.take(0) =~= seq![]);
    }
    while k < v.len() && !full
        invariant
            0 <= k <= v.len(),
            v@ == s@,
            acc == utf8_len(v@.take(k as int)),
            out@ == v@.take(k as int),
            acc <= n,
            full ==> k < v.len() && utf8_len(v@.take(k + 1)) > n,
        decreases v.len() - k + (if full { 0int } else { 1int }),
    {
        proof {
            assert(v@.take(k + 1).drop_last() =~= v@.take(k as int));
        }
        let cl = char_len(v[k]);
        if cl > n - acc {
            full = true;
        } else {
            acc = acc + cl;
            push_char(&mut out, v[k]);
            k = k + 1;
            assert(out@ =~= v@.take(k as int));
        }
    }
    proof {
        assert(fits_at(s@, n as nat, k as int));
        let c = choose|c: int| #[trigger] fits_at(s@, n as nat, c);
        lemma_fits_unique(s@, n as nat, k as int, c);
    }
    out
}

/// Whether the UTF-8 encoding of `s` is longer than `max` bytes.
fn exceeds_bytes(s: &str, max: usize) -> (r: bool)
    ensures
        r == (utf8_len(s@) > max),
{
    let v = chars_of(s);
    let mut k: usize = 0;
    let mut acc: usize = 0;
    proof {
        assert(v@.take(0) =~= seq![]);
    }
    while k < v.len()
        invariant
            0 <= k <= v.len(),
            v@ == s@,
            acc == utf8_len(v@.take(k as int)),
            acc <= max,
        decreases v.len() - k,
    {
        proof {
            assert(v@.take(k + 1).drop_last() =~= v@.take(k as int));
        }
        let cl = char_len(v[k]);
        if cl > max - acc {
            proof {
                lemma_prefix_len_monotone(v@, k + 1, v@.len() as int);
                assert(v@.take(v@.len() as int) =~= v@);
            }
            return true;
        }
        acc = acc + cl;
        k = k + 1;
    }
    assert(v@.take(k as int) =~= v@);
    false
}

/// An output stream as the model sees it: cut to the characters that fit in
/// `max` bytes, with a note, when it is longer.
fn clip_output(s: String, max: usize) -> (r: String)
    ensures
        r@ == clipped_output(s@, max as nat),
{
    if exceeds_bytes(s.as_str(), max) {
        let mut c = clip(s.as_str(), max);
        push_str(&mut c, "\n... (output truncated)");
        c
    } else {
        s
    }
}

fn push_signed(out: &mut String, x: i32)
    ensures
        final(out)@ == old(out)@ + signed_decimal(x as int),
{
    if x < 0 {
        let ghost before = out@;
        push_char(out, '-');
        let m: u64 = (-(x as i64)) as u64;
        push_decimal(out, m);
        assert(out@ =~= before + signed_decimal(x as int));
    } else {
        push_decimal(out, x as u64);
    }
}

/// The result of a command that ran: the exit code (`-1` when killed by a
/// signal) and both output streams, each cut to the characters that fit in
/// `max_bytes`.
pub fn bash_result(stdout: String, stderr: String, exit_code: Option<i32>, max_bytes: usize) -> (r: ToolResult)
    ensures
        text_result(
            r,
            bash_output_text(
                clipped_output(stdout@, max_bytes as nat),
                clipped_output(stderr@, max_bytes as nat),
                match exit_code { Some(c) => c as int, None => -1 },
            ),
            bash_details(match exit_code { Some(c) => c as int, None => -1 }),
        ),
{
    let ghost old_out = stdout@;
    let ghost old_err = stderr@;
    let out = clip_output(stdout, max_bytes);
    let err = clip_output(stderr, max_bytes);
    let code: i32 = match exit_code {
        Some(c) => c,
        None => -1,
    };
    let mut text = to_owned_string("Exit code: ");
    push_signed(&mut text, code);
    push_char(&mut text, '\n');
    if chars_of(err.as_str()).len() == 0 {
        push_str(&mut text, out.as_str());
    } else {
        push_str(&mut text, "STDOUT:\n");
        push_str(&mut text, out.as_str());
        push_char(&mut text, '\n');
        push_str(&mut text, "STDERR:\n");
        push_str(&mut text, err.as_str());
    }
    assert(text@ == bash_output_text(clipped_output(old_out, max_bytes as nat), clipped_output(old_err, max_bytes as nat), code as int));
    let mut details = to_owned_string("{\"exit_code\":");
    push_signed(&mut details, code);
    push_str(&mut details, ",\"success\":");
    if code == 0 {
        push_str(&mut details, "true");
    } else {
        push_str(&mut details, "false");
    }
    push_char(&mut details, '}');
    assert(details@ == bash_details(code as int));
    text_tool_result(text, details)
}

} // verus!
