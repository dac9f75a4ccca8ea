//! One run of git: its arguments, its environment, and what its output means.

use vstd::prelude::*;
use vstd::string::*;

use crate::chars::{
    cat2, cat3, cat4, cat5, has_text, join, joined, lemma_texts_push, replace_char, replaced, texts,
    trim, trimmed,
};
use crate::error::{AppError, Fault, Result, Timeout};
use crate::native::{lossy, lossy_text, show, shown};
use crate::numbers::{decimal, decimal_string, signed_decimal, signed_decimal_string};

verus! {

// ── Credentials ──────────────────────────────────────────────────────────────

/// A user name and the password that goes with it.
#[derive(Debug)]
pub struct Credentials {
    pub username: String,
    pub password: String,
}

/// Credentials with their texts as sequences of characters.
pub struct CredentialsModel {
    pub username: Seq<char>,
    pub password: Seq<char>,
}

impl View for Credentials {
    type V = CredentialsModel;

    open spec fn view(&self) -> CredentialsModel {
        CredentialsModel { username: self.username@, password: self.password@ }
    }
}

impl Clone for Credentials {
    fn clone(&self) -> (r: Self)
        ensures
            r@ == self@,
    {
        Credentials { username: self.username.clone(), password: self.password.clone() }
    }
}

/// The view of optional credentials.
pub open spec fn opt_credentials(o: Option<Credentials>) -> Option<CredentialsModel> {
    match o {
        Some(c) => Some(c@),
        None => None,
    }
}

/// A copy of optional credentials.
pub fn copy_credentials(o: &Option<Credentials>) -> (r: Option<Credentials>)
    ensures
        opt_credentials(r) == opt_credentials(*o),
{
    match o {
        Some(c) => Some(c.clone()),
        None => None,
    }
}

// ── Commands ─────────────────────────────────────────────────────────────────

/// One run of git.
#[derive(Debug)]
pub struct GitCommand {
    /// The directory to run in.
    pub dir: String,
    /// The arguments that follow `git`.
    pub args: Vec<String>,
    /// Whether git may take its optional locks. A call that only reads repository state does
    /// without: plain `git status`, `log` and `branch` otherwise take (and refresh) the index
    /// lock, which contends with a user's editor and with other readers.
    pub take_optional_locks: bool,
    /// What to answer when git asks for a user name and a password.
    pub credentials: Option<Credentials>,
}

/// A command with its texts as sequences of characters.
#[verifier::ext_equal]
pub struct CommandModel {
    pub dir: Seq<char>,
    pub args: Seq<Seq<char>>,
    pub take_optional_locks: bool,
    pub credentials: Option<CredentialsModel>,
}

impl View for GitCommand {
    type V = CommandModel;

    open spec fn view(&self) -> CommandModel {
        CommandModel {
            dir: self.dir@,
            args: texts(self.args@),
            take_optional_locks: self.take_optional_locks,
            credentials: opt_credentials(self.credentials),
        }
    }
}

/// The command that runs git in `dir` with `args`.
pub open spec fn plain_command(dir: Seq<char>, args: Seq<Seq<char>>) -> CommandModel {
    CommandModel { dir, args, take_optional_locks: true, credentials: None }
}

/// The command that runs git in `dir` with `args`, reading only.
pub open spec fn reading_command(dir: Seq<char>, args: Seq<Seq<char>>) -> CommandModel {
    CommandModel { dir, args, take_optional_locks: false, credentials: None }
}

/// The views of a sequence of string slices.
pub open spec fn views(list: Seq<&str>) -> Seq<Seq<char>> {
    list.map_values(|s: &str| s@)
}

/// Owned copies of `list`.
pub fn owned(list: &[&str]) -> (r: Vec<String>)
    ensures
        texts(r@) == views(list@),
{
    let mut out: Vec<String> = Vec::new();
    for i in 0..list.len()
        invariant
            texts(out@) =~= views(list@).take(i as int),
    {
        let s = list[i].to_owned();
        proof {
            lemma_texts_push(out@, s);
        }
        out.push(s);
    }
    proof {
        assert(views(list@).take(list@.len() as int) =~= views(list@));
    }
    out
}

impl GitCommand {
    /// The command that runs git in `dir` with `args`.
    pub fn new(dir: &str, args: &[&str]) -> (r: Self)
        ensures
            r@ == plain_command(dir@, views(args@)),
    {
        GitCommand {
            dir: dir.to_owned(),
            args: owned(args),
            take_optional_locks: true,
            credentials: None,
        }
    }

    /// The command that runs git in `dir` with `args`, reading only.
    pub fn reading(dir: &str, args: &[&str]) -> (r: Self)
        ensures
            r@ == reading_command(dir@, views(args@)),
    {
        GitCommand {
            dir: dir.to_owned(),
            args: owned(args),
            take_optional_locks: false,
            credentials: None,
        }
    }

    /// This command with `credentials` to answer with.
    pub fn answering(self, credentials: &Option<Credentials>) -> (r: Self)
        ensures
            r@ == (CommandModel { credentials: opt_credentials(*credentials), ..self@ }),
    {
        GitCommand {
            dir: self.dir,
            args: self.args,
            take_optional_locks: self.take_optional_locks,
            credentials: copy_credentials(credentials),
        }
    }

    /// The command line, as messages and the trace show it.
    pub fn display(&self) -> (r: String)
        ensures
            r@ == self@.display(),
    {
        let rest = join(&self.args, " ");
        cat2("git ", rest.as_str())
    }

    /// The environment variables to set for this command, in order, where `askpass` is the path of
    /// the helper that answers git's questions.
    ///
    /// Standard input is closed: a subcommand that would open an editor must fail cleanly instead
    /// of hanging, hence the two editors that do nothing.
    pub fn environment(&self, askpass: &str) -> (r: Vec<(String, String)>)
        ensures
            pairs(r@) == self@.environment(askpass@),
    {
        let mut env: Vec<(String, String)> = Vec::new();
        proof {
            assert(pairs(env@) =~= Seq::<(Seq<char>, Seq<char>)>::empty());
        }
        push_pair(&mut env, "GIT_TERMINAL_PROMPT", "0");
        push_pair(
            &mut env,
            "GIT_SSH_COMMAND",
            "ssh -o BatchMode=yes -o ConnectTimeout=5 -o ConnectionAttempts=1",
        );
        push_pair(&mut env, "GIT_HTTP_LOW_SPEED_LIMIT", "1");
        push_pair(&mut env, "GIT_HTTP_LOW_SPEED_TIME", "10");
        push_pair(&mut env, "LANG", "C");
        push_pair(&mut env, "LC_ALL", "C");
        push_pair(&mut env, "GIT_EDITOR", "true");
        push_pair(&mut env, "GIT_SEQUENCE_EDITOR", "true");
        proof {
            assert(pairs(env@) =~= base_environment());
        }
        if !self.take_optional_locks {
            push_pair(&mut env, "GIT_OPTIONAL_LOCKS", "0");
        }
        proof {
            assert(pairs(env@) =~= base_environment() + self@.lock_environment());
        }
        if let Some(c) = &self.credentials {
            push_pair(&mut env, "GIT_ASKPASS", askpass);
            push_pair(&mut env, "SSH_ASKPASS", askpass);
            push_pair(&mut env, "SSH_ASKPASS_REQUIRE", "force");
            push_pair(&mut env, "DISPLAY", "gitbatch:0");
            push_pair(&mut env, "GITBATCH_USERNAME", c.username.as_str());
            push_pair(&mut env, "GITBATCH_PASSWORD", c.password.as_str());
        }
        proof {
            assert(pairs(env@) =~= self@.environment(askpass@));
        }
        env
    }
}

/// The views of a sequence of pairs of strings.
pub open spec fn pairs(v: Seq<(String, String)>) -> Seq<(Seq<char>, Seq<char>)> {
    v.map_values(|p: (String, String)| (p.0@, p.1@))
}

/// Appends a pair to a list.
fn push_pair(list: &mut Vec<(String, String)>, key: &str, value: &str)
    ensures
        pairs(final(list)@) == pairs(old(list)@).push((key@, value@)),
{
    let pair = (key.to_owned(), value.to_owned());
    list.push(pair);
    proof {
        assert(pairs(list@) =~= pairs(old(list)@).push((key@, value@)));
    }
}

/// The environment variables that every command gets.
pub open spec fn base_environment() -> Seq<(Seq<char>, Seq<char>)> {
    seq![
        ("GIT_TERMINAL_PROMPT"@, "0"@),
        (
            "GIT_SSH_COMMAND"@,
            "ssh -o BatchMode=yes -o ConnectTimeout=5 -o ConnectionAttempts=1"@,
        ),
        ("GIT_HTTP_LOW_SPEED_LIMIT"@, "1"@),
        ("GIT_HTTP_LOW_SPEED_TIME"@, "10"@),
        ("LANG"@, "C"@),
        ("LC_ALL"@, "C"@),
        ("GIT_EDITOR"@, "true"@),
        ("GIT_SEQUENCE_EDITOR"@, "true"@),
    ]
}

impl CommandModel {
    /// The command line, as messages and the trace show it.
    pub open spec fn display(self) -> Seq<char> {
        "git "@ + joined(self.args, " "@)
    }

    /// The environment variable that keeps git from taking optional locks.
    pub open spec fn lock_environment(self) -> Seq<(Seq<char>, Seq<char>)> {
        if self.take_optional_locks {
            Seq::empty()
        } else {
            seq![("GIT_OPTIONAL_LOCKS"@, "0"@)]
        }
    }

    /// The environment variables that answer git's questions.
    pub open spec fn askpass_environment(self, askpass: Seq<char>) -> Seq<(Seq<char>, Seq<char>)> {
        match self.credentials {
            Some(c) => seq![
                ("GIT_ASKPASS"@, askpass),
                ("SSH_ASKPASS"@, askpass),
                ("SSH_ASKPASS_REQUIRE"@, "force"@),
                ("DISPLAY"@, "gitbatch:0"@),
                ("GITBATCH_USERNAME"@, c.username),
                ("GITBATCH_PASSWORD"@, c.password),
            ],
            None => Seq::empty(),
        }
    }

    /// The environment variables to set for this command, in order.
    pub open spec fn environment(self, askpass: Seq<char>) -> Seq<(Seq<char>, Seq<char>)> {
        base_environment() + self.lock_environment() + self.askpass_environment(askpass)
    }
}

/// The script that answers git's questions from the environment: the user name where git asks for
/// one, the password otherwise.
pub fn askpass_script() -> (r: &'static str)
    ensures
        r@
            == "#!/bin/sh\ncase \"$1\" in\n  *sername*|*USERNAME*) printf '%s' \"$GITBATCH_USERNAME\" ;;\n  *) printf '%s' \"$GITBATCH_PASSWORD\" ;;\nesac\n"@,
{
    "#!/bin/sh\ncase \"$1\" in\n  *sername*|*USERNAME*) printf '%s' \"$GITBATCH_USERNAME\" ;;\n  *) printf '%s' \"$GITBATCH_PASSWORD\" ;;\nesac\n"
}

/// The file name of the script that answers git's questions, for process `pid` at `nanos`
/// nanoseconds since the epoch.
pub fn askpass_file_name(pid: u64, nanos: u64) -> (r: String)
    ensures
        r@ == "gitbatch-askpass-"@ + decimal(pid as nat) + "-"@ + decimal(nanos as nat) + ".sh"@,
{
    let p = decimal_string(pid);
    let n = decimal_string(nanos);
    cat5("gitbatch-askpass-", p.as_str(), "-", n.as_str(), ".sh")
}

// ── Output ───────────────────────────────────────────────────────────────────

/// What a run of git left behind.
#[derive(Debug)]
pub struct GitOutput {
    pub code: Option<i32>,
    pub stdout: String,
    pub stderr: String,
}

/// An output with its texts as sequences of characters.
pub struct OutputModel {
    pub code: Option<i32>,
    pub stdout: Seq<char>,
    pub stderr: Seq<char>,
}

impl View for GitOutput {
    type V = OutputModel;

    open spec fn view(&self) -> OutputModel {
        OutputModel { code: self.code, stdout: self.stdout@, stderr: self.stderr@ }
    }
}

impl Clone for GitOutput {
    fn clone(&self) -> (r: Self)
        ensures
            r@ == self@,
    {
        GitOutput { code: self.code, stdout: self.stdout.clone(), stderr: self.stderr.clone() }
    }
}

/// Two texts on lines of their own, where both are there.
pub open spec fn stacked(a: Seq<char>, b: Seq<char>) -> Seq<char> {
    if a.len() == 0 {
        b
    } else if b.len() == 0 {
        a
    } else {
        a + "\n"@ + b
    }
}

impl OutputModel {
    /// What git wrote to both of its outputs.
    pub open spec fn combined(self) -> Seq<char> {
        stacked(trimmed(self.stdout), trimmed(self.stderr))
    }
}

impl GitOutput {
    /// What git wrote to its standard output, then what it wrote to its standard error, without
    /// the white space around each, and on a line of its own where both are there.
    pub fn combined(&self) -> (r: String)
        ensures
            r@ == self@.combined(),
    {
        let out = trim(self.stdout.as_str());
        let err = trim(self.stderr.as_str());
        if out.is_empty() {
            err.to_owned()
        } else if err.is_empty() {
            out.to_owned()
        } else {
            cat3(out, "\n", err)
        }
    }
}

/// The outcome of a run of git, with its texts as sequences of characters.
pub type Outcome = std::result::Result<OutputModel, Fault>;

/// The outcome of an operation, with its texts as sequences of characters.
pub type Report = std::result::Result<Seq<char>, Fault>;

/// The view of the outcome of a run of git.
pub open spec fn outcome(r: Result<GitOutput>) -> Outcome {
    match r {
        Ok(o) => Ok(o@),
        Err(e) => Err(e@),
    }
}

/// The view of the outcome of an operation.
pub open spec fn report(r: Result<String>) -> Report {
    match r {
        Ok(s) => Ok(s@),
        Err(e) => Err(e@),
    }
}

/// What the user is told of a run of git: its combined output.
pub open spec fn said(o: Outcome) -> Report {
    match o {
        Ok(out) => Ok(out.combined()),
        Err(e) => Err(e),
    }
}

/// What the user is told of a run of git: its combined output.
pub fn say(result: Result<GitOutput>) -> (r: Result<String>)
    ensures
        report(r) == said(outcome(result)),
{
    match result {
        Ok(out) => Ok(out.combined()),
        Err(e) => Err(e),
    }
}

// ── Reading a finished run ───────────────────────────────────────────────────

/// Whether `regex` finds a pattern in a text; nothing for a pattern that it cannot read.
pub uninterp spec fn pattern_found(pattern: Seq<char>, text: Seq<char>) -> Option<bool>;

/// A pattern that stands for itself: a short run of letters, digits, spaces and colons.
pub open spec fn plain_pattern(pattern: Seq<char>) -> bool {
    &&& pattern.len() <= 64
    &&& forall|i: int|
        0 <= i < pattern.len() ==> {
            let c = #[trigger] pattern[i];
            'a' <= c <= 'z' || 'A' <= c <= 'Z' || '0' <= c <= '9' || c == ' ' || c == ':'
        }
}

/// Whether a pattern is found in a text; nothing for a pattern that cannot be read.
///
/// Calls `regex::Regex::new` and `regex::Regex::is_match`. The result depends on nothing but the
/// pattern and the text, and a pattern without special characters is found in exactly the texts
/// that hold it. What other patterns match is named, and left unsaid.
#[verifier::external_body]
fn find_pattern(pattern: &str, text: &str) -> (r: Option<bool>)
    ensures
        r == pattern_found(pattern@, text@),
        plain_pattern(pattern@) ==> r == Some(has_text(text@, pattern@)),
{
    match regex::Regex::new(pattern) {
        Ok(re) => Some(re.is_match(text)),
        Err(_) => None,
    }
}

/// The patterns of the questions that git and ssh ask for credentials.
pub open spec fn prompt_patterns() -> Seq<Seq<char>> {
    seq![
        "Password:"@,
        ".+['’]s password:"@,
        "Password\\s*for\\s*'.+':"@,
        "Username\\s*for\\s*'.+':"@,
        "Enter\\s*passphrase\\s*for\\s*key\\s*'.+':"@,
        "Enter\\s*PIN\\s*for\\s*.+\\s*key\\s*.+:"@,
        ".*2FA Token.*"@,
    ]
}

/// Whether one of the first `n` patterns is found in `text`.
pub open spec fn some_pattern_found(text: Seq<char>, n: int) -> bool {
    exists|i: int|
        0 <= i < n && #[trigger] pattern_found(prompt_patterns()[i], text) == Some(true)
}

/// Whether `text` holds a question for credentials.
pub open spec fn asks_credentials(text: Seq<char>) -> bool {
    some_pattern_found(text, 7)
}

/// Whether `output` holds a question for credentials.
pub fn looks_like_credential_prompt(output: &str) -> (r: bool)
    ensures
        r == asks_credentials(output@),
        has_text(output@, "Password:"@) ==> r,
{
    let patterns: [&str; 7] = [
        "Password:",
        ".+['’]s password:",
        "Password\\s*for\\s*'.+':",
        "Username\\s*for\\s*'.+':",
        "Enter\\s*passphrase\\s*for\\s*key\\s*'.+':",
        "Enter\\s*PIN\\s*for\\s*.+\\s*key\\s*.+:",
        ".*2FA Token.*",
    ];
    let ghost all = prompt_patterns();
    proof {
        reveal_strlit("Password:");
        assert(plain_pattern(all[0]));
        assert forall|i: int| 0 <= i < 7 implies patterns@[i]@ == #[trigger] all[i] by {}
    }
    for i in 0..patterns.len()
        invariant
            all == prompt_patterns(),
            patterns@.len() == 7,
            forall|j: int| 0 <= j < 7 ==> patterns@[j]@ == #[trigger] all[j],
            all[0] == "Password:"@,
            plain_pattern(all[0]),
            !some_pattern_found(output@, i as int),
            i > 0 ==> !has_text(output@, "Password:"@),
    {
        proof {
            assert(patterns@[i as int]@ == all[i as int]);
        }
        let found = find_pattern(patterns[i], output);
        if let Some(true) = found {
            proof {
                assert(pattern_found(all[i as int], output@) == Some(true));
                assert(some_pattern_found(output@, 7));
            }
            return true;
        }
    }
    false
}

/// How a run of git ended.
#[derive(Debug)]
pub enum RunEnd {
    /// The helper that answers git's questions could not be written.
    NoHelper(String),
    /// The run could not be started or waited for.
    NotRun(String),
    /// The run took longer than the limit.
    TimedOut,
    /// The run ended, with its exit code and what it wrote.
    Exited { code: Option<i32>, stdout: Vec<u8>, stderr: Vec<u8> },
}

/// The outcome of a run of `command` that ended with `code` and wrote the texts `out` and `err`,
/// where `prompt` says whether they hold a question for credentials.
pub open spec fn classified(
    command: CommandModel,
    code: Option<i32>,
    out: Seq<char>,
    err: Seq<char>,
    prompt: bool,
) -> Outcome {
    let output = OutputModel { code, stdout: trimmed(out), stderr: trimmed(err) };
    if code == Some(0i32) {
        Ok(output)
    } else if prompt {
        Err(Fault::CredentialPromptDetected { output: output.combined() })
    } else {
        Err(
            Fault::GitCommandFailed {
                command: command.display(),
                code,
                output: output.combined(),
            },
        )
    }
}

/// What a run that wrote the texts `out` and `err` is reported to have written.
pub open spec fn written(out: Seq<char>, err: Seq<char>) -> Seq<char> {
    OutputModel { code: None, stdout: trimmed(out), stderr: trimmed(err) }.combined()
}

/// The outcome of a run of `command` under a time limit.
pub open spec fn interpreted(command: CommandModel, limit: (u64, u32), end: RunEnd) -> Outcome {
    match end {
        RunEnd::NoHelper(e) => Err(
            Fault::Config("failed to create askpass helper: "@ + e@),
        ),
        RunEnd::NotRun(e) => Err(Fault::Io(e@)),
        RunEnd::TimedOut => Err(
            Fault::CommandTimeout { command: command.display(), timeout: limit },
        ),
        RunEnd::Exited { code, stdout, stderr } => {
            let out = lossy(stdout@);
            let err = lossy(stderr@);
            classified(command, code, out, err, asks_credentials(written(out, err)))
        },
    }
}

/// The outcome of a run of `command` that ended with `code` and wrote the texts `out` and `err`,
/// where `prompt` says whether they hold a question for credentials.
pub fn classify(command: &GitCommand, code: Option<i32>, out: &str, err: &str, prompt: bool) -> (r:
    Result<GitOutput>)
    ensures
        outcome(r) == classified(command@, code, out@, err@, prompt),
{
    let output = GitOutput { code, stdout: trim(out).to_owned(), stderr: trim(err).to_owned() };
    let success = match code {
        Some(n) => n == 0,
        None => false,
    };
    if success {
        return Ok(output);
    }
    let combined = output.combined();
    if prompt {
        return Err(AppError::CredentialPromptDetected { output: combined });
    }
    Err(AppError::GitCommandFailed { command: command.display(), code, output: combined })
}

/// What a run that wrote the texts `out` and `err` is reported to have written.
fn write_text(out: &str, err: &str) -> (r: String)
    ensures
        r@ == written(out@, err@),
{
    GitOutput {
        code: None,
        stdout: trim(out).to_owned(),
        stderr: trim(err).to_owned(),
    }.combined()
}

/// The outcome of a run of `command` under the time limit `limit`.
pub fn interpret(command: &GitCommand, limit: Timeout, end: RunEnd) -> (r: Result<GitOutput>)
    ensures
        outcome(r) == interpreted(command@, limit@, end),
{
    match end {
        RunEnd::NoHelper(e) => Err(
            AppError::Config(cat2("failed to create askpass helper: ", e.as_str())),
        ),
        RunEnd::NotRun(e) => Err(AppError::Io(e)),
        RunEnd::TimedOut => Err(
            AppError::CommandTimeout { command: command.display(), timeout: limit },
        ),
        RunEnd::Exited { code, stdout, stderr } => {
            let out = lossy_text(stdout.as_slice());
            let err = lossy_text(stderr.as_slice());
            let combined = write_text(out.as_str(), err.as_str());
            let prompt = looks_like_credential_prompt(combined.as_str());
            classify(command, code, out.as_str(), err.as_str(), prompt)
        },
    }
}

/// A run succeeds exactly when git exits with zero.
pub proof fn lemma_success_is_exit_zero(
    command: CommandModel,
    limit: (u64, u32),
    code: Option<i32>,
    stdout: Vec<u8>,
    stderr: Vec<u8>,
)
    ensures
        interpreted(command, limit, RunEnd::Exited { code, stdout, stderr }) is Ok <==> code
            == Some(0i32),
{
}

// ── Trace ────────────────────────────────────────────────────────────────────

/// An exit code in the trace.
pub open spec fn trace_code(code: Option<i32>) -> Seq<char> {
    match code {
        Some(n) => signed_decimal(n as int),
        None => "None"@,
    }
}

/// A line of the trace.
pub open spec fn traced(
    time: nat,
    command: CommandModel,
    code: Option<i32>,
    output: Seq<char>,
) -> Seq<char> {
    "["@ + decimal(time) + "] cwd="@ + shown(command.dir) + " code="@ + trace_code(code) + " cmd="@
        + command.display() + " output="@ + replaced(output, '\n', " | "@)
}

/// The line of the trace for a run of `command` at `time` seconds since the epoch.
pub fn trace_line(time: u64, command: &GitCommand, code: Option<i32>, output: &str) -> (r: String)
    ensures
        r@ == traced(time as nat, command@, code, output@),
{
    let t = decimal_string(time);
    let c = match code {
        Some(n) => signed_decimal_string(n),
        None => "None".to_owned(),
    };
    let line = command.display();
    let flat = replace_char(output, '\n', " | ");
    let dir = show(command.dir.as_str());
    let head = cat4("[", t.as_str(), "] cwd=", dir.as_str());
    let middle = cat5(head.as_str(), " code=", c.as_str(), " cmd=", line.as_str());
    cat3(middle.as_str(), " output=", flat.as_str())
}

/// Credentials show in no message and no trace: they change neither the command line nor what a
/// run is taken to mean.
pub proof fn lemma_credentials_stay_out_of_messages(
    command: CommandModel,
    credentials: Option<CredentialsModel>,
    time: nat,
    code: Option<i32>,
    output: Seq<char>,
    limit: (u64, u32),
    end: RunEnd,
)
    ensures
        ({
            let other = CommandModel { credentials, ..command };
            &&& traced(time, other, code, output) == traced(time, command, code, output)
            &&& interpreted(other, limit, end) == interpreted(command, limit, end)
        }),
{
}

/// A command that only reads is told to take no optional locks, any other is not; and no command
/// asks on the terminal.
pub proof fn lemma_reading_takes_no_locks(command: CommandModel, askpass: Seq<char>)
    ensures
        command.environment(askpass).contains(("GIT_TERMINAL_PROMPT"@, "0"@)),
        !command.take_optional_locks ==> command.environment(askpass).contains(
            ("GIT_OPTIONAL_LOCKS"@, "0"@),
        ),
        command.take_optional_locks ==> command.environment(askpass) == base_environment()
            + command.askpass_environment(askpass),
{
    let env = command.environment(askpass);
    assert(env[0] == ("GIT_TERMINAL_PROMPT"@, "0"@));
    if !command.take_optional_locks {
        assert(env[8] == ("GIT_OPTIONAL_LOCKS"@, "0"@));
    } else {
        assert(env =~= base_environment() + command.askpass_environment(askpass));
    }
}

/// What a run that wrote the bytes `stdout` and `stderr` is reported to have written.
pub fn written_text(stdout: &[u8], stderr: &[u8]) -> (r: String)
    ensures
        r@ == written(lossy(stdout@), lossy(stderr@)),
{
    let out = lossy_text(stdout);
    let err = lossy_text(stderr);
    write_text(out.as_str(), err.as_str())
}

} // verus!
