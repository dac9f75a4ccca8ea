//! What can go wrong, and what the user is told about it.

use vstd::prelude::*;
use vstd::string::*;

use crate::chars::{
    ascii_lower, cat2, cat3, cat4, contains_text, has_text, lemma_holds_middle, stands_at,
};
use crate::native::{show, shown};
use crate::numbers::{decimal, decimal_usize, signed_decimal, signed_decimal_string};

verus! {

// ── Time limits ──────────────────────────────────────────────────────────────

/// A length of time: whole seconds, and the nanoseconds above them.
#[derive(Debug, Clone, Copy)]
pub struct Timeout {
    secs: u64,
    nanos: u32,
}

impl View for Timeout {
    type V = (u64, u32);

    closed spec fn view(&self) -> (u64, u32) {
        (self.secs, self.nanos)
    }
}

impl Timeout {
    #[verifier::type_invariant]
    spec fn inv(self) -> bool {
        self.nanos < 1_000_000_000
    }

    /// The length of time of `secs` seconds and `nanos` nanoseconds.
    pub fn new(secs: u64, nanos: u32) -> (r: Self)
        requires
            nanos < 1_000_000_000,
        ensures
            r@ == (secs, nanos),
    {
        Timeout { secs, nanos }
    }

    /// The length of time of `secs` seconds.
    pub fn from_secs(secs: u64) -> (r: Self)
        ensures
            r@ == (secs, 0u32),
    {
        Timeout { secs, nanos: 0 }
    }

    /// The whole seconds.
    pub fn secs(&self) -> (r: u64)
        ensures
            r == self@.0,
    {
        self.secs
    }

    /// The nanoseconds above the whole seconds.
    pub fn nanos(&self) -> (r: u32)
        ensures
            r == self@.1,
            r < 1_000_000_000,
    {
        proof {
            use_type_invariant(self);
        }
        self.nanos
    }
}

/// How `std::time::Duration` writes a length of time when it is formatted with `{:?}`.
pub uninterp spec fn duration_text(secs: u64, nanos: u32) -> Seq<char>;

/// A length of time as `{:?}` writes it, as in `90s` or `1.5s`.
///
/// Calls the `Debug` formatting of `std::time::Duration`. The contract says only that the text
/// depends on nothing but the length of time; the text itself is left unsaid.
#[verifier::external_body]
fn duration_string(secs: u64, nanos: u32) -> (r: String)
    requires
        nanos < 1_000_000_000,
    ensures
        r@ == duration_text(secs, nanos),
{
    format!("{:?}", std::time::Duration::new(secs, nanos))
}

impl Timeout {
    /// The length of time as `{:?}` writes that of `std::time::Duration`, as in `90s` or `1.5s`.
    pub fn text(&self) -> (r: String)
        ensures
            r@ == duration_text(self@.0, self@.1),
    {
        duration_string(self.secs(), self.nanos())
    }
}

// ── Lower case ───────────────────────────────────────────────────────────────

/// What `str::to_lowercase` makes of a text.
pub uninterp spec fn lower_case(s: Seq<char>) -> Seq<char>;

/// Whether `s` holds ASCII characters only.
pub open spec fn ascii(s: Seq<char>) -> bool {
    forall|i: int| 0 <= i < s.len() ==> (#[trigger] s[i] as u32) < 128
}

/// Stands for `str::to_lowercase`: the Unicode lower case of a text, which depends on nothing but
/// the text, and in which the letters `A` to `Z` of an ASCII text become `a` to `z` while its other
/// characters stay. What becomes of other texts is left unsaid.
pub assume_specification[ str::to_lowercase ](s: &str) -> (r: String)
    ensures
        r@ == lower_case(s@),
        ascii(s@) ==> r@ == ascii_lower(s@),
;

// ── Errors ───────────────────────────────────────────────────────────────────

/// Everything that can go wrong.
#[derive(Debug)]
pub enum AppError {
    Config(String),
    /// An input or output error, in the words of the system.
    Io(String),
    /// An error in a YAML file, in the words of its parser.
    Yaml(String),
    CommandTimeout { command: String, timeout: Timeout },
    CredentialPromptDetected { output: String },
    GitCommandFailed { command: String, code: Option<i32>, output: String },
    NoRepositoriesFound,
    NotRepository(String),
    UnsupportedQuickMode(String),
    BatchFailures { failed: usize, total: usize },
    AutoStashNotRestored { reason: String },
}

/// The outcome of what can go wrong.
pub type Result<T, E = AppError> = std::result::Result<T, E>;

/// An error with its texts as sequences of characters.
pub enum Fault {
    Config(Seq<char>),
    Io(Seq<char>),
    Yaml(Seq<char>),
    CommandTimeout { command: Seq<char>, timeout: (u64, u32) },
    CredentialPromptDetected { output: Seq<char> },
    GitCommandFailed { command: Seq<char>, code: Option<i32>, output: Seq<char> },
    NoRepositoriesFound,
    NotRepository(Seq<char>),
    UnsupportedQuickMode(Seq<char>),
    BatchFailures { failed: nat, total: nat },
    AutoStashNotRestored { reason: Seq<char> },
}

impl View for AppError {
    type V = Fault;

    open spec fn view(&self) -> Fault {
        match self {
            AppError::Config(s) => Fault::Config(s@),
            AppError::Io(s) => Fault::Io(s@),
            AppError::Yaml(s) => Fault::Yaml(s@),
            AppError::CommandTimeout { command, timeout } => Fault::CommandTimeout {
                command: command@,
                timeout: timeout@,
            },
            AppError::CredentialPromptDetected { output } => Fault::CredentialPromptDetected {
                output: output@,
            },
            AppError::GitCommandFailed { command, code, output } => Fault::GitCommandFailed {
                command: command@,
                code: *code,
                output: output@,
            },
            AppError::NoRepositoriesFound => Fault::NoRepositoriesFound,
            AppError::NotRepository(s) => Fault::NotRepository(s@),
            AppError::UnsupportedQuickMode(s) => Fault::UnsupportedQuickMode(s@),
            AppError::BatchFailures { failed, total } => Fault::BatchFailures {
                failed: *failed as nat,
                total: *total as nat,
            },
            AppError::AutoStashNotRestored { reason } => Fault::AutoStashNotRestored {
                reason: reason@,
            },
        }
    }
}

/// An exit code as `{:?}` writes it.
pub open spec fn code_text(code: Option<i32>) -> Seq<char> {
    match code {
        Some(n) => "Some("@ + signed_decimal(n as int) + ")"@,
        None => "None"@,
    }
}

/// An exit code as `{:?}` writes it.
fn code_string(code: Option<i32>) -> (r: String)
    ensures
        r@ == code_text(code),
{
    match code {
        Some(n) => cat3("Some(", signed_decimal_string(n).as_str(), ")"),
        None => "None".to_owned(),
    }
}

impl Fault {
    /// What the user is told about the error.
    pub open spec fn message(self) -> Seq<char> {
        match self {
            Fault::Config(s) => "configuration error: "@ + s,
            Fault::Io(s) => "io error: "@ + s,
            Fault::Yaml(s) => "yaml error: "@ + s,
            Fault::CommandTimeout { command, timeout } => "git command timed out after "@
                + duration_text(timeout.0, timeout.1) + ": "@ + command,
            Fault::CredentialPromptDetected { output } =>
                "git requested interactive credentials: "@ + output,
            Fault::GitCommandFailed { command, code, output } => "git command failed ("@ + command
                + ", exit="@ + code_text(code) + "): "@ + output,
            Fault::NoRepositoriesFound =>
                "no git repositories found in the selected directories"@,
            Fault::NotRepository(s) => "path does not look like a git repository: "@ + shown(s),
            Fault::UnsupportedQuickMode(s) => "unsupported quick mode: "@ + s,
            Fault::BatchFailures { failed, total } => "batch completed with failures: "@
                + decimal(failed) + "/"@ + decimal(total),
            Fault::AutoStashNotRestored { reason } => "auto-stash not restored: "@ + reason,
        }
    }

    /// Whether the error asks for credentials, where `lower` is its message in lower case.
    pub open spec fn wants_credentials(self, lower: Seq<char>) -> bool {
        ||| self is CredentialPromptDetected
        ||| has_text(lower, "authentication required"@)
        ||| has_text(lower, "authentication failed"@)
        ||| has_text(lower, "could not read username"@)
        ||| has_text(lower, "could not read password"@)
        ||| has_text(lower, "invalid username or password"@)
        ||| has_text(lower, "http basic: access denied"@)
        ||| has_text(lower, "fatal: authentication failed for"@)
        ||| has_text(lower, "permission denied"@)
        ||| has_text(lower, "401 unauthorized"@)
        ||| has_text(lower, "403 forbidden"@)
    }

    /// Whether git asked for a user name or a password, or refused those it got.
    pub open spec fn needs_credentials(self) -> bool {
        self.wants_credentials(lower_case(self.message()))
    }

    /// Whether the network failed, where `lower` is the message of the error in lower case. A run
    /// that took too long counts as such.
    pub open spec fn blames_network(self, lower: Seq<char>) -> bool {
        self is CommandTimeout || says_network(lower)
    }
}

/// Whether a message in lower case says that a push was rejected.
pub open spec fn says_rejected(lower: Seq<char>) -> bool {
    ||| has_text(lower, "non-fast-forward"@)
    ||| has_text(lower, "failed to push some refs"@)
    ||| has_text(lower, "updates were rejected because"@)
    ||| has_text(lower, "tip of your current branch is behind"@)
    ||| has_text(lower, "[rejected]"@)
    ||| has_text(lower, "fetch first"@)
}

/// Whether a message in lower case says that changes conflict.
pub open spec fn says_conflict(lower: Seq<char>) -> bool {
    ||| has_text(lower, "conflict"@)
    ||| has_text(lower, "merge conflict"@)
    ||| has_text(lower, "automatic merge failed"@)
    ||| has_text(lower, "CONFLICT"@)
}

/// Whether a message in lower case says that changes conflict in a rebase.
pub open spec fn says_rebase_conflict(lower: Seq<char>) -> bool {
    (has_text(lower, "rebase"@) || has_text(lower, "apply"@)) && says_conflict(lower)
}

/// Whether a message in lower case says that the network failed.
pub open spec fn says_network(lower: Seq<char>) -> bool {
    ||| has_text(lower, "connection"@)
    ||| has_text(lower, "network"@)
    ||| has_text(lower, "timeout"@)
    ||| has_text(lower, "unreachable"@)
    ||| has_text(lower, "could not resolve host"@)
    ||| has_text(lower, "failed to connect"@)
}

/// Whether a message in lower case says that a push was rejected.
pub fn tells_rejection(lower: &str) -> (r: bool)
    ensures
        r == says_rejected(lower@),
{
    contains_text(lower, "non-fast-forward") || contains_text(lower, "failed to push some refs")
        || contains_text(lower, "updates were rejected because") || contains_text(
        lower,
        "tip of your current branch is behind",
    ) || contains_text(lower, "[rejected]") || contains_text(lower, "fetch first")
}

/// Whether a message in lower case says that changes conflict.
pub fn tells_conflict(lower: &str) -> (r: bool)
    ensures
        r == says_conflict(lower@),
{
    contains_text(lower, "conflict") || contains_text(lower, "merge conflict") || contains_text(
        lower,
        "automatic merge failed",
    ) || contains_text(lower, "CONFLICT")
}

/// Whether a message in lower case says that changes conflict in a rebase.
pub fn tells_rebase_conflict(lower: &str) -> (r: bool)
    ensures
        r == says_rebase_conflict(lower@),
{
    (contains_text(lower, "rebase") || contains_text(lower, "apply")) && tells_conflict(lower)
}

/// Whether a message in lower case says that the network failed.
pub fn tells_network_failure(lower: &str) -> (r: bool)
    ensures
        r == says_network(lower@),
{
    contains_text(lower, "connection") || contains_text(lower, "network") || contains_text(
        lower,
        "timeout",
    ) || contains_text(lower, "unreachable") || contains_text(lower, "could not resolve host")
        || contains_text(lower, "failed to connect")
}

impl AppError {
    /// What the user is told about the error.
    pub fn message(&self) -> (r: String)
        ensures
            r@ == self@.message(),
    {
        match self {
            AppError::Config(s) => cat2("configuration error: ", s.as_str()),
            AppError::Io(s) => cat2("io error: ", s.as_str()),
            AppError::Yaml(s) => cat2("yaml error: ", s.as_str()),
            AppError::CommandTimeout { command, timeout } => {
                let length = timeout.text();
                cat4("git command timed out after ", length.as_str(), ": ", command.as_str())
            },
            AppError::CredentialPromptDetected { output } => cat2(
                "git requested interactive credentials: ",
                output.as_str(),
            ),
            AppError::GitCommandFailed { command, code, output } => {
                let exit = code_string(*code);
                let head = cat4("git command failed (", command.as_str(), ", exit=", exit.as_str());
                cat3(head.as_str(), "): ", output.as_str())
            },
            AppError::NoRepositoriesFound =>
                "no git repositories found in the selected directories".to_owned(),
            AppError::NotRepository(s) => cat2(
                "path does not look like a git repository: ",
                show(s.as_str()).as_str(),
            ),
            AppError::UnsupportedQuickMode(s) => cat2("unsupported quick mode: ", s.as_str()),
            AppError::BatchFailures { failed, total } => {
                let f = decimal_usize(*failed);
                let t = decimal_usize(*total);
                cat4("batch completed with failures: ", f.as_str(), "/", t.as_str())
            },
            AppError::AutoStashNotRestored { reason } => cat2(
                "auto-stash not restored: ",
                reason.as_str(),
            ),
        }
    }

    /// Whether the error asks for credentials, where `lower` is its message in lower case.
    pub fn asks_for_credentials(&self, lower: &str) -> (r: bool)
        ensures
            r == self@.wants_credentials(lower@),
    {
        matches!(self, AppError::CredentialPromptDetected { .. }) || contains_text(
            lower,
            "authentication required",
        ) || contains_text(lower, "authentication failed") || contains_text(
            lower,
            "could not read username",
        ) || contains_text(lower, "could not read password") || contains_text(
            lower,
            "invalid username or password",
        ) || contains_text(lower, "http basic: access denied") || contains_text(
            lower,
            "fatal: authentication failed for",
        ) || contains_text(lower, "permission denied") || contains_text(lower, "401 unauthorized")
            || contains_text(lower, "403 forbidden")
    }

    /// Whether git asked for a user name or a password, or refused those it got.
    pub fn requires_credentials(&self) -> (r: bool)
        ensures
            r == self@.needs_credentials(),
    {
        let lower = self.message().as_str().to_lowercase();
        self.asks_for_credentials(lower.as_str())
    }

    /// Whether a push was rejected that a force push would get through.
    pub fn suggests_force_push(&self) -> (r: bool)
        ensures
            r == says_rejected(lower_case(self@.message())),
    {
        let lower = self.message().as_str().to_lowercase();
        tells_rejection(lower.as_str())
    }

    /// Whether changes conflict.
    pub fn is_merge_conflict(&self) -> (r: bool)
        ensures
            r == says_conflict(lower_case(self@.message())),
    {
        let lower = self.message().as_str().to_lowercase();
        tells_conflict(lower.as_str())
    }

    /// Whether changes conflict in a rebase.
    pub fn is_rebase_conflict(&self) -> (r: bool)
        ensures
            r == says_rebase_conflict(lower_case(self@.message())),
    {
        let lower = self.message().as_str().to_lowercase();
        tells_rebase_conflict(lower.as_str())
    }

    /// Whether the network failed, where `lower` is the message of the error in lower case.
    pub fn points_to_network(&self, lower: &str) -> (r: bool)
        ensures
            r == self@.blames_network(lower@),
    {
        matches!(self, AppError::CommandTimeout { .. }) || tells_network_failure(lower)
    }

    /// Whether the network failed: a connection, a host that cannot be reached, or a time limit.
    pub fn is_network_error(&self) -> (r: bool)
        ensures
            r == self@.blames_network(lower_case(self@.message())),
    {
        let lower = self.message().as_str().to_lowercase();
        self.points_to_network(lower.as_str())
    }
}

/// Each of the phrases in which git and its remotes reject a push is taken for a rejection, whatever
/// stands around it.
pub proof fn lemma_rejection_told(a: Seq<char>, b: Seq<char>)
    ensures
        says_rejected(a + "non-fast-forward"@ + b),
        says_rejected(a + "failed to push some refs"@ + b),
        says_rejected(a + "updates were rejected because"@ + b),
        says_rejected(a + "tip of your current branch is behind"@ + b),
        says_rejected(a + "[rejected]"@ + b),
        says_rejected(a + "fetch first"@ + b),
{
    lemma_holds_middle(a, "non-fast-forward"@, b);
    lemma_holds_middle(a, "failed to push some refs"@, b);
    lemma_holds_middle(a, "updates were rejected because"@, b);
    lemma_holds_middle(a, "tip of your current branch is behind"@, b);
    lemma_holds_middle(a, "[rejected]"@, b);
    lemma_holds_middle(a, "fetch first"@, b);
}

/// A message without any of those phrases is taken for no rejection.
pub proof fn lemma_rejection_not_told(lower: Seq<char>)
    requires
        !has_text(lower, "non-fast-forward"@),
        !has_text(lower, "failed to push some refs"@),
        !has_text(lower, "updates were rejected because"@),
        !has_text(lower, "tip of your current branch is behind"@),
        !has_text(lower, "[rejected]"@),
        !has_text(lower, "fetch first"@),
    ensures
        !says_rejected(lower),
{
}

/// Each of the phrases in which git tells of conflicting changes is taken for a conflict.
pub proof fn lemma_conflict_told(a: Seq<char>, b: Seq<char>)
    ensures
        says_conflict(a + "conflict"@ + b),
        says_conflict(a + "merge conflict"@ + b),
        says_conflict(a + "automatic merge failed"@ + b),
{
    lemma_holds_middle(a, "conflict"@, b);
    lemma_holds_middle(a, "merge conflict"@, b);
    lemma_holds_middle(a, "automatic merge failed"@, b);
}

/// A message without any of those phrases is taken for no conflict.
pub proof fn lemma_conflict_not_told(lower: Seq<char>)
    requires
        !has_text(lower, "conflict"@),
        !has_text(lower, "merge conflict"@),
        !has_text(lower, "automatic merge failed"@),
        !has_text(lower, "CONFLICT"@),
    ensures
        !says_conflict(lower),
{
}

/// Each of the phrases in which git tells that a remote could not be reached is taken for a failure of
/// the network.
pub proof fn lemma_network_failure_told(a: Seq<char>, b: Seq<char>)
    ensures
        says_network(a + "connection"@ + b),
        says_network(a + "network"@ + b),
        says_network(a + "timeout"@ + b),
        says_network(a + "unreachable"@ + b),
        says_network(a + "could not resolve host"@ + b),
        says_network(a + "failed to connect"@ + b),
{
    lemma_holds_middle(a, "connection"@, b);
    lemma_holds_middle(a, "network"@, b);
    lemma_holds_middle(a, "timeout"@, b);
    lemma_holds_middle(a, "unreachable"@, b);
    lemma_holds_middle(a, "could not resolve host"@, b);
    lemma_holds_middle(a, "failed to connect"@, b);
}

/// A message without any of those phrases is taken for no failure of the network.
pub proof fn lemma_network_failure_not_told(lower: Seq<char>)
    requires
        !has_text(lower, "connection"@),
        !has_text(lower, "network"@),
        !has_text(lower, "timeout"@),
        !has_text(lower, "unreachable"@),
        !has_text(lower, "could not resolve host"@),
        !has_text(lower, "failed to connect"@),
    ensures
        !says_network(lower),
{
}

/// Each of the phrases in which git and its remotes ask for credentials, or refuse them, is taken for
/// a demand of credentials, whatever the error is.
pub proof fn lemma_demand_of_credentials_told(fault: Fault, a: Seq<char>, b: Seq<char>)
    ensures
        fault.wants_credentials(a + "authentication required"@ + b),
        fault.wants_credentials(a + "authentication failed"@ + b),
        fault.wants_credentials(a + "could not read username"@ + b),
        fault.wants_credentials(a + "could not read password"@ + b),
        fault.wants_credentials(a + "invalid username or password"@ + b),
        fault.wants_credentials(a + "http basic: access denied"@ + b),
        fault.wants_credentials(a + "fatal: authentication failed for"@ + b),
        fault.wants_credentials(a + "permission denied"@ + b),
        fault.wants_credentials(a + "401 unauthorized"@ + b),
        fault.wants_credentials(a + "403 forbidden"@ + b),
{
    lemma_holds_middle(a, "authentication required"@, b);
    lemma_holds_middle(a, "authentication failed"@, b);
    lemma_holds_middle(a, "could not read username"@, b);
    lemma_holds_middle(a, "could not read password"@, b);
    lemma_holds_middle(a, "invalid username or password"@, b);
    lemma_holds_middle(a, "http basic: access denied"@, b);
    lemma_holds_middle(a, "fatal: authentication failed for"@, b);
    lemma_holds_middle(a, "permission denied"@, b);
    lemma_holds_middle(a, "401 unauthorized"@, b);
    lemma_holds_middle(a, "403 forbidden"@, b);
}

/// A message without any of those phrases demands no credentials, unless git was caught asking for
/// them.
pub proof fn lemma_demand_of_credentials_not_told(fault: Fault, lower: Seq<char>)
    requires
        !has_text(lower, "authentication required"@),
        !has_text(lower, "authentication failed"@),
        !has_text(lower, "could not read username"@),
        !has_text(lower, "could not read password"@),
        !has_text(lower, "invalid username or password"@),
        !has_text(lower, "http basic: access denied"@),
        !has_text(lower, "fatal: authentication failed for"@),
        !has_text(lower, "permission denied"@),
        !has_text(lower, "401 unauthorized"@),
        !has_text(lower, "403 forbidden"@),
    ensures
        fault.wants_credentials(lower) <==> fault is CredentialPromptDetected,
{
}

/// A conflict is one of a rebase where the message speaks of a rebase or of applying a change.
pub proof fn lemma_rebase_conflict_told(lower: Seq<char>)
    requires
        says_conflict(lower),
    ensures
        has_text(lower, "rebase"@) ==> says_rebase_conflict(lower),
        has_text(lower, "apply"@) ==> says_rebase_conflict(lower),
        !has_text(lower, "rebase"@) && !has_text(lower, "apply"@) ==> !says_rebase_conflict(lower),
{
}

/// A run that took too long is a failure of the network, whatever git had said; any other error is
/// one only where its message tells so.
pub proof fn lemma_time_limit_is_network_failure(fault: Fault, lower: Seq<char>)
    ensures
        fault is CommandTimeout ==> fault.blames_network(lower),
        !(fault is CommandTimeout) && fault.blames_network(lower) ==> says_network(lower),
        says_network(lower) ==> fault.blames_network(lower),
{
}

/// What the user is told of an error holds what is known of it: the command and what git wrote, the
/// path, or the reason.
pub proof fn lemma_message_holds_what_is_known(fault: Fault)
    ensures
        match fault {
            Fault::Config(s) => s.is_suffix_of(fault.message()),
            Fault::Io(s) => s.is_suffix_of(fault.message()),
            Fault::Yaml(s) => s.is_suffix_of(fault.message()),
            Fault::CommandTimeout { command, timeout } => {
                &&& command.is_suffix_of(fault.message())
                &&& has_text(fault.message(), "timed out"@)
                &&& has_text(fault.message(), duration_text(timeout.0, timeout.1))
            },
            Fault::CredentialPromptDetected { output } => {
                &&& output.is_suffix_of(fault.message())
                &&& has_text(fault.message(), "credentials"@)
            },
            Fault::GitCommandFailed { command, code, output } => {
                &&& output.is_suffix_of(fault.message())
                &&& has_text(fault.message(), command)
                &&& code matches Some(n) ==> has_text(fault.message(), signed_decimal(n as int))
            },
            Fault::NotRepository(s) => shown(s).is_suffix_of(fault.message()),
            Fault::UnsupportedQuickMode(s) => s.is_suffix_of(fault.message()),
            Fault::BatchFailures { failed, total } => (decimal(failed) + "/"@ + decimal(
                total,
            )).is_suffix_of(fault.message()),
            Fault::AutoStashNotRestored { reason } => reason.is_suffix_of(fault.message()),
            Fault::NoRepositoriesFound => has_text(fault.message(), "no git repositories found"@),
        },
{
    let m = fault.message();
    match fault {
        Fault::CommandTimeout { command, timeout } => {
            let t = duration_text(timeout.0, timeout.1);
            reveal_strlit("git command timed out after ");
            reveal_strlit("timed out");
            let head = "git command timed out after "@;
            lemma_holds_middle(head, t, ": "@ + command);
            assert(m =~= head + t + (": "@ + command));
            assert(head.subrange(12, 21) =~= "timed out"@);
            assert(m.subrange(12, 21) =~= "timed out"@);
            assert(stands_at(m, "timed out"@, 12));
        },
        Fault::CredentialPromptDetected { output } => {
            reveal_strlit("git requested interactive credentials: ");
            reveal_strlit("credentials");
            assert(m.subrange(26, 37) =~= "credentials"@);
            assert(stands_at(m, "credentials"@, 26));
        },
        Fault::GitCommandFailed { command, code, output } => {
            let rest = ", exit="@ + code_text(code) + "): "@ + output;
            assert(m =~= "git command failed ("@ + command + rest);
            lemma_holds_middle("git command failed ("@, command, rest);
            if let Some(n) = code {
                let d = signed_decimal(n as int);
                let before = "git command failed ("@ + command + ", exit="@ + "Some("@;
                let behind = ")"@ + "): "@ + output;
                assert(m =~= before + d + behind);
                lemma_holds_middle(before, d, behind);
            }
        },
        Fault::NoRepositoriesFound => {
            reveal_strlit("no git repositories found in the selected directories");
            reveal_strlit("no git repositories found");
            assert(m.subrange(0, 25) =~= "no git repositories found"@);
            assert(stands_at(m, "no git repositories found"@, 0));
        },
        _ => {},
    }
}

/// A conflict in a rebase is a conflict.
pub proof fn lemma_rebase_conflicts_are_conflicts(fault: Fault)
    requires
        says_rebase_conflict(lower_case(fault.message())),
    ensures
        says_conflict(lower_case(fault.message())),
{
}

} // verus!
