//! How the desktop shell and its tools are reached: which command runs, with
//! which environment, and what its outcome means.

use vstd::prelude::*;

use crate::apply;
use crate::apply::join_path;
use crate::probe;
use crate::probe::{
    classify_probe_failure, parse_display_env, parse_kscreen_doctor, ProbeError, SystemOutput,
    DISPLAY_UNAVAILABLE_HINT,
};
use crate::text;
use crate::text::{begins_with, chars_of, find_char, has_marker, string_of, trimmed};

verus! {

/// The longest wait for the recovery of a display environment, in milliseconds.
pub const RECOVERY_TIMEOUT_MS: u64 = 1500;

/// The boundary to the shell: a script to evaluate, and the outputs to list.
pub trait ShellProbe {
    fn evaluate_script(&mut self, script: &str) -> Result<String, ProbeError>;

    fn system_outputs(&mut self) -> Result<Vec<SystemOutput>, ProbeError>;
}

/// A command to run without a shell.
#[derive(Debug, PartialEq, Eq)]
pub struct CommandLine {
    pub program: String,
    pub arguments: Vec<String>,
}

/// What a bounded child came to: a failure to run it, or its exit with what it
/// printed.
#[derive(Debug, PartialEq, Eq)]
pub enum ChildOutcome {
    NotRun(String),
    Exited { success: bool, status: String, stdout: String, stderr: String },
}

// ---------------------------------------------------------------------------
// Looking a tool up
// ---------------------------------------------------------------------------

/// The directories of a search path from `from` on.
pub open spec fn path_pieces(s: Seq<char>, from: nat) -> Seq<Seq<char>>
    decreases s.len() - from,
{
    if from > s.len() {
        seq![]
    } else {
        let end = text::index_of(s, ':', from);
        if end >= s.len() || end < from {
            seq![s.skip(from as int)]
        } else {
            seq![s.subrange(from as int, end as int)] + path_pieces(s, end + 1)
        }
    }
}

/// Splits a search path into its directories.
pub fn split_path(path: &str) -> (directories: Vec<String>)
    ensures
        text::views(directories@) == path_pieces(path@, 0),
{
    let chars = chars_of(path);
    let mut directories: Vec<String> = Vec::new();
    let mut from: usize = 0;
    let ghost all = path_pieces(chars@, 0);
    assert(text::views(directories@) + all =~= all);
    loop
        invariant
            chars@ == path@,
            all == path_pieces(chars@, 0),
            from <= chars.len(),
            text::views(directories@) + path_pieces(chars@, from as nat) == all,
        decreases chars.len() - from,
    {
        let ghost before = directories@;
        let end: usize = find_char(&chars, ':', from);
        directories.push(string_of(&chars, from, end));
        proof {
            assert(text::views(directories@) =~= text::views(before) + seq![chars@.subrange(
                from as int,
                end as int,
            )]);
        }
        if end == chars.len() {
            proof {
                assert(chars@.subrange(from as int, end as int) =~= chars@.skip(from as int));
                assert(text::views(directories@) =~= all);
            }
            return directories;
        }
        proof {
            let later = path_pieces(chars@, (end + 1) as nat);
            let piece = chars@.subrange(from as int, end as int);
            assert(text::views(before) + (seq![piece] + later) =~= text::views(directories@)
                + later);
        }
        from = end + 1;
    }
}

/// `path` is the first candidate that is a file: earlier names come first, and
/// for one name the earlier directories. `is_file` answers for each candidate.
pub open spec fn first_file<P: Fn(&str) -> bool>(
    directories: Seq<Seq<char>>,
    names: Seq<Seq<char>>,
    is_file: P,
    path: Seq<char>,
) -> bool {
    exists|n: int, d: int|
        {
            &&& 0 <= n < names.len()
            &&& 0 <= d < directories.len()
            &&& path == #[trigger] apply::joined(directories[d], names[n])
            &&& answers(is_file, path, true)
            &&& forall|m: int, e: int|
                0 <= m <= n && 0 <= e < directories.len() && (m < n || e < d) ==> answers(
                    is_file,
                    #[trigger] apply::joined(directories[e], names[m]),
                    false,
                )
        }
}

/// `is_file` can answer so for this path.
pub open spec fn answers<P: Fn(&str) -> bool>(is_file: P, path: Seq<char>, answer: bool) -> bool {
    exists|asked: &str| asked@ == path && #[trigger] call_ensures(is_file, (asked,), answer)
}

/// None of these names is a file in any of these directories.
pub open spec fn no_file<P: Fn(&str) -> bool>(
    directories: Seq<Seq<char>>,
    names: Seq<Seq<char>>,
    is_file: P,
) -> bool {
    forall|m: int, e: int|
        0 <= m < names.len() && 0 <= e < directories.len() ==> answers(
            is_file,
            #[trigger] apply::joined(directories[e], names[m]),
            false,
        )
}

/// Looks a tool up on a search path: earlier names are preferred.
pub fn find_in_path<P: Fn(&str) -> bool>(
    path_var: Option<&str>,
    names: &Vec<String>,
    is_file: P,
) -> (found: Option<String>)
    requires
        forall|path: &str| call_requires(is_file, (path,)),
    ensures
        match (path_var, found) {
            (None, _) => found is None,
            (Some(search), Some(path)) => first_file(
                path_pieces(search@, 0),
                text::views(names@),
                is_file,
                path@,
            ),
            (Some(search), None) => no_file(path_pieces(search@, 0), text::views(names@), is_file),
        },
{
    let search: &str = match path_var {
        Some(search) => search,
        None => { return None },
    };
    let directories = split_path(search);
    let ghost dirs = path_pieces(search@, 0);
    let ghost wanted = text::views(names@);
    let mut n: usize = 0;
    assert(directories@.len() == dirs.len());
    while n < names.len()
        invariant
            forall|path: &str| call_requires(is_file, (path,)),
            path_var == Some(search),
            dirs == path_pieces(search@, 0),
            dirs == text::views(directories@),
            wanted == text::views(names@),
            n <= names@.len(),
            forall|m: int, e: int|
                0 <= m < n && 0 <= e < dirs.len() ==> answers(
                    is_file,
                    #[trigger] apply::joined(dirs[e], wanted[m]),
                    false,
                ),
        decreases names.len() - n,
    {
        let mut d: usize = 0;
        while d < directories.len()
            invariant
                forall|path: &str| call_requires(is_file, (path,)),
                path_var == Some(search),
                dirs == path_pieces(search@, 0),
                dirs == text::views(directories@),
                wanted == text::views(names@),
                n < names@.len(),
                d <= directories@.len(),
                forall|m: int, e: int|
                    0 <= m <= n && 0 <= e < dirs.len() && (m < n || e < d) ==> answers(
                        is_file,
                        #[trigger] apply::joined(dirs[e], wanted[m]),
                        false,
                    ),
            decreases directories.len() - d,
        {
            let candidate = join_path(directories[d].as_str(), names[n].as_str());
            assert(dirs[d as int] == directories@[d as int]@);
            assert(wanted[n as int] == names@[n as int]@);
            let asked: &str = candidate.as_str();
            let answer: bool = is_file(asked);
            assert(answers(is_file, candidate@, answer)) by {
                assert(call_ensures(is_file, (asked,), answer));
            }
            if answer {
                assert(candidate@ == apply::joined(dirs[d as int], wanted[n as int]));
                assert(first_file(dirs, wanted, is_file, candidate@));
                return Some(candidate);
            }
            d = d + 1;
        }
        n = n + 1;
    }
    None
}

// ---------------------------------------------------------------------------
// The Plasma shell
// ---------------------------------------------------------------------------

/// How a script is evaluated: by a call of `qdbus`, or by an external command
/// that stands in for the whole boundary.
#[derive(Debug, PartialEq, Eq)]
pub enum ShellEvaluator {
    Qdbus { shell_service: String, qdbus_binary: Option<String> },
    External(String),
}

/// Where the display environment of the enumeration comes from.
#[derive(Debug, PartialEq, Eq)]
pub enum DisplaySource {
    /// The daemon's own environment has a display: nothing is added.
    Inherited,
    /// The entries of an earlier recovery.
    Cached(Vec<(String, String)>),
    /// They have to be recovered from the user manager.
    Recover,
}

/// The shell probe that runs `qdbus` and `kscreen-doctor`. A recovered display
/// environment is kept until an enumeration fails with it.
pub struct QdbusShellProbe {
    pub evaluator: ShellEvaluator,
    pub kscreen_binary: String,
    pub systemctl_binary: Option<String>,
    pub display_env: Option<Vec<(String, String)>>,
    pub timeout_ms: u64,
}

/// The detail of a child that failed: what it said, or how it exited.
pub open spec fn exit_detail(tool: Seq<char>, status: Seq<char>, stderr: Seq<char>) -> Seq<char> {
    if text::trim(stderr).len() == 0 {
        tool + " exited "@ + status
    } else {
        text::trim(stderr)
    }
}

fn describe_exit(tool: &str, status: &str, stderr: &str) -> (detail: String)
    ensures
        detail@ == exit_detail(tool@, status@, stderr@),
{
    let said = trimmed(stderr);
    if said.as_str().is_empty() {
        let mut detail = tool.to_owned();
        detail.append(" exited ");
        detail.append(status);
        detail
    } else {
        said
    }
}

/// What evaluating a script came to: the trimmed reply, or why there is none.
pub open spec fn evaluation_failure(outcome: ChildOutcome) -> Option<Seq<char>> {
    match outcome {
        ChildOutcome::NotRun(failure) => Some(failure@),
        ChildOutcome::Exited { success, status, stdout, stderr } => if success {
            None
        } else {
            Some(exit_detail("evaluateScript"@, status@, stderr@))
        },
    }
}

/// Takes the outcome of the command that evaluates a script.
pub fn evaluated(outcome: ChildOutcome) -> (reply: Result<String, ProbeError>)
    ensures
        match reply {
            Ok(text) => outcome matches ChildOutcome::Exited { success, stdout, .. } && success
                && text@ == text::trim(stdout@),
            Err(error) => evaluation_failure(outcome) == Some(error.text()) && match outcome {
                ChildOutcome::NotRun(failure) => if text::contains(failure@, "timed out"@) {
                    error is TimedOut
                } else {
                    error is Unreachable
                },
                ChildOutcome::Exited { .. } => error is Rejected,
            },
        },
{
    match outcome {
        ChildOutcome::NotRun(failure) => Err(classify_probe_failure(failure.as_str())),
        ChildOutcome::Exited { success, status, stdout, stderr } => {
            if success {
                Ok(trimmed(stdout.as_str()))
            } else {
                Err(
                    ProbeError::Rejected(
                        describe_exit("evaluateScript", status.as_str(), stderr.as_str()),
                    ),
                )
            }
        },
    }
}

impl QdbusShellProbe {
    pub fn new(
        shell_service: String,
        qdbus_binary: Option<String>,
        switch_command: Option<String>,
        kscreen_binary: String,
        systemctl_binary: Option<String>,
        timeout_ms: u64,
    ) -> (probe: Self)
        ensures
            probe.evaluator == (match switch_command {
                Some(command) => ShellEvaluator::External(command),
                None => ShellEvaluator::Qdbus { shell_service, qdbus_binary },
            }),
            probe.kscreen_binary == kscreen_binary,
            probe.systemctl_binary == systemctl_binary,
            probe.display_env is None,
            probe.timeout_ms == timeout_ms,
    {
        QdbusShellProbe {
            evaluator: match switch_command {
                Some(command) => ShellEvaluator::External(command),
                None => ShellEvaluator::Qdbus { shell_service, qdbus_binary },
            },
            kscreen_binary,
            systemctl_binary,
            display_env: None,
            timeout_ms,
        }
    }

    /// The command that evaluates `script`, where `on_path` is the `qdbus` that
    /// was found on the search path: an explicit binary wins over it.
    pub fn evaluation(&self, script: &str, on_path: Option<String>) -> (command: Result<
        CommandLine,
        ProbeError,
    >)
        ensures
            match (self.evaluator, command) {
                (ShellEvaluator::External(path), Ok(line)) => line.program@ == path@ && text::views(
                    line.arguments@,
                ) == seq![script@],
                (ShellEvaluator::External(path), Err(_)) => false,
                (ShellEvaluator::Qdbus { shell_service, qdbus_binary }, Ok(line)) => {
                    &&& text::views(line.arguments@) == seq![
                        shell_service@,
                        "/PlasmaShell"@,
                        "evaluateScript"@,
                        script@,
                    ]
                    &&& match qdbus_binary {
                        Some(explicit) => line.program@ == explicit@,
                        None => on_path matches Some(found) && line.program@ == found@,
                    }
                },
                (ShellEvaluator::Qdbus { shell_service, qdbus_binary }, Err(error)) => {
                    &&& qdbus_binary is None && on_path is None
                    &&& error is Unreachable
                    &&& error.text() == "qdbus (or qdbus6) is not on PATH"@
                },
            },
    {
        let mut arguments: Vec<String> = Vec::new();
        match &self.evaluator {
            ShellEvaluator::External(path) => {
                arguments.push(script.to_owned());
                assert(text::views(arguments@) =~= seq![script@]);
                Ok(CommandLine { program: path.clone(), arguments })
            },
            ShellEvaluator::Qdbus { shell_service, qdbus_binary } => {
                let program: String = match (qdbus_binary, on_path) {
                    (Some(explicit), _) => explicit.clone(),
                    (None, Some(found)) => found,
                    (None, None) => {
                        return Err(
                            ProbeError::Unreachable("qdbus (or qdbus6) is not on PATH".to_owned()),
                        )
                    },
                };
                arguments.push(shell_service.clone());
                arguments.push("/PlasmaShell".to_owned());
                arguments.push("evaluateScript".to_owned());
                arguments.push(script.to_owned());
                assert(text::views(arguments@) =~= seq![
                    shell_service@,
                    "/PlasmaShell"@,
                    "evaluateScript"@,
                    script@,
                ]);
                Ok(CommandLine { program, arguments })
            },
        }
    }

    /// Where the display environment comes from, where `ambient` says that the
    /// daemon's own environment names a display.
    pub fn display_env(&self, ambient: bool) -> (source: DisplaySource)
        ensures
            match source {
                DisplaySource::Inherited => ambient,
                DisplaySource::Cached(entries) => !ambient && (self.display_env matches Some(kept)
                    && probe::pair_views(entries@) == probe::pair_views(kept@)),
                DisplaySource::Recover => !ambient && self.display_env is None,
            },
    {
        if ambient {
            return DisplaySource::Inherited;
        }
        match &self.display_env {
            Some(kept) => DisplaySource::Cached(copy_pairs(kept)),
            None => DisplaySource::Recover,
        }
    }

    /// The command that asks the user manager for its environment, where
    /// `on_path` is the `systemctl` that was found on the search path.
    pub fn recovery(&self, on_path: Option<String>) -> (command: Result<CommandLine, ProbeError>)
        ensures
            match command {
                Ok(line) => text::views(line.arguments@) == seq!["--user"@, "show-environment"@]
                    && match self.systemctl_binary {
                    Some(explicit) => line.program@ == explicit@,
                    None => on_path matches Some(found) && line.program@ == found@,
                },
                Err(error) => self.systemctl_binary is None && on_path is None
                    && error is DisplayUnavailable && error.text() == DISPLAY_UNAVAILABLE_HINT@
                    + " (systemctl is not on PATH)"@,
            },
    {
        let program: String = match (&self.systemctl_binary, on_path) {
            (Some(explicit), _) => explicit.clone(),
            (None, Some(found)) => found,
            (None, None) => {
                let mut detail = DISPLAY_UNAVAILABLE_HINT.to_owned();
                detail.append(" (systemctl is not on PATH)");
                return Err(ProbeError::DisplayUnavailable(detail));
            },
        };
        let mut arguments: Vec<String> = Vec::new();
        arguments.push("--user".to_owned());
        arguments.push("show-environment".to_owned());
        assert(text::views(arguments@) =~= seq!["--user"@, "show-environment"@]);
        Ok(CommandLine { program, arguments })
    }

    /// How long the recovery may take: never longer than a probe.
    pub fn recovery_budget(&self) -> (budget_ms: u64)
        ensures
            budget_ms == if self.timeout_ms < RECOVERY_TIMEOUT_MS {
                self.timeout_ms
            } else {
                RECOVERY_TIMEOUT_MS
            },
    {
        if self.timeout_ms < RECOVERY_TIMEOUT_MS {
            self.timeout_ms
        } else {
            RECOVERY_TIMEOUT_MS
        }
    }

    /// Takes what the user manager answered. Only a success is kept.
    pub fn recovered(&mut self, outcome: ChildOutcome) -> (entries: Result<
        Vec<(String, String)>,
        ProbeError,
    >)
        ensures
            final(self).evaluator == old(self).evaluator,
            final(self).kscreen_binary == old(self).kscreen_binary,
            final(self).systemctl_binary == old(self).systemctl_binary,
            final(self).timeout_ms == old(self).timeout_ms,
            match recovery_failure(outcome) {
                Some(detail) => {
                    &&& final(self).display_env == old(self).display_env
                    &&& entries matches Err(error) && error is DisplayUnavailable && error.text()
                        == detail
                },
                None => {
                    let found = recovered_entries(outcome);
                    &&& found.len() > 0
                    &&& entries matches Ok(list) && probe::pair_views(list@) == found
                    &&& final(self).display_env matches Some(kept) && probe::pair_views(kept@)
                        == found
                },
            },
    {
        let stdout: String = match outcome {
            ChildOutcome::NotRun(failure) => {
                let mut detail = DISPLAY_UNAVAILABLE_HINT.to_owned();
                detail.append(" (systemctl show-environment: ");
                detail.append(failure.as_str());
                detail.append(")");
                return Err(ProbeError::DisplayUnavailable(detail));
            },
            ChildOutcome::Exited { success, status, stdout, stderr } => {
                if !success {
                    let mut detail = DISPLAY_UNAVAILABLE_HINT.to_owned();
                    detail.append(" (systemctl show-environment exited ");
                    detail.append(status.as_str());
                    detail.append(")");
                    return Err(ProbeError::DisplayUnavailable(detail));
                }
                stdout
            },
        };
        let entries = parse_display_env(stdout.as_str());
        assert(probe::pair_views(entries@).len() == entries@.len());
        if entries.len() == 0 {
            return Err(ProbeError::DisplayUnavailable(DISPLAY_UNAVAILABLE_HINT.to_owned()));
        }
        self.display_env = Some(copy_pairs(&entries));
        Ok(entries)
    }

    /// Drops a kept recovery.
    pub fn forget_display_env(&mut self)
        ensures
            final(self).display_env is None,
            final(self).evaluator == old(self).evaluator,
            final(self).kscreen_binary == old(self).kscreen_binary,
            final(self).systemctl_binary == old(self).systemctl_binary,
            final(self).timeout_ms == old(self).timeout_ms,
    {
        self.display_env = None;
    }

    /// The command that lists the outputs.
    pub fn enumeration(&self) -> (command: CommandLine)
        ensures
            command.program@ == self.kscreen_binary@,
            text::views(command.arguments@) == seq!["-o"@],
    {
        let mut arguments: Vec<String> = Vec::new();
        arguments.push("-o".to_owned());
        assert(text::views(arguments@) =~= seq!["-o"@]);
        CommandLine { program: self.kscreen_binary.clone(), arguments }
    }

    /// Takes the outcome of the enumeration, which ran with `recovered` entries
    /// on top of the daemon's environment: a failure with recovered entries
    /// drops them, since the session may have moved to another display.
    pub fn enumerated(&mut self, recovered: bool, outcome: ChildOutcome) -> (outputs: Result<
        Vec<SystemOutput>,
        ProbeError,
    >)
        ensures
            final(self).evaluator == old(self).evaluator,
            final(self).kscreen_binary == old(self).kscreen_binary,
            final(self).systemctl_binary == old(self).systemctl_binary,
            final(self).timeout_ms == old(self).timeout_ms,
            match outputs {
                Ok(list) => {
                    &&& outcome matches ChildOutcome::Exited { success, stdout, .. } && success
                        && probe::system_views(list@) == probe::doctor_outputs(
                        text::lines_from(stdout@, 0),
                        0,
                        None,
                    )
                    &&& final(self).display_env == old(self).display_env
                },
                Err(error) => {
                    &&& final(self).display_env == (if recovered {
                        None
                    } else {
                        old(self).display_env
                    })
                    &&& match outcome {
                        ChildOutcome::NotRun(failure) => {
                            let detail = "kscreen-doctor: "@ + failure@;
                            &&& error.text() == detail
                            &&& if text::contains(detail, "timed out"@) {
                                error is TimedOut
                            } else {
                                error is Unreachable
                            }
                        },
                        ChildOutcome::Exited { success, status, stderr, .. } => !success
                            && error is Rejected && error.text() == exit_detail(
                            "kscreen-doctor"@,
                            status@,
                            stderr@,
                        ),
                    }
                },
            },
    {
        let error: ProbeError = match outcome {
            ChildOutcome::NotRun(failure) => {
                let detail = "kscreen-doctor: ".to_owned().concat(failure.as_str());
                classify_probe_failure(detail.as_str())
            },
            ChildOutcome::Exited { success, status, stdout, stderr } => {
                if success {
                    return Ok(parse_kscreen_doctor(stdout.as_str()));
                }
                ProbeError::Rejected(
                    describe_exit("kscreen-doctor", status.as_str(), stderr.as_str()),
                )
            },
        };
        if recovered {
            self.forget_display_env();
        }
        Err(error)
    }
}

/// The display variables in the user manager's answer.
pub open spec fn recovered_entries(outcome: ChildOutcome) -> Seq<(Seq<char>, Seq<char>)> {
    match outcome {
        ChildOutcome::NotRun(failure) => seq![],
        ChildOutcome::Exited { success, status, stdout, stderr } => probe::display_entries(
            text::lines_from(stdout@, 0),
            0,
        ),
    }
}

/// Why a recovery gave no display.
pub open spec fn recovery_failure(outcome: ChildOutcome) -> Option<Seq<char>> {
    match outcome {
        ChildOutcome::NotRun(failure) => Some(
            DISPLAY_UNAVAILABLE_HINT@ + " (systemctl show-environment: "@ + failure@ + ")"@,
        ),
        ChildOutcome::Exited { success, status, stdout, stderr } => if !success {
            Some(
                DISPLAY_UNAVAILABLE_HINT@ + " (systemctl show-environment exited "@ + status@
                    + ")"@,
            )
        } else if recovered_entries(outcome).len() == 0 {
            Some(DISPLAY_UNAVAILABLE_HINT@)
        } else {
            None
        },
    }
}

fn copy_pairs(pairs: &Vec<(String, String)>) -> (copy: Vec<(String, String)>)
    ensures
        probe::pair_views(copy@) == probe::pair_views(pairs@),
{
    let mut copy: Vec<(String, String)> = Vec::new();
    let mut i: usize = 0;
    while i < pairs.len()
        invariant
            i <= pairs@.len(),
            probe::pair_views(copy@) == probe::pair_views(pairs@).take(i as int),
        decreases pairs.len() - i,
    {
        let ghost before = copy@;
        copy.push((pairs[i].0.clone(), pairs[i].1.clone()));
        proof {
            let entry = (pairs@[i as int].0@, pairs@[i as int].1@);
            assert(probe::pair_views(copy@) =~= probe::pair_views(before).push(entry));
            assert(probe::pair_views(pairs@).take(i + 1) =~= probe::pair_views(pairs@).take(
                i as int,
            ).push(entry));
        }
        i = i + 1;
    }
    assert(probe::pair_views(pairs@).take(pairs@.len() as int) =~= probe::pair_views(pairs@));
    copy
}

// ---------------------------------------------------------------------------
// A stand-in for the shell
// ---------------------------------------------------------------------------

/// A shell with fixed answers that notes every script it is given. A script
/// that opens like the enumeration is one.
pub struct StubProbe {
    pub outputs: Vec<SystemOutput>,
    /// What the enumeration is answered; without it the enumeration fails.
    pub reply: Option<String>,
    /// What the enumeration is answered once the daemon's plugin was assigned.
    pub kwe_reply: Option<String>,
    pub scripts: Vec<String>,
    /// Fail every other script.
    pub reject_scripts: bool,
    pub kwe_assigned: bool,
}

/// The reply of the stand-in to an enumeration.
pub open spec fn stub_reply(stub: StubProbe) -> Option<Seq<char>> {
    if stub.kwe_assigned && stub.kwe_reply is Some {
        probe::option_view(stub.kwe_reply)
    } else {
        probe::option_view(stub.reply)
    }
}

impl StubProbe {
    pub fn new(outputs: Vec<SystemOutput>, reply: Option<String>) -> (stub: Self)
        ensures
            stub.outputs == outputs,
            stub.reply == reply,
            stub.kwe_reply is None,
            stub.scripts@.len() == 0,
            !stub.reject_scripts,
            !stub.kwe_assigned,
    {
        StubProbe {
            outputs,
            reply,
            kwe_reply: None,
            scripts: Vec::new(),
            reject_scripts: false,
            kwe_assigned: false,
        }
    }

    /// Answers enumerations so once the daemon's plugin was assigned.
    pub fn after_switch(self, reply: String) -> (stub: Self)
        ensures
            stub == (StubProbe { kwe_reply: Some(reply), ..self }),
    {
        StubProbe {
            outputs: self.outputs,
            reply: self.reply,
            kwe_reply: Some(reply),
            scripts: self.scripts,
            reject_scripts: self.reject_scripts,
            kwe_assigned: self.kwe_assigned,
        }
    }

    /// The scripts so far.
    pub fn scripts(&self) -> (scripts: Vec<String>)
        ensures
            scripts@ == self.scripts@,
    {
        crate::assignments::copy_strings(&self.scripts)
    }
}

fn copy_output(output: &SystemOutput) -> (copy: SystemOutput)
    ensures
        copy == *output,
{
    SystemOutput {
        name: output.name.clone(),
        enabled: output.enabled,
        connected: output.connected,
        geometry: output.geometry,
    }
}

impl ShellProbe for StubProbe {
    fn evaluate_script(&mut self, script: &str) -> (result: Result<String, ProbeError>)
        ensures
            final(self).scripts@.len() == old(self).scripts@.len() + 1,
            final(self).scripts@.last()@ == script@,
            final(self).scripts@.drop_last() == old(self).scripts@,
            final(self).outputs == old(self).outputs,
            final(self).reply == old(self).reply,
            final(self).kwe_reply == old(self).kwe_reply,
            final(self).reject_scripts == old(self).reject_scripts,
            if text::starts_with(script@, "var d = desktops();"@) {
                &&& final(self).kwe_assigned == old(self).kwe_assigned
                &&& match result {
                    Ok(reply) => stub_reply(*old(self)) == Some(reply@),
                    Err(error) => stub_reply(*old(self)) is None && error is Rejected
                        && error.text() == "stub probe rejected"@,
                }
            } else {
                &&& final(self).kwe_assigned == (old(self).kwe_assigned || text::contains(
                    script@,
                    "wallpaperPlugin = \"org.kde.kwe.wallpaper\""@,
                ))
                &&& match result {
                    Ok(reply) => !old(self).reject_scripts && reply@.len() == 0,
                    Err(error) => old(self).reject_scripts && error is Unreachable && error.text()
                        == "stub probe unreachable"@,
                }
            },
    {
        self.scripts.push(script.to_owned());
        assert(self.scripts@.drop_last() =~= old(self).scripts@);
        if begins_with(script, "var d = desktops();") {
            if self.kwe_assigned {
                match &self.kwe_reply {
                    Some(reply) => { return Ok(reply.clone()) },
                    None => {},
                }
            }
            return match &self.reply {
                Some(reply) => Ok(reply.clone()),
                None => Err(ProbeError::Rejected("stub probe rejected".to_owned())),
            };
        }
        let chars = chars_of(script);
        let assigning = chars_of("wallpaperPlugin = \"org.kde.kwe.wallpaper\"");
        if has_marker(&chars, &assigning) {
            self.kwe_assigned = true;
        }
        if self.reject_scripts {
            Err(ProbeError::Unreachable("stub probe unreachable".to_owned()))
        } else {
            Ok(String::new())
        }
    }

    fn system_outputs(&mut self) -> (outputs: Result<Vec<SystemOutput>, ProbeError>)
        ensures
            *final(self) == *old(self),
            outputs matches Ok(list) && list@ == old(self).outputs@,
    {
        let mut list: Vec<SystemOutput> = Vec::new();
        let mut i: usize = 0;
        while i < self.outputs.len()
            invariant
                *self == *old(self),
                i <= self.outputs@.len(),
                list@ == self.outputs@.take(i as int),
            decreases self.outputs.len() - i,
        {
            list.push(copy_output(&self.outputs[i]));
            assert(self.outputs@.take(i + 1) =~= self.outputs@.take(i as int).push(
                self.outputs@[i as int],
            ));
            i = i + 1;
        }
        assert(self.outputs@.take(self.outputs@.len() as int) =~= self.outputs@);
        Ok(list)
    }
}

/// A recovery that gave nothing is never kept, and one that gave something is
/// made up of plain display variables only.
pub proof fn law_recovery_is_plain(outcome: ChildOutcome)
    ensures
        recovery_failure(outcome) is None ==> recovered_entries(outcome).len() > 0,
        forall|i: int|
            #![trigger recovered_entries(outcome)[i]]
            0 <= i < recovered_entries(outcome).len() ==> probe::display_key(
                recovered_entries(outcome)[i].0,
            ) && probe::valid_display(recovered_entries(outcome)[i].1),
{
    if let ChildOutcome::Exited { success, status, stdout, stderr } = outcome {
        probe::law_display_entries_are_plain(text::lines_from(stdout@, 0), 0);
    }
}

} // verus!
