use vstd::prelude::*;
use crate::text::{join3, same_text};

verus! {

/// The command interpreter family of the host the editor runs on.
#[derive(Clone, Copy, Debug, PartialEq, Eq, Structural)]
pub enum HostShell {
    Windows,
    Posix,
}

/// An interactive shell the terminal panel can start.
#[derive(Clone, Copy, Debug, PartialEq, Eq, Structural)]
pub enum InteractiveShell {
    PowerShell,
    Cmd,
}

/// How a file is run, chosen by its extension.
#[derive(Clone, Copy, Debug, PartialEq, Eq, Structural)]
pub enum RunRule {
    /// Compiled with `rustc`.
    Rust,
    /// Interpreted by `python`.
    Python,
    /// Interpreted by `node`.
    JavaScript,
    /// Not runnable.
    Unsupported,
}

/// One request for a background command, as the user made it.
#[derive(Debug)]
pub enum Job {
    /// Run the file at `path` with the tool its extension calls for, on a
    /// host of the kind `host`.
    RunFile { path: String, host: HostShell },
    /// Run a program just compiled, found at `program`.
    RunProgram { program: String },
    /// Build the project; `path` is the file that was open when asked.
    Build { path: String },
    /// Run one command line through the host's command interpreter.
    Command { line: String, host: HostShell },
    /// Start an interactive shell.
    OpenShell { shell: InteractiveShell },
}

/// A process to start: a program, by name (found on the executable search
/// path) or by path, and its arguments.
#[derive(Debug)]
pub struct Invocation {
    pub program: String,
    pub args: Vec<String>,
}

/// What to do when a job starts: the text to append to the terminal output
/// at once, and the process to start, if any.
#[derive(Debug)]
pub struct JobStart {
    pub notice: String,
    pub invocation: Option<Invocation>,
    /// Whether to wait for the process and capture what it printed; an
    /// interactive shell is only started.
    pub capture_output: bool,
    /// The program that the process makes, to be run once the process
    /// ran to a successful end.
    pub then_run: Option<String>,
}

/// What became of a job's process, with its output as raw bytes.
#[derive(Debug)]
pub enum ProcessOutcome {
    /// It ran to its end and printed these bytes; `succeeded` tells
    /// whether its exit status was a success.
    Exited { stdout: Vec<u8>, stderr: Vec<u8>, succeeded: bool },
    /// It was started and left running.
    Started,
    /// It could not be started, for this reason.
    NotStarted { reason: String },
}

/// What became of a job's process, with its output as text.
#[derive(Debug)]
pub enum ProcessReport {
    Exited { stdout: String, stderr: String },
    Started,
    NotStarted { reason: String },
}

/// The extension of the last component of a path, if it has one.
pub uninterp spec fn extension_of(path: Seq<char>) -> Option<Seq<char>>;

/// The name of the last component of a path without its extension, if
/// the path has a last component.
pub uninterp spec fn stem_of(path: Seq<char>) -> Option<Seq<char>>;

/// The text of some bytes read as UTF-8, invalid sequences replaced.
pub uninterp spec fn utf8_lossy(bytes: Seq<u8>) -> Seq<char>;

/// Relies on std::path::Path::extension: the part of the path's last
/// component after its last dot (none for a name that only starts with a
/// dot), found from the path's text alone under the path syntax of the
/// target the crate is built for.
#[verifier::external_body]
pub(crate) fn file_extension(path: &str) -> (r: Option<String>)
    ensures
        match r {
            Some(e) => extension_of(path@) == Some(e@),
            None => extension_of(path@) is None,
        },
{
    match std::path::Path::new(path).extension() {
        Some(e) => match e.to_str() {
            Some(t) => Some(t.to_string()),
            None => None,
        },
        None => None,
    }
}

/// Relies on std::path::Path::file_stem: the name of the path's last
/// component without its extension, found from the path's text alone under
/// the path syntax of the target the crate is built for.
#[verifier::external_body]
fn file_stem(path: &str) -> (r: Option<String>)
    ensures
        match r {
            Some(s) => stem_of(path@) == Some(s@),
            None => stem_of(path@) is None,
        },
{
    match std::path::Path::new(path).file_stem() {
        Some(s) => match s.to_str() {
            Some(t) => Some(t.to_string()),
            None => None,
        },
        None => None,
    }
}

/// Relies on String::from_utf8_lossy: the bytes read as UTF-8, each invalid
/// sequence replaced by U+FFFD, so that every byte gives at least one
/// character: no bytes give no text, and some bytes give some text.
#[verifier::external_body]
fn lossy_text(bytes: &Vec<u8>) -> (r: String)
    ensures
        r@ == utf8_lossy(bytes@),
        r@.len() == 0 <==> bytes@.len() == 0,
{
    String::from_utf8_lossy(bytes.as_slice()).into_owned()
}

/// The run rule for a file with extension `ext` (matched exactly, case
/// included); a file without an extension cannot be run.
pub open spec fn run_rule(ext: Option<Seq<char>>) -> RunRule {
    match ext {
        Some(e) => if e == "rs"@ {
            RunRule::Rust
        } else if e == "py"@ {
            RunRule::Python
        } else if e == "js"@ {
            RunRule::JavaScript
        } else {
            RunRule::Unsupported
        },
        None => RunRule::Unsupported,
    }
}

/// The program that runs a file under `rule`.
pub open spec fn rule_program(rule: RunRule) -> Option<Seq<char>> {
    match rule {
        RunRule::Rust => Some("rustc"@),
        RunRule::Python => Some("python"@),
        RunRule::JavaScript => Some("node"@),
        RunRule::Unsupported => None,
    }
}

/// The message that ends a request to run a file that cannot be run.
pub open spec fn unsupported_message() -> Seq<char> {
    "❌ Unsupported file type\n> "@
}

/// The text appended when the file at `path` is run under `rule`.
pub open spec fn run_notice(path: Seq<char>, rule: RunRule) -> Seq<char> {
    match rule {
        RunRule::Unsupported => unsupported_message(),
        RunRule::Rust => "▶️ Running: "@ + path + "\n"@ + "Compiling Rust...\n"@,
        _ => "▶️ Running: "@ + path + "\n"@,
    }
}

/// The crate name rustc infers for a source file whose stem is `stem`:
/// the stem with each `-` turned into `_`.
pub open spec fn crate_name(stem: Seq<char>) -> Seq<char> {
    stem.map_values(|c: char| if c == '-' { '_' } else { c })
}

/// The program rustc writes by default for a source file whose stem is
/// `stem`: named after the crate, in the working directory, with `.exe` on
/// Windows. It is written with a directory part (`./`, `.\`) so that it
/// names that file in the working directory.
pub open spec fn compiled_program(stem: Seq<char>, host: HostShell) -> Seq<char> {
    match host {
        HostShell::Windows => ".\\"@ + crate_name(stem) + ".exe"@,
        HostShell::Posix => "./"@ + crate_name(stem),
    }
}

/// The program to run once a file with stem `stem` was processed under
/// `rule`: the compiled program, for a Rust file.
pub open spec fn rule_then_run(stem: Option<Seq<char>>, host: HostShell, rule: RunRule) -> Option<Seq<char>> {
    match (rule, stem) {
        (RunRule::Rust, Some(s)) => Some(compiled_program(s, host)),
        _ => None,
    }
}

/// The rule by which the file at `path` is run.
pub open spec fn rule_of_path(path: Seq<char>) -> RunRule {
    run_rule(extension_of(path))
}

/// The text appended when `job` starts.
pub open spec fn notice_of(job: Job) -> Seq<char> {
    match job {
        Job::RunFile { path, host } => run_notice(path@, rule_of_path(path@)),
        Job::RunProgram { program } => Seq::empty(),
        Job::Build { path } => "🔨 Building: "@ + path@ + "\n"@,
        Job::Command { line, host } => "$ "@ + line@ + "\n"@,
        Job::OpenShell { shell } => Seq::empty(),
    }
}

/// The program `job` starts, if any.
pub open spec fn program_of(job: Job) -> Option<Seq<char>> {
    match job {
        Job::RunFile { path, host } => rule_program(rule_of_path(path@)),
        Job::RunProgram { program } => Some(program@),
        Job::Build { path } => Some("cargo"@),
        Job::Command { line, host } => match host {
            HostShell::Windows => Some("cmd"@),
            HostShell::Posix => Some("sh"@),
        },
        Job::OpenShell { shell } => match shell {
            InteractiveShell::PowerShell => Some("powershell"@),
            InteractiveShell::Cmd => Some("cmd"@),
        },
    }
}

/// The arguments of the program `job` starts.
pub open spec fn args_of(job: Job) -> Seq<Seq<char>> {
    match job {
        Job::RunFile { path, host } => seq![path@],
        Job::RunProgram { program } => Seq::empty(),
        Job::Build { path } => seq!["build"@, "--release"@],
        Job::Command { line, host } => match host {
            HostShell::Windows => seq!["/C"@, line@],
            HostShell::Posix => seq!["-c"@, line@],
        },
        Job::OpenShell { shell } => Seq::empty(),
    }
}

/// Whether the process of `job` is waited for and its output captured.
pub open spec fn captures_output(job: Job) -> bool {
    !(job is OpenShell)
}

/// The program to run once the process of `job` ran to a successful end.
pub open spec fn then_run_of(job: Job) -> Option<Seq<char>> {
    match job {
        Job::RunFile { path, host } => rule_then_run(stem_of(path@), host, rule_of_path(path@)),
        _ => None,
    }
}

/// Whether `start` is the plan `notice`, `program` and `args` describe.
pub open spec fn start_matches(
    start: JobStart,
    notice: Seq<char>,
    program: Option<Seq<char>>,
    args: Seq<Seq<char>>,
) -> bool {
    &&& start.notice@ == notice
    &&& start.invocation is Some <==> program is Some
    &&& start.invocation is Some ==> start.invocation->0.program@ == program->0
        && start.invocation->0.args.deep_view() == args
}

/// The run rule for extension `ext`.
pub fn run_rule_for(ext: Option<&str>) -> (r: RunRule)
    ensures
        r == run_rule(
            match ext {
                Some(e) => Some(e@),
                None => None,
            },
        ),
{
    match ext {
        Some(e) => {
            if same_text(e, "rs") {
                RunRule::Rust
            } else if same_text(e, "py") {
                RunRule::Python
            } else if same_text(e, "js") {
                RunRule::JavaScript
            } else {
                RunRule::Unsupported
            }
        },
        None => RunRule::Unsupported,
    }
}

fn invocation(program: &str, args: Vec<String>) -> (r: Option<Invocation>)
    ensures
        r is Some,
        r->0.program@ == program@,
        r->0.args@ == args@,
{
    Some(Invocation { program: program.to_string(), args })
}

/// The program rustc writes by default for a source file whose stem is
/// `stem`.
pub fn compiled_program_for(stem: &str, host: HostShell) -> (r: String)
    ensures
        r@ == compiled_program(stem@, host),
{
    let mut r = match host {
        HostShell::Windows => ".\\".to_string(),
        HostShell::Posix => "./".to_string(),
    };
    let ghost start = r@;
    let n = stem.unicode_len();
    let mut i: usize = 0;
    while i < n
        invariant
            n == stem@.len(),
            i <= n,
            r@ == start + crate_name(stem@.take(i as int)),
        decreases n - i,
    {
        let c = stem.get_char(i);
        let ghost before = r@;
        if c == '-' {
            r.append("_");
            proof {
                reveal_strlit("_");
            }
            assert(r@ =~= before.push('_'));
        } else {
            let one = stem.substring_char(i, i + 1);
            assert(one@ =~= seq![c]);
            r.append(one);
            assert(r@ =~= before.push(c));
        }
        assert(crate_name(stem@.take(i + 1)) =~= crate_name(stem@.take(i as int)).push(
            if c == '-' { '_' } else { c },
        ));
        i = i + 1;
    }
    assert(stem@.take(n as int) =~= stem@);
    match host {
        HostShell::Windows => {
            r.append(".exe");
            r
        },
        HostShell::Posix => r,
    }
}

/// The plan for running the file at `path` on a host of the kind `host`,
/// the file's extension being `ext` and its stem `stem`.
pub fn run_start(path: &str, host: HostShell, ext: Option<&str>, stem: Option<&str>) -> (r: JobStart)
    ensures
        ({
            let rule = run_rule(
                match ext {
                    Some(e) => Some(e@),
                    None => None,
                },
            );
            let then = rule_then_run(
                match stem {
                    Some(s) => Some(s@),
                    None => None,
                },
                host,
                rule,
            );
            &&& start_matches(r, run_notice(path@, rule), rule_program(rule), seq![path@])
            &&& match r.then_run {
                Some(p) => then == Some(p@),
                None => then is None,
            }
        }),
        r.capture_output,
{
    let rule = run_rule_for(ext);
    let header = join3("▶️ Running: ", path, "\n");
    if rule == RunRule::Unsupported {
        return JobStart {
            notice: "❌ Unsupported file type\n> ".to_string(),
            invocation: None,
            capture_output: true,
            then_run: None,
        };
    }
    let args = vec![path.to_string()];
    assert(args.deep_view() =~= seq![path@]);
    match rule {
        RunRule::Rust => {
            let mut notice = header;
            notice.append("Compiling Rust...\n");
            let then_run = match stem {
                Some(s) => Some(compiled_program_for(s, host)),
                None => None,
            };
            JobStart { notice, invocation: invocation("rustc", args), capture_output: true, then_run }
        },
        _ => {
            let program = if rule == RunRule::Python {
                "python"
            } else {
                "node"
            };
            JobStart {
                notice: header,
                invocation: invocation(program, args),
                capture_output: true,
                then_run: None,
            }
        },
    }
}

/// The plan for `job`: what to append at once, which process to start,
/// and what to run after it.
pub fn job_start(job: &Job) -> (r: JobStart)
    ensures
        start_matches(r, notice_of(*job), program_of(*job), args_of(*job)),
        r.capture_output == captures_output(*job),
        match r.then_run {
            Some(p) => then_run_of(*job) == Some(p@),
            None => then_run_of(*job) is None,
        },
{
    match job {
        Job::RunFile { path, host } => {
            let ext = file_extension(path.as_str());
            let stem = file_stem(path.as_str());
            let e = match &ext {
                Some(e) => Some(e.as_str()),
                None => None,
            };
            let s = match &stem {
                Some(s) => Some(s.as_str()),
                None => None,
            };
            run_start(path.as_str(), *host, e, s)
        },
        Job::RunProgram { program } => {
            let args: Vec<String> = Vec::new();
            assert(args.deep_view() =~= Seq::<Seq<char>>::empty());
            JobStart {
                notice: String::new(),
                invocation: invocation(program.as_str(), args),
                capture_output: true,
                then_run: None,
            }
        },
        Job::Build { path } => {
            let args = vec!["build".to_string(), "--release".to_string()];
            assert(args.deep_view() =~= seq!["build"@, "--release"@]);
            JobStart {
                notice: join3("🔨 Building: ", path.as_str(), "\n"),
                invocation: invocation("cargo", args),
                capture_output: true,
                then_run: None,
            }
        },
        Job::Command { line, host } => {
            let notice = join3("$ ", line.as_str(), "\n");
            let (program, flag) = match host {
                HostShell::Windows => ("cmd", "/C"),
                HostShell::Posix => ("sh", "-c"),
            };
            let args = vec![flag.to_string(), line.clone()];
            assert(args.deep_view() =~= seq![flag@, line@]);
            JobStart {
                notice,
                invocation: invocation(program, args),
                capture_output: true,
                then_run: None,
            }
        },
        Job::OpenShell { shell } => {
            let program = match shell {
                InteractiveShell::PowerShell => "powershell",
                InteractiveShell::Cmd => "cmd",
            };
            let args: Vec<String> = Vec::new();
            assert(args.deep_view() =~= Seq::<Seq<char>>::empty());
            JobStart {
                notice: String::new(),
                invocation: invocation(program, args),
                capture_output: false,
                then_run: None,
            }
        },
    }
}

/// The job that follows a job planned as `start` whose process ended as
/// `outcome`: the program it compiled, when it ran to a successful end.
pub fn next_job(start: &JobStart, outcome: &ProcessOutcome) -> (r: Option<Job>)
    ensures
        match (start.then_run, *outcome) {
            (Some(p), ProcessOutcome::Exited { succeeded: true, .. }) => r matches Some(
                Job::RunProgram { program },
            ) && program@ == p@,
            _ => r is None,
        },
{
    match (&start.then_run, outcome) {
        (Some(p), ProcessOutcome::Exited { succeeded: true, .. }) => Some(
            Job::RunProgram { program: p.clone() },
        ),
        _ => None,
    }
}

/// Error output, set apart by a label; none when there is none.
pub open spec fn labelled_errors(stderr: Seq<char>) -> Seq<char> {
    if stderr.len() > 0 {
        "❌ Error:\n"@ + stderr
    } else {
        Seq::empty()
    }
}

/// What `job` appends once its process ran to its end and printed `stdout`
/// and `stderr`: the output, error output set apart by a label, and the
/// prompt marker last.
pub open spec fn exited_text(job: Job, stdout: Seq<char>, stderr: Seq<char>) -> Seq<char> {
    match job {
        Job::OpenShell { shell } => started_text(job),
        _ => stdout + labelled_errors(stderr) + "\n> "@,
    }
}

/// What `job` appends once its process was started and left running.
pub open spec fn started_text(job: Job) -> Seq<char> {
    match job {
        Job::OpenShell { shell } => match shell {
            InteractiveShell::PowerShell => "PowerShell Started\nType 'exit' to close\n> "@,
            InteractiveShell::Cmd => "CMD Started\nType 'exit' to close\n> "@,
        },
        _ => "\n> "@,
    }
}

/// What `job` appends when its process could not be started, for `reason`.
pub open spec fn failed_text(job: Job, reason: Seq<char>) -> Seq<char> {
    match job {
        Job::RunFile { .. } => "❌ Error: "@ + reason + "\n> "@,
        Job::RunProgram { .. } => "❌ Error: "@ + reason + "\n> "@,
        Job::Build { .. } => "Build Error: "@ + reason + "\n> "@,
        _ => "Error: "@ + reason + "\n> "@,
    }
}

fn shell_banner(shell: InteractiveShell) -> (r: String)
    ensures
        r@ == started_text(Job::OpenShell { shell }),
{
    match shell {
        InteractiveShell::PowerShell => "PowerShell Started\nType 'exit' to close\n> ".to_string(),
        InteractiveShell::Cmd => "CMD Started\nType 'exit' to close\n> ".to_string(),
    }
}

/// The text `job` appends once its process is done with, given what became
/// of the process, its output already read as text.
pub fn finish_text(job: &Job, report: &ProcessReport) -> (r: String)
    ensures
        r@ == match *report {
            ProcessReport::Exited { stdout, stderr } => exited_text(*job, stdout@, stderr@),
            ProcessReport::Started => started_text(*job),
            ProcessReport::NotStarted { reason } => failed_text(*job, reason@),
        },
{
    match report {
        ProcessReport::NotStarted { reason } => {
            let prefix = match job {
                Job::RunFile { .. } => "❌ Error: ",
                Job::RunProgram { .. } => "❌ Error: ",
                Job::Build { .. } => "Build Error: ",
                _ => "Error: ",
            };
            join3(prefix, reason.as_str(), "\n> ")
        },
        ProcessReport::Started => {
            match job {
                Job::OpenShell { shell } => shell_banner(*shell),
                _ => "\n> ".to_string(),
            }
        },
        ProcessReport::Exited { stdout, stderr } => {
            match job {
                Job::OpenShell { shell } => shell_banner(*shell),
                _ => {
                    let mut out = stdout.clone();
                    if stderr.as_str().unicode_len() > 0 {
                        out.append("❌ Error:\n");
                        out.append(stderr.as_str());
                    }
                    out.append("\n> ");
                    out
                },
            }
        },
    }
}

/// The text `job` appends once its process is done with, given what became
/// of the process.
pub fn finish_job(job: &Job, outcome: &ProcessOutcome) -> (r: String)
    ensures
        r@ == match *outcome {
            ProcessOutcome::Exited { stdout, stderr, .. } => exited_text(
                *job,
                utf8_lossy(stdout@),
                utf8_lossy(stderr@),
            ),
            ProcessOutcome::Started => started_text(*job),
            ProcessOutcome::NotStarted { reason } => failed_text(*job, reason@),
        },
        match *outcome {
            ProcessOutcome::Exited { stdout, stderr, .. } => {
                &&& utf8_lossy(stdout@).len() == 0 <==> stdout@.len() == 0
                &&& utf8_lossy(stderr@).len() == 0 <==> stderr@.len() == 0
            },
            _ => true,
        },
{
    let report = match outcome {
        ProcessOutcome::Exited { stdout, stderr, .. } => ProcessReport::Exited {
            stdout: lossy_text(stdout),
            stderr: lossy_text(stderr),
        },
        ProcessOutcome::Started => ProcessReport::Started,
        ProcessOutcome::NotStarted { reason } => ProcessReport::NotStarted { reason: reason.clone() },
    };
    finish_text(job, &report)
}

/// A file whose extension is not one of the runnable ones (or that has
/// none) starts no process, and the only text appended for it is the
/// unsupported-type message.
pub proof fn unrunnable_file_starts_nothing(job: Job)
    requires
        match job {
            Job::RunFile { path, host } => match extension_of(path@) {
                Some(e) => e != "rs"@ && e != "py"@ && e != "js"@,
                None => true,
            },
            _ => false,
        },
    ensures
        program_of(job) is None,
        then_run_of(job) is None,
        notice_of(job) == unsupported_message(),
{
}

} // verus!
