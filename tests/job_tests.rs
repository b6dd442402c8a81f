use codonn::job::{
    compiled_program_for, finish_job, finish_text, job_start, next_job, run_rule_for, run_start,
    HostShell, InteractiveShell, Job, ProcessOutcome, ProcessReport, RunRule,
};
use codonn::sink::OutputSink;

fn command(line: &str, host: HostShell) -> Job {
    Job::Command { line: line.to_string(), host }
}

#[test]
fn echo_hello_on_posix_shell() {
    let job = command("echo hello", HostShell::Posix);
    let start = job_start(&job);
    assert_eq!(start.notice, "$ echo hello\n");
    assert!(start.capture_output);
    let inv = start.invocation.expect("a process to start");
    assert_eq!(inv.program, "sh");
    assert_eq!(inv.args, vec!["-c".to_string(), "echo hello".to_string()]);
    let outcome = ProcessOutcome::Exited { stdout: b"hello\n".to_vec(), stderr: Vec::new(), succeeded: true };
    let mut sink = OutputSink::new("");
    sink.append(&start.notice);
    sink.append(&finish_job(&job, &outcome));
    assert_eq!(sink.snapshot(), "$ echo hello\nhello\n\n> ");
}

#[test]
fn command_on_windows_uses_cmd() {
    let start = job_start(&command("dir", HostShell::Windows));
    let inv = start.invocation.unwrap();
    assert_eq!(inv.program, "cmd");
    assert_eq!(inv.args, vec!["/C".to_string(), "dir".to_string()]);
}

#[test]
fn unknown_extension_is_unsupported() {
    let start = job_start(&Job::RunFile { host: HostShell::Posix, path: "notes/data.xyz".to_string() });
    assert!(start.invocation.is_none());
    assert_eq!(start.notice, "❌ Unsupported file type\n> ");
}

#[test]
fn file_without_extension_is_unsupported() {
    let start = job_start(&Job::RunFile { host: HostShell::Posix, path: "project/Makefile".to_string() });
    assert!(start.invocation.is_none());
    assert_eq!(start.notice, "❌ Unsupported file type\n> ");
}

#[test]
fn extension_match_is_case_sensitive() {
    let start = job_start(&Job::RunFile { host: HostShell::Posix, path: "main.RS".to_string() });
    assert!(start.invocation.is_none());
}

#[test]
fn rust_file_is_compiled() {
    let start = job_start(&Job::RunFile { host: HostShell::Posix, path: "src/main.rs".to_string() });
    assert_eq!(start.notice, "▶️ Running: src/main.rs\nCompiling Rust...\n");
    assert_eq!(start.then_run.as_deref(), Some("./main"));
    let inv = start.invocation.unwrap();
    assert_eq!(inv.program, "rustc");
    assert_eq!(inv.args, vec!["src/main.rs"]);
}

#[test]
fn compiled_program_location() {
    assert_eq!(compiled_program_for("hello", HostShell::Posix), "./hello");
    assert_eq!(compiled_program_for("hello", HostShell::Windows), ".\\hello.exe");
    assert_eq!(compiled_program_for("my-tool", HostShell::Posix), "./my_tool");
    assert_eq!(compiled_program_for("a-b-c", HostShell::Windows), ".\\a_b_c.exe");
}

#[test]
fn compiled_program_runs_after_successful_compile() {
    let job = Job::RunFile { host: HostShell::Posix, path: "/tmp/hello.rs".to_string() };
    let start = job_start(&job);
    let ok = ProcessOutcome::Exited { stdout: Vec::new(), stderr: Vec::new(), succeeded: true };
    match next_job(&start, &ok) {
        Some(Job::RunProgram { program }) => {
            assert_eq!(program, "./hello");
            let run = job_start(&Job::RunProgram { program });
            assert_eq!(run.notice, "");
            assert_eq!(run.invocation.unwrap().program, "./hello");
        }
        other => panic!("expected a program to run, got {:?}", other),
    }
    let failed = ProcessOutcome::Exited { stdout: Vec::new(), stderr: b"error".to_vec(), succeeded: false };
    assert!(next_job(&start, &failed).is_none());
    let not_started = ProcessOutcome::NotStarted { reason: "no rustc".to_string() };
    assert!(next_job(&start, &not_started).is_none());
}

#[test]
fn interpreted_files_have_no_follow_up() {
    let start = job_start(&Job::RunFile { host: HostShell::Posix, path: "tool.py".to_string() });
    assert!(start.then_run.is_none());
    let ok = ProcessOutcome::Exited { stdout: Vec::new(), stderr: Vec::new(), succeeded: true };
    assert!(next_job(&start, &ok).is_none());
}

#[test]
fn python_and_node_files_are_interpreted() {
    let py = job_start(&Job::RunFile { host: HostShell::Posix, path: "tool.py".to_string() });
    assert_eq!(py.notice, "▶️ Running: tool.py\n");
    assert_eq!(py.invocation.unwrap().program, "python");
    let js = job_start(&Job::RunFile { host: HostShell::Posix, path: "app.js".to_string() });
    assert_eq!(js.invocation.unwrap().program, "node");
}

#[test]
fn run_rule_follows_given_extension() {
    assert_eq!(run_rule_for(Some("rs")), RunRule::Rust);
    assert_eq!(run_rule_for(Some("py")), RunRule::Python);
    assert_eq!(run_rule_for(Some("js")), RunRule::JavaScript);
    assert_eq!(run_rule_for(Some("ts")), RunRule::Unsupported);
    assert_eq!(run_rule_for(None), RunRule::Unsupported);
    let start = run_start("a/b.py", HostShell::Posix, Some("py"), Some("b"));
    assert_eq!(start.notice, "▶️ Running: a/b.py\n");
    assert_eq!(start.invocation.unwrap().args, vec!["a/b.py".to_string()]);
    assert!(start.then_run.is_none());
    assert!(run_start("a/b.py", HostShell::Posix, None, Some("b")).invocation.is_none());
    let rust = run_start("x/my-app.rs", HostShell::Windows, Some("rs"), Some("my-app"));
    assert_eq!(rust.invocation.unwrap().args, vec!["x/my-app.rs"]);
    assert_eq!(rust.then_run.as_deref(), Some(".\\my_app.exe"));
    let nameless = run_start("x/.rs", HostShell::Posix, Some("rs"), None);
    assert!(nameless.then_run.is_none());
}

#[test]
fn build_runs_fixed_command() {
    let start = job_start(&Job::Build { path: "src/lib.rs".to_string() });
    assert_eq!(start.notice, "🔨 Building: src/lib.rs\n");
    let inv = start.invocation.unwrap();
    assert_eq!(inv.program, "cargo");
    assert_eq!(inv.args, vec!["build".to_string(), "--release".to_string()]);
}

#[test]
fn interactive_shells_are_started_not_captured() {
    let ps = job_start(&Job::OpenShell { shell: InteractiveShell::PowerShell });
    assert_eq!(ps.notice, "");
    assert!(!ps.capture_output);
    let inv = ps.invocation.unwrap();
    assert_eq!(inv.program, "powershell");
    assert!(inv.args.is_empty());
    let cmd = job_start(&Job::OpenShell { shell: InteractiveShell::Cmd });
    assert_eq!(cmd.invocation.unwrap().program, "cmd");
}

#[test]
fn run_output_labels_errors() {
    let job = Job::RunFile { host: HostShell::Posix, path: "x.py".to_string() };
    let report = ProcessReport::Exited { stdout: "out\n".to_string(), stderr: "bad\n".to_string() };
    assert_eq!(finish_text(&job, &report), "out\n❌ Error:\nbad\n\n> ");
    let quiet = ProcessReport::Exited { stdout: "out\n".to_string(), stderr: String::new() };
    assert_eq!(finish_text(&job, &quiet), "out\n\n> ");
}

#[test]
fn command_output_labels_errors() {
    let job = command("make", HostShell::Posix);
    let report = ProcessReport::Exited { stdout: "a\n".to_string(), stderr: "b\n".to_string() };
    assert_eq!(finish_text(&job, &report), "a\n❌ Error:\nb\n\n> ");
    let quiet = ProcessReport::Exited { stdout: "a\n".to_string(), stderr: String::new() };
    assert_eq!(finish_text(&job, &quiet), "a\n\n> ");
}

#[test]
fn build_output_labels_errors() {
    let job = Job::Build { path: "src/lib.rs".to_string() };
    let outcome = ProcessOutcome::Exited {
        stdout: b"built\n".to_vec(),
        stderr: b"warning: unused\n".to_vec(),
        succeeded: true,
    };
    assert_eq!(finish_job(&job, &outcome), "built\n❌ Error:\nwarning: unused\n\n> ");
}

#[test]
fn failures_to_start_are_reported_per_job() {
    let reason = ProcessReport::NotStarted { reason: "not found".to_string() };
    let run = Job::RunFile { host: HostShell::Posix, path: "x.js".to_string() };
    assert_eq!(finish_text(&run, &reason), "❌ Error: not found\n> ");
    let build = Job::Build { path: "x.rs".to_string() };
    assert_eq!(finish_text(&build, &reason), "Build Error: not found\n> ");
    assert_eq!(finish_text(&command("zz", HostShell::Posix), &reason), "Error: not found\n> ");
    let shell = Job::OpenShell { shell: InteractiveShell::Cmd };
    assert_eq!(finish_text(&shell, &reason), "Error: not found\n> ");
}

#[test]
fn started_shells_greet() {
    let ps = Job::OpenShell { shell: InteractiveShell::PowerShell };
    assert_eq!(finish_text(&ps, &ProcessReport::Started), "PowerShell Started\nType 'exit' to close\n> ");
    let cmd = Job::OpenShell { shell: InteractiveShell::Cmd };
    assert_eq!(finish_job(&cmd, &ProcessOutcome::Started), "CMD Started\nType 'exit' to close\n> ");
}

#[test]
fn invalid_output_bytes_are_replaced() {
    let job = command("cat blob", HostShell::Posix);
    let outcome = ProcessOutcome::Exited { stdout: vec![b'o', b'k', 0xff], stderr: Vec::new(), succeeded: true };
    assert_eq!(finish_job(&job, &outcome), "ok\u{FFFD}\n> ");
}

#[test]
fn run_stderr_bytes_get_error_label() {
    let job = Job::RunFile { host: HostShell::Posix, path: "main.rs".to_string() };
    let outcome = ProcessOutcome::Exited { stdout: Vec::new(), stderr: b"error[E0425]\n".to_vec(), succeeded: false };
    assert_eq!(finish_job(&job, &outcome), "❌ Error:\nerror[E0425]\n\n> ");
}

#[test]
fn compiled_program_is_named_after_file_stem() {
    let start = job_start(&Job::RunFile { host: HostShell::Posix, path: "tools/my-prog.rs".to_string() });
    assert_eq!(start.then_run.as_deref(), Some("./my_prog"));
    let win = job_start(&Job::RunFile { host: HostShell::Windows, path: "demo.rs".to_string() });
    assert_eq!(win.then_run.as_deref(), Some(".\\demo.exe"));
}
