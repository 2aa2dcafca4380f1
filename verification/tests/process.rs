use process_builder::process::{process, Error, ExitStatus};

fn s(text: &str) -> String {
    String::from(text)
}

#[test]
fn display_plain_tokens() {
    let b = process(s("cargo")).arg(s("build")).cwd(s("/work"));
    assert_eq!(b.command_line(), "cargo build");
    assert_eq!(b.display_string(), "`cargo build`");
}

#[test]
fn display_cwd_flag_shows_directory() {
    let b = process(s("cargo")).arg(s("build")).display_cwd().cwd(s("/work"));
    assert_eq!(b.display_string(), "`cargo build` in /work");
}

#[test]
fn display_without_flag_has_no_directory_text() {
    let b = process(s("cargo")).arg(s("build")).cwd(s("/work"));
    let rendered = b.display_string();
    assert!(!rendered.contains("/work"));
    assert!(!rendered.contains(" in "));
}

#[test]
fn display_cwd_flag_after_transition() {
    let b = process(s("ls")).cwd(s("/a")).display_cwd().cwd(s("/b"));
    assert_eq!(b.display_string(), "`ls` in /b");
}

#[test]
fn escaping_special_characters() {
    let b = process(s("/usr/bin/printf"))
        .arg(s("hello world"))
        .arg(s("it's"))
        .arg(s("a$b;c"))
        .arg(s("bang!"))
        .arg(s(""))
        .cwd(s("/"));
    assert_eq!(
        b.command_line(),
        r"/usr/bin/printf 'hello world' 'it'\''s' 'a$b;c' 'bang'\!'' ''"
    );
}

#[test]
fn escaping_matches_shell_escape_crate() {
    let tokens = ["abc", "a b", "it's", "", "a!b", "-_=/,.+", "x;y", "$HOME"];
    for token in tokens {
        let ours = process(s(token)).cwd(s("/")).command_line();
        let theirs = shell_escape::escape(std::borrow::Cow::Borrowed(token));
        assert_eq!(ours, theirs.as_ref());
    }
}

#[test]
fn args_keep_attachment_order() {
    let b = process(s("p"))
        .args(&[s("a"), s("b")])
        .arg(s("c"))
        .cwd(s("/"))
        .args(&[s("d")]);
    assert_eq!(b.command_line(), "p a b c d");
}

#[test]
fn run_and_capture_hello() {
    let b = process(s("echo")).arg(s("hello")).cwd(s("/"));
    let r = b.read_outcome(ExitStatus { code: Some(0) }, b"hello\n".to_vec());
    assert_eq!(r.unwrap(), "hello\n");
}

#[test]
fn run_and_check_exit_one() {
    let b = process(s("sh")).arg(s("-c")).arg(s("exit 1")).cwd(s("/"));
    let display = b.display_string();
    let status = ExitStatus { code: Some(1) };
    let err = b.exec_outcome(status).unwrap_err();
    match &err {
        Error::ProcessFailed(d, st) => {
            assert_eq!(d, &display);
            assert_eq!(st.code, Some(1));
        }
        other => panic!("expected ProcessFailed, got {:?}", other),
    }
    let message = err.message();
    assert!(message.contains(&display));
    assert!(message.contains('1'));
    assert_eq!(
        message,
        "`sh -c 'exit 1'` didn't exit successfully: exit status: 1"
    );
}

#[test]
fn exec_outcome_success_is_silent() {
    let b = process(s("true")).cwd(s("/"));
    assert!(b.exec_outcome(ExitStatus { code: Some(0) }).is_ok());
}

#[test]
fn piped_input_round_trip() {
    let b = process(s("cat")).pipe_input(Some(b"abc".to_vec())).cwd(s("/"));
    assert_eq!(b.piped_input().as_deref(), Some(b"abc".as_slice()));
    let r = b.read_outcome(ExitStatus { code: Some(0) }, b"abc".to_vec());
    assert_eq!(r.unwrap(), "abc");
}

#[test]
fn piped_input_replacement_and_clearing() {
    let b = process(s("cat")).pipe_input(Some(b"one".to_vec())).cwd(s("/"));
    let b = b.pipe_input(Some(b"two".to_vec()));
    assert_eq!(b.piped_input().as_deref(), Some(b"two".as_slice()));
    let b = b.pipe_input(None::<Vec<u8>>);
    assert!(b.piped_input().is_none());
}

#[test]
fn capture_rejects_non_utf8_output() {
    let b = process(s("cat")).cwd(s("/"));
    let r = b.read_outcome(ExitStatus { code: Some(0) }, vec![0xff, 0xfe, 0x61]);
    assert_eq!(r.unwrap_err(), Error::NonUtf8Output);
    assert_eq!(Error::NonUtf8Output.message(), "non UTF-8 output");
}

#[test]
fn capture_reports_failure_before_decoding() {
    let b = process(s("cat")).cwd(s("/"));
    let r = b.read_outcome(ExitStatus { code: Some(2) }, vec![0xff, 0xfe]);
    match r.unwrap_err() {
        Error::ProcessFailed(_, st) => assert_eq!(st.code, Some(2)),
        other => panic!("expected ProcessFailed, got {:?}", other),
    }
}

#[test]
fn exit_status_rendering() {
    assert_eq!(ExitStatus { code: Some(0) }.render(), "exit status: 0");
    assert_eq!(ExitStatus { code: Some(137) }.render(), "exit status: 137");
    assert_eq!(ExitStatus { code: Some(-3) }.render(), "exit status: -3");
    assert_eq!(ExitStatus { code: None }.render(), "terminated by signal");
    assert!(!ExitStatus { code: None }.success());
    assert!(ExitStatus { code: Some(0) }.success());
    assert!(!ExitStatus { code: Some(1) }.success());
}

#[test]
fn spawn_failed_message_is_the_cause() {
    let err = Error::SpawnFailed(s("No such file or directory (os error 2)"));
    assert_eq!(err.message(), "No such file or directory (os error 2)");
}

#[test]
fn not_found_message_names_the_binary() {
    let err = Error::NotFound(s("definitely-not-a-real-binary-xyz"));
    assert_eq!(err.message(), "`definitely-not-a-real-binary-xyz` not found");
}

#[test]
fn working_dir_and_tokens_are_exposed() {
    let b = process(s("git")).arg(s("log")).cwd(s("/repo"));
    assert_eq!(b.program().as_str(), "git");
    assert_eq!(b.arguments().as_slice(), [s("log")].as_slice());
    assert_eq!(b.working_dir().as_str(), "/repo");
}
