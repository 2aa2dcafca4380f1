use process_builder::process::Error;
use process_builder::resolver::{which, with_which};

#[test]
fn missing_binary_is_not_found_by_name() {
    let r = which("definitely-not-a-real-binary-xyz", Some("/usr/bin:/bin"), "/");
    match r {
        Err(Error::NotFound(name)) => {
            assert_eq!(name, "definitely-not-a-real-binary-xyz");
        }
        other => panic!("expected NotFound, got {:?}", other),
    }
}

#[test]
fn missing_binary_message_names_it() {
    let err = which("definitely-not-a-real-binary-xyz", Some("/usr/bin:/bin"), "/").unwrap_err();
    assert_eq!(err.message(), "`definitely-not-a-real-binary-xyz` not found");
}

#[test]
fn empty_search_path_finds_nothing() {
    let r = which("sh", Some(""), "/");
    assert!(matches!(r, Err(Error::NotFound(_))));
}

#[test]
fn sh_is_found_on_a_standard_path() {
    let path = which("sh", Some("/usr/bin:/bin"), "/").unwrap();
    assert!(path.ends_with("/sh"), "unexpected path {path}");
}

#[test]
fn with_which_builds_a_ready_command() {
    let b = with_which("sh", Some("/usr/bin:/bin"), String::from("/tmp")).unwrap();
    assert!(b.program().ends_with("/sh"));
    assert!(b.arguments().is_empty());
    assert_eq!(b.working_dir().as_str(), "/tmp");
    assert!(b.piped_input().is_none());
    let b = b.display_cwd();
    assert!(b.display_string().ends_with(" in /tmp"));
}

#[test]
fn with_which_misses_like_which() {
    let r = with_which("definitely-not-a-real-binary-xyz", Some("/bin"), String::from("/"));
    assert!(matches!(r, Err(Error::NotFound(_))));
}
