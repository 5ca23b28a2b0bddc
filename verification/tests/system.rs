use dfim::failure::Failure;
use dfim::system::{spawn, Command, RunOptions};

#[test]
fn command_line_is_parted_into_program_and_arguments() {
    let args = vec!["git".to_string(), "status".to_string(), "-s".to_string()];
    assert_eq!(
        spawn(args),
        Ok(Command { program: "git".into(), args: vec!["status".to_string(), "-s".to_string()] })
    );
    assert_eq!(spawn(vec!["ls".to_string()]), Ok(Command { program: "ls".into(), args: vec![] }));
}

#[test]
fn empty_command_line_is_refused() {
    assert_eq!(spawn(vec![]), Err(Failure::EmptyCommand));
    assert_eq!(Failure::EmptyCommand.message(), "cannot execute empty command");
}

#[test]
fn environment_is_cleared_only_on_request() {
    let options = |clear_env| RunOptions { cwd: None, env: vec![], clear_env };
    assert!(options(Some(true)).clears_environment());
    assert!(!options(Some(false)).clears_environment());
    assert!(!options(None).clears_environment());
}
