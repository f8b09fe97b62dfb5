use mini_shell::builtins::{
    cd_failure_report, home_effect, is_builtin, not_found_report, run_builtin, type_report, Effect,
};
use mini_shell::executor::resolve_executable;
use mini_shell::parser::CommandKind;

#[test]
fn builtin_names() {
    for name in ["echo", "exit", "type", "pwd", "cd"] {
        assert!(is_builtin(name));
    }
    for name in ["", "ls", "Echo", "echo ", "cdd", "c"] {
        assert!(!is_builtin(name));
    }
}

#[test]
fn exit_stops_and_does_nothing_else() {
    let effect = run_builtin(CommandKind::Exit, "exit 3");
    assert_eq!(effect, Effect::Stop);
    assert!(!effect.keeps_running());
}

#[test]
fn echo_prints_its_text() {
    let effect = run_builtin(CommandKind::Echo { display_string: "hi there".to_string() }, "x");
    assert_eq!(effect, Effect::Print { text: "hi there".to_string() });
    assert!(effect.keeps_running());
}

#[test]
fn type_of_a_builtin_needs_no_lookup() {
    assert_eq!(
        run_builtin(CommandKind::Type { command_name: "echo".to_string() }, "type echo"),
        Effect::Print { text: "echo is a shell builtin".to_string() }
    );
    let found = Some(("/bin/echo".to_string(), "echo".to_string()));
    assert_eq!(type_report("echo", &found), "echo is a shell builtin");
    assert_eq!(type_report("echo", &None), "echo is a shell builtin");
    assert_eq!(type_report("cd", &None), "cd is a shell builtin");
}

#[test]
fn type_of_another_name_asks_for_a_lookup() {
    assert_eq!(
        run_builtin(CommandKind::Type { command_name: "ls".to_string() }, "type ls"),
        Effect::Locate { name: "ls".to_string() }
    );
    let found = resolve_executable("ls", Some("/usr/bin:/bin"), &vec![false, true]);
    assert_eq!(type_report("ls", &found), "ls is /bin/ls");
}

#[test]
fn type_of_a_missing_name_is_not_found() {
    let found = resolve_executable("nonexistent_xyz", Some("/usr/bin:/bin"), &vec![false, false]);
    assert_eq!(type_report("nonexistent_xyz", &found), "nonexistent_xyz: not found");
}

#[test]
fn pwd_prints_the_working_directory() {
    assert_eq!(run_builtin(CommandKind::Pwd, "pwd"), Effect::PrintWorkingDir);
}

#[test]
fn cd_of_tilde_goes_home() {
    assert_eq!(
        run_builtin(CommandKind::Cd { directory: "~".to_string() }, "cd ~"),
        Effect::ChangeDirHome
    );
    assert_eq!(
        home_effect(Some("/home/me".to_string())),
        Effect::ChangeDir { target: "/home/me".to_string() }
    );
    assert_eq!(home_effect(None), Effect::Print { text: "cd: HOME not set".to_string() });
}

#[test]
fn cd_of_a_path_under_tilde_is_taken_as_written() {
    assert_eq!(
        run_builtin(CommandKind::Cd { directory: "~/sub".to_string() }, "cd ~/sub"),
        Effect::ChangeDir { target: "~/sub".to_string() }
    );
}

#[test]
fn cd_of_a_path_changes_to_it() {
    assert_eq!(
        run_builtin(CommandKind::Cd { directory: "/tmp".to_string() }, "cd /tmp"),
        Effect::ChangeDir { target: "/tmp".to_string() }
    );
}

#[test]
fn cd_failure_names_the_target() {
    assert_eq!(cd_failure_report("/nowhere"), "cd: /nowhere: No such file or directory");
}

#[test]
fn not_found_prints_the_line_as_typed() {
    assert_eq!(
        run_builtin(CommandKind::NotFound, "''  \"\""),
        Effect::Print { text: "''  \"\": command not found".to_string() }
    );
}

#[test]
fn echo_line_collapses_unquoted_spaces() {
    let line = "echo   hello   world";
    assert_eq!(
        run_builtin(CommandKind::parse(line), line),
        Effect::Print { text: "hello world".to_string() }
    );
}

#[test]
fn echo_line_keeps_quoted_spaces() {
    let line = "echo 'a   b'";
    assert_eq!(
        run_builtin(CommandKind::parse(line), line),
        Effect::Print { text: "a   b".to_string() }
    );
}

#[test]
fn unknown_program_is_reported_by_the_external_route() {
    match CommandKind::parse("nope123") {
        CommandKind::External { program, args } => {
            assert_eq!(program, "nope123");
            assert!(args.is_empty());
            let found = resolve_executable(&program, Some("/usr/bin:/bin"), &vec![false, false]);
            assert_eq!(found, None);
            assert_eq!(not_found_report(&program), "nope123: not found");
        }
        other => panic!("not external: {:?}", other),
    }
}

#[test]
fn cd_then_pwd_leave_the_directory_to_the_platform() {
    let dir = "/var/../tmp/./x";
    assert_eq!(
        run_builtin(CommandKind::parse(&format!("cd {}", dir)), "cd"),
        Effect::ChangeDir { target: dir.to_string() }
    );
    assert_eq!(run_builtin(CommandKind::parse("pwd"), "pwd"), Effect::PrintWorkingDir);
}

#[test]
fn only_exit_stops() {
    for line in ["echo a", "type ls", "type cd", "pwd", "cd /", "cd ~", ""] {
        assert!(run_builtin(CommandKind::parse(line), line).keeps_running());
    }
    assert!(!run_builtin(CommandKind::parse("exit 7"), "exit 7").keeps_running());
}
