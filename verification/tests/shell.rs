use minishell::dispatch::plan;
use minishell::dispatch::Plan;
use minishell::numparse::parse_i32;
use minishell::output::echo_output;
use minishell::output::not_found_output;
use minishell::output::pwd_output;
use minishell::output::type_builtin_output;
use minishell::output::type_resolved_output;
use minishell::registry::initialize_shell_builtins;
use minishell::registry::is_valid;
use minishell::registry::Builtin;
use minishell::registry::Registry;
use minishell::resolve::candidate_path;
use minishell::resolve::resolve_first;
use minishell::resolve::split_path;
use minishell::text::str_eq;
use minishell::text::trim;
use minishell::tokenize::tokenize;

#[test]
fn registered_builtins_are_found() {
    let mut reg = Registry::new();
    initialize_shell_builtins(&mut reg);
    assert!(is_valid(&reg, "exit"));
    assert!(is_valid(&reg, "echo"));
    assert!(is_valid(&reg, "type"));
    assert!(is_valid(&reg, "pwd"));
    assert_eq!(reg.lookup("exit"), Some(Builtin::Exit));
    assert_eq!(reg.lookup("echo"), Some(Builtin::Echo));
    assert_eq!(reg.lookup("type"), Some(Builtin::Type));
    assert_eq!(reg.lookup("pwd"), Some(Builtin::Pwd));
}

#[test]
fn unregistered_names_are_not_found() {
    let mut reg = Registry::new();
    initialize_shell_builtins(&mut reg);
    assert!(!is_valid(&reg, "foobarbaz"));
    assert!(!is_valid(&reg, ""));
    assert!(!is_valid(&reg, "Echo"));
    assert!(!is_valid(&reg, "exit "));
    assert_eq!(reg.lookup("ls"), None);
}

#[test]
fn later_registration_replaces_earlier() {
    let mut reg = Registry::new();
    reg.insert("echo", Builtin::Echo);
    reg.insert("echo", Builtin::Pwd);
    assert_eq!(reg.lookup("echo"), Some(Builtin::Pwd));
}

#[test]
fn empty_registry_knows_nothing() {
    let reg = Registry::new();
    assert!(!is_valid(&reg, "echo"));
}

#[test]
fn echo_joins_arguments_with_spaces() {
    let args = vec![String::from("a"), String::from("b"), String::from("c")];
    assert_eq!(echo_output(&args), "a b c\n");
}

#[test]
fn echo_without_arguments_is_a_bare_newline() {
    let args: Vec<String> = Vec::new();
    assert_eq!(echo_output(&args), "\n");
}

#[test]
fn echo_single_argument() {
    let args = vec![String::from("hello")];
    assert_eq!(echo_output(&args), "hello\n");
}

#[test]
fn dispatched_echo_prints_its_arguments() {
    let mut reg = Registry::new();
    initialize_shell_builtins(&mut reg);
    match plan(&reg, "echo a b c\n") {
        Plan::Print(text) => assert_eq!(text, "a b c\n"),
        _ => panic!("echo should print"),
    }
    match plan(&reg, "echo") {
        Plan::Print(text) => assert_eq!(text, "\n"),
        _ => panic!("echo should print"),
    }
}

#[test]
fn type_of_a_builtin_names_the_builtin() {
    let mut reg = Registry::new();
    initialize_shell_builtins(&mut reg);
    match plan(&reg, "type echo\n") {
        Plan::Print(text) => assert_eq!(text, "echo is a shell builtin\n"),
        _ => panic!("type of a builtin should print"),
    }
    assert_eq!(type_builtin_output("echo"), "echo is a shell builtin\n");
}

#[test]
fn type_of_an_unknown_name_reports_not_found() {
    let mut reg = Registry::new();
    initialize_shell_builtins(&mut reg);
    match plan(&reg, "type nonexistent_cmd_xyz\n") {
        Plan::ResolveForType(name) => {
            assert_eq!(name, "nonexistent_cmd_xyz");
            // given no such file exists on the search path
            assert_eq!(
                type_resolved_output(&name, &None),
                "nonexistent_cmd_xyz: not found\n"
            );
        }
        _ => panic!("type of a non-builtin should resolve"),
    }
}

#[test]
fn type_of_a_resolved_name_reports_the_path() {
    assert_eq!(
        type_resolved_output("ls", &Some(String::from("/bin/ls"))),
        "ls is /bin/ls\n"
    );
}

#[test]
fn builtin_status_shadows_a_path_entry() {
    let mut reg = Registry::new();
    initialize_shell_builtins(&mut reg);
    // even a name that would resolve on the search path is reported as a
    // builtin first
    match plan(&reg, "type pwd\n") {
        Plan::Print(text) => assert_eq!(text, "pwd is a shell builtin\n"),
        _ => panic!("a builtin name never reaches path resolution"),
    }
}

#[test]
fn resolution_takes_the_first_matching_path_entry() {
    let dirs = split_path("/usr/bin:/bin");
    assert_eq!(dirs, vec![String::from("/usr/bin"), String::from("/bin")]);
    // `ls` present in /bin only
    let exists = vec![false, true];
    assert_eq!(resolve_first(&dirs, "ls", &exists), Some(String::from("/bin/ls")));
    // present in both: the earlier entry wins
    let exists = vec![true, true];
    assert_eq!(
        resolve_first(&dirs, "ls", &exists),
        Some(String::from("/usr/bin/ls"))
    );
}

#[test]
fn resolution_fails_when_no_entry_matches() {
    let dirs = split_path("/usr/bin:/bin");
    let exists = vec![false, false];
    assert_eq!(resolve_first(&dirs, "ls", &exists), None);
    let none: Vec<String> = Vec::new();
    let no_flags: Vec<bool> = Vec::new();
    assert_eq!(resolve_first(&none, "ls", &no_flags), None);
}

#[test]
fn path_splitting_keeps_empty_entries() {
    assert_eq!(
        split_path("a::b"),
        vec![String::from("a"), String::from(""), String::from("b")]
    );
    assert_eq!(split_path(""), vec![String::from("")]);
    assert_eq!(split_path("x:"), vec![String::from("x"), String::from("")]);
}

#[test]
fn candidate_paths_join_directory_and_name() {
    assert_eq!(candidate_path("/bin", "ls"), "/bin/ls");
    assert_eq!(candidate_path("", "ls"), "/ls");
}

#[test]
fn pwd_line_is_the_directory_and_a_newline() {
    assert_eq!(pwd_output("/home/user"), "/home/user\n");
    assert_eq!(pwd_output("/"), "/\n");
}

#[test]
fn pwd_dispatches_to_a_directory_query() {
    let mut reg = Registry::new();
    initialize_shell_builtins(&mut reg);
    assert!(matches!(plan(&reg, "pwd\n"), Plan::QueryCwd));
}

#[test]
fn blank_lines_ask_for_nothing() {
    let mut reg = Registry::new();
    initialize_shell_builtins(&mut reg);
    assert!(matches!(plan(&reg, ""), Plan::Silent));
    assert!(matches!(plan(&reg, "\n"), Plan::Silent));
    assert!(matches!(plan(&reg, "   \t  \n"), Plan::Silent));
}

#[test]
fn exit_terminates_with_the_given_code() {
    let mut reg = Registry::new();
    initialize_shell_builtins(&mut reg);
    match plan(&reg, "exit 0\n") {
        Plan::Exit(code) => assert_eq!(code, 0),
        _ => panic!("exit 0 should terminate"),
    }
    match plan(&reg, "exit 42\n") {
        Plan::Exit(code) => assert_eq!(code, 42),
        _ => panic!("exit 42 should terminate"),
    }
    match plan(&reg, "exit -1\n") {
        Plan::Exit(code) => assert_eq!(code, -1),
        _ => panic!("exit -1 should terminate"),
    }
}

#[test]
fn exit_with_a_malformed_argument_is_ignored() {
    let mut reg = Registry::new();
    initialize_shell_builtins(&mut reg);
    assert!(matches!(plan(&reg, "exit notanumber\n"), Plan::Silent));
    assert!(matches!(plan(&reg, "exit\n"), Plan::Silent));
    assert!(matches!(plan(&reg, "exit 99999999999\n"), Plan::Silent));
}

#[test]
fn unknown_commands_go_to_path_resolution() {
    let mut reg = Registry::new();
    initialize_shell_builtins(&mut reg);
    match plan(&reg, "foobarbaz\n") {
        Plan::RunExternal { name, args } => {
            assert_eq!(name, "foobarbaz");
            assert!(args.is_empty());
            // not on the search path, not a builtin
            assert_eq!(
                not_found_output("foobarbaz\n"),
                "foobarbaz: command not found\n"
            );
        }
        _ => panic!("an unknown command is tried as an external program"),
    }
}

#[test]
fn external_commands_carry_their_arguments() {
    let mut reg = Registry::new();
    initialize_shell_builtins(&mut reg);
    match plan(&reg, "grep -r needle .\n") {
        Plan::RunExternal { name, args } => {
            assert_eq!(name, "grep");
            assert_eq!(
                args,
                vec![String::from("-r"), String::from("needle"), String::from(".")]
            );
        }
        _ => panic!("an unknown command is tried as an external program"),
    }
}

#[test]
fn parse_accepts_plain_signed_integers() {
    assert_eq!(parse_i32("0"), Some(0));
    assert_eq!(parse_i32("42"), Some(42));
    assert_eq!(parse_i32("-5"), Some(-5));
    assert_eq!(parse_i32("+7"), Some(7));
    assert_eq!(parse_i32("00042"), Some(42));
    assert_eq!(parse_i32("2147483647"), Some(2147483647));
    assert_eq!(parse_i32("-2147483648"), Some(-2147483648));
}

#[test]
fn parse_rejects_malformed_and_overflowing_input() {
    assert_eq!(parse_i32(""), None);
    assert_eq!(parse_i32("-"), None);
    assert_eq!(parse_i32("+"), None);
    assert_eq!(parse_i32("notanumber"), None);
    assert_eq!(parse_i32("4 2"), None);
    assert_eq!(parse_i32("42x"), None);
    assert_eq!(parse_i32("--4"), None);
    assert_eq!(parse_i32("2147483648"), None);
    assert_eq!(parse_i32("-2147483649"), None);
    assert_eq!(parse_i32("9999999999999999999999"), None);
}

#[test]
fn tokenizing_splits_on_whitespace_runs() {
    let empty: Vec<String> = Vec::new();
    assert_eq!(tokenize(""), empty);
    assert_eq!(tokenize(" \t \n "), empty);
    assert_eq!(tokenize("ls"), vec![String::from("ls")]);
    assert_eq!(
        tokenize("echo  hello\t world\n"),
        vec![String::from("echo"), String::from("hello"), String::from("world")]
    );
    assert_eq!(
        tokenize("  a b "),
        vec![String::from("a"), String::from("b")]
    );
}

#[test]
fn trimming_removes_edge_whitespace_only() {
    assert_eq!(trim(""), "");
    assert_eq!(trim("   "), "");
    assert_eq!(trim(" a b \n"), "a b");
    assert_eq!(trim("abc"), "abc");
}

#[test]
fn string_equality_is_exact() {
    assert!(str_eq("", ""));
    assert!(str_eq("echo", "echo"));
    assert!(!str_eq("echo", "Echo"));
    assert!(!str_eq("echo", "echo "));
    assert!(!str_eq("a", "b"));
}

#[test]
fn not_found_report_uses_the_trimmed_line() {
    assert_eq!(
        not_found_output("  foobarbaz  \n"),
        "foobarbaz: command not found\n"
    );
}
