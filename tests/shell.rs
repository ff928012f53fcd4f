use minishell::{
    candidates, cd_missing_line, find_exe, goes_home, join_path, not_found_line, parse_exit_code,
    parse_line, split_paths, split_whitespace, str_chunk, trim, type_report, until_space, BuiltIn,
    Command, Cursor, ParseError,
};

fn strings(v: &[&str]) -> Vec<String> {
    v.iter().map(|s| s.to_string()).collect()
}

#[test]
fn token_and_remainder() {
    let mut cur = Cursor::new("echo hello  world");
    assert_eq!(until_space(&mut cur), "echo");
    assert_eq!(cur.position(), 5);
    assert_eq!(str_chunk(&cur), "hello  world");
    assert_eq!(until_space(&mut cur), "hello");
    assert_eq!(str_chunk(&cur), " world");
}

#[test]
fn lone_word_is_the_only_token() {
    for name in ["ls", "nonexistentcmd123", "a", "x-y_z.sh"] {
        let t = trim(name);
        let mut cur = Cursor::new(&t);
        assert_eq!(until_space(&mut cur), name);
        assert_eq!(str_chunk(&cur), "");
        assert_eq!(cur.position(), name.chars().count());
    }
}

#[test]
fn empty_line_gives_empty_token() {
    let mut cur = Cursor::new("");
    assert_eq!(until_space(&mut cur), "");
    assert_eq!(cur.position(), 0);
    assert_eq!(str_chunk(&cur), "");
}

#[test]
fn last_token_is_the_unread_text_only() {
    let mut cur = Cursor::new("type foo");
    assert_eq!(until_space(&mut cur), "type");
    assert_eq!(until_space(&mut cur), "foo");
    assert_eq!(cur.position(), 8);
    assert_eq!(until_space(&mut cur), "");
}

#[test]
fn token_stops_at_any_ascii_whitespace() {
    let mut cur = Cursor::new("a\tb\nc");
    assert_eq!(until_space(&mut cur), "a");
    assert_eq!(until_space(&mut cur), "b");
    assert_eq!(until_space(&mut cur), "c");
}

#[test]
fn trim_removes_unicode_whitespace() {
    assert_eq!(trim("  hi there \n"), "hi there");
    assert_eq!(trim("\u{A0}x\u{3000}"), "x");
    assert_eq!(trim(" \t\r\n"), "");
    assert_eq!(trim(""), "");
}

#[test]
fn builtin_names_in_any_case() {
    for name in ["exit", "echo", "type", "pwd", "cd", "EXIT", "Echo", "tYpE", "PWD", "Cd"] {
        assert!(BuiltIn::is_builtin(name), "{name}");
    }
    for name in ["ls", "", "ech", "echoo", "c d", "exit "] {
        assert!(!BuiltIn::is_builtin(name), "{name}");
    }
    assert_eq!(BuiltIn::from_name("PwD"), Some(BuiltIn::Pwd));
    assert_eq!(BuiltIn::from_name("cd"), Some(BuiltIn::Cd));
    assert_eq!(BuiltIn::from_name("cat"), None);
}

#[test]
fn exit_zero_ends_the_loop() {
    match parse_line("exit 0") {
        Ok(Command::Exit(0)) => {}
        other => panic!("{other:?}"),
    }
    match parse_line("  exit 255\n") {
        Ok(Command::Exit(255)) => {}
        other => panic!("{other:?}"),
    }
}

#[test]
fn exit_code_must_be_a_byte() {
    assert_eq!(parse_exit_code("0"), Some(0));
    assert_eq!(parse_exit_code("007"), Some(7));
    assert_eq!(parse_exit_code("255"), Some(255));
    assert_eq!(parse_exit_code("256"), None);
    assert_eq!(parse_exit_code("99999999999"), None);
    assert_eq!(parse_exit_code(""), None);
    assert_eq!(parse_exit_code("+5"), None);
    assert_eq!(parse_exit_code("5x"), None);
    assert_eq!(parse_exit_code("abc"), None);
}

#[test]
fn bad_exit_code_is_an_error() {
    for line in ["exit", "exit abc", "exit 256", "exit -1"] {
        match parse_line(line) {
            Err(ParseError::BadExitCode) => {}
            other => panic!("{line}: {other:?}"),
        }
    }
}

#[test]
fn echo_keeps_inner_spaces() {
    match parse_line("echo hello   world  again") {
        Ok(Command::Echo(t)) => assert_eq!(t, "hello   world  again"),
        other => panic!("{other:?}"),
    }
    match parse_line("echo") {
        Ok(Command::Echo(t)) => assert_eq!(t, ""),
        other => panic!("{other:?}"),
    }
    match parse_line("ECHO x") {
        Ok(Command::Echo(t)) => assert_eq!(t, "x"),
        other => panic!("{other:?}"),
    }
}

#[test]
fn type_of_each_builtin() {
    for name in ["exit", "echo", "type", "pwd", "cd", "ECHO", "Pwd"] {
        let line = format!("type {name}");
        match parse_line(&line) {
            Ok(Command::Type(t)) => assert_eq!(t, name),
            other => panic!("{other:?}"),
        }
        let found = Some("/bin/".to_string() + name);
        assert_eq!(type_report(name, &found), format!("{name} is a shell builtin"));
        assert_eq!(type_report(name, &None), format!("{name} is a shell builtin"));
    }
}

#[test]
fn type_of_a_found_or_missing_name() {
    assert_eq!(type_report("greet", &Some("/a/greet".to_string())), "greet is /a/greet");
    assert_eq!(type_report("greet", &None), "greet not found");
}

#[test]
fn earlier_directory_wins() {
    let dirs = strings(&["/a", "/b", "/c"]);
    assert_eq!(find_exe(&dirs, "greet", &vec![false, true, true]), Some("/b/greet".to_string()));
    assert_eq!(find_exe(&dirs, "greet", &vec![true, true, false]), Some("/a/greet".to_string()));
    assert_eq!(find_exe(&dirs, "greet", &vec![false, false, false]), None);
    assert_eq!(find_exe(&vec![], "greet", &vec![]), None);
}

#[test]
fn candidates_follow_the_list() {
    let dirs = strings(&["/usr/bin", "/opt/", ""]);
    assert_eq!(candidates(&dirs, "ls"), strings(&["/usr/bin/ls", "/opt/ls", "ls"]));
}

#[test]
fn join_like_path_join() {
    assert_eq!(join_path("/usr/bin", "ls"), "/usr/bin/ls");
    assert_eq!(join_path("/usr/bin/", "ls"), "/usr/bin/ls");
    assert_eq!(join_path("", "ls"), "ls");
    assert_eq!(join_path("/x", "/bin/ls"), "/bin/ls");
    assert_eq!(join_path("rel", "a/b"), "rel/a/b");
}

#[test]
fn search_list_splits_at_colons() {
    assert_eq!(split_paths("/a:/b"), strings(&["/a", "/b"]));
    assert_eq!(split_paths("/usr/bin"), strings(&["/usr/bin"]));
    assert_eq!(split_paths(""), strings(&[""]));
    assert_eq!(split_paths("a::b:"), strings(&["a", "", "b", ""]));
}

#[test]
fn words_split_at_whitespace_runs() {
    assert_eq!(split_whitespace("  a  b\tc \n"), strings(&["a", "b", "c"]));
    assert_eq!(split_whitespace(""), strings(&[]));
    assert_eq!(split_whitespace("   "), strings(&[]));
    assert_eq!(split_whitespace("x\u{3000}y"), strings(&["x", "y"]));
}

#[test]
fn cd_to_a_missing_directory() {
    match parse_line("cd /no/such/dir") {
        Ok(Command::Cd(t)) => assert_eq!(t, "/no/such/dir"),
        other => panic!("{other:?}"),
    }
    assert_eq!(
        cd_missing_line("/no/such/dir"),
        "cd: /no/such/dir: No such file or directory"
    );
    assert!(!goes_home("/no/such/dir"));
}

#[test]
fn cd_home() {
    match parse_line("cd ~") {
        Ok(Command::Cd(t)) => {
            assert_eq!(t, "~");
            assert!(goes_home(&t));
        }
        other => panic!("{other:?}"),
    }
    match parse_line("cd") {
        Ok(Command::Cd(t)) => {
            assert_eq!(t, "");
            assert!(goes_home(&t));
        }
        other => panic!("{other:?}"),
    }
    assert!(!goes_home("~/x"));
    assert!(!goes_home("~~"));
}

#[test]
fn pwd_ignores_the_rest() {
    assert!(matches!(parse_line("pwd"), Ok(Command::Pwd)));
    assert!(matches!(parse_line("PWD extra"), Ok(Command::Pwd)));
}

#[test]
fn unknown_command_not_found() {
    match parse_line("nonexistentcmd123") {
        Ok(Command::Run { name, args }) => {
            assert_eq!(name, "nonexistentcmd123");
            assert!(args.is_empty());
            assert_eq!(not_found_line(&name), "nonexistentcmd123: command not found");
        }
        other => panic!("{other:?}"),
    }
}

#[test]
fn external_command_with_arguments() {
    match parse_line("greet") {
        Ok(Command::Run { name, args }) => {
            assert_eq!(name, "greet");
            assert!(args.is_empty());
        }
        other => panic!("{other:?}"),
    }
    match parse_line("greet  a   b\tc") {
        Ok(Command::Run { name, args }) => {
            assert_eq!(name, "greet");
            assert_eq!(args, strings(&["a", "b", "c"]));
        }
        other => panic!("{other:?}"),
    }
    let dirs = split_paths("/nowhere:/tools");
    assert_eq!(find_exe(&dirs, "greet", &vec![false, true]), Some("/tools/greet".to_string()));
}

#[test]
fn empty_line_runs_nothing_by_name() {
    match parse_line("   ") {
        Ok(Command::Run { name, args }) => {
            assert_eq!(name, "");
            assert!(args.is_empty());
        }
        other => panic!("{other:?}"),
    }
}
