use mcfly::simplified_command::SimplifiedCommand;

#[test]
fn it_works_for_simple_commands() {
    let simplified_command = SimplifiedCommand::new("git push", false);
    assert_eq!(simplified_command.result, "git push");

    let simplified_command = SimplifiedCommand::new("git pull", false);
    assert_eq!(simplified_command.result, "git pull");

    let simplified_command = SimplifiedCommand::new("rake db:test:prepare", false);
    assert_eq!(simplified_command.result, "rake db:test:prepare");
}

#[test]
fn it_simplifies_simple_quoted_strings() {
    let simplified_command = SimplifiedCommand::new("git ci -m 'my commit message'", false);
    assert_eq!(simplified_command.result, "git ci -m QUOTED");

    let simplified_command = SimplifiedCommand::new("git ci -m 'my \"commit\" message'", false);
    assert_eq!(simplified_command.result, "git ci -m QUOTED");

    let simplified_command = SimplifiedCommand::new("git ci -m \"my commit message\"", false);
    assert_eq!(simplified_command.result, "git ci -m QUOTED");

    let simplified_command = SimplifiedCommand::new("git ci -m \"my 'commit' message\"", false);
    assert_eq!(simplified_command.result, "git ci -m QUOTED");
}

#[test]
fn it_handles_one_level_of_quote_escaping() {
    let simplified_command =
        SimplifiedCommand::new("git ci -m \"my \\\"commit\\\" mes\\\\sage\"", false);
    assert_eq!(simplified_command.result, "git ci -m QUOTED");
}

#[test]
fn it_ignores_escaping_otherwise() {
    let simplified_command = SimplifiedCommand::new("git ci -m \\foo\\", false);
    assert_eq!(simplified_command.result, "git ci -m foo");
}

#[test]
fn it_simplifies_obvious_paths() {
    let simplified_command = SimplifiedCommand::new("ls /", false);
    assert_eq!(simplified_command.result, "ls PATH");

    let simplified_command = SimplifiedCommand::new("cd ../foo", false);
    assert_eq!(simplified_command.result, "cd PATH");

    let simplified_command = SimplifiedCommand::new("cd foo/", false);
    assert_eq!(simplified_command.result, "cd PATH");

    let simplified_command = SimplifiedCommand::new("cd ..", false);
    assert_eq!(simplified_command.result, "cd ..");

    let simplified_command = SimplifiedCommand::new("cd foo/bar/baz", false);
    assert_eq!(simplified_command.result, "cd PATH");

    let simplified_command = SimplifiedCommand::new("command path/1/2/3:/foo/bar", false);
    assert_eq!(simplified_command.result, "command PATH:PATH");

    let simplified_command =
        SimplifiedCommand::new("blah --input foo/bar/baz --output blarg", false);
    assert_eq!(
        simplified_command.result,
        "blah --input PATH --output blarg"
    );

    let simplified_command = SimplifiedCommand::new("cd ambiguous", false);
    assert_eq!(simplified_command.result, "cd ambiguous");
}

#[test]
fn it_ignores_leading_paths() {
    let simplified_command = SimplifiedCommand::new("../ls /", false);
    assert_eq!(simplified_command.result, "../ls PATH");

    let simplified_command = SimplifiedCommand::new("./cd ../foo", false);
    assert_eq!(simplified_command.result, "./cd PATH");

    let simplified_command = SimplifiedCommand::new("/bin/cd foo/", false);
    assert_eq!(simplified_command.result, "/bin/cd PATH");
}

#[test]
fn it_truncates_after_simplification() {
    let simplified_command = SimplifiedCommand::new("../ls /", true);
    assert_eq!(simplified_command.result, "../ls PATH");

    let simplified_command =
        SimplifiedCommand::new("blah --input foo/bar/baz --output blarg", true);
    assert_eq!(simplified_command.result, "blah --input");

    let simplified_command =
        SimplifiedCommand::new("git ci -m \"my \\\"commit\\\" mes\\\\sage\"", true);
    assert_eq!(simplified_command.result, "git ci");
}

#[test]
fn simplify_appends_to_an_existing_result() {
    let mut simplified_command = SimplifiedCommand::new("ls /", false);
    simplified_command.simplify();
    assert_eq!(simplified_command.result, "ls PATHls PATH");
}

#[test]
fn simplify_keeps_separators_and_first_path() {
    let simplified_command = SimplifiedCommand::new("/usr/bin/env,a/b", false);
    assert_eq!(simplified_command.result, "/usr/bin/env,PATH");
    let simplified_command = SimplifiedCommand::new("", true);
    assert_eq!(simplified_command.result, "");
}
