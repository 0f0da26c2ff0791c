use bmos::builtins::{BuiltinKind, BuiltinTable, Echo, ShellBuiltin, Something};
use bmos::shell::{trim, BmShell, Shell};

fn run(line: &str) -> Vec<String> {
    BmShell::new().process_input(line.to_string())
}

#[test]
fn echo_joins_its_arguments_with_blanks() {
    assert_eq!(Echo.execute(vec!["a", "b", "c"]), vec!["a b c"]);
    assert_eq!(Echo.execute(vec!["one"]), vec!["one"]);
    assert_eq!(Echo.execute(vec!["", ""]), vec![" "]);
    assert_eq!(Echo.execute(vec![]), vec![""]);
}

#[test]
fn something_prints_nothing() {
    assert!(Something.execute(vec!["a", "b"]).is_empty());
    assert!(Something.execute(vec![]).is_empty());
}

#[test]
fn kinds_carry_out_their_commands() {
    assert_eq!(BuiltinKind::Echo.execute(vec!["x", "y"]), vec!["x y"]);
    assert!(BuiltinKind::Something.execute(vec!["x"]).is_empty());
}

#[test]
fn table_knows_echo_and_something() {
    let table = BuiltinTable::builtins();
    assert_eq!(table.get("echo"), Some(BuiltinKind::Echo));
    assert_eq!(table.get("something"), Some(BuiltinKind::Something));
    assert_eq!(table.get("Echo"), None);
    assert_eq!(table.get(""), None);
    assert_eq!(table.get("echo "), None);
}

#[test]
fn trim_removes_unicode_white_space_at_both_ends() {
    assert_eq!(trim("  echo hi \t\n"), "echo hi");
    assert_eq!(trim("\u{a0}\u{2003}x\u{3000}"), "x");
    assert_eq!(trim("a b"), "a b");
    assert_eq!(trim(" \t "), "");
    assert_eq!(trim(""), "");
    assert_eq!(trim("\u{200b}x"), "\u{200b}x");
}

#[test]
fn shell_runs_builtins() {
    assert_eq!(run("echo hello world"), vec!["hello world"]);
    assert_eq!(run("  echo   spaced    out  "), vec!["spaced out"]);
    assert_eq!(run("echo \"quoted words\" 'and more'"), vec!["quoted words and more"]);
    assert_eq!(run("echo"), vec![""]);
    assert!(run("something").is_empty());
    assert!(run("something else entirely").is_empty());
}

#[test]
fn shell_complains_about_unknown_commands() {
    assert_eq!(run("ls"), vec!["Command not found."]);
    assert_eq!(run("ECHO hi"), vec!["Command not found."]);
    assert_eq!(run("\"echo\" hi"), vec!["hi"]);
}

#[test]
fn shell_complains_about_syntax() {
    assert_eq!(run("echo $HOME"), vec!["Invalid command syntax"]);
    assert_eq!(run("echo \"unterminated"), vec!["Invalid command syntax"]);
    assert_eq!(run("!"), vec!["Invalid command syntax"]);
    assert_eq!(run("echo \"\""), vec!["Invalid command syntax"]);
}

#[test]
fn blank_lines_are_not_for_the_shell() {
    let shell = BmShell::new();
    assert!(!shell.can_process(""));
    assert!(!shell.can_process("   "));
    assert!(!shell.can_process("\t\u{a0}\n"));
    assert!(shell.can_process("x"));
    assert!(shell.can_process("!"));
    assert_eq!(shell.try_process_input("  ".to_string()), None);
    assert_eq!(shell.try_process_input(String::new()), None);
    assert_eq!(shell.try_process_input(" echo a ".to_string()), Some(vec!["a".to_string()]));
    assert_eq!(shell.try_process_input("?".to_string()), Some(vec!["Invalid command syntax".to_string()]));
}
