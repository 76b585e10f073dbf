use dstl::catalog::AppEntry;
use dstl::launch::{build_command, print_line, shell_line, CommandLine};

fn vim() -> AppEntry {
    AppEntry {
        name: "Vim".to_string(),
        category: "CLI".to_string(),
        command: "vim".to_string(),
        terminal: true,
    }
}

fn describe(cmd: &CommandLine) -> String {
    format!("{:?} {:?}", cmd.program, cmd.args)
}

#[test]
fn test_build_command_terminal_simple() {
    let entry = vim();
    let cmd = build_command(&entry, "alacritty");
    let debug_str = describe(&cmd);
    assert!(debug_str.contains("alacritty"));
    assert!(debug_str.contains("-e"));
    assert!(debug_str.contains("vim"));
    assert_eq!(cmd.program, "alacritty");
    assert_eq!(cmd.args, vec!["-e".to_string(), "vim".to_string()]);
}

#[test]
fn test_build_command_terminal_complex() {
    let entry = vim();
    let cmd = build_command(&entry, "wezterm start");
    let debug_str = describe(&cmd);
    assert!(debug_str.contains("wezterm"));
    assert!(debug_str.contains("start"));
    assert!(debug_str.contains("vim"));
    assert_eq!(cmd.program, "wezterm");
    assert_eq!(cmd.args, vec!["start".to_string(), "vim".to_string()]);
}

#[test]
fn build_command_splits_on_any_whitespace() {
    let cmd = build_command(&vim(), "  foot\t-e  ");
    assert_eq!(cmd.program, "foot");
    assert_eq!(cmd.args, vec!["-e".to_string(), "vim".to_string()]);
}

#[test]
fn build_command_without_terminal_words_uses_sh() {
    let cmd = build_command(&vim(), "   ");
    assert_eq!(cmd.program, "sh");
    assert_eq!(cmd.args, vec!["-c".to_string(), "vim".to_string()]);
}

#[test]
fn build_command_for_graphical_entry_uses_sh() {
    let entry = AppEntry {
        name: "Firefox".to_string(),
        category: "Web".to_string(),
        command: "firefox --new-window".to_string(),
        terminal: false,
    };
    let cmd = build_command(&entry, "alacritty");
    assert_eq!(cmd.program, "sh");
    assert_eq!(cmd.args, vec!["-c".to_string(), "firefox --new-window".to_string()]);
}

#[test]
fn shell_line_quotes_arguments_with_spaces() {
    let cmd = CommandLine {
        program: "sh".to_string(),
        args: vec!["-c".to_string(), "firefox --new-window".to_string()],
    };
    assert_eq!(shell_line(&cmd), "sh -c \"firefox --new-window\"");
    let bare = CommandLine { program: "htop".to_string(), args: vec![] };
    assert_eq!(shell_line(&bare), "htop ");
}

#[test]
fn print_line_prefixes_terminal_when_needed() {
    assert_eq!(print_line(true, "alacritty -e", "vim"), "alacritty -e vim");
    assert_eq!(print_line(false, "alacritty -e", "firefox"), "firefox");
}
