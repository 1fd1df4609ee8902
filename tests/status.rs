use helix_commands::commands::{blame_command, browse_target, fzf_callback_target, open_command, run_command};
use helix_commands::context::{editor_context, parse_helix};
use helix_commands::error::CommandError;
use helix_commands::status::get_status_line;

#[test]
fn status_line_round_trip() {
    let screen = "fn main() {}\n\nNOR  ⠿⠿⠿ src/main.rs │ junk │ 42:7 trailing\n";
    let (name, line) = get_status_line(screen).unwrap();
    assert_eq!(name, "src/main.rs");
    assert_eq!(line, "42");
}

#[test]
fn status_line_without_number_fails() {
    assert_eq!(get_status_line("INSERT  src/main.rs │ no-number"), Err(CommandError::StatusParse));
}

#[test]
fn status_line_missing_entirely_fails() {
    assert_eq!(get_status_line(""), Err(CommandError::StatusParse));
    assert_eq!(get_status_line("just some code\nlet x = 1;"), Err(CommandError::StatusParse));
    // a separator and digits on the next line do not belong to this one
    assert_eq!(get_status_line("NOR  src/a.rs\n│ 12"), Err(CommandError::StatusParse));
}

#[test]
fn first_status_line_wins() {
    let screen = "SEL   lib.rs │ 3:1\nNORMAL   other.rs │ 99:2\n";
    let (name, line) = get_status_line(screen).unwrap();
    assert_eq!(name, "lib.rs");
    assert_eq!(line, "3");
}

#[test]
fn status_line_long_mode_and_spacing() {
    let (name, line) = get_status_line("  NORMAL \t  docs/guide.md    [+] │ 1 sel │ 1207:15").unwrap();
    assert_eq!(name, "docs/guide.md");
    assert_eq!(line, "1");
    let (name, line) = get_status_line("INS ⠁⠂ ⠄ a.txt │7").unwrap();
    assert_eq!(name, "a.txt");
    assert_eq!(line, "7");
}

#[test]
fn mode_word_needs_following_space() {
    assert_eq!(get_status_line("NORx file │ 4"), Err(CommandError::StatusParse));
}

#[test]
fn derived_path_fields() {
    let c = editor_context("notes".to_string(), "3".to_string());
    assert_eq!(c.file_extension, "");
    assert_eq!(c.file_name_without_extension, "notes");
    assert_eq!(c.parent_directory, "");
    let c = editor_context(".gitignore".to_string(), "1".to_string());
    assert_eq!(c.file_name_without_extension, "");
    assert_eq!(c.file_extension, "gitignore");
    let c = editor_context("src/lib/a.tar.gz".to_string(), "8".to_string());
    assert_eq!(c.filename, "src/lib/a.tar.gz");
    assert_eq!(c.line_number, "8");
    assert_eq!(c.parent_directory, "src/lib");
    assert_eq!(c.file_name_without_extension, "a");
    assert_eq!(c.file_extension, "gz");
}

#[test]
fn parse_helix_reads_context() {
    let c = parse_helix("NOR   crates/x/src/main.rs │ 159:1").ok().unwrap();
    assert_eq!(c.filename, "crates/x/src/main.rs");
    assert_eq!(c.line_number, "159");
    assert_eq!(c.parent_directory, "crates/x/src");
    assert_eq!(c.file_name_without_extension, "main");
    assert_eq!(c.file_extension, "rs");
    assert!(matches!(parse_helix("no status"), Err(CommandError::StatusParse)));
}

#[test]
fn callback_target_keeps_three_parts() {
    assert_eq!(
        fzf_callback_target("crates/helix-commands/src/main.rs:159:1:fn resize_panes<const N: usize>("),
        "crates/helix-commands/src/main.rs:159:1"
    );
    assert_eq!(fzf_callback_target("a.rs:3"), "a.rs:3");
    assert_eq!(fzf_callback_target(""), "");
    assert_eq!(fzf_callback_target("::::"), "::");
}

#[test]
fn command_lines() {
    assert_eq!(run_command("gitui"), "gitui\n");
    assert_eq!(blame_command("src/main.rs", "42"), "tig blame src/main.rs +42");
    assert_eq!(open_command("a.rs:3:1"), ":open a.rs:3:1\r");
    assert_eq!(browse_target("a.rs", "3"), "a.rs:3");
}

#[test]
fn trailing_separators_and_dot_components() {
    let c = editor_context("a/".to_string(), "1".to_string());
    assert_eq!(c.file_name_without_extension, "a");
    assert_eq!(c.file_extension, "");
    assert_eq!(c.parent_directory, "");
    let c = editor_context("dir/sub/file.txt/.".to_string(), "1".to_string());
    assert_eq!(c.file_name_without_extension, "file");
    assert_eq!(c.file_extension, "txt");
    assert_eq!(c.parent_directory, "dir/sub");
    let c = editor_context("a//b.rs".to_string(), "1".to_string());
    assert_eq!(c.file_name_without_extension, "b");
    assert_eq!(c.parent_directory, "a");
    for name in ["a/..", "..", ".", "./", "/", ""] {
        let c = editor_context(name.to_string(), "1".to_string());
        assert_eq!(c.file_name_without_extension, "", "{name}");
        assert_eq!(c.file_extension, "", "{name}");
    }
    assert_eq!(editor_context("a/..".to_string(), "1".to_string()).parent_directory, "a");
    let c = parse_helix("NOR  src/ │ 4").ok().unwrap();
    assert_eq!(c.filename, "src/");
    assert_eq!(c.file_name_without_extension, "src");
}
