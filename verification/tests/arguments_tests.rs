use distant::arguments::parse_subcommand;
use distant::arguments::subcommand_position;
use distant::script::SubcommandKind;

fn strings(items: &[&str]) -> Vec<String> {
    items.iter().map(|s| s.to_string()).collect()
}

#[test]
fn subcommands_are_known_by_name() {
    assert_eq!(parse_subcommand("build"), Some(SubcommandKind::Build));
    assert_eq!(parse_subcommand("check"), Some(SubcommandKind::Check));
    assert_eq!(parse_subcommand("doc"), Some(SubcommandKind::Doc));
    assert_eq!(parse_subcommand("run"), Some(SubcommandKind::Run));
    assert_eq!(parse_subcommand("test"), Some(SubcommandKind::Test));
    assert_eq!(parse_subcommand("bench"), Some(SubcommandKind::Bench));
}

#[test]
fn other_words_name_no_subcommand() {
    assert_eq!(parse_subcommand(""), None);
    assert_eq!(parse_subcommand("Build"), None);
    assert_eq!(parse_subcommand("build "), None);
    assert_eq!(parse_subcommand("--toolchain"), None);
    assert_eq!(parse_subcommand("tests"), None);
}

#[test]
fn first_subcommand_parts_the_command_line() {
    let args = strings(&["cargo-distant", "distant", "ci.example.com", "build", "--release"]);
    assert_eq!(subcommand_position(&args), Some(3));
    let twice = strings(&["cargo-distant", "test", "--", "build"]);
    assert_eq!(subcommand_position(&twice), Some(1));
}

#[test]
fn command_line_without_subcommand() {
    assert_eq!(subcommand_position(&Vec::new()), None);
    assert_eq!(subcommand_position(&strings(&["cargo-distant", "--help"])), None);
}
