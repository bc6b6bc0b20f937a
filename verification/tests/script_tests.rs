use distant::script::plain;
use distant::script::remote_dir;
use distant::script::remote_script;
use distant::script::shell_quote;
use distant::script::ScriptLine;
use distant::script::SubcommandKind;

fn strings(items: &[&str]) -> Vec<String> {
    items.iter().map(|s| s.to_string()).collect()
}

#[test]
fn plain_tokens_are_left_alone() {
    assert!(plain("--release"));
    assert!(plain("ci.example.com"));
    assert_eq!(shell_quote("--release"), "--release");
    assert_eq!(shell_quote("src/main.rs"), "src/main.rs");
    assert_eq!(shell_quote("--jobs=4"), "--jobs=4");
    assert_eq!(shell_quote("é"), "é");
    assert_eq!(shell_quote("projet-été"), "projet-été");
    assert_eq!(shell_quote("a,b:c+d@e%f^g"), "a,b:c+d@e%f^g");
    assert_eq!(shell_quote("日本語"), "日本語");
}

#[test]
fn empty_token_is_quoted() {
    assert!(!plain(""));
    assert_eq!(shell_quote(""), "''");
}

#[test]
fn metacharacters_are_quoted() {
    assert!(!plain("a b"));
    assert_eq!(shell_quote("a b"), "'a b'");
    assert_eq!(shell_quote("x;y"), "'x;y'");
    assert_eq!(shell_quote("$(rm -rf /)"), "'$(rm -rf /)'");
    assert_eq!(shell_quote("a&&b"), "'a&&b'");
    assert_eq!(shell_quote("`id`"), "'`id`'");
    assert_eq!(shell_quote("a\nb"), "'a\nb'");
    assert_eq!(shell_quote("\\"), "'\\'");
    assert_eq!(shell_quote("a\tb"), "'a\tb'");
    assert_eq!(shell_quote("say \"hi\""), "'say \"hi\"'");
    assert_eq!(shell_quote("*.rs"), "'*.rs'");
    assert_eq!(shell_quote("~"), "'~'");
    assert_eq!(shell_quote("a|b"), "'a|b'");
    assert_eq!(shell_quote("a>b"), "'a>b'");
    assert_eq!(shell_quote("{a}"), "'{a}'");
    assert_eq!(shell_quote("#x"), "'#x'");
    assert_eq!(shell_quote("é è"), "'é è'");
}

#[test]
fn single_quotes_are_escaped() {
    assert_eq!(shell_quote("it's"), "'it'\\''s'");
    assert_eq!(shell_quote("'"), "''\\'''");
    assert_eq!(shell_quote("''"), "''\\'''\\'''");
}

#[test]
fn empty_line_renders_empty() {
    let line = ScriptLine::new(' ');
    assert_eq!(line.render(), "");
}

#[test]
fn one_token_renders_without_separator() {
    let mut line = ScriptLine::new(' ');
    line.literal("true");
    assert_eq!(line.render(), "true");
}

#[test]
fn tokens_are_joined_by_the_separator() {
    let mut line = ScriptLine::new(' ');
    line.literal("foo");
    line.literal("bar");
    line.arg("baz boat");
    assert_eq!(line.render(), "foo bar 'baz boat'");
    let mut commas = ScriptLine::new(',');
    commas.literal("a");
    commas.literal("");
    commas.literal("c");
    assert_eq!(commas.render(), "a,,c");
}

#[test]
fn args_are_quoted_in_order() {
    let mut line = ScriptLine::new(' ');
    line.literal("echo");
    line.args(&strings(&["one", "two words", "; rm -rf ~"]));
    assert_eq!(line.tokens.len(), 4);
    assert_eq!(line.render(), "echo one 'two words' '; rm -rf ~'");
}

#[test]
fn build_script_is_rendered() {
    let script = remote_script(
        "myproj-1f",
        "rustup-run stable",
        SubcommandKind::Build,
        &strings(&["--release"]),
    );
    assert_eq!(
        script,
        "set -e && cd $HOME/.distant/myproj-1f && rustup-run stable build --release"
    );
}

#[test]
fn script_without_arguments_has_no_trailing_separator() {
    let script = remote_script("p-0", "cargo", SubcommandKind::Check, &Vec::new());
    assert_eq!(script, "set -e && cd $HOME/.distant/p-0 && cargo check");
}

#[test]
fn each_subcommand_has_its_tokens() {
    let none: Vec<String> = Vec::new();
    let tail = |kind| {
        let s = remote_script("p-0", "cargo", kind, &none);
        s["set -e && cd $HOME/.distant/p-0 && cargo ".len()..].to_string()
    };
    assert_eq!(tail(SubcommandKind::Build), "build");
    assert_eq!(tail(SubcommandKind::Check), "check");
    assert_eq!(tail(SubcommandKind::Doc), "doc");
    assert_eq!(tail(SubcommandKind::Run), "build");
    assert_eq!(tail(SubcommandKind::Test), "build --tests");
    assert_eq!(tail(SubcommandKind::Bench), "build --benches");
}

#[test]
fn test_subcommand_builds_tests() {
    let script = remote_script("p-0", "cargo", SubcommandKind::Test, &strings(&["--lib"]));
    assert_eq!(script, "set -e && cd $HOME/.distant/p-0 && cargo build --tests --lib");
    let words: Vec<&str> = script.split(' ').collect();
    assert_eq!(words[7], "build");
    assert_eq!(words[8], "--tests");
    assert!(!words.contains(&"test"));
}

#[test]
fn script_starts_with_fail_fast() {
    for kind in [
        SubcommandKind::Build,
        SubcommandKind::Check,
        SubcommandKind::Doc,
        SubcommandKind::Run,
        SubcommandKind::Test,
        SubcommandKind::Bench,
    ] {
        let script = remote_script("p-0", "cargo", kind, &strings(&["-v"]));
        assert!(script.starts_with("set -e && cd "));
    }
}

#[test]
fn hostile_arguments_stay_single_words() {
    let script = remote_script(
        "my proj-a",
        "cargo",
        SubcommandKind::Build,
        &strings(&["a b", "; reboot", "$(id)", "it's"]),
    );
    assert_eq!(
        script,
        "set -e && cd $HOME/.distant/'my proj-a' && cargo build 'a b' '; reboot' '$(id)' 'it'\\''s'"
    );
}

#[test]
fn remote_dir_is_one_word_below_home() {
    assert_eq!(remote_dir("myproj-1f"), "$HOME/.distant/myproj-1f");
    assert_eq!(remote_dir("my proj-1f"), "$HOME/.distant/'my proj-1f'");
    assert_eq!(remote_dir("a'b-0"), "$HOME/.distant/'a'\\''b-0'");
}

#[test]
fn arguments_without_special_characters_are_forwarded_as_they_are() {
    let args = strings(&["--features", "côté,naïve", "--jobs=4", "é"]);
    let script = remote_script("projet-été-1f", "rustup-run stable", SubcommandKind::Build, &args);
    assert_eq!(
        script,
        "set -e && cd $HOME/.distant/projet-été-1f && rustup-run stable build --features côté,naïve --jobs=4 é"
    );
}
