use distant::identity::workspace_id;
use distant::script::SubcommandKind;
use distant::sync::outputs;
use distant::sync::plan_sync;
use distant::target::prepare;
use distant::target::ssh_command;
use distant::target::toolchain_command;
use distant::target::ConfigError;
use distant::target::Settings;

fn settings(hostname: Option<&str>, command: SubcommandKind) -> Settings {
    Settings {
        hostname: hostname.map(|h| h.to_string()),
        transport: None,
        toolchain: "stable".to_string(),
        build_tool: None,
        no_copy_back: false,
        skip_upload: false,
        command,
    }
}

#[test]
fn hostname_gives_ssh() {
    assert_eq!(
        ssh_command(&Some("ci.example.com".to_string()), &None),
        Ok("ssh ci.example.com".to_string())
    );
}

#[test]
fn hostname_is_written_as_it_is() {
    assert_eq!(ssh_command(&Some("a b".to_string()), &None), Ok("ssh a b".to_string()));
    assert_eq!(
        ssh_command(&Some("-p 2222 box".to_string()), &None),
        Ok("ssh -p 2222 box".to_string())
    );
    assert_eq!(ssh_command(&Some("hôte".to_string()), &None), Ok("ssh hôte".to_string()));
    assert_eq!(ssh_command(&Some(String::new()), &None), Ok("ssh ".to_string()));
}

#[test]
fn transport_override_comes_first() {
    let over = Some("ssh -p 2222 build@box".to_string());
    assert_eq!(ssh_command(&None, &over), Ok("ssh -p 2222 build@box".to_string()));
    assert_eq!(
        ssh_command(&Some("ci.example.com".to_string()), &over),
        Ok("ssh -p 2222 build@box".to_string())
    );
}

#[test]
fn no_host_is_a_configuration_error() {
    assert_eq!(ssh_command(&None, &None), Err(ConfigError::NoHost));
}

#[test]
fn toolchain_gives_default_invocation() {
    assert_eq!(toolchain_command("stable", &None), Ok("rustup-run stable".to_string()));
    assert_eq!(
        toolchain_command("nightly-2024-01-01", &None),
        Ok("rustup-run nightly-2024-01-01".to_string())
    );
    assert_eq!(toolchain_command("a b", &None), Ok("rustup-run 'a b'".to_string()));
}

#[test]
fn build_tool_override_comes_first() {
    let over = Some("$HOME/.cargo/bin/cargo +beta".to_string());
    assert_eq!(
        toolchain_command("stable", &over),
        Ok("$HOME/.cargo/bin/cargo +beta".to_string())
    );
    assert_eq!(toolchain_command("", &over), Ok("$HOME/.cargo/bin/cargo +beta".to_string()));
}

#[test]
fn empty_toolchain_is_a_configuration_error() {
    assert_eq!(toolchain_command("", &None), Err(ConfigError::NoToolchain));
}

#[test]
fn end_to_end_build() {
    let path = b"/home/user/myproj";
    let run = settings(Some("ci.example.com"), SubcommandKind::Build);
    let invocation = match prepare(&run, path, &vec!["--release".to_string()]) {
        Ok(i) => i,
        Err(e) => panic!("unexpected {:?}", e),
    };
    let id = workspace_id(path);
    assert!(id.starts_with("myproj-"));
    assert_eq!(invocation.transport, "ssh ci.example.com");
    assert_eq!(invocation.workspace, format!("$HOME/.distant/{}", id));
    assert_eq!(
        invocation.script,
        format!("set -e && cd $HOME/.distant/{} && rustup-run stable build --release", id)
    );
}

#[test]
fn prepare_without_host_fails() {
    let run = settings(None, SubcommandKind::Build);
    assert!(matches!(prepare(&run, b"/home/user/myproj", &Vec::new()), Err(ConfigError::NoHost)));
}

#[test]
fn prepare_reports_host_before_toolchain() {
    let mut run = settings(None, SubcommandKind::Build);
    run.toolchain = String::new();
    assert!(matches!(prepare(&run, b"/p", &Vec::new()), Err(ConfigError::NoHost)));
    run.hostname = Some("h".to_string());
    assert!(matches!(prepare(&run, b"/p", &Vec::new()), Err(ConfigError::NoToolchain)));
}

#[test]
fn prepare_with_overrides() {
    let mut run = settings(None, SubcommandKind::Test);
    run.transport = Some("sh".to_string());
    run.build_tool = Some("cargo".to_string());
    let invocation = match prepare(&run, b"/w/a b", &vec!["x y".to_string()]) {
        Ok(i) => i,
        Err(e) => panic!("unexpected {:?}", e),
    };
    let id = workspace_id(b"/w/a b");
    assert_eq!(invocation.transport, "sh");
    assert_eq!(invocation.workspace, format!("$HOME/.distant/'{}'", id));
    assert_eq!(
        invocation.script,
        format!("set -e && cd $HOME/.distant/'{}' && cargo build --tests 'x y'", id)
    );
}

#[test]
fn sync_plan_copies_both_ways() {
    let plan = plan_sync("/home/u/p", "$HOME/.distant/p-1", false, false);
    let up = plan.upload.unwrap();
    assert_eq!(up.source, "/home/u/p");
    assert_eq!(up.destination, "$HOME/.distant/p-1");
    assert_eq!(up.without, Some("target".to_string()));
    let down = plan.download.unwrap();
    assert_eq!(down.source, "$HOME/.distant/p-1/target");
    assert_eq!(down.destination, "/home/u/p/target");
    assert_eq!(down.without, None);
    assert_eq!(outputs("/x"), "/x/target");
}

#[test]
fn sync_plan_without_copy_back_has_no_download() {
    let plan = plan_sync("/home/u/p", "$HOME/.distant/p-1", false, true);
    assert!(plan.upload.is_some());
    assert!(plan.download.is_none());
}

#[test]
fn sync_plan_without_upload() {
    let plan = plan_sync("/home/u/p", "$HOME/.distant/p-1", true, false);
    assert!(plan.upload.is_none());
    assert!(plan.download.is_some());
}

#[test]
fn name_in_utf8_stands_in_the_script_unchanged() {
    let path = "/home/zoé/projet-été".as_bytes();
    let run = settings(Some("ci.example.com"), SubcommandKind::Check);
    let invocation = match prepare(&run, path, &vec!["é".to_string()]) {
        Ok(i) => i,
        Err(e) => panic!("unexpected {:?}", e),
    };
    let id = workspace_id(path);
    assert!(id.starts_with("projet-été-"));
    assert_eq!(invocation.workspace, format!("$HOME/.distant/{}", id));
    assert_eq!(
        invocation.script,
        format!("set -e && cd $HOME/.distant/{} && rustup-run stable check é", id)
    );
}
