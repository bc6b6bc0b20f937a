//! What a run is configured with, resolved once before anything remote is
//! touched: the command that opens the remote session, the invocation of the
//! remote build tool, and the script to send.

use crate::identity::base_name;
use crate::identity::fingerprint_of;
use crate::identity::hex;
use crate::identity::workspace_id;
use crate::identity::workspace_id_of;
use crate::script::closed;
use crate::script::joined;
use crate::script::lemma_closed_append;
use crate::script::lemma_plain_is_word;
use crate::script::lemma_split_append;
use crate::script::quoted_is_one_word;
use crate::script::remote_dir;
use crate::script::split_words;
use crate::script::quoted;
use crate::script::remote_script;
use crate::script::script_tokens;
use crate::script::shell_quote;
use crate::script::views;
use crate::script::workspace_dir;
use crate::script::SubcommandKind;
use vstd::prelude::*;
use vstd::string::StrSliceExecFns;
use vstd::string::StringExecFns;
use vstd::utf8::decode_utf8;
use vstd::utf8::valid_utf8;

verus! {

/// Why a run cannot be configured.
#[derive(Clone, Copy, Debug, PartialEq, Eq, Structural)]
pub enum ConfigError {
    /// Neither a hostname nor a transport command was given.
    NoHost,
    /// Neither a toolchain's name nor a build-tool command was given.
    NoToolchain,
}

/// The characters of an optional string.
pub open spec fn opt_view(s: Option<String>) -> Option<Seq<char>> {
    match s {
        Some(t) => Some(t@),
        None => None,
    }
}

/// The command that opens the remote session. A transport command given as a
/// whole comes first and is taken as it is; else `ssh`, one blank and the
/// hostname as it was given, so that a hostname may carry options of `ssh`;
/// with neither there is no host, and no default one.
pub open spec fn transport_of(hostname: Option<Seq<char>>, transport: Option<Seq<char>>) -> Result<
    Seq<char>,
    ConfigError,
> {
    match transport {
        Some(command) => Ok(command),
        None => match hostname {
            Some(host) => Ok("ssh "@ + host),
            None => Err(ConfigError::NoHost),
        },
    }
}

/// The invocation of the remote build tool. A command given as a whole comes
/// first and is taken as it is; else `rustup-run` with the toolchain's name;
/// an empty name is no toolchain.
pub open spec fn toolchain_of(toolchain: Seq<char>, command: Option<Seq<char>>) -> Result<
    Seq<char>,
    ConfigError,
> {
    match command {
        Some(c) => Ok(c),
        None => if toolchain.len() == 0 {
            Err(ConfigError::NoToolchain)
        } else {
            Ok("rustup-run "@ + quoted(toolchain))
        },
    }
}

/// The characters of a resolved command, or the error.
pub open spec fn resolved(r: Result<String, ConfigError>) -> Result<Seq<char>, ConfigError> {
    match r {
        Ok(s) => Ok(s@),
        Err(e) => Err(e),
    }
}

/// Resolves the command that opens the remote session.
pub fn ssh_command(hostname: &Option<String>, transport: &Option<String>) -> (r: Result<
    String,
    ConfigError,
>)
    ensures
        resolved(r) == transport_of(opt_view(*hostname), opt_view(*transport)),
{
    match transport {
        Some(command) => Ok(command.clone()),
        None => match hostname {
            Some(host) => {
                let mut out = "ssh ".to_owned();
                out.append(host.as_str());
                Ok(out)
            },
            None => Err(ConfigError::NoHost),
        },
    }
}

/// Resolves the invocation of the remote build tool.
pub fn toolchain_command(toolchain: &str, command: &Option<String>) -> (r: Result<
    String,
    ConfigError,
>)
    ensures
        resolved(r) == toolchain_of(toolchain@, opt_view(*command)),
{
    match command {
        Some(c) => Ok(c.clone()),
        None => {
            if toolchain.unicode_len() == 0 {
                Err(ConfigError::NoToolchain)
            } else {
                let mut out = "rustup-run ".to_owned();
                out.append(shell_quote(toolchain).as_str());
                Ok(out)
            }
        },
    }
}

/// What the user and the environment ask of one run.
pub struct Settings {
    /// The remote machine.
    pub hostname: Option<String>,
    /// A command that replaces `ssh` and the hostname as a whole.
    pub transport: Option<String>,
    /// The name of the remote toolchain.
    pub toolchain: String,
    /// A command that replaces the invocation of the remote build tool as a
    /// whole.
    pub build_tool: Option<String>,
    /// Leave what was built on the remote machine.
    pub no_copy_back: bool,
    /// Send no sources before building.
    pub skip_upload: bool,
    /// What to build.
    pub command: SubcommandKind,
}

/// What a run needs to know before it starts.
pub struct Invocation {
    /// The command that opens the remote session.
    pub transport: String,
    /// The remote directory of the project, as one shell word: sources are
    /// sent to it, the build runs in it, outputs are fetched from it.
    pub workspace: String,
    /// The script that is sent into the session.
    pub script: String,
}

/// The three strings of an invocation.
pub open spec fn described(r: Result<Invocation, ConfigError>) -> Result<
    (Seq<char>, Seq<char>, Seq<char>),
    ConfigError,
> {
    match r {
        Ok(i) => Ok((i.transport@, i.workspace@, i.script@)),
        Err(e) => Err(e),
    }
}

/// Transport, workspace and script of the run that `settings` asks for, on
/// the project at `path` with the user's arguments `args`.
pub open spec fn invocation_of(settings: Settings, path: Seq<u8>, args: Seq<Seq<char>>) -> Result<
    (Seq<char>, Seq<char>, Seq<char>),
    ConfigError,
> {
    invocation_for(settings, workspace_id_of(path), args)
}

/// Transport, workspace and script of the run that `settings` asks for, in
/// the workspace named `id` with the user's arguments `args`. A missing host
/// is reported before a missing toolchain.
pub open spec fn invocation_for(settings: Settings, id: Seq<char>, args: Seq<Seq<char>>) -> Result<
    (Seq<char>, Seq<char>, Seq<char>),
    ConfigError,
> {
    match transport_of(opt_view(settings.hostname), opt_view(settings.transport)) {
        Err(e) => Err(e),
        Ok(transport) => match toolchain_of(settings.toolchain@, opt_view(settings.build_tool)) {
            Err(e) => Err(e),
            Ok(tool) => Ok(
                (
                    transport,
                    workspace_dir(id),
                    joined(script_tokens(id, tool, settings.command, args), ' '),
                ),
            ),
        },
    }
}

/// Resolves everything a run needs, or says what is missing. Nothing remote
/// is touched. Where the project's base name is valid UTF-8, the workspace
/// is named by it, unchanged, and the fingerprint.
pub fn prepare(settings: &Settings, path: &[u8], args: &Vec<String>) -> (r: Result<
    Invocation,
    ConfigError,
>)
    ensures
        described(r) == invocation_of(*settings, path@, views(args@)),
        match base_name(path@) {
            Some(b) => valid_utf8(b) ==> described(r) == invocation_for(
                *settings,
                decode_utf8(b) + "-"@ + hex(fingerprint_of(path@) as nat),
                views(args@),
            ),
            None => described(r) == invocation_for(
                *settings,
                "xxx"@ + "-"@ + hex(fingerprint_of(path@) as nat),
                views(args@),
            ),
        },
{
    let transport = match ssh_command(&settings.hostname, &settings.transport) {
        Ok(t) => t,
        Err(e) => {
            return Err(e);
        },
    };
    let tool = match toolchain_command(settings.toolchain.as_str(), &settings.build_tool) {
        Ok(t) => t,
        Err(e) => {
            return Err(e);
        },
    };
    let id = workspace_id(path);
    let script = remote_script(id.as_str(), tool.as_str(), settings.command, args);
    Ok(Invocation { transport, workspace: remote_dir(id.as_str()), script })
}

/// Without a hostname and without a transport command no run is configured,
/// whatever else is given.
pub proof fn no_host_no_run(settings: Settings, path: Seq<u8>, args: Seq<Seq<char>>)
    requires
        settings.hostname.is_none(),
        settings.transport.is_none(),
    ensures
        invocation_of(settings, path, args) == Err::<(Seq<char>, Seq<char>, Seq<char>), _>(
            ConfigError::NoHost,
        ),
{
}

/// A toolchain's name is one word of the invocation of the build tool,
/// whatever it holds: the shell reads `rustup-run` and the name, and is
/// outside quotes again behind them.
pub proof fn toolchain_name_is_one_word(name: Seq<char>)
    ensures
        name.len() > 0 ==> toolchain_of(name, None) == Ok::<_, ConfigError>(
            "rustup-run "@ + quoted(name),
        ),
        split_words("rustup-run "@ + quoted(name), false) == seq!["rustup-run"@, quoted(name)],
        closed("rustup-run "@ + quoted(name), false),
{
    reveal_strlit("rustup-run ");
    reveal_strlit("rustup-run");
    quoted_is_one_word(name);
    let blank = seq![' '] + quoted(name);
    assert(blank.skip(1) =~= quoted(name));
    assert(closed(blank, false));
    lemma_plain_is_word("rustup-run"@);
    assert("rustup-run "@ + quoted(name) =~= "rustup-run"@ + seq![' '] + quoted(name));
    assert("rustup-run "@ + quoted(name) =~= "rustup-run"@ + blank);
    lemma_split_append("rustup-run"@, quoted(name), false);
    lemma_closed_append("rustup-run"@, blank, false);
    assert(seq!["rustup-run"@] + seq![quoted(name)] =~= seq!["rustup-run"@, quoted(name)]);
}

} // verus!
