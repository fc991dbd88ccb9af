//! Laws of the command line.

use std::collections::VecDeque;

use vstd::prelude::*;
use vstd::string::*;
use vstd::utf8::*;

use crate::assoc::as_map;
use crate::cli::{
    check_agent_tls, flag_of, load_agent_tls, read_setting, AgentCli, AgentTls, AgentTlsFault, Cli, CliError,
    Flag, Plan, Setting,
};
use crate::daemon::{AuthConfig, DaemonConfig, SessionConfig};
use crate::net::{IpAddr, SocketAddr};
use crate::pam::{PamError, PamVerifier};
use crate::parse::NumberFault;
use crate::pem::PrivateKey;
use crate::text::texts;

verus! {

/// What tells arguments apart: how long they are, and two of their letters.
proof fn marks(f: Flag)
    ensures
        (f.name().len(), f.name()[2], f.name()[5]) == match f {
            Flag::Bind => (6nat, 'b', 'd'),
            Flag::WebRoot => (10nat, 'w', '-'),
            Flag::SshAuth => (10nat, 's', '-'),
            Flag::PasswordAuth => (15nat, 'p', 's'),
            Flag::PamService => (13nat, 'p', '-'),
            Flag::WtBind => (9nat, 'w', 'b'),
            Flag::WtCert => (9nat, 'w', 'c'),
            Flag::WtKey => (8nat, 'w', 'k'),
            Flag::NoWebtransport => (17nat, 'n', 'w'),
            Flag::GrantKey => (11nat, 'g', 'n'),
            Flag::AllowedOrigin => (16nat, 'a', 'o'),
            Flag::Account => (9nat, 'a', 'o'),
            Flag::DropPrivileges => (17nat, 'd', 'p'),
            Flag::ShellMaxProcesses => (21nat, 's', 'l'),
            Flag::ShellMaxOpenFiles => (22nat, 's', 'l'),
            Flag::ShellMaxCoreBytes => (22nat, 's', 'l'),
            Flag::ShellIdleTtl => (16nat, 's', 'l'),
            Flag::ServerId => (11nat, 's', 'v'),
            Flag::Agent => (7nat, 'a', 'n'),
            Flag::Gateway => (9nat, 'g', 'e'),
            Flag::GatewayName => (14nat, 'g', 'e'),
            Flag::AgentCa => (10nat, 'a', 'n'),
            Flag::AgentCert => (12nat, 'a', 'n'),
            Flag::AgentKey => (11nat, 'a', 'n'),
            Flag::GrantVerifyKey => (18nat, 'g', 'n'),
            Flag::GrantAudience => (16nat, 'g', 'n'),
        },
        f is ShellMaxOpenFiles ==> f.name()[12] == 'o',
        f is ShellMaxCoreBytes ==> f.name()[12] == 'c',
{
    reveal_strlit("--bind");
    reveal_strlit("--web-root");
    reveal_strlit("--ssh-auth");
    reveal_strlit("--password-auth");
    reveal_strlit("--pam-service");
    reveal_strlit("--wt-bind");
    reveal_strlit("--wt-cert");
    reveal_strlit("--wt-key");
    reveal_strlit("--no-webtransport");
    reveal_strlit("--grant-key");
    reveal_strlit("--allowed-origin");
    reveal_strlit("--account");
    reveal_strlit("--drop-privileges");
    reveal_strlit("--shell-max-processes");
    reveal_strlit("--shell-max-open-files");
    reveal_strlit("--shell-max-core-bytes");
    reveal_strlit("--shell-idle-ttl");
    reveal_strlit("--server-id");
    reveal_strlit("--agent");
    reveal_strlit("--gateway");
    reveal_strlit("--gateway-name");
    reveal_strlit("--agent-ca");
    reveal_strlit("--agent-cert");
    reveal_strlit("--agent-key");
    reveal_strlit("--grant-verify-key");
    reveal_strlit("--grant-audience");
}

/// No two arguments are written alike.
pub proof fn arguments_differ(f: Flag, g: Flag)
    requires
        f.name() == g.name(),
    ensures
        f == g,
{
    marks(f);
    marks(g);
}

/// What the next argument asks for, where it is a known one.
proof fn is_argument(args: Seq<String>, agent_mode: bool, r: Result<Setting, CliError>, f: Flag)
    requires
        crate::cli::next_setting(args, agent_mode, r),
    ensures
        args[0]@ == f.name() && (agent_mode || !f.for_agents()) ==> r == crate::cli::setting_of(
            f,
            args.skip(1),
        ),
        args[0]@ == f.name() && f.for_agents() && !agent_mode ==> r == Err::<Setting, CliError>(
            if f is Agent {
                CliError::NoAgentMode
            } else {
                CliError::Unknown { arg: args[0] }
            },
        ),
{
    if args[0]@ == f.name() {
        let g = choose|g: Flag|
            {
                &&& #[trigger] g.name() == args[0]@
                &&& if g.for_agents() && !agent_mode {
                    r == Err::<Setting, CliError>(
                        if g is Agent {
                            CliError::NoAgentMode
                        } else {
                            CliError::Unknown { arg: args[0] }
                        },
                    )
                } else {
                    r == crate::cli::setting_of(g, args.skip(1))
                }
            };
        arguments_differ(f, g);
    }
}

/// An argument with one value takes the text that follows it, and asks for one where none
/// does.
pub proof fn texts_follow_their_argument(
    args: &mut VecDeque<String>,
    agent_mode: bool,
    r: Result<Setting, CliError>,
)
    requires
        call_ensures(read_setting, (args, agent_mode), r),
        old(args)@.len() > 0,
    ensures
        r is Ok && (old(args)@[0]@ == "--web-root"@ || old(args)@[0]@ == "--password-auth"@
            || old(args)@[0]@ == "--pam-service"@ || old(args)@[0]@ == "--wt-cert"@
            || old(args)@[0]@ == "--wt-key"@ || old(args)@[0]@ == "--allowed-origin"@
            || old(args)@[0]@ == "--gateway-name"@ || old(args)@[0]@ == "--agent-ca"@
            || old(args)@[0]@ == "--agent-cert"@ || old(args)@[0]@ == "--agent-key"@
            || old(args)@[0]@ == "--grant-verify-key"@
            || old(args)@[0]@ == "--grant-audience"@) ==> final(args)@ == old(args)@.skip(2),
        old(args)@[0]@ == "--web-root"@ ==> {
            &&& old(args)@.len() == 1 ==> r == Err::<Setting, CliError>(
                CliError::Needs { flag: Flag::WebRoot, second: false },
            )
            &&& old(args)@.len() > 1 ==> r == Ok::<Setting, CliError>(
                Setting::Text { flag: Flag::WebRoot, value: old(args)@[1] },
            )
        },
        old(args)@[0]@ == "--password-auth"@ ==> {
            &&& old(args)@.len() == 1 ==> r == Err::<Setting, CliError>(
                CliError::Needs { flag: Flag::PasswordAuth, second: false },
            )
            &&& old(args)@.len() > 1 ==> r == Ok::<Setting, CliError>(
                Setting::Text { flag: Flag::PasswordAuth, value: old(args)@[1] },
            )
        },
        old(args)@[0]@ == "--pam-service"@ ==> {
            &&& old(args)@.len() == 1 ==> r == Err::<Setting, CliError>(
                CliError::Needs { flag: Flag::PamService, second: false },
            )
            &&& old(args)@.len() > 1 ==> r == Ok::<Setting, CliError>(
                Setting::Text { flag: Flag::PamService, value: old(args)@[1] },
            )
        },
        old(args)@[0]@ == "--wt-cert"@ ==> {
            &&& old(args)@.len() == 1 ==> r == Err::<Setting, CliError>(
                CliError::Needs { flag: Flag::WtCert, second: false },
            )
            &&& old(args)@.len() > 1 ==> r == Ok::<Setting, CliError>(
                Setting::Text { flag: Flag::WtCert, value: old(args)@[1] },
            )
        },
        old(args)@[0]@ == "--wt-key"@ ==> {
            &&& old(args)@.len() == 1 ==> r == Err::<Setting, CliError>(
                CliError::Needs { flag: Flag::WtKey, second: false },
            )
            &&& old(args)@.len() > 1 ==> r == Ok::<Setting, CliError>(
                Setting::Text { flag: Flag::WtKey, value: old(args)@[1] },
            )
        },
        old(args)@[0]@ == "--allowed-origin"@ ==> {
            &&& old(args)@.len() == 1 ==> r == Err::<Setting, CliError>(
                CliError::Needs { flag: Flag::AllowedOrigin, second: false },
            )
            &&& old(args)@.len() > 1 ==> r == Ok::<Setting, CliError>(
                Setting::Text { flag: Flag::AllowedOrigin, value: old(args)@[1] },
            )
        },
        old(args)@[0]@ == "--gateway-name"@ && agent_mode ==> {
            &&& old(args)@.len() == 1 ==> r == Err::<Setting, CliError>(
                CliError::Needs { flag: Flag::GatewayName, second: false },
            )
            &&& old(args)@.len() > 1 ==> r == Ok::<Setting, CliError>(
                Setting::Text { flag: Flag::GatewayName, value: old(args)@[1] },
            )
        },
        old(args)@[0]@ == "--agent-ca"@ && agent_mode ==> {
            &&& old(args)@.len() == 1 ==> r == Err::<Setting, CliError>(
                CliError::Needs { flag: Flag::AgentCa, second: false },
            )
            &&& old(args)@.len() > 1 ==> r == Ok::<Setting, CliError>(
                Setting::Text { flag: Flag::AgentCa, value: old(args)@[1] },
            )
        },
        old(args)@[0]@ == "--agent-cert"@ && agent_mode ==> {
            &&& old(args)@.len() == 1 ==> r == Err::<Setting, CliError>(
                CliError::Needs { flag: Flag::AgentCert, second: false },
            )
            &&& old(args)@.len() > 1 ==> r == Ok::<Setting, CliError>(
                Setting::Text { flag: Flag::AgentCert, value: old(args)@[1] },
            )
        },
        old(args)@[0]@ == "--agent-key"@ && agent_mode ==> {
            &&& old(args)@.len() == 1 ==> r == Err::<Setting, CliError>(
                CliError::Needs { flag: Flag::AgentKey, second: false },
            )
            &&& old(args)@.len() > 1 ==> r == Ok::<Setting, CliError>(
                Setting::Text { flag: Flag::AgentKey, value: old(args)@[1] },
            )
        },
        old(args)@[0]@ == "--grant-verify-key"@ && agent_mode ==> {
            &&& old(args)@.len() == 1 ==> r == Err::<Setting, CliError>(
                CliError::Needs { flag: Flag::GrantVerifyKey, second: false },
            )
            &&& old(args)@.len() > 1 ==> r == Ok::<Setting, CliError>(
                Setting::Text { flag: Flag::GrantVerifyKey, value: old(args)@[1] },
            )
        },
        old(args)@[0]@ == "--grant-audience"@ && agent_mode ==> {
            &&& old(args)@.len() == 1 ==> r == Err::<Setting, CliError>(
                CliError::Needs { flag: Flag::GrantAudience, second: false },
            )
            &&& old(args)@.len() > 1 ==> r == Ok::<Setting, CliError>(
                Setting::Text { flag: Flag::GrantAudience, value: old(args)@[1] },
            )
        },
{
    is_argument(old(args)@, agent_mode, r, Flag::WebRoot);
    is_argument(old(args)@, agent_mode, r, Flag::PasswordAuth);
    is_argument(old(args)@, agent_mode, r, Flag::PamService);
    is_argument(old(args)@, agent_mode, r, Flag::WtCert);
    is_argument(old(args)@, agent_mode, r, Flag::WtKey);
    is_argument(old(args)@, agent_mode, r, Flag::AllowedOrigin);
    is_argument(old(args)@, agent_mode, r, Flag::GatewayName);
    is_argument(old(args)@, agent_mode, r, Flag::AgentCa);
    is_argument(old(args)@, agent_mode, r, Flag::AgentCert);
    is_argument(old(args)@, agent_mode, r, Flag::AgentKey);
    is_argument(old(args)@, agent_mode, r, Flag::GrantVerifyKey);
    is_argument(old(args)@, agent_mode, r, Flag::GrantAudience);
}

/// An argument with an address takes the text that follows it.
pub proof fn addresses_follow_their_argument(
    args: &mut VecDeque<String>,
    agent_mode: bool,
    r: Result<Setting, CliError>,
)
    requires
        call_ensures(read_setting, (args, agent_mode), r),
        old(args)@.len() > 0,
    ensures
        r is Ok && (old(args)@[0]@ == "--bind"@ || old(args)@[0]@ == "--wt-bind"@
            || old(args)@[0]@ == "--gateway"@) ==> final(args)@ == old(args)@.skip(2),
        old(args)@[0]@ == "--bind"@ ==> {
            &&& old(args)@.len() == 1 ==> r == Err::<Setting, CliError>(
                CliError::Needs { flag: Flag::Bind, second: false },
            )
            &&& old(args)@.len() > 1 ==> r == Ok::<Setting, CliError>(
                Setting::Address { flag: Flag::Bind, text: old(args)@[1] },
            )
        },
        old(args)@[0]@ == "--wt-bind"@ ==> {
            &&& old(args)@.len() == 1 ==> r == Err::<Setting, CliError>(
                CliError::Needs { flag: Flag::WtBind, second: false },
            )
            &&& old(args)@.len() > 1 ==> r == Ok::<Setting, CliError>(
                Setting::Address { flag: Flag::WtBind, text: old(args)@[1] },
            )
        },
        old(args)@[0]@ == "--gateway"@ && agent_mode ==> {
            &&& old(args)@.len() == 1 ==> r == Err::<Setting, CliError>(
                CliError::Needs { flag: Flag::Gateway, second: false },
            )
            &&& old(args)@.len() > 1 ==> r == Ok::<Setting, CliError>(
                Setting::Address { flag: Flag::Gateway, text: old(args)@[1] },
            )
        },
{
    is_argument(old(args)@, agent_mode, r, Flag::Bind);
    is_argument(old(args)@, agent_mode, r, Flag::WtBind);
    is_argument(old(args)@, agent_mode, r, Flag::Gateway);
}

/// The argument of the signing key takes the path that follows it.
pub proof fn key_files_follow_their_argument(
    args: &mut VecDeque<String>,
    agent_mode: bool,
    r: Result<Setting, CliError>,
)
    requires
        call_ensures(read_setting, (args, agent_mode), r),
        old(args)@.len() > 0,
    ensures
        r is Ok && (old(args)@[0]@ == "--grant-key"@) ==> final(args)@ == old(args)@.skip(2),
        old(args)@[0]@ == "--grant-key"@ ==> {
            &&& old(args)@.len() == 1 ==> r == Err::<Setting, CliError>(
                CliError::Needs { flag: Flag::GrantKey, second: false },
            )
            &&& old(args)@.len() > 1 ==> r == Ok::<Setting, CliError>(
                Setting::GrantKey { path: old(args)@[1] },
            )
        },
{
    is_argument(old(args)@, agent_mode, r, Flag::GrantKey);
}

/// An argument with a number takes the number that follows it in decimal; only the size
/// of core files may be zero.
pub proof fn numbers_follow_their_argument(
    args: &mut VecDeque<String>,
    agent_mode: bool,
    r: Result<Setting, CliError>,
    value: u64,
)
    requires
        call_ensures(read_setting, (args, agent_mode), r),
        old(args)@.len() > 0,
    ensures
        old(args)@[0]@ == "--shell-max-processes"@ ==> {
            &&& old(args)@.len() == 1 ==> r == Err::<Setting, CliError>(
                CliError::Needs { flag: Flag::ShellMaxProcesses, second: false },
            )
            &&& old(args)@.len() > 1 && value > 0 && old(args)@[1]@ == crate::text::decimal_nat(
                value as nat,
            ) ==> r == Ok::<Setting, CliError>(
                Setting::Number { flag: Flag::ShellMaxProcesses, value },
            )
            &&& old(args)@.len() > 1 && old(args)@[1]@ == crate::text::decimal_nat(0)
                ==> r == Err::<
                Setting,
                CliError,
            >(CliError::Zero { flag: Flag::ShellMaxProcesses })
            &&& old(args)@.len() > 1 && old(args)@[1]@.len() == 0 ==> r == Err::<Setting, CliError>(
                CliError::NotANumber { flag: Flag::ShellMaxProcesses, fault: NumberFault::Empty },
            )
        },
        old(args)@[0]@ == "--shell-max-open-files"@ ==> {
            &&& old(args)@.len() == 1 ==> r == Err::<Setting, CliError>(
                CliError::Needs { flag: Flag::ShellMaxOpenFiles, second: false },
            )
            &&& old(args)@.len() > 1 && value > 0 && old(args)@[1]@ == crate::text::decimal_nat(
                value as nat,
            ) ==> r == Ok::<Setting, CliError>(
                Setting::Number { flag: Flag::ShellMaxOpenFiles, value },
            )
            &&& old(args)@.len() > 1 && old(args)@[1]@ == crate::text::decimal_nat(0)
                ==> r == Err::<
                Setting,
                CliError,
            >(CliError::Zero { flag: Flag::ShellMaxOpenFiles })
            &&& old(args)@.len() > 1 && old(args)@[1]@.len() == 0 ==> r == Err::<Setting, CliError>(
                CliError::NotANumber { flag: Flag::ShellMaxOpenFiles, fault: NumberFault::Empty },
            )
        },
        old(args)@[0]@ == "--shell-max-core-bytes"@ ==> {
            &&& old(args)@.len() == 1 ==> r == Err::<Setting, CliError>(
                CliError::Needs { flag: Flag::ShellMaxCoreBytes, second: false },
            )
            &&& old(args)@.len() > 1 && value > 0 && old(args)@[1]@ == crate::text::decimal_nat(
                value as nat,
            ) ==> r == Ok::<Setting, CliError>(
                Setting::Number { flag: Flag::ShellMaxCoreBytes, value },
            )
            &&& old(args)@.len() > 1 && old(args)@[1]@ == crate::text::decimal_nat(0) ==> r == Ok::<
                Setting,
                CliError,
            >(Setting::Number { flag: Flag::ShellMaxCoreBytes, value: 0 })
            &&& old(args)@.len() > 1 && old(args)@[1]@.len() == 0 ==> r == Err::<Setting, CliError>(
                CliError::NotANumber { flag: Flag::ShellMaxCoreBytes, fault: NumberFault::Empty },
            )
        },
        old(args)@[0]@ == "--shell-idle-ttl"@ ==> {
            &&& old(args)@.len() == 1 ==> r == Err::<Setting, CliError>(
                CliError::Needs { flag: Flag::ShellIdleTtl, second: false },
            )
            &&& old(args)@.len() > 1 && value > 0 && old(args)@[1]@ == crate::text::decimal_nat(
                value as nat,
            ) ==> r == Ok::<Setting, CliError>(
                Setting::Number { flag: Flag::ShellIdleTtl, value },
            )
            &&& old(args)@.len() > 1 && old(args)@[1]@ == crate::text::decimal_nat(0)
                ==> r == Err::<
                Setting,
                CliError,
            >(CliError::Zero { flag: Flag::ShellIdleTtl })
            &&& old(args)@.len() > 1 && old(args)@[1]@.len() == 0 ==> r == Err::<Setting, CliError>(
                CliError::NotANumber { flag: Flag::ShellIdleTtl, fault: NumberFault::Empty },
            )
        },
{
    crate::parse::decimal_reads_back(value);
    crate::parse::decimal_reads_back(0);
    is_argument(old(args)@, agent_mode, r, Flag::ShellMaxProcesses);
    is_argument(old(args)@, agent_mode, r, Flag::ShellMaxOpenFiles);
    is_argument(old(args)@, agent_mode, r, Flag::ShellMaxCoreBytes);
    is_argument(old(args)@, agent_mode, r, Flag::ShellIdleTtl);
}

/// The two arguments with two values take both texts that follow; accounts must be named.
pub proof fn pairs_follow_their_argument(
    args: &mut VecDeque<String>,
    agent_mode: bool,
    r: Result<Setting, CliError>,
)
    requires
        call_ensures(read_setting, (args, agent_mode), r),
        old(args)@.len() > 0,
    ensures
        old(args)@[0]@ == "--ssh-auth"@ ==> {
            &&& old(args)@.len() == 1 ==> r == Err::<Setting, CliError>(
                CliError::Needs { flag: Flag::SshAuth, second: false },
            )
            &&& old(args)@.len() == 2 ==> r == Err::<Setting, CliError>(
                CliError::Needs { flag: Flag::SshAuth, second: true },
            )
            &&& old(args)@.len() > 2 ==> r == Ok::<Setting, CliError>(
                Setting::SshKeys { user: old(args)@[1], path: old(args)@[2] },
            ) && final(args)@ == old(args)@.skip(3)
        },
        old(args)@[0]@ == "--account"@ ==> {
            &&& old(args)@.len() == 1 ==> r == Err::<Setting, CliError>(
                CliError::Needs { flag: Flag::Account, second: false },
            )
            &&& old(args)@.len() == 2 ==> r == Err::<Setting, CliError>(
                CliError::Needs { flag: Flag::Account, second: true },
            )
            &&& old(args)@.len() > 2 ==> (r is Ok <==> crate::parse::entries_of(
                old(args)@[2]@,
            ).len() > 0)
            &&& old(args)@.len() > 2 && r is Ok ==> r == Ok::<Setting, CliError>(
                Setting::Account { user: old(args)@[1], accounts: old(args)@[2] },
            ) && final(args)@ == old(args)@.skip(3)
            &&& old(args)@.len() > 2 && r is Err ==> r == Err::<Setting, CliError>(
                CliError::NoAccounts { user: old(args)@[1] },
            )
        },
{
    is_argument(old(args)@, agent_mode, r, Flag::SshAuth);
    is_argument(old(args)@, agent_mode, r, Flag::Account);
}

/// An argument without a value takes nothing that follows it.
pub proof fn plain_arguments_stand_alone(
    args: &mut VecDeque<String>,
    agent_mode: bool,
    r: Result<Setting, CliError>,
)
    requires
        call_ensures(read_setting, (args, agent_mode), r),
        old(args)@.len() > 0,
    ensures
        old(args)@[0]@ == "--no-webtransport"@ ==> r == Ok::<Setting, CliError>(
            Setting::Plain { flag: Flag::NoWebtransport },
        ) && final(args)@ == old(args)@.skip(1),
        old(args)@[0]@ == "--drop-privileges"@ ==> r == Ok::<Setting, CliError>(
            Setting::Plain { flag: Flag::DropPrivileges },
        ) && final(args)@ == old(args)@.skip(1),
        old(args)@[0]@ == "--agent"@ && agent_mode ==> r == Ok::<Setting, CliError>(
            Setting::Plain { flag: Flag::Agent },
        ) && final(args)@ == old(args)@.skip(1),
        old(args)@[0]@ == "--agent"@ && !agent_mode ==> r == Err::<Setting, CliError>(
            CliError::NoAgentMode,
        ),
{
    is_argument(old(args)@, agent_mode, r, Flag::NoWebtransport);
    is_argument(old(args)@, agent_mode, r, Flag::DropPrivileges);
    is_argument(old(args)@, agent_mode, r, Flag::Agent);
}

/// The identity of a server is taken in its readable form alone.
pub proof fn identities_follow_their_argument(
    args: &mut VecDeque<String>,
    agent_mode: bool,
    r: Result<Setting, CliError>,
    id: Seq<u8>,
)
    requires
        call_ensures(read_setting, (args, agent_mode), r),
        old(args)@.len() > 1,
        old(args)@[0]@ == "--server-id"@,
        id.len() == 16,
    ensures
        old(args)@[1]@ == "srv_"@ + crate::hex::hex_text(id) ==> r == Ok::<Setting, CliError>(
            Setting::Server { text: old(args)@[1] },
        ) && final(args)@ == old(args)@.skip(2),
        old(args)@[1]@.len() == 0 ==> r == Err::<Setting, CliError>(CliError::NotAServer),
{
    is_argument(old(args)@, agent_mode, r, Flag::ServerId);
    crate::ids::server_text_reads_back(id);
    if old(args)@[1]@.len() == 0 {
        assert(old(args)@[1]@ =~= Seq::empty());
        is_ascii_chars_encode_utf8(old(args)@[1]@);
    }
}

/// Anything else is unknown, as are an agent's arguments where there are no agents.
pub proof fn other_arguments_are_unknown(
    args: &mut VecDeque<String>,
    agent_mode: bool,
    r: Result<Setting, CliError>,
)
    requires
        call_ensures(read_setting, (args, agent_mode), r),
        old(args)@.len() > 0,
    ensures
        old(args)@[0]@ != "--bind"@ && old(args)@[0]@ != "--web-root"@
            && old(args)@[0]@ != "--ssh-auth"@ && old(args)@[0]@ != "--password-auth"@
            && old(args)@[0]@ != "--pam-service"@ && old(args)@[0]@ != "--wt-bind"@
            && old(args)@[0]@ != "--wt-cert"@ && old(args)@[0]@ != "--wt-key"@
            && old(args)@[0]@ != "--no-webtransport"@ && old(args)@[0]@ != "--grant-key"@
            && old(args)@[0]@ != "--allowed-origin"@ && old(args)@[0]@ != "--account"@
            && old(args)@[0]@ != "--drop-privileges"@
            && old(args)@[0]@ != "--shell-max-processes"@
            && old(args)@[0]@ != "--shell-max-open-files"@
            && old(args)@[0]@ != "--shell-max-core-bytes"@
            && old(args)@[0]@ != "--shell-idle-ttl"@ && old(args)@[0]@ != "--server-id"@
            && old(args)@[0]@ != "--agent"@ && old(args)@[0]@ != "--gateway"@
            && old(args)@[0]@ != "--gateway-name"@ && old(args)@[0]@ != "--agent-ca"@
            && old(args)@[0]@ != "--agent-cert"@ && old(args)@[0]@ != "--agent-key"@
            && old(args)@[0]@ != "--grant-verify-key"@
            && old(args)@[0]@ != "--grant-audience"@
            ==> r == Err::<Setting, CliError>(CliError::Unknown { arg: old(args)@[0] }),
        !agent_mode && (old(args)@[0]@ == "--gateway"@ || old(args)@[0]@ == "--gateway-name"@
            || old(args)@[0]@ == "--agent-ca"@ || old(args)@[0]@ == "--agent-cert"@
            || old(args)@[0]@ == "--agent-key"@ || old(args)@[0]@ == "--grant-verify-key"@
            || old(args)@[0]@ == "--grant-audience"@)
            ==> r == Err::<Setting, CliError>(CliError::Unknown { arg: old(args)@[0] }),
{
    is_argument(old(args)@, agent_mode, r, Flag::Gateway);
    is_argument(old(args)@, agent_mode, r, Flag::GatewayName);
    is_argument(old(args)@, agent_mode, r, Flag::AgentCa);
    is_argument(old(args)@, agent_mode, r, Flag::AgentCert);
    is_argument(old(args)@, agent_mode, r, Flag::AgentKey);
    is_argument(old(args)@, agent_mode, r, Flag::GrantVerifyKey);
    is_argument(old(args)@, agent_mode, r, Flag::GrantAudience);
}

/// Each argument is written in one way, by which it is found again.
pub proof fn arguments_are_found_by_name(f: Flag, text: &'static str, r: Option<Flag>)
    requires
        call_ensures(Flag::as_text, (f,), text),
        call_ensures(flag_of, (text,), r),
    ensures
        r == Some(f),
{
    match r {
        Some(g) => {
            arguments_differ(f, g);
        },
        None => {
            assert(f.name() == text@);
        },
    }
}

/// A text that follows an argument is set as it is, and nothing else changes.
pub proof fn texts_are_set(cli: &mut Cli, flag: Flag, value: String)
    requires
        call_ensures(Cli::apply, (cli, Setting::Text { flag, value }), ()),
    ensures
        flag == Flag::WebRoot
            ==> *final(cli) == (Cli { config: DaemonConfig { web_root: Some(value), ..old(cli).config }, ..*old(cli) }),
        flag == Flag::PamService ==> *final(cli) == (Cli { pam_service: Some(value), ..*old(cli) }),
        flag == Flag::WtCert
            ==> *final(cli) == (Cli { config: DaemonConfig { webtransport_certificate: Some(value), ..old(cli).config }, ..*old(cli) }),
        flag == Flag::WtKey ==> *final(cli)
            == (Cli { config: DaemonConfig { webtransport_private_key: Some(value), ..old(cli).config }, ..*old(cli) }),
        flag == Flag::GatewayName
            ==> *final(cli) == (Cli { agent: AgentCli { gateway_name: Some(value), ..old(cli).agent }, ..*old(cli) }),
        flag == Flag::AgentCa
            ==> *final(cli) == (Cli { agent: AgentCli { ca_path: Some(value), ..old(cli).agent }, ..*old(cli) }),
        flag == Flag::AgentCert
            ==> *final(cli) == (Cli { agent: AgentCli { cert_path: Some(value), ..old(cli).agent }, ..*old(cli) }),
        flag == Flag::AgentKey
            ==> *final(cli) == (Cli { agent: AgentCli { key_path: Some(value), ..old(cli).agent }, ..*old(cli) }),
        flag == Flag::GrantVerifyKey
            ==> *final(cli) == (Cli { agent: AgentCli { grant_verify_key_path: Some(value), ..old(cli).agent }, ..*old(cli) }),
        flag == Flag::GrantAudience
            ==> *final(cli) == (Cli { agent: AgentCli { grant_audience: Some(value), ..old(cli).agent }, ..*old(cli) }),
        flag == Flag::AllowedOrigin ==> {
            &&& final(cli).config.allowed_origins is Some
            &&& old(cli).config.allowed_origins is None
                ==> final(cli).config.allowed_origins->0@ == seq![value]
            &&& old(cli).config.allowed_origins is Some
                ==> final(cli).config.allowed_origins->0@
                == old(cli).config.allowed_origins->0@.push(value)
            &&& *final(cli) == (Cli {
                config: DaemonConfig {
                    allowed_origins: final(cli).config.allowed_origins,
                    ..old(cli).config
                },
                ..*old(cli)
            })
        },
        flag == Flag::PasswordAuth ==> {
            &&& *final(cli) == (Cli { password_users: final(cli).password_users, ..*old(cli) })
            &&& (exists|i: int|
                0 <= i < old(cli).password_users@.len() && (
                #[trigger] old(cli).password_users@[i])@ == value@)
                    ==> final(cli).password_users@ == old(cli).password_users@
            &&& !(exists|i: int|
                0 <= i < old(cli).password_users@.len() && (
                #[trigger] old(cli).password_users@[i])@ == value@)
                    ==> final(cli).password_users@ == old(cli).password_users@.push(value)
        },
{
}

/// A number that follows an argument is set as it is, a time in seconds as milliseconds,
/// and nothing else changes.
pub proof fn numbers_are_set(cli: &mut Cli, flag: Flag, value: u64)
    requires
        call_ensures(Cli::apply, (cli, Setting::Number { flag, value }), ()),
    ensures
        flag == Flag::ShellMaxProcesses ==> final(cli).config.session == (SessionConfig {
            max_processes: Some(value),
            ..old(cli).config.session
        }),
        flag == Flag::ShellMaxOpenFiles ==> final(cli).config.session == (SessionConfig {
            max_open_files: Some(value),
            ..old(cli).config.session
        }),
        flag == Flag::ShellMaxCoreBytes ==> final(cli).config.session == (SessionConfig {
            max_core_bytes: Some(value),
            ..old(cli).config.session
        }),
        flag == Flag::ShellIdleTtl ==> {
            &&& final(cli).config.session == (SessionConfig {
                idle_shell_ttl_ms: final(cli).config.session.idle_shell_ttl_ms,
                ..old(cli).config.session
            })
            &&& final(cli).config.session.idle_shell_ttl_ms is Some
            &&& value * 1000 <= u64::MAX ==> final(cli).config.session.idle_shell_ttl_ms->0 == value
                * 1000
            &&& value * 1000 > u64::MAX ==> final(cli).config.session.idle_shell_ttl_ms->0
                == u64::MAX
        },
        *final(cli) == (Cli {
            config: DaemonConfig { session: final(cli).config.session, ..old(cli).config },
            ..*old(cli)
        }),
{
}

/// An argument without a value sets the one thing that it says.
pub proof fn plain_settings_are_set(cli: &mut Cli, flag: Flag)
    requires
        call_ensures(Cli::apply, (cli, Setting::Plain { flag }), ()),
    ensures
        flag == Flag::NoWebtransport ==> *final(cli) == (Cli {
            config: DaemonConfig { webtransport_bind: None, ..old(cli).config },
            ..*old(cli)
        }),
        flag == Flag::DropPrivileges ==> *final(cli) == (Cli {
            config: DaemonConfig {
                session: SessionConfig { privilege_drop: true, ..old(cli).config.session },
                ..old(cli).config
            },
            ..*old(cli)
        }),
        flag == Flag::Agent ==> *final(cli) == (Cli {
            agent: AgentCli { enabled: true, ..old(cli).agent },
            ..*old(cli)
        }),
{
}

/// The accounts of a user are the ones that were last listed for them; other users keep
/// theirs.
pub proof fn accounts_are_set(
    cli: &mut Cli,
    user: String,
    accounts: String,
    listed: &str,
    split: Vec<String>,
    other: Seq<char>,
)
    requires
        call_ensures(Cli::apply, (cli, Setting::Account { user, accounts }), ()),
        listed@ == accounts@,
        call_ensures(crate::parse::split_list, (listed,), split),
        other != user@,
    ensures
        ({
            let before = as_map(crate::cli::policy(old(cli).config.account_policy));
            let after = as_map(crate::cli::policy(final(cli).config.account_policy));
            &&& final(cli).config.account_policy is Some
            &&& after.dom().contains(user@)
            &&& texts(after[user@]@) == texts(split@)
            &&& after.dom().contains(other) <==> before.dom().contains(other)
            &&& before.dom().contains(other) ==> after[other] == before[other]
        }),
        *final(cli) == (Cli {
            config: DaemonConfig {
                account_policy: final(cli).config.account_policy,
                ..old(cli).config
            },
            ..*old(cli)
        }),
{
}

/// An identity that follows its argument is set.
pub proof fn identities_are_set(cli: &mut Cli, text: String, id: Seq<u8>)
    requires
        call_ensures(Cli::apply, (cli, Setting::Server { text }), ()),
        id.len() == 16,
        text@ == "srv_"@ + crate::hex::hex_text(id),
    ensures
        final(cli).config.server_id matches Some(set) && set.0@ == id,
        *final(cli) == (Cli {
            config: DaemonConfig { server_id: final(cli).config.server_id, ..old(cli).config },
            ..*old(cli)
        }),
{
    crate::ids::server_text_reads_back(id);
}

/// An address is set where its argument says.
pub proof fn addresses_are_set(cli: &mut Cli, flag: Flag, address: SocketAddr)
    requires
        call_ensures(Cli::set_address, (cli, flag, address), ()),
    ensures
        flag == Flag::Bind ==> *final(cli) == (Cli {
            config: DaemonConfig { bind: address, ..old(cli).config },
            ..*old(cli)
        }),
        flag == Flag::WtBind ==> *final(cli) == (Cli {
            config: DaemonConfig { webtransport_bind: Some(address), ..old(cli).config },
            ..*old(cli)
        }),
        flag == Flag::Gateway ==> *final(cli) == (Cli {
            agent: AgentCli { gateway: Some(address), ..old(cli).agent },
            ..*old(cli)
        }),
{
}

/// A user's keys are the ones that were last read for them; other users keep theirs, and
/// from the first on nobody is let in without one.
pub proof fn keys_are_set(cli: &mut Cli, user: String, keys: String, other: Seq<char>)
    requires
        call_ensures(Cli::add_keys, (cli, user, keys), ()),
        other != user@,
    ensures
        final(cli).config.auth is SshKeys,
        ({
            let before = as_map(crate::cli::ssh_users(old(cli).config.auth));
            let after = as_map(crate::cli::ssh_users(final(cli).config.auth));
            &&& after.dom().contains(user@)
            &&& after[user@] == keys
            &&& after.dom().contains(other) <==> before.dom().contains(other)
            &&& before.dom().contains(other) ==> after[other] == before[other]
        }),
        *final(cli) == (Cli {
            config: DaemonConfig { auth: final(cli).config.auth, ..old(cli).config },
            ..*old(cli)
        }),
{
}

/// The signing key is the one that was read.
pub proof fn signing_keys_are_set(cli: &mut Cli, seed: [u8; 32])
    requires
        call_ensures(Cli::set_grant_key, (cli, seed), ()),
    ensures
        *final(cli) == (Cli {
            config: DaemonConfig { grant_signing_key: Some(seed), ..old(cli).config },
            ..*old(cli)
        }),
{
}

/// Nothing is set before any argument is read.
pub proof fn command_lines_start_empty(r: Cli)
    requires
        call_ensures(Cli::new, (), r),
    ensures
        call_ensures(<DaemonConfig as Default>::default, (), r.config),
        r.password_users@.len() == 0,
        r.pam_service is None,
        !r.agent.enabled,
        r.agent.gateway is None,
        r.agent.gateway_name is None,
        r.agent.ca_path is None,
        r.agent.cert_path is None,
        r.agent.key_path is None,
        r.agent.grant_verify_key_path is None,
        r.agent.grant_audience is None,
{
}

/// The arguments together are refused for the first thing that does not fit: a PAM
/// service that nobody uses, one that cannot be one, other accounts that nobody listed,
/// or an agent that lacks something.
pub proof fn arguments_must_fit_together(
    cli: Cli,
    r: Result<Plan, CliError>,
    service: &str,
    named: Result<PamVerifier, PamError>,
)
    requires
        call_ensures(Cli::finish, (cli,), r),
        service@ == match cli.pam_service {
            Some(s) => s@,
            None => "holdfast-ssh"@,
        },
        service.spec_bytes() == encode_utf8(service@),
        call_ensures(PamVerifier::new, (service,), named),
    ensures
        ({
            let alone = cli.pam_service is Some && cli.password_users@.len() == 0;
            let unnamed = cli.password_users@.len() > 0 && named is Err;
            let open = cli.config.session.privilege_drop && cli.config.account_policy is None;
            let ready = cli.agent.gateway is Some && cli.agent.gateway_name is Some
                && cli.config.server_id is Some && cli.agent.ca_path is Some
                && cli.agent.cert_path is Some && cli.agent.key_path is Some
                && cli.agent.grant_verify_key_path is Some && cli.agent.grant_audience is Some;
            &&& r is Ok <==> !alone && !unnamed && !open && (!cli.agent.enabled || ready)
            &&& alone ==> (r matches Err(e) && e is PamServiceAlone)
            &&& !alone && unnamed ==> (r matches Err(e) && e is PamServiceName)
            &&& !alone && !unnamed && open ==> (r matches Err(e) && e is NoAccountPolicy)
            &&& !alone && !unnamed && !open && cli.agent.enabled && !ready
                ==> (r matches Err(e) && e
                is AgentRequires)
            &&& !alone && !unnamed && !open && cli.agent.enabled && cli.agent.gateway is None ==> r
                == Err::<Plan, CliError>(CliError::AgentRequires { flag: Flag::Gateway })
            &&& !alone && !unnamed && !open && cli.agent.enabled && cli.agent.gateway is Some
                && cli.agent.gateway_name is Some && cli.config.server_id is None ==> r == Err::<
                Plan,
                CliError,
            >(CliError::AgentRequires { flag: Flag::ServerId })
        }),
{
}

/// A plan carries out the arguments: an agent exactly where one was asked for, with all
/// that it was told; WebTransport on its own port where none was asked for; and with
/// passwords for the listed users nobody is let in without a login.
pub proof fn plans_carry_out_the_arguments(cli: Cli, r: Result<Plan, CliError>, config: DaemonConfig)
    requires
        call_ensures(Cli::finish, (cli,), r),
        match r {
            Ok(Plan::Standalone { config: c, .. }) => c == config,
            Ok(Plan::Agent(plan)) => plan.config == config,
            Err(_) => false,
        },
    ensures
        cli.agent.enabled <==> r->Ok_0 is Agent,
        r matches Ok(Plan::Standalone { pam, .. }) ==> (pam is Some <==> cli.password_users@.len()
            > 0),
        r matches Ok(Plan::Agent(plan)) ==> {
            &&& cli.agent.gateway == Some(plan.gateway)
            &&& cli.agent.gateway_name == Some(plan.gateway_name)
            &&& cli.config.server_id == Some(plan.server_id)
            &&& cli.agent.ca_path == Some(plan.ca_path)
            &&& cli.agent.cert_path == Some(plan.cert_path)
            &&& cli.agent.key_path == Some(plan.key_path)
            &&& cli.agent.grant_verify_key_path == Some(plan.grant_verify_key_path)
            &&& cli.agent.grant_audience == Some(plan.grant_audience)
            &&& plan.bind.port == 0
            &&& plan.gateway.ip is V4 ==> plan.bind.ip == IpAddr::V4(0)
            &&& plan.gateway.ip is V6 ==> plan.bind.ip == IpAddr::V6(0)
        },
        cli.config.webtransport_bind == Some(
            SocketAddr { ip: IpAddr::V4(0x7f00_0001), port: 0 },
        ) ==> config.webtransport_bind == Some(
            SocketAddr { ip: IpAddr::V4(0x7f00_0001), port: 4433 },
        ),
        cli.config.webtransport_bind != Some(
            SocketAddr { ip: IpAddr::V4(0x7f00_0001), port: 0 },
        ) ==> config.webtransport_bind == cli.config.webtransport_bind,
        cli.password_users@.len() > 0 ==> config.password_auth is Some
            && config.password_auth->0.users@ == cli.password_users@ && config.auth is SshKeys,
        cli.password_users@.len() > 0 && cli.config.auth is DevInsecure ==> (
        config.auth matches AuthConfig::SshKeys { users } && users@.len() == 0),
        cli.password_users@.len() == 0 ==> config.auth == cli.config.auth && config.password_auth
            == cli.config.password_auth,
        config == (DaemonConfig {
            webtransport_bind: config.webtransport_bind,
            auth: config.auth,
            password_auth: config.password_auth,
            ..cli.config
        }),
{
}

/// What is wrong with the command line is told in words.
pub proof fn argument_errors_are_told(e: &CliError, r: String)
    requires
        call_ensures(CliError::text, (e,), r),
    ensures
        e is NotAServer ==> r@ == "--server-id: not srv_<hex>"@,
        e is NoAgentMode ==> r@
            == "agent mode is not compiled in; rebuild with `--features agent-mode`"@,
        e is PamServiceAlone ==> r@
            == "--pam-service requires at least one --password-auth <user>"@,
        e is PamServiceName ==> r@ == "invalid PAM service name"@,
        e matches CliError::NoAccounts { user } ==> r@ == "--account "@ + user@
            + ": account list is empty"@,
        e matches CliError::Needs { flag: Flag::SshAuth, second: true } ==> r@
            == "--ssh-auth needs an authorized_keys path"@,
        e matches CliError::Needs { flag: Flag::Account, second: true } ==> r@
            == "--account needs a comma-separated account list"@,
        e matches CliError::Needs { flag: Flag::Bind, second: false } ==> r@
            == "--bind needs an address"@,
        e matches CliError::Zero { flag: Flag::ShellIdleTtl } ==> r@
            == "--shell-idle-ttl must be > 0 (omit the flag to disable)"@,
        e matches CliError::Zero { flag: Flag::ShellMaxProcesses } ==> r@
            == "--shell-max-processes"@ + " must be greater than zero"@,
        e matches CliError::NotANumber { fault: NumberFault::Empty, .. } ==> r@
            == "cannot parse integer from empty string"@,
        e matches CliError::NotANumber { fault: NumberFault::InvalidDigit, .. } ==> r@
            == "invalid digit found in string"@,
        e matches CliError::NotANumber { fault: NumberFault::TooLarge, .. } ==> r@
            == "number too large to fit in target type"@,
        e matches CliError::AgentRequires { flag: Flag::Gateway } ==> r@
            == "--agent requires --gateway <address>"@,
        e matches CliError::AgentRequires { flag: Flag::GrantAudience } ==> r@
            == "--agent requires --grant-audience <value>"@,
{
}

/// An agent's identity is a chain, a key that only its owner can get at, and authorities
/// that can vouch for others; the first that is missing or malformed is told.
pub proof fn agent_identities_are_checked(
    key_mode: Option<u32>,
    authorities: Vec<(Option<Vec<u8>>, bool)>,
    chain: Vec<Option<Vec<u8>>>,
    key: Option<Option<PrivateKey>>,
    r: Result<AgentTls, AgentTlsFault>,
    i: int,
    k: int,
)
    requires
        call_ensures(check_agent_tls, (key_mode, authorities, chain, key), r),
        0 <= i < authorities@.len() || authorities@.len() == 0,
        0 <= k < chain@.len() || chain@.len() == 0,
    ensures
        key_mode is Some && key_mode->0 % 64 != 0 ==> (r matches Err(e) && e
            == AgentTlsFault::KeyExposed),
        r is Ok ==> key_mode is None || key_mode->0 % 64 == 0,
        r matches Ok(tls) ==> {
            &&& authorities@.len() > 0
            &&& tls.authorities@.len() == authorities@.len()
            &&& authorities@[i].1
            &&& authorities@[i].0 is Some
            &&& tls.authorities@[i]@ == authorities@[i].0->0@
            &&& chain@.len() > 0
            &&& tls.chain@.len() == chain@.len()
            &&& chain@[k] is Some
            &&& tls.chain@[k]@ == chain@[k]->0@
            &&& key is Some && key->0 is Some
            &&& tls.key@ == key->0->0@
        },
        (key_mode is None || key_mode->0 % 64 == 0) && authorities@.len() == 0 ==> (
        r matches Err(e) && e == AgentTlsFault::NoAuthority),
{
    let judged = crate::cli::authority_views(authorities@);
    let items = crate::pem::item_views(chain@);
    assert(judged.len() == authorities@.len());
    assert(items.len() == chain@.len());
    match r {
        Ok(tls) => {
            assert(crate::cli::tls_verdict(r) == Ok::<_, AgentTlsFault>(tls@));
            assert(crate::cli::authority_fault(judged) is None);
            trusted_authorities(judged, i);
            assert(judged[i] == (crate::pem::item_view(authorities@[i].0), authorities@[i].1));
            assert(items[k] == crate::pem::item_view(chain@[k]));
            assert(tls@.authorities == crate::cli::all_authorities(judged));
            assert(tls@.chain == crate::pem::whole(items));
            assert(crate::bytes::byte_views(tls.authorities@).len() == tls.authorities@.len());
            assert(crate::bytes::byte_views(tls.chain@).len() == tls.chain@.len());
            assert(crate::bytes::byte_views(tls.authorities@)[i] == tls.authorities@[i]@);
            assert(crate::bytes::byte_views(tls.chain@)[k] == tls.chain@[k]@);
            assert(crate::cli::all_authorities(judged)[i] == judged[i].0->0);
            assert(crate::pem::whole(items)[k] == items[k]->0);
        },
        Err(_) => {
            if authorities@.len() == 0 {
                assert(crate::cli::authority_fault(judged) is None);
            }
        },
    }
}

proof fn trusted_authorities(items: Seq<(Option<Seq<u8>>, bool)>, i: int)
    requires
        crate::cli::authority_fault(items) is None,
        0 <= i < items.len(),
    ensures
        items[i].0 is Some,
        items[i].1,
    decreases items.len(),
{
    if i < items.len() - 1 {
        trusted_authorities(items.drop_last(), i);
        assert(items.drop_last()[i] == items[i]);
    }
}

/// An agent's identity is loaded from its files as it is checked: a chain, a key that
/// only its owner can get at, and authorities that can vouch for others.
pub proof fn agent_identities_are_loaded_from_their_files(
    key_mode: Option<u32>,
    ca: &[u8],
    cert: &[u8],
    key: &[u8],
    r: Result<AgentTls, AgentTlsFault>,
    i: int,
)
    requires
        call_ensures(load_agent_tls, (key_mode, ca, cert, key), r),
    ensures
        key_mode is Some && key_mode->0 % 64 != 0 ==> (r matches Err(e) && e
            == AgentTlsFault::KeyExposed),
        r matches Ok(tls) ==> {
            let authorities = crate::pem::pemfile_certificates(ca@);
            let chain = crate::pem::pemfile_certificates(cert@);
            &&& authorities.len() > 0 && tls.authorities@.len() == authorities.len()
            &&& chain.len() > 0 && tls.chain@.len() == chain.len()
            &&& 0 <= i < authorities.len() ==> Some(tls.authorities@[i]@) == authorities[i]
                && crate::pem::trust_anchor(tls.authorities@[i]@)
            &&& 0 <= i < chain.len() ==> Some(tls.chain@[i]@) == chain[i]
            &&& crate::pem::pemfile_key(key@) == Some(Some(tls.key@))
        },
{
    match r {
        Ok(tls) => {
            let authorities = crate::pem::pemfile_certificates(ca@);
            let judged = crate::cli::judged_authorities(authorities);
            let chain = crate::pem::pemfile_certificates(cert@);
            assert(crate::cli::tls_verdict(r) == Ok::<_, AgentTlsFault>(tls@));
            assert(judged.len() == authorities.len());
            assert(tls@.authorities == crate::cli::all_authorities(judged));
            assert(tls@.chain == crate::pem::whole(chain));
            assert(crate::bytes::byte_views(tls.authorities@).len() == tls.authorities@.len());
            assert(crate::bytes::byte_views(tls.chain@).len() == tls.chain@.len());
            if 0 <= i < authorities.len() {
                trusted_authorities(judged, i);
                assert(judged[i].0 == authorities[i]);
                assert(crate::bytes::byte_views(tls.authorities@)[i] == tls.authorities@[i]@);
                assert(crate::cli::all_authorities(judged)[i] == judged[i].0->0);
            }
            if 0 <= i < chain.len() {
                assert(crate::bytes::byte_views(tls.chain@)[i] == tls.chain@[i]@);
                assert(crate::pem::whole(chain)[i] == chain[i]->0);
                assert(chain[i] is Some);
            }
        },
        Err(_) => {},
    }
}

/// What an argument or an agent lacks is told by name.
pub proof fn missing_values_are_told(e: &CliError, r: String)
    requires
        call_ensures(CliError::text, (e,), r),
    ensures
        e matches CliError::Needs { flag: Flag::Bind, second: false } ==> r@
            == "--bind needs an address"@,
        e matches CliError::Needs { flag: Flag::WebRoot, second: false } ==> r@
            == "--web-root needs a path"@,
        e matches CliError::Needs { flag: Flag::SshAuth, second: false } ==> r@
            == "--ssh-auth needs a username"@,
        e matches CliError::Needs { flag: Flag::PasswordAuth, second: false } ==> r@
            == "--password-auth needs a username"@,
        e matches CliError::Needs { flag: Flag::PamService, second: false } ==> r@
            == "--pam-service needs a service name"@,
        e matches CliError::Needs { flag: Flag::WtBind, second: false } ==> r@
            == "--wt-bind needs a UDP address"@,
        e matches CliError::Needs { flag: Flag::WtCert, second: false } ==> r@
            == "--wt-cert needs a PEM path"@,
        e matches CliError::Needs { flag: Flag::WtKey, second: false } ==> r@
            == "--wt-key needs a PEM path"@,
        e matches CliError::Needs { flag: Flag::GrantKey, second: false } ==> r@
            == "--grant-key needs a path"@,
        e matches CliError::Needs { flag: Flag::AllowedOrigin, second: false } ==> r@
            == "--allowed-origin needs a value"@,
        e matches CliError::Needs { flag: Flag::Account, second: false } ==> r@
            == "--account needs a username"@,
        e matches CliError::Needs { flag: Flag::ShellMaxProcesses, second: false } ==> r@
            == "--shell-max-processes needs a value"@,
        e matches CliError::Needs { flag: Flag::ShellMaxOpenFiles, second: false } ==> r@
            == "--shell-max-open-files needs a value"@,
        e matches CliError::Needs { flag: Flag::ShellMaxCoreBytes, second: false } ==> r@
            == "--shell-max-core-bytes needs a value"@,
        e matches CliError::Needs { flag: Flag::ShellIdleTtl, second: false } ==> r@
            == "--shell-idle-ttl needs seconds"@,
        e matches CliError::Needs { flag: Flag::ServerId, second: false } ==> r@
            == "--server-id needs srv_<hex>"@,
        e matches CliError::Needs { flag: Flag::Gateway, second: false } ==> r@
            == "--gateway needs an address"@,
        e matches CliError::Needs { flag: Flag::GatewayName, second: false } ==> r@
            == "--gateway-name needs a TLS DNS name"@,
        e matches CliError::Needs { flag: Flag::AgentCa, second: false } ==> r@
            == "--agent-ca needs a PEM path"@,
        e matches CliError::Needs { flag: Flag::AgentCert, second: false } ==> r@
            == "--agent-cert needs a PEM path"@,
        e matches CliError::Needs { flag: Flag::AgentKey, second: false } ==> r@
            == "--agent-key needs a PEM path"@,
        e matches CliError::Needs { flag: Flag::GrantVerifyKey, second: false } ==> r@
            == "--grant-verify-key needs a path"@,
        e matches CliError::Needs { flag: Flag::GrantAudience, second: false } ==> r@
            == "--grant-audience needs a value"@,
        e matches CliError::AgentRequires { flag: Flag::Gateway } ==> r@
            == "--agent requires --gateway <address>"@,
        e matches CliError::AgentRequires { flag: Flag::GatewayName } ==> r@
            == "--agent requires --gateway-name <TLS DNS name>"@,
        e matches CliError::AgentRequires { flag: Flag::ServerId } ==> r@
            == "--agent requires --server-id <srv_hex>"@,
        e matches CliError::AgentRequires { flag: Flag::AgentCa } ==> r@
            == "--agent requires --agent-ca <PEM>"@,
        e matches CliError::AgentRequires { flag: Flag::AgentCert } ==> r@
            == "--agent requires --agent-cert <PEM>"@,
        e matches CliError::AgentRequires { flag: Flag::AgentKey } ==> r@
            == "--agent requires --agent-key <PEM>"@,
        e matches CliError::AgentRequires { flag: Flag::GrantVerifyKey } ==> r@
            == "--agent requires --grant-verify-key <32-byte-hex file>"@,
        e matches CliError::Unknown { arg } ==> "unknown argument: "@.len() + arg@.len() <= r@.len()
            && r@.take(("unknown argument: "@.len() + arg@.len()) as int) == "unknown argument: "@
            + arg@,
        e is NoAccountPolicy ==> r@
            == "--drop-privileges requires at least one --account <user> <accounts> mapping (otherwise any authenticated user could run a shell as any account)"@,
{
    match e {
        CliError::Unknown { arg } => {
            let head = "unknown argument: "@ + arg@;
            assert(r@.take(head.len() as int) =~= head);
        },
        _ => {},
    }
}

/// Of what is wrong with an agent's identity the first is told: its authorities in order,
/// then its chain, then its key.
pub proof fn agent_identity_faults_are_told(
    authorities: Vec<(Option<Vec<u8>>, bool)>,
    chain: Vec<Option<Vec<u8>>>,
    key: Option<Option<PrivateKey>>,
    r: Result<AgentTls, AgentTlsFault>,
    k: int,
)
    requires
        call_ensures(check_agent_tls, (None::<u32>, authorities, chain, key), r),
        authorities@.len() == 1,
        0 <= k < chain@.len() || chain@.len() == 0,
    ensures
        authorities@[0].0 is None ==> (r matches Err(e) && e == AgentTlsFault::MalformedAuthority),
        authorities@[0].0 is Some && !authorities@[0].1 ==> (r matches Err(e) && e
            == AgentTlsFault::RefusedAuthority),
        authorities@[0].0 is Some && authorities@[0].1 ==> {
            &&& chain@.len() == 0 ==> (r matches Err(e) && e == AgentTlsFault::NoCertificate)
            &&& chain@.len() > 0 && chain@[k] is None ==> (r matches Err(e) && e
                == AgentTlsFault::MalformedCertificate)
            &&& chain@.len() > 0 && (forall|i: int|
                0 <= i < chain@.len() ==> (#[trigger] chain@[i]) is Some) ==> {
                &&& key is None ==> (r matches Err(e) && e == AgentTlsFault::MalformedKey)
                &&& key is Some && key->0 is None ==> (r matches Err(e) && e
                    == AgentTlsFault::NoKey)
                &&& key is Some && key->0 is Some ==> r is Ok
            }
        },
{
    let judged = crate::cli::authority_views(authorities@);
    let items = crate::pem::item_views(chain@);
    assert(judged.len() == 1);
    assert(judged[0] == (crate::pem::item_view(authorities@[0].0), authorities@[0].1));
    reveal_with_fuel(crate::cli::authority_fault, 2);
    assert(judged.drop_last().len() == 0);
    assert(judged.last() == judged[0]);
    assert(items.len() == chain@.len());
    assert(forall|i: int| 0 <= i < items.len() ==> items[i] == crate::pem::item_view(chain@[i]));
    if chain@.len() > 0 && chain@[k] is None {
        assert(items[k] is None);
        assert(!crate::pem::all_read(items));
    }
    if forall|i: int| 0 <= i < chain@.len() ==> (#[trigger] chain@[i]) is Some {
        assert(crate::pem::all_read(items));
    }
}

} // verus!
