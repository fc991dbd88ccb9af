//! The command line of the daemon: which arguments it takes, what they set, and
//! what the whole of them amounts to.

use std::collections::VecDeque;

use vstd::prelude::*;
use vstd::string::*;
use vstd::utf8::*;

use crate::assoc::{as_map, put, texted, unique};
use crate::bytes::{byte_views, copy_bytes};
use crate::daemon::{AuthConfig, DaemonConfig, PasswordAuthConfig, LOOPBACK_V4};
use crate::ids::{server_bytes, ServerId};
use crate::net::{IpAddr, SocketAddr};
use crate::pam::{service_name, PamVerifier, DEFAULT_PAM_SERVICE};
use crate::parse::{entries_of, number, number_fault, parse_u64, split_list, NumberFault};
use crate::pem::{
    all_read, is_anchor, item_view, item_views, key_view, pemfile_certificates, pemfile_key,
    read_file_certificates, read_file_key, take_all, trust_anchor, whole, KeyView, PrivateKey,
};
use crate::text::{among, contains, push_text, same, texts};

verus! {

/// Where WebTransport is served where nothing else is asked for.
pub const DEFAULT_WEBTRANSPORT_PORT: u16 = 4433;

/// The arguments that have a meaning.
#[derive(Debug, Clone, Copy, PartialEq, Eq, Structural)]
pub enum Flag {
    Bind,
    WebRoot,
    SshAuth,
    PasswordAuth,
    PamService,
    WtBind,
    WtCert,
    WtKey,
    NoWebtransport,
    GrantKey,
    AllowedOrigin,
    Account,
    DropPrivileges,
    ShellMaxProcesses,
    ShellMaxOpenFiles,
    ShellMaxCoreBytes,
    ShellIdleTtl,
    ServerId,
    Agent,
    Gateway,
    GatewayName,
    AgentCa,
    AgentCert,
    AgentKey,
    GrantVerifyKey,
    GrantAudience,
}

impl Flag {
    /// How the argument is written.
    pub open spec fn name(self) -> Seq<char> {
        match self {
            Flag::Bind => "--bind"@,
            Flag::WebRoot => "--web-root"@,
            Flag::SshAuth => "--ssh-auth"@,
            Flag::PasswordAuth => "--password-auth"@,
            Flag::PamService => "--pam-service"@,
            Flag::WtBind => "--wt-bind"@,
            Flag::WtCert => "--wt-cert"@,
            Flag::WtKey => "--wt-key"@,
            Flag::NoWebtransport => "--no-webtransport"@,
            Flag::GrantKey => "--grant-key"@,
            Flag::AllowedOrigin => "--allowed-origin"@,
            Flag::Account => "--account"@,
            Flag::DropPrivileges => "--drop-privileges"@,
            Flag::ShellMaxProcesses => "--shell-max-processes"@,
            Flag::ShellMaxOpenFiles => "--shell-max-open-files"@,
            Flag::ShellMaxCoreBytes => "--shell-max-core-bytes"@,
            Flag::ShellIdleTtl => "--shell-idle-ttl"@,
            Flag::ServerId => "--server-id"@,
            Flag::Agent => "--agent"@,
            Flag::Gateway => "--gateway"@,
            Flag::GatewayName => "--gateway-name"@,
            Flag::AgentCa => "--agent-ca"@,
            Flag::AgentCert => "--agent-cert"@,
            Flag::AgentKey => "--agent-key"@,
            Flag::GrantVerifyKey => "--grant-verify-key"@,
            Flag::GrantAudience => "--grant-audience"@,
        }
    }

    /// Whether the argument is only for a daemon that can be an agent.
    pub open spec fn for_agents(self) -> bool {
        match self {
            Flag::Agent => true,
            Flag::Gateway => true,
            Flag::GatewayName => true,
            Flag::AgentCa => true,
            Flag::AgentCert => true,
            Flag::AgentKey => true,
            Flag::GrantVerifyKey => true,
            Flag::GrantAudience => true,
            _ => false,
        }
    }

    /// How many values follow the argument.
    pub open spec fn values(self) -> nat {
        match self {
            Flag::NoWebtransport | Flag::DropPrivileges | Flag::Agent => 0,
            Flag::SshAuth | Flag::Account => 2,
            _ => 1,
        }
    }

    fn count(self) -> (r: usize)
        ensures
            r == self.values(),
    {
        match self {
            Flag::NoWebtransport | Flag::DropPrivileges | Flag::Agent => 0,
            Flag::SshAuth | Flag::Account => 2,
            _ => 1,
        }
    }

    fn only_for_agents(self) -> (r: bool)
        ensures
            r == self.for_agents(),
    {
        match self {
            Flag::Agent => true,
            Flag::Gateway => true,
            Flag::GatewayName => true,
            Flag::AgentCa => true,
            Flag::AgentCert => true,
            Flag::AgentKey => true,
            Flag::GrantVerifyKey => true,
            Flag::GrantAudience => true,
            _ => false,
        }
    }

    /// What is said where the argument's first value is missing.
    pub open spec fn needs_text(self) -> Seq<char> {
        match self {
            Flag::Bind => "--bind needs an address"@,
            Flag::WebRoot => "--web-root needs a path"@,
            Flag::SshAuth => "--ssh-auth needs a username"@,
            Flag::PasswordAuth => "--password-auth needs a username"@,
            Flag::PamService => "--pam-service needs a service name"@,
            Flag::WtBind => "--wt-bind needs a UDP address"@,
            Flag::WtCert => "--wt-cert needs a PEM path"@,
            Flag::WtKey => "--wt-key needs a PEM path"@,
            Flag::NoWebtransport => ""@,
            Flag::GrantKey => "--grant-key needs a path"@,
            Flag::AllowedOrigin => "--allowed-origin needs a value"@,
            Flag::Account => "--account needs a username"@,
            Flag::DropPrivileges => ""@,
            Flag::ShellMaxProcesses => "--shell-max-processes needs a value"@,
            Flag::ShellMaxOpenFiles => "--shell-max-open-files needs a value"@,
            Flag::ShellMaxCoreBytes => "--shell-max-core-bytes needs a value"@,
            Flag::ShellIdleTtl => "--shell-idle-ttl needs seconds"@,
            Flag::ServerId => "--server-id needs srv_<hex>"@,
            Flag::Agent => ""@,
            Flag::Gateway => "--gateway needs an address"@,
            Flag::GatewayName => "--gateway-name needs a TLS DNS name"@,
            Flag::AgentCa => "--agent-ca needs a PEM path"@,
            Flag::AgentCert => "--agent-cert needs a PEM path"@,
            Flag::AgentKey => "--agent-key needs a PEM path"@,
            Flag::GrantVerifyKey => "--grant-verify-key needs a path"@,
            Flag::GrantAudience => "--grant-audience needs a value"@,
        }
    }

    fn needs(self) -> (r: &'static str)
        ensures
            r@ == self.needs_text(),
    {
        match self {
            Flag::Bind => "--bind needs an address",
            Flag::WebRoot => "--web-root needs a path",
            Flag::SshAuth => "--ssh-auth needs a username",
            Flag::PasswordAuth => "--password-auth needs a username",
            Flag::PamService => "--pam-service needs a service name",
            Flag::WtBind => "--wt-bind needs a UDP address",
            Flag::WtCert => "--wt-cert needs a PEM path",
            Flag::WtKey => "--wt-key needs a PEM path",
            Flag::NoWebtransport => "",
            Flag::GrantKey => "--grant-key needs a path",
            Flag::AllowedOrigin => "--allowed-origin needs a value",
            Flag::Account => "--account needs a username",
            Flag::DropPrivileges => "",
            Flag::ShellMaxProcesses => "--shell-max-processes needs a value",
            Flag::ShellMaxOpenFiles => "--shell-max-open-files needs a value",
            Flag::ShellMaxCoreBytes => "--shell-max-core-bytes needs a value",
            Flag::ShellIdleTtl => "--shell-idle-ttl needs seconds",
            Flag::ServerId => "--server-id needs srv_<hex>",
            Flag::Agent => "",
            Flag::Gateway => "--gateway needs an address",
            Flag::GatewayName => "--gateway-name needs a TLS DNS name",
            Flag::AgentCa => "--agent-ca needs a PEM path",
            Flag::AgentCert => "--agent-cert needs a PEM path",
            Flag::AgentKey => "--agent-key needs a PEM path",
            Flag::GrantVerifyKey => "--grant-verify-key needs a path",
            Flag::GrantAudience => "--grant-audience needs a value",
        }
    }

    /// How the argument is written.
    pub fn as_text(self) -> (r: &'static str)
        ensures
            r@ == self.name(),
    {
        match self {
            Flag::Bind => "--bind",
            Flag::WebRoot => "--web-root",
            Flag::SshAuth => "--ssh-auth",
            Flag::PasswordAuth => "--password-auth",
            Flag::PamService => "--pam-service",
            Flag::WtBind => "--wt-bind",
            Flag::WtCert => "--wt-cert",
            Flag::WtKey => "--wt-key",
            Flag::NoWebtransport => "--no-webtransport",
            Flag::GrantKey => "--grant-key",
            Flag::AllowedOrigin => "--allowed-origin",
            Flag::Account => "--account",
            Flag::DropPrivileges => "--drop-privileges",
            Flag::ShellMaxProcesses => "--shell-max-processes",
            Flag::ShellMaxOpenFiles => "--shell-max-open-files",
            Flag::ShellMaxCoreBytes => "--shell-max-core-bytes",
            Flag::ShellIdleTtl => "--shell-idle-ttl",
            Flag::ServerId => "--server-id",
            Flag::Agent => "--agent",
            Flag::Gateway => "--gateway",
            Flag::GatewayName => "--gateway-name",
            Flag::AgentCa => "--agent-ca",
            Flag::AgentCert => "--agent-cert",
            Flag::AgentKey => "--agent-key",
            Flag::GrantVerifyKey => "--grant-verify-key",
            Flag::GrantAudience => "--grant-audience",
        }
    }
}

/// The argument that a text is.
pub fn flag_of(arg: &str) -> (r: Option<Flag>)
    ensures
        r matches Some(f) ==> f.name() == arg@,
        r is None ==> forall|f: Flag| #![trigger f.name()] f.name() != arg@,
{
    if same(arg, "--bind") {
        Some(Flag::Bind)
    } else if same(arg, "--web-root") {
        Some(Flag::WebRoot)
    } else if same(arg, "--ssh-auth") {
        Some(Flag::SshAuth)
    } else if same(arg, "--password-auth") {
        Some(Flag::PasswordAuth)
    } else if same(arg, "--pam-service") {
        Some(Flag::PamService)
    } else if same(arg, "--wt-bind") {
        Some(Flag::WtBind)
    } else if same(arg, "--wt-cert") {
        Some(Flag::WtCert)
    } else if same(arg, "--wt-key") {
        Some(Flag::WtKey)
    } else if same(arg, "--no-webtransport") {
        Some(Flag::NoWebtransport)
    } else if same(arg, "--grant-key") {
        Some(Flag::GrantKey)
    } else if same(arg, "--allowed-origin") {
        Some(Flag::AllowedOrigin)
    } else if same(arg, "--account") {
        Some(Flag::Account)
    } else if same(arg, "--drop-privileges") {
        Some(Flag::DropPrivileges)
    } else if same(arg, "--shell-max-processes") {
        Some(Flag::ShellMaxProcesses)
    } else if same(arg, "--shell-max-open-files") {
        Some(Flag::ShellMaxOpenFiles)
    } else if same(arg, "--shell-max-core-bytes") {
        Some(Flag::ShellMaxCoreBytes)
    } else if same(arg, "--shell-idle-ttl") {
        Some(Flag::ShellIdleTtl)
    } else if same(arg, "--server-id") {
        Some(Flag::ServerId)
    } else if same(arg, "--agent") {
        Some(Flag::Agent)
    } else if same(arg, "--gateway") {
        Some(Flag::Gateway)
    } else if same(arg, "--gateway-name") {
        Some(Flag::GatewayName)
    } else if same(arg, "--agent-ca") {
        Some(Flag::AgentCa)
    } else if same(arg, "--agent-cert") {
        Some(Flag::AgentCert)
    } else if same(arg, "--agent-key") {
        Some(Flag::AgentKey)
    } else if same(arg, "--grant-verify-key") {
        Some(Flag::GrantVerifyKey)
    } else if same(arg, "--grant-audience") {
        Some(Flag::GrantAudience)
    } else {
        None
    }
}

/// What one argument asks for, with its values.
#[derive(Debug, Clone, PartialEq, Eq)]
pub enum Setting {
    /// The address that a text spells.
    Address { flag: Flag, text: String },
    /// The keys of a user, which stand in a file.
    SshKeys { user: String, path: String },
    /// The signing key that stands in a file.
    GrantKey { path: String },
    /// A value that stands for itself.
    Text { flag: Flag, value: String },
    /// A number.
    Number { flag: Flag, value: u64 },
    /// The accounts of a user.
    Account { user: String, accounts: String },
    /// The server's identity.
    Server { text: String },
    /// Something that takes no value.
    Plain { flag: Flag },
}

/// Why the command line is refused.
#[derive(Debug, Clone, PartialEq, Eq)]
pub enum CliError {
    /// A value is missing: the first one, or the second.
    Needs { flag: Flag, second: bool },
    /// A value is no number.
    NotANumber { flag: Flag, fault: NumberFault },
    /// A number must not be zero.
    Zero { flag: Flag },
    /// A value is no server's identity.
    NotAServer,
    /// A user gets no account.
    NoAccounts { user: String },
    /// The daemon cannot be an agent.
    NoAgentMode,
    /// There is no such argument.
    Unknown { arg: String },
    /// A PAM service that nobody uses.
    PamServiceAlone,
    /// The name of the PAM service is refused.
    PamServiceName,
    /// Every user could run shells as anybody.
    NoAccountPolicy,
    /// An agent needs another argument.
    AgentRequires { flag: Flag },
}

/// Whether an argument's value stands for itself.
pub open spec fn is_text_flag(flag: Flag) -> bool {
    match flag {
        Flag::WebRoot | Flag::PasswordAuth | Flag::PamService | Flag::WtCert | Flag::WtKey
        | Flag::AllowedOrigin | Flag::GatewayName | Flag::AgentCa | Flag::AgentCert
        | Flag::AgentKey | Flag::GrantVerifyKey | Flag::GrantAudience => true,
        _ => false,
    }
}

/// Whether an argument's value is an address.
pub open spec fn is_address_flag(flag: Flag) -> bool {
    flag is Bind || flag is WtBind || flag is Gateway
}

/// Whether an argument's value is a number.
pub open spec fn is_number_flag(flag: Flag) -> bool {
    flag is ShellMaxProcesses || flag is ShellMaxOpenFiles || flag is ShellMaxCoreBytes
        || flag is ShellIdleTtl
}

/// What an argument asks for, given the values that follow it.
pub open spec fn setting_of(flag: Flag, values: Seq<String>) -> Result<Setting, CliError> {
    if flag.values() >= 1 && values.len() == 0 {
        Err(CliError::Needs { flag, second: false })
    } else if flag.values() >= 2 && values.len() == 1 {
        Err(CliError::Needs { flag, second: true })
    } else if is_text_flag(flag) {
        Ok(Setting::Text { flag, value: values[0] })
    } else if is_address_flag(flag) {
        Ok(Setting::Address { flag, text: values[0] })
    } else if is_number_flag(flag) {
        match number(values[0]@) {
            None => Err(CliError::NotANumber { flag, fault: number_fault(values[0]@) }),
            Some(value) => if value == 0 && flag != Flag::ShellMaxCoreBytes {
                Err(CliError::Zero { flag })
            } else {
                Ok(Setting::Number { flag, value })
            },
        }
    } else if flag is SshAuth {
        Ok(Setting::SshKeys { user: values[0], path: values[1] })
    } else if flag is GrantKey {
        Ok(Setting::GrantKey { path: values[0] })
    } else if flag is Account {
        if entries_of(values[1]@).len() == 0 {
            Err(CliError::NoAccounts { user: values[0] })
        } else {
            Ok(Setting::Account { user: values[0], accounts: values[1] })
        }
    } else if flag is ServerId {
        if server_bytes(encode_utf8(values[0]@)) is Some {
            Ok(Setting::Server { text: values[0] })
        } else {
            Err(CliError::NotAServer)
        }
    } else {
        Ok(Setting::Plain { flag })
    }
}

/// What the next argument asks for.
pub open spec fn next_setting(args: Seq<String>, agent_mode: bool, r: Result<Setting, CliError>) -> bool {
    if exists|f: Flag| #[trigger] f.name() == args[0]@ {
        exists|f: Flag|
            {
                &&& #[trigger] f.name() == args[0]@
                &&& if f.for_agents() && !agent_mode {
                    r == Err::<Setting, CliError>(
                        if f is Agent {
                            CliError::NoAgentMode
                        } else {
                            CliError::Unknown { arg: args[0] }
                        },
                    )
                } else {
                    r == setting_of(f, args.skip(1))
                }
            }
    } else {
        r == Err::<Setting, CliError>(CliError::Unknown { arg: args[0] })
    }
}

/// How many texts an argument takes, itself one of them.
pub open spec fn setting_size(s: Setting) -> nat {
    match s {
        Setting::Plain { .. } => 1,
        Setting::SshKeys { .. } | Setting::Account { .. } => 3,
        _ => 2,
    }
}

fn read_number(flag: Flag, text: &str) -> (r: Result<Setting, CliError>)
    requires
        is_number_flag(flag),
    ensures
        r == (match number(text@) {
            None => Err::<Setting, CliError>(
                CliError::NotANumber { flag, fault: number_fault(text@) },
            ),
            Some(value) => if value == 0 && flag != Flag::ShellMaxCoreBytes {
                Err(CliError::Zero { flag })
            } else {
                Ok(Setting::Number { flag, value })
            },
        }),
{
    match parse_u64(text) {
        Err(fault) => Err(CliError::NotANumber { flag, fault }),
        Ok(value) => if value == 0 && flag != Flag::ShellMaxCoreBytes {
            Err(CliError::Zero { flag })
        } else {
            Ok(Setting::Number { flag, value })
        },
    }
}

/// Takes the next argument with its values, and says what it asks for.
pub fn read_setting(args: &mut VecDeque<String>, agent_mode: bool) -> (r: Result<Setting, CliError>)
    requires
        old(args)@.len() > 0,
    ensures
        next_setting(old(args)@, agent_mode, r),
        r matches Ok(s) ==> final(args)@ == old(args)@.skip(setting_size(s) as int),
{
    let ghost all = args@;
    let arg: String = match args.pop_front() {
        Some(a) => a,
        None => {
            return Err(CliError::NoAgentMode);
        },
    };
    let flag: Flag = match flag_of(arg.as_str()) {
        Some(f) => f,
        None => {
            return Err(CliError::Unknown { arg });
        },
    };
    assert(flag.name() == all[0]@);
    assert(args@ =~= all.skip(1));
    if flag.only_for_agents() && !agent_mode {
        return match flag {
            Flag::Agent => Err(CliError::NoAgentMode),
            _ => Err(CliError::Unknown { arg }),
        };
    }
    let values: usize = flag.count();
    if values == 0 {
        return Ok(Setting::Plain { flag });
    }
    let first: String = match args.pop_front() {
        Some(v) => v,
        None => {
            return Err(CliError::Needs { flag, second: false });
        },
    };
    assert(args@ =~= all.skip(2));
    assert(first == all.skip(1)[0]);
    if values == 2 {
        let second: String = match args.pop_front() {
            Some(v) => v,
            None => {
                return Err(CliError::Needs { flag, second: true });
            },
        };
        assert(args@ =~= all.skip(3));
        assert(second == all.skip(1)[1]);
        return match flag {
            Flag::SshAuth => Ok(Setting::SshKeys { user: first, path: second }),
            _ => {
                let list: Vec<String> = split_list(second.as_str());
                assert(texts(list@).len() == list@.len());
                if list.len() == 0 {
                    Err(CliError::NoAccounts { user: first })
                } else {
                    Ok(Setting::Account { user: first, accounts: second })
                }
            },
        };
    }
    match flag {
        Flag::Bind | Flag::WtBind | Flag::Gateway => Ok(Setting::Address { flag, text: first }),
        Flag::ShellMaxProcesses
        | Flag::ShellMaxOpenFiles
        | Flag::ShellMaxCoreBytes
        | Flag::ShellIdleTtl => read_number(flag, first.as_str()),
        Flag::GrantKey => Ok(Setting::GrantKey { path: first }),
        Flag::ServerId => {
            if ServerId::from_text(first.as_str()).is_some() {
                Ok(Setting::Server { text: first })
            } else {
                Err(CliError::NotAServer)
            }
        },
        _ => Ok(Setting::Text { flag, value: first }),
    }
}

/// What an agent is told on the command line.
#[derive(Debug, Clone, PartialEq, Eq)]
pub struct AgentCli {
    pub enabled: bool,
    pub gateway: Option<SocketAddr>,
    pub gateway_name: Option<String>,
    pub ca_path: Option<String>,
    pub cert_path: Option<String>,
    pub key_path: Option<String>,
    pub grant_verify_key_path: Option<String>,
    pub grant_audience: Option<String>,
}

/// What the arguments read so far have set.
pub struct Cli {
    pub config: DaemonConfig,
    pub password_users: Vec<String>,
    pub pam_service: Option<String>,
    pub agent: AgentCli,
}

/// The SSH users of a configuration, each with their text.
pub open spec fn ssh_users(auth: AuthConfig) -> Seq<(Seq<char>, String)> {
    match auth {
        AuthConfig::SshKeys { users } => texted(users@),
        AuthConfig::DevInsecure => Seq::empty(),
    }
}

/// The accounts of a configuration, by user.
pub open spec fn policy(accounts: Option<Vec<(String, Vec<String>)>>) -> Seq<(Seq<char>, Vec<String>)> {
    match accounts {
        Some(list) => texted(list@),
        None => Seq::empty(),
    }
}

/// What a value that stands for itself sets.
pub open spec fn text_applied(before: Cli, flag: Flag, value: String, after: Cli) -> bool {
    match flag {
        Flag::WebRoot => after == (Cli {
            config: DaemonConfig { web_root: Some(value), ..before.config },
            ..before
        }),
        Flag::PasswordAuth => {
            &&& after == (Cli { password_users: after.password_users, ..before })
            &&& after.password_users@ == (if among(before.password_users@, value@) {
                before.password_users@
            } else {
                before.password_users@.push(value)
            })
        },
        Flag::PamService => after == (Cli { pam_service: Some(value), ..before }),
        Flag::WtCert => after == (Cli {
            config: DaemonConfig { webtransport_certificate: Some(value), ..before.config },
            ..before
        }),
        Flag::WtKey => after == (Cli {
            config: DaemonConfig { webtransport_private_key: Some(value), ..before.config },
            ..before
        }),
        Flag::AllowedOrigin => {
            &&& after == (Cli {
                config: DaemonConfig {
                    allowed_origins: after.config.allowed_origins,
                    ..before.config
                },
                ..before
            })
            &&& after.config.allowed_origins is Some
            &&& after.config.allowed_origins->0@ == (match before.config.allowed_origins {
                Some(list) => list@.push(value),
                None => seq![value],
            })
        },
        Flag::GatewayName => after == (Cli {
            agent: AgentCli { gateway_name: Some(value), ..before.agent },
            ..before
        }),
        Flag::AgentCa => after == (Cli {
            agent: AgentCli { ca_path: Some(value), ..before.agent },
            ..before
        }),
        Flag::AgentCert => after == (Cli {
            agent: AgentCli { cert_path: Some(value), ..before.agent },
            ..before
        }),
        Flag::AgentKey => after == (Cli {
            agent: AgentCli { key_path: Some(value), ..before.agent },
            ..before
        }),
        Flag::GrantVerifyKey => after == (Cli {
            agent: AgentCli { grant_verify_key_path: Some(value), ..before.agent },
            ..before
        }),
        Flag::GrantAudience => after == (Cli {
            agent: AgentCli { grant_audience: Some(value), ..before.agent },
            ..before
        }),
        _ => after == before,
    }
}

/// What a number sets. The time that a shell may be left alone is given in
/// seconds, and kept in milliseconds as far as they can be counted.
pub open spec fn number_applied(before: Cli, flag: Flag, value: u64) -> Cli {
    let session = before.config.session;
    let changed = match flag {
        Flag::ShellMaxProcesses => crate::daemon::SessionConfig {
            max_processes: Some(value),
            ..session
        },
        Flag::ShellMaxOpenFiles => crate::daemon::SessionConfig {
            max_open_files: Some(value),
            ..session
        },
        Flag::ShellMaxCoreBytes => crate::daemon::SessionConfig {
            max_core_bytes: Some(value),
            ..session
        },
        Flag::ShellIdleTtl => crate::daemon::SessionConfig {
            idle_shell_ttl_ms: Some(
                if value > u64::MAX / 1000 {
                    u64::MAX
                } else {
                    (value * 1000) as u64
                },
            ),
            ..session
        },
        _ => session,
    };
    Cli { config: DaemonConfig { session: changed, ..before.config }, ..before }
}

/// What an argument without a value sets.
pub open spec fn plain_applied(before: Cli, flag: Flag) -> Cli {
    match flag {
        Flag::NoWebtransport => Cli {
            config: DaemonConfig { webtransport_bind: None, ..before.config },
            ..before
        },
        Flag::DropPrivileges => Cli {
            config: DaemonConfig {
                session: crate::daemon::SessionConfig {
                    privilege_drop: true,
                    ..before.config.session
                },
                ..before.config
            },
            ..before
        },
        Flag::Agent => Cli { agent: AgentCli { enabled: true, ..before.agent }, ..before },
        _ => before,
    }
}

/// What an argument sets that needs nothing from outside.
pub open spec fn applied(before: Cli, setting: Setting, after: Cli) -> bool {
    match setting {
        Setting::Text { flag, value } => text_applied(before, flag, value, after),
        Setting::Number { flag, value } => after == number_applied(before, flag, value),
        Setting::Plain { flag } => after == plain_applied(before, flag),
        Setting::Account { user, accounts } => {
            &&& after == (Cli {
                config: DaemonConfig {
                    account_policy: after.config.account_policy,
                    ..before.config
                },
                ..before
            })
            &&& after.config.account_policy is Some
            &&& exists|list: Vec<String>| #[trigger]
                texts(list@) == entries_of(accounts@) && as_map(
                    policy(after.config.account_policy),
                ) == as_map(policy(before.config.account_policy)).insert(user@, list)
        },
        Setting::Server { text } => {
            &&& after == (Cli {
                config: DaemonConfig { server_id: after.config.server_id, ..before.config },
                ..before
            })
            &&& after.config.server_id matches Some(id)
            &&& server_bytes(encode_utf8(text@)) == Some(id.0@)
        },
        _ => after == before,
    }
}

impl Cli {
    /// Whether no user is listed twice.
    pub open spec fn wf(&self) -> bool {
        unique(ssh_users(self.config.auth)) && unique(policy(self.config.account_policy))
    }

    /// Before any argument was read.
    pub fn new() -> (r: Cli)
        ensures
            r.wf(),
            call_ensures(DaemonConfig::default, (), r.config),
            r.password_users@ == Seq::<String>::empty(),
            r.pam_service is None,
            r.agent == (AgentCli {
                enabled: false,
                gateway: None,
                gateway_name: None,
                ca_path: None,
                cert_path: None,
                key_path: None,
                grant_verify_key_path: None,
                grant_audience: None,
            }),
    {
        Cli {
            config: DaemonConfig::default(),
            password_users: Vec::new(),
            pam_service: None,
            agent: AgentCli {
                enabled: false,
                gateway: None,
                gateway_name: None,
                ca_path: None,
                cert_path: None,
                key_path: None,
                grant_verify_key_path: None,
                grant_audience: None,
            },
        }
    }

    /// Sets what an argument asks for that needs nothing from outside.
    pub fn apply(&mut self, setting: Setting)
        requires
            old(self).wf(),
            setting matches Setting::Server { text } ==> server_bytes(encode_utf8(text@)) is Some,
        ensures
            final(self).wf(),
            applied(*old(self), setting, *final(self)),
    {
        match setting {
            Setting::Text { flag, value } => self.apply_text(flag, value),
            Setting::Number { flag, value } => self.apply_number(flag, value),
            Setting::Plain { flag } => match flag {
                Flag::NoWebtransport => {
                    self.config.webtransport_bind = None;
                },
                Flag::DropPrivileges => {
                    self.config.session.privilege_drop = true;
                },
                Flag::Agent => {
                    self.agent.enabled = true;
                },
                _ => {},
            },
            Setting::Account { user, accounts } => {
                let list: Vec<String> = split_list(accounts.as_str());
                let mut all: Vec<(String, Vec<String>)> = match self.config.account_policy.take() {
                    Some(p) => p,
                    None => Vec::new(),
                };
                assert(texted(all@) =~= policy(old(self).config.account_policy));
                put(&mut all, user, list);
                self.config.account_policy = Some(all);
                assert(texts(list@) == entries_of(accounts@));
            },
            Setting::Server { text } => {
                self.config.server_id = ServerId::from_text(text.as_str());
            },
            _ => {},
        }
    }

    fn apply_text(&mut self, flag: Flag, value: String)
        requires
            old(self).wf(),
        ensures
            final(self).wf(),
            text_applied(*old(self), flag, value, *final(self)),
    {
        match flag {
            Flag::WebRoot => {
                self.config.web_root = Some(value);
            },
            Flag::PasswordAuth => {
                if !contains(&self.password_users, value.as_str()) {
                    self.password_users.push(value);
                }
            },
            Flag::PamService => {
                self.pam_service = Some(value);
            },
            Flag::WtCert => {
                self.config.webtransport_certificate = Some(value);
            },
            Flag::WtKey => {
                self.config.webtransport_private_key = Some(value);
            },
            Flag::AllowedOrigin => {
                let mut list: Vec<String> = match self.config.allowed_origins.take() {
                    Some(l) => l,
                    None => Vec::new(),
                };
                list.push(value);
                assert(list@ =~= match old(self).config.allowed_origins {
                    Some(l) => l@.push(value),
                    None => seq![value],
                });
                self.config.allowed_origins = Some(list);
            },
            Flag::GatewayName => {
                self.agent.gateway_name = Some(value);
            },
            Flag::AgentCa => {
                self.agent.ca_path = Some(value);
            },
            Flag::AgentCert => {
                self.agent.cert_path = Some(value);
            },
            Flag::AgentKey => {
                self.agent.key_path = Some(value);
            },
            Flag::GrantVerifyKey => {
                self.agent.grant_verify_key_path = Some(value);
            },
            Flag::GrantAudience => {
                self.agent.grant_audience = Some(value);
            },
            _ => {},
        }
    }

    fn apply_number(&mut self, flag: Flag, value: u64)
        requires
            old(self).wf(),
        ensures
            final(self).wf(),
            *final(self) == number_applied(*old(self), flag, value),
    {
        match flag {
            Flag::ShellMaxProcesses => {
                self.config.session.max_processes = Some(value);
            },
            Flag::ShellMaxOpenFiles => {
                self.config.session.max_open_files = Some(value);
            },
            Flag::ShellMaxCoreBytes => {
                self.config.session.max_core_bytes = Some(value);
            },
            Flag::ShellIdleTtl => {
                self.config.session.idle_shell_ttl_ms = Some(
                    if value > u64::MAX / 1000 {
                        u64::MAX
                    } else {
                        value * 1000
                    },
                );
            },
            _ => {},
        }
    }

    /// Sets an address that was read from a text.
    pub fn set_address(&mut self, flag: Flag, address: SocketAddr)
        requires
            old(self).wf(),
        ensures
            final(self).wf(),
            *final(self) == (match flag {
                Flag::Bind => Cli {
                    config: DaemonConfig { bind: address, ..old(self).config },
                    ..*old(self)
                },
                Flag::WtBind => Cli {
                    config: DaemonConfig { webtransport_bind: Some(address), ..old(self).config },
                    ..*old(self)
                },
                Flag::Gateway => Cli {
                    agent: AgentCli { gateway: Some(address), ..old(self).agent },
                    ..*old(self)
                },
                _ => *old(self),
            }),
    {
        match flag {
            Flag::Bind => {
                self.config.bind = address;
            },
            Flag::WtBind => {
                self.config.webtransport_bind = Some(address);
            },
            Flag::Gateway => {
                self.agent.gateway = Some(address);
            },
            _ => {},
        }
    }

    /// Sets the keys of a user, which were read from a file. From then on nobody
    /// is let in without one.
    pub fn add_keys(&mut self, user: String, keys: String)
        requires
            old(self).wf(),
        ensures
            final(self).wf(),
            *final(self) == (Cli {
                config: DaemonConfig { auth: final(self).config.auth, ..old(self).config },
                ..*old(self)
            }),
            final(self).config.auth is SshKeys,
            as_map(ssh_users(final(self).config.auth)) == as_map(
                ssh_users(old(self).config.auth),
            ).insert(user@, keys),
    {
        let mut users: Vec<(String, String)> = Vec::new();
        if let AuthConfig::SshKeys { users: list } = &mut self.config.auth {
            std::mem::swap(&mut users, list);
        }
        assert(texted(users@) =~= ssh_users(old(self).config.auth));
        put(&mut users, user, keys);
        self.config.auth = AuthConfig::SshKeys { users };
    }

    /// Sets the signing key, which was read from a file.
    pub fn set_grant_key(&mut self, seed: [u8; 32])
        requires
            old(self).wf(),
        ensures
            final(self).wf(),
            *final(self) == (Cli {
                config: DaemonConfig { grant_signing_key: Some(seed), ..old(self).config },
                ..*old(self)
            }),
    {
        self.config.grant_signing_key = Some(seed);
    }
}

/// What an agent connects with.
#[derive(Debug, Clone)]
pub struct AgentPlan {
    /// Where it connects from: any address of the gateway's family.
    pub bind: SocketAddr,
    pub gateway: SocketAddr,
    pub gateway_name: String,
    pub server_id: ServerId,
    pub ca_path: String,
    pub cert_path: String,
    pub key_path: String,
    pub grant_verify_key_path: String,
    pub grant_audience: String,
    pub config: DaemonConfig,
}

/// What a command line amounts to.
#[derive(Debug, Clone)]
pub enum Plan {
    /// A daemon that clients reach, and the PAM service that checks passwords.
    Standalone { config: DaemonConfig, pam: Option<PamVerifier> },
    /// A daemon that connects to a gateway.
    Agent(AgentPlan),
}

impl Cli {
    /// The name of the PAM service that checks passwords.
    pub open spec fn service(self) -> Seq<char> {
        match self.pam_service {
            Some(s) => s@,
            None => DEFAULT_PAM_SERVICE@,
        }
    }

    /// The first argument that an agent lacks.
    pub open spec fn agent_lacks(self) -> Option<Flag> {
        if self.agent.gateway is None {
            Some(Flag::Gateway)
        } else if self.agent.gateway_name is None {
            Some(Flag::GatewayName)
        } else if self.config.server_id is None {
            Some(Flag::ServerId)
        } else if self.agent.ca_path is None {
            Some(Flag::AgentCa)
        } else if self.agent.cert_path is None {
            Some(Flag::AgentCert)
        } else if self.agent.key_path is None {
            Some(Flag::AgentKey)
        } else if self.agent.grant_verify_key_path is None {
            Some(Flag::GrantVerifyKey)
        } else if self.agent.grant_audience is None {
            Some(Flag::GrantAudience)
        } else {
            None
        }
    }

    /// Why the arguments are refused together.
    pub open spec fn fault(self) -> Option<CliError> {
        if self.pam_service is Some && self.password_users@.len() == 0 {
            Some(CliError::PamServiceAlone)
        } else if self.password_users@.len() > 0 && !service_name(encode_utf8(self.service())) {
            Some(CliError::PamServiceName)
        } else if self.config.session.privilege_drop && self.config.account_policy is None {
            Some(CliError::NoAccountPolicy)
        } else if self.agent.enabled && self.agent_lacks() is Some {
            Some(CliError::AgentRequires { flag: self.agent_lacks()->0 })
        } else {
            None
        }
    }

    /// Whether a configuration is what the arguments amount to: WebTransport gets
    /// a stable port where none was asked for, and with passwords nobody is let
    /// in without.
    pub open spec fn amounts_to(self, config: DaemonConfig) -> bool {
        &&& config == (DaemonConfig {
            webtransport_bind: config.webtransport_bind,
            auth: config.auth,
            password_auth: config.password_auth,
            ..self.config
        })
        &&& config.webtransport_bind == (if self.config.webtransport_bind == Some(
            SocketAddr { ip: IpAddr::V4(LOOPBACK_V4), port: 0 },
        ) {
            Some(SocketAddr { ip: IpAddr::V4(LOOPBACK_V4), port: DEFAULT_WEBTRANSPORT_PORT })
        } else {
            self.config.webtransport_bind
        })
        &&& if self.password_users@.len() == 0 {
            config.auth == self.config.auth && config.password_auth == self.config.password_auth
        } else {
            &&& config.password_auth == Some(PasswordAuthConfig { users: self.password_users })
            &&& if self.config.auth is DevInsecure {
                config.auth matches AuthConfig::SshKeys { users } && users@.len() == 0
            } else {
                config.auth == self.config.auth
            }
        }
    }

    /// What the arguments amount to, once all are read.
    pub fn finish(self) -> (r: Result<Plan, CliError>)
        ensures
            r is Ok <==> self.fault() is None,
            r matches Err(e) ==> self.fault() == Some(e),
            r matches Ok(Plan::Standalone { config, pam }) ==> {
                &&& !self.agent.enabled
                &&& self.amounts_to(config)
                &&& pam is Some <==> self.password_users@.len() > 0
                &&& pam matches Some(p) ==> p.name() == self.service()
            },
            r matches Ok(Plan::Agent(plan)) ==> {
                &&& self.agent.enabled
                &&& self.amounts_to(plan.config)
                &&& self.agent.gateway == Some(plan.gateway)
                &&& self.agent.gateway_name == Some(plan.gateway_name)
                &&& self.config.server_id == Some(plan.server_id)
                &&& self.agent.ca_path == Some(plan.ca_path)
                &&& self.agent.cert_path == Some(plan.cert_path)
                &&& self.agent.key_path == Some(plan.key_path)
                &&& self.agent.grant_verify_key_path == Some(plan.grant_verify_key_path)
                &&& self.agent.grant_audience == Some(plan.grant_audience)
                &&& plan.bind == (SocketAddr {
                    ip: if plan.gateway.ip is V4 {
                        IpAddr::V4(0)
                    } else {
                        IpAddr::V6(0)
                    },
                    port: 0,
                })
            },
    {
        let ghost start = self;
        let Cli { config, password_users, pam_service, agent } = self;
        let mut config = config;
        let unset: SocketAddr = SocketAddr { ip: IpAddr::V4(LOOPBACK_V4), port: 0 };
        match config.webtransport_bind {
            Some(bind) => {
                if bind == unset {
                    config.webtransport_bind = Some(
                        SocketAddr { ip: IpAddr::V4(LOOPBACK_V4), port: DEFAULT_WEBTRANSPORT_PORT },
                    );
                }
            },
            None => {},
        }
        if pam_service.is_some() && password_users.len() == 0 {
            return Err(CliError::PamServiceAlone);
        }
        let mut pam: Option<PamVerifier> = None;
        if password_users.len() > 0 {
            let checked: Result<PamVerifier, crate::pam::PamError> = match &pam_service {
                Some(s) => PamVerifier::new(s.as_str()),
                None => PamVerifier::new(DEFAULT_PAM_SERVICE),
            };
            match checked {
                Ok(p) => {
                    pam = Some(p);
                },
                Err(_) => {
                    return Err(CliError::PamServiceName);
                },
            }
            let open: bool = match &config.auth {
                AuthConfig::DevInsecure => true,
                AuthConfig::SshKeys { .. } => false,
            };
            if open {
                config.auth = AuthConfig::SshKeys { users: Vec::new() };
            }
            config.password_auth = Some(PasswordAuthConfig { users: password_users });
        }
        if config.session.privilege_drop && config.account_policy.is_none() {
            return Err(CliError::NoAccountPolicy);
        }
        assert(start.amounts_to(config));
        if !agent.enabled {
            return Ok(Plan::Standalone { config, pam });
        }
        let gateway: SocketAddr = match agent.gateway {
            Some(v) => v,
            None => {
                return Err(CliError::AgentRequires { flag: Flag::Gateway });
            },
        };
        let gateway_name: String = match agent.gateway_name {
            Some(v) => v,
            None => {
                return Err(CliError::AgentRequires { flag: Flag::GatewayName });
            },
        };
        let server_id: ServerId = match config.server_id {
            Some(v) => v,
            None => {
                return Err(CliError::AgentRequires { flag: Flag::ServerId });
            },
        };
        let ca_path: String = match agent.ca_path {
            Some(v) => v,
            None => {
                return Err(CliError::AgentRequires { flag: Flag::AgentCa });
            },
        };
        let cert_path: String = match agent.cert_path {
            Some(v) => v,
            None => {
                return Err(CliError::AgentRequires { flag: Flag::AgentCert });
            },
        };
        let key_path: String = match agent.key_path {
            Some(v) => v,
            None => {
                return Err(CliError::AgentRequires { flag: Flag::AgentKey });
            },
        };
        let grant_verify_key_path: String = match agent.grant_verify_key_path {
            Some(v) => v,
            None => {
                return Err(CliError::AgentRequires { flag: Flag::GrantVerifyKey });
            },
        };
        let grant_audience: String = match agent.grant_audience {
            Some(v) => v,
            None => {
                return Err(CliError::AgentRequires { flag: Flag::GrantAudience });
            },
        };
        let bind: SocketAddr = SocketAddr {
            ip: match gateway.ip {
                IpAddr::V4(_) => IpAddr::V4(0),
                IpAddr::V6(_) => IpAddr::V6(0),
            },
            port: 0,
        };
        Ok(
            Plan::Agent(
                AgentPlan {
                    bind,
                    gateway,
                    gateway_name,
                    server_id,
                    ca_path,
                    cert_path,
                    key_path,
                    grant_verify_key_path,
                    grant_audience,
                    config,
                },
            ),
        )
    }
}

/// Where shells run under other accounts, the accounts of every user are listed.
pub proof fn dropping_privileges_needs_a_policy(cli: Cli, config: DaemonConfig)
    requires
        cli.fault() is None,
        cli.amounts_to(config),
        config.session.privilege_drop,
    ensures
        config.account_policy is Some,
{
}

/// Asking for passwords is asking for a real login.
pub proof fn passwords_end_dev_auth(cli: Cli, config: DaemonConfig)
    requires
        cli.amounts_to(config),
        cli.password_users@.len() > 0,
    ensures
        config.auth is SshKeys,
{
}

/// What an agent is told that lacks an argument.
pub open spec fn requires_text(flag: Flag) -> Seq<char> {
    match flag {
        Flag::Gateway => "--agent requires --gateway <address>"@,
        Flag::GatewayName => "--agent requires --gateway-name <TLS DNS name>"@,
        Flag::ServerId => "--agent requires --server-id <srv_hex>"@,
        Flag::AgentCa => "--agent requires --agent-ca <PEM>"@,
        Flag::AgentCert => "--agent requires --agent-cert <PEM>"@,
        Flag::AgentKey => "--agent requires --agent-key <PEM>"@,
        Flag::GrantVerifyKey => "--agent requires --grant-verify-key <32-byte-hex file>"@,
        _ => "--agent requires --grant-audience <value>"@,
    }
}

/// The arguments that are named where one is unknown.
pub const SUPPORTED: &'static str =
    " (supported: --bind, --web-root, --ssh-auth <user> <keys>, --password-auth <user>, --pam-service <name>, --account <user> <accts>, --allowed-origin <origin>, --drop-privileges, --shell-max-processes <n>, --shell-max-open-files <n>, --shell-max-core-bytes <bytes>, --shell-idle-ttl <seconds>, --wt-bind, --wt-cert, --wt-key, --no-webtransport, --grant-key <path>, --server-id <srv_hex>)";

impl CliError {
    /// The error as a text.
    pub open spec fn spec_text(self) -> Seq<char> {
        match self {
            CliError::Needs { flag, second } => if !second {
                flag.needs_text()
            } else if flag is SshAuth {
                "--ssh-auth needs an authorized_keys path"@
            } else {
                "--account needs a comma-separated account list"@
            },
            CliError::NotANumber { fault, .. } => fault.spec_text(),
            CliError::Zero { flag } => if flag is ShellIdleTtl {
                "--shell-idle-ttl must be > 0 (omit the flag to disable)"@
            } else {
                flag.name() + " must be greater than zero"@
            },
            CliError::NotAServer => "--server-id: not srv_<hex>"@,
            CliError::NoAccounts { user } => "--account "@ + user@ + ": account list is empty"@,
            CliError::NoAgentMode => {
                "agent mode is not compiled in; rebuild with `--features agent-mode`"@
            },
            CliError::Unknown { arg } => "unknown argument: "@ + arg@ + SUPPORTED@,
            CliError::PamServiceAlone => {
                "--pam-service requires at least one --password-auth <user>"@
            },
            CliError::PamServiceName => "invalid PAM service name"@,
            CliError::NoAccountPolicy => {
                "--drop-privileges requires at least one --account <user> <accounts> mapping (otherwise any authenticated user could run a shell as any account)"@
            },
            CliError::AgentRequires { flag } => requires_text(flag),
        }
    }

    /// The error as a text.
    pub fn text(&self) -> (r: String)
        ensures
            r@ == self.spec_text(),
    {
        match self {
            CliError::Needs { flag, second } => if !*second {
                flag.needs().to_owned()
            } else {
                match flag {
                    Flag::SshAuth => "--ssh-auth needs an authorized_keys path".to_owned(),
                    _ => "--account needs a comma-separated account list".to_owned(),
                }
            },
            CliError::NotANumber { fault, .. } => fault.text().to_owned(),
            CliError::Zero { flag } => match flag {
                Flag::ShellIdleTtl => {
                    "--shell-idle-ttl must be > 0 (omit the flag to disable)".to_owned()
                },
                _ => {
                    let mut out: String = flag.as_text().to_owned();
                    push_text(&mut out, " must be greater than zero");
                    out
                },
            },
            CliError::NotAServer => "--server-id: not srv_<hex>".to_owned(),
            CliError::NoAccounts { user } => {
                let mut out: String = "--account ".to_owned();
                push_text(&mut out, user.as_str());
                push_text(&mut out, ": account list is empty");
                out
            },
            CliError::NoAgentMode => {
                "agent mode is not compiled in; rebuild with `--features agent-mode`".to_owned()
            },
            CliError::Unknown { arg } => {
                let mut out: String = "unknown argument: ".to_owned();
                push_text(&mut out, arg.as_str());
                push_text(&mut out, SUPPORTED);
                out
            },
            CliError::PamServiceAlone => {
                "--pam-service requires at least one --password-auth <user>".to_owned()
            },
            CliError::PamServiceName => "invalid PAM service name".to_owned(),
            CliError::NoAccountPolicy => {
                "--drop-privileges requires at least one --account <user> <accounts> mapping (otherwise any authenticated user could run a shell as any account)".to_owned()
            },
            CliError::AgentRequires { flag } => match flag {
                Flag::Gateway => "--agent requires --gateway <address>".to_owned(),
                Flag::GatewayName => "--agent requires --gateway-name <TLS DNS name>".to_owned(),
                Flag::ServerId => "--agent requires --server-id <srv_hex>".to_owned(),
                Flag::AgentCa => "--agent requires --agent-ca <PEM>".to_owned(),
                Flag::AgentCert => "--agent requires --agent-cert <PEM>".to_owned(),
                Flag::AgentKey => "--agent requires --agent-key <PEM>".to_owned(),
                Flag::GrantVerifyKey => {
                    "--agent requires --grant-verify-key <32-byte-hex file>".to_owned()
                },
                _ => "--agent requires --grant-audience <value>".to_owned(),
            },
        }
    }
}

/// Why the files of an agent's identity are refused.
#[derive(Debug, Clone, Copy, PartialEq, Eq, Structural)]
pub enum AgentTlsFault {
    /// Others than its owner can read or write the key.
    KeyExposed,
    MalformedAuthority,
    /// A certificate cannot vouch for others.
    RefusedAuthority,
    NoAuthority,
    MalformedCertificate,
    NoCertificate,
    MalformedKey,
    NoKey,
}

/// An agent's identity, and whom it trusts.
pub struct AgentTls {
    pub authorities: Vec<Vec<u8>>,
    pub chain: Vec<Vec<u8>>,
    pub key: PrivateKey,
}

/// What an [`AgentTls`] holds.
pub struct AgentTlsView {
    pub authorities: Seq<Seq<u8>>,
    pub chain: Seq<Seq<u8>>,
    pub key: KeyView,
}

impl View for AgentTls {
    type V = AgentTlsView;

    open spec fn view(&self) -> AgentTlsView {
        AgentTlsView {
            authorities: byte_views(self.authorities@),
            chain: byte_views(self.chain@),
            key: self.key@,
        }
    }
}

/// The first fault of the authorities, each with whether it can vouch for others.
pub open spec fn authority_fault(items: Seq<(Option<Seq<u8>>, bool)>) -> Option<AgentTlsFault>
    decreases items.len(),
{
    if items.len() == 0 {
        None
    } else if authority_fault(items.drop_last()) is Some {
        authority_fault(items.drop_last())
    } else if items.last().0 is None {
        Some(AgentTlsFault::MalformedAuthority)
    } else if !items.last().1 {
        Some(AgentTlsFault::RefusedAuthority)
    } else {
        None
    }
}

/// The authorities, where all were read.
pub open spec fn all_authorities(items: Seq<(Option<Seq<u8>>, bool)>) -> Seq<Seq<u8>> {
    Seq::new(items.len(), |i: int| items[i].0->0)
}

/// What the files of an agent's identity are worth: the mode of the key's file, where
/// files have one, the authorities, each with whether it can vouch for others, the
/// chain, and the key.
pub open spec fn agent_tls_checked(
    key_mode: Option<u32>,
    authorities: Seq<(Option<Seq<u8>>, bool)>,
    chain: Seq<Option<Seq<u8>>>,
    key: Option<Option<KeyView>>,
) -> Result<AgentTlsView, AgentTlsFault> {
    if key_mode is Some && key_mode->0 % 64 != 0 {
        Err(AgentTlsFault::KeyExposed)
    } else if authority_fault(authorities) is Some {
        Err(authority_fault(authorities)->0)
    } else if authorities.len() == 0 {
        Err(AgentTlsFault::NoAuthority)
    } else if !all_read(chain) {
        Err(AgentTlsFault::MalformedCertificate)
    } else if chain.len() == 0 {
        Err(AgentTlsFault::NoCertificate)
    } else {
        match key {
            None => Err(AgentTlsFault::MalformedKey),
            Some(None) => Err(AgentTlsFault::NoKey),
            Some(Some(key)) => Ok(
                AgentTlsView {
                    authorities: all_authorities(authorities),
                    chain: whole(chain),
                    key,
                },
            ),
        }
    }
}

/// Authorities that were read, or not, each with whether it can vouch for others.
pub open spec fn authority_views(items: Seq<(Option<Vec<u8>>, bool)>) -> Seq<
    (Option<Seq<u8>>, bool),
> {
    Seq::new(items.len(), |i: int| (item_view(items[i].0), items[i].1))
}

/// The authorities of a file, each with whether it can vouch for others.
pub open spec fn judged_authorities(items: Seq<Option<Seq<u8>>>) -> Seq<(Option<Seq<u8>>, bool)> {
    Seq::new(items.len(), |i: int| (items[i], items[i] is Some && trust_anchor(items[i]->0)))
}

/// What a check of an agent's identity came to.
pub open spec fn tls_verdict(r: Result<AgentTls, AgentTlsFault>) -> Result<
    AgentTlsView,
    AgentTlsFault,
> {
    match r {
        Ok(tls) => Ok(tls@),
        Err(fault) => Err(fault),
    }
}

proof fn authority_fault_stays(items: Seq<(Option<Seq<u8>>, bool)>, n: int)
    requires
        0 <= n <= items.len(),
        authority_fault(items.take(n)) is Some,
    ensures
        authority_fault(items) == authority_fault(items.take(n)),
    decreases items.len(),
{
    if n < items.len() {
        assert(items.drop_last().take(n) =~= items.take(n));
        authority_fault_stays(items.drop_last(), n);
    } else {
        assert(items.take(n) =~= items);
    }
}

fn take_authorities(items: &Vec<(Option<Vec<u8>>, bool)>) -> (r: Result<Vec<Vec<u8>>, AgentTlsFault>)
    ensures
        match authority_fault(authority_views(items@)) {
            Some(fault) => r == Err::<Vec<Vec<u8>>, AgentTlsFault>(fault),
            None => r matches Ok(list) && list@.len() == items@.len() && byte_views(list@)
                == all_authorities(authority_views(items@)),
        },
{
    let ghost all = authority_views(items@);
    let mut list: Vec<Vec<u8>> = Vec::new();
    let mut i: usize = 0;
    assert(all.take(0) =~= Seq::empty());
    while i < items.len()
        invariant
            i <= items.len(),
            all == authority_views(items@),
            authority_fault(all.take(i as int)) is None,
            list@.len() == i,
            forall|k: int| 0 <= k < i ==> all[k].0 == Some((#[trigger] list@[k])@),
        decreases items.len() - i,
    {
        let ghost next = all.take(i + 1);
        proof {
            assert(next.drop_last() =~= all.take(i as int));
            assert(next.last() == (item_view(items@[i as int].0), items@[i as int].1));
        }
        match &items[i].0 {
            None => {
                proof {
                    authority_fault_stays(all, i + 1);
                }
                return Err(AgentTlsFault::MalformedAuthority);
            },
            Some(der) => {
                if !items[i].1 {
                    proof {
                        authority_fault_stays(all, i + 1);
                    }
                    return Err(AgentTlsFault::RefusedAuthority);
                }
                list.push(copy_bytes(der.as_slice()));
            },
        }
        i = i + 1;
    }
    proof {
        assert(all.take(i as int) =~= all);
        assert(byte_views(list@) =~= all_authorities(all)) by {
            assert forall|k: int| 0 <= k < list@.len() implies (#[trigger] list@[k])@ == all[k].0->0 by {
                assert(all[k].0 == Some(list@[k]@));
            }
        }
    }
    Ok(list)
}

/// Checks what the files of an agent's identity hold.
pub fn check_agent_tls(
    key_mode: Option<u32>,
    authorities: Vec<(Option<Vec<u8>>, bool)>,
    chain: Vec<Option<Vec<u8>>>,
    key: Option<Option<PrivateKey>>,
) -> (r: Result<AgentTls, AgentTlsFault>)
    ensures
        tls_verdict(r) == agent_tls_checked(
            key_mode,
            authority_views(authorities@),
            item_views(chain@),
            match key {
                Some(found) => Some(key_view(found)),
                None => None,
            },
        ),
{
    if let Some(mode) = key_mode {
        if mode % 64 != 0 {
            return Err(AgentTlsFault::KeyExposed);
        }
    }
    let authorities: Vec<Vec<u8>> = match take_authorities(&authorities) {
        Ok(list) => list,
        Err(fault) => {
            return Err(fault);
        },
    };
    if authorities.len() == 0 {
        return Err(AgentTlsFault::NoAuthority);
    }
    let chain: Vec<Vec<u8>> = match take_all(chain) {
        Some(list) => list,
        None => {
            return Err(AgentTlsFault::MalformedCertificate);
        },
    };
    if chain.len() == 0 {
        return Err(AgentTlsFault::NoCertificate);
    }
    match key {
        None => Err(AgentTlsFault::MalformedKey),
        Some(None) => Err(AgentTlsFault::NoKey),
        Some(Some(key)) => Ok(AgentTls { authorities, chain, key }),
    }
}

/// Reads an agent's identity, and whom it trusts, from what its files hold.
pub fn load_agent_tls(key_mode: Option<u32>, ca_pem: &[u8], cert_pem: &[u8], key_pem: &[u8]) -> (r:
    Result<AgentTls, AgentTlsFault>)
    ensures
        tls_verdict(r) == agent_tls_checked(
            key_mode,
            judged_authorities(pemfile_certificates(ca_pem@)),
            pemfile_certificates(cert_pem@),
            pemfile_key(key_pem@),
        ),
{
    let items: Vec<Option<Vec<u8>>> = read_file_certificates(ca_pem);
    let mut authorities: Vec<(Option<Vec<u8>>, bool)> = Vec::new();
    let mut i: usize = 0;
    while i < items.len()
        invariant
            i <= items.len(),
            authorities@.len() == i,
            forall|k: int|
                0 <= k < i ==> {
                    let item = item_view(items@[k]);
                    &&& item_view((#[trigger] authorities@[k]).0) == item
                    &&& authorities@[k].1 == (item is Some && trust_anchor(item->0))
                },
        decreases items.len() - i,
    {
        match &items[i] {
            Some(der) => {
                let fits: bool = is_anchor(der.as_slice());
                authorities.push((Some(copy_bytes(der.as_slice())), fits));
            },
            None => {
                authorities.push((None, false));
            },
        }
        i = i + 1;
    }
    assert(authority_views(authorities@) =~= judged_authorities(item_views(items@))) by {
        assert forall|k: int| 0 <= k < authorities@.len() implies (
        item_view(authorities@[k].0),
        authorities@[k].1,
    ) == #[trigger] judged_authorities(item_views(items@))[k] by {
            assert(item_views(items@)[k] == item_view(items@[k]));
            assert(item_view((authorities@[k]).0) == item_view(items@[k]));
        }
    }
    check_agent_tls(
        key_mode,
        authorities,
        read_file_certificates(cert_pem),
        read_file_key(key_pem),
    )
}

} // verus!
