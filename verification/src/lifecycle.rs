//! The life of one server in the client: attempts to connect and to log in, pauses,
//! the wait for a password, what is settled before a connection is shown, and the
//! start over once it is lost.
//!
//! [`Life::step`] decides. Whoever runs it shows what it is told to, carries out the
//! work that it is handed, and comes back with what happened.

use vstd::prelude::*;
use vstd::string::*;
use vstd::utf8::*;

use crate::base64::{encoded, encoded_injective};
use crate::client::{
    shell_rows, state_name, CoreEvent, RemoteShell, ServerStatus, ShellRow, ShellStateEvent,
};
use crate::hex::hex_text;
use crate::store::{
    opt_view, Change, ServerModel, ServerRecord, ShellModel, Store, StoreModel,
};
use crate::supervisor::{
    full_method, grant_attempt, AuthMethod, FailedStep, PasswordRequired, Supervisor,
    BACKOFF_CAP_MS, BACKOFF_START_MS, DEFAULT_KEEPALIVE_MS,
};
use crate::text::push_text;

verus! {

/// What is said of a server that is no longer remembered.
pub const SERVER_REMOVED: &'static str = "server removed from store";

/// What is said where a password is needed and none is at hand.
pub const PASSWORD_REQUIRED: &'static str = "password required";

/// What stands before the reason for which a grant is not kept.
pub const GRANT_NOT_KEPT: &'static str = "persist grant: ";

/// What is said of a server that is not known.
pub const UNKNOWN_SERVER: &'static str = "unknown server";

/// How a connection logs in.
pub enum MethodView {
    Grant(Seq<u8>),
    SshKey { username: Seq<char>, private_key_path: Seq<char> },
    Password { username: Seq<char>, password: Seq<char> },
    Dev,
}

impl View for AuthMethod {
    type V = MethodView;

    open spec fn view(&self) -> MethodView {
        match *self {
            AuthMethod::Grant(grant) => MethodView::Grant(grant@),
            AuthMethod::SshKey { username, private_key_path } => MethodView::SshKey {
                username: username@,
                private_key_path: private_key_path@,
            },
            AuthMethod::Password { username, password } => MethodView::Password {
                username: username@,
                password: password@,
            },
            AuthMethod::Dev => MethodView::Dev,
        }
    }
}

/// A shell of a server, as it is listed.
pub struct RowView {
    pub shell: Seq<char>,
    pub state: Seq<char>,
    pub name: Option<Seq<char>>,
    pub has_token: bool,
}

impl View for ShellRow {
    type V = RowView;

    open spec fn view(&self) -> RowView {
        RowView {
            shell: self.shell@,
            state: self.state@,
            name: opt_view(self.name),
            has_token: self.has_token,
        }
    }
}

/// What the interface is told.
pub enum EventView {
    ServerStatus { server: Seq<char>, status: ServerStatus, detail: Option<Seq<char>> },
    ShellState {
        server: Seq<char>,
        shell: Seq<char>,
        state: ShellStateEvent,
        exit_code: Option<i32>,
    },
    ShellsUpdated { server: Seq<char>, shells: Seq<RowView> },
    StoreWarning { message: Seq<char> },
}

impl View for CoreEvent {
    type V = EventView;

    open spec fn view(&self) -> EventView {
        match *self {
            CoreEvent::ServerStatus { server, status, detail } => EventView::ServerStatus {
                server: server@,
                status,
                detail: opt_view(detail),
            },
            CoreEvent::ShellState { server, shell, state, exit_code } => EventView::ShellState {
                server: server@,
                shell: shell@,
                state,
                exit_code,
            },
            CoreEvent::ShellsUpdated { server, shells } => EventView::ShellsUpdated {
                server: server@,
                shells: row_views(shells@),
            },
            CoreEvent::StoreWarning { message } => EventView::StoreWarning { message: message@ },
        }
    }
}

/// The rows of a list.
pub open spec fn row_views(rows: Seq<ShellRow>) -> Seq<RowView> {
    Seq::new(rows.len(), |i: int| rows[i]@)
}

/// The events of a list.
pub open spec fn event_views(events: Seq<CoreEvent>) -> Seq<EventView> {
    Seq::new(events.len(), |i: int| events[i]@)
}

/// The row that shows a shell, given what is remembered of the server's shells.
pub open spec fn row_of(shell: RemoteShell, known: Map<Seq<char>, ShellModel>) -> RowView {
    let id = hex_text(shell.shell_id@);
    RowView {
        shell: id,
        state: state_name(shell.state),
        name: if known.dom().contains(id) {
            Some(known[id].name)
        } else {
            None
        },
        has_token: known.dom().contains(id),
    }
}

/// What is remembered of the shells of a server.
pub open spec fn known_shells(store: StoreModel, key: Seq<char>) -> Map<Seq<char>, ShellModel> {
    if store.servers.dom().contains(key) {
        store.servers[key].shells
    } else {
        Map::empty()
    }
}

/// Whether some bytes are the grant that is remembered.
pub open spec fn is_grant(server: ServerModel, grant: Seq<u8>) -> bool {
    server.grant == Some(encoded(grant, false, true))
}

/// The grant that is tried first, where one is remembered and can be read.
pub open spec fn remembered_grant(server: ServerModel) -> Option<Seq<u8>> {
    if exists|grant: Seq<u8>| is_grant(server, grant) {
        Some(choose|grant: Seq<u8>| is_grant(server, grant))
    } else {
        None
    }
}

/// How a server is logged in to where no grant helps; missing where a password is
/// needed and none is at hand.
pub open spec fn full_login(server: ServerModel, password: Option<Seq<char>>) -> Option<MethodView> {
    match (server.username, server.ssh_key_path) {
        (Some(username), Some(private_key_path)) => Some(
            MethodView::SshKey { username, private_key_path },
        ),
        (Some(username), None) => match password {
            Some(password) => Some(MethodView::Password { username, password }),
            None => None,
        },
        (None, _) => Some(MethodView::Dev),
    }
}

/// Where the life of a server stands.
enum Phase {
    Fresh,
    /// The remembered grant is being tried; what is tried should it fail.
    Grant { url: String, full: Result<AuthMethod, PasswordRequired>, with_password: bool },
    /// The full login is being tried.
    Full { with_password: bool },
    Login,
    Pause,
    /// The new grant is being written.
    Keeping { keepalive_ms: u64 },
    /// The shells that were noted are asked for again, and a list is asked for.
    Settling,
    Serving,
    Stopped,
}

/// Where the life of a server stands.
pub enum PhaseView {
    /// Nothing was tried yet.
    Fresh,
    /// The remembered grant is being tried; what is tried should it fail.
    Grant { url: Seq<char>, full: Option<MethodView>, with_password: bool },
    /// The full login is being tried.
    Full { with_password: bool },
    /// A password is waited for.
    Login,
    /// The next attempt is some time off.
    Pause,
    /// The new grant is being written.
    Keeping { keepalive_ms: u64 },
    /// The shells that were noted are asked for again, and a list is asked for.
    Settling,
    /// The connection serves.
    Serving,
    /// Nobody wants the server any more.
    Stopped,
}

impl View for Phase {
    type V = PhaseView;

    closed spec fn view(&self) -> PhaseView {
        match *self {
            Phase::Fresh => PhaseView::Fresh,
            Phase::Grant { url, full, with_password } => PhaseView::Grant {
                url: url@,
                full: match full {
                    Ok(method) => Some(method@),
                    Err(_) => None,
                },
                with_password,
            },
            Phase::Full { with_password } => PhaseView::Full { with_password },
            Phase::Login => PhaseView::Login,
            Phase::Pause => PhaseView::Pause,
            Phase::Keeping { keepalive_ms } => PhaseView::Keeping { keepalive_ms },
            Phase::Settling => PhaseView::Settling,
            Phase::Serving => PhaseView::Serving,
            Phase::Stopped => PhaseView::Stopped,
        }
    }
}

/// What happened.
#[derive(Debug, Clone, PartialEq, Eq)]
pub enum Happened {
    /// It is time for an attempt: the first one, or that after a pause.
    Due,
    /// An attempt failed.
    Failed { text: String },
    /// An attempt succeeded.
    Accepted { grant: Vec<u8>, keepalive_interval_ms: u32 },
    /// The grant was written, unless it says why not.
    Kept { failure: Option<String> },
    /// The list of shells came, or could not be had.
    Listed { shells: Option<Vec<RemoteShell>> },
    /// A password was given.
    Login { password: String },
    /// The connection is lost.
    Died,
    /// Nobody wants the server any more.
    Dropped,
}

/// What is to be done.
pub enum Work {
    /// Connect and log in.
    Connect { url: String, method: AuthMethod },
    /// Refuse what is asked, until a password is given.
    AwaitLogin,
    /// Wait.
    Pause { ms: u64 },
    /// Write the new grant.
    Keep { change: Change },
    /// Start to ping, ask again for the shells that were noted, and ask for a list.
    Settle { keepalive_ms: u64 },
    /// Do what is asked, until the connection is lost.
    Serve,
    /// End.
    Stop,
    /// Go on with what is being done.
    Nothing,
}

/// What is to be done.
pub enum WorkView {
    Connect { url: Seq<char>, method: MethodView },
    AwaitLogin,
    Pause { ms: u64 },
    Keep { change: StoreModel },
    Settle { keepalive_ms: u64 },
    Serve,
    Stop,
    Nothing,
}

impl View for Work {
    type V = WorkView;

    open spec fn view(&self) -> WorkView {
        match *self {
            Work::Connect { url, method } => WorkView::Connect { url: url@, method: method@ },
            Work::AwaitLogin => WorkView::AwaitLogin,
            Work::Pause { ms } => WorkView::Pause { ms },
            Work::Keep { change } => WorkView::Keep { change: change@ },
            Work::Settle { keepalive_ms } => WorkView::Settle { keepalive_ms },
            Work::Serve => WorkView::Serve,
            Work::Stop => WorkView::Stop,
            Work::Nothing => WorkView::Nothing,
        }
    }
}

/// What the interface is told and what is to be done next.
pub struct LifeStep {
    pub shown: Vec<CoreEvent>,
    pub work: Work,
}

/// The life of a server.
pub struct Life {
    server_key: String,
    supervisor: Supervisor,
    phase: Phase,
}

/// The life of a server.
pub struct LifeView {
    pub server_key: Seq<char>,
    /// Whether nothing was tried yet.
    pub first: bool,
    /// How long the next pause is.
    pub backoff_ms: u64,
    /// A password for the next attempt.
    pub password: Option<Seq<char>>,
    pub phase: PhaseView,
}

/// Where a step leads, what is shown and what is to be done.
pub struct StepView {
    pub life: LifeView,
    pub shown: Seq<EventView>,
    pub work: WorkView,
}

impl LifeView {
    /// Whether the pause is in its bounds.
    pub open spec fn wf(self) -> bool {
        BACKOFF_START_MS <= self.backoff_ms <= BACKOFF_CAP_MS
    }

    /// In another phase.
    pub open spec fn at(self, phase: PhaseView) -> LifeView {
        LifeView { phase, ..self }
    }

    /// The event that shows a status.
    pub open spec fn status(self, status: ServerStatus, detail: Option<Seq<char>>) -> EventView {
        EventView::ServerStatus { server: self.server_key, status, detail }
    }

    /// An attempt failed. Where a password was tried or is needed, one is waited for,
    /// since trying again is of no use without it. Otherwise the reason is shown, and
    /// the next attempt comes after a pause, unless nobody wants the server any more.
    pub open spec fn failed(
        self,
        shown: Seq<EventView>,
        text: Seq<char>,
        with_password: bool,
        password_required: bool,
        abandoned: bool,
    ) -> StepView {
        if with_password || password_required {
            StepView {
                life: self.at(PhaseView::Login),
                shown: shown.push(
                    self.status(
                        ServerStatus::AuthRequired,
                        if with_password {
                            Some(text)
                        } else {
                            None
                        },
                    ),
                ),
                work: WorkView::AwaitLogin,
            }
        } else if abandoned {
            StepView {
                life: self.at(PhaseView::Stopped),
                shown: shown.push(self.status(ServerStatus::Reconnecting, Some(text))),
                work: WorkView::Stop,
            }
        } else {
            StepView {
                life: LifeView {
                    backoff_ms: if 2 * self.backoff_ms > BACKOFF_CAP_MS {
                        BACKOFF_CAP_MS
                    } else {
                        (2 * self.backoff_ms) as u64
                    },
                    ..self
                }.at(PhaseView::Pause),
                shown: shown.push(self.status(ServerStatus::Reconnecting, Some(text))),
                work: WorkView::Pause { ms: self.backoff_ms },
            }
        }
    }

    /// The full login is tried, unless it wants a password that is not at hand.
    pub open spec fn full(
        self,
        shown: Seq<EventView>,
        url: Seq<char>,
        full: Option<MethodView>,
        with_password: bool,
        abandoned: bool,
    ) -> StepView {
        match full {
            Some(method) => StepView {
                life: self.at(PhaseView::Full { with_password }),
                shown,
                work: WorkView::Connect { url, method },
            },
            None => self.failed(shown, PASSWORD_REQUIRED@, with_password, true, abandoned),
        }
    }

    /// An attempt: the remembered grant is tried first, where there is one. A
    /// password is used up.
    pub open spec fn attempt(self, store: StoreModel, abandoned: bool) -> StepView {
        let life = LifeView { first: false, password: None, ..self };
        let shown = seq![
            self.status(
                if self.first {
                    ServerStatus::Connecting
                } else {
                    ServerStatus::Reconnecting
                },
                None,
            ),
        ];
        let with_password = self.password is Some;
        if !store.servers.dom().contains(self.server_key) {
            life.failed(shown, SERVER_REMOVED@, with_password, false, abandoned)
        } else {
            let server = store.servers[self.server_key];
            let full = full_login(server, self.password);
            match remembered_grant(server) {
                Some(grant) => StepView {
                    life: life.at(PhaseView::Grant { url: server.url, full, with_password }),
                    shown,
                    work: WorkView::Connect { url: server.url, method: MethodView::Grant(grant) },
                },
                None => life.full(shown, server.url, full, with_password, abandoned),
            }
        }
    }

    /// The server accepted the login. The grant that it gave is kept where the
    /// server is still remembered; otherwise a warning is shown.
    pub open spec fn accepted(
        self,
        store: StoreModel,
        grant: Seq<u8>,
        keepalive_interval_ms: u32,
    ) -> StepView {
        let life = LifeView { backoff_ms: BACKOFF_START_MS, ..self };
        let keepalive_ms = if keepalive_interval_ms > 0 {
            keepalive_interval_ms as u64
        } else {
            DEFAULT_KEEPALIVE_MS
        };
        if store.servers.dom().contains(self.server_key) {
            StepView {
                life: life.at(PhaseView::Keeping { keepalive_ms }),
                shown: Seq::empty(),
                work: WorkView::Keep {
                    change: store.with(
                        self.server_key,
                        store.servers[self.server_key].granted(grant),
                    ),
                },
            }
        } else {
            life.settle(Some(UNKNOWN_SERVER@), keepalive_ms)
        }
    }

    /// What is settled before a connection is shown; a warning where the grant is
    /// not kept.
    pub open spec fn settle(self, failure: Option<Seq<char>>, keepalive_ms: u64) -> StepView {
        StepView {
            life: self.at(PhaseView::Settling),
            shown: match failure {
                Some(text) => seq![EventView::StoreWarning { message: GRANT_NOT_KEPT@ + text }],
                None => Seq::empty(),
            },
            work: WorkView::Settle { keepalive_ms },
        }
    }

    /// The list came: it is shown, and only now the connection is.
    pub open spec fn listed(self, store: StoreModel, shells: Seq<RemoteShell>) -> StepView {
        let known = known_shells(store, self.server_key);
        StepView {
            life: self.at(PhaseView::Serving),
            shown: seq![
                EventView::ShellsUpdated {
                    server: self.server_key,
                    shells: Seq::new(shells.len(), |i: int| row_of(shells[i], known)),
                },
                self.status(ServerStatus::Connected, None),
            ],
            work: WorkView::Serve,
        }
    }

    /// What happens out of turn changes nothing.
    pub open spec fn ignored(self) -> StepView {
        StepView { life: self, shown: Seq::empty(), work: WorkView::Nothing }
    }

    /// The end.
    pub open spec fn stopped(self) -> StepView {
        StepView {
            life: self.at(PhaseView::Stopped),
            shown: Seq::empty(),
            work: WorkView::Stop,
        }
    }

    /// Where something that happened leads.
    pub open spec fn step(self, store: StoreModel, happened: Happened, abandoned: bool) -> StepView {
        match (self.phase, happened) {
            (PhaseView::Fresh, Happened::Due) => self.attempt(store, abandoned),
            (PhaseView::Pause, Happened::Due) => self.attempt(store, abandoned),
            (PhaseView::Grant { url, full, with_password }, Happened::Failed { .. }) => self.full(
                Seq::empty(),
                url,
                full,
                with_password,
                abandoned,
            ),
            (PhaseView::Full { with_password }, Happened::Failed { text }) => self.failed(
                Seq::empty(),
                text@,
                with_password,
                false,
                abandoned,
            ),
            (PhaseView::Grant { .. }, Happened::Accepted { grant, keepalive_interval_ms }) => {
                self.accepted(store, grant@, keepalive_interval_ms)
            },
            (PhaseView::Full { .. }, Happened::Accepted { grant, keepalive_interval_ms }) => {
                self.accepted(store, grant@, keepalive_interval_ms)
            },
            (PhaseView::Keeping { keepalive_ms }, Happened::Kept { failure }) => self.settle(
                opt_view(failure),
                keepalive_ms,
            ),
            (PhaseView::Settling, Happened::Listed { shells }) => match shells {
                Some(shells) => self.listed(store, shells@),
                None => self.attempt(store, abandoned),
            },
            (PhaseView::Login, Happened::Login { password }) => LifeView {
                password: Some(password@),
                ..self
            }.attempt(store, abandoned),
            (PhaseView::Serving, Happened::Died) => self.attempt(store, abandoned),
            (PhaseView::Login, Happened::Dropped) => self.stopped(),
            (PhaseView::Serving, Happened::Dropped) => self.stopped(),
            _ => self.ignored(),
        }
    }
}

impl View for Life {
    type V = LifeView;

    closed spec fn view(&self) -> LifeView {
        LifeView {
            server_key: self.server_key@,
            first: self.supervisor@.first,
            backoff_ms: self.supervisor@.backoff_ms,
            password: opt_view(self.supervisor@.password),
            phase: self.phase@,
        }
    }
}

impl LifeStep {
    /// Whether this is what a step shows and hands out, given what is remembered.
    pub open spec fn is(self, store: StoreModel, step: StepView) -> bool {
        &&& event_views(self.shown@) == step.shown
        &&& self.work@ == step.work
        &&& self.work matches Work::Keep { change } ==> change.wf() && change.base() == store
    }
}

impl Life {
    /// A server of which nothing was tried yet.
    pub fn new(server_key: &str) -> (r: Life)
        ensures
            r@ == (LifeView {
                server_key: server_key@,
                first: true,
                backoff_ms: BACKOFF_START_MS,
                password: None,
                phase: PhaseView::Fresh,
            }),
    {
        Life {
            server_key: server_key.to_owned(),
            supervisor: Supervisor::new(),
            phase: Phase::Fresh,
        }
    }

    /// Takes what happened; `abandoned` says whether nobody wants the server any
    /// more.
    pub fn step(&mut self, store: &Store, happened: Happened, abandoned: bool) -> (r: LifeStep)
        requires
            old(self)@.wf(),
            store.wf(),
        ensures
            final(self)@.wf(),
            final(self)@ == old(self)@.step(store@, happened, abandoned).life,
            r.is(store@, old(self)@.step(store@, happened, abandoned)),
    {
        let mut phase: Phase = Phase::Stopped;
        core::mem::swap(&mut phase, &mut self.phase);
        let shown: Vec<CoreEvent> = Vec::new();
        assert(event_views(shown@) =~= Seq::empty());
        match (phase, happened) {
            (Phase::Fresh, Happened::Due) => self.attempt(store, abandoned),
            (Phase::Pause, Happened::Due) => self.attempt(store, abandoned),
            (Phase::Grant { url, full, with_password }, Happened::Failed { .. }) => {
                self.full(shown, url, full, with_password, abandoned)
            },
            (Phase::Full { with_password }, Happened::Failed { text }) => {
                self.failed(shown, text, with_password, false, abandoned)
            },
            (Phase::Grant { .. }, Happened::Accepted { grant, keepalive_interval_ms }) => {
                self.accepted(store, grant, keepalive_interval_ms)
            },
            (Phase::Full { .. }, Happened::Accepted { grant, keepalive_interval_ms }) => {
                self.accepted(store, grant, keepalive_interval_ms)
            },
            (Phase::Keeping { keepalive_ms }, Happened::Kept { failure }) => {
                self.settle(failure, keepalive_ms)
            },
            (Phase::Settling, Happened::Listed { shells }) => match shells {
                Some(shells) => self.listed(store, shells),
                None => self.attempt(store, abandoned),
            },
            (Phase::Login, Happened::Login { password }) => {
                self.supervisor.login(password);
                self.attempt(store, abandoned)
            },
            (Phase::Serving, Happened::Died) => self.attempt(store, abandoned),
            (Phase::Login, Happened::Dropped) => LifeStep { shown, work: Work::Stop },
            (Phase::Serving, Happened::Dropped) => LifeStep { shown, work: Work::Stop },
            (phase, _) => {
                self.phase = phase;
                LifeStep { shown, work: Work::Nothing }
            },
        }
    }

    fn status(&self, status: ServerStatus, detail: Option<String>) -> (r: CoreEvent)
        ensures
            r@ == self@.status(status, opt_view(detail)),
    {
        CoreEvent::ServerStatus { server: self.server_key.as_str().to_owned(), status, detail }
    }

    fn failed(
        &mut self,
        shown: Vec<CoreEvent>,
        text: String,
        with_password: bool,
        password_required: bool,
        abandoned: bool,
    ) -> (r: LifeStep)
        requires
            old(self)@.wf(),
        ensures
            final(self)@.wf(),
            ({
                let step = old(self)@.failed(
                    event_views(shown@),
                    text@,
                    with_password,
                    password_required,
                    abandoned,
                );
                &&& final(self)@ == step.life
                &&& event_views(r.shown@) == step.shown
                &&& r.work@ == step.work
                &&& r.work !is Keep
            }),
    {
        let ghost before = event_views(shown@);
        let mut shown = shown;
        let failed: FailedStep = self.supervisor.failed(with_password, password_required, abandoned);
        match failed {
            FailedStep::AwaitLogin { explain } => {
                let detail: Option<String> = if explain {
                    Some(text)
                } else {
                    None
                };
                shown.push(self.status(ServerStatus::AuthRequired, detail));
                self.phase = Phase::Login;
                proof {
                    assert(event_views(shown@) =~= before.push(event_views(shown@).last()));
                }
                LifeStep { shown, work: Work::AwaitLogin }
            },
            FailedStep::Stop => {
                shown.push(self.status(ServerStatus::Reconnecting, Some(text)));
                self.phase = Phase::Stopped;
                proof {
                    assert(event_views(shown@) =~= before.push(event_views(shown@).last()));
                }
                LifeStep { shown, work: Work::Stop }
            },
            FailedStep::Retry { pause_ms } => {
                shown.push(self.status(ServerStatus::Reconnecting, Some(text)));
                self.phase = Phase::Pause;
                proof {
                    assert(event_views(shown@) =~= before.push(event_views(shown@).last()));
                }
                LifeStep { shown, work: Work::Pause { ms: pause_ms } }
            },
        }
    }

    fn full(
        &mut self,
        shown: Vec<CoreEvent>,
        url: String,
        full: Result<AuthMethod, PasswordRequired>,
        with_password: bool,
        abandoned: bool,
    ) -> (r: LifeStep)
        requires
            old(self)@.wf(),
        ensures
            final(self)@.wf(),
            ({
                let step = old(self)@.full(
                    event_views(shown@),
                    url@,
                    match full {
                        Ok(method) => Some(method@),
                        Err(_) => None,
                    },
                    with_password,
                    abandoned,
                );
                &&& final(self)@ == step.life
                &&& event_views(r.shown@) == step.shown
                &&& r.work@ == step.work
                &&& r.work !is Keep
            }),
    {
        match full {
            Ok(method) => {
                self.phase = Phase::Full { with_password };
                LifeStep { shown, work: Work::Connect { url, method } }
            },
            Err(_) => self.failed(
                shown,
                PASSWORD_REQUIRED.to_owned(),
                with_password,
                true,
                abandoned,
            ),
        }
    }

    fn attempt(&mut self, store: &Store, abandoned: bool) -> (r: LifeStep)
        requires
            old(self)@.wf(),
            store.wf(),
        ensures
            final(self)@.wf(),
            final(self)@ == old(self)@.attempt(store@, abandoned).life,
            r.is(store@, old(self)@.attempt(store@, abandoned)),
    {
        let ghost before = self@;
        let (status, password): (ServerStatus, Option<String>) = self.supervisor.attempt();
        let with_password: bool = password.is_some();
        let mut shown: Vec<CoreEvent> = Vec::new();
        shown.push(self.status(status, None));
        assert(event_views(shown@) =~= seq![before.status(status, None)]);
        let record: ServerRecord = match store.server(self.server_key.as_str()) {
            Some(record) => record,
            None => {
                return self.failed(
                    shown,
                    SERVER_REMOVED.to_owned(),
                    with_password,
                    false,
                    abandoned,
                );
            },
        };
        let ghost server = store@.servers[before.server_key];
        let first: Option<AuthMethod> = grant_attempt(&record);
        let full: Result<AuthMethod, PasswordRequired> = full_method(&record, password);
        match first {
            Some(method) => {
                proof {
                    let grant = method->Grant_0@;
                    assert(is_grant(server, grant));
                    let chosen = choose|grant: Seq<u8>| is_grant(server, grant);
                    encoded_injective(grant, chosen, false, true);
                }
                let url: String = record.url.as_str().to_owned();
                self.phase = Phase::Grant { url: record.url, full, with_password };
                LifeStep { shown, work: Work::Connect { url, method } }
            },
            None => self.full(shown, record.url, full, with_password, abandoned),
        }
    }

    fn accepted(&mut self, store: &Store, grant: Vec<u8>, keepalive_interval_ms: u32) -> (r: LifeStep)
        requires
            old(self)@.wf(),
            store.wf(),
        ensures
            final(self)@.wf(),
            final(self)@ == old(self)@.accepted(store@, grant@, keepalive_interval_ms).life,
            r.is(store@, old(self)@.accepted(store@, grant@, keepalive_interval_ms)),
    {
        let keepalive_ms: u64 = self.supervisor.connected(keepalive_interval_ms);
        match store.set_grant(self.server_key.as_str(), grant.as_slice()) {
            Ok(change) => {
                self.phase = Phase::Keeping { keepalive_ms };
                let shown: Vec<CoreEvent> = Vec::new();
                assert(event_views(shown@) =~= Seq::empty());
                LifeStep { shown, work: Work::Keep { change } }
            },
            Err(_) => self.settle(Some(UNKNOWN_SERVER.to_owned()), keepalive_ms),
        }
    }

    fn settle(&mut self, failure: Option<String>, keepalive_ms: u64) -> (r: LifeStep)
        requires
            old(self)@.wf(),
        ensures
            final(self)@.wf(),
            ({
                let step = old(self)@.settle(opt_view(failure), keepalive_ms);
                &&& final(self)@ == step.life
                &&& event_views(r.shown@) == step.shown
                &&& r.work@ == step.work
                &&& r.work !is Keep
            }),
    {
        self.phase = Phase::Settling;
        let mut shown: Vec<CoreEvent> = Vec::new();
        if let Some(text) = &failure {
            let mut message: String = GRANT_NOT_KEPT.to_owned();
            push_text(&mut message, text.as_str());
            shown.push(CoreEvent::StoreWarning { message });
            proof {
                let step = old(self)@.settle(opt_view(failure), keepalive_ms);
                assert(event_views(shown@) =~= step.shown);
            }
        } else {
            assert(event_views(shown@) =~= Seq::empty());
        }
        LifeStep { shown, work: Work::Settle { keepalive_ms } }
    }

    fn listed(&mut self, store: &Store, shells: Vec<RemoteShell>) -> (r: LifeStep)
        requires
            old(self)@.wf(),
            store.wf(),
        ensures
            final(self)@.wf(),
            final(self)@ == old(self)@.listed(store@, shells@).life,
            r.is(store@, old(self)@.listed(store@, shells@)),
    {
        let record: Option<ServerRecord> = store.server(self.server_key.as_str());
        let rows: Vec<ShellRow> = shell_rows(record.as_ref(), &shells);
        self.phase = Phase::Serving;
        let ghost known = known_shells(store@, self@.server_key);
        proof {
            assert forall|i: int| 0 <= i < shells@.len() implies #[trigger] row_views(rows@)[i]
                == row_of(shells@[i], known) by {
                let row = rows@[i];
                assert(row@ == row_of(shells@[i], known));
            }
            assert(row_views(rows@) =~= Seq::new(
                shells@.len(),
                |i: int| row_of(shells@[i], known),
            ));
        }
        let mut shown: Vec<CoreEvent> = Vec::new();
        shown.push(
            CoreEvent::ShellsUpdated { server: self.server_key.as_str().to_owned(), shells: rows },
        );
        shown.push(self.status(ServerStatus::Connected, None));
        assert(event_views(shown@) =~= old(self)@.listed(store@, shells@).shown);
        LifeStep { shown, work: Work::Serve }
    }
}

/// A server is shown as connected only once its shells were listed, and right after
/// the list.
pub proof fn connected_only_once_listed(
    life: LifeView,
    store: StoreModel,
    happened: Happened,
    abandoned: bool,
    i: int,
)
    requires
        ({
            let shown = life.step(store, happened, abandoned).shown;
            &&& 0 <= i < shown.len()
            &&& shown[i] == life.status(ServerStatus::Connected, None)
        }),
    ensures
        life.phase is Settling,
        happened matches Happened::Listed { shells } && shells is Some,
        i > 0,
        life.step(store, happened, abandoned).shown[i - 1] is ShellsUpdated,
        life.step(store, happened, abandoned).work is Serve,
{
}

/// A remembered grant that can be read is tried before anything else, and the full
/// login only once the server refused it.
pub proof fn grants_come_first(
    life: LifeView,
    store: StoreModel,
    grant: Seq<u8>,
    abandoned: bool,
    refusal: Happened,
)
    requires
        store.servers.dom().contains(life.server_key),
        is_grant(store.servers[life.server_key], grant),
        refusal is Failed,
    ensures
        ({
            let server = store.servers[life.server_key];
            let tried = life.attempt(store, abandoned);
            let after = tried.life.step(store, refusal, abandoned);
            &&& tried.work == (WorkView::Connect {
                url: server.url,
                method: MethodView::Grant(grant),
            })
            &&& match full_login(server, life.password) {
                Some(method) => after.work == (WorkView::Connect { url: server.url, method }),
                None => after.work is AwaitLogin,
            }
        }),
{
    let server = store.servers[life.server_key];
    let chosen = choose|g: Seq<u8>| is_grant(server, g);
    encoded_injective(grant, chosen, false, true);
}

/// A password is kept for no other attempt than the one that it was given for: no
/// step leaves one behind, and a login that fails with one waits for another.
pub proof fn passwords_serve_once(
    life: LifeView,
    store: StoreModel,
    happened: Happened,
    abandoned: bool,
)
    requires
        life.password is None,
    ensures
        life.step(store, happened, abandoned).life.password is None,
        (life.phase matches PhaseView::Full { with_password } && with_password) && happened is Failed
            ==> life.step(store, happened, abandoned).work is AwaitLogin,
{
}

/// No pause is shorter than the first or longer than the longest, and after a
/// success the next one is the first again.
pub proof fn pauses_are_bounded(
    life: LifeView,
    store: StoreModel,
    happened: Happened,
    abandoned: bool,
)
    requires
        life.wf(),
    ensures
        life.step(store, happened, abandoned).life.wf(),
        life.step(store, happened, abandoned).work matches WorkView::Pause { ms }
            ==> BACKOFF_START_MS <= ms <= BACKOFF_CAP_MS,
        happened is Accepted && (life.phase is Grant || life.phase is Full) ==> life.step(
            store,
            happened,
            abandoned,
        ).life.backoff_ms == BACKOFF_START_MS,
{
}

/// A server that is lost is tried again at once, for as long as it is remembered:
/// the loss is no reason to stop or to pause.
pub proof fn losses_are_retried(life: LifeView, store: StoreModel, abandoned: bool)
    requires
        life.phase is Serving,
        life.password is None,
        store.servers.dom().contains(life.server_key),
    ensures
        ({
            let step = life.step(store, Happened::Died, abandoned);
            &&& step.shown[0] == life.status(
                if life.first {
                    ServerStatus::Connecting
                } else {
                    ServerStatus::Reconnecting
                },
                None,
            )
            &&& step.work is Connect || step.work is AwaitLogin
            &&& step.life.password is None
        }),
{
}

} // verus!
