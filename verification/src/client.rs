//! What the desktop client shows, and what its interface can ask of it.

use vstd::prelude::*;

use crate::assoc::{as_map, empty_is_empty, find, has_key, position, viewed};
use crate::hex::{hex, hex_text};
use crate::order::{in_order, sorted};
use crate::opening::{asked_for, told, Answered, Asked, OpenError, Opening};
use crate::protocol::{Envelope, ShellState};
use crate::store::{
    imports, is_server_key, opt_view, pending_views, Change, Loaded, ServerModel, ServerRecord,
    ShellModel, ShellRecord, Store, StoreData, StoreError, StoreModel, V1State,
};
use crate::supervisor::ServerCmd;
use crate::text::{contains, pushed_contains, same, texts};

verus! {

/// How many commands wait for one server.
pub const SERVER_QUEUE: usize = 64;

/// How many events wait for the interface.
pub const EVENT_QUEUE: usize = 256;

/// Where a server stands.
#[derive(Debug, Clone, Copy, PartialEq, Eq, Structural)]
pub enum ServerStatus {
    Connecting,
    Connected,
    Reconnecting,
    /// It waits for a password.
    AuthRequired,
}

/// What became of a shell.
#[derive(Debug, Clone, Copy, PartialEq, Eq, Structural)]
pub enum ShellStateEvent {
    Attached,
    Detached,
    Orphaned,
    Exited,
}

/// A shell of a server, as it is listed.
#[derive(Debug, Clone, PartialEq, Eq)]
pub struct ShellRow {
    pub shell: String,
    pub state: String,
    pub name: Option<String>,
    pub has_token: bool,
}

/// What the interface is told.
#[derive(Debug, Clone, PartialEq, Eq)]
pub enum CoreEvent {
    ServerStatus { server: String, status: ServerStatus, detail: Option<String> },
    ShellState { server: String, shell: String, state: ShellStateEvent, exit_code: Option<i32> },
    ShellsUpdated { server: String, shells: Vec<ShellRow> },
    StoreWarning { message: String },
}

/// A page of a shell's history.
#[derive(Debug, Clone, PartialEq, Eq)]
pub struct HistoryPage {
    pub lines: Vec<String>,
    pub first_line_id: u64,
    pub truncated_by_eviction: bool,
}

/// What attaching to a shell gives: the screen, which is drawn before any output,
/// and how far its history reaches.
#[derive(Debug, Clone, PartialEq, Eq)]
pub struct AttachInfo {
    pub snapshot: Vec<u8>,
    pub oldest_history_line_id: u64,
    pub newest_history_line_id: u64,
}

/// A shell that the interface starts with.
#[derive(Debug, Clone, PartialEq, Eq)]
pub struct ShellView {
    pub shell: String,
    pub name: String,
}

/// A server that the interface starts with.
#[derive(Debug, Clone, PartialEq, Eq)]
pub struct ServerView {
    pub key: String,
    pub url: String,
    pub display_name: String,
    pub shells: Vec<ShellView>,
}

/// What the interface starts with.
#[derive(Debug, Clone, PartialEq, Eq)]
pub struct BootstrapView {
    pub servers: Vec<ServerView>,
}

/// A server that is added.
#[derive(Debug, Clone, PartialEq, Eq)]
pub struct ServerConfig {
    pub url: String,
    pub display_name: String,
    pub username: Option<String>,
    pub ssh_key_path: Option<String>,
}

/// A server that is added: without logins and shells.
pub open spec fn fresh(config: ServerConfig) -> ServerModel {
    ServerModel {
        url: config.url@,
        display_name: config.display_name@,
        username: opt_view(config.username),
        ssh_key_path: opt_view(config.ssh_key_path),
        remember_login: false,
        grant: None,
        shells: Map::empty(),
        pending_opens: Seq::empty(),
    }
}

/// The record of a server that is added.
pub fn new_record(config: ServerConfig) -> (r: ServerRecord)
    ensures
        r.wf(),
        r@ == fresh(config),
{
    let r = ServerRecord {
        url: config.url,
        display_name: config.display_name,
        username: config.username,
        ssh_key_path: config.ssh_key_path,
        remember_login: false,
        grant: None,
        shells: Vec::new(),
        pending_opens: Vec::new(),
    };
    proof {
        empty_is_empty(viewed(r.shells@));
        assert(pending_views(r.pending_opens@) =~= Seq::empty());
    }
    r
}

/// Whether the shells shown are those remembered, in the order of their
/// identifiers.
pub open spec fn shows_shells(shown: Seq<ShellView>, shells: Map<Seq<char>, ShellModel>) -> bool {
    exists|list: Seq<(Seq<char>, ShellModel)>|
        {
            &&& in_order(list)
            &&& #[trigger] as_map(list) == shells
            &&& shown.len() == list.len()
            &&& forall|i: int|
                0 <= i < list.len() ==> (#[trigger] shown[i]).shell@ == list[i].0 && shown[i].name@
                    == list[i].1.name
        }
}

/// Whether the servers shown are those remembered, in the order of their keys.
pub open spec fn shows_servers(shown: Seq<ServerView>, servers: Map<Seq<char>, ServerModel>) -> bool {
    exists|list: Seq<(Seq<char>, ServerModel)>|
        {
            &&& in_order(list)
            &&& #[trigger] as_map(list) == servers
            &&& shown.len() == list.len()
            &&& forall|i: int|
                0 <= i < list.len() ==> {
                    &&& (#[trigger] shown[i]).key@ == list[i].0
                    &&& shown[i].url@ == list[i].1.url
                    &&& shown[i].display_name@ == list[i].1.display_name
                    &&& shows_shells(shown[i].shells@, list[i].1.shells)
                }
        }
}

fn show_shells(record: ServerRecord) -> (r: Vec<ShellView>)
    requires
        record.wf(),
    ensures
        shows_shells(r@, record@.shells),
{
    let shells: Vec<(String, ShellRecord)> = sorted(record.shells);
    let ghost list = viewed(shells@);
    let mut out: Vec<ShellView> = Vec::new();
    let mut i: usize = 0;
    while i < shells.len()
        invariant
            i <= shells.len(),
            out@.len() == i,
            list == viewed(shells@),
            forall|k: int|
                0 <= k < i ==> (#[trigger] out@[k]).shell@ == list[k].0 && out@[k].name@
                    == list[k].1.name,
        decreases shells.len() - i,
    {
        out.push(
            ShellView {
                shell: shells[i].0.as_str().to_owned(),
                name: shells[i].1.name.as_str().to_owned(),
            },
        );
        i = i + 1;
    }
    assert(as_map(list) == record@.shells);
    out
}

/// What the interface starts with.
fn bootstrap(store: &Store) -> (r: BootstrapView)
    requires
        store.wf(),
    ensures
        shows_servers(r.servers@, store@.servers),
{
    let data: StoreData = store.snapshot();
    let ghost all = data.servers@;
    assert(data.wf());
    let servers: Vec<(String, ServerRecord)> = sorted(data.servers);
    let ghost list = viewed(servers@);
    let mut out: Vec<ServerView> = Vec::new();
    let mut i: usize = 0;
    assert forall|k: int| 0 <= k < servers@.len() implies (#[trigger] servers@[k]).1.wf() by {
        let j = choose|j: int| 0 <= j < all.len() && all[j] == servers@[k];
        assert(all[j].1.wf());
    }
    while i < servers.len()
        invariant
            i <= servers.len(),
            out@.len() == i,
            list == viewed(servers@),
            forall|k: int| 0 <= k < servers@.len() ==> (#[trigger] servers@[k]).1.wf(),
            forall|k: int|
                0 <= k < i ==> {
                    &&& (#[trigger] out@[k]).key@ == list[k].0
                    &&& out@[k].url@ == list[k].1.url
                    &&& out@[k].display_name@ == list[k].1.display_name
                    &&& shows_shells(out@[k].shells@, list[k].1.shells)
                },
        decreases servers.len() - i,
    {
        let record: &ServerRecord = &servers[i].1;
        out.push(
            ServerView {
                key: servers[i].0.as_str().to_owned(),
                url: record.url.as_str().to_owned(),
                display_name: record.display_name.as_str().to_owned(),
                shells: show_shells(record.copy()),
            },
        );
        i = i + 1;
    }
    assert(as_map(list) == store@.servers);
    BootstrapView { servers: out }
}

/// A shell that a server lists; its state is missing where it is none that is
/// known.
#[derive(Debug, Clone, PartialEq, Eq)]
pub struct RemoteShell {
    pub shell_id: Vec<u8>,
    pub state: Option<ShellState>,
}

/// The name of a state.
pub open spec fn state_name(state: Option<ShellState>) -> Seq<char> {
    match state {
        Some(ShellState::Running) => "running"@,
        Some(ShellState::Exited) => "exited"@,
        Some(ShellState::Terminating) => "terminating"@,
        None => "unknown"@,
    }
}

/// Whether a row shows a shell that a server lists, given what is remembered of
/// the server's shells.
pub open spec fn is_row(row: ShellRow, shell: RemoteShell, known: Map<Seq<char>, ShellModel>) -> bool {
    let id = hex_text(shell.shell_id@);
    &&& row.shell@ == id
    &&& row.state@ == state_name(shell.state)
    &&& row.has_token == known.dom().contains(id)
    &&& opt_view(row.name) == (if known.dom().contains(id) {
        Some(known[id].name)
    } else {
        None
    })
}

/// The rows that show what a server lists.
pub fn shell_rows(record: Option<&ServerRecord>, shells: &Vec<RemoteShell>) -> (r: Vec<ShellRow>)
    requires
        record matches Some(known) ==> known.wf(),
    ensures
        r@.len() == shells@.len(),
        forall|i: int|
            0 <= i < shells@.len() ==> is_row(
                #[trigger] r@[i],
                shells@[i],
                match record {
                    Some(known) => known@.shells,
                    None => Map::empty(),
                },
            ),
{
    let ghost known = match record {
        Some(k) => k@.shells,
        None => Map::empty(),
    };
    let mut out: Vec<ShellRow> = Vec::new();
    let mut i: usize = 0;
    while i < shells.len()
        invariant
            i <= shells.len(),
            out@.len() == i,
            record matches Some(k) ==> k.wf(),
            known == (match record {
                Some(k) => k@.shells,
                None => Map::empty(),
            }),
            forall|k: int| 0 <= k < i ==> is_row(#[trigger] out@[k], shells@[k], known),
        decreases shells.len() - i,
    {
        let shell: String = hex(shells[i].shell_id.as_slice());
        let name: Option<String> = match record {
            Some(k) => match find(&k.shells, shell.as_str()) {
                Some(j) => Some(k.shells[j].1.name.as_str().to_owned()),
                None => None,
            },
            None => None,
        };
        let state: String = match shells[i].state {
            Some(ShellState::Running) => "running".to_owned(),
            Some(ShellState::Exited) => "exited".to_owned(),
            Some(ShellState::Terminating) => "terminating".to_owned(),
            None => "unknown".to_owned(),
        };
        let has_token: bool = name.is_some();
        out.push(ShellRow { shell, state, name, has_token });
        i = i + 1;
    }
    out
}

/// Why the interface is refused something.
#[derive(Debug, Clone, PartialEq, Eq)]
pub enum CoreError {
    /// No task looks after such a server.
    UnknownServer { server_key: String },
}

/// What a [`Core`] holds: what is remembered, and the servers that tasks look
/// after.
pub struct CoreView {
    pub store: StoreModel,
    pub running: Set<Seq<char>>,
}

impl CoreView {
    /// Whether a command can go to the task of a server: it is refused if and
    /// only if there is none.
    pub open spec fn hands_over(self, server_key: Seq<char>, r: Result<ServerCmd, CoreError>) -> bool {
        &&& r is Ok <==> self.running.contains(server_key)
        &&& r matches Err(e) ==> (e matches CoreError::UnknownServer { server_key: k } && k@
            == server_key)
    }
}

/// The client: what it remembers, and the servers that it looks after. Each
/// server has a task of its own, which takes commands in turn.
pub struct Core {
    store: Store,
    running: Vec<String>,
}

impl View for Core {
    type V = CoreView;

    closed spec fn view(&self) -> CoreView {
        CoreView { store: self.store@, running: texts(self.running@).to_set() }
    }
}

/// A client that is about to start. What it takes over is to be written first.
pub struct Spawning {
    store: Store,
    import: Option<Change>,
    warning: Option<String>,
}

/// What a [`Spawning`] holds.
pub struct SpawningView {
    pub store: StoreModel,
    /// What is remembered once what is taken over is written; `None` where nothing
    /// is taken over.
    pub import: Option<StoreModel>,
    pub warning: Option<String>,
}

impl View for Spawning {
    type V = SpawningView;

    closed spec fn view(&self) -> SpawningView {
        SpawningView {
            store: self.store@,
            import: match self.import {
                Some(change) => Some(change@),
                None => None,
            },
            warning: self.warning,
        }
    }
}

impl Spawning {
    /// Whether nothing is remembered twice, and what is taken over was worked out
    /// from what is remembered.
    pub closed spec fn wf(&self) -> bool {
        &&& self.store.wf()
        &&& self.import matches Some(change) ==> change.wf() && change.base() == self.store@
    }

    /// What is to be written, if there is anything.
    pub fn to_write(&self) -> (r: Option<StoreData>)
        requires
            self.wf(),
        ensures
            r is Some <==> self@.import is Some,
            r matches Some(data) ==> data.wf() && data@ == self@.import->0.stripped(),
    {
        match &self.import {
            Some(change) => Some(change.to_write()),
            None => None,
        }
    }

    /// What is taken over was written, or could not be, in which case the client
    /// starts without it. Looks after every server that is remembered then. The
    /// interface is warned of what was lost.
    pub fn written(self, written: bool) -> (r: (Core, Option<CoreEvent>))
        requires
            self.wf(),
        ensures
            r.0.wf(),
            r.0@.store == (match self@.import {
                Some(imported) => if written {
                    imported
                } else {
                    self@.store
                },
                None => self@.store,
            }),
            r.0@.running == r.0@.store.servers.dom(),
            match self@.warning {
                Some(text) => r.1 == Some(CoreEvent::StoreWarning { message: text }),
                None => r.1 is None,
            },
    {
        let mut store: Store = self.store;
        if let Some(change) = self.import {
            let _ = store.settle(change, written);
        }
        let data: StoreData = store.snapshot();
        let ghost entries = viewed(data.servers@);
        let mut running: Vec<String> = Vec::new();
        let mut i: usize = 0;
        while i < data.servers.len()
            invariant
                i <= data.servers.len(),
                entries == viewed(data.servers@),
                texts(running@).len() == i,
                forall|k: int| 0 <= k < i ==> #[trigger] texts(running@)[k] == entries[k].0,
            decreases data.servers.len() - i,
        {
            let ghost before = texts(running@);
            running.push(data.servers[i].0.as_str().to_owned());
            assert(texts(running@) =~= before.push(entries[i as int].0));
            i = i + 1;
        }
        proof {
            let keys = texts(running@);
            assert forall|t: Seq<char>| keys.to_set().contains(t) == as_map(entries).dom().contains(
                t,
            ) by {
                if keys.contains(t) {
                    let k = choose|k: int| 0 <= k < keys.len() && keys[k] == t;
                    assert(entries[k].0 == t);
                }
                if has_key(entries, t) {
                    let k = position(entries, t);
                    assert(keys[k] == t);
                }
            }
            assert(keys.to_set() =~= as_map(entries).dom());
        }
        let warning: Option<CoreEvent> = match self.warning {
            Some(message) => Some(CoreEvent::StoreWarning { message }),
            None => None,
        };
        (Core { store, running }, warning)
    }
}

impl Core {
    /// Whether nothing is remembered twice.
    pub closed spec fn wf(&self) -> bool {
        self.store.wf()
    }

    /// Starts with what was read, and with what the command-line client remembers,
    /// where that could be read: on the first run it is taken over.
    pub fn spawn(loaded: Loaded, v1: Option<&V1State>) -> (r: Spawning)
        requires
            loaded.store.wf(),
            v1 matches Some(state) ==> state.wf(),
        ensures
            r.wf(),
            r@.store == loaded.store@,
            r@.warning == loaded.warning,
            match v1 {
                Some(state) => exists|count: nat| #[trigger]
                    imports(loaded.store@, *state, count, r@.import),
                None => r@.import is None,
            },
    {
        let import: Option<Change> = match v1 {
            Some(state) => loaded.store.import_v1(state).1,
            None => None,
        };
        Spawning { store: loaded.store, import, warning: loaded.warning }
    }

    /// What the interface starts with.
    pub fn bootstrap(&self) -> (r: BootstrapView)
        requires
            self.wf(),
        ensures
            shows_servers(r.servers@, self@.store.servers),
    {
        bootstrap(&self.store)
    }

    /// What is remembered.
    pub fn store(&self) -> (r: &Store)
        requires
            self.wf(),
        ensures
            r.wf(),
            r@ == self@.store,
    {
        &self.store
    }

    /// A server to add, under a random key; then [`Core::server_added`].
    pub fn add_server(&self, config: ServerConfig) -> (r: (String, Change))
        requires
            self.wf(),
        ensures
            is_server_key(r.0@),
            r.1.wf(),
            r.1.base() == self@.store,
            r.1@ == self@.store.with(r.0@, fresh(config)),
    {
        self.store.add_server(new_record(config))
    }

    /// A server was written, or could not be. Once it is, it is looked after.
    pub fn server_added(&mut self, server_key: &str, change: Change, written: bool) -> (r: Result<
        (),
        StoreError,
    >)
        requires
            old(self).wf(),
            change.wf(),
            change.base() == old(self)@.store,
        ensures
            final(self).wf(),
            r is Ok <==> written,
            r matches Err(e) ==> e == StoreError::NotWritten && final(self)@ == old(self)@,
            written ==> final(self)@ == (CoreView {
                store: change@,
                running: old(self)@.running.insert(server_key@),
            }),
    {
        self.store.settle(change, written)?;
        self.start_supervisor(server_key);
        Ok(())
    }

    /// Looks after a server no longer, and forgets it once that is written; then
    /// [`Core::settle`]. What runs there runs on.
    pub fn remove_server(&mut self, server_key: &str) -> (r: Change)
        requires
            old(self).wf(),
        ensures
            final(self).wf(),
            final(self)@ == (CoreView {
                running: old(self)@.running.remove(server_key@),
                ..old(self)@
            }),
            r.wf(),
            r.base() == old(self)@.store,
            r@ == (StoreModel {
                servers: old(self)@.store.servers.remove(server_key@),
                ..old(self)@.store
            }),
    {
        self.stop_supervisor(server_key);
        self.store.remove_server(server_key)
    }

    /// Takes over a change if it was written, and nothing of it otherwise.
    pub fn settle(&mut self, change: Change, written: bool) -> (r: Result<(), StoreError>)
        requires
            old(self).wf(),
            change.wf(),
            change.base() == old(self)@.store,
        ensures
            final(self).wf(),
            r is Ok <==> written,
            r matches Err(e) ==> e == StoreError::NotWritten && final(self)@ == old(self)@,
            written ==> final(self)@ == (CoreView { store: change@, ..old(self)@ }),
    {
        self.store.settle(change, written)
    }

    /// The key of a shell that is to be opened was written, or could not be; see
    /// [`Opening::written`].
    pub fn key_written(&mut self, opening: Opening, written: bool) -> (r: Result<
        (Asked, Envelope),
        StoreError,
    >)
        requires
            old(self).wf(),
            opening.wf(),
            opening@.base == old(self)@.store,
        ensures
            final(self).wf(),
            final(self)@.running == old(self)@.running,
            asked_for(opening@, written, old(self)@.store, final(self)@.store, r),
    {
        opening.written(&mut self.store, written)
    }

    /// The answer to a request for a shell was written, or could not be; see
    /// [`Answered::written`].
    pub fn answer_written(&mut self, answered: Answered, written: bool) -> (r: Result<
        String,
        OpenError,
    >)
        requires
            old(self).wf(),
            answered.wf(),
            answered@.base == old(self)@.store,
        ensures
            final(self).wf(),
            final(self)@.running == old(self)@.running,
            told(answered@, written, old(self)@.store, final(self)@.store, r),
    {
        answered.written(&mut self.store, written)
    }

    /// Forgets a shell, which runs on.
    pub fn forget_shell(&self, server_key: &str, shell_hex: &str) -> (r: Result<Change, StoreError>)
        requires
            self.wf(),
        ensures
            self@.store.changed_to(
                server_key@,
                self@.store.servers[server_key@].shell_removed(shell_hex@),
                r,
            ),
    {
        self.store.remove_shell(server_key, shell_hex)
    }

    /// Renames a shell.
    pub fn rename_shell(&self, server_key: &str, shell_hex: &str, name: &str) -> (r: Result<
        Change,
        StoreError,
    >)
        requires
            self.wf(),
        ensures
            self@.store.changed_to(
                server_key@,
                self@.store.servers[server_key@].shell_renamed(shell_hex@, name@),
                r,
            ),
    {
        self.store.rename_shell(server_key, shell_hex, name)
    }

    /// Asks a server for a new shell.
    pub fn open_shell(&self, server_key: &str, name: &str, cols: u16, rows: u16) -> (r: Result<
        ServerCmd,
        CoreError,
    >)
        ensures
            self@.hands_over(server_key@, r),
            r matches Ok(cmd) ==> (cmd matches ServerCmd::Open { name: n, cols: w, rows: h } && n@
                == name@ && w == cols && h == rows),
    {
        self.send(server_key, ServerCmd::Open { name: name.to_owned(), cols, rows })
    }

    /// Asks a server to attach a shell.
    pub fn attach_shell(&self, server_key: &str, shell_hex: &str, cols: u16, rows: u16) -> (r: Result<
        ServerCmd,
        CoreError,
    >)
        ensures
            self@.hands_over(server_key@, r),
            r matches Ok(cmd) ==> (cmd matches ServerCmd::Attach { shell_hex: s, cols: w, rows: h }
                && s@ == shell_hex@ && w == cols && h == rows),
    {
        self.send(server_key, ServerCmd::Attach { shell_hex: shell_hex.to_owned(), cols, rows })
    }

    /// Sends input to a shell.
    pub fn shell_input(&self, server_key: &str, shell_hex: &str, bytes: Vec<u8>) -> (r: Result<
        ServerCmd,
        CoreError,
    >)
        ensures
            self@.hands_over(server_key@, r),
            r matches Ok(cmd) ==> (cmd matches ServerCmd::Input { shell_hex: s, bytes: b } && s@
                == shell_hex@ && b == bytes),
    {
        self.send(server_key, ServerCmd::Input { shell_hex: shell_hex.to_owned(), bytes })
    }

    /// Resizes a shell's terminal.
    pub fn resize_shell(&self, server_key: &str, shell_hex: &str, cols: u16, rows: u16) -> (r: Result<
        ServerCmd,
        CoreError,
    >)
        ensures
            self@.hands_over(server_key@, r),
            r matches Ok(cmd) ==> (cmd matches ServerCmd::Resize { shell_hex: s, cols: w, rows: h }
                && s@ == shell_hex@ && w == cols && h == rows),
    {
        self.send(server_key, ServerCmd::Resize { shell_hex: shell_hex.to_owned(), cols, rows })
    }

    /// Detaches a shell.
    pub fn detach_shell(&self, server_key: &str, shell_hex: &str) -> (r: Result<ServerCmd, CoreError>)
        ensures
            self@.hands_over(server_key@, r),
            r matches Ok(cmd) ==> (cmd matches ServerCmd::Detach { shell_hex: s } && s@
                == shell_hex@),
    {
        self.send(server_key, ServerCmd::Detach { shell_hex: shell_hex.to_owned() })
    }

    /// Asks a server to end a shell.
    pub fn terminate_shell(&self, server_key: &str, shell_hex: &str) -> (r: Result<
        ServerCmd,
        CoreError,
    >)
        ensures
            self@.hands_over(server_key@, r),
            r matches Ok(cmd) ==> (cmd matches ServerCmd::Terminate { shell_hex: s } && s@
                == shell_hex@),
    {
        self.send(server_key, ServerCmd::Terminate { shell_hex: shell_hex.to_owned() })
    }

    /// Asks for a page of a shell's history.
    pub fn request_history(
        &self,
        server_key: &str,
        shell_hex: &str,
        before_line_id: u64,
        max_lines: u32,
    ) -> (r: Result<ServerCmd, CoreError>)
        ensures
            self@.hands_over(server_key@, r),
            r matches Ok(cmd) ==> (cmd matches ServerCmd::History {
                shell_hex: s,
                before_line_id: line,
                max_lines: most,
            } && s@ == shell_hex@ && line == before_line_id && most == max_lines),
    {
        self.send(
            server_key,
            ServerCmd::History { shell_hex: shell_hex.to_owned(), before_line_id, max_lines },
        )
    }

    /// A command for the task of a server, if there is one.
    fn send(&self, server_key: &str, cmd: ServerCmd) -> (r: Result<ServerCmd, CoreError>)
        ensures
            self@.hands_over(server_key@, r),
            r matches Ok(c) ==> c == cmd,
    {
        if self.is_running(server_key) {
            Ok(cmd)
        } else {
            Err(CoreError::UnknownServer { server_key: server_key.to_owned() })
        }
    }

    /// Looks after a server from now on.
    fn start_supervisor(&mut self, server_key: &str)
        requires
            old(self).wf(),
        ensures
            final(self).wf(),
            final(self)@ == (CoreView {
                running: old(self)@.running.insert(server_key@),
                ..old(self)@
            }),
    {
        let ghost before = texts(self.running@);
        self.running.push(server_key.to_owned());
        proof {
            let after = texts(self.running@);
            assert(after =~= before.push(server_key@));
            assert forall|t: Seq<char>| after.to_set().contains(t) == before.to_set().insert(
                server_key@,
            ).contains(t) by {
                pushed_contains(before, server_key@, t);
            }
            assert(after.to_set() =~= before.to_set().insert(server_key@));
        }
    }

    /// Looks after a server no longer.
    fn stop_supervisor(&mut self, server_key: &str)
        requires
            old(self).wf(),
        ensures
            final(self).wf(),
            final(self)@ == (CoreView {
                running: old(self)@.running.remove(server_key@),
                ..old(self)@
            }),
    {
        let ghost all = texts(self.running@);
        let mut kept: Vec<String> = Vec::new();
        let mut i: usize = 0;
        while i < self.running.len()
            invariant
                i <= self.running.len(),
                all == texts(self.running@),
                *self == *old(self),
                forall|t: Seq<char>| #[trigger]
                    texts(kept@).contains(t) <==> t != server_key@ && all.take(i as int).contains(t),
            decreases self.running.len() - i,
        {
            let ghost before = texts(kept@);
            let ghost this = self.running@[i as int]@;
            let other: bool = !same(self.running[i].as_str(), server_key);
            if other {
                kept.push(self.running[i].as_str().to_owned());
            }
            proof {
                assert(all.take(i + 1) =~= all.take(i as int).push(this));
                assert forall|t: Seq<char>| #[trigger] texts(kept@).contains(t) <==> t != server_key@
                    && all.take(i + 1).contains(t) by {
                    if other {
                        assert(texts(kept@) =~= before.push(this));
                    }
                    pushed_contains(before, this, t);
                    pushed_contains(all.take(i as int), this, t);
                }
            }
            i = i + 1;
        }
        assert(all.take(i as int) =~= all);
        self.running = kept;
        assert(self@.running =~= old(self)@.running.remove(server_key@));
    }

    /// Whether a server is looked after.
    pub fn is_running(&self, server_key: &str) -> (r: bool)
        ensures
            r == self@.running.contains(server_key@),
    {
        proof {
            crate::grant::among_is_contains(self.running@, server_key@);
        }
        contains(&self.running, server_key)
    }
}

} // verus!
