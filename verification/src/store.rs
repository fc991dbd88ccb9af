//! What the desktop client remembers: its servers, their shells and the tokens to
//! resume them. Every change is worked out on a copy, written, and taken over only
//! once it is written.

use vstd::prelude::*;
use vstd::string::*;
use vstd::utf8::*;

use crate::assoc::{
    as_map, assign, empty_is_empty, find, has_key, lookup, position, unique, viewed, withdraw,
};
use crate::base64::{encoded, standard_text};
use crate::chance::random_8;
use crate::hex::{hex, hex_text};
use crate::text::{chars, contains, push_text, same, texts};

verus! {

/// The version of what is written.
pub const STORE_VERSION: u32 = 3;

/// The most bytes that are written or read.
pub const MAX_STATE_BYTES: usize = 8_388_608;

/// What a protected file starts with.
pub const PROTECTED_HEADER: &'static str = "HOLDFAST-DPAPI-1\n";

/// What the user is told whose saved logins were cleared.
pub const UPGRADE_WARNING: &'static str =
    "Saved login cleared on upgrade. Log in again; your shells have been retained.";

/// A shell that can be resumed.
#[derive(Debug, Clone, PartialEq, Eq)]
pub struct ShellRecord {
    /// The latest resume token, in base64.
    pub token: String,
    /// The key that the shell was opened with, in hexadecimal, by which it can be
    /// recovered.
    pub idempotency_key: Option<String>,
    pub name: String,
    pub last_attached_at_ms: i64,
}

/// A shell that was asked for and may or may not be open: its key was written
/// before the request was sent.
#[derive(Debug, Clone, PartialEq, Eq)]
pub struct PendingOpen {
    /// The key, in hexadecimal.
    pub idempotency_key: String,
    pub name: String,
}

/// A server and what is open there.
#[derive(Debug, Clone, PartialEq, Eq)]
pub struct ServerRecord {
    pub url: String,
    pub display_name: String,
    pub username: Option<String>,
    pub ssh_key_path: Option<String>,
    /// Whether the user wants the login kept.
    pub remember_login: bool,
    /// The grant, in base64; written only where the login is to be kept.
    pub grant: Option<String>,
    /// The shells, by their identifiers in hexadecimal.
    pub shells: Vec<(String, ShellRecord)>,
    pub pending_opens: Vec<PendingOpen>,
}

/// All that is remembered.
#[derive(Debug, Clone, PartialEq, Eq)]
pub struct StoreData {
    pub version: u32,
    /// The servers, by random keys.
    pub servers: Vec<(String, ServerRecord)>,
}

/// A shell that can be resumed.
#[verifier::ext_equal]
pub struct ShellModel {
    pub token: Seq<char>,
    pub idempotency_key: Option<Seq<char>>,
    pub name: Seq<char>,
    pub last_attached_at_ms: i64,
}

/// A shell that was asked for.
#[verifier::ext_equal]
pub struct PendingModel {
    pub idempotency_key: Seq<char>,
    pub name: Seq<char>,
}

/// A server and what is open there.
#[verifier::ext_equal]
pub struct ServerModel {
    pub url: Seq<char>,
    pub display_name: Seq<char>,
    pub username: Option<Seq<char>>,
    pub ssh_key_path: Option<Seq<char>>,
    pub remember_login: bool,
    pub grant: Option<Seq<char>>,
    pub shells: Map<Seq<char>, ShellModel>,
    pub pending_opens: Seq<PendingModel>,
}

/// All that is remembered.
#[verifier::ext_equal]
pub struct StoreModel {
    pub version: u32,
    pub servers: Map<Seq<char>, ServerModel>,
}

/// A text that may be missing.
pub open spec fn opt_view(s: Option<String>) -> Option<Seq<char>> {
    match s {
        Some(t) => Some(t@),
        None => None,
    }
}

/// The pending opens.
pub open spec fn pending_views(list: Seq<PendingOpen>) -> Seq<PendingModel> {
    Seq::new(list.len(), |i: int| list[i]@)
}

impl View for ShellRecord {
    type V = ShellModel;

    open spec fn view(&self) -> ShellModel {
        ShellModel {
            token: self.token@,
            idempotency_key: opt_view(self.idempotency_key),
            name: self.name@,
            last_attached_at_ms: self.last_attached_at_ms,
        }
    }
}

impl View for PendingOpen {
    type V = PendingModel;

    open spec fn view(&self) -> PendingModel {
        PendingModel { idempotency_key: self.idempotency_key@, name: self.name@ }
    }
}

impl View for ServerRecord {
    type V = ServerModel;

    open spec fn view(&self) -> ServerModel {
        ServerModel {
            url: self.url@,
            display_name: self.display_name@,
            username: opt_view(self.username),
            ssh_key_path: opt_view(self.ssh_key_path),
            remember_login: self.remember_login,
            grant: opt_view(self.grant),
            shells: as_map(viewed(self.shells@)),
            pending_opens: pending_views(self.pending_opens@),
        }
    }
}

impl View for StoreData {
    type V = StoreModel;

    open spec fn view(&self) -> StoreModel {
        StoreModel { version: self.version, servers: as_map(viewed(self.servers@)) }
    }
}

fn copy_opt(s: &Option<String>) -> (r: Option<String>)
    ensures
        opt_view(r) == opt_view(*s),
{
    match s {
        Some(t) => Some(t.as_str().to_owned()),
        None => None,
    }
}

impl ShellRecord {
    /// A copy.
    pub fn copy(&self) -> (r: ShellRecord)
        ensures
            r@ == self@,
    {
        ShellRecord {
            token: self.token.as_str().to_owned(),
            idempotency_key: copy_opt(&self.idempotency_key),
            name: self.name.as_str().to_owned(),
            last_attached_at_ms: self.last_attached_at_ms,
        }
    }
}

impl PendingOpen {
    /// A copy.
    pub fn copy(&self) -> (r: PendingOpen)
        ensures
            r@ == self@,
    {
        PendingOpen {
            idempotency_key: self.idempotency_key.as_str().to_owned(),
            name: self.name.as_str().to_owned(),
        }
    }
}

/// Without the pending opens of a key.
pub open spec fn without_pending(list: Seq<PendingModel>, key: Seq<char>) -> Seq<PendingModel>
    decreases list.len(),
{
    if list.len() == 0 {
        Seq::empty()
    } else if list.last().idempotency_key == key {
        without_pending(list.drop_last(), key)
    } else {
        without_pending(list.drop_last(), key).push(list.last())
    }
}

/// The name of the first pending open of a key, or a plain one where there is
/// none.
pub open spec fn pending_name(list: Seq<PendingModel>, key: Seq<char>) -> Seq<char>
    decreases list.len(),
{
    if list.len() == 0 {
        "shell"@
    } else if list[0].idempotency_key == key {
        list[0].name
    } else {
        pending_name(list.drop_first(), key)
    }
}

impl ServerModel {
    /// With a new grant, unless it is empty.
    pub open spec fn granted(self, grant: Seq<u8>) -> ServerModel {
        if grant.len() == 0 {
            self
        } else {
            ServerModel { grant: Some(encoded(grant, false, true)), ..self }
        }
    }

    /// With a shell that was asked for.
    pub open spec fn pending_pushed(self, key: Seq<char>, name: Seq<char>) -> ServerModel {
        ServerModel {
            pending_opens: self.pending_opens.push(PendingModel { idempotency_key: key, name }),
            ..self
        }
    }

    /// With a shell that was asked for and is open.
    pub open spec fn pending_resolved(
        self,
        key: Seq<char>,
        shell: Seq<char>,
        token: Seq<u8>,
        now_ms: i64,
    ) -> ServerModel {
        ServerModel {
            pending_opens: without_pending(self.pending_opens, key),
            shells: self.shells.insert(
                shell,
                ShellModel {
                    token: encoded(token, false, true),
                    idempotency_key: Some(key),
                    name: pending_name(self.pending_opens, key),
                    last_attached_at_ms: now_ms,
                },
            ),
            ..self
        }
    }

    /// Without a shell that was asked for.
    pub open spec fn pending_dropped(self, key: Seq<char>) -> ServerModel {
        ServerModel { pending_opens: without_pending(self.pending_opens, key), ..self }
    }

    /// With a shell's new token, where the shell is known.
    pub open spec fn token_updated(self, shell: Seq<char>, token: Seq<u8>, now_ms: i64) -> ServerModel {
        if self.shells.dom().contains(shell) {
            ServerModel {
                shells: self.shells.insert(
                    shell,
                    ShellModel {
                        token: encoded(token, false, true),
                        last_attached_at_ms: now_ms,
                        ..self.shells[shell]
                    },
                ),
                ..self
            }
        } else {
            self
        }
    }

    /// Without a shell.
    pub open spec fn shell_removed(self, shell: Seq<char>) -> ServerModel {
        ServerModel { shells: self.shells.remove(shell), ..self }
    }

    /// With a shell's new name, where the shell is known.
    pub open spec fn shell_renamed(self, shell: Seq<char>, name: Seq<char>) -> ServerModel {
        if self.shells.dom().contains(shell) {
            ServerModel {
                shells: self.shells.insert(shell, ShellModel { name, ..self.shells[shell] }),
                ..self
            }
        } else {
            self
        }
    }

    /// As it is written: without the grant where the login is not to be kept.
    pub open spec fn stripped(self) -> ServerModel {
        if self.remember_login {
            self
        } else {
            ServerModel { grant: None, ..self }
        }
    }

    /// As an older version's is taken over: nobody was asked whether the login is
    /// to be kept, so that it is not.
    pub open spec fn migrated(self) -> ServerModel {
        ServerModel { remember_login: false, grant: None, ..self }
    }
}

impl ServerRecord {
    /// Whether no shell occurs twice.
    pub open spec fn wf(&self) -> bool {
        unique(viewed(self.shells@))
    }

    /// A copy.
    pub fn copy(&self) -> (r: ServerRecord)
        requires
            self.wf(),
        ensures
            r.wf(),
            r@ == self@,
    {
        let mut shells: Vec<(String, ShellRecord)> = Vec::new();
        let mut i: usize = 0;
        assert(viewed(shells@) =~= viewed(self.shells@).take(0));
        while i < self.shells.len()
            invariant
                i <= self.shells.len(),
                viewed(shells@) == viewed(self.shells@).take(i as int),
            decreases self.shells.len() - i,
        {
            let ghost before = viewed(shells@);
            shells.push((self.shells[i].0.as_str().to_owned(), self.shells[i].1.copy()));
            i = i + 1;
            assert(viewed(shells@) =~= before.push(viewed(self.shells@)[i - 1]));
            assert(viewed(shells@) =~= viewed(self.shells@).take(i as int));
        }
        assert(viewed(shells@) =~= viewed(self.shells@));
        let mut pending: Vec<PendingOpen> = Vec::new();
        let mut i: usize = 0;
        assert(pending_views(pending@) =~= pending_views(self.pending_opens@).take(0));
        while i < self.pending_opens.len()
            invariant
                i <= self.pending_opens.len(),
                pending_views(pending@) == pending_views(self.pending_opens@).take(i as int),
            decreases self.pending_opens.len() - i,
        {
            let ghost before = pending_views(pending@);
            pending.push(self.pending_opens[i].copy());
            i = i + 1;
            assert(pending_views(pending@) =~= before.push(
                pending_views(self.pending_opens@)[i - 1],
            ));
            assert(pending_views(pending@) =~= pending_views(self.pending_opens@).take(i as int));
        }
        assert(pending_views(pending@) =~= pending_views(self.pending_opens@));
        ServerRecord {
            url: self.url.as_str().to_owned(),
            display_name: self.display_name.as_str().to_owned(),
            username: copy_opt(&self.username),
            ssh_key_path: copy_opt(&self.ssh_key_path),
            remember_login: self.remember_login,
            grant: copy_opt(&self.grant),
            shells,
            pending_opens: pending,
        }
    }

    fn set_grant(&mut self, grant: &[u8])
        requires
            old(self).wf(),
        ensures
            final(self).wf(),
            final(self)@ == old(self)@.granted(grant@),
    {
        if grant.len() > 0 {
            self.grant = Some(standard_text(grant));
        }
    }

    fn push_pending_open(&mut self, key: &str, name: &str)
        requires
            old(self).wf(),
        ensures
            final(self).wf(),
            final(self)@ == old(self)@.pending_pushed(key@, name@),
    {
        let ghost before = pending_views(self.pending_opens@);
        let entry = PendingOpen { idempotency_key: key.to_owned(), name: name.to_owned() };
        let ghost entry_view = entry@;
        self.pending_opens.push(entry);
        assert(pending_views(self.pending_opens@) =~= before.push(entry_view));
    }

    fn drop_pending_open(&mut self, key: &str)
        requires
            old(self).wf(),
        ensures
            final(self).wf(),
            final(self)@ == old(self)@.pending_dropped(key@),
    {
        let ghost all = pending_views(self.pending_opens@);
        let mut kept: Vec<PendingOpen> = Vec::new();
        let mut i: usize = 0;
        assert(all.take(0) =~= Seq::empty());
        assert(pending_views(kept@) =~= Seq::empty());
        while i < self.pending_opens.len()
            invariant
                i <= self.pending_opens.len(),
                all == pending_views(self.pending_opens@),
                pending_views(kept@) == without_pending(all.take(i as int), key@),
            decreases self.pending_opens.len() - i,
        {
            assert(all.take(i + 1).drop_last() =~= all.take(i as int));
            assert(all.take(i + 1).last() == self.pending_opens@[i as int]@);
            if !same(self.pending_opens[i].idempotency_key.as_str(), key) {
                let ghost before = pending_views(kept@);
                kept.push(self.pending_opens[i].copy());
                assert(pending_views(kept@) =~= before.push(all[i as int]));
            }
            i = i + 1;
        }
        assert(all.take(i as int) =~= all);
        self.pending_opens = kept;
    }

    fn pending_open_name(&self, key: &str) -> (r: String)
        ensures
            r@ == pending_name(self@.pending_opens, key@),
    {
        let ghost all = pending_views(self.pending_opens@);
        let mut i: usize = 0;
        assert(all.skip(0) =~= all);
        while i < self.pending_opens.len()
            invariant
                i <= self.pending_opens.len(),
                all == pending_views(self.pending_opens@),
                pending_name(all, key@) == pending_name(all.skip(i as int), key@),
            decreases self.pending_opens.len() - i,
        {
            assert(all.skip(i as int)[0] == self.pending_opens@[i as int]@);
            assert(all.skip(i as int).drop_first() =~= all.skip(i + 1));
            if same(self.pending_opens[i].idempotency_key.as_str(), key) {
                return self.pending_opens[i].name.as_str().to_owned();
            }
            i = i + 1;
        }
        "shell".to_owned()
    }

    fn resolve_pending_open(&mut self, key: &str, shell: &str, token: &[u8], now_ms: i64)
        requires
            old(self).wf(),
        ensures
            final(self).wf(),
            final(self)@ == old(self)@.pending_resolved(key@, shell@, token@, now_ms),
    {
        let name: String = self.pending_open_name(key);
        self.drop_pending_open(key);
        let record = ShellRecord {
            token: standard_text(token),
            idempotency_key: Some(key.to_owned()),
            name,
            last_attached_at_ms: now_ms,
        };
        assign(&mut self.shells, shell.to_owned(), record);
    }

    fn update_token(&mut self, shell: &str, token: &[u8], now_ms: i64)
        requires
            old(self).wf(),
        ensures
            final(self).wf(),
            final(self)@ == old(self)@.token_updated(shell@, token@, now_ms),
    {
        match find(&self.shells, shell) {
            Some(i) => {
                let ghost views = viewed(self.shells@);
                let record = ShellRecord {
                    token: standard_text(token),
                    idempotency_key: copy_opt(&self.shells[i].1.idempotency_key),
                    name: self.shells[i].1.name.as_str().to_owned(),
                    last_attached_at_ms: now_ms,
                };
                assign(&mut self.shells, shell.to_owned(), record);
            },
            None => {},
        }
    }

    fn remove_shell(&mut self, shell: &str)
        requires
            old(self).wf(),
        ensures
            final(self).wf(),
            final(self)@ == old(self)@.shell_removed(shell@),
    {
        withdraw(&mut self.shells, shell);
    }

    fn rename_shell(&mut self, shell: &str, name: &str)
        requires
            old(self).wf(),
        ensures
            final(self).wf(),
            final(self)@ == old(self)@.shell_renamed(shell@, name@),
    {
        match find(&self.shells, shell) {
            Some(i) => {
                let mut record: ShellRecord = self.shells[i].1.copy();
                record.name = name.to_owned();
                assign(&mut self.shells, shell.to_owned(), record);
            },
            None => {},
        }
    }

    fn strip(&mut self)
        requires
            old(self).wf(),
        ensures
            final(self).wf(),
            final(self)@ == old(self)@.stripped(),
    {
        if !self.remember_login {
            self.grant = None;
        }
    }

    fn migrate(&mut self)
        requires
            old(self).wf(),
        ensures
            final(self).wf(),
            final(self)@ == old(self)@.migrated(),
    {
        self.remember_login = false;
        self.grant = None;
    }
}

/// Why the store refuses something.
#[derive(Debug, Clone, Copy, PartialEq, Eq, Structural)]
pub enum StoreError {
    /// There is no such server.
    UnknownServer,
    /// What was read is of a later version.
    NewerSchema { version: u32 },
    /// What was read is of this version and not protected, where it must be.
    Unprotected,
    /// What is to be read or written is too large.
    TooLarge,
    /// What was to be written is not.
    NotWritten,
}

impl StoreModel {
    /// Nothing is remembered.
    pub open spec fn empty() -> StoreModel {
        StoreModel { version: STORE_VERSION, servers: Map::empty() }
    }

    /// With a server changed or added.
    pub open spec fn with(self, key: Seq<char>, server: ServerModel) -> StoreModel {
        StoreModel { servers: self.servers.insert(key, server), ..self }
    }

    /// Whether a server was changed to a new state, or there is none of that key.
    pub open spec fn changed_to(
        self,
        key: Seq<char>,
        server: ServerModel,
        r: Result<Change, StoreError>,
    ) -> bool {
        if self.servers.dom().contains(key) {
            r matches Ok(change) && change.wf() && change.base() == self && change@ == self.with(
                key,
                server,
            )
        } else {
            r matches Err(e) && e == StoreError::UnknownServer
        }
    }

    /// As it is written: no login that is not to be kept.
    pub open spec fn stripped(self) -> StoreModel {
        StoreModel { servers: self.servers.map_values(|s: ServerModel| s.stripped()), ..self }
    }

    /// As it is taken over from what was read: from an older version without any
    /// login.
    pub open spec fn taken_over(self) -> StoreModel {
        StoreModel {
            version: STORE_VERSION,
            servers: self.servers.map_values(
                |s: ServerModel|
                    if self.version < STORE_VERSION {
                        s.migrated()
                    } else {
                        s.stripped()
                    },
            ),
        }
    }
}

impl Default for StoreData {
    /// Nothing is remembered.
    fn default() -> (r: StoreData)
        ensures
            r.wf(),
            r@ == StoreModel::empty(),
    {
        let r = StoreData { version: STORE_VERSION, servers: Vec::new() };
        proof {
            empty_is_empty(viewed(r.servers@));
        }
        r
    }
}

impl StoreData {
    /// Whether no server occurs twice, and no shell within one.
    pub open spec fn wf(&self) -> bool {
        &&& unique(viewed(self.servers@))
        &&& forall|i: int| 0 <= i < self.servers@.len() ==> (#[trigger] self.servers@[i]).1.wf()
    }

    /// A copy.
    pub fn copy(&self) -> (r: StoreData)
        requires
            self.wf(),
        ensures
            r.wf(),
            r@ == self@,
            r.servers@.len() == self.servers@.len(),
            viewed(r.servers@) == viewed(self.servers@),
    {
        let mut servers: Vec<(String, ServerRecord)> = Vec::new();
        let mut i: usize = 0;
        assert(viewed(servers@) =~= viewed(self.servers@).take(0));
        while i < self.servers.len()
            invariant
                i <= self.servers.len(),
                self.wf(),
                viewed(servers@) == viewed(self.servers@).take(i as int),
                servers@.len() == i,
                forall|k: int| 0 <= k < i ==> (#[trigger] servers@[k]).1.wf(),
            decreases self.servers.len() - i,
        {
            let ghost before = viewed(servers@);
            let record: ServerRecord = self.servers[i].1.copy();
            servers.push((self.servers[i].0.as_str().to_owned(), record));
            i = i + 1;
            assert(viewed(servers@) =~= before.push(viewed(self.servers@)[i - 1]));
            assert(viewed(servers@) =~= viewed(self.servers@).take(i as int));
        }
        assert(viewed(servers@) =~= viewed(self.servers@));
        StoreData { version: self.version, servers }
    }

    /// What is written of it.
    pub fn persisted(&self) -> (r: StoreData)
        requires
            self.wf(),
        ensures
            r.wf(),
            r@ == self@.stripped(),
    {
        let mut r: StoreData = self.copy();
        let ghost first = viewed(self.servers@);
        let mut i: usize = 0;
        while i < r.servers.len()
            invariant
                i <= r.servers.len(),
                r.version == self.version,
                r.servers@.len() == first.len(),
                forall|k: int| 0 <= k < first.len() ==> (#[trigger] r.servers@[k]).1.wf(),
                forall|k: int| 0 <= k < first.len() ==> (#[trigger] r.servers@[k]).0@ == first[k].0,
                forall|k: int|
                    0 <= k < i ==> (#[trigger] r.servers@[k]).1@ == first[k].1.stripped(),
                forall|k: int| i <= k < first.len() ==> (#[trigger] r.servers@[k]).1@ == first[k].1,
            decreases r.servers.len() - i,
        {
            let ghost before = r.servers@;
            r.servers[i].1.strip();
            assert forall|k: int| 0 <= k < first.len() && k != i implies #[trigger] r.servers@[k]
                == before[k] by {}
            i = i + 1;
        }
        proof {
            map_of_changed(first, viewed(r.servers@), |s: ServerModel| s.stripped());
        }
        r
    }
}

/// Where every value of a list is changed in the same way, so is every value of
/// its map.
proof fn map_of_changed(
    before: Seq<(Seq<char>, ServerModel)>,
    after: Seq<(Seq<char>, ServerModel)>,
    change: spec_fn(ServerModel) -> ServerModel,
)
    requires
        unique(before),
        after.len() == before.len(),
        forall|k: int| 0 <= k < before.len() ==> (#[trigger] after[k]).0 == before[k].0,
        forall|k: int| 0 <= k < before.len() ==> (#[trigger] after[k]).1 == change(before[k].1),
    ensures
        unique(after),
        as_map(after) == as_map(before).map_values(change),
{
    assert forall|a: int, b: int|
        0 <= a < after.len() && 0 <= b < after.len() && after[a].0 == after[b].0 implies a == b by {
        assert(before[a].0 == before[b].0);
    }
    assert forall|c: Seq<char>| has_key(after, c) == has_key(before, c) by {
        if has_key(after, c) {
            let k = position(after, c);
            assert(before[k].0 == c);
        }
        if has_key(before, c) {
            let k = position(before, c);
            assert(after[k].0 == c);
        }
    }
    let left = as_map(after);
    let right = as_map(before).map_values(change);
    assert(left.dom() =~= right.dom());
    assert forall|c: Seq<char>| left.dom().contains(c) implies left[c] == right[c] by {
        let k = position(after, c);
        lookup(after, k);
        lookup(before, k);
    }
    assert(left =~= right);
}

/// A change that was worked out and is not written yet.
///
/// It was worked out from a state of the store, and it is taken over only while
/// that is still the store's state, so that no other change gets lost.
pub struct Change {
    data: StoreData,
    base: Ghost<StoreModel>,
}

impl View for Change {
    type V = StoreModel;

    closed spec fn view(&self) -> StoreModel {
        self.data@
    }
}

impl Change {
    /// Whether nothing occurs twice, and the version is this one.
    pub closed spec fn wf(&self) -> bool {
        self.data.wf() && self.data.version == STORE_VERSION
    }

    /// The state that it was worked out from.
    pub closed spec fn base(&self) -> StoreModel {
        self.base@
    }

    /// A change is of this version.
    pub proof fn wf_is_current(&self)
        requires
            self.wf(),
        ensures
            self@.version == STORE_VERSION,
    {
    }

    /// What is to be written before the change is taken over.
    pub fn to_write(&self) -> (r: StoreData)
        requires
            self.wf(),
        ensures
            r.wf(),
            r@ == self@.stripped(),
    {
        self.data.persisted()
    }
}

/// What the client remembers.
pub struct Store {
    data: StoreData,
}

impl View for Store {
    type V = StoreModel;

    closed spec fn view(&self) -> StoreModel {
        self.data@
    }
}

/// What reading gives: the state that is taken over and whether the user is told
/// that logins were cleared, or why nothing is taken over.
pub open spec fn loading(found: Option<StoreModel>, protects: bool, protected: bool) -> Result<
    (StoreModel, bool),
    StoreError,
> {
    match found {
        None => Ok((StoreModel::empty(), false)),
        Some(data) => if data.version > STORE_VERSION {
            Err(StoreError::NewerSchema { version: data.version })
        } else if protects && !protected && data.version == STORE_VERSION {
            Err(StoreError::Unprotected)
        } else {
            Ok((data.taken_over(), data.version < STORE_VERSION))
        },
    }
}

/// What was taken over, and what the user is to be told of it. Where the user is
/// told something, it is written before anything else is done with it.
pub struct Loaded {
    pub store: Store,
    pub warning: Option<String>,
}

impl Store {
    /// Whether nothing occurs twice, and the version is this one.
    pub closed spec fn wf(&self) -> bool {
        self.data.wf() && self.data.version == STORE_VERSION
    }

    /// A store is of this version.
    pub proof fn wf_is_current(&self)
        requires
            self.wf(),
        ensures
            self@.version == STORE_VERSION,
    {
    }

    /// Takes over what was read, if anything was; `protects` says whether what is
    /// written must be protected, and `protected` whether what was read was. A
    /// later version is refused. An older one was written before anybody was
    /// asked whether logins are to be kept: they are cleared.
    pub fn load(found: Option<StoreData>, protects: bool, protected: bool) -> (r: Result<
        Loaded,
        StoreError,
    >)
        requires
            found matches Some(data) ==> data.wf(),
        ensures
            match loading(
                match found {
                    Some(data) => Some(data@),
                    None => None,
                },
                protects,
                protected,
            ) {
                Err(e) => r matches Err(fault) && fault == e,
                Ok((model, warns)) => {
                    &&& r matches Ok(l)
                    &&& l.store.wf()
                    &&& l.store@ == model
                    &&& l.warning is Some <==> warns
                    &&& l.warning matches Some(w) ==> w@ == UPGRADE_WARNING@
                },
            },
    {
        let mut data: StoreData = match found {
            Some(data) => data,
            None => {
                return Ok(Loaded { store: Store { data: StoreData::default() }, warning: None });
            },
        };
        if data.version > STORE_VERSION {
            return Err(StoreError::NewerSchema { version: data.version });
        }
        let migrated: bool = data.version < STORE_VERSION;
        if protects && !protected && !migrated {
            return Err(StoreError::Unprotected);
        }
        let ghost model = data@;
        let ghost first = viewed(data.servers@);
        let ghost change = |s: ServerModel|
            if model.version < STORE_VERSION {
                s.migrated()
            } else {
                s.stripped()
            };
        let mut i: usize = 0;
        while i < data.servers.len()
            invariant
                i <= data.servers.len(),
                data.servers@.len() == first.len(),
                migrated == (model.version < STORE_VERSION),
                change == (|s: ServerModel|
                    if model.version < STORE_VERSION {
                        s.migrated()
                    } else {
                        s.stripped()
                    }),
                forall|k: int| 0 <= k < first.len() ==> (#[trigger] data.servers@[k]).1.wf(),
                forall|k: int|
                    0 <= k < first.len() ==> (#[trigger] data.servers@[k]).0@ == first[k].0,
                forall|k: int|
                    0 <= k < i ==> (#[trigger] data.servers@[k]).1@ == change(first[k].1),
                forall|k: int|
                    i <= k < first.len() ==> (#[trigger] data.servers@[k]).1@ == first[k].1,
            decreases data.servers.len() - i,
        {
            let ghost before = data.servers@;
            if migrated {
                data.servers[i].1.migrate();
            } else {
                data.servers[i].1.strip();
            }
            assert forall|k: int| 0 <= k < first.len() && k != i implies #[trigger] data.servers@[k]
                == before[k] by {}
            i = i + 1;
        }
        proof {
            map_of_changed(first, viewed(data.servers@), change);
        }
        data.version = STORE_VERSION;
        let warning: Option<String> = if migrated {
            Some(UPGRADE_WARNING.to_owned())
        } else {
            None
        };
        Ok(Loaded { store: Store { data }, warning })
    }

    /// Takes over a change if it was written, and nothing of it otherwise.
    pub fn settle(&mut self, change: Change, written: bool) -> (r: Result<(), StoreError>)
        requires
            old(self).wf(),
            change.wf(),
            change.base() == old(self)@,
        ensures
            final(self).wf(),
            r is Ok <==> written,
            r matches Err(e) ==> e == StoreError::NotWritten,
            final(self)@ == (if written {
                change@
            } else {
                old(self)@
            }),
    {
        if !written {
            return Err(StoreError::NotWritten);
        }
        self.data = change.data;
        Ok(())
    }

    /// A copy of all that is remembered.
    pub fn snapshot(&self) -> (r: StoreData)
        requires
            self.wf(),
        ensures
            r.wf(),
            r@ == self@,
    {
        self.data.copy()
    }

    /// A copy of a server.
    pub fn server(&self, key: &str) -> (r: Option<ServerRecord>)
        requires
            self.wf(),
        ensures
            r is Some <==> self@.servers.dom().contains(key@),
            r matches Some(record) ==> record.wf() && record@ == self@.servers[key@],
    {
        match find(&self.data.servers, key) {
            Some(i) => Some(self.data.servers[i].1.copy()),
            None => None,
        }
    }

    /// A copy of a shell of a server.
    pub fn shell(&self, key: &str, shell_hex: &str) -> (r: Option<ShellRecord>)
        requires
            self.wf(),
        ensures
            r is Some <==> self@.servers.dom().contains(key@)
                && self@.servers[key@].shells.dom().contains(shell_hex@),
            r matches Some(record) ==> record@ == self@.servers[key@].shells[shell_hex@],
    {
        match find(&self.data.servers, key) {
            Some(i) => {
                let record: &ServerRecord = &self.data.servers[i].1;
                match find(&record.shells, shell_hex) {
                    Some(k) => Some(record.shells[k].1.copy()),
                    None => None,
                }
            },
            None => None,
        }
    }

    fn changed(&self, key: &str, record: ServerRecord) -> (r: Change)
        requires
            self.wf(),
            record.wf(),
        ensures
            r.wf(),
            r.base() == self@,
            r@ == self@.with(key@, record@),
    {
        let mut data: StoreData = self.data.copy();
        let ghost before = data.servers@;
        assign(&mut data.servers, key.to_owned(), record);
        assert forall|k: int| 0 <= k < data.servers@.len() implies (
        #[trigger] data.servers@[k]).1.wf() by {
            if data.servers@[k].1 != record {
                let j = choose|j: int| 0 <= j < before.len() && before[j] == data.servers@[k];
                assert(before[j].1.wf());
            }
        }
        Change { data, base: Ghost(self@) }
    }

    /// Adds a server under a key.
    pub fn add_server_as(&self, key: &str, record: ServerRecord) -> (r: Change)
        requires
            self.wf(),
            record.wf(),
        ensures
            r.wf(),
            r.base() == self@,
            r@ == self@.with(key@, record@),
    {
        self.changed(key, record)
    }

    /// Adds a server under a random key.
    pub fn add_server(&self, record: ServerRecord) -> (r: (String, Change))
        requires
            self.wf(),
            record.wf(),
        ensures
            is_server_key(r.0@),
            r.1.wf(),
            r.1.base() == self@,
            r.1@ == self@.with(r.0@, record@),
    {
        let key: String = new_server_key();
        let change: Change = self.changed(key.as_str(), record);
        (key, change)
    }

    /// Removes a server, if it is there.
    pub fn remove_server(&self, key: &str) -> (r: Change)
        requires
            self.wf(),
        ensures
            r.wf(),
            r.base() == self@,
            r@ == (StoreModel { servers: self@.servers.remove(key@), ..self@ }),
    {
        let mut data: StoreData = self.data.copy();
        let ghost before = data.servers@;
        withdraw(&mut data.servers, key);
        assert forall|k: int| 0 <= k < data.servers@.len() implies (
        #[trigger] data.servers@[k]).1.wf() by {
            let j = choose|j: int| 0 <= j < before.len() && before[j] == data.servers@[k];
            assert(before[j].1.wf());
        }
        Change { data, base: Ghost(self@) }
    }

    /// Sets whether a server's login is to be kept.
    pub fn set_remember_login(&self, key: &str, remember: bool) -> (r: Result<Change, StoreError>)
        requires
            self.wf(),
        ensures
            self.outcome(
                key@,
                ServerModel { remember_login: remember, ..self@.servers[key@] },
                r,
            ),
    {
        match self.server(key) {
            Some(record) => {
                let mut record = record;
                record.remember_login = remember;
                Ok(self.changed(key, record))
            },
            None => Err(StoreError::UnknownServer),
        }
    }

    /// Whether a server was changed to a new state, or there is none of that key.
    pub open spec fn outcome(
        &self,
        key: Seq<char>,
        server: ServerModel,
        r: Result<Change, StoreError>,
    ) -> bool {
        self@.changed_to(key, server, r)
    }

    /// Sets a server's grant, unless it is empty.
    pub fn set_grant(&self, key: &str, grant: &[u8]) -> (r: Result<Change, StoreError>)
        requires
            self.wf(),
        ensures
            self.outcome(key@, self@.servers[key@].granted(grant@), r),
    {
        match self.server(key) {
            Some(record) => {
                let mut record = record;
                record.set_grant(grant);
                Ok(self.changed(key, record))
            },
            None => Err(StoreError::UnknownServer),
        }
    }

    /// Notes a shell that is about to be asked for.
    pub fn push_pending_open(&self, key: &str, idempotency_key_hex: &str, name: &str) -> (r: Result<
        Change,
        StoreError,
    >)
        requires
            self.wf(),
        ensures
            self.outcome(
                key@,
                self@.servers[key@].pending_pushed(idempotency_key_hex@, name@),
                r,
            ),
    {
        match self.server(key) {
            Some(record) => {
                let mut record = record;
                record.push_pending_open(idempotency_key_hex, name);
                Ok(self.changed(key, record))
            },
            None => Err(StoreError::UnknownServer),
        }
    }

    /// Turns a shell that was asked for into one that is open.
    pub fn resolve_pending_open(
        &self,
        key: &str,
        idempotency_key_hex: &str,
        shell_hex: &str,
        token: &[u8],
        now_ms: i64,
    ) -> (r: Result<Change, StoreError>)
        requires
            self.wf(),
        ensures
            self.outcome(
                key@,
                self@.servers[key@].pending_resolved(
                    idempotency_key_hex@,
                    shell_hex@,
                    token@,
                    now_ms,
                ),
                r,
            ),
    {
        match self.server(key) {
            Some(record) => {
                let mut record = record;
                record.resolve_pending_open(idempotency_key_hex, shell_hex, token, now_ms);
                Ok(self.changed(key, record))
            },
            None => Err(StoreError::UnknownServer),
        }
    }

    /// Forgets a shell that was asked for.
    pub fn drop_pending_open(&self, key: &str, idempotency_key_hex: &str) -> (r: Result<
        Change,
        StoreError,
    >)
        requires
            self.wf(),
        ensures
            self.outcome(key@, self@.servers[key@].pending_dropped(idempotency_key_hex@), r),
    {
        match self.server(key) {
            Some(record) => {
                let mut record = record;
                record.drop_pending_open(idempotency_key_hex);
                Ok(self.changed(key, record))
            },
            None => Err(StoreError::UnknownServer),
        }
    }

    /// Sets a shell's new token; its name and its key stay.
    pub fn update_token(&self, key: &str, shell_hex: &str, token: &[u8], now_ms: i64) -> (r: Result<
        Change,
        StoreError,
    >)
        requires
            self.wf(),
        ensures
            self.outcome(
                key@,
                self@.servers[key@].token_updated(shell_hex@, token@, now_ms),
                r,
            ),
    {
        match self.server(key) {
            Some(record) => {
                let mut record = record;
                record.update_token(shell_hex, token, now_ms);
                Ok(self.changed(key, record))
            },
            None => Err(StoreError::UnknownServer),
        }
    }

    /// Forgets a shell.
    pub fn remove_shell(&self, key: &str, shell_hex: &str) -> (r: Result<Change, StoreError>)
        requires
            self.wf(),
        ensures
            self.outcome(key@, self@.servers[key@].shell_removed(shell_hex@), r),
    {
        match self.server(key) {
            Some(record) => {
                let mut record = record;
                record.remove_shell(shell_hex);
                Ok(self.changed(key, record))
            },
            None => Err(StoreError::UnknownServer),
        }
    }

    /// Renames a shell.
    pub fn rename_shell(&self, key: &str, shell_hex: &str, name: &str) -> (r: Result<
        Change,
        StoreError,
    >)
        requires
            self.wf(),
        ensures
            self.outcome(key@, self@.servers[key@].shell_renamed(shell_hex@, name@), r),
    {
        match self.server(key) {
            Some(record) => {
                let mut record = record;
                record.rename_shell(shell_hex, name);
                Ok(self.changed(key, record))
            },
            None => Err(StoreError::UnknownServer),
        }
    }
}

/// Whether a text is a key of a server: eight bytes in hexadecimal.
pub open spec fn is_server_key(key: Seq<char>) -> bool {
    exists|bytes: Seq<u8>| bytes.len() == 8 && key == #[trigger] hex_text(bytes)
}

/// A random key for a server.
fn new_server_key() -> (r: String)
    ensures
        is_server_key(r@),
{
    let bytes: [u8; 8] = random_8();
    let key: String = hex(bytes.as_slice());
    assert(bytes@.len() == 8 && key@ == hex_text(bytes@));
    key
}

/// Nothing that is written holds a login that is not to be kept, whatever else
/// is written.
pub proof fn forgotten_logins_are_not_written(store: StoreModel, key: Seq<char>)
    requires
        store.servers.dom().contains(key),
        !store.servers[key].remember_login,
    ensures
        store.stripped().servers[key].grant is None,
{
}

/// What is written is what is taken over when it is read again, and nobody is
/// told anything: all is as it was but for logins that are not to be kept.
pub proof fn writes_read_back(store: StoreModel)
    requires
        store.version == STORE_VERSION,
    ensures
        store.stripped().taken_over() == store.stripped(),
        store.stripped().servers.dom() == store.servers.dom(),
        forall|key: Seq<char>| #[trigger]
            store.servers.dom().contains(key) ==> {
                &&& store.stripped().servers[key].shells == store.servers[key].shells
                &&& store.stripped().servers[key].pending_opens == store.servers[key].pending_opens
                &&& store.servers[key].remember_login ==> store.stripped().servers[key]
                    == store.servers[key]
            },
{
    assert(store.stripped().taken_over().servers =~= store.stripped().servers);
}

/// A file and the store that goes with it.
pub struct Kept {
    /// What the file holds, if there is one.
    pub file: Option<StoreModel>,
    /// Whether the file is protected.
    pub protected: bool,
    pub store: StoreModel,
}

/// The file and the store once a change was tried: where it was written, both are
/// as it says, and otherwise both stay.
pub open spec fn tried(kept: Kept, change: StoreModel, written: bool, protects: bool) -> Kept {
    if written {
        Kept { file: Some(change.stripped()), protected: protects, store: change }
    } else {
        kept
    }
}

/// The file and the store once some changes were tried, one after the other.
pub open spec fn all_tried(kept: Kept, changes: Seq<(StoreModel, bool)>, protects: bool) -> Kept
    decreases changes.len(),
{
    if changes.len() == 0 {
        kept
    } else {
        tried(
            all_tried(kept, changes.drop_last(), protects),
            changes.last().0,
            changes.last().1,
            protects,
        )
    }
}

/// The file and the store once a store was loaded. What is read from an older
/// version is written at once.
pub open spec fn first_kept(
    found: Option<StoreModel>,
    protects: bool,
    protected: bool,
    store: StoreModel,
    warns: bool,
) -> Kept {
    if warns {
        Kept { file: Some(store.stripped()), protected: protects, store }
    } else {
        Kept { file: found, protected, store }
    }
}

/// Whatever was changed since a store was loaded, and whether or not it could be
/// written: loading it again succeeds without a warning and gives back the store
/// as it is, but for logins that are not to be kept.
pub proof fn reloading_gives_back(
    found: Option<StoreModel>,
    protects: bool,
    protected: bool,
    store: StoreModel,
    warns: bool,
    changes: Seq<(StoreModel, bool)>,
)
    requires
        loading(found, protects, protected) == Ok::<(StoreModel, bool), StoreError>((store, warns)),
        forall|i: int| 0 <= i < changes.len() ==> (#[trigger] changes[i]).0.version == STORE_VERSION,
    ensures
        ({
            let kept = all_tried(
                first_kept(found, protects, protected, store, warns),
                changes,
                protects,
            );
            loading(kept.file, protects, kept.protected) == Ok::<(StoreModel, bool), StoreError>(
                (kept.store.stripped(), false),
            )
        }),
    decreases changes.len(),
{
    if changes.len() == 0 {
        if warns {
            writes_read_back(store);
        } else {
            assert(store.stripped().servers =~= store.servers);
        }
    } else {
        reloading_gives_back(found, protects, protected, store, warns, changes.drop_last());
        if changes.last().1 {
            writes_read_back(changes.last().0);
        }
    }
}

/// Taking over an older version clears every login and keeps every shell.
pub proof fn upgrades_clear_logins_and_keep_shells(store: StoreModel, key: Seq<char>)
    requires
        store.version < STORE_VERSION,
        store.servers.dom().contains(key),
    ensures
        store.taken_over().servers[key].grant is None,
        !store.taken_over().servers[key].remember_login,
        store.taken_over().servers[key].shells == store.servers[key].shells,
        store.taken_over().servers[key].pending_opens == store.servers[key].pending_opens,
        store.taken_over().version == STORE_VERSION,
{
}

proof fn absent_stays(list: Seq<PendingModel>, key: Seq<char>)
    requires
        forall|i: int| 0 <= i < list.len() ==> (#[trigger] list[i]).idempotency_key != key,
    ensures
        without_pending(list, key) == list,
        pending_name(list, key) == "shell"@,
    decreases list.len(),
{
    if list.len() > 0 {
        assert(list.last().idempotency_key != key);
        absent_stays(list.drop_last(), key);
        assert(list.drop_last().push(list.last()) =~= list);
        absent_name(list, key);
    }
}

proof fn absent_name(list: Seq<PendingModel>, key: Seq<char>)
    requires
        forall|i: int| 0 <= i < list.len() ==> (#[trigger] list[i]).idempotency_key != key,
    ensures
        pending_name(list, key) == "shell"@,
    decreases list.len(),
{
    if list.len() > 0 {
        assert(list[0].idempotency_key != key);
        assert forall|i: int| 0 <= i < list.drop_first().len() implies (
        #[trigger] list.drop_first()[i]).idempotency_key != key by {
            assert(list.drop_first()[i] == list[i + 1]);
        }
        absent_name(list.drop_first(), key);
    }
}

proof fn first_name(list: Seq<PendingModel>, entry: PendingModel)
    requires
        forall|i: int|
            0 <= i < list.len() ==> (#[trigger] list[i]).idempotency_key != entry.idempotency_key,
    ensures
        pending_name(list.push(entry), entry.idempotency_key) == entry.name,
    decreases list.len(),
{
    let longer = list.push(entry);
    if list.len() == 0 {
        assert(longer[0] == entry);
    } else {
        assert(longer[0] == list[0]);
        assert(longer.drop_first() =~= list.drop_first().push(entry));
        assert forall|i: int| 0 <= i < list.drop_first().len() implies (
        #[trigger] list.drop_first()[i]).idempotency_key != entry.idempotency_key by {
            assert(list.drop_first()[i] == list[i + 1]);
        }
        first_name(list.drop_first(), entry);
    }
}

/// A shell that was noted before it was asked for and then turns out to be open
/// is known under its name and with the key that recovers it, and is pending no
/// more.
pub proof fn opened_shells_are_known(
    server: ServerModel,
    key: Seq<char>,
    name: Seq<char>,
    shell: Seq<char>,
    token: Seq<u8>,
    now_ms: i64,
)
    requires
        forall|i: int|
            0 <= i < server.pending_opens.len() ==> (
            #[trigger] server.pending_opens[i]).idempotency_key != key,
    ensures
        ({
            let after = server.pending_pushed(key, name).pending_resolved(key, shell, token, now_ms);
            &&& after.shells[shell] == (ShellModel {
                token: encoded(token, false, true),
                idempotency_key: Some(key),
                name,
                last_attached_at_ms: now_ms,
            })
            &&& after.pending_opens == server.pending_opens
        }),
{
    let entry = PendingModel { idempotency_key: key, name };
    let list = server.pending_opens;
    first_name(list, entry);
    absent_stays(list, key);
    assert(list.push(entry).drop_last() =~= list);
}

/// Forgetting a shell that was noted leaves everything as it was before.
pub proof fn dropping_undoes_noting(server: ServerModel, key: Seq<char>, name: Seq<char>)
    requires
        forall|i: int|
            0 <= i < server.pending_opens.len() ==> (
            #[trigger] server.pending_opens[i]).idempotency_key != key,
    ensures
        server.pending_pushed(key, name).pending_dropped(key) == server,
{
    let list = server.pending_opens;
    let entry = PendingModel { idempotency_key: key, name };
    absent_stays(list, key);
    assert(list.push(entry).drop_last() =~= list);
}

/// A new token changes neither a shell's name nor the key that recovers it.
pub proof fn tokens_rotate_alone(
    server: ServerModel,
    shell: Seq<char>,
    token: Seq<u8>,
    now_ms: i64,
)
    requires
        server.shells.dom().contains(shell),
    ensures
        server.token_updated(shell, token, now_ms).shells[shell].name == server.shells[shell].name,
        server.token_updated(shell, token, now_ms).shells[shell].idempotency_key
            == server.shells[shell].idempotency_key,
        forall|other: Seq<char>|
            other != shell && #[trigger] server.shells.dom().contains(other)
                ==> server.token_updated(shell, token, now_ms).shells[other] == server.shells[other],
{
}

/// What a change does to one server it does to no other.
pub proof fn servers_are_independent(
    store: StoreModel,
    key: Seq<char>,
    server: ServerModel,
    other: Seq<char>,
)
    requires
        other != key,
        store.servers.dom().contains(other),
    ensures
        store.with(key, server).servers.dom().contains(other),
        store.with(key, server).servers[other] == store.servers[other],
{
}

/// A shell of the command-line client.
#[derive(Debug, Clone, PartialEq, Eq)]
pub struct V1Shell {
    pub token: String,
    pub name: String,
    pub idempotency_key: Option<String>,
}

/// What the command-line client remembers: by URL, the shells and who has a
/// grant.
#[derive(Debug, Clone, PartialEq, Eq)]
pub struct V1State {
    pub servers: Vec<(String, Vec<(String, V1Shell)>)>,
    pub grants: Vec<String>,
}

impl View for V1Shell {
    type V = ShellModel;

    /// The shell as the store remembers it.
    open spec fn view(&self) -> ShellModel {
        ShellModel {
            token: self.token@,
            idempotency_key: opt_view(self.idempotency_key),
            name: self.name@,
            last_attached_at_ms: 0,
        }
    }
}

impl V1State {
    /// Whether no URL occurs twice, and no shell of one.
    pub open spec fn wf(&self) -> bool {
        &&& forall|i: int, j: int|
            0 <= i < self.servers@.len() && 0 <= j < self.servers@.len() && self.servers@[i].0@
                == self.servers@[j].0@ ==> i == j
        &&& forall|i: int|
            0 <= i < self.servers@.len() ==> unique(viewed((#[trigger] self.servers@[i]).1@))
    }

    /// The shells at a URL.
    pub open spec fn shells_at(self, url: Seq<char>) -> Map<Seq<char>, ShellModel> {
        if exists|i: int| 0 <= i < self.servers@.len() && (#[trigger] self.servers@[i]).0@ == url {
            let i = choose|i: int|
                0 <= i < self.servers@.len() && (#[trigger] self.servers@[i]).0@ == url;
            as_map(viewed(self.servers@[i].1@))
        } else {
            Map::empty()
        }
    }

    /// The server at a URL, as it is taken over: without its grant.
    pub open spec fn server_at(self, url: Seq<char>) -> ServerModel {
        ServerModel {
            url,
            display_name: url,
            username: None,
            ssh_key_path: None,
            remember_login: false,
            grant: None,
            shells: self.shells_at(url),
            pending_opens: Seq::empty(),
        }
    }

    /// Whether a URL occurs.
    pub open spec fn names(self, url: Seq<char>) -> bool {
        ||| exists|i: int| 0 <= i < self.servers@.len() && (#[trigger] self.servers@[i]).0@ == url
        ||| exists|i: int| 0 <= i < self.grants@.len() && (#[trigger] self.grants@[i])@ == url
    }

    /// The URLs that occur, each once.
    pub fn urls(&self) -> (r: Vec<String>)
        ensures
            texts(r@).no_duplicates(),
            forall|url: Seq<char>| #[trigger] texts(r@).contains(url) <==> self.names(url),
    {
        let mut urls: Vec<String> = Vec::new();
        let mut i: usize = 0;
        while i < self.servers.len()
            invariant
                i <= self.servers.len(),
                texts(urls@).no_duplicates(),
                forall|url: Seq<char>| #[trigger]
                    texts(urls@).contains(url) <==> exists|k: int|
                        0 <= k < i && (#[trigger] self.servers@[k]).0@ == url,
            decreases self.servers.len() - i,
        {
            let ghost before = texts(urls@);
            let ghost this = self.servers@[i as int].0@;
            add_text(&mut urls, self.servers[i].0.as_str());
            proof {
                assert forall|url: Seq<char>| #[trigger] texts(urls@).contains(url) <==> exists|k: int|
                    0 <= k < i + 1 && (#[trigger] self.servers@[k]).0@ == url by {
                    assert(texts(urls@).contains(url) <==> before.contains(url) || url == this);
                    if before.contains(url) {
                        let k = choose|k: int| 0 <= k < i && (#[trigger] self.servers@[k]).0@ == url;
                        assert(0 <= k < i + 1 && self.servers@[k].0@ == url);
                    }
                    if url == this {
                        assert(self.servers@[i as int].0@ == url);
                    }
                }
            }
            i = i + 1;
        }
        let mut k: usize = 0;
        while k < self.grants.len()
            invariant
                k <= self.grants.len(),
                texts(urls@).no_duplicates(),
                forall|url: Seq<char>| #[trigger]
                    texts(urls@).contains(url) <==> (exists|j: int|
                        0 <= j < self.servers@.len() && (#[trigger] self.servers@[j]).0@ == url) || (
                    exists|j: int| 0 <= j < k && (#[trigger] self.grants@[j])@ == url),
            decreases self.grants.len() - k,
        {
            let ghost before = texts(urls@);
            let ghost this = self.grants@[k as int]@;
            add_text(&mut urls, self.grants[k].as_str());
            proof {
                assert forall|url: Seq<char>| #[trigger] texts(urls@).contains(url) <==> (exists|j: int|
                    0 <= j < self.servers@.len() && (#[trigger] self.servers@[j]).0@ == url) || (
                exists|j: int| 0 <= j < k + 1 && (#[trigger] self.grants@[j])@ == url) by {
                    assert(texts(urls@).contains(url) <==> before.contains(url) || url == this);
                    if url == this {
                        assert(self.grants@[k as int]@ == url);
                    }
                }
            }
            k = k + 1;
        }
        urls
    }

    fn record_at(&self, url: &str) -> (r: ServerRecord)
        requires
            self.wf(),
        ensures
            r.wf(),
            r@ == self.server_at(url@),
    {
        let mut shells: Vec<(String, ShellRecord)> = Vec::new();
        proof {
            empty_is_empty(viewed(shells@));
        }
        let mut i: usize = 0;
        let mut found: bool = false;
        while i < self.servers.len() && !found
            invariant
                i <= self.servers.len(),
                self.wf(),
                unique(viewed(shells@)),
                !found ==> as_map(viewed(shells@)) == Map::<Seq<char>, ShellModel>::empty(),
                !found ==> forall|k: int| 0 <= k < i ==> (#[trigger] self.servers@[k]).0@ != url@,
                found ==> as_map(viewed(shells@)) == self.shells_at(url@),
            decreases self.servers.len() - i + (if found {
                    0int
                } else {
                    1int
                }),
        {
            if same(self.servers[i].0.as_str(), url) {
                found = true;
                shells = copy_v1_shells(&self.servers[i].1);
                proof {
                    let j = choose|j: int|
                        0 <= j < self.servers@.len() && (#[trigger] self.servers@[j]).0@ == url@;
                    assert(self.servers@[i as int].0@ == url@);
                    assert(j == i);
                }
            } else {
                i = i + 1;
            }
        }
        let r = ServerRecord {
            url: url.to_owned(),
            display_name: url.to_owned(),
            username: None,
            ssh_key_path: None,
            remember_login: false,
            grant: None,
            shells,
            pending_opens: Vec::new(),
        };
        assert(pending_views(r.pending_opens@) =~= Seq::empty());
        r
    }
}

fn copy_v1_shells(list: &Vec<(String, V1Shell)>) -> (r: Vec<(String, ShellRecord)>)
    ensures
        viewed(r@) == viewed(list@),
{
    let mut out: Vec<(String, ShellRecord)> = Vec::new();
    let mut i: usize = 0;
    assert(viewed(out@) =~= viewed(list@).take(0));
    while i < list.len()
        invariant
            i <= list.len(),
            viewed(out@) == viewed(list@).take(i as int),
        decreases list.len() - i,
    {
        let ghost before = viewed(out@);
        let shell: &V1Shell = &list[i].1;
        out.push(
            (
                list[i].0.as_str().to_owned(),
                ShellRecord {
                    token: shell.token.as_str().to_owned(),
                    idempotency_key: copy_opt(&shell.idempotency_key),
                    name: shell.name.as_str().to_owned(),
                    last_attached_at_ms: 0,
                },
            ),
        );
        i = i + 1;
        assert(viewed(out@) =~= before.push(viewed(list@)[i - 1]));
        assert(viewed(out@) =~= viewed(list@).take(i as int));
    }
    assert(viewed(out@) =~= viewed(list@));
    out
}

fn add_text(list: &mut Vec<String>, text: &str)
    requires
        texts(old(list)@).no_duplicates(),
    ensures
        texts(final(list)@).no_duplicates(),
        forall|t: Seq<char>| #[trigger]
            texts(final(list)@).contains(t) <==> texts(old(list)@).contains(t) || t == text@,
{
    let ghost before = texts(list@);
    let known: bool = contains(list, text);
    proof {
        crate::grant::among_is_contains(list@, text@);
    }
    if !known {
        list.push(text.to_owned());
        proof {
            assert(texts(list@) =~= before.push(text@));
            assert forall|t: Seq<char>| #[trigger] texts(list@).contains(t) <==> before.contains(t)
                || t == text@ by {
                if before.contains(t) {
                    let k = choose|k: int| 0 <= k < before.len() && before[k] == t;
                    assert(texts(list@)[k] == t);
                }
                if t == text@ {
                    assert(texts(list@)[before.len() as int] == t);
                }
            }
        }
    }
}

/// The servers once those at some URLs are added, each under its key.
pub open spec fn imported(
    servers: Map<Seq<char>, ServerModel>,
    v1: V1State,
    urls: Seq<Seq<char>>,
    keys: Seq<Seq<char>>,
) -> Map<Seq<char>, ServerModel>
    decreases urls.len(),
{
    if urls.len() == 0 || keys.len() == 0 {
        servers
    } else {
        imported(servers, v1, urls.drop_last(), keys.drop_last()).insert(
            keys.last(),
            v1.server_at(urls.last()),
        )
    }
}

/// Whether the servers of a list are all that the command-line client remembers,
/// each once, and are taken over under keys of the right form.
pub open spec fn takes_over(
    v1: V1State,
    urls: Seq<Seq<char>>,
    keys: Seq<Seq<char>>,
    servers: Map<Seq<char>, ServerModel>,
) -> bool {
    &&& urls.len() == keys.len()
    &&& urls.no_duplicates()
    &&& forall|i: int| 0 <= i < keys.len() ==> is_server_key(#[trigger] keys[i])
    &&& forall|url: Seq<char>| #[trigger] urls.contains(url) <==> v1.names(url)
    &&& servers == imported(Map::empty(), v1, urls, keys)
}

/// What becomes of the store where what the command-line client remembers is taken
/// over: nothing once a server is known here, or where nothing is to be taken over.
pub open spec fn imports(
    before: StoreModel,
    v1: V1State,
    count: nat,
    after: Option<StoreModel>,
) -> bool {
    if before.servers == Map::<Seq<char>, ServerModel>::empty() && exists|url: Seq<char>|
        v1.names(url) {
        &&& after matches Some(m)
        &&& m.version == before.version
        &&& exists|urls: Seq<Seq<char>>, keys: Seq<Seq<char>>|
            urls.len() == count && #[trigger] takes_over(v1, urls, keys, m.servers)
    } else {
        count == 0 && after is None
    }
}

impl Store {
    /// Takes over the servers at some URLs, each under its key.
    pub fn import_as(&self, v1: &V1State, urls: &Vec<String>, keys: &Vec<String>) -> (r: Change)
        requires
            self.wf(),
            v1.wf(),
            urls@.len() == keys@.len(),
        ensures
            r.wf(),
            r.base() == self@,
            r@ == (StoreModel {
                servers: imported(self@.servers, *v1, texts(urls@), texts(keys@)),
                ..self@
            }),
    {
        let mut data: StoreData = self.data.copy();
        let ghost us = texts(urls@);
        let ghost ks = texts(keys@);
        let mut i: usize = 0;
        assert(us.take(0) =~= Seq::empty());
        while i < urls.len()
            invariant
                i <= urls.len(),
                urls@.len() == keys@.len(),
                v1.wf(),
                us == texts(urls@),
                ks == texts(keys@),
                data.wf(),
                data.version == self@.version,
                data@.servers == imported(self@.servers, *v1, us.take(i as int), ks.take(i as int)),
            decreases urls.len() - i,
        {
            let ghost before = data.servers@;
            let record: ServerRecord = v1.record_at(urls[i].as_str());
            assign(&mut data.servers, keys[i].as_str().to_owned(), record);
            proof {
                assert forall|k: int| 0 <= k < data.servers@.len() implies (
                #[trigger] data.servers@[k]).1.wf() by {
                    if data.servers@[k].1 != record {
                        let j = choose|j: int|
                            0 <= j < before.len() && before[j] == data.servers@[k];
                        assert(before[j].1.wf());
                    }
                }
                assert(us.take(i + 1).drop_last() =~= us.take(i as int));
                assert(ks.take(i + 1).drop_last() =~= ks.take(i as int));
                assert(us.take(i + 1).last() == urls@[i as int]@);
                assert(ks.take(i + 1).last() == keys@[i as int]@);
            }
            i = i + 1;
        }
        assert(us.take(i as int) =~= us);
        assert(ks.take(i as int) =~= ks);
        Change { data, base: Ghost(self@) }
    }

    /// Takes over what the command-line client remembers, once: only while no
    /// server is known here. Its shells come along and its grants do not.
    pub fn import_v1(&self, v1: &V1State) -> (r: (usize, Option<Change>))
        requires
            self.wf(),
            v1.wf(),
        ensures
            imports(
                self@,
                *v1,
                r.0 as nat,
                match r.1 {
                    Some(change) => Some(change@),
                    None => None,
                },
            ),
            r.1 matches Some(change) ==> change.wf() && change.base() == self@,
    {
        if self.data.servers.len() > 0 {
            proof {
                lookup(viewed(self.data.servers@), 0);
            }
            return (0, None);
        }
        proof {
            empty_is_empty(viewed(self.data.servers@));
        }
        let urls: Vec<String> = v1.urls();
        if urls.len() == 0 {
            assert forall|url: Seq<char>| !v1.names(url) by {
                assert(!texts(urls@).contains(url));
            }
            return (0, None);
        }
        let mut keys: Vec<String> = Vec::new();
        let mut i: usize = 0;
        while i < urls.len()
            invariant
                i <= urls.len(),
                keys@.len() == i,
                forall|k: int| 0 <= k < i ==> is_server_key((#[trigger] keys@[k])@),
            decreases urls.len() - i,
        {
            keys.push(new_server_key());
            i = i + 1;
        }
        let change: Change = self.import_as(v1, &urls, &keys);
        assert forall|k: int| 0 <= k < texts(keys@).len() implies is_server_key(
            #[trigger] texts(keys@)[k],
        ) by {
            assert(is_server_key(keys@[k]@));
        }
        proof {
            let first = texts(urls@)[0];
            assert(texts(urls@).contains(first));
            assert(v1.names(first));
            assert(takes_over(*v1, texts(urls@), texts(keys@), change@.servers));
        }
        (urls.len(), Some(change))
    }
}

/// No grant of the command-line client is taken over.
pub proof fn imports_bring_no_grants(
    v1: V1State,
    urls: Seq<Seq<char>>,
    keys: Seq<Seq<char>>,
    key: Seq<char>,
)
    requires
        imported(Map::empty(), v1, urls, keys).dom().contains(key),
    ensures
        imported(Map::empty(), v1, urls, keys)[key].grant is None,
        !imported(Map::empty(), v1, urls, keys)[key].remember_login,
    decreases urls.len(),
{
    if urls.len() > 0 && keys.len() > 0 && key != keys.last() {
        imports_bring_no_grants(v1, urls.drop_last(), keys.drop_last(), key);
    }
}

/// Checks that what is to be read or written is not too large.
pub fn check_size(len: u64) -> (r: Result<(), StoreError>)
    ensures
        r is Ok <==> len <= MAX_STATE_BYTES,
        r matches Err(e) ==> e == StoreError::TooLarge,
{
    if len > MAX_STATE_BYTES as u64 {
        Err(StoreError::TooLarge)
    } else {
        Ok(())
    }
}

/// What is written, as far as it has been put together.
#[derive(Debug, Clone, PartialEq, Eq)]
pub struct BoundedState {
    bytes: Vec<u8>,
}

impl View for BoundedState {
    type V = Seq<u8>;

    closed spec fn view(&self) -> Seq<u8> {
        self.bytes@
    }
}

impl BoundedState {
    /// Nothing yet.
    pub fn new() -> (r: BoundedState)
        ensures
            r@ == Seq::<u8>::empty(),
    {
        BoundedState { bytes: Vec::new() }
    }

    /// Adds some bytes, if they are not too many.
    pub fn write(&mut self, bytes: &[u8]) -> (r: Result<usize, StoreError>)
        requires
            old(self)@.len() <= MAX_STATE_BYTES,
        ensures
            final(self)@.len() <= MAX_STATE_BYTES,
            r is Ok <==> old(self)@.len() + bytes@.len() <= MAX_STATE_BYTES,
            r matches Ok(n) ==> n == bytes@.len() && final(self)@ == old(self)@ + bytes@,
            r matches Err(e) ==> e == StoreError::TooLarge && final(self)@ == old(self)@,
    {
        if bytes.len() > MAX_STATE_BYTES - self.bytes.len() {
            return Err(StoreError::TooLarge);
        }
        crate::bytes::append_bytes(&mut self.bytes, bytes);
        Ok(bytes.len())
    }

    /// All of it.
    pub fn into_bytes(self) -> (r: Vec<u8>)
        ensures
            r@ == self@,
    {
        self.bytes
    }
}

/// A protected file: a header, and what is encrypted.
pub open spec fn framed_bytes(encrypted: Seq<u8>) -> Seq<u8> {
    encode_utf8(PROTECTED_HEADER@) + encrypted
}

/// What is encrypted in a file, where the file is protected.
pub open spec fn unframed_bytes(file: Seq<u8>) -> Option<Seq<u8>> {
    let header = encode_utf8(PROTECTED_HEADER@);
    if header.len() <= file.len() && file.take(header.len() as int) == header {
        Some(file.skip(header.len() as int))
    } else {
        None
    }
}

/// A protected file, unless it is too large.
pub fn frame(encrypted: &[u8]) -> (r: Result<Vec<u8>, StoreError>)
    requires
        encrypted@.len() + encode_utf8(PROTECTED_HEADER@).len() <= usize::MAX,
    ensures
        r is Ok <==> framed_bytes(encrypted@).len() <= MAX_STATE_BYTES,
        r matches Ok(file) ==> file@ == framed_bytes(encrypted@),
        r matches Err(e) ==> e == StoreError::TooLarge,
{
    let mut file: Vec<u8> = crate::bytes::copy_bytes(PROTECTED_HEADER.as_bytes());
    crate::bytes::append_bytes(&mut file, encrypted);
    if file.len() > MAX_STATE_BYTES {
        return Err(StoreError::TooLarge);
    }
    Ok(file)
}

/// What is encrypted in a file, where the file is protected.
pub fn unframe(file: &[u8]) -> (r: Option<Vec<u8>>)
    ensures
        r is Some <==> unframed_bytes(file@) is Some,
        r matches Some(encrypted) ==> unframed_bytes(file@) == Some(encrypted@),
{
    let header: &[u8] = PROTECTED_HEADER.as_bytes();
    if file.len() < header.len() {
        return None;
    }
    let start: Vec<u8> = crate::bytes::copy_range(file, 0, header.len());
    assert(start@ =~= file@.take(header@.len() as int));
    if !crate::bytes::same_bytes(start.as_slice(), header) {
        return None;
    }
    let rest: Vec<u8> = crate::bytes::copy_range(file, header.len(), file.len());
    assert(rest@ =~= file@.skip(header@.len() as int));
    Some(rest)
}

/// What was put into a protected file is found in it.
pub proof fn frames_read_back(encrypted: Seq<u8>)
    ensures
        unframed_bytes(framed_bytes(encrypted)) == Some(encrypted),
{
    let header = encode_utf8(PROTECTED_HEADER@);
    let file = framed_bytes(encrypted);
    assert(file.take(header.len() as int) =~= header);
    assert(file.skip(header.len() as int) =~= encrypted);
}

/// Where something is remembered: at the path that is asked for, where one is, or
/// else below the directory of the user's settings.
pub open spec fn path_of(
    asked: Option<Seq<char>>,
    settings: Option<Seq<char>>,
    name: Seq<char>,
) -> Option<Seq<char>> {
    if asked is Some && asked->0.len() > 0 {
        asked
    } else {
        match settings {
            Some(dir) => Some(
                if dir.len() == 0 || dir.last() == '/' {
                    dir + name
                } else {
                    dir + "/"@ + name
                },
            ),
            None => None,
        }
    }
}

fn path_from(asked: Option<&str>, settings: Option<&str>, name: &str) -> (r: Option<String>)
    ensures
        opt_view(r) == path_of(
            match asked {
                Some(a) => Some(a@),
                None => None,
            },
            match settings {
                Some(d) => Some(d@),
                None => None,
            },
            name@,
        ),
{
    match asked {
        Some(a) => {
            if chars(a).len() > 0 {
                return Some(a.to_owned());
            }
        },
        None => {},
    }
    match settings {
        Some(d) => {
            let letters: Vec<char> = chars(d);
            let mut out: String = d.to_owned();
            if letters.len() > 0 && letters[letters.len() - 1] != '/' {
                push_text(&mut out, "/");
            }
            push_text(&mut out, name);
            Some(out)
        },
        None => None,
    }
}

/// Where the desktop client remembers.
pub fn default_path(asked: Option<&str>, settings: Option<&str>) -> (r: Option<String>)
    ensures
        opt_view(r) == path_of(
            match asked {
                Some(a) => Some(a@),
                None => None,
            },
            match settings {
                Some(d) => Some(d@),
                None => None,
            },
            "holdfast/desktop.json"@,
        ),
{
    path_from(asked, settings, "holdfast/desktop.json")
}

/// Where the command-line client remembers.
pub fn v1_state_path(asked: Option<&str>, settings: Option<&str>) -> (r: Option<String>)
    ensures
        opt_view(r) == path_of(
            match asked {
                Some(a) => Some(a@),
                None => None,
            },
            match settings {
                Some(d) => Some(d@),
                None => None,
            },
            "holdfast/state.json"@,
        ),
{
    path_from(asked, settings, "holdfast/state.json")
}

} // verus!
