//! Laws of what the client remembers, and of what its interface asks.

use vstd::prelude::*;
use vstd::string::*;
use vstd::utf8::*;

use crate::base64::encoded;
use crate::client::{
    new_record, shell_rows, BootstrapView, Core, CoreError, CoreEvent, RemoteShell, ServerConfig, ShellRow,
    Spawning,
};
use crate::hex::hex_text;
use crate::opening::{Answered, Asked, OpenError, Opening};
use crate::protocol::{Envelope, Message, ShellState};
use crate::store::{
    check_size, default_path, frame, unframe, v1_state_path, BoundedState, Change, Loaded,
    PendingModel, PendingOpen, ServerModel, ServerRecord, ShellModel, ShellRecord, Store, StoreData, StoreError,
    StoreModel, V1State,
};
use crate::supervisor::ServerCmd;
use crate::text::texts;

verus! {

/// Whether a change leaves everything but one server as it was.
pub open spec fn only_changes(before: StoreModel, change: Change, key: Seq<char>) -> bool {
    &&& change.base() == before
    &&& change@.version == before.version
    &&& change@.servers.dom().contains(key)
    &&& forall|other: Seq<char>|
        other != key ==> (#[trigger] change@.servers.dom().contains(other)
            <==> before.servers.dom().contains(other)) && change@.servers[other]
            == before.servers[other]
}

/// Whether something was refused since there is no such server, or changes that server
/// alone.
pub open spec fn changes(store: &Store, key: Seq<char>, r: Result<Change, StoreError>) -> bool {
    if store@.servers.dom().contains(key) {
        r matches Ok(change) && only_changes(store@, change, key)
    } else {
        r matches Err(e) && e == StoreError::UnknownServer
    }
}

/// A server that is added is remembered as it is, under its key.
pub proof fn added_servers_are_remembered(
    store: &Store,
    key: &str,
    record: ServerRecord,
    r: Change,
    drawn: (String, Change),
)
    requires
        call_ensures(Store::add_server_as, (store, key, record), r),
        call_ensures(Store::add_server, (store, record), drawn),
    ensures
        only_changes(store@, r, key@),
        r@.servers[key@] == record@,
        only_changes(store@, drawn.1, drawn.0@),
        drawn.1@.servers[drawn.0@] == record@,
        exists|bytes: Seq<u8>| bytes.len() == 8 && drawn.0@ == #[trigger] hex_text(bytes),
{
}

/// A server that is removed is forgotten, and no other is.
pub proof fn removed_servers_are_forgotten(store: &Store, key: &str, r: Change, other: Seq<char>)
    requires
        call_ensures(Store::remove_server, (store, key), r),
        other != key@,
    ensures
        !r@.servers.dom().contains(key@),
        r@.servers.dom().contains(other) <==> store@.servers.dom().contains(other),
        r@.servers[other] == store@.servers[other],
        r@.version == store@.version,
        r.base() == store@,
{
}

/// Whether a login is kept is set, and nothing else.
pub proof fn keeping_logins_is_set(
    store: &Store,
    key: &str,
    remember: bool,
    r: Result<Change, StoreError>,
)
    requires
        call_ensures(Store::set_remember_login, (store, key, remember), r),
    ensures
        changes(store, key@, r),
        r matches Ok(change) ==> change@.servers[key@] == (ServerModel {
            remember_login: remember,
            ..store@.servers[key@]
        }),
{
}

/// A grant is remembered in base64; an empty one is none, and changes nothing.
pub proof fn grants_are_remembered(
    store: &Store,
    key: &str,
    grant: &[u8],
    r: Result<Change, StoreError>,
)
    requires
        call_ensures(Store::set_grant, (store, key, grant), r),
    ensures
        changes(store, key@, r),
        r matches Ok(change) ==> {
            &&& grant@.len() == 0 ==> change@.servers[key@] == store@.servers[key@]
            &&& grant@.len() > 0 ==> change@.servers[key@] == (ServerModel {
                grant: Some(encoded(grant@, false, true)),
                ..store@.servers[key@]
            })
        },
{
}

/// A shell that is about to be asked for is noted last, with its key and its name.
pub proof fn asked_shells_are_noted(
    store: &Store,
    key: &str,
    id: &str,
    name: &str,
    r: Result<Change, StoreError>,
)
    requires
        call_ensures(Store::push_pending_open, (store, key, id, name), r),
    ensures
        changes(store, key@, r),
        r matches Ok(change) ==> {
            let before = store@.servers[key@];
            let after = change@.servers[key@];
            &&& after == (ServerModel { pending_opens: after.pending_opens, ..before })
            &&& after.pending_opens.len() == before.pending_opens.len() + 1
            &&& after.pending_opens.last().idempotency_key == id@
            &&& after.pending_opens.last().name == name@
            &&& forall|i: int|
                0 <= i < before.pending_opens.len() ==> after.pending_opens[i]
                    == #[trigger] before.pending_opens[i]
        },
{
}

proof fn pushed_are_contained(list: Seq<PendingModel>, last: PendingModel, p: PendingModel)
    ensures
        list.push(last).contains(p) <==> list.contains(p) || p == last,
{
    let all = list.push(last);
    assert(all[list.len() as int] == last);
    if list.contains(p) {
        let i = choose|i: int| 0 <= i < list.len() && list[i] == p;
        assert(all[i] == p);
    }
    if all.contains(p) {
        let i = choose|i: int| 0 <= i < all.len() && all[i] == p;
        if i < list.len() {
            assert(list[i] == p);
        }
    }
}

proof fn no_pending_is_left(list: Seq<PendingModel>, key: Seq<char>, p: PendingModel)
    ensures
        crate::store::without_pending(list, key).contains(p) <==> list.contains(p)
            && p.idempotency_key != key,
    decreases list.len(),
{
    if list.len() > 0 {
        let head = list.drop_last();
        let rest = crate::store::without_pending(head, key);
        no_pending_is_left(head, key, p);
        assert(list =~= head.push(list.last()));
        pushed_are_contained(head, list.last(), p);
        pushed_are_contained(rest, list.last(), p);
    }
}

/// A shell that was noted and turns out to be open is known by the token that resumes it,
/// the key that recovers it and the name that it was noted with, and is not pending any
/// more; what else is open or pending stays.
pub proof fn noted_shells_become_known(
    store: &Store,
    key: &str,
    id: &str,
    name: &str,
    noted: Change,
    next: &Store,
    shell: &str,
    token: &[u8],
    now_ms: i64,
    r: Result<Change, StoreError>,
    other: Seq<char>,
    p: PendingModel,
)
    requires
        call_ensures(
            Store::push_pending_open,
            (store, key, id, name),
            Ok::<Change, StoreError>(noted),
        ),
        forall|i: int|
            0 <= i < store@.servers[key@].pending_opens.len() ==> (
            #[trigger] store@.servers[key@].pending_opens[i]).idempotency_key != id@,
        next@ == noted@,
        call_ensures(Store::resolve_pending_open, (next, key, id, shell, token, now_ms), r),
        other != shell@,
    ensures
        r matches Ok(change) && only_changes(next@, change, key@) && change@.servers[key@] == (
        ServerModel {
            shells: change@.servers[key@].shells,
            ..store@.servers[key@]
        }) && change@.servers[key@].shells.dom().contains(shell@)
            && change@.servers[key@].shells[shell@].token == encoded(token@, false, true)
            && change@.servers[key@].shells[shell@].idempotency_key == Some(id@)
            && change@.servers[key@].shells[shell@].name == name@
            && change@.servers[key@].shells[shell@].last_attached_at_ms == now_ms && (
        change@.servers[key@].shells.dom().contains(other)
            <==> store@.servers[key@].shells.dom().contains(other))
            && change@.servers[key@].shells[other] == store@.servers[key@].shells[other],
{
    crate::store::opened_shells_are_known(
        store@.servers[key@],
        id@,
        name@,
        shell@,
        token@,
        now_ms,
    );
}

/// A shell that was noted and is not asked for after all is forgotten, whatever else is
/// noted stays, and nothing else changes.
pub proof fn noted_shells_are_dropped(
    store: &Store,
    key: &str,
    id: &str,
    r: Result<Change, StoreError>,
    p: PendingModel,
)
    requires
        call_ensures(Store::drop_pending_open, (store, key, id), r),
    ensures
        changes(store, key@, r),
        r matches Ok(change) ==> {
            let before = store@.servers[key@];
            let after = change@.servers[key@];
            &&& after == (ServerModel { pending_opens: after.pending_opens, ..before })
            &&& after.pending_opens.contains(p) <==> before.pending_opens.contains(p)
                && p.idempotency_key != id@
        },
{
    no_pending_is_left(store@.servers[key@].pending_opens, id@, p);
}

/// A new token replaces the old one of its shell, with the time; the shell's name and its
/// key stay, as does every other shell. An unknown shell is not made up.
pub proof fn tokens_replace_tokens(
    store: &Store,
    key: &str,
    shell: &str,
    token: &[u8],
    now_ms: i64,
    r: Result<Change, StoreError>,
    other: Seq<char>,
)
    requires
        call_ensures(Store::update_token, (store, key, shell, token, now_ms), r),
        other != shell@,
    ensures
        changes(store, key@, r),
        r matches Ok(change) ==> {
            let before = store@.servers[key@];
            let after = change@.servers[key@];
            &&& after == (ServerModel { shells: after.shells, ..before })
            &&& after.shells.dom().contains(shell@) <==> before.shells.dom().contains(shell@)
            &&& before.shells.dom().contains(shell@) ==> after.shells[shell@] == (ShellModel {
                token: encoded(token@, false, true),
                last_attached_at_ms: now_ms,
                ..before.shells[shell@]
            })
            &&& after.shells.dom().contains(other) <==> before.shells.dom().contains(other)
            &&& after.shells[other] == before.shells[other]
        },
{
}

/// A shell that is removed is forgotten, and no other is.
pub proof fn removed_shells_are_forgotten(
    store: &Store,
    key: &str,
    shell: &str,
    r: Result<Change, StoreError>,
    core: &Core,
    forgotten: Result<Change, StoreError>,
    other: Seq<char>,
)
    requires
        call_ensures(Store::remove_shell, (store, key, shell), r),
        core@.store == store@,
        call_ensures(Core::forget_shell, (core, key, shell), forgotten),
        other != shell@,
    ensures
        changes(store, key@, r),
        r matches Ok(change) ==> {
            let before = store@.servers[key@];
            let after = change@.servers[key@];
            &&& after == (ServerModel { shells: after.shells, ..before })
            &&& !after.shells.dom().contains(shell@)
            &&& after.shells.dom().contains(other) <==> before.shells.dom().contains(other)
            &&& after.shells[other] == before.shells[other]
            &&& forgotten matches Ok(same)
            &&& same@ == change@
        },
        r is Err ==> (forgotten matches Err(e) && e == StoreError::UnknownServer),
{
}

/// A shell that is renamed has its new name, and everything else as before.
pub proof fn renamed_shells_have_their_name(
    store: &Store,
    key: &str,
    shell: &str,
    name: &str,
    r: Result<Change, StoreError>,
    core: &Core,
    renamed: Result<Change, StoreError>,
    other: Seq<char>,
)
    requires
        call_ensures(Store::rename_shell, (store, key, shell, name), r),
        core@.store == store@,
        call_ensures(Core::rename_shell, (core, key, shell, name), renamed),
        other != shell@,
    ensures
        changes(store, key@, r),
        r matches Ok(change) ==> {
            let before = store@.servers[key@];
            let after = change@.servers[key@];
            &&& after == (ServerModel { shells: after.shells, ..before })
            &&& after.shells.dom().contains(shell@) <==> before.shells.dom().contains(shell@)
            &&& before.shells.dom().contains(shell@) ==> after.shells[shell@] == (ShellModel {
                name: name@,
                ..before.shells[shell@]
            })
            &&& after.shells.dom().contains(other) <==> before.shells.dom().contains(other)
            &&& after.shells[other] == before.shells[other]
            &&& renamed matches Ok(same)
            &&& same@ == change@
        },
        r is Err ==> (renamed matches Err(e) && e == StoreError::UnknownServer),
{
}

/// A change is taken over whole once it is written, and not at all before.
pub proof fn changes_count_once_written(
    store: &mut Store,
    change: Change,
    written: bool,
    r: Result<(), StoreError>,
)
    requires
        call_ensures(Store::settle, (store, change, written), r),
    ensures
        written ==> r is Ok && final(store)@ == change@,
        !written ==> r == Err::<(), StoreError>(StoreError::NotWritten)
            && final(store)@ == old(store)@,
{
}

/// What is remembered is found: the server of a key, and its shells.
pub proof fn what_is_remembered_is_found(
    store: &Store,
    key: &str,
    server: Option<ServerRecord>,
    shell: &str,
    found: Option<ShellRecord>,
    all: StoreData,
)
    requires
        call_ensures(Store::server, (store, key), server),
        call_ensures(Store::shell, (store, key, shell), found),
        call_ensures(Store::snapshot, (store,), all),
    ensures
        server is Some <==> store@.servers.dom().contains(key@),
        server matches Some(s) ==> s@ == store@.servers[key@],
        found is Some <==> store@.servers.dom().contains(key@)
            && store@.servers[key@].shells.dom().contains(shell@),
        found matches Some(s) ==> s@ == store@.servers[key@].shells[shell@],
        all@ == store@,
{
}

/// What is written holds everything but the logins that are not to be kept; read again,
/// it is what was remembered, and nobody is told anything.
pub proof fn what_is_written_is_read(
    change: &Change,
    data: StoreData,
    protects: bool,
    r: Result<Loaded, StoreError>,
    key: Seq<char>,
)
    requires
        call_ensures(Change::to_write, (change,), data),
        change.wf(),
        call_ensures(Store::load, (Some(data), protects, protects), r),
    ensures
        change@.servers.dom().contains(key) ==> {
            &&& data@.servers.dom().contains(key)
            &&& change@.servers[key].remember_login ==> data@.servers[key] == change@.servers[key]
            &&& !change@.servers[key].remember_login ==> data@.servers[key] == (ServerModel {
                grant: None,
                ..change@.servers[key]
            })
        },
        data@.version == 3,
        r matches Ok(l) && l.warning is None && l.store@ == data@,
{
    change.wf_is_current();
    crate::store::writes_read_back(change@);
}

/// What a later version wrote is not touched; what an older one wrote is taken over
/// without its logins, and the user is told; what must be protected and is not is
/// refused; and where there is nothing, nothing is remembered.
pub proof fn older_files_lose_their_logins(
    data: StoreData,
    protects: bool,
    protected: bool,
    r: Result<Loaded, StoreError>,
    none: Result<Loaded, StoreError>,
    key: Seq<char>,
)
    requires
        call_ensures(Store::load, (Some(data), protects, protected), r),
        call_ensures(Store::load, (None::<StoreData>, protects, protected), none),
    ensures
        data@.version > 3 ==> (r matches Err(e) && e == (StoreError::NewerSchema {
            version: data@.version,
        })),
        data@.version == 3 && protects && !protected ==> (r matches Err(e) && e
            == StoreError::Unprotected),
        data@.version < 3 ==> {
            &&& r matches Ok(l)
            &&& l.store@.version == 3
            &&& l.warning matches Some(w)
            &&& w@ == "Saved login cleared on upgrade. Log in again; your shells have been retained."@
            &&& data@.servers.dom().contains(key) ==> l.store@.servers.dom().contains(key)
                && l.store@.servers[key] == (ServerModel {
                grant: None,
                remember_login: false,
                ..data@.servers[key]
            })
        },
        data@.version == 3 && (!protects || protected) ==> {
            &&& r matches Ok(l)
            &&& l.warning is None
            &&& l.store@.version == 3
            &&& data@.servers.dom().contains(key) ==> l.store@.servers.dom().contains(key)
            &&& data@.servers.dom().contains(key) && data@.servers[key].remember_login
                ==> l.store@.servers[key] == data@.servers[key]
        },
        none matches Ok(l) && l.warning is None && l.store@.version == 3 && l.store@.servers.dom()
            == Set::<Seq<char>>::empty(),
{
}

/// The URLs of the command-line client are all listed, each once; its shells come along,
/// and its grants do not.
pub proof fn imports_take_everything_but_logins(
    store: &Store,
    v1: &V1State,
    all: Vec<String>,
    urls: &Vec<String>,
    keys: &Vec<String>,
    r: Change,
    i: int,
)
    requires
        call_ensures(V1State::urls, (v1,), all),
        call_ensures(Store::import_as, (store, v1, urls, keys), r),
        urls@.len() == keys@.len(),
        0 <= i < urls@.len(),
        forall|j: int| 0 <= j < keys@.len() && j != i ==> (#[trigger] keys@[j])@ != keys@[i]@,
    ensures
        forall|k: int|
            0 <= k < v1.servers@.len() ==> texts(all@).contains(
                (#[trigger] v1.servers@[k]).0@,
            ),
        forall|k: int| 0 <= k < v1.grants@.len()
            ==> texts(all@).contains((#[trigger] v1.grants@[k])@),
        r@.servers.dom().contains(keys@[i]@),
        r@.servers[keys@[i]@].url == urls@[i]@,
        r@.servers[keys@[i]@].display_name == urls@[i]@,
        r@.servers[keys@[i]@].grant is None,
        !r@.servers[keys@[i]@].remember_login,
        r@.servers[keys@[i]@].username is None,
        r@.servers[keys@[i]@].pending_opens.len() == 0,
        r@.servers[keys@[i]@].shells == v1.shells_at(urls@[i]@),
{
    assert forall|k: int| 0 <= k < v1.servers@.len() implies texts(all@).contains(
        (#[trigger] v1.servers@[k]).0@,
    ) by {
        assert(v1.names(v1.servers@[k].0@));
    }
    assert forall|k: int| 0 <= k < v1.grants@.len() implies texts(all@).contains(
        (#[trigger] v1.grants@[k])@,
    ) by {
        assert(v1.names(v1.grants@[k]@));
    }
    let ks = texts(keys@);
    assert forall|j: int| 0 <= j < ks.len() && j != i implies #[trigger] ks[j] != ks[i] by {
        assert(ks[j] == keys@[j]@);
    }
    imported_at(store@.servers, *v1, texts(urls@), ks, i);
}

proof fn imported_at(
    servers: Map<Seq<char>, ServerModel>,
    v1: V1State,
    urls: Seq<Seq<char>>,
    keys: Seq<Seq<char>>,
    i: int,
)
    requires
        urls.len() == keys.len(),
        0 <= i < urls.len(),
        forall|j: int| 0 <= j < keys.len() && j != i ==> #[trigger] keys[j] != keys[i],
    ensures
        crate::store::imported(servers, v1, urls, keys).dom().contains(keys[i]),
        crate::store::imported(servers, v1, urls, keys)[keys[i]] == v1.server_at(urls[i]),
    decreases urls.len(),
{
    if i < urls.len() - 1 {
        let us = urls.drop_last();
        let ks = keys.drop_last();
        assert(ks[i] == keys[i] && us[i] == urls[i]);
        assert forall|j: int| 0 <= j < ks.len() && j != i implies #[trigger] ks[j] != ks[i] by {
            assert(ks[j] == keys[j]);
        }
        imported_at(servers, v1, us, ks, i);
        assert(keys[keys.len() - 1] != keys[i]);
    }
}

/// The command-line client is taken over only while no server is known.
pub proof fn imports_happen_once(store: &Store, v1: &V1State, r: (usize, Option<Change>))
    requires
        call_ensures(Store::import_v1, (store, v1), r),
    ensures
        (exists|key: Seq<char>| store@.servers.dom().contains(key)) ==> r.0 == 0 && r.1 is None,
        v1.servers@.len() == 0 && v1.grants@.len() == 0 ==> r.0 == 0 && r.1 is None,
        store@.servers.dom() == Set::<Seq<char>>::empty() && (v1.servers@.len() > 0
            || v1.grants@.len() > 0) ==> r.1 is Some,
        r.1 matches Some(change) ==> change@.version == store@.version && change.base() == store@,
{
    if store@.servers.dom() == Set::<Seq<char>>::empty() {
        assert(store@.servers =~= Map::<Seq<char>, ServerModel>::empty());
    }
    if v1.servers@.len() > 0 {
        assert(v1.names(v1.servers@[0].0@));
    }
    if v1.grants@.len() > 0 {
        assert(v1.names(v1.grants@[0]@));
    }
}

/// Eight mebibytes is the most that is read or written.
pub proof fn states_are_bounded(
    len: u64,
    r: Result<(), StoreError>,
    state: &mut BoundedState,
    bytes: &[u8],
    w: Result<usize, StoreError>,
    fresh: BoundedState,
    whole: BoundedState,
    out: Vec<u8>,
)
    requires
        call_ensures(check_size, (len,), r),
        call_ensures(BoundedState::new, (), fresh),
        call_ensures(BoundedState::write, (state, bytes), w),
        whole == *final(state),
        call_ensures(BoundedState::into_bytes, (whole,), out),
    ensures
        r is Ok <==> len <= 8_388_608,
        r matches Err(e) ==> e == StoreError::TooLarge,
        fresh@.len() == 0,
        w is Ok <==> old(state)@.len() + bytes@.len() <= 8_388_608,
        w matches Ok(n) ==> n == bytes@.len() && out@ == old(state)@ + bytes@,
        w matches Err(e) ==> e == StoreError::TooLarge && out@ == old(state)@,
{
}

/// What was put into a protected file is found in it; a file that does not start with the
/// mark is not protected.
pub proof fn protected_files_read_back(
    encrypted: &[u8],
    r: Result<Vec<u8>, StoreError>,
    file: &[u8],
    found: Option<Vec<u8>>,
)
    requires
        call_ensures(frame, (encrypted,), r),
        r matches Ok(out) ==> file@ == out@,
        call_ensures(unframe, (file,), found),
    ensures
        r matches Ok(out) ==> out@ == encode_utf8("HOLDFAST-DPAPI-1\n"@) + encrypted@,
        r is Ok <==> encode_utf8("HOLDFAST-DPAPI-1\n"@).len() + encrypted@.len() <= 8_388_608,
        r is Ok ==> (found matches Some(e) && e@ == encrypted@),
        !(encode_utf8("HOLDFAST-DPAPI-1\n"@).is_prefix_of(file@)) ==> found is None,
{
    crate::store::frames_read_back(encrypted@);
    let header = encode_utf8("HOLDFAST-DPAPI-1\n"@);
    if found is Some {
        assert(file@.take(header.len() as int) == header);
        assert(header.is_prefix_of(file@));
    }
}

/// Where something is remembered: at the path that is asked for, or in the directory of
/// the user's settings.
pub proof fn paths_are_as_asked(
    asked: Option<&str>,
    settings: Option<&str>,
    r: Option<String>,
    old_r: Option<String>,
)
    requires
        call_ensures(default_path, (asked, settings), r),
        call_ensures(v1_state_path, (asked, settings), old_r),
    ensures
        asked is Some && asked->0@.len() > 0 ==> (r matches Some(p) && p@ == asked->0@) && (
        old_r matches Some(q) && q@ == asked->0@),
        (asked is None || asked->0@.len() == 0) && settings is None ==> r is None && old_r is None,
        (asked is None || asked->0@.len() == 0) && settings is Some && settings->0@.len() > 0
            && settings->0@.last() != '/' ==> (r matches Some(p) && p@ == settings->0@ + "/"@
            + "holdfast/desktop.json"@) && (old_r matches Some(q) && q@ == settings->0@ + "/"@
            + "holdfast/state.json"@),
        (asked is None || asked->0@.len() == 0) && settings is Some && (settings->0@.len() == 0
            || settings->0@.last() == '/') ==> (r matches Some(p) && p@ == settings->0@
            + "holdfast/desktop.json"@) && (old_r matches Some(q) && q@ == settings->0@
            + "holdfast/state.json"@),
{
}

/// A server that the user adds has nothing open, and no login.
pub proof fn added_servers_start_empty(config: ServerConfig, r: ServerRecord)
    requires
        call_ensures(new_record, (config,), r),
    ensures
        r@.url == config.url@,
        r@.display_name == config.display_name@,
        r@.username is Some <==> config.username is Some,
        config.username matches Some(u) ==> r@.username == Some(u@),
        config.ssh_key_path matches Some(p) ==> r@.ssh_key_path == Some(p@),
        config.ssh_key_path is None ==> r@.ssh_key_path is None,
        !r@.remember_login,
        r@.grant is None,
        r@.shells.dom() == Set::<Seq<char>>::empty(),
        r@.pending_opens.len() == 0,
{
}

/// The shells of a server are listed as the server lists them, each with what is
/// remembered of it.
pub proof fn listed_shells_show_what_is_known(
    record: Option<&ServerRecord>,
    shells: &Vec<RemoteShell>,
    r: Vec<ShellRow>,
    i: int,
)
    requires
        call_ensures(shell_rows, (record, shells), r),
        0 <= i < shells@.len(),
    ensures
        r@.len() == shells@.len(),
        r@[i].shell@ == hex_text(shells@[i].shell_id@),
        shells@[i].state == Some(ShellState::Running) ==> r@[i].state@ == "running"@,
        shells@[i].state == Some(ShellState::Exited) ==> r@[i].state@ == "exited"@,
        shells@[i].state == Some(ShellState::Terminating) ==> r@[i].state@ == "terminating"@,
        shells@[i].state is None ==> r@[i].state@ == "unknown"@,
        record is None ==> r@[i].name is None && !r@[i].has_token,
        record matches Some(known) ==> {
            let id = hex_text(shells@[i].shell_id@);
            &&& r@[i].has_token <==> known@.shells.dom().contains(id)
            &&& r@[i].name is Some <==> known@.shells.dom().contains(id)
            &&& r@[i].name matches Some(n) ==> n@ == known@.shells[id].name
        },
{
    assert(crate::client::is_row(
        r@[i],
        shells@[i],
        match record {
            Some(known) => known@.shells,
            None => Map::empty(),
        },
    ));
}

/// Whether a command is handed to the task of a server exactly where there is one.
pub open spec fn handed(core: &Core, key: Seq<char>, r: Result<ServerCmd, CoreError>) -> bool {
    &&& r is Ok <==> core@.running.contains(key)
    &&& r matches Err(CoreError::UnknownServer { server_key }) ==> server_key@ == key
}

/// What the interface asks of a server reaches its task as it was asked: to open and to
/// attach with the columns and rows, to write and to resize.
pub proof fn commands_reach_their_server(
    core: &Core,
    key: &str,
    shell: &str,
    name: &str,
    cols: u16,
    rows: u16,
    bytes: Vec<u8>,
    opened: Result<ServerCmd, CoreError>,
    attached: Result<ServerCmd, CoreError>,
    typed: Result<ServerCmd, CoreError>,
    resized: Result<ServerCmd, CoreError>,
)
    requires
        call_ensures(Core::open_shell, (core, key, name, cols, rows), opened),
        call_ensures(Core::attach_shell, (core, key, shell, cols, rows), attached),
        call_ensures(Core::shell_input, (core, key, shell, bytes), typed),
        call_ensures(Core::resize_shell, (core, key, shell, cols, rows), resized),
    ensures
        handed(core, key@, opened),
        opened matches Ok(cmd) ==> (cmd matches ServerCmd::Open { name: n, cols: w, rows: h } && n@
            == name@ && w == cols && h == rows),
        handed(core, key@, attached),
        attached matches Ok(cmd) ==> (cmd matches ServerCmd::Attach { shell_hex, cols: w, rows: h }
            && shell_hex@ == shell@ && w == cols && h == rows),
        handed(core, key@, typed),
        typed matches Ok(cmd) ==> (cmd matches ServerCmd::Input { shell_hex, bytes: b }
            && shell_hex@ == shell@ && b@ == bytes@),
        handed(core, key@, resized),
        resized matches Ok(cmd) ==> (cmd matches ServerCmd::Resize { shell_hex, cols: w, rows: h }
            && shell_hex@ == shell@ && w == cols && h == rows),
{
}

/// What the interface asks of a server reaches its task as it was asked: to detach, to
/// end a shell, and to read its history.
pub proof fn other_commands_reach_their_server(
    core: &Core,
    key: &str,
    shell: &str,
    before_line_id: u64,
    max_lines: u32,
    detached: Result<ServerCmd, CoreError>,
    ended: Result<ServerCmd, CoreError>,
    read: Result<ServerCmd, CoreError>,
    running: bool,
)
    requires
        call_ensures(Core::detach_shell, (core, key, shell), detached),
        call_ensures(Core::terminate_shell, (core, key, shell), ended),
        call_ensures(
            Core::request_history,
            (core, key, shell, before_line_id, max_lines),
            read,
        ),
        call_ensures(Core::is_running, (core, key), running),
    ensures
        running <==> core@.running.contains(key@),
        handed(core, key@, detached),
        detached matches Ok(cmd) ==> (cmd matches ServerCmd::Detach { shell_hex } && shell_hex@
            == shell@),
        handed(core, key@, ended),
        ended matches Ok(cmd) ==> (cmd matches ServerCmd::Terminate { shell_hex } && shell_hex@
            == shell@),
        handed(core, key@, read),
        read matches Ok(cmd) ==> (cmd matches ServerCmd::History {
            shell_hex,
            before_line_id: line,
            max_lines: most,
        } && shell_hex@ == shell@ && line == before_line_id && most == max_lines),
{
}

/// A server that is added is looked after once it is written, and not before; the others
/// are looked after all along.
pub proof fn added_servers_are_looked_after(
    core: &mut Core,
    config: ServerConfig,
    drawn: (String, Change),
    key: &str,
    written: bool,
    r: Result<(), StoreError>,
    other: Seq<char>,
)
    requires
        call_ensures(Core::add_server, (&*old(core), config), drawn),
        key@ == drawn.0@,
        call_ensures(Core::server_added, (core, key, drawn.1, written), r),
        other != key@,
    ensures
        drawn.1@.servers.dom().contains(key@),
        drawn.1@.servers[key@].url == config.url@,
        drawn.1@.servers[key@].display_name == config.display_name@,
        drawn.1@.servers[key@].grant is None,
        !drawn.1@.servers[key@].remember_login,
        written ==> r is Ok && final(core)@.running.contains(key@) && final(core)@.store
            == drawn.1@,
        !written ==> r == Err::<(), StoreError>(StoreError::NotWritten)
            && final(core)@ == old(core)@,
        final(core)@.running.contains(other) <==> old(core)@.running.contains(other),
        old(core)@.store.servers.dom().contains(other) ==> drawn.1@.servers.dom().contains(other)
            && drawn.1@.servers[other] == old(core)@.store.servers[other],
{
}

/// A server that is removed is not looked after from then on, and is forgotten once that
/// is written.
pub proof fn removed_servers_are_left_alone(
    core: &mut Core,
    key: &str,
    change: Change,
    next: &mut Core,
    written: bool,
    r: Result<(), StoreError>,
    other: Seq<char>,
)
    requires
        call_ensures(Core::remove_server, (core, key), change),
        old(next)@ == final(core)@,
        call_ensures(Core::settle, (next, change, written), r),
        other != key@,
    ensures
        !final(core)@.running.contains(key@),
        final(core)@.store == old(core)@.store,
        !final(next)@.running.contains(key@),
        final(next)@.running.contains(other) <==> old(core)@.running.contains(other),
        written ==> r is Ok && !final(next)@.store.servers.dom().contains(key@),
        !written ==> r == Err::<(), StoreError>(StoreError::NotWritten) && final(next)@.store
            == old(core)@.store,
        final(next)@.store.servers.dom().contains(other)
            <==> old(core)@.store.servers.dom().contains(other),
        final(next)@.store.servers[other] == old(core)@.store.servers[other],
{
}

/// A client starts with what is remembered, and with what it takes over once that is
/// written; it looks after every server that it then knows, and warns of what was lost.
pub proof fn clients_start_with_what_is_remembered(
    spawning: Spawning,
    to_write: Option<StoreData>,
    written: bool,
    r: (Core, Option<CoreEvent>),
    key: Seq<char>,
)
    requires
        call_ensures(Spawning::to_write, (&spawning,), to_write),
        call_ensures(Spawning::written, (spawning, written), r),
    ensures
        to_write is Some <==> spawning@.import is Some,
        spawning@.import matches Some(imported) ==> {
            &&& written ==> r.0@.store == imported
            &&& !written ==> r.0@.store == spawning@.store
        },
        spawning@.import is None ==> r.0@.store == spawning@.store,
        r.0@.running.contains(key) <==> r.0@.store.servers.dom().contains(key),
        spawning@.warning is None ==> r.1 is None,
        spawning@.warning matches Some(text) ==> r.1 == Some(
            CoreEvent::StoreWarning { message: text },
        ),
{
}

/// A copy holds what it was made of.
pub proof fn copies_hold_the_same(
    shell: &ShellRecord,
    shell_copy: ShellRecord,
    pending: &PendingOpen,
    pending_copy: PendingOpen,
    server: &ServerRecord,
    server_copy: ServerRecord,
    data: &StoreData,
    data_copy: StoreData,
)
    requires
        call_ensures(ShellRecord::copy, (shell,), shell_copy),
        call_ensures(PendingOpen::copy, (pending,), pending_copy),
        call_ensures(ServerRecord::copy, (server,), server_copy),
        call_ensures(StoreData::copy, (data,), data_copy),
    ensures
        shell_copy.token@ == shell.token@,
        shell_copy.name@ == shell.name@,
        shell_copy.last_attached_at_ms == shell.last_attached_at_ms,
        shell_copy.idempotency_key is Some <==> shell.idempotency_key is Some,
        shell.idempotency_key matches Some(k) ==> (shell_copy.idempotency_key matches Some(c) && c@
            == k@),
        pending_copy.idempotency_key@ == pending.idempotency_key@,
        pending_copy.name@ == pending.name@,
        server_copy.url@ == server.url@,
        server_copy.display_name@ == server.display_name@,
        server_copy.remember_login == server.remember_login,
        server_copy.grant is Some <==> server.grant is Some,
        server.grant matches Some(g) ==> (server_copy.grant matches Some(c) && c@ == g@),
        server.username matches Some(u) ==> (server_copy.username matches Some(c) && c@ == u@),
        server.username is None ==> server_copy.username is None,
        server.ssh_key_path matches Some(p) ==> (server_copy.ssh_key_path matches Some(c) && c@
            == p@),
        server.ssh_key_path is None ==> server_copy.ssh_key_path is None,
        server_copy@.shells == server@.shells,
        server_copy@.pending_opens == server@.pending_opens,
        data_copy@ == data@,
        data_copy.version == data.version,
{
    assert(shell@.idempotency_key == shell_copy@.idempotency_key);
    assert(server@.grant == server_copy@.grant);
    assert(server@.username == server_copy@.username);
    assert(server@.ssh_key_path == server_copy@.ssh_key_path);
}

/// The interface starts with every server that is remembered, and with no other: each
/// with its address and its name, in the order of their keys.
pub proof fn interfaces_start_with_every_server(
    core: &Core,
    r: BootstrapView,
    key: Seq<char>,
    i: int,
    j: int,
)
    requires
        call_ensures(Core::bootstrap, (core,), r),
    ensures
        core@.store.servers.dom().contains(key) ==> exists|k: int|
            0 <= k < r.servers@.len() && (#[trigger] r.servers@[k]).key@ == key,
        0 <= i < r.servers@.len() ==> {
            &&& core@.store.servers.dom().contains(r.servers@[i].key@)
            &&& r.servers@[i].url@ == core@.store.servers[r.servers@[i].key@].url
            &&& r.servers@[i].display_name@
                == core@.store.servers[r.servers@[i].key@].display_name
        },
        0 <= i < j < r.servers@.len() ==> crate::order::precedes(
            r.servers@[i].key@,
            r.servers@[j].key@,
        ),
{
    let shown = r.servers@;
    let servers = core@.store.servers;
    let list = choose|list: Seq<(Seq<char>, ServerModel)>|
        {
            &&& crate::order::in_order(list)
            &&& #[trigger] crate::assoc::as_map(list) == servers
            &&& shown.len() == list.len()
            &&& forall|i: int|
                0 <= i < list.len() ==> {
                    &&& (#[trigger] shown[i]).key@ == list[i].0
                    &&& shown[i].url@ == list[i].1.url
                    &&& shown[i].display_name@ == list[i].1.display_name
                    &&& crate::client::shows_shells(shown[i].shells@, list[i].1.shells)
                }
        };
    crate::order::ordered_is_unique(list);
    if servers.dom().contains(key) {
        assert(crate::assoc::has_key(list, key));
        let k = choose|k: int| 0 <= k < list.len() && (#[trigger] list[k]).0 == key;
        assert(shown[k].key@ == key);
    }
    if 0 <= i < shown.len() {
        crate::assoc::lookup(list, i);
        assert(shown[i].key@ == list[i].0);
    }
    if 0 <= i < j < shown.len() {
        assert(shown[i].key@ == list[i].0);
        assert(shown[j].key@ == list[j].0);
    }
}

/// A client that starts takes over what was read, and what the command-line client
/// remembers only where it could be read and nothing is known yet.
pub proof fn clients_take_over_once(
    loaded: Loaded,
    v1: Option<&V1State>,
    r: Spawning,
)
    requires
        call_ensures(Core::spawn, (loaded, v1), r),
    ensures
        r@.store == loaded.store@,
        r@.warning == loaded.warning,
        v1 is None ==> r@.import is None,
        (exists|key: Seq<char>| loaded.store@.servers.dom().contains(key)) ==> r@.import is None,
{
}

/// The key of a shell that is asked for is remembered before the request goes out, and
/// its answer before whoever asked is told; what is looked after stays as it is.
pub proof fn clients_write_before_they_ask(
    core: &mut Core,
    opening: Opening,
    written: bool,
    r: Result<(Asked, Envelope), StoreError>,
    told: &mut Core,
    answered: Answered,
    kept: bool,
    answer: Result<String, OpenError>,
    store: &Store,
)
    requires
        call_ensures(Core::key_written, (core, opening, written), r),
        opening@.base == old(core)@.store,
        call_ensures(Core::answer_written, (told, answered, kept), answer),
        answered@.base == old(told)@.store,
        call_ensures(Core::store, (&*final(core),), store),
    ensures
        written ==> {
            &&& r matches Ok((asked, request))
            &&& store@ == opening@.change
            &&& asked@.server_key == opening@.server_key
            &&& asked@.key_hex == hex_text(opening@.key)
            &&& request.message matches Some(
                Message::OpenShell { initial_cols, initial_rows, idempotency_key, .. },
            )
            &&& initial_cols == opening@.cols
            &&& initial_rows == opening@.rows
            &&& idempotency_key@ == opening@.key
        },
        !written ==> r == Err::<(Asked, Envelope), StoreError>(StoreError::NotWritten) && store@
            == old(core)@.store,
        final(core)@.running == old(core)@.running,
        final(told)@.running == old(told)@.running,
        answered@.reply matches Err(e) ==> answer == Err::<String, OpenError>(
            OpenError::Control(e),
        ),
        answered@.reply matches Ok(shell) ==> {
            &&& answered@.change is Some && kept ==> (answer matches Ok(s) && s@ == shell)
            &&& answered@.change is Some && !kept ==> answer == Err::<String, OpenError>(
                OpenError::Store(StoreError::NotWritten),
            )
        },
        kept && answered@.change is Some ==> final(told)@.store == answered@.change->0,
        !kept ==> final(told)@.store == old(told)@.store,
{
}

/// What is to be written for a shell holds its key or its answer, without the logins that
/// are not to be kept.
pub proof fn openings_are_written_without_logins(
    opening: &Opening,
    data: StoreData,
    answered: &Answered,
    found: Option<StoreData>,
    whole: &StoreData,
    persisted: StoreData,
    key: Seq<char>,
)
    requires
        call_ensures(Opening::to_write, (opening,), data),
        call_ensures(Answered::to_write, (answered,), found),
        call_ensures(StoreData::persisted, (whole,), persisted),
    ensures
        opening@.change.servers.dom().contains(key) ==> data@.servers.dom().contains(key)
            && data@.servers[key].pending_opens == opening@.change.servers[key].pending_opens
            && data@.servers[key].shells == opening@.change.servers[key].shells && (
        !opening@.change.servers[key].remember_login ==> data@.servers[key].grant is None),
        found is Some <==> answered@.change is Some,
        found matches Some(d) ==> answered@.change->0.servers.dom().contains(key)
            ==> d@.servers.dom().contains(key) && d@.servers[key].shells
            == answered@.change->0.servers[key].shells && d@.servers[key].pending_opens
            == answered@.change->0.servers[key].pending_opens,
        whole@.servers.dom().contains(key) ==> persisted@.servers.dom().contains(key)
            && persisted@.servers[key].shells == whole@.servers[key].shells && (
        whole@.servers[key].remember_login ==> persisted@.servers[key] == whole@.servers[key]) && (
        !whole@.servers[key].remember_login ==> persisted@.servers[key].grant is None),
{
}

/// Each server that the interface starts with shows every shell that is remembered of it,
/// and no other: each with its name, in the order of their identifiers.
pub proof fn interfaces_start_with_every_shell(
    core: &Core,
    r: BootstrapView,
    i: int,
    shell_hex: Seq<char>,
    j: int,
    k: int,
)
    requires
        call_ensures(Core::bootstrap, (core,), r),
        0 <= i < r.servers@.len(),
    ensures
        ({
            let shown = r.servers@[i].shells@;
            let shells = core@.store.servers[r.servers@[i].key@].shells;
            &&& shells.dom().contains(shell_hex) ==> exists|m: int|
                0 <= m < shown.len() && (#[trigger] shown[m]).shell@ == shell_hex
            &&& 0 <= j < shown.len() ==> shells.dom().contains(shown[j].shell@) && shown[j].name@
                == shells[shown[j].shell@].name
            &&& 0 <= j < k < shown.len() ==> crate::order::precedes(
                shown[j].shell@,
                shown[k].shell@,
            )
        }),
{
    let all = r.servers@;
    let servers = core@.store.servers;
    let list = choose|list: Seq<(Seq<char>, ServerModel)>|
        {
            &&& crate::order::in_order(list)
            &&& #[trigger] crate::assoc::as_map(list) == servers
            &&& all.len() == list.len()
            &&& forall|i: int|
                0 <= i < list.len() ==> {
                    &&& (#[trigger] all[i]).key@ == list[i].0
                    &&& all[i].url@ == list[i].1.url
                    &&& all[i].display_name@ == list[i].1.display_name
                    &&& crate::client::shows_shells(all[i].shells@, list[i].1.shells)
                }
        };
    crate::order::ordered_is_unique(list);
    crate::assoc::lookup(list, i);
    assert(all[i].key@ == list[i].0);
    let shown = all[i].shells@;
    let shells = servers[all[i].key@].shells;
    let own = choose|own: Seq<(Seq<char>, ShellModel)>|
        {
            &&& crate::order::in_order(own)
            &&& #[trigger] crate::assoc::as_map(own) == shells
            &&& shown.len() == own.len()
            &&& forall|n: int|
                0 <= n < own.len() ==> (#[trigger] shown[n]).shell@ == own[n].0 && shown[n].name@
                    == own[n].1.name
        };
    crate::order::ordered_is_unique(own);
    if shells.dom().contains(shell_hex) {
        assert(crate::assoc::has_key(own, shell_hex));
        let m = choose|m: int| 0 <= m < own.len() && (#[trigger] own[m]).0 == shell_hex;
        assert(shown[m].shell@ == shell_hex);
    }
    if 0 <= j < shown.len() {
        crate::assoc::lookup(own, j);
        assert(shown[j].shell@ == own[j].0);
    }
    if 0 <= j < k < shown.len() {
        assert(shown[j].shell@ == own[j].0);
        assert(shown[k].shell@ == own[k].0);
    }
}

} // verus!
