//! Opening and ending shells on a server, and what is remembered of it: a shell is
//! asked for only once its key is written, so that it can be found again whatever
//! happens.

use vstd::prelude::*;
use vstd::string::*;
use vstd::utf8::*;

use crate::client::{CoreEvent, ShellStateEvent};
use crate::hex::{hex, hex_text};
use crate::protocol::Envelope;
use crate::store::{
    without_pending, Change, PendingModel, PendingOpen, Store, StoreData, StoreError,
    StoreModel,
};
use crate::supervisor::{is_open_request, key_of, open_request, parse_key, ControlError};

verus! {

/// Whether some entry of a list has a key.
pub open spec fn lists_key(list: Seq<PendingModel>, key_hex: Seq<char>) -> bool {
    exists|i: int| 0 <= i < list.len() && (#[trigger] list[i]).idempotency_key == key_hex
}

/// Whether the key of a shell is noted for a server.
pub open spec fn noted(store: StoreModel, server_key: Seq<char>, key_hex: Seq<char>) -> bool {
    store.servers.dom().contains(server_key) && lists_key(
        store.servers[server_key].pending_opens,
        key_hex,
    )
}

/// Why a shell is not opened.
#[derive(Debug, Clone, PartialEq, Eq)]
pub enum OpenError {
    /// What was to be remembered of it is not.
    Store(StoreError),
    /// The server did not open it.
    Control(ControlError),
}

/// A shell that is to be opened. Its key is to be written first.
pub struct Opening {
    server_key: String,
    key: [u8; 16],
    cols: u16,
    rows: u16,
    change: Change,
}

/// What an [`Opening`] holds.
pub struct OpeningView {
    pub server_key: Seq<char>,
    pub key: Seq<u8>,
    pub cols: u16,
    pub rows: u16,
    /// What is remembered as long as nothing is written.
    pub base: StoreModel,
    /// What is remembered once the key is written.
    pub change: StoreModel,
}

impl View for Opening {
    type V = OpeningView;

    closed spec fn view(&self) -> OpeningView {
        OpeningView {
            server_key: self.server_key@,
            key: self.key@,
            cols: self.cols,
            rows: self.rows,
            base: self.change.base(),
            change: self.change@,
        }
    }
}

/// A shell that a server was asked for.
pub struct Asked {
    server_key: String,
    key_hex: String,
}

/// What an [`Asked`] holds.
pub struct AskedView {
    pub server_key: Seq<char>,
    /// The key, as it is noted.
    pub key_hex: Seq<char>,
}

impl View for Asked {
    type V = AskedView;

    closed spec fn view(&self) -> AskedView {
        AskedView { server_key: self.server_key@, key_hex: self.key_hex@ }
    }
}

impl Opening {
    /// Whether the key is noted in what is to be written.
    pub closed spec fn wf(&self) -> bool {
        self.change.wf() && noted(self.change@, self.server_key@, hex_text(self.key@))
    }

    /// Notes a shell with its key.
    pub fn begin(
        store: &Store,
        server_key: &str,
        key: [u8; 16],
        name: &str,
        cols: u16,
        rows: u16,
    ) -> (r: Result<Opening, StoreError>)
        requires
            store.wf(),
        ensures
            begun(store@, server_key@, key@, name@, cols, rows, r),
    {
        let key_hex: String = hex(key.as_slice());
        let change: Change = store.push_pending_open(server_key, key_hex.as_str(), name)?;
        proof {
            let list = change@.servers[server_key@].pending_opens;
            assert(list.last().idempotency_key == key_hex@);
            assert(lists_key(list, key_hex@));
        }
        Ok(Opening { server_key: server_key.to_owned(), key, cols, rows, change })
    }

    /// What is to be written before the shell is asked for.
    pub fn to_write(&self) -> (r: StoreData)
        requires
            self.wf(),
        ensures
            r.wf(),
            r@ == self@.change.stripped(),
    {
        self.change.to_write()
    }

    /// The key was written, or could not be. Only once it is, there is a request;
    /// otherwise nothing is sent and nothing is remembered.
    pub fn written(self, store: &mut Store, written: bool) -> (r: Result<(Asked, Envelope), StoreError>)
        requires
            self.wf(),
            old(store).wf(),
            self@.base == old(store)@,
        ensures
            final(store).wf(),
            asked_for(self@, written, old(store)@, final(store)@, r),
    {
        store.settle(self.change, written)?;
        let request: Envelope = open_request(self.cols, self.rows, &self.key);
        let key_hex: String = hex(self.key.as_slice());
        Ok((Asked { server_key: self.server_key, key_hex }, request))
    }
}

/// Whether a shell is asked for once its key is written, and not before; what is
/// remembered then.
pub open spec fn asked_for(
    opening: OpeningView,
    written: bool,
    before: StoreModel,
    after: StoreModel,
    r: Result<(Asked, Envelope), StoreError>,
) -> bool {
    &&& r is Ok <==> written
    &&& r matches Ok((asked, request)) ==> {
        &&& after == opening.change
        &&& noted(after, opening.server_key, hex_text(opening.key))
        &&& is_open_request(request, opening.cols, opening.rows, opening.key)
        &&& asked@ == (AskedView {
            server_key: opening.server_key,
            key_hex: hex_text(opening.key),
        })
    }
    &&& r matches Err(e) ==> e == StoreError::NotWritten && after == before
}

/// Whether a shell was noted with its key, or there is no such server.
pub open spec fn begun(
    store: StoreModel,
    server_key: Seq<char>,
    key: Seq<u8>,
    name: Seq<char>,
    cols: u16,
    rows: u16,
    r: Result<Opening, StoreError>,
) -> bool {
    if store.servers.dom().contains(server_key) {
        &&& r matches Ok(opening)
        &&& opening.wf()
        &&& opening@ == (OpeningView {
            server_key,
            key,
            cols,
            rows,
            base: store,
            change: store.with(
                server_key,
                store.servers[server_key].pending_pushed(hex_text(key), name),
            ),
        })
    } else {
        r matches Err(e) && e == StoreError::UnknownServer
    }
}

/// A shell that a server was asked for, with the server's answer.
pub struct Answered {
    reply: Result<String, ControlError>,
    change: Option<Change>,
    base: Ghost<StoreModel>,
}

/// What an [`Answered`] holds.
pub struct AnsweredView {
    /// The shell, or why there is none.
    pub reply: Result<Seq<char>, ControlError>,
    /// What is remembered as long as nothing is written.
    pub base: StoreModel,
    /// What is remembered once the answer is written; `None` where the server is
    /// remembered no more.
    pub change: Option<StoreModel>,
}

impl View for Answered {
    type V = AnsweredView;

    closed spec fn view(&self) -> AnsweredView {
        AnsweredView {
            reply: match self.reply {
                Ok(shell) => Ok(shell@),
                Err(e) => Err(e),
            },
            base: self.base@,
            change: match self.change {
                Some(change) => Some(change@),
                None => None,
            },
        }
    }
}

/// What an answer comes to: the shell that was opened is remembered under its
/// name and with its key, and one that was not is noted no more.
pub open spec fn answer_view(
    asked: AskedView,
    store: StoreModel,
    answer: Result<(Vec<u8>, Vec<u8>), ControlError>,
    now_ms: i64,
) -> AnsweredView {
    let known = store.servers.dom().contains(asked.server_key);
    let server = store.servers[asked.server_key];
    let changed = match answer {
        Ok((shell_id, token)) => server.pending_resolved(
            asked.key_hex,
            hex_text(shell_id@),
            token@,
            now_ms,
        ),
        Err(_) => server.pending_dropped(asked.key_hex),
    };
    AnsweredView {
        reply: match answer {
            Ok((shell_id, _)) => Ok(hex_text(shell_id@)),
            Err(e) => Err(e),
        },
        base: store,
        change: if known {
            Some(store.with(asked.server_key, changed))
        } else {
            None
        },
    }
}

/// What whoever asked for a shell is told, and what is remembered, once the answer
/// is written or could not be.
pub open spec fn told(
    answered: AnsweredView,
    written: bool,
    before: StoreModel,
    after: StoreModel,
    r: Result<String, OpenError>,
) -> bool {
    &&& after == (if written && answered.change is Some {
        answered.change->0
    } else {
        before
    })
    &&& match answered.reply {
        Err(e) => r == Err::<String, OpenError>(OpenError::Control(e)),
        Ok(shell) => if answered.change is None {
            r == Err::<String, OpenError>(OpenError::Store(StoreError::UnknownServer))
        } else if written {
            r matches Ok(s) && s@ == shell
        } else {
            r == Err::<String, OpenError>(OpenError::Store(StoreError::NotWritten))
        },
    }
}

fn found(change: Result<Change, StoreError>) -> (r: Option<Change>)
    ensures
        change matches Ok(c) ==> r == Some(c),
        change is Err ==> r is None,
{
    match change {
        Ok(change) => Some(change),
        Err(_) => None,
    }
}

impl Asked {
    /// Takes the server's answer.
    pub fn answered(
        self,
        store: &Store,
        answer: Result<(Vec<u8>, Vec<u8>), ControlError>,
        now_ms: i64,
    ) -> (r: Answered)
        requires
            store.wf(),
        ensures
            r.wf(),
            r@ == answer_view(self@, store@, answer, now_ms),
    {
        match answer {
            Ok((shell_id, token)) => {
                let shell_hex: String = hex(shell_id.as_slice());
                let change: Result<Change, StoreError> = store.resolve_pending_open(
                    self.server_key.as_str(),
                    self.key_hex.as_str(),
                    shell_hex.as_str(),
                    token.as_slice(),
                    now_ms,
                );
                Answered { reply: Ok(shell_hex), change: found(change), base: Ghost(store@) }
            },
            Err(e) => {
                let change: Result<Change, StoreError> = store.drop_pending_open(
                    self.server_key.as_str(),
                    self.key_hex.as_str(),
                );
                Answered { reply: Err(e), change: found(change), base: Ghost(store@) }
            },
        }
    }
}

impl Answered {
    /// Whether the change was worked out from what is remembered.
    pub closed spec fn wf(&self) -> bool {
        self.change matches Some(change) ==> change.wf() && change.base() == self.base@
    }

    /// What is to be written, if there is anything.
    pub fn to_write(&self) -> (r: Option<StoreData>)
        requires
            self.wf(),
        ensures
            r is Some <==> self@.change is Some,
            r matches Some(data) ==> data.wf() && data@ == self@.change->0.stripped(),
    {
        match &self.change {
            Some(change) => Some(change.to_write()),
            None => None,
        }
    }

    /// The answer was written, or could not be: what whoever asked for the shell is
    /// told.
    pub fn written(self, store: &mut Store, written: bool) -> (r: Result<String, OpenError>)
        requires
            self.wf(),
            old(store).wf(),
            self@.base == old(store)@,
        ensures
            final(store).wf(),
            told(self@, written, old(store)@, final(store)@, r),
    {
        let settled: Result<(), StoreError> = match self.change {
            Some(change) => store.settle(change, written),
            None => Err(StoreError::UnknownServer),
        };
        match self.reply {
            Err(e) => Err(OpenError::Control(e)),
            Ok(shell) => match settled {
                Ok(_) => Ok(shell),
                Err(e) => Err(OpenError::Store(e)),
            },
        }
    }
}

/// What a shell that was noted before a restart leads to.
pub enum Resumed {
    /// Ask for it again, which gives the same shell.
    Ask { asked: Asked, request: Envelope },
    /// Its key cannot be read: note it no more. `None` where the server is
    /// remembered no more.
    Drop { change: Option<Change> },
}

/// Takes a shell that was noted before a restart.
pub fn resume_pending(store: &Store, server_key: &str, pending: &PendingOpen) -> (r: Resumed)
    requires
        store.wf(),
    ensures
        match key_of(encode_utf8(pending@.idempotency_key)) {
            Some(key) => r matches Resumed::Ask { asked, request } && asked@ == (AskedView {
                server_key: server_key@,
                key_hex: pending@.idempotency_key,
            }) && is_open_request(request, 0, 0, key),
            None => {
                &&& r matches Resumed::Drop { change }
                &&& change is Some <==> store@.servers.dom().contains(server_key@)
                &&& change matches Some(c) ==> c.wf() && c.base() == store@ && c@ == store@.with(
                    server_key@,
                    store@.servers[server_key@].pending_dropped(pending@.idempotency_key),
                )
            },
        },
{
    let text: &str = pending.idempotency_key.as_str();
    match parse_key(text) {
        Some(key) => Resumed::Ask {
            asked: Asked { server_key: server_key.to_owned(), key_hex: text.to_owned() },
            request: open_request(0, 0, &key),
        },
        None => Resumed::Drop { change: found(store.drop_pending_open(server_key, text)) },
    }
}

/// A shell that a server was asked to end.
pub struct Ending {
    server_key: String,
    shell_hex: String,
}

/// What an [`Ending`] holds.
pub struct EndingView {
    pub server_key: Seq<char>,
    pub shell_hex: Seq<char>,
}

impl View for Ending {
    type V = EndingView;

    closed spec fn view(&self) -> EndingView {
        EndingView { server_key: self.server_key@, shell_hex: self.shell_hex@ }
    }
}

/// Whether an event tells of a shell.
pub open spec fn tells(
    event: CoreEvent,
    server_key: Seq<char>,
    shell_hex: Seq<char>,
    state: ShellStateEvent,
    exit_code: Option<i32>,
) -> bool {
    event matches CoreEvent::ShellState { server, shell, state: s, exit_code: c } && server@
        == server_key && shell@ == shell_hex && s == state && c == exit_code
}

/// An event that tells of a shell.
pub fn shell_event(
    server_key: &str,
    shell_hex: &str,
    state: ShellStateEvent,
    exit_code: Option<i32>,
) -> (r: CoreEvent)
    ensures
        tells(r, server_key@, shell_hex@, state, exit_code),
{
    CoreEvent::ShellState {
        server: server_key.to_owned(),
        shell: shell_hex.to_owned(),
        state,
        exit_code,
    }
}

/// What the answer to a request to end a shell leads to.
pub struct Ended {
    /// What is to be written, if there is anything.
    pub change: Option<Change>,
    /// What the interface is told, if anything.
    pub event: Option<CoreEvent>,
    /// What whoever asked is told.
    pub reply: Result<i32, ControlError>,
}

/// Whether a shell is forgotten, where its server is remembered.
pub open spec fn forgets(
    store: StoreModel,
    server_key: Seq<char>,
    shell_hex: Seq<char>,
    change: Option<Change>,
) -> bool {
    &&& change is Some <==> store.servers.dom().contains(server_key)
    &&& change matches Some(c) ==> c.wf() && c.base() == store && c@ == store.with(
        server_key,
        store.servers[server_key].shell_removed(shell_hex),
    )
}

/// Forgets a shell, where its server is remembered.
pub fn forget(store: &Store, server_key: &str, shell_hex: &str) -> (r: Option<Change>)
    requires
        store.wf(),
    ensures
        forgets(store@, server_key@, shell_hex@, r),
{
    found(store.remove_shell(server_key, shell_hex))
}

impl Ending {
    /// A shell that is to be ended.
    pub fn begin(server_key: &str, shell_hex: &str) -> (r: Ending)
        ensures
            r@ == (EndingView { server_key: server_key@, shell_hex: shell_hex@ }),
    {
        Ending { server_key: server_key.to_owned(), shell_hex: shell_hex.to_owned() }
    }

    /// Takes the server's answer: a shell is forgotten only where the server ended
    /// it.
    pub fn answered(self, store: &Store, answer: Result<i32, ControlError>) -> (r: Ended)
        requires
            store.wf(),
        ensures
            r.reply == answer,
            match answer {
                Ok(code) => {
                    &&& forgets(store@, self@.server_key, self@.shell_hex, r.change)
                    &&& r.event matches Some(event)
                    &&& tells(
                        event,
                        self@.server_key,
                        self@.shell_hex,
                        ShellStateEvent::Exited,
                        Some(code),
                    )
                },
                Err(_) => r.change is None && r.event is None,
            },
    {
        match answer {
            Ok(code) => Ended {
                change: forget(store, self.server_key.as_str(), self.shell_hex.as_str()),
                event: Some(
                    shell_event(
                        self.server_key.as_str(),
                        self.shell_hex.as_str(),
                        ShellStateEvent::Exited,
                        Some(code),
                    ),
                ),
                reply: Ok(code),
            },
            Err(e) => Ended { change: None, event: None, reply: Err(e) },
        }
    }
}

proof fn dropped_is_absent(list: Seq<PendingModel>, key: Seq<char>)
    ensures
        !lists_key(without_pending(list, key), key),
    decreases list.len(),
{
    if list.len() > 0 {
        let shorter = without_pending(list.drop_last(), key);
        dropped_is_absent(list.drop_last(), key);
        let longer = without_pending(list, key);
        if lists_key(longer, key) {
            let i = choose|i: int|
                0 <= i < longer.len() && (#[trigger] longer[i]).idempotency_key == key;
            if list.last().idempotency_key != key && i == shorter.len() {
                assert(longer[i] == list.last());
            } else {
                assert(shorter[i] == longer[i]);
            }
        }
    }
}

/// Once the answer to a request for a shell is written, the shell is noted no
/// more, whatever the answer was; one that was opened is known, where its server
/// still is.
pub proof fn answers_settle_opens(
    asked: AskedView,
    store: StoreModel,
    answer: Result<(Vec<u8>, Vec<u8>), ControlError>,
    now_ms: i64,
)
    ensures
        ({
            let after = match answer_view(asked, store, answer, now_ms).change {
                Some(changed) => changed,
                None => store,
            };
            &&& !noted(after, asked.server_key, asked.key_hex)
            &&& store.servers.dom().contains(asked.server_key) ==> (answer matches Ok((shell_id, _))
                ==> after.servers[asked.server_key].shells.dom().contains(hex_text(shell_id@)))
        }),
{
    dropped_is_absent(store.servers[asked.server_key].pending_opens, asked.key_hex);
}

} // verus!
