//! The player's library: what is asked of the database, and what its answers
//! change.
//!
//! One worker owns the database. It takes commands and answers with events that
//! hold identities and snapshots, never a connection or a file.
use crate::backend::output::chars;
use crate::playlist::{
    EntryId, MediaId, PlaybackMode, PlaylistId, PlaylistSnapshot, PlaylistSummary, SavedBrowse,
    SessionState,
};
use std::collections::HashMap;
use std::path::PathBuf;
use std::sync::Arc;
use vstd::prelude::*;
use vstd::string::*;

pub mod store;

verus! {

broadcast use vstd::std_specs::hash::group_hash_axioms;

/// `Arc::clone`: another handle of the same snapshot.
#[verifier::external_body]
pub(crate) fn share(list: &Arc<PlaylistSnapshot>) -> (r: Arc<PlaylistSnapshot>)
    ensures
        r == *list,
{
    Arc::clone(list)
}

fn share_all(list: &Option<Arc<PlaylistSnapshot>>) -> (r: Option<Arc<PlaylistSnapshot>>)
    ensures
        r == *list,
{
    match list {
        Some(list) => Some(share(list)),
        None => None,
    }
}

#[derive(Debug)]
pub enum Mutation {
    Create(String),
    Rename(PlaylistId, String),
    Delete(PlaylistId),
    OrderPlaylists(Vec<PlaylistId>),
    Mode(PlaylistId, PlaybackMode),
    Add(PlaylistId, Vec<PathBuf>),
    Remove(PlaylistId, Vec<EntryId>),
    Reorder(PlaylistId, Vec<EntryId>),
    Transfer { from: PlaylistId, to: PlaylistId, entries: Vec<EntryId>, remove: bool },
    Relocate(MediaId, PathBuf),
    MediaError(MediaId, Option<String>),
}

/// What is asked of the worker.
#[derive(Debug)]
pub enum Command {
    Watch { serial: u64, browse: Option<PlaylistId>, playing: Option<PlaylistId> },
    Mutate(Mutation),
    Browse(PlaylistId, SavedBrowse),
    Session(SessionState),
    Preferences,
    Retry,
    Shutdown,
}

/// The lists as the worker read them.
#[derive(Debug)]
pub struct Snapshot {
    pub serial: u64,
    pub revision: u64,
    pub summaries: Vec<PlaylistSummary>,
    pub browse: Option<Arc<PlaylistSnapshot>>,
    pub playing: Option<Arc<PlaylistSnapshot>>,
}

/// What the worker answers.
#[derive(Debug)]
pub enum Event {
    Boot(SessionState),
    Snapshot(Snapshot),
    Message(String),
    Error(String),
    MediaError { revision: u64, media: MediaId, error: Option<String> },
    Recovered,
    Done,
}

/// What the player is told.
#[derive(Debug)]
pub enum Notice {
    Boot(SessionState),
    PlayingChanged {
        old_list: Option<Arc<PlaylistSnapshot>>,
        new_list: Option<Arc<PlaylistSnapshot>>,
    },
}

#[derive(Debug)]
pub struct LibraryController {
    pub serial: u64,
    pub revision: u64,
    pub pending: usize,
    pub summaries: Vec<PlaylistSummary>,
    /// What was wrong with a media, by its identity.
    pub media_errors: HashMap<i64, Option<String>>,
    pub browse: Option<Arc<PlaylistSnapshot>>,
    pub playing: Option<Arc<PlaylistSnapshot>>,
    pub desired_browse: Option<PlaylistId>,
    pub desired_playing: Option<PlaylistId>,
    pub ready: bool,
    pub error: Option<String>,
    pub message: String,
}

#[verifier::ext_equal]
pub struct LibraryModel {
    pub serial: u64,
    pub revision: u64,
    pub pending: usize,
    pub summaries: Seq<PlaylistSummary>,
    pub media_errors: Map<i64, Option<String>>,
    pub browse: Option<Arc<PlaylistSnapshot>>,
    pub playing: Option<Arc<PlaylistSnapshot>>,
    pub desired_browse: Option<PlaylistId>,
    pub desired_playing: Option<PlaylistId>,
    pub ready: bool,
    pub error: Option<Seq<char>>,
    pub message: Seq<char>,
}

impl View for LibraryController {
    type V = LibraryModel;

    open spec fn view(&self) -> LibraryModel {
        LibraryModel {
            serial: self.serial,
            revision: self.revision,
            pending: self.pending,
            summaries: self.summaries@,
            media_errors: self.media_errors@,
            browse: self.browse,
            playing: self.playing,
            desired_browse: self.desired_browse,
            desired_playing: self.desired_playing,
            ready: self.ready,
            error: chars(self.error),
            message: self.message@,
        }
    }
}

/// The identity of a list that is there.
pub open spec fn id_of(list: Option<Arc<PlaylistSnapshot>>) -> Option<PlaylistId> {
    match list {
        Some(list) => Some(list.summary.id),
        None => None,
    }
}

fn identify(list: &Option<Arc<PlaylistSnapshot>>) -> (r: Option<PlaylistId>)
    ensures
        r == id_of(*list),
{
    match list {
        Some(list) => Some(list.summary.id),
        None => None,
    }
}

fn same_id(a: Option<PlaylistId>, b: Option<PlaylistId>) -> (r: bool)
    ensures
        r == (a == b),
{
    match (a, b) {
        (Some(a), Some(b)) => a == b,
        (None, None) => true,
        _ => false,
    }
}

impl LibraryModel {
    /// The list that is shown for an identity: the current one, or the other
    /// where that is the one.
    pub open spec fn shown(
        current: Option<Arc<PlaylistSnapshot>>,
        other: Option<Arc<PlaylistSnapshot>>,
        wanted: Option<PlaylistId>,
    ) -> Option<Arc<PlaylistSnapshot>> {
        if id_of(current) == wanted {
            current
        } else if other is Some && id_of(other) == wanted {
            other
        } else {
            None
        }
    }

    pub open spec fn watching(
        self,
        browse: Option<PlaylistId>,
        playing: Option<PlaylistId>,
    ) -> LibraryModel {
        let shown = LibraryModel::shown(self.browse, self.playing, browse);
        LibraryModel {
            serial: if self.serial == u64::MAX {
                0
            } else {
                (self.serial + 1) as u64
            },
            desired_browse: browse,
            desired_playing: playing,
            browse: shown,
            playing: LibraryModel::shown(self.playing, shown, playing),
            ..self
        }
    }

    /// A snapshot that is not older than what is known brings the summaries; one
    /// of what is being watched brings the lists.
    pub open spec fn with_snapshot(self, snapshot: Snapshot) -> LibraryModel {
        if snapshot.revision < self.revision {
            self
        } else if snapshot.serial != self.serial {
            LibraryModel {
                revision: snapshot.revision,
                summaries: snapshot.summaries@,
                ..self
            }
        } else {
            LibraryModel {
                revision: snapshot.revision,
                summaries: snapshot.summaries@,
                media_errors: Map::empty(),
                browse: snapshot.browse,
                playing: snapshot.playing,
                desired_browse: id_of(snapshot.browse),
                desired_playing: id_of(snapshot.playing),
                ready: true,
                message: if !self.ready && self.message == "Loading library…"@ {
                    "Library ready"@
                } else {
                    self.message
                },
                ..self
            }
        }
    }

    /// What one event changes.
    pub open spec fn after(self, event: Event) -> LibraryModel {
        match event {
            Event::Boot(session) => LibraryModel {
                desired_browse: session.browse,
                desired_playing: match session.cursor {
                    Some(cursor) => cursor.playlist,
                    None => None,
                },
                ..self
            },
            Event::Snapshot(snapshot) => self.with_snapshot(snapshot),
            Event::Message(message) => if message@.len() == 0 {
                self
            } else {
                LibraryModel { message: message@, ..self }
            },
            Event::Error(error) => LibraryModel { error: Some(error@), ..self },
            Event::MediaError { revision, media, error } => if revision < self.revision {
                self
            } else {
                LibraryModel {
                    revision,
                    media_errors: self.media_errors.insert(media.0, error),
                    ..self
                }
            },
            Event::Recovered => LibraryModel {
                error: None,
                message: "Storage available; repeat any failed playlist operation"@,
                ..self
            },
            Event::Done => LibraryModel {
                pending: if self.pending == 0 {
                    0
                } else {
                    (self.pending - 1) as usize
                },
                ..self
            },
        }
    }

    /// The player is told of a start, and of every snapshot of what is watched.
    pub open spec fn notice(self, event: Event) -> Option<Notice> {
        match event {
            Event::Boot(session) => Some(Notice::Boot(session)),
            Event::Snapshot(snapshot) => if snapshot.revision < self.revision || snapshot.serial
                != self.serial {
                None
            } else {
                Some(
                    Notice::PlayingChanged { old_list: self.playing, new_list: snapshot.playing },
                )
            },
            _ => None,
        }
    }

    pub open spec fn after_all(self, events: Seq<Event>) -> LibraryModel
        decreases events.len(),
    {
        if events.len() == 0 {
            self
        } else {
            self.after(events[0]).after_all(events.drop_first())
        }
    }

    pub open spec fn notices(self, events: Seq<Event>) -> Seq<Notice>
        decreases events.len(),
    {
        if events.len() == 0 {
            Seq::empty()
        } else {
            let rest = self.after(events[0]).notices(events.drop_first());
            match self.notice(events[0]) {
                Some(notice) => seq![notice] + rest,
                None => rest,
            }
        }
    }
}

impl LibraryController {
    /// A library whose worker was started, or could not be.
    pub fn new(worker: Result<(), String>) -> (r: Self)
        ensures
            r.serial == 0 && r.revision == 0 && r.pending == 0,
            r@.summaries.len() == 0,
            r@.media_errors == Map::<i64, Option<String>>::empty(),
            r.browse is None && r.playing is None,
            r.desired_browse is None && r.desired_playing is None,
            !r.ready,
            r@.message == "Loading library…"@,
            match worker {
                Ok(_) => r.error is None,
                Err(error) => r@.error == Some("Cannot start library worker: "@ + error@),
            },
    {
        let error = match worker {
            Ok(_) => None,
            Err(error) => {
                let mut text = "Cannot start library worker: ".to_owned();
                text.append(error.as_str());
                Some(text)
            },
        };
        LibraryController {
            serial: 0,
            revision: 0,
            pending: 0,
            summaries: Vec::new(),
            media_errors: HashMap::new(),
            browse: None,
            playing: None,
            desired_browse: None,
            desired_playing: None,
            ready: false,
            error,
            message: "Loading library…".to_owned(),
        }
    }

    /// Records whether a command could be sent.
    pub fn sent(&mut self, delivered: bool)
        requires
            old(self).pending < usize::MAX,
        ensures
            final(self)@ == (if delivered {
                LibraryModel { pending: (old(self).pending + 1) as usize, ..old(self)@ }
            } else {
                LibraryModel {
                    error: Some("Library worker is unavailable; changes were not saved"@),
                    ..old(self)@
                }
            }),
    {
        if delivered {
            self.pending = self.pending + 1;
            assert(self@ =~= (LibraryModel {
                pending: (old(self).pending + 1) as usize,
                ..old(self)@
            }));
        } else {
            self.error = Some("Library worker is unavailable; changes were not saved".to_owned());
            assert(self@ =~= (LibraryModel {
                error: Some("Library worker is unavailable; changes were not saved"@),
                ..old(self)@
            }));
        }
    }

    pub fn busy(&self) -> (r: bool)
        ensures
            r == (self.pending > 0 || (!self.ready && self.error is None)),
    {
        self.pending > 0 || (!self.ready && self.error.is_none())
    }

    /// Turns to other lists. The command is to be sent.
    pub fn watch(&mut self, browse: Option<PlaylistId>, playing: Option<PlaylistId>) -> (r: Option<
        Command,
    >)
        ensures
            if old(self).desired_browse == browse && old(self).desired_playing == playing {
                r is None && final(self)@ == old(self)@
            } else {
                &&& final(self)@ == old(self)@.watching(browse, playing)
                &&& r == Some(
                    Command::Watch { serial: final(self)@.serial, browse, playing },
                )
            },
    {
        if same_id(self.desired_browse, browse) && same_id(self.desired_playing, playing) {
            return None;
        }
        self.serial = self.serial.wrapping_add(1);
        self.desired_browse = browse;
        self.desired_playing = playing;
        if !same_id(identify(&self.browse), browse) {
            self.browse =
            if self.playing.is_some() && same_id(identify(&self.playing), browse) {
                share_all(&self.playing)
            } else {
                None
            };
        }
        if !same_id(identify(&self.playing), playing) {
            self.playing =
            if self.browse.is_some() && same_id(identify(&self.browse), playing) {
                share_all(&self.browse)
            } else {
                None
            };
        }
        assert(self@ =~= old(self)@.watching(browse, playing));
        Some(Command::Watch { serial: self.serial, browse, playing })
    }

    /// Takes in one event.
    pub fn receive(&mut self, event: Event) -> (r: Option<Notice>)
        ensures
            final(self)@ == old(self)@.after(event),
            r == old(self)@.notice(event),
    {
        match event {
            Event::Boot(session) => {
                self.desired_browse = session.browse;
                self.desired_playing =
                match &session.cursor {
                    Some(cursor) => cursor.playlist,
                    None => None,
                };
                assert(self@ =~= old(self)@.after(event));
                Some(Notice::Boot(session))
            },
            Event::Snapshot(snapshot) => {
                if snapshot.revision < self.revision {
                    return None;
                }
                self.revision = snapshot.revision;
                self.summaries = snapshot.summaries;
                if snapshot.serial != self.serial {
                    assert(self@ =~= old(self)@.after(event));
                    return None;
                }
                self.media_errors = HashMap::new();
                let old_list = self.playing.take();
                self.playing = snapshot.playing;
                self.browse = snapshot.browse;
                self.desired_browse = identify(&self.browse);
                self.desired_playing = identify(&self.playing);
                let loading = "Loading library…".to_owned();
                if !self.ready && self.message == loading {
                    self.message = "Library ready".to_owned();
                }
                self.ready = true;
                assert(self@ =~= old(self)@.after(event));
                Some(Notice::PlayingChanged { old_list, new_list: share_all(&self.playing) })
            },
            Event::Message(message) => {
                if message.as_str().unicode_len() != 0 {
                    self.message = message;
                }
                assert(self@ =~= old(self)@.after(event));
                None
            },
            Event::Error(error) => {
                self.error = Some(error);
                assert(self@ =~= old(self)@.after(event));
                None
            },
            Event::MediaError { revision, media, error } => {
                if revision >= self.revision {
                    self.revision = revision;
                    self.media_errors.insert(media.0, error);
                }
                assert(self@ =~= old(self)@.after(event));
                None
            },
            Event::Recovered => {
                self.error = None;
                self.message = "Storage available; repeat any failed playlist operation".to_owned();
                assert(self@ =~= old(self)@.after(event));
                None
            },
            Event::Done => {
                self.pending = self.pending.saturating_sub(1);
                assert(self@ =~= old(self)@.after(event));
                None
            },
        }
    }

    /// Takes in every event that has arrived, oldest first.
    pub fn poll(&mut self, events: Vec<Event>) -> (r: Vec<Notice>)
        ensures
            final(self)@ == old(self)@.after_all(events@),
            r@ == old(self)@.notices(events@),
    {
        let mut events = events;
        let ghost all = events@;
        let ghost mut taken: int = 0;
        let mut notices: Vec<Notice> = Vec::new();
        assert(all.skip(0) =~= all);
        assert(notices@ + old(self)@.notices(all) =~= old(self)@.notices(all));
        while events.len() > 0
            invariant
                0 <= taken <= all.len(),
                events@ == all.skip(taken),
                self@.after_all(all.skip(taken)) == old(self)@.after_all(all),
                notices@ + self@.notices(all.skip(taken)) == old(self)@.notices(all),
            decreases events.len(),
        {
            let ghost before = self@;
            let ghost told = notices@;
            let event = events.remove(0);
            assert(all.skip(taken)[0] == event);
            assert(all.skip(taken).drop_first() =~= all.skip(taken + 1));
            assert(events@ =~= all.skip(taken + 1));
            if let Some(notice) = self.receive(event) {
                notices.push(notice);
                assert(notices@ + self@.notices(all.skip(taken + 1)) =~= told + (seq![notice]
                    + self@.notices(all.skip(taken + 1))));
            }
            proof {
                taken = taken + 1;
            }
        }
        assert(all.skip(taken).len() == 0);
        assert(notices@ + Seq::<Notice>::empty() =~= notices@);
        notices
    }
}

/// What the worker reads for the player.
#[derive(Debug, Clone, Copy, PartialEq, Eq, Structural)]
pub struct Watch {
    pub serial: u64,
    pub revision: u64,
    pub browse: Option<PlaylistId>,
    pub playing: Option<PlaylistId>,
}

/// What a change comes to.
#[derive(Debug)]
pub struct Change {
    /// A list to turn to.
    pub view: Option<PlaylistId>,
    pub message: String,
    pub media_error: Option<(MediaId, Option<String>)>,
}

/// One of the lists has this identity.
pub open spec fn is_listed(summaries: Seq<PlaylistSummary>, id: PlaylistId) -> bool {
    exists|i: int| 0 <= i < summaries.len() && (#[trigger] summaries[i]).id == id
}

fn listed(summaries: &Vec<PlaylistSummary>, id: Option<PlaylistId>) -> (r: bool)
    ensures
        r == (id is Some && is_listed(summaries@, id->0)),
{
    let wanted = match id {
        Some(id) => id,
        None => {
            return false;
        },
    };
    let mut at: usize = 0;
    while at < summaries.len()
        invariant
            at <= summaries.len(),
            id == Some(wanted),
            forall|i: int| 0 <= i < at ==> (#[trigger] summaries@[i]).id != wanted,
        decreases summaries.len() - at,
    {
        if summaries[at].id == wanted {
            assert(summaries@[at as int].id == wanted);
            return true;
        }
        at = at + 1;
    }
    false
}

impl Watch {
    pub fn new(session: &SessionState) -> (r: Self)
        ensures
            r.serial == 0 && r.revision == 0,
            r.browse == session.browse,
            r.playing == (match session.cursor {
                Some(cursor) => cursor.playlist,
                None => None,
            }),
    {
        Watch {
            serial: 0,
            revision: 0,
            browse: session.browse,
            playing: match &session.cursor {
                Some(cursor) => cursor.playlist,
                None => None,
            },
        }
    }

    /// Lists that are gone are no longer watched: the first one is looked at
    /// instead, and nothing is played.
    pub open spec fn settled(self, summaries: Seq<PlaylistSummary>) -> Watch {
        Watch {
            browse: if self.browse is Some && is_listed(summaries, self.browse->0) {
                self.browse
            } else if summaries.len() > 0 {
                Some(summaries[0].id)
            } else {
                None
            },
            playing: if self.playing is Some && is_listed(summaries, self.playing->0) {
                self.playing
            } else {
                None
            },
            ..self
        }
    }

    /// Settles on lists that there are. The result says whether both are one.
    pub fn settle(&mut self, summaries: &Vec<PlaylistSummary>) -> (r: bool)
        ensures
            *final(self) == old(self).settled(summaries@),
            r == (final(self).playing == final(self).browse),
    {
        if !listed(summaries, self.browse) {
            self.browse =
            if summaries.len() > 0 {
                Some(summaries[0].id)
            } else {
                None
            };
        }
        if !listed(summaries, self.playing) {
            self.playing = None;
        }
        same_id(self.playing, self.browse)
    }

    /// A command to watch other lists.
    pub fn watch(&mut self, serial: u64, browse: Option<PlaylistId>, playing: Option<PlaylistId>)
        ensures
            *final(self) == (Watch { serial, browse, playing, ..*old(self) }),
    {
        self.serial = serial;
        self.browse = browse;
        self.playing = playing;
    }

    /// The database was opened again: what its session looked at and played is watched.
    pub fn reopened(&mut self, session: &SessionState)
        ensures
            *final(self) == (Watch {
                browse: session.browse,
                playing: match session.cursor {
                    Some(cursor) => cursor.playlist,
                    None => None,
                },
                ..*old(self)
            }),
    {
        self.browse = session.browse;
        self.playing = match &session.cursor {
            Some(cursor) => cursor.playlist,
            None => None,
        };
    }

    /// A change was made. The result is the event to answer with, and whether a
    /// snapshot is to follow: it does not where only a media was marked.
    pub fn changed(&mut self, change: Change) -> (r: (Event, bool))
        ensures
            *final(self) == (Watch {
                revision: if old(self).revision == u64::MAX {
                    u64::MAX
                } else {
                    (old(self).revision + 1) as u64
                },
                browse: match change.view {
                    Some(view) => Some(view),
                    None => old(self).browse,
                },
                ..*old(self)
            }),
            r == (match change.media_error {
                Some((media, error)) => (
                    Event::MediaError { revision: final(self).revision, media, error },
                    false,
                ),
                None => (Event::Message(change.message), true),
            }),
    {
        self.revision = self.revision.saturating_add(1);
        if let Some(view) = change.view {
            self.browse = Some(view);
        }
        match change.media_error {
            Some((media, error)) => (
                Event::MediaError { revision: self.revision, media, error },
                false,
            ),
            None => (Event::Message(change.message), true),
        }
    }
}

/// What the worker does with a command.
#[derive(Debug)]
pub enum Task {
    /// Keep the preferences.
    Preferences,
    /// Keep the preferences and the last session again, and say that storage is back.
    Save,
    /// Keep the preferences, open the database again, and say that storage is back.
    Reopen,
    Watch { serial: u64, browse: Option<PlaylistId>, playing: Option<PlaylistId> },
    Mutate(Mutation),
    Browse(PlaylistId, SavedBrowse),
    Session(SessionState),
    /// Say that the command was not carried out, and why.
    Refuse(&'static str),
    Stop,
}

impl Task {
    /// Whether the lists are shown anew once the task is done. A change of the library
    /// says so itself.
    pub fn shows_lists(&self) -> (r: bool)
        ensures
            r == (self is Watch || self is Save || self is Reopen),
    {
        match self {
            Task::Watch { .. } | Task::Save | Task::Reopen => true,
            _ => false,
        }
    }
}

/// Decides what to do with a command. `open` says whether there is a database. Preferences
/// need none, and a retry opens one; without it nothing else is carried out.
pub fn route(command: Command, open: bool) -> (r: Task)
    ensures
        match command {
            Command::Preferences => r is Preferences,
            Command::Retry => if open {
                r is Save
            } else {
                r is Reopen
            },
            Command::Shutdown => r is Stop,
            Command::Watch { serial, browse, playing } if open => r == (Task::Watch {
                serial,
                browse,
                playing,
            }),
            Command::Mutate(mutation) if open => r == Task::Mutate(mutation),
            Command::Browse(id, state) if open => r == Task::Browse(id, state),
            Command::Session(state) if open => r == Task::Session(state),
            _ => r is Refuse && r->Refuse_0@
                == "Library is unavailable; changes were not saved"@,
        },
{
    match command {
        Command::Preferences => Task::Preferences,
        Command::Retry => if open {
            Task::Save
        } else {
            Task::Reopen
        },
        Command::Shutdown => Task::Stop,
        Command::Watch { serial, browse, playing } if open => Task::Watch {
            serial,
            browse,
            playing,
        },
        Command::Mutate(mutation) if open => Task::Mutate(mutation),
        Command::Browse(id, state) if open => Task::Browse(id, state),
        Command::Session(state) if open => Task::Session(state),
        _ => Task::Refuse("Library is unavailable; changes were not saved"),
    }
}

/// What is said of a command that could not be carried out.
pub fn not_saved(error: &str) -> (r: Event)
    ensures
        r is Error,
        r->Error_0@ == "Not saved: "@ + error@,
{
    let mut text = "Not saved: ".to_owned();
    text.append(error);
    Event::Error(text)
}

/// A snapshot that was read before a later change is known has no effect.
pub proof fn an_older_snapshot_changes_nothing(library: LibraryModel, snapshot: Snapshot)
    requires
        snapshot.revision < library.revision,
    ensures
        library.after(Event::Snapshot(snapshot)) == library,
        library.notice(Event::Snapshot(snapshot)) is None,
{
}

/// A snapshot of lists that are no longer watched does not replace the ones that
/// are shown.
pub proof fn an_unwatched_snapshot_keeps_the_shown_lists(library: LibraryModel, snapshot: Snapshot)
    requires
        snapshot.serial != library.serial,
    ensures
        library.after(Event::Snapshot(snapshot)).browse == library.browse,
        library.after(Event::Snapshot(snapshot)).playing == library.playing,
        library.after(Event::Snapshot(snapshot)).media_errors == library.media_errors,
        library.notice(Event::Snapshot(snapshot)) is None,
{
}

/// Revisions never go back.
pub proof fn revisions_never_go_back(library: LibraryModel, events: Seq<Event>)
    ensures
        library.after_all(events).revision >= library.revision,
    decreases events.len(),
{
    if events.len() > 0 {
        revisions_never_go_back(library.after(events[0]), events.drop_first());
    }
}

/// Turning to other lists shows no list but those that were asked for.
pub proof fn only_watched_lists_are_shown(
    library: LibraryModel,
    browse: Option<PlaylistId>,
    playing: Option<PlaylistId>,
)
    ensures
        ({
            let next = library.watching(browse, playing);
            &&& next.browse is Some ==> id_of(next.browse) == browse
            &&& next.playing is Some ==> id_of(next.playing) == playing
        }),
{
}

/// A snapshot of what is watched is shown: its lists become the ones that are shown, what
/// was found out before it is settled, and the library is ready.
pub proof fn a_snapshot_of_what_is_watched_is_shown(library: LibraryModel, snapshot: Snapshot)
    requires
        snapshot.serial == library.serial,
        snapshot.revision >= library.revision,
    ensures
        ({
            let next = library.after(Event::Snapshot(snapshot));
            &&& next.browse == snapshot.browse
            &&& next.playing == snapshot.playing
            &&& next.summaries == snapshot.summaries@
            &&& next.revision == snapshot.revision
            &&& next.ready
            &&& next.media_errors.dom() =~= Set::<i64>::empty()
            &&& snapshot.browse is Some ==> next.desired_browse == Some(
                snapshot.browse->0.summary.id,
            )
            &&& snapshot.browse is None ==> next.desired_browse is None
            &&& snapshot.playing is Some ==> next.desired_playing == Some(
                snapshot.playing->0.summary.id,
            )
            &&& next.error == library.error
            &&& next.pending == library.pending
            &&& library.notice(Event::Snapshot(snapshot)) == Some(
                Notice::PlayingChanged { old_list: library.playing, new_list: snapshot.playing },
            )
        }),
{
}

/// What was found out of a media is kept under its name; older news is not.
pub proof fn news_of_a_media_is_kept(
    library: LibraryModel,
    revision: u64,
    media: MediaId,
    error: Option<String>,
    other: i64,
)
    ensures
        ({
            let next = library.after(Event::MediaError { revision, media, error });
            &&& revision >= library.revision ==> next.media_errors.contains_key(media.0)
                && next.media_errors[media.0] == error && next.revision == revision
            &&& other != media.0 ==> (next.media_errors.contains_key(other)
                <==> library.media_errors.contains_key(other))
            &&& revision < library.revision ==> next == library
        }),
{
}

/// An error stays until storage is back; a command that is done is no longer waited for.
pub proof fn an_error_stays_until_storage_is_back(
    library: LibraryModel,
    error: String,
    message: String,
    session: SessionState,
)
    ensures
        library.after(Event::Error(error)).error == Some(error@),
        library.after(Event::Recovered).error is None,
        library.after(Event::Message(message)).error == library.error,
        message@.len() > 0 ==> library.after(Event::Message(message)).message == message@,
        message@.len() == 0 ==> library.after(Event::Message(message)).message == library.message,
        library.pending > 0 ==> library.after(Event::Done).pending == library.pending - 1,
        library.pending == 0 ==> library.after(Event::Done).pending == 0,
        library.after(Event::Boot(session)).desired_browse == session.browse,
        session.cursor is Some ==> library.after(Event::Boot(session)).desired_playing
            == session.cursor->0.playlist,
        library.notice(Event::Boot(session)) == Some(Notice::Boot(session)),
        library.notice(Event::Done) is None,
{
}

/// Watching other lists takes a number of its own. Lists that are at hand are shown at
/// once, and no list is shown that was not asked for.
pub proof fn watched_lists_are_shown_at_once(
    library: LibraryModel,
    browse: Option<PlaylistId>,
    playing: Option<PlaylistId>,
)
    ensures
        ({
            let next = library.watching(browse, playing);
            &&& next.serial != library.serial
            &&& next.desired_browse == browse
            &&& next.desired_playing == playing
            &&& next.browse is Some ==> browse == Some(next.browse->0.summary.id)
            &&& next.playing is Some ==> playing == Some(next.playing->0.summary.id)
            &&& library.browse is Some && browse == Some(library.browse->0.summary.id)
                ==> next.browse == library.browse
            &&& library.playing is Some && playing == Some(library.playing->0.summary.id)
                ==> next.playing == library.playing
            &&& library.browse is None && browse is Some && library.playing is Some && browse
                == Some(library.playing->0.summary.id) ==> next.browse == library.playing
            &&& next.revision == library.revision
        }),
{
}

/// A list that is there stays watched. One that is gone gives way: the first list is looked
/// at, and nothing plays.
pub proof fn a_watched_list_stays_while_it_is_there(
    watch: Watch,
    summaries: Seq<PlaylistSummary>,
    i: int,
)
    ensures
        ({
            let next = watch.settled(summaries);
            &&& 0 <= i < summaries.len() && watch.browse == Some(summaries[i].id) ==> next.browse
                == watch.browse
            &&& 0 <= i < summaries.len() && watch.playing == Some(summaries[i].id) ==> next.playing
                == watch.playing
            &&& watch.playing is Some && (forall|k: int|
                0 <= k < summaries.len() ==> (#[trigger] summaries[k]).id != watch.playing->0)
                ==> next.playing is None
            &&& watch.browse is Some && summaries.len() > 0 && (forall|k: int|
                0 <= k < summaries.len() ==> (#[trigger] summaries[k]).id != watch.browse->0)
                ==> next.browse == Some(summaries[0].id)
            &&& summaries.len() == 0 ==> next.browse is None && next.playing is None
            &&& next.serial == watch.serial && next.revision == watch.revision
        }),
{
}

/// Without a database nothing is carried out but what needs none; with one everything is,
/// as it was asked for.
pub proof fn only_what_needs_no_database_is_done_without_one(
    command: Command,
    open: bool,
    r: Task,
)
    requires
        call_ensures(route, (command, open), r),
    ensures
        command is Preferences ==> r is Preferences,
        command is Shutdown ==> r is Stop,
        command is Retry && open ==> r is Save,
        command is Retry && !open ==> r is Reopen,
        !open && (command is Watch || command is Mutate || command is Browse || command is Session)
            ==> r is Refuse,
        open && command is Mutate ==> r == Task::Mutate(command->Mutate_0),
        open && command is Session ==> r == Task::Session(command->Session_0),
        open && command is Browse ==> r == Task::Browse(command->Browse_0, command->Browse_1),
        open && command is Watch ==> r is Watch && r->Watch_serial == command->Watch_serial
            && r->Watch_browse == command->Watch_browse && r->Watch_playing
            == command->Watch_playing,
{
}

/// Notices come in the order of their events, each as its event found the library.
pub proof fn notices_come_in_the_order_of_events(
    library: LibraryModel,
    first: Seq<Event>,
    second: Seq<Event>,
)
    ensures
        library.notices(first + second) == library.notices(first) + library.after_all(
            first,
        ).notices(second),
        library.after_all(first + second) == library.after_all(first).after_all(second),
    decreases first.len(),
{
    if first.len() == 0 {
        assert(first + second =~= second);
        assert(library.notices(first) + library.notices(second) =~= library.notices(second));
    } else {
        assert((first + second).drop_first() =~= first.drop_first() + second);
        let next = library.after(first[0]);
        notices_come_in_the_order_of_events(next, first.drop_first(), second);
        assert(library.notices(first + second) =~= library.notices(first) + library.after_all(
            first,
        ).notices(second));
    }
}

/// The start and every list that is shown are told, once each.
pub proof fn the_start_and_shown_lists_are_told(library: LibraryModel, event: Event)
    ensures
        library.notices(seq![event]).len() == 1 <==> (event is Boot || (event is Snapshot
            && event->Snapshot_0.revision >= library.revision && event->Snapshot_0.serial
            == library.serial)),
        library.notices(seq![event]).len() <= 1,
        event is Boot ==> library.notices(seq![event])[0] is Boot,
        event is Snapshot && library.notices(seq![event]).len() == 1 ==> library.notices(
            seq![event],
        )[0] == (Notice::PlayingChanged {
            old_list: library.playing,
            new_list: event->Snapshot_0.playing,
        }),
{
    reveal_with_fuel(LibraryModel::notices, 2);
    assert(seq![event].drop_first() =~= Seq::empty());
}

} // verus!
