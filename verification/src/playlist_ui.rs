//! What the playlist widgets show and ask for. They never open media or write
//! storage.
use crate::library::Mutation;
use crate::playlist::{
    BrowseState, Entry, EntryId, MediaId, PlaybackCursor, PlaybackMode, PlaylistId,
    PlaylistSnapshot, PlaylistSummary,
};
use crate::text::{decimal, push_decimal};
use crate::words::{trim, trimmed};
use std::collections::{HashMap, HashSet};
use vstd::prelude::*;
use vstd::string::*;

verus! {

broadcast use vstd::std_specs::hash::group_hash_axioms;

/// What a widget asks for. Dropped entries are named by their identities.
#[derive(Debug)]
pub enum Action {
    Switch(PlaylistId),
    Add,
    Play(EntryId),
    Remove,
    Retry(EntryId),
    Relocate(MediaId),
    MoveSelection(bool),
    Drop { entries: HashSet<i64>, gap: usize },
    Transfer { to: PlaylistId, remove: bool },
    Mutate(Mutation),
}

/// The window that manages playlists.
#[derive(Debug)]
pub struct State {
    pub manage_open: bool,
    pub name: String,
    pub editing: Option<PlaylistId>,
    pub deleting: Option<PlaylistId>,
}

#[verifier::ext_equal]
pub struct StateModel {
    pub manage_open: bool,
    pub name: Seq<char>,
    pub editing: Option<PlaylistId>,
    pub deleting: Option<PlaylistId>,
}

impl View for State {
    type V = StateModel;

    open spec fn view(&self) -> StateModel {
        StateModel {
            manage_open: self.manage_open,
            name: self.name@,
            editing: self.editing,
            deleting: self.deleting,
        }
    }
}

impl Default for State {
    fn default() -> (r: Self)
        ensures
            r@ == (StateModel {
                manage_open: false,
                name: Seq::empty(),
                editing: None,
                deleting: None,
            }),
    {
        let r = State { manage_open: false, name: String::new(), editing: None, deleting: None };
        assert(r@ =~= (StateModel {
            manage_open: false,
            name: Seq::empty(),
            editing: None,
            deleting: None,
        }));
        r
    }
}

impl State {
    /// The window is opened for a new playlist.
    pub fn start_new(&mut self)
        ensures
            final(self)@ == (StateModel {
                manage_open: true,
                editing: None,
                name: "New playlist"@,
                ..old(self)@
            }),
    {
        self.manage_open = true;
        self.editing = None;
        self.name = "New playlist".to_owned();
        assert(self@ =~= (StateModel {
            manage_open: true,
            editing: None,
            name: "New playlist"@,
            ..old(self)@
        }));
    }

    /// The name is to be that of a new playlist.
    pub fn clear_editing(&mut self)
        ensures
            final(self)@ == (StateModel { editing: None, name: "New playlist"@, ..old(self)@ }),
    {
        self.editing = None;
        self.name = "New playlist".to_owned();
        assert(self@ =~= (StateModel { editing: None, name: "New playlist"@, ..old(self)@ }));
    }

    /// A playlist is to be renamed.
    pub fn edit(&mut self, summary: &PlaylistSummary)
        ensures
            final(self)@ == (StateModel {
                editing: Some(summary.id),
                name: summary.name@,
                ..old(self)@
            }),
    {
        self.editing = Some(summary.id);
        self.name = summary.name.clone();
        assert(self@ =~= (StateModel {
            editing: Some(summary.id),
            name: summary.name@,
            ..old(self)@
        }));
    }

    /// Whether the name can be used.
    pub fn can_submit(&self) -> (r: bool)
        ensures
            r == (trimmed(self@.name).len() > 0),
    {
        trim(&crate::text::chars_of(self.name.as_str())).len() > 0
    }

    pub fn submit_label(&self) -> (r: &'static str)
        ensures
            r@ == (if self@.editing is Some {
                "Rename"@
            } else {
                "Create"@
            }),
    {
        if self.editing.is_some() {
            "Rename"
        } else {
            "Create"
        }
    }

    /// Renames the playlist that is being edited, or creates one.
    pub fn submit(&mut self) -> (r: Mutation)
        ensures
            final(self)@ == (StateModel { name: Seq::empty(), editing: None, ..old(self)@ }),
            match old(self).editing {
                Some(id) => r == Mutation::Rename(id, old(self).name),
                None => r == Mutation::Create(old(self).name),
            },
    {
        let name = self.name.clone();
        let mutation = match self.editing {
            Some(id) => Mutation::Rename(id, name),
            None => Mutation::Create(name),
        };
        self.name = String::new();
        self.editing = None;
        assert(self@ =~= (StateModel { name: Seq::empty(), editing: None, ..old(self)@ }));
        mutation
    }

    /// A playlist is to be deleted, once that is confirmed.
    pub fn ask_delete(&mut self, id: PlaylistId)
        ensures
            final(self)@ == (StateModel { deleting: Some(id), ..old(self)@ }),
    {
        self.deleting = Some(id);
        assert(self@ =~= (StateModel { deleting: Some(id), ..old(self)@ }));
    }

    /// The answer to that: deletes, or leaves it.
    pub fn answer_delete(&mut self, confirmed: bool) -> (r: Option<Mutation>)
        ensures
            final(self)@ == (StateModel { deleting: None, ..old(self)@ }),
            r == (match old(self).deleting {
                Some(id) if confirmed => Some(Mutation::Delete(id)),
                _ => None,
            }),
    {
        let mutation = match self.deleting {
            Some(id) if confirmed => Some(Mutation::Delete(id)),
            _ => None,
        };
        self.deleting = None;
        assert(self@ =~= (StateModel { deleting: None, ..old(self)@ }));
        mutation
    }
}

pub open spec fn summary_title(summary: PlaylistSummary) -> Seq<char> {
    summary.name@ + " · "@ + decimal(summary.count as nat)
}

/// How a playlist is listed.
pub fn summary_text(summary: &PlaylistSummary) -> (r: String)
    ensures
        r@ == summary_title(*summary),
{
    let mut out = summary.name.clone();
    out.append(" · ");
    push_decimal(&mut out, summary.count as u64);
    out
}

/// The title of the first playlist with an identity.
pub open spec fn title_of(summaries: Seq<PlaylistSummary>, selected: Option<PlaylistId>) -> Seq<
    char,
>
    decreases summaries.len(),
{
    if summaries.len() == 0 {
        "Loading…"@
    } else if selected == Some(summaries[0].id) {
        summary_title(summaries[0])
    } else {
        title_of(summaries.drop_first(), selected)
    }
}

fn is_selected(selected: Option<PlaylistId>, id: PlaylistId) -> (r: bool)
    ensures
        r == (selected == Some(id)),
{
    match selected {
        Some(selected) => selected == id,
        None => false,
    }
}

/// What the selector shows.
pub fn header_title(summaries: &Vec<PlaylistSummary>, selected: Option<PlaylistId>) -> (r: String)
    ensures
        r@ == title_of(summaries@, selected),
{
    let mut at: usize = 0;
    assert(summaries@.skip(0) =~= summaries@);
    while at < summaries.len()
        invariant
            at <= summaries.len(),
            title_of(summaries@, selected) == title_of(summaries@.skip(at as int), selected),
        decreases summaries.len() - at,
    {
        assert(summaries@.skip(at as int)[0] == summaries@[at as int]);
        assert(summaries@.skip(at as int).drop_first() =~= summaries@.skip(at + 1));
        if is_selected(selected, summaries[at].id) {
            return summary_text(&summaries[at]);
        }
        at = at + 1;
    }
    assert(summaries@.skip(at as int).len() == 0);
    "Loading…".to_owned()
}

/// The entry is the one that plays.
pub open spec fn plays(cursor: Option<&PlaybackCursor>, list: PlaylistSnapshot, entry: Entry) -> bool {
    cursor is Some && cursor->0.attached && cursor->0.playlist == Some(list.summary.id)
        && cursor->0.entry.id == entry.id
}

pub fn is_playing(cursor: Option<&PlaybackCursor>, list: &PlaylistSnapshot, entry: &Entry) -> (r:
    bool)
    ensures
        r == plays(cursor, *list, *entry),
{
    match cursor {
        Some(cursor) => cursor.attached && is_selected(cursor.playlist, list.summary.id)
            && cursor.entry.id == entry.id,
        None => false,
    }
}

/// What is wrong with an entry. What was found out of its media since the list was read
/// counts, and that may be that nothing is wrong any more.
pub open spec fn current_error(entry: Entry, media_errors: Map<i64, Option<String>>) -> Option<
    String,
> {
    if media_errors.contains_key(entry.media.0) {
        media_errors[entry.media.0]
    } else {
        entry.error
    }
}

pub fn entry_error<'a>(
    entry: &'a Entry,
    media_errors: &'a HashMap<i64, Option<String>>,
) -> (r: &'a Option<String>)
    ensures
        *r == current_error(*entry, media_errors@),
{
    match media_errors.get(&entry.media.0) {
        Some(found) => found,
        None => &entry.error,
    }
}

/// What stands before a row: what plays, or what is wrong.
pub open spec fn row_marker(playing: bool, trouble: bool) -> Seq<char> {
    if playing {
        "▶ "@
    } else if trouble {
        "! "@
    } else {
        ""@
    }
}

/// A row: its marker, its number with two digits at least, and its name.
pub fn row_text(playing: bool, trouble: bool, number: u64, name: &str) -> (r: String)
    ensures
        r@ == row_marker(playing, trouble) + (if number < 10 {
            "0"@
        } else {
            ""@
        }) + decimal(number as nat) + "  "@ + name@,
{
    let mut out = if playing {
        "▶ ".to_owned()
    } else if trouble {
        "! ".to_owned()
    } else {
        "".to_owned()
    };
    let ghost marker = out@;
    if number < 10 {
        out.append("0");
    } else {
        out.append("");
    }
    push_decimal(&mut out, number);
    out.append("  ");
    out.append(name);
    out
}

/// The gap that a drop on a row means: before it, or behind it.
pub fn drop_gap(index: usize, below: bool) -> (r: usize)
    requires
        index < usize::MAX,
    ensures
        r == (if below {
            index + 1
        } else {
            index as int
        }),
{
    if below {
        index + 1
    } else {
        index
    }
}

/// Picks an entry that a menu or a drag is about, unless it is selected already.
pub fn take_up(browse: &mut BrowseState, list: &PlaylistSnapshot, id: EntryId)
    requires
        list.wf(),
    ensures
        final(browse)@ == (if old(browse)@.selected.contains(id.0) {
            old(browse)@
        } else {
            old(browse)@.selecting(*list, id, false, false)
        }),
{
    if !browse.selected.contains(&id.0) {
        browse.select(list, id, false, false);
    }
}

/// Selects every entry.
pub fn select_all(browse: &mut BrowseState, list: &PlaylistSnapshot)
    ensures
        final(browse)@ == (crate::playlist::BrowseModel {
            selected: crate::playlist::ids_between(
                list.entries@,
                0,
                list.entries@.len() as int,
            ),
            ..old(browse)@
        }),
{
    let mut selected: HashSet<i64> = HashSet::new();
    let mut at: usize = 0;
    while at < list.entries.len()
        invariant
            at <= list.entries.len(),
            forall|id: i64|
                #![trigger selected@.contains(id)]
                selected@.contains(id) == (exists|i: int|
                    0 <= i < at && (#[trigger] list.entries@[i]).id.0 == id),
        decreases list.entries.len() - at,
    {
        let ghost before = selected@;
        selected.insert(list.entries[at].id.0);
        proof {
            assert forall|id: i64|
                #![trigger selected@.contains(id)]
                selected@.contains(id) == (exists|i: int|
                    0 <= i < at + 1 && (#[trigger] list.entries@[i]).id.0 == id) by {
                if before.contains(id) {
                    let i = choose|i: int| 0 <= i < at && (#[trigger] list.entries@[i]).id.0 == id;
                    assert(list.entries@[i].id.0 == id);
                }
                if id == list.entries@[at as int].id.0 {
                    assert(list.entries@[at as int].id.0 == id);
                }
                if exists|i: int| 0 <= i < at + 1 && (#[trigger] list.entries@[i]).id.0 == id {
                    let i = choose|i: int|
                        0 <= i < at + 1 && (#[trigger] list.entries@[i]).id.0 == id;
                    if i < at {
                        assert(before.contains(id));
                    }
                }
            }
        }
        at = at + 1;
    }
    browse.selected = selected;
    proof {
        let all = crate::playlist::ids_between(list.entries@, 0, list.entries@.len() as int);
        assert(selected@ =~= all);
        assert(browse@ =~= (crate::playlist::BrowseModel { selected: all, ..old(browse)@ }));
    }
}

/// Where a playlist can be moved, one step up or down.
pub fn destination(index: usize, count: usize, up: bool) -> (r: Option<usize>)
    requires
        index < count,
    ensures
        r == (if up {
            if index > 0 {
                Some((index - 1) as usize)
            } else {
                None
            }
        } else if index + 1 < count {
            Some((index + 1) as usize)
        } else {
            None
        }),
{
    if up {
        if index > 0 {
            Some(index - 1)
        } else {
            None
        }
    } else if count - index > 1 {
        Some(index + 1)
    } else {
        None
    }
}

/// An order once two of its members have changed places.
pub open spec fn exchanged(ids: Seq<PlaylistId>, a: int, b: int) -> Seq<PlaylistId> {
    ids.update(a, ids[b]).update(b, ids[a])
}

/// The order of the playlists once two of them have changed places.
pub open spec fn swapped(summaries: Seq<PlaylistSummary>, a: int, b: int) -> Seq<PlaylistId> {
    exchanged(summaries.map_values(|s: PlaylistSummary| s.id), a, b)
}

pub fn move_playlist(summaries: &Vec<PlaylistSummary>, index: usize, to: usize) -> (r: Mutation)
    requires
        index < summaries@.len(),
        to < summaries@.len(),
    ensures
        r is OrderPlaylists,
        r->OrderPlaylists_0@ == swapped(summaries@, index as int, to as int),
{
    let mut ids: Vec<PlaylistId> = Vec::new();
    let mut at: usize = 0;
    while at < summaries.len()
        invariant
            at <= summaries.len(),
            ids@ =~= summaries@.take(at as int).map_values(|s: PlaylistSummary| s.id),
        decreases summaries.len() - at,
    {
        ids.push(summaries[at].id);
        at = at + 1;
    }
    assert(summaries@.take(at as int) =~= summaries@);
    let first = ids[index];
    let second = ids[to];
    ids.set(index, second);
    ids.set(to, first);
    Mutation::OrderPlaylists(ids)
}

/// The mutation that a choice of mode comes to.
pub fn choose_mode(summary: &PlaylistSummary, mode: PlaybackMode) -> (r: Option<Mutation>)
    ensures
        r == (if mode == summary.mode {
            None
        } else {
            Some(Mutation::Mode(summary.id, mode))
        }),
{
    if mode == summary.mode {
        None
    } else {
        Some(Mutation::Mode(summary.id, mode))
    }
}

/// Moving a playlist and moving it back leaves the order as it was; no playlist
/// is lost.
pub proof fn moving_back_restores_the_order(ids: Seq<PlaylistId>, a: int, b: int)
    requires
        0 <= a < ids.len(),
        0 <= b < ids.len(),
    ensures
        exchanged(exchanged(ids, a, b), b, a) == ids,
{
    assert(exchanged(exchanged(ids, a, b), b, a) =~= ids);
}

/// An entry is marked as playing exactly where the cursor is on it, in this list, and it
/// was not removed since.
pub proof fn what_plays_is_marked(
    cursor: PlaybackCursor,
    list: PlaylistSnapshot,
    entry: Entry,
)
    ensures
        plays(Some(&cursor), list, entry) <==> (cursor.attached && cursor.playlist == Some(
            list.summary.id,
        ) && cursor.entry.id == entry.id),
        !plays(None, list, entry),
        row_marker(true, true) == "▶ "@,
        row_marker(true, false) == "▶ "@,
        row_marker(false, true) == "! "@,
        row_marker(false, false) == ""@,
{
}

/// What was found out of a media since the list was read counts for its entry, and the
/// stored error where nothing was.
pub proof fn what_was_found_out_last_counts(
    entry: Entry,
    media_errors: Map<i64, Option<String>>,
    found: Option<String>,
)
    ensures
        current_error(entry, media_errors.insert(entry.media.0, found)) == found,
        !media_errors.contains_key(entry.media.0) ==> current_error(entry, media_errors)
            == entry.error,
{
}

/// Two lists trade places, and every other list keeps its own.
pub proof fn two_lists_trade_places(summaries: Seq<PlaylistSummary>, a: int, b: int, k: int)
    requires
        0 <= a < summaries.len(),
        0 <= b < summaries.len(),
        0 <= k < summaries.len(),
    ensures
        swapped(summaries, a, b).len() == summaries.len(),
        swapped(summaries, a, b)[a] == summaries[b].id,
        swapped(summaries, a, b)[b] == summaries[a].id,
        k != a && k != b ==> swapped(summaries, a, b)[k] == summaries[k].id,
{
}

/// The header names the list that is shown, with how many entries it has.
pub proof fn the_header_names_the_list_that_is_shown(summaries: Seq<PlaylistSummary>, i: int)
    requires
        0 <= i < summaries.len(),
        forall|j: int| 0 <= j < i ==> (#[trigger] summaries[j]).id != summaries[i].id,
    ensures
        title_of(summaries, Some(summaries[i].id)) == summaries[i].name@ + " · "@ + decimal(
            summaries[i].count as nat,
        ),
    decreases i,
{
    if i > 0 {
        assert(summaries[0].id != summaries[i].id);
        let rest = summaries.drop_first();
        assert forall|j: int| 0 <= j < i - 1 implies (#[trigger] rest[j]).id != rest[i - 1].id by {
            assert(rest[j] == summaries[j + 1]);
        }
        assert(rest[i - 1] == summaries[i]);
        the_header_names_the_list_that_is_shown(rest, i - 1);
    }
}

/// A drop below a row goes behind it, and one above it before it. A list moves by one
/// place, but not beyond the ends.
pub proof fn a_move_goes_one_place(
    index: usize,
    count: usize,
    below: bool,
    gap: usize,
    up: bool,
    to: Option<usize>,
)
    requires
        index < count,
        call_ensures(drop_gap, (index, below), gap),
        call_ensures(destination, (index, count, up), to),
    ensures
        below ==> gap == index + 1,
        !below ==> gap == index,
        up && index == 0 ==> to is None,
        up && index > 0 ==> to is Some && to->0 + 1 == index,
        !up && index + 1 == count ==> to is None,
        !up && index + 1 < count ==> to is Some && to->0 == index + 1,
{
}

/// Choosing the mode that a list has changes nothing; choosing another asks for it.
pub proof fn another_mode_is_asked_for(
    summary: PlaylistSummary,
    mode: PlaybackMode,
    r: Option<Mutation>,
)
    requires
        call_ensures(choose_mode, (&summary, mode), r),
    ensures
        r is Some <==> mode != summary.mode,
        r is Some ==> r->0 == Mutation::Mode(summary.id, mode),
{
}

} // verus!
