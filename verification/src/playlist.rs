//! Playlist identities and navigation. Nothing here opens files or devices.
use crate::media::FileStamp;
use crate::model::SelectedSource;
use std::collections::{HashMap, HashSet};
use vstd::prelude::*;
use vstd::string::*;

verus! {

broadcast use vstd::std_specs::hash::group_hash_axioms;

#[derive(Debug, Clone, Copy, PartialEq, Eq, Structural)]
pub struct PlaylistId(pub i64);

#[derive(Debug, Clone, Copy, PartialEq, Eq, Structural)]
pub struct MediaId(pub i64);

#[derive(Debug, Clone, Copy, PartialEq, Eq, Structural)]
pub struct EntryId(pub i64);

#[derive(Debug, Clone, Copy, PartialEq, Eq, Structural)]
pub enum PlaybackMode {
    Sequential,
    RepeatOne,
    RepeatAll,
    Shuffle,
}

impl Default for PlaybackMode {
    fn default() -> (r: Self)
        ensures
            r == PlaybackMode::Sequential,
    {
        PlaybackMode::Sequential
    }
}

impl PlaybackMode {
    pub const ALL: [PlaybackMode; 4] = [
        PlaybackMode::Sequential,
        PlaybackMode::RepeatOne,
        PlaybackMode::RepeatAll,
        PlaybackMode::Shuffle,
    ];

    pub open spec fn title(self) -> Seq<char> {
        match self {
            PlaybackMode::Sequential => "Sequential"@,
            PlaybackMode::RepeatOne => "Repeat one"@,
            PlaybackMode::RepeatAll => "Repeat all"@,
            PlaybackMode::Shuffle => "Shuffle"@,
        }
    }

    pub fn label(self) -> (r: &'static str)
        ensures
            r@ == self.title(),
    {
        match self {
            PlaybackMode::Sequential => "Sequential",
            PlaybackMode::RepeatOne => "Repeat one",
            PlaybackMode::RepeatAll => "Repeat all",
            PlaybackMode::Shuffle => "Shuffle",
        }
    }

    pub fn description(self) -> (r: &'static str)
        ensures
            r@ == match self {
                PlaybackMode::Sequential => "Play the list once, then stop"@,
                PlaybackMode::RepeatOne => "Repeat the current item"@,
                PlaybackMode::RepeatAll => "Repeat the entire playlist"@,
                PlaybackMode::Shuffle => "Choose a different item at random"@,
            },
    {
        match self {
            PlaybackMode::Sequential => "Play the list once, then stop",
            PlaybackMode::RepeatOne => "Repeat the current item",
            PlaybackMode::RepeatAll => "Repeat the entire playlist",
            PlaybackMode::Shuffle => "Choose a different item at random",
        }
    }
}

#[derive(Debug)]
pub struct Entry {
    pub id: EntryId,
    pub media: MediaId,
    pub source: SelectedSource,
    pub error: Option<String>,
}

impl Entry {
    pub fn dup(&self) -> (r: Self)
        ensures
            r == *self,
    {
        Entry {
            id: self.id,
            media: self.media,
            source: self.source.dup(),
            error: crate::backend::output::dup_text(&self.error),
        }
    }
}

#[derive(Debug)]
pub struct PlaylistSummary {
    pub id: PlaylistId,
    pub name: String,
    pub count: usize,
    pub mode: PlaybackMode,
}

/// What is kept of how a list was looked at. The offset is single precision.
#[derive(Debug, Clone, Copy, PartialEq, Eq, Structural)]
pub struct SavedBrowse {
    pub focus: Option<EntryId>,
    pub scroll_entry: Option<EntryId>,
    pub scroll_offset: u32,
}

impl Default for SavedBrowse {
    fn default() -> (r: Self)
        ensures
            r == (SavedBrowse { focus: None, scroll_entry: None, scroll_offset: 0 }),
    {
        SavedBrowse { focus: None, scroll_entry: None, scroll_offset: 0 }
    }
}

/// The place of an entry; the last one where an identity occurs more than once.
pub open spec fn place_of(entries: Seq<Entry>, id: i64) -> Option<int>
    decreases entries.len(),
{
    if entries.len() == 0 {
        None
    } else if entries.last().id.0 == id {
        Some(entries.len() - 1)
    } else {
        place_of(entries.drop_last(), id)
    }
}

pub proof fn lemma_place_of(entries: Seq<Entry>, id: i64)
    ensures
        place_of(entries, id) is Some ==> 0 <= place_of(entries, id)->0 < entries.len()
            && entries[place_of(entries, id)->0].id.0 == id,
        place_of(entries, id) is None ==> forall|i: int|
            0 <= i < entries.len() ==> (#[trigger] entries[i]).id.0 != id,
    decreases entries.len(),
{
    if entries.len() > 0 && entries.last().id.0 != id {
        let front = entries.drop_last();
        lemma_place_of(front, id);
        if place_of(entries, id) is None {
            assert forall|i: int| 0 <= i < entries.len() implies (#[trigger] entries[i]).id.0
                != id by {
                if i < front.len() {
                    assert(front[i] == entries[i]);
                }
            }
        }
    }
}

/// Every identity occurs once.
pub open spec fn distinct(entries: Seq<Entry>) -> bool {
    forall|i: int, j: int|
        0 <= i < j < entries.len() ==> (#[trigger] entries[i]).id != (#[trigger] entries[j]).id
}

pub proof fn lemma_place_of_distinct(entries: Seq<Entry>, at: int)
    requires
        distinct(entries),
        0 <= at < entries.len(),
    ensures
        place_of(entries, entries[at].id.0) == Some(at),
{
    lemma_place_of(entries, entries[at].id.0);
    match place_of(entries, entries[at].id.0) {
        Some(place) => {
            if place < at {
                assert(entries[place].id != entries[at].id);
            } else if at < place {
                assert(entries[at].id != entries[place].id);
            }
        },
        None => {},
    }
}

/// One list as it was read.
#[derive(Debug)]
pub struct PlaylistSnapshot {
    pub summary: PlaylistSummary,
    pub entries: Vec<Entry>,
    /// Where each entry stands, by its identity.
    pub positions: HashMap<i64, usize>,
    pub browse: SavedBrowse,
}

impl PlaylistSnapshot {
    /// The positions are those of the entries.
    pub open spec fn wf(&self) -> bool {
        forall|id: i64|
            #![trigger self.positions@.contains_key(id)]
            match place_of(self.entries@, id) {
                Some(place) => self.positions@.contains_key(id) && self.positions@[id] == place,
                None => !self.positions@.contains_key(id),
            }
    }

    /// The list holds the entry.
    pub open spec fn holds(&self, id: EntryId) -> bool {
        place_of(self.entries@, id.0) is Some
    }

    pub fn new(summary: PlaylistSummary, entries: Vec<Entry>, browse: SavedBrowse) -> (r: Self)
        ensures
            r.wf(),
            r.summary == summary,
            r.entries == entries,
            r.browse == browse,
    {
        let mut positions: HashMap<i64, usize> = HashMap::new();
        let mut at: usize = 0;
        while at < entries.len()
            invariant
                at <= entries.len(),
                forall|id: i64|
                    #![trigger positions@.contains_key(id)]
                    match place_of(entries@.take(at as int), id) {
                        Some(place) => positions@.contains_key(id) && positions@[id] == place,
                        None => !positions@.contains_key(id),
                    },
            decreases entries.len() - at,
        {
            let ghost before = positions@;
            let id: i64 = entries[at].id.0;
            positions.insert(id, at);
            proof {
                let so_far = entries@.take(at + 1);
                assert(so_far.last() == entries@[at as int]);
                assert(so_far.drop_last() =~= entries@.take(at as int));
                assert forall|other: i64|
                    #![trigger positions@.contains_key(other)]
                    match place_of(so_far, other) {
                        Some(place) => positions@.contains_key(other) && positions@[other] == place,
                        None => !positions@.contains_key(other),
                    } by {
                    assert(before.contains_key(other) == (place_of(
                        entries@.take(at as int),
                        other,
                    ) is Some));
                }
            }
            at = at + 1;
        }
        assert(entries@.take(at as int) =~= entries@);
        PlaylistSnapshot { summary, entries, positions, browse }
    }

    /// Where an entry stands.
    pub fn position(&self, id: EntryId) -> (r: Option<usize>)
        requires
            self.wf(),
        ensures
            match r {
                Some(place) => place_of(self.entries@, id.0) == Some(place as int) && place
                    < self.entries@.len(),
                None => place_of(self.entries@, id.0) is None,
            },
    {
        proof {
            lemma_place_of(self.entries@, id.0);
            let listed = self.positions@.contains_key(id.0);
        }
        match self.positions.get(&id.0) {
            Some(place) => Some(*place),
            None => None,
        }
    }

    pub fn contains(&self, id: EntryId) -> (r: bool)
        requires
            self.wf(),
        ensures
            r == self.holds(id),
    {
        self.position(id).is_some()
    }

    pub fn entry(&self, id: EntryId) -> (r: Option<&Entry>)
        requires
            self.wf(),
        ensures
            match r {
                Some(entry) => self.holds(id) && *entry == self.entries@[place_of(
                    self.entries@,
                    id.0,
                )->0] && entry.id == id,
                None => !self.holds(id),
            },
    {
        proof {
            lemma_place_of(self.entries@, id.0);
        }
        match self.position(id) {
            Some(place) => Some(&self.entries[place]),
            None => None,
        }
    }
}

/// How a list is being looked at. The selection holds identities of entries.
#[derive(Debug)]
pub struct BrowseState {
    pub playlist: Option<PlaylistId>,
    pub saved: SavedBrowse,
    pub selected: HashSet<i64>,
    pub range_anchor: Option<EntryId>,
    pub restore_scroll: bool,
}

#[verifier::ext_equal]
pub struct BrowseModel {
    pub playlist: Option<PlaylistId>,
    pub saved: SavedBrowse,
    pub selected: Set<i64>,
    pub range_anchor: Option<EntryId>,
    pub restore_scroll: bool,
}

impl View for BrowseState {
    type V = BrowseModel;

    open spec fn view(&self) -> BrowseModel {
        BrowseModel {
            playlist: self.playlist,
            saved: self.saved,
            selected: self.selected@,
            range_anchor: self.range_anchor,
            restore_scroll: self.restore_scroll,
        }
    }
}

impl Default for BrowseState {
    fn default() -> (r: Self)
        ensures
            r@ == (BrowseModel {
                playlist: None,
                saved: SavedBrowse { focus: None, scroll_entry: None, scroll_offset: 0 },
                selected: Set::empty(),
                range_anchor: None,
                restore_scroll: false,
            }),
    {
        BrowseState {
            playlist: None,
            saved: SavedBrowse::default(),
            selected: HashSet::new(),
            range_anchor: None,
            restore_scroll: false,
        }
    }
}

/// The identities of `entries[from..to]`.
pub open spec fn ids_between(entries: Seq<Entry>, from: int, to: int) -> Set<i64> {
    Set::new(|id: i64| exists|i: int| from <= i < to && (#[trigger] entries[i]).id.0 == id)
}

/// The identities that are selected and listed.
pub open spec fn still_listed(entries: Seq<Entry>, selected: Set<i64>) -> Set<i64> {
    Set::new(|id: i64| selected.contains(id) && place_of(entries, id) is Some)
}

pub open spec fn first_id(entries: Seq<Entry>) -> Option<EntryId> {
    if entries.len() == 0 {
        None
    } else {
        Some(entries[0].id)
    }
}

/// The set of what is there.
pub open spec fn one(id: Option<EntryId>) -> Set<i64> {
    match id {
        Some(id) => Set::empty().insert(id.0),
        None => Set::empty(),
    }
}

impl BrowseModel {
    /// Another list starts with what was kept of it, and nothing selected.
    pub open spec fn turned_to(self, list: PlaylistSnapshot) -> BrowseModel {
        if self.playlist == Some(list.summary.id) {
            self
        } else {
            BrowseModel {
                playlist: Some(list.summary.id),
                saved: list.browse,
                selected: Set::empty(),
                restore_scroll: true,
                ..self
            }
        }
    }

    /// The focus stays on an entry that is listed, and else goes to the first;
    /// what is selected is listed, and at least the focus is.
    pub open spec fn installed(self, list: PlaylistSnapshot) -> BrowseModel {
        let turned = self.turned_to(list);
        let focus = if turned.saved.focus is Some && list.holds(turned.saved.focus->0) {
            turned.saved.focus
        } else {
            first_id(list.entries@)
        };
        let kept = still_listed(list.entries@, turned.selected);
        BrowseModel {
            saved: SavedBrowse { focus, ..turned.saved },
            selected: if kept == Set::<i64>::empty() {
                one(focus)
            } else {
                kept
            },
            ..turned
        }
    }

    /// Where a range starts.
    pub open spec fn anchor(self, id: EntryId) -> EntryId {
        match self.range_anchor {
            Some(anchor) => anchor,
            None => match self.saved.focus {
                Some(focus) => focus,
                None => id,
            },
        }
    }

    /// What is selected once an entry was picked.
    pub open spec fn picked(self, list: PlaylistSnapshot, id: EntryId, toggle: bool, range: bool) -> Set<i64> {
        if range {
            let from = place_of(list.entries@, self.anchor(id).0);
            let to = place_of(list.entries@, id.0);
            if from is None || to is None {
                self.selected
            } else {
                let low = if from->0 < to->0 {
                    from->0
                } else {
                    to->0
                };
                let high = if from->0 < to->0 {
                    to->0
                } else {
                    from->0
                };
                (if toggle {
                    self.selected
                } else {
                    Set::empty()
                }).union(ids_between(list.entries@, low, high + 1))
            }
        } else if !toggle {
            Set::empty().insert(id.0)
        } else if self.selected.contains(id.0) {
            self.selected.remove(id.0)
        } else {
            self.selected.insert(id.0)
        }
    }

    pub open spec fn selecting(
        self,
        list: PlaylistSnapshot,
        id: EntryId,
        toggle: bool,
        range: bool,
    ) -> BrowseModel {
        BrowseModel {
            selected: self.picked(list, id, toggle, range),
            range_anchor: if range {
                self.range_anchor
            } else {
                Some(id)
            },
            saved: SavedBrowse { focus: Some(id), ..self.saved },
            ..self
        }
    }
}

fn keep_listed(entries: &Vec<Entry>, selected: &HashSet<i64>) -> (r: HashSet<i64>)
    ensures
        r@ == still_listed(entries@, selected@),
{
    let mut kept: HashSet<i64> = HashSet::new();
    let mut at: usize = 0;
    while at < entries.len()
        invariant
            at <= entries.len(),
            forall|id: i64|
                #![trigger kept@.contains(id)]
                kept@.contains(id) <==> selected@.contains(id) && exists|i: int|
                    0 <= i < at && (#[trigger] entries@[i]).id.0 == id,
        decreases entries.len() - at,
    {
        let id: i64 = entries[at].id.0;
        let ghost before = kept@;
        if selected.contains(&id) {
            kept.insert(id);
        }
        proof {
            assert forall|other: i64|
                #![trigger kept@.contains(other)]
                kept@.contains(other) <==> selected@.contains(other) && exists|i: int|
                    0 <= i < at + 1 && (#[trigger] entries@[i]).id.0 == other by {
                if kept@.contains(other) {
                    if before.contains(other) {
                        let i = choose|i: int| 0 <= i < at && (#[trigger] entries@[i]).id.0 == other;
                        assert(entries@[i].id.0 == other);
                    } else {
                        assert(entries@[at as int].id.0 == other);
                    }
                } else if selected@.contains(other) {
                    assert(!before.contains(other));
                }
            }
        }
        at = at + 1;
    }
    proof {
        assert forall|id: i64|
            kept@.contains(id) == #[trigger] still_listed(entries@, selected@).contains(id) by {
            lemma_place_of(entries@, id);
            if still_listed(entries@, selected@).contains(id) {
                assert(entries@[place_of(entries@, id)->0].id.0 == id);
            }
        }
        assert(kept@ =~= still_listed(entries@, selected@));
    }
    kept
}

impl BrowseState {
    /// Turns to a list, or takes in how the current one has changed.
    pub fn install(&mut self, list: &PlaylistSnapshot)
        requires
            list.wf(),
        ensures
            final(self)@ == old(self)@.installed(*list),
    {
        let same = match self.playlist {
            Some(playlist) => playlist == list.summary.id,
            None => false,
        };
        if !same {
            self.playlist = Some(list.summary.id);
            self.saved = list.browse;
            self.selected = HashSet::new();
            self.restore_scroll = true;
        }
        assert(self@ =~= old(self)@.turned_to(*list));
        let focus_listed = match self.saved.focus {
            Some(focus) => list.contains(focus),
            None => false,
        };
        if !focus_listed {
            self.saved.focus =
            if list.entries.len() > 0 {
                Some(list.entries[0].id)
            } else {
                None
            };
        }
        let mut kept = keep_listed(&list.entries, &self.selected);
        let ghost listed = kept@;
        if kept.is_empty() {
            assert(listed =~= Set::<i64>::empty());
            if let Some(focus) = self.saved.focus {
                kept.insert(focus.0);
            }
        }
        self.selected = kept;
        assert(self@ =~= old(self)@.installed(*list));
    }

    /// Picks an entry: alone, on top of what is selected, or with everything
    /// from the anchor to it.
    pub fn select(&mut self, list: &PlaylistSnapshot, id: EntryId, toggle: bool, range: bool)
        requires
            list.wf(),
        ensures
            final(self)@ == old(self)@.selecting(*list, id, toggle, range),
    {
        if range {
            let anchor = match self.range_anchor {
                Some(anchor) => anchor,
                None => match self.saved.focus {
                    Some(focus) => focus,
                    None => id,
                },
            };
            if let (Some(from), Some(to)) = (list.position(anchor), list.position(id)) {
                if !toggle {
                    self.selected = HashSet::new();
                }
                let low: usize = if from < to {
                    from
                } else {
                    to
                };
                let high: usize = if from < to {
                    to
                } else {
                    from
                };
                let ghost base = self.selected@;
                let ghost playlist = self.playlist;
                let ghost saved = self.saved;
                let ghost range_anchor = self.range_anchor;
                let ghost restore_scroll = self.restore_scroll;
                let mut at: usize = low;
                assert(self.selected@ =~= base.union(
                    ids_between(list.entries@, low as int, low as int),
                ));
                while at <= high
                    invariant
                        low <= at <= high + 1,
                        high < list.entries.len(),
                        self.selected@ == base.union(
                            ids_between(list.entries@, low as int, at as int),
                        ),
                        self.playlist == playlist,
                        self.saved == saved,
                        self.range_anchor == range_anchor,
                        self.restore_scroll == restore_scroll,
                    decreases high + 1 - at,
                {
                    let ghost before = self.selected@;
                    let entry: i64 = list.entries[at].id.0;
                    self.selected.insert(entry);
                    proof {
                        let wider = base.union(ids_between(list.entries@, low as int, at + 1));
                        assert forall|x: i64| self.selected@.contains(x) == #[trigger] wider.contains(
                            x,
                        ) by {
                            if before.contains(x) && !base.contains(x) {
                                let i = choose|i: int|
                                    low <= i < at && (#[trigger] list.entries@[i]).id.0 == x;
                                assert(list.entries@[i].id.0 == x);
                            }
                            if x == entry {
                                assert(list.entries@[at as int].id.0 == x);
                            }
                            if wider.contains(x) && !base.contains(x) {
                                let i = choose|i: int|
                                    low <= i < at + 1 && (#[trigger] list.entries@[i]).id.0 == x;
                                if i < at {
                                    assert(ids_between(list.entries@, low as int, at as int).contains(
                                        x,
                                    ));
                                }
                            }
                        }
                        assert(self.selected@ =~= wider);
                    }
                    at = at + 1;
                }
            }
        } else {
            if !toggle {
                self.selected = HashSet::new();
                self.selected.insert(id.0);
            } else if self.selected.contains(&id.0) {
                self.selected.remove(&id.0);
            } else {
                self.selected.insert(id.0);
            }
            self.range_anchor = Some(id);
        }
        self.saved.focus = Some(id);
        assert(self@ =~= old(self)@.selecting(*list, id, toggle, range));
    }

    /// What is selected, in the order of the list.
    pub fn ordered_selection(&self, list: &PlaylistSnapshot) -> (r: Vec<EntryId>)
        ensures
            r@ == list.entries@.map_values(|e: Entry| e.id).filter(
                |id: EntryId| self.selected@.contains(id.0),
            ),
    {
        let ghost ids = list.entries@.map_values(|e: Entry| e.id);
        let ghost wanted = |id: EntryId| self.selected@.contains(id.0);
        let mut out: Vec<EntryId> = Vec::new();
        let mut at: usize = 0;
        proof {
            reveal(Seq::filter);
            assert(ids.take(0) =~= Seq::<EntryId>::empty());
        }
        while at < list.entries.len()
            invariant
                at <= list.entries.len(),
                ids == list.entries@.map_values(|e: Entry| e.id),
                wanted == (|id: EntryId| self.selected@.contains(id.0)),
                out@ == ids.take(at as int).filter(wanted),
            decreases list.entries.len() - at,
        {
            let id = list.entries[at].id;
            proof {
                reveal(Seq::filter);
                let so_far = ids.take(at + 1);
                assert(so_far.last() == id);
                assert(so_far.drop_last() =~= ids.take(at as int));
            }
            if self.selected.contains(&id.0) {
                out.push(id);
            }
            at = at + 1;
        }
        assert(ids.take(at as int) =~= ids);
        out
    }
}

/// What is being played, apart from what is being looked at.
#[derive(Debug)]
pub struct PlaybackCursor {
    pub playlist: Option<PlaylistId>,
    pub entry: Entry,
    /// The entry is still a member of the list.
    pub attached: bool,
    pub next_anchor: Option<EntryId>,
    pub previous_anchor: Option<EntryId>,
}

/// The list that a cursor belongs to, if it is there.
pub open spec fn its_list(playlist: Option<PlaylistId>, list: Option<&PlaylistSnapshot>) -> bool {
    list is Some && playlist == Some(list->0.summary.id)
}

/// The first of `entries[from..]` that another list still holds.
pub open spec fn next_survivor(entries: Seq<Entry>, from: int, list: PlaylistSnapshot) -> Option<
    EntryId,
>
    decreases entries.len() - from,
{
    if from < 0 || from >= entries.len() {
        None
    } else if list.holds(entries[from].id) {
        Some(entries[from].id)
    } else {
        next_survivor(entries, from + 1, list)
    }
}

/// The last of `entries[..to]` that another list still holds.
pub open spec fn previous_survivor(entries: Seq<Entry>, to: int, list: PlaylistSnapshot) -> Option<
    EntryId,
>
    decreases to,
{
    if to <= 0 || to > entries.len() {
        None
    } else if list.holds(entries[to - 1].id) {
        Some(entries[to - 1].id)
    } else {
        previous_survivor(entries, to - 1, list)
    }
}

/// Where an entry stood in a list that may not be there.
pub open spec fn stood(list: Option<&PlaylistSnapshot>, id: Option<EntryId>) -> Option<int> {
    match list {
        Some(list) => match id {
            Some(id) => place_of(list.entries@, id.0),
            None => None,
        },
        None => None,
    }
}

/// An anchor that is to be found anew: the entry has just left the list, or the
/// anchor itself has.
pub open spec fn lost(attached: bool, anchor: Option<EntryId>, list: PlaylistSnapshot) -> bool {
    attached || (anchor is Some && !list.holds(anchor->0))
}

impl PlaybackCursor {
    /// What follows the place that the cursor has left: what followed the entry
    /// where it was a member, and else what followed the anchor.
    pub open spec fn next_after(
        &self,
        old_list: Option<&PlaylistSnapshot>,
        list: PlaylistSnapshot,
    ) -> Option<EntryId> {
        if !lost(self.attached, self.next_anchor, list) {
            self.next_anchor
        } else {
            let from = if self.attached {
                match stood(old_list, Some(self.entry.id)) {
                    Some(place) => Some(place + 1),
                    None => None,
                }
            } else {
                stood(old_list, self.next_anchor)
            };
            match from {
                Some(from) => next_survivor(old_list->0.entries@, from, list),
                None => None,
            }
        }
    }

    /// What stands before the place that the cursor has left.
    pub open spec fn previous_before(
        &self,
        old_list: Option<&PlaylistSnapshot>,
        list: PlaylistSnapshot,
    ) -> Option<EntryId> {
        if !lost(self.attached, self.previous_anchor, list) {
            self.previous_anchor
        } else {
            let to = if self.attached {
                stood(old_list, Some(self.entry.id))
            } else {
                match stood(old_list, self.previous_anchor) {
                    Some(place) => Some(place + 1),
                    None => None,
                }
            };
            match to {
                Some(to) => previous_survivor(old_list->0.entries@, to, list),
                None => None,
            }
        }
    }

    /// The cursor once its list has changed from one state to another.
    pub open spec fn reconciled(
        &self,
        old_list: Option<&PlaylistSnapshot>,
        new_list: Option<&PlaylistSnapshot>,
    ) -> PlaybackCursor {
        if !its_list(self.playlist, new_list) {
            PlaybackCursor {
                playlist: None,
                attached: false,
                next_anchor: None,
                previous_anchor: None,
                ..*self
            }
        } else if self.attached && new_list->0.holds(self.entry.id) {
            *self
        } else {
            PlaybackCursor {
                next_anchor: self.next_after(old_list, *new_list->0),
                previous_anchor: self.previous_before(old_list, *new_list->0),
                attached: false,
                ..*self
            }
        }
    }

    pub fn new(playlist: PlaylistId, entry: Entry) -> (r: Self)
        ensures
            r == (PlaybackCursor {
                playlist: Some(playlist),
                entry,
                attached: true,
                next_anchor: None,
                previous_anchor: None,
            }),
    {
        PlaybackCursor {
            playlist: Some(playlist),
            entry,
            attached: true,
            next_anchor: None,
            previous_anchor: None,
        }
    }

    pub fn dup(&self) -> (r: Self)
        ensures
            r == *self,
    {
        PlaybackCursor {
            playlist: self.playlist,
            entry: self.entry.dup(),
            attached: self.attached,
            next_anchor: self.next_anchor,
            previous_anchor: self.previous_anchor,
        }
    }

    /// Keeps the open media alive when the membership changes. The anchors follow
    /// identities, also where several changes remove successors.
    pub fn reconcile(
        &mut self,
        old_list: Option<&PlaylistSnapshot>,
        new_list: Option<&PlaylistSnapshot>,
    )
        requires
            old_list is Some ==> old_list->0.wf(),
            new_list is Some ==> new_list->0.wf(),
        ensures
            *final(self) == old(self).reconciled(old_list, new_list),
    {
        let list = match new_list {
            Some(list) if is_list(self.playlist, list) => list,
            _ => {
                self.playlist = None;
                self.attached = false;
                self.next_anchor = None;
                self.previous_anchor = None;
                return ;
            },
        };
        if self.attached && list.contains(self.entry.id) {
            return ;
        }
        let next = if is_lost(self.attached, self.next_anchor, list) {
            let from = if self.attached {
                match find(old_list, Some(self.entry.id)) {
                    Some(place) => Some(place + 1),
                    None => None,
                }
            } else {
                find(old_list, self.next_anchor)
            };
            match (old_list, from) {
                (Some(before), Some(from)) => survivor_from(before, from, list),
                _ => None,
            }
        } else {
            self.next_anchor
        };
        let previous = if is_lost(self.attached, self.previous_anchor, list) {
            let to = if self.attached {
                find(old_list, Some(self.entry.id))
            } else {
                match find(old_list, self.previous_anchor) {
                    Some(place) => Some(place + 1),
                    None => None,
                }
            };
            match (old_list, to) {
                (Some(before), Some(to)) => survivor_before(before, to, list),
                _ => None,
            }
        } else {
            self.previous_anchor
        };
        self.next_anchor = next;
        self.previous_anchor = previous;
        self.attached = false;
    }

    /// The entry that chance picks. What plays is not among those to pick from.
    pub open spec fn other_of(&self, list: PlaylistSnapshot, chance: u64) -> Option<EntryId> {
        let entries = list.entries@;
        let others = match place_of(entries, self.entry.id.0) {
            Some(place) => entries.remove(place),
            None => entries,
        };
        if self.playlist != Some(list.summary.id) || others.len() == 0 {
            None
        } else {
            Some(others[chance as int % others.len() as int].id)
        }
    }

    pub fn another(&self, list: &PlaylistSnapshot, chance: u64) -> (r: Option<EntryId>)
        requires
            list.wf(),
        ensures
            r == self.other_of(*list, chance),
            r is Some ==> list.holds(r->0),
            r is Some && distinct(list.entries@) ==> r->0 != self.entry.id,
    {
        if !is_list(self.playlist, list) {
            return None;
        }
        let place = list.position(self.entry.id);
        let others: usize = match place {
            Some(_) => list.entries.len() - 1,
            None => list.entries.len(),
        };
        if others == 0 {
            return None;
        }
        let mut at: usize = (chance % others as u64) as usize;
        if let Some(place) = place {
            if at >= place {
                at = at + 1;
            }
        }
        proof {
            lemma_place_of(list.entries@, self.entry.id.0);
            lemma_place_of(list.entries@, list.entries@[at as int].id.0);
        }
        Some(list.entries[at].id)
    }

    /// The entry that comes next, or came before.
    pub open spec fn neighbor_of(&self, list: PlaylistSnapshot, next: bool, wrap: bool) -> Option<
        EntryId,
    > {
        let entries = list.entries@;
        let anchor = if next {
            self.next_anchor
        } else {
            self.previous_anchor
        };
        let place = place_of(entries, self.entry.id.0);
        if self.playlist != Some(list.summary.id) {
            None
        } else if !self.attached {
            if anchor is Some && list.holds(anchor->0) {
                anchor
            } else if wrap && entries.len() > 0 {
                Some(if next {
                    entries[0].id
                } else {
                    entries.last().id
                })
            } else {
                None
            }
        } else if place is None {
            None
        } else if next && place->0 + 1 < entries.len() {
            Some(entries[place->0 + 1].id)
        } else if !next && place->0 > 0 {
            Some(entries[place->0 - 1].id)
        } else if wrap && entries.len() > 1 {
            Some(if next {
                entries[0].id
            } else {
                entries.last().id
            })
        } else {
            None
        }
    }

    pub fn neighbor(&self, list: &PlaylistSnapshot, next: bool, wrap: bool) -> (r: Option<EntryId>)
        requires
            list.wf(),
        ensures
            r == self.neighbor_of(*list, next, wrap),
    {
        if !is_list(self.playlist, list) {
            return None;
        }
        let count: usize = list.entries.len();
        if !self.attached {
            let anchor = if next {
                self.next_anchor
            } else {
                self.previous_anchor
            };
            if let Some(id) = anchor {
                if list.contains(id) {
                    return Some(id);
                }
            }
            if !wrap || count == 0 {
                return None;
            }
            return Some(
                if next {
                    list.entries[0].id
                } else {
                    list.entries[count - 1].id
                },
            );
        }
        let place: usize = match list.position(self.entry.id) {
            Some(place) => place,
            None => {
                return None;
            },
        };
        if next && count - place > 1 {
            return Some(list.entries[place + 1].id);
        }
        if !next && place > 0 {
            return Some(list.entries[place - 1].id);
        }
        if !wrap || count <= 1 {
            return None;
        }
        Some(
            if next {
                list.entries[0].id
            } else {
                list.entries[count - 1].id
            },
        )
    }
}

fn is_list(playlist: Option<PlaylistId>, list: &PlaylistSnapshot) -> (r: bool)
    ensures
        r == (playlist == Some(list.summary.id)),
{
    match playlist {
        Some(playlist) => playlist == list.summary.id,
        None => false,
    }
}

fn is_lost(attached: bool, anchor: Option<EntryId>, list: &PlaylistSnapshot) -> (r: bool)
    requires
        list.wf(),
    ensures
        r == lost(attached, anchor, *list),
{
    attached || match anchor {
        Some(anchor) => !list.contains(anchor),
        None => false,
    }
}

fn find(list: Option<&PlaylistSnapshot>, id: Option<EntryId>) -> (r: Option<usize>)
    requires
        list is Some ==> list->0.wf(),
    ensures
        match r {
            Some(place) => stood(list, id) == Some(place as int) && list is Some && place
                < list->0.entries.len(),
            None => stood(list, id) is None,
        },
{
    match (list, id) {
        (Some(list), Some(id)) => list.position(id),
        _ => None,
    }
}

fn survivor_from(before: &PlaylistSnapshot, from: usize, list: &PlaylistSnapshot) -> (r: Option<
    EntryId,
>)
    requires
        list.wf(),
        from <= before.entries@.len(),
    ensures
        r == next_survivor(before.entries@, from as int, *list),
{
    let mut at: usize = from;
    while at < before.entries.len()
        invariant
            list.wf(),
            at <= before.entries.len(),
            next_survivor(before.entries@, from as int, *list) == next_survivor(
                before.entries@,
                at as int,
                *list,
            ),
        decreases before.entries.len() - at,
    {
        let id = before.entries[at].id;
        if list.contains(id) {
            return Some(id);
        }
        at = at + 1;
    }
    None
}

fn survivor_before(before: &PlaylistSnapshot, to: usize, list: &PlaylistSnapshot) -> (r: Option<
    EntryId,
>)
    requires
        list.wf(),
        to <= before.entries@.len(),
    ensures
        r == previous_survivor(before.entries@, to as int, *list),
{
    let mut at: usize = to;
    while at > 0
        invariant
            list.wf(),
            at <= before.entries.len(),
            previous_survivor(before.entries@, to as int, *list) == previous_survivor(
                before.entries@,
                at as int,
                *list,
            ),
        decreases at,
    {
        let id = before.entries[at - 1].id;
        if list.contains(id) {
            return Some(id);
        }
        at = at - 1;
    }
    None
}

/// What is kept between two runs of the player.
#[derive(Debug)]
pub struct SessionState {
    pub browse: Option<PlaylistId>,
    pub cursor: Option<PlaybackCursor>,
    pub frame: u64,
    pub sample_rate: u32,
    pub stamp: Option<FileStamp>,
}

impl Default for SessionState {
    fn default() -> (r: Self)
        ensures
            r == (SessionState { browse: None, cursor: None, frame: 0, sample_rate: 0, stamp: None }),
    {
        SessionState { browse: None, cursor: None, frame: 0, sample_rate: 0, stamp: None }
    }
}

impl SessionState {
    pub fn dup(&self) -> (r: Self)
        ensures
            r == *self,
    {
        SessionState {
            browse: self.browse,
            cursor: match &self.cursor {
                Some(cursor) => Some(cursor.dup()),
                None => None,
            },
            frame: self.frame,
            sample_rate: self.sample_rate,
            stamp: self.stamp,
        }
    }
}

/// The entries that are moved, and those that stay, each in their order.
pub open spec fn part(ids: Seq<EntryId>, selected: Set<i64>, moving: bool) -> Seq<EntryId> {
    ids.filter(|id: EntryId| selected.contains(id.0) == moving)
}

/// The gap counts in the original order, so the entries that stay before it are
/// those that stood there.
pub open spec fn dropped(ids: Seq<EntryId>, selected: Set<i64>, gap: int) -> Seq<EntryId> {
    let gap = if gap < ids.len() {
        gap
    } else {
        ids.len() as int
    };
    part(ids.take(gap), selected, false) + part(ids, selected, true) + part(
        ids.skip(gap),
        selected,
        false,
    )
}

fn pick(ids: &Vec<EntryId>, from: usize, to: usize, selected: &HashSet<i64>, moving: bool, out: &mut Vec<EntryId>)
    requires
        from <= to <= ids@.len(),
    ensures
        final(out)@ == old(out)@ + part(ids@.subrange(from as int, to as int), selected@, moving),
{
    let ghost wanted = |id: EntryId| selected@.contains(id.0) == moving;
    let ghost range = ids@.subrange(from as int, to as int);
    let ghost before = out@;
    let mut at: usize = from;
    proof {
        reveal(Seq::filter);
        assert(range.take(0) =~= Seq::<EntryId>::empty());
        assert(before + Seq::<EntryId>::empty() =~= before);
    }
    while at < to
        invariant
            from <= at <= to <= ids@.len(),
            range == ids@.subrange(from as int, to as int),
            wanted == (|id: EntryId| selected@.contains(id.0) == moving),
            out@ == before + range.take(at - from).filter(wanted),
        decreases to - at,
    {
        let id = ids[at];
        proof {
            reveal(Seq::filter);
            let so_far = range.take(at + 1 - from);
            assert(so_far.last() == id);
            assert(so_far.drop_last() =~= range.take(at - from));
        }
        if selected.contains(&id.0) == moving {
            let ghost front = range.take(at - from).filter(wanted);
            out.push(id);
            assert(out@ =~= before + front.push(id));
        }
        at = at + 1;
    }
    assert(range.take(at - from) =~= range);
}

/// Moves the selected entries into a gap of the original order.
pub fn reordered(ids: &Vec<EntryId>, selected: &HashSet<i64>, gap: usize) -> (r: Vec<EntryId>)
    ensures
        r@ == dropped(ids@, selected@, gap as int),
{
    let gap: usize = if gap < ids.len() {
        gap
    } else {
        ids.len()
    };
    let mut out: Vec<EntryId> = Vec::new();
    pick(ids, 0, gap, selected, false, &mut out);
    pick(ids, 0, ids.len(), selected, true, &mut out);
    pick(ids, gap, ids.len(), selected, false, &mut out);
    proof {
        assert(ids@.subrange(0, gap as int) =~= ids@.take(gap as int));
        assert(ids@.subrange(0, ids@.len() as int) =~= ids@);
        assert(ids@.subrange(gap as int, ids@.len() as int) =~= ids@.skip(gap as int));
        assert(out@ =~= dropped(ids@, selected@, gap as int));
    }
    out
}

/// Sixteen-bit units as bytes, low byte first.
pub open spec fn unit_bytes(units: Seq<u16>) -> Seq<u8> {
    Seq::new(
        2 * units.len(),
        |i: int|
            if i % 2 == 0 {
                (units[i / 2] % 256) as u8
            } else {
                (units[i / 2] / 256) as u8
            },
    )
}

/// How a path of sixteen-bit units is stored.
pub fn encode_units(units: &Vec<u16>) -> (r: Vec<u8>)
    ensures
        r@ == unit_bytes(units@),
{
    let mut out: Vec<u8> = Vec::new();
    let mut at: usize = 0;
    while at < units.len()
        invariant
            at <= units.len(),
            out@ =~= unit_bytes(units@.take(at as int)),
        decreases units.len() - at,
    {
        let unit: u16 = units[at];
        out.push((unit % 256) as u8);
        out.push((unit / 256) as u8);
        at = at + 1;
    }
    assert(units@.take(at as int) =~= units@);
    out
}

/// The path that was stored; an odd number of bytes stores none.
pub fn decode_units(bytes: &Vec<u8>) -> (r: Result<Vec<u16>, String>)
    ensures
        match r {
            Ok(units) => bytes@ == unit_bytes(units@),
            Err(message) => bytes@.len() % 2 == 1 && message@ == "Invalid Windows path encoding"@,
        },
{
    if bytes.len() % 2 != 0 {
        return Err("Invalid Windows path encoding".to_owned());
    }
    let mut units: Vec<u16> = Vec::new();
    let mut at: usize = 0;
    while at < bytes.len()
        invariant
            at <= bytes.len(),
            at % 2 == 0,
            bytes@.len() % 2 == 0,
            units@.len() * 2 == at,
            bytes@.take(at as int) =~= unit_bytes(units@),
        decreases bytes.len() - at,
    {
        let low: u16 = bytes[at] as u16;
        let high: u16 = bytes[at + 1] as u16;
        let ghost before = units@;
        units.push(low + 256 * high);
        proof {
            assert(bytes@.take(at + 2) =~= bytes@.take(at as int).push(low as u8).push(high as u8));
            assert(unit_bytes(units@) =~= unit_bytes(before).push(low as u8).push(high as u8));
        }
        at = at + 2;
    }
    assert(bytes@.take(at as int) =~= bytes@);
    Ok(units)
}

proof fn lemma_part_counts(ids: Seq<EntryId>, selected: Set<i64>)
    ensures
        part(ids, selected, true).to_multiset().add(part(ids, selected, false).to_multiset())
            == ids.to_multiset(),
    decreases ids.len(),
{
    broadcast use vstd::seq_lib::group_to_multiset_ensures;

    reveal(Seq::filter);
    let moving = part(ids, selected, true);
    let staying = part(ids, selected, false);
    if ids.len() > 0 {
        let front = ids.drop_last();
        lemma_part_counts(front, selected);
        assert(ids =~= front.push(ids.last()));
        assert(moving.to_multiset().add(staying.to_multiset()) =~= ids.to_multiset());
    } else {
        assert(moving.to_multiset().add(staying.to_multiset()) =~= ids.to_multiset());
    }
}

proof fn lemma_part_splits(ids: Seq<EntryId>, selected: Set<i64>, moving: bool, gap: int)
    requires
        0 <= gap <= ids.len(),
    ensures
        part(ids.take(gap), selected, moving) + part(ids.skip(gap), selected, moving) == part(
            ids,
            selected,
            moving,
        ),
    decreases ids.len() - gap,
{
    reveal(Seq::filter);
    let wanted = |id: EntryId| selected.contains(id.0) == moving;
    Seq::filter_distributes_over_add(ids.take(gap), ids.skip(gap), wanted);
    assert(ids.take(gap) + ids.skip(gap) =~= ids);
}

proof fn lemma_part_of_part(ids: Seq<EntryId>, selected: Set<i64>, first: bool, second: bool)
    ensures
        part(part(ids, selected, first), selected, second) == (if first == second {
            part(ids, selected, first)
        } else {
            Seq::empty()
        }),
    decreases ids.len(),
{
    reveal(Seq::filter);
    if ids.len() > 0 {
        let front = ids.drop_last();
        lemma_part_of_part(front, selected, first, second);
        let rest = part(front, selected, first);
        if selected.contains(ids.last().0) == first {
            let all = rest.push(ids.last());
            assert(all.drop_last() =~= rest);
        }
    }
}

/// Dropping entries moves them and nothing else: the same entries are there,
/// those that moved and those that stayed each keep their order, and exactly
/// those that stayed and stood before the gap still stand before the moved ones.
pub proof fn a_drop_keeps_both_orders(ids: Seq<EntryId>, selected: Set<i64>, gap: int)
    requires
        0 <= gap <= ids.len(),
    ensures
        dropped(ids, selected, gap).to_multiset() == ids.to_multiset(),
        part(dropped(ids, selected, gap), selected, true) == part(ids, selected, true),
        part(dropped(ids, selected, gap), selected, false) == part(ids, selected, false),
        dropped(ids, selected, gap).take(part(ids.take(gap), selected, false).len() as int)
            == part(ids.take(gap), selected, false),
{
    broadcast use vstd::seq_lib::group_to_multiset_ensures;

    let before = part(ids.take(gap), selected, false);
    let moved = part(ids, selected, true);
    let after = part(ids.skip(gap), selected, false);
    let all = dropped(ids, selected, gap);
    lemma_part_counts(ids, selected);
    lemma_part_splits(ids, selected, false, gap);
    vstd::seq_lib::lemma_multiset_commutative(before, moved);
    vstd::seq_lib::lemma_multiset_commutative(before + moved, after);
    vstd::seq_lib::lemma_multiset_commutative(before, after);
    assert(all.to_multiset() =~= ids.to_multiset());
    lemma_part_of_part(ids, selected, true, true);
    lemma_part_of_part(ids, selected, true, false);
    lemma_part_of_part(ids.take(gap), selected, false, true);
    lemma_part_of_part(ids.take(gap), selected, false, false);
    lemma_part_of_part(ids.skip(gap), selected, false, true);
    lemma_part_of_part(ids.skip(gap), selected, false, false);
    let moves = |id: EntryId| selected.contains(id.0) == true;
    let stays = |id: EntryId| selected.contains(id.0) == false;
    Seq::filter_distributes_over_add(before + moved, after, moves);
    Seq::filter_distributes_over_add(before, moved, moves);
    Seq::filter_distributes_over_add(before + moved, after, stays);
    Seq::filter_distributes_over_add(before, moved, stays);
    assert(part(all, selected, true) =~= part(before, selected, true) + part(moved, selected, true)
        + part(after, selected, true));
    assert(part(all, selected, true) =~= moved);
    assert(part(all, selected, false) =~= part(before, selected, false) + part(
        moved,
        selected,
        false,
    ) + part(after, selected, false));
    assert(part(all, selected, false) =~= before + after);
    assert(all.take(before.len() as int) =~= before);
}

/// Whatever happens to the list, the open media stays open.
pub proof fn membership_changes_keep_the_open_media(
    cursor: PlaybackCursor,
    old_list: Option<&PlaylistSnapshot>,
    new_list: Option<&PlaylistSnapshot>,
)
    ensures
        cursor.reconciled(old_list, new_list).entry == cursor.entry,
{
}

proof fn lemma_next_survivor(entries: Seq<Entry>, from: int, list: PlaylistSnapshot)
    ensures
        next_survivor(entries, from, list) is Some ==> list.holds(
            next_survivor(entries, from, list)->0,
        ),
    decreases entries.len() - from,
{
    if 0 <= from < entries.len() && !list.holds(entries[from].id) {
        lemma_next_survivor(entries, from + 1, list);
    }
}

proof fn lemma_previous_survivor(entries: Seq<Entry>, to: int, list: PlaylistSnapshot)
    ensures
        previous_survivor(entries, to, list) is Some ==> list.holds(
            previous_survivor(entries, to, list)->0,
        ),
    decreases to,
{
    if 0 < to <= entries.len() && !list.holds(entries[to - 1].id) {
        lemma_previous_survivor(entries, to - 1, list);
    }
}

/// A cursor whose entry has left the list only ever points at entries that are
/// listed.
pub proof fn anchors_point_at_listed_entries(
    cursor: PlaybackCursor,
    old_list: Option<&PlaylistSnapshot>,
    new_list: &PlaylistSnapshot,
)
    ensures
        ({
            let next = cursor.reconciled(old_list, Some(new_list));
            !next.attached && next.playlist is Some ==> {
                &&& next.next_anchor is Some ==> new_list.holds(next.next_anchor->0)
                &&& next.previous_anchor is Some ==> new_list.holds(next.previous_anchor->0)
            }
        }),
{
    if its_list(cursor.playlist, Some(new_list)) && !(cursor.attached && new_list.holds(
        cursor.entry.id,
    )) {
        if old_list is Some {
            let entries = old_list->0.entries@;
            if cursor.attached {
                let place = place_of(entries, cursor.entry.id.0);
                if place is Some {
                    lemma_next_survivor(entries, place->0 + 1, *new_list);
                    lemma_previous_survivor(entries, place->0, *new_list);
                }
            } else {
                if cursor.next_anchor is Some {
                    let anchor = cursor.next_anchor->0;
                    let place = place_of(entries, anchor.0);
                    if place is Some {
                        lemma_next_survivor(entries, place->0, *new_list);
                    }
                }
                if cursor.previous_anchor is Some {
                    let anchor = cursor.previous_anchor->0;
                    let place = place_of(entries, anchor.0);
                    if place is Some {
                        lemma_previous_survivor(entries, place->0 + 1, *new_list);
                    }
                }
            }
        }
    }
}

/// A neighbour is always an entry of the list.
pub proof fn a_neighbour_is_listed(
    cursor: PlaybackCursor,
    list: PlaylistSnapshot,
    next: bool,
    wrap: bool,
)
    requires
        cursor.neighbor_of(list, next, wrap) is Some,
    ensures
        list.holds(cursor.neighbor_of(list, next, wrap)->0),
{
    let id = cursor.neighbor_of(list, next, wrap)->0;
    lemma_place_of(list.entries@, id.0);
    lemma_place_of(list.entries@, cursor.entry.id.0);
    if place_of(list.entries@, id.0) is None {
        let entries = list.entries@;
        assert(exists|i: int| 0 <= i < entries.len() && (#[trigger] entries[i]).id.0 == id.0) by {
            let place = place_of(entries, cursor.entry.id.0);
            if !cursor.attached {
                if entries.len() > 0 {
                    assert(entries[0].id.0 == id.0 || entries[entries.len() - 1].id.0 == id.0);
                }
            } else if next && place->0 + 1 < entries.len() {
                assert(entries[place->0 + 1].id.0 == id.0);
            } else if !next && place->0 > 0 {
                assert(entries[place->0 - 1].id.0 == id.0);
            } else {
                assert(entries[0].id.0 == id.0 || entries[entries.len() - 1].id.0 == id.0);
            }
        }
    }
}

/// Going on and coming back leads to the same entry, also around the ends of a
/// list that repeats.
pub proof fn going_on_and_coming_back_is_staying(
    list: PlaylistSnapshot,
    first: PlaybackCursor,
    second: PlaybackCursor,
    wrap: bool,
)
    requires
        distinct(list.entries@),
        first.playlist == Some(list.summary.id) && first.attached,
        second.playlist == Some(list.summary.id) && second.attached,
        list.holds(first.entry.id),
        first.neighbor_of(list, true, wrap) == Some(second.entry.id),
    ensures
        second.neighbor_of(list, false, wrap) == Some(first.entry.id),
{
    let entries = list.entries@;
    lemma_place_of(entries, first.entry.id.0);
    let at = place_of(entries, first.entry.id.0)->0;
    if at + 1 < entries.len() {
        lemma_place_of_distinct(entries, at + 1);
    } else {
        lemma_place_of_distinct(entries, 0);
    }
}

/// A list that is played once stops at both ends.
pub proof fn a_list_stops_at_its_ends(list: PlaylistSnapshot, cursor: PlaybackCursor)
    requires
        distinct(list.entries@),
        cursor.playlist == Some(list.summary.id) && cursor.attached,
        list.entries@.len() > 0,
    ensures
        cursor.entry.id == list.entries@.last().id ==> cursor.neighbor_of(list, true, false)
            is None,
        cursor.entry.id == list.entries@[0].id ==> cursor.neighbor_of(list, false, false) is None,
{
    lemma_place_of_distinct(list.entries@, 0);
    lemma_place_of_distinct(list.entries@, list.entries@.len() - 1);
}

/// Whatever is selected is listed, and a list that holds anything has a
/// selection.
pub proof fn an_installed_selection_is_listed(browse: BrowseModel, list: PlaylistSnapshot)
    ensures
        ({
            let next = browse.installed(list);
            &&& forall|id: i64| #[trigger] next.selected.contains(id) ==> list.holds(EntryId(id))
            &&& list.entries@.len() > 0 ==> next.saved.focus is Some && list.holds(
                next.saved.focus->0,
            ) && next.selected != Set::<i64>::empty()
            &&& list.entries@.len() == 0 ==> next.selected == Set::<i64>::empty()
        }),
{
    let next = browse.installed(list);
    let entries = list.entries@;
    if entries.len() > 0 {
        lemma_place_of(entries, entries[0].id.0);
        if next.selected == one(next.saved.focus) {
            let focus = next.saved.focus->0;
            assert(next.selected.contains(focus.0));
        }
    } else {
        assert forall|id: i64| !#[trigger] next.selected.contains(id) by {
            lemma_place_of(entries, id);
        }
        assert(next.selected =~= Set::<i64>::empty());
    }
}

/// A stored path reads back unit for unit, paired or not.
pub proof fn stored_units_read_back(first: Seq<u16>, second: Seq<u16>)
    requires
        unit_bytes(first) == unit_bytes(second),
    ensures
        first == second,
{
    let a = unit_bytes(first);
    let b = unit_bytes(second);
    assert(a.len() == 2 * first.len());
    assert(b.len() == 2 * second.len());
    assert forall|i: int| 0 <= i < first.len() implies first[i] == second[i] by {
        let j = 2 * i;
        assert(j / 2 == i && j % 2 == 0 && (j + 1) / 2 == i && (j + 1) % 2 == 1);
        assert(a[j] == (first[i] % 256) as u8);
        assert(b[j] == (second[i] % 256) as u8);
        assert(a[j + 1] == (first[i] / 256) as u8);
        assert(b[j + 1] == (second[i] / 256) as u8);
    }
    assert(first =~= second);
}

/// A drop leaves three stretches: what was not moved of the entries before the gap, then
/// everything that was moved, then what was not moved of the entries behind it.
pub proof fn a_drop_puts_the_moved_entries_into_the_gap(
    ids: Seq<EntryId>,
    selected: Set<i64>,
    gap: int,
) -> (cuts: (int, int))
    requires
        0 <= gap <= ids.len(),
    ensures
        ({
            let r = dropped(ids, selected, gap);
            let (a, b) = cuts;
            &&& 0 <= a <= b <= r.len()
            &&& forall|i: int|
                0 <= i < a ==> !selected.contains((#[trigger] r[i]).0) && ids.take(gap).contains(r[i])
            &&& forall|i: int| a <= i < b ==> selected.contains((#[trigger] r[i]).0)
            &&& forall|i: int|
                b <= i < r.len() ==> !selected.contains((#[trigger] r[i]).0) && ids.skip(
                    gap,
                ).contains(r[i])
        }),
{
    broadcast use vstd::seq_lib::group_filter_ensures;

    let stays = |id: EntryId| selected.contains(id.0) == false;
    let moves = |id: EntryId| selected.contains(id.0) == true;
    let front = part(ids.take(gap), selected, false);
    let moved = part(ids, selected, true);
    let back = part(ids.skip(gap), selected, false);
    let r = dropped(ids, selected, gap);
    assert(r =~= front + moved + back);
    let a = front.len() as int;
    let b = a + moved.len();
    assert forall|i: int| 0 <= i < a implies !selected.contains((#[trigger] r[i]).0) && ids.take(
        gap,
    ).contains(r[i]) by {
        assert(r[i] == front[i]);
        assert(front == ids.take(gap).filter(stays));
        assert(stays(front[i]));
        ids.take(gap).lemma_filter_contains_rev(stays, front[i]);
    }
    assert forall|i: int| a <= i < b implies selected.contains((#[trigger] r[i]).0) by {
        assert(r[i] == moved[i - a]);
        assert(moved == ids.filter(moves));
        assert(moves(moved[i - a]));
    }
    assert forall|i: int| b <= i < r.len() implies !selected.contains((#[trigger] r[i]).0)
        && ids.skip(gap).contains(r[i]) by {
        assert(r[i] == back[i - b]);
        assert(back == ids.skip(gap).filter(stays));
        assert(stays(back[i - b]));
        ids.skip(gap).lemma_filter_contains_rev(stays, back[i - b]);
    }
    (a, b)
}

/// Next is the entry behind the one that plays, and previous the one before it. At the
/// ends of a list that repeats, next is the first and previous the last.
pub proof fn next_is_behind_and_previous_before(
    list: PlaylistSnapshot,
    cursor: PlaybackCursor,
    i: int,
    wrap: bool,
)
    requires
        distinct(list.entries@),
        0 <= i < list.entries@.len(),
        cursor.entry.id == list.entries@[i].id,
        cursor.attached,
        cursor.playlist == Some(list.summary.id),
    ensures
        i + 1 < list.entries@.len() ==> cursor.neighbor_of(list, true, wrap) == Some(
            list.entries@[i + 1].id,
        ),
        i > 0 ==> cursor.neighbor_of(list, false, wrap) == Some(list.entries@[i - 1].id),
        i + 1 == list.entries@.len() && list.entries@.len() > 1 ==> cursor.neighbor_of(
            list,
            true,
            true,
        ) == Some(list.entries@[0].id) && cursor.neighbor_of(list, true, false) is None,
        i == 0 && list.entries@.len() > 1 ==> cursor.neighbor_of(list, false, true) == Some(
            list.entries@[list.entries@.len() - 1].id,
        ) && cursor.neighbor_of(list, false, false) is None,
        list.entries@.len() == 1 ==> cursor.neighbor_of(list, true, wrap) is None
            && cursor.neighbor_of(list, false, wrap) is None,
{
    lemma_place_of_distinct(list.entries@, i);
}

/// An entry that was removed while it played goes on with the entries that it stood
/// between, as long as they are listed.
pub proof fn a_removed_entry_goes_on_between_its_neighbours(
    list: PlaylistSnapshot,
    cursor: PlaybackCursor,
    wrap: bool,
)
    requires
        !cursor.attached,
        cursor.playlist == Some(list.summary.id),
    ensures
        cursor.next_anchor is Some && list.holds(cursor.next_anchor->0) ==> cursor.neighbor_of(
            list,
            true,
            wrap,
        ) == cursor.next_anchor,
        cursor.previous_anchor is Some && list.holds(cursor.previous_anchor->0)
            ==> cursor.neighbor_of(list, false, wrap) == cursor.previous_anchor,
        cursor.next_anchor is None && !wrap ==> cursor.neighbor_of(list, true, wrap) is None,
        cursor.previous_anchor is None && !wrap ==> cursor.neighbor_of(list, false, wrap) is None,
{
}

/// A cursor goes nowhere in a list that it is not in.
pub proof fn a_cursor_stays_in_its_own_list(
    list: PlaylistSnapshot,
    cursor: PlaybackCursor,
    next: bool,
    wrap: bool,
    chance: u64,
)
    requires
        cursor.playlist != Some(list.summary.id),
    ensures
        cursor.neighbor_of(list, next, wrap) is None,
        cursor.other_of(list, chance) is None,
{
}

proof fn lemma_first_survivor(entries: Seq<Entry>, from: int, k: int, list: PlaylistSnapshot)
    requires
        0 <= from <= k < entries.len(),
        list.holds(entries[k].id),
        forall|j: int| from <= j < k ==> !list.holds((#[trigger] entries[j]).id),
    ensures
        next_survivor(entries, from, list) == Some(entries[k].id),
    decreases k - from,
{
    if from < k {
        assert(!list.holds(entries[from].id));
        lemma_first_survivor(entries, from + 1, k, list);
    }
}

proof fn lemma_last_survivor(entries: Seq<Entry>, to: int, k: int, list: PlaylistSnapshot)
    requires
        0 <= k < to <= entries.len(),
        list.holds(entries[k].id),
        forall|j: int| k < j < to ==> !list.holds((#[trigger] entries[j]).id),
    ensures
        previous_survivor(entries, to, list) == Some(entries[k].id),
    decreases to,
{
    if k < to - 1 {
        assert(!list.holds(entries[to - 1].id));
        lemma_last_survivor(entries, to - 1, k, list);
    }
}

/// Where the entry that plays is removed, the next one is the first behind it that is
/// still listed, and the previous one the last before it that is.
pub proof fn a_removed_entry_remembers_its_nearest_neighbours(
    old_list: PlaylistSnapshot,
    new_list: PlaylistSnapshot,
    cursor: PlaybackCursor,
    p: int,
    k: int,
)
    requires
        distinct(old_list.entries@),
        0 <= p < old_list.entries@.len(),
        cursor.entry.id == old_list.entries@[p].id,
        cursor.attached,
        cursor.playlist == Some(new_list.summary.id),
        !new_list.holds(cursor.entry.id),
    ensures
        ({
            let next = cursor.reconciled(Some(&old_list), Some(&new_list));
            let entries = old_list.entries@;
            &&& !next.attached
            &&& next.playlist == cursor.playlist
            &&& next.entry == cursor.entry
            &&& p < k < entries.len() && new_list.holds(entries[k].id) && (forall|j: int|
                p < j < k ==> !new_list.holds((#[trigger] entries[j]).id)) ==> next.next_anchor
                == Some(entries[k].id)
            &&& 0 <= k < p && new_list.holds(entries[k].id) && (forall|j: int|
                k < j < p ==> !new_list.holds((#[trigger] entries[j]).id)) ==> next.previous_anchor
                == Some(entries[k].id)
        }),
{
    let entries = old_list.entries@;
    lemma_place_of_distinct(entries, p);
    if p < k < entries.len() && new_list.holds(entries[k].id) && (forall|j: int|
        p < j < k ==> !new_list.holds((#[trigger] entries[j]).id)) {
        lemma_first_survivor(entries, p + 1, k, new_list);
    }
    if 0 <= k < p && new_list.holds(entries[k].id) && (forall|j: int|
        k < j < p ==> !new_list.holds((#[trigger] entries[j]).id)) {
        lemma_last_survivor(entries, p, k, new_list);
    }
}

/// A cursor whose entry is still listed stays as it is; one whose list is gone is in none.
pub proof fn a_cursor_follows_its_list(
    old_list: Option<&PlaylistSnapshot>,
    new_list: PlaylistSnapshot,
    cursor: PlaybackCursor,
)
    ensures
        cursor.playlist == Some(new_list.summary.id) && cursor.attached && new_list.holds(
            cursor.entry.id,
        ) ==> cursor.reconciled(old_list, Some(&new_list)) == cursor,
        cursor.playlist != Some(new_list.summary.id) ==> cursor.reconciled(
            old_list,
            Some(&new_list),
        ).playlist is None && !cursor.reconciled(old_list, Some(&new_list)).attached,
        cursor.reconciled(old_list, None).playlist is None,
        cursor.reconciled(old_list, None).entry == cursor.entry,
{
}

/// A plain choice selects the entry alone; with the toggle it takes the entry in or out
/// and leaves the others. Either becomes where a range starts.
pub proof fn a_choice_selects_what_was_chosen(
    browse: BrowseModel,
    list: PlaylistSnapshot,
    id: EntryId,
    other: i64,
)
    ensures
        ({
            let plain = browse.selecting(list, id, false, false);
            let toggled = browse.selecting(list, id, true, false);
            &&& plain.selected.contains(other) <==> other == id.0
            &&& toggled.selected.contains(id.0) <==> !browse.selected.contains(id.0)
            &&& other != id.0 ==> (toggled.selected.contains(other) <==> browse.selected.contains(
                other,
            ))
            &&& plain.range_anchor == Some(id) && toggled.range_anchor == Some(id)
            &&& plain.saved.focus == Some(id) && toggled.saved.focus == Some(id)
            &&& plain.playlist == browse.playlist
            &&& plain.saved.scroll_entry == browse.saved.scroll_entry
        }),
{
}

/// A range selects every entry from where it starts to the one chosen, both of them
/// counted, whichever comes first; with the toggle what was selected stays.
pub proof fn a_range_selects_everything_between(
    browse: BrowseModel,
    list: PlaylistSnapshot,
    a: int,
    b: int,
    k: int,
)
    requires
        distinct(list.entries@),
        0 <= a < list.entries@.len(),
        0 <= b < list.entries@.len(),
        0 <= k < list.entries@.len(),
        browse.range_anchor == Some(list.entries@[a].id),
    ensures
        ({
            let entries = list.entries@;
            let ranged = browse.selecting(list, entries[b].id, false, true);
            let extended = browse.selecting(list, entries[b].id, true, true);
            let inside = (a <= k <= b) || (b <= k <= a);
            &&& ranged.selected.contains(entries[k].id.0) <==> inside
            &&& extended.selected.contains(entries[k].id.0) <==> inside || browse.selected.contains(
                entries[k].id.0,
            )
            &&& ranged.range_anchor == browse.range_anchor
            &&& ranged.saved.focus == Some(entries[b].id)
        }),
{
    let entries = list.entries@;
    lemma_place_of_distinct(entries, a);
    lemma_place_of_distinct(entries, b);
    let low = if a < b {
        a
    } else {
        b
    };
    let high = if a < b {
        b
    } else {
        a
    };
    let id = entries[k].id.0;
    if low <= k <= high {
        assert(ids_between(entries, low, high + 1).contains(id));
    } else if ids_between(entries, low, high + 1).contains(id) {
        let i = choose|i: int| low <= i < high + 1 && (#[trigger] entries[i]).id.0 == id;
        if i < k {
            assert(entries[i].id != entries[k].id);
        } else if k < i {
            assert(entries[k].id != entries[i].id);
        }
    }
}

/// Another list is shown as it was left; the same list keeps what is selected and listed,
/// and the focus where it is listed.
pub proof fn a_list_is_shown_as_it_was_left(browse: BrowseModel, list: PlaylistSnapshot, id: i64)
    ensures
        ({
            let next = browse.installed(list);
            &&& next.playlist == Some(list.summary.id)
            &&& browse.playlist != Some(list.summary.id) ==> {
                &&& next.restore_scroll
                &&& next.saved.scroll_entry == list.browse.scroll_entry
                &&& next.saved.scroll_offset == list.browse.scroll_offset
                &&& list.browse.focus is Some && list.holds(list.browse.focus->0)
                    ==> next.saved.focus == list.browse.focus
            }
            &&& browse.playlist == Some(list.summary.id) ==> {
                &&& browse.saved.focus is Some && list.holds(browse.saved.focus->0)
                    ==> next.saved.focus == browse.saved.focus
                &&& next.saved.scroll_entry == browse.saved.scroll_entry
                &&& browse.selected.contains(id) && place_of(list.entries@, id) is Some
                    ==> next.selected.contains(id)
            }
            &&& list.entries@.len() > 0 ==> next.saved.focus is Some
        }),
{
    let kept = still_listed(list.entries@, browse.turned_to(list).selected);
    if browse.playlist == Some(list.summary.id) && browse.selected.contains(id) && place_of(
        list.entries@,
        id,
    ) is Some {
        assert(kept.contains(id));
        assert(!Set::<i64>::empty().contains(id));
    }
}

/// A unit is stored with its lower byte first.
pub proof fn a_unit_is_stored_lower_byte_first(units: Seq<u16>, i: int)
    requires
        0 <= i < units.len(),
    ensures
        unit_bytes(units).len() == 2 * units.len(),
        unit_bytes(units)[2 * i] + 256 * unit_bytes(units)[2 * i + 1] == units[i],
{
    assert((2 * i) / 2 == i && (2 * i) % 2 == 0);
    assert((2 * i + 1) / 2 == i && (2 * i + 1) % 2 == 1);
}

/// Each mode has its own name.
pub proof fn each_mode_has_its_own_name()
    ensures
        PlaybackMode::Sequential.title() == "Sequential"@,
        PlaybackMode::RepeatOne.title() == "Repeat one"@,
        PlaybackMode::RepeatAll.title() == "Repeat all"@,
        PlaybackMode::Shuffle.title() == "Shuffle"@,
{
}

/// Chance can pick every other entry of the list, and no other.
pub proof fn chance_can_pick_every_other_entry(
    list: PlaylistSnapshot,
    cursor: PlaybackCursor,
    p: int,
    k: int,
)
    requires
        distinct(list.entries@),
        0 <= p < list.entries@.len(),
        0 <= k < list.entries@.len(),
        list.entries@.len() <= u64::MAX,
        k != p,
        cursor.entry.id == list.entries@[p].id,
        cursor.playlist == Some(list.summary.id),
    ensures
        exists|chance: u64| #[trigger] cursor.other_of(list, chance) == Some(list.entries@[k].id),
{
    let entries = list.entries@;
    lemma_place_of_distinct(entries, p);
    let others = entries.remove(p);
    let at = if k < p {
        k
    } else {
        k - 1
    };
    let chance = at as u64;
    assert(others[at] == entries[k]);
    assert(chance as int % others.len() as int == at) by {
        vstd::arithmetic::div_mod::lemma_small_mod(at as nat, others.len());
    }
    assert(cursor.other_of(list, chance) == Some(entries[k].id));
}

} // verus!
