//! Decisions of the library database: what may be opened, what a change does to
//! the rows, and how the session is repaired along with it.
//!
//! The database itself belongs to the application. It reads the rows that a
//! decision needs, and carries the decision out within one transaction.
use crate::playlist::{EntryId, PlaybackCursor, PlaylistId, PlaylistSnapshot, SessionState};
use crate::text::{contains_char, decimal, push_decimal, text_of};
use crate::words::{trim, trimmed};
use std::collections::HashSet;
use vstd::prelude::*;
use vstd::string::*;

verus! {

broadcast use vstd::std_specs::hash::group_hash_axioms;

/// The number that marks a database as a library.
pub const APPLICATION: u32 = 0x4d41_4334;

/// Whether a database is to be set up, or can be used as it is.
pub fn check_identity(version: u32, application: u32) -> (r: Result<bool, &'static str>)
    ensures
        r is Err == (version > 1 || (application != 0 && application != APPLICATION)),
        match r {
            Ok(fresh) => fresh == (version == 0),
            Err(message) => message@
                == "Unsupported library version or application; original database preserved"@,
        },
{
    if version > 1 || (application != 0 && application != APPLICATION) {
        return Err("Unsupported library version or application; original database preserved");
    }
    Ok(version == 0)
}

/// A database that is set up must not hold anything yet.
pub fn check_tables(tables: i64) -> (r: Result<(), &'static str>)
    ensures
        r is Ok == (tables == 0),
        r is Err ==> r->Err_0@ == "Unrecognized library schema; original database preserved"@,
{
    if tables != 0 {
        return Err("Unrecognized library schema; original database preserved");
    }
    Ok(())
}

/// Paths are stored as the platform writes them.
pub fn check_platform(stored: &String, current: &String) -> (r: Result<(), &'static str>)
    ensures
        r is Ok == (stored@ == current@),
        r is Err ==> r->Err_0@ == "This library contains paths from a different operating system"@,
{
    if *stored != *current {
        return Err("This library contains paths from a different operating system");
    }
    Ok(())
}

/// A database that is damaged is never replaced.
pub fn check_integrity(report: &String) -> (r: Result<(), String>)
    ensures
        r is Ok == (report@ == "ok"@),
        r is Err ==> r->Err_0@ == "Library integrity check failed: "@ + report@,
{
    let ok = "ok".to_owned();
    if *report == ok {
        return Ok(());
    }
    let mut message = "Library integrity check failed: ".to_owned();
    message.append(report.as_str());
    Err(message)
}

/// A playlist's name: what is written, without white space around it.
pub fn checked_name(name: &str) -> (r: Result<String, &'static str>)
    ensures
        r is Ok == (trimmed(name@).len() > 0 && !trimmed(name@).contains('\0')),
        match r {
            Ok(name_kept) => name_kept@ == trimmed(name@),
            Err(message) => message@ == "Enter a non-empty playlist name"@,
        },
{
    let inner = trim(&crate::text::chars_of(name));
    let kept = text_of(&inner, 0, inner.len());
    assert(inner@.subrange(0, inner@.len() as int) =~= inner@);
    if inner.len() == 0 || contains_char(kept.as_str(), '\0') {
        return Err("Enter a non-empty playlist name");
    }
    Ok(kept)
}

/// The order names every row once and no other.
pub open spec fn is_order_of(existing: Seq<i64>, order: Seq<i64>) -> bool {
    &&& order.len() == existing.len()
    &&& order.no_duplicates()
    &&& forall|id: i64| order.contains(id) == existing.contains(id)
}

fn collect(ids: &Vec<i64>) -> (r: HashSet<i64>)
    ensures
        forall|id: i64| #[trigger] r@.contains(id) == ids@.contains(id),
{
    let mut out: HashSet<i64> = HashSet::new();
    let mut at: usize = 0;
    while at < ids.len()
        invariant
            at <= ids.len(),
            forall|id: i64|
                #![trigger out@.contains(id)]
                out@.contains(id) == (exists|i: int| 0 <= i < at && ids@[i] == id),
        decreases ids.len() - at,
    {
        let ghost before = out@;
        out.insert(ids[at]);
        proof {
            assert forall|id: i64|
                #![trigger out@.contains(id)]
                out@.contains(id) == (exists|i: int| 0 <= i < at + 1 && ids@[i] == id) by {
                if before.contains(id) {
                    let i = choose|i: int| 0 <= i < at && ids@[i] == id;
                    assert(ids@[i] == id);
                }
                if id == ids@[at as int] {
                    assert(ids@[at as int] == id);
                }
                if exists|i: int| 0 <= i < at + 1 && ids@[i] == id {
                    let i = choose|i: int| 0 <= i < at + 1 && ids@[i] == id;
                    if i < at {
                        assert(before.contains(id));
                    }
                }
            }
        }
        at = at + 1;
    }
    proof {
        assert forall|id: i64| #[trigger] out@.contains(id) == ids@.contains(id) by {
            if ids@.contains(id) {
                let i = choose|i: int| 0 <= i < ids@.len() && ids@[i] == id;
                assert(ids@[i] == id);
            }
        }
    }
    out
}

fn all_in(ids: &Vec<i64>, set: &HashSet<i64>) -> (r: bool)
    ensures
        r == (forall|i: int| 0 <= i < ids@.len() ==> set@.contains(#[trigger] ids@[i])),
{
    let mut at: usize = 0;
    while at < ids.len()
        invariant
            at <= ids.len(),
            forall|i: int| 0 <= i < at ==> set@.contains(#[trigger] ids@[i]),
        decreases ids.len() - at,
    {
        if !set.contains(&ids[at]) {
            assert(!set@.contains(ids@[at as int]));
            return false;
        }
        at = at + 1;
    }
    true
}

fn are_distinct(ids: &Vec<i64>) -> (r: bool)
    ensures
        r == ids@.no_duplicates(),
{
    let mut seen: HashSet<i64> = HashSet::new();
    let mut at: usize = 0;
    while at < ids.len()
        invariant
            at <= ids.len(),
            forall|id: i64|
                #![trigger seen@.contains(id)]
                seen@.contains(id) == (exists|i: int| 0 <= i < at && ids@[i] == id),
            forall|i: int, j: int| 0 <= i < j < at ==> ids@[i] != ids@[j],
        decreases ids.len() - at,
    {
        let id: i64 = ids[at];
        if seen.contains(&id) {
            let ghost i = choose|i: int| 0 <= i < at && ids@[i] == id;
            assert(ids@[i] == ids@[at as int]);
            return false;
        }
        let ghost before = seen@;
        seen.insert(id);
        proof {
            assert forall|other: i64|
                #![trigger seen@.contains(other)]
                seen@.contains(other) == (exists|i: int| 0 <= i < at + 1 && ids@[i] == other) by {
                if before.contains(other) {
                    let i = choose|i: int| 0 <= i < at && ids@[i] == other;
                    assert(ids@[i] == other);
                }
                if other == id {
                    assert(ids@[at as int] == other);
                }
                if exists|i: int| 0 <= i < at + 1 && ids@[i] == other {
                    let i = choose|i: int| 0 <= i < at + 1 && ids@[i] == other;
                    if i < at {
                        assert(before.contains(other));
                    }
                }
            }
            assert forall|i: int, j: int| 0 <= i < j < at + 1 implies ids@[i] != ids@[j] by {
                if j == at && ids@[i] == id {
                    assert(before.contains(id));
                }
            }
        }
        at = at + 1;
    }
    true
}

/// A new order is accepted where it names exactly the rows that there are.
pub fn validate_order(existing: &Vec<i64>, order: &Vec<i64>) -> (r: Result<(), &'static str>)
    ensures
        r is Ok == is_order_of(existing@, order@),
        r is Err ==> r->Err_0@ == "The list changed while reordering; try the operation again"@,
{
    let expected = collect(existing);
    let actual = collect(order);
    let agrees = order.len() == existing.len() && are_distinct(order) && all_in(order, &expected)
        && all_in(existing, &actual);
    proof {
        if agrees {
            assert forall|id: i64| order@.contains(id) == existing@.contains(id) by {
                if order@.contains(id) {
                    let i = choose|i: int| 0 <= i < order@.len() && order@[i] == id;
                    assert(expected@.contains(order@[i]));
                }
                if existing@.contains(id) {
                    let i = choose|i: int| 0 <= i < existing@.len() && existing@[i] == id;
                    assert(actual@.contains(existing@[i]));
                }
            }
        } else if is_order_of(existing@, order@) {
            assert forall|i: int| 0 <= i < order@.len() implies expected@.contains(
                #[trigger] order@[i],
            ) by {
                assert(order@.contains(order@[i]));
            }
            assert forall|i: int| 0 <= i < existing@.len() implies actual@.contains(
                #[trigger] existing@[i],
            ) by {
                assert(existing@.contains(existing@[i]));
            }
        }
    }
    if agrees {
        Ok(())
    } else {
        Err("The list changed while reordering; try the operation again")
    }
}

/// The position behind the last row of a list.
pub fn next_position(last: Option<i64>) -> (r: i64)
    requires
        last is Some ==> last->0 < i64::MAX,
    ensures
        r == (match last {
            Some(last) => last + 1,
            None => 0,
        }),
{
    match last {
        Some(last) => last + 1,
        None => 0,
    }
}

/// A change that names a list is refused once that list is gone.
pub fn require_playlist(exists: bool) -> (r: Result<(), &'static str>)
    ensures
        r is Ok == exists,
        r is Err ==> r->Err_0@ == "The playlist no longer exists"@,
{
    if exists {
        Ok(())
    } else {
        Err("The playlist no longer exists")
    }
}

/// One row of a list.
#[derive(Debug, Clone, Copy, PartialEq, Eq, Structural)]
pub struct Row {
    pub entry: EntryId,
    pub media: i64,
}

/// A row that is to be inserted.
#[derive(Debug, Clone, Copy, PartialEq, Eq, Structural)]
pub struct Insertion {
    pub media: i64,
    pub position: i64,
}

/// The media that a list holds while rows are added to its end.
#[derive(Debug)]
pub struct Appending {
    pub present: HashSet<i64>,
    pub next: i64,
    pub added: u64,
    pub merged: u64,
    pub rejected: u64,
}

impl Appending {
    pub fn new(present: HashSet<i64>, next: i64) -> (r: Self)
        ensures
            r.present@ == present@,
            r.next == next,
            r.added == 0 && r.merged == 0 && r.rejected == 0,
    {
        Appending { present, next, added: 0, merged: 0, rejected: 0 }
    }

    /// There is room to count on.
    pub open spec fn has_room(&self) -> bool {
        self.next < i64::MAX && self.added < u64::MAX && self.merged < u64::MAX && self.rejected
            < u64::MAX
    }

    /// Adds a media to the end of the list, unless the list holds it already.
    pub fn offer(&mut self, media: i64) -> (r: Option<Insertion>)
        requires
            old(self).has_room(),
        ensures
            final(self).rejected == old(self).rejected,
            if old(self).present@.contains(media) {
                &&& r is None
                &&& final(self).present@ == old(self).present@
                &&& final(self).next == old(self).next
                &&& final(self).added == old(self).added
                &&& final(self).merged == old(self).merged + 1
            } else {
                &&& r == Some(Insertion { media, position: old(self).next })
                &&& final(self).present@ == old(self).present@.insert(media)
                &&& final(self).next == old(self).next + 1
                &&& final(self).added == old(self).added + 1
                &&& final(self).merged == old(self).merged
            },
    {
        if self.present.contains(&media) {
            self.merged = self.merged + 1;
            return None;
        }
        self.present.insert(media);
        let position: i64 = self.next;
        self.next = self.next + 1;
        self.added = self.added + 1;
        Some(Insertion { media, position })
    }

    /// Counts a path that no media can be made of.
    pub fn reject(&mut self)
        requires
            old(self).has_room(),
        ensures
            final(self).rejected == old(self).rejected + 1,
            final(self).present@ == old(self).present@,
            final(self).next == old(self).next,
            final(self).added == old(self).added,
            final(self).merged == old(self).merged,
    {
        self.rejected = self.rejected + 1;
    }

    /// What is said of an addition.
    pub fn added_text(&self) -> (r: String)
        ensures
            r@ == "Added "@ + decimal(self.added as nat) + " · duplicates "@ + decimal(
                self.merged as nat,
            ) + " · rejected "@ + decimal(self.rejected as nat),
    {
        let mut out = "Added ".to_owned();
        push_decimal(&mut out, self.added);
        out.append(" · duplicates ");
        push_decimal(&mut out, self.merged);
        out.append(" · rejected ");
        push_decimal(&mut out, self.rejected);
        out
    }

    /// What is said of a transfer.
    pub fn transferred_text(&self, remove: bool) -> (r: String)
        ensures
            r@ == (if remove {
                "Moved"@
            } else {
                "Copied"@
            }) + " "@ + decimal(self.added as nat) + " · merged "@ + decimal(self.merged as nat),
    {
        let mut out = if remove {
            "Moved".to_owned()
        } else {
            "Copied".to_owned()
        };
        out.append(" ");
        push_decimal(&mut out, self.added);
        out.append(" · merged ");
        push_decimal(&mut out, self.merged);
        out
    }
}

/// What is said of a removal.
pub fn removed_text(count: u64) -> (r: String)
    ensures
        r@ == "Removed "@ + decimal(count as nat) + " entries; media files were kept"@,
{
    let mut out = "Removed ".to_owned();
    push_decimal(&mut out, count);
    out.append(" entries; media files were kept");
    out
}

/// The rows that a transfer is about, in their order.
pub open spec fn chosen_rows(rows: Seq<Row>, selected: Set<i64>) -> Seq<Row> {
    rows.filter(|row: Row| selected.contains(row.entry.0))
}

/// The target of a transfer once some rows were offered to it.
#[verifier::ext_equal]
pub struct Transferred {
    pub present: Set<i64>,
    pub insertions: Seq<Insertion>,
    pub merged: nat,
}

/// Each row is added to the end of the target, unless its media is there.
pub open spec fn offered(rows: Seq<Row>, present: Set<i64>, next: int) -> Transferred
    decreases rows.len(),
{
    if rows.len() == 0 {
        Transferred { present, insertions: Seq::empty(), merged: 0 }
    } else {
        let before = offered(rows.drop_last(), present, next);
        let media = rows.last().media;
        if before.present.contains(media) {
            Transferred { merged: before.merged + 1, ..before }
        } else {
            Transferred {
                present: before.present.insert(media),
                insertions: before.insertions.push(
                    Insertion { media, position: (next + before.insertions.len()) as i64 },
                ),
                ..before
            }
        }
    }
}

/// What a transfer does: rows for the target, and rows that leave the source.
#[derive(Debug)]
pub struct TransferPlan {
    pub insertions: Vec<Insertion>,
    pub removals: Vec<EntryId>,
    pub message: String,
}

pub open spec fn transfer_refusal(
    from: PlaylistId,
    to: PlaylistId,
    from_exists: bool,
    to_exists: bool,
) -> Option<Seq<char>> {
    if from == to {
        Some("Choose a different destination playlist"@)
    } else if !from_exists || !to_exists {
        Some("The playlist no longer exists"@)
    } else {
        None
    }
}

/// Why a transfer is refused, if it is.
pub fn check_transfer(from: PlaylistId, to: PlaylistId, from_exists: bool, to_exists: bool) -> (r:
    Result<(), &'static str>)
    ensures
        match r {
            Ok(_) => transfer_refusal(from, to, from_exists, to_exists) is None,
            Err(message) => transfer_refusal(from, to, from_exists, to_exists) == Some(message@),
        },
{
    if from == to {
        return Err("Choose a different destination playlist");
    }
    if !from_exists || !to_exists {
        return Err("The playlist no longer exists");
    }
    Ok(())
}

/// Plans a transfer: `rows` are those of the source, `present` the media of the
/// target, and `next` the position behind its last row.
pub fn plan_transfer(
    rows: &Vec<Row>,
    selected: &HashSet<i64>,
    present: HashSet<i64>,
    next: i64,
    remove: bool,
) -> (r: TransferPlan)
    requires
        next + rows@.len() < i64::MAX,
    ensures
        ({
            let chosen = chosen_rows(rows@, selected@);
            let outcome = offered(chosen, present@, next as int);
            &&& r.insertions@ == outcome.insertions
            &&& r.removals@ == (if remove {
                chosen.map_values(|row: Row| row.entry)
            } else {
                Seq::empty()
            })
            &&& r.message@ == (if remove {
                "Moved"@
            } else {
                "Copied"@
            }) + " "@ + decimal(outcome.insertions.len()) + " · merged "@ + decimal(outcome.merged)
        }),
{
    let ghost wanted = |row: Row| selected@.contains(row.entry.0);
    let ghost first = present@;
    let mut state = Appending::new(present, next);
    let mut insertions: Vec<Insertion> = Vec::new();
    let mut removals: Vec<EntryId> = Vec::new();
    let mut at: usize = 0;
    proof {
        reveal(Seq::filter);
        assert(rows@.take(0) =~= Seq::<Row>::empty());
    }
    while at < rows.len()
        invariant
            at <= rows.len(),
            next + rows@.len() < i64::MAX,
            wanted == (|row: Row| selected@.contains(row.entry.0)),
            ({
                let chosen = rows@.take(at as int).filter(wanted);
                let outcome = offered(chosen, first, next as int);
                &&& chosen.len() <= at
                &&& insertions@ == outcome.insertions
                &&& outcome.insertions.len() + outcome.merged == chosen.len()
                &&& state.present@ == outcome.present
                &&& state.next == next + outcome.insertions.len()
                &&& state.added == outcome.insertions.len()
                &&& state.merged == outcome.merged
                &&& state.rejected == 0
                &&& removals@ == (if remove {
                    chosen.map_values(|row: Row| row.entry)
                } else {
                    Seq::empty()
                })
            }),
        decreases rows.len() - at,
    {
        let row = rows[at];
        let ghost before = rows@.take(at as int).filter(wanted);
        proof {
            reveal(Seq::filter);
            let so_far = rows@.take(at + 1);
            assert(so_far.last() == row);
            assert(so_far.drop_last() =~= rows@.take(at as int));
        }
        if selected.contains(&row.entry.0) {
            let ghost chosen = before.push(row);
            proof {
                assert(rows@.take(at + 1).filter(wanted) == chosen);
                assert(chosen.last() == row);
                assert(chosen.drop_last() =~= before);
            }
            if let Some(insertion) = state.offer(row.media) {
                insertions.push(insertion);
            }
            if remove {
                removals.push(row.entry);
                assert(removals@ =~= chosen.map_values(|row: Row| row.entry));
            }
        }
        at = at + 1;
    }
    assert(rows@.take(at as int) =~= rows@);
    let message = state.transferred_text(remove);
    TransferPlan { insertions, removals, message }
}

/// A library item keeps its identity: a place that another item has is refused.
pub fn check_relocation(taken: bool) -> (r: Result<&'static str, &'static str>)
    ensures
        r is Ok == !taken,
        match r {
            Ok(message) => message@ == "Media location updated in every playlist"@,
            Err(message) => message@
                == "That file is already a different library item; copy the existing item into the desired lists instead"@,
        },
{
    if taken {
        Err(
            "That file is already a different library item; copy the existing item into the desired lists instead",
        )
    } else {
        Ok("Media location updated in every playlist")
    }
}

/// One part of a path.
#[derive(Debug, Clone, Copy, PartialEq, Eq, Structural)]
pub enum PathPart {
    /// A root or a prefix.
    Anchor,
    Current,
    Parent,
    Name,
}

/// The parts that remain, by their number: `.` leaves nothing, and `..` takes
/// back the name before it. Nothing is taken from an anchor.
pub open spec fn normal_parts(parts: Seq<PathPart>) -> Seq<usize>
    decreases parts.len(),
{
    if parts.len() == 0 {
        Seq::empty()
    } else {
        let rest = normal_parts(parts.drop_last());
        match parts.last() {
            PathPart::Current => rest,
            PathPart::Parent => if rest.len() > 0 && parts[rest.last() as int] is Name {
                rest.drop_last()
            } else {
                rest
            },
            _ => rest.push((parts.len() - 1) as usize),
        }
    }
}

proof fn lemma_normal_parts(parts: Seq<PathPart>)
    requires
        parts.len() <= usize::MAX,
    ensures
        forall|i: int|
            0 <= i < normal_parts(parts).len() ==> (#[trigger] normal_parts(parts)[i])
                < parts.len() && (parts[normal_parts(parts)[i] as int] is Name
                || parts[normal_parts(parts)[i] as int] is Anchor),
    decreases parts.len(),
{
    if parts.len() > 0 {
        let front = parts.drop_last();
        lemma_normal_parts(front);
        let all = normal_parts(parts);
        assert forall|i: int| 0 <= i < all.len() implies (#[trigger] all[i]) < parts.len() && (
        parts[all[i] as int] is Name || parts[all[i] as int] is Anchor) by {
            if i < normal_parts(front).len() {
                assert(all[i] == normal_parts(front)[i]);
                assert(front[all[i] as int] == parts[all[i] as int]);
            }
        }
    }
}

/// Writes a path without `.` and `..`, where it could not be resolved on disk.
pub fn normalize_parts(parts: &Vec<PathPart>) -> (r: Vec<usize>)
    ensures
        r@ == normal_parts(parts@),
{
    let mut kept: Vec<usize> = Vec::new();
    let mut at: usize = 0;
    while at < parts.len()
        invariant
            at <= parts.len(),
            kept@ == normal_parts(parts@.take(at as int)),
        decreases parts.len() - at,
    {
        let part = parts[at];
        proof {
            let so_far = parts@.take(at + 1);
            assert(so_far.last() == part);
            assert(so_far.drop_last() =~= parts@.take(at as int));
            lemma_normal_parts(parts@.take(at as int));
            if kept@.len() > 0 {
                let last = kept@[kept@.len() - 1];
                assert(last < at);
                assert(so_far[last as int] == parts@[last as int]);
                assert(parts@.take(at as int)[last as int] == parts@[last as int]);
            }
        }
        match part {
            PathPart::Current => {},
            PathPart::Parent => {
                if kept.len() > 0 {
                    let last: usize = kept[kept.len() - 1];
                    if matches!(parts[last], PathPart::Name) {
                        let _ = kept.pop();
                    }
                }
            },
            PathPart::Anchor | PathPart::Name => {
                kept.push(at);
            },
        }
        at = at + 1;
    }
    assert(parts@.take(at as int) =~= parts@);
    kept
}

/// A normal path leads through names and anchors only.
pub proof fn a_normal_path_leads_straight(parts: Seq<PathPart>, i: int)
    requires
        parts.len() <= usize::MAX,
        0 <= i < normal_parts(parts).len(),
    ensures
        normal_parts(parts)[i] < parts.len(),
        !(parts[normal_parts(parts)[i] as int] is Current),
        !(parts[normal_parts(parts)[i] as int] is Parent),
{
    lemma_normal_parts(parts);
}

/// The session once a change was made, within the same transaction.
pub open spec fn repaired_session(
    session: SessionState,
    old_list: Option<&PlaylistSnapshot>,
    new_list: Option<&PlaylistSnapshot>,
    browse_exists: bool,
    first_playlist: Option<PlaylistId>,
) -> SessionState {
    SessionState {
        cursor: match session.cursor {
            Some(cursor) => Some(relocated(cursor.reconciled(old_list, new_list), new_list)),
            None => None,
        },
        browse: if session.browse is Some && !browse_exists {
            first_playlist
        } else {
            session.browse
        },
        ..session
    }
}

/// A cursor that is still a member takes the place of its media from the list.
pub open spec fn relocated(
    cursor: PlaybackCursor,
    list: Option<&PlaylistSnapshot>,
) -> PlaybackCursor {
    if cursor.attached && list is Some && list->0.holds(cursor.entry.id) {
        let place = crate::playlist::place_of(list->0.entries@, cursor.entry.id.0)->0;
        PlaybackCursor {
            entry: crate::playlist::Entry {
                source: list->0.entries@[place].source,
                ..cursor.entry
            },
            ..cursor
        }
    } else {
        cursor
    }
}

/// Repairs the session along with a change of the list that is being played.
pub fn repair_session(
    session: SessionState,
    old_list: Option<&PlaylistSnapshot>,
    new_list: Option<&PlaylistSnapshot>,
    browse_exists: bool,
    first_playlist: Option<PlaylistId>,
) -> (r: SessionState)
    requires
        old_list is Some ==> old_list->0.wf(),
        new_list is Some ==> new_list->0.wf(),
    ensures
        r == repaired_session(session, old_list, new_list, browse_exists, first_playlist),
{
    let mut session = session;
    let cursor = match session.cursor {
        Some(cursor) => {
            let mut cursor = cursor;
            cursor.reconcile(old_list, new_list);
            if cursor.attached {
                if let Some(list) = new_list {
                    if let Some(entry) = list.entry(cursor.entry.id) {
                        cursor.entry.source = entry.source.dup();
                    }
                }
            }
            Some(cursor)
        },
        None => None,
    };
    session.cursor = cursor;
    if session.browse.is_some() && !browse_exists {
        session.browse = first_playlist;
    }
    session
}

/// The session that a checkpoint leaves. A checkpoint may have been made before
/// its maker learned of a deletion: the cursor that the deletion repaired stays.
pub open spec fn checkpointed(
    state: SessionState,
    membership: Option<PlaylistId>,
    stored: Option<PlaybackCursor>,
    list: Option<&PlaylistSnapshot>,
) -> SessionState {
    match state.cursor {
        None => state,
        Some(cursor) => if membership == cursor.playlist && cursor.attached {
            state
        } else if stored is Some && stored->0.entry.id == cursor.entry.id && !stored->0.attached {
            SessionState { cursor: stored, ..state }
        } else if cursor.attached {
            SessionState { cursor: Some(cursor.reconciled(None, list)), ..state }
        } else {
            state
        },
    }
}

/// Makes a checkpoint. `membership` is the list that holds the entry of the
/// cursor, `stored` the cursor that is stored, and `list` the cursor's own list.
pub fn checkpoint(
    state: SessionState,
    membership: Option<PlaylistId>,
    stored: Option<PlaybackCursor>,
    list: Option<&PlaylistSnapshot>,
) -> (r: SessionState)
    requires
        list is Some ==> list->0.wf(),
    ensures
        r == checkpointed(state, membership, stored, list),
{
    let mut state = state;
    let cursor = match state.cursor {
        None => None,
        Some(cursor) => {
            let mut cursor = cursor;
            let member = match (membership, cursor.playlist) {
                (Some(a), Some(b)) => a == b,
                (None, None) => true,
                _ => false,
            };
            if !member || !cursor.attached {
                match stored {
                    Some(repaired) if repaired.entry.id == cursor.entry.id
                        && !repaired.attached => {
                        cursor = repaired;
                    },
                    _ => {
                        if cursor.attached {
                            cursor.reconcile(None, list);
                        }
                    },
                }
            }
            Some(cursor)
        },
    };
    state.cursor = cursor;
    state
}

/// A checkpoint that was made before a deletion was known does not undo the
/// repair that the deletion made.
pub proof fn a_stale_checkpoint_keeps_the_repaired_cursor(
    state: SessionState,
    stored: PlaybackCursor,
    membership: Option<PlaylistId>,
    list: Option<&PlaylistSnapshot>,
)
    requires
        state.cursor is Some,
        membership != state.cursor->0.playlist,
        stored.entry.id == state.cursor->0.entry.id,
        !stored.attached,
    ensures
        checkpointed(state, membership, Some(stored), list).cursor == Some(stored),
        checkpointed(state, membership, Some(stored), list).frame == state.frame,
{
}

/// A checkpoint of a member is stored as it is.
pub proof fn a_current_checkpoint_is_stored_as_it_is(
    state: SessionState,
    stored: Option<PlaybackCursor>,
    list: Option<&PlaylistSnapshot>,
)
    requires
        state.cursor is Some,
        state.cursor->0.attached,
    ensures
        checkpointed(state, state.cursor->0.playlist, stored, list) == state,
{
}

proof fn lemma_offered(rows: Seq<Row>, present: Set<i64>, next: int)
    ensures
        ({
            let outcome = offered(rows, present, next);
            &&& outcome.insertions.len() + outcome.merged == rows.len()
            &&& present.subset_of(outcome.present)
            &&& forall|i: int|
                0 <= i < rows.len() ==> outcome.present.contains((#[trigger] rows[i]).media)
            &&& forall|i: int|
                0 <= i < outcome.insertions.len() ==> !present.contains(
                    (#[trigger] outcome.insertions[i]).media,
                ) && outcome.present.contains(outcome.insertions[i].media)
            &&& forall|i: int, j: int|
                0 <= i < j < outcome.insertions.len() ==> (#[trigger] outcome.insertions[i]).media
                    != (#[trigger] outcome.insertions[j]).media
        }),
    decreases rows.len(),
{
    if rows.len() > 0 {
        let front = rows.drop_last();
        lemma_offered(front, present, next);
        let before = offered(front, present, next);
        let outcome = offered(rows, present, next);
        assert forall|i: int| 0 <= i < rows.len() implies outcome.present.contains(
            (#[trigger] rows[i]).media,
        ) by {
            if i < front.len() {
                assert(front[i] == rows[i]);
            }
        }
        assert forall|i: int, j: int| 0 <= i < j < outcome.insertions.len() implies (
        #[trigger] outcome.insertions[i]).media != (#[trigger] outcome.insertions[j]).media by {
            assert(outcome.insertions[i] == before.insertions[i]);
            if j < before.insertions.len() {
                assert(outcome.insertions[j] == before.insertions[j]);
            }
        }
    }
}

/// A transfer never doubles a media in the target: what is inserted was not
/// there, each once, and every chosen media is there afterwards.
pub proof fn a_transfer_deduplicates(rows: Seq<Row>, selected: Set<i64>, present: Set<i64>, next: int)
    ensures
        ({
            let chosen = chosen_rows(rows, selected);
            let outcome = offered(chosen, present, next);
            &&& outcome.insertions.len() + outcome.merged == chosen.len()
            &&& present.subset_of(outcome.present)
            &&& forall|i: int|
                0 <= i < chosen.len() ==> outcome.present.contains((#[trigger] chosen[i]).media)
            &&& forall|i: int|
                0 <= i < outcome.insertions.len() ==> !present.contains(
                    (#[trigger] outcome.insertions[i]).media,
                )
            &&& forall|i: int, j: int|
                0 <= i < j < outcome.insertions.len() ==> (#[trigger] outcome.insertions[i]).media
                    != (#[trigger] outcome.insertions[j]).media
        }),
{
    lemma_offered(chosen_rows(rows, selected), present, next);
}

/// An order is taken exactly where it holds what is there, each once.
pub proof fn an_order_holds_what_is_there_once(existing: Seq<i64>, order: Seq<i64>, i: int, j: int)
    ensures
        is_order_of(existing, order) && 0 <= i < order.len() ==> existing.contains(order[i]),
        is_order_of(existing, order) && 0 <= i < existing.len() ==> order.contains(existing[i]),
        is_order_of(existing, order) && 0 <= i < j < order.len() ==> order[i] != order[j],
        is_order_of(existing, order) ==> order.len() == existing.len(),
        existing.no_duplicates() ==> is_order_of(existing, existing),
{
    if 0 <= i < order.len() {
        assert(order.contains(order[i]));
    }
    if 0 <= i < existing.len() {
        assert(existing.contains(existing[i]));
    }
}

/// What is transferred takes the places from the next one on, one after the other, and
/// everything offered is either inserted or counted as there already.
pub proof fn what_is_transferred_takes_the_next_places(
    rows: Seq<Row>,
    present: Set<i64>,
    next: int,
)
    requires
        0 <= next,
        next + rows.len() < i64::MAX,
    ensures
        ({
            let outcome = offered(rows, present, next);
            &&& outcome.insertions.len() + outcome.merged == rows.len()
            &&& forall|i: int|
                0 <= i < outcome.insertions.len() ==> (
                #[trigger] outcome.insertions[i]).position == next + i
            &&& forall|i: int|
                0 <= i < outcome.insertions.len() ==> !present.contains(
                    (#[trigger] outcome.insertions[i]).media,
                )
            &&& forall|i: int|
                0 <= i < rows.len() ==> outcome.present.contains((#[trigger] rows[i]).media)
            &&& forall|media: i64| #[trigger]
                present.contains(media) ==> outcome.present.contains(media)
        }),
    decreases rows.len(),
{
    if rows.len() > 0 {
        let front = rows.drop_last();
        what_is_transferred_takes_the_next_places(front, present, next);
        let before = offered(front, present, next);
        let outcome = offered(rows, present, next);
        assert forall|i: int| 0 <= i < rows.len() implies outcome.present.contains(
            (#[trigger] rows[i]).media,
        ) by {
            if i < front.len() {
                assert(front[i] == rows[i]);
                assert(before.present.contains(front[i].media));
            }
        }
        assert forall|i: int| 0 <= i < outcome.insertions.len() implies (
        #[trigger] outcome.insertions[i]).position == next + i && !present.contains(
            outcome.insertions[i].media,
        ) by {
            if i < before.insertions.len() {
                assert(outcome.insertions[i] == before.insertions[i]);
            }
        }
    }
}

/// A transfer is refused into the list itself, and where either list is gone; nowhere else.
pub proof fn a_transfer_needs_two_lists(
    from: PlaylistId,
    to: PlaylistId,
    from_exists: bool,
    to_exists: bool,
)
    ensures
        transfer_refusal(from, to, from_exists, to_exists) is None <==> from != to && from_exists
            && to_exists,
{
}

/// Going up leaves the name before it, and staying leaves nothing; names and anchors stay.
pub proof fn a_path_is_made_normal_part_by_part(parts: Seq<PathPart>)
    requires
        parts.len() <= usize::MAX,
    ensures
        normal_parts(parts.push(PathPart::Current)) == normal_parts(parts),
        normal_parts(parts.push(PathPart::Name).push(PathPart::Parent)) == normal_parts(parts),
        normal_parts(parts.push(PathPart::Name)) == normal_parts(parts).push(
            parts.len() as usize,
        ),
        normal_parts(parts.push(PathPart::Anchor)) == normal_parts(parts).push(
            parts.len() as usize,
        ),
        normal_parts(parts).len() == 0 ==> normal_parts(parts.push(PathPart::Parent)).len() == 0,
{
    let named = parts.push(PathPart::Name);
    assert(parts.push(PathPart::Current).drop_last() =~= parts);
    assert(named.drop_last() =~= parts);
    assert(parts.push(PathPart::Anchor).drop_last() =~= parts);
    assert(parts.push(PathPart::Parent).drop_last() =~= parts);
    let up = named.push(PathPart::Parent);
    assert(up.drop_last() =~= named);
    let rest = normal_parts(named);
    assert(rest == normal_parts(parts).push(parts.len() as usize));
    assert(up[rest.last() as int] == PathPart::Name);
    assert(rest.drop_last() =~= normal_parts(parts));
}

/// A session is repaired where its lists changed: what it looks at, where that is gone, and
/// the cursor. Where it stands in its media stays.
pub proof fn a_session_keeps_its_place_in_the_media(
    session: SessionState,
    old_list: Option<&PlaylistSnapshot>,
    new_list: Option<&PlaylistSnapshot>,
    browse_exists: bool,
    first_playlist: Option<PlaylistId>,
)
    ensures
        ({
            let next = repaired_session(
                session,
                old_list,
                new_list,
                browse_exists,
                first_playlist,
            );
            &&& next.frame == session.frame
            &&& next.sample_rate == session.sample_rate
            &&& next.stamp == session.stamp
            &&& browse_exists ==> next.browse == session.browse
            &&& session.browse is Some && !browse_exists ==> next.browse == first_playlist
            &&& session.browse is None ==> next.browse is None
            &&& next.cursor is Some <==> session.cursor is Some
            &&& session.cursor is Some ==> next.cursor->0.entry.id == session.cursor->0.entry.id
                && next.cursor->0.entry.media == session.cursor->0.entry.media
        }),
{
}

/// The entry that plays has the location that its list has for it.
pub proof fn a_playing_entry_has_the_location_of_its_list(
    cursor: PlaybackCursor,
    list: PlaylistSnapshot,
    i: int,
)
    requires
        crate::playlist::distinct(list.entries@),
        0 <= i < list.entries@.len(),
        cursor.entry.id == list.entries@[i].id,
        cursor.attached,
    ensures
        relocated(cursor, Some(&list)).entry.source == list.entries@[i].source,
        relocated(cursor, Some(&list)).entry.id == cursor.entry.id,
        relocated(cursor, Some(&list)).playlist == cursor.playlist,
        relocated(cursor, Some(&list)).attached,
        relocated(cursor, None) == cursor,
{
    crate::playlist::lemma_place_of_distinct(list.entries@, i);
}

/// A database is opened where it is this program's own and of this version, or new.
pub proof fn only_a_library_of_its_own_is_opened(
    version: u32,
    application: u32,
    r: Result<bool, &'static str>,
)
    requires
        call_ensures(check_identity, (version, application), r),
    ensures
        r is Ok <==> version <= 1 && (application == 0 || application == 0x4d41_4334),
        r is Ok ==> (r->Ok_0 <==> version == 0),
{
}

} // verus!
