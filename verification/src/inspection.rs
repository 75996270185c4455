//! What is known of the bitstreams of files, and how their fields read.
use crate::bitstream_ui::Report;
use crate::paths::PathParts;
use vstd::prelude::*;
use vstd::string::*;

verus! {

#[derive(Debug, Clone, Copy, PartialEq, Eq, Structural)]
pub enum FieldStatus {
    Present,
    NotPresent,
    NotApplicable,
    Unknown,
    Unsupported,
}

/// The value of a field. A number and a structured value come with the text
/// that they print as.
#[derive(Debug)]
pub enum FieldValue {
    Text(String),
    Bool(bool),
    /// `whole` is the number where it is a whole one that is not negative.
    Number { text: String, whole: Option<u64> },
    /// `display` is what the value itself wants shown.
    Object { display: Option<String>, text: String },
    Array(String),
    Null,
}

impl FieldValue {
    pub open spec fn shown(self) -> Seq<char> {
        match self {
            FieldValue::Text(text) => text@,
            FieldValue::Bool(value) => if value {
                "True"@
            } else {
                "False"@
            },
            FieldValue::Number { text, .. } => text@,
            FieldValue::Object { display, text } => match display {
                Some(display) => display@,
                None => text@,
            },
            FieldValue::Array(text) => text@,
            FieldValue::Null => "null"@,
        }
    }

    /// The value as text.
    pub fn text(&self) -> (r: String)
        ensures
            r@ == self.shown(),
    {
        match self {
            FieldValue::Text(text) => text.clone(),
            FieldValue::Bool(value) => if *value {
                "True".to_owned()
            } else {
                "False".to_owned()
            },
            FieldValue::Number { text, .. } => text.clone(),
            FieldValue::Object { display, text } => match display {
                Some(display) => display.clone(),
                None => text.clone(),
            },
            FieldValue::Array(text) => text.clone(),
            FieldValue::Null => "null".to_owned(),
        }
    }

    pub open spec fn whole_number(self) -> Option<u64> {
        match self {
            FieldValue::Number { whole, .. } => whole,
            _ => None,
        }
    }

    /// The value where it is a whole number that is not negative.
    pub fn as_u64(&self) -> (r: Option<u64>)
        ensures
            r == self.whole_number(),
    {
        match self {
            FieldValue::Number { whole, .. } => *whole,
            _ => None,
        }
    }
}

/// One field of a report.
#[derive(Debug)]
pub struct ReportedField {
    pub status: FieldStatus,
    pub value: Option<FieldValue>,
    pub unit: Option<String>,
    pub raw_code: Option<FieldValue>,
    pub reason: Option<String>,
}

impl ReportedField {
    /// The value with its unit, and with the code that it was read from where
    /// that is asked for.
    pub open spec fn present_text(self, include_raw: bool) -> Seq<char> {
        (match self.value {
            Some(value) => value.shown(),
            None => "Present"@,
        }) + (match self.unit {
            Some(unit) => " "@ + unit@,
            None => Seq::empty(),
        }) + (match self.raw_code {
            Some(raw) if include_raw => " (raw: "@ + raw.shown() + ")"@,
            _ => Seq::empty(),
        })
    }

    pub open spec fn full_text(self, include_raw: bool) -> Seq<char> {
        match self.status {
            FieldStatus::Present => self.present_text(include_raw),
            FieldStatus::NotPresent => "Not present"@,
            FieldStatus::NotApplicable => "Not applicable"@,
            FieldStatus::Unknown => with_reason("Unknown"@, self.reason),
            FieldStatus::Unsupported => with_reason("Unsupported"@, self.reason),
        }
    }

    pub open spec fn summary_text(self) -> Seq<char> {
        match self.status {
            FieldStatus::Present => self.present_text(false),
            FieldStatus::NotPresent => "Not present"@,
            FieldStatus::NotApplicable => "Not applicable"@,
            FieldStatus::Unknown => "Unknown"@,
            FieldStatus::Unsupported => "Unsupported"@,
        }
    }
}

pub open spec fn with_reason(label: Seq<char>, reason: Option<String>) -> Seq<char> {
    match reason {
        Some(reason) => label + ": "@ + reason@,
        None => label,
    }
}

fn present_field_text(field: &ReportedField, include_raw: bool) -> (r: String)
    ensures
        r@ == field.present_text(include_raw),
{
    let mut text = match &field.value {
        Some(value) => value.text(),
        None => "Present".to_owned(),
    };
    let ghost value = text@;
    if let Some(unit) = &field.unit {
        text.append(" ");
        text.append(unit.as_str());
        assert(text@ =~= value + (" "@ + unit@));
    } else {
        assert(value + Seq::<char>::empty() =~= value);
    }
    let ghost with_unit = text@;
    if include_raw {
        if let Some(raw) = &field.raw_code {
            text.append(" (raw: ");
            let code = raw.text();
            text.append(code.as_str());
            text.append(")");
            assert(text@ =~= with_unit + (" (raw: "@ + raw.shown() + ")"@));
            return text;
        }
    }
    assert(with_unit + Seq::<char>::empty() =~= with_unit);
    text
}

fn unavailable_field_text(label: &str, reason: &Option<String>) -> (r: String)
    ensures
        r@ == with_reason(label@, *reason),
{
    let mut text = label.to_owned();
    if let Some(reason) = reason {
        text.append(": ");
        text.append(reason.as_str());
    }
    text
}

/// A field in full.
pub fn field_text(field: &ReportedField, include_raw: bool) -> (r: String)
    ensures
        r@ == field.full_text(include_raw),
{
    match field.status {
        FieldStatus::Present => present_field_text(field, include_raw),
        FieldStatus::NotPresent => "Not present".to_owned(),
        FieldStatus::NotApplicable => "Not applicable".to_owned(),
        FieldStatus::Unknown => unavailable_field_text("Unknown", &field.reason),
        FieldStatus::Unsupported => unavailable_field_text("Unsupported", &field.reason),
    }
}

/// A field in short.
pub fn field_summary_text(field: &ReportedField) -> (r: String)
    ensures
        r@ == field.summary_text(),
{
    match field.status {
        FieldStatus::Present => present_field_text(field, false),
        FieldStatus::NotPresent => "Not present".to_owned(),
        FieldStatus::NotApplicable => "Not applicable".to_owned(),
        FieldStatus::Unknown => "Unknown".to_owned(),
        FieldStatus::Unsupported => "Unsupported".to_owned(),
    }
}

#[derive(Debug)]
pub struct InspectionSnapshot {
    pub report: Report,
    pub full_text: String,
}

#[derive(Debug)]
pub enum InspectionState {
    Pending,
    Ready(InspectionSnapshot),
    Failed(String),
}

/// What is known of the file at a path. Two paths are one where their components are the
/// same, however they were spelled.
#[derive(Debug)]
pub struct Inspection {
    pub path: PathParts,
    pub state: InspectionState,
}

#[derive(Debug)]
pub struct InspectionController {
    /// There is a worker to ask.
    pub available: bool,
    pub states: Vec<Inspection>,
    pub startup_error: Option<String>,
}

/// The state of a path, if it was asked for.
pub open spec fn state_of(states: Seq<Inspection>, path: Seq<Seq<u8>>) -> Option<InspectionState>
    decreases states.len(),
{
    if states.len() == 0 {
        None
    } else if states.last().path@ == path {
        Some(states.last().state)
    } else {
        state_of(states.drop_last(), path)
    }
}

proof fn lemma_state_of(states: Seq<Inspection>, path: Seq<Seq<u8>>)
    ensures
        state_of(states, path) is None <==> forall|i: int|
            0 <= i < states.len() ==> (#[trigger] states[i]).path@ != path,
    decreases states.len(),
{
    if states.len() > 0 {
        let front = states.drop_last();
        lemma_state_of(front, path);
        if states.last().path@ == path {
            assert(states[states.len() - 1].path@ == path);
        } else if state_of(front, path) is None {
            assert forall|i: int| 0 <= i < states.len() implies (#[trigger] states[i]).path@
                != path by {
                if i < front.len() {
                    assert(front[i] == states[i]);
                }
            }
        } else {
            let i = choose|i: int| 0 <= i < front.len() && (#[trigger] front[i]).path@ == path;
            assert(states[i].path@ == path);
        }
    }
}

/// Each path is there once.
pub open spec fn distinct(states: Seq<Inspection>) -> bool {
    forall|i: int, j: int|
        0 <= i < j < states.len() ==> (#[trigger] states[i]).path@ != (#[trigger] states[j]).path@
}

proof fn lemma_state_at(states: Seq<Inspection>, at: int)
    requires
        distinct(states),
        0 <= at < states.len(),
    ensures
        state_of(states, states[at].path@) == Some(states[at].state),
    decreases states.len(),
{
    if at < states.len() - 1 {
        let front = states.drop_last();
        assert(states[at].path@ != states[states.len() - 1].path@);
        assert forall|i: int, j: int| 0 <= i < j < front.len() implies (#[trigger] front[i]).path@
            != (#[trigger] front[j]).path@ by {
            assert(front[i] == states[i] && front[j] == states[j]);
        }
        lemma_state_at(front, at);
    }
}

/// The states are those of before, but for one path.
pub open spec fn has_set(
    before: Seq<Inspection>,
    path: Seq<Seq<u8>>,
    state: Option<InspectionState>,
    after: Seq<Inspection>,
) -> bool {
    &&& distinct(after)
    &&& forall|other: Seq<Seq<u8>>|
        #[trigger] state_of(after, other) == (if other == path {
            state
        } else {
            state_of(before, other)
        })
}

fn find(states: &Vec<Inspection>, path: &PathParts) -> (r: Option<usize>)
    ensures
        match r {
            Some(at) => at < states.len() && states@[at as int].path@ == path@,
            None => state_of(states@, path@) is None,
        },
{
    let mut at: usize = 0;
    while at < states.len()
        invariant
            at <= states.len(),
            forall|i: int| 0 <= i < at ==> (#[trigger] states@[i]).path@ != path@,
        decreases states.len() - at,
    {
        if states[at].path.same(path) {
            return Some(at);
        }
        at = at + 1;
    }
    proof {
        lemma_state_of(states@, path@);
    }
    None
}

fn put(states: &mut Vec<Inspection>, path: PathParts, state: InspectionState)
    requires
        distinct(old(states)@),
    ensures
        has_set(old(states)@, path@, Some(state), final(states)@),
{
    let ghost before = states@;
    match find(states, &path) {
        Some(at) => {
            states.set(at, Inspection { path, state });
            proof {
                let after = states@;
                assert forall|i: int, j: int| 0 <= i < j < after.len() implies (
                #[trigger] after[i]).path@ != (#[trigger] after[j]).path@ by {
                    assert(before[i].path@ != before[j].path@);
                }
                lemma_state_at(after, at as int);
                assert forall|other: Seq<Seq<u8>>| other != path@ implies #[trigger] state_of(
                    after,
                    other,
                ) == state_of(before, other) by {
                    lemma_elsewhere(before, after, at as int, other);
                }
            }
        },
        None => {
            proof {
                lemma_state_of(before, path@);
            }
            states.push(Inspection { path, state });
            proof {
                let after = states@;
                assert(after.drop_last() =~= before);
                assert forall|i: int, j: int| 0 <= i < j < after.len() implies (
                #[trigger] after[i]).path@ != (#[trigger] after[j]).path@ by {
                    assert(after[i] == before[i]);
                    if j < before.len() {
                        assert(after[j] == before[j]);
                    }
                }
            }
        },
    }
}

proof fn lemma_elsewhere(
    before: Seq<Inspection>,
    after: Seq<Inspection>,
    at: int,
    other: Seq<Seq<u8>>,
)
    requires
        0 <= at < before.len(),
        after.len() == before.len(),
        before[at].path@ == after[at].path@,
        before[at].path@ != other,
        forall|i: int| 0 <= i < before.len() && i != at ==> #[trigger] after[i] == before[i],
    ensures
        state_of(after, other) == state_of(before, other),
    decreases before.len(),
{
    let last = before.len() - 1;
    if at < last {
        assert(after[last] == before[last]);
        let b = before.drop_last();
        let a = after.drop_last();
        assert forall|i: int| 0 <= i < b.len() && i != at implies #[trigger] a[i] == b[i] by {
            assert(after[i] == before[i]);
        }
        lemma_elsewhere(b, a, at, other);
    } else {
        assert(before.drop_last() =~= after.drop_last()) by {
            assert forall|i: int| 0 <= i < last implies before[i] == after[i] by {
                assert(after[i] == before[i]);
            }
        }
    }
}

fn take_out(states: &mut Vec<Inspection>, path: &PathParts)
    requires
        distinct(old(states)@),
    ensures
        has_set(old(states)@, path@, None, final(states)@),
{
    let ghost before = states@;
    match find(states, path) {
        Some(at) => {
            let _ = states.remove(at);
            proof {
                lemma_removed(before, at as int);
            }
        },
        None => {},
    }
}

proof fn lemma_removed(before: Seq<Inspection>, at: int)
    requires
        distinct(before),
        0 <= at < before.len(),
    ensures
        has_set(before, before[at].path@, None, before.remove(at)),
    decreases before.len(),
{
    let after = before.remove(at);
    let path = before[at].path@;
    assert forall|i: int, j: int| 0 <= i < j < after.len() implies (#[trigger] after[i]).path@ != (
    #[trigger] after[j]).path@ by {
        let a = if i < at {
            i
        } else {
            i + 1
        };
        let b = if j < at {
            j
        } else {
            j + 1
        };
        assert(before[a].path@ != before[b].path@);
    }
    assert forall|i: int| 0 <= i < after.len() implies (#[trigger] after[i]).path@ != path by {
        if i < at {
            assert(before[i].path@ != before[at].path@);
        } else {
            assert(before[at].path@ != before[i + 1].path@);
        }
    }
    lemma_state_of(after, path);
    assert forall|other: Seq<Seq<u8>>| other != path implies #[trigger] state_of(after, other)
        == state_of(before, other) by {
        lemma_state_without(before, at, other);
    }
}

proof fn lemma_state_without(before: Seq<Inspection>, at: int, other: Seq<Seq<u8>>)
    requires
        0 <= at < before.len(),
        before[at].path@ != other,
    ensures
        state_of(before.remove(at), other) == state_of(before, other),
    decreases before.len(),
{
    let after = before.remove(at);
    if at < before.len() - 1 {
        let front = before.drop_last();
        assert(after.last() == before.last());
        assert(after.drop_last() =~= front.remove(at));
        lemma_state_without(front, at, other);
    } else {
        assert(after =~= before.drop_last());
    }
}

impl InspectionController {
    pub open spec fn wf(&self) -> bool {
        distinct(self.states@)
    }

    pub open spec fn knows(&self, path: Seq<Seq<u8>>) -> Option<InspectionState> {
        state_of(self.states@, path)
    }

    /// A controller whose worker was started, or could not be.
    pub fn new(worker: Result<(), String>) -> (r: Self)
        ensures
            r.wf(),
            r.states@.len() == 0,
            r.available == worker is Ok,
            match worker {
                Ok(_) => r.startup_error is None,
                Err(error) => r.startup_error is Some && r.startup_error->0@
                    == "Failed to start inspection worker: "@ + error@,
            },
    {
        match worker {
            Ok(_) => InspectionController {
                available: true,
                states: Vec::new(),
                startup_error: None,
            },
            Err(error) => {
                let mut text = "Failed to start inspection worker: ".to_owned();
                text.append(error.as_str());
                InspectionController {
                    available: false,
                    states: Vec::new(),
                    startup_error: Some(text),
                }
            },
        }
    }

    /// What is said where nothing can be asked.
    pub open spec fn unavailable(&self) -> Seq<char> {
        match self.startup_error {
            Some(error) => error@,
            None => "Inspection worker is unavailable"@,
        }
    }

    /// Asks for a path once. The result says whether the worker is to be asked.
    pub fn ensure_requested(&mut self, path: PathParts) -> (r: bool)
        requires
            old(self).wf(),
        ensures
            final(self).wf(),
            final(self).available == old(self).available,
            final(self).startup_error == old(self).startup_error,
            r == (old(self).knows(path@) is None && old(self).available),
            if old(self).knows(path@) is Some {
                final(self).states@ == old(self).states@
            } else {
                &&& final(self).knows(path@) is Some
                &&& has_set(
                    old(self).states@,
                    path@,
                    final(self).knows(path@),
                    final(self).states@,
                )
                &&& old(self).available ==> final(self).knows(path@) == Some(
                    InspectionState::Pending,
                )
                &&& !old(self).available ==> final(self).knows(path@)->0 is Failed
                    && final(self).knows(path@)->0->Failed_0@ == old(self).unavailable()
            },
    {
        if let Some(at) = find(&self.states, &path) {
            proof {
                lemma_state_at(self.states@, at as int);
            }
            return false;
        }
        if !self.available {
            let error = match &self.startup_error {
                Some(error) => error.clone(),
                None => "Inspection worker is unavailable".to_owned(),
            };
            put(&mut self.states, path, InspectionState::Failed(error));
            return false;
        }
        put(&mut self.states, path, InspectionState::Pending);
        true
    }

    /// Records that the worker could not be asked.
    pub fn stopped(&mut self, path: PathParts)
        requires
            old(self).wf(),
        ensures
            final(self).wf(),
            final(self).available == old(self).available,
            final(self).startup_error == old(self).startup_error,
            final(self).knows(path@) is Some,
            final(self).knows(path@)->0 is Failed,
            final(self).knows(path@)->0->Failed_0@ == "Inspection worker stopped unexpectedly"@,
            has_set(old(self).states@, path@, final(self).knows(path@), final(self).states@),
    {
        put(
            &mut self.states,
            path,
            InspectionState::Failed("Inspection worker stopped unexpectedly".to_owned()),
        );
    }

    /// Asks for a path again, whatever is known of it.
    pub fn retry(&mut self, path: PathParts) -> (r: bool)
        requires
            old(self).wf(),
        ensures
            final(self).wf(),
            final(self).available == old(self).available,
            final(self).startup_error == old(self).startup_error,
            r == old(self).available,
            final(self).knows(path@) is Some,
            has_set(old(self).states@, path@, final(self).knows(path@), final(self).states@),
            old(self).available ==> final(self).knows(path@) == Some(InspectionState::Pending),
            !old(self).available ==> final(self).knows(path@)->0 is Failed
                && final(self).knows(path@)->0->Failed_0@ == old(self).unavailable(),
    {
        take_out(&mut self.states, &path);
        let ghost without = self.states@;
        let asked = self.ensure_requested(path);
        proof {
            assert forall|other: Seq<Seq<u8>>| #[trigger] state_of(self.states@, other) == (if other
                == path@ {
                self.knows(path@)
            } else {
                state_of(old(self).states@, other)
            }) by {
                assert(state_of(without, other) == (if other == path@ {
                    None
                } else {
                    state_of(old(self).states@, other)
                }));
            }
        }
        asked
    }

    /// Takes in one result. A path that is no longer wanted stays unknown.
    pub fn receive(&mut self, path: PathParts, result: Result<InspectionSnapshot, String>)
        requires
            old(self).wf(),
        ensures
            final(self).wf(),
            final(self).available == old(self).available,
            final(self).startup_error == old(self).startup_error,
            if old(self).knows(path@) is None {
                final(self).states@ == old(self).states@
            } else {
                has_set(
                    old(self).states@,
                    path@,
                    Some(
                        match result {
                            Ok(snapshot) => InspectionState::Ready(snapshot),
                            Err(error) => InspectionState::Failed(error),
                        },
                    ),
                    final(self).states@,
                )
            },
    {
        match find(&self.states, &path) {
            None => {
                return ;
            },
            Some(at) => {
                proof {
                    lemma_state_at(self.states@, at as int);
                }
            },
        }
        let state = match result {
            Ok(snapshot) => InspectionState::Ready(snapshot),
            Err(error) => InspectionState::Failed(error),
        };
        put(&mut self.states, path, state);
    }

    pub fn state(&self, path: &PathParts) -> (r: Option<&InspectionState>)
        requires
            self.wf(),
        ensures
            match r {
                Some(state) => self.knows(path@) == Some(*state),
                None => self.knows(path@) is None,
            },
    {
        match find(&self.states, path) {
            Some(at) => {
                proof {
                    lemma_state_at(self.states@, at as int);
                }
                Some(&self.states[at].state)
            },
            None => None,
        }
    }

    /// Forgets every path but these.
    pub fn retain_paths(&mut self, paths: &Vec<PathParts>)
        requires
            old(self).wf(),
        ensures
            final(self).wf(),
            final(self).available == old(self).available,
            final(self).startup_error == old(self).startup_error,
            final(self).states@ == old(self).states@.filter(
                |entry: Inspection| is_one_of(paths@, entry.path@),
            ),
    {
        let ghost before = self.states@;
        let ghost wanted = |entry: Inspection| is_one_of(paths@, entry.path@);
        let mut kept: Vec<Inspection> = Vec::new();
        let ghost mut taken: int = 0;
        proof {
            reveal(Seq::filter);
            assert(before.take(0) =~= Seq::<Inspection>::empty());
            assert(before.skip(0) =~= before);
        }
        while self.states.len() > 0
            invariant
                0 <= taken <= before.len(),
                self.states@ == before.skip(taken),
                self.available == old(self).available,
                self.startup_error == old(self).startup_error,
                wanted == (|entry: Inspection| is_one_of(paths@, entry.path@)),
                kept@ == before.take(taken).filter(wanted),
            decreases self.states.len(),
        {
            let entry = self.states.remove(0);
            proof {
                reveal(Seq::filter);
                assert(before.skip(taken)[0] == before[taken]);
                let so_far = before.take(taken + 1);
                assert(so_far.last() == entry);
                assert(so_far.drop_last() =~= before.take(taken));
                assert(self.states@ =~= before.skip(taken + 1));
                taken = taken + 1;
            }
            if contains_path(paths, &entry.path) {
                kept.push(entry);
            }
        }
        assert(before.take(taken) =~= before);
        proof {
            lemma_filter_distinct(before, wanted);
        }
        self.states = kept;
    }

    pub fn has_pending(&self) -> (r: bool)
        ensures
            r == (exists|i: int|
                0 <= i < self.states@.len() && (#[trigger] self.states@[i]).state is Pending),
    {
        let mut at: usize = 0;
        while at < self.states.len()
            invariant
                at <= self.states.len(),
                forall|i: int| 0 <= i < at ==> !((#[trigger] self.states@[i]).state is Pending),
            decreases self.states.len() - at,
        {
            if matches!(self.states[at].state, InspectionState::Pending) {
                assert(self.states@[at as int].state is Pending);
                return true;
            }
            at = at + 1;
        }
        false
    }
}

pub open spec fn is_one_of(paths: Seq<PathParts>, path: Seq<Seq<u8>>) -> bool {
    exists|i: int| 0 <= i < paths.len() && (#[trigger] paths[i])@ == path
}

fn contains_path(paths: &Vec<PathParts>, path: &PathParts) -> (r: bool)
    ensures
        r == is_one_of(paths@, path@),
{
    let mut at: usize = 0;
    while at < paths.len()
        invariant
            at <= paths.len(),
            forall|i: int| 0 <= i < at ==> (#[trigger] paths@[i])@ != path@,
        decreases paths.len() - at,
    {
        if paths[at].same(path) {
            assert(paths@[at as int]@ == path@);
            return true;
        }
        at = at + 1;
    }
    false
}

proof fn lemma_filter_distinct(states: Seq<Inspection>, wanted: spec_fn(Inspection) -> bool)
    requires
        distinct(states),
    ensures
        distinct(states.filter(wanted)),
        forall|i: int|
            0 <= i < states.filter(wanted).len() ==> states.contains(
                #[trigger] states.filter(wanted)[i],
            ),
    decreases states.len(),
{
    reveal(Seq::filter);
    if states.len() > 0 {
        let front = states.drop_last();
        assert forall|i: int, j: int| 0 <= i < j < front.len() implies (#[trigger] front[i]).path@
            != (#[trigger] front[j]).path@ by {
            assert(front[i] == states[i] && front[j] == states[j]);
        }
        lemma_filter_distinct(front, wanted);
        let rest = front.filter(wanted);
        let all = states.filter(wanted);
        assert forall|i: int| 0 <= i < all.len() implies states.contains(#[trigger] all[i]) by {
            if i < rest.len() {
                assert(front.contains(rest[i]));
                let k = choose|k: int| 0 <= k < front.len() && front[k] == rest[i];
                assert(states[k] == rest[i]);
            } else {
                assert(states[states.len() - 1] == all[i]);
            }
        }
        assert forall|i: int, j: int| 0 <= i < j < all.len() implies (#[trigger] all[i]).path@ != (
        #[trigger] all[j]).path@ by {
            if j < rest.len() {
                assert(all[i] == rest[i] && all[j] == rest[j]);
            } else {
                assert(all[i] == rest[i]);
                assert(front.contains(rest[i]));
                let k = choose|k: int| 0 <= k < front.len() && front[k] == rest[i];
                assert(states[k] == rest[i]);
                assert(all[j] == states[states.len() - 1]);
            }
        }
    }
}

/// A field that is there shows its value with its unit, and its raw code where that is
/// asked for; one that is not says so, and one that is not understood says why.
pub proof fn a_field_says_what_was_reported(field: ReportedField, value: FieldValue, raw: FieldValue)
    ensures
        field.status is Present && field.value == Some(value) && field.unit is None
            && field.raw_code is None ==> field.full_text(true) == value.shown()
            && field.summary_text() == value.shown(),
        field.status is Present && field.value == Some(value) && field.unit is Some
            && field.raw_code is None ==> field.full_text(true) == value.shown() + (" "@
            + field.unit->0@),
        field.status is Present && field.value == Some(value) && field.unit is None
            && field.raw_code == Some(raw) ==> field.full_text(true) == value.shown() + (" (raw: "@
            + raw.shown() + ")"@) && field.full_text(false) == value.shown(),
        field.status is NotPresent ==> field.full_text(true) == "Not present"@
            && field.summary_text() == "Not present"@,
        field.status is NotApplicable ==> field.full_text(true) == "Not applicable"@,
        field.status is Unknown && field.reason is Some ==> field.full_text(true) == "Unknown"@
            + ": "@ + field.reason->0@,
        field.status is Unknown ==> field.summary_text() == "Unknown"@,
        field.status is Unsupported && field.reason is None ==> field.full_text(true)
            == "Unsupported"@,
{
    let empty = Seq::<char>::empty();
    assert(value.shown() + empty =~= value.shown());
    if field.unit is Some {
        let shown = value.shown() + (" "@ + field.unit->0@);
        assert(shown + empty =~= shown);
    }
}

/// A value is shown as it is.
pub proof fn a_value_is_shown_as_it_is(text: String, whole: Option<u64>)
    ensures
        FieldValue::Text(text).shown() == text@,
        FieldValue::Bool(true).shown() == "True"@,
        FieldValue::Bool(false).shown() == "False"@,
        (FieldValue::Number { text, whole }).shown() == text@,
        (FieldValue::Number { text, whole }).whole_number() == whole,
        (FieldValue::Object { display: Some(text), text }).shown() == text@,
        (FieldValue::Object { display: None, text }).shown() == text@,
        FieldValue::Array(text).shown() == text@,
        FieldValue::Text(text).whole_number() is None,
{
}

/// What is known of a path is what was set of it last.
pub proof fn what_was_set_last_is_known(states: Seq<Inspection>, entry: Inspection, path: Seq<Seq<u8>>)
    ensures
        state_of(states.push(entry), entry.path@) == Some(entry.state),
        path != entry.path@ ==> state_of(states.push(entry), path) == state_of(states, path),
        state_of(Seq::empty(), path) is None,
{
    assert(states.push(entry).drop_last() =~= states);
}

/// What was set of a path is known of it, and what is known of others stays.
pub proof fn what_was_set_is_known(
    before: Seq<Inspection>,
    path: Seq<Seq<u8>>,
    state: Option<InspectionState>,
    after: Seq<Inspection>,
    other: Seq<Seq<u8>>,
)
    requires
        has_set(before, path, state, after),
    ensures
        state_of(after, path) == state,
        other != path ==> state_of(after, other) == state_of(before, other),
{
}

/// A summary shows no raw code, whatever else it shows.
pub proof fn a_summary_shows_no_raw_code(field: ReportedField, value: FieldValue)
    requires
        field.status is Present,
        field.value == Some(value),
    ensures
        field.unit is None ==> field.summary_text() == value.shown(),
        field.unit is Some ==> field.summary_text() == value.shown() + (" "@ + field.unit->0@),
        field.summary_text() == field.full_text(false),
{
    let empty = Seq::<char>::empty();
    assert(value.shown() + empty =~= value.shown());
    if field.unit is Some {
        let shown = value.shown() + (" "@ + field.unit->0@);
        assert(shown + empty =~= shown);
    }
}

} // verus!
