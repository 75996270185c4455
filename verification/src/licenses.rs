//! Third-party notices: how an entry reads, and which ones a search finds.
use crate::text::{decimal, push_decimal};
use vstd::prelude::*;
use vstd::string::*;

verus! {

#[derive(Debug)]
pub struct License {
    pub name: String,
    pub heading: String,
    pub text: String,
    pub used_by: String,
}

/// The attribution of the demonstration's score.
pub open spec fn is_demo_score(license: License) -> bool {
    &&& license.name@ == "CC BY 4.0"@
    &&& license.heading@ == "CC BY 4.0 · Canon per 3 Violini e Basso (demo score)"@
    &&& license.used_by@ == "Canon per 3 Violini e Basso, Mutopia-2015/09/02-2047"@
    &&& license.text@
        == "The built-in demo plays Johann Pachelbel's Canon in D (Canon per 3 Violini e Basso, 1694), which is in the public domain. It is synthesised in real time by this application; no recording is included.\n\nThe notes were transcribed from the LilyPond typesetting published by the Mutopia Project as Mutopia-2015/09/02-2047, maintained by Michael Fischer v. Mollard, which is licensed under the Creative Commons Attribution 4.0 International licence (https://creativecommons.org/licenses/by/4.0/).\n\nSource: https://www.mutopiaproject.org/"@
}

/// The attribution of the demonstration's score, which no dependency report
/// carries and which is owed by every build.
pub fn demo_score() -> (r: License)
    ensures
        is_demo_score(r),
{
    License {
        name: "CC BY 4.0".to_owned(),
        heading: "CC BY 4.0 · Canon per 3 Violini e Basso (demo score)".to_owned(),
        used_by: "Canon per 3 Violini e Basso, Mutopia-2015/09/02-2047".to_owned(),
        text:
            "The built-in demo plays Johann Pachelbel's Canon in D (Canon per 3 Violini e Basso, 1694), which is in the public domain. It is synthesised in real time by this application; no recording is included.\n\nThe notes were transcribed from the LilyPond typesetting published by the Mutopia Project as Mutopia-2015/09/02-2047, maintained by Michael Fischer v. Mollard, which is licensed under the Creative Commons Attribution 4.0 International licence (https://creativecommons.org/licenses/by/4.0/).\n\nSource: https://www.mutopiaproject.org/".to_owned(),
    }
}

/// A crate that uses a licence, as far as the report says.
#[derive(Debug)]
pub struct User {
    pub name: Option<String>,
    pub version: Option<String>,
}

/// A text, or what stands for one that is not there.
pub open spec fn or_else(text: Option<String>, fallback: Seq<char>) -> Seq<char> {
    match text {
        Some(text) => text@,
        None => fallback,
    }
}

fn text_or(text: &Option<String>, fallback: &str) -> (r: String)
    ensures
        r@ == or_else(*text, fallback@),
{
    match text {
        Some(text) => text.clone(),
        None => fallback.to_owned(),
    }
}

/// The users by name and version, with commas between them.
pub open spec fn user_list(users: Seq<User>) -> Seq<char>
    decreases users.len(),
{
    if users.len() == 0 {
        Seq::empty()
    } else {
        let user = or_else(users.last().name, ""@) + " "@ + or_else(users.last().version, ""@);
        if users.len() == 1 {
            user
        } else {
            user_list(users.drop_last()) + ", "@ + user
        }
    }
}

pub open spec fn heading_text(name: Option<String>, users: Seq<User>) -> Seq<char> {
    let first = or_else(
        if users.len() > 0 {
            users[0].name
        } else {
            None
        },
        "dependency"@,
    );
    or_else(name, "License"@) + " · "@ + first + (if users.len() > 1 {
        " (+"@ + decimal((users.len() - 1) as nat) + ")"@
    } else {
        Seq::empty()
    })
}

/// One entry of the report.
pub fn entry(name: &Option<String>, text: &Option<String>, users: &Vec<User>) -> (r: License)
    ensures
        r.name@ == or_else(*name, "License"@),
        r.text@ == or_else(*text, ""@),
        r.heading@ == heading_text(*name, users@),
        r.used_by@ == user_list(users@),
{
    let mut heading = text_or(name, "License");
    heading.append(" · ");
    let first = if users.len() > 0 {
        text_or(&users[0].name, "dependency")
    } else {
        "dependency".to_owned()
    };
    heading.append(first.as_str());
    let ghost plain = heading@;
    if users.len() > 1 {
        heading.append(" (+");
        push_decimal(&mut heading, users.len() as u64 - 1);
        heading.append(")");
        assert(heading@ =~= plain + (" (+"@ + decimal((users@.len() - 1) as nat) + ")"@));
    } else {
        assert(plain + Seq::<char>::empty() =~= plain);
    }
    let mut used_by = String::new();
    let mut at: usize = 0;
    assert(used_by@ =~= user_list(users@.take(0)));
    while at < users.len()
        invariant
            at <= users.len(),
            used_by@ == user_list(users@.take(at as int)),
        decreases users.len() - at,
    {
        proof {
            let so_far = users@.take(at + 1);
            assert(so_far.last() == users@[at as int]);
            assert(so_far.drop_last() =~= users@.take(at as int));
        }
        let user_name = text_or(&users[at].name, "");
        let version = text_or(&users[at].version, "");
        if at > 0 {
            used_by.append(", ");
        }
        let ghost before = used_by@;
        used_by.append(user_name.as_str());
        used_by.append(" ");
        used_by.append(version.as_str());
        assert(used_by@ =~= before + (user_name@ + " "@ + version@));
        assert(at == 0 ==> used_by@ =~= user_name@ + " "@ + version@);
        at = at + 1;
    }
    assert(users@.take(at as int) =~= users@);
    License { name: text_or(name, "License"), heading, text: text_or(text, ""), used_by }
}

/// One licence of the dependency report: its name and text, as far as it has them, and who
/// uses it.
#[derive(Debug)]
pub struct Notice {
    pub name: Option<String>,
    pub text: Option<String>,
    pub users: Vec<User>,
}

/// How a licence of the report is listed.
pub open spec fn lists(license: License, notice: Notice) -> bool {
    &&& license.name@ == or_else(notice.name, "License"@)
    &&& license.text@ == or_else(notice.text, ""@)
    &&& license.heading@ == heading_text(notice.name, notice.users@)
    &&& license.used_by@ == user_list(notice.users@)
}

/// The whole list. The score is credited first, whatever the report holds: a build that
/// embeds no report owes it too.
pub fn load(report: &Vec<Notice>) -> (r: Vec<License>)
    ensures
        r@.len() == report@.len() + 1,
        is_demo_score(r@[0]),
        forall|i: int| 0 <= i < report@.len() ==> lists(r@[i + 1], #[trigger] report@[i]),
{
    let mut entries: Vec<License> = Vec::new();
    entries.push(demo_score());
    let mut at: usize = 0;
    while at < report.len()
        invariant
            at <= report.len(),
            entries@.len() == at + 1,
            is_demo_score(entries@[0]),
            forall|i: int| 0 <= i < at ==> lists(entries@[i + 1], #[trigger] report@[i]),
        decreases report.len() - at,
    {
        let notice = &report[at];
        let ghost before = entries@;
        entries.push(entry(&notice.name, &notice.text, &notice.users));
        assert forall|i: int| 0 <= i < at + 1 implies lists(
            entries@[i + 1],
            #[trigger] report@[i],
        ) by {
            if i < at {
                assert(entries@[i + 1] == before[i + 1]);
            }
        }
        at = at + 1;
    }
    entries
}

/// A text in lower case.
pub uninterp spec fn lowercased(text: Seq<char>) -> Seq<char>;

/// `str::to_lowercase`: the text in lower case.
#[verifier::external_body]
fn lowercase(text: &str) -> (r: String)
    ensures
        r@ == lowercased(text@),
{
    text.to_lowercase()
}

/// `part` stands somewhere in the text.
pub open spec fn occurs(part: Seq<char>, text: Seq<char>) -> bool {
    exists|i: int|
        0 <= i <= text.len() - part.len() && #[trigger] text.subrange(i, i + part.len()) == part
}

fn stands_at(part: &Vec<char>, text: &Vec<char>, at: usize) -> (r: bool)
    requires
        at + part.len() <= text.len(),
    ensures
        r == (text@.subrange(at as int, at + part@.len()) == part@),
{
    let mut i: usize = 0;
    while i < part.len()
        invariant
            i <= part.len(),
            at + part.len() <= text.len(),
            text@.subrange(at as int, at + i) =~= part@.take(i as int),
        decreases part.len() - i,
    {
        if text[at + i] != part[i] {
            assert(text@.subrange(at as int, at + part@.len())[i as int] != part@[i as int]);
            return false;
        }
        i = i + 1;
    }
    assert(part@.take(i as int) =~= part@);
    true
}

/// Whether one text stands somewhere in another.
pub fn contains_text(text: &str, part: &str) -> (r: bool)
    ensures
        r == occurs(part@, text@),
{
    let text_chars = crate::text::chars_of(text);
    let part_chars = crate::text::chars_of(part);
    if part_chars.len() > text_chars.len() {
        return false;
    }
    let last: usize = text_chars.len() - part_chars.len();
    let mut at: usize = 0;
    while at <= last
        invariant
            text_chars@ == text@,
            part_chars@ == part@,
            last == text@.len() - part@.len(),
            at <= last + 1,
            forall|i: int|
                0 <= i < at ==> #[trigger] text@.subrange(i, i + part@.len()) != part@,
        decreases last + 1 - at,
    {
        if stands_at(&part_chars, &text_chars, at) {
            assert(text@.subrange(at as int, at + part@.len()) == part@);
            return true;
        }
        if at == last {
            return false;
        }
        at = at + 1;
    }
    false
}

impl License {
    /// Whether a search finds the entry, by its name or by who uses it, in any
    /// case.
    pub fn matches(&self, filter: &str) -> (r: bool)
        ensures
            r == (occurs(lowercased(filter@), lowercased(self.name@)) || occurs(
                lowercased(filter@),
                lowercased(self.used_by@),
            )),
    {
        let wanted = lowercase(filter);
        let name = lowercase(self.name.as_str());
        let used_by = lowercase(self.used_by.as_str());
        found(wanted.as_str(), name.as_str(), used_by.as_str())
    }
}

/// Whether a search text stands in a name or in a list of users.
pub fn found(wanted: &str, name: &str, used_by: &str) -> (r: bool)
    ensures
        r == (occurs(wanted@, name@) || occurs(wanted@, used_by@)),
{
    contains_text(name, wanted) || contains_text(used_by, wanted)
}

/// The window of notices.
#[derive(Debug)]
pub struct Window {
    pub open: bool,
    pub filter: String,
}

impl Default for Window {
    fn default() -> (r: Self)
        ensures
            !r.open,
            r.filter@.len() == 0,
    {
        Window { open: false, filter: String::new() }
    }
}

impl Window {
    /// The entries that are listed, by their number.
    pub open spec fn lists(&self, entries: Seq<License>, i: int) -> bool {
        occurs(lowercased(self.filter@), lowercased(entries[i].name@)) || occurs(
            lowercased(self.filter@),
            lowercased(entries[i].used_by@),
        )
    }

    pub fn listed(&self, entries: &Vec<License>) -> (r: Vec<usize>)
        ensures
            r@ == Seq::new(entries@.len(), |i: int| i as usize).filter(
                |i: usize| self.lists(entries@, i as int),
            ),
    {
        let ghost all = Seq::new(entries@.len(), |i: int| i as usize);
        let ghost wanted = |i: usize| self.lists(entries@, i as int);
        let mut out: Vec<usize> = Vec::new();
        let mut at: usize = 0;
        proof {
            reveal(Seq::filter);
            assert(all.take(0) =~= Seq::<usize>::empty());
        }
        while at < entries.len()
            invariant
                at <= entries.len(),
                all == Seq::new(entries@.len(), |i: int| i as usize),
                wanted == (|i: usize| self.lists(entries@, i as int)),
                out@ == all.take(at as int).filter(wanted),
            decreases entries.len() - at,
        {
            proof {
                reveal(Seq::filter);
                let so_far = all.take(at + 1);
                assert(so_far.last() == at);
                assert(so_far.drop_last() =~= all.take(at as int));
            }
            if entries[at].matches(self.filter.as_str()) {
                out.push(at);
            }
            at = at + 1;
        }
        assert(all.take(at as int) =~= all);
        out
    }
}

/// An empty search finds every entry.
pub proof fn an_empty_search_finds_everything(text: Seq<char>)
    ensures
        occurs(Seq::empty(), text),
{
    let part = Seq::<char>::empty();
    assert(text.subrange(0int, 0int + part.len()) =~= part);
}

/// A licence is headed by its name and the first crate that uses it, with how many others
/// do.
pub proof fn a_licence_is_headed_by_its_first_user(name: String, users: Seq<User>)
    requires
        users.len() > 0,
        users[0].name is Some,
    ensures
        users.len() == 1 ==> heading_text(Some(name), users) == name@ + " · "@
            + users[0].name->0@,
        users.len() > 1 ==> heading_text(Some(name), users) == name@ + " · "@ + users[0].name->0@
            + (" (+"@ + decimal((users.len() - 1) as nat) + ")"@),
{
    let head = name@ + " · "@ + users[0].name->0@;
    assert(head + Seq::<char>::empty() =~= head);
}

/// Every crate that uses a licence is named with its version, in the report's order.
pub proof fn every_user_is_named_with_its_version(users: Seq<User>, user: User)
    requires
        user.name is Some,
        user.version is Some,
    ensures
        user_list(seq![user]) == user.name->0@ + " "@ + user.version->0@,
        users.len() > 0 ==> user_list(users.push(user)) == user_list(users) + ", "@ + (
        user.name->0@ + " "@ + user.version->0@),
        user_list(Seq::empty()) == Seq::<char>::empty(),
{
    assert(users.push(user).drop_last() =~= users);
    assert(seq![user].last() == user);
}

/// A search finds a text exactly where it holds what is searched for, as a stretch of it.
pub proof fn a_search_finds_a_stretch(before: Seq<char>, part: Seq<char>, after: Seq<char>)
    ensures
        occurs(part, before + part + after),
        occurs(part, before) ==> part.len() <= before.len(),
{
    let text = before + part + after;
    let at = before.len() as int;
    assert(text.subrange(at, at + part.len()) =~= part);
}

/// A licence is listed where its name or its users hold what is searched for.
pub proof fn a_licence_is_listed_by_name_or_user(window: Window, entries: Seq<License>, i: int)
    requires
        0 <= i < entries.len(),
    ensures
        window.lists(entries, i) <==> (occurs(lowercased(window.filter@), lowercased(
            entries[i].name@,
        )) || occurs(lowercased(window.filter@), lowercased(entries[i].used_by@))),
{
}

/// The score of the demonstration is named under its licence.
pub proof fn the_score_is_named_under_its_licence(license: License)
    requires
        is_demo_score(license),
    ensures
        license.name@ == "CC BY 4.0"@,
        license.heading@ == "CC BY 4.0 · Canon per 3 Violini e Basso (demo score)"@,
        license.used_by@ == "Canon per 3 Violini e Basso, Mutopia-2015/09/02-2047"@,
        license.text@.len() > 0,
{
    reveal_strlit(
        "The built-in demo plays Johann Pachelbel's Canon in D (Canon per 3 Violini e Basso, 1694), which is in the public domain. It is synthesised in real time by this application; no recording is included.\n\nThe notes were transcribed from the LilyPond typesetting published by the Mutopia Project as Mutopia-2015/09/02-2047, maintained by Michael Fischer v. Mollard, which is licensed under the Creative Commons Attribution 4.0 International licence (https://creativecommons.org/licenses/by/4.0/).\n\nSource: https://www.mutopiaproject.org/",
    );
}

/// A licence shows what the report says of it, and is plainly called a licence where the
/// report names none.
pub proof fn a_licence_shows_what_is_reported(license: License, notice: Notice)
    requires
        lists(license, notice),
    ensures
        notice.name is Some ==> license.name@ == notice.name->0@,
        notice.name is None ==> license.name@ == "License"@,
        notice.text is Some ==> license.text@ == notice.text->0@,
        notice.text is None ==> license.text@.len() == 0,
        license.heading@ == heading_text(notice.name, notice.users@),
        license.used_by@ == user_list(notice.users@),
{
    reveal_strlit("");
}

} // verus!
