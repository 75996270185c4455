//! Inventory of a managed folder: what is taken from it, what is known of each
//! file, and under which name one is brought in.
use crate::text::{decimal, push_char, push_decimal};
use crate::words::{alike, texts_alike};
use sha2::{Digest, Sha256};
use vstd::prelude::*;
use vstd::string::*;

verus! {

/// The SHA-256 digest of some bytes.
pub uninterp spec fn sha256(bytes: Seq<u8>) -> Seq<u8>;

/// `sha2::Sha256::digest`: the 32 bytes of the digest.
#[verifier::external_body]
fn digest(bytes: &Vec<u8>) -> (r: Vec<u8>)
    ensures
        r@ == sha256(bytes@),
        r@.len() == 32,
{
    Sha256::digest(bytes.as_slice()).to_vec()
}

/// A hexadecimal digit, in lower case.
pub open spec fn hex_digit(value: int) -> char {
    if value < 10 {
        crate::text::digit(value as nat)
    } else if value == 10 {
        'a'
    } else if value == 11 {
        'b'
    } else if value == 12 {
        'c'
    } else if value == 13 {
        'd'
    } else if value == 14 {
        'e'
    } else {
        'f'
    }
}

/// Bytes in hexadecimal, two digits each.
pub open spec fn hex(bytes: Seq<u8>) -> Seq<char> {
    Seq::new(
        2 * bytes.len(),
        |i: int|
            if i % 2 == 0 {
                hex_digit(bytes[i / 2] as int / 16)
            } else {
                hex_digit(bytes[i / 2] as int % 16)
            },
    )
}

fn push_hex_digit(out: &mut String, value: u8)
    requires
        value < 16,
    ensures
        final(out)@ == old(out)@.push(hex_digit(value as int)),
{
    let c = match value {
        0 => '0',
        1 => '1',
        2 => '2',
        3 => '3',
        4 => '4',
        5 => '5',
        6 => '6',
        7 => '7',
        8 => '8',
        9 => '9',
        10 => 'a',
        11 => 'b',
        12 => 'c',
        13 => 'd',
        14 => 'e',
        _ => 'f',
    };
    push_char(out, c);
}

/// Bytes in hexadecimal.
pub fn hex_text(bytes: &Vec<u8>) -> (r: String)
    ensures
        r@ == hex(bytes@),
{
    let mut out = String::new();
    let mut at: usize = 0;
    while at < bytes.len()
        invariant
            at <= bytes.len(),
            out@ =~= hex(bytes@.take(at as int)),
        decreases bytes.len() - at,
    {
        let byte: u8 = bytes[at];
        push_hex_digit(&mut out, byte / 16);
        push_hex_digit(&mut out, byte % 16);
        at = at + 1;
    }
    assert(bytes@.take(at as int) =~= bytes@);
    out
}

/// What identifies the content of a file.
pub fn fingerprint(content: &Vec<u8>) -> (r: String)
    ensures
        r@ == hex(sha256(content@)),
        r@.len() == 64,
{
    let bytes = digest(content);
    hex_text(&bytes)
}

/// One managed folder's rules. The slug names everything that is derived.
#[derive(Clone, Copy, Debug)]
pub struct Kind {
    pub slug: &'static str,
    /// Matched in any case.
    pub extension: &'static str,
    /// What one file is called, in the messages a user reads.
    pub noun: &'static str,
}

impl Kind {
    /// Head-related impulse responses.
    pub fn sofa() -> (r: Kind)
        ensures
            r.slug@ == "sofa"@,
            r.extension@ == "sofa"@,
            r.noun@ == "SOFA"@,
    {
        Kind { slug: "sofa", extension: "sofa", noun: "SOFA" }
    }

    /// Headphone profiles.
    pub fn hptf() -> (r: Kind)
        ensures
            r.slug@ == "hptf"@,
            r.extension@ == "txt"@,
            r.noun@ == "AutoEq profile"@,
    {
        Kind { slug: "hptf", extension: "txt", noun: "AutoEq profile" }
    }

    /// The folder takes files with this extension.
    pub open spec fn takes(self, extension: Option<Seq<char>>) -> bool {
        extension is Some && alike(extension->0, self.extension@)
    }

    pub fn accepts(&self, extension: &Option<String>) -> (r: bool)
        ensures
            r == self.takes(crate::backend::output::chars(*extension)),
    {
        match extension {
            Some(extension) => texts_alike(extension.as_str(), self.extension),
            None => false,
        }
    }
}

/// A path below the managed folder, by the bytes of its parts.
#[derive(Debug)]
pub struct RelativePath {
    pub parts: Vec<Vec<u8>>,
}

impl View for RelativePath {
    type V = Seq<Seq<u8>>;

    open spec fn view(&self) -> Seq<Seq<u8>> {
        self.parts@.map_values(|part: Vec<u8>| part@)
    }
}

/// `a` stands before `b` in the order of bytes.
pub open spec fn bytes_before(a: Seq<u8>, b: Seq<u8>) -> bool
    decreases a.len(),
{
    if b.len() == 0 {
        false
    } else if a.len() == 0 {
        true
    } else if a[0] != b[0] {
        a[0] < b[0]
    } else {
        bytes_before(a.drop_first(), b.drop_first())
    }
}

/// `a` stands before `b`: part by part.
pub open spec fn path_before(a: Seq<Seq<u8>>, b: Seq<Seq<u8>>) -> bool
    decreases a.len(),
{
    if b.len() == 0 {
        false
    } else if a.len() == 0 {
        true
    } else if a[0] != b[0] {
        bytes_before(a[0], b[0])
    } else {
        path_before(a.drop_first(), b.drop_first())
    }
}

proof fn lemma_bytes_order(a: Seq<u8>, b: Seq<u8>)
    ensures
        !(bytes_before(a, b) && bytes_before(b, a)),
        bytes_before(a, b) || bytes_before(b, a) || a == b,
        a == b ==> !bytes_before(a, b),
    decreases a.len(),
{
    if a.len() > 0 && b.len() > 0 && a[0] == b[0] {
        lemma_bytes_order(a.drop_first(), b.drop_first());
        if a.drop_first() == b.drop_first() {
            assert(a =~= seq![a[0]] + a.drop_first());
            assert(b =~= seq![b[0]] + b.drop_first());
        }
    } else if a.len() == 0 && b.len() == 0 {
        assert(a =~= b);
    }
}

proof fn lemma_path_order(a: Seq<Seq<u8>>, b: Seq<Seq<u8>>)
    ensures
        !(path_before(a, b) && path_before(b, a)),
        path_before(a, b) || path_before(b, a) || a == b,
        a == b ==> !path_before(a, b),
    decreases a.len(),
{
    if a.len() > 0 && b.len() > 0 {
        lemma_bytes_order(a[0], b[0]);
        if a[0] == b[0] {
            lemma_path_order(a.drop_first(), b.drop_first());
            if a.drop_first() == b.drop_first() {
                assert(a =~= seq![a[0]] + a.drop_first());
                assert(b =~= seq![b[0]] + b.drop_first());
            }
        }
    } else if a.len() == 0 && b.len() == 0 {
        assert(a =~= b);
    }
}

proof fn lemma_bytes_transitive(a: Seq<u8>, b: Seq<u8>, c: Seq<u8>)
    requires
        bytes_before(a, b),
        bytes_before(b, c),
    ensures
        bytes_before(a, c),
    decreases a.len(),
{
    if a.len() > 0 && b.len() > 0 && c.len() > 0 && a[0] == b[0] && b[0] == c[0] {
        lemma_bytes_transitive(a.drop_first(), b.drop_first(), c.drop_first());
    }
}

proof fn lemma_path_transitive(a: Seq<Seq<u8>>, b: Seq<Seq<u8>>, c: Seq<Seq<u8>>)
    requires
        path_before(a, b),
        path_before(b, c),
    ensures
        path_before(a, c),
    decreases a.len(),
{
    if a.len() > 0 && b.len() > 0 && c.len() > 0 {
        lemma_bytes_order(a[0], b[0]);
        lemma_bytes_order(b[0], c[0]);
        lemma_bytes_order(a[0], c[0]);
        if a[0] == b[0] && b[0] == c[0] {
            lemma_path_transitive(a.drop_first(), b.drop_first(), c.drop_first());
        } else if a[0] != b[0] && b[0] != c[0] {
            lemma_bytes_transitive(a[0], b[0], c[0]);
        }
    }
}

/// How two values stand to each other.
#[derive(Debug, Clone, Copy, PartialEq, Eq, Structural)]
pub enum Place {
    Before,
    Same,
    After,
}

fn place_bytes(a: &Vec<u8>, b: &Vec<u8>) -> (r: Place)
    ensures
        r == Place::Before <==> bytes_before(a@, b@),
        r == Place::Same <==> a@ == b@,
        r == Place::After <==> bytes_before(b@, a@),
{
    let mut at: usize = 0;
    proof {
        lemma_bytes_order(a@, b@);
        assert(a@.skip(0) =~= a@);
        assert(b@.skip(0) =~= b@);
    }
    while at < a.len() && at < b.len() && a[at] == b[at]
        invariant
            at <= a.len() && at <= b.len(),
            a@.take(at as int) =~= b@.take(at as int),
            bytes_before(a@, b@) == bytes_before(a@.skip(at as int), b@.skip(at as int)),
            bytes_before(b@, a@) == bytes_before(b@.skip(at as int), a@.skip(at as int)),
        decreases a.len() - at,
    {
        assert(a@.skip(at as int).drop_first() =~= a@.skip(at + 1));
        assert(b@.skip(at as int).drop_first() =~= b@.skip(at + 1));
        at = at + 1;
    }
    proof {
        lemma_bytes_order(a@, b@);
    }
    if at == a.len() {
        if at == b.len() {
            assert(a@ =~= a@.take(at as int));
            assert(b@ =~= b@.take(at as int));
            Place::Same
        } else {
            Place::Before
        }
    } else if at == b.len() {
        Place::After
    } else if a[at] < b[at] {
        Place::Before
    } else {
        Place::After
    }
}

fn place_paths(a: &RelativePath, b: &RelativePath) -> (r: Place)
    ensures
        r == Place::Before <==> path_before(a@, b@),
        r == Place::Same <==> a@ == b@,
        r == Place::After <==> path_before(b@, a@),
{
    let mut at: usize = 0;
    proof {
        lemma_path_order(a@, b@);
        assert(a@.skip(0) =~= a@);
        assert(b@.skip(0) =~= b@);
    }
    while at < a.parts.len() && at < b.parts.len()
        invariant
            at <= a.parts.len() && at <= b.parts.len(),
            a@.take(at as int) =~= b@.take(at as int),
            path_before(a@, b@) == path_before(a@.skip(at as int), b@.skip(at as int)),
            path_before(b@, a@) == path_before(b@.skip(at as int), a@.skip(at as int)),
        decreases a.parts.len() - at,
    {
        assert(a@[at as int] == a.parts@[at as int]@);
        assert(b@[at as int] == b.parts@[at as int]@);
        proof {
            lemma_path_order(a@, b@);
            lemma_bytes_order(a@[at as int], b@[at as int]);
        }
        match place_bytes(&a.parts[at], &b.parts[at]) {
            Place::Before => {
                return Place::Before;
            },
            Place::After => {
                return Place::After;
            },
            Place::Same => {},
        }
        assert(a@.skip(at as int).drop_first() =~= a@.skip(at + 1));
        assert(b@.skip(at as int).drop_first() =~= b@.skip(at + 1));
        at = at + 1;
    }
    proof {
        lemma_path_order(a@, b@);
    }
    if at == a.parts.len() {
        if at == b.parts.len() {
            assert(a@ =~= a@.take(at as int));
            assert(b@ =~= b@.take(at as int));
            Place::Same
        } else {
            Place::Before
        }
    } else {
        Place::After
    }
}

/// What is known of one file.
#[derive(Debug)]
pub struct Entry {
    pub path: RelativePath,
    pub sha256: Option<String>,
    pub status: String,
}

#[verifier::ext_equal]
pub struct EntryModel {
    pub path: Seq<Seq<u8>>,
    pub sha256: Option<String>,
    pub status: Seq<char>,
}

impl View for Entry {
    type V = EntryModel;

    open spec fn view(&self) -> EntryModel {
        EntryModel { path: self.path@, sha256: self.sha256, status: self.status@ }
    }
}

impl Entry {
    /// A file that the folder holds, with the digest of its content where it
    /// could be read.
    pub fn found(path: RelativePath, sha256: Option<String>) -> (r: Self)
        ensures
            r@ == (EntryModel {
                path: path@,
                sha256,
                status: if sha256 is Some {
                    "unverified"@
                } else {
                    "unreadable"@
                },
            }),
    {
        let status = if sha256.is_some() {
            "unverified".to_owned()
        } else {
            "unreadable".to_owned()
        };
        Entry { path, sha256, status }
    }

    pub fn selectable(&self) -> (r: bool)
        ensures
            r == (self@.status == "unverified"@),
    {
        let usable = "unverified".to_owned();
        self.status == usable
    }

    pub fn display_status(&self, active: bool) -> (r: &str)
        ensures
            r@ == (if self@.status != "unverified"@ {
                self@.status
            } else if active {
                "in use"@
            } else {
                "available"@
            }),
    {
        if self.selectable() {
            if active {
                "in use"
            } else {
                "available"
            }
        } else {
            self.status.as_str()
        }
    }
}

/// What a list says of a path; the last word counts.
pub open spec fn said(entries: Seq<Entry>, path: Seq<Seq<u8>>) -> Option<EntryModel>
    decreases entries.len(),
{
    if entries.len() == 0 {
        None
    } else if entries.last()@.path == path {
        Some(entries.last()@)
    } else {
        said(entries.drop_last(), path)
    }
}

/// The entries stand in the order of their paths, each path once.
pub open spec fn is_sorted(entries: Seq<Entry>) -> bool {
    forall|i: int, j: int|
        0 <= i < j < entries.len() ==> path_before(
            (#[trigger] entries[i])@.path,
            (#[trigger] entries[j])@.path,
        )
}

proof fn lemma_said_at(entries: Seq<Entry>, at: int)
    requires
        is_sorted(entries),
        0 <= at < entries.len(),
    ensures
        said(entries, entries[at]@.path) == Some(entries[at]@),
    decreases entries.len(),
{
    let last = entries.len() - 1;
    if at < last {
        assert(path_before(entries[at]@.path, entries[last]@.path));
        lemma_path_order(entries[at]@.path, entries[last]@.path);
        let front = entries.drop_last();
        assert forall|i: int, j: int| 0 <= i < j < front.len() implies path_before(
            (#[trigger] front[i])@.path,
            (#[trigger] front[j])@.path,
        ) by {
            assert(front[i] == entries[i] && front[j] == entries[j]);
        }
        lemma_said_at(front, at);
    }
}

proof fn lemma_said_nowhere(entries: Seq<Entry>, path: Seq<Seq<u8>>)
    requires
        forall|i: int| 0 <= i < entries.len() ==> (#[trigger] entries[i])@.path != path,
    ensures
        said(entries, path) is None,
    decreases entries.len(),
{
    if entries.len() > 0 {
        assert(entries[entries.len() - 1]@.path != path);
        let front = entries.drop_last();
        assert forall|i: int| 0 <= i < front.len() implies (#[trigger] front[i])@.path != path by {
            assert(front[i] == entries[i]);
        }
        lemma_said_nowhere(front, path);
    }
}

proof fn lemma_said_somewhere(entries: Seq<Entry>, path: Seq<Seq<u8>>)
    ensures
        said(entries, path) is Some ==> exists|i: int|
            0 <= i < entries.len() && (#[trigger] entries[i])@ == said(entries, path)->0
                && entries[i]@.path == path,
    decreases entries.len(),
{
    if entries.len() > 0 {
        if entries.last()@.path == path {
            assert(entries[entries.len() - 1]@ == said(entries, path)->0);
        } else {
            let front = entries.drop_last();
            lemma_said_somewhere(front, path);
            if said(front, path) is Some {
                let i = choose|i: int|
                    0 <= i < front.len() && (#[trigger] front[i])@ == said(front, path)->0
                        && front[i]@.path == path;
                assert(entries[i]@ == said(entries, path)->0);
            }
        }
    }
}

/// The list is sorted, and says what it did but for the entry.
pub open spec fn has_put(before: Seq<Entry>, entry: Entry, after: Seq<Entry>) -> bool {
    &&& is_sorted(after)
    &&& forall|path: Seq<Seq<u8>>|
        #[trigger] said(after, path) == (if path == entry@.path {
            Some(entry@)
        } else {
            said(before, path)
        })
}

/// Puts an entry into a sorted list, in place of one with the same path.
fn put(entries: &mut Vec<Entry>, entry: Entry)
    requires
        is_sorted(old(entries)@),
    ensures
        has_put(old(entries)@, entry, final(entries)@),
{
    let ghost before = entries@;
    let mut at: usize = entries.len();
    while at > 0
        invariant
            at <= entries.len(),
            entries@ == before,
            before == old(entries)@,
            is_sorted(before),
            at < before.len() ==> path_before(entry@.path, before[at as int]@.path),
        decreases at,
    {
        match place_paths(&entries[at - 1].path, &entry.path) {
            Place::Before => {
                proof {
                    lemma_put(before, entry, at as int, false);
                }
                entries.insert(at, entry);
                assert(entries@ =~= before.insert(at as int, entry));
                return ;
            },
            Place::Same => {
                proof {
                    lemma_put(before, entry, at - 1, true);
                }
                entries.set(at - 1, entry);
                assert(entries@ =~= before.update(at - 1, entry));
                return ;
            },
            Place::After => {},
        }
        at = at - 1;
    }
    proof {
        lemma_put(before, entry, 0, false);
    }
    entries.insert(0, entry);
}

proof fn lemma_put(before: Seq<Entry>, entry: Entry, at: int, replace: bool)
    requires
        is_sorted(before),
        0 <= at <= before.len(),
        replace ==> at < before.len() && before[at]@.path == entry@.path,
        !replace ==> (at < before.len() ==> path_before(entry@.path, before[at]@.path)) && (at > 0
            ==> path_before(before[at - 1]@.path, entry@.path)),
    ensures
        replace ==> has_put(before, entry, before.update(at, entry)),
        !replace ==> has_put(before, entry, before.insert(at, entry)),
{
    let after = if replace {
        before.update(at, entry)
    } else {
        before.insert(at, entry)
    };
    assert forall|i: int, j: int| 0 <= i < j < after.len() implies path_before(
        (#[trigger] after[i])@.path,
        (#[trigger] after[j])@.path,
    ) by {
        if replace {
            assert(path_before(before[i]@.path, before[j]@.path));
        } else if i < at && j == at {
            if i < at - 1 {
                assert(path_before(before[i]@.path, before[at - 1]@.path));
                lemma_path_transitive(before[i]@.path, before[at - 1]@.path, entry@.path);
            }
        } else if i == at {
            if j > at + 1 {
                assert(path_before(before[at]@.path, before[j - 1]@.path));
                lemma_path_transitive(entry@.path, before[at]@.path, before[j - 1]@.path);
            }
        } else {
            let a = if i < at {
                i
            } else {
                i - 1
            };
            let b = if j < at {
                j
            } else {
                j - 1
            };
            assert(path_before(before[a]@.path, before[b]@.path));
        }
    }
    lemma_said_at(after, at);
    assert forall|path: Seq<Seq<u8>>| path != entry@.path implies #[trigger] said(after, path)
        == said(before, path) by {
        lemma_said_somewhere(before, path);
        lemma_said_somewhere(after, path);
        if said(before, path) is Some {
            let i = choose|i: int|
                0 <= i < before.len() && (#[trigger] before[i])@ == said(before, path)->0
                    && before[i]@.path == path;
            let k = if replace || i < at {
                i
            } else {
                i + 1
            };
            assert(after[k] == before[i]);
            lemma_said_at(after, k);
        } else if said(after, path) is Some {
            let k = choose|k: int|
                0 <= k < after.len() && (#[trigger] after[k])@ == said(after, path)->0
                    && after[k]@.path == path;
            let i = if replace || k < at {
                k
            } else {
                k - 1
            };
            assert(k != at);
            assert(after[k] == before[i]);
            lemma_said_at(before, i);
        }
    }
}

/// What is known of a path after a scan: what was found, and else that what was
/// known is missing.
pub open spec fn inventoried(
    known: Seq<Entry>,
    found: Seq<Entry>,
    path: Seq<Seq<u8>>,
) -> Option<EntryModel> {
    match said(found, path) {
        Some(entry) => Some(entry),
        None => match said(known, path) {
            Some(entry) => Some(EntryModel { status: "missing"@, ..entry }),
            None => None,
        },
    }
}

/// The inventory after a scan, in the order of paths. Files that are gone stay
/// in it, and are marked so.
pub fn inventory(known: Vec<Entry>, found: Vec<Entry>) -> (r: Vec<Entry>)
    ensures
        is_sorted(r@),
        forall|path: Seq<Seq<u8>>|
            #[trigger] said(r@, path) == inventoried(known@, found@, path),
{
    let ghost before = known@;
    let ghost seen = found@;
    let mut known = known;
    let mut found = found;
    let mut entries: Vec<Entry> = Vec::new();
    let ghost mut taken: int = 0;
    assert forall|path: Seq<Seq<u8>>| #[trigger] said(entries@, path) == inventoried(
        before.take(0),
        Seq::empty(),
        path,
    ) by {}
    while known.len() > 0
        invariant
            0 <= taken <= before.len(),
            known@ == before.skip(taken),
            is_sorted(entries@),
            forall|path: Seq<Seq<u8>>|
                #[trigger] said(entries@, path) == inventoried(
                    before.take(taken),
                    Seq::empty(),
                    path,
                ),
        decreases known.len(),
    {
        let ghost so_far = entries@;
        let mut entry = known.remove(0);
        assert(before.skip(taken)[0] == before[taken]);
        entry.status = "missing".to_owned();
        put(&mut entries, entry);
        proof {
            let more = before.take(taken + 1);
            assert(more.last() == before[taken]);
            assert(more.drop_last() =~= before.take(taken));
            assert forall|path: Seq<Seq<u8>>| #[trigger] said(entries@, path) == inventoried(
                more,
                Seq::empty(),
                path,
            ) by {
                assert(said(so_far, path) == inventoried(before.take(taken), Seq::empty(), path));
                assert(entry@ =~= (EntryModel { status: "missing"@, ..before[taken]@ }));
            }
            taken = taken + 1;
            assert(known@ =~= before.skip(taken));
        }
    }
    assert(before.take(taken) =~= before);
    let ghost mut met: int = 0;
    assert(seen.take(0) =~= Seq::<Entry>::empty());
    while found.len() > 0
        invariant
            0 <= met <= seen.len(),
            found@ == seen.skip(met),
            is_sorted(entries@),
            forall|path: Seq<Seq<u8>>|
                #[trigger] said(entries@, path) == inventoried(before, seen.take(met), path),
        decreases found.len(),
    {
        let ghost so_far = entries@;
        let entry = found.remove(0);
        assert(seen.skip(met)[0] == seen[met]);
        put(&mut entries, entry);
        proof {
            let more = seen.take(met + 1);
            assert(more.last() == seen[met]);
            assert(more.drop_last() =~= seen.take(met));
            assert forall|path: Seq<Seq<u8>>| #[trigger] said(entries@, path) == inventoried(
                before,
                more,
                path,
            ) by {
                assert(said(so_far, path) == inventoried(before, seen.take(met), path));
            }
            met = met + 1;
            assert(found@ =~= seen.skip(met));
        }
    }
    assert(seen.take(met) =~= seen);
    entries
}

/// Why a folder cannot be scanned, if it cannot.
pub fn check_folder(kind: &Kind, is_directory: bool) -> (r: Result<(), String>)
    ensures
        r is Ok == is_directory,
        r is Err ==> r->Err_0@ == "The "@ + kind.noun@
            + " folder must be a directory, not a symlink"@,
{
    if is_directory {
        return Ok(());
    }
    let mut text = "The ".to_owned();
    text.append(kind.noun);
    text.append(" folder must be a directory, not a symlink");
    Err(text)
}

/// Why a file cannot be brought into the folder, if it cannot.
pub open spec fn import_refusal(
    kind: Kind,
    regular: bool,
    has_name: bool,
    extension: Option<Seq<char>>,
) -> Option<Seq<char>> {
    if !regular {
        Some("Select a regular "@ + kind.noun@ + " file and directory"@)
    } else if !has_name {
        Some("Missing file name"@)
    } else if !kind.takes(extension) {
        Some("Select a ."@ + kind.extension@ + " file"@)
    } else {
        None
    }
}

pub fn check_import(kind: &Kind, regular: bool, has_name: bool, extension: &Option<String>) -> (r:
    Result<(), String>)
    ensures
        match r {
            Ok(_) => import_refusal(
                *kind,
                regular,
                has_name,
                crate::backend::output::chars(*extension),
            ) is None,
            Err(message) => import_refusal(
                *kind,
                regular,
                has_name,
                crate::backend::output::chars(*extension),
            ) == Some(message@),
        },
{
    if !regular {
        let mut text = "Select a regular ".to_owned();
        text.append(kind.noun);
        text.append(" file and directory");
        return Err(text);
    }
    if !has_name {
        return Err("Missing file name".to_owned());
    }
    if !kind.accepts(extension) {
        let mut text = "Select a .".to_owned();
        text.append(kind.extension);
        text.append(" file");
        return Err(text);
    }
    Ok(())
}

/// What stands under the name that a file is to be brought in as.
#[derive(Debug)]
pub enum Target {
    /// Nothing.
    Free,
    /// A file whose content has this digest, where it could be read.
    File(Option<String>),
    /// Something else.
    Other,
}

#[derive(Debug, Clone, Copy, PartialEq, Eq, Structural)]
pub enum ImportStep {
    /// The file is there already.
    Keep,
    /// The name is free.
    Place,
    /// Another name is to be tried.
    Rename,
}

/// What becomes of a name: a file is never overwritten, and one with the same
/// content is the import itself.
pub fn import_step(target: &Target, hash: &String) -> (r: ImportStep)
    ensures
        r == (match *target {
            Target::Free => ImportStep::Place,
            Target::File(existing) => if existing is Some && existing->0@ == hash@ {
                ImportStep::Keep
            } else {
                ImportStep::Rename
            },
            Target::Other => ImportStep::Rename,
        }),
{
    match target {
        Target::Free => ImportStep::Place,
        Target::File(existing) => match existing {
            Some(existing) if *existing == *hash => ImportStep::Keep,
            _ => ImportStep::Rename,
        },
        Target::Other => ImportStep::Rename,
    }
}

/// What follows the stem of a name when the name itself is taken: twelve digits
/// of the digest, a number and the extension.
pub fn renamed_suffix(kind: &Kind, hash: &String, index: u32) -> (r: String)
    requires
        hash@.len() >= 12,
    ensures
        r@ == "-"@ + hash@.take(12) + "-"@ + decimal(index as nat) + "."@ + kind.extension@,
{
    let mut out = "-".to_owned();
    let digits = hash.as_str().substring_char(0, 12);
    out.append(digits);
    assert(hash@.subrange(0, 12) =~= hash@.take(12));
    out.append("-");
    push_decimal(&mut out, index as u64);
    out.append(".");
    out.append(kind.extension);
    out
}

/// What an import is staged under.
pub fn staging_prefix(kind: &Kind) -> (r: String)
    ensures
        r@ == "."@ + kind.slug@ + "-import-"@,
{
    let mut out = ".".to_owned();
    out.append(kind.slug);
    out.append("-import-");
    out
}

/// One managed folder as the player knows it.
#[derive(Debug)]
pub struct Catalog {
    pub kind: Kind,
    pub files: Vec<Entry>,
    pub message: String,
    pub started: bool,
    pub working: bool,
}

impl Catalog {
    pub fn new(kind: Kind) -> (r: Self)
        ensures
            r.kind == kind,
            r.files@.len() == 0,
            r.message@.len() == 0,
            !r.started && !r.working,
    {
        Catalog {
            kind,
            files: Vec::new(),
            message: String::new(),
            started: false,
            working: false,
        }
    }

    pub fn busy(&self) -> (r: bool)
        ensures
            r == self.working,
    {
        self.working
    }

    /// Starts a scan, unless one is running. The result says whether a worker is
    /// to be started.
    pub fn refresh(&mut self) -> (r: bool)
        ensures
            r == !old(self).working,
            !r ==> *final(self) == *old(self),
            r ==> {
                &&& final(self).started && final(self).working
                &&& final(self).kind == old(self).kind
                &&& final(self).files == old(self).files
                &&& final(self).message@ == "Scanning / importing "@ + old(self).kind.noun@ + "…"@
            },
    {
        if self.working {
            return false;
        }
        self.started = true;
        self.working = true;
        let mut message = "Scanning / importing ".to_owned();
        message.append(self.kind.noun);
        message.append("…");
        self.message = message;
        true
    }

    /// The worker could not be started.
    pub fn failed_to_start(&mut self, error: String)
        ensures
            !final(self).working,
            final(self).message == error,
            final(self).files == old(self).files,
            final(self).kind == old(self).kind,
            final(self).started == old(self).started,
    {
        self.working = false;
        self.message = error;
    }

    /// The worker has finished. A failure keeps what was known.
    pub fn finish(&mut self, outcome: Result<Vec<Entry>, String>)
        ensures
            !final(self).working,
            final(self).kind == old(self).kind,
            final(self).started == old(self).started,
            match outcome {
                Ok(entries) => final(self).files == entries && final(self).message@ == decimal(
                    entries@.len(),
                ) + " "@ + old(self).kind.noun@ + " entries"@,
                Err(error) => final(self).files == old(self).files && final(self).message
                    == error,
            },
    {
        self.working = false;
        match outcome {
            Ok(entries) => {
                let mut message = crate::text::decimal_text(entries.len() as u64);
                message.append(" ");
                message.append(self.kind.noun);
                message.append(" entries");
                self.message = message;
                self.files = entries;
            },
            Err(error) => {
                self.message = error;
            },
        }
    }
}

/// A scan forgets nothing: every file that was known or found is in the
/// inventory, and one that was not found is marked as missing.
pub proof fn a_scan_forgets_nothing(known: Seq<Entry>, found: Seq<Entry>, path: Seq<Seq<u8>>)
    ensures
        (said(known, path) is Some || said(found, path) is Some) == (inventoried(
            known,
            found,
            path,
        ) is Some),
        said(found, path) is None && said(known, path) is Some ==> inventoried(
            known,
            found,
            path,
        )->0.status == "missing"@,
{
}

/// Neither folder takes the other's files.
pub proof fn each_folder_takes_only_its_own_extension(
    sofa: Kind,
    hptf: Kind,
    extension: Option<Seq<char>>,
)
    requires
        sofa.extension@ == "sofa"@,
        hptf.extension@ == "txt"@,
    ensures
        !(sofa.takes(extension) && hptf.takes(extension)),
{
    reveal_strlit("sofa");
    reveal_strlit("txt");
}

/// What a hexadecimal digit stands for.
pub open spec fn hex_value(c: char) -> int {
    if c as u32 >= 97 {
        c as u32 - 87
    } else {
        c as u32 - 48
    }
}

/// Each byte is written as two hexadecimal digits that stand for it, the higher one first.
pub proof fn a_byte_is_written_as_two_digits(bytes: Seq<u8>, i: int)
    requires
        0 <= i < bytes.len(),
    ensures
        hex(bytes).len() == 2 * bytes.len(),
        16 * hex_value(hex(bytes)[2 * i]) + hex_value(hex(bytes)[2 * i + 1]) == bytes[i],
        0 <= hex_value(hex(bytes)[2 * i]) < 16,
        0 <= hex_value(hex(bytes)[2 * i + 1]) < 16,
{
    assert((2 * i) / 2 == i && (2 * i) % 2 == 0);
    assert((2 * i + 1) / 2 == i && (2 * i + 1) % 2 == 1);
}

/// Bytes are ordered by the first one that differs, and a beginning comes before the whole.
pub proof fn bytes_are_ordered_by_the_first_that_differs(a: Seq<u8>, b: Seq<u8>, n: int)
    ensures
        0 <= n < a.len() && n < b.len() && a.take(n) == b.take(n) && a[n] != b[n] ==> (bytes_before(
            a,
            b,
        ) <==> a[n] < b[n]),
        n == a.len() && a.len() < b.len() && a == b.take(n) ==> bytes_before(a, b) && !bytes_before(
            b,
            a,
        ),
        !bytes_before(a, a),
    decreases a.len(),
{
    if a.len() > 0 {
        bytes_are_ordered_by_the_first_that_differs(a.drop_first(), a.drop_first(), 0);
    }
    if 0 <= n < a.len() && n < b.len() && a.take(n) == b.take(n) && n > 0 {
        assert(a.take(n)[0] == b.take(n)[0]);
        assert(a.drop_first().take(n - 1) =~= a.take(n).drop_first());
        assert(b.drop_first().take(n - 1) =~= b.take(n).drop_first());
        bytes_are_ordered_by_the_first_that_differs(a.drop_first(), b.drop_first(), n - 1);
    }
    if n == a.len() && a.len() < b.len() && a == b.take(n) && n > 0 {
        assert(a[0] == b[0]);
        assert(a.drop_first() =~= b.drop_first().take(n - 1));
        bytes_are_ordered_by_the_first_that_differs(a.drop_first(), b.drop_first(), n - 1);
    }
}

/// Paths are ordered part by part: a folder comes before what is in it, and the first part
/// that differs decides.
pub proof fn paths_are_ordered_part_by_part(a: Seq<Seq<u8>>, b: Seq<Seq<u8>>, part: Seq<u8>)
    ensures
        path_before(a, a.push(part)),
        !path_before(a.push(part), a),
        a.len() > 0 && b.len() > 0 && a[0] != b[0] ==> (path_before(a, b) <==> bytes_before(
            a[0],
            b[0],
        )),
        a.len() > 0 && b.len() > 0 && a[0] == b[0] ==> (path_before(a, b) <==> path_before(
            a.drop_first(),
            b.drop_first(),
        )),
    decreases a.len(),
{
    if a.len() > 0 {
        paths_are_ordered_part_by_part(a.drop_first(), b, part);
        assert(a.push(part)[0] == a[0]);
        assert(a.push(part).drop_first() =~= a.drop_first().push(part));
    }
}

/// What is found is listed as it was found, and what is no longer found as missing, with
/// the digest that it had.
pub proof fn what_is_found_is_listed_as_found(
    known: Seq<Entry>,
    found: Seq<Entry>,
    path: Seq<Seq<u8>>,
)
    ensures
        said(found, path) is Some ==> inventoried(known, found, path) == said(found, path),
        said(found, path) is None && said(known, path) is Some ==> inventoried(
            known,
            found,
            path,
        )->0.sha256 == said(known, path)->0.sha256 && inventoried(known, found, path)->0.path
            == said(known, path)->0.path,
        said(found, path) is None && said(known, path) is None ==> inventoried(
            known,
            found,
            path,
        ) is None,
{
}

/// What is said of a path is what its own entry says.
pub proof fn an_entry_says_what_it_says_of_its_own_path(
    entries: Seq<Entry>,
    entry: Entry,
    path: Seq<Seq<u8>>,
)
    ensures
        said(entries.push(entry), entry@.path) == Some(entry@),
        path != entry@.path ==> said(entries.push(entry), path) == said(entries, path),
        said(entries, path) is Some ==> said(entries, path)->0.path == path,
        said(Seq::empty(), path) is None,
    decreases entries.len(),
{
    assert(entries.push(entry).drop_last() =~= entries);
    if entries.len() > 0 {
        an_entry_says_what_it_says_of_its_own_path(entries.drop_last(), entry, path);
    }
}

/// A file is imported exactly where it is a regular one with a name and the folder's own
/// extension.
pub proof fn a_file_is_imported_where_the_folder_takes_it(
    kind: Kind,
    regular: bool,
    has_name: bool,
    extension: Option<Seq<char>>,
)
    ensures
        import_refusal(kind, regular, has_name, extension) is None <==> (regular && has_name
            && extension is Some && alike(extension->0, kind.extension@)),
        kind.takes(Some(kind.extension@)),
        !kind.takes(None),
{
}

/// A file that is there already is kept, a free name is taken, and any other name is left
/// alone.
pub proof fn an_import_overwrites_nothing(target: Target, hash: String, r: ImportStep)
    requires
        call_ensures(import_step, (&target, &hash), r),
    ensures
        target is Free <==> r is Place,
        r is Keep ==> target is File && target->File_0 is Some && target->File_0->0@ == hash@,
        target is File && target->File_0 is Some && target->File_0->0@ == hash@ ==> r is Keep,
        target is Other ==> r is Rename,
{
}

/// What was put last of a path is what is said of it, what is said of others stays, and the
/// paths stay in order.
pub proof fn what_was_put_is_said(
    before: Seq<Entry>,
    entry: Entry,
    after: Seq<Entry>,
    path: Seq<Seq<u8>>,
    i: int,
    j: int,
)
    requires
        has_put(before, entry, after),
    ensures
        said(after, entry@.path) == Some(entry@),
        path != entry@.path ==> said(after, path) == said(before, path),
        0 <= i < j < after.len() ==> path_before(after[i]@.path, after[j]@.path),
{
}

} // verus!
