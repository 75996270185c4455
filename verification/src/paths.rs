//! Native file paths, carried as they are.
use std::path::PathBuf;
use vstd::prelude::*;

verus! {

/// `std::path::PathBuf`, opaque: a path is passed through, and what the library
/// needs to know of one it asks the functions below.
#[verifier::external_type_specification]
#[verifier::external_body]
pub struct ExPathBuf(PathBuf);

/// `PathBuf::clone`: a duplicate of the path.
#[verifier::external_body]
pub(crate) fn path_copy(path: &PathBuf) -> (r: PathBuf)
    ensures
        r == *path,
{
    path.clone()
}

/// `PathBuf::eq`. A path equals itself; which spellings of one place are equal
/// depends on the platform, so nothing is said of two different paths.
#[verifier::external_body]
pub(crate) fn path_same(a: &PathBuf, b: &PathBuf) -> (r: bool)
    ensures
        *a == *b ==> r,
{
    a == b
}

/// `Path::extension`, as text where it is text. How a path divides depends on
/// the platform, so nothing is said of the result.
#[verifier::external_body]
pub(crate) fn path_extension(path: &PathBuf) -> (r: Option<String>) {
    path.extension().and_then(|extension| extension.to_str()).map(|text| text.to_owned())
}

/// `Path::file_name`, as text with replacement characters where it is none. How
/// a path divides depends on the platform, so nothing is said of the result.
#[verifier::external_body]
pub(crate) fn path_file_name(path: &PathBuf) -> (r: Option<String>) {
    path.file_name().map(|name| name.to_string_lossy().into_owned())
}

/// A path by the bytes of its components, which is how paths are compared: two paths are
/// one where their components are the same, though one may be spelled with a doubled
/// separator or a trailing one.
#[derive(Debug, Clone)]
pub struct PathParts {
    pub parts: Vec<Vec<u8>>,
}

impl View for PathParts {
    type V = Seq<Seq<u8>>;

    open spec fn view(&self) -> Seq<Seq<u8>> {
        self.parts@.map_values(|part: Vec<u8>| part@)
    }
}

fn same_bytes(a: &Vec<u8>, b: &Vec<u8>) -> (r: bool)
    ensures
        r == (a@ == b@),
{
    if a.len() != b.len() {
        return false;
    }
    let mut at: usize = 0;
    while at < a.len()
        invariant
            at <= a.len() == b.len(),
            a@.take(at as int) =~= b@.take(at as int),
        decreases a.len() - at,
    {
        if a[at] != b[at] {
            return false;
        }
        at = at + 1;
    }
    assert(a@ =~= a@.take(at as int));
    assert(b@ =~= b@.take(at as int));
    true
}

impl PathParts {
    pub fn same(&self, other: &PathParts) -> (r: bool)
        ensures
            r == (self@ == other@),
    {
        if self.parts.len() != other.parts.len() {
            assert(self@.len() != other@.len());
            return false;
        }
        let mut at: usize = 0;
        while at < self.parts.len()
            invariant
                at <= self.parts.len() == other.parts.len(),
                forall|i: int| 0 <= i < at ==> #[trigger] self@[i] == other@[i],
            decreases self.parts.len() - at,
        {
            if !same_bytes(&self.parts[at], &other.parts[at]) {
                assert(self@[at as int] != other@[at as int]);
                return false;
            }
            assert(self@[at as int] == other@[at as int]);
            at = at + 1;
        }
        assert(self@ =~= other@);
        true
    }
}

} // verus!
