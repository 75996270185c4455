//! The media that a listener selects.
use crate::paths::{path_copy, path_extension, path_file_name};
use crate::words::{alike, texts_alike};
use std::path::PathBuf;
use vstd::prelude::*;
use vstd::string::*;

verus! {

#[derive(Debug)]
pub struct SelectedSource {
    pub path: PathBuf,
    pub display_name: String,
}

#[derive(Debug, Clone, Copy, PartialEq, Eq, Structural)]
pub enum SourceSelectionError {
    MissingFileName,
    UnsupportedExtension,
}

impl SourceSelectionError {
    pub open spec fn message(self) -> Seq<char> {
        match self {
            SourceSelectionError::MissingFileName => "The selected path has no file name"@,
            SourceSelectionError::UnsupportedExtension => "Select an .m4a, .mp4, or .ac4 file"@,
        }
    }

    pub fn text(self) -> (r: &'static str)
        ensures
            r@ == self.message(),
    {
        match self {
            SourceSelectionError::MissingFileName => "The selected path has no file name",
            SourceSelectionError::UnsupportedExtension => "Select an .m4a, .mp4, or .ac4 file",
        }
    }
}

/// An extension that the player opens, in any case.
pub open spec fn is_supported(extension: Seq<char>) -> bool {
    alike(extension, "m4a"@) || alike(extension, "mp4"@) || alike(extension, "ac4"@)
}

pub fn supports_extension(extension: &str) -> (r: bool)
    ensures
        r == is_supported(extension@),
{
    texts_alike(extension, "m4a") || texts_alike(extension, "mp4") || texts_alike(extension, "ac4")
}

/// What the extension and the file name of a path make of it.
pub open spec fn chosen(
    path: PathBuf,
    extension: Option<String>,
    file_name: Option<String>,
) -> Result<SelectedSource, SourceSelectionError> {
    if extension is None || !is_supported(extension->0@) {
        Err(SourceSelectionError::UnsupportedExtension)
    } else if file_name is None || file_name->0@.len() == 0 {
        Err(SourceSelectionError::MissingFileName)
    } else {
        Ok(SelectedSource { path, display_name: file_name->0 })
    }
}

impl SelectedSource {
    /// A source by its path; the file is not opened. Which extension and which
    /// file name a path has is the platform's to say.
    pub fn from_path(path: PathBuf) -> (r: Result<Self, SourceSelectionError>)
        ensures
            exists|extension: Option<String>, file_name: Option<String>|
                r == #[trigger] chosen(path, extension, file_name),
    {
        let extension = path_extension(&path);
        let file_name = path_file_name(&path);
        SelectedSource::from_parts(path, extension, file_name)
    }

    /// A source by its path, whose extension and file name are known.
    pub fn from_parts(path: PathBuf, extension: Option<String>, file_name: Option<String>) -> (r:
        Result<Self, SourceSelectionError>)
        ensures
            r == chosen(path, extension, file_name),
    {
        match extension {
            Some(extension) => {
                if !supports_extension(extension.as_str()) {
                    return Err(SourceSelectionError::UnsupportedExtension);
                }
            },
            None => {
                return Err(SourceSelectionError::UnsupportedExtension);
            },
        }
        match file_name {
            Some(name) => {
                if name.as_str().unicode_len() == 0 {
                    return Err(SourceSelectionError::MissingFileName);
                }
                Ok(SelectedSource { path, display_name: name })
            },
            None => Err(SourceSelectionError::MissingFileName),
        }
    }

    pub fn path(&self) -> (r: &PathBuf)
        ensures
            *r == self.path,
    {
        &self.path
    }

    pub fn display_name(&self) -> (r: &str)
        ensures
            r@ == self.display_name@,
    {
        self.display_name.as_str()
    }

    pub fn dup(&self) -> (r: Self)
        ensures
            r == *self,
    {
        SelectedSource { path: path_copy(&self.path), display_name: self.display_name.clone() }
    }
}

/// A selected source keeps its path, and always has a name to show.
pub proof fn a_selected_source_has_a_name(
    path: PathBuf,
    extension: Option<String>,
    file_name: Option<String>,
)
    requires
        chosen(path, extension, file_name) is Ok,
    ensures
        chosen(path, extension, file_name)->Ok_0.path == path,
        chosen(path, extension, file_name)->Ok_0.display_name@.len() > 0,
{
}

/// Three extensions are taken, in any case, and no other.
pub proof fn three_extensions_are_taken(extension: Seq<char>)
    ensures
        is_supported(extension) <==> (alike(extension, "m4a"@) || alike(extension, "mp4"@) || alike(
            extension,
            "ac4"@,
        )),
        is_supported("m4a"@) && is_supported("mp4"@) && is_supported("ac4"@),
        extension.len() != 3 ==> !is_supported(extension),
{
    reveal_strlit("m4a");
    reveal_strlit("mp4");
    reveal_strlit("ac4");
}

/// A file is chosen exactly where its extension is taken and it has a name, and is shown
/// under that name.
pub proof fn a_file_is_chosen_by_extension_and_name(
    path: PathBuf,
    extension: Option<String>,
    file_name: Option<String>,
)
    ensures
        ({
            let r = chosen(path, extension, file_name);
            &&& r is Ok <==> (extension is Some && is_supported(extension->0@) && file_name is Some
                && file_name->0@.len() > 0)
            &&& r is Ok ==> r->Ok_0.path == path && r->Ok_0.display_name == file_name->0
            &&& r is Err ==> (r->Err_0 is UnsupportedExtension <==> (extension is None
                || !is_supported(extension->0@)))
        }),
{
}

} // verus!
