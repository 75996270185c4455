//! Rules for an open media file: what may be opened, which bytes a read
//! reaches, and when the file has changed underneath it.
use vstd::prelude::*;
use vstd::string::*;

verus! {

pub const READER_BUFFER_BYTES: usize = 262_144;

/// What identifies one version of a file.
#[derive(Debug, Clone, Copy, PartialEq, Eq, Structural)]
pub struct FileStamp {
    pub length: u64,
    /// The time of the last change, in seconds and nanoseconds.
    pub modified_seconds: i64,
    pub modified_nanoseconds: u32,
}

/// Why a file cannot be opened.
#[derive(Debug, Clone, Copy, PartialEq, Eq, Structural)]
pub enum OpenTrouble {
    NotAFile,
    Empty,
}

impl OpenTrouble {
    pub fn text(self) -> (r: &'static str)
        ensures
            r@ == match self {
                OpenTrouble::NotAFile => "Media input must be a regular file"@,
                OpenTrouble::Empty => "Media file is empty"@,
            },
    {
        match self {
            OpenTrouble::NotAFile => "Media input must be a regular file",
            OpenTrouble::Empty => "Media file is empty",
        }
    }
}

/// How many bytes of the start of a file tell what it is.
pub fn prefix_length(is_file: bool, stamp: &FileStamp) -> (r: Result<usize, OpenTrouble>)
    ensures
        r == (if !is_file {
            Err::<usize, OpenTrouble>(OpenTrouble::NotAFile)
        } else if stamp.length == 0 {
            Err(OpenTrouble::Empty)
        } else if stamp.length == 1 {
            Ok(1)
        } else {
            Ok(2)
        }),
{
    if !is_file {
        return Err(OpenTrouble::NotAFile);
    }
    if stamp.length == 0 {
        return Err(OpenTrouble::Empty);
    }
    if stamp.length == 1 {
        Ok(1)
    } else {
        Ok(2)
    }
}

/// Whether a file that starts like this is a raw elementary stream.
pub fn is_raw(prefix: &Vec<u8>) -> (r: bool)
    ensures
        r == (prefix@.len() == 2 && prefix@[0] == 0xac && (prefix@[1] == 0x40 || prefix@[1]
            == 0x41)),
{
    prefix.len() == 2 && prefix[0] == 0xac && (prefix[1] == 0x40 || prefix[1] == 0x41)
}

/// What a reader is told of a file that changed.
pub fn check_stamp(opened: &FileStamp, current: &FileStamp) -> (r: Result<(), &'static str>)
    ensures
        r is Ok == (*opened == *current),
        r is Err ==> r->Err_0@
            == "The media file changed on disk; remove it and add it again to reload"@,
{
    if *opened == *current {
        Ok(())
    } else {
        Err("The media file changed on disk; remove it and add it again to reload")
    }
}

/// How many of `wanted` bytes there are at `offset`.
pub open spec fn available(file_length: u64, offset: u64, wanted: usize) -> int {
    if offset >= file_length {
        0
    } else if file_length - offset < wanted {
        file_length - offset
    } else {
        wanted as int
    }
}

/// How many bytes a read of `wanted` bytes at `offset` reaches.
pub fn read_length(file_length: u64, offset: u64, wanted: usize) -> (r: usize)
    ensures
        r == available(file_length, offset, wanted),
{
    if offset >= file_length {
        return 0;
    }
    let rest: u64 = file_length - offset;
    if rest < wanted as u64 {
        rest as usize
    } else {
        wanted
    }
}

/// Where a reader stands.
#[derive(Debug, Clone, Copy, PartialEq, Eq, Structural)]
pub struct MediaCursor {
    pub position: u64,
}

#[derive(Debug, Clone, Copy, PartialEq, Eq, Structural)]
pub enum SeekTarget {
    Start(u64),
    Current(i64),
    End(i64),
}

/// The position that is asked for, wherever it lies.
pub open spec fn sought(position: u64, file_length: u64, target: SeekTarget) -> int {
    match target {
        SeekTarget::Start(offset) => offset as int,
        SeekTarget::Current(offset) => position + offset,
        SeekTarget::End(offset) => file_length + offset,
    }
}

fn moved(from: u64, by: i64) -> (r: Option<u64>)
    ensures
        r == (if 0 <= from + by <= u64::MAX {
            Some((from + by) as u64)
        } else {
            None
        }),
{
    let wide: i128 = from as i128 + by as i128;
    if wide < 0 || wide > u64::MAX as i128 {
        None
    } else {
        Some(wide as u64)
    }
}

impl MediaCursor {
    /// Moves behind the bytes that were read.
    pub fn advance(&mut self, count: usize)
        ensures
            final(self).position == (if old(self).position + count <= u64::MAX {
                old(self).position + count
            } else {
                u64::MAX as int
            }),
    {
        self.position = self.position.saturating_add(count as u64);
    }

    /// Moves to a position, which may lie behind the end. One that cannot be
    /// counted leaves the reader where it is.
    pub fn seek(&mut self, file_length: u64, target: SeekTarget) -> (r: Result<u64, &'static str>)
        ensures
            match r {
                Ok(position) => position == sought(old(self).position, file_length, target)
                    && final(self).position == position,
                Err(message) => !(0 <= sought(old(self).position, file_length, target) <= u64::MAX)
                    && message@ == "Media seek offset overflow"@ && *final(self) == *old(self),
            },
    {
        let position = match target {
            SeekTarget::Start(offset) => Some(offset),
            SeekTarget::Current(offset) => moved(self.position, offset),
            SeekTarget::End(offset) => moved(file_length, offset),
        };
        match position {
            Some(position) => {
                self.position = position;
                Ok(position)
            },
            None => Err("Media seek offset overflow"),
        }
    }
}

/// Reading never goes beyond the file as it was opened, and stops only there.
pub proof fn a_read_stays_within_the_file(file_length: u64, offset: u64, wanted: usize)
    ensures
        0 <= available(file_length, offset, wanted) <= wanted,
        offset <= file_length ==> offset + available(file_length, offset, wanted) <= file_length,
        available(file_length, offset, wanted) == 0 <==> wanted == 0 || offset >= file_length,
{
}

/// A read that lies within the file is served whole, one that reaches beyond its end up to
/// the end, and one behind the end not at all.
pub proof fn a_read_is_served_up_to_the_end(file_length: u64, offset: u64, wanted: usize)
    ensures
        offset + wanted <= file_length ==> available(file_length, offset, wanted) == wanted,
        offset <= file_length < offset + wanted ==> offset + available(file_length, offset, wanted)
            == file_length,
        offset >= file_length ==> available(file_length, offset, wanted) == 0,
{
}

/// A place is sought from the start, from where the cursor stands, or from the end.
pub proof fn a_place_is_sought_from_where_it_is_counted(
    position: u64,
    file_length: u64,
    offset: u64,
    distance: i64,
)
    ensures
        sought(position, file_length, SeekTarget::Start(offset)) == offset,
        sought(position, file_length, SeekTarget::Current(distance)) - position == distance,
        sought(position, file_length, SeekTarget::End(distance)) - file_length == distance,
{
}

/// A raw stream is told by its first two bytes, and a file is opened only where it is one
/// and holds something.
pub proof fn media_is_told_by_its_beginning(
    prefix: Vec<u8>,
    raw: bool,
    is_file: bool,
    stamp: FileStamp,
    length: Result<usize, OpenTrouble>,
)
    requires
        call_ensures(is_raw, (&prefix,), raw),
        call_ensures(prefix_length, (is_file, &stamp), length),
    ensures
        raw <==> prefix@ == seq![0xacu8, 0x40u8] || prefix@ == seq![0xacu8, 0x41u8],
        length is Ok <==> is_file && stamp.length > 0,
        length is Ok ==> length->Ok_0 <= stamp.length && (length->Ok_0 == 2 || stamp.length == 1),
{
    if raw {
        if prefix@[1] == 0x40 {
            assert(prefix@ =~= seq![0xacu8, 0x40u8]);
        } else {
            assert(prefix@ =~= seq![0xacu8, 0x41u8]);
        }
    }
}

} // verus!
