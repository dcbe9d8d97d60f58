//! File handling
//!
//! A file is named by a path on the volume that the loader comes from, or,
//! with `fs` and a number and a colon in front, on another volume.
use vstd::prelude::*;
use vstd::string::*;
use crate::status::Status;
use crate::text::{find_char, first_index_of, number_of, parse_usize};

verus! {

/// What separates the parts of a path.
pub const SEPARATOR: char = '\\';

/// The volume that a file is on.
#[derive(Clone, Copy, Debug, PartialEq, Eq, Structural)]
pub enum Volume {
    /// the volume we're loaded from
    Image,
    /// the file system with this number
    Numbered(usize),
}

/// Where a file is.
#[derive(Debug)]
pub struct Location {
    pub volume: Volume,
    /// the path on that volume
    pub path: String,
}

/// The first part of a path: what stands before the first separator.
pub open spec fn root_of(name: Seq<char>) -> Seq<char> {
    match first_index_of(name, SEPARATOR) {
        Some(i) => name.subrange(0, i),
        None => name,
    }
}

/// What stands behind the first part of a path and its separator.
pub open spec fn behind_root(name: Seq<char>) -> Seq<char> {
    match first_index_of(name, SEPARATOR) {
        Some(i) => name.subrange(i + 1, name.len() as int),
        None => Seq::empty(),
    }
}

/// Whether the first part of a path names a volume: it ends with a colon.
pub open spec fn names_volume(root: Seq<char>) -> bool {
    root.len() > 0 && root.last() == ':'
}

/// Whether the name of a volume is of the form `fs`, in small or capital
/// letters, a number, and a colon.
pub open spec fn is_fs_volume(root: Seq<char>) -> bool {
    &&& root.len() >= 3
    &&& (root[0] == 'f' || root[0] == 'F')
    &&& (root[1] == 's' || root[1] == 'S')
    &&& root.last() == ':'
}

/// The number in the name of a volume.
pub open spec fn volume_number(root: Seq<char>) -> Option<nat> {
    number_of(root.subrange(2, root.len() - 1))
}

/// Where the file of this name is.
pub open spec fn location_of(name: Seq<char>) -> Result<(Volume, Seq<char>), Status> {
    let root = root_of(name);
    if names_volume(root) {
        if is_fs_volume(root) {
            match volume_number(root) {
                Some(number) => if number <= usize::MAX {
                    Ok((Volume::Numbered(number as usize), behind_root(name)))
                } else {
                    Err(Status::InvalidParameter)
                },
                None => Err(Status::InvalidParameter),
            }
        } else {
            Err(Status::InvalidParameter)
        }
    } else {
        Ok((Volume::Image, name))
    }
}

/// Says where to open a file.
///
/// The path can be:
/// * relative to the volume we're loaded from
/// * on a different volume (if it starts with `fs?:`)
///
/// This fails with `InvalidParameter` where the volume identifier is
/// invalid.
pub fn locate(name: &str) -> (r: Result<Location, Status>)
    ensures
        match location_of(name@) {
            Ok((volume, path)) => r matches Ok(location) && location.volume == volume
                && location.path@ == path,
            Err(e) => r matches Err(error) && error == e,
        },
{
    let len: usize = name.unicode_len();
    let root_len: usize = match find_char(name, SEPARATOR) {
        Some(i) => i,
        None => len,
    };
    let ghost root = root_of(name@);
    assert(root == name@.subrange(0, root_len as int));
    if root_len == 0 || name.get_char(root_len - 1) != ':' {
        assert(!names_volume(root)) by {
            if root_len > 0 {
                assert(root.last() == name@[root_len - 1]);
            }
        }
        return Ok(Location { volume: Volume::Image, path: String::from_str(name) });
    }
    assert(names_volume(root)) by {
        assert(root.last() == name@[root_len - 1]);
    }
    if root_len < 3 {
        return Err(Status::InvalidParameter);
    }
    let first: char = name.get_char(0);
    let second: char = name.get_char(1);
    assert(root[0] == first && root[1] == second);
    if !(first == 'f' || first == 'F') || !(second == 's' || second == 'S') {
        // don't know how to open this
        return Err(Status::InvalidParameter);
    }
    let digits: &str = name.substring_char(2, root_len - 1);
    assert(digits@ == root.subrange(2, root.len() - 1));
    let number: usize = match parse_usize(digits) {
        Some(number) => number,
        None => {
            return Err(Status::InvalidParameter);
        },
    };
    let path: String = if root_len < len {
        String::from_str(name.substring_char(root_len + 1, len))
    } else {
        String::new()
    };
    Ok(Location { volume: Volume::Numbered(number), path })
}

/// Checks that a whole file has been read: this fails with `EndOfFile`
/// where fewer bytes were read than the file has.
pub fn check_read(read_size: usize, size: usize) -> (r: Result<(), Status>)
    ensures
        r is Ok <==> read_size == size,
        r matches Err(e) ==> e == Status::EndOfFile,
{
    if read_size == size {
        Ok(())
    } else {
        Err(Status::EndOfFile)
    }
}

} // verus!
