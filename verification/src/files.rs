//! Delete handler support: validation of a client-supplied file name
//! against path traversal, and the per-request removal errors.

use vstd::prelude::*;

verus! {

/// Why a removal request failed.
#[derive(PartialEq, Eq, Structural, Clone, Copy, Debug)]
pub enum FileError {
    /// the named file is not in the media directory (benign: it may
    /// have been removed already)
    NotFound,
    /// the filesystem refused the deletion
    PermissionDenied,
    /// the name could escape the media directory
    InvalidName,
}

/// What the filesystem reported for an attempted removal of a
/// validated name.
#[derive(PartialEq, Eq, Structural, Clone, Copy, Debug)]
pub enum RemoveReport {
    Removed,
    Missing,
    Denied,
}

/// A name that cannot escape the media directory: non-empty, free of
/// path separators, and not a current- or parent-directory token.
pub open spec fn valid_name(name: Seq<char>) -> bool {
    &&& name.len() > 0
    &&& name != seq!['.']
    &&& name != seq!['.', '.']
    &&& forall|i: int| 0 <= i < name.len() ==> #[trigger] name[i] != '/' && name[i] != '\\'
}

/// Check a client-supplied file name before it is joined to the media
/// directory: true exactly for names that cannot escape it.
pub fn is_valid_name(name: &str) -> (b: bool)
    ensures
        b == valid_name(name@),
{
    let n = name.unicode_len();
    if n == 0 {
        return false;
    }
    if n == 1 && name.get_char(0) == '.' {
        proof {
            assert(name@ =~= seq!['.']);
        }
        return false;
    }
    if n == 2 && name.get_char(0) == '.' && name.get_char(1) == '.' {
        proof {
            assert(name@ =~= seq!['.', '.']);
        }
        return false;
    }
    let mut i: usize = 0;
    while i < n
        invariant
            i <= n,
            n == name@.len(),
            forall|j: int| 0 <= j < i ==> #[trigger] name@[j] != '/' && name@[j] != '\\',
        decreases n - i,
    {
        let c = name.get_char(i);
        if c == '/' || c == '\\' {
            return false;
        }
        i = i + 1;
    }
    proof {
        if name@ == seq!['.'] {
            assert(name@.len() == 1 && name@[0] == '.');
        }
        if name@ == seq!['.', '.'] {
            assert(name@.len() == 2 && name@[0] == '.' && name@[1] == '.');
        }
    }
    true
}

/// The per-request result of a removal whose name was already
/// validated: a missing file is the benign `NotFound`, a filesystem
/// refusal is `PermissionDenied`.
pub fn remove_outcome(report: RemoveReport) -> (r: Result<(), FileError>)
    ensures
        r == (match report {
            RemoveReport::Removed => Ok::<(), FileError>(()),
            RemoveReport::Missing => Err::<(), FileError>(FileError::NotFound),
            RemoveReport::Denied => Err::<(), FileError>(FileError::PermissionDenied),
        }),
{
    match report {
        RemoveReport::Removed => Ok(()),
        RemoveReport::Missing => Err(FileError::NotFound),
        RemoveReport::Denied => Err(FileError::PermissionDenied),
    }
}

} // verus!
