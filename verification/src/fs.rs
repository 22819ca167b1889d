//! What kind of file-system object a path is asked about. The probing
//! itself does I/O and lives with the runtime, outside this library.

use vstd::prelude::*;

verus! {

/// The kind of file-system object to test a path for.
#[allow(non_camel_case_types)]
pub enum FileType {
    FILE,
    DIR,
    SYMLINK,
}

} // verus!
