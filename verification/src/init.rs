//! The rules of initialisation: when the first checkpoint may be made.

use vstd::prelude::*;

verus! {

/// Why a repository cannot be initialised.
#[derive(Clone, Copy, Debug, PartialEq, Eq, Structural)]
pub enum InitError {
    /// The checkpoint exists already.
    TagAlreadyExists,
    /// The tip does not hold the file that lists the authorized keys.
    AuthorizedKeysMissing,
}

/// Whether the first checkpoint may be made at the tip.
///
/// `checkpoint_exists` says whether the checkpoint reference resolves,
/// `authorized_keys_found` whether the tip holds a file at the path of the
/// authorized keys. An existing checkpoint is reported first.
pub fn init_preconditions(checkpoint_exists: bool, authorized_keys_found: bool) -> (r: Result<
    (),
    InitError,
>)
    ensures
        r == if checkpoint_exists {
            Err::<(), InitError>(InitError::TagAlreadyExists)
        } else if !authorized_keys_found {
            Err(InitError::AuthorizedKeysMissing)
        } else {
            Ok(())
        },
{
    if checkpoint_exists {
        Err(InitError::TagAlreadyExists)
    } else if !authorized_keys_found {
        Err(InitError::AuthorizedKeysMissing)
    } else {
        Ok(())
    }
}

} // verus!
