//! Names and settings shared by the whole crate.
//!
//! The keyring home is given relative to the working directory, so that a
//! repository can be moved, and is resolved against it on every invocation.

use vstd::prelude::*;
use vstd::string::*;

verus! {

/// Name of the checkpoint tag.
pub const TAG_NAME: &'static str = "SIGN_VERIFIED";

/// Exit status reported when a pass ends with a rejected signature.
pub const EXIT_INVALID_SIGNATURE: i32 = 127;

/// Path, inside a commit, of the file that lists the authorized keys.
pub const AUTHORIZED_KEYS_FILE: &'static str = ".gpg_authorized_keys";

/// Key of the local setting that stores the keyring home.
pub const GPGME_HOME_DIR_KEY: &'static str = "git-sign-verifier.gpgmehomedir";

/// Settings resolved once per invocation.
pub struct Config {
    /// Keyring home of the cryptographic engine; `None` selects the engine's default.
    pub gpgme_home_dir: Option<String>,
}

/// What resolving the keyring home comes to.
pub struct HomeDirResolution {
    /// The settings for this invocation.
    pub config: Config,
    /// The value to store in the local settings, where one was given.
    pub persist: Option<String>,
}

/// `dir` seen from `workdir`: `dir` itself where it starts at the root,
/// else `workdir` and `dir` with exactly one separator between them.
pub open spec fn spec_abs_path(workdir: Seq<char>, dir: Seq<char>) -> Seq<char> {
    if dir.len() > 0 && dir[0] == '/' {
        dir
    } else if workdir.len() > 0 && workdir.last() != '/' {
        workdir + seq!['/'] + dir
    } else {
        workdir + dir
    }
}

/// The keyring home for this invocation: the directory given, else the one
/// stored, each seen from `workdir`; `None` where neither exists.
pub open spec fn spec_home_dir(
    given: Option<Seq<char>>,
    stored: Option<Seq<char>>,
    workdir: Seq<char>,
) -> Option<Seq<char>> {
    match given {
        Some(dir) => Some(spec_abs_path(workdir, dir)),
        None => match stored {
            Some(dir) => Some(spec_abs_path(workdir, dir)),
            None => None,
        },
    }
}

/// The text of an optional string.
pub open spec fn text_of(s: Option<String>) -> Option<Seq<char>> {
    match s {
        Some(v) => Some(v@),
        None => None,
    }
}

/// Resolves `dir` against `workdir`.
pub fn abs_path(workdir: &str, dir: &str) -> (path: String)
    ensures
        path@ == spec_abs_path(workdir@, dir@),
{
    let dir_len: usize = dir.unicode_len();
    if dir_len > 0 && dir.get_char(0) == '/' {
        return String::from_str(dir);
    }
    let workdir_len: usize = workdir.unicode_len();
    let mut path = String::from_str(workdir);
    if workdir_len > 0 && workdir.get_char(workdir_len - 1) != '/' {
        path.append("/");
        proof {
            reveal_strlit("/");
        }
    }
    path.append(dir);
    path
}

/// Resolves the keyring home for this invocation.
///
/// A directory given on the command line wins and is to be stored for the
/// invocations to come. Without one, the stored directory is used. With
/// neither, the engine's default keyring is used and nothing is stored.
pub fn resolve_gpgme_home_dir(given: Option<String>, stored: Option<String>, workdir: &str) -> (r:
    HomeDirResolution)
    ensures
        text_of(r.config.gpgme_home_dir) == spec_home_dir(
            text_of(given),
            text_of(stored),
            workdir@,
        ),
        text_of(r.persist) == text_of(given),
{
    match given {
        Some(dir) => {
            let path = abs_path(workdir, dir.as_str());
            HomeDirResolution { config: Config { gpgme_home_dir: Some(path) }, persist: Some(dir) }
        },
        None => match stored {
            Some(dir) => {
                let path = abs_path(workdir, dir.as_str());
                HomeDirResolution { config: Config { gpgme_home_dir: Some(path) }, persist: None }
            },
            None => HomeDirResolution { config: Config { gpgme_home_dir: None }, persist: None },
        },
    }
}

} // verus!
