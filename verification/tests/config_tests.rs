use git_sign_verifier::config::{
    abs_path, resolve_gpgme_home_dir, AUTHORIZED_KEYS_FILE, EXIT_INVALID_SIGNATURE,
    GPGME_HOME_DIR_KEY, TAG_NAME,
};
use git_sign_verifier::init::{init_preconditions, InitError};

#[test]
fn names_are_the_ones_on_disk() {
    assert_eq!(TAG_NAME, "SIGN_VERIFIED");
    assert_eq!(EXIT_INVALID_SIGNATURE, 127);
    assert_eq!(AUTHORIZED_KEYS_FILE, ".gpg_authorized_keys");
    assert_eq!(GPGME_HOME_DIR_KEY, "git-sign-verifier.gpgmehomedir");
}

#[test]
fn relative_directory_is_put_under_the_working_directory() {
    assert_eq!(abs_path("/work/repo/", "gpg"), "/work/repo/gpg");
    assert_eq!(abs_path("/work/repo", "gpg"), "/work/repo/gpg");
    assert_eq!(abs_path("/work/repo/", "../gpg"), "/work/repo/../gpg");
    assert_eq!(abs_path("/", "gpg"), "/gpg");
}

#[test]
fn absolute_directory_stands_for_itself() {
    assert_eq!(abs_path("/work/repo/", "/tmp/gsv-1/gpg"), "/tmp/gsv-1/gpg");
    assert_eq!(abs_path("", "/gpg"), "/gpg");
}

#[test]
fn empty_parts_add_at_most_one_separator() {
    assert_eq!(abs_path("", "gpg"), "gpg");
    assert_eq!(abs_path("/work", ""), "/work/");
    assert_eq!(abs_path("/work/", ""), "/work/");
    assert_eq!(abs_path("", ""), "");
}

#[test]
fn path_agrees_with_joining_paths() {
    let cases = vec![
        ("/work/repo/", "gpg"),
        ("/work/repo", "gpg"),
        ("/work/repo", "/abs/gpg"),
        ("", "gpg"),
        ("/work", ""),
        ("/wörk/", "clé"),
        ("rel", "a/b"),
    ];
    for (workdir, dir) in cases {
        let joined = std::path::Path::new(workdir).join(dir);
        assert_eq!(abs_path(workdir, dir), joined.to_str().unwrap());
    }
}

#[test]
fn given_directory_wins_and_is_stored() {
    let r = resolve_gpgme_home_dir(Some("gpg".to_string()), Some("old".to_string()), "/w/");
    assert_eq!(r.config.gpgme_home_dir, Some("/w/gpg".to_string()));
    assert_eq!(r.persist, Some("gpg".to_string()));
}

#[test]
fn stored_directory_is_used_when_none_is_given() {
    let r = resolve_gpgme_home_dir(None, Some("keys".to_string()), "/w");
    assert_eq!(r.config.gpgme_home_dir, Some("/w/keys".to_string()));
    assert_eq!(r.persist, None);
}

#[test]
fn without_any_directory_the_default_keyring_is_used() {
    let r = resolve_gpgme_home_dir(None, None, "/w");
    assert_eq!(r.config.gpgme_home_dir, None);
    assert_eq!(r.persist, None);
}

#[test]
fn a_tip_without_keys_file_cannot_be_initialised() {
    assert_eq!(init_preconditions(false, false), Err(InitError::AuthorizedKeysMissing));
}

#[test]
fn an_existing_checkpoint_is_reported_first() {
    assert_eq!(init_preconditions(true, true), Err(InitError::TagAlreadyExists));
    assert_eq!(init_preconditions(true, false), Err(InitError::TagAlreadyExists));
}

#[test]
fn a_fresh_repository_with_a_keys_file_may_be_initialised() {
    assert_eq!(init_preconditions(false, true), Ok(()));
}
