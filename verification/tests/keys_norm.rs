//! Exec-key normalization, aliasing, and match-token extraction.

use task_monitor_core::keys::{
    alias_key, exec_candidate_keys, exec_primary_keys, extract_match_token, is_exec_like_arg,
    normalize_exec_key,
};

#[test]
fn normalization_lowers_hyphenates_and_trims() {
    assert_eq!(
        normalize_exec_key(b"  Foo_Bar.App  "),
        Some(b"foo-bar-app".to_vec())
    );
    assert_eq!(normalize_exec_key(b"--x--"), Some(b"x".to_vec()));
    assert_eq!(normalize_exec_key(b"   "), None);
    assert_eq!(normalize_exec_key(b"---"), None);
}

#[test]
fn normalization_is_idempotent_on_ordinary_input() {
    let inputs: [&[u8]; 4] = [
        b"  Foo_Bar.App  ",
        b"GIMP 2.10",
        b"--weird--name--",
        b"already-normal",
    ];
    for value in inputs {
        let once = normalize_exec_key(value).unwrap();
        let twice = normalize_exec_key(&once).unwrap();
        assert_eq!(once, twice);
    }
}

#[test]
fn channel_and_role_suffixes_strip_into_aliases() {
    assert_eq!(alias_key(b"firefox-beta"), b"firefox".to_vec());
    assert_eq!(alias_key(b"signal-desktop"), b"signal".to_vec());
    assert_eq!(alias_key(b"telegram-desktop-bin"), b"telegram".to_vec());
    assert_eq!(alias_key(b"plain"), b"plain".to_vec());
}

#[test]
fn candidate_keys_carry_the_alias_when_it_differs() {
    assert_eq!(
        exec_candidate_keys(b"firefox-beta"),
        vec![b"firefox-beta".to_vec(), b"firefox".to_vec()]
    );
    assert_eq!(exec_candidate_keys(b"gedit"), vec![b"gedit".to_vec()]);
    assert_eq!(
        exec_primary_keys(b"/usr/bin/gedit --new-window"),
        vec![b"gedit".to_vec()]
    );
}

#[test]
fn env_wrappers_are_skipped_to_the_real_target() {
    assert_eq!(
        extract_match_token(b"/usr/bin/env FOO=1 -S /opt/MyApp/run.sh --flag"),
        Some(b"/opt/MyApp/run.sh".to_vec())
    );
    assert_eq!(extract_match_token(b"env FOO=1"), None);
}

#[test]
fn flatpak_run_resolves_to_the_application_reference() {
    assert_eq!(
        extract_match_token(b"flatpak run --branch=stable --arch x86_64 org.mozilla.firefox"),
        Some(b"org.mozilla.firefox".to_vec())
    );
    assert_eq!(
        exec_candidate_keys(b"flatpak run org.mozilla.firefox"),
        vec![b"org-mozilla".to_vec()]
    );
}

#[test]
fn wrapper_shells_yield_no_token() {
    assert_eq!(extract_match_token(b"sh -lc something"), None);
    assert_eq!(extract_match_token(b"/bin/bash script.sh"), None);
    assert_eq!(extract_match_token(b"steam -applaunch 730"), None);
    assert_eq!(extract_match_token(b"gtk-launch firefox"), None);
}

#[test]
fn desktop_suffix_and_quotes_fall_away_before_keying() {
    // The `.desktop` suffix goes first; the stem reduction then treats the
    // last dotted part as an extension.
    assert_eq!(
        exec_candidate_keys(b"\"org.gnome.Calculator.desktop\""),
        vec![b"org-gnome".to_vec()]
    );
    assert_eq!(exec_candidate_keys(b"Calculator.desktop"), vec![b"calculator".to_vec()]);
}

#[test]
fn command_lines_reduce_to_their_program_stem() {
    assert_eq!(
        exec_candidate_keys(b"/usr/lib/firefox/firefox-bin -P default"),
        vec![b"firefox-bin".to_vec(), b"firefox".to_vec()]
    );
}

#[test]
fn exec_like_arguments_are_recognized_by_shape() {
    assert!(is_exec_like_arg(b"/opt/app/bin"));
    assert!(is_exec_like_arg(b"my-tool"));
    assert!(is_exec_like_arg(b"run.sh"));
    assert!(!is_exec_like_arg(b"--flag"));
    assert!(!is_exec_like_arg(b"K=V"));
    assert!(!is_exec_like_arg(b"ab"));
    assert!(!is_exec_like_arg(b"12345"));
    assert!(!is_exec_like_arg(b"plain"));
}
