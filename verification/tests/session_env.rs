//! Locale selection, the desktop-name token, and the diagnostics toggle.

use task_monitor_core::session::{
    debug_flag_enabled, debug_this_tick, first_colon_token, select_locales,
};

#[test]
fn locales_follow_language_then_lang_without_repeats() {
    let language = b"de_DE.UTF-8:en_US:de_DE".to_vec();
    let lang = b"fr_FR.UTF-8".to_vec();
    let locales = select_locales(Some(&language), Some(&lang));
    assert_eq!(
        locales,
        vec![b"de_DE".to_vec(), b"en_US".to_vec(), b"fr_FR".to_vec()]
    );
}

#[test]
fn lang_already_listed_is_not_repeated() {
    let language = b"en_US:de_DE".to_vec();
    let lang = b"en_US.UTF-8".to_vec();
    let locales = select_locales(Some(&language), Some(&lang));
    assert_eq!(locales, vec![b"en_US".to_vec(), b"de_DE".to_vec()]);
}

#[test]
fn absent_locale_values_fall_back_to_the_default() {
    assert_eq!(select_locales(None, None), vec![b"en_US".to_vec()]);
    let blank = b" . ".to_vec();
    assert_eq!(select_locales(Some(&blank), None), vec![b"en_US".to_vec()]);
}

#[test]
fn the_desktop_name_is_the_first_colon_token() {
    assert_eq!(first_colon_token(b"COSMIC:GNOME"), b"COSMIC".to_vec());
    assert_eq!(first_colon_token(b"KDE"), b"KDE".to_vec());
    assert_eq!(first_colon_token(b""), b"".to_vec());
}

#[test]
fn the_diagnostics_toggle_accepts_the_usual_spellings() {
    let one = b"1".to_vec();
    let yes = b" YES ".to_vec();
    let on = b"on".to_vec();
    let off = b"off".to_vec();
    assert!(debug_flag_enabled(Some(&one)));
    assert!(debug_flag_enabled(Some(&yes)));
    assert!(debug_flag_enabled(Some(&on)));
    assert!(!debug_flag_enabled(Some(&off)));
    assert!(!debug_flag_enabled(None));
}

#[test]
fn diagnostics_sample_every_fifth_tick() {
    assert!(debug_this_tick(5, true));
    assert!(debug_this_tick(0, true));
    assert!(!debug_this_tick(4, true));
    assert!(!debug_this_tick(5, false));
}
