//! Steam id extraction, manifest field scanning, and VDF library roots.

use task_monitor_core::steam::{
    acf_value, extract_steam_app_id, manifest_name, manifest_path, pick_icon_file,
    steam_app_identity, steam_fallback_name, steam_id_from_app_id, steam_install_path,
    steam_library_roots, steam_library_roots_from_vdf, steam_root_candidates, steam_uri,
    steamapps_dir,
};

#[test]
fn app_extracts_steam_app_id_from_reaper_cmdline() {
    let value = "SteamLaunch AppId=1903340 -- proton waitforexitandrun";
    assert_eq!(
        extract_steam_app_id(value.as_bytes()),
        Some(b"1903340".to_vec())
    );
}

#[test]
fn app_extracts_steam_app_id_from_gameoverlay_flag() {
    let value = "gameoverlayui -pid 333322 -steampid 327614 -gameid 1903340";
    assert_eq!(
        extract_steam_app_id(value.as_bytes()),
        Some(b"1903340".to_vec())
    );
}

#[test]
fn app_extracts_steam_app_id_from_steam_app_token() {
    let value = "steam_app_730";
    assert_eq!(extract_steam_app_id(value.as_bytes()), Some(b"730".to_vec()));
}

#[test]
fn app_extracts_name_from_acf_line() {
    let content = r#"
"AppState"
{
    "appid"     "1903340"
    "name"      "Clair Obscur: Expedition 33"
}
"#;
    assert_eq!(
        acf_value(content.as_bytes(), b"name"),
        Some(b"Clair Obscur: Expedition 33".to_vec())
    );
}

#[test]
fn app_extracts_library_roots_from_vdf_path_lines() {
    let vdf = r#"
"libraryfolders"
{
    "0"
    {
        "path"      "/home/exepta/.local/share/Steam"
    }
    "1"
    {
        "path"      "/run/media/exepta/Games/SteamLibrary"
    }
}
"#;
    let roots = steam_library_roots_from_vdf(vdf.as_bytes());
    assert!(roots.iter().any(|p| p.ends_with(b"Steam")));
    assert!(roots.iter().any(|p| p.ends_with(b"SteamLibrary")));
}

#[test]
fn process_extracts_steam_app_id_from_reaper_cmdline() {
    let value = "SteamLaunch AppId=1903340 -- proton waitforexitandrun";
    assert_eq!(
        extract_steam_app_id(value.as_bytes()),
        Some(b"1903340".to_vec())
    );
}

#[test]
fn process_extracts_steam_app_id_from_gameoverlay_flag() {
    let value = "gameoverlayui -pid 333322 -steampid 327614 -gameid 1903340";
    assert_eq!(
        extract_steam_app_id(value.as_bytes()),
        Some(b"1903340".to_vec())
    );
}

#[test]
fn process_extracts_steam_app_id_from_steam_app_token() {
    let value = "steam_app_730";
    assert_eq!(extract_steam_app_id(value.as_bytes()), Some(b"730".to_vec()));
}

#[test]
fn process_extracts_name_from_acf_line() {
    let content = r#"
"AppState"
{
    "appid"     "1903340"
    "name"      "Clair Obscur: Expedition 33"
}
"#;
    assert_eq!(
        acf_value(content.as_bytes(), b"name"),
        Some(b"Clair Obscur: Expedition 33".to_vec())
    );
}

#[test]
fn process_extracts_library_roots_from_vdf_path_lines() {
    let vdf = r#"
"libraryfolders"
{
    "0"
    {
        "path"      "/home/exepta/.local/share/Steam"
    }
    "1"
    {
        "path"      "/run/media/exepta/Games/SteamLibrary"
    }
}
"#;
    let roots = steam_library_roots_from_vdf(vdf.as_bytes());
    assert!(roots.iter().any(|p| p.ends_with(b"Steam")));
    assert!(roots.iter().any(|p| p.ends_with(b"SteamLibrary")));
}

#[test]
fn a_zero_valued_marker_yields_no_id() {
    assert_eq!(extract_steam_app_id(b"appid=0"), None);
    assert_eq!(extract_steam_app_id(b"gameid: 0"), None);
}

#[test]
fn a_failed_marker_falls_through_to_the_next() {
    // The first marker's digits are rejected, the second marker's are taken.
    assert_eq!(extract_steam_app_id(b"appid=0 gameid=57"), Some(b"57".to_vec()));
}

#[test]
fn rungameid_uris_carry_ids() {
    assert_eq!(
        extract_steam_app_id(b"xdg-open steam://rungameid/1086940"),
        Some(b"1086940".to_vec())
    );
}

#[test]
fn blank_values_carry_no_id() {
    assert_eq!(extract_steam_app_id(b"   "), None);
    assert_eq!(extract_steam_app_id(b""), None);
}

#[test]
fn markers_match_case_insensitively() {
    assert_eq!(
        extract_steam_app_id(b"SteamLaunch APPID=42 --"),
        Some(b"42".to_vec())
    );
}

#[test]
fn acf_keys_match_case_insensitively() {
    let content = "\"AppState\"\n{\n    \"NAME\"  \"Half-Life\"\n}\n";
    assert_eq!(acf_value(content.as_bytes(), b"name"), Some(b"Half-Life".to_vec()));
}

#[test]
fn acf_lines_without_three_quotes_carry_nothing() {
    let content = "{\n}\n\"lonely\"\n";
    assert_eq!(acf_value(content.as_bytes(), b"lonely"), None);
}

#[test]
fn vdf_paths_are_unescaped_and_deduplicated() {
    let vdf = "\"path\"  \"C:\\\\Games\\\\Steam\"\n\"path\"  \"C:\\\\Games\\\\Steam\"\n\"path\"  \"/srv/steam\"\n";
    let roots = steam_library_roots_from_vdf(vdf.as_bytes());
    assert_eq!(roots.len(), 2);
    assert_eq!(roots[0], b"C:\\Games\\Steam".to_vec());
    assert_eq!(roots[1], b"/srv/steam".to_vec());
}

#[test]
fn manifest_name_is_trimmed_and_blank_names_fall_away() {
    let content = "\"name\"   \"  Dusk  \"\n";
    assert_eq!(manifest_name(content.as_bytes()), Some(b"Dusk".to_vec()));
    let blank = "\"name\"   \"   \"\n";
    assert_eq!(manifest_name(blank.as_bytes()), None);
}

#[test]
fn steamapps_dir_keeps_a_steamapps_root() {
    assert_eq!(
        steamapps_dir(b"/data/SteamLibrary/steamapps"),
        b"/data/SteamLibrary/steamapps".to_vec()
    );
    assert_eq!(
        steamapps_dir(b"/data/SteamLibrary/SteamApps"),
        b"/data/SteamLibrary/SteamApps".to_vec()
    );
    assert_eq!(
        steamapps_dir(b"/data/SteamLibrary"),
        b"/data/SteamLibrary/steamapps".to_vec()
    );
}

#[test]
fn manifest_paths_are_assembled_under_steamapps() {
    assert_eq!(
        manifest_path(b"/data/Steam/steamapps", b"730"),
        b"/data/Steam/steamapps/appmanifest_730.acf".to_vec()
    );
}

#[test]
fn install_paths_join_common_with_the_installdir_field() {
    let manifest = "\"installdir\"   \"Team Fortress 2\"\n";
    assert_eq!(
        steam_install_path(b"/data/Steam/steamapps", manifest.as_bytes()),
        Some(b"/data/Steam/steamapps/common/Team Fortress 2".to_vec())
    );
    assert_eq!(steam_install_path(b"/data/Steam/steamapps", b"\"name\" \"x\"\n"), None);
}

#[test]
fn steam_identity_strings_round_trip() {
    assert_eq!(steam_app_identity(b"730"), b"steam-app-730".to_vec());
    assert_eq!(steam_id_from_app_id(b"steam-app-730"), Some(b"730".to_vec()));
    assert_eq!(steam_id_from_app_id(b"firefox"), None);
    assert_eq!(steam_uri(b"730"), b"steam://rungameid/730".to_vec());
    assert_eq!(steam_fallback_name(b"730"), b"Steam App 730".to_vec());
}

#[test]
fn root_candidates_follow_env_order_without_duplicates() {
    let compat = b"/home/u/.local/share/Steam".to_vec();
    let home = b"/home/u".to_vec();
    let roots = steam_root_candidates(Some(&compat), Some(&home));
    assert_eq!(
        roots,
        vec![
            b"/home/u/.local/share/Steam".to_vec(),
            b"/home/u/.steam/steam".to_vec(),
        ]
    );
    let none = steam_root_candidates(None, None);
    assert!(none.is_empty());
}

#[test]
fn library_roots_keep_each_root_before_its_vdf_entries() {
    let roots = vec![b"/a/Steam".to_vec(), b"/b/Steam".to_vec()];
    let vdf = "\"path\" \"/c/SteamLibrary\"\n";
    let bodies = vec![Some(vdf.as_bytes().to_vec()), None];
    let out = steam_library_roots(&roots, &bodies);
    assert_eq!(
        out,
        vec![
            b"/a/Steam".to_vec(),
            b"/c/SteamLibrary".to_vec(),
            b"/b/Steam".to_vec(),
        ]
    );
}

#[test]
fn icon_choice_prefers_the_known_names_then_the_first_image() {
    let files = vec![
        b"zz.webp".to_vec(),
        b"logo.png".to_vec(),
        b"library_header.jpg".to_vec(),
    ];
    assert_eq!(pick_icon_file(&files), Some(b"logo.png".to_vec()));
    let fallback = vec![
        b"readme.txt".to_vec(),
        b"b.png".to_vec(),
        b"a.jpg".to_vec(),
    ];
    assert_eq!(pick_icon_file(&fallback), Some(b"a.jpg".to_vec()));
    let none: Vec<Vec<u8>> = vec![b"readme.txt".to_vec()];
    assert_eq!(pick_icon_file(&none), None);
}
