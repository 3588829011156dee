//! Byte-string constants of the engine, each as a spec sequence and an
//! executable vector that is proved to match it.

use vstd::prelude::*;

verus! {

/// `"-stable"`
pub open spec fn lit_hyphen_stable() -> Seq<u8> {
    seq![45u8, 115u8, 116u8, 97u8, 98u8, 108u8, 101u8]
}

/// `"-stable"`
pub fn blit_hyphen_stable() -> (r: Vec<u8>)
    ensures
        r@ == lit_hyphen_stable(),
{
    let v: Vec<u8> = vec![45u8, 115u8, 116u8, 97u8, 98u8, 108u8, 101u8];
    proof {
        assert(v@ =~= lit_hyphen_stable());
    }
    v
}

/// `"-beta"`
pub open spec fn lit_hyphen_beta() -> Seq<u8> {
    seq![45u8, 98u8, 101u8, 116u8, 97u8]
}

/// `"-beta"`
pub fn blit_hyphen_beta() -> (r: Vec<u8>)
    ensures
        r@ == lit_hyphen_beta(),
{
    let v: Vec<u8> = vec![45u8, 98u8, 101u8, 116u8, 97u8];
    proof {
        assert(v@ =~= lit_hyphen_beta());
    }
    v
}

/// `"-dev"`
pub open spec fn lit_hyphen_dev() -> Seq<u8> {
    seq![45u8, 100u8, 101u8, 118u8]
}

/// `"-dev"`
pub fn blit_hyphen_dev() -> (r: Vec<u8>)
    ensures
        r@ == lit_hyphen_dev(),
{
    let v: Vec<u8> = vec![45u8, 100u8, 101u8, 118u8];
    proof {
        assert(v@ =~= lit_hyphen_dev());
    }
    v
}

/// `"-bin"`
pub open spec fn lit_hyphen_bin() -> Seq<u8> {
    seq![45u8, 98u8, 105u8, 110u8]
}

/// `"-bin"`
pub fn blit_hyphen_bin() -> (r: Vec<u8>)
    ensures
        r@ == lit_hyphen_bin(),
{
    let v: Vec<u8> = vec![45u8, 98u8, 105u8, 110u8];
    proof {
        assert(v@ =~= lit_hyphen_bin());
    }
    v
}

/// `"-browser"`
pub open spec fn lit_hyphen_browser() -> Seq<u8> {
    seq![45u8, 98u8, 114u8, 111u8, 119u8, 115u8, 101u8, 114u8]
}

/// `"-browser"`
pub fn blit_hyphen_browser() -> (r: Vec<u8>)
    ensures
        r@ == lit_hyphen_browser(),
{
    let v: Vec<u8> = vec![45u8, 98u8, 114u8, 111u8, 119u8, 115u8, 101u8, 114u8];
    proof {
        assert(v@ =~= lit_hyphen_browser());
    }
    v
}

/// `"-desktop"`
pub open spec fn lit_hyphen_desktop() -> Seq<u8> {
    seq![45u8, 100u8, 101u8, 115u8, 107u8, 116u8, 111u8, 112u8]
}

/// `"-desktop"`
pub fn blit_hyphen_desktop() -> (r: Vec<u8>)
    ensures
        r@ == lit_hyphen_desktop(),
{
    let v: Vec<u8> = vec![45u8, 100u8, 101u8, 115u8, 107u8, 116u8, 111u8, 112u8];
    proof {
        assert(v@ =~= lit_hyphen_desktop());
    }
    v
}

/// `"-applet"`
pub open spec fn lit_hyphen_applet() -> Seq<u8> {
    seq![45u8, 97u8, 112u8, 112u8, 108u8, 101u8, 116u8]
}

/// `"-applet"`
pub fn blit_hyphen_applet() -> (r: Vec<u8>)
    ensures
        r@ == lit_hyphen_applet(),
{
    let v: Vec<u8> = vec![45u8, 97u8, 112u8, 112u8, 108u8, 101u8, 116u8];
    proof {
        assert(v@ =~= lit_hyphen_applet());
    }
    v
}

/// `".desktop"`
pub open spec fn lit_dot_desktop() -> Seq<u8> {
    seq![46u8, 100u8, 101u8, 115u8, 107u8, 116u8, 111u8, 112u8]
}

/// `".desktop"`
pub fn blit_dot_desktop() -> (r: Vec<u8>)
    ensures
        r@ == lit_dot_desktop(),
{
    let v: Vec<u8> = vec![46u8, 100u8, 101u8, 115u8, 107u8, 116u8, 111u8, 112u8];
    proof {
        assert(v@ =~= lit_dot_desktop());
    }
    v
}

/// `"env"`
pub open spec fn lit_env_word() -> Seq<u8> {
    seq![101u8, 110u8, 118u8]
}

/// `"env"`
pub fn blit_env_word() -> (r: Vec<u8>)
    ensures
        r@ == lit_env_word(),
{
    let v: Vec<u8> = vec![101u8, 110u8, 118u8];
    proof {
        assert(v@ =~= lit_env_word());
    }
    v
}

/// `"flatpak"`
pub open spec fn lit_flatpak() -> Seq<u8> {
    seq![102u8, 108u8, 97u8, 116u8, 112u8, 97u8, 107u8]
}

/// `"flatpak"`
pub fn blit_flatpak() -> (r: Vec<u8>)
    ensures
        r@ == lit_flatpak(),
{
    let v: Vec<u8> = vec![102u8, 108u8, 97u8, 116u8, 112u8, 97u8, 107u8];
    proof {
        assert(v@ =~= lit_flatpak());
    }
    v
}

/// `"run"`
pub open spec fn lit_run() -> Seq<u8> {
    seq![114u8, 117u8, 110u8]
}

/// `"run"`
pub fn blit_run() -> (r: Vec<u8>)
    ensures
        r@ == lit_run(),
{
    let v: Vec<u8> = vec![114u8, 117u8, 110u8];
    proof {
        assert(v@ =~= lit_run());
    }
    v
}

/// `"--arch"`
pub open spec fn lit_flag_arch() -> Seq<u8> {
    seq![45u8, 45u8, 97u8, 114u8, 99u8, 104u8]
}

/// `"--arch"`
pub fn blit_flag_arch() -> (r: Vec<u8>)
    ensures
        r@ == lit_flag_arch(),
{
    let v: Vec<u8> = vec![45u8, 45u8, 97u8, 114u8, 99u8, 104u8];
    proof {
        assert(v@ =~= lit_flag_arch());
    }
    v
}

/// `"--branch"`
pub open spec fn lit_flag_branch() -> Seq<u8> {
    seq![45u8, 45u8, 98u8, 114u8, 97u8, 110u8, 99u8, 104u8]
}

/// `"--branch"`
pub fn blit_flag_branch() -> (r: Vec<u8>)
    ensures
        r@ == lit_flag_branch(),
{
    let v: Vec<u8> = vec![45u8, 45u8, 98u8, 114u8, 97u8, 110u8, 99u8, 104u8];
    proof {
        assert(v@ =~= lit_flag_branch());
    }
    v
}

/// `"--command"`
pub open spec fn lit_flag_command() -> Seq<u8> {
    seq![45u8, 45u8, 99u8, 111u8, 109u8, 109u8, 97u8, 110u8, 100u8]
}

/// `"--command"`
pub fn blit_flag_command() -> (r: Vec<u8>)
    ensures
        r@ == lit_flag_command(),
{
    let v: Vec<u8> = vec![45u8, 45u8, 99u8, 111u8, 109u8, 109u8, 97u8, 110u8, 100u8];
    proof {
        assert(v@ =~= lit_flag_command());
    }
    v
}

/// `"--file-forwarding"`
pub open spec fn lit_flag_file_forwarding() -> Seq<u8> {
    seq![45u8, 45u8, 102u8, 105u8, 108u8, 101u8, 45u8, 102u8, 111u8, 114u8, 119u8, 97u8, 114u8, 100u8, 105u8, 110u8, 103u8]
}

/// `"--file-forwarding"`
pub fn blit_flag_file_forwarding() -> (r: Vec<u8>)
    ensures
        r@ == lit_flag_file_forwarding(),
{
    let v: Vec<u8> = vec![45u8, 45u8, 102u8, 105u8, 108u8, 101u8, 45u8, 102u8, 111u8, 114u8, 119u8, 97u8, 114u8, 100u8, 105u8, 110u8, 103u8];
    proof {
        assert(v@ =~= lit_flag_file_forwarding());
    }
    v
}

/// `"steam"`
pub open spec fn lit_steam() -> Seq<u8> {
    seq![115u8, 116u8, 101u8, 97u8, 109u8]
}

/// `"steam"`
pub fn blit_steam() -> (r: Vec<u8>)
    ensures
        r@ == lit_steam(),
{
    let v: Vec<u8> = vec![115u8, 116u8, 101u8, 97u8, 109u8];
    proof {
        assert(v@ =~= lit_steam());
    }
    v
}

/// `"gtk-launch"`
pub open spec fn lit_gtk_launch() -> Seq<u8> {
    seq![103u8, 116u8, 107u8, 45u8, 108u8, 97u8, 117u8, 110u8, 99u8, 104u8]
}

/// `"gtk-launch"`
pub fn blit_gtk_launch() -> (r: Vec<u8>)
    ensures
        r@ == lit_gtk_launch(),
{
    let v: Vec<u8> = vec![103u8, 116u8, 107u8, 45u8, 108u8, 97u8, 117u8, 110u8, 99u8, 104u8];
    proof {
        assert(v@ =~= lit_gtk_launch());
    }
    v
}

/// `"xdg-open"`
pub open spec fn lit_xdg_open() -> Seq<u8> {
    seq![120u8, 100u8, 103u8, 45u8, 111u8, 112u8, 101u8, 110u8]
}

/// `"xdg-open"`
pub fn blit_xdg_open() -> (r: Vec<u8>)
    ensures
        r@ == lit_xdg_open(),
{
    let v: Vec<u8> = vec![120u8, 100u8, 103u8, 45u8, 111u8, 112u8, 101u8, 110u8];
    proof {
        assert(v@ =~= lit_xdg_open());
    }
    v
}

/// `"sh"`
pub open spec fn lit_sh() -> Seq<u8> {
    seq![115u8, 104u8]
}

/// `"sh"`
pub fn blit_sh() -> (r: Vec<u8>)
    ensures
        r@ == lit_sh(),
{
    let v: Vec<u8> = vec![115u8, 104u8];
    proof {
        assert(v@ =~= lit_sh());
    }
    v
}

/// `"bash"`
pub open spec fn lit_bash() -> Seq<u8> {
    seq![98u8, 97u8, 115u8, 104u8]
}

/// `"bash"`
pub fn blit_bash() -> (r: Vec<u8>)
    ensures
        r@ == lit_bash(),
{
    let v: Vec<u8> = vec![98u8, 97u8, 115u8, 104u8];
    proof {
        assert(v@ =~= lit_bash());
    }
    v
}

/// `"zsh"`
pub open spec fn lit_zsh() -> Seq<u8> {
    seq![122u8, 115u8, 104u8]
}

/// `"zsh"`
pub fn blit_zsh() -> (r: Vec<u8>)
    ensures
        r@ == lit_zsh(),
{
    let v: Vec<u8> = vec![122u8, 115u8, 104u8];
    proof {
        assert(v@ =~= lit_zsh());
    }
    v
}

/// `"fish"`
pub open spec fn lit_fish() -> Seq<u8> {
    seq![102u8, 105u8, 115u8, 104u8]
}

/// `"fish"`
pub fn blit_fish() -> (r: Vec<u8>)
    ensures
        r@ == lit_fish(),
{
    let v: Vec<u8> = vec![102u8, 105u8, 115u8, 104u8];
    proof {
        assert(v@ =~= lit_fish());
    }
    v
}

/// `"appid="`
pub open spec fn lit_marker_appid() -> Seq<u8> {
    seq![97u8, 112u8, 112u8, 105u8, 100u8, 61u8]
}

/// `"appid="`
pub fn blit_marker_appid() -> (r: Vec<u8>)
    ensures
        r@ == lit_marker_appid(),
{
    let v: Vec<u8> = vec![97u8, 112u8, 112u8, 105u8, 100u8, 61u8];
    proof {
        assert(v@ =~= lit_marker_appid());
    }
    v
}

/// `"gameid="`
pub open spec fn lit_marker_gameid_eq() -> Seq<u8> {
    seq![103u8, 97u8, 109u8, 101u8, 105u8, 100u8, 61u8]
}

/// `"gameid="`
pub fn blit_marker_gameid_eq() -> (r: Vec<u8>)
    ensures
        r@ == lit_marker_gameid_eq(),
{
    let v: Vec<u8> = vec![103u8, 97u8, 109u8, 101u8, 105u8, 100u8, 61u8];
    proof {
        assert(v@ =~= lit_marker_gameid_eq());
    }
    v
}

/// `"-gameid"`
pub open spec fn lit_marker_dash_gameid() -> Seq<u8> {
    seq![45u8, 103u8, 97u8, 109u8, 101u8, 105u8, 100u8]
}

/// `"-gameid"`
pub fn blit_marker_dash_gameid() -> (r: Vec<u8>)
    ensures
        r@ == lit_marker_dash_gameid(),
{
    let v: Vec<u8> = vec![45u8, 103u8, 97u8, 109u8, 101u8, 105u8, 100u8];
    proof {
        assert(v@ =~= lit_marker_dash_gameid());
    }
    v
}

/// `"steam_app_"`
pub open spec fn lit_marker_steam_app() -> Seq<u8> {
    seq![115u8, 116u8, 101u8, 97u8, 109u8, 95u8, 97u8, 112u8, 112u8, 95u8]
}

/// `"steam_app_"`
pub fn blit_marker_steam_app() -> (r: Vec<u8>)
    ensures
        r@ == lit_marker_steam_app(),
{
    let v: Vec<u8> = vec![115u8, 116u8, 101u8, 97u8, 109u8, 95u8, 97u8, 112u8, 112u8, 95u8];
    proof {
        assert(v@ =~= lit_marker_steam_app());
    }
    v
}

/// `"rungameid/"`
pub open spec fn lit_marker_rungameid() -> Seq<u8> {
    seq![114u8, 117u8, 110u8, 103u8, 97u8, 109u8, 101u8, 105u8, 100u8, 47u8]
}

/// `"rungameid/"`
pub fn blit_marker_rungameid() -> (r: Vec<u8>)
    ensures
        r@ == lit_marker_rungameid(),
{
    let v: Vec<u8> = vec![114u8, 117u8, 110u8, 103u8, 97u8, 109u8, 101u8, 105u8, 100u8, 47u8];
    proof {
        assert(v@ =~= lit_marker_rungameid());
    }
    v
}

/// `"path"`
pub open spec fn lit_path_key() -> Seq<u8> {
    seq![112u8, 97u8, 116u8, 104u8]
}

/// `"path"`
pub fn blit_path_key() -> (r: Vec<u8>)
    ensures
        r@ == lit_path_key(),
{
    let v: Vec<u8> = vec![112u8, 97u8, 116u8, 104u8];
    proof {
        assert(v@ =~= lit_path_key());
    }
    v
}

/// `"name"`
pub open spec fn lit_name_key() -> Seq<u8> {
    seq![110u8, 97u8, 109u8, 101u8]
}

/// `"name"`
pub fn blit_name_key() -> (r: Vec<u8>)
    ensures
        r@ == lit_name_key(),
{
    let v: Vec<u8> = vec![110u8, 97u8, 109u8, 101u8];
    proof {
        assert(v@ =~= lit_name_key());
    }
    v
}

/// `"installdir"`
pub open spec fn lit_installdir_key() -> Seq<u8> {
    seq![105u8, 110u8, 115u8, 116u8, 97u8, 108u8, 108u8, 100u8, 105u8, 114u8]
}

/// `"installdir"`
pub fn blit_installdir_key() -> (r: Vec<u8>)
    ensures
        r@ == lit_installdir_key(),
{
    let v: Vec<u8> = vec![105u8, 110u8, 115u8, 116u8, 97u8, 108u8, 108u8, 100u8, 105u8, 114u8];
    proof {
        assert(v@ =~= lit_installdir_key());
    }
    v
}

/// `"steamapps"`
pub open spec fn lit_steamapps() -> Seq<u8> {
    seq![115u8, 116u8, 101u8, 97u8, 109u8, 97u8, 112u8, 112u8, 115u8]
}

/// `"steamapps"`
pub fn blit_steamapps() -> (r: Vec<u8>)
    ensures
        r@ == lit_steamapps(),
{
    let v: Vec<u8> = vec![115u8, 116u8, 101u8, 97u8, 109u8, 97u8, 112u8, 112u8, 115u8];
    proof {
        assert(v@ =~= lit_steamapps());
    }
    v
}

/// `"common"`
pub open spec fn lit_common() -> Seq<u8> {
    seq![99u8, 111u8, 109u8, 109u8, 111u8, 110u8]
}

/// `"common"`
pub fn blit_common() -> (r: Vec<u8>)
    ensures
        r@ == lit_common(),
{
    let v: Vec<u8> = vec![99u8, 111u8, 109u8, 109u8, 111u8, 110u8];
    proof {
        assert(v@ =~= lit_common());
    }
    v
}

/// `"appmanifest_"`
pub open spec fn lit_appmanifest_prefix() -> Seq<u8> {
    seq![97u8, 112u8, 112u8, 109u8, 97u8, 110u8, 105u8, 102u8, 101u8, 115u8, 116u8, 95u8]
}

/// `"appmanifest_"`
pub fn blit_appmanifest_prefix() -> (r: Vec<u8>)
    ensures
        r@ == lit_appmanifest_prefix(),
{
    let v: Vec<u8> = vec![97u8, 112u8, 112u8, 109u8, 97u8, 110u8, 105u8, 102u8, 101u8, 115u8, 116u8, 95u8];
    proof {
        assert(v@ =~= lit_appmanifest_prefix());
    }
    v
}

/// `".acf"`
pub open spec fn lit_dot_acf() -> Seq<u8> {
    seq![46u8, 97u8, 99u8, 102u8]
}

/// `".acf"`
pub fn blit_dot_acf() -> (r: Vec<u8>)
    ensures
        r@ == lit_dot_acf(),
{
    let v: Vec<u8> = vec![46u8, 97u8, 99u8, 102u8];
    proof {
        assert(v@ =~= lit_dot_acf());
    }
    v
}

/// `"steam-app-"`
pub open spec fn lit_steam_app_id_prefix() -> Seq<u8> {
    seq![115u8, 116u8, 101u8, 97u8, 109u8, 45u8, 97u8, 112u8, 112u8, 45u8]
}

/// `"steam-app-"`
pub fn blit_steam_app_id_prefix() -> (r: Vec<u8>)
    ensures
        r@ == lit_steam_app_id_prefix(),
{
    let v: Vec<u8> = vec![115u8, 116u8, 101u8, 97u8, 109u8, 45u8, 97u8, 112u8, 112u8, 45u8];
    proof {
        assert(v@ =~= lit_steam_app_id_prefix());
    }
    v
}

/// `"steam://rungameid/"`
pub open spec fn lit_steam_rungameid_uri() -> Seq<u8> {
    seq![115u8, 116u8, 101u8, 97u8, 109u8, 58u8, 47u8, 47u8, 114u8, 117u8, 110u8, 103u8, 97u8, 109u8, 101u8, 105u8, 100u8, 47u8]
}

/// `"steam://rungameid/"`
pub fn blit_steam_rungameid_uri() -> (r: Vec<u8>)
    ensures
        r@ == lit_steam_rungameid_uri(),
{
    let v: Vec<u8> = vec![115u8, 116u8, 101u8, 97u8, 109u8, 58u8, 47u8, 47u8, 114u8, 117u8, 110u8, 103u8, 97u8, 109u8, 101u8, 105u8, 100u8, 47u8];
    proof {
        assert(v@ =~= lit_steam_rungameid_uri());
    }
    v
}

/// `"Steam App "`
pub open spec fn lit_steam_app_name_prefix() -> Seq<u8> {
    seq![83u8, 116u8, 101u8, 97u8, 109u8, 32u8, 65u8, 112u8, 112u8, 32u8]
}

/// `"Steam App "`
pub fn blit_steam_app_name_prefix() -> (r: Vec<u8>)
    ensures
        r@ == lit_steam_app_name_prefix(),
{
    let v: Vec<u8> = vec![83u8, 116u8, 101u8, 97u8, 109u8, 32u8, 65u8, 112u8, 112u8, 32u8];
    proof {
        assert(v@ =~= lit_steam_app_name_prefix());
    }
    v
}

/// `"\\\\"`
pub open spec fn lit_double_backslash() -> Seq<u8> {
    seq![92u8, 92u8]
}

/// `"\\\\"`
pub fn blit_double_backslash() -> (r: Vec<u8>)
    ensures
        r@ == lit_double_backslash(),
{
    let v: Vec<u8> = vec![92u8, 92u8];
    proof {
        assert(v@ =~= lit_double_backslash());
    }
    v
}

/// `"\\"`
pub open spec fn lit_single_backslash() -> Seq<u8> {
    seq![92u8]
}

/// `"\\"`
pub fn blit_single_backslash() -> (r: Vec<u8>)
    ensures
        r@ == lit_single_backslash(),
{
    let v: Vec<u8> = vec![92u8];
    proof {
        assert(v@ =~= lit_single_backslash());
    }
    v
}

/// `"logo.png"`
pub open spec fn lit_logo_png() -> Seq<u8> {
    seq![108u8, 111u8, 103u8, 111u8, 46u8, 112u8, 110u8, 103u8]
}

/// `"logo.png"`
pub fn blit_logo_png() -> (r: Vec<u8>)
    ensures
        r@ == lit_logo_png(),
{
    let v: Vec<u8> = vec![108u8, 111u8, 103u8, 111u8, 46u8, 112u8, 110u8, 103u8];
    proof {
        assert(v@ =~= lit_logo_png());
    }
    v
}

/// `"library_600x900.jpg"`
pub open spec fn lit_library_600x900() -> Seq<u8> {
    seq![108u8, 105u8, 98u8, 114u8, 97u8, 114u8, 121u8, 95u8, 54u8, 48u8, 48u8, 120u8, 57u8, 48u8, 48u8, 46u8, 106u8, 112u8, 103u8]
}

/// `"library_600x900.jpg"`
pub fn blit_library_600x900() -> (r: Vec<u8>)
    ensures
        r@ == lit_library_600x900(),
{
    let v: Vec<u8> = vec![108u8, 105u8, 98u8, 114u8, 97u8, 114u8, 121u8, 95u8, 54u8, 48u8, 48u8, 120u8, 57u8, 48u8, 48u8, 46u8, 106u8, 112u8, 103u8];
    proof {
        assert(v@ =~= lit_library_600x900());
    }
    v
}

/// `"library_header.jpg"`
pub open spec fn lit_library_header() -> Seq<u8> {
    seq![108u8, 105u8, 98u8, 114u8, 97u8, 114u8, 121u8, 95u8, 104u8, 101u8, 97u8, 100u8, 101u8, 114u8, 46u8, 106u8, 112u8, 103u8]
}

/// `"library_header.jpg"`
pub fn blit_library_header() -> (r: Vec<u8>)
    ensures
        r@ == lit_library_header(),
{
    let v: Vec<u8> = vec![108u8, 105u8, 98u8, 114u8, 97u8, 114u8, 121u8, 95u8, 104u8, 101u8, 97u8, 100u8, 101u8, 114u8, 46u8, 106u8, 112u8, 103u8];
    proof {
        assert(v@ =~= lit_library_header());
    }
    v
}

/// `"png"`
pub open spec fn lit_ext_png() -> Seq<u8> {
    seq![112u8, 110u8, 103u8]
}

/// `"png"`
pub fn blit_ext_png() -> (r: Vec<u8>)
    ensures
        r@ == lit_ext_png(),
{
    let v: Vec<u8> = vec![112u8, 110u8, 103u8];
    proof {
        assert(v@ =~= lit_ext_png());
    }
    v
}

/// `"jpg"`
pub open spec fn lit_ext_jpg() -> Seq<u8> {
    seq![106u8, 112u8, 103u8]
}

/// `"jpg"`
pub fn blit_ext_jpg() -> (r: Vec<u8>)
    ensures
        r@ == lit_ext_jpg(),
{
    let v: Vec<u8> = vec![106u8, 112u8, 103u8];
    proof {
        assert(v@ =~= lit_ext_jpg());
    }
    v
}

/// `"jpeg"`
pub open spec fn lit_ext_jpeg() -> Seq<u8> {
    seq![106u8, 112u8, 101u8, 103u8]
}

/// `"jpeg"`
pub fn blit_ext_jpeg() -> (r: Vec<u8>)
    ensures
        r@ == lit_ext_jpeg(),
{
    let v: Vec<u8> = vec![106u8, 112u8, 101u8, 103u8];
    proof {
        assert(v@ =~= lit_ext_jpeg());
    }
    v
}

/// `"webp"`
pub open spec fn lit_ext_webp() -> Seq<u8> {
    seq![119u8, 101u8, 98u8, 112u8]
}

/// `"webp"`
pub fn blit_ext_webp() -> (r: Vec<u8>)
    ensures
        r@ == lit_ext_webp(),
{
    let v: Vec<u8> = vec![119u8, 101u8, 98u8, 112u8];
    proof {
        assert(v@ =~= lit_ext_webp());
    }
    v
}

/// `"svg"`
pub open spec fn lit_ext_svg() -> Seq<u8> {
    seq![115u8, 118u8, 103u8]
}

/// `"svg"`
pub fn blit_ext_svg() -> (r: Vec<u8>)
    ensures
        r@ == lit_ext_svg(),
{
    let v: Vec<u8> = vec![115u8, 118u8, 103u8];
    proof {
        assert(v@ =~= lit_ext_svg());
    }
    v
}

/// `"daemon"`
pub open spec fn lit_daemon() -> Seq<u8> {
    seq![100u8, 97u8, 101u8, 109u8, 111u8, 110u8]
}

/// `"daemon"`
pub fn blit_daemon() -> (r: Vec<u8>)
    ensures
        r@ == lit_daemon(),
{
    let v: Vec<u8> = vec![100u8, 97u8, 101u8, 109u8, 111u8, 110u8];
    proof {
        assert(v@ =~= lit_daemon());
    }
    v
}

/// `"applet"`
pub open spec fn lit_applet() -> Seq<u8> {
    seq![97u8, 112u8, 112u8, 108u8, 101u8, 116u8]
}

/// `"applet"`
pub fn blit_applet() -> (r: Vec<u8>)
    ensures
        r@ == lit_applet(),
{
    let v: Vec<u8> = vec![97u8, 112u8, 112u8, 108u8, 101u8, 116u8];
    proof {
        assert(v@ =~= lit_applet());
    }
    v
}

/// `"helper"`
pub open spec fn lit_helper() -> Seq<u8> {
    seq![104u8, 101u8, 108u8, 112u8, 101u8, 114u8]
}

/// `"helper"`
pub fn blit_helper() -> (r: Vec<u8>)
    ensures
        r@ == lit_helper(),
{
    let v: Vec<u8> = vec![104u8, 101u8, 108u8, 112u8, 101u8, 114u8];
    proof {
        assert(v@ =~= lit_helper());
    }
    v
}

/// `"service"`
pub open spec fn lit_service() -> Seq<u8> {
    seq![115u8, 101u8, 114u8, 118u8, 105u8, 99u8, 101u8]
}

/// `"service"`
pub fn blit_service() -> (r: Vec<u8>)
    ensures
        r@ == lit_service(),
{
    let v: Vec<u8> = vec![115u8, 101u8, 114u8, 118u8, 105u8, 99u8, 101u8];
    proof {
        assert(v@ =~= lit_service());
    }
    v
}

/// `"cosmicapplet"`
pub open spec fn lit_excl_cosmicapplet() -> Seq<u8> {
    seq![99u8, 111u8, 115u8, 109u8, 105u8, 99u8, 97u8, 112u8, 112u8, 108u8, 101u8, 116u8]
}

/// `"cosmicapplet"`
pub fn blit_excl_cosmicapplet() -> (r: Vec<u8>)
    ensures
        r@ == lit_excl_cosmicapplet(),
{
    let v: Vec<u8> = vec![99u8, 111u8, 115u8, 109u8, 105u8, 99u8, 97u8, 112u8, 112u8, 108u8, 101u8, 116u8];
    proof {
        assert(v@ =~= lit_excl_cosmicapplet());
    }
    v
}

/// `"cosmic-applet"`
pub open spec fn lit_excl_cosmic_applet() -> Seq<u8> {
    seq![99u8, 111u8, 115u8, 109u8, 105u8, 99u8, 45u8, 97u8, 112u8, 112u8, 108u8, 101u8, 116u8]
}

/// `"cosmic-applet"`
pub fn blit_excl_cosmic_applet() -> (r: Vec<u8>)
    ensures
        r@ == lit_excl_cosmic_applet(),
{
    let v: Vec<u8> = vec![99u8, 111u8, 115u8, 109u8, 105u8, 99u8, 45u8, 97u8, 112u8, 112u8, 108u8, 101u8, 116u8];
    proof {
        assert(v@ =~= lit_excl_cosmic_applet());
    }
    v
}

/// `"cosmic-panel-button"`
pub open spec fn lit_excl_cosmic_panel_button() -> Seq<u8> {
    seq![99u8, 111u8, 115u8, 109u8, 105u8, 99u8, 45u8, 112u8, 97u8, 110u8, 101u8, 108u8, 45u8, 98u8, 117u8, 116u8, 116u8, 111u8, 110u8]
}

/// `"cosmic-panel-button"`
pub fn blit_excl_cosmic_panel_button() -> (r: Vec<u8>)
    ensures
        r@ == lit_excl_cosmic_panel_button(),
{
    let v: Vec<u8> = vec![99u8, 111u8, 115u8, 109u8, 105u8, 99u8, 45u8, 112u8, 97u8, 110u8, 101u8, 108u8, 45u8, 98u8, 117u8, 116u8, 116u8, 111u8, 110u8];
    proof {
        assert(v@ =~= lit_excl_cosmic_panel_button());
    }
    v
}

/// `"cosmic-status-area"`
pub open spec fn lit_excl_cosmic_status_area() -> Seq<u8> {
    seq![99u8, 111u8, 115u8, 109u8, 105u8, 99u8, 45u8, 115u8, 116u8, 97u8, 116u8, 117u8, 115u8, 45u8, 97u8, 114u8, 101u8, 97u8]
}

/// `"cosmic-status-area"`
pub fn blit_excl_cosmic_status_area() -> (r: Vec<u8>)
    ensures
        r@ == lit_excl_cosmic_status_area(),
{
    let v: Vec<u8> = vec![99u8, 111u8, 115u8, 109u8, 105u8, 99u8, 45u8, 115u8, 116u8, 97u8, 116u8, 117u8, 115u8, 45u8, 97u8, 114u8, 101u8, 97u8];
    proof {
        assert(v@ =~= lit_excl_cosmic_status_area());
    }
    v
}

/// `"cosmic-notifications"`
pub open spec fn lit_excl_cosmic_notifications() -> Seq<u8> {
    seq![99u8, 111u8, 115u8, 109u8, 105u8, 99u8, 45u8, 110u8, 111u8, 116u8, 105u8, 102u8, 105u8, 99u8, 97u8, 116u8, 105u8, 111u8, 110u8, 115u8]
}

/// `"cosmic-notifications"`
pub fn blit_excl_cosmic_notifications() -> (r: Vec<u8>)
    ensures
        r@ == lit_excl_cosmic_notifications(),
{
    let v: Vec<u8> = vec![99u8, 111u8, 115u8, 109u8, 105u8, 99u8, 45u8, 110u8, 111u8, 116u8, 105u8, 102u8, 105u8, 99u8, 97u8, 116u8, 105u8, 111u8, 110u8, 115u8];
    proof {
        assert(v@ =~= lit_excl_cosmic_notifications());
    }
    v
}

/// `"cosmic-osd"`
pub open spec fn lit_excl_cosmic_osd() -> Seq<u8> {
    seq![99u8, 111u8, 115u8, 109u8, 105u8, 99u8, 45u8, 111u8, 115u8, 100u8]
}

/// `"cosmic-osd"`
pub fn blit_excl_cosmic_osd() -> (r: Vec<u8>)
    ensures
        r@ == lit_excl_cosmic_osd(),
{
    let v: Vec<u8> = vec![99u8, 111u8, 115u8, 109u8, 105u8, 99u8, 45u8, 111u8, 115u8, 100u8];
    proof {
        assert(v@ =~= lit_excl_cosmic_osd());
    }
    v
}

/// `"cosmic-workspaces"`
pub open spec fn lit_excl_cosmic_workspaces() -> Seq<u8> {
    seq![99u8, 111u8, 115u8, 109u8, 105u8, 99u8, 45u8, 119u8, 111u8, 114u8, 107u8, 115u8, 112u8, 97u8, 99u8, 101u8, 115u8]
}

/// `"cosmic-workspaces"`
pub fn blit_excl_cosmic_workspaces() -> (r: Vec<u8>)
    ensures
        r@ == lit_excl_cosmic_workspaces(),
{
    let v: Vec<u8> = vec![99u8, 111u8, 115u8, 109u8, 105u8, 99u8, 45u8, 119u8, 111u8, 114u8, 107u8, 115u8, 112u8, 97u8, 99u8, 101u8, 115u8];
    proof {
        assert(v@ =~= lit_excl_cosmic_workspaces());
    }
    v
}

/// `"cosmic-launcher"`
pub open spec fn lit_excl_cosmic_launcher() -> Seq<u8> {
    seq![99u8, 111u8, 115u8, 109u8, 105u8, 99u8, 45u8, 108u8, 97u8, 117u8, 110u8, 99u8, 104u8, 101u8, 114u8]
}

/// `"cosmic-launcher"`
pub fn blit_excl_cosmic_launcher() -> (r: Vec<u8>)
    ensures
        r@ == lit_excl_cosmic_launcher(),
{
    let v: Vec<u8> = vec![99u8, 111u8, 115u8, 109u8, 105u8, 99u8, 45u8, 108u8, 97u8, 117u8, 110u8, 99u8, 104u8, 101u8, 114u8];
    proof {
        assert(v@ =~= lit_excl_cosmic_launcher());
    }
    v
}

/// `"cosmic-greeter"`
pub open spec fn lit_excl_cosmic_greeter() -> Seq<u8> {
    seq![99u8, 111u8, 115u8, 109u8, 105u8, 99u8, 45u8, 103u8, 114u8, 101u8, 101u8, 116u8, 101u8, 114u8]
}

/// `"cosmic-greeter"`
pub fn blit_excl_cosmic_greeter() -> (r: Vec<u8>)
    ensures
        r@ == lit_excl_cosmic_greeter(),
{
    let v: Vec<u8> = vec![99u8, 111u8, 115u8, 109u8, 105u8, 99u8, 45u8, 103u8, 114u8, 101u8, 101u8, 116u8, 101u8, 114u8];
    proof {
        assert(v@ =~= lit_excl_cosmic_greeter());
    }
    v
}

/// `"xdg-desktop-portal"`
pub open spec fn lit_excl_xdg_desktop_portal() -> Seq<u8> {
    seq![120u8, 100u8, 103u8, 45u8, 100u8, 101u8, 115u8, 107u8, 116u8, 111u8, 112u8, 45u8, 112u8, 111u8, 114u8, 116u8, 97u8, 108u8]
}

/// `"xdg-desktop-portal"`
pub fn blit_excl_xdg_desktop_portal() -> (r: Vec<u8>)
    ensures
        r@ == lit_excl_xdg_desktop_portal(),
{
    let v: Vec<u8> = vec![120u8, 100u8, 103u8, 45u8, 100u8, 101u8, 115u8, 107u8, 116u8, 111u8, 112u8, 45u8, 112u8, 111u8, 114u8, 116u8, 97u8, 108u8];
    proof {
        assert(v@ =~= lit_excl_xdg_desktop_portal());
    }
    v
}

/// `"en_US"`
pub open spec fn lit_locale_default() -> Seq<u8> {
    seq![101u8, 110u8, 95u8, 85u8, 83u8]
}

/// `"en_US"`
pub fn blit_locale_default() -> (r: Vec<u8>)
    ensures
        r@ == lit_locale_default(),
{
    let v: Vec<u8> = vec![101u8, 110u8, 95u8, 85u8, 83u8];
    proof {
        assert(v@ =~= lit_locale_default());
    }
    v
}

/// `"1"`
pub open spec fn lit_flag_one() -> Seq<u8> {
    seq![49u8]
}

/// `"1"`
pub fn blit_flag_one() -> (r: Vec<u8>)
    ensures
        r@ == lit_flag_one(),
{
    let v: Vec<u8> = vec![49u8];
    proof {
        assert(v@ =~= lit_flag_one());
    }
    v
}

/// `"true"`
pub open spec fn lit_flag_true() -> Seq<u8> {
    seq![116u8, 114u8, 117u8, 101u8]
}

/// `"true"`
pub fn blit_flag_true() -> (r: Vec<u8>)
    ensures
        r@ == lit_flag_true(),
{
    let v: Vec<u8> = vec![116u8, 114u8, 117u8, 101u8];
    proof {
        assert(v@ =~= lit_flag_true());
    }
    v
}

/// `"yes"`
pub open spec fn lit_flag_yes() -> Seq<u8> {
    seq![121u8, 101u8, 115u8]
}

/// `"yes"`
pub fn blit_flag_yes() -> (r: Vec<u8>)
    ensures
        r@ == lit_flag_yes(),
{
    let v: Vec<u8> = vec![121u8, 101u8, 115u8];
    proof {
        assert(v@ =~= lit_flag_yes());
    }
    v
}

/// `"on"`
pub open spec fn lit_flag_on() -> Seq<u8> {
    seq![111u8, 110u8]
}

/// `"on"`
pub fn blit_flag_on() -> (r: Vec<u8>)
    ensures
        r@ == lit_flag_on(),
{
    let v: Vec<u8> = vec![111u8, 110u8];
    proof {
        assert(v@ =~= lit_flag_on());
    }
    v
}

/// `"%f"`
pub open spec fn lit_fc_f() -> Seq<u8> {
    seq![37u8, 102u8]
}

/// `"%f"`
pub fn blit_fc_f() -> (r: Vec<u8>)
    ensures
        r@ == lit_fc_f(),
{
    let v: Vec<u8> = vec![37u8, 102u8];
    proof {
        assert(v@ =~= lit_fc_f());
    }
    v
}

/// `"%F"`
pub open spec fn lit_fc_f_up() -> Seq<u8> {
    seq![37u8, 70u8]
}

/// `"%F"`
pub fn blit_fc_f_up() -> (r: Vec<u8>)
    ensures
        r@ == lit_fc_f_up(),
{
    let v: Vec<u8> = vec![37u8, 70u8];
    proof {
        assert(v@ =~= lit_fc_f_up());
    }
    v
}

/// `"%u"`
pub open spec fn lit_fc_u() -> Seq<u8> {
    seq![37u8, 117u8]
}

/// `"%u"`
pub fn blit_fc_u() -> (r: Vec<u8>)
    ensures
        r@ == lit_fc_u(),
{
    let v: Vec<u8> = vec![37u8, 117u8];
    proof {
        assert(v@ =~= lit_fc_u());
    }
    v
}

/// `"%U"`
pub open spec fn lit_fc_u_up() -> Seq<u8> {
    seq![37u8, 85u8]
}

/// `"%U"`
pub fn blit_fc_u_up() -> (r: Vec<u8>)
    ensures
        r@ == lit_fc_u_up(),
{
    let v: Vec<u8> = vec![37u8, 85u8];
    proof {
        assert(v@ =~= lit_fc_u_up());
    }
    v
}

/// `"%d"`
pub open spec fn lit_fc_d() -> Seq<u8> {
    seq![37u8, 100u8]
}

/// `"%d"`
pub fn blit_fc_d() -> (r: Vec<u8>)
    ensures
        r@ == lit_fc_d(),
{
    let v: Vec<u8> = vec![37u8, 100u8];
    proof {
        assert(v@ =~= lit_fc_d());
    }
    v
}

/// `"%D"`
pub open spec fn lit_fc_d_up() -> Seq<u8> {
    seq![37u8, 68u8]
}

/// `"%D"`
pub fn blit_fc_d_up() -> (r: Vec<u8>)
    ensures
        r@ == lit_fc_d_up(),
{
    let v: Vec<u8> = vec![37u8, 68u8];
    proof {
        assert(v@ =~= lit_fc_d_up());
    }
    v
}

/// `"%n"`
pub open spec fn lit_fc_n() -> Seq<u8> {
    seq![37u8, 110u8]
}

/// `"%n"`
pub fn blit_fc_n() -> (r: Vec<u8>)
    ensures
        r@ == lit_fc_n(),
{
    let v: Vec<u8> = vec![37u8, 110u8];
    proof {
        assert(v@ =~= lit_fc_n());
    }
    v
}

/// `"%N"`
pub open spec fn lit_fc_n_up() -> Seq<u8> {
    seq![37u8, 78u8]
}

/// `"%N"`
pub fn blit_fc_n_up() -> (r: Vec<u8>)
    ensures
        r@ == lit_fc_n_up(),
{
    let v: Vec<u8> = vec![37u8, 78u8];
    proof {
        assert(v@ =~= lit_fc_n_up());
    }
    v
}

/// `"%k"`
pub open spec fn lit_fc_k() -> Seq<u8> {
    seq![37u8, 107u8]
}

/// `"%k"`
pub fn blit_fc_k() -> (r: Vec<u8>)
    ensures
        r@ == lit_fc_k(),
{
    let v: Vec<u8> = vec![37u8, 107u8];
    proof {
        assert(v@ =~= lit_fc_k());
    }
    v
}

/// `"%v"`
pub open spec fn lit_fc_v() -> Seq<u8> {
    seq![37u8, 118u8]
}

/// `"%v"`
pub fn blit_fc_v() -> (r: Vec<u8>)
    ensures
        r@ == lit_fc_v(),
{
    let v: Vec<u8> = vec![37u8, 118u8];
    proof {
        assert(v@ =~= lit_fc_v());
    }
    v
}

/// `"%m"`
pub open spec fn lit_fc_m() -> Seq<u8> {
    seq![37u8, 109u8]
}

/// `"%m"`
pub fn blit_fc_m() -> (r: Vec<u8>)
    ensures
        r@ == lit_fc_m(),
{
    let v: Vec<u8> = vec![37u8, 109u8];
    proof {
        assert(v@ =~= lit_fc_m());
    }
    v
}

/// `"%i"`
pub open spec fn lit_fc_i() -> Seq<u8> {
    seq![37u8, 105u8]
}

/// `"%i"`
pub fn blit_fc_i() -> (r: Vec<u8>)
    ensures
        r@ == lit_fc_i(),
{
    let v: Vec<u8> = vec![37u8, 105u8];
    proof {
        assert(v@ =~= lit_fc_i());
    }
    v
}

/// `"%c"`
pub open spec fn lit_fc_c() -> Seq<u8> {
    seq![37u8, 99u8]
}

/// `"%c"`
pub fn blit_fc_c() -> (r: Vec<u8>)
    ensures
        r@ == lit_fc_c(),
{
    let v: Vec<u8> = vec![37u8, 99u8];
    proof {
        assert(v@ =~= lit_fc_c());
    }
    v
}

/// `"%%"`
pub open spec fn lit_percent_percent() -> Seq<u8> {
    seq![37u8, 37u8]
}

/// `"%%"`
pub fn blit_percent_percent() -> (r: Vec<u8>)
    ensures
        r@ == lit_percent_percent(),
{
    let v: Vec<u8> = vec![37u8, 37u8];
    proof {
        assert(v@ =~= lit_percent_percent());
    }
    v
}

/// `"%"`
pub open spec fn lit_percent() -> Seq<u8> {
    seq![37u8]
}

/// `"%"`
pub fn blit_percent() -> (r: Vec<u8>)
    ensures
        r@ == lit_percent(),
{
    let v: Vec<u8> = vec![37u8];
    proof {
        assert(v@ =~= lit_percent());
    }
    v
}

/// `"-lc"`
pub open spec fn lit_dash_lc() -> Seq<u8> {
    seq![45u8, 108u8, 99u8]
}

/// `"-lc"`
pub fn blit_dash_lc() -> (r: Vec<u8>)
    ensures
        r@ == lit_dash_lc(),
{
    let v: Vec<u8> = vec![45u8, 108u8, 99u8];
    proof {
        assert(v@ =~= lit_dash_lc());
    }
    v
}

/// `"gio"`
pub open spec fn lit_gio() -> Seq<u8> {
    seq![103u8, 105u8, 111u8]
}

/// `"gio"`
pub fn blit_gio() -> (r: Vec<u8>)
    ensures
        r@ == lit_gio(),
{
    let v: Vec<u8> = vec![103u8, 105u8, 111u8];
    proof {
        assert(v@ =~= lit_gio());
    }
    v
}

/// `"launch"`
pub open spec fn lit_launch_word() -> Seq<u8> {
    seq![108u8, 97u8, 117u8, 110u8, 99u8, 104u8]
}

/// `"launch"`
pub fn blit_launch_word() -> (r: Vec<u8>)
    ensures
        r@ == lit_launch_word(),
{
    let v: Vec<u8> = vec![108u8, 97u8, 117u8, 110u8, 99u8, 104u8];
    proof {
        assert(v@ =~= lit_launch_word());
    }
    v
}

/// `"app_id="`
pub open spec fn lit_info_app_id() -> Seq<u8> {
    seq![97u8, 112u8, 112u8, 95u8, 105u8, 100u8, 61u8]
}

/// `"app_id="`
pub fn blit_info_app_id() -> (r: Vec<u8>)
    ensures
        r@ == lit_info_app_id(),
{
    let v: Vec<u8> = vec![97u8, 112u8, 112u8, 95u8, 105u8, 100u8, 61u8];
    proof {
        assert(v@ =~= lit_info_app_id());
    }
    v
}

/// `"pid="`
pub open spec fn lit_info_pid() -> Seq<u8> {
    seq![112u8, 105u8, 100u8, 61u8]
}

/// `"pid="`
pub fn blit_info_pid() -> (r: Vec<u8>)
    ensures
        r@ == lit_info_pid(),
{
    let v: Vec<u8> = vec![112u8, 105u8, 100u8, 61u8];
    proof {
        assert(v@ =~= lit_info_pid());
    }
    v
}

/// `"/.local/share/Steam"`
pub open spec fn lit_home_local_steam() -> Seq<u8> {
    seq![47u8, 46u8, 108u8, 111u8, 99u8, 97u8, 108u8, 47u8, 115u8, 104u8, 97u8, 114u8, 101u8, 47u8, 83u8, 116u8, 101u8, 97u8, 109u8]
}

/// `"/.local/share/Steam"`
pub fn blit_home_local_steam() -> (r: Vec<u8>)
    ensures
        r@ == lit_home_local_steam(),
{
    let v: Vec<u8> = vec![47u8, 46u8, 108u8, 111u8, 99u8, 97u8, 108u8, 47u8, 115u8, 104u8, 97u8, 114u8, 101u8, 47u8, 83u8, 116u8, 101u8, 97u8, 109u8];
    proof {
        assert(v@ =~= lit_home_local_steam());
    }
    v
}

/// `"/.steam/steam"`
pub open spec fn lit_home_legacy_steam() -> Seq<u8> {
    seq![47u8, 46u8, 115u8, 116u8, 101u8, 97u8, 109u8, 47u8, 115u8, 116u8, 101u8, 97u8, 109u8]
}

/// `"/.steam/steam"`
pub fn blit_home_legacy_steam() -> (r: Vec<u8>)
    ensures
        r@ == lit_home_legacy_steam(),
{
    let v: Vec<u8> = vec![47u8, 46u8, 115u8, 116u8, 101u8, 97u8, 109u8, 47u8, 115u8, 116u8, 101u8, 97u8, 109u8];
    proof {
        assert(v@ =~= lit_home_legacy_steam());
    }
    v
}

} // verus!
